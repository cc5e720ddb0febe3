//! From a file extension to the content type that the response announces.

use crate::text::same_text;
use vstd::prelude::*;

verus! {

/// The content type for the extension `extension`, which is compared as it
/// is: the table holds lower-case extensions only.
///
/// An extension that the table does not hold is announced as `image/png`.
/// That is not the type of such a file; it is what this server has always
/// sent for it, and clients may rely on it.
pub open spec fn content_type(extension: Seq<char>) -> Seq<char> {
    if extension == "png"@ {
        "image/png"@
    } else if extension == "jpg"@ || extension == "jpeg"@ {
        "image/jpeg"@
    } else if extension == "gif"@ {
        "image/gif"@
    } else if extension == "mp4"@ {
        "video/mp4"@
    } else if extension == "pdf"@ {
        "application/pdf"@
    } else if extension == "html"@ {
        "text/html"@
    } else {
        "image/png"@
    }
}

/// The extensions that the table holds.
pub open spec fn known_extensions() -> Set<Seq<char>> {
    set!["png"@, "jpg"@, "jpeg"@, "gif"@, "mp4"@, "pdf"@, "html"@]
}

/// The content type for the extension `file_type`.
pub fn get_content_type(file_type: &str) -> (mime: &str)
    ensures
        mime@ == content_type(file_type@),
        !known_extensions().contains(file_type@) ==> mime@ == "image/png"@,
{
    if same_text(file_type, "png") {
        "image/png"
    } else if same_text(file_type, "jpg") || same_text(file_type, "jpeg") {
        "image/jpeg"
    } else if same_text(file_type, "gif") {
        "image/gif"
    } else if same_text(file_type, "mp4") {
        "video/mp4"
    } else if same_text(file_type, "pdf") {
        "application/pdf"
    } else if same_text(file_type, "html") {
        "text/html"
    } else {
        "image/png"
    }
}

/// An extension that the table does not hold gets `image/png`.
pub proof fn lemma_unknown_extension(extension: Seq<char>)
    requires
        !known_extensions().contains(extension),
    ensures
        content_type(extension) == "image/png"@,
{
}

/// Only the extension `html` gets `text/html`.
pub proof fn lemma_html_only(extension: Seq<char>)
    ensures
        content_type(extension) == "text/html"@ <==> extension == "html"@,
{
    reveal_strlit("text/html");
    reveal_strlit("image/png");
    reveal_strlit("image/jpeg");
    reveal_strlit("image/gif");
    reveal_strlit("video/mp4");
    reveal_strlit("application/pdf");
    assert("text/html"@[0] == 't');
    assert("image/png"@[0] == 'i');
    assert("image/jpeg"@[0] == 'i');
    assert("image/gif"@[0] == 'i');
    assert("video/mp4"@[0] == 'v');
    assert("application/pdf"@[0] == 'a');
    reveal_strlit("html");
    reveal_strlit("png");
    reveal_strlit("jpg");
    reveal_strlit("jpeg");
    reveal_strlit("gif");
    reveal_strlit("mp4");
    reveal_strlit("pdf");
    assert("html"@[0] == 'h');
    assert("png"@[0] == 'p');
    assert("jpg"@[0] == 'j');
    assert("jpeg"@[0] == 'j');
    assert("gif"@[0] == 'g');
    assert("mp4"@[0] == 'm');
    assert("pdf"@[0] == 'p');
}

} // verus!
