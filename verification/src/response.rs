//! The response to one request, byte for byte.
//!
//! A file whose content type is `text/html` is sent as text, with a line feed
//! after it and no length. Any other file is sent as it is, with its length
//! in a `Content-Length` header. A file that could not be read, or an HTML
//! file that is not UTF-8, is answered by `404 Not found`.
//!
//! Reading the file is the caller's part: it hands over what reading gave.
//! Where a file that is not HTML was opened and could then not be read to
//! its end, there is no answer at all: the connection is given up.

use crate::content_type::{content_type, get_content_type, lemma_html_only};
use crate::request::Headers;
use crate::resolve::{
    extension, find_extension, lemma_asset_path, lemma_page_path, resolved_path,
};
use crate::text::same_text;
use vstd::prelude::*;
use vstd::utf8::*;

verus! {

/// The ASCII digit for `d`.
pub open spec fn digit(d: nat) -> u8
    recommends
        d < 10,
{
    (48 + d) as u8
}

/// `n` in decimal, as ASCII digits without leading zeros.
pub open spec fn decimal(n: nat) -> Seq<u8>
    decreases n,
{
    if n < 10 {
        seq![digit(n)]
    } else {
        decimal(n / 10).push(digit(n % 10))
    }
}

/// The number that the ASCII digits `digits` stand for.
pub open spec fn decimal_value(digits: Seq<u8>) -> nat
    decreases digits.len(),
{
    if digits.len() == 0 {
        0
    } else {
        decimal_value(digits.drop_last()) * 10 + (digits.last() - 48) as nat
    }
}

/// The content type of the file at `path`, which goes by its extension. A
/// path without an extension gets what an unknown extension gets.
pub open spec fn path_content_type(path: Seq<char>) -> Seq<char> {
    match extension(path) {
        Some(text) => content_type(text),
        None => "image/png"@,
    }
}

/// The answer where there is no file to send.
pub open spec fn not_found(version: Seq<char>) -> Seq<u8> {
    encode_utf8(version) + encode_utf8(
        " 404 Not found\r\nContent-Type: text/plain\r\n\r\nFile not found\n"@,
    )
}

/// The answer that sends `text` as an HTML page.
pub open spec fn page(version: Seq<char>, text: Seq<u8>) -> Seq<u8> {
    encode_utf8(version) + encode_utf8(" 200 Ok\r\nContent-Type: text/html\r\n\r\n"@) + text
        + encode_utf8("\n"@)
}

/// Status line and headers of the answer that sends `length` bytes of type `mime`.
pub open spec fn asset_head(version: Seq<char>, mime: Seq<char>, length: nat) -> Seq<u8> {
    encode_utf8(version) + encode_utf8(" 200 Ok\r\nContent-Type: "@) + encode_utf8(mime)
        + encode_utf8("\r\nContent-Length: "@) + decimal(length) + encode_utf8("\r\n\r\n"@)
}

/// The answer that sends `data` as a file of type `mime`.
pub open spec fn asset(version: Seq<char>, mime: Seq<char>, data: Seq<u8>) -> Seq<u8> {
    asset_head(version, mime, data.len()) + data
}

/// The answer to a request for the file at `path`, where reading it gave
/// `file`: `None` where it could not be read.
pub open spec fn response(version: Seq<char>, path: Seq<char>, file: Option<Seq<u8>>) -> Seq<u8> {
    let mime = path_content_type(path);
    match file {
        None => not_found(version),
        Some(data) => if mime != "text/html"@ {
            asset(version, mime, data)
        } else if valid_utf8(data) {
            page(version, data)
        } else {
            not_found(version)
        },
    }
}

/// What was read, as plain bytes.
pub open spec fn contents(file: Option<Vec<u8>>) -> Option<Seq<u8>> {
    match file {
        Some(data) => Some(data@),
        None => None,
    }
}

/// What reading a file gave.
#[derive(Debug, Clone, PartialEq, Eq)]
pub enum FileRead {
    /// The file could not be opened.
    Unopened,
    /// The file was opened, and reading it to its end failed.
    Failed,
    /// All that the file holds.
    Whole(Vec<u8>),
}

/// What reading a file gave, as plain values: the view of [`FileRead`].
pub enum Reading {
    Unopened,
    Failed,
    Whole(Seq<u8>),
}

impl View for FileRead {
    type V = Reading;

    open spec fn view(&self) -> Reading {
        match self {
            FileRead::Unopened => Reading::Unopened,
            FileRead::Failed => Reading::Failed,
            FileRead::Whole(data) => Reading::Whole(data@),
        }
    }
}

/// What is done for the client.
#[derive(Debug, Clone, PartialEq, Eq)]
pub enum Reply {
    /// These bytes are sent.
    Send(Vec<u8>),
    /// Nothing is sent, and the connection is given up.
    Abort,
}

impl View for Reply {
    type V = Option<Seq<u8>>;

    open spec fn view(&self) -> Option<Seq<u8>> {
        match self {
            Reply::Send(bytes) => Some(bytes@),
            Reply::Abort => None,
        }
    }
}

/// What is sent to a client that asked for the file at `path`, where reading
/// it gave `reading`; `None` where nothing is sent.
///
/// A file that could not be opened is not found. A file that was opened and
/// not read to its end is not found either where it was to be sent as HTML;
/// any other such file ends the connection without an answer.
pub open spec fn reply(version: Seq<char>, path: Seq<char>, reading: Reading) -> Option<Seq<u8>> {
    match reading {
        Reading::Whole(data) => Some(response(version, path, Some(data))),
        Reading::Unopened => Some(not_found(version)),
        Reading::Failed => if path_content_type(path) == "text/html"@ {
            Some(not_found(version))
        } else {
            None
        },
    }
}

/// Reading the digits of a number gives the number back.
pub proof fn lemma_decimal_value(n: nat)
    ensures
        decimal_value(decimal(n)) == n,
        decimal(n).len() > 0,
    decreases n,
{
    if n >= 10 {
        lemma_decimal_value(n / 10);
        assert(decimal(n).drop_last() == decimal(n / 10));
        assert(decimal(n).last() - 48 == n % 10);
    } else {
        reveal_with_fuel(decimal_value, 2);
        assert(decimal(n).drop_last() == Seq::<u8>::empty());
    }
}

/// A file that is not sent as HTML arrives byte for byte, after a head whose
/// `Content-Length` is the number of its bytes.
pub proof fn lemma_asset_round_trip(version: Seq<char>, path: Seq<char>, data: Seq<u8>)
    requires
        path_content_type(path) != "text/html"@,
    ensures
        ({
            let sent = response(version, path, Some(data));
            let head = asset_head(version, path_content_type(path), data.len());
            &&& sent == head + data
            &&& sent.take(head.len() as int) == head
            &&& sent.skip(head.len() as int) == data
            &&& decimal_value(decimal(data.len())) == data.len()
        }),
{
    lemma_decimal_value(data.len());
}

/// The file of a page is sent as HTML, and the file of an asset with the
/// content type of the extension that the URL path had.
pub proof fn lemma_resolved_content_type(path: Seq<char>)
    ensures
        match extension(path) {
            Some(text) => path_content_type(resolved_path(path)) == content_type(text),
            None => path_content_type(resolved_path(path)) == "text/html"@,
        },
{
    if extension(path) is Some {
        lemma_asset_path(path);
    } else {
        lemma_page_path(path);
        lemma_html_only("html"@);
    }
}

/// Whether `bytes` are well-formed UTF-8.
///
/// This is `std::str::from_utf8`, of which only success or failure is kept.
/// Not proved: that it accepts exactly the byte sequences that `valid_utf8`
/// describes.
#[verifier::external_body]
fn is_utf8(bytes: &[u8]) -> (yes: bool)
    ensures
        yes == valid_utf8(bytes@),
{
    std::str::from_utf8(bytes).is_ok()
}

/// Puts `bytes` at the end of `out`.
fn append_bytes(out: &mut Vec<u8>, bytes: &[u8])
    ensures
        final(out)@ == old(out)@ + bytes@,
{
    let mut i: usize = 0;
    while i < bytes.len()
        invariant
            i <= bytes.len(),
            out@ == old(out)@ + bytes@.take(i as int),
        decreases bytes.len() - i,
    {
        out.push(bytes[i]);
        assert(bytes@.take(i + 1) == bytes@.take(i as int).push(bytes@[i as int]));
        i += 1;
    }
    assert(bytes@.take(i as int) == bytes@);
}

/// Puts `text` at the end of `out`, in UTF-8.
fn append_text(out: &mut Vec<u8>, text: &str)
    ensures
        final(out)@ == old(out)@ + encode_utf8(text@),
{
    append_bytes(out, text.as_bytes());
}

/// Puts `n` at the end of `out`, in decimal.
fn append_decimal(out: &mut Vec<u8>, n: usize)
    ensures
        final(out)@ == old(out)@ + decimal(n as nat),
    decreases n,
{
    if n >= 10 {
        append_decimal(out, n / 10);
    }
    let last: u8 = 48 + (n % 10) as u8;
    out.push(last);
    assert(out@ == old(out)@ + decimal(n as nat));
}

impl Headers {
    /// Whether the file of this request is sent as an HTML page: whether its
    /// content type is `text/html`.
    pub fn serves_html(&self) -> (yes: bool)
        ensures
            yes == (path_content_type(self.path@) == "text/html"@),
    {
        match find_extension(self.path.as_str()) {
            Some(text) => same_text(get_content_type(text.as_str()), "text/html"),
            None => {
                proof {
                    reveal_strlit("image/png");
                    reveal_strlit("text/html");
                    assert("image/png"@[0] != "text/html"@[0]);
                }
                false
            },
        }
    }
}

/// Builds the response to `headers`, whose path is that of the file to
/// serve, from what reading that file gave: `None` where it could not be
/// read.
pub fn serve_file(headers: &Headers, file: Option<Vec<u8>>) -> (sent: Vec<u8>)
    ensures
        sent@ == response(headers.version@, headers.path@, contents(file)),
{
    let mut sent: Vec<u8> = Vec::new();
    append_text(&mut sent, headers.version.as_str());
    let extension = find_extension(headers.path.as_str());
    let mime: &str = match &extension {
        Some(text) => get_content_type(text.as_str()),
        None => "image/png",
    };
    let html = same_text(mime, "text/html");
    match file {
        Some(mut data) => {
            if !html {
                append_text(&mut sent, " 200 Ok\r\nContent-Type: ");
                append_text(&mut sent, mime);
                append_text(&mut sent, "\r\nContent-Length: ");
                append_decimal(&mut sent, data.len());
                append_text(&mut sent, "\r\n\r\n");
                sent.append(&mut data);
                return sent;
            }
            if is_utf8(data.as_slice()) {
                append_text(&mut sent, " 200 Ok\r\nContent-Type: text/html\r\n\r\n");
                sent.append(&mut data);
                append_text(&mut sent, "\n");
                return sent;
            }
        },
        None => {},
    }
    append_text(&mut sent, " 404 Not found\r\nContent-Type: text/plain\r\n\r\nFile not found\n");
    sent
}

/// Decides what the client gets, from what reading the file of `headers` gave.
pub fn respond(headers: &Headers, read: FileRead) -> (reply: Reply)
    ensures
        reply@ == self::reply(headers.version@, headers.path@, read@),
{
    match read {
        FileRead::Whole(data) => Reply::Send(serve_file(headers, Some(data))),
        FileRead::Unopened => Reply::Send(serve_file(headers, None)),
        FileRead::Failed => {
            if headers.serves_html() {
                Reply::Send(serve_file(headers, None))
            } else {
                Reply::Abort
            }
        },
    }
}

} // verus!
