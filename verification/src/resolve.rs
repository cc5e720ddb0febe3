//! From the path of a URL to the path of a file under the content root.
//!
//! A path whose final segment holds a dot names an asset and is looked up
//! under `./pages/assets`. Any other path names a page: `/` is
//! `./pages/index.html`, and a path `p` is `./pages/sub` + `p` + `.html`.
//! The path is joined as it came: nothing is added between the pieces and
//! nothing in it is checked, so `..` in a path is passed through.

use crate::request::Headers;
use crate::text::{chars_of, same_text};
use vstd::prelude::*;

verus! {

/// `path` without the slashes at its end.
pub open spec fn trim_slashes(path: Seq<char>) -> Seq<char>
    decreases path.len(),
{
    if path.len() > 0 && path.last() == '/' {
        trim_slashes(path.drop_last())
    } else {
        path
    }
}

/// What follows the last `mark` in `s`, or all of `s` where it holds none.
pub open spec fn after_last(s: Seq<char>, mark: char) -> Seq<char> {
    match s.index_of_last(mark) {
        Some(i) => s.skip(i + 1),
        None => s,
    }
}

/// The final segment of `path`: what follows its last slash, the slashes at
/// the end of the path aside.
pub open spec fn final_segment(path: Seq<char>) -> Seq<char> {
    after_last(trim_slashes(path), '/')
}

/// The extension of `path`: what follows the last dot of its final segment.
/// A path whose final segment holds no dot has none.
pub open spec fn extension(path: Seq<char>) -> Option<Seq<char>> {
    let segment = final_segment(path);
    if segment.contains('.') {
        Some(after_last(segment, '.'))
    } else {
        None
    }
}

/// The file that the URL path `path` stands for.
pub open spec fn resolved_path(path: Seq<char>) -> Seq<char> {
    if extension(path) is Some {
        "./pages/assets"@ + path
    } else if path == "/"@ {
        "./pages/index.html"@
    } else {
        "./pages/sub"@ + path + ".html"@
    }
}

/// `path[from..to]` is the extension of `path`, told by positions: the final
/// segment ends at `to`, a dot stands just before `from`, and neither a dot
/// nor a slash stands in between.
pub open spec fn extension_at(path: Seq<char>, from: int, to: int) -> bool {
    &&& 0 < from <= to <= path.len()
    &&& path[from - 1] == '.'
    &&& forall|j: int| from <= j < to ==> path[j] != '.' && path[j] != '/'
    &&& forall|j: int| to <= j < path.len() ==> path[j] == '/'
}

/// `path` has no extension, told by positions: the final segment is
/// `path[from..to]`, and no dot stands in it.
pub open spec fn segment_without_dot(path: Seq<char>, from: int, to: int) -> bool {
    &&& 0 <= from <= to <= path.len()
    &&& from > 0 ==> path[from - 1] == '/'
    &&& to > 0 ==> path[to - 1] != '/'
    &&& forall|j: int| from <= j < to ==> path[j] != '.' && path[j] != '/'
    &&& forall|j: int| to <= j < path.len() ==> path[j] == '/'
}

/// Where `mark` stands at `i` and nowhere after it, `i` is its last index.
proof fn lemma_last_index(s: Seq<char>, mark: char, i: int)
    requires
        0 <= i < s.len(),
        s[i] == mark,
        forall|j: int| i < j < s.len() ==> s[j] != mark,
    ensures
        s.index_of_last(mark) == Some(i),
{
    s.index_of_last_ensures(mark);
    assert(s.contains(mark));
}

/// Where `mark` stands nowhere in `s`, it has no last index.
proof fn lemma_no_index(s: Seq<char>, mark: char)
    requires
        forall|j: int| 0 <= j < s.len() ==> s[j] != mark,
    ensures
        s.index_of_last(mark) is None,
        !s.contains(mark),
{
    s.index_of_last_ensures(mark);
}

/// The slashes at the end of `path` start at `to`.
proof fn lemma_trimmed_at(path: Seq<char>, to: int)
    requires
        0 <= to <= path.len(),
        to > 0 ==> path[to - 1] != '/',
        forall|j: int| to <= j < path.len() ==> path[j] == '/',
    ensures
        trim_slashes(path) == path.take(to),
    decreases path.len(),
{
    if to < path.len() {
        lemma_trimmed_at(path.drop_last(), to);
        assert(path.drop_last().take(to) == path.take(to));
    } else {
        assert(path.take(to) == path);
    }
}

/// What `trim_slashes` leaves is a prefix that does not end in a slash, and
/// what it drops is slashes.
proof fn lemma_trim_slashes(path: Seq<char>) -> (to: int)
    ensures
        0 <= to <= path.len(),
        trim_slashes(path) == path.take(to),
        to > 0 ==> path[to - 1] != '/',
        forall|j: int| to <= j < path.len() ==> path[j] == '/',
    decreases path.len(),
{
    if path.len() > 0 && path.last() == '/' {
        let to = lemma_trim_slashes(path.drop_last());
        assert(path.drop_last().take(to) == path.take(to));
        assert forall|j: int| to <= j < path.len() implies path[j] == '/' by {
            if j < path.len() - 1 {
                assert(path.drop_last()[j] == path[j]);
            }
        }
        to
    } else {
        assert(path.take(path.len() as int) == path);
        path.len() as int
    }
}

/// The positions of an extension give the extension.
pub proof fn lemma_extension_at(path: Seq<char>, from: int, to: int)
    requires
        extension_at(path, from, to),
    ensures
        extension(path) == Some(path.subrange(from, to)),
{
    lemma_trimmed_at(path, to);
    let trimmed = path.take(to);
    trimmed.index_of_last_ensures('/');
    let start = match trimmed.index_of_last('/') {
        Some(i) => i + 1,
        None => 0,
    };
    let segment = final_segment(path);
    assert(segment == trimmed.skip(start));
    assert(start < from) by {
        if start >= from {
            assert(trimmed[start - 1] == '/');
        }
    }
    assert(segment[from - 1 - start] == '.');
    lemma_last_index(segment, '.', from - 1 - start);
    assert(segment.skip(from - start) == path.subrange(from, to));
}

/// A final segment without a dot leaves the path without an extension.
pub proof fn lemma_segment_without_dot(path: Seq<char>, from: int, to: int)
    requires
        segment_without_dot(path, from, to),
    ensures
        extension(path) is None,
{
    lemma_trimmed_at(path, to);
    let trimmed = path.take(to);
    if from > 0 {
        lemma_last_index(trimmed, '/', from - 1);
    } else {
        lemma_no_index(trimmed, '/');
    }
    let segment = final_segment(path);
    assert(segment == trimmed.skip(from));
    lemma_no_index(segment, '.');
}

/// Every path has its extension at some positions, or a final segment without a dot.
pub proof fn lemma_extension_positions(path: Seq<char>) -> (at: (int, int))
    ensures
        extension(path) is Some ==> extension_at(path, at.0, at.1),
        extension(path) is None ==> segment_without_dot(path, at.0, at.1),
{
    let to = lemma_trim_slashes(path);
    let trimmed = path.take(to);
    trimmed.index_of_last_ensures('/');
    let start = match trimmed.index_of_last('/') {
        Some(i) => i + 1,
        None => 0,
    };
    let segment = final_segment(path);
    assert(segment == trimmed.skip(start));
    assert forall|j: int| start <= j < to implies path[j] != '/' by {
        assert(trimmed[j] == path[j]);
        if trimmed.index_of_last('/') is None {
            assert(!trimmed.contains('/'));
        }
    }
    segment.index_of_last_ensures('.');
    match segment.index_of_last('.') {
        Some(k) => {
            let from = start + k + 1;
            assert(path[from - 1] == segment[k]);
            assert forall|j: int| from <= j < to implies path[j] != '.' by {
                assert(path[j] == segment[j - start]);
            }
            (from, to)
        },
        None => {
            assert forall|j: int| start <= j < to implies path[j] != '.' by {
                assert(path[j] == segment[j - start]);
            }
            (start, to)
        },
    }
}

/// Text put in front of a path that has an extension leaves the extension as it is.
pub proof fn lemma_extension_after_prefix(prefix: Seq<char>, path: Seq<char>)
    requires
        extension(path) is Some,
    ensures
        extension(prefix + path) == extension(path),
{
    let (from, to) = lemma_extension_positions(path);
    let n = prefix.len() as int;
    let joined = prefix + path;
    assert forall|j: int| n <= j < joined.len() implies joined[j] == path[j - n] by {}
    assert(joined[from + n - 1] == path[from - 1]);
    assert(extension_at(joined, from + n, to + n));
    lemma_extension_at(path, from, to);
    lemma_extension_at(joined, from + n, to + n);
    assert(joined.subrange(from + n, to + n) == path.subrange(from, to));
}

/// A path without an extension resolves to an HTML file under `./pages`:
/// `/` to `index.html`, any other path to a name that starts with `sub` and
/// ends in `.html`.
pub proof fn lemma_page_path(path: Seq<char>)
    requires
        extension(path) is None,
    ensures
        "./pages/"@.is_prefix_of(resolved_path(path)),
        ".html"@.is_suffix_of(resolved_path(path)),
        path == "/"@ ==> resolved_path(path) == "./pages/index.html"@,
        path != "/"@ ==> resolved_path(path) == "./pages/sub"@ + path + ".html"@,
        extension(resolved_path(path)) == Some("html"@),
{
    reveal_strlit("./pages/");
    reveal_strlit("./pages/index.html");
    reveal_strlit("./pages/sub");
    reveal_strlit(".html");
    reveal_strlit("html");
    let file = resolved_path(path);
    let n = file.len() as int;
    assert(file.subrange(0, 8) == "./pages/"@);
    assert(file.subrange(n - 5, n) == ".html"@);
    assert(extension_at(file, n - 4, n));
    lemma_extension_at(file, n - 4, n);
    assert(file.subrange(n - 4, n) == "html"@);
}

/// A path with an extension resolves to a file under `./pages/assets`, and
/// the file has the extension that the path has.
pub proof fn lemma_asset_path(path: Seq<char>)
    requires
        extension(path) is Some,
    ensures
        "./pages/assets"@.is_prefix_of(resolved_path(path)),
        resolved_path(path) == "./pages/assets"@ + path,
        extension(resolved_path(path)) == extension(path),
{
    lemma_extension_after_prefix("./pages/assets"@, path);
    let file = resolved_path(path);
    assert(file.subrange(0, "./pages/assets"@.len() as int) == "./pages/assets"@);
}

/// Every path resolves to a file under `./pages`, and that file has an
/// extension: `html` for a page, and for an asset the one that the path has.
pub proof fn lemma_resolved_under_root(path: Seq<char>)
    ensures
        "./pages/"@.is_prefix_of(resolved_path(path)),
        extension(resolved_path(path)) is Some,
{
    if extension(path) is Some {
        lemma_asset_path(path);
        reveal_strlit("./pages/");
        reveal_strlit("./pages/assets");
        assert(resolved_path(path).subrange(0, 8) == "./pages/"@);
    } else {
        lemma_page_path(path);
    }
}

/// Where the extension of `chars` stands, if it has one.
fn extension_bounds(chars: &Vec<char>) -> (bounds: Option<(usize, usize)>)
    ensures
        match bounds {
            Some((from, to)) => extension_at(chars@, from as int, to as int),
            None => extension(chars@) is None,
        },
{
    let mut to: usize = chars.len();
    while to > 0 && chars[to - 1] == '/'
        invariant
            to <= chars.len(),
            forall|j: int| to <= j < chars.len() ==> chars@[j] == '/',
        decreases to,
    {
        to -= 1;
    }
    let mut from: usize = to;
    while from > 0 && chars[from - 1] != '/' && chars[from - 1] != '.'
        invariant
            from <= to <= chars.len(),
            to > 0 ==> chars@[to - 1] != '/',
            forall|j: int| to <= j < chars.len() ==> chars@[j] == '/',
            forall|j: int| from <= j < to ==> chars@[j] != '.' && chars@[j] != '/',
        decreases from,
    {
        from -= 1;
    }
    if from > 0 && chars[from - 1] == '.' {
        Some((from, to))
    } else {
        proof {
            lemma_segment_without_dot(chars@, from as int, to as int);
        }
        None
    }
}

/// Whether the final segment of `path` holds a dot.
pub fn has_extension(path: &str) -> (yes: bool)
    ensures
        yes == extension(path@).is_some(),
{
    let chars = chars_of(path);
    let bounds = extension_bounds(&chars);
    proof {
        if let Some((from, to)) = bounds {
            lemma_extension_at(chars@, from as int, to as int);
        }
    }
    bounds.is_some()
}

/// The extension of `path`, if it has one.
pub fn find_extension(path: &str) -> (found: Option<String>)
    ensures
        match found {
            Some(text) => extension(path@) == Some(text@),
            None => extension(path@) is None,
        },
{
    let chars = chars_of(path);
    match extension_bounds(&chars) {
        Some((from, to)) => {
            proof {
                lemma_extension_at(chars@, from as int, to as int);
            }
            Some(path.substring_char(from, to).to_owned())
        },
        None => None,
    }
}

impl Headers {
    /// Turns the URL path of the request into the path of the file to serve.
    /// Method and version stay as they are.
    pub fn make_file_path(&mut self)
        ensures
            final(self).path@ == resolved_path(old(self).path@),
            final(self).method == old(self).method,
            final(self).version == old(self).version,
    {
        let mut file = String::new();
        if has_extension(self.path.as_str()) {
            file.append("./pages/assets");
            file.append(self.path.as_str());
        } else if same_text(self.path.as_str(), "/") {
            file.append("./pages/index.html");
        } else {
            file.append("./pages/sub");
            file.append(self.path.as_str());
            file.append(".html");
        }
        self.path = file;
    }
}

} // verus!
