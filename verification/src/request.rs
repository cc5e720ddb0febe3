//! The request line: method, path and protocol version.
//!
//! Only the first line of a request is read. Its words are the runs of
//! characters between white space; the first three are the method, the path
//! and the version, and a word that is missing is replaced by a default.

use crate::text::{chars_of, is_white_space, white_space};
use vstd::prelude::*;

verus! {

/// A request line as plain text: the view of [`Headers`].
pub struct RequestLine {
    pub method: Seq<char>,
    pub path: Seq<char>,
    pub version: Seq<char>,
}

/// What one request asks for.
///
/// `path` is the URL path as received until [`Headers::make_file_path`] turns
/// it into the path of a file under the content root.
#[derive(Debug, Clone, PartialEq, Eq)]
pub struct Headers {
    pub method: String,
    pub path: String,
    pub version: String,
}

impl View for Headers {
    type V = RequestLine;

    open spec fn view(&self) -> RequestLine {
        RequestLine { method: self.method@, path: self.path@, version: self.version@ }
    }
}

/// The text before the first line feed, or all of it where there is none.
///
/// A carriage return in front of the line feed stays in the line. It is
/// white space, so it is part of no word.
pub open spec fn first_line(text: Seq<char>) -> Seq<char> {
    match text.index_of_first('\n') {
        Some(i) => text.take(i),
        None => text,
    }
}

/// `s` without the white space at its front.
pub open spec fn skip_spaces(s: Seq<char>) -> Seq<char>
    decreases s.len(),
{
    if s.len() > 0 && white_space(s[0]) {
        skip_spaces(s.drop_first())
    } else {
        s
    }
}

/// The characters at the front of `s` up to the first white space.
pub open spec fn front_word(s: Seq<char>) -> Seq<char>
    decreases s.len(),
{
    if s.len() > 0 && !white_space(s[0]) {
        seq![s[0]] + front_word(s.drop_first())
    } else {
        Seq::empty()
    }
}

/// `s` from its first white space on.
pub open spec fn skip_word(s: Seq<char>) -> Seq<char>
    decreases s.len(),
{
    if s.len() > 0 && !white_space(s[0]) {
        skip_word(s.drop_first())
    } else {
        s
    }
}

/// The word of `line` with index `k`, counted from 0. It is empty exactly
/// where the line has no more than `k` words.
pub open spec fn word(line: Seq<char>, k: nat) -> Seq<char>
    decreases k,
{
    let rest = skip_spaces(line);
    if k == 0 {
        front_word(rest)
    } else {
        word(skip_word(rest), (k - 1) as nat)
    }
}

/// `found`, or `default` where nothing was found.
pub open spec fn or_default(found: Seq<char>, default: Seq<char>) -> Seq<char> {
    if found.len() == 0 {
        default
    } else {
        found
    }
}

/// The request that `text` holds: the first three words of its first line,
/// with `GET`, `/` and `HTTP/1.1` for those that are missing.
pub open spec fn request_line(text: Seq<char>) -> RequestLine {
    let line = first_line(text);
    RequestLine {
        method: or_default(word(line, 0), "GET"@),
        path: or_default(word(line, 1), "/"@),
        version: or_default(word(line, 2), "HTTP/1.1"@),
    }
}

/// Where the first line of `chars` ends.
fn line_end(chars: &Vec<char>) -> (end: usize)
    ensures
        end <= chars.len(),
        chars@.take(end as int) == first_line(chars@),
{
    let mut end: usize = 0;
    while end < chars.len() && chars[end] != '\n'
        invariant
            end <= chars.len(),
            forall|j: int| 0 <= j < end ==> chars@[j] != '\n',
        decreases chars.len() - end,
    {
        end += 1;
    }
    proof {
        chars@.index_of_first_ensures('\n');
        if end < chars.len() {
            assert(chars@.contains('\n'));
        } else {
            assert(chars@.take(end as int) == chars@);
        }
    }
    end
}

/// Where the white space that starts at `from` ends, looking no further than `end`.
fn spaces_end(chars: &Vec<char>, from: usize, end: usize) -> (at: usize)
    requires
        from <= end <= chars.len(),
    ensures
        from <= at <= end,
        chars@.subrange(at as int, end as int) == skip_spaces(
            chars@.subrange(from as int, end as int),
        ),
{
    let mut at: usize = from;
    while at < end && is_white_space(chars[at])
        invariant
            from <= at <= end <= chars.len(),
            skip_spaces(chars@.subrange(at as int, end as int)) == skip_spaces(
                chars@.subrange(from as int, end as int),
            ),
        decreases end - at,
    {
        assert(chars@.subrange(at as int, end as int).drop_first() == chars@.subrange(
            at + 1,
            end as int,
        ));
        at += 1;
    }
    at
}

/// Where the word that starts at `from` ends, looking no further than `end`.
fn word_end(chars: &Vec<char>, from: usize, end: usize) -> (at: usize)
    requires
        from <= end <= chars.len(),
    ensures
        from <= at <= end,
        chars@.subrange(from as int, at as int) == front_word(
            chars@.subrange(from as int, end as int),
        ),
        chars@.subrange(at as int, end as int) == skip_word(
            chars@.subrange(from as int, end as int),
        ),
{
    let mut at: usize = from;
    while at < end && !is_white_space(chars[at])
        invariant
            from <= at <= end <= chars.len(),
            chars@.subrange(from as int, at as int) + front_word(
                chars@.subrange(at as int, end as int),
            ) == front_word(chars@.subrange(from as int, end as int)),
            skip_word(chars@.subrange(at as int, end as int)) == skip_word(
                chars@.subrange(from as int, end as int),
            ),
        decreases end - at,
    {
        proof {
            let rest = chars@.subrange(at as int, end as int);
            assert(rest.drop_first() == chars@.subrange(at + 1, end as int));
            assert(chars@.subrange(from as int, at as int) + (seq![rest[0]] + front_word(
                rest.drop_first(),
            )) == chars@.subrange(from as int, at + 1) + front_word(rest.drop_first()));
        }
        at += 1;
    }
    at
}

/// The characters of `text` from `from` up to `to`, or `default` where that range is empty.
fn word_or(text: &str, from: usize, to: usize, default: &str) -> (found: String)
    requires
        from <= to <= text@.len(),
    ensures
        found@ == or_default(text@.subrange(from as int, to as int), default@),
{
    if from < to {
        text.substring_char(from, to).to_owned()
    } else {
        default.to_owned()
    }
}

/// Reads the request line of `request`.
///
/// Never fails: a request without a first line, or with fewer than three words
/// in it, gets the defaults.
pub fn parse_request(request: &str) -> (headers: Headers)
    ensures
        headers@ == request_line(request@),
{
    let chars = chars_of(request);
    let end = line_end(&chars);
    let method_from = spaces_end(&chars, 0, end);
    let method_to = word_end(&chars, method_from, end);
    let path_from = spaces_end(&chars, method_to, end);
    let path_to = word_end(&chars, path_from, end);
    let version_from = spaces_end(&chars, path_to, end);
    let version_to = word_end(&chars, version_from, end);
    proof {
        reveal_with_fuel(word, 3);
    }
    Headers {
        method: word_or(request, method_from, method_to, "GET"),
        path: word_or(request, path_from, path_to, "/"),
        version: word_or(request, version_from, version_to, "HTTP/1.1"),
    }
}

} // verus!
