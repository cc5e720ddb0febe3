//! One connection: from the bytes that arrived to the request to serve, and
//! from what the file held to the bytes to send back.
//!
//! The caller reads from the connection, reads the file and writes the
//! answer; what happens in between is decided here.

use crate::request::{parse_request, request_line, Headers, RequestLine};
use crate::resolve::{lemma_resolved_under_root, resolved_path};
use crate::response::{reply, Reading};
use vstd::prelude::*;
use vstd::utf8::*;

verus! {

/// The text that `bytes` decode to when every malformed sequence in them is
/// replaced by U+FFFD: what `String::from_utf8_lossy` returns.
pub uninterp spec fn lossy_utf8(bytes: Seq<u8>) -> Seq<char>;

/// Decodes `bytes` as UTF-8 and never fails.
///
/// This is `String::from_utf8_lossy`. Not proved: that its result depends on
/// the bytes alone, and that well-formed UTF-8 is decoded as it is.
#[verifier::external_body]
fn decode_lossy(bytes: &[u8]) -> (text: String)
    ensures
        text@ == lossy_utf8(bytes@),
        valid_utf8(bytes@) ==> text@ == decode_utf8(bytes@),
{
    String::from_utf8_lossy(bytes).into_owned()
}

/// The request `asked` with the file to serve in place of its URL path.
pub open spec fn resolved(asked: RequestLine) -> RequestLine {
    RequestLine { method: asked.method, path: resolved_path(asked.path), version: asked.version }
}

/// The request that the text `text` makes, ready to be served.
pub open spec fn request_of_text(text: Seq<char>) -> RequestLine {
    resolved(request_line(text))
}

/// The request that the bytes `received` make, ready to be served.
pub open spec fn request_of_bytes(received: Seq<u8>) -> RequestLine {
    request_of_text(lossy_utf8(received))
}

/// The bytes sent back to a client that sent `received`, where reading the
/// file at a path gives what `disk` says; `None` where nothing is sent back.
pub open spec fn answer(received: Seq<u8>, disk: spec_fn(Seq<char>) -> Reading) -> Option<
    Seq<u8>,
> {
    let asked = request_of_bytes(received);
    reply(asked.version, asked.path, disk(asked.path))
}

/// Reads the request line of `text` and resolves its path.
pub fn resolve_request(text: &str) -> (headers: Headers)
    ensures
        headers@ == request_of_text(text@),
        "./pages/"@.is_prefix_of(headers.path@),
{
    let mut headers = parse_request(text);
    proof {
        lemma_resolved_under_root(headers.path@);
    }
    headers.make_file_path();
    headers
}

/// Decodes what arrived on a connection, reads its request line and resolves
/// its path. Never fails: malformed bytes are replaced, and words that are
/// missing get their defaults, so that nothing at all is a `GET` of `/`.
pub fn receive_request(received: &[u8]) -> (headers: Headers)
    ensures
        headers@ == request_of_bytes(received@),
        valid_utf8(received@) ==> headers@ == request_of_text(decode_utf8(received@)),
        "./pages/"@.is_prefix_of(headers.path@),
{
    let text = decode_lossy(received);
    resolve_request(text.as_str())
}

/// The same bytes make the same request, and while the files stay as they
/// are they get the same answer.
pub proof fn lemma_same_request_same_answer(
    first: Seq<u8>,
    second: Seq<u8>,
    disk: spec_fn(Seq<char>) -> Reading,
)
    requires
        first == second,
    ensures
        request_of_bytes(first) == request_of_bytes(second),
        answer(first, disk) == answer(second, disk),
{
}

} // verus!
