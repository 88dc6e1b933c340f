//! Requests to other servers: what is made of their answers.

use vstd::prelude::*;
use vstd::string::*;

use crate::text::{opt_str, range_text, to_chars};

verus! {

/// Whether a status tells success.
pub fn is_success(status: u16) -> (r: bool)
    ensures
        r == (200 <= status <= 299),
{
    200 <= status && status <= 299
}

/// How much of a body an error shows.
pub const SNIPPET_CHARS: usize = 256;

/// The start of a body.
pub open spec fn snippet_of(body: Seq<char>) -> Seq<char> {
    if body.len() > SNIPPET_CHARS {
        body.take(SNIPPET_CHARS as int)
    } else {
        body
    }
}

/// The text of an error: the status and the start of the body.
pub fn error_text(status: &str, body: &str) -> (r: String)
    ensures
        r@ == "HTTP "@ + status@ + ": "@ + snippet_of(body@),
{
    let cs = to_chars(body);
    let n: usize = if cs.len() > SNIPPET_CHARS {
        SNIPPET_CHARS
    } else {
        cs.len()
    };
    let snippet = range_text(cs.as_slice(), 0, n);
    assert(snippet@ =~= snippet_of(body@));
    "HTTP ".to_owned().concat(status).concat(": ").concat(snippet.as_str())
}

/// The content type of an answer, or that of plain bytes.
pub fn content_type_or_default(content_type: Option<&str>) -> (r: String)
    ensures
        r@ == (match opt_str(content_type) {
            Some(t) => t,
            None => "application/octet-stream"@,
        }),
{
    match content_type {
        Some(t) => t.to_owned(),
        None => "application/octet-stream".to_owned(),
    }
}

/// A character that the value of a header can hold.
pub open spec fn value_char(c: char) -> bool {
    (' ' <= c && c != '\u{7f}') || c == '\t'
}

/// `HeaderValue::from_str` of the `http` crate. The contract claims that it
/// takes a text without control characters other than tabs, and nothing else.
#[verifier::external_body]
fn is_header_value(s: &str) -> (r: bool)
    ensures
        r == forall|i: int| 0 <= i < s@.len() ==> value_char(#[trigger] s@[i]),
{
    http::header::HeaderValue::from_str(s).is_ok()
}

/// The content type that is passed on to a client: that of the answer, unless
/// no header can hold it.
pub fn passed_type(content_type: &str) -> (r: String)
    ensures
        r@ == if forall|i: int| 0 <= i < content_type@.len() ==> value_char(#[trigger] content_type@[i]) {
            content_type@
        } else {
            "application/octet-stream"@
        },
{
    if is_header_value(content_type) {
        content_type.to_owned()
    } else {
        "application/octet-stream".to_owned()
    }
}

/// An answer of up to two hundred and fifty-six characters is shown whole, and
/// of a longer one its beginning.
pub proof fn law_snippets(body: Seq<char>)
    ensures
        body.len() <= 256 ==> snippet_of(body) == body,
        body.len() > 256 ==> snippet_of(body) == body.take(256),
{
}

} // verus!
