//! Keys and values arrive as bytes; the store keeps text.

use vstd::prelude::*;
use vstd::string::StringSliceAdditionalSpecFns;
use vstd::utf8::decode_utf8;
use vstd::utf8::encode_utf8_decode_utf8;
use vstd::utf8::valid_utf8;

verus! {

/// The text that `bytes` encode in UTF-8, if they encode any.
pub open spec fn text_of(bytes: Seq<u8>) -> Option<Seq<char>> {
    if valid_utf8(bytes) {
        Some(decode_utf8(bytes))
    } else {
        None
    }
}

/// `std::str::from_utf8`, with its error dropped: a string slice over the
/// same bytes where they are valid UTF-8, and nothing where they are not.
#[verifier::external_body]
fn stringify_key<'a>(buffer: &'a [u8]) -> (r: Option<&'a str>)
    ensures
        r is Some <==> valid_utf8(buffer@),
        r is Some ==> r->Some_0.spec_bytes() == buffer@,
{
    std::str::from_utf8(buffer).ok()
}

/// Reads `buffer` as text.
pub fn decode<'a>(buffer: &'a [u8]) -> (r: Option<&'a str>)
    ensures
        match text_of(buffer@) {
            Some(t) => r is Some && r->Some_0@ == t,
            None => r is None,
        },
{
    let r = stringify_key(buffer);
    proof {
        if r is Some {
            encode_utf8_decode_utf8(r->Some_0@);
        }
    }
    r
}

} // verus!
