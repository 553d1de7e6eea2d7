//! The text view of bytes that were validated.

use vstd::prelude::*;
use vstd::string::StringSliceAdditionalSpecFns;
use vstd::utf8::{decode_utf8, encode_utf8_decode_utf8, valid_utf8};

verus! {

/// The text that the valid UTF-8 in `source` encodes: a view of the same
/// bytes, whose characters are their decoding.
pub(crate) fn text_of_valid(source: &[u8]) -> (text: &str)
    requires
        valid_utf8(source@),
    ensures
        text.spec_bytes() == source@,
        text@ == decode_utf8(source@),
{
    match checked_text(source) {
        Some(text) => {
            proof {
                encode_utf8_decode_utf8(text@);
            }
            text
        },
        None => vstd::pervasive::unreached(),
    }
}

/// The standard library's checked conversion, `core::str::from_utf8`. It is
/// trusted to accept exactly the byte sequences that are valid UTF-8, and to
/// hand back a string slice over the bytes that it was given.
#[verifier::external_body]
fn checked_text(source: &[u8]) -> (text: Option<&str>)
    ensures
        text is Some <==> valid_utf8(source@),
        text matches Some(t) ==> t.spec_bytes() == source@,
{
    core::str::from_utf8(source).ok()
}

} // verus!
