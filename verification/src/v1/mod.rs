//! The scalar validator: one byte-by-byte pass over the input.

use vstd::prelude::*;
use vstd::utf8::{decode_utf8, partial_valid_utf8_extend, valid_utf8};
use vstd::string::StringSliceAdditionalSpecFns;
use crate::sequence::sequence_is_well_formed;
use crate::text::text_of_valid;
use crate::wellformed::{
    is_validation_outcome, lemma_rejected_is_invalid, lemma_well_formed_at_is_first_scalar,
    sequence_width,
};
use crate::Utf8ValidationError;

verus! {

/// The text in `source`, if the scalar validator accepts it: a string slice
/// over the same bytes, whose characters are their decoding. Otherwise the
/// validator's error.
///
/// The slice is made by the standard library's checked conversion, which is
/// safe code; the validator's result is what decides.
pub fn from_utf8(source: &[u8]) -> (text: Result<&str, Utf8ValidationError>)
    ensures
        text is Ok <==> valid_utf8(source@),
        text matches Ok(t) ==> t.spec_bytes() == source@ && t@ == decode_utf8(source@),
        text matches Err(e) ==> is_validation_outcome(source@, Err(e)),
{
    match validate_utf8(source) {
        Ok(_) => Ok(text_of_valid(source)),
        Err(error) => Err(error),
    }
}

/// Validates `source` as UTF-8. On failure, reports the offset of the leading
/// byte of the first sequence that is not well-formed; a sequence cut short by
/// the end of the input counts as not well-formed.
pub fn validate_utf8(source: &[u8]) -> (outcome: Result<(), Utf8ValidationError>)
    ensures
        is_validation_outcome(source@, outcome),
        outcome is Ok <==> valid_utf8(source@),
{
    let len = source.len();
    let mut index: usize = 0;
    proof {
    }
    while index < len
        invariant
            len == source.len(),
            index <= len,
            valid_utf8(source@.subrange(0, index as int)),
        decreases len - index,
    {
        let width = get_utf8_sequence_width(source[index]);
        proof {
            lemma_well_formed_at_is_first_scalar(source@, index as int);
        }
        if !sequence_is_well_formed(source, index, width) {
            proof {
                lemma_rejected_is_invalid(source@, index as int);
            }
            return Err(Utf8ValidationError { valid_up_to: index });
        }
        proof {
            partial_valid_utf8_extend(source@, index as int);
        }
        index += width as usize;
    }
    proof {
        assert(source@.subrange(0, len as int) =~= source@);
    }
    Ok(())
}

/// Number of bytes that a UTF-8 sequence beginning with `first` occupies, or
/// 0 when `first` cannot begin a sequence.
pub fn get_utf8_sequence_width(first: u8) -> (width: u8)
    ensures
        width == sequence_width(first),
{
    match first {
        0..=0x7F => 1,
        0xC2..=0xDF => 2,
        0xE0..=0xEF => 3,
        0xF0..=0xF4 => 4,
        _ => 0,
    }
}

} // verus!
