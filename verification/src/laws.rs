//! What holds of the library as a whole: of the two validators on one input,
//! of a validator on an input and on a part of it, of the encoder and the
//! decoder together, and of the codec beside the validators.

use vstd::prelude::*;
use vstd::utf8::{
    codepoint_width_1, codepoint_width_2, codepoint_width_3, codepoint_width_4,
    decode_first_codepoint, encode_scalar, has_width_1_encoding, has_width_2_encoding,
    has_width_3_encoding, has_width_4_encoding, is_scalar, last_continuation_byte,
    leading_byte_width_1, leading_byte_width_2, leading_byte_width_3, leading_byte_width_4,
    second_last_continuation_byte, third_last_continuation_byte, valid_utf8,
};
use crate::wellformed::{
    is_ascii_run, is_validation_outcome, lemma_ascii_prefix_shifts_rejection,
    lemma_rejected_at_unique, lemma_rejected_is_invalid, lemma_well_formed_at_is_first_scalar,
    sequence_width, well_formed_at,
};
use crate::{decoded, encoded, Utf8EncodeError, Utf8ValidationError};

verus! {

/// `outcome`, with the offset of a failure moved forward by `distance`.
pub open spec fn shifted(outcome: Result<(), Utf8ValidationError>, distance: nat) -> Result<
    (),
    Utf8ValidationError,
> {
    match outcome {
        Ok(_) => Ok(()),
        Err(e) => Err(Utf8ValidationError { valid_up_to: (e.valid_up_to + distance) as usize }),
    }
}

/// An input has one validation outcome: two validators that each return an
/// outcome of the same input return the same value, offset included.
pub proof fn lemma_validation_outcome_unique(
    bytes: Seq<u8>,
    a: Result<(), Utf8ValidationError>,
    b: Result<(), Utf8ValidationError>,
)
    requires
        is_validation_outcome(bytes, a),
        is_validation_outcome(bytes, b),
    ensures
        a == b,
{
    match (a, b) {
        (Ok(_), Ok(_)) => {
            assert(a->Ok_0 == b->Ok_0);
        },
        (Ok(_), Err(e)) | (Err(e), Ok(_)) => {
            lemma_rejected_is_invalid(bytes, e.valid_up_to as int);
        },
        (Err(e1), Err(e2)) => {
            lemma_rejected_at_unique(bytes, e1.valid_up_to as int, e2.valid_up_to as int);
        },
    }
}

/// On failure, the bytes before the reported offset, taken alone, validate
/// successfully.
pub proof fn lemma_valid_prefix_validates(bytes: Seq<u8>, error: Utf8ValidationError)
    requires
        is_validation_outcome(bytes, Err(error)),
    ensures
        is_validation_outcome(bytes.subrange(0, error.valid_up_to as int), Ok(())),
{
}

/// A run of ASCII bytes in front of an input, however long, so also one of a
/// whole block or more, leaves the outcome as it is without the run, with the
/// offset of a failure moved by the length of the run.
pub proof fn lemma_ascii_prefix_shifts_outcome(
    run: Seq<u8>,
    rest: Seq<u8>,
    outcome: Result<(), Utf8ValidationError>,
)
    requires
        is_ascii_run(run),
        is_validation_outcome(rest, outcome),
        run.len() + rest.len() <= usize::MAX,
    ensures
        is_validation_outcome(run + rest, shifted(outcome, run.len())),
{
    if let Err(e) = outcome {
        lemma_ascii_prefix_shifts_rejection(run, rest, e.valid_up_to as int);
    } else {
        lemma_ascii_prefix_shifts_rejection(run, rest, 0);
    }
}

proof fn lemma_encoding_1(c: u32)
    by (bit_vector)
    requires
        has_width_1_encoding(c),
    ensures
        leading_byte_width_1(c) <= 0x7F,
        codepoint_width_1(leading_byte_width_1(c)) == c,
{
}

proof fn lemma_encoding_2(c: u32)
    by (bit_vector)
    requires
        has_width_2_encoding(c),
    ensures
        0xC2 <= leading_byte_width_2(c) <= 0xDF,
        0x80 <= last_continuation_byte(c) <= 0xBF,
        codepoint_width_2(leading_byte_width_2(c), last_continuation_byte(c)) == c,
{
}

proof fn lemma_encoding_3(c: u32)
    by (bit_vector)
    requires
        has_width_3_encoding(c),
    ensures
        0xE0 <= leading_byte_width_3(c) <= 0xEF,
        0x80 <= second_last_continuation_byte(c) <= 0xBF,
        0x80 <= last_continuation_byte(c) <= 0xBF,
        leading_byte_width_3(c) == 0xE0 ==> 0xA0 <= second_last_continuation_byte(c),
        leading_byte_width_3(c) == 0xED ==> second_last_continuation_byte(c) <= 0x9F,
        codepoint_width_3(
            leading_byte_width_3(c),
            second_last_continuation_byte(c),
            last_continuation_byte(c),
        ) == c,
{
}

proof fn lemma_encoding_4(c: u32)
    by (bit_vector)
    requires
        has_width_4_encoding(c),
    ensures
        0xF0 <= leading_byte_width_4(c) <= 0xF4,
        0x80 <= third_last_continuation_byte(c) <= 0xBF,
        0x80 <= second_last_continuation_byte(c) <= 0xBF,
        0x80 <= last_continuation_byte(c) <= 0xBF,
        leading_byte_width_4(c) == 0xF0 ==> 0x90 <= third_last_continuation_byte(c),
        leading_byte_width_4(c) == 0xF4 ==> third_last_continuation_byte(c) <= 0x8F,
        codepoint_width_4(
            leading_byte_width_4(c),
            third_last_continuation_byte(c),
            second_last_continuation_byte(c),
            last_continuation_byte(c),
        ) == c,
{
}

proof fn lemma_encoding(c: u32)
    requires
        is_scalar(c),
    ensures
        well_formed_at(encode_scalar(c), 0),
        encode_scalar(c).len() == sequence_width(encode_scalar(c)[0]),
        decode_first_codepoint(encode_scalar(c)) == c,
{
    if has_width_1_encoding(c) {
        lemma_encoding_1(c);
    } else if has_width_2_encoding(c) {
        lemma_encoding_2(c);
    } else if has_width_3_encoding(c) {
        lemma_encoding_3(c);
    } else {
        lemma_encoding_4(c);
    }
}

/// Round trip: for every scalar value, that is every value up to `0x10FFFF`
/// that is no surrogate, encoding succeeds and decoding its result gives the
/// value back.
pub proof fn lemma_decode_inverts_encode(v: u32)
    requires
        v <= 0x10FFFF,
        !(0xD800 <= v <= 0xDFFF),
    ensures
        encoded(v) is Ok,
        decoded(encoded(v)->Ok_0) == Ok::<u32, Utf8EncodeError>(v),
{
    lemma_encoding(v);
}

/// Every surrogate is refused by the encoder as a surrogate.
pub proof fn lemma_surrogates_are_refused(v: u32)
    requires
        0xD800 <= v <= 0xDFFF,
    ensures
        encoded(v) == Err::<Seq<u8>, Utf8EncodeError>(Utf8EncodeError::SurrogatePoint),
{
}

/// What the encoder yields is one well-formed sequence, so never an overlong
/// form, and is valid UTF-8 by itself.
pub proof fn lemma_encoding_is_well_formed(v: u32)
    requires
        is_scalar(v),
    ensures
        well_formed_at(encode_scalar(v), 0),
        encode_scalar(v).len() == sequence_width(encode_scalar(v)[0]),
        valid_utf8(encode_scalar(v)),
{
    let bytes = encode_scalar(v);
    lemma_encoding(v);
    lemma_well_formed_at_is_first_scalar(bytes, 0);
    reveal_with_fuel(valid_utf8, 2);
}

proof fn lemma_decoding_1(b1: u8)
    by (bit_vector)
    requires
        b1 <= 0x7F,
    ensures
        has_width_1_encoding(codepoint_width_1(b1)),
        leading_byte_width_1(codepoint_width_1(b1)) == b1,
{
}

proof fn lemma_decoding_2(b1: u8, b2: u8)
    by (bit_vector)
    requires
        0xC2 <= b1 <= 0xDF,
        0x80 <= b2 <= 0xBF,
    ensures
        has_width_2_encoding(codepoint_width_2(b1, b2)),
        leading_byte_width_2(codepoint_width_2(b1, b2)) == b1,
        last_continuation_byte(codepoint_width_2(b1, b2)) == b2,
{
}

proof fn lemma_decoding_3(b1: u8, b2: u8, b3: u8)
    by (bit_vector)
    requires
        0xE0 <= b1 <= 0xEF,
        0x80 <= b2 <= 0xBF,
        0x80 <= b3 <= 0xBF,
        b1 == 0xE0 ==> 0xA0 <= b2,
        b1 == 0xED ==> b2 <= 0x9F,
    ensures
        has_width_3_encoding(codepoint_width_3(b1, b2, b3)),
        leading_byte_width_3(codepoint_width_3(b1, b2, b3)) == b1,
        second_last_continuation_byte(codepoint_width_3(b1, b2, b3)) == b2,
        last_continuation_byte(codepoint_width_3(b1, b2, b3)) == b3,
{
}

proof fn lemma_decoding_4(b1: u8, b2: u8, b3: u8, b4: u8)
    by (bit_vector)
    requires
        0xF0 <= b1 <= 0xF4,
        0x80 <= b2 <= 0xBF,
        0x80 <= b3 <= 0xBF,
        0x80 <= b4 <= 0xBF,
        b1 == 0xF0 ==> 0x90 <= b2,
        b1 == 0xF4 ==> b2 <= 0x8F,
    ensures
        has_width_4_encoding(codepoint_width_4(b1, b2, b3, b4)),
        leading_byte_width_4(codepoint_width_4(b1, b2, b3, b4)) == b1,
        third_last_continuation_byte(codepoint_width_4(b1, b2, b3, b4)) == b2,
        second_last_continuation_byte(codepoint_width_4(b1, b2, b3, b4)) == b3,
        last_continuation_byte(codepoint_width_4(b1, b2, b3, b4)) == b4,
{
}

/// The decoder is exact where the validator has passed: one well-formed
/// sequence decodes to a scalar value, and that value's encoding is the
/// sequence itself.
pub proof fn lemma_encode_inverts_decode(bytes: Seq<u8>)
    requires
        well_formed_at(bytes, 0),
        bytes.len() == sequence_width(bytes[0]),
    ensures
        decoded(bytes) is Ok,
        is_scalar(decoded(bytes)->Ok_0),
        encoded(decoded(bytes)->Ok_0) is Ok,
        encoded(decoded(bytes)->Ok_0)->Ok_0 == bytes,
{
    if bytes.len() == 1 {
        lemma_decoding_1(bytes[0]);
    } else if bytes.len() == 2 {
        lemma_decoding_2(bytes[0], bytes[1]);
    } else if bytes.len() == 3 {
        lemma_decoding_3(bytes[0], bytes[1], bytes[2]);
    } else {
        lemma_decoding_4(bytes[0], bytes[1], bytes[2], bytes[3]);
    }
}

} // verus!
