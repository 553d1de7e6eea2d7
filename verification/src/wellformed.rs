//! The mathematical model of well-formed UTF-8 that the validators are
//! proved against.
//!
//! Whole-sequence validity is `vstd::utf8::valid_utf8`, which defines a valid
//! byte sequence as a concatenation of scalar-value encodings that are neither
//! overlong nor surrogates. This module states the same notion for a single
//! sequence as the byte range table that an implementation actually checks
//! (`well_formed_at`), proves the two equal, and defines what a validation
//! outcome is.

use vstd::prelude::*;
use vstd::utf8::{
    codepoint_width_1, codepoint_width_2, codepoint_width_3, codepoint_width_4,
    is_continuation_byte, length_of_first_scalar, partial_valid_utf8_extend_ascii_block,
    pop_first_scalar, valid_first_scalar, valid_utf8, valid_utf8_concat,
};
use crate::Utf8ValidationError;

verus! {

/// Number of bytes that a sequence beginning with `first` occupies, or 0 when
/// `first` cannot begin a sequence: continuation bytes `0x80..=0xBF`, the
/// overlong leading bytes `0xC0` and `0xC1`, and `0xF5..=0xFF`.
pub open spec fn sequence_width(first: u8) -> u8 {
    if first <= 0x7F {
        1
    } else if 0xC2 <= first <= 0xDF {
        2
    } else if 0xE0 <= first <= 0xEF {
        3
    } else if 0xF0 <= first <= 0xF4 {
        4
    } else {
        0
    }
}

/// Inclusive bounds of the second byte of a multi-byte sequence, as a function
/// of its leading byte. The narrowed rows exclude overlong three-byte forms
/// (`0xE0`), surrogates (`0xED`), overlong four-byte forms (`0xF0`) and values
/// above `0x10FFFF` (`0xF4`).
pub open spec fn second_byte_bounds(first: u8) -> (u8, u8) {
    if first == 0xE0 {
        (0xA0, 0xBF)
    } else if first == 0xED {
        (0x80, 0x9F)
    } else if first == 0xF0 {
        (0x90, 0xBF)
    } else if first == 0xF4 {
        (0x80, 0x8F)
    } else {
        (0x80, 0xBF)
    }
}

/// `second` may follow the leading byte `first`.
pub open spec fn second_byte_allowed(first: u8, second: u8) -> bool {
    second_byte_bounds(first).0 <= second <= second_byte_bounds(first).1
}

/// A complete well-formed sequence begins at offset `i` of `bytes`: the byte
/// there is a leading byte, all the bytes it announces are present, the second
/// one lies within the bounds for that leading byte, and the later ones are
/// continuation bytes.
pub open spec fn well_formed_at(bytes: Seq<u8>, i: int) -> bool {
    &&& 0 <= i < bytes.len()
    &&& sequence_width(bytes[i]) != 0
    &&& i + sequence_width(bytes[i]) <= bytes.len()
    &&& sequence_width(bytes[i]) >= 2 ==> second_byte_allowed(bytes[i], bytes[i + 1])
    &&& sequence_width(bytes[i]) >= 3 ==> is_continuation_byte(bytes[i + 2])
    &&& sequence_width(bytes[i]) >= 4 ==> is_continuation_byte(bytes[i + 3])
}

/// Validation of `bytes` stops at offset `k`: everything before `k` is valid
/// UTF-8, and no well-formed sequence begins at `k`.
pub open spec fn rejected_at(bytes: Seq<u8>, k: int) -> bool {
    &&& 0 <= k < bytes.len()
    &&& valid_utf8(bytes.subrange(0, k))
    &&& !well_formed_at(bytes, k)
}

/// Every byte of `bytes` is ASCII, that is below `0x80`.
pub open spec fn is_ascii_run(bytes: Seq<u8>) -> bool {
    forall|i: int| 0 <= i < bytes.len() ==> bytes[i] < 0x80
}

/// `outcome` is what validating `bytes` yields: success exactly for valid
/// UTF-8, and otherwise the offset at which validation stops.
pub open spec fn is_validation_outcome(
    bytes: Seq<u8>,
    outcome: Result<(), Utf8ValidationError>,
) -> bool {
    match outcome {
        Ok(_) => valid_utf8(bytes),
        Err(e) => rejected_at(bytes, e.valid_up_to as int),
    }
}

proof fn lemma_width_1(b1: u8)
    by (bit_vector)
    requires
        b1 <= 0x7F,
    ensures
        codepoint_width_1(b1) < 0x80,
{
}

proof fn lemma_width_2(b1: u8, b2: u8)
    by (bit_vector)
    requires
        0xC0 <= b1 <= 0xDF,
        0x80 <= b2 <= 0xBF,
    ensures
        codepoint_width_2(b1, b2) < 0x800,
        0x80 <= codepoint_width_2(b1, b2) <==> 0xC2 <= b1,
{
}

proof fn lemma_width_3(b1: u8, b2: u8, b3: u8)
    by (bit_vector)
    requires
        0xE0 <= b1 <= 0xEF,
        0x80 <= b2 <= 0xBF,
        0x80 <= b3 <= 0xBF,
    ensures
        codepoint_width_3(b1, b2, b3) <= 0xFFFF,
        0x800 <= codepoint_width_3(b1, b2, b3) <==> !(b1 == 0xE0 && b2 < 0xA0),
        0xD800 <= codepoint_width_3(b1, b2, b3) <= 0xDFFF <==> b1 == 0xED && 0xA0 <= b2,
{
}

proof fn lemma_width_4(b1: u8, b2: u8, b3: u8, b4: u8)
    by (bit_vector)
    requires
        0xF0 <= b1 <= 0xF7,
        0x80 <= b2 <= 0xBF,
        0x80 <= b3 <= 0xBF,
        0x80 <= b4 <= 0xBF,
    ensures
        0x10000 <= codepoint_width_4(b1, b2, b3, b4) <==> !(b1 == 0xF0 && b2 < 0x90),
        codepoint_width_4(b1, b2, b3, b4) <= 0x10FFFF <==> b1 < 0xF4 || (b1 == 0xF4 && b2 < 0x90),
{
}

/// The range table is the definition: a well-formed sequence begins at `i`
/// exactly when the bytes from `i` on begin with the encoding of a scalar
/// value that is not overlong, and the table's width is that encoding's length.
pub proof fn lemma_well_formed_at_is_first_scalar(bytes: Seq<u8>, i: int)
    requires
        0 <= i <= bytes.len(),
    ensures
        well_formed_at(bytes, i) <==> valid_first_scalar(bytes.subrange(i, bytes.len() as int)),
        well_formed_at(bytes, i) ==> length_of_first_scalar(bytes.subrange(i, bytes.len() as int))
            == sequence_width(bytes[i]),
{
    let rest = bytes.subrange(i, bytes.len() as int);
    if i < bytes.len() {
        let b1 = rest[0];
        if b1 <= 0x7F {
            lemma_width_1(b1);
        } else if 0xC0 <= b1 <= 0xDF {
            if rest.len() >= 2 && is_continuation_byte(rest[1]) {
                lemma_width_2(b1, rest[1]);
            }
        } else if 0xE0 <= b1 <= 0xEF {
            if rest.len() >= 3 && is_continuation_byte(rest[1]) && is_continuation_byte(rest[2]) {
                lemma_width_3(b1, rest[1], rest[2]);
            }
        } else if 0xF0 <= b1 <= 0xF7 {
            if rest.len() >= 4 && is_continuation_byte(rest[1]) && is_continuation_byte(rest[2])
                && is_continuation_byte(rest[3]) {
                lemma_width_4(b1, rest[1], rest[2], rest[3]);
            }
        }
    }
}

/// What follows a valid prefix of a valid sequence is valid as well.
pub proof fn lemma_valid_after_valid_prefix(bytes: Seq<u8>, k: int)
    requires
        0 <= k <= bytes.len(),
        valid_utf8(bytes),
        valid_utf8(bytes.subrange(0, k)),
    ensures
        valid_utf8(bytes.subrange(k, bytes.len() as int)),
    decreases bytes.len(),
{
    if k == 0 {
        assert(bytes.subrange(0, bytes.len() as int) =~= bytes);
    } else {
        let w = length_of_first_scalar(bytes);
        let tail = pop_first_scalar(bytes);
        assert(pop_first_scalar(bytes.subrange(0, k)) =~= tail.subrange(0, k - w));
        lemma_valid_after_valid_prefix(tail, k - w);
        assert(tail.subrange(k - w, tail.len() as int) =~= bytes.subrange(k, bytes.len() as int));
    }
}

/// The offset at which validation stops ends the longest valid prefix: no
/// longer prefix of the input is valid UTF-8.
pub proof fn lemma_rejected_at_ends_longest_valid_prefix(bytes: Seq<u8>, k: int, j: int)
    requires
        rejected_at(bytes, k),
        k < j <= bytes.len(),
    ensures
        !valid_utf8(bytes.subrange(0, j)),
{
    let prefix = bytes.subrange(0, j);
    if valid_utf8(prefix) {
        assert(prefix.subrange(0, k) =~= bytes.subrange(0, k));
        lemma_valid_after_valid_prefix(prefix, k);
        lemma_well_formed_at_is_first_scalar(prefix, k);
    }
}

/// An input on which validation stops somewhere is not valid UTF-8.
pub proof fn lemma_rejected_is_invalid(bytes: Seq<u8>, k: int)
    requires
        rejected_at(bytes, k),
    ensures
        !valid_utf8(bytes),
{
    lemma_rejected_at_ends_longest_valid_prefix(bytes, k, bytes.len() as int);
    assert(bytes.subrange(0, bytes.len() as int) =~= bytes);
}

/// Validation stops at one offset at most.
pub proof fn lemma_rejected_at_unique(bytes: Seq<u8>, k1: int, k2: int)
    requires
        rejected_at(bytes, k1),
        rejected_at(bytes, k2),
    ensures
        k1 == k2,
{
    if k1 < k2 {
        lemma_rejected_at_ends_longest_valid_prefix(bytes, k1, k2);
    } else if k2 < k1 {
        lemma_rejected_at_ends_longest_valid_prefix(bytes, k2, k1);
    }
}

/// A run of ASCII bytes is valid UTF-8.
pub proof fn lemma_ascii_run_is_valid(run: Seq<u8>)
    requires
        is_ascii_run(run),
    ensures
        valid_utf8(run),
{
    partial_valid_utf8_extend_ascii_block(run, 0, run.len() as int);
    assert(run.subrange(0, run.len() as int) =~= run);
}

/// Putting a run of ASCII bytes before an input changes neither whether it is
/// valid nor where validation stops, but for the shift by the length of the
/// run.
pub proof fn lemma_ascii_prefix_shifts_rejection(run: Seq<u8>, rest: Seq<u8>, k: int)
    requires
        is_ascii_run(run),
    ensures
        valid_utf8(run + rest) <==> valid_utf8(rest),
        rejected_at(run + rest, run.len() + k) <==> rejected_at(rest, k),
{
    lemma_ascii_prefix_keeps_validity(run, rest);
    if 0 <= k < rest.len() {
        assert((run + rest).subrange(0, run.len() + k) =~= run + rest.subrange(0, k));
        lemma_ascii_prefix_keeps_validity(run, rest.subrange(0, k));
    }
}

proof fn lemma_ascii_prefix_keeps_validity(run: Seq<u8>, rest: Seq<u8>)
    requires
        is_ascii_run(run),
    ensures
        valid_utf8(run + rest) <==> valid_utf8(rest),
{
    let all = run + rest;
    lemma_ascii_run_is_valid(run);
    assert(all.subrange(0, run.len() as int) =~= run);
    assert(all.subrange(run.len() as int, all.len() as int) =~= rest);
    if valid_utf8(rest) {
        valid_utf8_concat(run, rest);
    }
    if valid_utf8(all) {
        lemma_valid_after_valid_prefix(all, run.len() as int);
    }
}

} // verus!
