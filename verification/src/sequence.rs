//! The check of one sequence, shared by both validators.

use vstd::prelude::*;
use vstd::utf8::is_continuation_byte;
use crate::wellformed::{second_byte_allowed, sequence_width, well_formed_at};

verus! {

/// Whether the bytes announced by the leading byte at `index`, whose width is
/// `width`, are all present and in range.
pub(crate) fn sequence_is_well_formed(source: &[u8], index: usize, width: u8) -> (ok: bool)
    requires
        index < source.len(),
        width == sequence_width(source@[index as int]),
    ensures
        ok == well_formed_at(source@, index as int),
{
    let first = source[index];
    let remaining = source.len() - index;
    match width {
        1 => true,
        2 => remaining >= 2 && is_continuation(source[index + 1]),
        3 => remaining >= 3 && second_of_three(first, source[index + 1]) && is_continuation(
            source[index + 2],
        ),
        4 => remaining >= 4 && second_of_four(first, source[index + 1]) && is_continuation(
            source[index + 2],
        ) && is_continuation(source[index + 3]),
        _ => false,
    }
}

fn is_continuation(byte: u8) -> (ok: bool)
    ensures
        ok == is_continuation_byte(byte),
{
    0x80 <= byte && byte <= 0xBF
}

/// Whether `second` may follow `first` in a sequence of three bytes.
fn second_of_three(first: u8, second: u8) -> (ok: bool)
    requires
        sequence_width(first) == 3,
    ensures
        ok == second_byte_allowed(first, second),
{
    match (first, second) {
        (0xE0, 0xA0..=0xBF)
        | (0xE1..=0xEC, 0x80..=0xBF)
        | (0xED, 0x80..=0x9F)
        | (0xEE..=0xEF, 0x80..=0xBF) => true,
        _ => false,
    }
}

/// Whether `second` may follow `first` in a sequence of four bytes.
fn second_of_four(first: u8, second: u8) -> (ok: bool)
    requires
        sequence_width(first) == 4,
    ensures
        ok == second_byte_allowed(first, second),
{
    match (first, second) {
        (0xF0, 0x90..=0xBF) | (0xF1..=0xF3, 0x80..=0xBF) | (0xF4, 0x80..=0x8F) => true,
        _ => false,
    }
}

} // verus!
