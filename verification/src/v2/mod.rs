//! The accelerated validator: the scalar validator's rules, with runs of
//! ASCII skipped two machine words at a time where the cursor is word-aligned.

use vstd::prelude::*;
use vstd::utf8::{
    decode_utf8, partial_valid_utf8_extend, partial_valid_utf8_extend_ascii_block, valid_utf8,
};
use vstd::string::StringSliceAdditionalSpecFns;
use crate::sequence::sequence_is_well_formed;
use crate::text::text_of_valid;
use crate::wellformed::{
    is_validation_outcome, lemma_rejected_is_invalid, lemma_well_formed_at_is_first_scalar,
    sequence_width,
};
use crate::Utf8ValidationError;

verus! {

/// Number of bytes in a machine word.
pub const WORD_BYTES: usize = (usize::BITS / 8) as usize;

/// The word whose every byte is `0x80`.
pub const NONASCII_MASK: usize = #[verifier::truncate] (0x8080_8080_8080_8080u64 as usize);

/// Byte `k` of `word`, counted from the least significant one.
pub open spec fn word_byte(word: usize, k: usize) -> usize {
    (word >> (8 * k)) & 0xFF
}

/// Every byte of the mask is `0x80`, whatever the width of a word.
pub proof fn lemma_mask_bytes(k: usize)
    by (bit_vector)
    requires
        k < WORD_BYTES,
    ensures
        word_byte(NONASCII_MASK, k) == 0x80,
{
}

/// The text in `source`, if the accelerated validator accepts it: a string
/// slice over the same bytes, whose characters are their decoding. Otherwise
/// the validator's error.
///
/// The slice is made by the standard library's checked conversion, which is
/// safe code; the validator's result is what decides.
pub fn from_utf8(source: &[u8]) -> (text: Result<&str, Utf8ValidationError>)
    ensures
        text is Ok <==> valid_utf8(source@),
        text matches Ok(t) ==> t.spec_bytes() == source@ && t@ == decode_utf8(source@),
        text matches Err(e) ==> is_validation_outcome(source@, Err(e)),
{
    match validate_utf8(source) {
        Ok(_) => Ok(text_of_valid(source)),
        Err(error) => Err(error),
    }
}

/// Validates `source` as UTF-8, with the same outcome as the scalar validator
/// on every input. Where the cursor is on an ASCII byte and word-aligned, whole
/// blocks of two words are tested for a byte with its high bit set and, when
/// there is none, skipped at once.
pub fn validate_utf8(source: &[u8]) -> (outcome: Result<(), Utf8ValidationError>)
    ensures
        is_validation_outcome(source@, outcome),
        outcome is Ok <==> valid_utf8(source@),
{
    let align = start_align_offset(source, WORD_BYTES);
    validate_utf8_aligned(source, align)
}

/// Validates `source` as UTF-8, given in `align` the number of bytes from the
/// start of `source` to the next word boundary, or `usize::MAX` where the
/// buffer cannot be aligned. The offsets at which whole blocks are read depend
/// on `align`; the outcome does not.
pub fn validate_utf8_aligned(source: &[u8], align: usize) -> (outcome: Result<
    (),
    Utf8ValidationError,
>)
    ensures
        is_validation_outcome(source@, outcome),
        outcome is Ok <==> valid_utf8(source@),
{
    let len = source.len();
    let ascii_block_size = 2 * WORD_BYTES;
    let blocks_end = if len >= ascii_block_size {
        len - ascii_block_size + 1
    } else {
        0
    };
    let mut index: usize = 0;
    proof {
    }
    while index < len
        invariant
            len == source.len(),
            ascii_block_size == 2 * WORD_BYTES,
            blocks_end > 0 ==> blocks_end + ascii_block_size == len + 1,
            index <= len,
            valid_utf8(source@.subrange(0, index as int)),
        decreases len - index,
    {
        let first = source[index];
        proof {
            lemma_well_formed_at_is_first_scalar(source@, index as int);
        }
        if first >= 128 {
            let width = get_utf8_sequence_width(first);
            if !sequence_is_well_formed(source, index, width) {
                proof {
                    lemma_rejected_is_invalid(source@, index as int);
                }
                return Err(Utf8ValidationError { valid_up_to: index });
            }
            proof {
                partial_valid_utf8_extend(source@, index as int);
            }
            index += width as usize;
        } else if align != usize::MAX && align.wrapping_sub(index) % WORD_BYTES == 0 {
            let ghost start = index;
            while index < blocks_end
                invariant
                    len == source.len(),
                    ascii_block_size == 2 * WORD_BYTES,
                    blocks_end > 0 ==> blocks_end + ascii_block_size == len + 1,
                    start <= index <= len,
                    valid_utf8(source@.subrange(0, index as int)),
                decreases len - index,
            {
                let low = load_word(source, index);
                let high = load_word(source, index + WORD_BYTES);
                let zu = contains_nonascii(low);
                let zv = contains_nonascii(high);
                if zu || zv {
                    break ;
                }
                proof {
                    assert forall|i: int| index <= i < index + ascii_block_size implies source@[i]
                        < 0x80 by {
                        if i < index + WORD_BYTES {
                            let k = (i - index) as usize;
                            assert(word_byte(low, k) == source@[i]);
                        } else {
                            let k = (i - index - WORD_BYTES) as usize;
                            assert(word_byte(high, k) == source@[i]);
                        }
                    }
                    partial_valid_utf8_extend_ascii_block(
                        source@,
                        index as int,
                        index + ascii_block_size,
                    );
                }
                index += ascii_block_size;
            }
            while index < len && source[index] < 128
                invariant
                    len == source.len(),
                    start <= index <= len,
                    start < len,
                    source@[start as int] < 128,
                    valid_utf8(source@.subrange(0, index as int)),
                decreases len - index,
            {
                proof {
                    lemma_well_formed_at_is_first_scalar(source@, index as int);
                    partial_valid_utf8_extend(source@, index as int);
                }
                index += 1;
            }
        } else {
            proof {
                partial_valid_utf8_extend(source@, index as int);
            }
            index += 1;
        }
    }
    proof {
        assert(source@.subrange(0, len as int) =~= source@);
    }
    Ok(())
}

/// Number of bytes that a UTF-8 sequence beginning with `first` occupies, or
/// 0 when `first` cannot begin a sequence.
pub fn get_utf8_sequence_width(first: u8) -> (width: u8)
    ensures
        width == sequence_width(first),
{
    match first {
        0..=0x7F => 1,
        0xC2..=0xDF => 2,
        0xE0..=0xEF => 3,
        0xF0..=0xF4 => 4,
        _ => 0,
    }
}

/// Whether any byte of `x` has its high bit set.
pub fn contains_nonascii(x: usize) -> (found: bool)
    ensures
        found == (x & NONASCII_MASK != 0),
        found <==> exists|k: usize| k < WORD_BYTES && #[trigger] word_byte(x, k) >= 0x80,
{
    proof {
        if x & NONASCII_MASK != 0 {
            lemma_mask_finds_high_bit(x);
        }
        assert forall|k: usize| k < WORD_BYTES && #[trigger] word_byte(x, k) >= 0x80 implies x
            & NONASCII_MASK != 0 by {
            lemma_high_bit_sets_mask(x, k);
        }
    }
    (x & NONASCII_MASK) != 0
}

/// Reads the `WORD_BYTES` bytes of `source` from offset `at` on as one word,
/// the first of them least significant.
fn load_word(source: &[u8], at: usize) -> (word: usize)
    requires
        at + WORD_BYTES <= source.len(),
    ensures
        forall|k: usize| k < WORD_BYTES ==> #[trigger] word_byte(word, k) == source@[at + k],
{
    let mut word: usize = 0;
    let mut k: usize = 0;
    proof {
        assert forall|j: usize| j < WORD_BYTES implies #[trigger] word_byte(word, j) == 0 by {
            lemma_zero_word(j);
        }
    }
    while k < WORD_BYTES
        invariant
            k <= WORD_BYTES,
            at + WORD_BYTES <= source.len(),
            forall|j: usize| j < k ==> #[trigger] word_byte(word, j) == source@[at + j],
            forall|j: usize| k <= j < WORD_BYTES ==> #[trigger] word_byte(word, j) == 0,
        decreases WORD_BYTES - k,
    {
        let byte = source[at + k] as usize;
        let next = word | (byte << (8 * k));
        proof {
            assert forall|j: usize| j < WORD_BYTES implies #[trigger] word_byte(next, j) == if j
                == k {
                byte
            } else {
                word_byte(word, j)
            } by {
                lemma_byte_placed(word, byte, k, j);
            }
        }
        word = next;
        k += 1;
    }
    word
}

/// The number of bytes from the start of `source` to the next address that is
/// a multiple of `width`, by `<*const u8>::align_offset`. It depends on where
/// the buffer lies in memory, and may be `usize::MAX` where no such offset can
/// be given, so nothing is claimed of it.
#[verifier::external_body]
fn start_align_offset(source: &[u8], width: usize) -> (offset: usize)
    requires
        width == 4 || width == 8,
{
    source.as_ptr().align_offset(width)
}

proof fn lemma_high_bit_sets_mask(word: usize, k: usize)
    by (bit_vector)
    requires
        k < WORD_BYTES,
        word_byte(word, k) >= 0x80,
    ensures
        word & NONASCII_MASK != 0,
{
}

proof fn lemma_mask_finds_high_bit(word: usize)
    by (bit_vector)
    requires
        word & NONASCII_MASK != 0,
    ensures
        word_byte(word, 0) >= 0x80 || word_byte(word, 1) >= 0x80 || word_byte(word, 2) >= 0x80
            || word_byte(word, 3) >= 0x80 || (4 < WORD_BYTES && (word_byte(word, 4) >= 0x80
            || word_byte(word, 5) >= 0x80 || word_byte(word, 6) >= 0x80 || word_byte(word, 7)
            >= 0x80)),
{
}

proof fn lemma_byte_placed(word: usize, byte: usize, k: usize, j: usize)
    by (bit_vector)
    requires
        byte <= 0xFF,
        k < WORD_BYTES,
        j < WORD_BYTES,
        word_byte(word, k) == 0,
    ensures
        word_byte(word | (byte << (8 * k)), j) == if j == k {
            byte
        } else {
            word_byte(word, j)
        },
{
}

proof fn lemma_zero_word(k: usize)
    by (bit_vector)
    requires
        k < WORD_BYTES,
    ensures
        word_byte(0, k) == 0,
{
}

} // verus!
