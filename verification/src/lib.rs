//! UTF-8 validation and code point encoding, verified with Verus.
//!
//! Two validators decide whether a byte sequence is well-formed UTF-8 and, if
//! it is not, up to which offset it is: [`v1`] walks the input byte by byte,
//! [`v2`] also skips runs of ASCII a block at a time. Both are proved to
//! return the one outcome that [`wellformed`] defines. [`encode_utf8`] and
//! [`decode_utf8`] convert between one code point and its bytes. [`laws`]
//! holds what is proved of these functions together.

use vstd::prelude::*;
use vstd::utf8::{decode_first_codepoint, encode_scalar, is_scalar, valid_utf8};
use crate::laws::lemma_encoding_is_well_formed;
use crate::v1::get_utf8_sequence_width;
use crate::wellformed::sequence_width;

pub mod laws;
mod sequence;
mod text;
pub mod v1;
pub mod v2;
pub mod wellformed;

verus! {

/// A validation failure: the input is valid UTF-8 up to, but not from,
/// `valid_up_to`.
#[derive(Debug, Clone, Copy, PartialEq, Eq, Structural)]
pub struct Utf8ValidationError {
    pub valid_up_to: usize,
}

/// Why a code point could not be encoded or decoded.
#[derive(Debug, Clone, Copy, PartialEq, Eq, Structural)]
pub enum Utf8EncodeError {
    /// The value is above `0x10FFFF`.
    OutOfRange,
    /// The value is a surrogate, `0xD800..=0xDFFF`.
    SurrogatePoint,
    /// There are no bytes, or not as many as the first one announces, or the
    /// first one cannot begin a sequence.
    InvalidBytesCount,
}

/// What decoding `bytes` as one sequence yields. The bytes must be exactly as
/// many as the first one announces. Their payload bits are then composed into
/// a value, most significant first: the low 7, 5, 4 or 3 bits of the first
/// byte of a sequence of 1, 2, 3 or 4, and the low 6 bits of each later byte.
/// That value must be a scalar value.
///
/// The bytes after the first are not inspected beyond their payload bits: on
/// bytes that are no well-formed sequence the result may be a value that they
/// do not encode. `laws::lemma_encode_inverts_decode` states what holds on a
/// well-formed sequence.
pub open spec fn decoded(bytes: Seq<u8>) -> Result<u32, Utf8EncodeError> {
    if bytes.len() == 0 || sequence_width(bytes[0]) != bytes.len() {
        Err(Utf8EncodeError::InvalidBytesCount)
    } else if decode_first_codepoint(bytes) > 0x10FFFF {
        Err(Utf8EncodeError::OutOfRange)
    } else if 0xD800 <= decode_first_codepoint(bytes) <= 0xDFFF {
        Err(Utf8EncodeError::SurrogatePoint)
    } else {
        Ok(decode_first_codepoint(bytes))
    }
}

/// What encoding `c` yields: for a scalar value its UTF-8 sequence, of 1 byte
/// up to `0x7F`, 2 up to `0x7FF`, 3 up to `0xFFFF` and 4 above, with the bits
/// of `c` laid out after the length prefix of the first byte and the prefix
/// `10` of each later byte; an error for a surrogate and for a value above
/// `0x10FFFF`.
pub open spec fn encoded(c: u32) -> Result<Seq<u8>, Utf8EncodeError> {
    if 0xD800 <= c <= 0xDFFF {
        Err(Utf8EncodeError::SurrogatePoint)
    } else if c > 0x10FFFF {
        Err(Utf8EncodeError::OutOfRange)
    } else {
        Ok(encode_scalar(c))
    }
}

/// Decodes one UTF-8 sequence into the code point it encodes. It is meant for
/// bytes that are known to be well-formed: only their number and the range of
/// the result are checked.
pub fn decode_utf8(c: Vec<u8>) -> (r: Result<u32, Utf8EncodeError>)
    ensures
        r == decoded(c@),
{
    if c.len() == 0 || get_utf8_sequence_width(c[0]) as usize != c.len() {
        return Err(Utf8EncodeError::InvalidBytesCount);
    }
    let codepoint: u32 = match c.len() {
        1 => c[0] as u32,
        2 => (((c[0] & 0x1Fu8) as u32) << 6) | ((c[1] & 0x3Fu8) as u32),
        3 => (((c[0] & 0x0Fu8) as u32) << 12) | (((c[1] & 0x3Fu8) as u32) << 6) | ((c[2]
            & 0x3Fu8) as u32),
        4 => (((c[0] & 0x07u8) as u32) << 18) | (((c[1] & 0x3Fu8) as u32) << 12) | (((c[2]
            & 0x3Fu8) as u32) << 6) | ((c[3] & 0x3Fu8) as u32),
        _ => return Err(Utf8EncodeError::InvalidBytesCount),
    };
    proof {
        let first = c[0];
        assert(first <= 0x7F ==> (first & 0x7F) as u32 == first as u32) by (bit_vector);
    }
    if codepoint > 0x10FFFF {
        return Err(Utf8EncodeError::OutOfRange);
    }
    if 0xD800 <= codepoint && codepoint <= 0xDFFF {
        return Err(Utf8EncodeError::SurrogatePoint);
    }
    Ok(codepoint)
}

/// Encodes the code point `c` as its UTF-8 sequence, the shortest there is
/// for it.
pub fn encode_utf8(c: u32) -> (r: Result<Vec<u8>, Utf8EncodeError>)
    ensures
        r is Ok <==> is_scalar(c),
        r matches Ok(bytes) ==> encoded(c) is Ok && bytes@ == encoded(c)->Ok_0,
        r matches Err(e) ==> encoded(c) == Err::<Seq<u8>, Utf8EncodeError>(e),
        r matches Ok(bytes) ==> valid_utf8(bytes@) && bytes@.len() == sequence_width(bytes@[0]),
{
    proof {
        if is_scalar(c) {
            lemma_encoding_is_well_formed(c);
        }
    }
    match c {
        0..=0x7F => {
            assert(c <= 0x7F ==> (c & 0x7F) as u8 == c as u8) by (bit_vector);
            Ok(vec![c as u8])
        },
        0x80..=0x07FF => {
            assert(c <= 0x7FF ==> c >> 6 <= 0x1F && (c >> 6) & 0x1F == c >> 6) by (bit_vector);
            Ok(vec![0xC0 | ((c >> 6) as u8), 0x80 | ((c & 0x3F) as u8)])
        },
        0x800..=0xD7FF | 0xE000..=0xFFFF => {
            assert(c <= 0xFFFF ==> c >> 12 <= 0x0F && (c >> 12) & 0x0F == c >> 12) by (bit_vector);
            Ok(
                vec![
                    0xE0 | ((c >> 12) as u8),
                    0x80 | (((c >> 6) & 0x3F) as u8),
                    0x80 | ((c & 0x3F) as u8),
                ],
            )
        },
        0xD800..=0xDFFF => Err(Utf8EncodeError::SurrogatePoint),
        0x10000..=0x10FFFF => {
            assert(c <= 0x10FFFF ==> c >> 18 <= 0x07 && (c >> 18) & 0x07 == c >> 18)
                by (bit_vector);
            Ok(
                vec![
                    0xF0 | ((c >> 18) as u8),
                    0x80 | (((c >> 12) & 0x3F) as u8),
                    0x80 | (((c >> 6) & 0x3F) as u8),
                    0x80 | ((c & 0x3F) as u8),
                ],
            )
        },
        _ => Err(Utf8EncodeError::OutOfRange),
    }
}

} // verus!
