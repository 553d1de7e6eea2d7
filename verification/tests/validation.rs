use unicode_validation_example::v1;
use unicode_validation_example::v2;
use unicode_validation_example::{encode_utf8, Utf8ValidationError};

#[test]
fn test_validation() {
    test_cases_with("v1", |bytes: &[u8]| -> bool { v1::from_utf8(bytes).is_ok() });

    test_cases_with("v2", |bytes: &[u8]| -> bool { v2::from_utf8(bytes).is_ok() });
}

struct Case {
    pub bytes: &'static [u8],
    pub desc: &'static str,
}

fn test_cases_with(version: &str, f: fn(&[u8]) -> bool) {
    for case in ill_formed() {
        assert!(!f(case.bytes), "{}, expected: {}", version, case.desc)
    }

    for case in well_formed() {
        assert!(f(case.bytes), "{}, expected: {}", version, case.desc)
    }
}

fn ill_formed() -> Vec<Case> {
    vec![
        Case {
            bytes: &[0b_1111_1000, 0b_1000_0000, 0b_1000_0000, 0b_1000_0000],
            desc: "invalid high bits of the first byte",
        },
        Case {
            bytes: &[0b_1000_0000, 0b_1000_0000],
            desc: "the high bits of the first byte are 0b10",
        },
        Case {
            bytes: &[0b_1100_0010, 0b_0000_0000],
            desc: "the high bits of the second byte are not 0b10",
        },
        Case {
            bytes: &[0b_1110_1111, 0b_1000_0000],
            desc: "the expected third byte of the sequence is missing",
        },
        Case {
            bytes: &[0b_1110_1111, 0b_1000_0000, 0b_0000_0000],
            desc: "the high bits of the third byte are not 0b10",
        },
        Case {
            bytes: &[0b_1111_0011, 0b_1000_0000, 0b_1000_0000],
            desc: "the expected fourth byte of the sequence is missing",
        },
        Case {
            bytes: &[0b_1111_0011, 0b_1000_0000, 0b_1000_0000, 0b_0000_0000],
            desc: "the high bits of the fourth byte are not 0b10",
        },
        Case {
            bytes: &[0b_1100_0001, 0b_1011_1111],
            desc: "overlong encoding in a two-byte sequence",
        },
        Case {
            bytes: &[0b_1110_0000, 0b_1001_1111, 0b_1011_1111],
            desc: "overlong encoding in a three-byte sequence",
        },
        Case {
            bytes: &[0b_1111_0000, 0b_1000_1111, 0b_1011_1111, 0b_1011_1111],
            desc: "overlong encoding in a four-byte sequence",
        },
        Case {
            bytes: &[0b_1111_0100, 0b_1001_0000, 0b_1000_0000, 0b_1000_0000],
            desc: "beyond the range of Unicode",
        },
        Case {
            bytes: &[0b_1110_1101, 0b_1010_0000, 0b_1000_0000],
            desc: "surrogates",
        },
        Case {
            bytes: &[0b_1110_1101, 0b_1011_1111, 0b_1011_1111],
            desc: "surrogates",
        },
    ]
}

fn well_formed() -> Vec<Case> {
    vec![
        Case {
            bytes: &[0x00],
            desc: "1 byte, lower bound",
        },
        Case {
            bytes: &[0x7f],
            desc: "1 byte, upper bound",
        },
        Case {
            bytes: &[0xc2, 0x80],
            desc: "2 bytes, lower bound",
        },
        Case {
            bytes: &[0xdf, 0xbf],
            desc: "2 bytes, upper bound",
        },
        Case {
            bytes: &[0xe0, 0xa0, 0x80],
            desc: "3 bytes, lower bound",
        },
        Case {
            bytes: &[0xe0, 0xbf, 0xbf],
            desc: "3 bytes",
        },
        Case {
            bytes: &[0xe1, 0x80, 0x80],
            desc: "3 bytes",
        },
        Case {
            bytes: &[0xec, 0xbf, 0xbf],
            desc: "3 bytes",
        },
        Case {
            bytes: &[0xed, 0x9f, 0xbf],
            desc: "3 bytes, the surrogates come next",
        },
        Case {
            bytes: &[0xee, 0x80, 0x80],
            desc: "3 bytes, after the surrogates",
        },
        Case {
            bytes: &[0xef, 0xbf, 0xbf],
            desc: "3 bytes, upper bound",
        },
        Case {
            bytes: &[0xf0, 0x90, 0x80, 0x80],
            desc: "4 bytes, lower bound",
        },
        Case {
            bytes: &[0xf1, 0x80, 0x80, 0x80],
            desc: "4 bytes",
        },
        Case {
            bytes: &[0xf3, 0xbf, 0xbf, 0xbf],
            desc: "4 bytes",
        },
        Case {
            bytes: &[0xf4, 0x8f, 0xbf, 0xbf],
            desc: "4 bytes, upper bound",
        },
    ]
}

fn rejected(valid_up_to: usize) -> Result<(), Utf8ValidationError> {
    Err(Utf8ValidationError { valid_up_to })
}

/// What the standard library makes of the same bytes.
fn reference(bytes: &[u8]) -> Result<(), Utf8ValidationError> {
    match std::str::from_utf8(bytes) {
        Ok(_) => Ok(()),
        Err(error) => rejected(error.valid_up_to()),
    }
}

/// Checks both validators, at every alignment, against the expected outcome.
fn check_all(bytes: &[u8], expected: Result<(), Utf8ValidationError>) {
    assert_eq!(v1::validate_utf8(bytes), expected, "v1 on {:x?}", bytes);
    assert_eq!(v2::validate_utf8(bytes), expected, "v2 on {:x?}", bytes);
    for align in 0..=16 {
        assert_eq!(v2::validate_utf8_aligned(bytes, align), expected, "v2 at {} on {:x?}", align, bytes);
    }
    assert_eq!(v2::validate_utf8_aligned(bytes, usize::MAX), expected, "v2 unaligned on {:x?}", bytes);
    assert_eq!(v1::from_utf8(bytes).map(|_| ()), expected);
    assert_eq!(v2::from_utf8(bytes).map(|_| ()), expected);
}

/// A small generator of reproducible pseudo-random numbers.
struct Generator(u64);

impl Generator {
    fn next(&mut self) -> u64 {
        self.0 = self.0.wrapping_mul(6364136223846793005).wrapping_add(1442695040888963407);
        self.0 >> 33
    }

    fn below(&mut self, bound: u64) -> u64 {
        self.next() % bound
    }

    /// Bytes that are mostly valid UTF-8, with now and then a stray byte.
    fn text(&mut self, sequences: usize) -> Vec<u8> {
        let mut bytes = Vec::new();
        for _ in 0..sequences {
            match self.below(16) {
                0 => bytes.push(self.below(256) as u8),
                1..=8 => bytes.push(self.below(128) as u8),
                9..=10 => bytes.extend(encode_utf8(0x80 + self.below(0x780) as u32).unwrap()),
                11..=12 => bytes.extend(encode_utf8(0xE000 + self.below(0x2000) as u32).unwrap()),
                13 => bytes.extend(encode_utf8(0x800 + self.below(0xD000) as u32).unwrap()),
                _ => bytes.extend(encode_utf8(0x10000 + self.below(0x100000) as u32).unwrap()),
            }
        }
        bytes
    }
}

#[test]
fn empty_input_is_valid() {
    check_all(&[], Ok(()));
    assert_eq!(v1::from_utf8(&[]), Ok(""));
    assert_eq!(v2::from_utf8(&[]), Ok(""));
}

#[test]
fn ill_formed_cases_are_rejected_at_their_first_byte() {
    for case in ill_formed() {
        check_all(case.bytes, rejected(0));
    }
}

#[test]
fn well_formed_cases_are_accepted() {
    for case in well_formed() {
        check_all(case.bytes, Ok(()));
    }
}

#[test]
fn failure_is_reported_at_the_leading_byte() {
    check_all(&[0x41, 0xC2], rejected(1));
    check_all(&[0x41, 0x42, 0xE2, 0x82], rejected(2));
    check_all(&[0xE2, 0x82, 0xAC, 0xF0, 0x90, 0x8D], rejected(3));
    check_all(&[0xC2, 0xA2, 0xE2, 0x82, 0x41], rejected(2));
    check_all(&[0x41, 0xF0, 0x90, 0x8D, 0x41], rejected(1));
    check_all(&[0x41, 0x80], rejected(1));
    check_all(&[0xC2, 0xA2, 0xFF], rejected(2));
}

#[test]
fn second_byte_bounds_are_exact() {
    for second in 0..=0xFFu8 {
        let continuation = (0x80..=0xBF).contains(&second);
        let three = |first: u8, accepted: bool| {
            check_all(&[first, second, 0x80], if accepted { Ok(()) } else { rejected(0) });
        };
        three(0xE0, (0xA0..=0xBF).contains(&second));
        three(0xE1, continuation);
        three(0xEC, continuation);
        three(0xED, (0x80..=0x9F).contains(&second));
        three(0xEE, continuation);
        three(0xEF, continuation);
        let four = |first: u8, accepted: bool| {
            check_all(&[first, second, 0x80, 0x80], if accepted { Ok(()) } else { rejected(0) });
        };
        four(0xF0, (0x90..=0xBF).contains(&second));
        four(0xF1, continuation);
        four(0xF3, continuation);
        four(0xF4, (0x80..=0x8F).contains(&second));
        check_all(&[0xC2, second], if continuation { Ok(()) } else { rejected(0) });
        check_all(&[0xDF, second], if continuation { Ok(()) } else { rejected(0) });
    }
}

#[test]
fn every_two_byte_input_agrees_with_the_standard_library() {
    for first in 0..=0xFFu8 {
        for second in 0..=0xFFu8 {
            let bytes = [first, second];
            let expected = reference(&bytes);
            assert_eq!(v1::validate_utf8(&bytes), expected);
            assert_eq!(v2::validate_utf8(&bytes), expected);
        }
    }
}

#[test]
fn every_leading_pair_agrees_with_the_standard_library() {
    for first in 0x80..=0xFFu8 {
        for second in 0..=0xFFu8 {
            for third in [0x00, 0x7F, 0x80, 0xBF, 0xC0, 0xFF] {
                for fourth in [0x00, 0x7F, 0x80, 0xBF, 0xC0, 0xFF] {
                    let bytes = [first, second, third, fourth];
                    let expected = reference(&bytes);
                    assert_eq!(v1::validate_utf8(&bytes), expected, "{:x?}", bytes);
                    assert_eq!(v2::validate_utf8(&bytes), expected, "{:x?}", bytes);
                }
            }
        }
    }
}

#[test]
fn validators_agree_on_random_input() {
    let mut generator = Generator(0x5EED);
    for round in 0..2000 {
        let bytes = generator.text(round % 97);
        let expected = reference(&bytes);
        check_all(&bytes, expected);
    }
}

#[test]
fn validators_agree_on_random_bytes() {
    let mut generator = Generator(7);
    for round in 0..4000 {
        let length = round % 41;
        let bytes: Vec<u8> = (0..length).map(|_| generator.below(256) as u8).collect();
        check_all(&bytes, reference(&bytes));
    }
}

#[test]
fn validators_agree_wherever_the_buffer_starts() {
    let mut generator = Generator(99);
    let buffer = generator.text(400);
    for start in 0..32 {
        for end in (start..buffer.len()).step_by(7) {
            let bytes = &buffer[start..end];
            check_all(bytes, reference(bytes));
        }
    }
}

#[test]
fn the_prefix_before_a_failure_is_valid() {
    let mut generator = Generator(2024);
    let mut failures = 0;
    for round in 0..2000 {
        let bytes = generator.text(round % 61);
        if let Err(error) = v1::validate_utf8(&bytes) {
            failures += 1;
            assert!(error.valid_up_to < bytes.len());
            check_all(&bytes[..error.valid_up_to], Ok(()));
        }
    }
    assert!(failures > 100);
}

#[test]
fn an_ascii_run_in_front_shifts_the_outcome() {
    let block = 2 * std::mem::size_of::<usize>();
    let mut tails: Vec<&[u8]> = Vec::new();
    for case in ill_formed() {
        tails.push(case.bytes);
    }
    for case in well_formed() {
        tails.push(case.bytes);
    }
    tails.push(&[0xE2, 0x82, 0xAC, 0x41, 0xC2]);
    for tail in tails {
        let alone = v1::validate_utf8(tail);
        for run in [block, block + 1, 2 * block, 3 * block - 1, 10 * block + 3] {
            let mut bytes = vec![b'a'; run];
            bytes.extend_from_slice(tail);
            let expected = match alone {
                Ok(()) => Ok(()),
                Err(error) => rejected(run + error.valid_up_to),
            };
            check_all(&bytes, expected);
        }
    }
}

#[test]
fn long_ascii_is_valid() {
    for length in 0..200 {
        let bytes: Vec<u8> = (0..length).map(|i| (i % 128) as u8).collect();
        check_all(&bytes, Ok(()));
    }
}

#[test]
fn a_stray_byte_in_long_ascii_is_found() {
    let length = 12 * std::mem::size_of::<usize>();
    for position in 0..length {
        let mut bytes = vec![b'x'; length];
        bytes[position] = 0x80;
        check_all(&bytes, rejected(position));
        bytes[position] = 0xC3;
        if position + 1 < length {
            check_all(&bytes, rejected(position));
            bytes[position + 1] = 0xA9;
            check_all(&bytes, Ok(()));
        } else {
            check_all(&bytes, rejected(position));
        }
    }
}

#[test]
fn text_is_a_view_of_the_same_bytes() {
    let sample = "na\u{EF}ve \u{20AC}uro \u{10348} text";
    assert_eq!(v1::from_utf8(sample.as_bytes()), Ok(sample));
    assert_eq!(v2::from_utf8(sample.as_bytes()), Ok(sample));
    assert_eq!(v1::from_utf8(&[0xE2, 0x82, 0xAC]), Ok("\u{20AC}"));
    assert_eq!(v2::from_utf8(&[0xE2, 0x82, 0xAC]), Ok("\u{20AC}"));
    let bytes = [0x68, 0x69, 0xC2];
    assert_eq!(v1::from_utf8(&bytes), Err(Utf8ValidationError { valid_up_to: 2 }));
    assert_eq!(v2::from_utf8(&bytes), Err(Utf8ValidationError { valid_up_to: 2 }));
}

#[test]
fn sequence_width_of_every_byte() {
    for first in 0..=0xFFu8 {
        let expected = match first {
            0x00..=0x7F => 1,
            0x80..=0xC1 => 0,
            0xC2..=0xDF => 2,
            0xE0..=0xEF => 3,
            0xF0..=0xF4 => 4,
            0xF5..=0xFF => 0,
        };
        assert_eq!(v1::get_utf8_sequence_width(first), expected);
        assert_eq!(v2::get_utf8_sequence_width(first), expected);
    }
}

#[test]
fn nonascii_is_found_in_every_byte_of_a_word() {
    assert!(!v2::contains_nonascii(0));
    assert!(!v2::contains_nonascii(0x7F));
    assert!(!v2::contains_nonascii(usize::MAX / 0xFF * 0x7F));
    assert!(v2::contains_nonascii(usize::MAX));
    for k in 0..std::mem::size_of::<usize>() {
        assert!(v2::contains_nonascii(0x80usize << (8 * k)));
        assert!(v2::contains_nonascii(0xFFusize << (8 * k)));
        assert!(!v2::contains_nonascii(0x7Fusize << (8 * k)));
        assert!(v2::contains_nonascii((usize::MAX / 0xFF * 0x41) | (0x80usize << (8 * k))));
    }
}

#[test]
fn the_mask_sets_the_high_bit_of_every_byte() {
    assert_eq!(v2::NONASCII_MASK, usize::MAX / 0xFF * 0x80);
    assert_eq!(v2::NONASCII_MASK.to_ne_bytes(), [0x80; std::mem::size_of::<usize>()]);
    assert_eq!(v2::WORD_BYTES, std::mem::size_of::<usize>());
}
