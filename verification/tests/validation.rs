use iso17442_types::checksum::expand;
use iso17442_types::decimal::parse_decimal;
use iso17442_types::{validate, Error};

const GOOD: &str = "YZ83GD8L7GG84979J516";

/// The check digits of `body`, worked out digit by digit without a wide
/// integer: every letter counts as two decimal digits.
fn check_digits_of(body: &[u8]) -> u32 {
    let mut acc: u32 = 0;
    for &b in body {
        if b.is_ascii_digit() {
            acc = (acc * 10 + u32::from(b - b'0')) % 97;
        } else {
            let v: u32 = u32::from(b - b'A') + 10;
            acc = (acc * 10 + v / 10) % 97;
            acc = (acc * 10 + v % 10) % 97;
        }
    }
    acc = (acc * 100) % 97;
    98 - acc
}

#[test]
fn accepts_known_identifiers() {
    for s in [
        "YZ83GD8L7GG84979J516",
        "5493001KJTIIGC8Y1R12",
        "529900T8BM49AURSDO55",
        "HWUPKR0MPOU8FGXBT394",
        "7LTWFZYICNSX8D621K86",
        "549300MLUDYVRQOOXS22",
    ] {
        assert_eq!(validate(s.as_bytes()), Ok(()), "{s}");
    }
}

#[test]
fn check_digits_altered() {
    assert_eq!(validate(b"YZ83GD8L7GG84979J563"), Err(Error::CheckDigitFail));
    assert_eq!(validate(b"315700K7NYVSQJNTN401"), Err(Error::CheckDigitFail));
}

#[test]
fn wrong_length_is_reported_with_both_lengths() {
    assert_eq!(validate(b"315700K7NYVSQJNTN4"), Err(Error::InvalidLength(18, 20)));
    assert_eq!(validate(b""), Err(Error::InvalidLength(0, 20)));
    assert_eq!(validate(b"YZ83GD8L7GG84979J5160"), Err(Error::InvalidLength(21, 20)));
}

#[test]
fn every_length_but_twenty_is_turned_down() {
    let long: Vec<u8> = GOOD.as_bytes().iter().cycle().take(64).copied().collect();
    for len in 0..=64usize {
        if len != 20 {
            assert_eq!(validate(&long[..len]), Err(Error::InvalidLength(len, 20)));
        }
    }
    let junk: Vec<u8> = vec![b'!'; 33];
    assert_eq!(validate(&junk), Err(Error::InvalidLength(33, 20)));
}

#[test]
fn length_comes_before_symbols() {
    assert_eq!(validate(b"yz83"), Err(Error::InvalidLength(4, 20)));
    assert_eq!(validate("YZ83GD8L7GG849\u{1F4A9}16!".as_bytes()), Err(Error::InvalidLength(21, 20)));
}

#[test]
fn foreign_byte_is_reported_where_it_stands() {
    let foreign: [u8; 12] = [0, b' ', b'/', b':', b'@', b'[', b'`', b'a', b'z', 0x7f, 0x80, 0xff];
    for at in 0..18usize {
        for b in foreign {
            let mut bytes: [u8; 20] = [0; 20];
            bytes.copy_from_slice(GOOD.as_bytes());
            bytes[at] = b;
            assert_eq!(validate(&bytes), Err(Error::InvalidCharacter(at)), "{at} {b}");
        }
    }
}

#[test]
fn first_foreign_byte_wins() {
    assert_eq!(validate(b"YZ8-GD8L7GG8-979J516"), Err(Error::InvalidCharacter(3)));
    assert_eq!(validate(b"yz83gd8l7gg84979j516"), Err(Error::InvalidCharacter(0)));
    assert_eq!(validate(b"YZ83GD8L7GG84979J.16"), Err(Error::InvalidCharacter(17)));
}

#[test]
fn symbols_come_before_check_digits() {
    assert_eq!(validate(b"YZ83GD8L7GG8497 J563"), Err(Error::InvalidCharacter(15)));
    assert_eq!(validate(b"YZ83GD8L7GG8497 J5xy"), Err(Error::InvalidCharacter(15)));
}

#[test]
fn check_positions_take_digits_only() {
    assert_eq!(validate(b"YZ83GD8L7GG84979J5A6"), Err(Error::CheckDigitFail));
    assert_eq!(validate(b"YZ83GD8L7GG84979J51G"), Err(Error::CheckDigitFail));
    assert_eq!(validate(b"YZ83GD8L7GG84979J5 6"), Err(Error::CheckDigitFail));
    assert_eq!(validate(b"YZ83GD8L7GG84979J5\xff\xff"), Err(Error::CheckDigitFail));
}

#[test]
fn any_other_check_digits_fail() {
    for n in 0..100u8 {
        let mut bytes: [u8; 20] = [0; 20];
        bytes.copy_from_slice(GOOD.as_bytes());
        bytes[18] = b'0' + n / 10;
        bytes[19] = b'0' + n % 10;
        let expected = if n == 16 { Ok(()) } else { Err(Error::CheckDigitFail) };
        assert_eq!(validate(&bytes), expected, "{n}");
    }
}

#[test]
fn one_altered_check_digit_fails() {
    for at in 18..20usize {
        for d in b'0'..=b'9' {
            let mut bytes: [u8; 20] = [0; 20];
            bytes.copy_from_slice(GOOD.as_bytes());
            if bytes[at] != d {
                bytes[at] = d;
                assert_eq!(validate(&bytes), Err(Error::CheckDigitFail));
            }
        }
    }
}

#[test]
fn check_digits_match_an_independent_computation() {
    assert_eq!(check_digits_of(&GOOD.as_bytes()[..18]), 16);
    for s in ["5493001KJTIIGC8Y1R12", "529900T8BM49AURSDO55", "HWUPKR0MPOU8FGXBT394"] {
        let bytes = s.as_bytes();
        let check: u32 = check_digits_of(&bytes[..18]);
        assert_eq!(u32::from(bytes[18] - b'0') * 10 + u32::from(bytes[19] - b'0'), check);
        assert_eq!(validate(bytes), Ok(()));
    }
}

#[test]
fn letters_count_from_ten_to_thirty_five() {
    // seventeen zeros and one symbol: the expanded number is the symbol's value
    for (i, letter) in (b'A'..=b'Z').enumerate() {
        let value: u32 = 10 + i as u32;
        let check: u32 = 98 - (value * 100) % 97;
        let mut bytes: [u8; 20] = [b'0'; 20];
        bytes[17] = letter;
        bytes[18] = b'0' + (check / 10) as u8;
        bytes[19] = b'0' + (check % 10) as u8;
        assert_eq!(validate(&bytes), Ok(()), "{}", letter as char);
    }
    for digit in b'0'..=b'9' {
        let value: u32 = u32::from(digit - b'0');
        let check: u32 = 98 - (value * 100) % 97;
        let mut bytes: [u8; 20] = [b'0'; 20];
        bytes[17] = digit;
        bytes[18] = b'0' + (check / 10) as u8;
        bytes[19] = b'0' + (check % 10) as u8;
        assert_eq!(validate(&bytes), Ok(()), "{}", digit as char);
    }
}

#[test]
fn expanded_number_leaves_remainder_one() {
    let mut digits = String::new();
    for b in GOOD.bytes() {
        if b.is_ascii_digit() {
            digits.push(b as char);
        } else {
            digits.push_str(&format!("{}", b - 55));
        }
    }
    let number: u128 = digits.parse().unwrap();
    assert_eq!(number % 97, 1);
}

#[test]
fn smallest_and_largest_check_digits() {
    assert_eq!(validate(b"00000000000000000098"), Ok(()));
    assert_eq!(validate(b"YZ83GD8L7GG800001998"), Ok(()));
    assert_eq!(validate(b"YZ83GD8L7GG800008497"), Ok(()));
    assert_eq!(validate(b"YZ83GD8L7GG800005102"), Ok(()));
    assert_eq!(validate(b"YZ83GD8L7GG800008303"), Ok(()));
}

#[test]
fn same_remainder_is_not_enough() {
    // 01 and 98 differ by 97, as do 00 and 97, and 02 and 99
    assert_eq!(validate(b"00000000000000000001"), Err(Error::CheckDigitFail));
    assert_eq!(validate(b"YZ83GD8L7GG800001901"), Err(Error::CheckDigitFail));
    assert_eq!(validate(b"YZ83GD8L7GG800008400"), Err(Error::CheckDigitFail));
    assert_eq!(validate(b"YZ83GD8L7GG800005199"), Err(Error::CheckDigitFail));
}

#[test]
fn longest_expansion_still_parses() {
    assert_eq!(validate(b"ZZZZZZZZZZZZZZZZZZ40"), Ok(()));
    assert_eq!(validate(b"AAAAAAAAAAAAAAAAAA26"), Ok(()));
    assert_eq!(validate(b"99999999999999999928"), Ok(()));
    assert_eq!(validate(b"ZZZZZZZZZZZZZZZZZZ41"), Err(Error::CheckDigitFail));
}

#[test]
fn validation_never_fails_to_parse() {
    let samples: [&[u8]; 6] = [
        b"ZZZZZZZZZZZZZZZZZZ00",
        b"ZZZZZZZZZZZZZZZZZZ99",
        b"00000000000000000000",
        b"99999999999999999999",
        b"YZ83GD8L7GG84979J516",
        b"",
    ];
    for s in samples {
        assert_ne!(validate(s), Err(Error::CheckDigitParse));
    }
}

#[test]
fn validating_twice_gives_the_same() {
    for s in [GOOD, "YZ83GD8L7GG84979J563", "", "YZ83GD8L7GG8497 J563"] {
        let first = validate(s.as_bytes());
        let second = validate(s.as_bytes());
        assert_eq!(first, second);
    }
}

#[test]
fn expansion_of_symbols() {
    let (scratch, used) = expand(b"A1Z").unwrap();
    assert_eq!(&scratch[..used], b"10135");
    let (scratch, used) = expand(b"").unwrap();
    assert_eq!(&scratch[..used], b"");
    let (scratch, used) = expand(b"YZ83GD8L7GG84979J5").unwrap();
    assert_eq!(&scratch[..used], b"34358316138217161684979195".as_slice());
    let (scratch, used) = expand(b"ZZZZZZZZZZZZZZZZZZZZ").unwrap();
    assert_eq!(used, 40);
    assert_eq!(&scratch[..], [b'3', b'5'].repeat(20).as_slice());
}

#[test]
fn expansion_stops_at_the_first_foreign_byte() {
    assert_eq!(expand(b"AB-D-").err(), Some(2));
    assert_eq!(expand(b"a").err(), Some(0));
    assert_eq!(expand(b"0123456789ABCDEFGHI\x80").err(), Some(19));
}

#[test]
fn decimal_strings_are_read_in_base_ten() {
    assert_eq!(parse_decimal(b"0"), Some(0));
    assert_eq!(parse_decimal(b"16"), Some(16));
    assert_eq!(parse_decimal(b"007"), Some(7));
    assert_eq!(parse_decimal(b"3435831613821716168497919500"), Some(3435831613821716168497919500));
    assert_eq!(
        parse_decimal(b"340282366920938463463374607431768211455"),
        Some(u128::MAX)
    );
}

#[test]
fn decimal_strings_that_are_none() {
    assert_eq!(parse_decimal(b""), None);
    assert_eq!(parse_decimal(b"+1"), None);
    assert_eq!(parse_decimal(b"-1"), None);
    assert_eq!(parse_decimal(b"1 "), None);
    assert_eq!(parse_decimal(b"12a"), None);
    assert_eq!(parse_decimal(b"340282366920938463463374607431768211456"), None);
    assert_eq!(parse_decimal(b"3402823669209384634633746074317682114550"), None);
    assert_eq!(parse_decimal(b"999999999999999999999999999999999999999"), None);
}
