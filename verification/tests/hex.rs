use uguid::hex::{
    parse_byte_from_ascii_char, parse_byte_from_ascii_char_pair, parse_byte_from_ascii_str_at,
};
use uguid::GuidFromStrError;

#[test]
fn test_parse() {
    assert_eq!(parse_byte_from_ascii_char_pair(b'1', b'a'), Ok(0x1a));
    assert_eq!(parse_byte_from_ascii_char_pair(b'8', b'f'), Ok(0x8f));
}

#[test]
fn char_decimal_digits() {
    let digits = b"0123456789";
    for (i, c) in digits.iter().enumerate() {
        assert_eq!(parse_byte_from_ascii_char(*c), Ok(i as u8));
    }
}

#[test]
fn char_letters_of_either_case() {
    let lower = b"abcdef";
    let upper = b"ABCDEF";
    for i in 0..6 {
        assert_eq!(parse_byte_from_ascii_char(lower[i]), Ok(10 + i as u8));
        assert_eq!(parse_byte_from_ascii_char(upper[i]), Ok(10 + i as u8));
    }
}

#[test]
fn char_accepts_exactly_the_hex_digits() {
    for c in 0..=255u8 {
        let expected = (c as char).to_digit(16).filter(|_| c.is_ascii());
        match parse_byte_from_ascii_char(c) {
            Ok(v) => assert_eq!(Some(v as u32), expected),
            Err(e) => {
                assert_eq!(e, GuidFromStrError);
                assert_eq!(expected, None);
            }
        }
    }
}

#[test]
fn char_rejects_neighbours_of_the_digit_ranges() {
    for c in [b'/', b':', b'@', b'G', b'`', b'g', b' ', b'-', 0x00, 0x7f, 0x80, 0xc3, 0xff] {
        assert_eq!(parse_byte_from_ascii_char(c), Err(GuidFromStrError));
    }
}

#[test]
fn pair_is_sixteen_times_high_plus_low() {
    let digits = b"0123456789abcdefABCDEF";
    for hi in digits.iter() {
        for lo in digits.iter() {
            let h = parse_byte_from_ascii_char(*hi).unwrap();
            let l = parse_byte_from_ascii_char(*lo).unwrap();
            assert_eq!(parse_byte_from_ascii_char_pair(*hi, *lo), Ok(16 * h + l));
        }
    }
}

#[test]
fn pair_extremes() {
    assert_eq!(parse_byte_from_ascii_char_pair(b'0', b'0'), Ok(0x00));
    assert_eq!(parse_byte_from_ascii_char_pair(b'f', b'f'), Ok(0xff));
    assert_eq!(parse_byte_from_ascii_char_pair(b'F', b'F'), Ok(0xff));
    assert_eq!(parse_byte_from_ascii_char_pair(b'f', b'0'), Ok(0xf0));
    assert_eq!(parse_byte_from_ascii_char_pair(b'0', b'f'), Ok(0x0f));
}

#[test]
fn pair_rejects_a_bad_digit_on_either_side() {
    assert_eq!(parse_byte_from_ascii_char_pair(b'g', b'0'), Err(GuidFromStrError));
    assert_eq!(parse_byte_from_ascii_char_pair(b'0', b'g'), Err(GuidFromStrError));
    assert_eq!(parse_byte_from_ascii_char_pair(b'-', b'-'), Err(GuidFromStrError));
    assert_eq!(parse_byte_from_ascii_char_pair(0xc3, b'1'), Err(GuidFromStrError));
    assert_eq!(parse_byte_from_ascii_char_pair(b' ', b'1'), Err(GuidFromStrError));
}

#[test]
fn pair_at_position() {
    let s = b"01ab-Zf9";
    assert_eq!(parse_byte_from_ascii_str_at(s, 0), Ok(0x01));
    assert_eq!(parse_byte_from_ascii_str_at(s, 1), Ok(0x1a));
    assert_eq!(parse_byte_from_ascii_str_at(s, 2), Ok(0xab));
    assert_eq!(parse_byte_from_ascii_str_at(s, 3), Err(GuidFromStrError));
    assert_eq!(parse_byte_from_ascii_str_at(s, 4), Err(GuidFromStrError));
    assert_eq!(parse_byte_from_ascii_str_at(s, 5), Err(GuidFromStrError));
    assert_eq!(parse_byte_from_ascii_str_at(s, 6), Ok(0xf9));
}
