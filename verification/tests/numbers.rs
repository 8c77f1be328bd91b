use de8086::text::{
    magnitude, push_binary_octet, push_decimal, push_hex_literal, push_sign_and_decimal,
    push_signed_decimal,
};

fn text(fill: impl FnOnce(&mut Vec<u8>)) -> String {
    let mut out = b"> ".to_vec();
    fill(&mut out);
    let text = String::from_utf8(out).unwrap();
    assert!(text.starts_with("> "));
    text[2..].to_string()
}

#[test]
fn decimal_has_no_leading_zeros() {
    for value in [0usize, 1, 9, 10, 11, 99, 100, 101, 4500, 65535, 65536, usize::MAX] {
        assert_eq!(text(|out| push_decimal(out, value)), format!("{}", value));
    }
}

#[test]
fn signed_decimal_has_a_minus_sign_only() {
    for value in [0i16, 1, -1, 9, -9, 10, -10, 127, -128, 13330, -12885, i16::MAX, i16::MIN] {
        assert_eq!(text(|out| push_signed_decimal(out, value)), format!("{}", value));
    }
}

#[test]
fn sign_and_decimal_always_has_a_sign() {
    for value in [0i16, 1, -1, 4, -4, 127, -128, 901, i16::MAX, i16::MIN] {
        assert_eq!(text(|out| push_sign_and_decimal(out, value)), format!("{:+}", value));
    }
}

#[test]
fn hex_literal_is_padded_to_its_width() {
    for value in [0u16, 1, 0xC, 0x10, 0xFF, 0x100, 0x123, 0xFFF, 0x1000, 0x3412, 0xABCD, 0xFFFF] {
        assert_eq!(text(|out| push_hex_literal(out, value, 4)), format!("{:#06x}", value));
        assert_eq!(text(|out| push_hex_literal(out, value, 2)), format!("{:#04x}", value));
    }
    assert_eq!(text(|out| push_hex_literal(out, 0x3412, 4)), "0x3412");
    assert_eq!(text(|out| push_hex_literal(out, 0x0C, 2)), "0x0c");
    assert_eq!(text(|out| push_hex_literal(out, 0x0C, 0)), "0xc");
}

#[test]
fn binary_octet_has_eight_digits() {
    for value in [0u8, 1, 2, 0x0F, 0x26, 0x80, 0xA6, 0xF0, 0xFF] {
        assert_eq!(text(|out| push_binary_octet(out, value)), format!("{:08b}", value));
    }
    assert_eq!(text(|out| push_binary_octet(out, 0xA6)), "10100110");
}

#[test]
fn magnitude_is_the_absolute_value() {
    assert_eq!(magnitude(0), 0);
    assert_eq!(magnitude(5), 5);
    assert_eq!(magnitude(-5), 5);
    assert_eq!(magnitude(i16::MAX), 32767);
    assert_eq!(magnitude(i16::MIN), 32768);
}
