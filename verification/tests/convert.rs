use stacklang::convert::hex_char_to_u8;

#[test]
fn hex_char_to_u8_invalid() {
    assert_eq!(hex_char_to_u8('g'), None);
    assert_eq!(hex_char_to_u8('\0'), None);
    assert_eq!(hex_char_to_u8('G'), None);
    assert_eq!(hex_char_to_u8('!'), None);
    assert_eq!(hex_char_to_u8('$'), None);
    assert_eq!(hex_char_to_u8('x'), None);
    assert_eq!(hex_char_to_u8(' '), None);
}

#[test]
fn hex_char_to_u8_valid() {
    assert_eq!(hex_char_to_u8('0').unwrap(), 0);
    assert_eq!(hex_char_to_u8('9').unwrap(), 9);
    assert_eq!(hex_char_to_u8('a').unwrap(), 10);
    assert_eq!(hex_char_to_u8('A').unwrap(), 10);
    assert_eq!(hex_char_to_u8('f').unwrap(), 15);
    assert_eq!(hex_char_to_u8('F').unwrap(), 15);
}
