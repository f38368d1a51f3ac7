use print_transport::order::{bytes_le, name_le};

#[test]
fn empty_string_comes_first() {
    assert!(bytes_le(b"", b""));
    assert!(bytes_le(b"", b"a"));
    assert!(!bytes_le(b"a", b""));
}

#[test]
fn first_differing_byte_decides() {
    assert!(bytes_le(b"COM1", b"COM3"));
    assert!(!bytes_le(b"COM3", b"COM1"));
    assert!(bytes_le(b"abcx", b"abd"));
    assert!(!bytes_le(b"abd", b"abcx"));
    assert!(bytes_le(&[0x00], &[0xff]));
    assert!(!bytes_le(&[0xff], &[0x00, 0x00]));
}

#[test]
fn prefix_comes_before_its_extensions() {
    assert!(bytes_le(b"tty", b"ttyS0"));
    assert!(!bytes_le(b"ttyS0", b"tty"));
}

#[test]
fn equal_strings_are_in_order_both_ways() {
    assert!(bytes_le(b"ttyUSB0", b"ttyUSB0"));
    assert!(name_le("COM1", "COM1"));
}

#[test]
fn name_order_is_case_sensitive() {
    assert!(name_le("COM1", "com1"));
    assert!(!name_le("com1", "COM1"));
    assert!(name_le("Z", "a"));
}

#[test]
fn names_are_ordered_by_their_utf8_bytes() {
    assert!(name_le("z", "é"));
    assert!(!name_le("é", "z"));
    assert!(name_le("é", "é1"));
    assert!(name_le("COM10", "COM2"));
}

#[test]
fn name_order_agrees_with_string_order() {
    let names = ["", "a", "A", "ab", "b", "é", "COM1", "COM10", "COM2", "/dev/ttyS0", "~"];
    for a in names {
        for b in names {
            assert_eq!(name_le(a, b), a <= b);
        }
    }
}
