use sodg::Hex;

#[test]
fn parses_hex_with_separators() {
    let h = Hex::parse("d0-bf D1\t80\n-0a").unwrap();
    assert_eq!(vec![0xd0, 0xbf, 0xd1, 0x80, 0x0a], h.to_vec());
}

#[test]
fn layout_and_case_do_not_matter() {
    let a = Hex::parse("AB-cd-EF").unwrap().to_vec();
    let b = Hex::parse("ab cD\r\nef").unwrap().to_vec();
    assert_eq!(vec![0xab, 0xcd, 0xef], a);
    assert_eq!(a, b);
}

#[test]
fn rejects_bad_payloads() {
    assert!(Hex::parse("zz").is_none());
    assert!(Hex::parse("abc").is_none());
    assert!(Hex::parse("").is_none());
    assert!(Hex::parse(" - ").is_none());
}

#[test]
fn reads_single_bytes() {
    let h = Hex::parse("00-7f-80-FF").unwrap();
    assert_eq!(4, h.len());
    assert_eq!(0x00, h.byte_at(0));
    assert_eq!(0x7f, h.byte_at(1));
    assert_eq!(0x80, h.byte_at(2));
    assert_eq!(0xff, h.byte_at(3));
    assert!(!h.is_empty());
}
