use xoq::annex_b::{join_nals, split_nals};
use xoq::endian::{
    bits32, bits64, get_be16, get_be32, get_le16, get_le32, get_le64, low16, low32, put_be16,
    put_be32, put_be64, put_le16, put_le32, put_le64,
};
use xoq::text::{
    contains_char, decimal_of, has_text, joined2, joined3, parse_number, put_hex, put_padded,
    put_signed, replace_char, same, trimmed, word,
};

#[test]
fn integers_are_written_and_read() {
    let mut buf = Vec::new();
    put_be16(&mut buf, 0x0102);
    put_be32(&mut buf, 0x0304_0506);
    put_le16(&mut buf, 0x0102);
    put_le32(&mut buf, 0x0304_0506);
    assert_eq!(buf, vec![1, 2, 3, 4, 5, 6, 2, 1, 6, 5, 4, 3]);
    assert_eq!((get_be16(&buf, 0), get_be32(&buf, 2)), (0x0102, 0x0304_0506));
    assert_eq!((get_le16(&buf, 6), get_le32(&buf, 8)), (0x0102, 0x0304_0506));
    let mut buf = Vec::new();
    put_be64(&mut buf, 0x0102_0304_0506_0708);
    put_le64(&mut buf, 0x0102_0304_0506_0708);
    assert_eq!(buf, vec![1, 2, 3, 4, 5, 6, 7, 8, 8, 7, 6, 5, 4, 3, 2, 1]);
    assert_eq!(get_le64(&buf, 8), 0x0102_0304_0506_0708);
    assert_eq!((low16(0x1_2345_6789), low32(0x1_2345_6789)), (0x6789, 0x2345_6789));
    assert_eq!((bits32(-1), bits64(-2)), (u32::MAX, u64::MAX - 1));
}

#[test]
fn numbers_read_back_from_their_digits() {
    for n in [0, 7, 10, 4294967295, u64::MAX] {
        assert_eq!(decimal_of(n), n.to_string());
        assert_eq!(parse_number(&decimal_of(n), u64::MAX), Some(n));
    }
    assert_eq!(parse_number("+5", 10), Some(5));
    assert_eq!(parse_number("11", 10), None);
    assert_eq!(parse_number("18446744073709551616", u64::MAX), None);
    for bad in ["", "+", "-1", " 1", "1a"] {
        assert_eq!(parse_number(bad, 10), None);
    }
    let mut s = String::new();
    put_signed(&mut s, i64::MIN);
    put_padded(&mut s, 5, 2);
    put_hex(&mut s, 0xAB, 4);
    assert_eq!(s, "-92233720368547758080500ab");
}

#[test]
fn texts_are_taken_apart_and_joined() {
    assert_eq!(joined2("a", "b"), "ab");
    assert_eq!(joined3("a", "/", "é"), "a/é");
    assert!(contains_char("a/b", '/') && !contains_char("ab", '/'));
    assert!(same("x", "x") && !same("x", "xy"));
    assert_eq!(replace_char("a:b:", ':', '-'), "a-b-");
    let chars: Vec<char> = "  a b\u{a0}".chars().collect();
    assert_eq!(trimmed(&chars), &['a', ' ', 'b'][..]);
    assert_eq!(word(&chars).as_deref(), Some("a"));
    assert_eq!(word(&[' ']), None);
    assert!(has_text(&["a".to_string(), "b".to_string()], "b"));
    assert!(!has_text(&[], "b"));
}

#[test]
fn streams_split_into_their_nals() {
    let nals = vec![vec![0x67, 1], vec![0x65, 0, 0, 2], vec![0x41]];
    let stream = join_nals(&nals);
    assert_eq!(&stream[..6], &[0, 0, 0, 1, 0x67, 1]);
    assert_eq!(split_nals(&stream), nals);
    assert!(split_nals(&[1, 2, 3]).is_empty());
}
