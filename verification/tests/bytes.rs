use dioscuri::bytes::{decode_text, find_first, occurs_here, split_first, to_owned_bytes};

#[test]
fn bytes_are_searched_like_text() {
    let s = "a\r\nb\r\nc".as_bytes();
    assert_eq!(find_first(s, "\r\n".as_bytes()), Some(1));
    assert_eq!(find_first(s, "x".as_bytes()), None);
    assert_eq!(find_first(s, "".as_bytes()), Some(0));
    assert_eq!(find_first("".as_bytes(), "x".as_bytes()), None);
    assert!(occurs_here(s, "b\r".as_bytes(), 3));
    assert!(!occurs_here(s, "b\r".as_bytes(), 2));
    assert!(!occurs_here(s, "b\r".as_bytes(), 100));
    assert_eq!(
        split_first(s, "\r\n".as_bytes()),
        Some(("a".as_bytes(), "b\r\nc".as_bytes()))
    );
    assert_eq!(split_first(s, "\n\r".as_bytes()), None);
    assert_eq!(to_owned_bytes(s), s.to_vec());
    assert_eq!(decode_text("héllo".as_bytes()), "héllo");
    assert_eq!(decode_text(&[0x68, 0xc3, 0x28, 0x69]), "h\u{fffd}(i");
    assert_eq!(decode_text(&[]), "");
}
