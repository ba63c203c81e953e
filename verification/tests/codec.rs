use interning::InternedStringHash;

#[test]
fn hash_test_small_strings() {
    let s = "hello";
    let interned = InternedStringHash::from_str(s);
    assert_eq!(interned.get_inlined_str(), s);
    let interned = InternedStringHash::from_str(s);
    assert_eq!(interned.get_inlined_str(), s);
}

#[test]
fn inline_key_has_marker_length_payload_and_zero_padding() {
    let key = InternedStringHash::from_str("hello");
    assert!(key.is_inlined());
    assert_eq!(key.get_inlined_len(), 5);
    assert_eq!(
        key,
        InternedStringHash::from_bytes([0x85, b'h', b'e', b'l', b'l', b'o', 0, 0])
    );
    assert_eq!(key.hash(), 0x8568_656c_6c6f_0000);
}

#[test]
fn empty_text_is_inlined_with_length_zero() {
    let key = InternedStringHash::from_str("");
    assert!(key.is_inlined());
    assert_eq!(key.get_inlined_len(), 0);
    assert_eq!(key.get_inlined_str(), "");
    assert_eq!(key, InternedStringHash::from_bytes([0x80, 0, 0, 0, 0, 0, 0, 0]));
}

#[test]
fn seven_bytes_are_inlined_and_eight_are_hashed() {
    let seven = InternedStringHash::from_str("abcdefg");
    assert!(seven.is_inlined());
    assert_eq!(seven.get_inlined_len(), 7);
    assert_eq!(seven.get_inlined_str(), "abcdefg");
    assert_eq!(
        seven,
        InternedStringHash::from_bytes([0x87, b'a', b'b', b'c', b'd', b'e', b'f', b'g'])
    );
    let eight = InternedStringHash::from_str("abcdefgh");
    assert!(!eight.is_inlined());
    assert_eq!(eight.try_get_inlined_str(), None);
}

#[test]
fn length_is_counted_in_bytes() {
    let short = InternedStringHash::from_str("h\u{e9}llo");
    assert!(short.is_inlined());
    assert_eq!(short.get_inlined_len(), 6);
    assert_eq!(short.get_inlined_str(), "h\u{e9}llo");
    let long = InternedStringHash::from_str("\u{65e5}\u{672c}\u{8a9e}");
    assert!(!long.is_inlined());
}

#[test]
fn hashed_key_is_low_56_bits_of_the_digest() {
    let s = "a-much-longer-identifier-string";
    let digest: u128 = stable_hash::fast_stable_hash(&s);
    let key = InternedStringHash::from_str(s);
    assert!(!key.is_inlined());
    assert_eq!(key.hash(), (digest as u64) & 0x00ff_ffff_ffff_ffff);
    assert_eq!(key, InternedStringHash::from_digest(digest));
    assert_ne!(key.hash(), 0);
}

#[test]
fn encoding_is_deterministic_and_separates_texts() {
    let a = InternedStringHash::from_str("a-much-longer-identifier-string");
    let b = InternedStringHash::from_str("a-much-longer-identifier-string");
    let c = InternedStringHash::from_str("another-long-identifier-string");
    assert_eq!(a, b);
    assert_ne!(a, c);
    assert_ne!(
        InternedStringHash::from_str("ab"),
        InternedStringHash::from_str("ba")
    );
}

#[test]
fn from_digest_clears_the_first_byte() {
    let key = InternedStringHash::from_digest(0x1122_3344_5566_7788_99aa_bbcc_ddee_ff01);
    assert_eq!(
        key,
        InternedStringHash::from_bytes([0, 0xaa, 0xbb, 0xcc, 0xdd, 0xee, 0xff, 0x01])
    );
    assert_eq!(key.hash(), 0x00aa_bbcc_ddee_ff01);
}

#[test]
fn from_inline_bytes_writes_the_payload_after_the_marker() {
    let key = InternedStringHash::from_inline_bytes(&[1, 2, 3]);
    assert_eq!(key, InternedStringHash::from_bytes([0x83, 1, 2, 3, 0, 0, 0, 0]));
}

#[test]
fn new_spells_the_number_most_significant_byte_first() {
    let key = InternedStringHash::new(0x0102_0304_0506_0708);
    assert_eq!(key, InternedStringHash::from_bytes([1, 2, 3, 4, 5, 6, 7, 8]));
    assert_eq!(key.hash(), 0x0102_0304_0506_0708);
    assert_eq!(InternedStringHash::new(u64::MAX).hash(), u64::MAX);
    assert_eq!(InternedStringHash::new(0), InternedStringHash::empty());
}

#[test]
fn empty_key_is_all_zero_and_not_inlined() {
    let key = InternedStringHash::empty();
    assert_eq!(key, InternedStringHash::from_bytes([0; 8]));
    assert!(!key.is_inlined());
    assert_eq!(key.hash(), 0);
}

#[test]
fn keys_are_ordered_by_their_bytes() {
    let low = InternedStringHash::from_bytes([0, 0, 0, 0, 0, 0, 0, 9]);
    let high = InternedStringHash::from_bytes([0, 0, 0, 0, 0, 0, 1, 0]);
    assert!(low < high);
    assert!(low.hash() < high.hash());
}

#[test]
fn set_inline_len_overwrites_the_marker_byte_only() {
    let mut key = InternedStringHash::from_bytes([0, b'a', b'b', b'c', 0, 0, 0, 0]);
    key.set_inline_len(3);
    assert_eq!(key, InternedStringHash::from_bytes([0x83, b'a', b'b', b'c', 0, 0, 0, 0]));
    assert_eq!(key.get_inlined_len(), 3);
    assert_eq!(key.get_inlined_str(), "abc");
    key.set_inline_len(0);
    assert_eq!(key.get_inlined_len(), 0);
    assert_eq!(key.get_inlined_str(), "");
}

#[test]
fn try_get_inlined_str_refuses_malformed_keys() {
    let hashed = InternedStringHash::from_bytes([0, 1, 2, 3, 4, 5, 6, 7]);
    assert_eq!(hashed.try_get_inlined_str(), None);
    let too_long = InternedStringHash::from_bytes([0x88, b'a', b'a', b'a', b'a', b'a', b'a', b'a']);
    assert_eq!(too_long.try_get_inlined_str(), None);
    let no_marker_bit = InternedStringHash::from_bytes([0x05, b'a', b'a', b'a', b'a', b'a', 0, 0]);
    assert_eq!(no_marker_bit.try_get_inlined_str(), None);
    let not_text = InternedStringHash::from_bytes([0x82, 0xff, 0xfe, 0, 0, 0, 0, 0]);
    assert_eq!(not_text.try_get_inlined_str(), None);
    let cut_short = InternedStringHash::from_bytes([0x81, 0xc3, 0xa9, 0, 0, 0, 0, 0]);
    assert_eq!(cut_short.try_get_inlined_str(), None);
    let fine = InternedStringHash::from_bytes([0x82, 0xc3, 0xa9, 0, 0, 0, 0, 0]);
    assert_eq!(fine.try_get_inlined_str(), Some("\u{e9}"));
}

#[test]
fn to_text_shows_inlined_text_or_hexadecimal_value() {
    assert_eq!(InternedStringHash::from_str("hello").to_text(), "hello");
    assert_eq!(InternedStringHash::from_str("").to_text(), "");
    assert_eq!(InternedStringHash::empty().to_text(), "0");
    assert_eq!(InternedStringHash::new(0x10).to_text(), "10");
    assert_eq!(InternedStringHash::new(0xf).to_text(), "f");
    assert_eq!(
        InternedStringHash::new(0x00ab_cdef_0123_4567).to_text(),
        "abcdef01234567"
    );
    let s = "a-much-longer-identifier-string";
    let key = InternedStringHash::from_str(s);
    assert_eq!(key.to_text(), format!("{:x}", key.hash()));
}
