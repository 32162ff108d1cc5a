use fyanrirt::text::{encode_text, DataCoding};

#[test]
fn data_coding_bytes() {
    assert_eq!(DataCoding::Ia5.code(), 0x01);
    assert_eq!(DataCoding::Latin1.code(), 0x03);
    assert_eq!(DataCoding::Ucs2.code(), 0x08);
}

#[test]
fn highest_code_points() {
    assert_eq!(DataCoding::Ia5.highest(), 0x7f);
    assert_eq!(DataCoding::Latin1.highest(), 0xff);
    assert_eq!(DataCoding::Ucs2.highest(), 0xffff);
}

#[test]
fn ia5_is_one_byte_a_character() {
    assert_eq!(encode_text("Hi!", DataCoding::Ia5), Some(vec![0x48, 0x69, 0x21]));
    assert_eq!(encode_text("\u{7f}", DataCoding::Ia5), Some(vec![0x7f]));
    assert_eq!(encode_text("\u{80}", DataCoding::Ia5), None);
    assert_eq!(encode_text("caf\u{e9}", DataCoding::Ia5), None);
}

#[test]
fn latin1_is_the_code_point() {
    assert_eq!(encode_text("caf\u{e9}", DataCoding::Latin1), Some(vec![0x63, 0x61, 0x66, 0xe9]));
    assert_eq!(encode_text("\u{ff}", DataCoding::Latin1), Some(vec![0xff]));
    assert_eq!(encode_text("\u{100}", DataCoding::Latin1), None);
}

#[test]
fn ucs2_is_two_bytes_high_first() {
    assert_eq!(encode_text("Hi", DataCoding::Ucs2), Some(vec![0x00, 0x48, 0x00, 0x69]));
    assert_eq!(
        encode_text("\u{41f}\u{440}\u{438}\u{432}\u{435}\u{442}", DataCoding::Ucs2),
        Some(vec![0x04, 0x1f, 0x04, 0x40, 0x04, 0x38, 0x04, 0x32, 0x04, 0x35, 0x04, 0x42])
    );
    assert_eq!(encode_text("\u{ffff}", DataCoding::Ucs2), Some(vec![0xff, 0xff]));
    assert_eq!(encode_text("\u{20ac}", DataCoding::Ucs2), Some(vec![0x20, 0xac]));
}

#[test]
fn ucs2_has_no_character_above_the_basic_plane() {
    assert_eq!(encode_text("\u{10000}", DataCoding::Ucs2), None);
    assert_eq!(encode_text("ok \u{1f600}", DataCoding::Ucs2), None);
}

#[test]
fn empty_text_is_no_bytes() {
    assert_eq!(encode_text("", DataCoding::Ia5), Some(Vec::new()));
    assert_eq!(encode_text("", DataCoding::Latin1), Some(Vec::new()));
    assert_eq!(encode_text("", DataCoding::Ucs2), Some(Vec::new()));
}

#[test]
fn a_zero_character_is_a_zero_byte() {
    assert_eq!(encode_text("a\0", DataCoding::Ia5), Some(vec![0x61, 0]));
    assert_eq!(encode_text("\0", DataCoding::Ucs2), Some(vec![0, 0]));
}
