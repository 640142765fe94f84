use lib::binary_data::{BinaryContainer, BinaryReader, BinaryType, BinaryWritter};

fn read_all(bytes: Vec<u8>) -> Vec<BinaryType> {
    let mut reader = BinaryContainer::new(bytes);
    let mut out = Vec::new();
    while let Some(entry) = reader.next() {
        out.push(entry);
    }
    out
}

#[test]
fn discriminant_names_each_kind() {
    assert_eq!(BinaryType::SetFile("f".to_string()).discriminant(), 0);
    assert_eq!(BinaryType::AliasEntry(("a".to_string(), "f".to_string())).discriminant(), 1);
    assert_eq!(BinaryType::Flags { sym_link: true, silent: false }.discriminant(), 2);
}

#[test]
fn set_file_bytes() {
    let bin = BinaryType::SetFile("ab".to_string()).into_bin();
    assert_eq!(bin, vec![0, 2, 0, b'a', b'b']);
}

#[test]
fn alias_entry_bytes() {
    let bin = BinaryType::AliasEntry(("x".to_string(), "yz".to_string())).into_bin();
    assert_eq!(bin, vec![1, 1, 0, b'x', 2, 0, b'y', b'z']);
}

#[test]
fn flags_bytes() {
    assert_eq!(BinaryType::Flags { sym_link: false, silent: false }.into_bin(), vec![2, 0]);
    assert_eq!(BinaryType::Flags { sym_link: true, silent: false }.into_bin(), vec![2, 1]);
    assert_eq!(BinaryType::Flags { sym_link: false, silent: true }.into_bin(), vec![2, 2]);
    assert_eq!(BinaryType::Flags { sym_link: true, silent: true }.into_bin(), vec![2, 3]);
}

#[test]
fn length_counts_utf8_bytes() {
    let bin = BinaryType::SetFile("é".to_string()).into_bin();
    assert_eq!(bin, vec![0, 2, 0, 0xc3, 0xa9]);
}

#[test]
fn length_keeps_low_sixteen_bits() {
    let long = "a".repeat(0x10001);
    let bin = BinaryType::SetFile(long).into_bin();
    assert_eq!(bin.len(), 3 + 0x10001);
    assert_eq!(&bin[..3], &[0, 1, 0]);
}

#[test]
fn records_read_back() {
    let mut bytes = Vec::new();
    bytes.extend(BinaryType::SetFile("default.txt".to_string()).into_bin());
    bytes.extend(BinaryType::Flags { sym_link: true, silent: false }.into_bin());
    bytes.extend(BinaryType::AliasEntry(("dev".to_string(), "conf.dev".to_string())).into_bin());
    let entries = read_all(bytes);
    assert_eq!(entries.len(), 3);
    assert!(matches!(&entries[0], BinaryType::SetFile(f) if f == "default.txt"));
    assert!(matches!(entries[1], BinaryType::Flags { sym_link: true, silent: false }));
    assert!(matches!(&entries[2], BinaryType::AliasEntry((a, p)) if a == "dev" && p == "conf.dev"));
}

#[test]
fn kind_uses_low_four_bits() {
    let entries = read_all(vec![0x30, 1, 0, b'q']);
    assert_eq!(entries.len(), 1);
    assert!(matches!(&entries[0], BinaryType::SetFile(f) if f == "q"));
}

#[test]
fn unknown_kind_ends_reading() {
    let mut bytes = vec![3, 1, 0, b'q'];
    bytes.extend(BinaryType::SetFile("x".to_string()).into_bin());
    assert!(read_all(bytes).is_empty());
}

#[test]
fn empty_input_has_no_record() {
    assert!(BinaryContainer::new(Vec::new()).next().is_none());
}

#[test]
fn empty_text_ends_reading() {
    let mut bytes = BinaryType::SetFile(String::new()).into_bin();
    assert_eq!(bytes, vec![0, 0, 0]);
    bytes.extend(BinaryType::SetFile("x".to_string()).into_bin());
    assert!(read_all(bytes).is_empty());
}

#[test]
fn half_length_ends_reading() {
    assert!(read_all(vec![0, 5]).is_empty());
    assert!(read_all(vec![0, 5, 0]).is_empty());
}

#[test]
fn short_text_is_padded_with_zero_bytes() {
    let entries = read_all(vec![0, 3, 0, b'a']);
    assert_eq!(entries.len(), 1);
    assert!(matches!(&entries[0], BinaryType::SetFile(f) if f == "a\0\0"));
}

#[test]
fn invalid_utf8_ends_reading() {
    assert!(read_all(vec![0, 1, 0, 0xff]).is_empty());
    assert!(read_all(vec![1, 1, 0, b'a', 1, 0, 0xc3]).is_empty());
}

#[test]
fn flags_read_from_their_bits() {
    let entries = read_all(vec![2, 3, 2, 4, 2, 2]);
    assert_eq!(entries.len(), 3);
    assert!(matches!(entries[0], BinaryType::Flags { sym_link: true, silent: true }));
    assert!(matches!(entries[1], BinaryType::Flags { sym_link: false, silent: false }));
    assert!(matches!(entries[2], BinaryType::Flags { sym_link: false, silent: true }));
}

#[test]
fn flags_without_their_byte_end_reading() {
    assert!(read_all(vec![2]).is_empty());
}

#[test]
fn long_text_wraps_on_reading() {
    // 0x10001 bytes stored under the length 1: only the first byte is read.
    let long = "b".repeat(0x10001);
    let bytes = BinaryType::SetFile(long).into_bin();
    let mut reader = BinaryContainer::new(bytes);
    assert!(matches!(reader.next(), Some(BinaryType::SetFile(f)) if f == "b"));
}

#[test]
fn writer_appends_record_bytes() {
    let mut out: Vec<u8> = vec![9];
    assert!(out.write_bin(BinaryType::SetFile("ab".to_string())).is_ok());
    assert!(out.write_bin(BinaryType::Flags { sym_link: false, silent: true }).is_ok());
    assert_eq!(out, vec![9, 0, 2, 0, b'a', b'b', 2, 2]);
}

#[test]
fn reader_from_bytes() {
    let bytes = BinaryType::AliasEntry(("k".to_string(), "v".to_string())).into_bin();
    let mut reader = bytes.binary_data();
    assert!(matches!(reader.next(), Some(BinaryType::AliasEntry((a, p))) if a == "k" && p == "v"));
    assert!(reader.next().is_none());
}

#[test]
fn unicode_text_roundtrip() {
    let text = "ファイル-ü.txt".to_string();
    let bytes = BinaryType::AliasEntry((text.clone(), "ö".to_string())).into_bin();
    let entries = read_all(bytes);
    assert!(matches!(&entries[0], BinaryType::AliasEntry((a, p)) if *a == text && p == "ö"));
}
