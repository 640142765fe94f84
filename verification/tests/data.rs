use std::path::PathBuf;

use lib::binary_data::BinaryType;
use lib::cli::CommandOptions;
use lib::data::{load_file_data, save_file_data, AliasMap, FileData};

fn empty_data() -> FileData {
    FileData {
        root_dir: PathBuf::from("/tmp/root"),
        data: AliasMap::new(),
        set_file: None,
        as_sym_link: false,
        silent: false,
    }
}

fn aliases(map: &AliasMap) -> Vec<(String, String)> {
    map.as_vec().clone()
}

#[test]
fn missing_file_gives_empty_data() {
    let data = load_file_data(PathBuf::from("/x"), None).unwrap();
    assert_eq!(data.root_dir, PathBuf::from("/x"));
    assert_eq!(data.data.len(), 0);
    assert!(data.set_file.is_none());
    assert!(!data.as_sym_link);
    assert!(!data.silent);
}

#[test]
fn empty_file_gives_empty_data() {
    let data = load_file_data(PathBuf::from("/x"), Some(Vec::new())).unwrap();
    assert_eq!(data.data.len(), 0);
    assert!(data.set_file.is_none());
}

#[test]
fn save_writes_default_flags_then_aliases() {
    let mut data = empty_data();
    data.set_file = Some("main.conf".to_string());
    data.silent = true;
    data.data.insert("a".to_string(), "one".to_string());
    data.data.insert("b".to_string(), "two".to_string());
    let bytes = save_file_data(&data);
    let mut expected = BinaryType::SetFile("main.conf".to_string()).into_bin();
    expected.extend(BinaryType::Flags { sym_link: false, silent: true }.into_bin());
    expected.extend(BinaryType::AliasEntry(("a".to_string(), "one".to_string())).into_bin());
    expected.extend(BinaryType::AliasEntry(("b".to_string(), "two".to_string())).into_bin());
    assert_eq!(bytes, expected);
}

#[test]
fn save_leaves_out_flags_that_are_off() {
    let mut data = empty_data();
    data.data.insert("a".to_string(), "one".to_string());
    let bytes = save_file_data(&data);
    assert_eq!(bytes, vec![1, 1, 0, b'a', 3, 0, b'o', b'n', b'e']);
}

#[test]
fn save_of_empty_data_is_empty() {
    assert!(save_file_data(&empty_data()).is_empty());
}

#[test]
fn save_then_load_gives_same_data() {
    let mut data = empty_data();
    data.set_file = Some("target.txt".to_string());
    data.as_sym_link = true;
    data.data.insert("dev".to_string(), "config.dev".to_string());
    data.data.insert("prod".to_string(), "/etc/app/config.prod".to_string());
    data.data.insert("ünï".to_string(), "файл".to_string());
    let bytes = save_file_data(&data);
    let loaded = load_file_data(data.root_dir.clone(), Some(bytes)).unwrap();
    assert_eq!(loaded.set_file, data.set_file);
    assert_eq!(loaded.as_sym_link, true);
    assert_eq!(loaded.silent, false);
    assert_eq!(aliases(&loaded.data), aliases(&data.data));
}

#[test]
fn empty_alias_is_not_storable() {
    let mut data = empty_data();
    data.data.insert(String::new(), "file".to_string());
    data.data.insert("b".to_string(), "two".to_string());
    let bytes = save_file_data(&data);
    let loaded = load_file_data(data.root_dir.clone(), Some(bytes)).unwrap();
    assert_eq!(loaded.data.len(), 0);
}

#[test]
fn later_records_win() {
    let mut bytes = BinaryType::SetFile("first".to_string()).into_bin();
    bytes.extend(BinaryType::AliasEntry(("a".to_string(), "one".to_string())).into_bin());
    bytes.extend(BinaryType::Flags { sym_link: true, silent: true }.into_bin());
    bytes.extend(BinaryType::SetFile("second".to_string()).into_bin());
    bytes.extend(BinaryType::AliasEntry(("a".to_string(), "two".to_string())).into_bin());
    bytes.extend(BinaryType::Flags { sym_link: false, silent: true }.into_bin());
    let loaded = load_file_data(PathBuf::from("/r"), Some(bytes)).unwrap();
    assert_eq!(loaded.set_file.as_deref(), Some("second"));
    assert_eq!(aliases(&loaded.data), vec![("a".to_string(), "two".to_string())]);
    assert!(!loaded.as_sym_link);
    assert!(loaded.silent);
}

#[test]
fn reading_stops_at_broken_record() {
    let mut bytes = BinaryType::AliasEntry(("a".to_string(), "one".to_string())).into_bin();
    bytes.push(7);
    bytes.extend(BinaryType::AliasEntry(("b".to_string(), "two".to_string())).into_bin());
    let loaded = load_file_data(PathBuf::from("/r"), Some(bytes)).unwrap();
    assert_eq!(aliases(&loaded.data), vec![("a".to_string(), "one".to_string())]);
}

#[test]
fn alias_map_insert_and_get() {
    let mut map = AliasMap::new();
    assert!(map.get(&"a".to_string()).is_none());
    map.insert("a".to_string(), "one".to_string());
    map.insert("b".to_string(), "two".to_string());
    assert_eq!(map.get(&"a".to_string()).map(String::as_str), Some("one"));
    map.insert("a".to_string(), "three".to_string());
    assert_eq!(map.get(&"a".to_string()).map(String::as_str), Some("three"));
    assert_eq!(map.get(&"b".to_string()).map(String::as_str), Some("two"));
    assert_eq!(map.len(), 2);
    let (k, v) = map.entry(0);
    assert_eq!((k.as_str(), v.as_str()), ("a", "three"));
    let (k, v) = map.entry(1);
    assert_eq!((k.as_str(), v.as_str()), ("b", "two"));
}

#[test]
fn silence_of_a_run() {
    let mut data = empty_data();
    assert!(!data.is_silent(&CommandOptions(0)));
    assert!(data.is_silent(&CommandOptions(8)));
    assert!(data.is_silent(&CommandOptions(8 | 16)));
    data.silent = true;
    assert!(data.is_silent(&CommandOptions(0)));
    assert!(!data.is_silent(&CommandOptions(16)));
    assert!(data.is_silent(&CommandOptions(8 | 16)));
}
