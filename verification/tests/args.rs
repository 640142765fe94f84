use lib::args::{AddArgs, LoadArgs, SetArgs, SetKind};
use lib::result::AppError;

fn strings(args: &[&str]) -> Vec<String> {
    args.iter().map(|s| s.to_string()).collect()
}

#[test]
fn add_args_by_position() {
    let v = strings(&["a", "f", "n", "extra"]);
    let a = AddArgs::try_from(&v[..]).ok().unwrap();
    assert_eq!((a.alias.as_str(), a.file.as_str()), ("a", "f"));
    assert_eq!(a.new_file.map(String::as_str), Some("n"));
    let v = strings(&["a", "f"]);
    let a = AddArgs::try_from(&v[..]).ok().unwrap();
    assert!(a.new_file.is_none());
    let v = strings(&["a"]);
    assert!(matches!(AddArgs::try_from(&v[..]), Err(AppError::NotEnoughArgs("add", 1))));
}

#[test]
fn load_args_by_position() {
    let v = strings(&["a"]);
    let l = LoadArgs::from(&v[..]);
    assert_eq!(l.alias, "a");
    assert!(l.file.is_none());
    let v = strings(&["a", "t"]);
    let l = LoadArgs::from(&v[..]);
    assert_eq!(l.file.map(String::as_str), Some("t"));
}

#[test]
fn set_args_by_position() {
    let v: Vec<String> = Vec::new();
    assert!(matches!(SetArgs::try_from(&v[..]), Err(AppError::NotEnoughArgs("set", 0))));
    let v = strings(&["f"]);
    let s = SetArgs::try_from(&v[..]).ok().unwrap();
    assert_eq!(s.file, "f");
    assert!(matches!(s.kind, SetKind::SetOnly));
    let v = strings(&["a", "f"]);
    let s = SetArgs::try_from(&v[..]).ok().unwrap();
    assert_eq!(s.file, "f");
    assert!(matches!(s.kind, SetKind::Load { alias } if alias == "a"));
}
