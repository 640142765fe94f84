use std::path::PathBuf;

use lib::actions::{
    add_file_alias, load_action, load_success, load_target, lookup_alias, needs_save, quiet_run,
    plan, require_exists, resolve_alias, finish_replace, run_outcome, set_default_file, set_flags, FileAction, Step,
};
use lib::cli::{AddArgs, Command, CommandOptions, LoadArgs, SetFileArgs};
use lib::data::{AliasMap, FileData};
use lib::result::{AppError, Success, UpdateType};

fn data() -> FileData {
    FileData {
        root_dir: PathBuf::from("/root/dir"),
        data: AliasMap::new(),
        set_file: None,
        as_sym_link: false,
        silent: false,
    }
}

#[test]
fn flags_copy_wins_over_link() {
    let mut d = data();
    assert!(matches!(
        set_flags(&mut d, &CommandOptions(2)),
        Ok(Success::DataUpdated(UpdateType::SetDefaultOptions))
    ));
    assert!(d.as_sym_link);
    set_flags(&mut d, &CommandOptions(2 | 4)).unwrap();
    assert!(!d.as_sym_link);
    set_flags(&mut d, &CommandOptions(2)).unwrap();
    set_flags(&mut d, &CommandOptions(0)).unwrap();
    assert!(d.as_sym_link);
}

#[test]
fn flags_verbose_wins_over_silent() {
    let mut d = data();
    set_flags(&mut d, &CommandOptions(8)).unwrap();
    assert!(d.silent);
    set_flags(&mut d, &CommandOptions(8 | 16)).unwrap();
    assert!(!d.silent);
    set_flags(&mut d, &CommandOptions(8)).unwrap();
    set_flags(&mut d, &CommandOptions(8)).unwrap();
    assert!(d.silent);
}

#[test]
fn add_without_copy() {
    let mut d = data();
    let args = AddArgs { alias: "dev".into(), file: "/elsewhere/conf.dev".into(), new_file: None };
    let (success, transfer) = add_file_alias(&mut d, args, &CommandOptions(0), Some("conf.dev".into()), false);
    assert!(transfer.is_none());
    assert!(matches!(success, Success::DataUpdated(UpdateType::Added(ref a, ref f))
        if a == "dev" && f == "/elsewhere/conf.dev"));
    assert_eq!(d.data.get(&"dev".to_string()).map(String::as_str), Some("/elsewhere/conf.dev"));
}

#[test]
fn add_in_root_keeps_the_name() {
    let mut d = data();
    let args = AddArgs { alias: "dev".into(), file: "/root/dir/conf.dev".into(), new_file: None };
    let (success, _) = add_file_alias(&mut d, args, &CommandOptions(0), Some("conf.dev".into()), true);
    assert!(matches!(success, Success::DataUpdated(UpdateType::Added(ref a, ref f))
        if a == "dev" && f == "conf.dev"));
    assert_eq!(d.data.get(&"dev".to_string()).map(String::as_str), Some("conf.dev"));
}

#[test]
fn add_with_copy() {
    let mut d = data();
    let args = AddArgs { alias: "p".into(), file: "src.txt".into(), new_file: Some("dst.txt".into()) };
    let added = args.added_file().clone();
    assert_eq!(added, "dst.txt");
    let (success, transfer) = add_file_alias(&mut d, args, &CommandOptions(0), None, true);
    let t = transfer.unwrap();
    assert_eq!((t.from.as_str(), t.to.as_str(), t.action), ("src.txt", "dst.txt", FileAction::Copy));
    assert!(matches!(success, Success::DataUpdated(UpdateType::Added(ref a, ref f)) if a == "p" && f == "dst.txt"));
    assert_eq!(d.data.get(&"p".to_string()).map(String::as_str), Some("dst.txt"));
    let args = AddArgs { alias: "q".into(), file: "s".into(), new_file: Some("t".into()) };
    let (_, transfer) = add_file_alias(&mut d, args, &CommandOptions(2), Some("t".into()), true);
    assert_eq!(transfer.unwrap().action, FileAction::Link);
}

#[test]
fn existence_check() {
    assert_eq!(require_exists("a".into(), true).ok(), Some("a".to_string()));
    assert!(matches!(require_exists("a".into(), false), Err(AppError::FileNotFound(ref f)) if f == "a"));
}

#[test]
fn default_file_is_set_only_if_it_exists() {
    let mut d = data();
    assert!(matches!(
        set_default_file(&mut d, SetFileArgs { file: "x".into() }, false),
        Err(AppError::FileNotFound(ref f)) if f == "x"
    ));
    assert!(d.set_file.is_none());
    assert!(matches!(
        set_default_file(&mut d, SetFileArgs { file: "x".into() }, true),
        Ok(Success::DataUpdated(UpdateType::SetDefaultFile(ref f))) if f == "x"
    ));
    assert_eq!(d.set_file.as_deref(), Some("x"));
}

#[test]
fn target_of_a_replacement() {
    let mut d = data();
    assert!(matches!(load_target(&d, None), Err(AppError::NoFileSet)));
    d.set_file = Some("default".into());
    assert_eq!(load_target(&d, None).ok().as_deref(), Some("default"));
    assert_eq!(load_target(&d, Some("named".into())).ok().as_deref(), Some("named"));
}

#[test]
fn alias_lookup() {
    let mut d = data();
    assert!(matches!(lookup_alias(&d, "a".into()), Err(AppError::AliasNotFound(ref a)) if a == "a"));
    d.data.insert("a".into(), "file".into());
    assert_eq!(lookup_alias(&d, "a".into()).ok().as_deref(), Some("file"));
}

#[test]
fn replacement_action() {
    let mut d = data();
    assert_eq!(load_action(&d, &CommandOptions(0)), FileAction::Copy);
    assert_eq!(load_action(&d, &CommandOptions(2)), FileAction::Link);
    assert_eq!(load_action(&d, &CommandOptions(2 | 4)), FileAction::Copy);
    d.as_sym_link = true;
    assert_eq!(load_action(&d, &CommandOptions(0)), FileAction::Link);
    assert_eq!(load_action(&d, &CommandOptions(4)), FileAction::Copy);
}

#[test]
fn replacement_report() {
    assert!(matches!(load_success(FileAction::Link, "t".into(), "a".into()),
        Success::FileLinked(ref t, ref a) if t == "t" && a == "a"));
    assert!(matches!(load_success(FileAction::Copy, "t".into(), "a".into()),
        Success::FileReplaced(ref t, ref a) if t == "t" && a == "a"));
}

#[test]
fn quiet_runs() {
    let mut d = data();
    assert!(!quiet_run(&d, &CommandOptions(0), &Command::SetFlags));
    assert!(quiet_run(&d, &CommandOptions(8), &Command::SetFlags));
    assert!(!quiet_run(&d, &CommandOptions(8), &Command::Help));
    assert!(!quiet_run(&d, &CommandOptions(8), &Command::List));
    d.silent = true;
    assert!(quiet_run(&d, &CommandOptions(0), &Command::SetFlags));
    assert!(!quiet_run(&d, &CommandOptions(16), &Command::SetFlags));
}

#[test]
fn saving_follows_updates() {
    assert!(needs_save(&Success::DataUpdated(UpdateType::SetDefaultOptions)));
    assert!(!needs_save(&Success::FileLinked("a".into(), "b".into())));
    assert!(!needs_save(&Success::HelpDisplayed));
}

#[test]
fn quiet_run_hides_errors() {
    assert!(matches!(run_outcome(true, Err(AppError::NoArgs)), Ok(Success::Silent)));
    assert!(matches!(run_outcome(true, Ok(Success::HelpDisplayed)), Ok(Success::Silent)));
    assert!(matches!(run_outcome(false, Err(AppError::NoArgs)), Err(AppError::NoArgs)));
    assert!(matches!(run_outcome(false, Ok(Success::DataSaved)), Ok(Success::DataSaved)));
}

#[test]
fn steps_of_each_command() {
    assert!(matches!(plan(Command::Help)[..], [Step::ShowHelp]));
    assert!(matches!(plan(Command::SetFlags)[..], [Step::KeepOptions]));
    assert!(matches!(plan(Command::List)[..], [Step::List]));
    let steps = plan(Command::SetFile(SetFileArgs { file: "f".into() }, None));
    assert!(matches!(&steps[..], [Step::KeepOptions, Step::SetDefault(s)] if s.file == "f"));
    let load = LoadArgs { alias: "a".into(), file: Some("f".into()) };
    let steps = plan(Command::SetFile(SetFileArgs { file: "f".into() }, Some(load)));
    assert!(matches!(&steps[..], [Step::Load(l), Step::SetDefault(s)] if l.alias == "a" && s.file == "f"));
    let steps = plan(Command::Load(LoadArgs { alias: "b".into(), file: None }));
    assert!(matches!(&steps[..], [Step::Load(l)] if l.alias == "b" && l.file.is_none()));
    let steps = plan(Command::Add(AddArgs { alias: "c".into(), file: "g".into(), new_file: None }));
    assert!(matches!(&steps[..], [Step::Add(a)] if a.alias == "c"));
}

#[test]
fn replacement_checks_in_order() {
    let mut d = data();
    assert!(matches!(resolve_alias(&d, "a".into(), Some("t".into()), false),
        Err(AppError::FileNotFound(ref f)) if f == "t"));
    assert!(matches!(resolve_alias(&d, "a".into(), Some("t".into()), true),
        Err(AppError::AliasNotFound(ref a)) if a == "a"));
    assert!(matches!(resolve_alias(&d, "a".into(), None, true), Err(AppError::AliasNotFound(_))));
    d.data.insert("a".into(), "file".into());
    assert!(matches!(resolve_alias(&d, "a".into(), Some("t".into()), false),
        Err(AppError::FileNotFound(_))));
    assert_eq!(resolve_alias(&d, "a".into(), Some("t".into()), true).ok().as_deref(), Some("file"));
}

#[test]
fn replacement_finish() {
    let mut d = data();
    assert!(matches!(finish_replace(&d, &CommandOptions(0), "t".into(), "a".into(), true, false),
        Err(AppError::InvalidReplace(ref t)) if t == "t"));
    let r = finish_replace(&d, &CommandOptions(0), "t".into(), "a".into(), false, true).ok().unwrap();
    assert_eq!(r.action, FileAction::Copy);
    assert!(r.clear_target_link);
    assert!(matches!(r.success, Success::FileReplaced(ref t, ref a) if t == "t" && a == "a"));
    d.as_sym_link = true;
    let r = finish_replace(&d, &CommandOptions(0), "t".into(), "a".into(), false, true).ok().unwrap();
    assert_eq!(r.action, FileAction::Link);
    assert!(!r.clear_target_link);
    assert!(matches!(r.success, Success::FileLinked(ref t, ref a) if t == "t" && a == "a"));
}
