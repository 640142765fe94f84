use std::io;

use lib::result::{decimal_string, AppError, Success, UpdateType, HELP_TEXT};

#[test]
fn decimal_numbers() {
    assert_eq!(decimal_string(0), "0");
    assert_eq!(decimal_string(7), "7");
    assert_eq!(decimal_string(10), "10");
    assert_eq!(decimal_string(1234567890), "1234567890");
    assert_eq!(decimal_string(usize::MAX), usize::MAX.to_string());
}

#[test]
fn error_messages() {
    assert_eq!(AppError::AliasNotFound("dev".into()).message(), "Alias 'dev' not found");
    assert_eq!(AppError::NotEnoughArgs("add", 1).message(), "Not enough args for add (1)");
    assert_eq!(AppError::TooManyArgs("replace", 12).message(), "Too many args for replace (12)");
    assert_eq!(
        AppError::UnknownOption("x".into()).message(),
        "Unkown option x, use --help for more information"
    );
    assert_eq!(
        AppError::NoFileSet.message(),
        "Default file not set, use --set to define a default file"
    );
    assert_eq!(AppError::NoArgs.message(), "Missing operands, use --help for more information");
    assert_eq!(AppError::FileNotFound("f".into()).message(), "File f not found");
    assert_eq!(AppError::InvalidReplace("f".into()).message(), "Trying to replace f with itself");
}

#[test]
fn io_errors() {
    let e = AppError::from_io_error(io::Error::new(io::ErrorKind::NotFound, "gone"), true);
    assert!(matches!(e, AppError::FileNotFound(ref f) if f.is_empty()));
    let e = AppError::from_io_error(io::Error::new(io::ErrorKind::PermissionDenied, "no"), false);
    assert!(matches!(e, AppError::IoError(_)));
    assert!(e.message().starts_with("IoError "));
    assert!(e.message().contains("PermissionDenied"));
}

#[test]
fn success_messages() {
    assert_eq!(Success::FileReplaced("t".into(), "a".into()).message(), "Replaced t with a\n");
    assert_eq!(Success::FileLinked("t".into(), "a".into()).message(), "Linked t to a\n");
    assert_eq!(
        Success::DataUpdated(UpdateType::Added("dev".into(), "conf".into())).message(),
        "conf aliased as dev\n"
    );
    assert_eq!(
        Success::DataUpdated(UpdateType::SetDefaultFile("conf".into())).message(),
        "conf set as default\n"
    );
    assert_eq!(
        Success::DataUpdated(UpdateType::SetDefaultOptions).message(),
        "Options set as default\n"
    );
    assert_eq!(Success::HelpDisplayed.message(), format!("{HELP_TEXT}\n"));
    assert_eq!(Success::DataSaved.message(), "");
    assert_eq!(Success::Silent.message(), "");
}
