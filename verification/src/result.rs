//! What a run of the program ends with: the errors and the successes.
use vstd::prelude::*;
use vstd::string::*;

verus! {

/// Why a run failed.
#[derive(Debug)]
pub enum AppError {
    AliasNotFound(String),
    IoError(std::io::Error),
    NoFileSet,
    FileNotFound(String),
    NotEnoughArgs(&'static str, usize),
    TooManyArgs(&'static str, usize),
    UnknownOption(String),
    NoArgs,
    InvalidReplace(String),
}

/// An error with its text taken as characters; an I/O error is only known
/// to be one.
pub enum AppErrorView {
    AliasNotFound(Seq<char>),
    IoError,
    NoFileSet,
    FileNotFound(Seq<char>),
    NotEnoughArgs(Seq<char>, usize),
    TooManyArgs(Seq<char>, usize),
    UnknownOption(Seq<char>),
    NoArgs,
    InvalidReplace(Seq<char>),
}

impl View for AppError {
    type V = AppErrorView;

    open spec fn view(&self) -> AppErrorView {
        match self {
            AppError::AliasNotFound(alias) => AppErrorView::AliasNotFound(alias@),
            AppError::IoError(_) => AppErrorView::IoError,
            AppError::NoFileSet => AppErrorView::NoFileSet,
            AppError::FileNotFound(file) => AppErrorView::FileNotFound(file@),
            AppError::NotEnoughArgs(command, n) => AppErrorView::NotEnoughArgs(command@, *n),
            AppError::TooManyArgs(command, n) => AppErrorView::TooManyArgs(command@, *n),
            AppError::UnknownOption(option) => AppErrorView::UnknownOption(option@),
            AppError::NoArgs => AppErrorView::NoArgs,
            AppError::InvalidReplace(file) => AppErrorView::InvalidReplace(file@),
        }
    }
}

/// What the alias data was changed by.
#[derive(Debug)]
pub enum UpdateType {
    Added(String, String),
    SetDefaultFile(String),
    SetDefaultOptions,
}

pub enum UpdateTypeView {
    Added(Seq<char>, Seq<char>),
    SetDefaultFile(Seq<char>),
    SetDefaultOptions,
}

impl View for UpdateType {
    type V = UpdateTypeView;

    open spec fn view(&self) -> UpdateTypeView {
        match self {
            UpdateType::Added(alias, file) => UpdateTypeView::Added(alias@, file@),
            UpdateType::SetDefaultFile(file) => UpdateTypeView::SetDefaultFile(file@),
            UpdateType::SetDefaultOptions => UpdateTypeView::SetDefaultOptions,
        }
    }
}

/// How a run succeeded.
#[derive(Debug)]
pub enum Success {
    FileReplaced(String, String),
    FileLinked(String, String),
    DataUpdated(UpdateType),
    DataSaved,
    HelpDisplayed,
    Silent,
}

pub enum SuccessView {
    FileReplaced(Seq<char>, Seq<char>),
    FileLinked(Seq<char>, Seq<char>),
    DataUpdated(UpdateTypeView),
    DataSaved,
    HelpDisplayed,
    Silent,
}

impl View for Success {
    type V = SuccessView;

    open spec fn view(&self) -> SuccessView {
        match self {
            Success::FileReplaced(target, aliased) => SuccessView::FileReplaced(target@, aliased@),
            Success::FileLinked(target, aliased) => SuccessView::FileLinked(target@, aliased@),
            Success::DataUpdated(update) => SuccessView::DataUpdated(update@),
            Success::DataSaved => SuccessView::DataSaved,
            Success::HelpDisplayed => SuccessView::HelpDisplayed,
            Success::Silent => SuccessView::Silent,
        }
    }
}

/// The view of a result of a run.
pub open spec fn result_view(r: Result<Success, AppError>) -> Result<SuccessView, AppErrorView> {
    match r {
        Ok(s) => Ok(s@),
        Err(e) => Err(e@),
    }
}

/// The character of the decimal digit `d`.
pub open spec fn digit_char(d: nat) -> char {
    if d == 0 {
        '0'
    } else if d == 1 {
        '1'
    } else if d == 2 {
        '2'
    } else if d == 3 {
        '3'
    } else if d == 4 {
        '4'
    } else if d == 5 {
        '5'
    } else if d == 6 {
        '6'
    } else if d == 7 {
        '7'
    } else if d == 8 {
        '8'
    } else {
        '9'
    }
}

/// The decimal digits of `n`, most significant first, without leading zeros.
pub open spec fn decimal(n: nat) -> Seq<char>
    decreases n,
{
    if n < 10 {
        seq![digit_char(n)]
    } else {
        decimal(n / 10).push(digit_char(n % 10))
    }
}

fn digit_text(d: usize) -> (text: &'static str)
    requires
        d < 10,
    ensures
        text@ == seq![digit_char(d as nat)],
{
    proof {
        reveal_strlit("0");
        reveal_strlit("1");
        reveal_strlit("2");
        reveal_strlit("3");
        reveal_strlit("4");
        reveal_strlit("5");
        reveal_strlit("6");
        reveal_strlit("7");
        reveal_strlit("8");
        reveal_strlit("9");
    }
    if d == 0 {
        "0"
    } else if d == 1 {
        "1"
    } else if d == 2 {
        "2"
    } else if d == 3 {
        "3"
    } else if d == 4 {
        "4"
    } else if d == 5 {
        "5"
    } else if d == 6 {
        "6"
    } else if d == 7 {
        "7"
    } else if d == 8 {
        "8"
    } else {
        "9"
    }
}

/// `n` written in decimal.
pub fn decimal_string(n: usize) -> (text: String)
    ensures
        text@ == decimal(n as nat),
    decreases n,
{
    if n < 10 {
        String::from_str(digit_text(n))
    } else {
        let mut text = decimal_string(n / 10);
        text.append(digit_text(n % 10));
        text
    }
}

/// How to use the program.
pub const HELP_TEXT: &'static str = "Usage:
  mmf [OPTIONS] ALIAS [FILE]          put the file of ALIAS in place of FILE
                                      (or of the default file)
  mmf --add [OPTIONS] ALIAS FILE [NEW_FILE]
                                      remember FILE as ALIAS; with NEW_FILE,
                                      copy or link FILE to NEW_FILE first
  mmf --set [OPTIONS] [ALIAS] FILE    keep FILE as the default file; with ALIAS,
                                      also put the file of ALIAS in its place
  mmf --set OPTIONS                   keep OPTIONS as defaults
  mmf --help                          show this text

Commands: -h --help, -a --add, -s --set, -l --list, --replace
Options:
  -d  use the current directory as the root of the aliases
  -L  link files in place of copying them
  -C  copy files in place of linking them
  -S  report nothing
  -V  report, even where silence is the default
  --  take every later argument as a plain one";

/// Writes `error` with its `Debug` form. The text depends on the operating
/// system's messages, so no contract states it.
#[verifier::external_body]
fn io_error_text(error: &std::io::Error) -> (text: String) {
    format!("{:?}", error)
}

impl AppError {
    /// The error that an I/O failure is reported as: where its kind is
    /// `NotFound` (`not_found`, as the caller reads it from the error), a
    /// missing file with no name; else the I/O error itself, unchanged.
    pub fn from_io_error(value: std::io::Error, not_found: bool) -> (error: AppError)
        ensures
            not_found ==> error@ == AppErrorView::FileNotFound(Seq::empty()),
            !not_found ==> (error matches AppError::IoError(e) && e == value),
    {
        if not_found {
            AppError::FileNotFound(String::new())
        } else {
            AppError::IoError(value)
        }
    }

    /// The text that reports this error.
    pub fn message(&self) -> (text: String)
        ensures
            match self@ {
                AppErrorView::AliasNotFound(alias) => text@ == "Alias '"@ + alias + "' not found"@,
                AppErrorView::IoError => exists|d: Seq<char>| text@ == "IoError "@ + d,
                AppErrorView::NotEnoughArgs(command, n) => text@ == "Not enough args for "@ + command
                    + " ("@ + decimal(n as nat) + ")"@,
                AppErrorView::TooManyArgs(command, n) => text@ == "Too many args for "@ + command
                    + " ("@ + decimal(n as nat) + ")"@,
                AppErrorView::UnknownOption(option) => text@ == "Unkown option "@ + option
                    + ", use --help for more information"@,
                AppErrorView::NoFileSet => text@
                    == "Default file not set, use --set to define a default file"@,
                AppErrorView::NoArgs => text@ == "Missing operands, use --help for more information"@,
                AppErrorView::FileNotFound(file) => text@ == "File "@ + file + " not found"@,
                AppErrorView::InvalidReplace(file) => text@ == "Trying to replace "@ + file
                    + " with itself"@,
            },
    {
        match self {
            AppError::AliasNotFound(alias) => {
                let mut text = String::from_str("Alias '");
                text.append(alias.as_str());
                text.append("' not found");
                text
            },
            AppError::IoError(error) => {
                let detail = io_error_text(error);
                let mut text = String::from_str("IoError ");
                text.append(detail.as_str());
                assert(text@ == "IoError "@ + detail@);
                text
            },
            AppError::NotEnoughArgs(command, n) => {
                let mut text = String::from_str("Not enough args for ");
                text.append(command);
                text.append(" (");
                let digits = decimal_string(*n);
                text.append(digits.as_str());
                text.append(")");
                text
            },
            AppError::TooManyArgs(command, n) => {
                let mut text = String::from_str("Too many args for ");
                text.append(command);
                text.append(" (");
                let digits = decimal_string(*n);
                text.append(digits.as_str());
                text.append(")");
                text
            },
            AppError::UnknownOption(option) => {
                let mut text = String::from_str("Unkown option ");
                text.append(option.as_str());
                text.append(", use --help for more information");
                text
            },
            AppError::NoFileSet => String::from_str(
                "Default file not set, use --set to define a default file",
            ),
            AppError::NoArgs => String::from_str("Missing operands, use --help for more information"),
            AppError::FileNotFound(file) => {
                let mut text = String::from_str("File ");
                text.append(file.as_str());
                text.append(" not found");
                text
            },
            AppError::InvalidReplace(file) => {
                let mut text = String::from_str("Trying to replace ");
                text.append(file.as_str());
                text.append(" with itself");
                text
            },
        }
    }
}

impl Success {
    /// The text that reports this success, ending with a line break; a
    /// saved, a silent run reports nothing.
    pub fn message(&self) -> (text: String)
        ensures
            match self@ {
                SuccessView::FileReplaced(target, aliased) => text@ == "Replaced "@ + target
                    + " with "@ + aliased + "\n"@,
                SuccessView::FileLinked(target, aliased) => text@ == "Linked "@ + target + " to "@
                    + aliased + "\n"@,
                SuccessView::DataUpdated(UpdateTypeView::Added(alias, file)) => text@ == file
                    + " aliased as "@ + alias + "\n"@,
                SuccessView::DataUpdated(UpdateTypeView::SetDefaultFile(file)) => text@ == file
                    + " set as default\n"@,
                SuccessView::DataUpdated(UpdateTypeView::SetDefaultOptions) => text@
                    == "Options set as default\n"@,
                SuccessView::HelpDisplayed => text@ == HELP_TEXT@ + "\n"@,
                SuccessView::DataSaved | SuccessView::Silent => text@ == ""@,
            },
    {
        match self {
            Success::FileReplaced(target, aliased) => {
                let mut text = String::from_str("Replaced ");
                text.append(target.as_str());
                text.append(" with ");
                text.append(aliased.as_str());
                text.append("\n");
                text
            },
            Success::FileLinked(target, aliased) => {
                let mut text = String::from_str("Linked ");
                text.append(target.as_str());
                text.append(" to ");
                text.append(aliased.as_str());
                text.append("\n");
                text
            },
            Success::DataUpdated(UpdateType::Added(alias, file)) => {
                let mut text = file.clone();
                text.append(" aliased as ");
                text.append(alias.as_str());
                text.append("\n");
                text
            },
            Success::DataUpdated(UpdateType::SetDefaultFile(file)) => {
                let mut text = file.clone();
                text.append(" set as default\n");
                text
            },
            Success::DataUpdated(UpdateType::SetDefaultOptions) => String::from_str(
                "Options set as default\n",
            ),
            Success::HelpDisplayed => {
                let mut text = String::from_str(HELP_TEXT);
                text.append("\n");
                text
            },
            Success::DataSaved | Success::Silent => String::from_str(""),
        }
    }
}

} // verus!
