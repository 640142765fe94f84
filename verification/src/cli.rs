//! The command line: what it asks for and with which options.
use std::collections::VecDeque;
use vstd::prelude::*;
use vstd::string::*;

use crate::result::{AppError, AppErrorView};

verus! {

/// One option flag of the command line; each one owns a distinct bit of a
/// `CommandOptions` set.
#[derive(Clone, Copy, Debug, PartialEq, Eq, Structural)]
pub enum AppOptions {
    CurrentDirAsRoot,
    AsSymLink,
    AsCopy,
    Silent,
    Verbose,
}

impl AppOptions {
    /// The bit this option occupies in a `CommandOptions` set.
    pub open spec fn spec_bit(self) -> u8 {
        match self {
            AppOptions::CurrentDirAsRoot => 1,
            AppOptions::AsSymLink => 2,
            AppOptions::AsCopy => 4,
            AppOptions::Silent => 8,
            AppOptions::Verbose => 16,
        }
    }

    /// The bit this option occupies in a `CommandOptions` set.
    pub fn bit(&self) -> (b: u8)
        ensures
            b == self.spec_bit(),
    {
        match self {
            AppOptions::CurrentDirAsRoot => 1,
            AppOptions::AsSymLink => 2,
            AppOptions::AsCopy => 4,
            AppOptions::Silent => 8,
            AppOptions::Verbose => 16,
        }
    }
}

/// The set of options given on the command line, one bit per `AppOptions`.
#[derive(Debug)]
pub struct CommandOptions(pub u8);

/// Whether the option bit of `option` is set in `bits`.
pub open spec fn option_on(bits: u8, option: AppOptions) -> bool {
    bits & option.spec_bit() != 0
}

impl CommandOptions {
    /// Whether `option` is in the set.
    pub open spec fn has(self, option: AppOptions) -> bool {
        option_on(self.0, option)
    }

    /// The bits of `self` that `rhs` stands for.
    pub fn bitand(&self, rhs: AppOptions) -> (r: u8)
        ensures
            r == self.0 & rhs.spec_bit(),
    {
        self.0 & rhs.bit()
    }

    /// Adds `rhs` to the set.
    pub fn bitor_assign(&mut self, rhs: AppOptions)
        ensures
            final(self).0 == old(self).0 | rhs.spec_bit(),
    {
        self.0 = self.0 | rhs.bit();
    }

    /// Whether `option` is in the set.
    pub fn is_on(&self, option: AppOptions) -> (r: bool)
        ensures
            r == self.has(option),
    {
        self.bitand(option) > 0
    }

    /// Whether no option is in the set.
    pub fn is_empty(&self) -> (r: bool)
        ensures
            r == (self.0 == 0),
    {
        self.0 == 0
    }

    /// `-d`: the current directory is the root of the aliases.
    pub fn current_dir_as_root(&self) -> (r: bool)
        ensures
            r == self.has(AppOptions::CurrentDirAsRoot),
    {
        self.is_on(AppOptions::CurrentDirAsRoot)
    }

    /// `-L`: link files in place of copying them.
    pub fn as_sym_link(&self) -> (r: bool)
        ensures
            r == self.has(AppOptions::AsSymLink),
    {
        self.is_on(AppOptions::AsSymLink)
    }

    /// `-C`: copy files in place of linking them.
    pub fn as_copy(&self) -> (r: bool)
        ensures
            r == self.has(AppOptions::AsCopy),
    {
        self.is_on(AppOptions::AsCopy)
    }

    /// `-S`: report nothing.
    pub fn silent(&self) -> (r: bool)
        ensures
            r == self.has(AppOptions::Silent),
    {
        self.is_on(AppOptions::Silent)
    }

    /// `-V`: report, whatever was kept as default.
    pub fn verbose(&self) -> (r: bool)
        ensures
            r == self.has(AppOptions::Verbose),
    {
        self.is_on(AppOptions::Verbose)
    }
}

/// Adding an option to a set puts it in the set and keeps every option that
/// was there; an option other than the one added is in the new set only if it
/// was in the old one.
pub proof fn lemma_add_option(bits: u8, added: AppOptions, other: AppOptions)
    ensures
        option_on(bits | added.spec_bit(), added),
        other != added ==> (option_on(bits | added.spec_bit(), other) <==> option_on(bits, other)),
        option_on(bits, other) ==> option_on(bits | added.spec_bit(), other),
{
    let a = added.spec_bit();
    let o = other.spec_bit();
    assert(a == 1 || a == 2 || a == 4 || a == 8 || a == 16);
    assert(o == 1 || o == 2 || o == 4 || o == 8 || o == 16);
    assert(other != added ==> a != o);
    assert((a == 1 || a == 2 || a == 4 || a == 8 || a == 16) ==> (bits | a) & a != 0)
        by (bit_vector);
    assert((o == 1 || o == 2 || o == 4 || o == 8 || o == 16) && (a == 1 || a == 2 || a == 4 || a
        == 8 || a == 16) && a != o ==> ((bits | a) & o != 0 <==> bits & o != 0)) by (bit_vector);
    assert(bits & o != 0 ==> (bits | a) & o != 0) by (bit_vector);
}

/// What the program was asked to do.
#[derive(Clone, Copy, Debug, PartialEq, Eq, Structural)]
pub enum Mode {
    Help,
    Add,
    SetFile,
    List,
    Load,
    NotGiven,
}

/// One piece of the command line.
#[derive(Debug)]
pub enum ArgType {
    Command(Mode),
    Option(AppOptions),
    Arg(String),
}

pub enum ArgTypeView {
    Command(Mode),
    Option(AppOptions),
    Arg(Seq<char>),
}

impl View for ArgType {
    type V = ArgTypeView;

    open spec fn view(&self) -> ArgTypeView {
        match self {
            ArgType::Command(m) => ArgTypeView::Command(*m),
            ArgType::Option(o) => ArgTypeView::Option(*o),
            ArgType::Arg(a) => ArgTypeView::Arg(a@),
        }
    }
}

/// A piece of the command line that names nothing known.
#[derive(Debug)]
pub enum ExtractArgsError {
    UnknownCommand(String),
    UnknownOption(char),
}

pub enum ExtractArgsErrorView {
    UnknownCommand(Seq<char>),
    UnknownOption(char),
}

impl View for ExtractArgsError {
    type V = ExtractArgsErrorView;

    open spec fn view(&self) -> ExtractArgsErrorView {
        match self {
            ExtractArgsError::UnknownCommand(c) => ExtractArgsErrorView::UnknownCommand(c@),
            ExtractArgsError::UnknownOption(o) => ExtractArgsErrorView::UnknownOption(*o),
        }
    }
}

pub type ArgItem = Result<ArgTypeView, ExtractArgsErrorView>;

/// The view of one piece read from the command line.
pub open spec fn item_view(item: Result<ArgType, ExtractArgsError>) -> ArgItem {
    match item {
        Ok(a) => Ok(a@),
        Err(e) => Err(e@),
    }
}

/// The texts of a list of strings.
pub open spec fn texts(strings: Seq<String>) -> Seq<Seq<char>> {
    strings.map_values(|s: String| s@)
}

/// The mode that a long command (`--help` and the like) names.
pub open spec fn long_mode(arg: Seq<char>) -> Option<Mode> {
    if arg == "--help"@ {
        Some(Mode::Help)
    } else if arg == "--add"@ {
        Some(Mode::Add)
    } else if arg == "--set"@ {
        Some(Mode::SetFile)
    } else if arg == "--list"@ {
        Some(Mode::List)
    } else if arg == "--replace"@ {
        Some(Mode::Load)
    } else {
        None
    }
}

/// What one letter of a group of short options (`-aL` and the like) stands
/// for; a dash stands for nothing.
pub open spec fn short_item(c: char) -> Option<ArgItem> {
    if c == '-' {
        None
    } else if c == 'h' {
        Some(Ok(ArgTypeView::Command(Mode::Help)))
    } else if c == 'a' {
        Some(Ok(ArgTypeView::Command(Mode::Add)))
    } else if c == 's' {
        Some(Ok(ArgTypeView::Command(Mode::SetFile)))
    } else if c == 'l' {
        Some(Ok(ArgTypeView::Command(Mode::List)))
    } else if c == 'd' {
        Some(Ok(ArgTypeView::Option(AppOptions::CurrentDirAsRoot)))
    } else if c == 'L' {
        Some(Ok(ArgTypeView::Option(AppOptions::AsSymLink)))
    } else if c == 'C' {
        Some(Ok(ArgTypeView::Option(AppOptions::AsCopy)))
    } else if c == 'S' {
        Some(Ok(ArgTypeView::Option(AppOptions::Silent)))
    } else if c == 'V' {
        Some(Ok(ArgTypeView::Option(AppOptions::Verbose)))
    } else {
        Some(Err(ExtractArgsErrorView::UnknownOption(c)))
    }
}

/// The pieces that a group of short options stands for, letter by letter.
pub open spec fn short_items(chars: Seq<char>) -> Seq<ArgItem>
    decreases chars.len(),
{
    if chars.len() == 0 {
        seq![]
    } else {
        short_items(chars.drop_last()) + match short_item(chars.last()) {
            Some(item) => seq![item],
            None => seq![],
        }
    }
}

pub open spec fn starts_with_dash(arg: Seq<char>) -> bool {
    arg.len() >= 1 && arg[0] == '-'
}

pub open spec fn starts_with_two_dashes(arg: Seq<char>) -> bool {
    arg.len() >= 2 && arg[0] == '-' && arg[1] == '-'
}

/// The pieces that one argument stands for; after a bare `--`
/// (`plain_only`) every argument is a plain one.
pub open spec fn arg_items(arg: Seq<char>, plain_only: bool) -> Seq<ArgItem> {
    if !plain_only && arg == "--"@ {
        seq![]
    } else if !plain_only && starts_with_two_dashes(arg) {
        seq![
            match long_mode(arg) {
                Some(m) => Ok(ArgTypeView::Command(m)),
                None => Err(ExtractArgsErrorView::UnknownCommand(arg)),
            },
        ]
    } else if !plain_only && starts_with_dash(arg) {
        short_items(arg)
    } else {
        seq![Ok(ArgTypeView::Arg(arg))]
    }
}

/// The pieces that a command line stands for, in order.
pub open spec fn extract_items(args: Seq<Seq<char>>) -> Seq<ArgItem>
    decreases args.len(),
{
    if args.len() == 0 {
        seq![]
    } else {
        extract_items(args.drop_last()) + arg_items(args.last(), args.drop_last().contains("--"@))
    }
}

fn text_is(text: &String, literal: &str) -> (same: bool)
    ensures
        same == (text@ == literal@),
{
    let other = literal.to_owned();
    *text == other
}

fn short_arg_items(arg: &String, out: &mut Vec<Result<ArgType, ExtractArgsError>>)
    ensures
        final(out)@.map_values(|i| item_view(i)) == old(out)@.map_values(|i| item_view(i))
            + short_items(arg@),
{
    let text = arg.as_str();
    let n = text.unicode_len();
    let ghost start = old(out)@.map_values(|i| item_view(i));
    let mut j: usize = 0;
    assert(arg@.take(0) =~= Seq::<char>::empty());
    while j < n
        invariant
            n == arg@.len(),
            text@ == arg@,
            j <= n,
            out@.map_values(|i| item_view(i)) == start + short_items(arg@.take(j as int)),
        decreases n - j,
    {
        let c = text.get_char(j);
        let item: Option<Result<ArgType, ExtractArgsError>> = if c == '-' {
            None
        } else if c == 'h' {
            Some(Ok(ArgType::Command(Mode::Help)))
        } else if c == 'a' {
            Some(Ok(ArgType::Command(Mode::Add)))
        } else if c == 's' {
            Some(Ok(ArgType::Command(Mode::SetFile)))
        } else if c == 'l' {
            Some(Ok(ArgType::Command(Mode::List)))
        } else if c == 'd' {
            Some(Ok(ArgType::Option(AppOptions::CurrentDirAsRoot)))
        } else if c == 'L' {
            Some(Ok(ArgType::Option(AppOptions::AsSymLink)))
        } else if c == 'C' {
            Some(Ok(ArgType::Option(AppOptions::AsCopy)))
        } else if c == 'S' {
            Some(Ok(ArgType::Option(AppOptions::Silent)))
        } else if c == 'V' {
            Some(Ok(ArgType::Option(AppOptions::Verbose)))
        } else {
            Some(Err(ExtractArgsError::UnknownOption(c)))
        };
        let ghost prefix = arg@.take(j + 1);
        assert(prefix.drop_last() =~= arg@.take(j as int));
        assert(prefix.last() == c);
        match item {
            Some(it) => {
                let ghost before = out@;
                out.push(it);
                assert(out@.map_values(|i| item_view(i)) =~= before.map_values(|i| item_view(i)).push(
                    item_view(it),
                ));
            },
            None => {},
        }
        assert(out@.map_values(|i| item_view(i)) =~= start + short_items(prefix));
        j = j + 1;
    }
    assert(arg@.take(n as int) =~= arg@);
}

/// The pieces of the command line `args` (without the program's own path),
/// in order: a bare `--` makes every later argument a plain one; an argument
/// that starts with `--` names a command; one that starts with `-` is a group
/// of one-letter commands and options; any other is a plain argument.
pub fn extract_args(args: &Vec<String>) -> (items: Vec<Result<ArgType, ExtractArgsError>>)
    ensures
        items@.map_values(|i| item_view(i)) == extract_items(texts(args@)),
{
    let mut items: Vec<Result<ArgType, ExtractArgsError>> = Vec::new();
    let mut ignore_options = false;
    let mut k: usize = 0;
    while k < args.len()
        invariant
            k <= args@.len(),
            ignore_options == texts(args@).take(k as int).contains("--"@),
            items@.map_values(|i| item_view(i)) == extract_items(texts(args@).take(k as int)),
        decreases args@.len() - k,
    {
        let arg = &args[k];
        let ghost all = texts(args@);
        let ghost prefix = all.take(k + 1);
        assert(prefix.drop_last() =~= all.take(k as int));
        assert(prefix.last() == arg@);
        let ghost before = items@;
        let is_double_dash = text_is(arg, "--");
        if !ignore_options && is_double_dash {
            ignore_options = true;
        } else {
            let text = arg.as_str();
            let n = text.unicode_len();
            if !ignore_options && n >= 2 && text.get_char(0) == '-' && text.get_char(1) == '-' {
                let item = if text_is(arg, "--help") {
                    Ok(ArgType::Command(Mode::Help))
                } else if text_is(arg, "--add") {
                    Ok(ArgType::Command(Mode::Add))
                } else if text_is(arg, "--set") {
                    Ok(ArgType::Command(Mode::SetFile))
                } else if text_is(arg, "--list") {
                    Ok(ArgType::Command(Mode::List))
                } else if text_is(arg, "--replace") {
                    Ok(ArgType::Command(Mode::Load))
                } else {
                    Err(ExtractArgsError::UnknownCommand(arg.clone()))
                };
                items.push(item);
                assert(items@.map_values(|i| item_view(i)) =~= before.map_values(|i| item_view(i)).push(
                    item_view(item),
                ));
            } else if !ignore_options && n >= 1 && text.get_char(0) == '-' {
                short_arg_items(arg, &mut items);
            } else {
                let item = Ok(ArgType::Arg(arg.clone()));
                items.push(item);
                assert(items@.map_values(|i| item_view(i)) =~= before.map_values(|i| item_view(i)).push(
                    item_view(item),
                ));
            }
        }
        assert(prefix.contains("--"@) == (all.take(k as int).contains("--"@) || arg@ == "--"@))
            by {
            if arg@ == "--"@ {
                assert(prefix[k as int] == arg@);
            }
            if prefix.contains("--"@) {
                let w = choose|w: int| 0 <= w < prefix.len() && prefix[w] == "--"@;
                if w < k {
                    assert(all.take(k as int)[w] == "--"@);
                }
            }
            if all.take(k as int).contains("--"@) {
                let w = choose|w: int| 0 <= w < k && all.take(k as int)[w] == "--"@;
                assert(prefix[w] == "--"@);
            }
        }
        k = k + 1;
    }
    assert(texts(args@).take(args@.len() as int) =~= texts(args@));
    items
}

/// The arguments of `--add`: an alias, the file it stands for, and the file
/// to copy that one to, if any.
#[derive(Debug)]
pub struct AddArgs {
    pub alias: String,
    pub file: String,
    pub new_file: Option<String>,
}

/// The argument of `--set`: the file to keep as default.
#[derive(Debug)]
pub struct SetFileArgs {
    pub file: String,
}

/// The arguments of `--replace`: an alias and the file to put its file in
/// place of, if given.
#[derive(Debug)]
pub struct LoadArgs {
    pub alias: String,
    pub file: Option<String>,
}

/// What the command line asks for.
#[derive(Debug)]
pub enum Command {
    Help,
    Add(AddArgs),
    SetFile(SetFileArgs, Option<LoadArgs>),
    SetFlags,
    Load(LoadArgs),
    List,
}

pub struct AddArgsView {
    pub alias: Seq<char>,
    pub file: Seq<char>,
    pub new_file: Option<Seq<char>>,
}

pub struct LoadArgsView {
    pub alias: Seq<char>,
    pub file: Option<Seq<char>>,
}

pub enum CommandView {
    Help,
    Add(AddArgsView),
    SetFile(Seq<char>, Option<LoadArgsView>),
    SetFlags,
    Load(LoadArgsView),
    List,
}

impl View for AddArgs {
    type V = AddArgsView;

    open spec fn view(&self) -> AddArgsView {
        AddArgsView { alias: self.alias@, file: self.file@, new_file: self.new_file.deep_view() }
    }
}

impl View for SetFileArgs {
    type V = Seq<char>;

    open spec fn view(&self) -> Seq<char> {
        self.file@
    }
}

impl View for LoadArgs {
    type V = LoadArgsView;

    open spec fn view(&self) -> LoadArgsView {
        LoadArgsView { alias: self.alias@, file: self.file.deep_view() }
    }
}

impl View for Command {
    type V = CommandView;

    open spec fn view(&self) -> CommandView {
        match self {
            Command::Help => CommandView::Help,
            Command::Add(a) => CommandView::Add(a@),
            Command::SetFile(s, l) => CommandView::SetFile(
                s@,
                match l {
                    Some(l) => Some(l@),
                    None => None,
                },
            ),
            Command::SetFlags => CommandView::SetFlags,
            Command::Load(l) => CommandView::Load(l@),
            Command::List => CommandView::List,
        }
    }
}

/// The view of the result of building a command.
pub open spec fn command_result_view(r: Result<Command, AppError>) -> Result<
    CommandView,
    AppErrorView,
> {
    match r {
        Ok(c) => Ok(c@),
        Err(e) => Err(e@),
    }
}

/// `--add` with the plain arguments `args`: two or three of them.
pub open spec fn add_command(args: Seq<Seq<char>>) -> Result<CommandView, AppErrorView> {
    if args.len() < 2 {
        Err(AppErrorView::NotEnoughArgs("add"@, args.len() as usize))
    } else if args.len() > 3 {
        Err(AppErrorView::TooManyArgs("add"@, args.len() as usize))
    } else {
        Ok(
            CommandView::Add(
                AddArgsView {
                    alias: args[0],
                    file: args[1],
                    new_file: if args.len() == 3 {
                        Some(args[2])
                    } else {
                        None
                    },
                },
            ),
        )
    }
}

/// `--set` with the plain arguments `args`: none, when options are given, to
/// keep the options; one file to keep as default; or an alias and that file,
/// to also put the alias's file in its place.
pub open spec fn set_command(args: Seq<Seq<char>>, no_options: bool) -> Result<
    CommandView,
    AppErrorView,
> {
    if args.len() == 0 {
        if !no_options {
            Ok(CommandView::SetFlags)
        } else {
            Err(AppErrorView::NotEnoughArgs("set"@, 0))
        }
    } else if args.len() > 2 {
        Err(AppErrorView::TooManyArgs("set"@, args.len() as usize))
    } else {
        let file = args.last();
        Ok(
            CommandView::SetFile(
                file,
                if args.len() == 2 {
                    Some(LoadArgsView { alias: args[0], file: Some(file) })
                } else {
                    None
                },
            ),
        )
    }
}

/// `--replace`, or no command, with the plain arguments `args`: an alias
/// and, if given, the file to put its file in place of.
pub open spec fn load_command(args: Seq<Seq<char>>) -> Result<CommandView, AppErrorView> {
    if args.len() == 0 {
        Err(AppErrorView::NoArgs)
    } else if args.len() > 2 {
        Err(AppErrorView::TooManyArgs("replace"@, args.len() as usize))
    } else {
        Ok(
            CommandView::Load(
                LoadArgsView {
                    alias: args[0],
                    file: if args.len() == 2 {
                        Some(args[1])
                    } else {
                        None
                    },
                },
            ),
        )
    }
}

/// Builds the `--add` command from the plain arguments, which it takes out of
/// `args` when it succeeds.
pub fn build_add_command(args: &mut VecDeque<String>) -> (command: Result<Command, AppError>)
    ensures
        command_result_view(command) == add_command(texts(old(args)@)),
        command is Ok ==> final(args)@.len() == 0,
        command is Err ==> final(args)@ == old(args)@,
{
    let n = args.len();
    if n < 2 {
        return Err(AppError::NotEnoughArgs("add", n));
    } else if n > 3 {
        return Err(AppError::TooManyArgs("add", n));
    }
    let ghost all = args@;
    let alias = args.pop_front().unwrap();
    let file = args.pop_front().unwrap();
    let new_file = args.pop_front();
    assert(alias == all[0] && file == all[1]);
    assert(n == 3 ==> new_file == Some(all[2]));
    Ok(Command::Add(AddArgs { alias, file, new_file }))
}

/// Builds the `--set` command from the plain arguments, which it takes out of
/// `args` when it succeeds.
pub fn build_set_command(args: &mut VecDeque<String>, command_options: &CommandOptions) -> (command:
    Result<Command, AppError>)
    ensures
        command_result_view(command) == set_command(texts(old(args)@), command_options.0 == 0),
        command is Ok ==> final(args)@.len() == 0,
        command is Err ==> final(args)@ == old(args)@,
{
    let n = args.len();
    if n == 0 {
        if !command_options.is_empty() {
            return Ok(Command::SetFlags);
        }
        return Err(AppError::NotEnoughArgs("set", n));
    } else if n > 2 {
        return Err(AppError::TooManyArgs("set", n));
    }
    let ghost all = args@;
    let file = args.pop_back().unwrap();
    let alias = args.pop_front();
    assert(file == all[n - 1]);
    assert(n == 2 ==> alias == Some(all[0]));
    assert(n == 1 ==> alias is None);
    let load = match alias {
        Some(a) => Some(LoadArgs { alias: a, file: Some(file.clone()) }),
        None => None,
    };
    Ok(Command::SetFile(SetFileArgs { file }, load))
}

/// Builds the `--replace` command from the plain arguments, which it takes
/// out of `args` when it succeeds.
pub fn build_load_command(args: &mut VecDeque<String>) -> (command: Result<Command, AppError>)
    ensures
        command_result_view(command) == load_command(texts(old(args)@)),
        command is Ok ==> final(args)@.len() == 0,
        command is Err ==> final(args)@ == old(args)@,
{
    let n = args.len();
    if n == 0 {
        return Err(AppError::NoArgs);
    } else if n > 2 {
        return Err(AppError::TooManyArgs("replace", n));
    }
    let ghost all = args@;
    let alias = args.pop_front().unwrap();
    let file = args.pop_front();
    assert(alias == all[0]);
    assert(n == 2 ==> file == Some(all[1]));
    Ok(Command::Load(LoadArgs { alias, file }))
}

/// What a command line amounts to, read piece by piece: the first unknown
/// piece ends it; otherwise the last command named is the mode, the options
/// add up, and the plain arguments are kept in order.
pub open spec fn fold_items(items: Seq<ArgItem>) -> Result<
    (Mode, u8, Seq<Seq<char>>),
    ExtractArgsErrorView,
>
    decreases items.len(),
{
    if items.len() == 0 {
        Ok((Mode::NotGiven, 0u8, seq![]))
    } else {
        match fold_items(items.drop_last()) {
            Err(e) => Err(e),
            Ok((mode, options, plain)) => match items.last() {
                Err(e) => Err(e),
                Ok(ArgTypeView::Command(m)) => Ok((m, options, plain)),
                Ok(ArgTypeView::Option(o)) => Ok((mode, options | o.spec_bit(), plain)),
                Ok(ArgTypeView::Arg(a)) => Ok((mode, options, plain.push(a))),
            },
        }
    }
}

/// Once the reading has failed, later pieces change nothing.
pub proof fn lemma_fold_error_stays(items: Seq<ArgItem>, k: int)
    requires
        0 <= k <= items.len(),
        fold_items(items.take(k)) is Err,
    ensures
        fold_items(items) == fold_items(items.take(k)),
    decreases items.len() - k,
{
    if k < items.len() {
        assert(items.take(k + 1).drop_last() =~= items.take(k));
        lemma_fold_error_stays(items, k + 1);
    } else {
        assert(items.take(k) =~= items);
    }
}

/// The error that an unknown piece of the command line is reported as.
pub open spec fn extract_error(e: ExtractArgsErrorView) -> AppErrorView {
    match e {
        ExtractArgsErrorView::UnknownOption(c) => AppErrorView::UnknownOption(seq![c]),
        ExtractArgsErrorView::UnknownCommand(c) => AppErrorView::UnknownOption(c),
    }
}

/// The command that a mode, its options and its plain arguments make.
pub open spec fn command_for(mode: Mode, options: u8, plain: Seq<Seq<char>>) -> Result<
    CommandView,
    AppErrorView,
> {
    match mode {
        Mode::Help => Ok(CommandView::Help),
        Mode::List => Ok(CommandView::List),
        Mode::Add => add_command(plain),
        Mode::SetFile => set_command(plain, options == 0),
        Mode::Load | Mode::NotGiven => load_command(plain),
    }
}

/// The command and the options that the command line `args` asks for.
pub open spec fn parse_command_line(args: Seq<Seq<char>>) -> Result<(CommandView, u8), AppErrorView> {
    match fold_items(extract_items(args)) {
        Err(e) => Err(extract_error(e)),
        Ok((mode, options, plain)) => match command_for(mode, options, plain) {
            Ok(c) => Ok((c, options)),
            Err(e) => Err(e),
        },
    }
}

/// Calls `char::to_string`, which by its documentation gives the string that
/// holds just that character.
#[verifier::external_body]
fn char_to_string(c: char) -> (text: String)
    ensures
        text@ == seq![c],
{
    c.to_string()
}

impl AppError {
    /// The error that an unknown piece of the command line is reported as.
    pub fn from_extract_error(value: &ExtractArgsError) -> (error: AppError)
        ensures
            error@ == extract_error(value@),
    {
        match value {
            ExtractArgsError::UnknownOption(option) => AppError::UnknownOption(char_to_string(*option)),
            ExtractArgsError::UnknownCommand(command) => AppError::UnknownOption(command.clone()),
        }
    }
}

/// Reads the command line `args` (without the program's own path): the
/// command it asks for and the options it gives.
pub fn parse_args(args: Vec<String>) -> (parsed: Result<(Command, CommandOptions), AppError>)
    ensures
        match parsed {
            Ok((command, options)) => parse_command_line(texts(args@)) == Ok::<_, AppErrorView>((command@, options.0)),
            Err(e) => parse_command_line(texts(args@)) == Err::<(CommandView, u8), _>(e@),
        },
{
    let items = extract_args(&args);
    let ghost views = items@.map_values(|i| item_view(i));
    let mut mode = Mode::NotGiven;
    let mut options = CommandOptions(0);
    let mut plain: VecDeque<String> = VecDeque::new();
    let mut i: usize = 0;
    assert(views.take(0) =~= Seq::<ArgItem>::empty());
    assert(texts(plain@) =~= Seq::<Seq<char>>::empty());
    while i < items.len()
        invariant
            views == items@.map_values(|i| item_view(i)),
            views == extract_items(texts(args@)),
            i <= items@.len(),
            fold_items(views.take(i as int)) == Ok::<_, ExtractArgsErrorView>(
                (mode, options.0, texts(plain@)),
            ),
        decreases items@.len() - i,
    {
        assert(views.take(i + 1).drop_last() =~= views.take(i as int));
        assert(views.take(i + 1).last() == item_view(items@[i as int]));
        match &items[i] {
            Ok(ArgType::Command(m)) => {
                mode = *m;
            },
            Ok(ArgType::Option(o)) => {
                options.bitor_assign(*o);
            },
            Ok(ArgType::Arg(a)) => {
                let ghost before = plain@;
                plain.push_back(a.clone());
                assert(texts(plain@) =~= texts(before).push(a@));
            },
            Err(e) => {
                proof {
                    lemma_fold_error_stays(views, i + 1);
                }
                return Err(AppError::from_extract_error(e));
            },
        }
        i = i + 1;
    }
    assert(views.take(i as int) =~= views);
    let command = match mode {
        Mode::Help => Command::Help,
        Mode::List => Command::List,
        Mode::Add => match build_add_command(&mut plain) {
            Ok(c) => c,
            Err(e) => return Err(e),
        },
        Mode::SetFile => match build_set_command(&mut plain, &options) {
            Ok(c) => c,
            Err(e) => return Err(e),
        },
        Mode::Load | Mode::NotGiven => match build_load_command(&mut plain) {
            Ok(c) => c,
            Err(e) => return Err(e),
        },
    };
    Ok((command, options))
}

impl Command {
    /// The file whose directory is the root of the aliases, if the command
    /// names one.
    pub open spec fn spec_ref_file(self) -> Option<Seq<char>> {
        match self@ {
            CommandView::Add(a) => Some(a.file),
            CommandView::SetFile(file, _) => Some(file),
            CommandView::Load(l) => l.file,
            _ => None,
        }
    }

    /// The file whose directory is the root of the aliases, if the command
    /// names one.
    pub fn ref_file(&self) -> (file: Option<&String>)
        ensures
            file.deep_view() == self.spec_ref_file(),
    {
        match self {
            Command::Add(AddArgs { file, .. }) => Some(file),
            Command::SetFile(SetFileArgs { file }, _) => Some(file),
            Command::Load(LoadArgs { file: Some(file), .. }) => Some(file),
            _ => None,
        }
    }

    /// Whether the command reports even when told to be silent.
    pub fn overrides_silent(&self) -> (overrides: bool)
        ensures
            overrides == (self@ is List || self@ is Help),
    {
        match self {
            Command::List | Command::Help => true,
            _ => false,
        }
    }
}

/// A command line read and resolved: the command, its options, and the root
/// directory of the aliases.
#[derive(Debug)]
pub struct AppState {
    pub command: Command,
    pub command_options: CommandOptions,
    pub root_dir: std::path::PathBuf,
}

/// After a bare `--`, every argument is read as a plain one, in order.
pub proof fn lemma_plain_after_double_dash(before: Seq<Seq<char>>, after: Seq<Seq<char>>)
    requires
        !before.contains("--"@),
    ensures
        extract_items(before.push("--"@) + after) == extract_items(before) + after.map_values(
            |a: Seq<char>| Ok::<ArgTypeView, ExtractArgsErrorView>(ArgTypeView::Arg(a)),
        ),
    decreases after.len(),
{
    let plain = after.map_values(
        |a: Seq<char>| Ok::<ArgTypeView, ExtractArgsErrorView>(ArgTypeView::Arg(a)),
    );
    let head = before.push("--"@);
    if after.len() == 0 {
        assert(head + after =~= head);
        assert(head.drop_last() =~= before);
        assert(extract_items(before) + plain =~= extract_items(before));
    } else {
        let init = after.drop_last();
        lemma_plain_after_double_dash(before, init);
        assert((head + after).drop_last() =~= head + init);
        assert((head + after).last() == after.last());
        assert(head.contains("--"@)) by {
            assert(head[before.len() as int] == "--"@);
        }
        assert((head + init).contains("--"@)) by {
            assert((head + init)[before.len() as int] == "--"@);
        }
        assert(plain =~= init.map_values(
            |a: Seq<char>| Ok::<ArgTypeView, ExtractArgsErrorView>(ArgTypeView::Arg(a)),
        ).push(Ok(ArgTypeView::Arg(after.last()))));
    }
}

/// The last command named on a command line is the one it asks for, and an
/// option counts wherever it stands before the first unknown piece.
pub proof fn lemma_fold_last_command(items: Seq<ArgItem>, m: Mode)
    requires
        fold_items(items) is Ok,
    ensures
        fold_items(items.push(Ok(ArgTypeView::Command(m)))) matches Ok((mode, options, plain))
            && mode == m && options == fold_items(items)->Ok_0.1 && plain == fold_items(items)->Ok_0.2,
{
    assert(items.push(Ok(ArgTypeView::Command(m))).drop_last() =~= items);
}

/// The plain arguments among the pieces of a command line, in order.
pub open spec fn plain_args(items: Seq<ArgItem>) -> Seq<Seq<char>>
    decreases items.len(),
{
    if items.len() == 0 {
        seq![]
    } else {
        match items.last() {
            Ok(ArgTypeView::Arg(a)) => plain_args(items.drop_last()).push(a),
            _ => plain_args(items.drop_last()),
        }
    }
}

/// The plain arguments that a command is built from are those of the command
/// line, in the order they were given, whatever commands and options stand
/// between them.
pub proof fn lemma_plain_args_in_order(items: Seq<ArgItem>)
    ensures
        fold_items(items) matches Ok((_, _, plain)) ==> plain == plain_args(items),
    decreases items.len(),
{
    if items.len() > 0 {
        lemma_plain_args_in_order(items.drop_last());
    }
}

proof fn lemma_extract_push(before: Seq<Seq<char>>, arg: Seq<char>)
    ensures
        extract_items(before.push(arg)) == extract_items(before) + arg_items(
            arg,
            before.contains("--"@),
        ),
{
    assert(before.push(arg).drop_last() =~= before);
}

/// The long commands, before any bare `--`: `--help`, `--add`, `--set`,
/// `--list` and `--replace` each name their command, and nothing else.
pub proof fn lemma_long_commands(before: Seq<Seq<char>>)
    requires
        !before.contains("--"@),
    ensures
        extract_items(before.push("--help"@)) == extract_items(before).push(
            Ok(ArgTypeView::Command(Mode::Help)),
        ),
        extract_items(before.push("--add"@)) == extract_items(before).push(
            Ok(ArgTypeView::Command(Mode::Add)),
        ),
        extract_items(before.push("--set"@)) == extract_items(before).push(
            Ok(ArgTypeView::Command(Mode::SetFile)),
        ),
        extract_items(before.push("--list"@)) == extract_items(before).push(
            Ok(ArgTypeView::Command(Mode::List)),
        ),
        extract_items(before.push("--replace"@)) == extract_items(before).push(
            Ok(ArgTypeView::Command(Mode::Load)),
        ),
{
    reveal_strlit("--");
    reveal_strlit("--help");
    reveal_strlit("--add");
    reveal_strlit("--set");
    reveal_strlit("--list");
    reveal_strlit("--replace");
    lemma_extract_push(before, "--help"@);
    lemma_extract_push(before, "--add"@);
    lemma_extract_push(before, "--set"@);
    lemma_extract_push(before, "--list"@);
    lemma_extract_push(before, "--replace"@);
    assert("--"@.len() == 2 && "--help"@.len() == 6 && "--add"@.len() == 5);
    assert("--set"@.len() == 5 && "--list"@.len() == 6 && "--replace"@.len() == 9);
    assert("--add"@[2] != "--set"@[2]);
    assert("--list"@[2] != "--help"@[2]);
}

/// An argument that starts with `--`, is not a bare `--` and names no long
/// command is an unknown command, before any bare `--`.
pub proof fn lemma_unknown_long_command(before: Seq<Seq<char>>, arg: Seq<char>)
    requires
        !before.contains("--"@),
        arg.len() >= 3,
        arg[0] == '-',
        arg[1] == '-',
        arg != "--help"@,
        arg != "--add"@,
        arg != "--set"@,
        arg != "--list"@,
        arg != "--replace"@,
    ensures
        extract_items(before.push(arg)) == extract_items(before).push(
            Err(ExtractArgsErrorView::UnknownCommand(arg)),
        ),
{
    reveal_strlit("--");
    lemma_extract_push(before, arg);
    assert(arg != "--"@);
}

/// An argument that does not start with a dash, or any argument after a bare
/// `--`, is a plain argument.
pub proof fn lemma_plain_argument(before: Seq<Seq<char>>, arg: Seq<char>)
    requires
        arg.len() == 0 || arg[0] != '-' || before.contains("--"@),
    ensures
        extract_items(before.push(arg)) == extract_items(before).push(
            Ok(ArgTypeView::Arg(arg)),
        ),
{
    reveal_strlit("--");
    lemma_extract_push(before, arg);
    if !before.contains("--"@) {
        assert(arg != "--"@);
    }
}

proof fn lemma_short_pair(c: char)
    ensures
        short_items(seq!['-', c]) == match short_item(c) {
            Some(item) => seq![item],
            None => Seq::<ArgItem>::empty(),
        },
{
    let s = seq!['-', c];
    assert(s.drop_last() =~= seq!['-']);
    assert(seq!['-'].drop_last() =~= Seq::<char>::empty());
    assert(seq!['-'].last() == '-');
    assert(short_items(Seq::<char>::empty()) =~= Seq::<ArgItem>::empty());
    assert(short_items(seq!['-']) =~= Seq::<ArgItem>::empty());
}

/// The one-letter commands and options, before any bare `--`: `-h`, `-a`,
/// `-s`, `-l` name the help, add, set and list commands; `-d`, `-L`, `-C`,
/// `-S`, `-V` give the root, link, copy, silent and verbose options; any other
/// letter is an unknown option.
pub proof fn lemma_short_letters(before: Seq<Seq<char>>, c: char)
    requires
        !before.contains("--"@),
    ensures
        c == '-' ==> extract_items(before.push(seq!['-', c])) == extract_items(before),
        c != '-' ==> extract_items(before.push(seq!['-', c])) == extract_items(before).push(
            if c == 'h' {
                Ok(ArgTypeView::Command(Mode::Help))
            } else if c == 'a' {
                Ok(ArgTypeView::Command(Mode::Add))
            } else if c == 's' {
                Ok(ArgTypeView::Command(Mode::SetFile))
            } else if c == 'l' {
                Ok(ArgTypeView::Command(Mode::List))
            } else if c == 'd' {
                Ok(ArgTypeView::Option(AppOptions::CurrentDirAsRoot))
            } else if c == 'L' {
                Ok(ArgTypeView::Option(AppOptions::AsSymLink))
            } else if c == 'C' {
                Ok(ArgTypeView::Option(AppOptions::AsCopy))
            } else if c == 'S' {
                Ok(ArgTypeView::Option(AppOptions::Silent))
            } else if c == 'V' {
                Ok(ArgTypeView::Option(AppOptions::Verbose))
            } else {
                Err(ExtractArgsErrorView::UnknownOption(c))
            },
        ),
{
    reveal_strlit("--");
    lemma_extract_push(before, seq!['-', c]);
    lemma_short_pair(c);
    if c != '-' {
        assert(seq!['-', c] != "--"@) by {
            assert(seq!['-', c][1] != "--"@[1]);
        }
        assert(!starts_with_two_dashes(seq!['-', c]));
    } else {
        assert(seq!['-', c] =~= "--"@);
        assert(extract_items(before) + Seq::<ArgItem>::empty() =~= extract_items(before));
    }
}

/// Every option read before the first unknown piece is in the options of the
/// command line, wherever it stands among commands and plain arguments, and
/// no other option is.
pub proof fn lemma_options_collected(items: Seq<ArgItem>, o: AppOptions)
    ensures
        fold_items(items) matches Ok((_, options, _)) ==> (option_on(options, o) <==> exists|i: int|
            0 <= i < items.len() && items[i] == Ok::<_, ExtractArgsErrorView>(
                ArgTypeView::Option(o),
            )),
    decreases items.len(),
{
    if items.len() == 0 {
        let b = o.spec_bit();
        assert(0u8 & b == 0) by (bit_vector);
    } else {
        let init = items.drop_last();
        lemma_options_collected(init, o);
        if let Ok((_, options, _)) = fold_items(items) {
            if let Ok((_, before, _)) = fold_items(init) {
                let found = exists|i: int|
                    0 <= i < items.len() && items[i] == Ok::<_, ExtractArgsErrorView>(
                        ArgTypeView::Option(o),
                    );
                let found_before = exists|i: int|
                    0 <= i < init.len() && init[i] == Ok::<_, ExtractArgsErrorView>(
                        ArgTypeView::Option(o),
                    );
                if found_before {
                    let i = choose|i: int|
                        0 <= i < init.len() && init[i] == Ok::<_, ExtractArgsErrorView>(
                            ArgTypeView::Option(o),
                        );
                    assert(items[i] == init[i]);
                }
                if found && !found_before {
                    let i = choose|i: int|
                        0 <= i < items.len() && items[i] == Ok::<_, ExtractArgsErrorView>(
                            ArgTypeView::Option(o),
                        );
                    if i < init.len() {
                        assert(init[i] == items[i]);
                    }
                }
                match items.last() {
                    Ok(ArgTypeView::Option(added)) => {
                        lemma_add_option(before, added, o);
                        if added == o {
                            assert(items[items.len() - 1] == items.last());
                        }
                    },
                    _ => {
                        if found {
                            let i = choose|i: int|
                                0 <= i < items.len() && items[i] == Ok::<_, ExtractArgsErrorView>(
                                    ArgTypeView::Option(o),
                                );
                            if i < init.len() {
                                assert(init[i] == items[i]);
                            }
                        }
                    },
                }
            }
        }
    }
}

/// A command line's options are exactly those it gives before its first
/// unknown piece.
pub proof fn lemma_parsed_options(args: Seq<Seq<char>>, o: AppOptions)
    ensures
        parse_command_line(args) matches Ok((_, options)) ==> (option_on(options, o) <==> exists|
            i: int,
        |
            0 <= i < extract_items(args).len() && extract_items(args)[i]
                == Ok::<_, ExtractArgsErrorView>(ArgTypeView::Option(o))),
{
    lemma_options_collected(extract_items(args), o);
}

/// `--help` as the last command of a command line, before any bare `--` and
/// any unknown piece, asks for the help text, with the options given.
pub proof fn lemma_help_command(before: Seq<Seq<char>>)
    requires
        !before.contains("--"@),
        fold_items(extract_items(before)) is Ok,
    ensures
        parse_command_line(before.push("--help"@)) == Ok::<_, AppErrorView>(
            (CommandView::Help, fold_items(extract_items(before))->Ok_0.1),
        ),
{
    lemma_long_commands(before);
    let items = extract_items(before);
    assert(items.push(Ok(ArgTypeView::Command(Mode::Help))).drop_last() =~= items);
}

/// `mmf ALIAS FILE`, with neither starting with a dash, asks to put the
/// alias's file in place of FILE, with no options.
pub proof fn lemma_replace_command_line(alias: Seq<char>, file: Seq<char>)
    requires
        alias.len() == 0 || alias[0] != '-',
        file.len() == 0 || file[0] != '-',
    ensures
        parse_command_line(seq![alias, file]) == Ok::<_, AppErrorView>(
            (CommandView::Load(LoadArgsView { alias, file: Some(file) }), 0u8),
        ),
{
    let empty = Seq::<Seq<char>>::empty();
    assert(extract_items(empty) =~= Seq::<ArgItem>::empty());
    lemma_plain_argument(empty, alias);
    assert(empty.push(alias) =~= seq![alias]);
    lemma_plain_argument(seq![alias], file);
    assert(seq![alias].push(file) =~= seq![alias, file]);
    let one = Seq::<ArgItem>::empty().push(Ok(ArgTypeView::Arg(alias)));
    let two = one.push(Ok(ArgTypeView::Arg(file)));
    assert(extract_items(seq![alias, file]) =~= two);
    assert(one.drop_last() =~= Seq::<ArgItem>::empty());
    assert(two.drop_last() =~= one);
    assert(fold_items(Seq::<ArgItem>::empty()) == Ok::<_, ExtractArgsErrorView>(
        (Mode::NotGiven, 0u8, Seq::<Seq<char>>::empty()),
    ));
    assert(one.last() == Ok::<_, ExtractArgsErrorView>(ArgTypeView::Arg(alias)));
    assert(two.last() == Ok::<_, ExtractArgsErrorView>(ArgTypeView::Arg(file)));
    assert(Seq::<Seq<char>>::empty().push(alias) =~= seq![alias]);
    assert(fold_items(one) == Ok::<_, ExtractArgsErrorView>((Mode::NotGiven, 0u8, seq![alias])));
    assert(fold_items(two) == Ok::<_, ExtractArgsErrorView>(
        (Mode::NotGiven, 0u8, seq![alias].push(file)),
    ));
    assert(seq![alias].push(file) =~= seq![alias, file]);
}

} // verus!
