//! The decisions of a run: what each command changes in the alias data, which
//! file is put in place of which and how, and what the run reports. The
//! caller does what touches the disk and hands the findings back.
use vstd::prelude::*;

use crate::cli::{
    AddArgs, AddArgsView, AppOptions, Command, CommandOptions, CommandView, LoadArgs, LoadArgsView,
    SetFileArgs, load_command, set_command,
};
use crate::data::FileData;
use crate::result::{
    result_view, AppError, AppErrorView, Success, SuccessView, UpdateType, UpdateTypeView,
};

verus! {

/// How a file is put in place of another.
#[derive(Clone, Copy, Debug, PartialEq, Eq, Structural)]
pub enum FileAction {
    /// By a symbolic link to it.
    Link,
    /// By a copy of its content.
    Copy,
}

/// A file to put in place of another.
#[derive(Debug)]
pub struct Transfer {
    pub from: String,
    pub to: String,
    pub action: FileAction,
}

/// The linking default after keeping `options`: `-C` turns it off, else
/// `-L` turns it on, else it stays.
pub open spec fn kept_sym_link(before: bool, options: CommandOptions) -> bool {
    if options.has(AppOptions::AsCopy) {
        false
    } else if options.has(AppOptions::AsSymLink) {
        true
    } else {
        before
    }
}

/// The silence default after keeping `options`: `-V` turns it off, else
/// `-S` turns it on, else it stays.
pub open spec fn kept_silent(before: bool, options: CommandOptions) -> bool {
    if options.has(AppOptions::Verbose) {
        false
    } else if options.has(AppOptions::Silent) {
        true
    } else {
        before
    }
}

/// Keeping the same options twice keeps what keeping them once does, and the
/// defaults that options set do not depend on what was kept before.
pub proof fn lemma_set_flags_idempotent(sym_link: bool, silent: bool, options: CommandOptions)
    ensures
        kept_sym_link(kept_sym_link(sym_link, options), options) == kept_sym_link(sym_link, options),
        kept_silent(kept_silent(silent, options), options) == kept_silent(silent, options),
        (options.has(AppOptions::AsCopy) || options.has(AppOptions::AsSymLink)) ==> kept_sym_link(
            sym_link,
            options,
        ) == kept_sym_link(!sym_link, options),
        (options.has(AppOptions::Verbose) || options.has(AppOptions::Silent)) ==> kept_silent(
            silent,
            options,
        ) == kept_silent(!silent, options),
{
}

/// Keeps the options of `options` as defaults: `-C` turns linking off, else
/// `-L` turns it on; `-V` turns silence off, else `-S` turns it on.
pub fn set_flags(data: &mut FileData, options: &CommandOptions) -> (result: Result<
    Success,
    AppError,
>)
    ensures
        final(data).as_sym_link == kept_sym_link(old(data).as_sym_link, *options),
        final(data).silent == kept_silent(old(data).silent, *options),
        options.has(AppOptions::AsCopy) ==> !final(data).as_sym_link,
        options.has(AppOptions::AsSymLink) && !options.has(AppOptions::AsCopy)
            ==> final(data).as_sym_link,
        !options.has(AppOptions::AsSymLink) && !options.has(AppOptions::AsCopy)
            ==> final(data).as_sym_link == old(data).as_sym_link,
        options.has(AppOptions::Verbose) ==> !final(data).silent,
        options.has(AppOptions::Silent) && !options.has(AppOptions::Verbose) ==> final(data).silent,
        !options.has(AppOptions::Silent) && !options.has(AppOptions::Verbose) ==> final(data).silent
            == old(data).silent,
        final(data).root_dir == old(data).root_dir,
        final(data).data == old(data).data,
        final(data).set_file == old(data).set_file,
        result_view(result) == Ok::<_, AppErrorView>(
            SuccessView::DataUpdated(UpdateTypeView::SetDefaultOptions),
        ),
{
    if options.as_sym_link() && !options.as_copy() {
        data.as_sym_link = true;
    }
    if options.as_copy() {
        data.as_sym_link = false;
    }
    if options.silent() && !options.verbose() {
        data.silent = true;
    }
    if options.verbose() {
        data.silent = false;
    }
    Ok(Success::DataUpdated(UpdateType::SetDefaultOptions))
}

impl AddArgs {
    /// The file that the alias will stand for: the copy's name if one is
    /// given, else the file.
    pub open spec fn spec_added_file(self) -> Seq<char> {
        match self.new_file {
            Some(n) => n@,
            None => self.file@,
        }
    }

    /// The file that the alias will stand for: the copy's name if one is
    /// given, else the file.
    pub fn added_file(&self) -> (file: &String)
        ensures
            file@ == self.spec_added_file(),
    {
        match &self.new_file {
            Some(n) => n,
            None => &self.file,
        }
    }
}

/// What an added alias stands for: the added file's own name (`file_name`)
/// where it has one and the directory it lies in is the root directory
/// (`in_root_dir`); else the added file as given.
pub open spec fn stored_name(added_file: Seq<char>, file_name: Option<Seq<char>>, in_root_dir: bool) -> Seq<
    char,
> {
    match file_name {
        Some(n) => if in_root_dir {
            n
        } else {
            added_file
        },
        None => added_file,
    }
}

/// Adds the alias of `args`. `file_name` is the added file's own name, if it
/// has one, and `in_root_dir` tells whether the directory it lies in is the
/// root directory, as the caller found on disk; the alias stands for the name
/// in `stored_name`. Without a copy's name the addition is done; with one,
/// the file is then to be linked (`-L`) or copied to it, and the alias
/// reported with the copy's name.
pub fn add_file_alias(
    data: &mut FileData,
    args: AddArgs,
    options: &CommandOptions,
    file_name: Option<String>,
    in_root_dir: bool,
) -> (step: (Success, Option<Transfer>))
    ensures
        final(data).data@ == old(data).data@.insert(
            args.alias@,
            stored_name(args.spec_added_file(), file_name.deep_view(), in_root_dir),
        ),
        final(data).root_dir == old(data).root_dir,
        final(data).set_file == old(data).set_file,
        final(data).as_sym_link == old(data).as_sym_link,
        final(data).silent == old(data).silent,
        args.new_file is None ==> step.0@ == SuccessView::DataUpdated(
            UpdateTypeView::Added(
                args.alias@,
                stored_name(args.file@, file_name.deep_view(), in_root_dir),
            ),
        ) && step.1 is None,
        args.new_file matches Some(n) ==> (step.0@ == SuccessView::DataUpdated(
            UpdateTypeView::Added(args.alias@, n@),
        ) && (step.1 matches Some(t) && t.from@ == args.file@ && t.to@ == n@ && t.action == if options.has(
            AppOptions::AsSymLink,
        ) {
            FileAction::Link
        } else {
            FileAction::Copy
        })),
{
    let stored = match file_name {
        Some(n) => if in_root_dir {
            n
        } else {
            args.added_file().clone()
        },
        None => args.added_file().clone(),
    };
    data.data.insert(args.alias.clone(), stored.clone());
    match args.new_file {
        None => (Success::DataUpdated(UpdateType::Added(args.alias, stored)), None),
        Some(new_file) => {
            let action = if options.as_sym_link() {
                FileAction::Link
            } else {
                FileAction::Copy
            };
            let transfer = Transfer { from: args.file, to: new_file.clone(), action };
            (Success::DataUpdated(UpdateType::Added(args.alias, new_file)), Some(transfer))
        },
    }
}

/// Goes on with `file` where it exists; a missing file is an error that names
/// it.
pub fn require_exists(file: String, exists: bool) -> (checked: Result<String, AppError>)
    ensures
        exists ==> (checked matches Ok(f) && f@ == file@),
        !exists ==> (checked matches Err(e) && e@ == AppErrorView::FileNotFound(file@)),
{
    if exists {
        Ok(file)
    } else {
        Err(AppError::FileNotFound(file))
    }
}

/// Keeps `args.file` as the default file, where it exists (`file_exists`, as
/// the caller found on disk).
pub fn set_default_file(data: &mut FileData, args: SetFileArgs, file_exists: bool) -> (result:
    Result<Success, AppError>)
    ensures
        !file_exists ==> result_view(result) == Err::<SuccessView, _>(
            AppErrorView::FileNotFound(args.file@),
        ) && *final(data) == *old(data),
        file_exists ==> result_view(result) == Ok::<_, AppErrorView>(
            SuccessView::DataUpdated(UpdateTypeView::SetDefaultFile(args.file@)),
        ) && final(data).set_file.deep_view() == Some(args.file@),
        final(data).root_dir == old(data).root_dir,
        final(data).data == old(data).data,
        final(data).as_sym_link == old(data).as_sym_link,
        final(data).silent == old(data).silent,
{
    if !file_exists {
        return Err(AppError::FileNotFound(args.file));
    }
    data.set_file = Some(args.file.clone());
    Ok(Success::DataUpdated(UpdateType::SetDefaultFile(args.file)))
}

/// The file that a replacement targets: the one named, else the default file;
/// with neither, the error says that no default file is set.
pub fn load_target(data: &FileData, file: Option<String>) -> (target: Result<String, AppError>)
    ensures
        match file.deep_view() {
            Some(f) => target matches Ok(t) && t@ == f,
            None => match data.set_file.deep_view() {
                Some(s) => target matches Ok(t) && t@ == s,
                None => target matches Err(e) && e@ == AppErrorView::NoFileSet,
            },
        },
{
    match file {
        Some(f) => Ok(f),
        None => match &data.set_file {
            Some(s) => Ok(s.clone()),
            None => Err(AppError::NoFileSet),
        },
    }
}

/// The file that `alias` stands for; an unknown alias is an error that names
/// it.
pub fn lookup_alias(data: &FileData, alias: String) -> (file: Result<String, AppError>)
    ensures
        data.data@.contains_key(alias@) ==> (file matches Ok(f) && f@ == data.data@[alias@]),
        !data.data@.contains_key(alias@) ==> (file matches Err(e) && e@
            == AppErrorView::AliasNotFound(alias@)),
{
    match data.data.get(&alias) {
        Some(f) => Ok(f.clone()),
        None => Err(AppError::AliasNotFound(alias)),
    }
}

/// How a replacement puts the alias's file in place: by a link where linking
/// is the default or `-L` is given, unless `-C` is given; else by a copy.
pub fn load_action(data: &FileData, options: &CommandOptions) -> (action: FileAction)
    ensures
        action == if (data.as_sym_link || options.has(AppOptions::AsSymLink)) && !options.has(
            AppOptions::AsCopy,
        ) {
            FileAction::Link
        } else {
            FileAction::Copy
        },
{
    if (data.as_sym_link || options.as_sym_link()) && !options.as_copy() {
        FileAction::Link
    } else {
        FileAction::Copy
    }
}

/// What a replacement reports: the target's name and the alias's file.
pub fn load_success(action: FileAction, target_name: String, aliased_file: String) -> (success:
    Success)
    ensures
        action == FileAction::Link ==> success@ == SuccessView::FileLinked(
            target_name@,
            aliased_file@,
        ),
        action == FileAction::Copy ==> success@ == SuccessView::FileReplaced(
            target_name@,
            aliased_file@,
        ),
{
    match action {
        FileAction::Link => Success::FileLinked(target_name, aliased_file),
        FileAction::Copy => Success::FileReplaced(target_name, aliased_file),
    }
}

/// The file that `alias` stands for, where the replacement's target exists
/// (`target_exists`, as the caller found on disk): a missing target is
/// reported first, by its name `target_name`; then an unknown alias.
pub fn resolve_alias(data: &FileData, alias: String, target_name: Option<String>, target_exists: bool) -> (file:
    Result<String, AppError>)
    requires
        target_exists || target_name is Some,
    ensures
        !target_exists ==> (file matches Err(e) && e@ == AppErrorView::FileNotFound(
            target_name.deep_view().unwrap(),
        )),
        target_exists && data.data@.contains_key(alias@) ==> (file matches Ok(f) && f@
            == data.data@[alias@]),
        target_exists && !data.data@.contains_key(alias@) ==> (file matches Err(e) && e@
            == AppErrorView::AliasNotFound(alias@)),
{
    if !target_exists {
        match target_name {
            Some(name) => return Err(AppError::FileNotFound(name)),
            None => {},
        }
    }
    lookup_alias(data, alias)
}

/// How a replacement is carried out.
#[derive(Debug)]
pub struct Replacement {
    /// How the alias's file is put in place.
    pub action: FileAction,
    /// Whether a symbolic link at the target is removed first.
    pub clear_target_link: bool,
    /// What the replacement reports.
    pub success: Success,
}

/// Finishes a replacement of the target named `target_name` by the alias's
/// file `aliased_file`. Where the two are the same file (`same_file`, as the
/// caller found), the replacement is refused. Else the file is put in place
/// by `load_action`; a copy first removes a symbolic link at the target
/// (`target_is_symlink`).
pub fn finish_replace(
    data: &FileData,
    options: &CommandOptions,
    target_name: String,
    aliased_file: String,
    same_file: bool,
    target_is_symlink: bool,
) -> (replacement: Result<Replacement, AppError>)
    ensures
        same_file ==> (replacement matches Err(e) && e@ == AppErrorView::InvalidReplace(
            target_name@,
        )),
        !same_file ==> (replacement matches Ok(r) && {
            let link = (data.as_sym_link || options.has(AppOptions::AsSymLink)) && !options.has(
                AppOptions::AsCopy,
            );
            &&& r.action == if link {
                FileAction::Link
            } else {
                FileAction::Copy
            }
            &&& r.clear_target_link == (!link && target_is_symlink)
            &&& r.success@ == if link {
                SuccessView::FileLinked(target_name@, aliased_file@)
            } else {
                SuccessView::FileReplaced(target_name@, aliased_file@)
            }
        }),
{
    if same_file {
        return Err(AppError::InvalidReplace(target_name));
    }
    let action = load_action(data, options);
    let clear_target_link = match action {
        FileAction::Copy => target_is_symlink,
        FileAction::Link => false,
    };
    let success = load_success(action, target_name, aliased_file);
    Ok(Replacement { action, clear_target_link, success })
}

/// Whether a run reports nothing: the data or the options ask for silence and
/// the command is neither `--list` nor `--help`.
pub fn quiet_run(data: &FileData, options: &CommandOptions, command: &Command) -> (quiet: bool)
    ensures
        quiet == (((data.silent && !options.has(AppOptions::Verbose)) || options.has(
            AppOptions::Silent,
        )) && !(command@ is List || command@ is Help)),
{
    data.is_silent(options) && !command.overrides_silent()
}

/// Whether the alias data must be written back after a run that succeeded
/// with `success`: exactly when the data was changed.
pub fn needs_save(success: &Success) -> (save: bool)
    ensures
        save == (success@ is DataUpdated),
{
    match success {
        Success::DataUpdated(_) => true,
        _ => false,
    }
}

/// What a run ends with: a quiet run succeeds silently, whatever happened;
/// any other run ends with its own result.
pub fn run_outcome(quiet: bool, result: Result<Success, AppError>) -> (outcome: Result<
    Success,
    AppError,
>)
    ensures
        quiet ==> result_view(outcome) == Ok::<_, AppErrorView>(SuccessView::Silent),
        !quiet ==> outcome == result,
{
    if quiet {
        return Ok(Success::Silent);
    }
    result
}

/// One step of a run.
#[derive(Debug)]
pub enum Step {
    /// Report how to use the program.
    ShowHelp,
    /// Add an alias.
    Add(AddArgs),
    /// Keep the given options as defaults.
    KeepOptions,
    /// Keep a file as the default file.
    SetDefault(SetFileArgs),
    /// Put an alias's file in place of another.
    Load(LoadArgs),
    /// List the aliases.
    List,
}

pub enum StepView {
    ShowHelp,
    Add(AddArgsView),
    KeepOptions,
    SetDefault(Seq<char>),
    Load(LoadArgsView),
    List,
}

impl View for Step {
    type V = StepView;

    open spec fn view(&self) -> StepView {
        match self {
            Step::ShowHelp => StepView::ShowHelp,
            Step::Add(a) => StepView::Add(a@),
            Step::KeepOptions => StepView::KeepOptions,
            Step::SetDefault(s) => StepView::SetDefault(s@),
            Step::Load(l) => StepView::Load(l@),
            Step::List => StepView::List,
        }
    }
}

/// The steps that carry out a command, in order.
pub open spec fn command_steps(command: CommandView) -> Seq<StepView> {
    match command {
        CommandView::Help => seq![StepView::ShowHelp],
        CommandView::Add(a) => seq![StepView::Add(a)],
        CommandView::SetFile(file, None) => seq![StepView::KeepOptions, StepView::SetDefault(file)],
        CommandView::SetFile(file, Some(l)) => seq![StepView::Load(l), StepView::SetDefault(file)],
        CommandView::SetFlags => seq![StepView::KeepOptions],
        CommandView::Load(l) => seq![StepView::Load(l)],
        CommandView::List => seq![StepView::List],
    }
}

/// The steps that carry out `command`, in order; a run stops at the first
/// step that fails and reports what its last step reports. `--set` with a
/// file also keeps the options as defaults, unless an alias is given: then
/// it first puts the alias's file in place of that file.
pub fn plan(command: Command) -> (steps: Vec<Step>)
    ensures
        steps@.map_values(|s: Step| s@) == command_steps(command@),
{
    let ghost view = command@;
    let steps = match command {
        Command::Help => vec![Step::ShowHelp],
        Command::Add(a) => vec![Step::Add(a)],
        Command::SetFile(s, None) => vec![Step::KeepOptions, Step::SetDefault(s)],
        Command::SetFile(s, Some(l)) => vec![Step::Load(l), Step::SetDefault(s)],
        Command::SetFlags => vec![Step::KeepOptions],
        Command::Load(l) => vec![Step::Load(l)],
        Command::List => vec![Step::List],
    };
    assert(steps@.map_values(|s: Step| s@) =~= command_steps(view));
    steps
}

/// Keeping options changes a default only where an option about it is
/// given: `-C` turns linking off, `-L` without `-C` turns it on, and with
/// neither it stays; `-V` turns silence off, `-S` without `-V` turns it on,
/// and with neither it stays.
pub proof fn lemma_kept_defaults(sym_link: bool, silent: bool, options: CommandOptions)
    ensures
        options.has(AppOptions::AsCopy) ==> !kept_sym_link(sym_link, options),
        options.has(AppOptions::AsSymLink) && !options.has(AppOptions::AsCopy) ==> kept_sym_link(
            sym_link,
            options,
        ),
        !options.has(AppOptions::AsSymLink) && !options.has(AppOptions::AsCopy) ==> kept_sym_link(
            sym_link,
            options,
        ) == sym_link,
        options.has(AppOptions::Verbose) ==> !kept_silent(silent, options),
        options.has(AppOptions::Silent) && !options.has(AppOptions::Verbose) ==> kept_silent(
            silent,
            options,
        ),
        !options.has(AppOptions::Silent) && !options.has(AppOptions::Verbose) ==> kept_silent(
            silent,
            options,
        ) == silent,
{
}

/// Each command is carried out by its own steps, with its own arguments: a
/// replacement keeps the target named on the command line, and `--set` with
/// an alias first replaces the file it keeps as default.
pub proof fn lemma_steps_carry_arguments(
    add: AddArgsView,
    load: LoadArgsView,
    file: Seq<char>,
)
    ensures
        command_steps(CommandView::Help) == seq![StepView::ShowHelp],
        command_steps(CommandView::List) == seq![StepView::List],
        command_steps(CommandView::SetFlags) == seq![StepView::KeepOptions],
        command_steps(CommandView::Add(add)) == seq![StepView::Add(add)],
        command_steps(CommandView::Load(load)) == seq![StepView::Load(load)],
        command_steps(CommandView::SetFile(file, None)) == seq![
            StepView::KeepOptions,
            StepView::SetDefault(file),
        ],
        command_steps(CommandView::SetFile(file, Some(load))) == seq![
            StepView::Load(load),
            StepView::SetDefault(file),
        ],
{
}

/// `mmf ALIAS FILE` replaces FILE: its one step is the replacement of that
/// file by the alias's file.
pub proof fn lemma_replace_named_target(alias: Seq<char>, file: Seq<char>)
    ensures
        load_command(seq![alias, file]) == Ok::<_, AppErrorView>(
            CommandView::Load(LoadArgsView { alias, file: Some(file) }),
        ),
        command_steps(CommandView::Load(LoadArgsView { alias, file: Some(file) })) == seq![
            StepView::Load(LoadArgsView { alias, file: Some(file) }),
        ],
{
}

/// `mmf --set ALIAS FILE` first puts the alias's file in place of FILE, then
/// keeps FILE as the default.
pub proof fn lemma_set_with_alias_targets_file(alias: Seq<char>, file: Seq<char>, no_options: bool)
    ensures
        set_command(seq![alias, file], no_options) == Ok::<_, AppErrorView>(
            CommandView::SetFile(file, Some(LoadArgsView { alias, file: Some(file) })),
        ),
        command_steps(CommandView::SetFile(file, Some(LoadArgsView { alias, file: Some(file) })))
            == seq![
            StepView::Load(LoadArgsView { alias, file: Some(file) }),
            StepView::SetDefault(file),
        ],
{
}

} // verus!
