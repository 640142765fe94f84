//! Argument lists read by position, borrowing their texts.
use vstd::prelude::*;

use crate::result::{AppError, AppErrorView};

verus! {

/// The arguments of an addition: an alias, its file, and a copy's name.
pub struct AddArgs<'a> {
    pub alias: &'a String,
    pub file: &'a String,
    pub new_file: Option<&'a String>,
}

/// The arguments of a replacement: an alias and, if given, the target.
pub struct LoadArgs<'a> {
    pub alias: &'a String,
    pub file: Option<&'a String>,
}

/// The arguments of `--set`: the default file and what else to do.
pub struct SetArgs<'a> {
    pub file: &'a String,
    pub kind: SetKind<'a>,
}

/// Whether `--set` only keeps the default file (`SetOnly`) or also puts
/// an alias's file in its place (`Load`).
pub enum SetKind<'a> {
    SetOnly,
    Load { alias: &'a String },
}

impl<'a> AddArgs<'a> {
    /// Reads an addition from `value`: at least an alias and a file, then an
    /// optional copy's name; anything after it is not read.
    pub fn try_from(value: &'a [String]) -> (args: Result<AddArgs<'a>, AppError>)
        ensures
            value@.len() < 2 ==> (args matches Err(e) && e@ == AppErrorView::NotEnoughArgs(
                "add"@,
                value@.len() as usize,
            )),
            value@.len() >= 2 ==> (args matches Ok(a) && a.alias == value@[0] && a.file == value@[1]
                && a.new_file == if value@.len() > 2 {
                Some(&value@[2])
            } else {
                None
            }),
    {
        if value.len() < 2 {
            return Err(AppError::NotEnoughArgs("add", value.len()));
        }
        let alias = &value[0];
        let file = &value[1];
        let new_file = if value.len() > 2 {
            Some(&value[2])
        } else {
            None
        };
        Ok(AddArgs { alias, file, new_file })
    }
}

impl<'a> LoadArgs<'a> {
    /// Reads a replacement from `value`: an alias, then an optional target.
    pub fn from(value: &'a [String]) -> (args: LoadArgs<'a>)
        requires
            value@.len() >= 1,
        ensures
            args.alias == value@[0],
            args.file == if value@.len() > 1 {
                Some(&value@[1])
            } else {
                None
            },
    {
        let alias = &value[0];
        let file = if value.len() > 1 {
            Some(&value[1])
        } else {
            None
        };
        LoadArgs { alias, file }
    }
}

impl<'a> SetArgs<'a> {
    /// Reads `--set` from `value`: one argument is the default file; with
    /// two, the first is an alias and the second the default file.
    pub fn try_from(value: &'a [String]) -> (args: Result<SetArgs<'a>, AppError>)
        ensures
            value@.len() == 0 ==> (args matches Err(e) && e@ == AppErrorView::NotEnoughArgs(
                "set"@,
                0,
            )),
            value@.len() == 1 ==> (args matches Ok(a) && a.file == value@[0] && a.kind is SetOnly),
            value@.len() >= 2 ==> (args matches Ok(a) && a.file == value@[1] && (a.kind matches SetKind::Load { alias }
                && alias == value@[0])),
    {
        if value.len() == 0 {
            return Err(AppError::NotEnoughArgs("set", value.len()));
        }
        let first_arg = &value[0];
        let result = if value.len() > 1 {
            SetArgs { file: &value[1], kind: SetKind::Load { alias: first_arg } }
        } else {
            SetArgs { file: first_arg, kind: SetKind::SetOnly }
        };
        Ok(result)
    }
}

} // verus!
