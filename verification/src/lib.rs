//! A keeper of file aliases: it remembers files under short names and puts the
//! content of a remembered file in place of another, by copy or by link.
use vstd::prelude::*;

pub mod actions;
pub mod args;
pub mod binary_data;
pub mod cli;
pub mod data;
pub mod result;

verus! {

/// `std::io::Error`, carried through the library without being looked into.
#[verifier::external_type_specification]
#[verifier::external_body]
pub struct ExIoError(std::io::Error);

/// `std::path::PathBuf`, carried through the library without being looked into.
#[verifier::external_type_specification]
#[verifier::external_body]
pub struct ExPathBuf(std::path::PathBuf);

} // verus!
