//! The errors of the library.

use vstd::prelude::*;

verus! {

/// Declares the backend error type so values of it can pass through the
/// library's own error; nothing is assumed about what it holds.
#[verifier::external_type_specification]
#[verifier::external_body]
pub struct ExGit2Error(git2::Error);

/// Everything that can go wrong while querying the repository.
#[derive(Debug)]
pub enum GRError {
    /// The repository information cannot be read.
    Repository(git2::Error),
    /// The named reference is not found in the repository.
    TagNotFound(String),
    /// The list of tags cannot be read.
    TagNameList(git2::Error),
    /// Both endpoints of a range point at the same commit.
    TwinTags,
    /// The URL of the repository cannot be read.
    URLError(String),
}

} // verus!
