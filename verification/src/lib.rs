//! Release notes from a commit history.
//!
//! The library classifies commit messages against a conventional-style
//! grammar (verb, scoped subjects, breaking mark, issue references),
//! resolves tag ranges against a git repository, groups the classified
//! commits by category and renders a deterministic markdown summary.
//!
//! - [`text`] holds the character classes and scanning primitives;
//! - [`grammar`] reads a summary line into verb, scope group, breaking
//!   mark and rest;
//! - [`refs`] finds and strips issue-reference tokens;
//! - [`commit`] classifies one commit and builds its display line;
//! - [`release`] groups classified commits and renders the markdown;
//! - [`repository`] queries the git backend and resolves tag ranges;
//! - [`remote`] reads owner and project out of a remote URL;
//! - [`args`] reads the tag argument into a tag range;
//! - [`errors`] holds the library's error type.

pub mod args;
pub mod commit;
pub mod errors;
pub mod grammar;
pub mod refs;
pub mod release;
pub mod remote;
pub mod repository;
pub mod text;
