//! Verified core of the ContentOS short-form video pipeline: reels, scripts,
//! reusable components, shoot batches, takes, DaVinci hand-off and publishing,
//! stored in SQLite.

use vstd::prelude::*;

pub mod text;
pub mod db;
pub mod ids;
pub mod clock;
pub mod json;
pub mod activity;
pub mod settings;
pub mod pillars;
pub mod ranking;
pub mod components;
pub mod ideas;
pub mod batches;
pub mod reels;
pub mod search;
pub mod davinci;
pub mod roots;
pub mod posts;
pub mod library;
pub mod hash;
pub mod order;
pub mod jobs;
pub mod dashboard;
pub mod backup;

pub use db::Db;

verus! {

/// rusqlite's error type, carried through unchanged.
#[verifier::external_type_specification]
#[verifier::external_body]
pub struct ExSqliteError(rusqlite::Error);

/// std's I/O error type, carried through unchanged.
#[verifier::external_type_specification]
#[verifier::external_body]
pub struct ExIoError(std::io::Error);

/// Errors of the core library.
#[derive(Debug)]
pub enum CoreError {
    /// A database call failed.
    Sqlite(rusqlite::Error),
    /// A file-system call failed.
    Io(std::io::Error),
    /// The request is not acceptable (bad input or an illegal move).
    Invalid(String),
    /// The addressed record does not exist.
    NotFound(String),
}

pub type Result<T> = std::result::Result<T, CoreError>;

/// An `Invalid` error carrying the characters of `msg`.
pub fn invalid(msg: &str) -> (e: CoreError)
    ensures
        e matches CoreError::Invalid(m) && m@ == msg@,
{
    CoreError::Invalid(text::owned(msg))
}

/// A `NotFound` error whose message is `what` followed by `id`.
pub fn not_found(what: &str, id: &str) -> (e: CoreError)
    ensures
        e matches CoreError::NotFound(m) && m@ == what@ + id@,
{
    CoreError::NotFound(text::concat2(what, id))
}

/// An `Invalid` error whose message is `what` followed by `detail`.
pub fn invalid_with(what: &str, detail: &str) -> (e: CoreError)
    ensures
        e matches CoreError::Invalid(m) && m@ == what@ + detail@,
{
    CoreError::Invalid(text::concat2(what, detail))
}

} // verus!
