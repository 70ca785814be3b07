//! What can go wrong.
use vstd::prelude::*;

verus! {

/// What can go wrong when a query is compiled, run or read back, and when
/// migrations are found.
#[derive(Debug, Clone, PartialEq, Eq)]
pub enum Error {
    /// The engine rejected the statement: the SQL that was sent, and the
    /// engine's message.
    QueryError(String, String),
    /// A row was expected and none came back.
    RecordNotFound,
    /// A query was run before any pool was configured.
    PoolNotConfigured,
    /// A configuration error, with its description.
    Unknown(String),
    /// A file that does not follow the naming of migration files.
    MalformedMigration(String),
    /// Two different migrations claim this version.
    DuplicateMigration(i64),
    /// The versions of the migrations skip this version.
    MissingMigration(i64),
}

/// What an [`Error`] holds, with text as sequences of characters.
pub enum ErrorView {
    QueryError(Seq<char>, Seq<char>),
    RecordNotFound,
    PoolNotConfigured,
    Unknown(Seq<char>),
    MalformedMigration(Seq<char>),
    DuplicateMigration(i64),
    MissingMigration(i64),
}

impl View for Error {
    type V = ErrorView;

    open spec fn view(&self) -> ErrorView {
        match self {
            Error::QueryError(sql, message) => ErrorView::QueryError(sql@, message@),
            Error::RecordNotFound => ErrorView::RecordNotFound,
            Error::PoolNotConfigured => ErrorView::PoolNotConfigured,
            Error::Unknown(what) => ErrorView::Unknown(what@),
            Error::MalformedMigration(file) => ErrorView::MalformedMigration(file@),
            Error::DuplicateMigration(version) => ErrorView::DuplicateMigration(*version),
            Error::MissingMigration(version) => ErrorView::MissingMigration(*version),
        }
    }
}

} // verus!
