//! The library's error type.
use vstd::prelude::*;

verus! {

/// Everything that can go wrong, each with a message.
#[derive(Debug)]
pub enum SyncroDbError {
    Database(String),
    Connection(String),
    Encryption(String),
    Io(String),
    Serialization(String),
    InvalidIdentifier(String),
    SchemaAnalysis(String),
    Migration(String),
    NotFound(String),
}

/// The model of an error: its variant and message.
pub enum ErrorModel {
    Database(Seq<char>),
    Connection(Seq<char>),
    Encryption(Seq<char>),
    Io(Seq<char>),
    Serialization(Seq<char>),
    InvalidIdentifier(Seq<char>),
    SchemaAnalysis(Seq<char>),
    Migration(Seq<char>),
    NotFound(Seq<char>),
}

impl View for SyncroDbError {
    type V = ErrorModel;

    open spec fn view(&self) -> ErrorModel {
        match self {
            SyncroDbError::Database(m) => ErrorModel::Database(m@),
            SyncroDbError::Connection(m) => ErrorModel::Connection(m@),
            SyncroDbError::Encryption(m) => ErrorModel::Encryption(m@),
            SyncroDbError::Io(m) => ErrorModel::Io(m@),
            SyncroDbError::Serialization(m) => ErrorModel::Serialization(m@),
            SyncroDbError::InvalidIdentifier(m) => ErrorModel::InvalidIdentifier(m@),
            SyncroDbError::SchemaAnalysis(m) => ErrorModel::SchemaAnalysis(m@),
            SyncroDbError::Migration(m) => ErrorModel::Migration(m@),
            SyncroDbError::NotFound(m) => ErrorModel::NotFound(m@),
        }
    }
}

/// The model of a textual result.
pub open spec fn text_result(r: Result<String, SyncroDbError>) -> Result<Seq<char>, ErrorModel> {
    match r {
        Ok(s) => Ok(s@),
        Err(e) => Err(e@),
    }
}

/// The human-readable form of an error.
pub open spec fn error_text(e: ErrorModel) -> Seq<char> {
    match e {
        ErrorModel::Database(m) => "Database error: "@ + m,
        ErrorModel::Connection(m) => "Connection error: "@ + m,
        ErrorModel::Encryption(m) => "Encryption error: "@ + m,
        ErrorModel::Io(m) => "IO error: "@ + m,
        ErrorModel::Serialization(m) => "Serialization error: "@ + m,
        ErrorModel::InvalidIdentifier(m) => "Invalid identifier: "@ + m,
        ErrorModel::SchemaAnalysis(m) => "Schema analysis error: "@ + m,
        ErrorModel::Migration(m) => "Migration error: "@ + m,
        ErrorModel::NotFound(m) => "Not found: "@ + m,
    }
}

impl SyncroDbError {
    /// The message shown to the user, led by the kind of failure.
    pub fn message(&self) -> (r: String)
        ensures
            r@ == error_text(self@),
    {
        let (lead, m) = match self {
            SyncroDbError::Database(m) => ("Database error: ", m),
            SyncroDbError::Connection(m) => ("Connection error: ", m),
            SyncroDbError::Encryption(m) => ("Encryption error: ", m),
            SyncroDbError::Io(m) => ("IO error: ", m),
            SyncroDbError::Serialization(m) => ("Serialization error: ", m),
            SyncroDbError::InvalidIdentifier(m) => ("Invalid identifier: ", m),
            SyncroDbError::SchemaAnalysis(m) => ("Schema analysis error: ", m),
            SyncroDbError::Migration(m) => ("Migration error: ", m),
            SyncroDbError::NotFound(m) => ("Not found: ", m),
        };
        let mut r = String::from_str(lead);
        r.append(m.as_str());
        r
    }
}

} // verus!
