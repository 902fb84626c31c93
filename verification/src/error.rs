//! The two ways in which reading or writing a document can fail.

use vstd::prelude::*;
use vstd::string::StringExecFns;

verus! {

/// Why a typed access into the document failed.
#[derive(Debug, PartialEq, Eq)]
pub enum ParsingError {
    /// No field with this name, or no map entry with this identifier, exists.
    MissingEntry(String),
    /// The entry exists but is not of the named kind.
    FailedCastError(String),
}

/// The mathematical content of a [`ParsingError`].
pub ghost enum ErrorModel {
    MissingEntry(Seq<char>),
    FailedCastError(Seq<char>),
}

impl ErrorModel {
    /// The text shown to a user for this error.
    pub open spec fn message(self) -> Seq<char> {
        match self {
            ErrorModel::MissingEntry(entry) => "Entry "@ + entry + " is missing"@,
            ErrorModel::FailedCastError(to) => "Failed to cast property to "@ + to,
        }
    }
}

impl View for ParsingError {
    type V = ErrorModel;

    open spec fn view(&self) -> ErrorModel {
        match self {
            ParsingError::MissingEntry(entry) => ErrorModel::MissingEntry(entry@),
            ParsingError::FailedCastError(to) => ErrorModel::FailedCastError(to@),
        }
    }
}

impl ParsingError {
    /// The error for an entry that is absent.
    pub fn missing_entry(entry: &str) -> (e: Self)
        ensures
            e@ == ErrorModel::MissingEntry(entry@),
    {
        ParsingError::MissingEntry(entry.to_owned())
    }

    /// The error for an entry that is not of the kind `to`.
    pub fn failed_cast(to: &str) -> (e: Self)
        ensures
            e@ == ErrorModel::FailedCastError(to@),
    {
        ParsingError::FailedCastError(to.to_owned())
    }

    /// The text shown to a user for this error.
    pub fn message(&self) -> (text: String)
        ensures
            text@ == self@.message(),
    {
        match self {
            ParsingError::MissingEntry(entry) => {
                let mut text = String::from_str("Entry ");
                text.append(entry.as_str());
                text.append(" is missing");
                text
            },
            ParsingError::FailedCastError(to) => {
                let mut text = String::from_str("Failed to cast property to ");
                text.append(to.as_str());
                text
            },
        }
    }
}

/// The model of a fallible result.
pub open spec fn result_model<T: View>(r: Result<T, ParsingError>) -> Result<T::V, ErrorModel> {
    match r {
        Ok(value) => Ok(value@),
        Err(e) => Err(e@),
    }
}

} // verus!
