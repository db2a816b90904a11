//! What can end a run early: a file that cannot be read or written, a
//! request that fails, an answer of the catalog that is no page of results,
//! and a record store that cannot answer.

use vstd::prelude::*;
use vstd::string::*;
use crate::database::DatabaseError;
use crate::text::{begins, labelled};

verus! {

#[verifier::external_type_specification]
#[verifier::external_body]
pub struct ExFileError(std::io::Error);

#[verifier::external_type_specification]
#[verifier::external_body]
pub struct ExRequestError(reqwest::Error);

#[verifier::external_type_specification]
#[verifier::external_body]
pub struct ExParseError(serde_json::Error);

/// The text that `std::io::Error` shows for itself.
#[verifier::external_body]
fn file_error_text(e: &std::io::Error) -> (r: String) {
    e.to_string()
}

/// The text that `reqwest::Error` shows for itself.
#[verifier::external_body]
fn request_error_text(e: &reqwest::Error) -> (r: String) {
    e.to_string()
}

/// The text that `serde_json::Error` shows for itself.
#[verifier::external_body]
fn parse_error_text(e: &serde_json::Error) -> (r: String) {
    e.to_string()
}

/// Why a run ended early.
#[derive(Debug)]
pub enum MyError {
    Io(std::io::Error),
    Reqwest(reqwest::Error),
    JsonError(String),
    DatabaseError(String),
}

/// A `MyError` with its texts as plain values.
pub enum MyErrorView {
    Io(std::io::Error),
    Reqwest(reqwest::Error),
    JsonError(Seq<char>),
    DatabaseError(Seq<char>),
}

impl View for MyError {
    type V = MyErrorView;

    open spec fn view(&self) -> MyErrorView {
        match self {
            MyError::Io(e) => MyErrorView::Io(*e),
            MyError::Reqwest(e) => MyErrorView::Reqwest(*e),
            MyError::JsonError(text) => MyErrorView::JsonError(text@),
            MyError::DatabaseError(text) => MyErrorView::DatabaseError(text@),
        }
    }
}

impl MyError {
    /// The error in words: a label for its kind, then the detail.
    pub fn message(&self) -> (r: String)
        ensures
            match self {
                MyError::DatabaseError(detail) => r@ == "Database error: "@ + detail@,
                MyError::Io(_) => begins(r@, "IO error: "@),
                MyError::Reqwest(_) => begins(r@, "Reqwest error: "@),
                MyError::JsonError(detail) => r@ == "JSON error: "@ + detail@,
            },
    {
        match self {
            MyError::DatabaseError(detail) => labelled("Database error: ", detail.as_str()),
            MyError::Io(e) => labelled("IO error: ", file_error_text(e).as_str()),
            MyError::Reqwest(e) => labelled("Reqwest error: ", request_error_text(e).as_str()),
            MyError::JsonError(detail) => labelled("JSON error: ", detail.as_str()),
        }
    }
}

impl From<std::io::Error> for MyError {
    fn from(err: std::io::Error) -> (r: MyError) {
        MyError::Io(err)
    }
}

impl vstd::std_specs::convert::FromSpecImpl<std::io::Error> for MyError {
    open spec fn obeys_from_spec() -> bool {
        true
    }

    open spec fn from_spec(err: std::io::Error) -> MyError {
        MyError::Io(err)
    }
}

impl From<reqwest::Error> for MyError {
    fn from(err: reqwest::Error) -> (r: MyError) {
        MyError::Reqwest(err)
    }
}

impl vstd::std_specs::convert::FromSpecImpl<reqwest::Error> for MyError {
    open spec fn obeys_from_spec() -> bool {
        true
    }

    open spec fn from_spec(err: reqwest::Error) -> MyError {
        MyError::Reqwest(err)
    }
}

impl From<serde_json::Error> for MyError {
    /// The parser's report becomes the detail of a `JsonError`.
    fn from(error: serde_json::Error) -> (r: MyError)
        ensures
            r is JsonError,
    {
        MyError::JsonError(parse_error_text(&error))
    }
}

impl vstd::std_specs::convert::FromSpecImpl<serde_json::Error> for MyError {
    open spec fn obeys_from_spec() -> bool {
        false
    }

    open spec fn from_spec(error: serde_json::Error) -> MyError {
        arbitrary()
    }
}

impl From<DatabaseError> for MyError {
    /// The store's error in words becomes the detail of a `DatabaseError`.
    fn from(err: DatabaseError) -> (r: MyError)
        ensures
            r matches MyError::DatabaseError(detail) && match err {
                DatabaseError::KeyNotExist => detail@ == "Key not existed in database."@,
                DatabaseError::SledError(_) => begins(detail@, "sled error: "@),
                DatabaseError::BinCodeError(_) => begins(detail@, "bincode error: "@),
            },
    {
        MyError::DatabaseError(err.message())
    }
}

impl vstd::std_specs::convert::FromSpecImpl<DatabaseError> for MyError {
    open spec fn obeys_from_spec() -> bool {
        false
    }

    open spec fn from_spec(err: DatabaseError) -> MyError {
        arbitrary()
    }
}

} // verus!
