//! The errors of the integration with a remote task database, and their
//! messages.

use vstd::prelude::*;

verus! {

/// What can go wrong around the remote task database. Where a cause from
/// outside the library stood behind the error, its text is kept.
#[derive(Debug)]
pub enum AppError {
    ConfigDirNotFound,
    IOError(String),
    UserInputError,
    ConfigReadError,
    ConfigParseError,
    JsonError(String),
    InvalidArgument(String),
    UnknownError(String),
    ReqwestError(String),
    MapError(String),
    VecError(String),
}

impl AppError {
    /// The message of the error.
    pub open spec fn message(&self) -> Seq<char> {
        match self {
            AppError::ConfigDirNotFound => "Failed to find configuration directory"@,
            AppError::IOError(m) => m@,
            AppError::UserInputError => "Failed to get user input"@,
            AppError::ConfigReadError => "Failed to read the stored Notion keys"@,
            AppError::ConfigParseError => "Failed to parse the stored Notion keys"@,
            AppError::JsonError(m) => m@,
            AppError::InvalidArgument(m) => "Invalid argument: "@ + m@,
            AppError::UnknownError(m) => "Unknown error: "@ + m@,
            AppError::ReqwestError(m) => m@,
            AppError::MapError(m) => m@,
            AppError::VecError(m) => m@,
        }
    }

    /// The message of the error.
    pub fn to_string(&self) -> (r: String)
        ensures
            r@ == self.message(),
    {
        match self {
            AppError::ConfigDirNotFound => String::from_str(
                "Failed to find configuration directory",
            ),
            AppError::IOError(m) => m.clone(),
            AppError::UserInputError => String::from_str("Failed to get user input"),
            AppError::ConfigReadError => String::from_str("Failed to read the stored Notion keys"),
            AppError::ConfigParseError => String::from_str(
                "Failed to parse the stored Notion keys",
            ),
            AppError::JsonError(m) => m.clone(),
            AppError::InvalidArgument(m) => String::from_str("Invalid argument: ").concat(
                m.as_str(),
            ),
            AppError::UnknownError(m) => String::from_str("Unknown error: ").concat(m.as_str()),
            AppError::ReqwestError(m) => m.clone(),
            AppError::MapError(m) => m.clone(),
            AppError::VecError(m) => m.clone(),
        }
    }
}

/// The line that reports a message to the user.
pub fn handle_error(message: &str) -> (line: String)
    ensures
        line@ == "Error: "@ + message@,
{
    String::from_str("Error: ").concat(message)
}

/// The directory of the task file: the configured one, or the current
/// directory where none is configured.
pub fn get_output_dir(configured: Option<String>) -> (dir: String)
    ensures
        dir@ == match configured {
            Some(d) => d@,
            None => "."@,
        },
{
    match configured {
        Some(d) => d,
        None => String::from_str("."),
    }
}

/// The path of the task file in a directory.
pub fn tasks_path(dir: &str) -> (path: String)
    ensures
        path@ == dir@ + "/tasks.csv"@,
{
    String::from_str(dir).concat("/tasks.csv")
}

} // verus!
