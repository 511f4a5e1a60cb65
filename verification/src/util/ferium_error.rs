//! The errors of ferium's setup, and the messages they are shown with.
use crate::text::{concat, copy_string, owned};
use vstd::prelude::*;

verus! {

/// What went wrong while reading JSON, as `serde_json` classifies it.
#[derive(Debug, Clone, Copy, PartialEq, Eq, Structural)]
pub enum JsonCategory {
    Syntax,
    Data,
    Eof,
    Io,
}

/// An error of ferium's setup. Errors of outside clients are held as their
/// messages.
#[derive(Debug)]
pub enum FError {
    /// The config file does not contain mods or repos
    EmptyConfigFile,
    /// An HTTP(S) request returned with an error
    ReqwestError(String),
    /// An error encountered in the GitHub client
    OctocrabError(String),
    /// Failure to unwrap an Option, akin to `NullPointerError`s
    OptionError,
    /// Failed to parse a regular expression
    RegexError(String),
    /// A JSON error occured
    JSONError(JsonCategory),
    /// An I/O error occured
    IOError(String),
    /// The program is running on an unsupported device
    InvalidDeviceError,
    FerinthBase62Error,
    /// The application should print `message` and quit (gracefully)
    Quit { message: String },
}

/// The message of a JSON error of the given kind.
pub open spec fn json_message(c: JsonCategory) -> Seq<char> {
    match c {
        JsonCategory::Syntax => "Syntax error encountered in JSON file"@,
        JsonCategory::Data => "Non matching type while deserialising JSON"@,
        JsonCategory::Eof => "Unexpected end of file while reading JSON"@,
        JsonCategory::Io => "Encountered an Input/Output error while handling JSON"@,
    }
}

/// The message an error is shown with.
pub open spec fn ferror_message(e: FError) -> Seq<char> {
    match e {
        FError::EmptyConfigFile => "Your config file is empty! Run `ferium help` to see how to add mods or repositories"@,
        FError::ReqwestError(m) => "Failed to send/process an HTTP(S) request due to "@ + m@,
        FError::OctocrabError(m) => "Error "@ + m@ + " occured while using the GitHub API"@,
        FError::OptionError => "Could not access an expected value"@,
        FError::RegexError(m) => "Failed to parse a regular expression due to "@ + m@,
        FError::JSONError(c) => json_message(c),
        FError::IOError(m) => "Encountered an input/output error, "@ + m@,
        FError::InvalidDeviceError => "The device you are currently running on is unsupported by Ferium"@,
        FError::FerinthBase62Error => "Invalid request parameter"@,
        FError::Quit { message } => message@,
    }
}

impl JsonCategory {
    /// The message of a JSON error of this kind.
    pub fn message(&self) -> (r: String)
        ensures
            r@ == json_message(*self),
    {
        match self {
            JsonCategory::Syntax => owned("Syntax error encountered in JSON file"),
            JsonCategory::Data => owned("Non matching type while deserialising JSON"),
            JsonCategory::Eof => owned("Unexpected end of file while reading JSON"),
            JsonCategory::Io => owned("Encountered an Input/Output error while handling JSON"),
        }
    }
}

impl FError {
    /// The message the error is shown with.
    pub fn message(&self) -> (r: String)
        ensures
            r@ == ferror_message(*self),
    {
        match self {
            FError::EmptyConfigFile => owned(
                "Your config file is empty! Run `ferium help` to see how to add mods or repositories",
            ),
            FError::ReqwestError(m) => concat("Failed to send/process an HTTP(S) request due to ", m.as_str()),
            FError::OctocrabError(m) => {
                let head = concat("Error ", m.as_str());
                concat(head.as_str(), " occured while using the GitHub API")
            },
            FError::OptionError => owned("Could not access an expected value"),
            FError::RegexError(m) => concat("Failed to parse a regular expression due to ", m.as_str()),
            FError::JSONError(c) => c.message(),
            FError::IOError(m) => concat("Encountered an input/output error, ", m.as_str()),
            FError::InvalidDeviceError => owned(
                "The device you are currently running on is unsupported by Ferium",
            ),
            FError::FerinthBase62Error => owned("Invalid request parameter"),
            FError::Quit { message } => copy_string(message),
        }
    }
}

} // verus!
