//! The failures this library reports.

use vstd::prelude::*;
use vstd::string::StringExecFns;

verus! {

/// Everything that can go wrong while updating a document or reading the
/// project metadata it needs.
#[derive(Debug)]
pub enum Error {
    /// No manifest file was found. Raised by callers that do the searching.
    CargoTomlNotFound,
    /// An input or output failure, by message. Raised by callers that do
    /// the reading and writing; the library itself performs none.
    Io(String),
    /// The manifest content does not hold the required package fields.
    CargoParse(String),
    /// The repository URL could not be read as a user and repository pair.
    InvalidRepoUrl(String),
    /// A block handler reported a failure: the block name and a message.
    BlockHandler(String, String),
    /// No handler is registered for a discovered block name.
    HandlerNotFound(String),
    /// A handler's own generation failed: the block name and the cause.
    HandlerGenerationFailed(String, String),
}

impl Error {
    /// The human-readable message of this failure.
    pub open spec fn spec_message(&self) -> Seq<char> {
        match self {
            Error::CargoTomlNotFound => "Cargo.toml not found"@,
            Error::Io(m) => "IO error: "@ + m@,
            Error::CargoParse(m) => "Parse Cargo.toml: "@ + m@,
            Error::InvalidRepoUrl(m) => "Invalid repository URL: "@ + m@,
            Error::BlockHandler(n, m) => "Block handler '"@ + n@ + "': "@ + m@,
            Error::HandlerNotFound(n) => "No handler registered for block '"@ + n@ + "'"@,
            Error::HandlerGenerationFailed(n, m) => "Block handler '"@ + n@ + "' failed: "@
                + m@,
        }
    }

    /// Render the message of this failure.
    pub fn message(&self) -> (r: String)
        ensures
            r@ == self.spec_message(),
    {
        match self {
            Error::CargoTomlNotFound => String::from_str("Cargo.toml not found"),
            Error::Io(m) => String::from_str("IO error: ").concat(m.as_str()),
            Error::CargoParse(m) => String::from_str("Parse Cargo.toml: ").concat(m.as_str()),
            Error::InvalidRepoUrl(m) => String::from_str("Invalid repository URL: ").concat(
                m.as_str(),
            ),
            Error::BlockHandler(n, m) => String::from_str("Block handler '").concat(
                n.as_str(),
            ).concat("': ").concat(m.as_str()),
            Error::HandlerNotFound(n) => String::from_str(
                "No handler registered for block '",
            ).concat(n.as_str()).concat("'"),
            Error::HandlerGenerationFailed(n, m) => String::from_str("Block handler '").concat(
                n.as_str(),
            ).concat("' failed: ").concat(m.as_str()),
        }
    }
}

} // verus!
