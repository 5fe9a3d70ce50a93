use vstd::prelude::*;

verus! {

/// The error of an I/O operation on a pd file (std's `io::Error`).
#[verifier::external_type_specification]
#[verifier::external_body]
pub struct ExIoError(std::io::Error);

/// The error of decoding bytes as UTF-8 (std's `string::FromUtf8Error`).
#[verifier::external_type_specification]
#[verifier::external_body]
pub struct ExFromUtf8Error(std::string::FromUtf8Error);

/// Pd file's error
#[derive(Debug)]
pub enum PdFileError {
    IoError(std::io::Error),
    String(String),
    InvalidPdFile,
    Unsupported,
    Utf8Error(std::string::FromUtf8Error),
}

impl PdFileError {
    /// An error that carries a message.
    pub fn from_str(value: &str) -> (r: PdFileError)
        ensures
            r matches PdFileError::String(s) && s@ == value@,
    {
        PdFileError::String(String::from_str(value))
    }
}

impl From<std::io::Error> for PdFileError {
    fn from(e: std::io::Error) -> (r: PdFileError) {
        PdFileError::IoError(e)
    }
}

impl vstd::std_specs::convert::FromSpecImpl<std::io::Error> for PdFileError {
    open spec fn obeys_from_spec() -> bool {
        true
    }

    open spec fn from_spec(e: std::io::Error) -> PdFileError {
        PdFileError::IoError(e)
    }
}

impl From<std::string::FromUtf8Error> for PdFileError {
    fn from(e: std::string::FromUtf8Error) -> (r: PdFileError) {
        PdFileError::Utf8Error(e)
    }
}

impl vstd::std_specs::convert::FromSpecImpl<std::string::FromUtf8Error> for PdFileError {
    open spec fn obeys_from_spec() -> bool {
        true
    }

    open spec fn from_spec(e: std::string::FromUtf8Error) -> PdFileError {
        PdFileError::Utf8Error(e)
    }
}

impl From<String> for PdFileError {
    fn from(e: String) -> (r: PdFileError) {
        PdFileError::String(e)
    }
}

impl vstd::std_specs::convert::FromSpecImpl<String> for PdFileError {
    open spec fn obeys_from_spec() -> bool {
        true
    }

    open spec fn from_spec(e: String) -> PdFileError {
        PdFileError::String(e)
    }
}

} // verus!
