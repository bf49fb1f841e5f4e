//! The library's error type.

use vstd::prelude::*;

verus! {

#[verifier::external_type_specification]
#[verifier::external_body]
pub struct ExIoError(std::io::Error);

/// Relies on the `Display` impl of `std::io::Error`: its message.
#[verifier::external_body]
fn io_error_text(e: &std::io::Error) -> (r: String) {
    e.to_string()
}

/// What went wrong, with a message for display.
#[derive(Debug)]
pub enum Error {
    Io(std::io::Error),
    Database(String),
    Config(String),
    FileOperation(String),
    Hash(String),
    Compression(String),
    Image(String),
    Video(String),
    Task(String),
    Serialization(String),
    Unknown(String),
}

fn label(prefix: &str, detail: &String) -> (r: String)
    ensures
        r@ == prefix@ + detail@,
{
    let mut r = String::from_str(prefix);
    r.append(detail.as_str());
    r
}

impl Error {
    /// The message shown for this error.
    pub fn message(&self) -> (r: String)
        ensures
            match self {
                Error::Io(_) => exists|detail: Seq<char>| r@ == "IO error: "@ + detail,
                Error::Database(s) => r@ == "Database error: "@ + s@,
                Error::Config(s) => r@ == "Configuration error: "@ + s@,
                Error::FileOperation(s) => r@ == "File operation error: "@ + s@,
                Error::Hash(s) => r@ == "Hash computation error: "@ + s@,
                Error::Compression(s) => r@ == "Compression error: "@ + s@,
                Error::Image(s) => r@ == "Image processing error: "@ + s@,
                Error::Video(s) => r@ == "Video processing error: "@ + s@,
                Error::Task(s) => r@ == "Task execution error: "@ + s@,
                Error::Serialization(s) => r@ == "Serialization error: "@ + s@,
                Error::Unknown(s) => r@ == "Unknown error: "@ + s@,
            },
    {
        match self {
            Error::Io(e) => {
                let detail = io_error_text(e);
                label("IO error: ", &detail)
            },
            Error::Database(s) => label("Database error: ", s),
            Error::Config(s) => label("Configuration error: ", s),
            Error::FileOperation(s) => label("File operation error: ", s),
            Error::Hash(s) => label("Hash computation error: ", s),
            Error::Compression(s) => label("Compression error: ", s),
            Error::Image(s) => label("Image processing error: ", s),
            Error::Video(s) => label("Video processing error: ", s),
            Error::Task(s) => label("Task execution error: ", s),
            Error::Serialization(s) => label("Serialization error: ", s),
            Error::Unknown(s) => label("Unknown error: ", s),
        }
    }
}

impl From<std::io::Error> for Error {
    fn from(e: std::io::Error) -> (r: Error) {
        Error::Io(e)
    }
}

impl vstd::std_specs::convert::FromSpecImpl<std::io::Error> for Error {
    open spec fn obeys_from_spec() -> bool {
        true
    }

    open spec fn from_spec(e: std::io::Error) -> Error {
        Error::Io(e)
    }
}

} // verus!
