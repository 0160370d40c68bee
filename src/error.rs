//! The errors that the vault and the command parser report.
use vstd::prelude::*;
use vstd::string::StringExecFns;

verus! {

/// What went wrong, with a short description.
#[derive(Debug)]
pub enum ClipassError {
    /// No entry has this id.
    NotFound(String),
    /// The command line could not be understood.
    InvalidCommand(String),
    /// Reading or writing a file failed, or a file is too short to be a vault.
    Io(String),
    /// An entry with this id exists already.
    IdExists(String),
    /// A value typed by the user could not be read.
    Input(String),
    /// The header is not that of a vault of this format revision.
    HeaderError(String),
    /// Key derivation was refused, or authentication of the sealed entries failed.
    CryptoError(String),
    /// The decrypted entries could not be decoded.
    SerdeError(String),
}

/// The text that describes an error to a user.
pub open spec fn message_of(e: ClipassError) -> Seq<char> {
    match e {
        ClipassError::NotFound(s) => "unfindable entry "@ + s@,
        ClipassError::InvalidCommand(s) => "invalid command: "@ + s@,
        ClipassError::Io(s) => "io error: "@ + s@,
        ClipassError::IdExists(s) => "id exists already: "@ + s@,
        ClipassError::Input(s) => "input error: "@ + s@,
        ClipassError::HeaderError(s) => "header error: "@ + s@,
        ClipassError::CryptoError(s) => "crypto error: "@ + s@,
        ClipassError::SerdeError(s) => "serde error: "@ + s@,
    }
}

fn prefixed(prefix: &str, s: &String) -> (r: String)
    ensures
        r@ == prefix@ + s@,
{
    let mut r = String::from_str(prefix);
    r.append(s.as_str());
    r
}

impl ClipassError {
    /// The text that describes this error to a user.
    pub fn message(&self) -> (r: String)
        ensures
            r@ == message_of(*self),
    {
        match self {
            ClipassError::NotFound(s) => prefixed("unfindable entry ", s),
            ClipassError::InvalidCommand(s) => prefixed("invalid command: ", s),
            ClipassError::Io(s) => prefixed("io error: ", s),
            ClipassError::IdExists(s) => prefixed("id exists already: ", s),
            ClipassError::Input(s) => prefixed("input error: ", s),
            ClipassError::HeaderError(s) => prefixed("header error: ", s),
            ClipassError::CryptoError(s) => prefixed("crypto error: ", s),
            ClipassError::SerdeError(s) => prefixed("serde error: ", s),
        }
    }
}

} // verus!
