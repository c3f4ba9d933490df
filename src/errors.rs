use vstd::prelude::*;
use crate::register::Register;

verus! {

/// What can go wrong while talking to the editor or computing a selection set.
#[derive(Debug)]
pub enum KakError {
    /// A required environment variable was not set
    EnvVarNotSet(String),
    /// An environment variable was not parsable in unicode
    EnvVarUnicode(String),
    /// There was an error parsing a response from kak
    Parse(String),
    /// The bytes could not be read as UTF-8
    Utf8Error(String),
    /// There was an error with a response kak gave
    KakResponse(String),
    /// Reading or writing a channel failed
    Io(String),
    /// Not yet implemented
    NotImplemented(&'static str),
    /// Custom error string
    Custom(String),
    /// Custom static error string
    CustomStatic(&'static str),
    /// The selections/selections_desc list passed was empty
    SetEmptySelections,
    /// The register has no content
    EmptyRegister(Register),
}

pub open spec fn set_empty_text() -> Seq<char> {
    "Attempted to set selections/selections_desc to empty list"@
}

impl KakError {
    /// The detail text of the error.
    pub open spec fn detail_text(self) -> Seq<char> {
        match self {
            KakError::EnvVarNotSet(e) => e@,
            KakError::EnvVarUnicode(e) => e@,
            KakError::Parse(e) => e@,
            KakError::Utf8Error(e) => e@,
            KakError::KakResponse(e) => e@,
            KakError::Io(e) => e@,
            KakError::NotImplemented(e) => e@,
            KakError::Custom(e) => e@,
            KakError::CustomStatic(e) => e@,
            KakError::SetEmptySelections => set_empty_text(),
            KakError::EmptyRegister(r) => "Empty register: "@ + r.escaped_name(),
        }
    }

    /// The one-line summary of the error.
    pub open spec fn summary_text(self) -> Seq<char> {
        "Error: "@ + match self {
            KakError::EnvVarNotSet(_) => "env var not set"@,
            KakError::EnvVarUnicode(_) => "env var not unicode"@,
            KakError::Parse(_) => "Could not parse"@,
            KakError::Utf8Error(_) => "The string is not valid UTF-8"@,
            KakError::KakResponse(_) => "Invalid kak response"@,
            KakError::Io(_) => "IO error"@,
            KakError::NotImplemented(_) => "Not Implemented"@,
            KakError::Custom(s) => s@,
            KakError::CustomStatic(s) => s@,
            KakError::SetEmptySelections => set_empty_text(),
            KakError::EmptyRegister(r) => "Register "@ + r.escaped_name() + " has no content"@,
        }
    }

    pub fn details(&self) -> (r: String)
        ensures
            r@ == self.detail_text(),
    {
        match self {
            KakError::EnvVarNotSet(e) => e.clone(),
            KakError::EnvVarUnicode(e) => e.clone(),
            KakError::Parse(e) => e.clone(),
            KakError::Utf8Error(e) => e.clone(),
            KakError::KakResponse(e) => e.clone(),
            KakError::Io(e) => e.clone(),
            KakError::NotImplemented(e) => String::from_str(e),
            KakError::Custom(e) => e.clone(),
            KakError::CustomStatic(e) => String::from_str(e),
            KakError::SetEmptySelections => {
                proof {
                    reveal_strlit("Attempted to set selections/selections_desc to empty list");
                }
                String::from_str("Attempted to set selections/selections_desc to empty list")
            },
            KakError::EmptyRegister(r) => {
                let mut s = String::from_str("Empty register: ");
                s.append(r.kak_escaped());
                proof {
                    reveal_strlit("Empty register: ");
                }
                s
            },
        }
    }

    /// The one-line summary shown to the user, `Error: ` and what went wrong.
    pub fn to_string(&self) -> (r: String)
        ensures
            r@ == self.summary_text(),
    {
        let mut s = String::from_str("Error: ");
        let tail: String = match self {
            KakError::EnvVarNotSet(_) => String::from_str("env var not set"),
            KakError::EnvVarUnicode(_) => String::from_str("env var not unicode"),
            KakError::Parse(_) => String::from_str("Could not parse"),
            KakError::Utf8Error(_) => String::from_str("The string is not valid UTF-8"),
            KakError::KakResponse(_) => String::from_str("Invalid kak response"),
            KakError::Io(_) => String::from_str("IO error"),
            KakError::NotImplemented(_) => String::from_str("Not Implemented"),
            KakError::Custom(e) => e.clone(),
            KakError::CustomStatic(e) => String::from_str(e),
            KakError::SetEmptySelections => String::from_str(
                "Attempted to set selections/selections_desc to empty list",
            ),
            KakError::EmptyRegister(r) => {
                let mut t = String::from_str("Register ");
                t.append(r.kak_escaped());
                t.append(" has no content");
                t
            },
        };
        s.append(tail.as_str());
        s
    }
}

/// A message for the user, with optional detail for the debug log.
pub struct KakMessage(pub String, pub Option<String>);

} // verus!
