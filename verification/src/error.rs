//! What can go wrong: reading or writing a stream, reading a line from the
//! terminal, compiling or evaluating an expression, reading or writing JSON.

use vstd::prelude::*;
use vstd::string::*;

verus! {

/// An error of this library. Each kind carries what its cause said of
/// itself.
#[derive(Debug, PartialEq, Eq)]
pub enum Error {
    /// A stream could not be read or written.
    Io(String),
    /// The next line could not be read from the terminal.
    Readline(String),
    /// The evaluator refused an expression, a variable or an evaluation.
    Cel(String),
    /// A JSON text could not be read, or a document not written.
    SerdeJson(String),
}

impl Error {
    /// The label that the message of the error begins with.
    pub open spec fn label(self) -> Seq<char> {
        match self {
            Error::Io(_) => "IO error: "@,
            Error::Readline(_) => "Readline error: "@,
            Error::Cel(_) => "CEL error: "@,
            Error::SerdeJson(_) => "JSON error: "@,
        }
    }

    /// What the cause of the error said of itself.
    pub open spec fn detail(self) -> Seq<char> {
        match self {
            Error::Io(detail) => detail@,
            Error::Readline(detail) => detail@,
            Error::Cel(detail) => detail@,
            Error::SerdeJson(detail) => detail@,
        }
    }

    /// The message of the error: its label, then its detail.
    pub open spec fn message_text(self) -> Seq<char> {
        self.label() + self.detail()
    }

    /// The message of the error: a label that tells its kind, then what its
    /// cause said of itself.
    pub fn message(&self) -> (r: String)
        ensures
            r@ == self.message_text(),
    {
        match self {
            Error::Io(detail) => {
                let mut text = "IO error: ".to_owned();
                text.append(detail.as_str());
                text
            },
            Error::Readline(detail) => {
                let mut text = "Readline error: ".to_owned();
                text.append(detail.as_str());
                text
            },
            Error::Cel(detail) => {
                let mut text = "CEL error: ".to_owned();
                text.append(detail.as_str());
                text
            },
            Error::SerdeJson(detail) => {
                let mut text = "JSON error: ".to_owned();
                text.append(detail.as_str());
                text
            },
        }
    }
}

} // verus!
