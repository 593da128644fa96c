//! Why an encoding can fail.

use vstd::prelude::*;
use vstd::string::*;
use crate::text::{decimal, push_decimal};

verus! {

pub type Result<T> = std::result::Result<T, Error>;

/// A failure of one encode call. Each is final for that call: nothing is
/// retried, and no partial text counts as a result.
#[derive(Debug, Eq, PartialEq, Ord, PartialOrd, Hash, Clone)]
pub enum Error {
    /// A value could not present itself; the message says why.
    Message(String),
    /// Bytes that should be text are not valid UTF-8.
    InvalidUtf8 {
        /// The length of the longest prefix that is valid.
        valid_up_to: usize,
        /// The length of the invalid sequence behind that prefix, where the
        /// input does not just end too early.
        error_len: Option<usize>,
    },
    /// The output sink refused a write.
    IoError(String),
}

/// The words that describe an error.
pub open spec fn message_text(error: Error) -> Seq<char> {
    match error {
        Error::Message(msg) => msg@,
        Error::InvalidUtf8 { valid_up_to, error_len } => "Invalid UTF-8; valid up to: "@ + decimal(
            valid_up_to as nat,
        ) + ", error length: "@ + (match error_len {
            Some(len) => decimal(len as nat),
            None => "EOF"@,
        }),
        Error::IoError(msg) => msg@,
    }
}

impl Error {
    /// A failure that a value reports of itself.
    pub fn custom(msg: &str) -> (error: Error)
        ensures
            error is Message,
            error->Message_0@ == msg@,
    {
        Error::Message(msg.to_owned())
    }

    /// Describes the error in words.
    pub fn message(&self) -> (text: String)
        ensures
            text@ == message_text(*self),
    {
        match self {
            Error::Message(msg) => msg.clone(),
            Error::InvalidUtf8 { valid_up_to, error_len } => {
                let mut text = "Invalid UTF-8; valid up to: ".to_owned();
                push_decimal(&mut text, *valid_up_to as u128);
                text.append(", error length: ");
                match error_len {
                    Some(len) => {
                        push_decimal(&mut text, *len as u128);
                    },
                    None => {
                        text.append("EOF");
                    },
                }
                text
            },
            Error::IoError(msg) => msg.clone(),
        }
    }
}

} // verus!
