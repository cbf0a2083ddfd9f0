//! The error model: tagged error kinds with a message.

use vstd::prelude::*;
use vstd::string::StringExecFns;

verus! {

/// What went wrong: the tag that callers dispatch on.
#[derive(Debug, Clone, Copy, PartialEq, Eq, Structural)]
pub enum ErrorKind {
    IoError,
    AsciiError,
    Utf16Error,
    FromUtf8Error,
    ValidationError,
    SecDescParseError,
    UnknownAceType,
}

/// An error carrying its kind and a human-readable message.
#[derive(Debug)]
pub struct RegError {
    pub message: String,
    pub kind: ErrorKind,
}

impl RegError {
    pub fn utf16_decode_error(err: String) -> (r: Self)
        ensures
            r.kind == ErrorKind::Utf16Error,
            r.message == err,
    {
        RegError { message: err, kind: ErrorKind::Utf16Error }
    }

    pub fn ascii_decode_error(err: String) -> (r: Self)
        ensures
            r.kind == ErrorKind::AsciiError,
            r.message == err,
    {
        RegError { message: err, kind: ErrorKind::AsciiError }
    }

    pub fn validation_error(err: String) -> (r: Self)
        ensures
            r.kind == ErrorKind::ValidationError,
            r.message == err,
    {
        RegError { message: err, kind: ErrorKind::ValidationError }
    }

    pub fn sec_desc_error(err: String) -> (r: Self)
        ensures
            r.kind == ErrorKind::SecDescParseError,
            r.message == err,
    {
        RegError { message: err, kind: ErrorKind::SecDescParseError }
    }

    pub fn unknown_ace_type_error(err: String) -> (r: Self)
        ensures
            r.kind == ErrorKind::UnknownAceType,
            r.message == err,
    {
        RegError { message: err, kind: ErrorKind::UnknownAceType }
    }

    /// A compact rendering: the kind's name followed by the message.
    pub fn describe(&self) -> (r: String)
        ensures
            r@ == self.kind_name()@ + seq![':', ' '] + self.message@,
    {
        let mut out = self.kind_name_owned();
        out.push(':');
        out.push(' ');
        out.append(self.message.as_str());
        out
    }

    /// The kind's name as a sequence of characters.
    pub open spec fn kind_name(&self) -> &'static str {
        match self.kind {
            ErrorKind::IoError => "IoError",
            ErrorKind::AsciiError => "AsciiError",
            ErrorKind::Utf16Error => "Utf16Error",
            ErrorKind::FromUtf8Error => "FromUtf8Error",
            ErrorKind::ValidationError => "ValidationError",
            ErrorKind::SecDescParseError => "SecDescParseError",
            ErrorKind::UnknownAceType => "UnknownAceType",
        }
    }

    fn kind_name_owned(&self) -> (r: String)
        ensures
            r@ == self.kind_name()@,
    {
        match self.kind {
            ErrorKind::IoError => "IoError".to_owned(),
            ErrorKind::AsciiError => "AsciiError".to_owned(),
            ErrorKind::Utf16Error => "Utf16Error".to_owned(),
            ErrorKind::FromUtf8Error => "FromUtf8Error".to_owned(),
            ErrorKind::ValidationError => "ValidationError".to_owned(),
            ErrorKind::SecDescParseError => "SecDescParseError".to_owned(),
            ErrorKind::UnknownAceType => "UnknownAceType".to_owned(),
        }
    }
}

} // verus!
