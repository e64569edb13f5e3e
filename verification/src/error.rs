//! Classification of the foreign parser's structured error reports.

#![allow(non_camel_case_types)]

use vstd::prelude::*;
use vstd::string::StringExecFns;

use crate::text::{dec_model, usize_text};

verus! {

/// No error was reported.
pub const XML_ERR_NONE: i32 = 0;

/// A simple warning.
pub const XML_ERR_WARNING: i32 = 1;

/// A recoverable error.
pub const XML_ERR_ERROR: i32 = 2;

/// A fatal error.
pub const XML_ERR_FATAL: i32 = 3;

/// The severity of an error. The derived comparison orders the levels from
/// least to most severe, for severity-based filtering by consumers.
#[derive(Clone, Copy, Debug, PartialEq, Eq, PartialOrd, Ord, Structural)]
pub enum ErrorLevel {
    /// A simple warning
    Warning,
    /// A recoverable error
    Error,
    /// A fatal error
    Fatal,
}

impl ErrorLevel {
    /// Maps the numeric severity code carried by a foreign error report to a
    /// severity level. An unrecognized code yields `None`: such a report must
    /// be dropped rather than guessed at.
    pub fn from_constant(value: i32) -> (r: Option<ErrorLevel>)
        ensures
            r == spec_level_of(value),
    {
        match value {
            XML_ERR_WARNING => Some(ErrorLevel::Warning),
            XML_ERR_ERROR => Some(ErrorLevel::Error),
            XML_ERR_FATAL => Some(ErrorLevel::Fatal),
            _ => None,
        }
    }

    /// The name of this severity level, as text.
    pub fn to_text(&self) -> (r: String)
        ensures
            r@ == level_text_model(*self),
    {
        match *self {
            ErrorLevel::Warning => "Warning".to_owned(),
            ErrorLevel::Error => "Error".to_owned(),
            ErrorLevel::Fatal => "Fatal".to_owned(),
        }
    }
}

/// The severity level denoted by a numeric severity code, if any.
pub open spec fn spec_level_of(value: i32) -> Option<ErrorLevel> {
    if value == XML_ERR_WARNING {
        Some(ErrorLevel::Warning)
    } else if value == XML_ERR_ERROR {
        Some(ErrorLevel::Error)
    } else if value == XML_ERR_FATAL {
        Some(ErrorLevel::Fatal)
    } else {
        None
    }
}

/// The name of a severity level.
pub open spec fn level_text_model(level: ErrorLevel) -> Seq<char> {
    match level {
        ErrorLevel::Warning => "Warning"@,
        ErrorLevel::Error => "Error"@,
        ErrorLevel::Fatal => "Fatal"@,
    }
}

/// A structured error record as the foreign parser reports it, copied into
/// owned values: every text field is an owned string and the opaque context
/// handles of the raw record are left behind at the boundary. Line and
/// column are non-negative in every record the foreign parser produces, so
/// they are carried unsigned; a column (`int2`) of 0 means "not applicable".
#[derive(Clone, Debug, PartialEq, Eq)]
pub struct xmlError {
    /// What part of the foreign library raised this error
    pub domain: i32,
    /// The numeric error code
    pub code: i32,
    /// Human-readable informative error message
    pub message: String,
    /// How consequent the error is: a severity code
    pub level: i32,
    /// The file name, empty when none was reported
    pub file: String,
    /// The line number, or 0 if not available
    pub line: usize,
    /// Extra string information
    pub str1: String,
    /// Extra string information
    pub str2: String,
    /// Extra string information
    pub str3: String,
    /// Extra number information
    pub int1: i32,
    /// Column number of the error, or 0 if not applicable
    pub int2: usize,
}

/// An XML parse error: a classified severity with its position and message.
#[derive(Clone, Debug, PartialEq, Eq)]
pub struct ErrorData {
    /// How severe the error is
    pub level: ErrorLevel,
    /// The line the error was reported at, 0 when not available
    pub line: usize,
    /// The column the error was reported at, 0 when not applicable
    pub column: usize,
    /// The diagnostic text, an independently owned copy
    pub message: String,
}

/// The mathematical content of a parse error.
pub ghost struct ErrorModel {
    pub level: ErrorLevel,
    pub line: nat,
    pub column: nat,
    pub message: Seq<char>,
}

impl View for ErrorData {
    type V = ErrorModel;

    open spec fn view(&self) -> ErrorModel {
        ErrorModel {
            level: self.level,
            line: self.line as nat,
            column: self.column as nat,
            message: self.message@,
        }
    }
}

/// The classification of a foreign error record: a typed error when the
/// severity code is recognized, and `None` otherwise. Line and column pass
/// through unchanged; a column of 0 stays 0.
pub open spec fn classified(rec: xmlError) -> Option<ErrorData> {
    match spec_level_of(rec.level) {
        Some(level) => Some(
            ErrorData { level, line: rec.line, column: rec.int2, message: rec.message },
        ),
        None => None,
    }
}

impl ErrorData {
    /// Builds a typed error from a foreign error record. A record whose
    /// severity code is unrecognized yields `None` and must be dropped by the
    /// caller, never guessed into a severity.
    pub fn from_ptr(rec: &xmlError) -> (r: Option<ErrorData>)
        ensures
            r == classified(*rec),
    {
        match ErrorLevel::from_constant(rec.level) {
            Some(level) => Some(
                ErrorData {
                    level,
                    line: rec.line,
                    column: rec.int2,
                    message: rec.message.clone(),
                },
            ),
            None => None,
        }
    }

    /// Renders this error as `line:column level: message`.
    pub fn to_text(&self) -> (r: String)
        ensures
            r@ == error_text_model(self@),
    {
        let mut s = usize_text(self.line);
        s.append(":");
        let column = usize_text(self.column);
        s.append(column.as_str());
        s.append(" ");
        let level = self.level.to_text();
        s.append(level.as_str());
        s.append(": ");
        s.append(self.message.as_str());
        proof {
            assert(s@ =~= error_text_model(self@));
        }
        s
    }
}

/// The text rendering of a parse error: its position, severity and message.
pub open spec fn error_text_model(e: ErrorModel) -> Seq<char> {
    dec_model(e.line) + ":"@ + dec_model(e.column) + " "@ + level_text_model(e.level) + ": "@
        + e.message
}

} // verus!
