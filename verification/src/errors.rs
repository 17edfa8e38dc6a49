//! The library's error taxonomy.
//!
//! Every variant carries its description as plain text. Errors born outside
//! the library (transport failures, runtime join failures) are handed in as
//! text by the caller that saw them.

use vstd::prelude::*;

verus! {

#[derive(Debug, Clone, PartialEq, Eq)]
pub enum AppError {
    NetworkError(String),
    ParseError(String),
    DateParseError(String),
    ConfigurationError(String),
    IoError(String),
    UnknownFeedType(String),
    AsyncRuntimeError(String),
    XmlError(String),
}

/// The mathematical value of an `AppError`.
pub enum AppErrorV {
    NetworkError(Seq<char>),
    ParseError(Seq<char>),
    DateParseError(Seq<char>),
    ConfigurationError(Seq<char>),
    IoError(Seq<char>),
    UnknownFeedType(Seq<char>),
    AsyncRuntimeError(Seq<char>),
    XmlError(Seq<char>),
}

impl View for AppError {
    type V = AppErrorV;

    open spec fn view(&self) -> AppErrorV {
        match self {
            AppError::NetworkError(m) => AppErrorV::NetworkError(m@),
            AppError::ParseError(m) => AppErrorV::ParseError(m@),
            AppError::DateParseError(m) => AppErrorV::DateParseError(m@),
            AppError::ConfigurationError(m) => AppErrorV::ConfigurationError(m@),
            AppError::IoError(m) => AppErrorV::IoError(m@),
            AppError::UnknownFeedType(m) => AppErrorV::UnknownFeedType(m@),
            AppError::AsyncRuntimeError(m) => AppErrorV::AsyncRuntimeError(m@),
            AppError::XmlError(m) => AppErrorV::XmlError(m@),
        }
    }
}

impl AppErrorV {
    /// The one-line rendering of the error.
    pub open spec fn spec_message_v(self) -> Seq<char> {
        match self {
            AppErrorV::NetworkError(m) => "Network error: "@ + m,
            AppErrorV::ParseError(m) => "Parse error: "@ + m,
            AppErrorV::DateParseError(m) => "Date parse error: "@ + m,
            AppErrorV::ConfigurationError(m) => "Configuration error: "@ + m,
            AppErrorV::IoError(m) => "IO error: "@ + m,
            AppErrorV::UnknownFeedType(m) => "Unknown feed type: "@ + m,
            AppErrorV::AsyncRuntimeError(m) => "Async runtime error: "@ + m,
            AppErrorV::XmlError(m) => "XML error: "@ + m,
        }
    }
}

impl AppError {
    /// The one-line rendering of the error.
    pub open spec fn spec_message(self) -> Seq<char> {
        self.view().spec_message_v()
    }

    pub fn message(&self) -> (r: String)
        ensures
            r@ == self.spec_message(),
    {
        match self {
            AppError::NetworkError(m) => String::from_str("Network error: ").concat(m.as_str()),
            AppError::ParseError(m) => String::from_str("Parse error: ").concat(m.as_str()),
            AppError::DateParseError(m) => String::from_str("Date parse error: ").concat(
                m.as_str(),
            ),
            AppError::ConfigurationError(m) => String::from_str("Configuration error: ").concat(
                m.as_str(),
            ),
            AppError::IoError(m) => String::from_str("IO error: ").concat(m.as_str()),
            AppError::UnknownFeedType(m) => String::from_str("Unknown feed type: ").concat(
                m.as_str(),
            ),
            AppError::AsyncRuntimeError(m) => String::from_str("Async runtime error: ").concat(
                m.as_str(),
            ),
            AppError::XmlError(m) => String::from_str("XML error: ").concat(m.as_str()),
        }
    }
}

} // verus!
