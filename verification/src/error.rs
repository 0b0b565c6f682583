//! The pipeline's error type and the conversions into it.
//!
//! Errors from other libraries are carried by their rendered text: the library
//! keeps what a report needs (the kind of failure, the context and the cause's
//! message) as plain values.

use vstd::prelude::*;
use crate::text::push_str;

verus! {

/// Declares `std::io::Error` so that I/O failures can be carried into [`StageError::io`].
#[verifier::external_type_specification]
#[verifier::external_body]
pub struct ExIoError(std::io::Error);

/// Renders an I/O error with its `Display` implementation (`std::io::Error::to_string`).
///
/// Nothing is stated about the text: it depends on the operating-system error it wraps.
#[verifier::external_body]
fn io_error_text(error: &std::io::Error) -> String {
    error.to_string()
}

/// Renders an error value with its `Display` implementation (`ToString::to_string`).
///
/// Nothing is stated about the text: it is whatever the error type prints.
#[verifier::external_body]
fn error_text<E: std::error::Error>(error: &E) -> String {
    error.to_string()
}

/// Renders a value with its `Debug` implementation (`format!("{:?}")`).
///
/// Nothing is stated about the text: it is whatever the type's `Debug` prints.
#[verifier::external_body]
fn debug_text<E: std::fmt::Debug>(value: &E) -> String {
    format!("{:?}", value)
}

/// Errors that can occur during stage execution.
#[derive(Debug)]
#[non_exhaustive]
pub enum StageError {
    /// Required data is not found in context.
    MissingData(String),
    /// Input data has wrong format or invalid values; `source` is the text of
    /// the error that revealed it, when there was one.
    InvalidData { message: String, source: Option<String> },
    /// A file or network operation failed; `source` is the text of the I/O error.
    Io { context: String, source: String },
    /// The stage should be skipped.
    Skip { reason: String },
    /// An external library failed; `source` is the text of its error.
    External { context: String, source: String },
}

/// A `Result` whose error is a [`StageError`].
pub type StageResult<T> = Result<T, StageError>;

/// The one-line description of an error (what `Display` prints for it).
pub open spec fn display_text(e: StageError) -> Seq<char> {
    match e {
        StageError::MissingData(what) => "missing required data: "@ + what@,
        StageError::InvalidData { message, .. } => "invalid data: "@ + message@,
        StageError::Io { context, .. } => "I/O error: "@ + context@,
        StageError::Skip { reason } => "skipped: "@ + reason@,
        StageError::External { context, .. } => context@,
    }
}

/// The text of the error's cause, when it has one.
pub open spec fn source_text(e: StageError) -> Option<Seq<char>> {
    match e {
        StageError::InvalidData { source, .. } => match source {
            Some(s) => Some(s@),
            None => None,
        },
        StageError::Io { source, .. } => Some(source@),
        StageError::External { source, .. } => Some(source@),
        _ => None,
    }
}

/// The full message: the description followed by `": "` and the cause, when there is one.
pub open spec fn reason_text(e: StageError) -> Seq<char> {
    match source_text(e) {
        Some(s) => display_text(e) + ": "@ + s,
        None => display_text(e),
    }
}

/// Whether `e` is an `InvalidData` error with message `m` and no cause.
pub open spec fn is_invalid_message(e: StageError, m: Seq<char>) -> bool {
    e matches StageError::InvalidData { message, source } && message@ == m && source is None
}

impl StageError {
    /// Creates an error for missing required data.
    pub fn missing(what: &str) -> (e: Self)
        ensures
            e matches StageError::MissingData(w) && w@ == what@,
    {
        StageError::MissingData(what.to_string())
    }

    /// Creates an error for invalid data without a source error.
    pub fn invalid(message: &str) -> (e: Self)
        ensures
            is_invalid_message(e, message@),
    {
        StageError::InvalidData { message: message.to_string(), source: None }
    }

    /// Creates an error for invalid data from a message already held in a `String`.
    pub fn invalid_owned(message: String) -> (e: Self)
        ensures
            is_invalid_message(e, message@),
    {
        StageError::InvalidData { message, source: None }
    }

    /// Creates an error for invalid data with a source error.
    pub fn invalid_with<E: std::error::Error + Send + Sync + 'static>(message: &str, source: E) -> (e: Self)
        ensures
            e matches StageError::InvalidData { message: m, source: s } && m@ == message@ && s is Some,
    {
        let text = error_text(&source);
        StageError::InvalidData { message: message.to_string(), source: Some(text) }
    }

    /// Creates an I/O error with context.
    pub fn io(context: &str, source: std::io::Error) -> (e: Self)
        ensures
            e matches StageError::Io { context: c, .. } && c@ == context@,
    {
        let text = io_error_text(&source);
        StageError::Io { context: context.to_string(), source: text }
    }

    /// Creates a skip error.
    pub fn skip(reason: &str) -> (e: Self)
        ensures
            e matches StageError::Skip { reason: r } && r@ == reason@,
    {
        StageError::Skip { reason: reason.to_string() }
    }

    /// Creates an error for an external library failure.
    pub fn external<E: std::error::Error + Send + Sync + 'static>(context: &str, source: E) -> (e: Self)
        ensures
            e matches StageError::External { context: c, .. } && c@ == context@,
    {
        let text = error_text(&source);
        StageError::External { context: context.to_string(), source: text }
    }

    /// Creates an error for an external library failure whose error is already rendered.
    pub fn external_boxed(context: &str, source: String) -> (e: Self)
        ensures
            e matches StageError::External { context: c, source: s } && c@ == context@ && s@ == source@,
    {
        StageError::External { context: context.to_string(), source }
    }

    /// Returns true if this is a skip error.
    pub fn is_skip(&self) -> (b: bool)
        ensures
            b == (*self is Skip),
    {
        matches!(self, StageError::Skip { .. })
    }

    /// Returns true if this is a missing data error.
    pub fn is_missing(&self) -> (b: bool)
        ensures
            b == (*self is MissingData),
    {
        matches!(self, StageError::MissingData(_))
    }

    /// Returns true if this is an I/O error.
    pub fn is_io(&self) -> (b: bool)
        ensures
            b == (*self is Io),
    {
        matches!(self, StageError::Io { .. })
    }

    /// The one-line description of the error.
    pub fn to_string(&self) -> (s: String)
        ensures
            s@ == display_text(*self),
    {
        match self {
            StageError::MissingData(what) => {
                let mut s = "missing required data: ".to_string();
                push_str(&mut s, what.as_str());
                s
            },
            StageError::InvalidData { message, .. } => {
                let mut s = "invalid data: ".to_string();
                push_str(&mut s, message.as_str());
                s
            },
            StageError::Io { context, .. } => {
                let mut s = "I/O error: ".to_string();
                push_str(&mut s, context.as_str());
                s
            },
            StageError::Skip { reason } => {
                let mut s = "skipped: ".to_string();
                push_str(&mut s, reason.as_str());
                s
            },
            StageError::External { context, .. } => context.clone(),
        }
    }

    /// Returns the full error message including the cause: the description,
    /// `": "` and the cause's text as it was rendered when the error was made.
    pub fn reason(&self) -> (s: String)
        ensures
            s@ == reason_text(*self),
    {
        let mut s = self.to_string();
        match self {
            StageError::InvalidData { source: Some(cause), .. } | StageError::Io { source: cause, .. }
            | StageError::External { source: cause, .. } => {
                push_str(&mut s, ": ");
                push_str(&mut s, cause.as_str());
            },
            _ => {},
        }
        s
    }
}

/// Extension trait for `Result` that turns another library's error into an
/// external [`StageError`] with context.
pub trait ResultExt<T, E> {
    /// Converts an error into an external error with context; a success passes through.
    fn with_context(self, context: &str) -> StageResult<T> where E: std::error::Error + Send + Sync + 'static;
}

impl<T, E> ResultExt<T, E> for Result<T, E> {
    fn with_context(self, context: &str) -> (r: StageResult<T>) where E: std::error::Error + Send + Sync + 'static
        ensures
            match self {
                Ok(v) => r == Ok::<T, StageError>(v),
                Err(_) => r matches Err(StageError::External { context: c, .. }) && c@ == context@,
            },
    {
        match self {
            Ok(v) => Ok(v),
            Err(e) => Err(StageError::external(context, e)),
        }
    }
}

impl From<std::io::Error> for StageError {
    fn from(err: std::io::Error) -> (e: Self)
        ensures
            e matches StageError::Io { context: c, .. } && c@ == "I/O operation failed"@,
    {
        let text = io_error_text(&err);
        StageError::Io { context: "I/O operation failed".to_string(), source: text }
    }
}

impl vstd::std_specs::convert::FromSpecImpl<std::io::Error> for StageError {
    open spec fn obeys_from_spec() -> bool {
        false
    }

    open spec fn from_spec(v: std::io::Error) -> Self {
        arbitrary()
    }
}

/// Extension trait for `Option` to convert to [`StageResult`].
pub trait OptionExt<T> {
    /// Converts `None` into a missing data error.
    fn or_missing(self, what: &str) -> StageResult<T>;
}

impl<T> OptionExt<T> for Option<T> {
    fn or_missing(self, what: &str) -> (r: StageResult<T>)
        ensures
            match self {
                Some(v) => r == Ok::<T, StageError>(v),
                None => r matches Err(StageError::MissingData(w)) && w@ == what@,
            },
    {
        match self {
            Some(v) => Ok(v),
            None => Err(StageError::missing(what)),
        }
    }
}

/// Extension trait for results whose error is reported as invalid data.
pub trait PolarsExt<T> {
    /// Converts an error into `InvalidData` whose message is `msg`, `": "` and the
    /// error's `Debug` text.
    fn or_invalid(self, msg: &str) -> StageResult<T>;
}

impl<T, E: std::fmt::Debug> PolarsExt<T> for Result<T, E> {
    fn or_invalid(self, msg: &str) -> (r: StageResult<T>)
        ensures
            match self {
                Ok(v) => r == Ok::<T, StageError>(v),
                Err(_) => r matches Err(StageError::InvalidData { message: m, source: None })
                    && exists|detail: Seq<char>| m@ == msg@ + ": "@ + detail,
            },
    {
        match self {
            Ok(v) => Ok(v),
            Err(e) => {
                let detail = debug_text(&e);
                let mut m = msg.to_string();
                push_str(&mut m, ": ");
                push_str(&mut m, detail.as_str());
                assert(m@ == msg@ + ": "@ + detail@);
                Err(StageError::invalid_owned(m))
            },
        }
    }
}

} // verus!
