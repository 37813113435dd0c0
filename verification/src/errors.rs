//! The library's errors.

use vstd::prelude::*;
use crate::text::{debug_text, quoted};

verus! {

/// What can go wrong in the catalog. Variants that stand for a failure of the
/// system around the library carry its message as text.
#[derive(Debug)]
pub enum AppError {
    /// An operation named an image path that the catalog does not hold.
    PathNotFound(String),
    /// The SQL engine reported an error.
    Sqlite(String),
    /// Reading or writing failed.
    Io(String),
    /// An image could not be decoded.
    ImageLoading(String),
    /// An image's header could not be read.
    ImageMetaLoading(String),
    /// JSON could not be read or written.
    SerdeJson(String),
    /// YAML could not be read or written.
    SerdeYaml(String),
    /// A tag name is empty or holds whitespace.
    InvalidTagFormat(String),
    /// No output format has this name.
    InvalidOutputFormat(String),
    /// A number could not be read.
    InvalidNumberFormat(String),
    /// The tag generator ended with a failure; its error output.
    TagGeneratorFailed(String),
    /// A precondition inside the library was violated.
    Standard(String),
    /// Bytes that are not UTF-8.
    Utf8(String),
    /// A path or an output that is not UTF-8.
    UnknownUtf8,
    /// Another error, with the file it happened on.
    WithPath(Box<AppError>, String),
    /// Nothing to report: leave silently.
    Void,
}

pub type AppResult<T> = Result<T, AppError>;

pub type AppResultU = Result<(), AppError>;

/// Notes on an error the file it happened on. An error that names its file
/// already stays as it is, and so does a success.
pub fn wrap_with_path<U>(path: &str, result: AppResult<U>) -> (wrapped: AppResult<U>)
    ensures
        match result {
            Ok(value) => wrapped == Ok::<U, AppError>(value),
            Err(AppError::WithPath(inner, at)) => wrapped == Err::<U, AppError>(
                AppError::WithPath(inner, at),
            ),
            Err(error) => wrapped matches Err(AppError::WithPath(inner, at)) && *inner == error
                && at@ == path@,
        },
{
    match result {
        Ok(value) => Ok(value),
        Err(AppError::WithPath(inner, at)) => Err(AppError::WithPath(inner, at)),
        Err(error) => Err(AppError::WithPath(Box::new(error), path.to_owned())),
    }
}

/// The words of an error for the user.
pub open spec fn message_spec(error: AppError) -> Seq<char>
    decreases error,
{
    match error {
        AppError::PathNotFound(path) => "Path not found: "@ + path@,
        AppError::Sqlite(detail) => "Database error: "@ + detail@,
        AppError::Io(detail) => "IO error: "@ + detail@,
        AppError::ImageLoading(detail) => detail@,
        AppError::ImageMetaLoading(detail) => detail@,
        AppError::SerdeJson(detail) => "JSON Error: "@ + detail@,
        AppError::SerdeYaml(detail) => "YAML Error: "@ + detail@,
        AppError::InvalidTagFormat(tag) => "Invalid tag format: "@ + tag@,
        AppError::InvalidOutputFormat(name) => "Invalid output format name: "@ + name@,
        AppError::InvalidNumberFormat(_) => "Invalid number format"@,
        AppError::TagGeneratorFailed(output) => "Tag generator failed: "@ + output@,
        AppError::Standard(words) => words@,
        AppError::Utf8(detail) => "UTF-8 error: "@ + detail@,
        AppError::UnknownUtf8 => "UTF-8 error"@,
        AppError::WithPath(inner, path) => message_spec(*inner) + " for "@ + debug_text(path@),
        AppError::Void => Seq::empty(),
    }
}

impl AppError {
    /// The words of the error for the user.
    pub fn to_string(&self) -> (words: String)
        ensures
            words@ == message_spec(*self),
        decreases self,
    {
        let mut words = String::new();
        match self {
            AppError::PathNotFound(path) => {
                words.append("Path not found: ");
                words.append(path.as_str());
            },
            AppError::Sqlite(detail) => {
                words.append("Database error: ");
                words.append(detail.as_str());
            },
            AppError::Io(detail) => {
                words.append("IO error: ");
                words.append(detail.as_str());
            },
            AppError::ImageLoading(detail) => {
                words.append(detail.as_str());
            },
            AppError::ImageMetaLoading(detail) => {
                words.append(detail.as_str());
            },
            AppError::SerdeJson(detail) => {
                words.append("JSON Error: ");
                words.append(detail.as_str());
            },
            AppError::SerdeYaml(detail) => {
                words.append("YAML Error: ");
                words.append(detail.as_str());
            },
            AppError::InvalidTagFormat(tag) => {
                words.append("Invalid tag format: ");
                words.append(tag.as_str());
            },
            AppError::InvalidOutputFormat(name) => {
                words.append("Invalid output format name: ");
                words.append(name.as_str());
            },
            AppError::InvalidNumberFormat(_) => {
                words.append("Invalid number format");
            },
            AppError::TagGeneratorFailed(output) => {
                words.append("Tag generator failed: ");
                words.append(output.as_str());
            },
            AppError::Standard(text) => {
                words.append(text.as_str());
            },
            AppError::Utf8(detail) => {
                words.append("UTF-8 error: ");
                words.append(detail.as_str());
            },
            AppError::UnknownUtf8 => {
                words.append("UTF-8 error");
            },
            AppError::WithPath(inner, path) => {
                let first = inner.to_string();
                words.append(first.as_str());
                words.append(" for ");
                words.append(quoted(path.as_str()).as_str());
            },
            AppError::Void => {},
        }
        assert(words@ =~= message_spec(*self));
        words
    }

    /// Whether the error asks for a silent exit.
    pub fn is_void(&self) -> (void: bool)
        ensures
            void == (*self is Void),
    {
        match self {
            AppError::Void => true,
            _ => false,
        }
    }
}

/// The error for a failure of reading or writing: a broken pipe asks for a
/// silent exit, anything else is an `Io` error with its words.
pub fn from_io(broken_pipe: bool, detail: String) -> (error: AppError)
    ensures
        error == (if broken_pipe {
            AppError::Void
        } else {
            AppError::Io(detail)
        }),
{
    if broken_pipe {
        AppError::Void
    } else {
        AppError::Io(detail)
    }
}

} // verus!
