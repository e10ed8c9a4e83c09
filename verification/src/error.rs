//! Diagnostics: a severity, a message, an optional originating token, and
//! optional help and caret-note texts.  Only this structure is
//! contractual; pretty rendering with colours and carets is left to the
//! host around the library.

use vstd::prelude::*;
use crate::tokenizer::Token;

verus! {

#[derive(Clone, Copy, PartialEq, Eq, Structural, Debug)]
pub enum ErrorType {
    Error,
    Warning,
    Info,
}

impl ErrorType {
    pub fn to_str(&self) -> (r: &'static str)
        ensures
            *self is Error ==> r@ == "error"@,
            *self is Warning ==> r@ == "warning"@,
            *self is Info ==> r@ == "info"@,
    {
        match self {
            ErrorType::Error => "error",
            ErrorType::Warning => "warning",
            ErrorType::Info => "info",
        }
    }

    /// The terminal escape sequence a renderer would colour this severity
    /// with: red for errors, yellow for warnings, cyan for notes.
    pub fn color(&self) -> (r: &'static str) {
        match self {
            ErrorType::Error => "\x1b[31m",
            ErrorType::Warning => "\x1b[33m",
            ErrorType::Info => "\x1b[36m",
        }
    }
}

#[derive(Debug)]
pub struct GenericError {
    pub token: Option<Token>,
    pub error_type: ErrorType,
    pub message: String,
    pub help: Option<String>,
    pub arrow_note: Option<String>,
}

impl GenericError {
    pub fn error(token: Token, message: String) -> (r: Self)
        ensures
            r.error_type is Error,
            r.token == Some(token),
            r.message == message,
            r.help is None,
            r.arrow_note is None,
    {
        GenericError {
            error_type: ErrorType::Error,
            token: Some(token),
            message,
            help: None,
            arrow_note: None,
        }
    }

    pub fn warning(token: Token, message: String) -> (r: Self)
        ensures
            r.error_type is Warning,
            r.token == Some(token),
            r.message == message,
            r.help is None,
            r.arrow_note is None,
    {
        GenericError {
            error_type: ErrorType::Warning,
            token: Some(token),
            message,
            help: None,
            arrow_note: None,
        }
    }

    pub fn info(token: Token, message: String) -> (r: Self)
        ensures
            r.error_type is Info,
            r.token == Some(token),
            r.message == message,
            r.help is None,
            r.arrow_note is None,
    {
        GenericError {
            error_type: ErrorType::Info,
            token: Some(token),
            message,
            help: None,
            arrow_note: None,
        }
    }

    pub fn tokenless_error(message: String) -> (r: Self)
        ensures
            r.error_type is Error,
            r.token is None,
            r.message == message,
            r.help is None,
            r.arrow_note is None,
    {
        GenericError {
            error_type: ErrorType::Error,
            token: None,
            message,
            help: None,
            arrow_note: None,
        }
    }

    pub fn tokenless_warning(message: String) -> (r: Self)
        ensures
            r.error_type is Warning,
            r.token is None,
            r.message == message,
            r.help is None,
            r.arrow_note is None,
    {
        GenericError {
            error_type: ErrorType::Warning,
            token: None,
            message,
            help: None,
            arrow_note: None,
        }
    }

    pub fn tokenless_info(message: String) -> (r: Self)
        ensures
            r.error_type is Info,
            r.token is None,
            r.message == message,
            r.help is None,
            r.arrow_note is None,
    {
        GenericError {
            error_type: ErrorType::Info,
            token: None,
            message,
            help: None,
            arrow_note: None,
        }
    }

    pub fn tokenable_error(token: Option<Token>, message: String) -> (r: Self)
        ensures
            r.error_type is Error,
            r.token == token,
            r.message == message,
            r.help is None,
            r.arrow_note is None,
    {
        GenericError { error_type: ErrorType::Error, token, message, help: None, arrow_note: None }
    }

    pub fn tokenable_warning(token: Option<Token>, message: String) -> (r: Self)
        ensures
            r.error_type is Warning,
            r.token == token,
            r.message == message,
            r.help is None,
            r.arrow_note is None,
    {
        GenericError {
            error_type: ErrorType::Warning,
            token,
            message,
            help: None,
            arrow_note: None,
        }
    }

    pub fn tokenable_info(token: Option<Token>, message: String) -> (r: Self)
        ensures
            r.error_type is Info,
            r.token == token,
            r.message == message,
            r.help is None,
            r.arrow_note is None,
    {
        GenericError { error_type: ErrorType::Info, token, message, help: None, arrow_note: None }
    }

    /// Attach a help text.
    pub fn help(self, help: String) -> (r: Self)
        ensures
            r.error_type == self.error_type,
            r.token == self.token,
            r.message == self.message,
            r.help == Some(help),
            r.arrow_note == self.arrow_note,
    {
        GenericError { help: Some(help), ..self }
    }

    /// Attach a caret-decoration note.
    pub fn arrow(self, arrow_note: String) -> (r: Self)
        ensures
            r.error_type == self.error_type,
            r.token == self.token,
            r.message == self.message,
            r.help == self.help,
            r.arrow_note == Some(arrow_note),
    {
        GenericError { arrow_note: Some(arrow_note), ..self }
    }
}

} // verus!
