//! Runtime faults, before they are attached to a source position.  A
//! `RuntimeError` either already carries a finished diagnostic, or is an
//! argument-count or plain-message fault that `finish` turns into a
//! diagnostic once a token is at hand.

use vstd::prelude::*;
use vstd::string::StringExecFns;
use crate::error::GenericError;
use crate::numerics::u64_to_string;
use crate::tokenizer::Token;

verus! {

#[derive(Debug)]
pub enum RuntimeError {
    FinishedError(GenericError),
    ArgumentCountError { expected: usize, got: usize },
    MessageError(String),
}

/// "N argument" or "N arguments".
fn argument_count_text(n: usize) -> (r: String) {
    let mut s = u64_to_string(n as u64);
    if n == 1 {
        s.append(" argument");
    } else {
        s.append(" arguments");
    }
    s
}

impl RuntimeError {
    /// Attach the diagnostic to `token`.  A finished diagnostic passes
    /// through unchanged; the other faults become errors at that token.
    pub fn finish(self, token: Token) -> (r: GenericError)
        ensures
            match self {
                RuntimeError::FinishedError(e) => r == e,
                RuntimeError::MessageError(m) => r.error_type is Error && r.token == Some(token)
                    && r.message == m && r.arrow_note == Some(m),
                RuntimeError::ArgumentCountError { .. } => r.error_type is Error && r.token
                    == Some(token) && r.arrow_note is Some,
            },
    {
        match self {
            RuntimeError::FinishedError(error) => error,
            RuntimeError::ArgumentCountError { expected, got } => {
                let mut msg = String::from_str("expected ");
                msg.append(argument_count_text(expected).as_str());
                msg.append(", got ");
                msg.append(argument_count_text(got).as_str());
                let mut full = String::from_str("function '");
                full.append(token.extract_text());
                full.append("' ");
                full.append(msg.as_str());
                GenericError::error(token, full).arrow(msg)
            },
            RuntimeError::MessageError(msg) => {
                let arrow = msg.clone();
                GenericError::error(token, msg).arrow(arrow)
            },
        }
    }

    /// As `finish`, with no token to point at.
    pub fn finish_no_token(self) -> (r: GenericError)
        ensures
            match self {
                RuntimeError::FinishedError(e) => r == e,
                RuntimeError::MessageError(m) => r.error_type is Error && r.token is None
                    && r.message == m && r.arrow_note == Some(m),
                RuntimeError::ArgumentCountError { .. } => r.error_type is Error && r.token
                    is None && r.arrow_note is Some,
            },
    {
        match self {
            RuntimeError::FinishedError(error) => error,
            RuntimeError::ArgumentCountError { expected, got } => {
                let mut msg = String::from_str("expected ");
                msg.append(argument_count_text(expected).as_str());
                msg.append(", got ");
                msg.append(argument_count_text(got).as_str());
                let arrow = msg.clone();
                GenericError::tokenless_error(msg).arrow(arrow)
            },
            RuntimeError::MessageError(msg) => {
                let arrow = msg.clone();
                GenericError::tokenless_error(msg).arrow(arrow)
            },
        }
    }

    /// Attach to a token when one is known.
    pub fn finish_maybe(self, token: Option<Token>) -> (r: GenericError)
        ensures
            match self {
                RuntimeError::FinishedError(e) => r == e,
                RuntimeError::MessageError(m) => r.error_type is Error && (token is Some
                    ==> r.token == token) && (token is None ==> r.token is None) && r.message
                    == m && r.arrow_note == Some(m),
                RuntimeError::ArgumentCountError { .. } => r.error_type is Error && (token
                    is Some ==> r.token == token) && (token is None ==> r.token is None)
                    && r.arrow_note is Some,
            },
    {
        match token {
            Some(token) => self.finish(token),
            None => self.finish_no_token(),
        }
    }
}

} // verus!
