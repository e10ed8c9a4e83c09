//! The parser's state: the token list, a cursor, the collected
//! diagnostics, and the indentation stack.  A parse fails exactly when an
//! error-severity diagnostic was recorded; `parse_document` returns the
//! parse tree together with the informational diagnostics otherwise.

use vstd::prelude::*;
use vstd::string::StrSliceExecFns;
use vstd::string::StringExecFns;
use crate::error::ErrorType;
use crate::error::GenericError;
use crate::tokenizer::Token;
use crate::tokenizer::TokenData;
use crate::tokenizer::TokenStream;
use crate::tokenizer::token_stream::stream_well_formed;
use crate::parser::parsetree::ParseTreeNode;
use crate::parser::parsetree::is_expression_node;

verus! {

pub struct ParserContext {
    pub errors: Vec<GenericError>,
    pub failed: bool,
    pub tokens: Vec<Token>,
    pub pos: usize,
    pub current_indent: usize,
    pub indentation_stack: Vec<usize>,
}

/// Some diagnostic in the sequence has error severity.
pub open spec fn has_error_diagnostic(es: Seq<GenericError>) -> bool {
    exists|i: int| 0 <= i < es.len() && (#[trigger] es[i]).error_type is Error
}

/// Every tree is a well-formed function definition.
pub open spec fn all_function_trees(ts: Seq<ParseTreeNode>) -> bool {
    forall|i: int| #![trigger ts[i]] 0 <= i < ts.len() ==> ts[i].wf() && ts[i] is Function
}

impl ParserContext {
    /// The cursor stays in range, and `failed` records exactly whether an
    /// error-severity diagnostic has been collected.
    pub open spec fn wf(&self) -> bool {
        &&& self.pos <= self.tokens@.len()
        &&& self.failed <==> has_error_diagnostic(self.errors@)
    }

    /// Drain the token stream and stand ready to parse from its start.
    /// Diagnostics the tokenizer recorded carry over, so an unrecognized
    /// character fails the document like any other error.
    pub fn new(token_stream: TokenStream) -> (r: Self)
        requires
            token_stream.wf(),
            !token_stream.eof_done(),
            token_stream.next_start() == 0,
        ensures
            r.wf(),
            r.pos == 0,
            r.current_indent == 0,
            r.indentation_stack@.len() == 0,
            stream_well_formed(r.tokens@, token_stream.chars()),
            r.errors@.subrange(0, token_stream.errors@.len() as int) == token_stream.errors@,
    {
        let mut token_stream = token_stream;
        let tokens = token_stream.collect_tokens();
        let errors = token_stream.errors;
        let mut failed = false;
        let mut i: usize = 0;
        while i < errors.len()
            invariant
                i <= errors@.len(),
                failed <==> exists|j: int|
                    0 <= j < i && (#[trigger] errors@[j]).error_type is Error,
            decreases errors@.len() - i,
        {
            let is_error = match errors[i].error_type {
                ErrorType::Error => true,
                _ => false,
            };
            if is_error {
                failed = true;
            }
            i = i + 1;
        }
        ParserContext {
            errors,
            failed,
            tokens,
            pos: 0,
            current_indent: 0,
            indentation_stack: Vec::new(),
        }
    }

    /// Record a diagnostic; an error-severity one fails the document.
    pub fn add_error(&mut self, error: GenericError)
        requires
            old(self).wf(),
        ensures
            final(self).wf(),
            final(self).tokens == old(self).tokens,
            final(self).pos == old(self).pos,
            final(self).current_indent == old(self).current_indent,
            final(self).indentation_stack == old(self).indentation_stack,
            final(self).errors@ == old(self).errors@.push(error),
            final(self).failed == (old(self).failed || error.error_type is Error),
    {
        let is_error = match error.error_type {
            ErrorType::Error => true,
            _ => false,
        };
        if is_error {
            self.failed = true;
        }
        let ghost prev = self.errors@;
        self.errors.push(error);
        proof {
            assert forall|i: int|
                0 <= i < self.errors@.len() && (#[trigger] self.errors@[i]).error_type
                    is Error implies self.failed by {
                if i < prev.len() {
                    assert(self.errors@[i] == prev[i]);
                }
            }
            if old(self).failed {
                let i = choose|i: int|
                    0 <= i < prev.len() && (#[trigger] prev[i]).error_type is Error;
                assert(self.errors@[i] == prev[i]);
            }
            if is_error {
                assert(self.errors@[prev.len() as int].error_type is Error);
            }
        }
    }

    /// The token under the cursor, if any.
    pub fn peek(&self) -> (r: Option<&Token>)
        requires
            self.wf(),
        ensures
            match r {
                Some(t) => self.pos < self.tokens@.len() && *t == self.tokens@[self.pos as int],
                None => self.pos == self.tokens@.len(),
            },
    {
        if self.pos < self.tokens.len() {
            Some(&self.tokens[self.pos])
        } else {
            None
        }
    }

    /// Consume the next token; the end-of-file token is an error.
    pub fn expect_token(&mut self) -> (r: Option<Token>)
        requires
            old(self).wf(),
        ensures
            final(self).wf(),
            final(self).tokens == old(self).tokens,
            old(self).pos <= final(self).pos <= final(self).tokens@.len(),
            final(self).pos <= old(self).pos + 1,
            old(self).failed ==> final(self).failed,
            final(self).current_indent == old(self).current_indent,
            final(self).indentation_stack == old(self).indentation_stack,
            old(self).errors@.len() <= final(self).errors@.len(),
            r matches Some(t) ==> final(self).pos == old(self).pos + 1 && t == old(
                self,
            ).tokens@[old(self).pos as int] && !(t.data is EndOfFile),
            old(self).pos < old(self).tokens@.len() && !(old(self).tokens@[old(self).pos
                as int].data is EndOfFile) ==> r == Some(old(self).tokens@[old(self).pos as int]),
            r is None && old(self).pos < old(self).tokens@.len() ==> final(self).errors@.len()
                > old(self).errors@.len(),
            old(self).pos == old(self).tokens@.len() ==> r is None && final(self).errors == old(
                self,
            ).errors && final(self).pos == old(self).pos,
    {
        if self.pos < self.tokens.len() {
            let t = self.tokens[self.pos].duplicate();
            self.pos = self.pos + 1;
            let is_eof = match &t.data {
                TokenData::EndOfFile => true,
                _ => false,
            };
            if is_eof {
                self.add_error(
                    GenericError::error(t, "unexpected end of file while parsing".to_owned()),
                );
                None
            } else {
                Some(t)
            }
        } else {
            None
        }
    }

    /// Consume the next token when the predicate accepts it.
    pub fn consume_if<F: Fn(&Token) -> bool>(&mut self, predicate: F) -> (r: Option<Token>)
        requires
            old(self).wf(),
            forall|t: &Token| #[trigger] predicate.requires((t,)),
        ensures
            final(self).wf(),
            final(self).tokens == old(self).tokens,
            final(self).errors == old(self).errors,
            final(self).failed == old(self).failed,
            final(self).current_indent == old(self).current_indent,
            final(self).indentation_stack == old(self).indentation_stack,
            match r {
                Some(t) => final(self).pos == old(self).pos + 1 && t == old(self).tokens@[old(
                    self,
                ).pos as int] && predicate.ensures((&t,), true),
                None => final(self).pos == old(self).pos && (old(self).pos == old(
                    self,
                ).tokens@.len() || predicate.ensures(
                    (&old(self).tokens@[old(self).pos as int],),
                    false,
                )),
            },
    {
        if self.pos < self.tokens.len() {
            if predicate(&self.tokens[self.pos]) {
                let t = self.tokens[self.pos].duplicate();
                self.pos = self.pos + 1;
                Some(t)
            } else {
                None
            }
        } else {
            None
        }
    }

    /// Consume a numeric literal, if one is next.
    pub fn optional_consume_number(&mut self) -> (r: Option<Token>)
        requires
            old(self).wf(),
        ensures
            final(self).wf(),
            final(self).tokens == old(self).tokens,
            final(self).errors == old(self).errors,
            final(self).failed == old(self).failed,
            final(self).current_indent == old(self).current_indent,
            final(self).indentation_stack == old(self).indentation_stack,
            match r {
                Some(t) => final(self).pos == old(self).pos + 1 && t == old(self).tokens@[old(
                    self,
                ).pos as int] && t.data is NumericLiteral,
                None => final(self).pos == old(self).pos && (old(self).pos == old(
                    self,
                ).tokens@.len() || !(old(self).tokens@[old(self).pos as int].data
                    is NumericLiteral)),
            },
    {
        if self.pos < self.tokens.len() {
            let is_number = match &self.tokens[self.pos].data {
                TokenData::NumericLiteral(_) => true,
                _ => false,
            };
            if is_number {
                let t = self.tokens[self.pos].duplicate();
                self.pos = self.pos + 1;
                return Some(t);
            }
        }
        None
    }

    /// Consume an identifier, if one is next.
    pub fn optional_consume_identifier(&mut self) -> (r: Option<Token>)
        requires
            old(self).wf(),
        ensures
            final(self).wf(),
            final(self).tokens == old(self).tokens,
            final(self).errors == old(self).errors,
            final(self).failed == old(self).failed,
            final(self).current_indent == old(self).current_indent,
            final(self).indentation_stack == old(self).indentation_stack,
            match r {
                Some(t) => final(self).pos == old(self).pos + 1 && t == old(self).tokens@[old(
                    self,
                ).pos as int] && t.data is Identifier,
                None => final(self).pos == old(self).pos && (old(self).pos == old(
                    self,
                ).tokens@.len() || !(old(self).tokens@[old(self).pos as int].data
                    is Identifier)),
            },
    {
        if self.pos < self.tokens.len() {
            let is_ident = match &self.tokens[self.pos].data {
                TokenData::Identifier(_) => true,
                _ => false,
            };
            if is_ident {
                let t = self.tokens[self.pos].duplicate();
                self.pos = self.pos + 1;
                return Some(t);
            }
        }
        None
    }

    /// Consume an identifier or record an error.
    pub fn enforce_consume_identifier(&mut self) -> (r: Option<Token>)
        requires
            old(self).wf(),
        ensures
            final(self).wf(),
            final(self).tokens == old(self).tokens,
            old(self).pos <= final(self).pos <= final(self).tokens@.len(),
            old(self).failed ==> final(self).failed,
            final(self).current_indent == old(self).current_indent,
            final(self).indentation_stack == old(self).indentation_stack,
            r matches Some(t) ==> final(self).pos == old(self).pos + 1 && t.data is Identifier,
            old(self).pos < old(self).tokens@.len() && old(self).tokens@[old(self).pos
                as int].data is Identifier ==> r == Some(old(self).tokens@[old(self).pos as int]),
            r is None ==> final(self).pos == old(self).pos,
            r is None && old(self).pos < old(self).tokens@.len() ==> final(self).errors@.len()
                > old(self).errors@.len(),
    {
        match self.optional_consume_identifier() {
            Some(t) => Some(t),
            None => {
                match self.peek() {
                    Some(token) => {
                        let token = token.duplicate();
                        let mut msg = String::from_str("expected identifier, got '");
                        msg.append(token.extract_text());
                        msg.append("'");
                        self.add_error(
                            GenericError::error(token, msg).arrow(
                                "expected identifier".to_owned(),
                            ),
                        );
                        None
                    },
                    None => None,
                }
            },
        }
    }

    /// Consume the identifier with exactly the given text, if next.
    pub fn optional_consume_identifier_value(&mut self, identifier: &str) -> (r: Option<Token>)
        requires
            old(self).wf(),
        ensures
            final(self).wf(),
            final(self).tokens == old(self).tokens,
            final(self).errors == old(self).errors,
            final(self).failed == old(self).failed,
            final(self).current_indent == old(self).current_indent,
            final(self).indentation_stack == old(self).indentation_stack,
            match r {
                Some(t) => final(self).pos == old(self).pos + 1 && t == old(self).tokens@[old(
                    self,
                ).pos as int] && t.data is Identifier && t.spec_text() == identifier@,
                None => final(self).pos == old(self).pos && (old(self).pos == old(
                    self,
                ).tokens@.len() || !(old(self).tokens@[old(self).pos as int].data is Identifier
                    && old(self).tokens@[old(self).pos as int].spec_text() == identifier@)),
            },
    {
        if self.pos < self.tokens.len() {
            let matches_value = match &self.tokens[self.pos].data {
                TokenData::Identifier(_) => self.tokens[self.pos].text_is(identifier),
                _ => false,
            };
            if matches_value {
                let t = self.tokens[self.pos].duplicate();
                self.pos = self.pos + 1;
                return Some(t);
            }
        }
        None
    }

    /// Consume the required keyword, recording an error when the next
    /// token is anything else.
    pub fn enforce_consume_identifier_value(&mut self, identifier: &str) -> (r: Option<Token>)
        requires
            old(self).wf(),
        ensures
            final(self).wf(),
            final(self).tokens == old(self).tokens,
            old(self).pos <= final(self).pos <= final(self).tokens@.len(),
            old(self).failed ==> final(self).failed,
            final(self).current_indent == old(self).current_indent,
            final(self).indentation_stack == old(self).indentation_stack,
            r matches Some(t) ==> final(self).pos == old(self).pos + 1 && t.data is Identifier
                && t.spec_text() == identifier@,
            old(self).pos < old(self).tokens@.len() && old(self).tokens@[old(self).pos
                as int].data is Identifier && old(self).tokens@[old(self).pos
                as int].spec_text() == identifier@ ==> r == Some(old(self).tokens@[old(self).pos
                as int]),
            r is None ==> final(self).pos == old(self).pos,
            r is None && old(self).pos < old(self).tokens@.len() ==> final(self).errors@.len()
                > old(self).errors@.len(),
    {
        match self.optional_consume_identifier_value(identifier) {
            Some(t) => Some(t),
            None => {
                match self.peek() {
                    Some(token) => {
                        let token = token.duplicate();
                        let mut msg = String::from_str("expected keyword '");
                        msg.append(identifier);
                        msg.append("', got '");
                        msg.append(token.extract_text());
                        msg.append("'");
                        let mut arrow = String::from_str("expected keyword '");
                        arrow.append(identifier);
                        arrow.append("'");
                        self.add_error(GenericError::error(token, msg).arrow(arrow));
                        None
                    },
                    None => None,
                }
            },
        }
    }

    /// Consume the symbol with exactly the given text, if next.
    pub fn optional_consume_symbol(&mut self, symbol: &str) -> (r: Option<Token>)
        requires
            old(self).wf(),
        ensures
            final(self).wf(),
            final(self).tokens == old(self).tokens,
            final(self).errors == old(self).errors,
            final(self).failed == old(self).failed,
            final(self).current_indent == old(self).current_indent,
            final(self).indentation_stack == old(self).indentation_stack,
            match r {
                Some(t) => final(self).pos == old(self).pos + 1 && t == old(self).tokens@[old(
                    self,
                ).pos as int] && t.data is Symbol && t.spec_text() == symbol@,
                None => final(self).pos == old(self).pos && (old(self).pos == old(
                    self,
                ).tokens@.len() || !(old(self).tokens@[old(self).pos as int].data is Symbol
                    && old(self).tokens@[old(self).pos as int].spec_text() == symbol@)),
            },
    {
        if self.pos < self.tokens.len() {
            let matches_value = match &self.tokens[self.pos].data {
                TokenData::Symbol(_) => self.tokens[self.pos].text_is(symbol),
                _ => false,
            };
            if matches_value {
                let t = self.tokens[self.pos].duplicate();
                self.pos = self.pos + 1;
                return Some(t);
            }
        }
        None
    }

    /// Consume the given symbol or record an error.
    pub fn enforce_consume_symbol(&mut self, symbol: &str) -> (r: Option<Token>)
        requires
            old(self).wf(),
        ensures
            final(self).wf(),
            final(self).tokens == old(self).tokens,
            old(self).pos <= final(self).pos <= final(self).tokens@.len(),
            old(self).failed ==> final(self).failed,
            final(self).current_indent == old(self).current_indent,
            final(self).indentation_stack == old(self).indentation_stack,
            r matches Some(t) ==> final(self).pos == old(self).pos + 1 && t.data is Symbol
                && t.spec_text() == symbol@,
            old(self).pos < old(self).tokens@.len() && old(self).tokens@[old(self).pos
                as int].data is Symbol && old(self).tokens@[old(self).pos as int].spec_text()
                == symbol@ ==> r == Some(old(self).tokens@[old(self).pos as int]),
            r is None ==> final(self).pos == old(self).pos,
            r is None && old(self).pos < old(self).tokens@.len() ==> final(self).errors@.len()
                > old(self).errors@.len(),
    {
        match self.optional_consume_symbol(symbol) {
            Some(t) => Some(t),
            None => {
                match self.peek() {
                    Some(token) => {
                        let token = token.duplicate();
                        let mut msg = String::from_str("expected symbol '");
                        msg.append(symbol);
                        msg.append("', got '");
                        msg.append(token.extract_text());
                        msg.append("'");
                        let mut arrow = String::from_str("expected symbol '");
                        arrow.append(symbol);
                        arrow.append("'");
                        self.add_error(GenericError::error(token, msg).arrow(arrow));
                        None
                    },
                    None => None,
                }
            },
        }
    }

    /// Consume an indentation token of exactly the current level.
    pub fn optional_consume_consistent_indentation(&mut self) -> (r: Option<Token>)
        requires
            old(self).wf(),
        ensures
            final(self).wf(),
            final(self).tokens == old(self).tokens,
            final(self).errors == old(self).errors,
            final(self).failed == old(self).failed,
            final(self).current_indent == old(self).current_indent,
            final(self).indentation_stack == old(self).indentation_stack,
            match r {
                Some(t) => final(self).pos == old(self).pos + 1 && t == old(self).tokens@[old(
                    self,
                ).pos as int] && t.data is Indentation && t.spec_text().len() == old(
                    self,
                ).current_indent,
                None => final(self).pos == old(self).pos && (old(self).pos == old(
                    self,
                ).tokens@.len() || !(old(self).tokens@[old(self).pos as int].data is Indentation
                    && old(self).tokens@[old(self).pos as int].spec_text().len() == old(
                    self,
                ).current_indent)),
            },
    {
        if self.pos < self.tokens.len() {
            let matches_value = match &self.tokens[self.pos].data {
                TokenData::Indentation(_) => self.tokens[self.pos].extract_text().unicode_len()
                    == self.current_indent,
                _ => false,
            };
            if matches_value {
                let t = self.tokens[self.pos].duplicate();
                self.pos = self.pos + 1;
                return Some(t);
            }
        }
        None
    }

    /// Require an indentation deeper than the current level; on success
    /// push the old level and adopt the new one.
    pub fn enforce_consume_more_indentation(&mut self) -> (r: Option<Token>)
        requires
            old(self).wf(),
        ensures
            final(self).wf(),
            final(self).tokens == old(self).tokens,
            old(self).pos <= final(self).pos <= final(self).tokens@.len(),
            old(self).failed ==> final(self).failed,
            r matches Some(t) ==> final(self).pos == old(self).pos + 1 && t == old(
                self,
            ).tokens@[old(self).pos as int] && t.data is Indentation && t.spec_text().len()
                == final(self).current_indent && final(self).current_indent > old(
                self,
            ).current_indent && final(self).indentation_stack@ == old(
                self,
            ).indentation_stack@.push(old(self).current_indent),
            old(self).pos < old(self).tokens@.len() && old(self).tokens@[old(self).pos
                as int].data is Indentation && old(self).tokens@[old(self).pos
                as int].spec_text().len() > old(self).current_indent ==> r == Some(old(
                self,
            ).tokens@[old(self).pos as int]),
            r is None ==> final(self).pos <= old(self).pos + 1 && final(self).current_indent
                == old(self).current_indent && final(self).indentation_stack == old(
                self,
            ).indentation_stack,
            r is None && old(self).pos < old(self).tokens@.len() ==> final(self).errors@.len()
                > old(self).errors@.len(),
    {
        let mut deeper: Option<Token> = None;
        if self.pos < self.tokens.len() {
            let deeper_level = match &self.tokens[self.pos].data {
                TokenData::Indentation(_) => {
                    let level = self.tokens[self.pos].extract_text().unicode_len();
                    if level > self.current_indent {
                        Some(level)
                    } else {
                        None
                    }
                },
                _ => None,
            };
            if let Some(level) = deeper_level {
                let t = self.tokens[self.pos].duplicate();
                self.pos = self.pos + 1;
                self.indentation_stack.push(self.current_indent);
                self.current_indent = level;
                return Some(t);
            }
        }
        match self.expect_token() {
            Some(token) => {
                self.add_error(
                    GenericError::error(token, "expected indented block".to_owned()).help(
                        "make sure blocks are denoted with further levels of indentation"
                            .to_owned(),
                    ),
                );
            },
            None => {},
        }
        None
    }

    /// Accept an indentation of the current level; a deeper one is an
    /// error, anything else ends the block.
    pub fn enforce_indent_or_less(&mut self) -> (r: Option<Token>)
        requires
            old(self).wf(),
        ensures
            final(self).wf(),
            final(self).tokens == old(self).tokens,
            old(self).pos <= final(self).pos <= final(self).tokens@.len(),
            old(self).failed ==> final(self).failed,
            final(self).current_indent == old(self).current_indent,
            final(self).indentation_stack == old(self).indentation_stack,
            r matches Some(t) ==> final(self).pos == old(self).pos + 1 && t == old(
                self,
            ).tokens@[old(self).pos as int] && t.data is Indentation && t.spec_text().len()
                == old(self).current_indent,
            old(self).pos < old(self).tokens@.len() && old(self).tokens@[old(self).pos
                as int].data is Indentation && old(self).tokens@[old(self).pos
                as int].spec_text().len() == old(self).current_indent ==> r == Some(old(
                self,
            ).tokens@[old(self).pos as int]),
            r is None && old(self).pos < old(self).tokens@.len() && old(self).tokens@[old(
                self,
            ).pos as int].data is Indentation && old(self).tokens@[old(self).pos
                as int].spec_text().len() > old(self).current_indent ==> final(self).pos == old(
                self,
            ).pos + 1 && final(self).errors@.len() > old(self).errors@.len(),
            r is None && !(old(self).pos < old(self).tokens@.len() && old(self).tokens@[old(
                self,
            ).pos as int].data is Indentation && old(self).tokens@[old(self).pos
                as int].spec_text().len() > old(self).current_indent) ==> final(self).pos == old(
                self,
            ).pos,
    {
        match self.optional_consume_consistent_indentation() {
            Some(t) => Some(t),
            None => {
                if self.pos < self.tokens.len() {
                    let deeper = match &self.tokens[self.pos].data {
                        TokenData::Indentation(_) => self.tokens[self.pos].extract_text()
                            .unicode_len() > self.current_indent,
                        _ => false,
                    };
                    if deeper {
                        let t = self.tokens[self.pos].duplicate();
                        self.pos = self.pos + 1;
                        self.add_error(
                            GenericError::error(t, "unexpected indentation level".to_owned()),
                        );
                        return None;
                    }
                }
                None
            },
        }
    }

    /// Mark a token with an informational diagnostic.
    pub fn label_token(&mut self, token: Option<Token>) -> (r: Option<Token>)
        requires
            old(self).wf(),
        ensures
            final(self).wf(),
            final(self).tokens == old(self).tokens,
            final(self).pos == old(self).pos,
            old(self).failed ==> final(self).failed,
    {
        match token {
            Some(t) => {
                let copy = t.duplicate();
                self.add_error(GenericError::info(t, "labeled token".to_owned()));
                Some(copy)
            },
            None => None,
        }
    }
}


impl ParserContext {
    /// One statement: `return`, `while`, `for`, or an expression.  The
    /// `if` form is handled by `parse_block`, which owns the chain.
    pub fn parse_statement(&mut self) -> (r: Option<ParseTreeNode>)
        requires
            old(self).wf(),
        ensures
            final(self).wf(),
            final(self).tokens == old(self).tokens,
            old(self).pos <= final(self).pos <= final(self).tokens@.len(),
            old(self).failed ==> final(self).failed,
            r is Some ==> final(self).current_indent == old(self).current_indent
                && final(self).indentation_stack@ == old(self).indentation_stack@,
            r matches Some(t) ==> t.wf() && final(self).pos > old(self).pos && (t
                is ReturnStatement || t is WhileLoop || t is ForLoop || is_expression_node(t)),
        decreases self.tokens@.len() - self.pos, 12int,
    {
        let kind: u8 = match self.peek() {
            Some(t) => {
                if t.text_is("return") {
                    1
                } else if t.text_is("while") {
                    2
                } else if t.text_is("for") {
                    3
                } else {
                    0
                }
            },
            None => { return None; },
        };
        if kind == 1 {
            let token = match self.expect_token() {
                Some(t) => t,
                None => { return None; },
            };
            let expression = match self.parse_expression() {
                Some(e) => Some(Box::new(e)),
                None => { return None; },
            };
            Some(ParseTreeNode::ReturnStatement { token, expression })
        } else if kind == 2 {
            let token = match self.expect_token() {
                Some(t) => t,
                None => { return None; },
            };
            let condition = match self.parse_expression() {
                Some(e) => Box::new(e),
                None => { return None; },
            };
            let block = match self.parse_block() {
                Some(b) => Box::new(b),
                None => { return None; },
            };
            Some(ParseTreeNode::WhileLoop { token, condition, block })
        } else if kind == 3 {
            let token = match self.expect_token() {
                Some(t) => t,
                None => { return None; },
            };
            let loop_variable = match self.enforce_consume_identifier() {
                Some(t) => t,
                None => { return None; },
            };
            self.enforce_consume_symbol("=");
            let bound0 = match self.parse_expression() {
                Some(e) => Box::new(e),
                None => { return None; },
            };
            let reverse = self.optional_consume_identifier_value("down").is_some();
            match self.enforce_consume_identifier_value("to") {
                Some(_) => {},
                None => { return None; },
            }
            let bound1 = match self.parse_expression() {
                Some(e) => Box::new(e),
                None => { return None; },
            };
            let block = match self.parse_block() {
                Some(b) => Box::new(b),
                None => { return None; },
            };
            Some(ParseTreeNode::ForLoop { token, loop_variable, bound0, bound1, reverse, block })
        } else {
            self.parse_expression()
        }
    }

    /// A block: a strictly deeper indentation, then statements at that
    /// level until a shallower line ends it.  `if`/`elseif`/`else`
    /// chains are stitched here, since their members stand at the same
    /// indentation as the `if`.
    pub fn parse_block(&mut self) -> (r: Option<ParseTreeNode>)
        requires
            old(self).wf(),
        ensures
            final(self).wf(),
            final(self).tokens == old(self).tokens,
            old(self).pos <= final(self).pos <= final(self).tokens@.len(),
            old(self).failed ==> final(self).failed,
            r is Some ==> final(self).current_indent == old(self).current_indent
                && final(self).indentation_stack@ == old(self).indentation_stack@,
            r matches Some(t) ==> t.wf() && (t is Block) && final(self).pos > old(self).pos,
            r is Some ==> old(self).pos < old(self).tokens@.len() && old(self).tokens@[old(
                self,
            ).pos as int].data is Indentation && old(self).tokens@[old(self).pos
                as int].spec_text().len() > old(self).current_indent,
        decreases self.tokens@.len() - self.pos, 11int,
    {
        match self.enforce_consume_more_indentation() {
            Some(_) => {},
            None => { return None; },
        }
        let mut statements: Vec<ParseTreeNode> = Vec::new();
        loop
            invariant
                self.wf(),
                self.tokens == old(self).tokens,
                old(self).pos < self.pos <= self.tokens@.len(),
                old(self).pos < old(self).tokens@.len(),
                old(self).tokens@[old(self).pos as int].data is Indentation,
                old(self).tokens@[old(self).pos as int].spec_text().len() > old(
                    self,
                ).current_indent,
                old(self).failed ==> self.failed,
                self.indentation_stack@ == old(self).indentation_stack@.push(
                    old(self).current_indent,
                ),
                forall|i: int|
                    #![trigger statements@[i]]
                    0 <= i < statements@.len() ==> statements@[i].wf(),
            decreases self.tokens@.len() - self.pos,
        {
            let ghost iter_pos = self.pos as int;
            let is_if = match self.peek() {
                Some(t) => t.text_is("if"),
                None => { return None; },
            };
            if is_if {
                let token = match self.expect_token() {
                    Some(t) => t,
                    None => { return None; },
                };
                let condition = match self.parse_expression() {
                    Some(e) => e,
                    None => { return None; },
                };
                let block = match self.parse_block() {
                    Some(b) => b,
                    None => { return None; },
                };
                let mut else_ifs: Vec<(crate::tokenizer::Token, ParseTreeNode, ParseTreeNode)> =
                    Vec::new();
                else_ifs.push((token, condition, block));
                // The chain: `elseif` and `else` members stand at the
                // same indentation as the `if` itself.
                loop
                    invariant
                        self.wf(),
                        self.tokens == old(self).tokens,
                        old(self).pos < self.pos <= self.tokens@.len(),
                        iter_pos < self.pos,
                        old(self).failed ==> self.failed,
                        old(self).pos < old(self).tokens@.len(),
                        old(self).tokens@[old(self).pos as int].data is Indentation,
                        old(self).tokens@[old(self).pos as int].spec_text().len() > old(
                            self,
                        ).current_indent,
                        self.indentation_stack@ == old(self).indentation_stack@.push(
                            old(self).current_indent,
                        ),
                        else_ifs@.len() >= 1,
                        forall|i: int|
                            #![trigger else_ifs@[i]]
                            0 <= i < else_ifs@.len() ==> else_ifs@[i].1.wf() && else_ifs@[i].2.wf(),
                        forall|i: int|
                            #![trigger statements@[i]]
                            0 <= i < statements@.len() ==> statements@[i].wf(),
                    decreases self.tokens@.len() - self.pos,
                {
                    if self.enforce_indent_or_less().is_none() {
                        proof {
                            assert(self.indentation_stack@.last() == old(self).current_indent);
                        }
                        self.current_indent = match self.indentation_stack.pop() {
                            Some(v) => v,
                            None => 0,
                        };
                        proof {
                            assert(self.indentation_stack@ =~= old(self).indentation_stack@);
                        }
                        let ghost prevs = statements@;
                        let node = ParseTreeNode::IfStatement { ifs: else_ifs, else_block: None };
                        let ghost nodeg = node;
                        proof {
                            assert(nodeg.wf());
                        }
                        statements.push(node);
                        proof {
                            assert forall|i: int| 0 <= i < statements@.len() implies (
                            #[trigger] statements@[i]).wf() by {
                                if i < prevs.len() {
                                    assert(statements@[i] == prevs[i]);
                                } else {
                                    assert(statements@[i] == nodeg);
                                }
                            }
                        }
                        return Some(ParseTreeNode::Block { statements });
                    }
                    let member: u8 = match self.peek() {
                        Some(t) => {
                            if t.text_is("elseif") {
                                1
                            } else if t.text_is("else") {
                                2
                            } else {
                                0
                            }
                        },
                        None => { return None; },
                    };
                    if member == 1 {
                        let token2 = match self.expect_token() {
                            Some(t) => t,
                            None => { return None; },
                        };
                        let condition2 = match self.parse_expression() {
                            Some(e) => e,
                            None => { return None; },
                        };
                        let block2 = match self.parse_block() {
                            Some(b) => b,
                            None => { return None; },
                        };
                        else_ifs.push((token2, condition2, block2));
                    } else if member == 2 {
                        match self.expect_token() {
                            Some(_) => {},
                            None => { return None; },
                        }
                        let block2 = match self.parse_block() {
                            Some(b) => b,
                            None => { return None; },
                        };
                        let ghost prevs = statements@;
                        let node = ParseTreeNode::IfStatement {
                            ifs: else_ifs,
                            else_block: Some(Box::new(block2)),
                        };
                        let ghost nodeg = node;
                        proof {
                            assert(nodeg.wf());
                        }
                        statements.push(node);
                        proof {
                            assert forall|i: int| 0 <= i < statements@.len() implies (
                            #[trigger] statements@[i]).wf() by {
                                if i < prevs.len() {
                                    assert(statements@[i] == prevs[i]);
                                } else {
                                    assert(statements@[i] == nodeg);
                                }
                            }
                        }
                        if self.enforce_indent_or_less().is_none() {
                            proof {
                                assert(self.indentation_stack@.last() == old(
                                    self,
                                ).current_indent);
                            }
                            self.current_indent = match self.indentation_stack.pop() {
                                Some(v) => v,
                                None => 0,
                            };
                            proof {
                                assert(self.indentation_stack@ =~= old(self).indentation_stack@);
                            }
                            return Some(ParseTreeNode::Block { statements });
                        }
                        break;
                    } else {
                        let ghost prevs = statements@;
                        let node = ParseTreeNode::IfStatement { ifs: else_ifs, else_block: None };
                        let ghost nodeg = node;
                        proof {
                            assert(nodeg.wf());
                        }
                        statements.push(node);
                        proof {
                            assert forall|i: int| 0 <= i < statements@.len() implies (
                            #[trigger] statements@[i]).wf() by {
                                if i < prevs.len() {
                                    assert(statements@[i] == prevs[i]);
                                } else {
                                    assert(statements@[i] == nodeg);
                                }
                            }
                        }
                        break;
                    }
                }
            } else {
                let statement = match self.parse_statement() {
                    Some(st) => st,
                    None => { return None; },
                };
                let ghost prevs = statements@;
                let ghost stg = statement;
                statements.push(statement);
                proof {
                    assert forall|i: int| 0 <= i < statements@.len() implies (
                    #[trigger] statements@[i]).wf() by {
                        if i < prevs.len() {
                            assert(statements@[i] == prevs[i]);
                        } else {
                            assert(statements@[i] == stg);
                        }
                    }
                }
                if self.enforce_indent_or_less().is_none() {
                    proof {
                        assert(self.indentation_stack@.last() == old(self).current_indent);
                    }
                    self.current_indent = match self.indentation_stack.pop() {
                        Some(v) => v,
                        None => 0,
                    };
                    proof {
                        assert(self.indentation_stack@ =~= old(self).indentation_stack@);
                    }
                    return Some(ParseTreeNode::Block { statements });
                }
            }
        }
    }

    /// A top-level function definition: a name, a parenthesized
    /// parameter list, and a body block.
    pub fn parse_function(&mut self) -> (r: Option<ParseTreeNode>)
        requires
            old(self).wf(),
        ensures
            final(self).wf(),
            final(self).tokens == old(self).tokens,
            old(self).pos <= final(self).pos <= final(self).tokens@.len(),
            old(self).failed ==> final(self).failed,
            r is Some ==> final(self).current_indent == old(self).current_indent
                && final(self).indentation_stack@ == old(self).indentation_stack@,
            r matches Some(t) ==> t.wf() && (t is Function) && final(self).pos > old(self).pos,
        decreases self.tokens@.len() - self.pos, 13int,
    {
        let name = match self.enforce_consume_identifier() {
            Some(t) => t,
            None => { return None; },
        };
        self.enforce_consume_symbol("(");
        let mut arguments: Vec<crate::tokenizer::Token> = Vec::new();
        if self.optional_consume_symbol(")").is_none() {
            loop
                invariant
                    self.wf(),
                    self.tokens == old(self).tokens,
                    old(self).pos < self.pos <= self.tokens@.len(),
                    old(self).failed ==> self.failed,
                    self.current_indent == old(self).current_indent,
                    self.indentation_stack == old(self).indentation_stack,
                decreases self.tokens@.len() - self.pos,
            {
                match self.enforce_consume_identifier() {
                    Some(t) => { arguments.push(t); },
                    None => { return None; },
                }
                if self.optional_consume_symbol(",").is_none() {
                    self.enforce_consume_symbol(")");
                    break;
                }
            }
        }
        let block = match self.parse_block() {
            Some(b) => Box::new(b),
            None => { return None; },
        };
        Some(ParseTreeNode::Function { name, arguments, block })
    }

    /// A whole document: function definitions until the end of the file.
    /// The parse fails exactly when an error-severity diagnostic was
    /// recorded; otherwise the tree comes with the informational and
    /// warning diagnostics.
    #[verifier::rlimit(30)]
    pub fn parse_document(self) -> (r: Result<
        (Vec<ParseTreeNode>, Vec<GenericError>),
        Vec<GenericError>,
    >)
        requires
            self.wf(),
        ensures
            r matches Ok(p) ==> all_function_trees(p.0@) && !has_error_diagnostic(p.1@),
            r matches Err(errors) ==> has_error_diagnostic(errors@),
    {
        let mut this = self;
        let mut result: Vec<ParseTreeNode> = Vec::new();
        loop
            invariant
                this.wf(),
                forall|i: int|
                    #![trigger result@[i]]
                    0 <= i < result@.len() ==> result@[i].wf() && result@[i] is Function,
            decreases this.tokens@.len() - this.pos,
        {
            let at_end = match this.peek() {
                Some(t) => match &t.data {
                    TokenData::EndOfFile => true,
                    _ => false,
                },
                None => true,
            };
            if at_end {
                break;
            }
            match this.parse_function() {
                Some(function) => {
                    let ghost prevs = result@;
                    let ghost fg = function;
                    result.push(function);
                    proof {
                        assert forall|i: int| 0 <= i < result@.len() implies (
                        #[trigger] result@[i]).wf() && result@[i] is Function by {
                            if i < prevs.len() {
                                assert(result@[i] == prevs[i]);
                            } else {
                                assert(result@[i] == fg);
                            }
                        }
                    }
                },
                None => { break; },
            }
        }
        if this.failed {
            let errs = this.errors;
            proof {
                assert(has_error_diagnostic(errs@));
            }
            return Err(errs);
        }
        let errs = this.errors;
        proof {
            assert(!has_error_diagnostic(errs@));
            assert(all_function_trees(result@));
        }
        Ok((result, errs))
    }
}

} // verus!
