//! The expression grammar: a precedence cascade, weakest binding first —
//! assignment, `or`, `and`, equality, comparison, additive,
//! multiplicative, postfix chains, primary values.  Levels two through
//! seven are right-recursive, so chains of one operator associate to the
//! right.  Every function returns a well-formed node and consumes at
//! least one token when it succeeds.

use vstd::prelude::*;
use vstd::string::StrSliceExecFns;
use vstd::string::StringExecFns;
use crate::error::GenericError;
use crate::numerics::num_parse;
use crate::parser::context::ParserContext;
use crate::parser::parsetree::ExpressionType;
use crate::parser::parsetree::ParseTreeNode;
use crate::parser::parsetree::is_expression_node;

verus! {

impl ParserContext {
    /// A primary value: an identifier, a numeric literal, or a
    /// parenthesized expression.
    pub fn parse_value(&mut self) -> (r: Option<ParseTreeNode>)
        requires
            old(self).wf(),
        ensures
            final(self).wf(),
            final(self).tokens == old(self).tokens,
            old(self).pos <= final(self).pos <= final(self).tokens@.len(),
            old(self).failed ==> final(self).failed,
            final(self).current_indent == old(self).current_indent,
            final(self).indentation_stack == old(self).indentation_stack,
            r matches Some(t) ==> t.wf() && is_expression_node(t) && final(self).pos
                > old(self).pos,
        decreases self.tokens@.len() - self.pos, 1int,
    {
        if let Some(identifier_token) = self.optional_consume_identifier() {
            return Some(ParseTreeNode::IdentifierValue { token: identifier_token });
        }
        if let Some(numeric_token) = self.optional_consume_number() {
            // A literal like "5." needs a digit after the point for the
            // numeric layer; supply one.
            let mut text = numeric_token.extract_text().to_owned();
            let n = text.as_str().unicode_len();
            if n >= 1 && text.as_str().get_char(n - 1) == '.' {
                text.append("0");
            }
            match num_parse(text.as_str()) {
                Some(bits) => {
                    return Some(ParseTreeNode::NumericValue { token: numeric_token, value: bits });
                },
                None => {
                    let mut msg = String::from_str("unable to parse number from '");
                    msg.append(numeric_token.extract_text());
                    msg.append("'");
                    let copy = numeric_token.duplicate();
                    self.add_error(GenericError::error(copy, msg));
                    return Some(ParseTreeNode::NumericValue { token: numeric_token, value: 0 });
                },
            }
        }
        if self.optional_consume_symbol("(").is_some() {
            let value = self.parse_expression();
            self.enforce_consume_symbol(")");
            return value;
        }
        match self.expect_token() {
            Some(token) => {
                let mut msg = String::from_str("expected value, got '");
                msg.append(token.extract_text());
                msg.append("'");
                self.add_error(
                    GenericError::error(token, msg).arrow("expected value".to_owned()).help(
                        "a value can be any of the following:\n  a numeric literal\n  an identifier"
                            .to_owned(),
                    ),
                );
                None
            },
            None => None,
        }
    }

    /// A left-associative chain of member accesses, indexings, and calls.
    pub fn parse_postfix_expression(&mut self) -> (r: Option<ParseTreeNode>)
        requires
            old(self).wf(),
        ensures
            final(self).wf(),
            final(self).tokens == old(self).tokens,
            old(self).pos <= final(self).pos <= final(self).tokens@.len(),
            old(self).failed ==> final(self).failed,
            final(self).current_indent == old(self).current_indent,
            final(self).indentation_stack == old(self).indentation_stack,
            r matches Some(t) ==> t.wf() && is_expression_node(t) && final(self).pos
                > old(self).pos,
        decreases self.tokens@.len() - self.pos, 2int,
    {
        let mut inner = match self.parse_value() {
            Some(v) => v,
            None => { return None; },
        };
        let ghost entry_pos = old(self).pos as int;
        loop
            invariant
                self.wf(),
                self.tokens == old(self).tokens,
                entry_pos == old(self).pos,
                entry_pos < self.pos <= self.tokens@.len(),
                old(self).failed ==> self.failed,
                self.current_indent == old(self).current_indent,
                self.indentation_stack == old(self).indentation_stack,
                inner.wf(),
                is_expression_node(inner),
            decreases self.tokens@.len() - self.pos,
        {
            let ghost iter_pos = self.pos as int;
            if let Some(symbol) = self.optional_consume_symbol(".") {
                let member = match self.parse_value() {
                    Some(v) => v,
                    None => { return None; },
                };
                let mut children: Vec<ParseTreeNode> = Vec::new();
                children.push(inner);
                children.push(member);
                let mut symbols: Vec<crate::tokenizer::Token> = Vec::new();
                symbols.push(symbol);
                inner = ParseTreeNode::Expression {
                    expression_type: ExpressionType::MemberAccess,
                    symbols,
                    children,
                };
            } else if let Some(symbol) = self.optional_consume_symbol("[") {
                let index = match self.parse_expression() {
                    Some(v) => v,
                    None => { return None; },
                };
                let symbol1 = match self.enforce_consume_symbol("]") {
                    Some(s) => s,
                    None => { return None; },
                };
                let mut children: Vec<ParseTreeNode> = Vec::new();
                children.push(inner);
                children.push(index);
                let mut symbols: Vec<crate::tokenizer::Token> = Vec::new();
                symbols.push(symbol);
                symbols.push(symbol1);
                inner = ParseTreeNode::Expression {
                    expression_type: ExpressionType::Indexing,
                    symbols,
                    children,
                };
            } else if let Some(symbol) = self.optional_consume_symbol("(") {
                let mut children: Vec<ParseTreeNode> = Vec::new();
                children.push(inner);
                loop
                    invariant
                        self.wf(),
                        self.tokens == old(self).tokens,
                        entry_pos == old(self).pos,
                        entry_pos < self.pos <= self.tokens@.len(),
                        iter_pos < self.pos,
                        old(self).failed ==> self.failed,
                        self.current_indent == old(self).current_indent,
                        self.indentation_stack == old(self).indentation_stack,
                        children@.len() >= 1,
                        forall|i: int|
                            #![trigger children@[i]]
                            0 <= i < children@.len() ==> children@[i].wf(),
                    decreases self.tokens@.len() - self.pos,
                {
                    let arg = match self.parse_expression() {
                        Some(v) => v,
                        None => { return None; },
                    };
                    children.push(arg);
                    if self.optional_consume_symbol(",").is_none() {
                        break;
                    }
                }
                let symbol1 = match self.enforce_consume_symbol(")") {
                    Some(s) => s,
                    None => { return None; },
                };
                let mut symbols: Vec<crate::tokenizer::Token> = Vec::new();
                symbols.push(symbol);
                symbols.push(symbol1);
                inner = ParseTreeNode::Expression {
                    expression_type: ExpressionType::FunctionCall,
                    symbols,
                    children,
                };
            } else {
                break;
            }
        }
        Some(inner)
    }

    /// `*` and `/`, right-recursively.
    pub fn parse_multiplicative_expressions(&mut self) -> (r: Option<ParseTreeNode>)
        requires
            old(self).wf(),
        ensures
            final(self).wf(),
            final(self).tokens == old(self).tokens,
            old(self).pos <= final(self).pos <= final(self).tokens@.len(),
            old(self).failed ==> final(self).failed,
            final(self).current_indent == old(self).current_indent,
            final(self).indentation_stack == old(self).indentation_stack,
            r matches Some(t) ==> t.wf() && is_expression_node(t) && final(self).pos
                > old(self).pos,
        decreases self.tokens@.len() - self.pos, 3int,
    {
        let left = match self.parse_postfix_expression() {
            Some(v) => v,
            None => { return None; },
        };
        let (symbol, op) = if let Some(symbol) = self.optional_consume_symbol("*") {
            (symbol, ExpressionType::Multiply)
        } else if let Some(symbol) = self.optional_consume_symbol("/") {
            (symbol, ExpressionType::Divide)
        } else {
            return Some(left);
        };
        let right = match self.parse_multiplicative_expressions() {
            Some(v) => v,
            None => { return None; },
        };
        let mut children: Vec<ParseTreeNode> = Vec::new();
        children.push(left);
        children.push(right);
        let mut symbols: Vec<crate::tokenizer::Token> = Vec::new();
        symbols.push(symbol);
        Some(ParseTreeNode::Expression { expression_type: op, symbols, children })
    }

    /// `+` and `-`, right-recursively.
    pub fn parse_additive_expressions(&mut self) -> (r: Option<ParseTreeNode>)
        requires
            old(self).wf(),
        ensures
            final(self).wf(),
            final(self).tokens == old(self).tokens,
            old(self).pos <= final(self).pos <= final(self).tokens@.len(),
            old(self).failed ==> final(self).failed,
            final(self).current_indent == old(self).current_indent,
            final(self).indentation_stack == old(self).indentation_stack,
            r matches Some(t) ==> t.wf() && is_expression_node(t) && final(self).pos
                > old(self).pos,
        decreases self.tokens@.len() - self.pos, 4int,
    {
        let left = match self.parse_multiplicative_expressions() {
            Some(v) => v,
            None => { return None; },
        };
        let (symbol, op) = if let Some(symbol) = self.optional_consume_symbol("+") {
            (symbol, ExpressionType::Add)
        } else if let Some(symbol) = self.optional_consume_symbol("-") {
            (symbol, ExpressionType::Subtract)
        } else {
            return Some(left);
        };
        let right = match self.parse_additive_expressions() {
            Some(v) => v,
            None => { return None; },
        };
        let mut children: Vec<ParseTreeNode> = Vec::new();
        children.push(left);
        children.push(right);
        let mut symbols: Vec<crate::tokenizer::Token> = Vec::new();
        symbols.push(symbol);
        Some(ParseTreeNode::Expression { expression_type: op, symbols, children })
    }

    /// `<`, `>`, `<=`, `>=`, right-recursively.
    pub fn parse_comparison_expressions(&mut self) -> (r: Option<ParseTreeNode>)
        requires
            old(self).wf(),
        ensures
            final(self).wf(),
            final(self).tokens == old(self).tokens,
            old(self).pos <= final(self).pos <= final(self).tokens@.len(),
            old(self).failed ==> final(self).failed,
            final(self).current_indent == old(self).current_indent,
            final(self).indentation_stack == old(self).indentation_stack,
            r matches Some(t) ==> t.wf() && is_expression_node(t) && final(self).pos
                > old(self).pos,
        decreases self.tokens@.len() - self.pos, 5int,
    {
        let left = match self.parse_additive_expressions() {
            Some(v) => v,
            None => { return None; },
        };
        let (symbol, op) = if let Some(symbol) = self.optional_consume_symbol("<") {
            (symbol, ExpressionType::LessThan)
        } else if let Some(symbol) = self.optional_consume_symbol(">") {
            (symbol, ExpressionType::GreaterThan)
        } else if let Some(symbol) = self.optional_consume_symbol("<=") {
            (symbol, ExpressionType::LessThanEqual)
        } else if let Some(symbol) = self.optional_consume_symbol(">=") {
            (symbol, ExpressionType::GreaterThanEqual)
        } else {
            return Some(left);
        };
        let right = match self.parse_comparison_expressions() {
            Some(v) => v,
            None => { return None; },
        };
        let mut children: Vec<ParseTreeNode> = Vec::new();
        children.push(left);
        children.push(right);
        let mut symbols: Vec<crate::tokenizer::Token> = Vec::new();
        symbols.push(symbol);
        Some(ParseTreeNode::Expression { expression_type: op, symbols, children })
    }

    /// `==` and `!=`, right-recursively.
    pub fn parse_equality_expressions(&mut self) -> (r: Option<ParseTreeNode>)
        requires
            old(self).wf(),
        ensures
            final(self).wf(),
            final(self).tokens == old(self).tokens,
            old(self).pos <= final(self).pos <= final(self).tokens@.len(),
            old(self).failed ==> final(self).failed,
            final(self).current_indent == old(self).current_indent,
            final(self).indentation_stack == old(self).indentation_stack,
            r matches Some(t) ==> t.wf() && is_expression_node(t) && final(self).pos
                > old(self).pos,
        decreases self.tokens@.len() - self.pos, 6int,
    {
        let left = match self.parse_comparison_expressions() {
            Some(v) => v,
            None => { return None; },
        };
        let (symbol, op) = if let Some(symbol) = self.optional_consume_symbol("==") {
            (symbol, ExpressionType::Equality)
        } else if let Some(symbol) = self.optional_consume_symbol("!=") {
            (symbol, ExpressionType::Inequality)
        } else {
            return Some(left);
        };
        let right = match self.parse_equality_expressions() {
            Some(v) => v,
            None => { return None; },
        };
        let mut children: Vec<ParseTreeNode> = Vec::new();
        children.push(left);
        children.push(right);
        let mut symbols: Vec<crate::tokenizer::Token> = Vec::new();
        symbols.push(symbol);
        Some(ParseTreeNode::Expression { expression_type: op, symbols, children })
    }

    /// Keyword `and`, right-recursively.
    pub fn parse_logical_and_expression(&mut self) -> (r: Option<ParseTreeNode>)
        requires
            old(self).wf(),
        ensures
            final(self).wf(),
            final(self).tokens == old(self).tokens,
            old(self).pos <= final(self).pos <= final(self).tokens@.len(),
            old(self).failed ==> final(self).failed,
            final(self).current_indent == old(self).current_indent,
            final(self).indentation_stack == old(self).indentation_stack,
            r matches Some(t) ==> t.wf() && is_expression_node(t) && final(self).pos
                > old(self).pos,
        decreases self.tokens@.len() - self.pos, 7int,
    {
        let left = match self.parse_equality_expressions() {
            Some(v) => v,
            None => { return None; },
        };
        let symbol = match self.optional_consume_identifier_value("and") {
            Some(s) => s,
            None => { return Some(left); },
        };
        let right = match self.parse_logical_and_expression() {
            Some(v) => v,
            None => { return None; },
        };
        let mut children: Vec<ParseTreeNode> = Vec::new();
        children.push(left);
        children.push(right);
        let mut symbols: Vec<crate::tokenizer::Token> = Vec::new();
        symbols.push(symbol);
        Some(
            ParseTreeNode::Expression {
                expression_type: ExpressionType::LogicalAnd,
                symbols,
                children,
            },
        )
    }

    /// Keyword `or`, right-recursively.
    pub fn parse_logical_or_expression(&mut self) -> (r: Option<ParseTreeNode>)
        requires
            old(self).wf(),
        ensures
            final(self).wf(),
            final(self).tokens == old(self).tokens,
            old(self).pos <= final(self).pos <= final(self).tokens@.len(),
            old(self).failed ==> final(self).failed,
            final(self).current_indent == old(self).current_indent,
            final(self).indentation_stack == old(self).indentation_stack,
            r matches Some(t) ==> t.wf() && is_expression_node(t) && final(self).pos
                > old(self).pos,
        decreases self.tokens@.len() - self.pos, 8int,
    {
        let left = match self.parse_logical_and_expression() {
            Some(v) => v,
            None => { return None; },
        };
        let symbol = match self.optional_consume_identifier_value("or") {
            Some(s) => s,
            None => { return Some(left); },
        };
        let right = match self.parse_logical_or_expression() {
            Some(v) => v,
            None => { return None; },
        };
        let mut children: Vec<ParseTreeNode> = Vec::new();
        children.push(left);
        children.push(right);
        let mut symbols: Vec<crate::tokenizer::Token> = Vec::new();
        symbols.push(symbol);
        Some(
            ParseTreeNode::Expression {
                expression_type: ExpressionType::LogicalOr,
                symbols,
                children,
            },
        )
    }

    /// Assignment, the weakest level; an expression that yields the
    /// assigned value.
    pub fn parse_assignment_expressions(&mut self) -> (r: Option<ParseTreeNode>)
        requires
            old(self).wf(),
        ensures
            final(self).wf(),
            final(self).tokens == old(self).tokens,
            old(self).pos <= final(self).pos <= final(self).tokens@.len(),
            old(self).failed ==> final(self).failed,
            final(self).current_indent == old(self).current_indent,
            final(self).indentation_stack == old(self).indentation_stack,
            r matches Some(t) ==> t.wf() && is_expression_node(t) && final(self).pos
                > old(self).pos,
        decreases self.tokens@.len() - self.pos, 9int,
    {
        let left = match self.parse_logical_or_expression() {
            Some(v) => v,
            None => { return None; },
        };
        let symbol = match self.optional_consume_symbol("=") {
            Some(s) => s,
            None => { return Some(left); },
        };
        let right = match self.parse_assignment_expressions() {
            Some(v) => v,
            None => { return None; },
        };
        let mut children: Vec<ParseTreeNode> = Vec::new();
        children.push(left);
        children.push(right);
        let mut symbols: Vec<crate::tokenizer::Token> = Vec::new();
        symbols.push(symbol);
        Some(
            ParseTreeNode::Expression {
                expression_type: ExpressionType::Assignment,
                symbols,
                children,
            },
        )
    }

    /// Any expression.
    pub fn parse_expression(&mut self) -> (r: Option<ParseTreeNode>)
        requires
            old(self).wf(),
        ensures
            final(self).wf(),
            final(self).tokens == old(self).tokens,
            old(self).pos <= final(self).pos <= final(self).tokens@.len(),
            old(self).failed ==> final(self).failed,
            final(self).current_indent == old(self).current_indent,
            final(self).indentation_stack == old(self).indentation_stack,
            r matches Some(t) ==> t.wf() && is_expression_node(t) && final(self).pos
                > old(self).pos,
        decreases self.tokens@.len() - self.pos, 10int,
    {
        self.parse_assignment_expressions()
    }
}

} // verus!
