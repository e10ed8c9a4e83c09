//! The typed parse tree.  `wf` pins down the arity of every node the
//! parser can produce; the lowering pass and the tree interpreter require
//! it and are verified against it.

use vstd::prelude::*;
use crate::tokenizer::Token;

verus! {

#[derive(Clone, Copy, PartialEq, Eq, Structural, Debug)]
pub enum ExpressionType {
    Assignment,
    Add,
    Subtract,
    Multiply,
    Divide,
    MemberAccess,
    Indexing,
    LogicalOr,
    LogicalAnd,
    LessThan,
    GreaterThan,
    LessThanEqual,
    GreaterThanEqual,
    Equality,
    Inequality,
    FunctionCall,
}

pub enum ParseTreeNode {
    Function { name: Token, arguments: Vec<Token>, block: Box<ParseTreeNode> },
    Block { statements: Vec<ParseTreeNode> },
    ReturnStatement { token: Token, expression: Option<Box<ParseTreeNode>> },
    IdentifierValue { token: Token },
    /// A numeric literal; `value` is the bit pattern of its binary64 value.
    NumericValue { token: Token, value: u64 },
    IfStatement {
        ifs: Vec<(Token, ParseTreeNode, ParseTreeNode)>,
        else_block: Option<Box<ParseTreeNode>>,
    },
    ForLoop {
        token: Token,
        loop_variable: Token,
        bound0: Box<ParseTreeNode>,
        bound1: Box<ParseTreeNode>,
        reverse: bool,
        block: Box<ParseTreeNode>,
    },
    WhileLoop { token: Token, condition: Box<ParseTreeNode>, block: Box<ParseTreeNode> },
    Expression { expression_type: ExpressionType, symbols: Vec<Token>, children: Vec<ParseTreeNode> },
}

/// A node that stands for a value (a "place" or an immediate), as
/// opposed to a statement.
pub open spec fn is_expression_node(n: ParseTreeNode) -> bool {
    n is IdentifierValue || n is NumericValue || n is Expression
}

impl ParseTreeNode {
    /// Arity constraints the parser establishes: blocks and `if` chains
    /// are non-empty, every expression carries at least one symbol token,
    /// a call has a callee and at least one argument, and every other
    /// expression form has exactly two children.
    pub open spec fn wf(&self) -> bool
        decreases self,
    {
        match self {
            ParseTreeNode::Function { block, .. } => block.wf() && (**block) is Block,
            ParseTreeNode::Block { statements } => {
                &&& statements@.len() >= 1
                &&& forall|i: int| #![trigger statements@[i]] 0 <= i < statements@.len()
                    ==> statements@[i].wf()
            },
            ParseTreeNode::ReturnStatement { expression, .. } => match expression {
                Some(e) => e.wf(),
                None => true,
            },
            ParseTreeNode::IdentifierValue { .. } => true,
            ParseTreeNode::NumericValue { .. } => true,
            ParseTreeNode::IfStatement { ifs, else_block } => {
                &&& ifs@.len() >= 1
                &&& forall|i: int| #![trigger ifs@[i]] 0 <= i < ifs@.len() ==> ifs@[i].1.wf()
                    && ifs@[i].2.wf()
                &&& match else_block {
                    Some(b) => b.wf(),
                    None => true,
                }
            },
            ParseTreeNode::ForLoop { bound0, bound1, block, .. } => {
                bound0.wf() && bound1.wf() && block.wf()
            },
            ParseTreeNode::WhileLoop { condition, block, .. } => condition.wf() && block.wf(),
            ParseTreeNode::Expression { expression_type, symbols, children } => {
                &&& symbols@.len() >= 1
                &&& forall|i: int| #![trigger children@[i]] 0 <= i < children@.len()
                    ==> children@[i].wf()
                &&& if expression_type is FunctionCall {
                    children@.len() >= 1
                } else {
                    children@.len() == 2
                }
            },
        }
    }

    /// The token a diagnostic about this node points at.
    pub fn get_token(&self) -> (r: &Token)
        requires
            self.wf(),
        decreases self,
    {
        match self {
            ParseTreeNode::Function { name, .. } => name,
            ParseTreeNode::Block { statements } => {
                statements[0].get_token()
            },
            ParseTreeNode::ReturnStatement { token, .. } => token,
            ParseTreeNode::IdentifierValue { token } => token,
            ParseTreeNode::NumericValue { token, .. } => token,
            ParseTreeNode::IfStatement { ifs, .. } => &ifs[0].0,
            ParseTreeNode::ForLoop { token, .. } => token,
            ParseTreeNode::WhileLoop { token, .. } => token,
            ParseTreeNode::Expression { symbols, .. } => &symbols[0],
        }
    }
}

} // verus!
