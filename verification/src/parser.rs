//! The parser: recursive descent with an indentation stack, producing a
//! typed parse tree.

pub mod context;
pub mod expression;
pub mod parsetree;

pub use context::ParserContext;
pub use parsetree::ExpressionType;
pub use parsetree::ParseTreeNode;
