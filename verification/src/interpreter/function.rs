//! A user-defined function, as the tree interpreter sees it: its name,
//! its parameter tokens, and its body block.

use vstd::prelude::*;
use crate::parser::parsetree::ParseTreeNode;
use crate::tokenizer::Token;

verus! {

pub struct Function {
    pub name: String,
    pub name_token: Token,
    pub arguments: Vec<Token>,
    pub block: ParseTreeNode,
}

impl Function {
    pub open spec fn wf(&self) -> bool {
        self.block.wf()
    }

    /// Take a parsed function definition apart.
    pub fn new(node: ParseTreeNode) -> (r: Function)
        requires
            node.wf(),
            node is Function,
        ensures
            r.wf(),
            r.name@ == node->Function_name.spec_text(),
            r.name_token == node->Function_name,
            r.arguments == node->Function_arguments,
            r.block == *node->Function_block,
    {
        match node {
            ParseTreeNode::Function { name, arguments, block } => {
                let text = name.extract_text().to_owned();
                Function { name: text, name_token: name, arguments, block: *block }
            },
            _ => vstd::pervasive::unreached(),
        }
    }
}

} // verus!
