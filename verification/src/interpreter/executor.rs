//! The variable environment of one tree-interpreter activation.

use vstd::prelude::*;
use vstd::string::StringExecFns;
use crate::error::GenericError;
use crate::interpreter::value::Value;
use crate::tokenizer::Token;
use crate::virtualmachine::runtime::env_get;
use crate::virtualmachine::runtime::env_bind;
use crate::virtualmachine::runtime::env_lookup;
use crate::virtualmachine::runtime::env_valid;

verus! {

pub struct Executor {
    pub variables: Vec<(String, Value)>,
}

impl Executor {
    pub fn new() -> (r: Executor)
        ensures
            r.variables@.len() == 0,
    {
        Executor { variables: Vec::new() }
    }

    /// Read a variable; an unbound name is an error at its token.
    pub fn get_variable(&self, name: &Token) -> (r: Result<Value, GenericError>)
        ensures
            match r {
                Ok(v) => env_get(self.variables@, name.spec_text()) == Some(v),
                Err(e) => env_get(self.variables@, name.spec_text()) is None && e.error_type
                    is Error,
            },
    {
        match env_lookup(&self.variables, name.extract_text()) {
            Some(v) => Ok(v),
            None => {
                let mut msg = String::from_str("variable '");
                msg.append(name.extract_text());
                msg.append("' does not exist");
                Err(GenericError::error(name.duplicate(), msg))
            },
        }
    }

    /// Bind a variable.
    pub fn set_variable(&mut self, name: String, value: Value)
        ensures
            env_get(final(self).variables@, name@) == Some(value),
            forall|n: Seq<char>|
                n != name@ ==> env_get(final(self).variables@, n) == env_get(
                    old(self).variables@,
                    n,
                ),
            forall|i: int|
                #![trigger final(self).variables@[i]]
                0 <= i < final(self).variables@.len() ==> final(self).variables@[i].1 == value
                    || (exists|j: int|
                    0 <= j < old(self).variables@.len() && (#[trigger] old(self).variables@[j]).1
                        == final(self).variables@[i].1),
    {
        env_bind(&mut self.variables, name.as_str(), value);
    }

    /// All bound values point into a heap of `n` cells.
    pub open spec fn valid(&self, n: int) -> bool {
        env_valid(self.variables@, n)
    }
}

} // verus!
