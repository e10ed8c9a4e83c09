//! The virtual machine: a table of lowered functions, a stack of
//! execution frames, and the shared array heap.  One `single_step`
//! executes one instruction of the top frame; a cross-function call
//! suspends the frame on its `Call` instruction until the callee's frame
//! returns, and the caller then consumes the returned value and moves on.
//! Every read and write of a variable or an array slot is recorded in the
//! frame's audit lists for the visualizer.

use vstd::prelude::*;
use vstd::string::StringExecFns;
use crate::compiler::instructions::VMFunction;
use crate::compiler::instructions::VMInstruction;
use crate::compiler::instructions::VMInstructionType;
use crate::compiler::instructions::VMValue;
use crate::compiler::instructions::VMVariable;
use crate::compiler::instructions::VMBinaryOperation;
use crate::compiler::instructions::instr_wf;
use crate::error::GenericError;
use crate::interpreter::builtin::builtin_add;
use crate::interpreter::builtin::builtin_array;
use crate::interpreter::builtin::builtin_assert_eq;
use crate::interpreter::builtin::builtin_ceil;
use crate::interpreter::builtin::builtin_div;
use crate::interpreter::builtin::builtin_equality;
use crate::interpreter::builtin::builtin_floor;
use crate::interpreter::builtin::builtin_greater_than;
use crate::interpreter::builtin::builtin_greater_than_equal;
use crate::interpreter::builtin::builtin_indexing;
use crate::interpreter::builtin::spec_array_index;
use crate::interpreter::builtin::builtin_inequality;
use crate::interpreter::builtin::builtin_less_than;
use crate::interpreter::builtin::builtin_less_than_equal;
use crate::interpreter::builtin::builtin_member_access;
use crate::interpreter::builtin::builtin_mul;
use crate::interpreter::builtin::builtin_mutable_indexing;
use crate::interpreter::builtin::builtin_mutable_member_access;
use crate::interpreter::builtin::builtin_print;
use crate::interpreter::builtin::builtin_sub;
use crate::interpreter::builtin::values_valid;
use crate::interpreter::value::Heap;
use crate::interpreter::value::Value;
use crate::interpreter::value::value_valid;
use crate::numerics::num_to_int;
use crate::tokenizer::Token;
use crate::tokenizer::token::str_eq;

verus! {

/// One audit entry: a variable name, and for array accesses the 1-based
/// element index.
pub struct UpdateData {
    pub var: String,
    pub index: Option<usize>,
}

/// The newer audit list is the older one with exactly one entry for the
/// given name and index appended.
pub open spec fn audit_extended(
    older: Seq<UpdateData>,
    newer: Seq<UpdateData>,
    name: Seq<char>,
    index: Option<usize>,
) -> bool {
    &&& newer.len() == older.len() + 1
    &&& newer.last().var@ == name
    &&& newer.last().index == index
    &&& newer.subrange(0, older.len() as int) == older
}

impl UpdateData {
    pub fn variable(name: String) -> (r: Self)
        ensures
            r.var == name,
            r.index is None,
    {
        UpdateData { var: name, index: None }
    }

    pub fn indexed(name: String, index: usize) -> (r: Self)
        ensures
            r.var == name,
            r.index == Some(index),
    {
        UpdateData { var: name, index: Some(index) }
    }
}

/// First-match lookup in a variable environment.
pub open spec fn env_get(env: Seq<(String, Value)>, name: Seq<char>) -> Option<Value>
    decreases env.len(),
{
    if env.len() == 0 {
        None
    } else if env[0].0@ == name {
        Some(env[0].1)
    } else {
        env_get(env.drop_first(), name)
    }
}

/// All values bound in the environment are valid for a heap of `n` cells.
pub open spec fn env_valid(env: Seq<(String, Value)>, n: int) -> bool {
    forall|i: int| #![trigger env[i]] 0 <= i < env.len() ==> value_valid(env[i].1, n)
}

/// Replacing the first binding of `name` changes only that name.
proof fn lemma_env_set(env: Seq<(String, Value)>, i: int, entry: (String, Value))
    requires
        0 <= i < env.len(),
        env[i].0@ == entry.0@,
        forall|j: int| #![trigger env[j]] 0 <= j < i ==> env[j].0@ != entry.0@,
    ensures
        env_get(env.update(i, entry), entry.0@) == Some(entry.1),
        forall|n: Seq<char>| n != entry.0@ ==> env_get(env.update(i, entry), n) == env_get(env, n),
    decreases env.len(),
{
    let updated = env.update(i, entry);
    if i == 0 {
        assert(updated[0] == entry);
        assert(updated.drop_first() =~= env.drop_first());
        assert(env_get(updated, entry.0@) == Some(entry.1));
        assert forall|n: Seq<char>| n != entry.0@ implies env_get(updated, n) == env_get(
            env,
            n,
        ) by {
            assert(env_get(updated, n) == env_get(updated.drop_first(), n));
            assert(env_get(env, n) == env_get(env.drop_first(), n));
        }
    } else {
        assert(updated[0] == env[0]);
        assert(updated.drop_first() =~= env.drop_first().update(i - 1, entry));
        assert forall|j: int| #![trigger env.drop_first()[j]] 0 <= j < i - 1 implies env
            .drop_first()[j].0@ != entry.0@ by {
            assert(env.drop_first()[j] == env[j + 1]);
        }
        assert(env.drop_first()[i - 1] == env[i]);
        lemma_env_set(env.drop_first(), i - 1, entry);
        assert(env[0].0@ != entry.0@);
        assert(env_get(updated, entry.0@) == env_get(updated.drop_first(), entry.0@));
        assert forall|n: Seq<char>| n != entry.0@ implies env_get(updated, n) == env_get(
            env,
            n,
        ) by {
            if env[0].0@ != n {
                assert(env_get(updated, n) == env_get(updated.drop_first(), n));
                assert(env_get(env, n) == env_get(env.drop_first(), n));
            }
        }
    }
}

/// Appending a binding for an unbound name changes only that name.
proof fn lemma_env_push(env: Seq<(String, Value)>, entry: (String, Value))
    requires
        env_get(env, entry.0@) is None,
    ensures
        env_get(env.push(entry), entry.0@) == Some(entry.1),
        forall|n: Seq<char>| n != entry.0@ ==> env_get(env.push(entry), n) == env_get(env, n),
    decreases env.len(),
{
    let pushed = env.push(entry);
    if env.len() == 0 {
        assert(pushed[0] == entry);
        assert(env_get(pushed, entry.0@) == Some(entry.1));
        assert(pushed.drop_first() =~= Seq::<(String, Value)>::empty());
        assert forall|n: Seq<char>| n != entry.0@ implies env_get(pushed, n) == env_get(
            env,
            n,
        ) by {
            assert(env_get(pushed, n) == env_get(pushed.drop_first(), n));
            assert(env_get(pushed.drop_first(), n) is None);
            assert(env_get(env, n) is None);
        }
    } else {
        assert(env[0].0@ != entry.0@);
        assert(pushed[0] == env[0]);
        assert(pushed.drop_first() =~= env.drop_first().push(entry));
        lemma_env_push(env.drop_first(), entry);
        assert(env_get(pushed, entry.0@) == env_get(pushed.drop_first(), entry.0@));
        assert forall|n: Seq<char>| n != entry.0@ implies env_get(pushed, n) == env_get(
            env,
            n,
        ) by {
            if env[0].0@ != n {
                assert(env_get(pushed, n) == env_get(pushed.drop_first(), n));
                assert(env_get(env, n) == env_get(env.drop_first(), n));
            }
        }
    }
}

/// Look a name up in an environment, executable.
pub fn env_lookup(env: &Vec<(String, Value)>, name: &str) -> (r: Option<Value>)
    ensures
        r == env_get(env@, name@),
{
    let n = env.len();
    let mut i: usize = 0;
    proof {
        assert(env@.skip(0) =~= env@);
    }
    while i < n
        invariant
            n == env@.len(),
            i <= n,
            env_get(env@, name@) == env_get(env@.skip(i as int), name@),
            forall|j: int| #![trigger env@[j]] 0 <= j < i ==> env@[j].0@ != name@,
        decreases n - i,
    {
        if str_eq(env[i].0.as_str(), name) {
            proof {
                assert(env@.skip(i as int)[0] == env@[i as int]);
            }
            return Some(env[i].1);
        }
        proof {
            assert(env@.skip(i as int)[0] == env@[i as int]);
            assert(env@.skip(i as int).drop_first() =~= env@.skip(i + 1));
        }
        i = i + 1;
    }
    proof {
        assert(env@.skip(n as int) =~= Seq::<(String, Value)>::empty());
    }
    None
}

/// Bind a name, replacing its first binding or appending a new one.
pub fn env_bind(env: &mut Vec<(String, Value)>, name: &str, value: Value)
    ensures
        env_get(final(env)@, name@) == Some(value),
        forall|n: Seq<char>| n != name@ ==> env_get(final(env)@, n) == env_get(old(env)@, n),
        final(env)@.len() <= old(env)@.len() + 1,
        forall|i: int|
            #![trigger final(env)@[i]]
            0 <= i < final(env)@.len() ==> final(env)@[i].1 == value || (exists|j: int|
                0 <= j < old(env)@.len() && (#[trigger] old(env)@[j]).1 == final(env)@[i].1),
{
    let n = env.len();
    let mut i: usize = 0;
    while i < n
        invariant
            n == env@.len(),
            i <= n,
            forall|j: int| #![trigger env@[j]] 0 <= j < i ==> env@[j].0@ != name@,
            env == old(env),
        decreases n - i,
    {
        if str_eq(env[i].0.as_str(), name) {
            let entry = (name.to_owned(), value);
            let ghost entg = entry;
            proof {
                lemma_env_set(env@, i as int, entg);
            }
            env.set(i, entry);
            proof {
                assert forall|k: int| 0 <= k < env@.len() implies (#[trigger] env@[k]).1 == value
                    || (exists|j: int|
                    0 <= j < old(env)@.len() && (#[trigger] old(env)@[j]).1 == env@[k].1) by {
                    if k != i {
                        assert(env@[k] == old(env)@[k]);
                        assert(old(env)@[k].1 == env@[k].1);
                    }
                }
            }
            return;
        }
        i = i + 1;
    }
    let entry = (name.to_owned(), value);
    let ghost entg = entry;
    let ghost prev = env@;
    proof {
        assert forall|j: int| #![trigger prev[j]] 0 <= j < prev.len() implies prev[j].0@
            != name@ by {}
        lemma_env_no_match(prev, name@);
        lemma_env_push(prev, entg);
    }
    env.push(entry);
    proof {
        assert forall|k: int| 0 <= k < env@.len() implies (#[trigger] env@[k]).1 == value || (
        exists|j: int| 0 <= j < old(env)@.len() && (#[trigger] old(env)@[j]).1 == env@[k].1) by {
            if k < prev.len() {
                assert(env@[k] == prev[k]);
                assert(old(env)@[k].1 == env@[k].1);
            } else {
                assert(env@[k] == entg);
            }
        }
    }
}

/// A name bound nowhere in the list is not found.
proof fn lemma_env_no_match(env: Seq<(String, Value)>, name: Seq<char>)
    requires
        forall|j: int| #![trigger env[j]] 0 <= j < env.len() ==> env[j].0@ != name,
    ensures
        env_get(env, name) is None,
    decreases env.len(),
{
    if env.len() > 0 {
        assert(env[0].0@ != name);
        assert forall|j: int| #![trigger env.drop_first()[j]] 0 <= j < env.drop_first().len()
            implies env.drop_first()[j].0@ != name by {
            assert(env.drop_first()[j] == env[j + 1]);
        }
        lemma_env_no_match(env.drop_first(), name);
    }
}


/// Values already bound stay valid when the heap only grows.
proof fn lemma_env_valid_mono(env: Seq<(String, Value)>, n: int, m: int)
    requires
        env_valid(env, n),
        n <= m,
    ensures
        env_valid(env, m),
{
    assert forall|i: int| 0 <= i < env.len() implies value_valid((#[trigger] env[i]).1, m) by {
        assert(value_valid(env[i].1, n));
    }
}

/// A value found in a valid environment is valid.
pub proof fn lemma_env_get_valid(env: Seq<(String, Value)>, name: Seq<char>, n: int)
    requires
        env_valid(env, n),
    ensures
        match env_get(env, name) {
            Some(v) => value_valid(v, n),
            None => true,
        },
    decreases env.len(),
{
    if env.len() > 0 {
        assert(value_valid(env[0].1, n));
        assert forall|i: int| 0 <= i < env.drop_first().len() implies value_valid(
            (#[trigger] env.drop_first()[i]).1,
            n,
        ) by {
            assert(env.drop_first()[i] == env[i + 1]);
            assert(value_valid(env[i + 1].1, n));
        }
        lemma_env_get_valid(env.drop_first(), name, n);
    }
}

/// One call activation: the function being run, its variables, the
/// instruction cursor (`line`), the audit lists, and the return plumbing.
pub struct ExecutionFrame {
    pub variables: Vec<(String, Value)>,
    pub function: VMFunction,
    pub line: usize,
    pub last_line: Option<usize>,
    pub last_updated: Vec<UpdateData>,
    pub last_read: Vec<UpdateData>,
    pub return_value: Option<Value>,
    pub passed_return: Option<Value>,
    pub last_lines: Vec<usize>,
}

impl ExecutionFrame {
    /// Everything that is not variables or audit lists: the function,
    /// the cursor, and the return plumbing.
    pub open spec fn control_state(&self) -> (VMFunction, usize, Option<usize>, Option<Value>,
        Option<Value>, Seq<usize>) {
        (
            self.function,
            self.line,
            self.last_line,
            self.return_value,
            self.passed_return,
            self.last_lines@,
        )
    }

    /// The function is well-formed, the cursor points at an instruction,
    /// and every value held is valid for a heap of `n` cells.
    pub open spec fn valid(&self, n: int) -> bool {
        &&& self.function.wf()
        &&& self.line < self.function.instructions@.len()
        &&& env_valid(self.variables@, n)
        &&& match self.return_value {
            Some(v) => value_valid(v, n),
            None => true,
        }
        &&& match self.passed_return {
            Some(v) => value_valid(v, n),
            None => true,
        }
    }

    /// A fresh activation: parameters are bound to the arguments,
    /// pairwise, stopping at the shorter list.
    pub fn new(function: VMFunction, arguments: Vec<Value>, last_lines: Vec<usize>) -> (r: Self)
        requires
            function.wf(),
        ensures
            r.function == function,
            r.line == 0,
            r.return_value is None,
            r.passed_return is None,
            r.last_lines == last_lines,
            binds_parameters(r.variables@, function.arguments@, arguments@),
            forall|n: int| values_valid(arguments@, n) ==> r.valid(n),
    {
        let line = function.name.location.line;
        let mut variables: Vec<(String, Value)> = Vec::new();
        let count = if function.arguments.len() < arguments.len() {
            function.arguments.len()
        } else {
            arguments.len()
        };
        proof {
            assert forall|n: Seq<char>| true implies env_get(variables@, n) is None by {}
        }
        let mut i: usize = 0;
        while i < count
            invariant
                count <= function.arguments@.len(),
                count <= arguments@.len(),
                count == vstd::math::min(function.arguments@.len() as int, arguments@.len() as int),
                i <= count,
                forall|n: int|
                    #![trigger env_valid(variables@, n)]
                    values_valid(arguments@, n) ==> env_valid(variables@, n),
                forall|k: int|
                    #![trigger function.arguments@[k]]
                    0 <= k < i && (forall|j: int|
                        k < j < i ==> (#[trigger] function.arguments@[j]).spec_text()
                            != function.arguments@[k].spec_text()) ==> env_get(
                        variables@,
                        function.arguments@[k].spec_text(),
                    ) == Some(arguments@[k]),
                forall|n: Seq<char>|
                    (forall|k: int|
                        0 <= k < i ==> (#[trigger] function.arguments@[k]).spec_text() != n)
                        ==> env_get(variables@, n) is None,
            decreases count - i,
        {
            let ghost prev = variables@;
            env_bind(&mut variables, function.arguments[i].extract_text(), arguments[i]);
            proof {
                assert forall|n: int|
                    values_valid(arguments@, n) implies #[trigger] env_valid(variables@, n) by {
                    assert(value_valid(arguments@[i as int], n));
                    assert(env_valid(prev, n));
                    assert forall|k: int| 0 <= k < variables@.len() implies value_valid(
                        (#[trigger] variables@[k]).1,
                        n,
                    ) by {
                        if variables@[k].1 == arguments@[i as int] {
                        } else {
                            let j = choose|j: int|
                                0 <= j < prev.len() && (#[trigger] prev[j]).1 == variables@[k].1;
                            assert(value_valid(prev[j].1, n));
                        }
                    }
                }
            }
            proof {
                let params = function.arguments@;
                let bound_name = params[i as int].spec_text();
                assert forall|k: int|
                    0 <= k < i + 1 && (forall|j: int|
                        k < j < i + 1 ==> (#[trigger] params[j]).spec_text()
                            != params[k].spec_text()) implies env_get(
                    variables@,
                    (#[trigger] params[k]).spec_text(),
                ) == Some(arguments@[k]) by {
                    if k == i {
                    } else {
                        assert(params[i as int].spec_text() != params[k].spec_text());
                        assert(env_get(prev, params[k].spec_text()) == Some(arguments@[k]));
                        assert(env_get(variables@, params[k].spec_text()) == env_get(
                            prev,
                            params[k].spec_text(),
                        ));
                    }
                }
                assert forall|n: Seq<char>|
                    (forall|k: int| 0 <= k < i + 1 ==> (#[trigger] params[k]).spec_text() != n)
                        implies env_get(variables@, n) is None by {
                    assert(params[i as int].spec_text() != n);
                    assert(env_get(variables@, n) == env_get(prev, n));
                }
            }
            i = i + 1;
        }
        proof {
            let params = function.arguments@;
            assert forall|k: int|
                0 <= k < params.len() && k < arguments@.len() && (forall|j: int|
                    k < j < params.len() && j < arguments@.len() ==> (
                    #[trigger] params[j]).spec_text() != params[k].spec_text()) implies env_get(
                variables@,
                (#[trigger] params[k]).spec_text(),
            ) == Some(arguments@[k]) by {
                assert(k < count);
                assert forall|j: int|
                    k < j < count implies (#[trigger] params[j]).spec_text()
                    != params[k].spec_text() by {}
            }
        }
        ExecutionFrame {
            function,
            variables,
            line: 0,
            last_line: Some(line),
            last_updated: Vec::new(),
            last_read: Vec::new(),
            return_value: None,
            passed_return: None,
            last_lines,
        }
    }

    /// Empty both audit lists.
    pub fn clear(&mut self)
        ensures
            final(self).control_state() == old(self).control_state(),
            final(self).variables == old(self).variables,
            final(self).last_updated@.len() == 0,
            final(self).last_read@.len() == 0,
    {
        self.last_updated = Vec::new();
        self.last_read = Vec::new();
    }

    /// Record a write of a variable.
    pub fn touch_variable(&mut self, var_name: &str) -> (r: Result<(), GenericError>)
        ensures
            final(self).control_state() == old(self).control_state(),
            final(self).variables == old(self).variables,
            final(self).last_read == old(self).last_read,
            audit_extended(
                old(self).last_updated@,
                final(self).last_updated@,
                var_name@,
                None,
            ),
            r is Ok,
    {
        let ghost prev = self.last_updated@;
        self.last_updated.push(UpdateData::variable(var_name.to_owned()));
        proof {
            assert(self.last_updated@.subrange(0, prev.len() as int) =~= prev);
        }
        Ok(())
    }

    /// Record a write of an array slot.
    pub fn touch_variable_index(&mut self, var_name: &str, index: usize) -> (r: Result<
        (),
        GenericError,
    >)
        ensures
            final(self).control_state() == old(self).control_state(),
            final(self).variables == old(self).variables,
            final(self).last_read == old(self).last_read,
            audit_extended(
                old(self).last_updated@,
                final(self).last_updated@,
                var_name@,
                Some(index),
            ),
            r is Ok,
    {
        let ghost prev = self.last_updated@;
        self.last_updated.push(UpdateData::indexed(var_name.to_owned(), index));
        proof {
            assert(self.last_updated@.subrange(0, prev.len() as int) =~= prev);
        }
        Ok(())
    }

    /// Record a read of an array slot.
    pub fn read_variable_index(&mut self, var_name: &str, index: usize) -> (r: Result<
        (),
        GenericError,
    >)
        ensures
            final(self).control_state() == old(self).control_state(),
            final(self).variables == old(self).variables,
            final(self).last_updated == old(self).last_updated,
            audit_extended(
                old(self).last_read@,
                final(self).last_read@,
                var_name@,
                Some(index),
            ),
            r is Ok,
    {
        let ghost prev = self.last_read@;
        self.last_read.push(UpdateData::indexed(var_name.to_owned(), index));
        proof {
            assert(self.last_read@.subrange(0, prev.len() as int) =~= prev);
        }
        Ok(())
    }

    /// Bind a variable, recording the write.
    pub fn assign_to_variable(&mut self, var_name: &str, value: Value) -> (r: Result<
        (),
        GenericError,
    >)
        ensures
            r is Ok,
            final(self).control_state() == old(self).control_state(),
            final(self).last_read == old(self).last_read,
            audit_extended(
                old(self).last_updated@,
                final(self).last_updated@,
                var_name@,
                None,
            ),
            env_get(final(self).variables@, var_name@) == Some(value),
            forall|n: Seq<char>|
                n != var_name@ ==> env_get(final(self).variables@, n) == env_get(
                    old(self).variables@,
                    n,
                ),
            forall|i: int|
                #![trigger final(self).variables@[i]]
                0 <= i < final(self).variables@.len() ==> final(self).variables@[i].1 == value || (
                exists|j: int|
                    0 <= j < old(self).variables@.len() && (#[trigger] old(self).variables@[j]).1
                        == final(self).variables@[i].1),
    {
        env_bind(&mut self.variables, var_name, value);
        let ghost prev = self.last_updated@;
        self.last_updated.push(UpdateData::variable(var_name.to_owned()));
        proof {
            assert(self.last_updated@.subrange(0, prev.len() as int) =~= prev);
        }
        Ok(())
    }

    /// Read a variable, recording the read; an unbound name is an error.
    pub fn read_variable(&mut self, var_name: &str, token: Option<Token>, report: bool) -> (r:
        Result<Value, GenericError>)
        ensures
            final(self).control_state() == old(self).control_state(),
            final(self).variables == old(self).variables,
            final(self).last_updated == old(self).last_updated,
            match r {
                Ok(v) => env_get(old(self).variables@, var_name@) == Some(v) && if report {
                    audit_extended(
                        old(self).last_read@,
                        final(self).last_read@,
                        var_name@,
                        None,
                    )
                } else {
                    final(self).last_read == old(self).last_read
                },
                Err(e) => env_get(old(self).variables@, var_name@) is None && e.error_type
                    is Error && final(self).last_read == old(self).last_read,
            },
    {
        match env_lookup(&self.variables, var_name) {
            Some(v) => {
                if report {
                    let ghost prev = self.last_read@;
                    self.last_read.push(UpdateData::variable(var_name.to_owned()));
                    proof {
                        assert(self.last_read@.subrange(0, prev.len() as int) =~= prev);
                    }
                }
                Ok(v)
            },
            None => {
                let mut msg = String::from_str("variable '");
                msg.append(var_name);
                msg.append("' is not defined");
                Err(GenericError::tokenable_error(token, msg))
            },
        }
    }
}


/// The audit index a numeric index value is reported under: its integer
/// value when it is a non-negative machine integer, zero otherwise.
fn audit_index(bits: u64) -> (r: usize) {
    match num_to_int(bits) {
        Some(k) => {
            if k >= 0 {
                k as usize
            } else {
                0
            }
        },
        None => 0,
    }
}

impl ExecutionFrame {
    /// Evaluate an IR value to a runtime value, recording reads when
    /// `report` is set.  Member and index accesses resolve against the
    /// heap through the shared builtins.
    pub fn load_value(&mut self, heap: &Heap, value: &VMValue, report: bool) -> (r: Result<
        Value,
        GenericError,
    >)
        requires
            heap.wf(),
            value.wf(),
            env_valid(old(self).variables@, heap.len()),
        ensures
            final(self).control_state() == old(self).control_state(),
            final(self).variables == old(self).variables,
            r matches Ok(v) ==> value_valid(v, heap.len()),
            ((*value) matches VMValue::Value(v, _) ==> r == Ok::<Value, GenericError>(v)
                && *final(self) == *old(self)),
            ((*value) matches VMValue::Variable(w)
                ==> final(self).last_updated == old(self).last_updated
                && (if w.spec_name() == "True"@ {
                r == Ok::<Value, GenericError>(Value::Boolean(true)) && *final(self) == *old(
                    self,
                )
            } else if w.spec_name() == "False"@ {
                r == Ok::<Value, GenericError>(Value::Boolean(false))
                    && *final(self) == *old(self)
            } else {
                match env_get(old(self).variables@, w.spec_name()) {
                    Some(x) => r == Ok::<Value, GenericError>(x) && if report {
                        audit_extended(
                            old(self).last_read@,
                            final(self).last_read@,
                            w.spec_name(),
                            None,
                        )
                    } else {
                        final(self).last_read == old(self).last_read
                    },
                    None => r is Err && final(self).last_read == old(self).last_read,
                }
            })),
            ((*value) matches VMValue::Indexing(m, i) ==> ((*m) matches VMValue::Value(bv, _)
                ==> ((*i) matches VMValue::Value(iv, _) ==> {
                &&& (r is Ok <==> ({
                    &&& bv matches Value::Array(a)
                    &&& iv matches Value::Number(b)
                    &&& spec_array_index(b) matches Some(ix)
                    &&& ix <= heap.cells@[a as int].elements@.len()
                }))
                &&& (r matches Ok(v) ==> ({
                    &&& bv matches Value::Array(a)
                    &&& iv matches Value::Number(b)
                    &&& spec_array_index(b) matches Some(ix)
                    &&& ix <= heap.cells@[a as int].elements@.len()
                    &&& v == heap.cells@[a as int].elements@[ix - 1]
                }))
            }))),
        decreases value,
    {
        match value {
            VMValue::MemberAccess(m, a) => {
                let t = match a.get_token() {
                    Some(t) => t,
                    None => {
                        return Err(
                            GenericError::tokenless_error(
                                "member name is not an identifier".to_owned(),
                            ),
                        );
                    },
                };
                let base = match self.load_value(heap, m, report) {
                    Ok(v) => v,
                    Err(e) => { return Err(e); },
                };
                if report {
                    if let Some(base_token) = m.get_token() {
                        match self.touch_variable(base_token.extract_text()) {
                            Ok(_) => {},
                            Err(e) => { return Err(e); },
                        }
                    }
                }
                let td = t.duplicate();
                match builtin_member_access(heap, base, t) {
                    Ok(v) => {
                        proof {
                            if v == heap.cells@[base->Array_0 as int].heapsize {
                                assert(heap.cells@[base->Array_0 as int]
                                    == heap.cells@[base->Array_0 as int]);
                            }
                        }
                        Ok(v)
                    },
                    Err(e) => Err(e.finish(td)),
                }
            },
            VMValue::Indexing(m, i) => {
                let t = m.get_token();
                let base = match self.load_value(heap, m, false) {
                    Ok(v) => v,
                    Err(e) => { return Err(e); },
                };
                let index = match self.load_value(heap, i, report) {
                    Ok(v) => v,
                    Err(e) => { return Err(e); },
                };
                if let Value::Number(bits) = index {
                    if report {
                        if let Some(tt) = &t {
                            match self.read_variable_index(tt.extract_text(), audit_index(bits)) {
                                Ok(_) => {},
                                Err(e) => { return Err(e); },
                            }
                        }
                    }
                }
                let mut args: Vec<Value> = Vec::new();
                args.push(base);
                args.push(index);
                match builtin_indexing(heap, args) {
                    Ok(v) => Ok(v),
                    Err(e) => Err(e.finish_maybe(t)),
                }
            },
            VMValue::Value(v, _) => Ok(*v),
            VMValue::Variable(v) => {
                // The boolean literals read as values, never as
                // variables.
                if str_eq(v.extract_text(), "True") {
                    return Ok(Value::Boolean(true));
                }
                if str_eq(v.extract_text(), "False") {
                    return Ok(Value::Boolean(false));
                }
                let token = v.get_token();
                let name = v.extract_text();
                let r = self.read_variable(name, token, report);
                proof {
                    if r is Ok {
                        lemma_env_get_valid(old(self).variables@, name@, heap.len());
                    }
                }
                r
            },
        }
    }

    /// Store a value into a place: a variable, an array slot, or an
    /// array's `heapsize` member.  The boolean literals and immediates
    /// are not assignable, and `.length` is read-only.
    pub fn store_value_into(&mut self, heap: &mut Heap, value: &VMValue, to_store: Value) -> (r:
        Result<(), GenericError>)
        requires
            old(heap).wf(),
            value.wf(),
            env_valid(old(self).variables@, old(heap).len()),
            value_valid(to_store, old(heap).len()),
        ensures
            final(heap).wf(),
            final(heap).len() == old(heap).len(),
            final(self).control_state() == old(self).control_state(),
            env_valid(final(self).variables@, final(heap).len()),
            ((*value) matches VMValue::Value(_, _) ==> r is Err && *final(self) == *old(self)
                && *final(heap) == *old(heap)),
            ((*value) matches VMValue::Variable(w)
                ==> final(self).last_read == old(self).last_read
                && (if w.spec_name() == "True"@ || w.spec_name() == "False"@ {
                r is Err && final(self).variables == old(self).variables
                    && final(self).last_updated == old(self).last_updated && *final(heap)
                    == *old(heap)
            } else {
                r is Ok && *final(heap) == *old(heap) && env_get(
                    final(self).variables@,
                    w.spec_name(),
                ) == Some(to_store) && audit_extended(
                    old(self).last_updated@,
                    final(self).last_updated@,
                    w.spec_name(),
                    None,
                ) && forall|n: Seq<char>|
                    n != w.spec_name() ==> env_get(final(self).variables@, n) == env_get(
                        old(self).variables@,
                        n,
                    )
            })),
            ((*value) matches VMValue::Indexing(m, i) ==> ((*m) matches VMValue::Value(bv, _)
                ==> ((*i) matches VMValue::Value(iv, _) ==> {
                &&& final(self).last_read == old(self).last_read
                &&& final(self).variables == old(self).variables
                &&& (r is Ok <==> ({
                    &&& bv matches Value::Array(a)
                    &&& iv matches Value::Number(b)
                    &&& spec_array_index(b) matches Some(ix)
                    &&& ix <= old(heap).cells@[a as int].elements@.len()
                }))
                &&& (r is Ok ==> ({
                    &&& bv matches Value::Array(a)
                    &&& iv matches Value::Number(b)
                    &&& spec_array_index(b) matches Some(ix)
                    &&& final(heap).cells@[a as int].elements@ == old(heap).cells@[a
                        as int].elements@.update(ix - 1, to_store)
                    &&& final(heap).cells@[a as int].heapsize == old(heap).cells@[a
                        as int].heapsize
                    &&& forall|j: int| #![trigger final(heap).cells@[j]] 0 <= j < old(
                        heap,
                    ).cells@.len() && j != a ==> final(heap).cells@[j] == old(heap).cells@[j]
                }))
                &&& (r is Err ==> final(heap).cells@ == old(heap).cells@)
            }))),
    {
        match value {
            VMValue::MemberAccess(m, i) => {
                match m.get_token() {
                    Some(t) => {
                        match self.touch_variable(t.extract_text()) {
                            Ok(_) => {},
                            Err(e) => { return Err(e); },
                        }
                    },
                    None => {},
                }
                let base = match self.load_value(heap, m, false) {
                    Ok(v) => v,
                    Err(e) => { return Err(e); },
                };
                let t = match i.get_token() {
                    Some(t) => t,
                    None => {
                        return Err(
                            GenericError::tokenless_error(
                                "member name is not an identifier".to_owned(),
                            ),
                        );
                    },
                };
                let td = t.duplicate();
                match builtin_mutable_member_access(heap, base, t, to_store) {
                    Ok(_) => Ok(()),
                    Err(e) => Err(e.finish(td)),
                }
            },
            VMValue::Indexing(m, i) => {
                let t = m.get_token();
                let base = match self.load_value(heap, m, false) {
                    Ok(v) => v,
                    Err(e) => { return Err(e); },
                };
                let index = match self.load_value(heap, i, true) {
                    Ok(v) => v,
                    Err(e) => { return Err(e); },
                };
                if let Value::Number(bits) = index {
                    if let Some(tt) = &t {
                        match self.touch_variable_index(tt.extract_text(), audit_index(bits)) {
                            Ok(_) => {},
                            Err(e) => { return Err(e); },
                        }
                    }
                }
                let mut args: Vec<Value> = Vec::new();
                args.push(base);
                args.push(index);
                match builtin_mutable_indexing(heap, args, to_store) {
                    Ok(_) => Ok(()),
                    Err(e) => Err(e.finish_maybe(t)),
                }
            },
            VMValue::Value(_, t) => {
                let token = match t {
                    Some(t) => Some(t.duplicate()),
                    None => None,
                };
                Err(
                    GenericError::tokenable_error(
                        token,
                        "unable to assign to immutable value".to_owned(),
                    ),
                )
            },
            VMValue::Variable(v) => {
                if str_eq(v.extract_text(), "True") || str_eq(v.extract_text(), "False") {
                    return Err(
                        GenericError::tokenable_error(
                            v.get_token(),
                            "unable to assign to boolean".to_owned(),
                        ),
                    );
                }
                let r = self.assign_to_variable(v.extract_text(), to_store);
                proof {
                    assert forall|k: int| 0 <= k < self.variables@.len() implies value_valid(
                        (#[trigger] self.variables@[k]).1,
                        heap.len(),
                    ) by {
                        if self.variables@[k].1 == to_store {
                        } else {
                            let j = choose|j: int|
                                0 <= j < old(self).variables@.len() && (#[trigger] old(
                                    self,
                                ).variables@[j]).1 == self.variables@[k].1;
                            assert(value_valid(old(self).variables@[j].1, heap.len()));
                        }
                    }
                }
                r
            },
        }
    }
}


/// The environment binds a parameter list pairwise to argument values,
/// stopping at the shorter list: each parameter name's last occurrence
/// is bound to its argument, and nothing else is bound.
pub open spec fn binds_parameters(
    env: Seq<(String, Value)>,
    params: Seq<Token>,
    args: Seq<Value>,
) -> bool {
    &&& forall|k: int|
        #![trigger params[k]]
        0 <= k < params.len() && k < args.len() && (forall|j: int|
            k < j < params.len() && j < args.len() ==> (#[trigger] params[j]).spec_text()
                != params[k].spec_text()) ==> env_get(env, params[k].spec_text()) == Some(
            args[k],
        )
    &&& forall|n: Seq<char>|
        (forall|k: int|
            0 <= k < params.len() && k < args.len() ==> (#[trigger] params[k]).spec_text()
                != n) ==> env_get(env, n) is None
}

/// The outcome a step owes for a branch whose condition is a variable:
/// the boolean literals pick their arm, a bound boolean picks its arm,
/// anything else is an error.
pub open spec fn branch_on_variable_outcome(
    env: Seq<(String, Value)>,
    name: Seq<char>,
    t: usize,
    f: usize,
    ok: bool,
    line: usize,
) -> bool {
    if name == "True"@ {
        ok && line == t
    } else if name == "False"@ {
        ok && line == f
    } else {
        match env_get(env, name) {
            Some(Value::Boolean(b)) => ok && line == (if b {
                t
            } else {
                f
            }),
            Some(_) => !ok,
            None => !ok,
        }
    }
}

/// The outcome a step owes for returning a variable's value: the
/// boolean literals return their booleans, a bound name its value, an
/// unbound name is an error.
pub open spec fn return_of_variable_outcome(
    env: Seq<(String, Value)>,
    name: Seq<char>,
    ok: bool,
    rv: Option<Value>,
) -> bool {
    if name == "True"@ {
        ok && rv == Some(Value::Boolean(true))
    } else if name == "False"@ {
        ok && rv == Some(Value::Boolean(false))
    } else {
        match env_get(env, name) {
            Some(x) => ok && rv == Some(x),
            None => !ok,
        }
    }
}

/// The callable names the machine handles inline rather than by
/// pushing a frame.
pub open spec fn spec_is_builtin_name(s: Seq<char>) -> bool {
    s == "Print"@ || s == "Array"@ || s == "AssertEqual"@ || s == "floor"@ || s == "ceil"@
}

impl ExecutionFrame {
    /// The form of the instruction under the cursor.
    pub open spec fn current_instruction(&self) -> VMInstructionType {
        self.function.instructions@[self.line as int].instruction_type
    }

    /// The source line of the instruction under the cursor.
    pub open spec fn current_source_line(&self) -> usize {
        self.function.instructions@[self.line as int].associated_line
    }

    /// The instruction under the cursor.
    pub fn next_instruction(&self) -> (r: &VMInstruction)
        requires
            self.line < self.function.instructions@.len(),
        ensures
            *r == self.function.instructions@[self.line as int],
    {
        &self.function.instructions[self.line]
    }

    /// Dispatch a call to a built-in function; `Ok(None)` means the name
    /// is not a built-in and a user function must be entered.
    pub fn builtin_function_call(
        &self,
        heap: &mut Heap,
        function_name: &VMVariable,
        arguments: Vec<Value>,
    ) -> (r: Result<Option<Value>, GenericError>)
        requires
            old(heap).wf(),
            values_valid(arguments@, old(heap).len()),
        ensures
            final(heap).wf(),
            old(heap).len() <= final(heap).len(),
            r matches Ok(Some(v)) ==> value_valid(v, final(heap).len()),
            (r matches Ok(None)) <==> !spec_is_builtin_name(function_name.spec_name())
                && !(r is Err),
            r matches Ok(None) ==> final(heap).len() == old(heap).len(),
    {
        let name = function_name.extract_text();
        if str_eq(name, "Print") {
            match builtin_print(heap, arguments) {
                Ok(v) => Ok(Some(v)),
                Err(e) => Err(e.finish_maybe(function_name.get_token())),
            }
        } else if str_eq(name, "Array") {
            match builtin_array(heap, arguments) {
                Ok(v) => Ok(Some(v)),
                Err(e) => Err(e.finish_maybe(function_name.get_token())),
            }
        } else if str_eq(name, "AssertEqual") {
            match builtin_assert_eq(heap, function_name.get_token(), arguments) {
                Ok(v) => Ok(Some(v)),
                Err(e) => Err(e.finish_maybe(function_name.get_token())),
            }
        } else if str_eq(name, "floor") {
            match builtin_floor(arguments) {
                Ok(v) => {
                    proof {
                        assert(v is Number);
                    }
                    Ok(Some(v))
                },
                Err(e) => Err(e.finish_maybe(function_name.get_token())),
            }
        } else if str_eq(name, "ceil") {
            match builtin_ceil(arguments) {
                Ok(v) => {
                    proof {
                        assert(v is Number);
                    }
                    Ok(Some(v))
                },
                Err(e) => Err(e.finish_maybe(function_name.get_token())),
            }
        } else {
            Ok(None)
        }
    }

    /// Execute the instruction under the cursor.  If no error arises,
    /// either the cursor moves (an ordinary instruction, a branch, or a
    /// jump), the return value is set (a `Return`), or a pending call is
    /// signalled (`Ok(Some(..))`) and the frame stays suspended on the
    /// same `Call` instruction until the returned value is delivered.
    #[verifier::rlimit(100)]
    #[verifier::spinoff_prover]
    pub fn single_step(&mut self, heap: &mut Heap) -> (r: Result<
        Option<(VMVariable, Vec<Value>)>,
        GenericError,
    >)
        requires
            old(heap).wf(),
            old(self).valid(old(heap).len()),
            old(self).return_value is None,
        ensures
            final(heap).wf(),
            old(heap).len() <= final(heap).len(),
            final(self).valid(final(heap).len()),
            final(self).function == old(self).function,
            r matches Ok(None) ==> final(self).return_value is Some || final(self).line != old(
                self,
            ).line,
            r matches Ok(Some(p)) ==> final(self).line == old(self).line && values_valid(
                p.1@,
                final(heap).len(),
            ) && old(self).current_instruction() is FunctionCall,
            (old(self).current_instruction() matches VMInstructionType::Goto(g)
                ==> (r matches Ok(None)) && final(self).line == g && final(self).return_value
                    is None && final(self).variables == old(self).variables && *final(heap)
                    == *old(heap)),
            (old(self).current_instruction() matches VMInstructionType::Branch(_, t, f)
                ==> ((r matches Ok(None)) ==> (final(self).line == t || final(self).line == f)
                    && final(self).return_value is None && *final(heap) == *old(heap))),
            old(self).current_instruction() is Return ==> ((r matches Ok(None))
                ==> final(self).return_value is Some && final(self).line == old(self).line
                    && *final(heap) == *old(heap)),
            old(self).current_instruction() is Assign || old(self).current_instruction()
                is BinaryOperation || old(self).current_instruction() is FunctionCall ==> ((r
                matches Ok(None)) ==> final(self).line == old(self).line + 1
                    && final(self).return_value is None),
            (old(self).current_instruction() matches VMInstructionType::Assign(d, src)
                ==> (d matches VMValue::Variable(w) ==> (src matches VMValue::Value(v, _)
                ==> ((r matches Ok(None)) ==> env_get(final(self).variables@, w.spec_name())
                    == Some(v))))),
            (old(self).current_instruction() matches VMInstructionType::Return(src)
                ==> (src matches VMValue::Value(v, _) ==> ((r matches Ok(None))
                    ==> final(self).return_value == Some(v)))),
            r matches Ok(None) ==> final(self).last_line == Some(
                old(self).current_source_line(),
            ),
            (old(self).current_instruction() matches VMInstructionType::FunctionCall(_, dest, _)
                ==> (old(self).passed_return matches Some(rv) ==> ((dest.spec_name() != "True"@
                    && dest.spec_name() != "False"@ ==> (r matches Ok(None)) && env_get(
                    final(self).variables@,
                    dest.spec_name(),
                ) == Some(rv)) && ((r matches Ok(None)) ==> final(self).passed_return is None)))),
            (old(self).current_instruction() is Branch && r is Err
                ==> final(self).line == old(self).line),
            (old(self).current_instruction() matches VMInstructionType::Branch(c, t, f)
                ==> (c matches VMValue::Value(cv, _)
                ==> (cv == Value::Boolean(true) ==> (r matches Ok(None)) && final(self).line == t)
                && (cv == Value::Boolean(false) ==> (r matches Ok(None)) && final(self).line
                == f) && (!(cv is Boolean) ==> r is Err))),
            (old(self).current_instruction() matches VMInstructionType::Branch(c, t, f)
                ==> (c matches VMValue::Variable(w) ==> branch_on_variable_outcome(
                old(self).variables@,
                w.spec_name(),
                t,
                f,
                r is Ok,
                final(self).line,
            ))),
            (old(self).current_instruction() matches VMInstructionType::Return(src) ==> (src
                matches VMValue::Variable(w) ==> return_of_variable_outcome(
                old(self).variables@,
                w.spec_name(),
                r is Ok,
                final(self).return_value,
            ))),
    {
        let ghost n0 = heap.len();
        let total = self.function.instructions.len();
        let instruction = self.function.instructions[self.line].duplicate();
        let ghost ity = instruction.instruction_type;
        let entry_line = self.line;
        proof {
            let ins = self.function.instructions@;
            let i = self.line as int;
            assert(instr_wf(ins[i].instruction_type, i, ins.len() - 1));
            crate::compiler::instructions::lemma_same_instruction_type(
                ity,
                ins[i].instruction_type,
                i,
                ins.len() - 1,
            );
            assert(instr_wf(ity, i, ins.len() - 1));
            if !(ity is FunctionCall) {
                assert(ity == ins[i].instruction_type);
            } else {
                assert(ins[i].instruction_type is FunctionCall);
            }
            if !(ity is Return) {
                assert(ins[ins.len() - 1].instruction_type is Return);
                assert(!(ins[i].instruction_type is Return));
                assert(i != ins.len() - 1);
                assert(entry_line + 1 < total);
            }
        }
        match instruction.instruction_type {
            VMInstructionType::Assign(a, b) => {
                let v = match self.load_value(heap, &b, true) {
                    Ok(v) => v,
                    Err(e) => { return Err(e); },
                };
                match self.store_value_into(heap, &a, v) {
                    Ok(_) => {},
                    Err(e) => { return Err(e); },
                }
                self.line = entry_line + 1;
            },
            VMInstructionType::BinaryOperation(op, dest, a, b) => {
                let av = match self.load_value(heap, &a, true) {
                    Ok(v) => v,
                    Err(e) => { return Err(e); },
                };
                let bv = match self.load_value(heap, &b, true) {
                    Ok(v) => v,
                    Err(e) => { return Err(e); },
                };
                let mut args: Vec<Value> = Vec::new();
                args.push(av);
                args.push(bv);
                let computed = match op {
                    VMBinaryOperation::Add => builtin_add(args),
                    VMBinaryOperation::Subtract => builtin_sub(args),
                    VMBinaryOperation::Multiply => builtin_mul(args),
                    VMBinaryOperation::Divide => builtin_div(args),
                    VMBinaryOperation::LessThan => builtin_less_than(args),
                    VMBinaryOperation::GreaterThan => builtin_greater_than(args),
                    VMBinaryOperation::LessThanEqual => builtin_less_than_equal(args),
                    VMBinaryOperation::GreaterThanEqual => builtin_greater_than_equal(args),
                    VMBinaryOperation::Equality => builtin_equality(heap, args),
                    VMBinaryOperation::Inequality => builtin_inequality(heap, args),
                };
                let to_store = match computed {
                    Ok(v) => v,
                    Err(e) => { return Err(e.finish_no_token()); },
                };
                let dest_value = VMValue::Variable(dest);
                match self.store_value_into(heap, &dest_value, to_store) {
                    Ok(_) => {},
                    Err(e) => { return Err(e); },
                }
                self.line = entry_line + 1;
            },
            VMInstructionType::Return(value) => {
                let v = match self.load_value(heap, &value, true) {
                    Ok(v) => v,
                    Err(e) => { return Err(e); },
                };
                self.return_value = Some(v);
            },
            VMInstructionType::FunctionCall(function, dest, arguments) => {
                let returned = self.passed_return.take();
                if let Some(returned_value) = returned {
                    let dest_value = VMValue::Variable(dest);
                    match self.store_value_into(heap, &dest_value, returned_value) {
                        Ok(_) => {},
                        Err(e) => { return Err(e); },
                    }
                    self.line = entry_line + 1;
                } else {
                    let mut argument_values: Vec<Value> = Vec::new();
                    let count = arguments.len();
                    let mut i: usize = 0;
                    proof {
                        assert(instruction.instruction_type.values_wf());
                    }
                    while i < count
                        invariant
                            count == arguments@.len(),
                            i <= count,
                            heap.wf(),
                            heap.len() == n0,
                            n0 == old(heap).len(),
                            old(self).current_instruction() is FunctionCall,
                            old(self).passed_return is None,
                            self.valid(heap.len()),
                            self.control_state() == old(self).control_state(),
                            forall|j: int|
                                #![trigger arguments@[j]]
                                0 <= j < count ==> arguments@[j].wf(),
                            values_valid(argument_values@, heap.len()),
                        decreases count - i,
                    {
                        let av = match self.load_value(heap, &arguments[i], true) {
                            Ok(v) => v,
                            Err(e) => { return Err(e); },
                        };
                        let ghost prev = argument_values@;
                        argument_values.push(av);
                        proof {
                            assert forall|j: int| 0 <= j < argument_values@.len() implies
                                value_valid(#[trigger] argument_values@[j], heap.len()) by {
                                if j < prev.len() {
                                    assert(argument_values@[j] == prev[j]);
                                }
                            }
                        }
                        i = i + 1;
                    }
                    let mut copies: Vec<Value> = Vec::new();
                    let mut k: usize = 0;
                    while k < argument_values.len()
                        invariant
                            k <= argument_values@.len(),
                            copies@.len() == k,
                            old(self).current_instruction() is FunctionCall,
                            old(self).passed_return is None,
                            forall|j: int|
                                #![trigger copies@[j]]
                                0 <= j < k ==> copies@[j] == argument_values@[j],
                        decreases argument_values@.len() - k,
                    {
                        copies.push(argument_values[k]);
                        k = k + 1;
                    }
                    proof {
                        assert(copies@ =~= argument_values@);
                    }
                    match self.builtin_function_call(heap, &function, copies) {
                        Ok(Some(v)) => {
                            proof {
                                lemma_env_valid_mono(
                                    self.variables@,
                                    n0,
                                    heap.len(),
                                );
                            }
                            let dest_value = VMValue::Variable(dest);
                            match self.store_value_into(heap, &dest_value, v) {
                                Ok(_) => {},
                                Err(e) => { return Err(e); },
                            }
                            self.line = entry_line + 1;
                        },
                        Ok(None) => {
                            return Ok(Some((function, argument_values)));
                        },
                        Err(e) => { return Err(e); },
                    }
                }
            },
            VMInstructionType::Branch(cond, true_branch, false_branch) => {
                let ghost condg = cond;
                let v = match self.load_value(heap, &cond, true) {
                    Ok(v) => v,
                    Err(e) => { return Err(e); },
                };
                proof {
                    assert(ity == VMInstructionType::Branch(
                        condg,
                        true_branch as usize,
                        false_branch as usize,
                    ));
                    match condg {
                        VMValue::Variable(w2) => {
                            if w2.spec_name() == "True"@ {
                                assert(v == Value::Boolean(true));
                            } else if w2.spec_name() == "False"@ {
                                assert(v == Value::Boolean(false));
                            } else {
                                assert(env_get(old(self).variables@, w2.spec_name()) == Some(v));
                            }
                        },
                        VMValue::Value(cv2, _) => {
                            assert(v == cv2);
                        },
                        _ => {},
                    }
                }
                if let Value::Boolean(b) = v {
                    if b {
                        self.line = true_branch;
                    } else {
                        self.line = false_branch;
                    }
                } else {
                    return Err(
                        GenericError::tokenless_error("condition is not a boolean".to_owned()),
                    );
                }
            },
            VMInstructionType::Goto(branch) => {
                self.line = branch;
            },
        }
        self.last_line = Some(instruction.associated_line);
        proof {
            match ity {
                VMInstructionType::Branch(c2, t2, f2) => {
                    match c2 {
                        VMValue::Variable(w2) => {
                            if w2.spec_name() == "True"@ {
                                assert(self.line == t2);
                            } else if w2.spec_name() == "False"@ {
                                assert(self.line == f2);
                            } else {
                                match env_get(old(self).variables@, w2.spec_name()) {
                                    Some(Value::Boolean(b2)) => {
                                        assert(self.line == (if b2 {
                                            t2
                                        } else {
                                            f2
                                        }));
                                    },
                                    _ => {
                                        assert(false);
                                    },
                                }
                            }
                        },
                        _ => {},
                    }
                },
                VMInstructionType::Return(src2) => {
                    match src2 {
                        VMValue::Variable(w2) => {
                            if w2.spec_name() == "True"@ {
                                assert(self.return_value == Some(Value::Boolean(true)));
                            } else if w2.spec_name() == "False"@ {
                                assert(self.return_value == Some(Value::Boolean(false)));
                            } else {
                                match env_get(old(self).variables@, w2.spec_name()) {
                                    Some(x2) => {
                                        assert(self.return_value == Some(x2));
                                    },
                                    None => {
                                        assert(false);
                                    },
                                }
                            }
                        },
                        _ => {},
                    }
                },
                _ => {},
            }
        }
        Ok(None)
    }
}


/// A frame stays valid when the heap only grows.
proof fn lemma_frame_valid_mono(f: ExecutionFrame, n: int, m: int)
    requires
        f.valid(n),
        n <= m,
    ensures
        f.valid(m),
{
    lemma_env_valid_mono(f.variables@, n, m);
}

/// The whole machine: the function table, the frame stack, and the heap
/// all arrays live in.
pub struct Runtime {
    pub functions: Vec<VMFunction>,
    pub stack: Vec<ExecutionFrame>,
    pub heap: Heap,
}

impl Runtime {
    /// The source line of the instruction the top frame stands on.
    pub open spec fn top_source_line(&self) -> int {
        self.stack@.last().function.instructions@[self.stack@.last().line as int].associated_line
            as int
    }

    pub open spec fn wf(&self) -> bool {
        &&& self.heap.wf()
        &&& forall|i: int|
            #![trigger self.stack@[i]]
            0 <= i < self.stack@.len() ==> self.stack@[i].valid(self.heap.len())
        &&& forall|i: int|
            #![trigger self.functions@[i]]
            0 <= i < self.functions@.len() ==> self.functions@[i].wf()
    }

    /// The index of the first function with the given name, if any.
    fn find_function(&self, name: &str) -> (r: Option<usize>)
        ensures
            r matches Some(i) ==> i < self.functions@.len()
                && self.functions@[i as int].name.spec_text() == name@,
            r is None ==> !(exists|i: int|
                0 <= i < self.functions@.len() && (#[trigger] self.functions@[i]).name.spec_text()
                    == name@),
    {
        let n = self.functions.len();
        let mut i: usize = 0;
        while i < n
            invariant
                n == self.functions@.len(),
                i <= n,
                forall|j: int|
                    0 <= j < i ==> (#[trigger] self.functions@[j]).name.spec_text() != name@,
            decreases n - i,
        {
            if str_eq(self.functions[i].name.extract_text(), name) {
                return Some(i);
            }
            i = i + 1;
        }
        None
    }

    /// Build the function table.  A later function with the same name
    /// replaces an earlier one.
    pub fn load(functions: Vec<VMFunction>) -> (r: Runtime)
        requires
            forall|i: int|
                #![trigger functions@[i]]
                0 <= i < functions@.len() ==> functions@[i].wf(),
        ensures
            r.wf(),
            r.stack@.len() == 0,
            r.heap.len() == 0,
    {
        let mut table: Vec<VMFunction> = Vec::new();
        let n = functions.len();
        let mut i: usize = 0;
        let mut rest = functions;
        while i < n
            invariant
                n == rest@.len(),
                i <= n,
                forall|j: int| #![trigger rest@[j]] 0 <= j < n ==> rest@[j].wf(),
                forall|j: int| #![trigger table@[j]] 0 <= j < table@.len() ==> table@[j].wf(),
            decreases n - i,
        {
            let func = rest[i].duplicate();
            let mut existing: Option<usize> = None;
            let m = table.len();
            let mut k: usize = 0;
            while k < m
                invariant
                    m == table@.len(),
                    k <= m,
                    existing matches Some(e) ==> e < m,
                decreases m - k,
            {
                if str_eq(table[k].name.extract_text(), func.name.extract_text()) {
                    existing = Some(k);
                }
                k = k + 1;
            }
            let ghost prevt = table@;
            let ghost fg = func;
            match existing {
                Some(e) => { table.set(e, func); },
                None => { table.push(func); },
            }
            proof {
                assert(rest@[i as int].wf());
                assert(fg.wf());
                assert forall|j: int| 0 <= j < table@.len() implies (
                #[trigger] table@[j]).wf() by {
                    if j < prevt.len() && table@[j] == prevt[j] {
                    } else {
                        assert(table@[j] == fg);
                    }
                }
            }
            i = i + 1;
        }
        Runtime { functions: table, stack: Vec::new(), heap: Heap::new() }
    }

    /// Push a frame for the named function with the given argument
    /// values; an unknown name is an error.
    pub fn add_stack_frame(&mut self, function_name: VMVariable, arguments: Vec<Value>) -> (r:
        Result<(), GenericError>)
        requires
            old(self).wf(),
            values_valid(arguments@, old(self).heap.len()),
        ensures
            final(self).wf(),
            final(self).heap == old(self).heap,
            final(self).functions == old(self).functions,
            (r is Ok) <==> exists|i: int|
                0 <= i < old(self).functions@.len() && (
                #[trigger] old(self).functions@[i]).name.spec_text()
                    == function_name.spec_name(),
            r is Ok ==> final(self).stack@.len() == old(self).stack@.len() + 1
                && final(self).stack@.last().line == 0 && final(self).stack@.last().return_value
                is None && final(self).stack@.last().passed_return is None && binds_parameters(
                final(self).stack@.last().variables@,
                final(self).stack@.last().function.arguments@,
                arguments@,
            ) && forall|i: int|
                0 <= i < old(self).stack@.len() ==> #[trigger] final(self).stack@[i] == old(
                    self,
                ).stack@[i],
            r is Err ==> final(self).stack == old(self).stack,
    {
        let idx = match self.find_function(function_name.extract_text()) {
            Some(i) => i,
            None => {
                let mut msg = String::from_str("function '");
                msg.append(function_name.extract_text());
                msg.append("' not defined");
                return Err(GenericError::tokenable_error(function_name.get_token(), msg));
            },
        };
        let mut last_lines: Vec<usize> = Vec::new();
        let depth = self.stack.len();
        if depth > 0 {
            let top = &self.stack[depth - 1];
            proof {
                assert(top.valid(self.heap.len()));
            }
            let m = top.last_lines.len();
            let mut k: usize = 0;
            while k < m
                invariant
                    m == top.last_lines@.len(),
                    k <= m,
                decreases m - k,
            {
                last_lines.push(top.last_lines[k]);
                k = k + 1;
            }
            last_lines.push(top.next_instruction().associated_line);
        }
        let func = self.functions[idx].duplicate();
        let frame = ExecutionFrame::new(func, arguments, last_lines);
        let ghost prevs = self.stack@;
        let ghost fg = frame;
        proof {
            assert(fg.valid(self.heap.len()));
        }
        self.stack.push(frame);
        proof {
            assert forall|i: int| 0 <= i < self.stack@.len() implies (
            #[trigger] self.stack@[i]).valid(self.heap.len()) by {
                if i < prevs.len() {
                    assert(self.stack@[i] == prevs[i]);
                } else {
                    assert(self.stack@[i] == fg);
                }
            }
        }
        Ok(())
    }

    /// Begin a run: push a frame for the named entry function, which is
    /// called with no arguments.
    pub fn start_execution(&mut self, function_name: &str) -> (r: Result<(), GenericError>)
        requires
            old(self).wf(),
        ensures
            final(self).wf(),
            final(self).heap == old(self).heap,
            final(self).functions == old(self).functions,
            (r is Ok) <==> exists|i: int|
                0 <= i < old(self).functions@.len() && (
                #[trigger] old(self).functions@[i]).name.spec_text() == function_name@,
            r is Ok ==> final(self).stack@.len() == old(self).stack@.len() + 1
                && final(self).stack@.last().line == 0 && final(self).stack@.last().return_value
                is None && final(self).stack@.last().passed_return is None && binds_parameters(
                final(self).stack@.last().variables@,
                final(self).stack@.last().function.arguments@,
                Seq::<Value>::empty(),
            ) && forall|i: int|
                0 <= i < old(self).stack@.len() ==> #[trigger] final(self).stack@[i] == old(
                    self,
                ).stack@[i],
            r is Err ==> final(self).stack == old(self).stack,
    {
        let idx = match self.find_function(function_name) {
            Some(i) => i,
            None => {
                let mut msg = String::from_str("function '");
                msg.append(function_name);
                msg.append("' not defined");
                return Err(GenericError::tokenless_error(msg));
            },
        };
        let func = self.functions[idx].duplicate();
        let frame = ExecutionFrame::new(func, Vec::new(), Vec::new());
        let ghost prevs = self.stack@;
        let ghost fg = frame;
        proof {
            assert(values_valid(Seq::<Value>::empty(), self.heap.len()));
            assert(fg.valid(self.heap.len()));
        }
        self.stack.push(frame);
        proof {
            assert forall|i: int| 0 <= i < self.stack@.len() implies (
            #[trigger] self.stack@[i]).valid(self.heap.len()) by {
                if i < prevs.len() {
                    assert(self.stack@[i] == prevs[i]);
                } else {
                    assert(self.stack@[i] == fg);
                }
            }
        }
        Ok(())
    }


    /// Pop the finished top frame and hand its return value into the
    /// caller's `passed_return` slot; the caller frame changes in no
    /// other way, and the frames below it not at all.
    fn deliver_return(&mut self)
        requires
            old(self).wf(),
            old(self).stack@.len() >= 1,
            old(self).stack@.last().return_value is Some,
        ensures
            final(self).wf(),
            final(self).functions == old(self).functions,
            final(self).heap == old(self).heap,
            final(self).stack@.len() == old(self).stack@.len() - 1,
            forall|i: int|
                0 <= i < old(self).stack@.len() - 2 ==> #[trigger] final(self).stack@[i] == old(
                    self,
                ).stack@[i],
            old(self).stack@.len() >= 2
                ==> final(self).stack@.last().passed_return
                    == old(self).stack@.last().return_value
                && final(self).stack@.last().variables
                    == old(self).stack@[old(self).stack@.len() - 2].variables
                && final(self).stack@.last().function
                    == old(self).stack@[old(self).stack@.len() - 2].function
                && final(self).stack@.last().line
                    == old(self).stack@[old(self).stack@.len() - 2].line
                && final(self).stack@.last().return_value
                    == old(self).stack@[old(self).stack@.len() - 2].return_value
                && final(self).stack@.last().last_updated
                    == old(self).stack@[old(self).stack@.len() - 2].last_updated
                && final(self).stack@.last().last_read
                    == old(self).stack@[old(self).stack@.len() - 2].last_read,
    {
        proof {
            assert(self.stack@[self.stack@.len() - 1].valid(self.heap.len()));
            if self.stack@.len() >= 2 {
                assert(self.stack@[self.stack@.len() - 2].valid(self.heap.len()));
            }
        }
        let frame = match self.stack.pop() {
            Some(f) => f,
            None => vstd::pervasive::unreached(),
        };
        let value = match frame.return_value {
            Some(v) => v,
            None => vstd::pervasive::unreached(),
        };
        let ghost afterpop = self.stack@;
        proof {
            assert forall|i: int| 0 <= i < self.stack@.len() implies (
            #[trigger] self.stack@[i]).valid(self.heap.len()) by {
                assert(self.stack@[i] == old(self).stack@[i]);
            }
        }
        if self.stack.len() > 0 {
            let mut receiver = match self.stack.pop() {
                Some(f) => f,
                None => vstd::pervasive::unreached(),
            };
            proof {
                assert(afterpop[afterpop.len() - 1] == receiver);
            }
            receiver.passed_return = Some(value);
            let ghost prevs = self.stack@;
            let ghost rg = receiver;
            proof {
                assert forall|i: int| 0 <= i < prevs.len() implies (#[trigger] prevs[i]).valid(
                    self.heap.len(),
                ) by {
                    assert(prevs[i] == afterpop[i]);
                }
            }
            self.stack.push(receiver);
            proof {
                assert forall|i: int| 0 <= i < self.stack@.len() implies (
                #[trigger] self.stack@[i]).valid(self.heap.len()) by {
                    if i < prevs.len() {
                        assert(self.stack@[i] == prevs[i]);
                    } else {
                        assert(self.stack@[i] == rg);
                    }
                }
            }
        }
    }

    /// One machine step on the top frame.  A set return value pops the
    /// frame and hands the value to the caller below; a pending call
    /// pushes the callee's frame; otherwise one instruction runs.  The
    /// result reports whether the current source line changed.
    pub fn single_step(&mut self) -> (r: Result<bool, GenericError>)
        requires
            old(self).wf(),
        ensures
            final(self).wf(),
            final(self).functions == old(self).functions,
            old(self).heap.len() <= final(self).heap.len(),
            final(self).stack@.len() <= old(self).stack@.len() + 1,
            old(self).stack@.len() == 0 ==> r == Ok::<bool, GenericError>(true) && *final(self)
                == *old(self),
            old(self).stack@.len() == 1 && old(self).stack@.last().return_value is Some ==> r
                == Ok::<bool, GenericError>(true) && final(self).stack@.len() == 0
                && final(self).heap == old(self).heap,
            old(self).stack@.len() >= 1 && old(self).stack@.last().return_value is Some ==> (r
                is Ok ==> r == Ok::<bool, GenericError>(true)),
            r matches Ok(b) ==> (old(self).stack@.len() >= 1
                && old(self).stack@.last().return_value is None
                && final(self).stack@.len() == old(self).stack@.len()
                ==> b == (old(self).top_source_line() != final(self).top_source_line())),
            (r is Ok && old(self).stack@.len() >= 1 && old(self).stack@.last().return_value
                is None && final(self).stack@.len() == old(self).stack@.len() + 1
                ==> final(self).stack@.last().line == 0 && final(self).stack@.last().return_value
                    is None && final(self).stack@.last().passed_return is None && forall|i: int|
                    0 <= i < old(self).stack@.len() - 1 ==> #[trigger] final(self).stack@[i]
                        == old(self).stack@[i]),
        decreases old(self).stack@.len(),
    {
        let depth = self.stack.len();
        if depth == 0 {
            return Ok(true);
        }
        proof {
            assert(self.stack@[depth - 1].valid(self.heap.len()));
        }
        let has_return = match &self.stack[depth - 1].return_value {
            Some(_) => true,
            None => false,
        };
        if has_return {
            self.deliver_return();
            match self.single_step() {
                Ok(_) => {},
                Err(e) => { return Err(e); },
            }
            return Ok(true);
        }
        let mut frame = match self.stack.pop() {
            Some(f) => f,
            None => vstd::pervasive::unreached(),
        };
        let ghost n0 = self.heap.len();
        proof {
            assert(frame == old(self).stack@[depth - 1]);
            assert forall|i: int| 0 <= i < self.stack@.len() implies (
            #[trigger] self.stack@[i]).valid(self.heap.len()) by {
                assert(self.stack@[i] == old(self).stack@[i]);
            }
        }
        let at_start = frame.next_instruction().associated_line;
        let step = frame.single_step(&mut self.heap);
        let ghost prevs = self.stack@;
        let ghost fg = frame;
        proof {
            assert forall|i: int| 0 <= i < prevs.len() implies (#[trigger] prevs[i]).valid(
                self.heap.len(),
            ) by {
                lemma_frame_valid_mono(prevs[i], n0, self.heap.len());
            }
        }
        match step {
            Ok(None) => {
                let at_end = frame.next_instruction().associated_line;
                let ghost fg2 = frame;
                self.stack.push(frame);
                proof {
                    assert forall|i: int| 0 <= i < self.stack@.len() implies (
                    #[trigger] self.stack@[i]).valid(self.heap.len()) by {
                        if i < prevs.len() {
                            assert(self.stack@[i] == prevs[i]);
                        } else {
                            assert(self.stack@[i] == fg2);
                        }
                    }
                }
                Ok(at_start != at_end)
            },
            Ok(Some((name, args))) => {
                let ghost fg2 = frame;
                self.stack.push(frame);
                proof {
                    assert forall|i: int| 0 <= i < self.stack@.len() implies (
                    #[trigger] self.stack@[i]).valid(self.heap.len()) by {
                        if i < prevs.len() {
                            assert(self.stack@[i] == prevs[i]);
                        } else {
                            assert(self.stack@[i] == fg2);
                        }
                    }
                }
                match self.add_stack_frame(name, args) {
                    Ok(_) => Ok(true),
                    Err(e) => Err(e),
                }
            },
            Err(e) => {
                let ghost fg2 = frame;
                self.stack.push(frame);
                proof {
                    assert forall|i: int| 0 <= i < self.stack@.len() implies (
                    #[trigger] self.stack@[i]).valid(self.heap.len()) by {
                        if i < prevs.len() {
                            assert(self.stack@[i] == prevs[i]);
                        } else {
                            assert(self.stack@[i] == fg2);
                        }
                    }
                }
                Err(e)
            },
        }
    }

    /// The run is over when no frame is left.
    pub fn is_done(&self) -> (r: bool)
        ensures
            r == (self.stack@.len() == 0),
    {
        self.stack.len() == 0
    }

    /// Empty the audit lists of the top frame, between visible steps.
    pub fn clear(&mut self)
        requires
            old(self).wf(),
        ensures
            final(self).wf(),
            final(self).heap == old(self).heap,
            final(self).functions == old(self).functions,
            final(self).stack@.len() == old(self).stack@.len(),
    {
        let depth = self.stack.len();
        if depth > 0 {
            proof {
                assert(self.stack@[depth - 1].valid(self.heap.len()));
            }
            let mut frame = match self.stack.pop() {
                Some(f) => f,
                None => vstd::pervasive::unreached(),
            };
            frame.clear();
            let ghost prevs = self.stack@;
            let ghost fg = frame;
            proof {
                assert forall|i: int| 0 <= i < prevs.len() implies (#[trigger] prevs[i]).valid(
                    self.heap.len(),
                ) by {
                    assert(prevs[i] == old(self).stack@[i]);
                }
                assert(fg.valid(self.heap.len()));
            }
            self.stack.push(frame);
            proof {
                assert forall|i: int| 0 <= i < self.stack@.len() implies (
                #[trigger] self.stack@[i]).valid(self.heap.len()) by {
                    if i < prevs.len() {
                        assert(self.stack@[i] == prevs[i]);
                    } else {
                        assert(self.stack@[i] == fg);
                    }
                }
            }
        }
    }
}

} // verus!
