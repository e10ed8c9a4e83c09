//! The tree-walking interpreter: direct execution of the parse tree
//! against a variable environment.  Execution carries a step budget
//! (`fuel`); every node visit consumes one unit, so recursion through
//! user functions and loops always terminates, with a budget-exhausted
//! error where a run would not.  A result pairs the computed value with
//! a flag saying whether a `return` was executed.

use vstd::prelude::*;
use vstd::string::StringExecFns;
use crate::error::GenericError;
use crate::interpreter::builtin::builtin_add;
use crate::interpreter::builtin::builtin_div;
use crate::interpreter::builtin::builtin_equality;
use crate::interpreter::builtin::builtin_greater_than;
use crate::interpreter::builtin::builtin_greater_than_equal;
use crate::interpreter::builtin::builtin_indexing;
use crate::interpreter::builtin::builtin_inequality;
use crate::interpreter::builtin::builtin_less_than;
use crate::interpreter::builtin::builtin_less_than_equal;
use crate::interpreter::builtin::builtin_member_access;
use crate::interpreter::builtin::builtin_mul;
use crate::interpreter::builtin::builtin_mutable_indexing;
use crate::interpreter::builtin::builtin_mutable_member_access;
use crate::interpreter::builtin::builtin_sub;
use crate::interpreter::builtin::values_valid;
use crate::interpreter::context::RunTime;
use crate::interpreter::executor::Executor;
use crate::interpreter::value::Heap;
use crate::interpreter::value::Value;
use crate::interpreter::value::value_valid;
use crate::virtualmachine::runtime::env_get;
use crate::numerics::num_eq;
use crate::numerics::num_from_int;
use crate::numerics::num_to_int;
use crate::parser::parsetree::ExpressionType;
use crate::parser::parsetree::ParseTreeNode;

verus! {

/// The error reported when the step budget runs out.
pub fn out_of_steps_error() -> (r: GenericError)
    ensures
        r.error_type is Error,
{
    GenericError::tokenless_error("evaluation step budget exhausted".to_owned())
}

impl ParseTreeNode {
    /// Execute one node.  `Ok((v, true))` means a `return` statement
    /// produced `v`; `Ok((v, false))` is an ordinary value.
    pub fn execute(
        &self,
        rt: &RunTime,
        heap: &mut Heap,
        executor: &mut Executor,
        fuel: u64,
    ) -> (r: (Result<(Value, bool), GenericError>, u64))
        requires
            self.wf(),
            rt.wf(),
            old(heap).wf(),
            old(executor).valid(old(heap).len()),
        ensures
            final(heap).wf(),
            old(heap).len() <= final(heap).len(),
            final(executor).valid(final(heap).len()),
            r.1 <= fuel,
            fuel > 0 ==> r.1 < fuel,
            r.0 matches Ok(v) ==> value_valid(v.0, final(heap).len()),
            fuel == 0 ==> r.0 is Err && r.1 == 0,
            (*self) is NumericValue && fuel > 0 ==> r.0 == Ok::<(Value, bool), GenericError>(
                (Value::Number((*self)->NumericValue_value), false),
            ) && *final(heap) == *old(heap) && *final(executor) == *old(executor),
            (*self) is IdentifierValue && fuel > 0 ==> (*final(heap) == *old(heap)
                && *final(executor) == *old(executor)) && (if (
            *self)->IdentifierValue_token.spec_text() == "True"@ {
                r.0 == Ok::<(Value, bool), GenericError>((Value::Boolean(true), false))
            } else if (*self)->IdentifierValue_token.spec_text() == "False"@ {
                r.0 == Ok::<(Value, bool), GenericError>((Value::Boolean(false), false))
            } else {
                match env_get(
                    old(executor).variables@,
                    (*self)->IdentifierValue_token.spec_text(),
                ) {
                    Some(v) => r.0 == Ok::<(Value, bool), GenericError>((v, false)),
                    None => r.0 is Err,
                }
            }),
            (*self) is ReturnStatement && (*self)->ReturnStatement_expression is None && fuel > 0
                ==> r.0 == Ok::<(Value, bool), GenericError>((Value::Null, true))
                && *final(heap) == *old(heap) && *final(executor) == *old(executor),
            (*self) is Block && (*self)->Block_statements@.len() >= 1
                && (*self)->Block_statements@[0] is ReturnStatement && ((
            *self)->Block_statements@[0])->ReturnStatement_expression is None && fuel >= 2
                ==> r.0 == Ok::<(Value, bool), GenericError>((Value::Null, true))
                && *final(heap) == *old(heap) && *final(executor) == *old(executor),
        decreases fuel, 0int,
    {
        if fuel == 0 {
            return (Err(out_of_steps_error()), 0);
        }
        let mut f = fuel - 1;
        let ghost n0 = heap.len();
        match self {
            ParseTreeNode::Block { statements } => {
                let mut last: (Value, bool) = (Value::Null, false);
                let count = statements.len();
                let mut j: usize = 0;
                while j < count && !last.1
                    invariant
                        count == statements@.len(),
                        j <= count,
                        self.wf(),
                        *self == (ParseTreeNode::Block { statements: *statements }),
                        rt.wf(),
                        heap.wf(),
                        n0 == old(heap).len(),
                        n0 <= heap.len(),
                        executor.valid(heap.len()),
                        f < fuel,
                        value_valid(last.0, heap.len()),
                        count >= 1 && statements@[0] is ReturnStatement
                            && statements@[0]->ReturnStatement_expression is None && fuel >= 2
                            ==> ((j == 0 && f + 1 == fuel && last == (Value::Null, false)
                            && *heap == *old(heap)
                            && *executor == *old(executor)) || (last == (Value::Null, true)
                            && *heap == *old(heap) && *executor == *old(executor))),
                    decreases count - j, (if last.1 { 0int } else { 1int }),
                {
                    proof {
                        assert(statements@[j as int].wf());
                    }
                    let (res, f2) = statements[j].execute(rt, heap, executor, f);
                    f = f2;
                    match res {
                        Ok(v) => { last = v; },
                        Err(e) => { return (Err(e), f); },
                    }
                    if !last.1 {
                        j = j + 1;
                    }
                }
                (Ok(last), f)
            },
            ParseTreeNode::NumericValue { value, .. } => {
                (Ok((Value::Number(*value), false)), f)
            },
            ParseTreeNode::IdentifierValue { token } => {
                if token.text_is("True") {
                    return (Ok((Value::Boolean(true), false)), f);
                }
                if token.text_is("False") {
                    return (Ok((Value::Boolean(false), false)), f);
                }
                match executor.get_variable(token) {
                    Ok(v) => {
                        proof {
                            crate::virtualmachine::runtime::lemma_env_get_valid(
                                executor.variables@,
                                token.spec_text(),
                                heap.len(),
                            );
                        }
                        (Ok((v, false)), f)
                    },
                    Err(e) => (Err(e), f),
                }
            },
            ParseTreeNode::ReturnStatement { expression, .. } => {
                match expression {
                    Some(inner) => {
                        let (res, f2) = inner.execute(rt, heap, executor, f);
                        f = f2;
                        match res {
                            Ok(v) => (Ok((v.0, true)), f),
                            Err(e) => (Err(e), f),
                        }
                    },
                    None => (Ok((Value::Null, true)), f),
                }
            },
            ParseTreeNode::Expression { expression_type, symbols, children } => {
                self.execute_expression(*expression_type, symbols, children, rt, heap, executor, f)
            },
            ParseTreeNode::ForLoop { loop_variable, bound0, bound1, reverse, block, .. } => {
                let (res0, f2) = bound0.execute(rt, heap, executor, f);
                f = f2;
                let value0 = match res0 {
                    Ok(v) => v.0,
                    Err(e) => { return (Err(e), f); },
                };
                let (res1, f3) = bound1.execute(rt, heap, executor, f);
                f = f3;
                let value1 = match res1 {
                    Ok(v) => v.0,
                    Err(e) => { return (Err(e), f); },
                };
                let v0 = match bound_to_integer(value0, bound0, true) {
                    Ok(i) => i,
                    Err(e) => { return (Err(e), f); },
                };
                let v1 = match bound_to_integer(value1, bound1, false) {
                    Ok(i) => i,
                    Err(e) => { return (Err(e), f); },
                };
                let mut i = v0;
                loop
                    invariant
                        (*self) is ForLoop,
                        self.wf(),
                        block.wf(),
                        rt.wf(),
                        heap.wf(),
                        n0 == old(heap).len(),
                        n0 <= heap.len(),
                        executor.valid(heap.len()),
                        f < fuel,
                    decreases f,
                {
                    let proceed = if !*reverse {
                        i <= v1
                    } else {
                        i >= v1
                    };
                    if !proceed {
                        break;
                    }
                    if f == 0 {
                        return (Err(out_of_steps_error()), f);
                    }
                    executor.set_variable(
                        loop_variable.extract_text().to_owned(),
                        Value::Number(num_from_int(i)),
                    );
                    proof {
                        assert forall|k: int| 0 <= k < executor.variables@.len() implies
                            value_valid((#[trigger] executor.variables@[k]).1, heap.len()) by {}
                    }
                    let (res, f4) = block.execute(rt, heap, executor, f);
                    f = f4;
                    match res {
                        Ok(v) => {
                            if v.1 {
                                return (Ok(v), f);
                            }
                        },
                        Err(e) => { return (Err(e), f); },
                    }
                    if !*reverse {
                        if i == v1 {
                            break;
                        }
                        i = i + 1;
                    } else {
                        if i == v1 {
                            break;
                        }
                        i = i - 1;
                    }
                }
                (Ok((Value::Null, false)), f)
            },
            ParseTreeNode::WhileLoop { condition, block, .. } => {
                loop
                    invariant
                        (*self) is WhileLoop,
                        self.wf(),
                        condition.wf(),
                        block.wf(),
                        rt.wf(),
                        heap.wf(),
                        n0 == old(heap).len(),
                        n0 <= heap.len(),
                        executor.valid(heap.len()),
                        f < fuel,
                    decreases f,
                {
                    if f == 0 {
                        return (Err(out_of_steps_error()), f);
                    }
                    let (res, f2) = condition.execute(rt, heap, executor, f);
                    f = f2;
                    let keep_going = match res {
                        Ok((Value::Boolean(b), _)) => b,
                        Ok(_) => {
                            return (
                                Err(
                                    GenericError::error(
                                        condition.get_token().duplicate(),
                                        "condition is not a boolean".to_owned(),
                                    ),
                                ),
                                f,
                            );
                        },
                        Err(e) => { return (Err(e), f); },
                    };
                    if !keep_going {
                        break;
                    }
                    let (res2, f3) = block.execute(rt, heap, executor, f);
                    f = f3;
                    match res2 {
                        Ok(v) => {
                            if v.1 {
                                return (Ok(v), f);
                            }
                        },
                        Err(e) => { return (Err(e), f); },
                    }
                }
                (Ok((Value::Null, false)), f)
            },
            ParseTreeNode::IfStatement { ifs, else_block } => {
                let count = ifs.len();
                let mut j: usize = 0;
                while j < count
                    invariant
                        count == ifs@.len(),
                        j <= count,
                        self.wf(),
                        *self == (ParseTreeNode::IfStatement {
                            ifs: *ifs,
                            else_block: *else_block,
                        }),
                        rt.wf(),
                        heap.wf(),
                        n0 == old(heap).len(),
                        n0 <= heap.len(),
                        executor.valid(heap.len()),
                        f < fuel,
                    decreases count - j,
                {
                    proof {
                        assert(ifs@[j as int].1.wf() && ifs@[j as int].2.wf());
                    }
                    let (res, f2) = ifs[j].1.execute(rt, heap, executor, f);
                    f = f2;
                    let taken = match res {
                        Ok((Value::Boolean(b), _)) => b,
                        Ok(_) => {
                            return (
                                Err(
                                    GenericError::error(
                                        ifs[j].1.get_token().duplicate(),
                                        "condition is not a boolean".to_owned(),
                                    ),
                                ),
                                f,
                            );
                        },
                        Err(e) => { return (Err(e), f); },
                    };
                    if taken {
                        let (res2, f3) = ifs[j].2.execute(rt, heap, executor, f);
                        f = f3;
                        match res2 {
                            Ok(v) => {
                                if v.1 {
                                    return (Ok(v), f);
                                }
                                return (Ok((Value::Null, false)), f);
                            },
                            Err(e) => { return (Err(e), f); },
                        }
                    }
                    j = j + 1;
                }
                match else_block {
                    Some(eb) => {
                        let (res, f2) = eb.execute(rt, heap, executor, f);
                        f = f2;
                        match res {
                            Ok(v) => {
                                if v.1 {
                                    (Ok(v), f)
                                } else {
                                    (Ok((Value::Null, false)), f)
                                }
                            },
                            Err(e) => (Err(e), f),
                        }
                    },
                    None => (Ok((Value::Null, false)), f),
                }
            },
            ParseTreeNode::Function { name, .. } => {
                (
                    Err(
                        GenericError::error(
                            name.duplicate(),
                            "unexpected function definition".to_owned(),
                        ),
                    ),
                    f,
                )
            },
        }
    }

    /// Execute an expression node with an operator.
    #[verifier::rlimit(30)]
    fn execute_expression(
        &self,
        expression_type: ExpressionType,
        symbols: &Vec<crate::tokenizer::Token>,
        children: &Vec<ParseTreeNode>,
        rt: &RunTime,
        heap: &mut Heap,
        executor: &mut Executor,
        fuel: u64,
    ) -> (r: (Result<(Value, bool), GenericError>, u64))
        requires
            symbols@.len() >= 1,
            forall|i: int| #![trigger children@[i]] 0 <= i < children@.len() ==> children@[i].wf(),
            expression_type is FunctionCall ==> children@.len() >= 1,
            !(expression_type is FunctionCall) ==> children@.len() == 2,
            rt.wf(),
            old(heap).wf(),
            old(executor).valid(old(heap).len()),
        ensures
            final(heap).wf(),
            old(heap).len() <= final(heap).len(),
            final(executor).valid(final(heap).len()),
            r.1 <= fuel,
            r.0 matches Ok(v) ==> value_valid(v.0, final(heap).len()) && v.1 == false,
        decreases fuel, 5int,
    {
        let mut f = fuel;
        let ghost n0 = heap.len();
        match expression_type {
            ExpressionType::FunctionCall => {
                let mut args: Vec<Value> = Vec::new();
                let count = children.len();
                let mut j: usize = 1;
                while j < count
                    invariant
                        count == children@.len(),
                        1 <= j <= count,
                        forall|i: int|
                            #![trigger children@[i]]
                            0 <= i < children@.len() ==> children@[i].wf(),
                        rt.wf(),
                        heap.wf(),
                        n0 == old(heap).len(),
                        n0 <= heap.len(),
                        executor.valid(heap.len()),
                        f <= fuel,
                        values_valid(args@, heap.len()),
                    decreases count - j,
                {
                    proof {
                        assert(children@[j as int].wf());
                    }
                    let (res, f2) = children[j].execute(rt, heap, executor, f);
                    f = f2;
                    let v = match res {
                        Ok(v) => v.0,
                        Err(e) => { return (Err(e), f); },
                    };
                    let ghost prev = args@;
                    args.push(v);
                    proof {
                        assert forall|i: int| 0 <= i < args@.len() implies value_valid(
                            #[trigger] args@[i],
                            heap.len(),
                        ) by {
                            if i < prev.len() {
                                assert(args@[i] == prev[i]);
                            }
                        }
                    }
                    j = j + 1;
                }
                let callee = &children[0];
                match callee {
                    ParseTreeNode::IdentifierValue { token } => {
                        let (res, f2) = rt.execute_function(heap, token, args, executor, f);
                        f = f2;
                        match res {
                            Ok(v) => (Ok((v, false)), f),
                            Err(e) => (Err(e), f),
                        }
                    },
                    other => {
                        (
                            Err(
                                GenericError::error(
                                    other.get_token().duplicate(),
                                    "unable to execute non-function value".to_owned(),
                                ).arrow("unable to execute non-function value".to_owned()),
                            ),
                            f,
                        )
                    },
                }
            },
            ExpressionType::Assignment => {
                proof {
                    assert(children@[0].wf() && children@[1].wf());
                }
                let (res, f2) = children[1].execute(rt, heap, executor, f);
                f = f2;
                let value = match res {
                    Ok(v) => v.0,
                    Err(e) => { return (Err(e), f); },
                };
                let (res2, f3) = children[0].execute_mutable(rt, heap, executor, value, f);
                f = f3;
                match res2 {
                    Ok(_) => (Ok((value, false)), f),
                    Err(e) => (Err(e), f),
                }
            },
            ExpressionType::LogicalAnd => {
                builtin_logical_and(children, symbols, rt, heap, executor, f)
            },
            ExpressionType::LogicalOr => {
                builtin_logical_or(children, symbols, rt, heap, executor, f)
            },
            ExpressionType::MemberAccess => {
                proof {
                    assert(children@[0].wf() && children@[1].wf());
                }
                let (res, f2) = children[0].execute(rt, heap, executor, f);
                f = f2;
                let base = match res {
                    Ok(v) => v.0,
                    Err(e) => { return (Err(e), f); },
                };
                match builtin_member_access(heap, base, children[1].get_token().duplicate()) {
                    Ok(v) => {
                        proof {
                            if v == heap.cells@[base->Array_0 as int].heapsize {
                            }
                        }
                        (Ok((v, false)), f)
                    },
                    Err(e) => (Err(e.finish(symbols[0].duplicate())), f),
                }
            },
            _ => {
                proof {
                    assert(children@[0].wf() && children@[1].wf());
                }
                let (res, f2) = children[0].execute(rt, heap, executor, f);
                f = f2;
                let a = match res {
                    Ok(v) => v.0,
                    Err(e) => { return (Err(e), f); },
                };
                let (res2, f3) = children[1].execute(rt, heap, executor, f);
                f = f3;
                let b = match res2 {
                    Ok(v) => v.0,
                    Err(e) => { return (Err(e), f); },
                };
                let mut args: Vec<Value> = Vec::new();
                args.push(a);
                args.push(b);
                let computed = match expression_type {
                    ExpressionType::Add => builtin_add(args),
                    ExpressionType::Subtract => builtin_sub(args),
                    ExpressionType::Multiply => builtin_mul(args),
                    ExpressionType::Divide => builtin_div(args),
                    ExpressionType::GreaterThan => builtin_greater_than(args),
                    ExpressionType::LessThan => builtin_less_than(args),
                    ExpressionType::GreaterThanEqual => builtin_greater_than_equal(args),
                    ExpressionType::LessThanEqual => builtin_less_than_equal(args),
                    ExpressionType::Equality => builtin_equality(heap, args),
                    ExpressionType::Inequality => builtin_inequality(heap, args),
                    ExpressionType::Indexing => builtin_indexing(heap, args),
                    _ => { return (Err(GenericError::tokenless_error(
                        "unexpected expression form".to_owned())), f); },
                };
                match computed {
                    Ok(v) => {
                        proof {
                            assert(value_valid(v, heap.len()));
                        }
                        (Ok((v, false)), f)
                    },
                    Err(e) => (Err(e.finish(symbols[0].duplicate())), f),
                }
            },
        }
    }

    /// Assign `value` into the place this node denotes.
    pub fn execute_mutable(
        &self,
        rt: &RunTime,
        heap: &mut Heap,
        executor: &mut Executor,
        value: Value,
        fuel: u64,
    ) -> (r: (Result<(), GenericError>, u64))
        requires
            self.wf(),
            rt.wf(),
            old(heap).wf(),
            old(executor).valid(old(heap).len()),
            value_valid(value, old(heap).len()),
        ensures
            final(heap).wf(),
            old(heap).len() <= final(heap).len(),
            final(executor).valid(final(heap).len()),
            r.1 <= fuel,
            (*self) is IdentifierValue ==> (if (*self)->IdentifierValue_token.spec_text()
                == "True"@ || (*self)->IdentifierValue_token.spec_text() == "False"@ {
                r.0 is Err && *final(heap) == *old(heap) && *final(executor) == *old(executor)
            } else {
                r.0 is Ok && *final(heap) == *old(heap) && env_get(
                    final(executor).variables@,
                    (*self)->IdentifierValue_token.spec_text(),
                ) == Some(value) && forall|n: Seq<char>|
                    n != (*self)->IdentifierValue_token.spec_text() ==> env_get(
                        final(executor).variables@,
                        n,
                    ) == env_get(old(executor).variables@, n)
            }),
        decreases fuel, 1int,
    {
        let mut f = fuel;
        let ghost n0 = heap.len();
        match self {
            ParseTreeNode::IdentifierValue { token } => {
                if token.text_is("True") || token.text_is("False") {
                    return (
                        (Err(
                            GenericError::error(
                                token.duplicate(),
                                "unable to assign to boolean".to_owned(),
                            ),
                        )),
                        f,
                    );
                }
                executor.set_variable(token.extract_text().to_owned(), value);
                proof {
                    assert forall|k: int| 0 <= k < executor.variables@.len() implies value_valid(
                        (#[trigger] executor.variables@[k]).1,
                        heap.len(),
                    ) by {}
                }
                (Ok(()), f)
            },
            ParseTreeNode::Expression { expression_type: ExpressionType::Indexing, symbols, children } => {
                proof {
                    assert(children@[0].wf() && children@[1].wf());
                }
                let (res, f2) = children[0].execute(rt, heap, executor, f);
                f = f2;
                let base = match res {
                    Ok(v) => v.0,
                    Err(e) => { return (Err(e), f); },
                };
                let (res2, f3) = children[1].execute(rt, heap, executor, f);
                f = f3;
                let index = match res2 {
                    Ok(v) => v.0,
                    Err(e) => { return (Err(e), f); },
                };
                let mut args: Vec<Value> = Vec::new();
                args.push(base);
                args.push(index);
                proof {
                    assert(value_valid(value, heap.len()));
                }
                match builtin_mutable_indexing(heap, args, value) {
                    Ok(_) => (Ok(()), f),
                    Err(e) => (Err(e.finish(symbols[0].duplicate())), f),
                }
            },
            ParseTreeNode::Expression {
                expression_type: ExpressionType::MemberAccess,
                symbols,
                children,
            } => {
                proof {
                    assert(children@[0].wf() && children@[1].wf());
                }
                let (res, f2) = children[0].execute(rt, heap, executor, f);
                f = f2;
                let base = match res {
                    Ok(v) => v.0,
                    Err(e) => { return (Err(e), f); },
                };
                proof {
                    assert(value_valid(value, heap.len()));
                }
                match builtin_mutable_member_access(
                    heap,
                    base,
                    children[1].get_token().duplicate(),
                    value,
                ) {
                    Ok(_) => (Ok(()), f),
                    Err(e) => (Err(e.finish(symbols[0].duplicate())), f),
                }
            },
            other => {
                (
                    Err(
                        GenericError::error(
                            other.get_token().duplicate(),
                            "unable to assign to immutable left hand side".to_owned(),
                        ),
                    ),
                    f,
                )
            },
        }
    }
}

/// Turn a loop bound into a machine integer: negative zero counts as
/// zero, any other non-integral or non-numeric bound is an error.
fn bound_to_integer(v: Value, node: &ParseTreeNode, first: bool) -> (r: Result<i64, GenericError>)
    requires
        node.wf(),
{
    match v {
        Value::Number(bits) => {
            match num_to_int(bits) {
                Some(i) => Ok(i),
                None => {
                    if num_eq(bits, 0) {
                        Ok(0)
                    } else if first {
                        Err(
                            GenericError::error(
                                node.get_token().duplicate(),
                                "first bound is not an integer".to_owned(),
                            ),
                        )
                    } else {
                        Err(
                            GenericError::error(
                                node.get_token().duplicate(),
                                "second bound is not an integer".to_owned(),
                            ),
                        )
                    }
                },
            }
        },
        _ => {
            if first {
                Err(
                    GenericError::error(
                        node.get_token().duplicate(),
                        "first bound is not a number".to_owned(),
                    ),
                )
            } else {
                Err(
                    GenericError::error(
                        node.get_token().duplicate(),
                        "second bound is not a number".to_owned(),
                    ),
                )
            }
        },
    }
}

/// Short-circuiting `and`: a false left operand decides without the
/// right operand being evaluated; both must be booleans when evaluated.
pub fn builtin_logical_and(
    children: &Vec<ParseTreeNode>,
    symbols: &Vec<crate::tokenizer::Token>,
    rt: &RunTime,
    heap: &mut Heap,
    executor: &mut Executor,
    fuel: u64,
) -> (r: (Result<(Value, bool), GenericError>, u64))
    requires
        children@.len() == 2,
        symbols@.len() >= 1,
        forall|i: int| #![trigger children@[i]] 0 <= i < children@.len() ==> children@[i].wf(),
        rt.wf(),
        old(heap).wf(),
        old(executor).valid(old(heap).len()),
    ensures
        final(heap).wf(),
        old(heap).len() <= final(heap).len(),
        final(executor).valid(final(heap).len()),
        r.1 <= fuel,
        r.0 matches Ok(v) ==> value_valid(v.0, final(heap).len()) && v.0 is Boolean && v.1
            == false,
        children@[0] is IdentifierValue && children@[0]->IdentifierValue_token.spec_text()
            == "False"@ && fuel > 0 ==> r.0 == Ok::<(Value, bool), GenericError>(
            (Value::Boolean(false), false),
        ) && *final(heap) == *old(heap) && *final(executor) == *old(executor),
    decreases fuel, 1int,
{
    let mut f = fuel;
    proof {
        assert(children@[0].wf() && children@[1].wf());
        reveal_strlit("True");
        reveal_strlit("False");
        assert("True"@.len() != "False"@.len());
    }
    let (res, f2) = children[0].execute(rt, heap, executor, f);
    f = f2;
    let a = match res {
        Ok(v) => v.0,
        Err(e) => { return (Err(e), f); },
    };
    let a_bool = match a {
        Value::Boolean(b) => b,
        other => {
            let mut msg = String::from_str("cannot and value of type ");
            msg.append(other.get_type_name());
            let arrow = msg.clone();
            return (
                Err(GenericError::error(symbols[0].duplicate(), msg).arrow(arrow)),
                f,
            );
        },
    };
    if !a_bool {
        return (Ok((Value::Boolean(false), false)), f);
    }
    let (res2, f3) = children[1].execute(rt, heap, executor, f);
    f = f3;
    let b = match res2 {
        Ok(v) => v.0,
        Err(e) => { return (Err(e), f); },
    };
    match b {
        Value::Boolean(b) => (Ok((Value::Boolean(b), false)), f),
        other => {
            let mut msg = String::from_str("cannot and value of type ");
            msg.append(other.get_type_name());
            let arrow = msg.clone();
            (Err(GenericError::error(symbols[0].duplicate(), msg).arrow(arrow)), f)
        },
    }
}

/// Short-circuiting `or`: a true left operand decides without the right
/// operand being evaluated.
pub fn builtin_logical_or(
    children: &Vec<ParseTreeNode>,
    symbols: &Vec<crate::tokenizer::Token>,
    rt: &RunTime,
    heap: &mut Heap,
    executor: &mut Executor,
    fuel: u64,
) -> (r: (Result<(Value, bool), GenericError>, u64))
    requires
        children@.len() == 2,
        symbols@.len() >= 1,
        forall|i: int| #![trigger children@[i]] 0 <= i < children@.len() ==> children@[i].wf(),
        rt.wf(),
        old(heap).wf(),
        old(executor).valid(old(heap).len()),
    ensures
        final(heap).wf(),
        old(heap).len() <= final(heap).len(),
        final(executor).valid(final(heap).len()),
        r.1 <= fuel,
        r.0 matches Ok(v) ==> value_valid(v.0, final(heap).len()) && v.0 is Boolean && v.1
            == false,
        children@[0] is IdentifierValue && children@[0]->IdentifierValue_token.spec_text()
            == "True"@ && fuel > 0 ==> r.0 == Ok::<(Value, bool), GenericError>(
            (Value::Boolean(true), false),
        ) && *final(heap) == *old(heap) && *final(executor) == *old(executor),
    decreases fuel, 1int,
{
    let mut f = fuel;
    proof {
        assert(children@[0].wf() && children@[1].wf());
        reveal_strlit("True");
        reveal_strlit("False");
        assert("True"@.len() != "False"@.len());
    }
    let (res, f2) = children[0].execute(rt, heap, executor, f);
    f = f2;
    let a = match res {
        Ok(v) => v.0,
        Err(e) => { return (Err(e), f); },
    };
    let a_bool = match a {
        Value::Boolean(b) => b,
        other => {
            let mut msg = String::from_str("cannot or value of type ");
            msg.append(other.get_type_name());
            let arrow = msg.clone();
            return (
                Err(GenericError::error(symbols[0].duplicate(), msg).arrow(arrow)),
                f,
            );
        },
    };
    if a_bool {
        return (Ok((Value::Boolean(true), false)), f);
    }
    let (res2, f3) = children[1].execute(rt, heap, executor, f);
    f = f3;
    let b = match res2 {
        Ok(v) => v.0,
        Err(e) => { return (Err(e), f); },
    };
    match b {
        Value::Boolean(b) => (Ok((Value::Boolean(b), false)), f),
        other => {
            let mut msg = String::from_str("cannot or value of type ");
            msg.append(other.get_type_name());
            let arrow = msg.clone();
            (Err(GenericError::error(symbols[0].duplicate(), msg).arrow(arrow)), f)
        },
    }
}

} // verus!
