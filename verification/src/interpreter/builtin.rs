//! The built-in value operations shared by both back ends.  Each one's
//! contract says exactly on which inputs it succeeds and what it returns;
//! the error cases mirror the failure table of the value model: type
//! errors, bad argument counts, and bad indices.

use vstd::prelude::*;
use vstd::string::StringExecFns;
use std::io::Write;
use crate::error::GenericError;
use crate::numerics::add_bits;
use crate::numerics::bits_of_int;
use crate::numerics::ceil_bits;
use crate::numerics::div_bits;
use crate::numerics::floor_bits;
use crate::numerics::ge_bits;
use crate::numerics::gt_bits;
use crate::numerics::int_of_bits;
use crate::numerics::le_bits;
use crate::numerics::lt_bits;
use crate::numerics::mul_bits;
use crate::numerics::num_add;
use crate::numerics::num_ceil;
use crate::numerics::num_div;
use crate::numerics::num_floor;
use crate::numerics::num_from_int;
use crate::numerics::num_ge;
use crate::numerics::num_gt;
use crate::numerics::num_le;
use crate::numerics::num_lt;
use crate::numerics::num_mul;
use crate::numerics::num_sub;
use crate::numerics::num_to_int;
use crate::numerics::sub_bits;
use crate::interpreter::error::RuntimeError;
use crate::interpreter::value::Heap;
use crate::interpreter::value::Value;
use crate::interpreter::value::render_value;
use crate::interpreter::value::spec_render_value;
use crate::interpreter::value::spec_value_eq;
use crate::interpreter::value::nesting_fuel;
use crate::interpreter::value::nesting_fuel_for;
use crate::interpreter::value::value_eq;
use crate::interpreter::value::value_valid;
use crate::tokenizer::Token;

verus! {

/// All values of the sequence are valid references into a heap of `n`
/// cells.
pub open spec fn values_valid(vs: Seq<Value>, n: int) -> bool {
    forall|i: int| #![trigger vs[i]] 0 <= i < vs.len() ==> value_valid(vs[i], n)
}

/// The single argument of a one-argument call.
pub fn get_args1<T: Copy>(args: Vec<T>) -> (r: Result<T, RuntimeError>)
    ensures
        match r {
            Ok(v) => args@.len() == 1 && v == args@[0],
            Err(e) => args@.len() != 1 && (e matches RuntimeError::ArgumentCountError {
                expected,
                got,
            } && expected == 1 && got == args@.len()),
        },
{
    if args.len() != 1 {
        Err(RuntimeError::ArgumentCountError { expected: 1, got: args.len() })
    } else {
        Ok(args[0])
    }
}

/// The two arguments of a two-argument call.
pub fn get_args2<T: Copy>(args: Vec<T>) -> (r: Result<(T, T), RuntimeError>)
    ensures
        match r {
            Ok(v) => args@.len() == 2 && v.0 == args@[0] && v.1 == args@[1],
            Err(e) => args@.len() != 2 && (e matches RuntimeError::ArgumentCountError {
                expected,
                got,
            } && expected == 2 && got == args@.len()),
        },
{
    if args.len() != 2 {
        Err(RuntimeError::ArgumentCountError { expected: 2, got: args.len() })
    } else {
        Ok((args[0], args[1]))
    }
}

/// "cannot <verb> values of type <a> and <b>"
fn two_type_error(verb: &str, a: Value, b: Value) -> (r: RuntimeError)
    ensures
        r is MessageError,
{
    let mut msg = String::from_str("cannot ");
    msg.append(verb);
    msg.append(" values of type ");
    msg.append(a.get_type_name());
    msg.append(" and ");
    msg.append(b.get_type_name());
    RuntimeError::MessageError(msg)
}

/// What arithmetic on two values yields: a number when both are numbers.
pub open spec fn spec_arith(op_bits: spec_fn(u64, u64) -> u64, a: Value, b: Value) -> Option<
    Value,
> {
    match (a, b) {
        (Value::Number(x), Value::Number(y)) => Some(Value::Number(op_bits(x, y))),
        _ => None,
    }
}

/// What a numeric comparison of two values yields.
pub open spec fn spec_compare(op_bits: spec_fn(u64, u64) -> bool, a: Value, b: Value) -> Option<
    Value,
> {
    match (a, b) {
        (Value::Number(x), Value::Number(y)) => Some(Value::Boolean(op_bits(x, y))),
        _ => None,
    }
}

pub fn builtin_add(args: Vec<Value>) -> (r: Result<Value, RuntimeError>)
    ensures
        match r {
            Ok(v) => args@.len() == 2 && Some(v) == spec_arith(
                |x, y| add_bits(x, y),
                args@[0],
                args@[1],
            ),
            Err(e) => if args@.len() != 2 {
                e == (RuntimeError::ArgumentCountError { expected: 2, got: args@.len() as usize })
            } else {
                e is MessageError && spec_arith(|x, y| add_bits(x, y), args@[0], args@[1]) is None
            },
        },
{
    let (a, b) = match get_args2(args) {
        Ok(v) => v,
        Err(e) => { return Err(e); },
    };
    if let (Value::Number(x), Value::Number(y)) = (a, b) {
        Ok(Value::Number(num_add(x, y)))
    } else {
        Err(two_type_error("add", a, b))
    }
}

pub fn builtin_sub(args: Vec<Value>) -> (r: Result<Value, RuntimeError>)
    ensures
        match r {
            Ok(v) => args@.len() == 2 && Some(v) == spec_arith(
                |x, y| sub_bits(x, y),
                args@[0],
                args@[1],
            ),
            Err(e) => if args@.len() != 2 {
                e == (RuntimeError::ArgumentCountError { expected: 2, got: args@.len() as usize })
            } else {
                e is MessageError && spec_arith(|x, y| sub_bits(x, y), args@[0], args@[1]) is None
            },
        },
{
    let (a, b) = match get_args2(args) {
        Ok(v) => v,
        Err(e) => { return Err(e); },
    };
    if let (Value::Number(x), Value::Number(y)) = (a, b) {
        Ok(Value::Number(num_sub(x, y)))
    } else {
        Err(two_type_error("subtract", a, b))
    }
}

pub fn builtin_mul(args: Vec<Value>) -> (r: Result<Value, RuntimeError>)
    ensures
        match r {
            Ok(v) => args@.len() == 2 && Some(v) == spec_arith(
                |x, y| mul_bits(x, y),
                args@[0],
                args@[1],
            ),
            Err(e) => if args@.len() != 2 {
                e == (RuntimeError::ArgumentCountError { expected: 2, got: args@.len() as usize })
            } else {
                e is MessageError && spec_arith(|x, y| mul_bits(x, y), args@[0], args@[1]) is None
            },
        },
{
    let (a, b) = match get_args2(args) {
        Ok(v) => v,
        Err(e) => { return Err(e); },
    };
    if let (Value::Number(x), Value::Number(y)) = (a, b) {
        Ok(Value::Number(num_mul(x, y)))
    } else {
        Err(two_type_error("multiply", a, b))
    }
}

/// Division of numbers is IEEE-754 division: dividing by zero yields an
/// infinity, never an error.
pub fn builtin_div(args: Vec<Value>) -> (r: Result<Value, RuntimeError>)
    ensures
        match r {
            Ok(v) => args@.len() == 2 && Some(v) == spec_arith(
                |x, y| div_bits(x, y),
                args@[0],
                args@[1],
            ),
            Err(e) => if args@.len() != 2 {
                e == (RuntimeError::ArgumentCountError { expected: 2, got: args@.len() as usize })
            } else {
                e is MessageError && spec_arith(|x, y| div_bits(x, y), args@[0], args@[1]) is None
            },
        },
{
    let (a, b) = match get_args2(args) {
        Ok(v) => v,
        Err(e) => { return Err(e); },
    };
    if let (Value::Number(x), Value::Number(y)) = (a, b) {
        Ok(Value::Number(num_div(x, y)))
    } else {
        Err(two_type_error("divide", a, b))
    }
}

pub fn builtin_greater_than(args: Vec<Value>) -> (r: Result<Value, RuntimeError>)
    ensures
        match r {
            Ok(v) => args@.len() == 2 && Some(v) == spec_compare(
                |x, y| gt_bits(x, y),
                args@[0],
                args@[1],
            ),
            Err(e) => if args@.len() != 2 {
                e == (RuntimeError::ArgumentCountError { expected: 2, got: args@.len() as usize })
            } else {
                e is MessageError && spec_compare(|x, y| gt_bits(x, y), args@[0], args@[1])
                    is None
            },
        },
{
    let (a, b) = match get_args2(args) {
        Ok(v) => v,
        Err(e) => { return Err(e); },
    };
    if let (Value::Number(x), Value::Number(y)) = (a, b) {
        Ok(Value::Boolean(num_gt(x, y)))
    } else {
        Err(two_type_error("compare", a, b))
    }
}

pub fn builtin_less_than(args: Vec<Value>) -> (r: Result<Value, RuntimeError>)
    ensures
        match r {
            Ok(v) => args@.len() == 2 && Some(v) == spec_compare(
                |x, y| lt_bits(x, y),
                args@[0],
                args@[1],
            ),
            Err(e) => if args@.len() != 2 {
                e == (RuntimeError::ArgumentCountError { expected: 2, got: args@.len() as usize })
            } else {
                e is MessageError && spec_compare(|x, y| lt_bits(x, y), args@[0], args@[1])
                    is None
            },
        },
{
    let (a, b) = match get_args2(args) {
        Ok(v) => v,
        Err(e) => { return Err(e); },
    };
    if let (Value::Number(x), Value::Number(y)) = (a, b) {
        Ok(Value::Boolean(num_lt(x, y)))
    } else {
        Err(two_type_error("compare", a, b))
    }
}

pub fn builtin_greater_than_equal(args: Vec<Value>) -> (r: Result<Value, RuntimeError>)
    ensures
        match r {
            Ok(v) => args@.len() == 2 && Some(v) == spec_compare(
                |x, y| ge_bits(x, y),
                args@[0],
                args@[1],
            ),
            Err(e) => if args@.len() != 2 {
                e == (RuntimeError::ArgumentCountError { expected: 2, got: args@.len() as usize })
            } else {
                e is MessageError && spec_compare(|x, y| ge_bits(x, y), args@[0], args@[1])
                    is None
            },
        },
{
    let (a, b) = match get_args2(args) {
        Ok(v) => v,
        Err(e) => { return Err(e); },
    };
    if let (Value::Number(x), Value::Number(y)) = (a, b) {
        Ok(Value::Boolean(num_ge(x, y)))
    } else {
        Err(two_type_error("compare", a, b))
    }
}

pub fn builtin_less_than_equal(args: Vec<Value>) -> (r: Result<Value, RuntimeError>)
    ensures
        match r {
            Ok(v) => args@.len() == 2 && Some(v) == spec_compare(
                |x, y| le_bits(x, y),
                args@[0],
                args@[1],
            ),
            Err(e) => if args@.len() != 2 {
                e == (RuntimeError::ArgumentCountError { expected: 2, got: args@.len() as usize })
            } else {
                e is MessageError && spec_compare(|x, y| le_bits(x, y), args@[0], args@[1])
                    is None
            },
        },
{
    let (a, b) = match get_args2(args) {
        Ok(v) => v,
        Err(e) => { return Err(e); },
    };
    if let (Value::Number(x), Value::Number(y)) = (a, b) {
        Ok(Value::Boolean(num_le(x, y)))
    } else {
        Err(two_type_error("compare", a, b))
    }
}

/// Structural equality of any two values.  The only failure, besides a
/// bad argument count, is exhaustion of the nesting budget, which no
/// source-built (acyclic) heap can cause.
pub fn builtin_equality(heap: &Heap, args: Vec<Value>) -> (r: Result<Value, RuntimeError>)
    requires
        heap.wf(),
        values_valid(args@, heap.len()),
    ensures
        match r {
            Ok(v) => args@.len() == 2 && Some(v) == match spec_value_eq(
                heap.cells@,
                args@[0],
                args@[1],
                nesting_fuel(heap.len()),
            ) {
                Some(b) => Some(Value::Boolean(b)),
                None => None,
            },
            Err(e) => if args@.len() != 2 {
                e == (RuntimeError::ArgumentCountError { expected: 2, got: args@.len() as usize })
            } else {
                e is MessageError && spec_value_eq(
                    heap.cells@,
                    args@[0],
                    args@[1],
                    nesting_fuel(heap.len()),
                ) is None
            },
        },
{
    let (a, b) = match get_args2(args) {
        Ok(v) => v,
        Err(e) => { return Err(e); },
    };
    let fuel = nesting_fuel_for(heap);
    match value_eq(heap, a, b, fuel) {
        Some(v) => Ok(Value::Boolean(v)),
        None => Err(RuntimeError::MessageError(String::from_str("array nesting is too deep"))),
    }
}

/// Structural inequality: the negation of `builtin_equality`.
pub fn builtin_inequality(heap: &Heap, args: Vec<Value>) -> (r: Result<Value, RuntimeError>)
    requires
        heap.wf(),
        values_valid(args@, heap.len()),
    ensures
        match r {
            Ok(v) => args@.len() == 2 && Some(v) == match spec_value_eq(
                heap.cells@,
                args@[0],
                args@[1],
                nesting_fuel(heap.len()),
            ) {
                Some(b) => Some(Value::Boolean(!b)),
                None => None,
            },
            Err(e) => if args@.len() != 2 {
                e == (RuntimeError::ArgumentCountError { expected: 2, got: args@.len() as usize })
            } else {
                e is MessageError && spec_value_eq(
                    heap.cells@,
                    args@[0],
                    args@[1],
                    nesting_fuel(heap.len()),
                ) is None
            },
        },
{
    let (a, b) = match get_args2(args) {
        Ok(v) => v,
        Err(e) => { return Err(e); },
    };
    let fuel = nesting_fuel_for(heap);
    match value_eq(heap, a, b, fuel) {
        Some(v) => Ok(Value::Boolean(!v)),
        None => Err(RuntimeError::MessageError(String::from_str("array nesting is too deep"))),
    }
}

/// A new shared array holding the arguments, with `heapsize` zero.
pub fn builtin_array(heap: &mut Heap, args: Vec<Value>) -> (r: Result<Value, RuntimeError>)
    requires
        old(heap).wf(),
        values_valid(args@, old(heap).len()),
    ensures
        final(heap).wf(),
        final(heap).len() == old(heap).len() + 1,
        final(heap).cells@[old(heap).len()].elements@ == args@,
        final(heap).cells@[old(heap).len()].heapsize == Value::Number(0),
        forall|j: int| #![trigger final(heap).cells@[j]] 0 <= j < old(heap).cells@.len()
            ==> final(heap).cells@[j] == old(heap).cells@[j],
        r == Ok::<Value, RuntimeError>(Value::Array(old(heap).cells@.len() as usize)),
{
    let idx = heap.alloc_cell(args, Value::Number(0));
    Ok(Value::Array(idx))
}

/// The 1-based index a number denotes, if it is a positive integer.
pub open spec fn spec_array_index(b: u64) -> Option<int> {
    match int_of_bits(b) {
        Some(i) => if i >= 1 {
            Some(i as int)
        } else {
            None
        },
        None => None,
    }
}

/// Read `array[index]`.  Indexing is 1-based; it succeeds exactly on an
/// array, a positive integral index, and an index at most the length.
pub fn builtin_indexing(heap: &Heap, args: Vec<Value>) -> (r: Result<Value, RuntimeError>)
    requires
        heap.wf(),
        values_valid(args@, heap.len()),
    ensures
        match r {
            Ok(v) => {
                &&& args@.len() == 2
                &&& args@[0] matches Value::Array(a)
                &&& args@[1] matches Value::Number(b)
                &&& spec_array_index(b) matches Some(i)
                &&& i <= heap.cells@[a as int].elements@.len()
                &&& v == heap.cells@[a as int].elements@[i - 1]
            },
            Err(e) => if args@.len() != 2 {
                e == (RuntimeError::ArgumentCountError { expected: 2, got: args@.len() as usize })
            } else {
                e is MessageError && !({
                    &&& args@[0] matches Value::Array(a)
                    &&& args@[1] matches Value::Number(b)
                    &&& spec_array_index(b) matches Some(i)
                    &&& i <= heap.cells@[a as int].elements@.len()
                })
            },
        },
{
    let (a, b) = match get_args2(args) {
        Ok(v) => v,
        Err(e) => { return Err(e); },
    };
    if let Value::Array(arr) = a {
        if let Value::Number(bits) = b {
            let idx = match num_to_int(bits) {
                Some(i) => i,
                None => {
                    return Err(RuntimeError::MessageError(
                        String::from_str("index is not a positive integer"),
                    ));
                },
            };
            if idx < 1 {
                return Err(RuntimeError::MessageError(
                    String::from_str("index is not a positive integer"),
                ));
            }
            let n = heap.array_len(arr);
            if idx as u64 > n as u64 {
                return Err(RuntimeError::MessageError(String::from_str("index is out of bounds")));
            }
            Ok(heap.array_get(arr, (idx as u64 - 1) as usize))
        } else {
            let mut msg = String::from_str("cannot index using type ");
            msg.append(b.get_type_name());
            Err(RuntimeError::MessageError(msg))
        }
    } else {
        let mut msg = String::from_str("cannot index into type ");
        msg.append(a.get_type_name());
        Err(RuntimeError::MessageError(msg))
    }
}

/// Write `array[index] = value`, under the same index rules as reading.
pub fn builtin_mutable_indexing(heap: &mut Heap, args: Vec<Value>, value_to_assign: Value) -> (r:
    Result<(), RuntimeError>)
    requires
        old(heap).wf(),
        values_valid(args@, old(heap).len()),
        value_valid(value_to_assign, old(heap).len()),
    ensures
        final(heap).wf(),
        final(heap).len() == old(heap).len(),
        match r {
            Ok(_) => {
                &&& args@.len() == 2
                &&& args@[0] matches Value::Array(a)
                &&& args@[1] matches Value::Number(b)
                &&& spec_array_index(b) matches Some(i)
                &&& i <= old(heap).cells@[a as int].elements@.len()
                &&& final(heap).cells@[a as int].elements@ == old(heap).cells@[a
                    as int].elements@.update(i - 1, value_to_assign)
                &&& final(heap).cells@[a as int].heapsize == old(heap).cells@[a as int].heapsize
                &&& forall|j: int| #![trigger final(heap).cells@[j]] 0 <= j < old(
                    heap,
                ).cells@.len() && j != a ==> final(heap).cells@[j] == old(heap).cells@[j]
            },
            Err(e) => {
                &&& final(heap).cells@ == old(heap).cells@
                &&& if args@.len() != 2 {
                    e == (RuntimeError::ArgumentCountError {
                        expected: 2,
                        got: args@.len() as usize,
                    })
                } else {
                    e is MessageError && !({
                        &&& args@[0] matches Value::Array(a)
                        &&& args@[1] matches Value::Number(b)
                        &&& spec_array_index(b) matches Some(i)
                        &&& i <= old(heap).cells@[a as int].elements@.len()
                    })
                }
            },
        },
{
    let (a, b) = match get_args2(args) {
        Ok(v) => v,
        Err(e) => { return Err(e); },
    };
    if let Value::Array(arr) = a {
        if let Value::Number(bits) = b {
            let idx = match num_to_int(bits) {
                Some(i) => i,
                None => {
                    return Err(RuntimeError::MessageError(
                        String::from_str("index is not a positive integer"),
                    ));
                },
            };
            if idx < 1 {
                return Err(RuntimeError::MessageError(
                    String::from_str("index is not a positive integer"),
                ));
            }
            let n = heap.array_len(arr);
            if idx as u64 > n as u64 {
                return Err(RuntimeError::MessageError(String::from_str("index is out of bounds")));
            }
            heap.array_set(arr, (idx as u64 - 1) as usize, value_to_assign);
            Ok(())
        } else {
            let mut msg = String::from_str("cannot index using type ");
            msg.append(b.get_type_name());
            Err(RuntimeError::MessageError(msg))
        }
    } else {
        let mut msg = String::from_str("cannot index into type ");
        msg.append(a.get_type_name());
        Err(RuntimeError::MessageError(msg))
    }
}

/// Read a member: `.length` is the element count of an array, read-only;
/// `.heapsize` is its user-controlled slot.  Everything else fails.
pub fn builtin_member_access(heap: &Heap, arg0: Value, member_token: Token) -> (r: Result<
    Value,
    RuntimeError,
>)
    requires
        heap.wf(),
        value_valid(arg0, heap.len()),
    ensures
        match r {
            Ok(v) => {
                &&& arg0 matches Value::Array(a)
                &&& if member_token.spec_text() == "length"@ {
                    v == Value::Number(
                        bits_of_int(heap.cells@[a as int].elements@.len() as i64),
                    )
                } else {
                    member_token.spec_text() == "heapsize"@ && v == heap.cells@[a
                        as int].heapsize
                }
            },
            Err(e) => e matches RuntimeError::FinishedError(g) && g.error_type is Error && !({
                &&& arg0 is Array
                &&& member_token.spec_text() == "length"@ || member_token.spec_text()
                    == "heapsize"@
            }),
        },
{
    if let Value::Array(arr) = arg0 {
        if member_token.text_is("length") {
            let n = heap.array_len(arr);
            Ok(Value::Number(num_from_int(n as i64)))
        } else if member_token.text_is("heapsize") {
            Ok(heap.array_heapsize(arr))
        } else {
            let mut msg = String::from_str("cannot access member '");
            msg.append(member_token.extract_text());
            msg.append("' of array");
            let arrow = msg.clone();
            Err(RuntimeError::FinishedError(GenericError::error(member_token, msg).arrow(arrow)))
        }
    } else {
        let mut msg = String::from_str("cannot access member '");
        msg.append(member_token.extract_text());
        msg.append("' of ");
        msg.append(arg0.get_type_name());
        let arrow = msg.clone();
        Err(RuntimeError::FinishedError(GenericError::error(member_token, msg).arrow(arrow)))
    }
}

/// Write a member: only `.heapsize` of an array is writable; `.length`
/// is immutable and everything else does not exist.
pub fn builtin_mutable_member_access(
    heap: &mut Heap,
    arg0: Value,
    member_token: Token,
    value: Value,
) -> (r: Result<(), RuntimeError>)
    requires
        old(heap).wf(),
        value_valid(arg0, old(heap).len()),
        value_valid(value, old(heap).len()),
    ensures
        final(heap).wf(),
        final(heap).len() == old(heap).len(),
        match r {
            Ok(_) => {
                &&& arg0 matches Value::Array(a)
                &&& member_token.spec_text() == "heapsize"@
                &&& final(heap).cells@[a as int].elements == old(heap).cells@[a as int].elements
                &&& final(heap).cells@[a as int].heapsize == value
                &&& forall|j: int| #![trigger final(heap).cells@[j]] 0 <= j < old(
                    heap,
                ).cells@.len() && j != a ==> final(heap).cells@[j] == old(heap).cells@[j]
            },
            Err(e) => {
                &&& final(heap).cells@ == old(heap).cells@
                &&& e matches RuntimeError::FinishedError(g) && g.error_type is Error
                &&& !(arg0 is Array && member_token.spec_text() == "heapsize"@)
            },
        },
{
    if let Value::Array(arr) = arg0 {
        if member_token.text_is("length") {
            proof {
                reveal_strlit("length");
                reveal_strlit("heapsize");
                assert("length"@.len() != "heapsize"@.len());
            }
            let msg = String::from_str("member length of array is immutable");
            let arrow = String::from_str("member is immutable");
            Err(RuntimeError::FinishedError(GenericError::error(member_token, msg).arrow(arrow)))
        } else if member_token.text_is("heapsize") {
            heap.array_set_heapsize(arr, value);
            Ok(())
        } else {
            let mut msg = String::from_str("cannot access member '");
            msg.append(member_token.extract_text());
            msg.append("' of array");
            let arrow = msg.clone();
            Err(RuntimeError::FinishedError(GenericError::error(member_token, msg).arrow(arrow)))
        }
    } else {
        let mut msg = String::from_str("cannot access member '");
        msg.append(member_token.extract_text());
        msg.append("' of ");
        msg.append(arg0.get_type_name());
        let arrow = msg.clone();
        Err(RuntimeError::FinishedError(GenericError::error(member_token, msg).arrow(arrow)))
    }
}

pub fn builtin_floor(args: Vec<Value>) -> (r: Result<Value, RuntimeError>)
    ensures
        match r {
            Ok(v) => args@.len() == 1 && (args@[0] matches Value::Number(x) && v == Value::Number(
                floor_bits(x),
            )),
            Err(e) => if args@.len() != 1 {
                e == (RuntimeError::ArgumentCountError { expected: 1, got: args@.len() as usize })
            } else {
                e is MessageError && !(args@[0] is Number)
            },
        },
{
    let v = match get_args1(args) {
        Ok(v) => v,
        Err(e) => { return Err(e); },
    };
    if let Value::Number(x) = v {
        Ok(Value::Number(num_floor(x)))
    } else {
        let mut msg = String::from_str("cannot take floor of type ");
        msg.append(v.get_type_name());
        Err(RuntimeError::MessageError(msg))
    }
}

pub fn builtin_ceil(args: Vec<Value>) -> (r: Result<Value, RuntimeError>)
    ensures
        match r {
            Ok(v) => args@.len() == 1 && (args@[0] matches Value::Number(x) && v == Value::Number(
                ceil_bits(x),
            )),
            Err(e) => if args@.len() != 1 {
                e == (RuntimeError::ArgumentCountError { expected: 1, got: args@.len() as usize })
            } else {
                e is MessageError && !(args@[0] is Number)
            },
        },
{
    let v = match get_args1(args) {
        Ok(v) => v,
        Err(e) => { return Err(e); },
    };
    if let Value::Number(x) = v {
        Ok(Value::Number(num_ceil(x)))
    } else {
        let mut msg = String::from_str("cannot take ceiling of type ");
        msg.append(v.get_type_name());
        Err(RuntimeError::MessageError(msg))
    }
}

/// Succeeds exactly when the two arguments are structurally equal.
pub fn builtin_assert_eq(heap: &Heap, name: Option<Token>, args: Vec<Value>) -> (r: Result<
    Value,
    RuntimeError,
>)
    requires
        heap.wf(),
        values_valid(args@, heap.len()),
    ensures
        match r {
            Ok(v) => args@.len() == 2 && v == Value::Null && spec_value_eq(
                heap.cells@,
                args@[0],
                args@[1],
                nesting_fuel(heap.len()),
            ) == Some(true),
            Err(e) => if args@.len() != 2 {
                e == (RuntimeError::ArgumentCountError { expected: 2, got: args@.len() as usize })
            } else {
                spec_value_eq(heap.cells@, args@[0], args@[1], nesting_fuel(heap.len()))
                    != Some(true)
            },
        },
{
    let (a, b) = match get_args2(args) {
        Ok(v) => v,
        Err(e) => { return Err(e); },
    };
    let fuel = nesting_fuel_for(heap);
    match value_eq(heap, a, b, fuel) {
        Some(true) => Ok(Value::Null),
        Some(false) => {
            let mut msg = String::from_str("assertation failed: values ");
            match render_value(heap, a, fuel) {
                Some(s) => { msg.append(s.as_str()); },
                None => { msg.append("..."); },
            }
            msg.append(" and ");
            match render_value(heap, b, fuel) {
                Some(s) => { msg.append(s.as_str()); },
                None => { msg.append("..."); },
            }
            msg.append(" do not match");
            let arrow = msg.clone();
            Err(
                RuntimeError::FinishedError(
                    GenericError::tokenable_error(name, msg).arrow(arrow),
                ),
            )
        },
        None => Err(RuntimeError::MessageError(String::from_str("array nesting is too deep"))),
    }
}

/// Relies on `std::io::Stdout`: writes one line of program output.
#[verifier::external_body]
fn emit_line(s: &str) {
    let _ = writeln!(std::io::stdout(), "{}", s);
}

/// Print the arguments, comma-separated, then a newline; returns the
/// absent value.  It succeeds exactly when every argument renders, which
/// on any source-built (acyclic) heap is always.
pub fn builtin_print(heap: &Heap, args: Vec<Value>) -> (r: Result<Value, RuntimeError>)
    requires
        heap.wf(),
        values_valid(args@, heap.len()),
    ensures
        match r {
            Ok(v) => v == Value::Null && forall|i: int|
                0 <= i < args@.len() ==> spec_render_value(
                    heap.cells@,
                    #[trigger] args@[i],
                    nesting_fuel(heap.len()),
                ) is Some,
            Err(e) => e is MessageError && exists|i: int|
                0 <= i < args@.len() && spec_render_value(
                    heap.cells@,
                    #[trigger] args@[i],
                    nesting_fuel(heap.len()),
                ) is None,
        },
{
    let fuel = nesting_fuel_for(heap);
    let mut line = String::new();
    let mut i: usize = 0;
    while i < args.len()
        invariant
            heap.wf(),
            values_valid(args@, heap.len()),
            i <= args@.len(),
            fuel == nesting_fuel(heap.len()),
            forall|j: int|
                0 <= j < i ==> spec_render_value(
                    heap.cells@,
                    #[trigger] args@[j],
                    nesting_fuel(heap.len()),
                ) is Some,
        decreases args@.len() - i,
    {
        if i != 0 {
            line.append(", ");
        }
        match render_value(heap, args[i], fuel) {
            Some(s) => { line.append(s.as_str()); },
            None => {
                return Err(
                    RuntimeError::MessageError(String::from_str("array nesting is too deep")),
                );
            },
        }
        i = i + 1;
    }
    emit_line(line.as_str());
    Ok(Value::Null)
}

} // verus!
