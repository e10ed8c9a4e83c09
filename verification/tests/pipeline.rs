//! End-to-end runs of the whole pipeline: tokenize, parse, lower, and
//! execute on the virtual machine, next to the tree interpreter, on the
//! language's concrete scenarios.

use pseudocode::compiler::compile_function;
use pseudocode::interpreter::Heap;
use pseudocode::interpreter::RunTime;
use pseudocode::interpreter::Value;
use pseudocode::parser::ParserContext;
use pseudocode::parser::ParseTreeNode;
use pseudocode::tokenizer::TokenStream;
use pseudocode::virtualmachine::Runtime;

const FUEL: u64 = 1_000_000;

fn parse(source: &str) -> Result<Vec<ParseTreeNode>, String> {
    let stream = TokenStream::from_source(source, "test.pseudo");
    let context = ParserContext::new(stream);
    match context.parse_document() {
        Ok((trees, _diags)) => Ok(trees),
        Err(_) => Err("parse failed".to_string()),
    }
}

/// Run a program's `Test` function on the virtual machine and hand back
/// its return value.
fn run_vm(source: &str) -> Result<Value, String> {
    run_vm_entry(source, "Test")
}

fn run_vm_entry(source: &str, entry: &str) -> Result<Value, String> {
    let trees = parse(source)?;
    let mut functions = Vec::new();
    for tree in trees {
        match compile_function(tree) {
            Ok(f) => functions.push(f),
            Err(_) => return Err("lowering failed".to_string()),
        }
    }
    let mut runtime = Runtime::load(functions);
    if runtime.start_execution(entry).is_err() {
        return Err("entry function not defined".to_string());
    }
    let mut steps: u64 = 0;
    loop {
        if steps > FUEL {
            return Err("did not finish".to_string());
        }
        steps += 1;
        if runtime.stack.len() == 1 {
            if let Some(v) = &runtime.stack[0].return_value {
                return Ok(*v);
            }
        }
        if runtime.is_done() {
            return Err("finished without a return value".to_string());
        }
        if let Err(e) = runtime.single_step() {
            return Err(format!("runtime error: {}", e.message));
        }
    }
}

/// Run a program's `Test` function on the tree interpreter.
fn run_interp(source: &str) -> Result<Value, String> {
    run_interp_call(source, "Test", vec![])
}

fn run_interp_call(source: &str, entry: &str, args: Vec<Value>) -> Result<Value, String> {
    let trees = parse(source)?;
    let runtime = RunTime::new(trees);
    let mut heap = Heap::new();
    let (res, _fuel) = runtime.inner_execute_function(&mut heap, entry, args, FUEL);
    match res {
        Ok(Some(v)) => Ok(v),
        Ok(None) => Err("entry function not defined".to_string()),
        Err(e) => Err(format!("runtime error: {}", e.message)),
    }
}

fn number(v: f64) -> Value {
    Value::Number(v.to_bits())
}

#[test]
fn add_function_agrees_on_both_back_ends() {
    let source = "Add(a, b)\n  return a + b\n\nTest()\n  return Add(2, 3)\n";
    let from_interp = run_interp_call(source, "Add", vec![number(2.0), number(3.0)]).unwrap();
    assert_eq!(from_interp, number(5.0));
    let from_vm = run_vm(source).unwrap();
    assert_eq!(from_vm, number(5.0));
    assert_eq!(run_interp(source).unwrap(), number(5.0));
}

#[test]
fn inclusive_upward_for_loop_sums_to_fifteen() {
    let source = "Test()\n  i = 0\n  for k = 1 to 5\n    i = i + k\n  return i\n";
    assert_eq!(run_vm(source).unwrap(), number(15.0));
    assert_eq!(run_interp(source).unwrap(), number(15.0));
}

#[test]
fn inclusive_downward_for_loop_counts_to_five() {
    let source = "Test()\n  i = 10\n  for k = 5 down to 1\n    i = i - 1\n  return i\n";
    assert_eq!(run_vm(source).unwrap(), number(5.0));
    assert_eq!(run_interp(source).unwrap(), number(5.0));
}

#[test]
fn array_write_and_length_observed() {
    let source = "Test()\n  a = Array(7, 8, 9)\n  a[2] = 42\n  AssertEqual(a.length, 3)\n  return a[1] + a[2] + a[3]\n";
    assert_eq!(run_vm(source).unwrap(), number(58.0));
    assert_eq!(run_interp(source).unwrap(), number(58.0));
}

#[test]
fn if_else_returns_true_branch() {
    let source = "Test()\n  if 1 < 2\n    return True\n  else\n    return False\n";
    assert_eq!(run_vm(source).unwrap(), Value::Boolean(true));
    assert_eq!(run_interp(source).unwrap(), Value::Boolean(true));
}

#[test]
fn division_by_zero_yields_infinity_not_an_error() {
    let source = "Test()\n  x = True and (1 / 0 == 0)\n  return x\n";
    assert_eq!(run_vm(source).unwrap(), Value::Boolean(false));
    assert_eq!(run_interp(source).unwrap(), Value::Boolean(false));
    let infinite = "Test()\n  return 1 / 0\n";
    assert_eq!(run_vm(infinite).unwrap(), number(f64::INFINITY));
}

#[test]
fn short_circuit_skips_undefined_right_operand() {
    let source = "Test()\n  x = False and (zzz == 0)\n  return x\n";
    assert_eq!(run_vm(source).unwrap(), Value::Boolean(false));
    assert_eq!(run_interp(source).unwrap(), Value::Boolean(false));
    let or_source = "Test()\n  x = True or (zzz == 0)\n  return x\n";
    assert_eq!(run_vm(or_source).unwrap(), Value::Boolean(true));
    assert_eq!(run_interp(or_source).unwrap(), Value::Boolean(true));
}

#[test]
fn arrays_are_shared_between_aliases() {
    let source = "Test()\n  x = Array(1, 2)\n  y = x\n  y[1] = 9\n  return x[1]\n";
    assert_eq!(run_vm(source).unwrap(), number(9.0));
    assert_eq!(run_interp(source).unwrap(), number(9.0));
}

#[test]
fn one_based_indexing_bounds() {
    let ok = "Test()\n  a = Array(10)\n  return a[1]\n";
    assert_eq!(run_vm(ok).unwrap(), number(10.0));
    assert_eq!(run_interp(ok).unwrap(), number(10.0));
    let below = "Test()\n  a = Array(10)\n  return a[0]\n";
    assert!(run_vm(below).is_err());
    assert!(run_interp(below).is_err());
    let above = "Test()\n  a = Array(10)\n  return a[2]\n";
    assert!(run_vm(above).is_err());
    assert!(run_interp(above).is_err());
}

#[test]
fn rerunning_the_vm_is_deterministic() {
    let source = "Test()\n  a = Array(3, 1, 2)\n  s = 0\n  for k = 1 to a.length\n    s = s + a[k]\n  a.heapsize = 2\n  return s + a.heapsize\n";
    let first = run_vm(source).unwrap();
    let second = run_vm(source).unwrap();
    assert_eq!(first, second);
    assert_eq!(first, number(8.0));
}

#[test]
fn while_loop_runs_until_condition_fails() {
    let source = "Test()\n  i = 0\n  while i < 4\n    i = i + 1\n  return i\n";
    assert_eq!(run_vm(source).unwrap(), number(4.0));
    assert_eq!(run_interp(source).unwrap(), number(4.0));
}

#[test]
fn elseif_chain_picks_middle_branch() {
    let source = "Test()\n  x = 2\n  if x == 1\n    return 10\n  elseif x == 2\n    return 20\n  else\n    return 30\n";
    assert_eq!(run_vm(source).unwrap(), number(20.0));
    assert_eq!(run_interp(source).unwrap(), number(20.0));
}

#[test]
fn heapsize_is_a_writable_slot_and_length_is_not() {
    let source = "Test()\n  a = Array(5, 6)\n  a.heapsize = 7\n  return a.heapsize\n";
    assert_eq!(run_vm(source).unwrap(), number(7.0));
    assert_eq!(run_interp(source).unwrap(), number(7.0));
    let immutable = "Test()\n  a = Array(5, 6)\n  a.length = 7\n  return 0\n";
    assert!(run_vm(immutable).is_err());
    assert!(run_interp(immutable).is_err());
}

#[test]
fn cross_function_call_suspends_and_resumes() {
    let source = "Twice(n)\n  return n * 2\n\nTest()\n  s = 0\n  for k = 1 to 3\n    s = s + Twice(k)\n  return s\n";
    assert_eq!(run_vm(source).unwrap(), number(12.0));
    assert_eq!(run_interp(source).unwrap(), number(12.0));
}

#[test]
fn recursion_works_on_both_back_ends() {
    let source = "Fib(n)\n  if n < 2\n    return n\n  return Fib(n - 1) + Fib(n - 2)\n\nTest()\n  return Fib(10)\n";
    assert_eq!(run_vm(source).unwrap(), number(55.0));
    assert_eq!(run_interp(source).unwrap(), number(55.0));
}

#[test]
fn unrecognized_character_fails_the_parse() {
    let source = "Test()\n  return @\n";
    assert!(parse(source).is_err());
}

#[test]
fn undefined_variable_is_a_runtime_error() {
    let source = "Test()\n  return zzz\n";
    assert!(run_vm(source).is_err());
    assert!(run_interp(source).is_err());
}

#[test]
fn type_errors_are_reported() {
    let add_bool = "Test()\n  return True + 1\n";
    assert!(run_vm(add_bool).is_err());
    assert!(run_interp(add_bool).is_err());
    let non_boolean_condition = "Test()\n  if 1\n    return 2\n  return 3\n";
    assert!(run_vm(non_boolean_condition).is_err());
    assert!(run_interp(non_boolean_condition).is_err());
}

#[test]
fn assert_equal_succeeds_on_equal_and_fails_on_unequal() {
    let ok = "Test()\n  AssertEqual(Array(1, 2), Array(1, 2))\n  return 1\n";
    assert_eq!(run_vm(ok).unwrap(), number(1.0));
    assert_eq!(run_interp(ok).unwrap(), number(1.0));
    let bad = "Test()\n  AssertEqual(1, 2)\n  return 1\n";
    assert!(run_vm(bad).is_err());
    assert!(run_interp(bad).is_err());
}

#[test]
fn floor_and_ceil_round_numbers() {
    let source = "Test()\n  return floor(2.7) + ceil(2.2)\n";
    assert_eq!(run_vm(source).unwrap(), number(5.0));
    assert_eq!(run_interp(source).unwrap(), number(5.0));
}

#[test]
fn fractional_index_is_rejected() {
    let source = "Test()\n  a = Array(1, 2)\n  return a[1.5]\n";
    assert!(run_vm(source).is_err());
    assert!(run_interp(source).is_err());
}

#[test]
fn chained_subtraction_associates_to_the_right() {
    // An acknowledged design choice: `8 - 4 - 2` parses as `8 - (4 - 2)`.
    let source = "Test()\n  return 8 - 4 - 2\n";
    assert_eq!(run_vm(source).unwrap(), number(6.0));
    assert_eq!(run_interp(source).unwrap(), number(6.0));
}

#[test]
fn entry_function_may_have_any_name() {
    let source = "Main()\n  return 41 + 1\n";
    assert_eq!(run_vm_entry(source, "Main").unwrap(), number(42.0));
}

#[test]
fn trailing_point_literal_parses_as_whole_number() {
    let source = "Test()\n  return 5. + 1\n";
    assert_eq!(run_vm(source).unwrap(), number(6.0));
    assert_eq!(run_interp(source).unwrap(), number(6.0));
}

#[test]
fn nested_arrays_compare_structurally() {
    let source = "Test()\n  AssertEqual(Array(Array(1), 2), Array(Array(1), 2))\n  return 1\n";
    assert_eq!(run_vm(source).unwrap(), number(1.0));
    assert_eq!(run_interp(source).unwrap(), number(1.0));
    let unequal = "Test()\n  AssertEqual(Array(Array(1)), Array(Array(2)))\n  return 1\n";
    assert!(run_vm(unequal).is_err());
    assert!(run_interp(unequal).is_err());
}

#[test]
fn print_returns_the_absent_value() {
    let source = "Test()\n  x = Print(1, Array(2, 3))\n  return x == 0\n";
    // The absent value is not a number, so comparing it to zero is false.
    assert_eq!(run_vm(source).unwrap(), Value::Boolean(false));
    assert_eq!(run_interp(source).unwrap(), Value::Boolean(false));
}

#[test]
fn assignment_is_an_expression_yielding_the_value() {
    let source = "Test()\n  x = (y = 4)\n  return x + y\n";
    assert_eq!(run_vm(source).unwrap(), number(8.0));
    assert_eq!(run_interp(source).unwrap(), number(8.0));
}

#[test]
fn boolean_literals_cannot_be_assigned() {
    let source = "Test()\n  True = 1\n  return 0\n";
    assert!(run_vm(source).is_err());
    assert!(run_interp(source).is_err());
}

#[test]
fn for_loop_demands_the_to_keyword() {
    let source = "Test()\n  i = 0\n  for k = 1 zz 5\n    i = i + k\n  return i\n";
    assert!(parse(source).is_err());
}

#[test]
fn early_return_skips_the_statements_after_it() {
    let source = "Test()\n  x = 1\n  return x\n  x = 2\n";
    assert_eq!(run_vm(source).unwrap(), number(1.0));
    assert_eq!(run_interp(source).unwrap(), number(1.0));
    let immediate = "Test()\n  return 5\n  AssertEqual(1, 2)\n";
    assert_eq!(run_vm(immediate).unwrap(), number(5.0));
    assert_eq!(run_interp(immediate).unwrap(), number(5.0));
}

#[test]
fn out_of_range_index_read_is_an_error() {
    let source = "Test()\n  a = Array(7)\n  return a[2]\n";
    assert!(run_vm(source).is_err());
    assert!(run_interp(source).is_err());
    let zero = "Test()\n  a = Array(7)\n  return a[0]\n";
    assert!(run_vm(zero).is_err());
    assert!(run_interp(zero).is_err());
}
