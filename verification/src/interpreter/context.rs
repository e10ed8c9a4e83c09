//! The tree interpreter's runtime: the table of user functions, and the
//! dispatch that runs a call — built-ins first, then user functions.

use vstd::prelude::*;
use vstd::string::StringExecFns;
use crate::error::GenericError;
use crate::interpreter::builtin::builtin_array;
use crate::interpreter::builtin::builtin_assert_eq;
use crate::interpreter::builtin::builtin_ceil;
use crate::interpreter::builtin::builtin_floor;
use crate::interpreter::builtin::builtin_print;
use crate::interpreter::builtin::values_valid;
use crate::interpreter::value::nesting_fuel;
use crate::interpreter::value::spec_render_value;
use crate::interpreter::value::spec_value_eq;
use crate::numerics::ceil_bits;
use crate::numerics::floor_bits;
use crate::interpreter::executor::Executor;
use crate::interpreter::function::Function;
use crate::interpreter::value::Heap;
use crate::interpreter::value::Value;
use crate::interpreter::value::value_valid;
use crate::parser::context::all_function_trees;
use crate::parser::parsetree::ParseTreeNode;
use crate::tokenizer::Token;
use crate::tokenizer::token::str_eq;
use crate::virtualmachine::runtime::spec_is_builtin_name;

verus! {

pub struct RunTime {
    pub functions: Vec<Function>,
}

/// Every parsed definition's name is borne by some table entry.
pub open spec fn table_covers(table: Seq<Function>, parsed: Seq<ParseTreeNode>) -> bool {
    forall|i: int|
        #![trigger parsed[i]]
        0 <= i < parsed.len() ==> exists|j: int|
            0 <= j < table.len() && (#[trigger] table[j]).name@ == parsed[i]
                ->Function_name.spec_text()
}

impl RunTime {
    pub open spec fn wf(&self) -> bool {
        forall|i: int|
            #![trigger self.functions@[i]]
            0 <= i < self.functions@.len() ==> self.functions@[i].wf()
    }

    /// Build the function table from parsed definitions; a later
    /// function with the same name replaces an earlier one, so every
    /// given name ends up loaded.
    pub fn new(parsed_functions: Vec<ParseTreeNode>) -> (r: RunTime)
        requires
            all_function_trees(parsed_functions@),
        ensures
            r.wf(),
            table_covers(r.functions@, parsed_functions@),
    {
        let mut table: Vec<Function> = Vec::new();
        let n = parsed_functions.len();
        let ghost parsed = parsed_functions@;
        let mut rest = parsed_functions;
        let mut i: usize = 0;
        proof {
            assert(rest@ =~= parsed.subrange(0, rest@.len() as int));
        }
        while i < n
            invariant
                rest@.len() + i == n,
                i <= n,
                parsed == parsed_functions@,
                rest@ == parsed.subrange(0, rest@.len() as int),
                all_function_trees(rest@),
                forall|j: int| #![trigger table@[j]] 0 <= j < table@.len() ==> table@[j].wf(),
                n == parsed.len(),
                forall|ii: int|
                    #![trigger parsed[ii]]
                    rest@.len() <= ii < n ==> exists|j: int|
                        0 <= j < table@.len() && (#[trigger] table@[j]).name@
                            == parsed[ii]->Function_name.spec_text(),
            decreases n - i,
        {
            proof {
                assert(rest@[rest@.len() - 1].wf() && rest@[rest@.len() - 1] is Function);
            }
            let ghost prevr = rest@;
            let node = match rest.pop() {
                Some(nd) => nd,
                None => vstd::pervasive::unreached(),
            };
            proof {
                assert forall|j: int| 0 <= j < rest@.len() implies (#[trigger] rest@[j]).wf()
                    && rest@[j] is Function by {
                    assert(rest@[j] == prevr[j]);
                }
            }
            let func = Function::new(node);
            let mut existing: Option<usize> = None;
            let m = table.len();
            let mut k: usize = 0;
            while k < m
                invariant
                    m == table@.len(),
                    k <= m,
                    existing matches Some(e) ==> e < m && table@[e as int].name@ == func.name@,
                decreases m - k,
            {
                if str_eq(table[k].name.as_str(), func.name.as_str()) {
                    existing = Some(k);
                }
                k = k + 1;
            }
            let ghost prevt = table@;
            let ghost fg = func;
            match existing {
                // The list is drained from the back, so the first
                // binding seen for a name is the one that wins: keep it.
                Some(_) => {},
                None => { table.push(func); },
            }
            proof {
                assert forall|j: int| 0 <= j < table@.len() implies (
                #[trigger] table@[j]).wf() by {
                    if j < prevt.len() {
                        assert(table@[j] == prevt[j]);
                    } else {
                        assert(table@[j] == fg);
                    }
                }
                assert forall|x: int| 0 <= x < rest@.len() implies #[trigger] rest@[x]
                    == parsed[x] by {
                    assert(rest@[x] == prevr[x]);
                    assert(prevr[x] == parsed.subrange(0, prevr.len() as int)[x]);
                }
                assert(rest@ =~= parsed.subrange(0, rest@.len() as int));
                assert(prevr[prevr.len() - 1] == parsed.subrange(
                    0,
                    prevr.len() as int,
                )[prevr.len() - 1]);
                assert(prevr[prevr.len() - 1] == parsed[rest@.len() as int]);
                assert(fg.name@ == parsed[rest@.len() as int]->Function_name.spec_text());
                assert forall|ii: int| rest@.len() <= ii < n implies (exists|j: int|
                    0 <= j < table@.len() && (#[trigger] table@[j]).name@ == (
                    #[trigger] parsed[ii])->Function_name.spec_text()) by {
                    if ii > rest@.len() {
                        let j0 = choose|j0: int|
                            0 <= j0 < prevt.len() && (#[trigger] prevt[j0]).name@
                                == parsed[ii]->Function_name.spec_text();
                        assert(table@[j0] == prevt[j0]);
                    } else {
                        match existing {
                            Some(e) => {
                                assert(table@[e as int] == prevt[e as int]);
                                assert(table@[e as int].name@ == fg.name@);
                            },
                            None => {
                                assert(table@[table@.len() - 1] == fg);
                            },
                        }
                    }
                }
            }
            i = i + 1;
        }
        proof {
            assert(parsed == parsed_functions@);
            assert(table_covers(table@, parsed));
        }
        RunTime { functions: table }
    }

    /// Run a call: the built-in names first, then the user functions; an
    /// unknown name is an error at the callee's token.
    pub fn execute_function(
        &self,
        heap: &mut Heap,
        func_name: &Token,
        arguments: Vec<Value>,
        executor: &mut Executor,
        fuel: u64,
    ) -> (r: (Result<Value, GenericError>, u64))
        requires
            self.wf(),
            old(heap).wf(),
            values_valid(arguments@, old(heap).len()),
            old(executor).valid(old(heap).len()),
        ensures
            final(heap).wf(),
            old(heap).len() <= final(heap).len(),
            *final(executor) == *old(executor),
            r.1 <= fuel,
            r.0 matches Ok(v) ==> value_valid(v, final(heap).len()),
            !spec_is_builtin_name(func_name.spec_text()) && !(exists|i: int|
                0 <= i < self.functions@.len() && (#[trigger] self.functions@[i]).name@
                    == func_name.spec_text()) ==> r.0 is Err,
            func_name.spec_text() == "Array"@ ==> r.0 == Ok::<Value, GenericError>(
                Value::Array(old(heap).cells@.len() as usize),
            ) && final(heap).len() == old(heap).len() + 1 && final(heap).cells@[old(
                heap,
            ).len() as int].elements@ == arguments@ && final(heap).cells@[old(
                heap,
            ).len() as int].heapsize == Value::Number(0),
            func_name.spec_text() == "floor"@ ==> *final(heap) == *old(heap) && (if arguments@.len()
                == 1 && arguments@[0] is Number {
                r.0 == Ok::<Value, GenericError>(Value::Number(floor_bits(arguments@[0]->Number_0)))
            } else {
                r.0 is Err
            }),
            func_name.spec_text() == "ceil"@ ==> *final(heap) == *old(heap) && (if arguments@.len()
                == 1 && arguments@[0] is Number {
                r.0 == Ok::<Value, GenericError>(Value::Number(ceil_bits(arguments@[0]->Number_0)))
            } else {
                r.0 is Err
            }),
            func_name.spec_text() == "Print"@ ==> *final(heap) == *old(heap) && (r.0 is Ok <==> (
            forall|i: int|
                0 <= i < arguments@.len() ==> spec_render_value(
                    old(heap).cells@,
                    #[trigger] arguments@[i],
                    nesting_fuel(old(heap).len()),
                ) is Some)) && (r.0 matches Ok(v) ==> v == Value::Null),
            func_name.spec_text() == "AssertEqual"@ ==> *final(heap) == *old(heap) && (r.0 is Ok
                <==> arguments@.len() == 2 && spec_value_eq(
                old(heap).cells@,
                arguments@[0],
                arguments@[1],
                nesting_fuel(old(heap).len()),
            ) == Some(true)) && (r.0 matches Ok(v) ==> v == Value::Null),
        decreases fuel, 4int,
    {
        proof {
            reveal_strlit("Array");
            reveal_strlit("AssertEqual");
            reveal_strlit("Print");
            reveal_strlit("floor");
            reveal_strlit("ceil");
            assert("Array"@.len() == 5 && "Array"@[0] == 'A');
            assert("AssertEqual"@.len() == 11);
            assert("Print"@.len() == 5 && "Print"@[0] == 'P');
            assert("floor"@.len() == 5 && "floor"@[0] == 'f');
            assert("ceil"@.len() == 4);
        }
        let name = func_name.extract_text();
        if str_eq(name, "AssertEqual") {
            let res = builtin_assert_eq(heap, Some(func_name.duplicate()), arguments);
            return (
                match res {
                    Ok(v) => Ok(v),
                    Err(e) => Err(e.finish_maybe(Some(func_name.duplicate()))),
                },
                fuel,
            );
        }
        if str_eq(name, "Array") {
            let res = builtin_array(heap, arguments);
            return (
                match res {
                    Ok(v) => Ok(v),
                    Err(e) => Err(e.finish_maybe(Some(func_name.duplicate()))),
                },
                fuel,
            );
        }
        if str_eq(name, "Print") {
            let res = builtin_print(heap, arguments);
            return (
                match res {
                    Ok(v) => Ok(v),
                    Err(e) => Err(e.finish_maybe(Some(func_name.duplicate()))),
                },
                fuel,
            );
        }
        if str_eq(name, "ceil") {
            let res = builtin_ceil(arguments);
            return (
                match res {
                    Ok(v) => Ok(v),
                    Err(e) => Err(e.finish_maybe(Some(func_name.duplicate()))),
                },
                fuel,
            );
        }
        if str_eq(name, "floor") {
            let res = builtin_floor(arguments);
            return (
                match res {
                    Ok(v) => Ok(v),
                    Err(e) => Err(e.finish_maybe(Some(func_name.duplicate()))),
                },
                fuel,
            );
        }
        let (res, f) = self.inner_execute_function(heap, name, arguments, fuel);
        match res {
            Ok(Some(v)) => (Ok(v), f),
            Ok(None) => {
                let mut msg = String::from_str("function '");
                msg.append(name);
                msg.append("' not defined");
                (Err(GenericError::error(func_name.duplicate(), msg)), f)
            },
            Err(e) => (Err(e), f),
        }
    }

    /// Run a user function by name; `Ok(None)` when no such function
    /// exists.  The argument count must match the parameter count.
    pub fn inner_execute_function(
        &self,
        heap: &mut Heap,
        func_name: &str,
        arguments: Vec<Value>,
        fuel: u64,
    ) -> (r: (Result<Option<Value>, GenericError>, u64))
        requires
            self.wf(),
            old(heap).wf(),
            values_valid(arguments@, old(heap).len()),
        ensures
            final(heap).wf(),
            old(heap).len() <= final(heap).len(),
            r.1 <= fuel,
            r.0 matches Ok(Some(v)) ==> value_valid(v, final(heap).len()),
            (r.0 matches Ok(None)) <==> !(exists|i: int|
                0 <= i < self.functions@.len() && (#[trigger] self.functions@[i]).name@
                    == func_name@),
        decreases fuel, 3int,
    {
        let n = self.functions.len();
        let mut i: usize = 0;
        while i < n
            invariant
                n == self.functions@.len(),
                i <= n,
                self.wf(),
                heap == old(heap),
                heap.wf(),
                values_valid(arguments@, heap.len()),
                forall|j: int| 0 <= j < i ==> (#[trigger] self.functions@[j]).name@ != func_name@,
            decreases n - i,
        {
            if str_eq(self.functions[i].name.as_str(), func_name) {
                if arguments.len() != self.functions[i].arguments.len() {
                    let e = crate::interpreter::error::RuntimeError::ArgumentCountError {
                        expected: self.functions[i].arguments.len(),
                        got: arguments.len(),
                    };
                    return (Err(e.finish_no_token()), fuel);
                }
                proof {
                    assert(self.functions@[i as int].wf());
                }
                let (res, f) = self.functions[i].execute(self, heap, arguments, fuel);
                return (
                    match res {
                        Ok(v) => Ok(Some(v)),
                        Err(e) => Err(e),
                    },
                    f,
                );
            }
            i = i + 1;
        }
        (Ok(None), fuel)
    }
}

impl Function {
    /// Run this function on argument values: bind the parameters
    /// pairwise, then execute the body in a fresh environment.
    pub fn execute(
        &self,
        rt: &RunTime,
        heap: &mut Heap,
        arguments: Vec<Value>,
        fuel: u64,
    ) -> (r: (Result<Value, GenericError>, u64))
        requires
            self.wf(),
            rt.wf(),
            old(heap).wf(),
            values_valid(arguments@, old(heap).len()),
        ensures
            final(heap).wf(),
            old(heap).len() <= final(heap).len(),
            r.1 <= fuel,
            r.0 matches Ok(v) ==> value_valid(v, final(heap).len()),
        decreases fuel, 2int,
    {
        let mut executor = Executor::new();
        let count = if self.arguments.len() < arguments.len() {
            self.arguments.len()
        } else {
            arguments.len()
        };
        let mut i: usize = 0;
        while i < count
            invariant
                count <= self.arguments@.len(),
                count <= arguments@.len(),
                i <= count,
                values_valid(arguments@, old(heap).len()),
                heap == old(heap),
                executor.valid(heap.len()),
            decreases count - i,
        {
            let ghost prev = executor.variables@;
            executor.set_variable(self.arguments[i].extract_text().to_owned(), arguments[i]);
            proof {
                assert(value_valid(arguments@[i as int], heap.len()));
                assert forall|k: int| 0 <= k < executor.variables@.len() implies value_valid(
                    (#[trigger] executor.variables@[k]).1,
                    heap.len(),
                ) by {
                    if executor.variables@[k].1 == arguments@[i as int] {
                    } else {
                        let j = choose|j: int|
                            0 <= j < prev.len() && (#[trigger] prev[j]).1
                                == executor.variables@[k].1;
                        assert(value_valid(prev[j].1, heap.len()));
                    }
                }
            }
            i = i + 1;
        }
        let (res, f) = self.block.execute(rt, heap, &mut executor, fuel);
        (
            match res {
                Ok(v) => Ok(v.0),
                Err(e) => Err(e),
            },
            f,
        )
    }
}

} // verus!
