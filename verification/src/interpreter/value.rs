//! Tagged values and the array heap.  A number is carried as the bit
//! pattern of its binary64 value; an array value is an index into the
//! heap, so that every alias of one array reads and writes the same
//! backing cell.  Each cell holds the element sequence and the
//! user-controlled `heapsize` slot.

use vstd::prelude::*;
use vstd::string::StringExecFns;
use crate::numerics::decimal_of_bits;
use crate::numerics::eq_bits;
use crate::numerics::num_eq;
use crate::numerics::num_render;

verus! {

#[derive(Clone, Copy, PartialEq, Eq, Structural, Debug)]
pub enum Value {
    /// A number, as the bit pattern of an IEEE-754 binary64 value.
    Number(u64),
    Boolean(bool),
    /// The absent value.
    Null,
    /// A shared, mutable array: the index of its heap cell.
    Array(usize),
}

pub struct ArrayCell {
    pub elements: Vec<Value>,
    pub heapsize: Value,
}

pub struct Heap {
    pub cells: Vec<ArrayCell>,
}

/// A value's array reference, if any, points at an existing cell.
pub open spec fn value_valid(v: Value, n: int) -> bool {
    match v {
        Value::Array(i) => i < n,
        _ => true,
    }
}

pub open spec fn cell_valid(c: ArrayCell, n: int) -> bool {
    &&& forall|i: int| #![trigger c.elements@[i]] 0 <= i < c.elements@.len() ==> value_valid(
        c.elements@[i],
        n,
    )
    &&& value_valid(c.heapsize, n)
}

impl Heap {
    pub open spec fn len(&self) -> int {
        self.cells@.len() as int
    }

    /// Every array reference stored in the heap points at an existing
    /// cell.  Allocation only appends, so references never go stale.
    pub open spec fn wf(&self) -> bool {
        forall|i: int| #![trigger self.cells@[i]] 0 <= i < self.cells@.len() ==> cell_valid(
            self.cells@[i],
            self.len(),
        )
    }

    pub fn new() -> (r: Heap)
        ensures
            r.wf(),
            r.len() == 0,
    {
        Heap { cells: Vec::new() }
    }

    /// Allocate a fresh array cell; the result is its index.
    pub fn alloc_cell(&mut self, elements: Vec<Value>, heapsize: Value) -> (r: usize)
        requires
            old(self).wf(),
            forall|i: int| #![trigger elements@[i]] 0 <= i < elements@.len() ==> value_valid(
                elements@[i],
                old(self).len(),
            ),
            value_valid(heapsize, old(self).len()),
        ensures
            final(self).wf(),
            final(self).len() == old(self).len() + 1,
            r == old(self).len(),
            final(self).cells@[old(self).len()].elements == elements,
            final(self).cells@[old(self).len()].heapsize == heapsize,
            forall|j: int| #![trigger final(self).cells@[j]] 0 <= j < old(self).cells@.len()
                ==> final(self).cells@[j] == old(self).cells@[j],
    {
        let r = self.cells.len();
        self.cells.push(ArrayCell { elements, heapsize });
        proof {
            let n = self.cells@.len() as int;
            assert forall|i: int| 0 <= i < n implies cell_valid(#[trigger] self.cells@[i], n) by {
                if i < n - 1 {
                    assert(self.cells@[i] == old(self).cells@[i]);
                }
            }
        }
        r
    }

    /// The number of elements of the array in cell `idx`.
    pub fn array_len(&self, idx: usize) -> (r: usize)
        requires
            self.wf(),
            idx < self.len(),
        ensures
            r == self.cells@[idx as int].elements@.len(),
    {
        self.cells[idx].elements.len()
    }

    /// The element at zero-based position `i` of the array in cell `idx`.
    pub fn array_get(&self, idx: usize, i: usize) -> (r: Value)
        requires
            self.wf(),
            idx < self.len(),
            i < self.cells@[idx as int].elements@.len(),
        ensures
            r == self.cells@[idx as int].elements@[i as int],
            value_valid(r, self.len()),
    {
        self.cells[idx].elements[i]
    }

    /// Overwrite the element at zero-based position `i` of cell `idx`.
    pub fn array_set(&mut self, idx: usize, i: usize, v: Value)
        requires
            old(self).wf(),
            idx < old(self).len(),
            i < old(self).cells@[idx as int].elements@.len(),
            value_valid(v, old(self).len()),
        ensures
            final(self).wf(),
            final(self).len() == old(self).len(),
            final(self).cells@[idx as int].elements@ == old(self).cells@[idx
                as int].elements@.update(i as int, v),
            final(self).cells@[idx as int].heapsize == old(self).cells@[idx as int].heapsize,
            forall|j: int| #![trigger final(self).cells@[j]] 0 <= j < old(self).cells@.len() && j
                != idx ==> final(self).cells@[j] == old(self).cells@[j],
    {
        let cell = &mut self.cells[idx];
        cell.elements.set(i, v);
        proof {
            let n = self.cells@.len() as int;
            assert forall|j: int| 0 <= j < n implies cell_valid(#[trigger] self.cells@[j], n) by {
                if j != idx {
                    assert(self.cells@[j] == old(self).cells@[j]);
                } else {
                    let c = self.cells@[j];
                    let c0 = old(self).cells@[j];
                    assert forall|k: int| 0 <= k < c.elements@.len() implies value_valid(
                        #[trigger] c.elements@[k],
                        n,
                    ) by {
                        if k != i {
                            assert(c.elements@[k] == c0.elements@[k]);
                        }
                    }
                }
            }
        }
    }

    /// The `heapsize` slot of cell `idx`.
    pub fn array_heapsize(&self, idx: usize) -> (r: Value)
        requires
            self.wf(),
            idx < self.len(),
        ensures
            r == self.cells@[idx as int].heapsize,
            value_valid(r, self.len()),
    {
        self.cells[idx].heapsize
    }

    /// Overwrite the `heapsize` slot of cell `idx`.
    pub fn array_set_heapsize(&mut self, idx: usize, v: Value)
        requires
            old(self).wf(),
            idx < old(self).len(),
            value_valid(v, old(self).len()),
        ensures
            final(self).wf(),
            final(self).len() == old(self).len(),
            final(self).cells@[idx as int].elements == old(self).cells@[idx as int].elements,
            final(self).cells@[idx as int].heapsize == v,
            forall|j: int| #![trigger final(self).cells@[j]] 0 <= j < old(self).cells@.len() && j
                != idx ==> final(self).cells@[j] == old(self).cells@[j],
    {
        let cell = &mut self.cells[idx];
        cell.heapsize = v;
        proof {
            let n = self.cells@.len() as int;
            assert forall|j: int| 0 <= j < n implies cell_valid(#[trigger] self.cells@[j], n) by {
                if j != idx {
                    assert(self.cells@[j] == old(self).cells@[j]);
                } else {
                    assert(self.cells@[j].elements == old(self).cells@[j].elements);
                }
            }
        }
    }
}

impl Value {
    pub fn get_type_name(&self) -> (r: &'static str)
        ensures
            *self is Number ==> r@ == "number"@,
            *self is Null ==> r@ == "none"@,
            *self is Boolean ==> r@ == "bool"@,
            *self is Array ==> r@ == "array"@,
    {
        match self {
            Value::Number(_) => "number",
            Value::Null => "none",
            Value::Boolean(_) => "bool",
            Value::Array(_) => "array",
        }
    }

    pub fn is_numeric(&self) -> (r: bool)
        ensures
            r == (*self is Number),
    {
        match self {
            Value::Number(_) => true,
            _ => false,
        }
    }
}

/// Structural equality of two values over a heap, with a recursion
/// budget: `None` means the budget ran out (only possible on cyclic
/// heaps, which source programs cannot build).  Numbers compare by
/// IEEE-754 equality; arrays compare element by element plus `heapsize`.
pub open spec fn spec_value_eq(h: Seq<ArrayCell>, a: Value, b: Value, fuel: nat) -> Option<bool>
    decreases fuel, 0int, 0int,
{
    if fuel == 0 {
        None
    } else {
        match (a, b) {
            (Value::Number(x), Value::Number(y)) => Some(eq_bits(x, y)),
            (Value::Boolean(x), Value::Boolean(y)) => Some(x == y),
            (Value::Null, Value::Null) => Some(true),
            (Value::Array(i), Value::Array(j)) => {
                if i < h.len() && j < h.len() {
                    match spec_values_eq(h, h[i as int].elements@, h[j as int].elements@, (fuel
                        - 1) as nat) {
                        Some(true) => spec_value_eq(
                            h,
                            h[i as int].heapsize,
                            h[j as int].heapsize,
                            (fuel - 1) as nat,
                        ),
                        other => other,
                    }
                } else {
                    None
                }
            },
            _ => Some(false),
        }
    }
}

/// Pairwise structural equality of two element sequences.
pub open spec fn spec_values_eq(h: Seq<ArrayCell>, xs: Seq<Value>, ys: Seq<Value>, fuel: nat)
    -> Option<bool>
    decreases fuel, 1int, xs.len(),
{
    if xs.len() != ys.len() {
        Some(false)
    } else if xs.len() == 0 {
        Some(true)
    } else {
        match spec_value_eq(h, xs[0], ys[0], fuel) {
            Some(true) => spec_values_eq(h, xs.drop_first(), ys.drop_first(), fuel),
            other => other,
        }
    }
}

/// The nesting budget that always suffices on an acyclic heap of `n`
/// cells: one level per cell, plus one for the outermost values.
pub open spec fn nesting_fuel(n: int) -> nat {
    if n + 1 <= u64::MAX {
        (n + 1) as nat
    } else {
        u64::MAX as nat
    }
}

/// `nesting_fuel`, executable.
pub fn nesting_fuel_for(heap: &Heap) -> (r: u64)
    ensures
        r == nesting_fuel(heap.len()),
{
    let n = heap.cells.len() as u64;
    if n == u64::MAX {
        n
    } else {
        n + 1
    }
}

/// Structural equality, executable.  The budget `fuel` bounds array
/// nesting; `heap.len() + 1` always suffices on acyclic heaps.
pub fn value_eq(heap: &Heap, a: Value, b: Value, fuel: u64) -> (r: Option<bool>)
    requires
        heap.wf(),
        value_valid(a, heap.len()),
        value_valid(b, heap.len()),
    ensures
        r == spec_value_eq(heap.cells@, a, b, fuel as nat),
    decreases fuel, 0int, 0int,
{
    if fuel == 0 {
        return None;
    }
    match (a, b) {
        (Value::Number(x), Value::Number(y)) => Some(num_eq(x, y)),
        (Value::Boolean(x), Value::Boolean(y)) => Some(x == y),
        (Value::Null, Value::Null) => Some(true),
        (Value::Array(i), Value::Array(j)) => {
            proof {
                assert(heap.cells@[i as int].elements@.skip(0) =~= heap.cells@[i
                    as int].elements@);
                assert(heap.cells@[j as int].elements@.skip(0) =~= heap.cells@[j
                    as int].elements@);
            }
            match values_eq(heap, i, j, 0, fuel - 1) {
                Some(true) => {
                    let hi = heap.array_heapsize(i);
                    let hj = heap.array_heapsize(j);
                    value_eq(heap, hi, hj, fuel - 1)
                },
                other => other,
            }
        },
        _ => Some(false),
    }
}

/// Element-by-element comparison of the arrays in cells `i` and `j`,
/// starting at position `from`.
fn values_eq(heap: &Heap, i: usize, j: usize, from: usize, fuel: u64) -> (r: Option<bool>)
    requires
        heap.wf(),
        i < heap.len(),
        j < heap.len(),
        from <= heap.cells@[i as int].elements@.len(),
        from <= heap.cells@[j as int].elements@.len(),
    ensures
        r == spec_values_eq(
            heap.cells@,
            heap.cells@[i as int].elements@.skip(from as int),
            heap.cells@[j as int].elements@.skip(from as int),
            fuel as nat,
        ),
    decreases fuel, 1int, heap.cells@[i as int].elements@.len() - from,
{
    let ghost xs = heap.cells@[i as int].elements@.skip(from as int);
    let ghost ys = heap.cells@[j as int].elements@.skip(from as int);
    let ni = heap.array_len(i);
    let nj = heap.array_len(j);
    if ni - from != nj - from {
        proof {
            assert(xs.len() != ys.len());
        }
        return Some(false);
    }
    if from == ni {
        proof {
            assert(xs.len() == 0);
        }
        return Some(true);
    }
    let x = heap.array_get(i, from);
    let y = heap.array_get(j, from);
    proof {
        assert(xs[0] == x);
        assert(ys[0] == y);
    }
    match value_eq(heap, x, y, fuel) {
        Some(true) => {
            let r = values_eq(heap, i, j, from + 1, fuel);
            proof {
                assert(heap.cells@[i as int].elements@.skip(from + 1) =~= xs.drop_first());
                assert(heap.cells@[j as int].elements@.skip(from + 1) =~= ys.drop_first());
            }
            r
        },
        other => other,
    }
}


/// The textual rendering of a value over a heap, with a recursion budget
/// as in `spec_value_eq`.  Numbers render through the numeric layer,
/// booleans as `true`/`false`, the absent value as `None`, arrays as the
/// bracketed, comma-separated renderings of their elements.
pub open spec fn spec_render_value(h: Seq<ArrayCell>, v: Value, fuel: nat) -> Option<Seq<char>>
    decreases fuel, 0int, 0int,
{
    if fuel == 0 {
        None
    } else {
        match v {
            Value::Number(x) => Some(decimal_of_bits(x)),
            Value::Boolean(b) => Some(if b { "true"@ } else { "false"@ }),
            Value::Null => Some("None"@),
            Value::Array(i) => {
                if i < h.len() {
                    match spec_render_values(h, h[i as int].elements@, (fuel - 1) as nat) {
                        Some(s) => Some("["@ + s + "]"@),
                        None => None,
                    }
                } else {
                    None
                }
            },
        }
    }
}

/// Comma-separated renderings of a sequence of values.
pub open spec fn spec_render_values(h: Seq<ArrayCell>, xs: Seq<Value>, fuel: nat) -> Option<
    Seq<char>,
>
    decreases fuel, 1int, xs.len(),
{
    if xs.len() == 0 {
        Some(Seq::<char>::empty())
    } else {
        match spec_render_value(h, xs[0], fuel) {
            Some(s0) => {
                if xs.len() == 1 {
                    Some(s0)
                } else {
                    match spec_render_values(h, xs.drop_first(), fuel) {
                        Some(rest) => Some(s0 + ", "@ + rest),
                        None => None,
                    }
                }
            },
            None => None,
        }
    }
}

/// Render a value, executable; `None` only when the budget runs out.
pub fn render_value(heap: &Heap, v: Value, fuel: u64) -> (r: Option<String>)
    requires
        heap.wf(),
        value_valid(v, heap.len()),
    ensures
        match r {
            Some(s) => spec_render_value(heap.cells@, v, fuel as nat) == Some(s@),
            None => spec_render_value(heap.cells@, v, fuel as nat) is None,
        },
    decreases fuel, 0int, 0int,
{
    if fuel == 0 {
        return None;
    }
    match v {
        Value::Number(x) => Some(num_render(x)),
        Value::Boolean(b) => {
            if b {
                Some(String::from_str("true"))
            } else {
                Some(String::from_str("false"))
            }
        },
        Value::Null => Some(String::from_str("None")),
        Value::Array(i) => {
            proof {
                assert(heap.cells@[i as int].elements@.skip(0) =~= heap.cells@[i
                    as int].elements@);
            }
            match render_values(heap, i, 0, fuel - 1) {
                Some(s) => {
                    let mut out = String::from_str("[");
                    out.append(s.as_str());
                    out.append("]");
                    Some(out)
                },
                None => None,
            }
        },
    }
}

/// Render the elements of the array in cell `i`, from position `from` on.
fn render_values(heap: &Heap, i: usize, from: usize, fuel: u64) -> (r: Option<String>)
    requires
        heap.wf(),
        i < heap.len(),
        from <= heap.cells@[i as int].elements@.len(),
    ensures
        match r {
            Some(s) => spec_render_values(
                heap.cells@,
                heap.cells@[i as int].elements@.skip(from as int),
                fuel as nat,
            ) == Some(s@),
            None => spec_render_values(
                heap.cells@,
                heap.cells@[i as int].elements@.skip(from as int),
                fuel as nat,
            ) is None,
        },
    decreases fuel, 1int, heap.cells@[i as int].elements@.len() - from,
{
    let ghost xs = heap.cells@[i as int].elements@.skip(from as int);
    let n = heap.array_len(i);
    if from == n {
        proof {
            assert(xs.len() == 0);
        }
        return Some(String::new());
    }
    let x = heap.array_get(i, from);
    proof {
        assert(xs[0] == x);
    }
    match render_value(heap, x, fuel) {
        Some(s0) => {
            if from + 1 == n {
                proof {
                    assert(xs.len() == 1);
                }
                Some(s0)
            } else {
                let rest = render_values(heap, i, from + 1, fuel);
                proof {
                    assert(heap.cells@[i as int].elements@.skip(from + 1) =~= xs.drop_first());
                }
                match rest {
                    Some(r1) => {
                        let mut out = s0;
                        out.append(", ");
                        out.append(r1.as_str());
                        Some(out)
                    },
                    None => None,
                }
            }
        },
        None => None,
    }
}

} // verus!
