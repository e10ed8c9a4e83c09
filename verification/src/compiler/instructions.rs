//! The intermediate representation: linear instruction lists with
//! absolute branch targets, operating on places (variables, member and
//! index accesses) and immediate values.
//!
//! `VMFunction::wf` is what the lowering pass establishes and the virtual
//! machine relies on: the list ends with a `Return`, every branch or jump
//! target lies inside the list, no instruction jumps to itself, branch
//! targets always lie forward, and no immediate holds an array.

use vstd::prelude::*;
use vstd::string::StringExecFns;
use crate::error::GenericError;
use crate::interpreter::value::Value;
use crate::numerics::dec_digits;
use crate::numerics::u64_to_string;
use crate::parser::parsetree::ExpressionType;
use crate::tokenizer::Token;

verus! {

pub struct VMInstruction {
    pub associated_line: usize,
    pub instruction_type: VMInstructionType,
}

pub enum VMValue {
    MemberAccess(Box<VMValue>, Box<VMValue>),
    Indexing(Box<VMValue>, Box<VMValue>),
    Value(Value, Option<Token>),
    Variable(VMVariable),
}

pub enum VMVariable {
    Token(Token),
    Custom(String),
}

#[derive(Clone, Copy, PartialEq, Eq, Structural)]
pub enum VMBinaryOperation {
    Add,
    Subtract,
    Multiply,
    Divide,
    LessThan,
    GreaterThan,
    LessThanEqual,
    GreaterThanEqual,
    Equality,
    Inequality,
}

pub enum VMInstructionType {
    Return(VMValue),
    Assign(VMValue, VMValue),
    BinaryOperation(VMBinaryOperation, VMVariable, VMValue, VMValue),
    FunctionCall(VMVariable, VMVariable, Vec<VMValue>),
    Branch(VMValue, usize, usize),
    Goto(usize),
}

pub struct VMFunction {
    pub instructions: Vec<VMInstruction>,
    pub name: Token,
    pub arguments: Vec<Token>,
    pub next_name: usize,
}

impl VMVariable {
    /// The variable's name: the token's text, or the synthesized name.
    pub open spec fn spec_name(&self) -> Seq<char> {
        match self {
            VMVariable::Token(t) => t.spec_text(),
            VMVariable::Custom(s) => s@,
        }
    }

    pub fn extract_text(&self) -> (r: &str)
        ensures
            r@ == self.spec_name(),
    {
        match self {
            VMVariable::Token(t) => t.extract_text(),
            VMVariable::Custom(s) => s.as_str(),
        }
    }

    pub fn get_token(&self) -> (r: Option<Token>)
        ensures
            match self {
                VMVariable::Token(t) => r == Some(*t),
                VMVariable::Custom(_) => r is None,
            },
    {
        match self {
            VMVariable::Token(t) => Some(t.duplicate()),
            VMVariable::Custom(_) => None,
        }
    }

    /// An identical copy.
    pub fn duplicate(&self) -> (r: VMVariable)
        ensures
            r == *self,
    {
        match self {
            VMVariable::Token(t) => VMVariable::Token(t.duplicate()),
            VMVariable::Custom(s) => VMVariable::Custom(s.clone()),
        }
    }
}

impl VMValue {
    /// No immediate holds an array reference: arrays exist only at run
    /// time, so a lowered function is meaningful over any heap.
    pub open spec fn wf(&self) -> bool
        decreases self,
    {
        match self {
            VMValue::MemberAccess(b, m) => b.wf() && m.wf(),
            VMValue::Indexing(b, i) => b.wf() && i.wf(),
            VMValue::Value(v, _) => !(*v is Array),
            VMValue::Variable(_) => true,
        }
    }

    /// The token of the leftmost part of this place, for diagnostics.
    pub fn get_token(&self) -> (r: Option<Token>)
        decreases self,
    {
        match self {
            VMValue::MemberAccess(v, _) => v.get_token(),
            VMValue::Indexing(v, _) => v.get_token(),
            VMValue::Value(_, t) => match t {
                Some(t) => Some(t.duplicate()),
                None => None,
            },
            VMValue::Variable(v) => v.get_token(),
        }
    }

    /// An identical copy.
    pub fn duplicate(&self) -> (r: VMValue)
        ensures
            r == *self,
        decreases self,
    {
        match self {
            VMValue::MemberAccess(b, m) => VMValue::MemberAccess(
                Box::new(b.duplicate()),
                Box::new(m.duplicate()),
            ),
            VMValue::Indexing(b, i) => VMValue::Indexing(
                Box::new(b.duplicate()),
                Box::new(i.duplicate()),
            ),
            VMValue::Value(v, t) => VMValue::Value(
                *v,
                match t {
                    Some(t) => Some(t.duplicate()),
                    None => None,
                },
            ),
            VMValue::Variable(v) => VMValue::Variable(v.duplicate()),
        }
    }

    /// Interpret this value as the name of an assignment target or
    /// callee; immediates are rejected.
    pub fn to_variable(self) -> (r: Result<VMVariable, GenericError>)
        ensures
            match r {
                Ok(v) => self matches VMValue::Variable(w) && v == w,
                Err(e) => !(self is Variable) && e.error_type is Error,
            },
    {
        match self {
            VMValue::Value(_, Some(t)) => Err(
                GenericError::error(t, String::from_str("expected identifier or variable")),
            ),
            VMValue::Variable(v) => Ok(v),
            VMValue::Value(_, None) => Err(
                GenericError::tokenless_error(
                    String::from_str("expected identifier or variable"),
                ),
            ),
            other => Err(
                GenericError::tokenable_error(
                    other.get_token(),
                    String::from_str("expected identifier or variable"),
                ),
            ),
        }
    }
}

impl VMBinaryOperation {
    /// The operation an expression form lowers to, if it is a binary
    /// operation.
    pub open spec fn spec_of_expression_type(e: ExpressionType) -> Option<VMBinaryOperation> {
        match e {
            ExpressionType::Add => Some(VMBinaryOperation::Add),
            ExpressionType::Subtract => Some(VMBinaryOperation::Subtract),
            ExpressionType::Multiply => Some(VMBinaryOperation::Multiply),
            ExpressionType::Divide => Some(VMBinaryOperation::Divide),
            ExpressionType::LessThan => Some(VMBinaryOperation::LessThan),
            ExpressionType::GreaterThan => Some(VMBinaryOperation::GreaterThan),
            ExpressionType::LessThanEqual => Some(VMBinaryOperation::LessThanEqual),
            ExpressionType::GreaterThanEqual => Some(VMBinaryOperation::GreaterThanEqual),
            ExpressionType::Equality => Some(VMBinaryOperation::Equality),
            ExpressionType::Inequality => Some(VMBinaryOperation::Inequality),
            _ => None,
        }
    }

    pub fn of_expression_type(e: ExpressionType) -> (r: Option<VMBinaryOperation>)
        ensures
            r == Self::spec_of_expression_type(e),
    {
        match e {
            ExpressionType::Add => Some(VMBinaryOperation::Add),
            ExpressionType::Subtract => Some(VMBinaryOperation::Subtract),
            ExpressionType::Multiply => Some(VMBinaryOperation::Multiply),
            ExpressionType::Divide => Some(VMBinaryOperation::Divide),
            ExpressionType::LessThan => Some(VMBinaryOperation::LessThan),
            ExpressionType::GreaterThan => Some(VMBinaryOperation::GreaterThan),
            ExpressionType::LessThanEqual => Some(VMBinaryOperation::LessThanEqual),
            ExpressionType::GreaterThanEqual => Some(VMBinaryOperation::GreaterThanEqual),
            ExpressionType::Equality => Some(VMBinaryOperation::Equality),
            ExpressionType::Inequality => Some(VMBinaryOperation::Inequality),
            _ => None,
        }
    }
}

impl VMInstructionType {
    /// All the values an instruction reads or writes are well-formed.
    pub open spec fn values_wf(&self) -> bool {
        match self {
            VMInstructionType::Return(v) => v.wf(),
            VMInstructionType::Assign(d, s) => d.wf() && s.wf(),
            VMInstructionType::BinaryOperation(_, _, a, b) => a.wf() && b.wf(),
            VMInstructionType::FunctionCall(_, _, args) => forall|i: int|
                #![trigger args@[i]]
                0 <= i < args@.len() ==> args@[i].wf(),
            VMInstructionType::Branch(c, _, _) => c.wf(),
            VMInstructionType::Goto(_) => true,
        }
    }
}

impl VMInstruction {
    pub fn new(associated_line: usize, instruction_type: VMInstructionType) -> (r: Self)
        ensures
            r.associated_line == associated_line,
            r.instruction_type == instruction_type,
    {
        VMInstruction { associated_line, instruction_type }
    }
}

/// Well-formedness of the instruction at index `i` of a list of length
/// `n`, as the lowering pass leaves it: targets are in range, branch
/// targets point strictly forward, and a jump never targets itself.
pub open spec fn instr_wf(t: VMInstructionType, i: int, n: int) -> bool {
    &&& t.values_wf()
    &&& match t {
        VMInstructionType::Branch(_, tt, ff) => i < tt <= n && i < ff <= n,
        VMInstructionType::Goto(g) => g <= n && g != i,
        _ => true,
    }
}

/// In a well-formed lowered function, every branch or jump target lies
/// strictly inside the instruction list, branch targets point strictly
/// forward of their own instruction (so no fix-up sentinel survives
/// lowering), and no jump targets itself.
pub proof fn lemma_targets_in_range(f: VMFunction, i: int)
    requires
        f.wf(),
        0 <= i < f.instructions@.len(),
    ensures
        match f.instructions@[i].instruction_type {
            VMInstructionType::Branch(_, t, ff) => i < t < f.instructions@.len() && i < ff
                < f.instructions@.len(),
            VMInstructionType::Goto(g) => g < f.instructions@.len() && g != i,
            _ => true,
        },
{
    assert(instr_wf(f.instructions@[i].instruction_type, i, f.instructions@.len() - 1));
}

impl VMFunction {
    /// What the lowering pass guarantees of a finished function: at
    /// least one instruction, the last a `Return`, and every instruction
    /// well-formed with all targets strictly inside the list.
    pub open spec fn wf(&self) -> bool {
        let n = self.instructions@.len() as int;
        &&& n >= 1
        &&& self.instructions@[n - 1].instruction_type is Return
        &&& forall|i: int|
            #![trigger self.instructions@[i]]
            0 <= i < n ==> instr_wf(self.instructions@[i].instruction_type, i, n - 1)
    }

    pub fn new(name: Token, arguments: Vec<Token>) -> (r: Self)
        ensures
            r.instructions@.len() == 0,
            r.name == name,
            r.arguments == arguments,
            r.next_name == 0,
    {
        VMFunction { instructions: Vec::new(), arguments, name, next_name: 0 }
    }

    pub fn add_instruction(&mut self, instruction: VMInstruction)
        ensures
            final(self).instructions@ == old(self).instructions@.push(instruction),
            final(self).name == old(self).name,
            final(self).arguments == old(self).arguments,
            final(self).next_name == old(self).next_name,
    {
        self.instructions.push(instruction);
    }

    pub fn add_instruction_type(&mut self, associated_line: usize, t: VMInstructionType)
        ensures
            final(self).instructions@ == old(self).instructions@.push(
                VMInstruction { associated_line, instruction_type: t },
            ),
            final(self).name == old(self).name,
            final(self).arguments == old(self).arguments,
            final(self).next_name == old(self).next_name,
    {
        self.add_instruction(VMInstruction::new(associated_line, t));
    }

    /// A fresh synthesized variable, `temp$<n>` for the current counter.
    /// Synthesized names always contain `$`, which no source identifier
    /// can, so the visualizer can filter them out.
    pub fn next_temp_variable(&mut self) -> (r: VMVariable)
        ensures
            final(self).instructions == old(self).instructions,
            final(self).name == old(self).name,
            final(self).arguments == old(self).arguments,
            final(self).next_name == if old(self).next_name < usize::MAX {
                old(self).next_name + 1
            } else {
                usize::MAX as int
            },
            r matches VMVariable::Custom(s) && s@ == "temp$"@ + dec_digits(
                old(self).next_name as int,
            ),
    {
        let mut s = String::from_str("temp$");
        s.append(u64_to_string(self.next_name as u64).as_str());
        self.next_name = if self.next_name < usize::MAX {
            self.next_name + 1
        } else {
            usize::MAX
        };
        VMVariable::Custom(s)
    }

    pub fn next_instruction_index(&self) -> (r: usize)
        ensures
            r == self.instructions@.len(),
    {
        self.instructions.len()
    }
}


/// Equality of instruction forms up to the view of a call's argument
/// list: what every consumer of a duplicated instruction relies on.
pub open spec fn same_instruction_type(a: VMInstructionType, b: VMInstructionType) -> bool {
    match (a, b) {
        (
            VMInstructionType::FunctionCall(n1, d1, ar1),
            VMInstructionType::FunctionCall(n2, d2, ar2),
        ) => n1 == n2 && d1 == d2 && ar1@ == ar2@,
        _ => a == b,
    }
}

/// Equivalent instruction forms are interchangeably well-formed.
pub proof fn lemma_same_instruction_type(a: VMInstructionType, b: VMInstructionType, i: int, n: int)
    requires
        same_instruction_type(a, b),
    ensures
        instr_wf(a, i, n) <==> instr_wf(b, i, n),
        a is Return <==> b is Return,
        a.values_wf() <==> b.values_wf(),
{
    match (a, b) {
        (
            VMInstructionType::FunctionCall(n1, d1, ar1),
            VMInstructionType::FunctionCall(n2, d2, ar2),
        ) => {
            assert(ar1@ == ar2@);
            assert forall|j: int| 0 <= j < ar1@.len() && ar2@[j].wf() implies (
            #[trigger] ar1@[j]).wf() by {}
            assert forall|j: int| 0 <= j < ar2@.len() && ar1@[j].wf() implies (
            #[trigger] ar2@[j]).wf() by {}
        },
        _ => {},
    }
}

impl VMInstructionType {
    /// A copy equal up to the view of a call's argument list.
    pub fn duplicate(&self) -> (r: VMInstructionType)
        ensures
            same_instruction_type(r, *self),
    {
        match self {
            VMInstructionType::Return(v) => VMInstructionType::Return(v.duplicate()),
            VMInstructionType::Assign(d, s) => VMInstructionType::Assign(
                d.duplicate(),
                s.duplicate(),
            ),
            VMInstructionType::BinaryOperation(op, d, a, b) => VMInstructionType::BinaryOperation(
                *op,
                d.duplicate(),
                a.duplicate(),
                b.duplicate(),
            ),
            VMInstructionType::FunctionCall(name, dest, args) => {
                let mut new_args: Vec<VMValue> = Vec::new();
                let n = args.len();
                let mut i: usize = 0;
                while i < n
                    invariant
                        n == args@.len(),
                        i <= n,
                        new_args@.len() == i,
                        forall|j: int|
                            #![trigger new_args@[j]]
                            0 <= j < i ==> new_args@[j] == args@[j],
                    decreases n - i,
                {
                    new_args.push(args[i].duplicate());
                    i = i + 1;
                }
                proof {
                    assert(new_args@ =~= args@);
                }
                VMInstructionType::FunctionCall(name.duplicate(), dest.duplicate(), new_args)
            },
            VMInstructionType::Branch(c, t, f) => VMInstructionType::Branch(c.duplicate(), *t, *f),
            VMInstructionType::Goto(g) => VMInstructionType::Goto(*g),
        }
    }
}

impl VMInstruction {
    /// A copy equal up to the view of a call's argument list.
    pub fn duplicate(&self) -> (r: VMInstruction)
        ensures
            r.associated_line == self.associated_line,
            same_instruction_type(r.instruction_type, self.instruction_type),
    {
        VMInstruction {
            associated_line: self.associated_line,
            instruction_type: self.instruction_type.duplicate(),
        }
    }
}

impl VMFunction {
    /// A copy with the same name, arguments, instruction list, and
    /// counter.
    pub fn duplicate(&self) -> (r: VMFunction)
        ensures
            r.instructions@.len() == self.instructions@.len(),
            forall|i: int|
                #![trigger r.instructions@[i]]
                0 <= i < r.instructions@.len() ==> r.instructions@[i].associated_line
                    == self.instructions@[i].associated_line && same_instruction_type(
                    r.instructions@[i].instruction_type,
                    self.instructions@[i].instruction_type,
                ),
            r.name == self.name,
            r.arguments@ == self.arguments@,
            r.next_name == self.next_name,
            self.wf() ==> r.wf(),
    {
        let mut instructions: Vec<VMInstruction> = Vec::new();
        let n = self.instructions.len();
        let mut i: usize = 0;
        while i < n
            invariant
                n == self.instructions@.len(),
                i <= n,
                instructions@.len() == i,
                forall|j: int|
                    #![trigger instructions@[j]]
                    0 <= j < i ==> instructions@[j].associated_line == self.instructions@[j]
                        .associated_line && same_instruction_type(
                        instructions@[j].instruction_type,
                        self.instructions@[j].instruction_type,
                    ),
            decreases n - i,
        {
            instructions.push(self.instructions[i].duplicate());
            i = i + 1;
        }
        proof {
            if self.wf() {
                let nn = instructions@.len() as int;
                assert forall|ii: int| 0 <= ii < nn implies instr_wf(
                    (#[trigger] instructions@[ii]).instruction_type,
                    ii,
                    nn - 1,
                ) by {
                    lemma_same_instruction_type(
                        instructions@[ii].instruction_type,
                        self.instructions@[ii].instruction_type,
                        ii,
                        nn - 1,
                    );
                }
                lemma_same_instruction_type(
                    instructions@[nn - 1].instruction_type,
                    self.instructions@[nn - 1].instruction_type,
                    nn - 1,
                    nn - 1,
                );
            }
        }
        let mut arguments: Vec<Token> = Vec::new();
        let m = self.arguments.len();
        let mut j: usize = 0;
        while j < m
            invariant
                m == self.arguments@.len(),
                j <= m,
                arguments@.len() == j,
                forall|k: int|
                    #![trigger arguments@[k]]
                    0 <= k < j ==> arguments@[k] == self.arguments@[k],
            decreases m - j,
        {
            arguments.push(self.arguments[j].duplicate());
            j = j + 1;
        }
        proof {
            assert(arguments@ =~= self.arguments@);
        }
        VMFunction {
            instructions,
            name: self.name.duplicate(),
            arguments,
            next_name: self.next_name,
        }
    }
}

} // verus!
