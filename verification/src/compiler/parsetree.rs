//! Lowering from the parse tree to IR.  The contract of `compile` is the
//! heart of this module: lowering only appends instructions (earlier ones
//! keep their text, only recorded jump targets are filled in), every
//! instruction it adds has forward, in-range, non-self jump targets once
//! the pass returns, and the source line of every statement that emits
//! code appears on at least one added instruction.  `compile_function`
//! then closes the function with an implicit `Return` and delivers a
//! well-formed `VMFunction`.

use vstd::prelude::*;
use crate::compiler::instructions::VMBinaryOperation;
use crate::compiler::instructions::VMFunction;
use crate::compiler::instructions::VMInstruction;
use crate::compiler::instructions::VMInstructionType;
use crate::compiler::instructions::VMValue;
use crate::compiler::instructions::VMVariable;
use crate::compiler::instructions::instr_wf;
use crate::error::GenericError;
use crate::interpreter::value::Value;
use crate::numerics::num_from_int;
use crate::parser::parsetree::ExpressionType;
use crate::parser::parsetree::ParseTreeNode;
use crate::parser::parsetree::is_expression_node;
use crate::tokenizer::Token;

verus! {

/// Forms that produce at least one instruction of their own when they
/// stand as a statement.
pub open spec fn emitting_expression(e: ExpressionType) -> bool {
    !(e is MemberAccess || e is Indexing)
}

/// The source lines that lowering the node is guaranteed to stamp on
/// instructions: one for each statement that emits code, recursively
/// through nested blocks.  A bare value standing as a statement emits
/// nothing and contributes no line.
pub open spec fn stmt_lines(n: ParseTreeNode) -> Set<int>
    decreases n, 1int,
{
    match n {
        ParseTreeNode::Block { statements } => seq_stmt_lines(statements@),
        ParseTreeNode::ReturnStatement { token, .. } => Set::empty().insert(
            token.location.line as int,
        ),
        ParseTreeNode::IfStatement { ifs, else_block } => {
            if_lines(ifs@).union(
                match else_block {
                    Some(b) => stmt_lines(*b),
                    None => Set::empty(),
                },
            )
        },
        ParseTreeNode::ForLoop { token, block, .. } => Set::empty().insert(
            token.location.line as int,
        ).union(stmt_lines(*block)),
        ParseTreeNode::WhileLoop { token, block, .. } => Set::empty().insert(
            token.location.line as int,
        ).union(stmt_lines(*block)),
        ParseTreeNode::Expression { expression_type, symbols, .. } => {
            if emitting_expression(expression_type) && symbols@.len() >= 1 {
                Set::empty().insert(symbols@[0].location.line as int)
            } else {
                Set::empty()
            }
        },
        _ => Set::empty(),
    }
}

/// The union of `stmt_lines` over a statement sequence.
pub open spec fn seq_stmt_lines(ss: Seq<ParseTreeNode>) -> Set<int>
    decreases ss, 0int,
{
    if ss.len() == 0 {
        Set::empty()
    } else {
        stmt_lines(ss[0]).union(seq_stmt_lines(ss.drop_first()))
    }
}

/// The union of clause lines and clause body lines of an `if` chain.
pub open spec fn if_lines(ifs: Seq<(Token, ParseTreeNode, ParseTreeNode)>) -> Set<int>
    decreases ifs, 0int,
{
    if ifs.len() == 0 {
        Set::empty()
    } else {
        Set::empty().insert(ifs[0].0.location.line as int).union(stmt_lines(ifs[0].2)).union(
            if_lines(ifs.drop_first()),
        )
    }
}

/// Some instruction at or after `from` carries source line `l`.
pub open spec fn line_covered(ins: Seq<VMInstruction>, from: int, l: int) -> bool {
    exists|i: int| from <= i < ins.len() && (#[trigger] ins[i]).associated_line == l
}

/// Every line of `ls` is covered at or after `from`.
pub open spec fn lines_covered(ls: Set<int>, ins: Seq<VMInstruction>, from: int) -> bool {
    forall|l: int| #[trigger] ls.contains(l) ==> line_covered(ins, from, l)
}

/// Well-formedness of an instruction the current `compile` call added,
/// relative to the call's entry length `k` and the current length `m`:
/// branches point strictly forward within the added range, jumps stay
/// within `[k, m]` and never target themselves.
pub open spec fn added_wf(t: VMInstructionType, i: int, k: int, m: int) -> bool {
    &&& t.values_wf()
    &&& match t {
        VMInstructionType::Branch(_, tt, ff) => i < tt <= m && i < ff <= m,
        VMInstructionType::Goto(g) => k <= g <= m && g != i,
        _ => true,
    }
}

/// Whether a lowered expression becomes a variable reference (a source
/// name or a synthesized temporary), as opposed to an immediate or a
/// member/index place.  Only a variable can stand as a callee.
pub open spec fn lowers_to_variable(n: ParseTreeNode) -> bool
    decreases n,
{
    match n {
        ParseTreeNode::IdentifierValue { .. } => true,
        ParseTreeNode::Expression { expression_type, children, .. } => {
            if expression_type is Assignment {
                children@.len() == 2 && lowers_to_variable(children@[1])
            } else if expression_type is MemberAccess || expression_type is Indexing {
                false
            } else {
                true
            }
        },
        _ => false,
    }
}

/// The expression-level part of `lowerable`: every child is an
/// expression node that lowers, and a call's callee lowers to a variable.
pub open spec fn expression_parts_lowerable(e: ExpressionType, children: Seq<ParseTreeNode>)
    -> bool
    decreases children, 0int,
{
    &&& forall|i: int|
        #![trigger children[i]]
        0 <= i < children.len() ==> is_expression_node(children[i]) && lowerable(children[i])
    &&& (e is FunctionCall ==> children.len() >= 1 && lowers_to_variable(children[0]))
}

/// The trees lowering is owed to succeed on: every value position holds
/// an expression node, every callee lowers to a variable, and no
/// function definition stands inside a body.
pub open spec fn lowerable(n: ParseTreeNode) -> bool
    decreases n, 1int,
{
    match n {
        ParseTreeNode::Block { statements } => forall|i: int|
            #![trigger statements@[i]]
            0 <= i < statements@.len() ==> lowerable(statements@[i]),
        ParseTreeNode::ReturnStatement { expression, .. } => match expression {
            Some(e) => is_expression_node(*e) && lowerable(*e),
            None => true,
        },
        ParseTreeNode::IdentifierValue { .. } => true,
        ParseTreeNode::NumericValue { .. } => true,
        ParseTreeNode::IfStatement { ifs, else_block } => {
            &&& forall|i: int|
                #![trigger ifs@[i]]
                0 <= i < ifs@.len() ==> is_expression_node(ifs@[i].1) && lowerable(ifs@[i].1)
                    && lowerable(ifs@[i].2)
            &&& match else_block {
                Some(b) => lowerable(*b),
                None => true,
            }
        },
        ParseTreeNode::ForLoop { bound0, bound1, block, .. } => {
            &&& is_expression_node(*bound0) && lowerable(*bound0)
            &&& is_expression_node(*bound1) && lowerable(*bound1)
            &&& lowerable(*block)
        },
        ParseTreeNode::WhileLoop { condition, block, .. } => {
            is_expression_node(*condition) && lowerable(*condition) && lowerable(*block)
        },
        ParseTreeNode::Expression { expression_type, children, .. } => expression_parts_lowerable(
            expression_type,
            children@,
        ),
        ParseTreeNode::Function { .. } => false,
    }
}

/// An upper bound on the number of instructions lowering a node can
/// append.  Each form's own emissions stay under its constant, and the
/// children contribute their own bounds; lowering is owed to succeed
/// whenever the instruction count plus this bound stays below
/// `usize::MAX`.
pub open spec fn compile_size(n: ParseTreeNode) -> nat
    decreases n, 1int,
{
    match n {
        ParseTreeNode::Block { statements } => 1 + seq_compile_size(statements@),
        ParseTreeNode::ReturnStatement { expression, .. } => match expression {
            Some(e) => 2 + compile_size(*e),
            None => 2,
        },
        ParseTreeNode::IdentifierValue { .. } => 1,
        ParseTreeNode::NumericValue { .. } => 1,
        ParseTreeNode::IfStatement { ifs, else_block } => 2 + ifs_compile_size(ifs@) + (
        match else_block {
            Some(b) => 2 + compile_size(*b),
            None => 0,
        }),
        ParseTreeNode::ForLoop { bound0, bound1, block, .. } => 8 + compile_size(*bound0)
            + compile_size(*bound1) + compile_size(*block),
        ParseTreeNode::WhileLoop { condition, block, .. } => 4 + compile_size(*condition)
            + compile_size(*block),
        ParseTreeNode::Expression { children, .. } => 8 + seq_compile_size(children@),
        ParseTreeNode::Function { block, .. } => 4 + compile_size(*block),
    }
}

/// The sum of `compile_size` over a statement or argument sequence.
pub open spec fn seq_compile_size(ss: Seq<ParseTreeNode>) -> nat
    decreases ss, 0int,
{
    if ss.len() == 0 {
        0
    } else {
        compile_size(ss[0]) + seq_compile_size(ss.drop_first())
    }
}

/// The sum of clause bounds over an `if` chain: a constant for the two
/// jumps of each clause, plus its condition and body.
pub open spec fn ifs_compile_size(ifs: Seq<(Token, ParseTreeNode, ParseTreeNode)>) -> nat
    decreases ifs, 0int,
{
    if ifs.len() == 0 {
        0
    } else {
        4 + compile_size(ifs[0].1) + compile_size(ifs[0].2) + ifs_compile_size(ifs.drop_first())
    }
}

/// Peeling one element off the front of a suffix sum.
pub proof fn lemma_seq_compile_size_step(ss: Seq<ParseTreeNode>, j: int)
    requires
        0 <= j < ss.len(),
    ensures
        seq_compile_size(ss.subrange(j, ss.len() as int)) == compile_size(ss[j])
            + seq_compile_size(ss.subrange(j + 1, ss.len() as int)),
{
    assert(ss.subrange(j, ss.len() as int).drop_first() =~= ss.subrange(j + 1, ss.len() as int));
}

/// Peeling one clause off the front of an `if` chain's suffix sum.
pub proof fn lemma_ifs_compile_size_step(ifs: Seq<(Token, ParseTreeNode, ParseTreeNode)>, j: int)
    requires
        0 <= j < ifs.len(),
    ensures
        ifs_compile_size(ifs.subrange(j, ifs.len() as int)) == 4 + compile_size(ifs[j].1)
            + compile_size(ifs[j].2) + ifs_compile_size(ifs.subrange(j + 1, ifs.len() as int)),
{
    assert(ifs.subrange(j, ifs.len() as int).drop_first() =~= ifs.subrange(
        j + 1,
        ifs.len() as int,
    ));
}

/// The sum over a two-element sequence, written out.
pub proof fn lemma_pair_compile_size(ss: Seq<ParseTreeNode>)
    requires
        ss.len() == 2,
    ensures
        seq_compile_size(ss) == compile_size(ss[0]) + compile_size(ss[1]),
{
    reveal_with_fuel(seq_compile_size, 3);
    assert(ss.drop_first()[0] == ss[1]);
    assert(ss.drop_first().drop_first().len() == 0);
}

/// A line of a statement sequence is a line of one of its statements.
pub proof fn lemma_seq_stmt_lines(ss: Seq<ParseTreeNode>, l: int)
    ensures
        seq_stmt_lines(ss).contains(l) <==> exists|j: int|
            0 <= j < ss.len() && (#[trigger] stmt_lines(ss[j])).contains(l),
    decreases ss.len(),
{
    if ss.len() > 0 {
        lemma_seq_stmt_lines(ss.drop_first(), l);
        if stmt_lines(ss[0]).contains(l) {
            assert(stmt_lines(ss[0]).contains(l) && 0 < ss.len());
        }
        if seq_stmt_lines(ss.drop_first()).contains(l) {
            let j = choose|j: int|
                0 <= j < ss.drop_first().len() && (#[trigger] stmt_lines(
                    ss.drop_first()[j],
                )).contains(l);
            assert(ss.drop_first()[j] == ss[j + 1]);
            assert(stmt_lines(ss[j + 1]).contains(l));
        }
        if exists|j: int| 0 <= j < ss.len() && (#[trigger] stmt_lines(ss[j])).contains(l) {
            let j = choose|j: int|
                0 <= j < ss.len() && (#[trigger] stmt_lines(ss[j])).contains(l);
            if j > 0 {
                assert(ss.drop_first()[j - 1] == ss[j]);
                assert(stmt_lines(ss.drop_first()[j - 1]).contains(l));
            }
        }
    }
}

/// A line of an `if` chain is a clause line or a line of a clause body.
pub proof fn lemma_if_lines(ifs: Seq<(Token, ParseTreeNode, ParseTreeNode)>, l: int)
    ensures
        if_lines(ifs).contains(l) <==> exists|j: int|
            0 <= j < ifs.len() && ((#[trigger] ifs[j]).0.location.line == l || stmt_lines(
                ifs[j].2,
            ).contains(l)),
    decreases ifs.len(),
{
    if ifs.len() > 0 {
        lemma_if_lines(ifs.drop_first(), l);
        if ifs[0].0.location.line == l || stmt_lines(ifs[0].2).contains(l) {
            assert(0 <= 0 < ifs.len() && (ifs[0].0.location.line == l || stmt_lines(
                ifs[0].2,
            ).contains(l)));
        }
        if if_lines(ifs.drop_first()).contains(l) {
            let j = choose|j: int|
                0 <= j < ifs.drop_first().len() && ((#[trigger] ifs.drop_first()[j]).0.location.line
                    == l || stmt_lines(ifs.drop_first()[j].2).contains(l));
            assert(ifs.drop_first()[j] == ifs[j + 1]);
        }
        if exists|j: int|
            0 <= j < ifs.len() && ((#[trigger] ifs[j]).0.location.line == l || stmt_lines(
                ifs[j].2,
            ).contains(l)) {
            let j = choose|j: int|
                0 <= j < ifs.len() && ((#[trigger] ifs[j]).0.location.line == l || stmt_lines(
                    ifs[j].2,
                ).contains(l));
            if j > 0 {
                assert(ifs.drop_first()[j - 1] == ifs[j]);
            }
        }
    }
}

impl VMFunction {
    /// Overwrite the false target of the branch at `idx`, leaving
    /// everything else (including its line) as it was.
    fn fix_branch_false(&mut self, idx: usize, target: usize)
        requires
            idx < old(self).instructions@.len(),
            old(self).instructions@[idx as int].instruction_type is Branch,
        ensures
            final(self).instructions@.len() == old(self).instructions@.len(),
            final(self).name == old(self).name,
            final(self).arguments == old(self).arguments,
            final(self).next_name == old(self).next_name,
            forall|i: int|
                #![trigger final(self).instructions@[i]]
                0 <= i < old(self).instructions@.len() && i != idx
                    ==> final(self).instructions@[i] == old(self).instructions@[i],
            final(self).instructions@[idx as int].associated_line == old(self).instructions@[idx
                as int].associated_line,
            (old(self).instructions@[idx as int].instruction_type matches VMInstructionType::Branch(c, t, _)
                ==> final(self).instructions@[idx as int].instruction_type
                    == VMInstructionType::Branch(c, t, target as usize)),
    {
        let line = self.instructions[idx].associated_line;
        let replacement = match &self.instructions[idx].instruction_type {
            VMInstructionType::Branch(c, t, _) => VMInstructionType::Branch(
                c.duplicate(),
                *t,
                target,
            ),
            _ => vstd::pervasive::unreached(),
        };
        self.instructions.set(idx, VMInstruction { associated_line: line, instruction_type: replacement });
    }

    /// Overwrite the true target of the branch at `idx`.
    fn fix_branch_true(&mut self, idx: usize, target: usize)
        requires
            idx < old(self).instructions@.len(),
            old(self).instructions@[idx as int].instruction_type is Branch,
        ensures
            final(self).instructions@.len() == old(self).instructions@.len(),
            final(self).name == old(self).name,
            final(self).arguments == old(self).arguments,
            final(self).next_name == old(self).next_name,
            forall|i: int|
                #![trigger final(self).instructions@[i]]
                0 <= i < old(self).instructions@.len() && i != idx
                    ==> final(self).instructions@[i] == old(self).instructions@[i],
            final(self).instructions@[idx as int].associated_line == old(self).instructions@[idx
                as int].associated_line,
            (old(self).instructions@[idx as int].instruction_type matches VMInstructionType::Branch(c, _, f)
                ==> final(self).instructions@[idx as int].instruction_type
                    == VMInstructionType::Branch(c, target as usize, f)),
    {
        let line = self.instructions[idx].associated_line;
        let replacement = match &self.instructions[idx].instruction_type {
            VMInstructionType::Branch(c, _, f) => VMInstructionType::Branch(
                c.duplicate(),
                target,
                *f,
            ),
            _ => vstd::pervasive::unreached(),
        };
        self.instructions.set(idx, VMInstruction { associated_line: line, instruction_type: replacement });
    }

    /// Overwrite the target of the jump at `idx`.
    fn fix_goto(&mut self, idx: usize, target: usize)
        requires
            idx < old(self).instructions@.len(),
            old(self).instructions@[idx as int].instruction_type is Goto,
        ensures
            final(self).instructions@.len() == old(self).instructions@.len(),
            final(self).name == old(self).name,
            final(self).arguments == old(self).arguments,
            final(self).next_name == old(self).next_name,
            forall|i: int|
                #![trigger final(self).instructions@[i]]
                0 <= i < old(self).instructions@.len() && i != idx
                    ==> final(self).instructions@[i] == old(self).instructions@[i],
            final(self).instructions@[idx as int].associated_line == old(self).instructions@[idx
                as int].associated_line,
            final(self).instructions@[idx as int].instruction_type == VMInstructionType::Goto(
                target as usize,
            ),
    {
        let line = self.instructions[idx].associated_line;
        self.instructions.set(
            idx,
            VMInstruction { associated_line: line, instruction_type: VMInstructionType::Goto(target) },
        );
    }
}


/// Coverage survives appending instructions: the old witnesses stand.
proof fn lemma_covered_extend(ls: Set<int>, a: Seq<VMInstruction>, b: Seq<VMInstruction>, from: int)
    requires
        0 <= from,
        a.len() <= b.len(),
        b.subrange(0, a.len() as int) == a,
        lines_covered(ls, a, from),
    ensures
        lines_covered(ls, b, from),
{
    assert forall|l: int| #[trigger] ls.contains(l) implies line_covered(b, from, l) by {
        let i = choose|i: int| from <= i < a.len() && (#[trigger] a[i]).associated_line == l;
        assert(b.subrange(0, a.len() as int)[i] == b[i]);
        assert(b[i].associated_line == l);
    }
}

/// A longer extension preserves any shorter prefix.
proof fn lemma_prefix_trans(a: Seq<VMInstruction>, b: Seq<VMInstruction>, k: int)
    requires
        0 <= k <= a.len() <= b.len(),
        b.subrange(0, a.len() as int) == a,
    ensures
        b.subrange(0, k) == a.subrange(0, k),
{
    assert forall|i: int| 0 <= i < k implies b.subrange(0, k)[i] == a.subrange(0, k)[i] by {
        assert(b.subrange(0, a.len() as int)[i] == b[i]);
    }
    assert(b.subrange(0, k) =~= a.subrange(0, k));
}

/// Instructions added by an inner pass merge into the outer pass's
/// added range: their guarantees only weaken.
proof fn lemma_added_merge(a: Seq<VMInstruction>, b: Seq<VMInstruction>, k: int)
    requires
        0 <= k <= a.len() <= b.len(),
        b.subrange(0, a.len() as int) == a,
        forall|i: int|
            #![trigger a[i]]
            k <= i < a.len() ==> added_wf(a[i].instruction_type, i, k, a.len() as int),
        forall|i: int|
            #![trigger b[i]]
            a.len() <= i < b.len() ==> added_wf(
                b[i].instruction_type,
                i,
                a.len() as int,
                b.len() as int,
            ),
    ensures
        forall|i: int|
            #![trigger b[i]]
            k <= i < b.len() ==> added_wf(b[i].instruction_type, i, k, b.len() as int),
{
    assert forall|i: int| k <= i < b.len() implies added_wf(
        (#[trigger] b[i]).instruction_type,
        i,
        k,
        b.len() as int,
    ) by {
        if i < a.len() {
            assert(b.subrange(0, a.len() as int)[i] == b[i]);
            assert(a[i] == b[i]);
        }
    }
}

impl VMFunction {
    /// Lower one parse-tree node, appending its instructions.  A
    /// statement yields no value; an expression yields the place or
    /// immediate holding its result.  Once this returns, every
    /// instruction it added is fully fixed up: branch targets point
    /// strictly forward and in range, jumps stay within what this pass
    /// (or a nested one) emitted and never target themselves, and every
    /// statement line in `stmt_lines` is stamped on some new instruction.
    pub fn compile(&mut self, node: &ParseTreeNode) -> (r: Result<Option<VMValue>, GenericError>)
        requires
            node.wf(),
        ensures
            final(self).name == old(self).name,
            final(self).arguments == old(self).arguments,
            old(self).instructions@.len() <= final(self).instructions@.len(),
            r is Ok ==> final(self).instructions@.subrange(
                0,
                old(self).instructions@.len() as int,
            ) == old(self).instructions@,
            r is Ok ==> forall|i: int|
                #![trigger final(self).instructions@[i]]
                old(self).instructions@.len() <= i < final(self).instructions@.len() ==> added_wf(
                    final(self).instructions@[i].instruction_type,
                    i,
                    old(self).instructions@.len() as int,
                    final(self).instructions@.len() as int,
                ),
            r is Ok ==> lines_covered(
                stmt_lines(*node),
                final(self).instructions@,
                old(self).instructions@.len() as int,
            ),
            match r {
                Ok(Some(v)) => v.wf() && is_expression_node(*node),
                Ok(None) => !is_expression_node(*node),
                Err(_) => true,
            },
            r matches Err(e) ==> (lowerable(*node) ==> e.message@ == "function is too large"@),
            r matches Ok(Some(v)) ==> ((v is Variable) <==> lowers_to_variable(*node)),
            r is Ok ==> final(self).instructions@.len() <= old(self).instructions@.len()
                + compile_size(*node),
            lowerable(*node) && old(self).instructions@.len() + compile_size(*node) < usize::MAX
                ==> r is Ok,
        decreases node, 3int,
    {
        let ghost entry = self.instructions@;
        let ghost k = entry.len() as int;
        proof {
            assert(self.instructions@.subrange(0, k) =~= entry);
        }
        match node {
            ParseTreeNode::Block { statements } => {
                let n = statements.len();
                let mut j: usize = 0;
                proof {
                    assert(statements@.subrange(0, n as int) =~= statements@);
                }
                while j < n
                    invariant
                        n == statements@.len(),
                        j <= n,
                        self.instructions@.len() + seq_compile_size(
                            statements@.subrange(j as int, n as int),
                        ) <= entry.len() + compile_size(*node),
                        *node == (ParseTreeNode::Block { statements: *statements }),
                        node.wf(),
                        forall|jj: int| #![trigger statements@[jj]] 0 <= jj < n ==> statements@[jj].wf(),
                        entry == old(self).instructions@,
                        k == entry.len() as int,
                        self.name == old(self).name,
                        self.arguments == old(self).arguments,
                        k <= self.instructions@.len(),
                        self.instructions@.subrange(0, k) == entry,
                        forall|i: int|
                            #![trigger self.instructions@[i]]
                            k <= i < self.instructions@.len() ==> added_wf(
                                self.instructions@[i].instruction_type,
                                i,
                                k,
                                self.instructions@.len() as int,
                            ),
                        forall|jj: int|
                            0 <= jj < j ==> lines_covered(
                                #[trigger] stmt_lines(statements@[jj]),
                                self.instructions@,
                                k,
                            ),
                    decreases n - j,
                {
                    let ghost before = self.instructions@;
                    proof {
                        assert(statements@[j as int].wf());
                        assert(decreases_to!(*node => *statements));
                        assert(decreases_to!(*statements => statements@));
                        assert(decreases_to!(statements@ => statements@[j as int]));
                        lemma_seq_compile_size_step(statements@, j as int);
                        if lowerable(*node) && entry.len() + compile_size(*node) < usize::MAX {
                            assert(lowerable(statements@[j as int]));
                            assert(self.instructions@.len() + compile_size(statements@[j as int])
                                < usize::MAX);
                        }
                    }
                    match self.compile(&statements[j]) {
                        Ok(_) => {},
                        Err(e) => { return Err(e); },
                    }
                    proof {
                        lemma_prefix_trans(before, self.instructions@, k);
                        lemma_added_merge(before, self.instructions@, k);
                        assert forall|jj: int| 0 <= jj < j + 1 implies lines_covered(
                            #[trigger] stmt_lines(statements@[jj]),
                            self.instructions@,
                            k,
                        ) by {
                            if jj < j {
                                lemma_covered_extend(
                                    stmt_lines(statements@[jj]),
                                    before,
                                    self.instructions@,
                                    k,
                                );
                            } else {
                                assert forall|l: int| #[trigger] stmt_lines(
                                    statements@[jj],
                                ).contains(l) implies line_covered(self.instructions@, k, l) by {
                                    let i = choose|i: int|
                                        before.len() <= i < self.instructions@.len() && (
                                        #[trigger] self.instructions@[i]).associated_line == l;
                                    assert(k <= i);
                                }
                            }
                        }
                    }
                    j = j + 1;
                }
                proof {
                    assert forall|l: int| #[trigger] seq_stmt_lines(statements@).contains(
                        l,
                    ) implies line_covered(self.instructions@, k, l) by {
                        lemma_seq_stmt_lines(statements@, l);
                        let jj = choose|jj: int|
                            0 <= jj < statements@.len() && (#[trigger] stmt_lines(
                                statements@[jj],
                            )).contains(l);
                        assert(lines_covered(stmt_lines(statements@[jj]), self.instructions@, k));
                    }
                    assert(stmt_lines(*node) == seq_stmt_lines(statements@));
                }
                Ok(None)
            },
            ParseTreeNode::NumericValue { token, value } => {
                proof {
                    assert(stmt_lines(*node) == Set::<int>::empty());
                }
                Ok(Some(VMValue::Value(Value::Number(*value), Some(token.duplicate()))))
            },
            ParseTreeNode::IdentifierValue { token } => {
                proof {
                    assert(stmt_lines(*node) == Set::<int>::empty());
                }
                Ok(Some(VMValue::Variable(VMVariable::Token(token.duplicate()))))
            },
            ParseTreeNode::ReturnStatement { token, expression } => {
                let value = match expression {
                    Some(expr) => {
                        proof {
                            assert(expr.wf());
                        }
                        match self.compile(expr) {
                            Ok(Some(v)) => v,
                            Ok(None) => {
                                return Err(
                                    GenericError::error(
                                        token.duplicate(),
                                        "expected a value to return".to_owned(),
                                    ),
                                );
                            },
                            Err(e) => { return Err(e); },
                        }
                    },
                    None => VMValue::Value(Value::Null, None),
                };
                let ghost before = self.instructions@;
                self.add_instruction_type(
                    token.location.line,
                    VMInstructionType::Return(value),
                );
                proof {
                    lemma_prefix_trans(entry, before, k);
                    assert(self.instructions@.subrange(0, before.len() as int) =~= before);
                    lemma_prefix_trans(before, self.instructions@, k);
                    lemma_added_merge(entry, before, k);
                    lemma_added_merge(before, self.instructions@, k);
                    assert(self.instructions@[self.instructions@.len() - 1].associated_line
                        == token.location.line);
                    assert forall|l: int| #[trigger] stmt_lines(*node).contains(l) implies
                        line_covered(self.instructions@, k, l) by {
                        assert(l == token.location.line as int);
                    }
                }
                Ok(None)
            },
            _ => {
                self.compile_rest(node, Ghost(entry))
            },
        }
    }
}


impl VMFunction {
    /// The remaining lowering arms: expressions with operators, `if`
    /// chains, and the two loop forms.  Same contract as `compile`.
    #[verifier::rlimit(80)]
    fn compile_rest(&mut self, node: &ParseTreeNode, Ghost(entry): Ghost<Seq<VMInstruction>>) -> (r:
        Result<Option<VMValue>, GenericError>)
        requires
            node.wf(),
            !(node is Block),
            !(node is NumericValue),
            !(node is IdentifierValue),
            !(node is ReturnStatement),
            entry == old(self).instructions@,
        ensures
            final(self).name == old(self).name,
            final(self).arguments == old(self).arguments,
            old(self).instructions@.len() <= final(self).instructions@.len(),
            r is Ok ==> final(self).instructions@.subrange(
                0,
                old(self).instructions@.len() as int,
            ) == old(self).instructions@,
            r is Ok ==> forall|i: int|
                #![trigger final(self).instructions@[i]]
                old(self).instructions@.len() <= i < final(self).instructions@.len() ==> added_wf(
                    final(self).instructions@[i].instruction_type,
                    i,
                    old(self).instructions@.len() as int,
                    final(self).instructions@.len() as int,
                ),
            r is Ok ==> lines_covered(
                stmt_lines(*node),
                final(self).instructions@,
                old(self).instructions@.len() as int,
            ),
            match r {
                Ok(Some(v)) => v.wf() && is_expression_node(*node),
                Ok(None) => !is_expression_node(*node),
                Err(_) => true,
            },
            r matches Err(e) ==> (lowerable(*node) ==> e.message@ == "function is too large"@),
            r matches Ok(Some(v)) ==> ((v is Variable) <==> lowers_to_variable(*node)),
            r is Ok ==> final(self).instructions@.len() <= old(self).instructions@.len()
                + compile_size(*node),
            lowerable(*node) && old(self).instructions@.len() + compile_size(*node) < usize::MAX
                ==> r is Ok,
        decreases node, 2int,
    {
        let ghost k = entry.len() as int;
        proof {
            assert(self.instructions@.subrange(0, k) =~= entry);
        }
        match node {
            ParseTreeNode::Expression { expression_type, symbols, children } => {
                self.compile_expression(*expression_type, symbols, children, Ghost(entry))
            },
            ParseTreeNode::WhileLoop { token, condition, block } => {
                let line = token.location.line;
                let start = self.next_instruction_index();
                let c = match self.compile(condition) {
                    Ok(Some(v)) => v,
                    Ok(None) => {
                        return Err(
                            GenericError::error(
                                token.duplicate(),
                                "expected a condition".to_owned(),
                            ),
                        );
                    },
                    Err(e) => { return Err(e); },
                };
                let ghost s1 = self.instructions@;
                let compare_line = self.next_instruction_index();
                if compare_line == usize::MAX {
                    return Err(GenericError::tokenless_error("function is too large".to_owned()));
                }
                self.add_instruction_type(
                    line,
                    VMInstructionType::Branch(c, compare_line + 1, 0),
                );
                let ghost s2 = self.instructions@;
                proof {
                    assert(s2.subrange(0, s1.len() as int) =~= s1);
                }
                match self.compile(block) {
                    Ok(_) => {},
                    Err(e) => { return Err(e); },
                }
                let ghost s3 = self.instructions@;
                self.add_instruction_type(line, VMInstructionType::Goto(start));
                let after = self.next_instruction_index();
                let ghost s4 = self.instructions@;
                proof {
                    assert(s4.subrange(0, s3.len() as int) =~= s3);
                    lemma_prefix_trans(s3, s4, s2.len() as int);
                    lemma_prefix_trans(s2, s3, s1.len() as int);
                    assert(s4[compare_line as int] == s2[compare_line as int]);
                }
                self.fix_branch_false(compare_line, after);
                proof {
                    let fin = self.instructions@;
                    let m = fin.len() as int;
                    // Prefix: everything before `k` is untouched.
                    assert forall|i: int| 0 <= i < k implies fin.subrange(0, k)[i] == entry[i] by {
                        assert(fin[i] == s4[i]);
                        assert(s4.subrange(0, s1.len() as int)[i] == s4[i]);
                        assert(s1.subrange(0, k)[i] == s1[i]);
                    }
                    assert(fin.subrange(0, k) =~= entry);
                    // Added instructions are well-formed.
                    assert forall|i: int| k <= i < m implies added_wf(
                        (#[trigger] fin[i]).instruction_type,
                        i,
                        k,
                        m,
                    ) by {
                        if i == compare_line {
                            assert(fin[i].instruction_type == VMInstructionType::Branch(
                                s2[compare_line as int].instruction_type->Branch_0,
                                (compare_line + 1) as usize,
                                after as usize,
                            ));
                        } else if i == s3.len() {
                            assert(fin[i] == s4[i]);
                            assert(s4[i].instruction_type == VMInstructionType::Goto(
                                start as usize,
                            ));
                        } else if i < s1.len() {
                            assert(fin[i] == s4[i]);
                            assert(s4.subrange(0, s1.len() as int)[i] == s4[i]);
                            assert(s1[i] == fin[i]);
                        } else if i >= s2.len() {
                            assert(fin[i] == s4[i]);
                            assert(s4.subrange(0, s3.len() as int)[i] == s4[i]);
                            assert(s3[i] == fin[i]);
                        }
                    }
                    // The while line is stamped on the branch.
                    assert(fin[compare_line as int].associated_line == line);
                    assert(line_covered(fin, k, line as int));
                    // Body lines stay covered.
                    assert forall|l: int| #[trigger] stmt_lines(*node).contains(l) implies
                        line_covered(fin, k, l) by {
                        if l != line {
                            assert(stmt_lines(**block).contains(l));
                            let i = choose|i: int|
                                s2.len() <= i < s3.len() && (#[trigger] s3[i]).associated_line
                                    == l;
                            assert(s4.subrange(0, s3.len() as int)[i] == s4[i]);
                            assert(fin[i] == s4[i]);
                            assert(fin[i].associated_line == l);
                        }
                    }
                }
                Ok(None)
            },
            ParseTreeNode::ForLoop { token, loop_variable, bound0, bound1, reverse, block } => {
                let line = token.location.line;
                let b0 = match self.compile(bound0) {
                    Ok(Some(v)) => v,
                    Ok(None) => {
                        return Err(
                            GenericError::error(token.duplicate(), "expected a bound".to_owned()),
                        );
                    },
                    Err(e) => { return Err(e); },
                };
                let ghost sa = self.instructions@;
                let b1 = match self.compile(bound1) {
                    Ok(Some(v)) => v,
                    Ok(None) => {
                        return Err(
                            GenericError::error(token.duplicate(), "expected a bound".to_owned()),
                        );
                    },
                    Err(e) => { return Err(e); },
                };
                let ghost s0 = self.instructions@;
                proof {
                    lemma_prefix_trans(sa, s0, k);
                    lemma_added_merge(sa, s0, k);
                }
                let direction = if *reverse {
                    VMBinaryOperation::Subtract
                } else {
                    VMBinaryOperation::Add
                };
                let comparison = if *reverse {
                    VMBinaryOperation::GreaterThanEqual
                } else {
                    VMBinaryOperation::LessThanEqual
                };
                self.add_instruction_type(
                    line,
                    VMInstructionType::Assign(
                        VMValue::Variable(VMVariable::Token(loop_variable.duplicate())),
                        b0,
                    ),
                );
                let start = self.next_instruction_index();
                let v = self.next_temp_variable();
                self.add_instruction_type(
                    line,
                    VMInstructionType::BinaryOperation(
                        comparison,
                        v.duplicate(),
                        VMValue::Variable(VMVariable::Token(loop_variable.duplicate())),
                        b1,
                    ),
                );
                let compare_line = self.next_instruction_index();
                if compare_line == usize::MAX {
                    return Err(GenericError::tokenless_error("function is too large".to_owned()));
                }
                self.add_instruction_type(
                    line,
                    VMInstructionType::Branch(VMValue::Variable(v), compare_line + 1, 0),
                );
                let ghost s2 = self.instructions@;
                proof {
                    assert(s2.subrange(0, s0.len() as int) =~= s0);
                    lemma_prefix_trans(s0, s2, k);
                }
                match self.compile(block) {
                    Ok(_) => {},
                    Err(e) => { return Err(e); },
                }
                let ghost s3 = self.instructions@;
                let one = num_from_int(1);
                self.add_instruction_type(
                    line,
                    VMInstructionType::BinaryOperation(
                        direction,
                        VMVariable::Token(loop_variable.duplicate()),
                        VMValue::Variable(VMVariable::Token(loop_variable.duplicate())),
                        VMValue::Value(Value::Number(one), None),
                    ),
                );
                self.add_instruction_type(line, VMInstructionType::Goto(start));
                let after = self.next_instruction_index();
                let ghost s4 = self.instructions@;
                proof {
                    assert(s4.subrange(0, s3.len() as int) =~= s3);
                    lemma_prefix_trans(s3, s4, s2.len() as int);
                    lemma_prefix_trans(s2, s3, s0.len() as int);
                    assert(s4[compare_line as int] == s2[compare_line as int]);
                }
                self.fix_branch_false(compare_line, after);
                proof {
                    let fin = self.instructions@;
                    let m = fin.len() as int;
                    assert forall|i: int| 0 <= i < k implies fin.subrange(0, k)[i] == entry[i] by {
                        assert(fin[i] == s4[i]);
                        assert(s4.subrange(0, s3.len() as int)[i] == s4[i]);
                        assert(s3.subrange(0, s2.len() as int)[i] == s3[i]);
                        assert(s2.subrange(0, s0.len() as int)[i] == s2[i]);
                        assert(s0.subrange(0, k)[i] == s0[i]);
                    }
                    assert(fin.subrange(0, k) =~= entry);
                    assert forall|i: int| k <= i < m implies added_wf(
                        (#[trigger] fin[i]).instruction_type,
                        i,
                        k,
                        m,
                    ) by {
                        if i == compare_line {
                            assert(fin[i].instruction_type == VMInstructionType::Branch(
                                s2[compare_line as int].instruction_type->Branch_0,
                                (compare_line + 1) as usize,
                                after as usize,
                            ));
                        } else if i >= s3.len() {
                            assert(fin[i] == s4[i]);
                        } else if i < s0.len() {
                            assert(fin[i] == s4[i]);
                            assert(s4.subrange(0, s3.len() as int)[i] == s4[i]);
                            assert(s3.subrange(0, s2.len() as int)[i] == s3[i]);
                            assert(s2.subrange(0, s0.len() as int)[i] == s2[i]);
                            assert(s0[i] == fin[i]);
                        } else if i < s2.len() {
                            assert(fin[i] == s4[i]);
                            assert(s4.subrange(0, s3.len() as int)[i] == s4[i]);
                            assert(s3.subrange(0, s2.len() as int)[i] == s3[i]);
                            assert(s2[i] == fin[i]);
                        } else {
                            assert(fin[i] == s4[i]);
                            assert(s4.subrange(0, s3.len() as int)[i] == s4[i]);
                            assert(s3[i] == fin[i]);
                        }
                    }
                    assert(fin[compare_line as int].associated_line == line);
                    assert(line_covered(fin, k, line as int));
                    assert forall|l: int| #[trigger] stmt_lines(*node).contains(l) implies
                        line_covered(fin, k, l) by {
                        if l != line {
                            assert(stmt_lines(**block).contains(l));
                            let i = choose|i: int|
                                s2.len() <= i < s3.len() && (#[trigger] s3[i]).associated_line
                                    == l;
                            assert(s4.subrange(0, s3.len() as int)[i] == s4[i]);
                            assert(fin[i] == s4[i]);
                        }
                    }
                }
                Ok(None)
            },
            ParseTreeNode::IfStatement { .. } => {
                self.compile_if(node, Ghost(entry))
            },
            _ => {
                Err(
                    GenericError::tokenless_error(
                        "unexpected construct in lowering".to_owned(),
                    ),
                )
            },
        }
    }
}


impl VMFunction {
    /// Lower an operator expression.  Same contract as `compile`; the
    /// node is the `Expression` with the given parts.
    fn compile_expression(
        &mut self,
        expression_type: ExpressionType,
        symbols: &Vec<Token>,
        children: &Vec<ParseTreeNode>,
        Ghost(entry): Ghost<Seq<VMInstruction>>,
    ) -> (r: Result<Option<VMValue>, GenericError>)
        requires
            symbols@.len() >= 1,
            forall|i: int| #![trigger children@[i]] 0 <= i < children@.len() ==> children@[i].wf(),
            expression_type is FunctionCall ==> children@.len() >= 1,
            !(expression_type is FunctionCall) ==> children@.len() == 2,
            entry == old(self).instructions@,
        ensures
            final(self).name == old(self).name,
            final(self).arguments == old(self).arguments,
            old(self).instructions@.len() <= final(self).instructions@.len(),
            r is Ok ==> final(self).instructions@.subrange(
                0,
                old(self).instructions@.len() as int,
            ) == old(self).instructions@,
            r is Ok ==> forall|i: int|
                #![trigger final(self).instructions@[i]]
                old(self).instructions@.len() <= i < final(self).instructions@.len() ==> added_wf(
                    final(self).instructions@[i].instruction_type,
                    i,
                    old(self).instructions@.len() as int,
                    final(self).instructions@.len() as int,
                ),
            r is Ok ==> emitting_expression(expression_type) ==> line_covered(
                final(self).instructions@,
                old(self).instructions@.len() as int,
                symbols@[0].location.line as int,
            ),
            match r {
                Ok(Some(v)) => v.wf(),
                Ok(None) => false,
                Err(_) => true,
            },
            r matches Err(e) ==> (expression_parts_lowerable(expression_type, children@)
                ==> e.message@ == "function is too large"@),
            r matches Ok(Some(v)) ==> ((v is Variable) <==> (if expression_type is Assignment {
                children@.len() == 2 && lowers_to_variable(children@[1])
            } else if expression_type is MemberAccess || expression_type is Indexing {
                false
            } else {
                true
            })),
            r is Ok ==> final(self).instructions@.len() <= old(self).instructions@.len() + 8
                + seq_compile_size(children@),
            expression_parts_lowerable(expression_type, children@) && old(
                self,
            ).instructions@.len() + 8 + seq_compile_size(children@) < usize::MAX ==> r is Ok,
        decreases children@, 1int,
    {
        let ghost k = entry.len() as int;
        let line = symbols[0].location.line;
        proof {
            assert(self.instructions@.subrange(0, k) =~= entry);
            if children@.len() == 2 {
                lemma_pair_compile_size(children@);
            }
        }
        match expression_type {
            ExpressionType::Assignment => {
                proof {
                    assert(children@[0].wf());
                    assert(children@[1].wf());
                    assert(decreases_to!(children@ => children@[0]));
                }
                let a = match self.compile(&children[0]) {
                    Ok(Some(v)) => v,
                    Ok(None) => {
                        return Err(
                            GenericError::error(
                                symbols[0].duplicate(),
                                "expected an assignable value".to_owned(),
                            ),
                        );
                    },
                    Err(e) => { return Err(e); },
                };
                let ghost s1 = self.instructions@;
                let b = match self.compile(&children[1]) {
                    Ok(Some(v)) => v,
                    Ok(None) => {
                        return Err(
                            GenericError::error(
                                symbols[0].duplicate(),
                                "expected a value to assign".to_owned(),
                            ),
                        );
                    },
                    Err(e) => { return Err(e); },
                };
                let ghost s2 = self.instructions@;
                let result = b.duplicate();
                self.add_instruction_type(line, VMInstructionType::Assign(a, b));
                proof {
                    let fin = self.instructions@;
                    assert(fin.subrange(0, s2.len() as int) =~= s2);
                    lemma_prefix_trans(s2, fin, s1.len() as int);
                    lemma_prefix_trans(s1, s2, k);
                    lemma_prefix_trans(s1, fin, k);
                    lemma_added_merge(s1, s2, k);
                    lemma_added_merge(s2, fin, k);
                    assert(fin[fin.len() - 1].associated_line == line);
                }
                Ok(Some(result))
            },
            ExpressionType::FunctionCall => {
                proof {
                    assert(children@[0].wf());
                    assert(decreases_to!(children@ => children@[0]));
                }
                let callee = match self.compile(&children[0]) {
                    Ok(Some(v)) => v,
                    Ok(None) => {
                        return Err(
                            GenericError::error(
                                symbols[0].duplicate(),
                                "expected a callable value".to_owned(),
                            ),
                        );
                    },
                    Err(e) => { return Err(e); },
                };
                let func_name = match callee.to_variable() {
                    Ok(v) => v,
                    Err(e) => { return Err(e); },
                };
                let mut args: Vec<VMValue> = Vec::new();
                let n = children.len();
                let mut j: usize = 1;
                proof {
                    assert(children@.subrange(0, n as int) =~= children@);
                    lemma_seq_compile_size_step(children@, 0);
                }
                while j < n
                    invariant
                        1 <= j <= n,
                        n == children@.len(),
                        self.instructions@.len() + seq_compile_size(
                            children@.subrange(j as int, n as int),
                        ) <= entry.len() + seq_compile_size(children@),
                        symbols@.len() >= 1,
                        forall|i: int|
                            #![trigger children@[i]]
                            0 <= i < children@.len() ==> children@[i].wf(),
                        entry == old(self).instructions@,
                        k == entry.len() as int,
                        self.name == old(self).name,
                        self.arguments == old(self).arguments,
                        k <= self.instructions@.len(),
                        self.instructions@.subrange(0, k) == entry,
                        forall|i: int|
                            #![trigger self.instructions@[i]]
                            k <= i < self.instructions@.len() ==> added_wf(
                                self.instructions@[i].instruction_type,
                                i,
                                k,
                                self.instructions@.len() as int,
                            ),
                        forall|i: int| #![trigger args@[i]] 0 <= i < args@.len() ==> args@[i].wf(),
                    decreases n - j,
                {
                    let ghost before = self.instructions@;
                    proof {
                        assert(children@[j as int].wf());
                        assert(decreases_to!(children@ => children@[j as int]));
                        lemma_seq_compile_size_step(children@, j as int);
                        if expression_parts_lowerable(expression_type, children@) && entry.len()
                            + 8 + seq_compile_size(children@) < usize::MAX {
                            assert(is_expression_node(children@[j as int]) && lowerable(
                                children@[j as int],
                            ));
                            assert(self.instructions@.len() + compile_size(children@[j as int])
                                < usize::MAX);
                        }
                    }
                    let a = match self.compile(&children[j]) {
                        Ok(Some(v)) => v,
                        Ok(None) => {
                            return Err(
                                GenericError::error(
                                    symbols[0].duplicate(),
                                    "expected an argument value".to_owned(),
                                ),
                            );
                        },
                        Err(e) => { return Err(e); },
                    };
                    proof {
                        lemma_prefix_trans(before, self.instructions@, k);
                        lemma_added_merge(before, self.instructions@, k);
                    }
                    args.push(a);
                    j = j + 1;
                }
                let v = self.next_temp_variable();
                let result = VMValue::Variable(v.duplicate());
                let ghost s2 = self.instructions@;
                self.add_instruction_type(
                    line,
                    VMInstructionType::FunctionCall(func_name, v, args),
                );
                proof {
                    let fin = self.instructions@;
                    assert(fin.subrange(0, s2.len() as int) =~= s2);
                    lemma_prefix_trans(s2, fin, k);
                    lemma_added_merge(s2, fin, k);
                    assert(fin[fin.len() - 1].associated_line == line);
                }
                Ok(Some(result))
            },
            ExpressionType::MemberAccess => {
                proof {
                    assert(children@[0].wf());
                    assert(children@[1].wf());
                    assert(decreases_to!(children@ => children@[0]));
                }
                let value = match self.compile(&children[0]) {
                    Ok(Some(v)) => v,
                    Ok(None) => {
                        return Err(
                            GenericError::error(
                                symbols[0].duplicate(),
                                "expected a value".to_owned(),
                            ),
                        );
                    },
                    Err(e) => { return Err(e); },
                };
                let ghost s1 = self.instructions@;
                let key = match self.compile(&children[1]) {
                    Ok(Some(v)) => v,
                    Ok(None) => {
                        return Err(
                            GenericError::error(
                                symbols[0].duplicate(),
                                "expected a member name".to_owned(),
                            ),
                        );
                    },
                    Err(e) => { return Err(e); },
                };
                proof {
                    lemma_prefix_trans(s1, self.instructions@, k);
                    lemma_added_merge(s1, self.instructions@, k);
                }
                Ok(Some(VMValue::MemberAccess(Box::new(value), Box::new(key))))
            },
            ExpressionType::Indexing => {
                proof {
                    assert(children@[0].wf());
                    assert(children@[1].wf());
                    assert(decreases_to!(children@ => children@[0]));
                }
                let value = match self.compile(&children[0]) {
                    Ok(Some(v)) => v,
                    Ok(None) => {
                        return Err(
                            GenericError::error(
                                symbols[0].duplicate(),
                                "expected a value".to_owned(),
                            ),
                        );
                    },
                    Err(e) => { return Err(e); },
                };
                let ghost s1 = self.instructions@;
                let key = match self.compile(&children[1]) {
                    Ok(Some(v)) => v,
                    Ok(None) => {
                        return Err(
                            GenericError::error(
                                symbols[0].duplicate(),
                                "expected an index".to_owned(),
                            ),
                        );
                    },
                    Err(e) => { return Err(e); },
                };
                proof {
                    lemma_prefix_trans(s1, self.instructions@, k);
                    lemma_added_merge(s1, self.instructions@, k);
                }
                Ok(Some(VMValue::Indexing(Box::new(value), Box::new(key))))
            },
            ExpressionType::LogicalAnd => {
                self.compile_short_circuit(true, symbols, children, Ghost(entry))
            },
            ExpressionType::LogicalOr => {
                self.compile_short_circuit(false, symbols, children, Ghost(entry))
            },
            _ => {
                let bin_op = match VMBinaryOperation::of_expression_type(expression_type) {
                    Some(op) => op,
                    None => vstd::pervasive::unreached(),
                };
                proof {
                    assert(children@[0].wf());
                    assert(children@[1].wf());
                    assert(decreases_to!(children@ => children@[0]));
                }
                let a = match self.compile(&children[0]) {
                    Ok(Some(v)) => v,
                    Ok(None) => {
                        return Err(
                            GenericError::error(
                                symbols[0].duplicate(),
                                "expected a value".to_owned(),
                            ),
                        );
                    },
                    Err(e) => { return Err(e); },
                };
                let ghost s1 = self.instructions@;
                let b = match self.compile(&children[1]) {
                    Ok(Some(v)) => v,
                    Ok(None) => {
                        return Err(
                            GenericError::error(
                                symbols[0].duplicate(),
                                "expected a value".to_owned(),
                            ),
                        );
                    },
                    Err(e) => { return Err(e); },
                };
                let ghost s2 = self.instructions@;
                let v = self.next_temp_variable();
                let result = VMValue::Variable(v.duplicate());
                self.add_instruction_type(
                    line,
                    VMInstructionType::BinaryOperation(bin_op, v, a, b),
                );
                proof {
                    let fin = self.instructions@;
                    assert(fin.subrange(0, s2.len() as int) =~= s2);
                    lemma_prefix_trans(s2, fin, s1.len() as int);
                    lemma_prefix_trans(s1, s2, k);
                    lemma_prefix_trans(s1, fin, k);
                    lemma_added_merge(s1, s2, k);
                    lemma_added_merge(s2, fin, k);
                    assert(fin[fin.len() - 1].associated_line == line);
                }
                Ok(Some(result))
            },
        }
    }
}


impl VMFunction {
    /// Lower a short-circuiting `and`/`or`.  The left operand is
    /// evaluated; if it decides, the right operand's code is skipped and
    /// the left value is the result, else the right value is.
    fn compile_short_circuit(
        &mut self,
        is_and: bool,
        symbols: &Vec<Token>,
        children: &Vec<ParseTreeNode>,
        Ghost(entry): Ghost<Seq<VMInstruction>>,
    ) -> (r: Result<Option<VMValue>, GenericError>)
        requires
            symbols@.len() >= 1,
            children@.len() == 2,
            forall|i: int| #![trigger children@[i]] 0 <= i < children@.len() ==> children@[i].wf(),
            entry == old(self).instructions@,
        ensures
            final(self).name == old(self).name,
            final(self).arguments == old(self).arguments,
            old(self).instructions@.len() <= final(self).instructions@.len(),
            r is Ok ==> final(self).instructions@.subrange(
                0,
                old(self).instructions@.len() as int,
            ) == old(self).instructions@,
            r is Ok ==> forall|i: int|
                #![trigger final(self).instructions@[i]]
                old(self).instructions@.len() <= i < final(self).instructions@.len() ==> added_wf(
                    final(self).instructions@[i].instruction_type,
                    i,
                    old(self).instructions@.len() as int,
                    final(self).instructions@.len() as int,
                ),
            r is Ok ==> line_covered(
                final(self).instructions@,
                old(self).instructions@.len() as int,
                symbols@[0].location.line as int,
            ),
            match r {
                Ok(Some(v)) => v.wf(),
                Ok(None) => false,
                Err(_) => true,
            },
            r matches Err(e) ==> ((forall|i: int|
                #![trigger children@[i]]
                0 <= i < children@.len() ==> is_expression_node(children@[i]) && lowerable(
                    children@[i],
                )) ==> e.message@ == "function is too large"@),
            r matches Ok(Some(v)) ==> v is Variable,
            r is Ok ==> final(self).instructions@.len() <= old(self).instructions@.len() + 8
                + seq_compile_size(children@),
            (forall|i: int|
                #![trigger children@[i]]
                0 <= i < children@.len() ==> is_expression_node(children@[i]) && lowerable(
                    children@[i],
                )) && old(self).instructions@.len() + 8 + seq_compile_size(children@) < usize::MAX
                ==> r is Ok,
        decreases children@, 0int,
    {
        let ghost k = entry.len() as int;
        let line = symbols[0].location.line;
        proof {
            lemma_pair_compile_size(children@);
            assert(self.instructions@.subrange(0, k) =~= entry);
        }
        let v = self.next_temp_variable();
        proof {
            assert(children@[0].wf());
            assert(children@[1].wf());
            assert(decreases_to!(children@ => children@[0]));
        }
        let a = match self.compile(&children[0]) {
            Ok(Some(va)) => va,
            Ok(None) => {
                return Err(
                    GenericError::error(symbols[0].duplicate(), "expected a value".to_owned()),
                );
            },
            Err(e) => { return Err(e); },
        };
        let ghost s1 = self.instructions@;
        let first_compare = self.next_instruction_index();
        if first_compare == usize::MAX {
            return Err(GenericError::tokenless_error("function is too large".to_owned()));
        }
        if is_and {
            self.add_instruction_type(
                line,
                VMInstructionType::Branch(a.duplicate(), first_compare + 1, 0),
            );
        } else {
            self.add_instruction_type(
                line,
                VMInstructionType::Branch(a.duplicate(), 0, first_compare + 1),
            );
        }
        let ghost s2 = self.instructions@;
        proof {
            assert(s2.subrange(0, s1.len() as int) =~= s1);
        }
        let b = match self.compile(&children[1]) {
            Ok(Some(vb)) => vb,
            Ok(None) => {
                return Err(
                    GenericError::error(symbols[0].duplicate(), "expected a value".to_owned()),
                );
            },
            Err(e) => { return Err(e); },
        };
        let ghost s3 = self.instructions@;
        self.add_instruction_type(
            line,
            VMInstructionType::Assign(VMValue::Variable(v.duplicate()), b),
        );
        let goto_end = self.next_instruction_index();
        self.add_instruction_type(line, VMInstructionType::Goto(0));
        let rejoin = self.next_instruction_index();
        self.add_instruction_type(
            line,
            VMInstructionType::Assign(VMValue::Variable(v.duplicate()), a),
        );
        let after = self.next_instruction_index();
        let ghost s4 = self.instructions@;
        proof {
            assert(s4.subrange(0, s3.len() as int) =~= s3);
            lemma_prefix_trans(s3, s4, s2.len() as int);
            lemma_prefix_trans(s2, s3, s1.len() as int);
            assert(s4[goto_end as int].instruction_type is Goto);
        }
        self.fix_goto(goto_end, after);
        let ghost s5 = self.instructions@;
        proof {
            assert(s5[first_compare as int] == s4[first_compare as int]);
            assert(s4.subrange(0, s3.len() as int)[first_compare as int] == s4[first_compare
                as int]);
            assert(s3.subrange(0, s2.len() as int)[first_compare as int] == s3[first_compare
                as int]);
            assert(s5[first_compare as int].instruction_type is Branch);
        }
        if is_and {
            self.fix_branch_false(first_compare, rejoin);
        } else {
            self.fix_branch_true(first_compare, rejoin);
        }
        proof {
            let fin = self.instructions@;
            let m = fin.len() as int;
            assert forall|i: int| 0 <= i < k implies fin.subrange(0, k)[i] == entry[i] by {
                assert(fin[i] == s5[i]);
                assert(s5[i] == s4[i]);
                assert(s4.subrange(0, s3.len() as int)[i] == s4[i]);
                assert(s3.subrange(0, s2.len() as int)[i] == s3[i]);
                assert(s2.subrange(0, s1.len() as int)[i] == s2[i]);
                assert(s1.subrange(0, k)[i] == s1[i]);
            }
            assert(fin.subrange(0, k) =~= entry);
            assert forall|i: int| k <= i < m implies added_wf(
                (#[trigger] fin[i]).instruction_type,
                i,
                k,
                m,
            ) by {
                if i == first_compare {
                    let c = s2[first_compare as int].instruction_type;
                    if is_and {
                        assert(fin[i].instruction_type == VMInstructionType::Branch(
                            c->Branch_0,
                            (first_compare + 1) as usize,
                            rejoin as usize,
                        ));
                    } else {
                        assert(fin[i].instruction_type == VMInstructionType::Branch(
                            c->Branch_0,
                            rejoin as usize,
                            (first_compare + 1) as usize,
                        ));
                    }
                } else if i == goto_end {
                    assert(fin[i] == s5[i]);
                    assert(fin[i].instruction_type == VMInstructionType::Goto(after as usize));
                } else if i < s1.len() {
                    assert(fin[i] == s5[i]);
                    assert(s5[i] == s4[i]);
                    assert(s4.subrange(0, s3.len() as int)[i] == s4[i]);
                    assert(s3.subrange(0, s2.len() as int)[i] == s3[i]);
                    assert(s2.subrange(0, s1.len() as int)[i] == s2[i]);
                    assert(s1[i] == fin[i]);
                } else if s2.len() <= i < s3.len() {
                    assert(fin[i] == s5[i]);
                    assert(s5[i] == s4[i]);
                    assert(s4.subrange(0, s3.len() as int)[i] == s4[i]);
                    assert(s3[i] == fin[i]);
                } else if i >= s3.len() {
                    assert(fin[i] == s5[i]);
                    assert(s5[i] == s4[i]);
                }
            }
            assert(fin[goto_end as int].associated_line == s4[goto_end as int].associated_line);
            assert(fin[first_compare as int].associated_line == s4[first_compare
                as int].associated_line);
            assert(s4[first_compare as int].associated_line == line);
            assert(line_covered(fin, k, line as int));
        }
        Ok(Some(VMValue::Variable(v)))
    }

    /// Lower an `if`/`elseif`/`else` chain.  Same contract as `compile`.
    fn compile_if(&mut self, node: &ParseTreeNode, Ghost(entry): Ghost<Seq<VMInstruction>>) -> (r:
        Result<Option<VMValue>, GenericError>)
        requires
            node.wf(),
            node is IfStatement,
            entry == old(self).instructions@,
        ensures
            final(self).name == old(self).name,
            final(self).arguments == old(self).arguments,
            old(self).instructions@.len() <= final(self).instructions@.len(),
            r is Ok ==> final(self).instructions@.subrange(
                0,
                old(self).instructions@.len() as int,
            ) == old(self).instructions@,
            r is Ok ==> forall|i: int|
                #![trigger final(self).instructions@[i]]
                old(self).instructions@.len() <= i < final(self).instructions@.len() ==> added_wf(
                    final(self).instructions@[i].instruction_type,
                    i,
                    old(self).instructions@.len() as int,
                    final(self).instructions@.len() as int,
                ),
            r is Ok ==> lines_covered(
                stmt_lines(*node),
                final(self).instructions@,
                old(self).instructions@.len() as int,
            ),
            r is Ok ==> r == Ok::<Option<VMValue>, GenericError>(None),
            r matches Err(e) ==> (lowerable(*node) ==> e.message@ == "function is too large"@),
            r is Ok ==> final(self).instructions@.len() <= old(self).instructions@.len()
                + compile_size(*node),
            lowerable(*node) && old(self).instructions@.len() + compile_size(*node) < usize::MAX
                ==> r is Ok,
        decreases node, 1int,
    {
        let ghost k = entry.len() as int;
        proof {
            assert(self.instructions@.subrange(0, k) =~= entry);
        }
        let (ifs, else_block) = match node {
            ParseTreeNode::IfStatement { ifs, else_block } => (ifs, else_block),
            _ => vstd::pervasive::unreached(),
        };
        let mut skip_to_end: Vec<usize> = Vec::new();
        let n = ifs.len();
        let mut j: usize = 0;
        proof {
            assert(ifs@.subrange(0, n as int) =~= ifs@);
        }
        while j < n
            invariant
                j <= n,
                n == ifs@.len(),
                self.instructions@.len() + ifs_compile_size(ifs@.subrange(j as int, n as int))
                    <= entry.len() + ifs_compile_size(ifs@),
                node.wf(),
                *node == (ParseTreeNode::IfStatement { ifs: *ifs, else_block: *else_block }),
                entry == old(self).instructions@,
                k == entry.len() as int,
                self.name == old(self).name,
                self.arguments == old(self).arguments,
                k <= self.instructions@.len(),
                self.instructions@.subrange(0, k) == entry,
                forall|t: int|
                    #![trigger skip_to_end@[t]]
                    0 <= t < skip_to_end@.len() ==> k <= skip_to_end@[t]
                        < self.instructions@.len(),
                forall|t: int|
                    #![trigger skip_to_end@[t]]
                    0 <= t < skip_to_end@.len() ==> self.instructions@[skip_to_end@[t] as int]
                        .instruction_type is Goto,
                forall|i: int|
                    #![trigger self.instructions@[i]]
                    k <= i < self.instructions@.len() ==> added_wf(
                        self.instructions@[i].instruction_type,
                        i,
                        k,
                        self.instructions@.len() as int,
                    ) || (exists|t: int|
                        0 <= t < skip_to_end@.len() && #[trigger] skip_to_end@[t] == i),
                forall|jj: int|
                    0 <= jj < j ==> line_covered(
                        self.instructions@,
                        k,
                        (#[trigger] ifs@[jj]).0.location.line as int,
                    ),
                forall|jj: int|
                    0 <= jj < j ==> lines_covered(
                        #[trigger] stmt_lines(ifs@[jj].2),
                        self.instructions@,
                        k,
                    ),
            decreases n - j,
        {
            proof {
                assert(ifs@[j as int].1.wf());
                assert(ifs@[j as int].2.wf());
                assert(decreases_to!(*node => *ifs));
                assert(decreases_to!(*ifs => ifs@));
                assert(decreases_to!(ifs@ => ifs@[j as int]));
                lemma_ifs_compile_size_step(ifs@, j as int);
                if lowerable(*node) && entry.len() + compile_size(*node) < usize::MAX {
                    assert(is_expression_node(ifs@[j as int].1) && lowerable(ifs@[j as int].1));
                    assert(lowerable(ifs@[j as int].2));
                    assert(self.instructions@.len() + compile_size(ifs@[j as int].1)
                        < usize::MAX);
                }
            }
            let ghost before = self.instructions@;
            let token_line = ifs[j].0.location.line;
            let cond = match self.compile(&ifs[j].1) {
                Ok(Some(c)) => c,
                Ok(None) => {
                    return Err(
                        GenericError::error(
                            ifs[j].0.duplicate(),
                            "expected a condition".to_owned(),
                        ),
                    );
                },
                Err(e) => { return Err(e); },
            };
            let ghost s1 = self.instructions@;
            let prev = self.next_instruction_index();
            if prev == usize::MAX {
                return Err(GenericError::tokenless_error("function is too large".to_owned()));
            }
            self.add_instruction_type(
                token_line,
                VMInstructionType::Branch(cond, prev + 1, 0),
            );
            let ghost s2 = self.instructions@;
            proof {
                assert(s2.subrange(0, s1.len() as int) =~= s1);
            }
            match self.compile(&ifs[j].2) {
                Ok(_) => {},
                Err(e) => { return Err(e); },
            }
            let ghost s3 = self.instructions@;
            let ghost skips_before = skip_to_end@;
            skip_to_end.push(self.next_instruction_index());
            self.add_instruction_type(token_line, VMInstructionType::Goto(0));
            let next = self.next_instruction_index();
            let ghost s4 = self.instructions@;
            proof {
                assert(s4.subrange(0, s3.len() as int) =~= s3);
                lemma_prefix_trans(s3, s4, s2.len() as int);
                lemma_prefix_trans(s2, s3, s1.len() as int);
                assert(s4[prev as int] == s2[prev as int]);
            }
            self.fix_branch_false(prev, next);
            proof {
                let fin = self.instructions@;
                // Prefix up to k preserved.
                assert forall|i: int| 0 <= i < k implies fin.subrange(0, k)[i] == entry[i] by {
                    assert(fin[i] == s4[i]);
                    assert(s4.subrange(0, s3.len() as int)[i] == s4[i]);
                    assert(s3.subrange(0, s2.len() as int)[i] == s3[i]);
                    assert(s2.subrange(0, s1.len() as int)[i] == s2[i]);
                    assert(s1.subrange(0, before.len() as int)[i] == s1[i]);
                    assert(before.subrange(0, k)[i] == before[i]);
                }
                assert(fin.subrange(0, k) =~= entry);
                // Well-formedness or pending for each added instruction.
                assert forall|i: int| k <= i < fin.len() implies added_wf(
                    (#[trigger] fin[i]).instruction_type,
                    i,
                    k,
                    fin.len() as int,
                ) || (exists|t: int|
                    0 <= t < skip_to_end@.len() && #[trigger] skip_to_end@[t] == i) by {
                    if i == prev {
                        assert(fin[i].instruction_type == VMInstructionType::Branch(
                            s2[prev as int].instruction_type->Branch_0,
                            (prev + 1) as usize,
                            next as usize,
                        ));
                    } else if i == s3.len() {
                        assert(skip_to_end@[skip_to_end@.len() - 1] == i);
                    } else if i < before.len() {
                        assert(fin[i] == s4[i]);
                        assert(s4.subrange(0, s3.len() as int)[i] == s4[i]);
                        assert(s3.subrange(0, s2.len() as int)[i] == s3[i]);
                        assert(s2.subrange(0, s1.len() as int)[i] == s2[i]);
                        assert(s1.subrange(0, before.len() as int)[i] == s1[i]);
                        assert(before[i] == fin[i]);
                        if added_wf(before[i].instruction_type, i, k, before.len() as int) {
                        } else {
                            let t = choose|t: int|
                                0 <= t < skips_before.len() && #[trigger] skips_before[t] == i;
                            assert(skip_to_end@[t] == skips_before[t]);
                            assert(skip_to_end@[t] == i);
                        }
                    } else if i < s1.len() {
                        assert(fin[i] == s4[i]);
                        assert(s4.subrange(0, s3.len() as int)[i] == s4[i]);
                        assert(s3.subrange(0, s2.len() as int)[i] == s3[i]);
                        assert(s2.subrange(0, s1.len() as int)[i] == s2[i]);
                        assert(s1[i] == fin[i]);
                    } else if s2.len() <= i < s3.len() {
                        assert(fin[i] == s4[i]);
                        assert(s4.subrange(0, s3.len() as int)[i] == s4[i]);
                        assert(s3[i] == fin[i]);
                    }
                }
                // Clause lines and body lines covered so far.
                assert(fin[prev as int].associated_line == token_line);
                assert forall|jj: int| 0 <= jj < j + 1 implies line_covered(
                    fin,
                    k,
                    (#[trigger] ifs@[jj]).0.location.line as int,
                ) by {
                    if jj < j {
                        let i = choose|i: int|
                            k <= i < before.len() && (#[trigger] before[i]).associated_line
                                == ifs@[jj].0.location.line as int;
                        assert(fin[i] == s4[i]);
                        assert(s4.subrange(0, s3.len() as int)[i] == s4[i]);
                        assert(s3.subrange(0, s2.len() as int)[i] == s3[i]);
                        assert(s2.subrange(0, s1.len() as int)[i] == s2[i]);
                        assert(s1.subrange(0, before.len() as int)[i] == s1[i]);
                        assert(fin[i].associated_line == ifs@[jj].0.location.line as int);
                    }
                }
                assert forall|jj: int| 0 <= jj < j + 1 implies lines_covered(
                    #[trigger] stmt_lines(ifs@[jj].2),
                    fin,
                    k,
                ) by {
                    if jj < j {
                        assert forall|l: int| #[trigger] stmt_lines(ifs@[jj].2).contains(
                            l,
                        ) implies line_covered(fin, k, l) by {
                            let i = choose|i: int|
                                k <= i < before.len() && (#[trigger] before[i]).associated_line
                                    == l;
                            assert(fin[i] == s4[i]);
                            assert(s4.subrange(0, s3.len() as int)[i] == s4[i]);
                            assert(s3.subrange(0, s2.len() as int)[i] == s3[i]);
                            assert(s2.subrange(0, s1.len() as int)[i] == s2[i]);
                            assert(s1.subrange(0, before.len() as int)[i] == s1[i]);
                        }
                    } else {
                        assert forall|l: int| #[trigger] stmt_lines(ifs@[jj].2).contains(
                            l,
                        ) implies line_covered(fin, k, l) by {
                            let i = choose|i: int|
                                s2.len() <= i < s3.len() && (#[trigger] s3[i]).associated_line
                                    == l;
                            assert(fin[i] == s4[i]);
                            assert(s4.subrange(0, s3.len() as int)[i] == s4[i]);
                        }
                    }
                }
            }
            j = j + 1;
        }
        let ghost s_clauses = self.instructions@;
        match else_block {
            Some(eb) => {
                proof {
                    assert(decreases_to!(*node => *else_block));
                    assert(decreases_to!(*else_block => **eb));
                }
                match self.compile(eb) {
                    Ok(_) => {},
                    Err(e) => { return Err(e); },
                }
            },
            None => {},
        }
        let ghost s_else = self.instructions@;
        proof {
            assert(s_else.subrange(0, s_clauses.len() as int) =~= s_else.subrange(
                0,
                s_clauses.len() as int,
            ));
            if s_else.len() == s_clauses.len() {
                assert(s_else.subrange(0, s_clauses.len() as int) =~= s_clauses);
            }
            lemma_prefix_trans(s_clauses, s_else, k);
            // Pending jumps and well-formed instructions carry over the
            // else block's additions.
            assert forall|i: int| k <= i < s_else.len() implies added_wf(
                (#[trigger] s_else[i]).instruction_type,
                i,
                k,
                s_else.len() as int,
            ) || (exists|tt: int|
                0 <= tt < skip_to_end@.len() && #[trigger] skip_to_end@[tt] == i) by {
                if i < s_clauses.len() {
                    assert(s_else.subrange(0, s_clauses.len() as int)[i] == s_else[i]);
                    assert(s_clauses[i] == s_else[i]);
                }
            }
            assert forall|tt: int| 0 <= tt < skip_to_end@.len() implies s_else[(
            #[trigger] skip_to_end@[tt]) as int].instruction_type is Goto by {
                let i = skip_to_end@[tt] as int;
                assert(s_else.subrange(0, s_clauses.len() as int)[i] == s_else[i]);
                assert(s_clauses[i] == s_else[i]);
            }
        }
        let last = self.next_instruction_index();
        let m = skip_to_end.len();
        let mut t: usize = 0;
        while t < m
            invariant
                t <= m,
                m == skip_to_end@.len(),
                entry == old(self).instructions@,
                k == entry.len() as int,
                last == self.instructions@.len(),
                self.name == old(self).name,
                self.arguments == old(self).arguments,
                k <= self.instructions@.len(),
                self.instructions@.subrange(0, k) == entry,
                forall|tt: int|
                    #![trigger skip_to_end@[tt]]
                    0 <= tt < m ==> k <= skip_to_end@[tt] < last,
                forall|tt: int|
                    #![trigger skip_to_end@[tt]]
                    0 <= tt < m ==> self.instructions@[skip_to_end@[tt] as int].instruction_type
                        is Goto,
                forall|i: int|
                    #![trigger self.instructions@[i]]
                    k <= i < self.instructions@.len() ==> added_wf(
                        self.instructions@[i].instruction_type,
                        i,
                        k,
                        self.instructions@.len() as int,
                    ) || (exists|tt: int|
                        t <= tt < m && #[trigger] skip_to_end@[tt] == i),
                forall|i: int|
                    0 <= i < self.instructions@.len() ==> (#[trigger] self.instructions@[i])
                        .associated_line == s_else[i].associated_line,
            decreases m - t,
        {
            let idx = skip_to_end[t];
            let ghost before = self.instructions@;
            self.fix_goto(idx, last);
            proof {
                let fin = self.instructions@;
                assert forall|i: int| 0 <= i < k implies fin.subrange(0, k)[i] == entry[i] by {
                    assert(fin[i] == before[i]);
                    assert(before.subrange(0, k)[i] == before[i]);
                }
                assert(fin.subrange(0, k) =~= entry);
                assert(fin[idx as int].instruction_type == VMInstructionType::Goto(
                    last as usize,
                ));
                assert forall|i: int| k <= i < fin.len() implies added_wf(
                    (#[trigger] fin[i]).instruction_type,
                    i,
                    k,
                    fin.len() as int,
                ) || (exists|tt: int|
                    t + 1 <= tt < m && #[trigger] skip_to_end@[tt] == i) by {
                    if i == idx {
                        assert(added_wf(fin[i].instruction_type, i, k, fin.len() as int));
                    } else {
                        assert(fin[i] == before[i]);
                        if !added_wf(before[i].instruction_type, i, k, before.len() as int) {
                            let tt = choose|tt: int|
                                t <= tt < m && #[trigger] skip_to_end@[tt] == i;
                            assert(tt != t);
                        }
                    }
                }
            }
            t = t + 1;
        }
        proof {
            let fin = self.instructions@;
            // All pending jumps are fixed now.
            assert forall|i: int| k <= i < fin.len() implies added_wf(
                (#[trigger] fin[i]).instruction_type,
                i,
                k,
                fin.len() as int,
            ) by {
                if !added_wf(fin[i].instruction_type, i, k, fin.len() as int) {
                    let tt = choose|tt: int| m <= tt < m && #[trigger] skip_to_end@[tt] == i;
                    assert(false);
                }
            }
            // Coverage of the whole chain.
            assert forall|l: int| #[trigger] stmt_lines(*node).contains(l) implies line_covered(
                fin,
                k,
                l,
            ) by {
                let else_lines = match node {
                    ParseTreeNode::IfStatement { else_block: eb2, .. } => match eb2 {
                        Some(b) => stmt_lines(**b),
                        None => Set::<int>::empty(),
                    },
                    _ => Set::<int>::empty(),
                };
                if if_lines(ifs@).contains(l) {
                    lemma_if_lines(ifs@, l);
                    let jj = choose|jj: int|
                        0 <= jj < ifs@.len() && ((#[trigger] ifs@[jj]).0.location.line == l
                            || stmt_lines(ifs@[jj].2).contains(l));
                    // Covered in the clause loop, and lines never change
                    // afterwards.
                    let i = choose|i: int|
                        k <= i < s_clauses.len() && (#[trigger] s_clauses[i]).associated_line
                            == l;
                    assert(s_else.subrange(0, s_clauses.len() as int)[i] == s_else[i]);
                    assert(fin[i].associated_line == s_else[i].associated_line);
                } else {
                    assert(else_lines.contains(l));
                    let i = choose|i: int|
                        s_clauses.len() <= i < s_else.len() && (#[trigger] s_else[i])
                            .associated_line == l;
                    assert(fin[i].associated_line == s_else[i].associated_line);
                }
            }
        }
        Ok(None)
    }
}

/// Lower a whole function definition: lower its body, then append the
/// implicit `Return` of the absent value.  On success the result is a
/// well-formed `VMFunction` whose final instruction is that `Return` and
/// whose instructions cover every emitting statement line of the body.
pub fn compile_function(parsetree: ParseTreeNode) -> (r: Result<VMFunction, GenericError>)
    requires
        parsetree.wf(),
    ensures
        match r {
            Ok(f) => {
                &&& parsetree is Function
                &&& f.wf()
                &&& f.instructions@.len() >= 1
                &&& f.instructions@.last().instruction_type == VMInstructionType::Return(
                    VMValue::Value(Value::Null, None),
                )
                &&& f.instructions@.last().associated_line
                    == parsetree->Function_name.location.line
                &&& f.name == parsetree->Function_name
                &&& f.arguments == parsetree->Function_arguments
                &&& lines_covered(function_body_lines(parsetree), f.instructions@, 0)
            },
            Err(_) => true,
        },
        r matches Err(e) ==> (parsetree is Function && lowerable(*parsetree->Function_block)
            ==> e.message@ == "function is too large"@),
        parsetree is Function && lowerable(*parsetree->Function_block) && compile_size(parsetree)
            < usize::MAX ==> r is Ok,
{
    match parsetree {
        ParseTreeNode::Function { name, arguments, block } => {
            let l = name.location.line;
            let mut result = VMFunction::new(name, arguments);
            let ghost entry = result.instructions@;
            match result.compile(&block) {
                Ok(_) => {},
                Err(e) => { return Err(e); },
            }
            let ghost s1 = result.instructions@;
            result.add_instruction_type(
                l,
                VMInstructionType::Return(VMValue::Value(Value::Null, None)),
            );
            proof {
                let fin = result.instructions@;
                let n = fin.len() as int;
                assert(fin.subrange(0, s1.len() as int) =~= s1);
                assert forall|i: int| 0 <= i < n implies instr_wf(
                    (#[trigger] fin[i]).instruction_type,
                    i,
                    n - 1,
                ) by {
                    if i < s1.len() {
                        assert(fin.subrange(0, s1.len() as int)[i] == fin[i]);
                        assert(s1[i] == fin[i]);
                        assert(added_wf(s1[i].instruction_type, i, 0, s1.len() as int));
                    }
                }
                assert(fin[n - 1].instruction_type is Return);
                lemma_covered_extend(stmt_lines(*block), s1, fin, 0);
            }
            Ok(result)
        },
        other => {
            Err(
                GenericError::error(
                    other.get_token().duplicate(),
                    "expected a function definition".to_owned(),
                ),
            )
        },
    }
}

/// The statement lines of a function definition's body.
pub open spec fn function_body_lines(n: ParseTreeNode) -> Set<int> {
    match n {
        ParseTreeNode::Function { block, .. } => stmt_lines(*block),
        _ => Set::empty(),
    }
}

} // verus!
