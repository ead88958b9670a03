//! Which instructions end a basic block, and how many of them a function or
//! a program holds.

use vstd::prelude::*;
use crate::program::{Code, EffectOp, Function, Instruction, Program};

verus! {

/// The operations that end a basic block: jump, branch and return. This set
/// is the whole rule, and every count in this module goes by it. A narrower
/// reading, under which only a jump counts, is not the one taken here. A
/// call hands control back to the instruction after it and is not in the
/// set, nor is any other effect.
pub open spec fn terminator_ops() -> Set<EffectOp> {
    set![EffectOp::Jump, EffectOp::Branch, EffectOp::Return]
}

impl Code {
    /// An entry is a terminator exactly when it is an effect instruction
    /// whose operation is one of `terminator_ops`. Labels, constants and
    /// value instructions never are.
    pub open spec fn is_terminator(self) -> bool {
        self matches Code::Instruction(Instruction::Effect { op }) && terminator_ops().contains(op)
    }
}

/// The number of terminators among `instrs`.
pub open spec fn terminators_in(instrs: Seq<Code>) -> nat {
    instrs.filter(|code: Code| code.is_terminator()).len()
}

/// The number of terminators among all the instructions of `functions`.
pub open spec fn terminators_across(functions: Seq<Seq<Code>>) -> nat {
    terminators_in(functions.flatten())
}

/// Appending one entry adds one to the count if the entry is a terminator and
/// nothing otherwise.
pub proof fn lemma_terminators_in_push(instrs: Seq<Code>, code: Code)
    ensures
        terminators_in(instrs.push(code)) == terminators_in(instrs) + if code.is_terminator() {
            1nat
        } else {
            0nat
        },
{
    instrs.lemma_filter_len_push(|code: Code| code.is_terminator(), code);
}

/// The count of two runs of instructions, one after the other, is the sum of
/// their counts.
pub proof fn lemma_terminators_in_concat(front: Seq<Code>, back: Seq<Code>)
    ensures
        terminators_in(front + back) == terminators_in(front) + terminators_in(back),
{
    Seq::filter_distributes_over_add(front, back, |code: Code| code.is_terminator());
}

/// The count never exceeds the number of instructions.
pub proof fn lemma_terminators_in_bound(instrs: Seq<Code>)
    ensures
        terminators_in(instrs) <= instrs.len(),
{
    instrs.lemma_filter_len(|code: Code| code.is_terminator());
}

/// Appending one function adds the count of that function.
pub proof fn lemma_terminators_across_push(functions: Seq<Seq<Code>>, body: Seq<Code>)
    ensures
        terminators_across(functions.push(body)) == terminators_across(functions) + terminators_in(
            body,
        ),
{
    functions.lemma_flatten_push(body);
    lemma_terminators_in_concat(functions.flatten(), body);
}

/// Decides whether `code` ends a basic block.
pub fn is_terminator(code: &Code) -> (b: bool)
    ensures
        b == code.is_terminator(),
{
    match code {
        Code::Instruction(instr) => {
            match instr {
                Instruction::Effect { op: EffectOp::Jump | EffectOp::Branch | EffectOp::Return } => true,
                _ => false,
            }
        },
        _ => false,
    }
}

/// Counts the terminators in the body of `function`.
pub fn count_terminators_in_function(function: &Function) -> (count: usize)
    ensures
        count == terminators_in(function@),
        0 <= count <= function@.len(),
{
    let mut count: usize = 0;
    let mut i: usize = 0;
    while i < function.instrs.len()
        invariant
            i <= function.instrs.len(),
            count == terminators_in(function@.take(i as int)),
            count <= i,
        decreases function.instrs.len() - i,
    {
        proof {
            lemma_terminators_in_push(function@.take(i as int), function@[i as int]);
            assert(function@.take(i + 1) =~= function@.take(i as int).push(function@[i as int]));
        }
        if is_terminator(&function.instrs[i]) {
            count = count + 1;
        }
        i = i + 1;
    }
    proof {
        assert(function@.take(i as int) =~= function@);
    }
    count
}

/// Counts the terminators in all the functions of `program`.
///
/// The result is wide enough for every program: a function holds at most
/// `usize::MAX` instructions and a program at most `usize::MAX` functions.
pub fn count_terminators(program: &Program) -> (count: u128)
    ensures
        count == terminators_across(program@),
        0 <= count <= program@.flatten().len(),
{
    let mut count: u128 = 0;
    let mut i: usize = 0;
    while i < program.functions.len()
        invariant
            i <= program.functions.len(),
            count == terminators_across(program@.take(i as int)),
            count <= i * usize::MAX,
        decreases program.functions.len() - i,
    {
        let in_function: usize = count_terminators_in_function(&program.functions[i]);
        proof {
            lemma_terminators_across_push(program@.take(i as int), program@[i as int]);
            assert(program@.take(i + 1) =~= program@.take(i as int).push(program@[i as int]));
            assert((i + 1) * usize::MAX <= usize::MAX * usize::MAX) by (nonlinear_arith)
                requires
                    i + 1 <= usize::MAX,
            ;
            assert(usize::MAX * usize::MAX <= u128::MAX) by (nonlinear_arith)
                requires
                    usize::MAX <= 0xffff_ffff_ffff_ffff,
            ;
            assert((i + 1) * usize::MAX == i * usize::MAX + usize::MAX) by (nonlinear_arith);
        }
        count = count + in_function as u128;
        i = i + 1;
    }
    proof {
        assert(program@.take(i as int) =~= program@);
        lemma_terminators_in_bound(program@.flatten());
    }
    count
}

} // verus!
