//! The in-memory shape of a program: functions, each an ordered run of
//! labels and instructions.

use vstd::prelude::*;

verus! {

/// The operation of an effect instruction.
#[derive(Clone, Copy, Debug, PartialEq, Eq, Structural)]
pub enum EffectOp {
    /// Unconditional jump to a label.
    Jump,
    /// Conditional branch to one of two labels.
    Branch,
    /// Call of a function whose result, if any, is not used.
    Call,
    /// Return from the enclosing function.
    Return,
    /// Print of the arguments.
    Print,
    /// No operation.
    Nop,
    /// Store through a pointer.
    Store,
    /// Release of an allocation.
    Free,
    /// Entry into speculative execution.
    Speculate,
    /// End of speculative execution, keeping its effects.
    Commit,
    /// Check of a condition under speculation.
    Guard,
}

/// An instruction, told apart by its shape. Only an effect carries the
/// operation that decides whether the instruction ends a basic block.
#[derive(Clone, Copy, Debug, PartialEq, Eq, Structural)]
pub enum Instruction {
    /// Defines a variable from a literal.
    Constant,
    /// Computes a value from its arguments.
    Value,
    /// Acts without producing a value.
    Effect { op: EffectOp },
}

/// One entry of a function body.
#[derive(Clone, Copy, Debug, PartialEq, Eq, Structural)]
pub enum Code {
    /// A position that jumps and branches can name.
    Label,
    /// An instruction.
    Instruction(Instruction),
}

/// A function: its body in program order.
#[derive(Debug, PartialEq, Eq)]
pub struct Function {
    pub instrs: Vec<Code>,
}

/// A program: its functions. Their order carries no meaning.
#[derive(Debug, PartialEq, Eq)]
pub struct Program {
    pub functions: Vec<Function>,
}

impl View for Function {
    type V = Seq<Code>;

    /// The body as a sequence.
    open spec fn view(&self) -> Seq<Code> {
        self.instrs@
    }
}

impl View for Program {
    type V = Seq<Seq<Code>>;

    /// The bodies of the functions, in the order in which the program holds
    /// them.
    open spec fn view(&self) -> Seq<Seq<Code>> {
        self.functions@.map_values(|f: Function| f@)
    }
}

impl Clone for Function {
    /// The copy has the same body.
    fn clone(&self) -> (copy: Self)
        ensures
            copy@ == self@,
    {
        let copy = Function { instrs: self.instrs.clone() };
        assert(copy@ =~= self@);
        copy
    }
}

impl Clone for Program {
    /// The copy has the same functions in the same order.
    fn clone(&self) -> (copy: Self)
        ensures
            copy@ == self@,
    {
        let copy = Program { functions: self.functions.clone() };
        assert(copy@ =~= self@);
        copy
    }
}

} // verus!
