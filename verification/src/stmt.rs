use vstd::prelude::*;

verus! {

/// How a data instruction's operand is turned into a value.
#[derive(Debug, Clone, Copy, PartialEq, Eq, Structural)]
pub enum Operand {
    /// The operand is the value itself.
    Immediate(i64),
    /// The operand is the index of the register holding the value.
    Direct(usize),
    /// The operand is the index of a register whose content is the index of
    /// the register holding the value.
    Indirect(usize),
}

/// What a data instruction does with the resolved operand value and the
/// destination register.
#[derive(Debug, Clone, Copy, PartialEq, Eq, Structural)]
pub enum DataOpKind {
    /// Store the operand value in the destination register.
    Load,
    /// Add the operand value to the destination register.
    Add,
    /// Subtract the operand value from the destination register.
    Sub,
    /// Multiply the destination register by the operand value.
    Mult,
    /// Divide the destination register by the operand value, truncating
    /// toward zero.
    Div,
}

/// The condition under which a jump instruction transfers control.
#[derive(Debug, Clone, Copy, PartialEq, Eq, Structural)]
pub enum JumpKind {
    /// Always jump.
    Unconditional,
    /// Jump when the named register holds zero.
    IfZero(usize),
    /// Jump when the named register holds a positive value.
    IfPositive(usize),
}

/// A symbolic jump target: a name, resolved to an instruction index by the
/// owning program's label mapping at use time. A label never caches a
/// resolved index, so a program mutation can never leave a stale one.
#[derive(Debug, Clone, PartialEq, Eq)]
pub struct Label {
    /// The label's name.
    pub name: String,
}

impl Label {
    /// Wraps a name as a label.
    pub fn new(name: String) -> (r: Label)
        ensures
            r.name == name,
    {
        Label { name }
    }

    /// The label's name.
    pub fn get(&self) -> (r: &String)
        ensures
            r == &self.name,
    {
        &self.name
    }
}

/// One instruction of the machine. Instructions are immutable once built;
/// equality is structural.
#[derive(Debug, PartialEq, Eq)]
pub enum Op {
    /// Marks its position as a jump target with the given name, optionally
    /// wrapping the instruction that stands on the same line.
    Label(String, Option<Box<Op>>),
    /// A data-movement or arithmetic instruction: the kind, the operand, and
    /// the index of the destination register.
    DataOp(DataOpKind, Operand, usize),
    /// Transfers control to the instruction the target label names, under
    /// the given condition.
    Jump(JumpKind, Label),
    /// Stops execution normally.
    Halt,
}

} // verus!
