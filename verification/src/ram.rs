use vstd::prelude::*;

use crate::errors::InterpretError;
use crate::program::{last_label_index, Program};
use crate::registers::Registers;
use crate::stmt::{DataOpKind, JumpKind, Op, Operand};

verus! {

/// The machine's execution state.
#[derive(Debug, Clone, Copy, PartialEq, Eq, Structural)]
pub enum MachineState {
    /// The machine can take further steps.
    Running,
    /// A `Halt` instruction stopped the machine normally; terminal.
    Halted,
    /// An instruction faulted with the recorded reason; terminal. The
    /// program counter and the registers are left as they were before the
    /// failing instruction.
    Faulted(InterpretError),
}

/// The effect a single fetched instruction has on the machine, fully decoded
/// against the current registers and label mapping: what one `step` call
/// does.
#[derive(Debug, Clone, Copy, PartialEq, Eq, Structural)]
pub enum StepAction {
    /// No observable effect; the program counter advances by one.
    Advance,
    /// The machine halts; counter and registers keep their values.
    Halt,
    /// The register at the index receives the value; the counter advances by
    /// one.
    Write(usize, i64),
    /// The counter is set to the index.
    JumpTo(usize),
    /// The machine faults with the reason; counter and registers keep their
    /// values.
    Fault(InterpretError),
}

/// The value an operand denotes against the given registers, or the fault
/// that resolving it raises: an immediate operand is the value itself, a
/// direct one reads a register, an indirect one reads the register whose
/// index the named register holds. A register value used as an index must be
/// non-negative and representable as an index.
pub open spec fn operand_value(regs: Registers, operand: Operand) -> Result<i64, InterpretError> {
    match operand {
        Operand::Immediate(value) => Ok(value),
        Operand::Direct(index) => Ok(regs.reg(index as int)),
        Operand::Indirect(index) => {
            let address = regs.reg(index as int);
            if address < 0 || address as int > usize::MAX as int {
                Err(InterpretError::InvalidRegisterIndex)
            } else {
                Ok(regs.reg(address as int))
            }
        },
    }
}

/// The new value of the destination register, from its current value and
/// the resolved operand value, or the fault the operation raises: division
/// by zero, or a result that does not fit in a register.
pub open spec fn data_op_result(kind: DataOpKind, current: i64, value: i64) -> Result<
    i64,
    InterpretError,
> {
    match kind {
        DataOpKind::Load => Ok(value),
        DataOpKind::Add => match current.checked_add(value) {
            Some(result) => Ok(result),
            None => Err(InterpretError::Overflow),
        },
        DataOpKind::Sub => match current.checked_sub(value) {
            Some(result) => Ok(result),
            None => Err(InterpretError::Overflow),
        },
        DataOpKind::Mult => match current.checked_mul(value) {
            Some(result) => Ok(result),
            None => Err(InterpretError::Overflow),
        },
        DataOpKind::Div => if value == 0 {
            Err(InterpretError::DivisionByZero)
        } else {
            match current.checked_div(value) {
                Some(result) => Ok(result),
                None => Err(InterpretError::Overflow),
            }
        },
    }
}

/// Whether a jump of this kind transfers control, judged against the given
/// registers.
pub open spec fn jump_taken(regs: Registers, kind: JumpKind) -> bool {
    match kind {
        JumpKind::Unconditional => true,
        JumpKind::IfZero(index) => regs.reg(index as int) == 0,
        JumpKind::IfPositive(index) => regs.reg(index as int) > 0,
    }
}

/// The execution engine: one program, one register store, and a program
/// counter, driven by `step` until a halt or a fault.
#[derive(Debug)]
pub struct Machine {
    /// The program under execution; injections through it stay visible to
    /// the next fetch, since a step never caches instructions.
    pub program: Program,
    /// The register store the program reads and writes.
    pub registers: Registers,
    /// Index of the next instruction to fetch.
    pub pc: usize,
    /// Whether the machine can still step, halted, or faulted.
    pub state: MachineState,
}

/// The effect the instruction `op` has on machine `m`: a bare label marker
/// is a no-op, a label wrapping an instruction acts as that instruction, and
/// data and jump instructions act through `operand_value`, `data_op_result`
/// and `jump_taken`, faulting on an undefined jump target.
pub open spec fn op_action(m: Machine, op: Op) -> StepAction
    decreases op,
{
    match op {
        Op::Label(_, wrapped) => match wrapped {
            Some(inner) => op_action(m, *inner),
            None => StepAction::Advance,
        },
        Op::Halt => StepAction::Halt,
        Op::DataOp(kind, operand, dest) => match operand_value(m.registers, operand) {
            Ok(value) => match data_op_result(kind, m.registers.reg(dest as int), value) {
                Ok(result) => StepAction::Write(dest, result),
                Err(fault) => StepAction::Fault(fault),
            },
            Err(fault) => StepAction::Fault(fault),
        },
        Op::Jump(kind, target) => match last_label_index(m.program.instructions@, target.name@) {
            Some(ix) => if jump_taken(m.registers, kind) {
                StepAction::JumpTo(ix as usize)
            } else {
                StepAction::Advance
            },
            None => StepAction::Fault(InterpretError::UndefinedLabel),
        },
    }
}

/// The effect of the next step of machine `m`: the effect of the
/// instruction the counter points at, or an out-of-bounds fault when the
/// counter lies past the end of the program.
pub open spec fn machine_action(m: Machine) -> StepAction {
    if m.pc < m.program.instructions@.len() {
        op_action(m, m.program.instructions@[m.pc as int])
    } else {
        StepAction::Fault(InterpretError::OutOfBounds)
    }
}

/// Exactly how one `step` call on a running machine `pre` yields `post`:
/// the program is untouched, and counter, state and registers move as the
/// decoded action of `pre` dictates.
pub open spec fn step_spec(pre: Machine, post: Machine) -> bool {
    &&& pre.state is Running
    &&& post.program == pre.program
    &&& match machine_action(pre) {
        StepAction::Advance => {
            &&& post.registers == pre.registers
            &&& post.pc == pre.pc + 1
            &&& post.state is Running
        },
        StepAction::Halt => {
            &&& post.registers == pre.registers
            &&& post.pc == pre.pc
            &&& post.state is Halted
        },
        StepAction::Write(dest, value) => {
            &&& forall|j: int|
                post.registers.reg(j) == (if j == dest as int {
                    value
                } else {
                    pre.registers.reg(j)
                })
            &&& post.pc == pre.pc + 1
            &&& post.state is Running
        },
        StepAction::JumpTo(ix) => {
            &&& post.registers == pre.registers
            &&& post.pc == ix
            &&& post.state is Running
        },
        StepAction::Fault(fault) => {
            &&& post.registers == pre.registers
            &&& post.pc == pre.pc
            &&& post.state == MachineState::Faulted(fault)
        },
    }
}

/// Machine `b` arises from machine `a` by exactly `n` steps.
pub open spec fn reach_n(a: Machine, b: Machine, n: nat) -> bool
    decreases n,
{
    if n == 0 {
        a == b
    } else {
        exists|mid: Machine| step_spec(a, mid) && reach_n(mid, b, (n - 1) as nat)
    }
}

/// A step appended to a finite step chain leaves a finite step chain.
proof fn lemma_reach_extend(a: Machine, b: Machine, c: Machine, n: nat)
    requires
        reach_n(a, b, n),
        step_spec(b, c),
    ensures
        reach_n(a, c, n + 1),
    decreases n,
{
    if n == 0 {
        assert(reach_n(b, c, 1)) by {
            assert(step_spec(b, c) && reach_n(c, c, 0));
        }
    } else {
        let mid = choose|mid: Machine| step_spec(a, mid) && reach_n(mid, b, (n - 1) as nat);
        lemma_reach_extend(mid, b, c, (n - 1) as nat);
        assert(step_spec(a, mid) && reach_n(mid, c, n));
    }
}

/// A fault leaves no partial effect: a step that ends faulted leaves the
/// registers and the program counter exactly as they were before it.
pub proof fn lemma_fault_no_partial_effect(pre: Machine, post: Machine)
    requires
        step_spec(pre, post),
        post.state is Faulted,
    ensures
        post.registers == pre.registers,
        post.pc == pre.pc,
{
}

impl Machine {
    /// Wraps a program for execution: counter at the first instruction,
    /// every register zero, ready to run.
    pub fn new(program: Program) -> (r: Machine)
        ensures
            r.program == program,
            r.pc == 0,
            r.state is Running,
            forall|i: int| r.registers.reg(i) == 0,
    {
        Machine { program, registers: Registers::new(), pc: 0, state: MachineState::Running }
    }

    /// Decodes the effect of the instruction `op` on the current machine.
    fn op_effect(&self, op: &Op) -> (r: StepAction)
        requires
            self.program.wf(),
        ensures
            r == op_action(*self, *op),
        decreases *op,
    {
        match op {
            Op::Label(_, wrapped) => match wrapped {
                Some(inner) => self.op_effect(inner),
                None => StepAction::Advance,
            },
            Op::Halt => StepAction::Halt,
            Op::DataOp(kind, operand, dest) => {
                let value = match *operand {
                    Operand::Immediate(value) => value,
                    Operand::Direct(index) => self.registers.read(index),
                    Operand::Indirect(index) => {
                        let address = self.registers.read(index);
                        if address < 0 || (address as u64) > (usize::MAX as u64) {
                            return StepAction::Fault(InterpretError::InvalidRegisterIndex);
                        }
                        assert(address as usize as int == address as int);
                        self.registers.read(address as usize)
                    },
                };
                assert(operand_value(self.registers, *operand) == Ok::<i64, InterpretError>(value));
                let current = self.registers.read(*dest);
                let result = match *kind {
                    DataOpKind::Load => Some(value),
                    DataOpKind::Add => current.checked_add(value),
                    DataOpKind::Sub => current.checked_sub(value),
                    DataOpKind::Mult => current.checked_mul(value),
                    DataOpKind::Div => {
                        if value == 0 {
                            return StepAction::Fault(InterpretError::DivisionByZero);
                        }
                        current.checked_div(value)
                    },
                };
                match result {
                    Some(result) => StepAction::Write(*dest, result),
                    None => StepAction::Fault(InterpretError::Overflow),
                }
            },
            Op::Jump(kind, target) => {
                let taken = match *kind {
                    JumpKind::Unconditional => true,
                    JumpKind::IfZero(index) => self.registers.read(index) == 0,
                    JumpKind::IfPositive(index) => self.registers.read(index) > 0,
                };
                match self.program.decode_label(target) {
                    Some(ix) => if taken {
                        StepAction::JumpTo(ix)
                    } else {
                        StepAction::Advance
                    },
                    None => StepAction::Fault(InterpretError::UndefinedLabel),
                }
            },
        }
    }

    /// Decodes the effect of the next step: the effect of the instruction at
    /// the counter, or an out-of-bounds fault past the end of the program.
    fn decode_action(&self) -> (r: StepAction)
        requires
            self.program.wf(),
        ensures
            r == machine_action(*self),
    {
        match self.program.get(self.pc) {
            Some(op) => self.op_effect(op),
            None => StepAction::Fault(InterpretError::OutOfBounds),
        }
    }

    /// Executes one instruction: fetches at the counter from the live
    /// program, decodes, and applies the effect atomically. On a machine
    /// that is halted or faulted this is a no-op: those states are terminal,
    /// and neither the registers nor the counter move.
    pub fn step(&mut self)
        requires
            old(self).program.wf(),
        ensures
            final(self).program == old(self).program,
            !(old(self).state is Running) ==> *final(self) == *old(self),
            old(self).state is Running ==> step_spec(*old(self), *final(self)),
    {
        match self.state {
            MachineState::Running => {},
            _ => {
                return ;
            },
        }
        let n = self.program.instructions.len();
        let action = self.decode_action();
        match action {
            StepAction::Advance => {
                assert(self.pc < n);
                self.pc = self.pc + 1;
            },
            StepAction::Halt => {
                self.state = MachineState::Halted;
            },
            StepAction::Write(dest, value) => {
                assert(self.pc < n);
                self.registers.write(dest, value);
                self.pc = self.pc + 1;
            },
            StepAction::JumpTo(ix) => {
                self.pc = ix;
            },
            StepAction::Fault(fault) => {
                self.state = MachineState::Faulted(fault);
            },
        }
    }

    /// Steps until the machine halts or faults, leaving the terminal
    /// registers, counter and fault reason inspectable on the machine. The
    /// machine itself never preempts, so the caller hands in its ceiling:
    /// the call stops early, after fewer than `max_steps` steps, only in a
    /// terminal state, and returns how many steps it took. A program that
    /// neither halts nor faults is still running when the ceiling is hit.
    pub fn run(&mut self, max_steps: usize) -> (steps: usize)
        requires
            old(self).program.wf(),
        ensures
            steps <= max_steps,
            reach_n(*old(self), *final(self), steps as nat),
            steps < max_steps ==> !(final(self).state is Running),
    {
        let mut steps: usize = 0;
        while steps < max_steps
            invariant
                steps <= max_steps,
                self.program.wf(),
                reach_n(*old(self), *self, steps as nat),
            decreases max_steps - steps,
        {
            match self.state {
                MachineState::Running => {},
                _ => {
                    return steps;
                },
            }
            let ghost pre = *self;
            self.step();
            proof {
                lemma_reach_extend(*old(self), pre, *self, steps as nat);
            }
            steps = steps + 1;
        }
        steps
    }
}

} // verus!
