//! The mathematical model of the machine: an abstract state, the transition
//! each instruction performs, and a fuel-bounded run function that the
//! executable interpreter is proved against.

use vstd::prelude::*;

use crate::isa::{decode_spec, Instruction};

verus! {

/// Why an execution stopped.  Every run ends in exactly one of these.
/// `DecodeError` and `OutOfBoundsRead` carry the offending byte or index and
/// the program position at which the failure happened.
#[derive(Copy, Clone, PartialEq, Eq, Structural, Debug)]
pub enum HaltOutcome {
    /// The counter ran off the end of the program.
    NaturalEnd,
    /// An `EXIT` instruction was executed.
    ExplicitExit,
    /// The byte at `position` does not encode any opcode.
    DecodeError { byte: u8, position: usize },
    /// ADD, SUB or MUL produced a value outside the register width.
    ArithmeticOverflow,
    /// DIV with a zero divisor, or a quotient outside the register width.
    DivisionByZero,
    /// JMP or LEA found a register value not representable as an index.
    InvalidJumpTarget,
    /// LEA's index at `position` was `index`, at or past the program length.
    OutOfBoundsRead { index: usize, position: usize },
    /// POP needed more values than the stack held.
    StackUnderflow,
}

/// The abstract machine state: ten registers, the value stack, the immutable
/// program, and the program counter.
#[verifier::ext_equal]
pub struct VmState {
    pub regs: Seq<i128>,
    pub stack: Seq<i128>,
    pub program: Seq<u8>,
    pub counter: nat,
}

impl VmState {
    /// A well-formed state has exactly ten registers.
    pub open spec fn wf(self) -> bool {
        self.regs.len() == 10
    }
}

/// The state a machine starts in: all registers zero, an empty stack, and
/// the counter at the start of the given program.
pub open spec fn init_state(program: Seq<u8>) -> VmState {
    VmState {
        regs: Seq::new(10, |i: int| 0i128),
        stack: Seq::empty(),
        program: program,
        counter: 0,
    }
}

/// The result of one fetch-decode-execute step: either the machine keeps
/// running in a new state, or it halts with an outcome, leaving the state
/// the halt was observed in.
#[verifier::ext_equal]
pub enum Transition {
    Continue(VmState),
    Halt(HaltOutcome, VmState),
}

/// The register vector rotated right by one: each slot takes the prior value
/// of its predecessor, and slot 0 takes the prior value of the last slot.
pub open spec fn rotate_right(regs: Seq<i128>) -> Seq<i128> {
    Seq::new(regs.len(), |i: int| if i == 0 { regs[regs.len() - 1] } else { regs[i - 1] })
}

/// The register vector rotated left by one: each slot takes the prior value
/// of its successor, and the last slot takes the prior value of slot 0.
pub open spec fn rotate_left(regs: Seq<i128>) -> Seq<i128> {
    Seq::new(
        regs.len(),
        |i: int| if i == regs.len() - 1 { regs[0] } else { regs[i + 1] },
    )
}

/// Truncating division as the register width computes it: the quotient is
/// rounded toward zero.
pub open spec fn quot(x: int, d: int) -> int
    recommends
        d != 0,
{
    if x == 0 {
        0
    } else if x > 0 && d > 0 {
        x / d
    } else if x < 0 && d < 0 {
        (x * -1) / (d * -1)
    } else if x < 0 {
        ((x * -1) / d) * -1
    } else {
        (x / (d * -1)) * -1
    }
}

/// The transition for ADD, SUB and MUL: `value` is the unbounded result of
/// the operation on registers 0 and 1; register 2 receives it when it fits
/// the register width, and otherwise the machine halts.
pub open spec fn arith_result(s: VmState, value: int) -> Transition {
    if value < i128::MIN || value > i128::MAX {
        Transition::Halt(HaltOutcome::ArithmeticOverflow, s)
    } else {
        Transition::Continue(
            VmState { regs: s.regs.update(2, value as i128), counter: s.counter + 1, ..s },
        )
    }
}

/// The transition for DIV.  A zero divisor halts the machine; so does the
/// one quotient that does not fit the register width (the minimum register
/// value divided by minus one), reported the same way a zero divisor is.
pub open spec fn div_result(s: VmState) -> Transition {
    if s.regs[1] == 0 {
        Transition::Halt(HaltOutcome::DivisionByZero, s)
    } else {
        let q = quot(s.regs[0] as int, s.regs[1] as int);
        if q < i128::MIN || q > i128::MAX {
            Transition::Halt(HaltOutcome::DivisionByZero, s)
        } else {
            Transition::Continue(
                VmState { regs: s.regs.update(2, q as i128), counter: s.counter + 1, ..s },
            )
        }
    }
}

/// The transition an already-decoded instruction performs from state `s`,
/// with the counter still pointing at the instruction itself.
///
/// MOV is deliberately inert: the instruction set defines no effect for it.
///
/// POP on a short stack is partial: the values that are there still move
/// into the high registers before the machine halts, so the partial
/// assignment is visible in the halted state.
pub open spec fn instruction_spec(ins: Instruction, s: VmState) -> Transition
    recommends
        s.wf(),
        s.counter < s.program.len(),
{
    match ins {
        Instruction::Add => arith_result(s, s.regs[0] + s.regs[1]),
        Instruction::Sub => arith_result(s, s.regs[0] - s.regs[1]),
        Instruction::Mul => arith_result(s, s.regs[0] * s.regs[1]),
        Instruction::Div => div_result(s),
        Instruction::Mov => Transition::Continue(VmState { counter: s.counter + 1, ..s }),
        Instruction::Jmp => {
            let t = s.regs[2];
            if 0 <= t && t <= usize::MAX {
                Transition::Continue(VmState { counter: t as nat, ..s })
            } else {
                Transition::Halt(HaltOutcome::InvalidJumpTarget, s)
            }
        },
        Instruction::Push => Transition::Continue(
            VmState { stack: s.stack + s.regs, counter: s.counter + 1, ..s },
        ),
        Instruction::Pop => {
            let k = s.stack.len();
            if k >= 10 {
                Transition::Continue(
                    VmState {
                        regs: s.stack.subrange(k - 10, k as int),
                        stack: s.stack.take(k - 10),
                        counter: s.counter + 1,
                        ..s
                    },
                )
            } else {
                Transition::Halt(
                    HaltOutcome::StackUnderflow,
                    VmState { regs: s.regs.take(10 - k) + s.stack, stack: Seq::empty(), ..s },
                )
            }
        },
        Instruction::Exit => Transition::Halt(HaltOutcome::ExplicitExit, s),
        Instruction::L0 => Transition::Continue(
            VmState { regs: s.regs.update(0, 0i128), counter: s.counter + 1, ..s },
        ),
        Instruction::L1 => Transition::Continue(
            VmState { regs: s.regs.update(0, 1i128), counter: s.counter + 1, ..s },
        ),
        Instruction::ShiftRR => Transition::Continue(
            VmState { regs: rotate_right(s.regs), counter: s.counter + 1, ..s },
        ),
        Instruction::ShiftRL => Transition::Continue(
            VmState { regs: rotate_left(s.regs), counter: s.counter + 1, ..s },
        ),
        Instruction::Lea => {
            let t = s.regs[2];
            if !(0 <= t && t <= usize::MAX) {
                Transition::Halt(HaltOutcome::InvalidJumpTarget, s)
            } else if t >= s.program.len() {
                Transition::Halt(
                    HaltOutcome::OutOfBoundsRead {
                        index: t as usize,
                        position: s.counter as usize,
                    },
                    s,
                )
            } else {
                Transition::Continue(
                    VmState {
                        regs: s.regs.update(0, s.program[t as int] as i128),
                        counter: s.counter + 1,
                        ..s
                    },
                )
            }
        },
        Instruction::OwnAddress => Transition::Continue(
            VmState {
                regs: s.regs.update(0, s.counter as i128),
                counter: s.counter + 1,
                ..s
            },
        ),
        Instruction::Noop => Transition::Continue(VmState { counter: s.counter + 1, ..s }),
    }
}

/// One fetch-decode-execute step from state `s`: a counter at or past the
/// end of the program is the natural end, an unknown byte halts with the
/// byte and its position, and a known opcode performs its transition.
pub open spec fn step_spec(s: VmState) -> Transition
    recommends
        s.wf(),
{
    if s.counter >= s.program.len() {
        Transition::Halt(HaltOutcome::NaturalEnd, s)
    } else {
        let b = s.program[s.counter as int];
        match decode_spec(b) {
            None => Transition::Halt(
                HaltOutcome::DecodeError { byte: b, position: s.counter as usize },
                s,
            ),
            Some(ins) => instruction_spec(ins, s),
        }
    }
}

/// A run bounded by `fuel` steps: either the machine halts within the
/// budget, or the budget runs out with the machine still going.
#[verifier::ext_equal]
pub enum RunResult {
    /// The fuel was exhausted with the machine still running in this state.
    Cutoff(VmState),
    /// The machine halted with this outcome, in this state.
    Halted(HaltOutcome, VmState),
}

/// Run the machine from `s` for at most `fuel` steps.
pub open spec fn run_spec(s: VmState, fuel: nat) -> RunResult
    decreases fuel,
{
    if fuel == 0 {
        RunResult::Cutoff(s)
    } else {
        match step_spec(s) {
            Transition::Continue(t) => run_spec(t, (fuel - 1) as nat),
            Transition::Halt(outcome, t) => RunResult::Halted(outcome, t),
        }
    }
}

/// Once a run has halted, more fuel changes nothing.
pub proof fn lemma_run_monotone(s: VmState, m: nat, n: nat)
    requires
        run_spec(s, m) is Halted,
        m <= n,
    ensures
        run_spec(s, n) == run_spec(s, m),
    decreases m,
{
    if m == 0 {
        assert(false);
    } else {
        match step_spec(s) {
            Transition::Continue(t) => {
                lemma_run_monotone(t, (m - 1) as nat, (n - 1) as nat);
            },
            Transition::Halt(..) => {},
        }
    }
}

/// Execution is deterministic: two runs from the same state that both halt
/// agree on the outcome and on the final state, whatever their budgets.
pub proof fn lemma_run_deterministic(s: VmState, m: nat, n: nat)
    requires
        run_spec(s, m) is Halted,
        run_spec(s, n) is Halted,
    ensures
        run_spec(s, m) == run_spec(s, n),
{
    if m <= n {
        lemma_run_monotone(s, m, n);
    } else {
        lemma_run_monotone(s, n, m);
    }
}

} // verus!
