//! The executable machine: construction, one fetch-decode-execute step, and
//! the run-to-halt loop, each proved against the model in `state`.

use vstd::prelude::*;

use crate::isa::Instruction;
use crate::state::{
    init_state, rotate_left, rotate_right, run_spec, step_spec, HaltOutcome, RunResult,
    Transition, VmState,
};

verus! {

/// What one executable step reports: the machine either keeps running or has
/// halted with an outcome.
#[derive(Copy, Clone, PartialEq, Eq, Structural, Debug)]
pub enum StepOutcome {
    Running,
    Halted(HaltOutcome),
}

/// The machine: ten wide signed registers, a LIFO value stack, the program
/// bytes (read-only during execution), and the program counter.
pub struct CPU {
    regs: Vec<i128>,
    stack: Vec<i128>,
    program: Vec<u8>,
    pc: usize,
}

impl View for CPU {
    type V = VmState;

    closed spec fn view(&self) -> VmState {
        VmState {
            regs: self.regs@,
            stack: self.stack@,
            program: self.program@,
            counter: self.pc as nat,
        }
    }
}

impl CPU {
    /// The machine is well formed when its abstract state is: it has exactly
    /// ten registers.
    pub open spec fn wf(self) -> bool {
        self@.wf()
    }

    /// A machine with an empty program: all registers zero, an empty stack,
    /// the counter at zero.
    pub fn new() -> (r: CPU)
        ensures
            r.wf(),
            r@ == init_state(Seq::<u8>::empty()),
    {
        let r = CPU::with_program(Vec::new());
        proof {
            assert(r@.program =~= Seq::<u8>::empty());
        }
        r
    }

    /// A machine ready to run the given program: all registers zero, an
    /// empty stack, the counter at the start of the program.
    pub fn with_program(program: Vec<u8>) -> (r: CPU)
        ensures
            r.wf(),
            r@ == init_state(program@),
    {
        let mut regs: Vec<i128> = Vec::new();
        let mut i: usize = 0;
        while i < 10
            invariant
                i <= 10,
                regs@.len() == i,
                forall|j: int| 0 <= j < i ==> regs@[j] == 0i128,
            decreases 10 - i,
        {
            regs.push(0);
            i = i + 1;
        }
        let r = CPU { regs, stack: Vec::new(), program, pc: 0 };
        proof {
            assert(r@.regs =~= init_state(r@.program).regs);
            assert(r@ =~= init_state(r@.program));
        }
        r
    }

    /// Put `v` into register `i`, leaving everything else as it was.  The
    /// arithmetic, jump and read opcodes act on registers 0 through 2, so
    /// this is how a caller arranges their operands before a run.
    pub fn set_register(&mut self, i: usize, v: i128)
        requires
            old(self).wf(),
            i < 10,
        ensures
            final(self).wf(),
            final(self)@ == (VmState {
                regs: old(self)@.regs.update(i as int, v),
                ..old(self)@
            }),
    {
        self.regs[i] = v;
    }

    /// The current value of register `i`.
    pub fn register(&self, i: usize) -> (r: i128)
        requires
            self.wf(),
            i < 10,
        ensures
            r == self@.regs[i as int],
    {
        self.regs[i]
    }

    /// The current program counter.
    pub fn program_counter(&self) -> (r: usize)
        ensures
            r == self@.counter,
    {
        self.pc
    }

    /// How many values the stack holds.
    pub fn stack_len(&self) -> (r: usize)
        ensures
            r == self@.stack.len(),
    {
        self.stack.len()
    }

    /// The stack value at depth `i`, counted from the bottom.
    pub fn stack_value(&self, i: usize) -> (r: i128)
        requires
            i < self@.stack.len(),
        ensures
            r == self@.stack[i as int],
    {
        self.stack[i]
    }

    /// The length of the loaded program.
    pub fn program_len(&self) -> (r: usize)
        ensures
            r == self@.program.len(),
    {
        self.program.len()
    }

    /// One fetch-decode-execute step, exactly as `step_spec` describes it:
    /// the returned outcome and the machine's new state are the transition
    /// the model takes from the old state.
    pub fn step(&mut self) -> (r: StepOutcome)
        requires
            old(self).wf(),
        ensures
            final(self).wf(),
            match step_spec(old(self)@) {
                Transition::Continue(t) => r == StepOutcome::Running && final(self)@ == t,
                Transition::Halt(outcome, t) => r == StepOutcome::Halted(outcome)
                    && final(self)@ == t,
            },
    {
        if self.pc >= self.program.len() {
            return StepOutcome::Halted(HaltOutcome::NaturalEnd);
        }
        let b = self.program[self.pc];
        let ins = match Instruction::decode(b) {
            Some(ins) => ins,
            None => {
                return StepOutcome::Halted(
                    HaltOutcome::DecodeError { byte: b, position: self.pc },
                );
            },
        };
        match ins {
            Instruction::Add => {
                match self.regs[0].checked_add(self.regs[1]) {
                    Some(v) => {
                        self.regs[2] = v;
                        self.pc = self.pc + 1;
                        StepOutcome::Running
                    },
                    None => StepOutcome::Halted(HaltOutcome::ArithmeticOverflow),
                }
            },
            Instruction::Sub => {
                match self.regs[0].checked_sub(self.regs[1]) {
                    Some(v) => {
                        self.regs[2] = v;
                        self.pc = self.pc + 1;
                        StepOutcome::Running
                    },
                    None => StepOutcome::Halted(HaltOutcome::ArithmeticOverflow),
                }
            },
            Instruction::Mov => {
                self.pc = self.pc + 1;
                StepOutcome::Running
            },
            Instruction::Mul => {
                match self.regs[0].checked_mul(self.regs[1]) {
                    Some(v) => {
                        self.regs[2] = v;
                        self.pc = self.pc + 1;
                        StepOutcome::Running
                    },
                    None => StepOutcome::Halted(HaltOutcome::ArithmeticOverflow),
                }
            },
            Instruction::Div => {
                match self.regs[0].checked_div(self.regs[1]) {
                    Some(v) => {
                        self.regs[2] = v;
                        self.pc = self.pc + 1;
                        StepOutcome::Running
                    },
                    None => StepOutcome::Halted(HaltOutcome::DivisionByZero),
                }
            },
            Instruction::Jmp => {
                let t = self.regs[2];
                if t < 0 || t > usize::MAX as i128 {
                    return StepOutcome::Halted(HaltOutcome::InvalidJumpTarget);
                }
                self.pc = t as usize;
                StepOutcome::Running
            },
            Instruction::Push => {
                self.stack.push(self.regs[0]);
                self.stack.push(self.regs[1]);
                self.stack.push(self.regs[2]);
                self.stack.push(self.regs[3]);
                self.stack.push(self.regs[4]);
                self.stack.push(self.regs[5]);
                self.stack.push(self.regs[6]);
                self.stack.push(self.regs[7]);
                self.stack.push(self.regs[8]);
                self.stack.push(self.regs[9]);
                self.pc = self.pc + 1;
                proof {
                    assert(self@.stack =~= old(self)@.stack + old(self)@.regs);
                }
                StepOutcome::Running
            },
            Instruction::Pop => {
                let ghost start_regs = self@.regs;
                let ghost start_stack = self@.stack;
                let ghost k = start_stack.len();
                proof {
                    assert(start_stack.take(k as int) =~= start_stack);
                    assert(start_regs.take(10) + start_stack.subrange(k as int, k as int)
                        =~= start_regs);
                }
                let mut i: usize = 0;
                while i < 10
                    invariant
                        self@.wf(),
                        i <= 10,
                        i <= k,
                        self@.program == old(self)@.program,
                        self@.counter == old(self)@.counter,
                        old(self)@.counter < old(self)@.program.len(),
                        crate::isa::decode_spec(
                            old(self)@.program[old(self)@.counter as int],
                        ) == Some(Instruction::Pop),
                        start_regs == old(self)@.regs,
                        start_regs.len() == 10,
                        start_stack == old(self)@.stack,
                        k == start_stack.len(),
                        self@.stack == start_stack.take(k - i),
                        self@.regs == start_regs.take(10 - i) + start_stack.subrange(
                            k - i,
                            k as int,
                        ),
                    decreases 10 - i,
                {
                    match self.stack.pop() {
                        Some(v) => {
                            proof {
                                assert(i < k);
                                assert(v == start_stack[k - i - 1]);
                                assert(self@.stack =~= start_stack.take(k - (i + 1)));
                            }
                            self.regs[9 - i] = v;
                            proof {
                                let target = start_regs.take(10 - (i + 1))
                                    + start_stack.subrange(k - (i + 1), k as int);
                                assert forall|j: int| 0 <= j < 10 implies self@.regs[j]
                                    == target[j] by {
                                    if j < 9 - i {
                                        assert(target[j] == start_regs[j]);
                                    } else if j == 9 - i {
                                        assert(target[j] == start_stack[k - i - 1]);
                                    } else {
                                        assert(target[j] == start_stack[k - 10 + j]);
                                    }
                                }
                                assert(self@.regs =~= target);
                            }
                        },
                        None => {
                            proof {
                                assert(k == i);
                                assert(self@.stack =~= Seq::<i128>::empty());
                                assert(self@.regs =~= start_regs.take(10 - k)
                                    + start_stack);
                                assert(self@ =~= VmState {
                                    regs: old(self)@.regs.take(10 - k) + old(self)@.stack,
                                    stack: Seq::empty(),
                                    ..old(self)@
                                });
                            }
                            return StepOutcome::Halted(HaltOutcome::StackUnderflow);
                        },
                    }
                    i = i + 1;
                }
                self.pc = self.pc + 1;
                proof {
                    assert(self@.regs =~= start_stack.subrange(k - 10, k as int));
                }
                StepOutcome::Running
            },
            Instruction::Exit => StepOutcome::Halted(HaltOutcome::ExplicitExit),
            Instruction::L0 => {
                self.regs[0] = 0;
                self.pc = self.pc + 1;
                StepOutcome::Running
            },
            Instruction::L1 => {
                self.regs[0] = 1;
                self.pc = self.pc + 1;
                StepOutcome::Running
            },
            Instruction::ShiftRR => {
                let mut rotated: Vec<i128> = Vec::new();
                rotated.push(self.regs[9]);
                rotated.push(self.regs[0]);
                rotated.push(self.regs[1]);
                rotated.push(self.regs[2]);
                rotated.push(self.regs[3]);
                rotated.push(self.regs[4]);
                rotated.push(self.regs[5]);
                rotated.push(self.regs[6]);
                rotated.push(self.regs[7]);
                rotated.push(self.regs[8]);
                proof {
                    assert(rotated@ =~= rotate_right(self@.regs));
                }
                self.regs = rotated;
                self.pc = self.pc + 1;
                StepOutcome::Running
            },
            Instruction::ShiftRL => {
                let mut rotated: Vec<i128> = Vec::new();
                rotated.push(self.regs[1]);
                rotated.push(self.regs[2]);
                rotated.push(self.regs[3]);
                rotated.push(self.regs[4]);
                rotated.push(self.regs[5]);
                rotated.push(self.regs[6]);
                rotated.push(self.regs[7]);
                rotated.push(self.regs[8]);
                rotated.push(self.regs[9]);
                rotated.push(self.regs[0]);
                proof {
                    assert(rotated@ =~= rotate_left(self@.regs));
                }
                self.regs = rotated;
                self.pc = self.pc + 1;
                StepOutcome::Running
            },
            Instruction::Lea => {
                let t = self.regs[2];
                if t < 0 || t > usize::MAX as i128 {
                    return StepOutcome::Halted(HaltOutcome::InvalidJumpTarget);
                }
                let idx = t as usize;
                if idx >= self.program.len() {
                    return StepOutcome::Halted(
                        HaltOutcome::OutOfBoundsRead { index: idx, position: self.pc },
                    );
                }
                let v = self.program[idx];
                self.regs[0] = v as i128;
                self.pc = self.pc + 1;
                StepOutcome::Running
            },
            Instruction::OwnAddress => {
                self.regs[0] = self.pc as i128;
                self.pc = self.pc + 1;
                StepOutcome::Running
            },
            Instruction::Noop => {
                self.pc = self.pc + 1;
                StepOutcome::Running
            },
        }
    }

    /// Run the machine for at most `fuel` steps.  `Some(outcome)` is
    /// returned exactly when the model run with that budget halts, with the
    /// same outcome and the same final state; `None` means the budget ran
    /// out with the machine still going, left in the model's cutoff state.
    /// A `JMP` program can run forever, so a budget is how a caller that
    /// must terminate drives the machine; by `state::lemma_run_monotone`,
    /// enlarging the budget never changes an outcome already reached.
    pub fn run(&mut self, fuel: usize) -> (r: Option<HaltOutcome>)
        requires
            old(self).wf(),
        ensures
            final(self).wf(),
            match run_spec(old(self)@, fuel as nat) {
                RunResult::Cutoff(t) => r is None && final(self)@ == t,
                RunResult::Halted(outcome, t) => r == Some(outcome) && final(self)@ == t,
            },
    {
        let mut remaining: usize = fuel;
        while remaining > 0
            invariant
                self.wf(),
                remaining <= fuel,
                run_spec(self@, remaining as nat) == run_spec(old(self)@, fuel as nat),
            decreases remaining,
        {
            match self.step() {
                StepOutcome::Running => {},
                StepOutcome::Halted(outcome) => {
                    return Some(outcome);
                },
            }
            remaining = remaining - 1;
        }
        None
    }
}

} // verus!
