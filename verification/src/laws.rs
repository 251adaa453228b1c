//! Laws of the machine, each stated over the model in `state` and proved:
//! what an all-NOOP program does, what the four arithmetic opcodes leave in
//! register 2, that the two rotations undo each other, that PUSH then POP is
//! the identity on the registers, and how the underflow, decode-failure and
//! out-of-bounds halts behave.

use vstd::prelude::*;

use vstd::arithmetic::div_mod::{
    lemma_div_decreases, lemma_div_nonincreasing, lemma_div_pos_is_pos,
};

use crate::isa::{decode_spec, encode_spec, Instruction};
use crate::state::{
    init_state, quot, rotate_left, rotate_right, run_spec, step_spec, HaltOutcome, RunResult,
    Transition, VmState,
};

verus! {

/// The truncating quotient of two register-width values fits the register
/// width, except for the one pair where it cannot: the minimum value divided
/// by minus one.
pub proof fn lemma_quot_fits(x: int, d: int)
    requires
        i128::MIN <= x <= i128::MAX,
        i128::MIN <= d <= i128::MAX,
        d != 0,
        !(x == i128::MIN && d == -1),
    ensures
        i128::MIN <= quot(x, d) <= i128::MAX,
{
    if x == 0 {
    } else if x > 0 && d > 0 {
        lemma_div_pos_is_pos(x, d);
        lemma_div_nonincreasing(x, d);
    } else if x < 0 && d < 0 {
        let xp = x * -1;
        let dp = d * -1;
        lemma_div_pos_is_pos(xp, dp);
        if xp <= i128::MAX {
            lemma_div_nonincreasing(xp, dp);
        } else {
            lemma_div_decreases(xp, dp);
        }
    } else if x < 0 {
        let xp = x * -1;
        lemma_div_pos_is_pos(xp, d);
        lemma_div_nonincreasing(xp, d);
    } else {
        let dp = d * -1;
        lemma_div_pos_is_pos(x, dp);
        lemma_div_nonincreasing(x, dp);
    }
}

/// A program of nothing but NOOP bytes runs to its natural end: from any
/// starting point within it, the machine reaches the end of the program with
/// every register, the stack, and the program untouched.
pub proof fn lemma_noop_program(s: VmState)
    requires
        s.wf(),
        s.counter <= s.program.len(),
        forall|i: int|
            0 <= i < s.program.len() ==> s.program[i] == encode_spec(Instruction::Noop),
    ensures
        run_spec(s, (s.program.len() - s.counter + 1) as nat) == RunResult::Halted(
            HaltOutcome::NaturalEnd,
            VmState { counter: s.program.len(), ..s },
        ),
    decreases s.program.len() - s.counter,
{
    if s.counter == s.program.len() {
        assert(VmState { counter: s.program.len(), ..s } =~= s);
    } else {
        let s1 = VmState { counter: s.counter + 1, ..s };
        lemma_noop_program(s1);
        assert(VmState { counter: s.program.len(), ..s1 } =~= VmState {
            counter: s.program.len(),
            ..s
        });
    }
}

/// The identity program: a machine started on a program of nothing but NOOP
/// bytes halts at its natural end with all registers still zero, the stack
/// still empty, and the counter equal to the program length — those are the
/// fields of `init_state` that the final state keeps unchanged.
pub proof fn lemma_identity_program(program: Seq<u8>)
    requires
        forall|i: int| 0 <= i < program.len() ==> program[i] == encode_spec(Instruction::Noop),
    ensures
        run_spec(init_state(program), program.len() + 1) == RunResult::Halted(
            HaltOutcome::NaturalEnd,
            VmState { counter: program.len(), ..init_state(program) },
        ),
{
    lemma_noop_program(init_state(program));
}

/// Arithmetic correctness: with values `a` and `b` in registers 0 and 1 and
/// one of ADD, SUB, MUL, DIV at the counter, the step puts the checked
/// result of the operation into register 2 and moves on, or halts with the
/// matching outcome when the result is not representable — overflow for the
/// first three, and for DIV a zero divisor or the one unrepresentable
/// quotient, both reported as a division halt.
pub proof fn lemma_arithmetic(a: i128, b: i128, s: VmState, op: Instruction)
    requires
        s.wf(),
        s.counter < s.program.len(),
        s.regs[0] == a,
        s.regs[1] == b,
        decode_spec(s.program[s.counter as int]) == Some(op),
    ensures
        op == Instruction::Add ==> step_spec(s) == (if i128::MIN <= a + b <= i128::MAX {
            Transition::Continue(
                VmState { regs: s.regs.update(2, (a + b) as i128), counter: s.counter + 1, ..s },
            )
        } else {
            Transition::Halt(HaltOutcome::ArithmeticOverflow, s)
        }),
        op == Instruction::Sub ==> step_spec(s) == (if i128::MIN <= a - b <= i128::MAX {
            Transition::Continue(
                VmState { regs: s.regs.update(2, (a - b) as i128), counter: s.counter + 1, ..s },
            )
        } else {
            Transition::Halt(HaltOutcome::ArithmeticOverflow, s)
        }),
        op == Instruction::Mul ==> step_spec(s) == (if i128::MIN <= a * b <= i128::MAX {
            Transition::Continue(
                VmState { regs: s.regs.update(2, (a * b) as i128), counter: s.counter + 1, ..s },
            )
        } else {
            Transition::Halt(HaltOutcome::ArithmeticOverflow, s)
        }),
        op == Instruction::Div ==> step_spec(s) == (if b == 0 || (a == i128::MIN && b == -1) {
            Transition::Halt(HaltOutcome::DivisionByZero, s)
        } else {
            Transition::Continue(
                VmState {
                    regs: s.regs.update(2, quot(a as int, b as int) as i128),
                    counter: s.counter + 1,
                    ..s
                },
            )
        }),
{
    if op == Instruction::Div && b != 0 {
        if a == i128::MIN && b == -1 {
            assert(quot(a as int, b as int) == (a * -1) / 1);
            vstd::arithmetic::div_mod::lemma_div_basics_2(a * -1);
        } else {
            lemma_quot_fits(a as int, b as int);
        }
    }
}

/// The two rotations are inverses on any register vector: rotating right
/// then left, or left then right, gives the vector back exactly.
pub proof fn lemma_rotation_inverse(v: Seq<i128>)
    ensures
        rotate_left(rotate_right(v)) == v,
        rotate_right(rotate_left(v)) == v,
{
    assert(rotate_left(rotate_right(v)) =~= v);
    assert(rotate_right(rotate_left(v)) =~= v);
}

/// SHIFTRR followed immediately by SHIFTRL — or the other way round —
/// restores the register vector exactly: the two steps leave the registers
/// and the stack as they were and advance the counter past both opcodes.
pub proof fn lemma_rotation_round_trip(s: VmState, first: Instruction, second: Instruction)
    requires
        s.wf(),
        s.counter + 1 < s.program.len(),
        decode_spec(s.program[s.counter as int]) == Some(first),
        decode_spec(s.program[s.counter as int + 1]) == Some(second),
        (first == Instruction::ShiftRR && second == Instruction::ShiftRL) || (first
            == Instruction::ShiftRL && second == Instruction::ShiftRR),
    ensures
        (step_spec(s) is Continue),
        (step_spec(step_spec(s)->Continue_0) is Continue),
        step_spec(step_spec(s)->Continue_0)->Continue_0 == (VmState {
            counter: s.counter + 2,
            ..s
        }),
{
    lemma_rotation_inverse(s.regs);
    let s2 = step_spec(step_spec(s)->Continue_0)->Continue_0;
    assert(s2 =~= VmState { counter: s.counter + 2, ..s });
}

/// PUSH followed immediately by POP restores the machine exactly: the ten
/// pushed values come back off the stack into the registers they came from,
/// the stack is as it was, and the counter has advanced past both opcodes.
pub proof fn lemma_push_pop_round_trip(s: VmState)
    requires
        s.wf(),
        s.counter + 1 < s.program.len(),
        decode_spec(s.program[s.counter as int]) == Some(Instruction::Push),
        decode_spec(s.program[s.counter as int + 1]) == Some(Instruction::Pop),
    ensures
        (step_spec(s) is Continue),
        (step_spec(step_spec(s)->Continue_0) is Continue),
        step_spec(step_spec(s)->Continue_0)->Continue_0 == (VmState {
            counter: s.counter + 2,
            ..s
        }),
{
    let s1 = step_spec(s)->Continue_0;
    assert(s1.stack.len() == s.stack.len() + 10);
    let s2 = step_spec(s1)->Continue_0;
    let k = s1.stack.len();
    assert(s2.regs =~= s.regs);
    assert(s2.stack =~= s.stack);
    assert(s2 =~= VmState { counter: s.counter + 2, ..s });
}

/// POP on an empty stack halts with a stack underflow, the state otherwise
/// untouched, and no further instruction executes: with any fuel at all,
/// the run from that state is that one halt.
pub proof fn lemma_pop_on_empty_stack(s: VmState)
    requires
        s.wf(),
        s.counter < s.program.len(),
        decode_spec(s.program[s.counter as int]) == Some(Instruction::Pop),
        s.stack.len() == 0,
    ensures
        step_spec(s) == Transition::Halt(HaltOutcome::StackUnderflow, s),
        forall|n: nat|
            n >= 1 ==> run_spec(s, n) == RunResult::Halted(HaltOutcome::StackUnderflow, s),
{
    assert(s.regs.take(10 - s.stack.len()) + s.stack =~= s.regs);
    assert(s.stack =~= Seq::<i128>::empty());
    assert((match step_spec(s) {
        Transition::Halt(_, t) => t,
        Transition::Continue(t) => t,
    }) =~= s);
    assert forall|n: nat| n >= 1 implies run_spec(s, n) == RunResult::Halted(
        HaltOutcome::StackUnderflow,
        s,
    ) by {
        reveal_with_fuel(run_spec, 2);
    }
}

/// A byte that is no opcode halts the machine with a decode error naming
/// that byte and its position, and no further instruction executes: with
/// any fuel at all, the run from that state is that one halt, the state
/// untouched.
pub proof fn lemma_decode_failure(s: VmState)
    requires
        s.wf(),
        s.counter < s.program.len(),
        decode_spec(s.program[s.counter as int]) is None,
    ensures
        forall|n: nat|
            n >= 1 ==> run_spec(s, n) == RunResult::Halted(
                HaltOutcome::DecodeError {
                    byte: s.program[s.counter as int],
                    position: s.counter as usize,
                },
                s,
            ),
{
    assert forall|n: nat| n >= 1 implies run_spec(s, n) == RunResult::Halted(
        HaltOutcome::DecodeError {
            byte: s.program[s.counter as int],
            position: s.counter as usize,
        },
        s,
    ) by {
        reveal_with_fuel(run_spec, 2);
    }
}

/// LEA with a representable index at or past the end of the program halts
/// with an out-of-bounds read naming the index and the instruction's
/// position, instead of reading anything — and no further instruction
/// executes: with any fuel at all, the run from that state is that one
/// halt, the state untouched.
pub proof fn lemma_lea_out_of_bounds(s: VmState)
    requires
        s.wf(),
        s.counter < s.program.len(),
        decode_spec(s.program[s.counter as int]) == Some(Instruction::Lea),
        s.regs[2] >= s.program.len(),
        s.regs[2] <= usize::MAX,
    ensures
        step_spec(s) == Transition::Halt(
            HaltOutcome::OutOfBoundsRead {
                index: s.regs[2] as usize,
                position: s.counter as usize,
            },
            s,
        ),
        forall|n: nat|
            n >= 1 ==> run_spec(s, n) == RunResult::Halted(
                HaltOutcome::OutOfBoundsRead {
                    index: s.regs[2] as usize,
                    position: s.counter as usize,
                },
                s,
            ),
{
    assert forall|n: nat| n >= 1 implies run_spec(s, n) == RunResult::Halted(
        HaltOutcome::OutOfBoundsRead {
            index: s.regs[2] as usize,
            position: s.counter as usize,
        },
        s,
    ) by {
        reveal_with_fuel(run_spec, 2);
    }
}

} // verus!
