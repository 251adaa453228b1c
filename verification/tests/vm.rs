use regvm::isa::Instruction;
use regvm::machine::{StepOutcome, CPU};
use regvm::state::HaltOutcome;

/// Run a machine until it halts, without a step budget: tests may loop
/// freely, and every program here halts.
fn run_to_halt(cpu: &mut CPU) -> HaltOutcome {
    loop {
        match cpu.step() {
            StepOutcome::Running => {}
            StepOutcome::Halted(outcome) => return outcome,
        }
    }
}

fn registers(cpu: &CPU) -> Vec<i128> {
    let mut out = Vec::new();
    let mut i = 0;
    while i < 10 {
        out.push(cpu.register(i));
        i += 1;
    }
    out
}

#[test]
fn encode_decode_round_trip() {
    let all = [
        Instruction::Add,
        Instruction::Sub,
        Instruction::Mov,
        Instruction::Mul,
        Instruction::Div,
        Instruction::Jmp,
        Instruction::Push,
        Instruction::Pop,
        Instruction::Exit,
        Instruction::L0,
        Instruction::L1,
        Instruction::ShiftRR,
        Instruction::ShiftRL,
        Instruction::Lea,
        Instruction::OwnAddress,
        Instruction::Noop,
    ];
    for (i, ins) in all.iter().enumerate() {
        let b = ins.encode();
        assert_eq!(b as usize, i);
        assert_eq!(Instruction::decode(b), Some(*ins));
    }
    for b in 16..=255u8 {
        assert_eq!(Instruction::decode(b), None);
    }
}

#[test]
fn identity_program() {
    let mut cpu = CPU::with_program(vec![Instruction::Noop.encode(); 8]);
    assert_eq!(cpu.run(9), Some(HaltOutcome::NaturalEnd));
    assert_eq!(registers(&cpu), vec![0i128; 10]);
    assert_eq!(cpu.stack_len(), 0);
    assert_eq!(cpu.program_counter(), 8);
}

#[test]
fn empty_program_halts_at_once() {
    let mut cpu = CPU::new();
    assert_eq!(cpu.run(1), Some(HaltOutcome::NaturalEnd));
    assert_eq!(cpu.program_counter(), 0);
}

#[test]
fn add_puts_sum_in_register_2() {
    let mut cpu = CPU::with_program(vec![Instruction::Add.encode()]);
    cpu.set_register(0, 33);
    cpu.set_register(1, 9);
    assert_eq!(run_to_halt(&mut cpu), HaltOutcome::NaturalEnd);
    assert_eq!(cpu.register(2), 42);
}

#[test]
fn add_overflow_halts() {
    let mut cpu = CPU::with_program(vec![Instruction::Add.encode()]);
    cpu.set_register(0, i128::MAX);
    cpu.set_register(1, 1);
    assert_eq!(run_to_halt(&mut cpu), HaltOutcome::ArithmeticOverflow);
    assert_eq!(cpu.register(2), 0);
    assert_eq!(cpu.program_counter(), 0);
}

#[test]
fn sub_puts_difference_in_register_2() {
    let mut cpu = CPU::with_program(vec![Instruction::Sub.encode()]);
    cpu.set_register(0, 5);
    cpu.set_register(1, 12);
    assert_eq!(run_to_halt(&mut cpu), HaltOutcome::NaturalEnd);
    assert_eq!(cpu.register(2), -7);
}

#[test]
fn sub_overflow_halts() {
    let mut cpu = CPU::with_program(vec![Instruction::Sub.encode()]);
    cpu.set_register(0, i128::MIN);
    cpu.set_register(1, 1);
    assert_eq!(run_to_halt(&mut cpu), HaltOutcome::ArithmeticOverflow);
}

#[test]
fn mul_puts_product_in_register_2() {
    let mut cpu = CPU::with_program(vec![Instruction::Mul.encode()]);
    cpu.set_register(0, -6);
    cpu.set_register(1, 7);
    assert_eq!(run_to_halt(&mut cpu), HaltOutcome::NaturalEnd);
    assert_eq!(cpu.register(2), -42);
}

#[test]
fn mul_overflow_halts() {
    let mut cpu = CPU::with_program(vec![Instruction::Mul.encode()]);
    cpu.set_register(0, i128::MAX);
    cpu.set_register(1, 2);
    assert_eq!(run_to_halt(&mut cpu), HaltOutcome::ArithmeticOverflow);
}

#[test]
fn div_truncates_toward_zero() {
    for (a, b, q) in [
        (7i128, 2i128, 3i128),
        (-7, 2, -3),
        (7, -2, -3),
        (-7, -2, 3),
        (0, 5, 0),
    ] {
        let mut cpu = CPU::with_program(vec![Instruction::Div.encode()]);
        cpu.set_register(0, a);
        cpu.set_register(1, b);
        assert_eq!(run_to_halt(&mut cpu), HaltOutcome::NaturalEnd);
        assert_eq!(cpu.register(2), q);
    }
}

#[test]
fn div_by_zero_halts() {
    let mut cpu = CPU::with_program(vec![Instruction::Div.encode()]);
    cpu.set_register(0, 1);
    assert_eq!(run_to_halt(&mut cpu), HaltOutcome::DivisionByZero);
}

#[test]
fn div_min_by_minus_one_halts() {
    let mut cpu = CPU::with_program(vec![Instruction::Div.encode()]);
    cpu.set_register(0, i128::MIN);
    cpu.set_register(1, -1);
    assert_eq!(run_to_halt(&mut cpu), HaltOutcome::DivisionByZero);
}

#[test]
fn mov_does_nothing() {
    let mut cpu = CPU::with_program(vec![Instruction::Mov.encode()]);
    cpu.set_register(0, 11);
    assert_eq!(run_to_halt(&mut cpu), HaltOutcome::NaturalEnd);
    assert_eq!(cpu.register(0), 11);
    assert_eq!(cpu.program_counter(), 1);
}

#[test]
fn rotate_right_then_left_restores_registers() {
    let mut cpu = CPU::with_program(vec![
        Instruction::ShiftRR.encode(),
        Instruction::ShiftRL.encode(),
    ]);
    for i in 0..10 {
        cpu.set_register(i, 100 + i as i128);
    }
    let before = registers(&cpu);
    assert_eq!(cpu.step(), StepOutcome::Running);
    assert_eq!(cpu.register(0), 109);
    assert_eq!(cpu.register(1), 100);
    assert_eq!(cpu.step(), StepOutcome::Running);
    assert_eq!(registers(&cpu), before);
}

#[test]
fn rotate_left_then_right_restores_registers() {
    let mut cpu = CPU::with_program(vec![
        Instruction::ShiftRL.encode(),
        Instruction::ShiftRR.encode(),
    ]);
    for i in 0..10 {
        cpu.set_register(i, 200 + i as i128);
    }
    let before = registers(&cpu);
    assert_eq!(cpu.step(), StepOutcome::Running);
    assert_eq!(cpu.register(9), 200);
    assert_eq!(cpu.register(0), 201);
    assert_eq!(cpu.step(), StepOutcome::Running);
    assert_eq!(registers(&cpu), before);
}

#[test]
fn push_pop_round_trip() {
    let mut cpu = CPU::with_program(vec![
        Instruction::Push.encode(),
        Instruction::Pop.encode(),
    ]);
    for i in 0..10 {
        cpu.set_register(i, -(i as i128) * 3 + 1);
    }
    let before = registers(&cpu);
    assert_eq!(cpu.step(), StepOutcome::Running);
    assert_eq!(cpu.stack_len(), 10);
    assert_eq!(cpu.step(), StepOutcome::Running);
    assert_eq!(registers(&cpu), before);
    assert_eq!(cpu.stack_len(), 0);
    assert_eq!(run_to_halt(&mut cpu), HaltOutcome::NaturalEnd);
}

#[test]
fn push_stacks_registers_bottom_up() {
    let mut cpu = CPU::with_program(vec![Instruction::Push.encode()]);
    for i in 0..10 {
        cpu.set_register(i, 50 + i as i128);
    }
    assert_eq!(run_to_halt(&mut cpu), HaltOutcome::NaturalEnd);
    assert_eq!(cpu.stack_len(), 10);
    for i in 0..10usize {
        assert_eq!(cpu.stack_value(i), 50 + i as i128);
    }
}

#[test]
fn pop_on_empty_stack_underflows() {
    let mut cpu = CPU::with_program(vec![
        Instruction::Pop.encode(),
        Instruction::L1.encode(),
    ]);
    assert_eq!(run_to_halt(&mut cpu), HaltOutcome::StackUnderflow);
    // The halt is immediate: the L1 after the POP never ran.
    assert_eq!(cpu.program_counter(), 0);
    assert_eq!(registers(&cpu), vec![0i128; 10]);
}

#[test]
fn second_pop_underflows_after_round_trip() {
    let mut cpu = CPU::with_program(vec![
        Instruction::Push.encode(),
        Instruction::Pop.encode(),
        Instruction::Pop.encode(),
    ]);
    cpu.set_register(7, 77);
    assert_eq!(run_to_halt(&mut cpu), HaltOutcome::StackUnderflow);
    assert_eq!(cpu.register(7), 77);
    assert_eq!(cpu.stack_len(), 0);
    assert_eq!(cpu.program_counter(), 2);
}

#[test]
fn concrete_trace_load_rotate_load_add() {
    let program = vec![
        Instruction::L1.encode(),
        Instruction::ShiftRR.encode(),
        Instruction::L1.encode(),
        Instruction::Add.encode(),
    ];
    assert_eq!(program, vec![10, 11, 10, 0]);
    let mut cpu = CPU::with_program(program);
    assert_eq!(cpu.step(), StepOutcome::Running);
    assert_eq!(cpu.register(0), 1);
    assert_eq!(cpu.step(), StepOutcome::Running);
    assert_eq!(cpu.register(0), 0);
    assert_eq!(cpu.register(1), 1);
    assert_eq!(cpu.step(), StepOutcome::Running);
    assert_eq!(cpu.register(0), 1);
    assert_eq!(cpu.step(), StepOutcome::Running);
    assert_eq!(cpu.register(2), 2);
    assert_eq!(cpu.step(), StepOutcome::Halted(HaltOutcome::NaturalEnd));
    assert_eq!(cpu.register(0), 1);
    assert_eq!(cpu.register(1), 1);
    assert_eq!(cpu.register(2), 2);
    assert_eq!(cpu.program_counter(), 4);
}

#[test]
fn unknown_byte_is_a_decode_error() {
    let mut cpu = CPU::with_program(vec![
        Instruction::Noop.encode(),
        255,
        Instruction::L1.encode(),
    ]);
    assert_eq!(
        run_to_halt(&mut cpu),
        HaltOutcome::DecodeError { byte: 255, position: 1 }
    );
    // Nothing after the bad byte ran.
    assert_eq!(cpu.register(0), 0);
    assert_eq!(cpu.program_counter(), 1);
}

#[test]
fn byte_16_is_a_decode_error() {
    let mut cpu = CPU::with_program(vec![16]);
    assert_eq!(
        run_to_halt(&mut cpu),
        HaltOutcome::DecodeError { byte: 16, position: 0 }
    );
}

#[test]
fn lea_reads_a_program_byte() {
    let mut cpu = CPU::with_program(vec![
        Instruction::Lea.encode(),
        Instruction::Noop.encode(),
    ]);
    cpu.set_register(2, 1);
    assert_eq!(run_to_halt(&mut cpu), HaltOutcome::NaturalEnd);
    assert_eq!(cpu.register(0), Instruction::Noop.encode() as i128);
}

#[test]
fn lea_out_of_bounds_halts() {
    let mut cpu = CPU::with_program(vec![Instruction::Lea.encode()]);
    cpu.set_register(2, 5);
    assert_eq!(
        run_to_halt(&mut cpu),
        HaltOutcome::OutOfBoundsRead { index: 5, position: 0 }
    );
    assert_eq!(cpu.register(0), 0);
}

#[test]
fn lea_negative_index_halts() {
    let mut cpu = CPU::with_program(vec![Instruction::Lea.encode()]);
    cpu.set_register(2, -1);
    assert_eq!(run_to_halt(&mut cpu), HaltOutcome::InvalidJumpTarget);
}

#[test]
fn jmp_sets_the_counter() {
    // Jump over the EXIT straight to the L1 at position 2.
    let mut cpu = CPU::with_program(vec![
        Instruction::Jmp.encode(),
        Instruction::Exit.encode(),
        Instruction::L1.encode(),
    ]);
    cpu.set_register(2, 2);
    assert_eq!(run_to_halt(&mut cpu), HaltOutcome::NaturalEnd);
    assert_eq!(cpu.register(0), 1);
    assert_eq!(cpu.program_counter(), 3);
}

#[test]
fn jmp_negative_target_halts() {
    let mut cpu = CPU::with_program(vec![Instruction::Jmp.encode()]);
    cpu.set_register(2, -5);
    assert_eq!(run_to_halt(&mut cpu), HaltOutcome::InvalidJumpTarget);
}

#[test]
fn jmp_loop_exhausts_any_step_budget() {
    // JMP back to itself: the machine never halts, so a bounded run
    // reports that the budget ran out.
    let mut cpu = CPU::with_program(vec![Instruction::Jmp.encode()]);
    assert_eq!(cpu.run(1000), None);
    assert_eq!(cpu.program_counter(), 0);
}

#[test]
fn run_budget_is_monotone() {
    let program = vec![
        Instruction::Noop.encode(),
        Instruction::Noop.encode(),
        Instruction::Exit.encode(),
    ];
    let mut short = CPU::with_program(program.clone());
    assert_eq!(short.run(2), None);
    let mut exact = CPU::with_program(program.clone());
    assert_eq!(exact.run(3), Some(HaltOutcome::ExplicitExit));
    let mut ample = CPU::with_program(program);
    assert_eq!(ample.run(1000), Some(HaltOutcome::ExplicitExit));
}

#[test]
fn exit_halts_explicitly() {
    let mut cpu = CPU::with_program(vec![
        Instruction::Exit.encode(),
        Instruction::L1.encode(),
    ]);
    assert_eq!(run_to_halt(&mut cpu), HaltOutcome::ExplicitExit);
    assert_eq!(cpu.register(0), 0);
    assert_eq!(cpu.program_counter(), 0);
}

#[test]
fn own_address_loads_the_counter() {
    let mut cpu = CPU::with_program(vec![
        Instruction::Noop.encode(),
        Instruction::Noop.encode(),
        Instruction::OwnAddress.encode(),
    ]);
    assert_eq!(run_to_halt(&mut cpu), HaltOutcome::NaturalEnd);
    assert_eq!(cpu.register(0), 2);
}

#[test]
fn l0_and_l1_load_register_0() {
    let mut cpu = CPU::with_program(vec![
        Instruction::L1.encode(),
        Instruction::L0.encode(),
    ]);
    assert_eq!(cpu.step(), StepOutcome::Running);
    assert_eq!(cpu.register(0), 1);
    assert_eq!(cpu.step(), StepOutcome::Running);
    assert_eq!(cpu.register(0), 0);
}
