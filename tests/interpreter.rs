use asm24::ast::{Instr, Op};
use asm24::interpreter::{interpret_bounded, interpret_program};
use asm24::state::{Flags, Registers, State};
use asm24::vm::{inbounds_add, inbounds_sub, interpret, InterpreterError, RegisterAccess};

#[test]
fn test_interpret_sample_program() {
    // 2 + 2
    let prg = vec![
        Instr::Addi {
            rd: Op::Reg(1),
            rs1: Op::Reg(0),
            imm: Op::Imm8(2),
        },
        Instr::Addi {
            rd: Op::Reg(2),
            rs1: Op::Reg(0),
            imm: Op::Imm8(2),
        },
        Instr::Add {
            rd: Op::Reg(3),
            rs1: Op::Reg(1),
            rs2: Op::Reg(2),
        },
        Instr::Halt,
    ];
    let (status, state) = interpret_program(prg, None);
    assert!(status.is_none());
    assert_eq!(state.regs.r(3).unwrap(), 4);
}

#[test]
fn test_interpreter() {
    let mut state = State::new();
    // Basic instruction
    let instr = Instr::Addi {
        rd: Op::Reg(1),
        rs1: Op::Reg(0),
        imm: Op::Imm8(2),
    };
    assert!(interpret(&instr, &mut state).ok().unwrap().is_some());
    assert_eq!(state.regs.r(1).unwrap(), 2);

    // Halting
    let instr = Instr::Halt;
    assert!(interpret(&instr, &mut State::new()).ok().unwrap().is_none());

    // Branching
    let instr = Instr::Jmp {
        imm: Op::Imm12(0xf),
    };
    assert_eq!(interpret(&instr, &mut state).ok().unwrap(), Some(0xf));
}

#[test]
fn test_interpreter_errors() {
    // Invalid operand
    let instr = Instr::Mv {
        rd: Op::Reg(0),
        rs1: Op::Imm8(0),
    };
    assert!(interpret(&instr, &mut State::new()).err().is_some());

    // Invalid register
    let instr = Instr::Addi {
        rd: Op::Reg(0),
        rs1: Op::Reg(16),
        imm: Op::Imm8(32),
    };
    assert!(interpret(&instr, &mut State::new()).err().is_some());
}

fn reg(n: u8) -> Op {
    Op::Reg(n)
}

#[test]
fn default_state() {
    let s = State::new();
    assert_eq!(s.pc, 0);
    for r in 0..16u8 {
        assert_eq!(s.regs.r(r), Some(0));
    }
    assert!(s.flags.zero);
    assert!(!s.flags.overflow);
    let d = State::default();
    assert_eq!(d.pc, 0);
    assert!(d.flags.zero && !d.flags.overflow);
    let f = Flags::from((false, true));
    assert!(!f.zero && f.overflow);
}

#[test]
fn wraparound_sets_overflow() {
    let mut s = State::new();
    let first = Instr::Addi { rd: reg(1), rs1: reg(0), imm: Op::Imm8(255) };
    let second = Instr::Addi { rd: reg(1), rs1: reg(1), imm: Op::Imm8(1) };
    assert_eq!(interpret(&first, &mut s), Ok(Some(1)));
    assert_eq!(s.regs.r(1), Some(255));
    assert!(!s.flags.overflow && !s.flags.zero);
    assert_eq!(interpret(&second, &mut s), Ok(Some(1)));
    assert_eq!(s.regs.r(1), Some(0));
    assert!(s.flags.overflow);
    assert!(s.flags.zero);
}

#[test]
fn flag_arithmetic() {
    assert_eq!(inbounds_add(200, 55), (255, false));
    assert_eq!(inbounds_add(200, 56), (0, true));
    assert_eq!(inbounds_add(255, 255), (254, true));
    assert_eq!(inbounds_sub(5, 3), (2, false));
    assert_eq!(inbounds_sub(3, 5), (254, true));
    assert_eq!(inbounds_sub(0, 0), (0, false));
}

#[test]
fn alu_semantics() {
    let mut s = State::new();
    s.regs.w(1, 0b1100).unwrap();
    s.regs.w(2, 0b1010).unwrap();
    let cases = [
        (Instr::And { rd: reg(3), rs1: reg(1), rs2: reg(2) }, 0b1000u8),
        (Instr::Or { rd: reg(3), rs1: reg(1), rs2: reg(2) }, 0b1110),
        (Instr::Xor { rd: reg(3), rs1: reg(1), rs2: reg(2) }, 0b0110),
        (Instr::Sub { rd: reg(3), rs1: reg(1), rs2: reg(2) }, 2),
        (Instr::Andi { rd: reg(3), rs1: reg(1), imm: Op::Imm8(0b0100) }, 0b0100),
        (Instr::Ori { rd: reg(3), rs1: reg(1), imm: Op::Imm8(0b0001) }, 0b1101),
        (Instr::Xori { rd: reg(3), rs1: reg(1), imm: Op::Imm8(0b1111) }, 0b0011),
        (Instr::Not { rd: reg(3), rs1: reg(1) }, 0b1111_0011),
        (Instr::Mv { rd: reg(3), rs1: reg(2) }, 0b1010),
    ];
    for (instr, expected) in cases.iter() {
        assert_eq!(interpret(instr, &mut s), Ok(Some(1)));
        assert_eq!(s.regs.r(3), Some(*expected));
        assert!(!s.flags.zero);
        assert!(!s.flags.overflow);
    }
    // Subtraction that underflows.
    let under = Instr::Sub { rd: reg(4), rs1: reg(2), rs2: reg(1) };
    assert_eq!(interpret(&under, &mut s), Ok(Some(1)));
    assert_eq!(s.regs.r(4), Some(254));
    assert!(s.flags.overflow);
    // Zero results set the zero flag; mv takes it from the source.
    let clear = Instr::Xor { rd: reg(5), rs1: reg(1), rs2: reg(1) };
    assert_eq!(interpret(&clear, &mut s), Ok(Some(1)));
    assert!(s.flags.zero);
    let mv_zero = Instr::Mv { rd: reg(6), rs1: reg(0) };
    s.flags = Flags { zero: false, overflow: true };
    assert_eq!(interpret(&mv_zero, &mut s), Ok(Some(1)));
    assert!(s.flags.zero && !s.flags.overflow);
}

#[test]
fn branches_follow_zero_flag() {
    let mut s = State::new();
    s.pc = 7;
    s.flags = Flags { zero: true, overflow: true };
    assert_eq!(interpret(&Instr::Bz { imm: Op::Imm12(40) }, &mut s), Ok(Some(40)));
    assert_eq!(interpret(&Instr::Bnz { imm: Op::Imm12(40) }, &mut s), Ok(Some(8)));
    assert!(s.flags.zero && s.flags.overflow);
    s.flags = Flags { zero: false, overflow: false };
    assert_eq!(interpret(&Instr::Bz { imm: Op::Imm12(40) }, &mut s), Ok(Some(8)));
    assert_eq!(interpret(&Instr::Bnz { imm: Op::Imm12(40) }, &mut s), Ok(Some(40)));
    assert_eq!(interpret(&Instr::Jmp { imm: Op::Imm12(3) }, &mut s), Ok(Some(3)));
    assert!(s.flags.zero && !s.flags.overflow);
    s.flags = Flags { zero: false, overflow: true };
    assert_eq!(interpret(&Instr::Nop, &mut s), Ok(Some(8)));
    assert!(s.flags.zero && !s.flags.overflow);
    s.pc = 0xFFFF;
    assert_eq!(interpret(&Instr::Nop, &mut s), Ok(Some(0)));
}

#[test]
fn interpreter_fault_kinds() {
    let mut s = State::new();
    s.regs.w(1, 9).unwrap();
    let label = Instr::Label("l".to_string());
    assert_eq!(interpret(&label, &mut s), Err(InterpreterError::InvalidInstruction(label.clone())));
    let bad = Instr::Bz { imm: Op::Label("l".to_string()) };
    assert_eq!(interpret(&bad, &mut s), Err(InterpreterError::InvalidOperands(bad.clone())));
    let bad = Instr::Addi { rd: reg(1), rs1: reg(1), imm: reg(2) };
    assert_eq!(interpret(&bad, &mut s), Err(InterpreterError::InvalidOperands(bad.clone())));
    let bad = Instr::Add { rd: reg(1), rs1: reg(1), rs2: Op::Imm8(2) };
    assert_eq!(interpret(&bad, &mut s), Err(InterpreterError::InvalidOperands(bad.clone())));
    // A fault leaves the state as it was.
    assert_eq!(s.regs.r(1), Some(9));
    assert!(s.flags.zero);
}

#[test]
fn register_zero_stays_zero() {
    let mut s = State::new();
    s.regs.w(1, 77).unwrap();
    let writes = [
        Instr::Addi { rd: reg(0), rs1: reg(1), imm: Op::Imm8(5) },
        Instr::Mv { rd: reg(0), rs1: reg(1) },
        Instr::Not { rd: reg(0), rs1: reg(1) },
        Instr::Add { rd: reg(0), rs1: reg(1), rs2: reg(1) },
    ];
    for instr in writes.iter() {
        assert_eq!(interpret(instr, &mut s), Ok(Some(1)));
        assert_eq!(s.regs.r(0), Some(0));
        assert_eq!(s.regs.r(1), Some(77));
    }
    let mut regs = Registers::default();
    assert_eq!(regs.w(0, 200), Ok(()));
    assert_eq!(regs.r(0), Some(0));
    assert_eq!(regs.0, [0u8; 15]);
}

#[test]
fn register_index_out_of_range() {
    let mut s = State::new();
    let cases = [
        Instr::Mv { rd: reg(16), rs1: reg(1) },
        Instr::Not { rd: reg(1), rs1: reg(16) },
        Instr::Add { rd: reg(1), rs1: reg(2), rs2: reg(255) },
        Instr::Xori { rd: reg(32), rs1: reg(2), imm: Op::Imm8(1) },
    ];
    let expected = [16u8, 16, 255, 32];
    for (instr, r) in cases.iter().zip(expected.iter()) {
        assert_eq!(interpret(instr, &mut s), Err(InterpreterError::InvalidRegister(*r)));
    }
    assert_eq!(s.regs.r(16), None);
    assert!(s.regs.w(16, 1).is_err());
    assert_eq!(s.regs.read_err(16), Err(InterpreterError::InvalidRegister(16)));
    assert_eq!(s.regs.write_err(17, 1), Err(InterpreterError::InvalidRegister(17)));
    assert_eq!(s.regs.write_err(15, 1), Ok(()));
    assert_eq!(s.regs.read_err(15), Ok(1));
}

#[test]
fn jump_out_of_bounds_faults() {
    let prg = vec![Instr::Nop, Instr::Jmp { imm: Op::Imm12(10) }, Instr::Halt];
    let (status, state) = interpret_program(prg, None);
    assert_eq!(status, Some(InterpreterError::PCOutOfBounds(10)));
    assert_eq!(state.pc, 10);
    let (status, _) = interpret_program(vec![], None);
    assert_eq!(status, Some(InterpreterError::PCOutOfBounds(0)));
}

#[test]
fn run_from_given_state() {
    let mut start = State::new();
    start.pc = 1;
    start.regs.w(2, 40).unwrap();
    let prg = vec![Instr::Halt, Instr::Addi { rd: reg(2), rs1: reg(2), imm: Op::Imm8(2) }, Instr::Halt];
    let (status, state) = interpret_program(prg, Some(start));
    assert!(status.is_none());
    assert_eq!(state.regs.r(2), Some(42));
    assert_eq!(state.pc, 2);
}

#[test]
fn bounded_run_stops_endless_loop() {
    let prg = vec![Instr::Addi { rd: reg(1), rs1: reg(1), imm: Op::Imm8(1) }, Instr::Jmp { imm: Op::Imm12(0) }];
    let (status, state) = interpret_bounded(&prg, None, 7);
    assert_eq!(status, Some(InterpreterError::StepLimitReached));
    assert_eq!(state.regs.r(1), Some(4));
    assert_eq!(state.pc, 1);
    let (status, _) = interpret_bounded(&vec![Instr::Halt], None, 1);
    assert!(status.is_none());
    let (status, _) = interpret_bounded(&vec![Instr::Halt], None, 0);
    assert_eq!(status, Some(InterpreterError::StepLimitReached));
}
