use asm24::ast::{Instr, Op};
use asm24::encoder::{encode, encode_program, AsmError, InstrBuilder};

#[test]
fn test_encode() {
    // Halt instruction (all 0's)
    assert_eq!(encode(&Instr::Halt).unwrap(), 0);

    // Basic addi r0, r0, 0
    let code = encode(&Instr::Addi {
        rd: Op::Reg(0),
        rs1: Op::Reg(0),
        imm: Op::Imm8(0),
    })
    .unwrap();
    assert_eq!(code, 0b00000000_0000_0000_00_000001);

    // Nop instruction (equal to addi r0, r0, 0)
    assert_eq!(encode(&Instr::Nop).unwrap(), code)
}

#[test]
fn builder_fields_land_in_their_bits() {
    assert_eq!(InstrBuilder::new().finalize(), 0);
    assert_eq!(InstrBuilder::new().opcode(0x3F).finalize(), 0x3F);
    assert_eq!(InstrBuilder::new().fun2(3).finalize(), 0xC0);
    assert_eq!(InstrBuilder::new().rd(0xF).finalize(), 0xF00);
    assert_eq!(InstrBuilder::new().rs1(0xF).finalize(), 0xF000);
    assert_eq!(InstrBuilder::new().rs2(0xF).finalize(), 0xF0000);
    assert_eq!(InstrBuilder::new().fun4(0xF).finalize(), 0xF00000);
    assert_eq!(InstrBuilder::new().imm8(0xAB).finalize(), 0xAB0000);
    assert_eq!(InstrBuilder::new().imm12(0xABC).finalize(), 0xABC000);
}

#[test]
fn builder_setters_mask_their_values() {
    assert_eq!(InstrBuilder::new().opcode(0xFF).finalize(), 0x3F);
    assert_eq!(InstrBuilder::new().rd(0x1F).finalize(), 0xF00);
    assert_eq!(InstrBuilder::new().imm12(0xFFFF).finalize(), 0xFFF000);
}

#[test]
fn builder_fields_are_order_independent() {
    let a = InstrBuilder::new().opcode(5).rd(3).rs1(9).imm8(0x42).finalize();
    let b = InstrBuilder::new().imm8(0x42).rs1(9).rd(3).opcode(5).finalize();
    assert_eq!(a, b);
    assert_eq!(a, 0x42_9_3_05);
    // Setting a field again replaces it and only it.
    let c = InstrBuilder::new().opcode(5).rd(3).rs1(9).imm8(0x42).rd(7).finalize();
    assert_eq!(c, 0x42_9_7_05);
    let d = InstrBuilder::new().imm8(0xFF).fun4(0).finalize();
    assert_eq!(d, 0x0F0000);
}

#[test]
fn encode_layouts() {
    let addi = Instr::Addi { rd: Op::Reg(1), rs1: Op::Reg(2), imm: Op::Imm8(0x7F) };
    assert_eq!(encode(&addi).unwrap(), 0x7F_2_1_01);
    let mv = Instr::Mv { rd: Op::Reg(3), rs1: Op::Reg(4) };
    assert_eq!(encode(&mv).unwrap(), 0x00_4_3_01);
    let add = Instr::Add { rd: Op::Reg(1), rs1: Op::Reg(2), rs2: Op::Reg(3) };
    assert_eq!(encode(&add).unwrap(), 0x03_2_1_02);
    let sub = Instr::Sub { rd: Op::Reg(15), rs1: Op::Reg(14), rs2: Op::Reg(13) };
    assert_eq!(encode(&sub).unwrap(), 0x0D_E_F_03);
    let jmp = Instr::Jmp { imm: Op::Imm12(0xABC) };
    assert_eq!(encode(&jmp).unwrap(), 0xABC_0_04);
}

#[test]
fn encode_errors() {
    let bad_kind = Instr::Add { rd: Op::Reg(1), rs1: Op::Imm8(2), rs2: Op::Reg(3) };
    assert_eq!(encode(&bad_kind), Err(AsmError::InvalidOperand(bad_kind.clone())));
    let unresolved = Instr::Jmp { imm: Op::Label("x".to_string()) };
    assert_eq!(encode(&unresolved), Err(AsmError::InvalidOperand(unresolved.clone())));
    let not = Instr::Not { rd: Op::Reg(1), rs1: Op::Reg(2) };
    assert_eq!(encode(&not), Err(AsmError::UnknownInstruction(not.clone())));
    let far = Instr::Jmp { imm: Op::Imm12(4096) };
    assert_eq!(encode(&far), Err(AsmError::ImmOverflow(4096)));
    let high = Instr::Add { rd: Op::Reg(1), rs1: Op::Reg(2), rs2: Op::Reg(16) };
    assert_eq!(encode(&high), Err(AsmError::InvalidRegister(16)));
    let high_rd = Instr::Mv { rd: Op::Reg(20), rs1: Op::Reg(30) };
    assert_eq!(encode(&high_rd), Err(AsmError::InvalidRegister(20)));
}

#[test]
fn encode_program_keeps_order() {
    let prg = vec![
        Instr::Addi { rd: Op::Reg(1), rs1: Op::Reg(0), imm: Op::Imm8(2) },
        Instr::Jmp { imm: Op::Imm12(0) },
        Instr::Halt,
    ];
    assert_eq!(encode_program(&prg).unwrap(), vec![0x02_0_1_01, 0x000_0_04, 0]);
    assert_eq!(encode_program(&[]).unwrap(), Vec::<u32>::new());
}

#[test]
fn encode_program_stops_at_first_error() {
    let prg = vec![
        Instr::Halt,
        Instr::Xor { rd: Op::Reg(1), rs1: Op::Reg(1), rs2: Op::Reg(1) },
        Instr::Jmp { imm: Op::Imm12(5000) },
    ];
    assert!(matches!(encode_program(&prg), Err(AsmError::UnknownInstruction(_))));
}
