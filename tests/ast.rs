use asm24::ast::{Instr, Op};

#[test]
fn render_operands() {
    assert_eq!(Op::Reg(7).render(), "r7");
    assert_eq!(Op::Imm8(255).render(), "255");
    assert_eq!(Op::Imm12(4095).render(), "4095");
    assert_eq!(Op::Imm12(0).render(), "0");
    assert_eq!(Op::Label("loop".to_string()).render(), "loop");
}

#[test]
fn render_instructions() {
    assert_eq!(Instr::Label("start".to_string()).render(), "start:");
    assert_eq!(Instr::Halt.render(), "halt");
    assert_eq!(Instr::Nop.render(), "nop");
    assert_eq!(Instr::Mv { rd: Op::Reg(1), rs1: Op::Reg(2) }.render(), "mv r1, r2");
    assert_eq!(
        Instr::Add { rd: Op::Reg(1), rs1: Op::Reg(2), rs2: Op::Reg(13) }.render(),
        "add r1, r2, r13"
    );
    assert_eq!(
        Instr::Xori { rd: Op::Reg(1), rs1: Op::Reg(0), imm: Op::Imm8(42) }.render(),
        "xori r1, r0, 42"
    );
    assert_eq!(Instr::Bnz { imm: Op::Label("top".to_string()) }.render(), "bnz top");
    assert_eq!(Instr::Jmp { imm: Op::Imm12(100) }.render(), "jmp 100");
}

#[test]
fn constructed_instructions_compare_structurally() {
    let a = Instr::Addi { rd: Op::Reg(1), rs1: Op::Reg(0), imm: Op::Imm8(2) };
    let b = Instr::Addi { rd: Op::Reg(1), rs1: Op::Reg(0), imm: Op::Imm8(2) };
    assert_eq!(a, b);
    assert_eq!(a.clone(), a);
    assert_ne!(a, Instr::Addi { rd: Op::Reg(1), rs1: Op::Reg(0), imm: Op::Imm8(3) });
    // The same text, two different instructions.
    assert_ne!(Op::Imm8(5), Op::Imm12(5));
    assert_eq!(Op::Imm8(5).render(), Op::Imm12(5).render());
    let l = Instr::Jmp { imm: Op::Label("x".to_string()) };
    assert_eq!(l.clone(), l);
}
