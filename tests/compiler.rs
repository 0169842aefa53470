use asm24::ast::{Instr, Op};
use asm24::compiler::{compile_program, CompileError};
use asm24::interpreter::interpret_program;
use asm24::parser::{parse_line, parse_program, ParserError};
use asm24::symbol::SymbolError;

#[test]
fn test_compiler() {}

#[test]
fn test_parser() {
    // Simple Halt
    let input = "halt";
    assert_eq!(parse_line(input).ok().unwrap(), ("", vec![Instr::Halt]));

    // Basic addi r0, r0, 0
    let input = "addi r0, r0, 0";
    assert_eq!(
        parse_line(input).ok().unwrap(),
        (
            "",
            vec![Instr::Addi {
                rd: Op::Reg(0),
                rs1: Op::Reg(0),
                imm: Op::Imm8(0),
            }]
        )
    );

    // Malformed mv
    let input = "mv r0, 0";
    assert!(parse_line(input).err().is_some());

    // Label
    let input = "loop:";
    assert_eq!(
        parse_line(input).ok().unwrap(),
        ("", vec![Instr::Label("loop".to_string())])
    );

    // Jump to label
    let input = "jmp loop";
    assert_eq!(
        parse_line(input).ok().unwrap(),
        (
            "",
            vec![Instr::Jmp {
                imm: Op::Label("loop".to_string())
            }]
        )
    )
}

#[test]
fn parse_line_forms() {
    assert_eq!(
        parse_line("  ADDI r1,r0,0x1F").unwrap().1,
        vec![Instr::Addi { rd: Op::Reg(1), rs1: Op::Reg(0), imm: Op::Imm8(31) }]
    );
    assert_eq!(
        parse_line("Sub r3, r2,\tr1").unwrap().1,
        vec![Instr::Sub { rd: Op::Reg(3), rs1: Op::Reg(2), rs2: Op::Reg(1) }]
    );
    assert_eq!(
        parse_line("not r4, r5").unwrap().1,
        vec![Instr::Not { rd: Op::Reg(4), rs1: Op::Reg(5) }]
    );
    assert_eq!(parse_line("bz 4095").unwrap().1, vec![Instr::Bz { imm: Op::Imm12(4095) }]);
    assert_eq!(parse_line("bnz 0xFFF").unwrap().1, vec![Instr::Bnz { imm: Op::Imm12(4095) }]);
    // Register numbers are not range-checked by the parser.
    assert_eq!(
        parse_line("mv r200, r1").unwrap().1,
        vec![Instr::Mv { rd: Op::Reg(200), rs1: Op::Reg(1) }]
    );
    // What follows the operands is left unread.
    assert_eq!(parse_line("nop ; idle").unwrap(), ("; idle", vec![Instr::Nop]));
}

#[test]
fn parse_line_failures() {
    // Out-of-range immediates.
    assert_eq!(parse_line("addi r1, r0, 256"), Err(5));
    assert_eq!(parse_line("jmp 4096"), Err(4));
    assert_eq!(parse_line("jmp 0x1000"), Err(4));
    assert_eq!(parse_line("mv r256, r1"), Err(3));
    // Unknown mnemonic, no mnemonic.
    assert_eq!(parse_line("  mul r1, r2, r3"), Err(2));
    assert_eq!(parse_line("42"), Err(0));
    // A space before the comma does not match.
    assert_eq!(parse_line("add r1 , r2, r3"), Err(4));
}

#[test]
fn parse_program_skips_blank_and_comment_lines() {
    let src = "; a comment\n\n   \nstart:\r\n  addi r1, r0, 1\n  ; another\n  jmp start\n";
    let prg = parse_program(src).unwrap();
    assert_eq!(
        prg,
        vec![
            Instr::Label("start".to_string()),
            Instr::Addi { rd: Op::Reg(1), rs1: Op::Reg(0), imm: Op::Imm8(1) },
            Instr::Jmp { imm: Op::Label("start".to_string()) },
        ]
    );
    assert_eq!(parse_program("").unwrap(), vec![]);
}

#[test]
fn parse_program_reports_line_number() {
    let src = "halt\n\n; note\nfoo r1, r2\nhalt";
    assert_eq!(parse_program(src), Err(ParserError::Error(4, "foo r1, r2".to_string())));
    let src = "nop\naddi r1, r0, 300";
    assert_eq!(parse_program(src), Err(ParserError::Error(2, "r1, r0, 300".to_string())));
}

#[test]
fn compile_resolves_labels() {
    let src = "start:\n addi r1, r1, 1\n bnz start\n jmp end\n nop\nend:\n halt";
    let prg = compile_program(src).unwrap();
    assert_eq!(
        prg,
        vec![
            Instr::Addi { rd: Op::Reg(1), rs1: Op::Reg(1), imm: Op::Imm8(1) },
            Instr::Bnz { imm: Op::Imm12(0) },
            Instr::Jmp { imm: Op::Imm12(4) },
            Instr::Nop,
            Instr::Halt,
        ]
    );
}

#[test]
fn compile_errors() {
    assert_eq!(
        compile_program("halt\nbogus"),
        Err(CompileError::Parse(ParserError::Error(2, "bogus".to_string())))
    );
    assert_eq!(
        compile_program("a:\nnop\na:\nhalt"),
        Err(CompileError::Symbol(SymbolError::Duplicate("a".to_string())))
    );
    assert_eq!(
        compile_program("jmp nowhere"),
        Err(CompileError::Symbol(SymbolError::Undefined("nowhere".to_string())))
    );
}

#[test]
fn compile_and_run_fibonacci() {
    let src = "\
; Fibonacci: r3 ends as the fifth term after 0, 1
    addi r1, r0, 0
    addi r2, r0, 1
    addi r4, r0, 5
loop:
    add r3, r1, r2
    mv r1, r2
    mv r2, r3
    addi r4, r4, 255 ; count down
    bnz loop
    halt
";
    let prg = compile_program(src).unwrap();
    let (res, state) = interpret_program(prg, None);
    assert!(res.is_none());
    assert_eq!(state.regs.r(3).unwrap(), 8);
}

#[test]
fn sample_program_from_text() {
    let prg = compile_program("Addi r1,r0,2\nAddi r2,r0,2\nAdd r3,r1,r2\nHalt").unwrap();
    let (res, state) = interpret_program(prg, None);
    assert!(res.is_none());
    assert_eq!(state.regs.r(3), Some(4));
}

#[test]
fn compile_rejects_programs_beyond_the_address_space() {
    let fits = "nop\n".repeat(65536);
    assert_eq!(compile_program(&fits).unwrap().len(), 65536);
    let over = "nop\n".repeat(65537);
    assert_eq!(compile_program(&over), Err(CompileError::TooLarge(65537)));
}
