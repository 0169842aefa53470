use asm24::ast::{Instr, Op};
use asm24::symbol::{lookup_symbol, replace_symbols, strip_symbols, SymbolError, SymbolTable};

#[test]
fn test_strip_symbols() {
    let prg = vec![Instr::Label("start".to_string())];

    let (stripped, symbols) = strip_symbols(&prg).unwrap();
    assert_eq!(stripped.len(), 0);
    assert_eq!(symbols.get("start").unwrap(), 0u16);
}

#[test]
fn test_replace_symbols() {
    let prg = vec![Instr::Jmp {
        imm: Op::Label("start".to_string()),
    }];
    let mut symbols = SymbolTable::new();
    symbols.insert("start".to_string(), 0);

    let replaced = replace_symbols(&prg, &symbols).ok().unwrap();

    assert_eq!(replaced[0], Instr::Jmp { imm: Op::Imm12(0) });
}

#[test]
fn strip_without_labels_is_identity() {
    let prg = vec![
        Instr::Nop,
        Instr::Addi { rd: Op::Reg(1), rs1: Op::Reg(0), imm: Op::Imm8(3) },
        Instr::Jmp { imm: Op::Imm12(0) },
    ];
    let (stripped, symbols) = strip_symbols(&prg).unwrap();
    assert_eq!(stripped, prg);
    assert!(symbols.is_empty());
}

#[test]
fn strip_records_addresses_after_stripping() {
    let prg = vec![
        Instr::Label("a".to_string()),
        Instr::Nop,
        Instr::Label("b".to_string()),
        Instr::Label("c".to_string()),
        Instr::Halt,
        Instr::Label("d".to_string()),
    ];
    let (stripped, symbols) = strip_symbols(&prg).unwrap();
    assert_eq!(stripped, vec![Instr::Nop, Instr::Halt]);
    assert_eq!(symbols.get("a"), Some(0));
    assert_eq!(symbols.get("b"), Some(1));
    assert_eq!(symbols.get("c"), Some(1));
    assert_eq!(symbols.get("d"), Some(2));
    assert_eq!(symbols.get("e"), None);
    assert!(!symbols.is_empty());
}

#[test]
fn duplicate_label_fails_wherever_it_stands() {
    let first = vec![
        Instr::Label("x".to_string()),
        Instr::Label("x".to_string()),
        Instr::Halt,
    ];
    assert_eq!(strip_symbols(&first).err(), Some(SymbolError::Duplicate("x".to_string())));
    let apart = vec![
        Instr::Nop,
        Instr::Label("x".to_string()),
        Instr::Nop,
        Instr::Label("y".to_string()),
        Instr::Nop,
        Instr::Label("x".to_string()),
    ];
    assert_eq!(strip_symbols(&apart).err(), Some(SymbolError::Duplicate("x".to_string())));
}

#[test]
fn undeclared_label_fails_replacement() {
    let mut symbols = SymbolTable::new();
    symbols.insert("known".to_string(), 3);
    for branch in [
        Instr::Jmp { imm: Op::Label("missing".to_string()) },
        Instr::Bz { imm: Op::Label("missing".to_string()) },
        Instr::Bnz { imm: Op::Label("missing".to_string()) },
    ] {
        let prg = vec![Instr::Bz { imm: Op::Label("known".to_string()) }, branch];
        assert_eq!(
            replace_symbols(&prg, &symbols).err(),
            Some(SymbolError::Undefined("missing".to_string()))
        );
    }
}

#[test]
fn replace_resolves_every_branch_kind() {
    let mut symbols = SymbolTable::new();
    assert!(symbols.insert("top".to_string(), 7));
    assert!(!symbols.insert("top".to_string(), 9));
    let prg = vec![
        Instr::Jmp { imm: Op::Label("top".to_string()) },
        Instr::Bz { imm: Op::Label("top".to_string()) },
        Instr::Bnz { imm: Op::Label("top".to_string()) },
        Instr::Bnz { imm: Op::Imm12(2) },
        Instr::Halt,
    ];
    assert_eq!(
        replace_symbols(&prg, &symbols).unwrap(),
        vec![
            Instr::Jmp { imm: Op::Imm12(7) },
            Instr::Bz { imm: Op::Imm12(7) },
            Instr::Bnz { imm: Op::Imm12(7) },
            Instr::Bnz { imm: Op::Imm12(2) },
            Instr::Halt,
        ]
    );
}

#[test]
fn unstripped_label_fails_replacement() {
    let prg = vec![Instr::Label("l".to_string())];
    assert_eq!(
        replace_symbols(&prg, &SymbolTable::new()).err(),
        Some(SymbolError::Unstripped("l".to_string()))
    );
}

#[test]
fn declared_targets_resolve_without_labels() {
    let prg = vec![
        Instr::Jmp { imm: Op::Label("end".to_string()) },
        Instr::Label("loop".to_string()),
        Instr::Bnz { imm: Op::Label("loop".to_string()) },
        Instr::Label("end".to_string()),
        Instr::Halt,
    ];
    let (stripped, symbols) = strip_symbols(&prg).unwrap();
    let resolved = replace_symbols(&stripped, &symbols).unwrap();
    assert_eq!(
        resolved,
        vec![
            Instr::Jmp { imm: Op::Imm12(2) },
            Instr::Bnz { imm: Op::Imm12(1) },
            Instr::Halt,
        ]
    );
}

#[test]
fn lookup_reports_undefined() {
    let mut symbols = SymbolTable::new();
    symbols.insert("here".to_string(), 12);
    assert_eq!(lookup_symbol(&"here".to_string(), &symbols), Ok(12));
    assert_eq!(
        lookup_symbol(&"there".to_string(), &symbols),
        Err(SymbolError::Undefined("there".to_string()))
    );
}
