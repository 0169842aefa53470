//! Operands and instructions.

use vstd::prelude::*;

verus! {

/// An instruction operand.
#[derive(Debug, PartialEq, Eq)]
pub enum Op {
    /// Register index.
    Reg(u8),
    /// 8-bit immediate value.
    Imm8(u8),
    /// 12-bit immediate value.
    Imm12(u16),
    /// Address label, present only before symbol resolution.
    Label(String),
}

impl Clone for Op {
    fn clone(&self) -> (r: Self)
        ensures
            r == *self,
    {
        match self {
            Op::Reg(v) => Op::Reg(*v),
            Op::Imm8(v) => Op::Imm8(*v),
            Op::Imm12(v) => Op::Imm12(*v),
            Op::Label(s) => Op::Label(s.clone()),
        }
    }
}

/// An instruction of the architecture, or a label pseudo-instruction.
#[derive(Debug, PartialEq, Eq)]
pub enum Instr {
    /// Address marker, removed by symbol stripping.
    Label(String),
    /// Terminate the program.
    Halt,
    /// No operation.
    Nop,
    /// Move (rd = rs1).
    Mv { rd: Op, rs1: Op },
    /// Bitwise NOT (rd = !rs1).
    Not { rd: Op, rs1: Op },
    /// Addition (rd = rs1 + rs2).
    Add { rd: Op, rs1: Op, rs2: Op },
    /// Subtraction (rd = rs1 - rs2).
    Sub { rd: Op, rs1: Op, rs2: Op },
    /// Bitwise AND (rd = rs1 & rs2).
    And { rd: Op, rs1: Op, rs2: Op },
    /// Bitwise OR (rd = rs1 | rs2).
    Or { rd: Op, rs1: Op, rs2: Op },
    /// Bitwise XOR (rd = rs1 ^ rs2).
    Xor { rd: Op, rs1: Op, rs2: Op },
    /// Immediate addition (rd = rs1 + imm).
    Addi { rd: Op, rs1: Op, imm: Op },
    /// Immediate bitwise AND (rd = rs1 & imm).
    Andi { rd: Op, rs1: Op, imm: Op },
    /// Immediate bitwise OR (rd = rs1 | imm).
    Ori { rd: Op, rs1: Op, imm: Op },
    /// Immediate bitwise XOR (rd = rs1 ^ imm).
    Xori { rd: Op, rs1: Op, imm: Op },
    /// Jump to an absolute address.
    Jmp { imm: Op },
    /// Jump to an absolute address if the zero flag is set.
    Bz { imm: Op },
    /// Jump to an absolute address if the zero flag is clear.
    Bnz { imm: Op },
}

impl Clone for Instr {
    fn clone(&self) -> (r: Self)
        ensures
            r == *self,
    {
        match self {
            Instr::Label(s) => Instr::Label(s.clone()),
            Instr::Halt => Instr::Halt,
            Instr::Nop => Instr::Nop,
            Instr::Mv { rd, rs1 } => Instr::Mv { rd: rd.clone(), rs1: rs1.clone() },
            Instr::Not { rd, rs1 } => Instr::Not { rd: rd.clone(), rs1: rs1.clone() },
            Instr::Add { rd, rs1, rs2 } => Instr::Add { rd: rd.clone(), rs1: rs1.clone(), rs2: rs2.clone() },
            Instr::Sub { rd, rs1, rs2 } => Instr::Sub { rd: rd.clone(), rs1: rs1.clone(), rs2: rs2.clone() },
            Instr::And { rd, rs1, rs2 } => Instr::And { rd: rd.clone(), rs1: rs1.clone(), rs2: rs2.clone() },
            Instr::Or { rd, rs1, rs2 } => Instr::Or { rd: rd.clone(), rs1: rs1.clone(), rs2: rs2.clone() },
            Instr::Xor { rd, rs1, rs2 } => Instr::Xor { rd: rd.clone(), rs1: rs1.clone(), rs2: rs2.clone() },
            Instr::Addi { rd, rs1, imm } => Instr::Addi { rd: rd.clone(), rs1: rs1.clone(), imm: imm.clone() },
            Instr::Andi { rd, rs1, imm } => Instr::Andi { rd: rd.clone(), rs1: rs1.clone(), imm: imm.clone() },
            Instr::Ori { rd, rs1, imm } => Instr::Ori { rd: rd.clone(), rs1: rs1.clone(), imm: imm.clone() },
            Instr::Xori { rd, rs1, imm } => Instr::Xori { rd: rd.clone(), rs1: rs1.clone(), imm: imm.clone() },
            Instr::Jmp { imm } => Instr::Jmp { imm: imm.clone() },
            Instr::Bz { imm } => Instr::Bz { imm: imm.clone() },
            Instr::Bnz { imm } => Instr::Bnz { imm: imm.clone() },
        }
    }
}

/// A program: its instructions in address order.
pub type Program = Vec<Instr>;

/// The mathematical view of an operand: a label is its sequence of characters.
pub enum OpV {
    Reg(u8),
    Imm8(u8),
    Imm12(u16),
    Label(Seq<char>),
}

impl View for Op {
    type V = OpV;

    open spec fn view(&self) -> OpV {
        match self {
            Op::Reg(v) => OpV::Reg(*v),
            Op::Imm8(v) => OpV::Imm8(*v),
            Op::Imm12(v) => OpV::Imm12(*v),
            Op::Label(s) => OpV::Label(s@),
        }
    }
}

/// The mathematical view of an instruction.
pub enum InstrV {
    Label(Seq<char>),
    Halt,
    Nop,
    Mv { rd: OpV, rs1: OpV },
    Not { rd: OpV, rs1: OpV },
    Add { rd: OpV, rs1: OpV, rs2: OpV },
    Sub { rd: OpV, rs1: OpV, rs2: OpV },
    And { rd: OpV, rs1: OpV, rs2: OpV },
    Or { rd: OpV, rs1: OpV, rs2: OpV },
    Xor { rd: OpV, rs1: OpV, rs2: OpV },
    Addi { rd: OpV, rs1: OpV, imm: OpV },
    Andi { rd: OpV, rs1: OpV, imm: OpV },
    Ori { rd: OpV, rs1: OpV, imm: OpV },
    Xori { rd: OpV, rs1: OpV, imm: OpV },
    Jmp { imm: OpV },
    Bz { imm: OpV },
    Bnz { imm: OpV },
}

impl View for Instr {
    type V = InstrV;

    open spec fn view(&self) -> InstrV {
        match self {
            Instr::Label(s) => InstrV::Label(s@),
            Instr::Halt => InstrV::Halt,
            Instr::Nop => InstrV::Nop,
            Instr::Mv { rd, rs1 } => InstrV::Mv { rd: rd@, rs1: rs1@ },
            Instr::Not { rd, rs1 } => InstrV::Not { rd: rd@, rs1: rs1@ },
            Instr::Add { rd, rs1, rs2 } => InstrV::Add { rd: rd@, rs1: rs1@, rs2: rs2@ },
            Instr::Sub { rd, rs1, rs2 } => InstrV::Sub { rd: rd@, rs1: rs1@, rs2: rs2@ },
            Instr::And { rd, rs1, rs2 } => InstrV::And { rd: rd@, rs1: rs1@, rs2: rs2@ },
            Instr::Or { rd, rs1, rs2 } => InstrV::Or { rd: rd@, rs1: rs1@, rs2: rs2@ },
            Instr::Xor { rd, rs1, rs2 } => InstrV::Xor { rd: rd@, rs1: rs1@, rs2: rs2@ },
            Instr::Addi { rd, rs1, imm } => InstrV::Addi { rd: rd@, rs1: rs1@, imm: imm@ },
            Instr::Andi { rd, rs1, imm } => InstrV::Andi { rd: rd@, rs1: rs1@, imm: imm@ },
            Instr::Ori { rd, rs1, imm } => InstrV::Ori { rd: rd@, rs1: rs1@, imm: imm@ },
            Instr::Xori { rd, rs1, imm } => InstrV::Xori { rd: rd@, rs1: rs1@, imm: imm@ },
            Instr::Jmp { imm } => InstrV::Jmp { imm: imm@ },
            Instr::Bz { imm } => InstrV::Bz { imm: imm@ },
            Instr::Bnz { imm } => InstrV::Bnz { imm: imm@ },
        }
    }
}

/// The views of a sequence of instructions.
pub open spec fn instrs_view(p: Seq<Instr>) -> Seq<InstrV> {
    p.map_values(|i: Instr| i@)
}

/// The character of a decimal digit.
pub open spec fn digit_char(d: nat) -> char {
    if d == 0 {
        '0'
    } else if d == 1 {
        '1'
    } else if d == 2 {
        '2'
    } else if d == 3 {
        '3'
    } else if d == 4 {
        '4'
    } else if d == 5 {
        '5'
    } else if d == 6 {
        '6'
    } else if d == 7 {
        '7'
    } else if d == 8 {
        '8'
    } else {
        '9'
    }
}

/// The decimal numeral of `n`, without leading zeros.
pub open spec fn dec_text(n: nat) -> Seq<char>
    decreases n,
{
    if n < 10 {
        seq![digit_char(n)]
    } else {
        dec_text(n / 10) + seq![digit_char(n % 10)]
    }
}

/// An operand as text: `r<n>` for a register, the decimal value of an
/// immediate, the name of a label.
pub open spec fn op_text(o: Op) -> Seq<char> {
    match o {
        Op::Reg(r) => seq!['r'] + dec_text(r as nat),
        Op::Imm8(v) => dec_text(v as nat),
        Op::Imm12(v) => dec_text(v as nat),
        Op::Label(l) => l@,
    }
}

/// A mnemonic followed by one operand.
pub open spec fn text1(name: Seq<char>, a: Op) -> Seq<char> {
    name + seq![' '] + op_text(a)
}

/// A mnemonic followed by two operands.
pub open spec fn text2(name: Seq<char>, a: Op, b: Op) -> Seq<char> {
    text1(name, a) + seq![',', ' '] + op_text(b)
}

/// A mnemonic followed by three operands.
pub open spec fn text3(name: Seq<char>, a: Op, b: Op, c: Op) -> Seq<char> {
    text2(name, a, b) + seq![',', ' '] + op_text(c)
}

/// An instruction as text: a label as `name:`, otherwise the lower-case
/// mnemonic, a space, and the operands separated by `, `.
pub open spec fn instr_text(i: Instr) -> Seq<char> {
    match i {
        Instr::Label(l) => l@ + seq![':'],
        Instr::Nop => seq!['n', 'o', 'p'],
        Instr::Halt => seq!['h', 'a', 'l', 't'],
        Instr::Mv { rd, rs1 } => text2(seq!['m', 'v'], rd, rs1),
        Instr::Not { rd, rs1 } => text2(seq!['n', 'o', 't'], rd, rs1),
        Instr::Add { rd, rs1, rs2 } => text3(seq!['a', 'd', 'd'], rd, rs1, rs2),
        Instr::Sub { rd, rs1, rs2 } => text3(seq!['s', 'u', 'b'], rd, rs1, rs2),
        Instr::And { rd, rs1, rs2 } => text3(seq!['a', 'n', 'd'], rd, rs1, rs2),
        Instr::Or { rd, rs1, rs2 } => text3(seq!['o', 'r'], rd, rs1, rs2),
        Instr::Xor { rd, rs1, rs2 } => text3(seq!['x', 'o', 'r'], rd, rs1, rs2),
        Instr::Addi { rd, rs1, imm } => text3(seq!['a', 'd', 'd', 'i'], rd, rs1, imm),
        Instr::Andi { rd, rs1, imm } => text3(seq!['a', 'n', 'd', 'i'], rd, rs1, imm),
        Instr::Ori { rd, rs1, imm } => text3(seq!['o', 'r', 'i'], rd, rs1, imm),
        Instr::Xori { rd, rs1, imm } => text3(seq!['x', 'o', 'r', 'i'], rd, rs1, imm),
        Instr::Jmp { imm } => text1(seq!['j', 'm', 'p'], imm),
        Instr::Bz { imm } => text1(seq!['b', 'z'], imm),
        Instr::Bnz { imm } => text1(seq!['b', 'n', 'z'], imm),
    }
}

fn digit_str(d: u16) -> (r: &'static str)
    requires
        d < 10,
    ensures
        r@ == seq![digit_char(d as nat)],
{
    proof {
        reveal_strlit("0");
        reveal_strlit("1");
        reveal_strlit("2");
        reveal_strlit("3");
        reveal_strlit("4");
        reveal_strlit("5");
        reveal_strlit("6");
        reveal_strlit("7");
        reveal_strlit("8");
        reveal_strlit("9");
    }
    match d {
        0 => "0",
        1 => "1",
        2 => "2",
        3 => "3",
        4 => "4",
        5 => "5",
        6 => "6",
        7 => "7",
        8 => "8",
        _ => "9",
    }
}

/// Appends the decimal numeral of `n`.
fn push_dec(out: &mut String, n: u16)
    ensures
        final(out)@ == old(out)@ + dec_text(n as nat),
    decreases n,
{
    if n >= 10 {
        push_dec(out, n / 10);
    }
    out.append(digit_str(n % 10));
    proof {
        if n >= 10 {
            assert(old(out)@ + dec_text(n as nat) =~= old(out)@ + dec_text((n / 10) as nat) + seq![
                digit_char((n % 10) as nat),
            ]);
        }
    }
}

impl Op {
    /// Appends the text of this operand.
    fn push_text(&self, out: &mut String)
        ensures
            final(out)@ == old(out)@ + op_text(*self),
    {
        match self {
            Op::Reg(r) => {
                proof {
                    reveal_strlit("r");
                }
                out.append("r");
                push_dec(out, *r as u16);
                proof {
                    assert(final(out)@ =~= old(out)@ + op_text(*self));
                }
            },
            Op::Imm8(v) => push_dec(out, *v as u16),
            Op::Imm12(v) => push_dec(out, *v),
            Op::Label(l) => out.append(l.as_str()),
        }
    }

    /// This operand as text.
    pub fn render(&self) -> (r: String)
        ensures
            r@ == op_text(*self),
    {
        let mut out = String::new();
        self.push_text(&mut out);
        proof {
            assert(out@ =~= op_text(*self));
        }
        out
    }
}

/// `name`, a space and the operands `ops`, separated by `, `.
fn render_with(name: &str, ops: &[&Op]) -> (r: String)
    requires
        1 <= ops@.len() <= 3,
    ensures
        ops@.len() == 1 ==> r@ == text1(name@, *ops@[0]),
        ops@.len() == 2 ==> r@ == text2(name@, *ops@[0], *ops@[1]),
        ops@.len() == 3 ==> r@ == text3(name@, *ops@[0], *ops@[1], *ops@[2]),
{
    proof {
        reveal_strlit(" ");
        reveal_strlit(", ");
    }
    let mut out = String::new();
    out.append(name);
    out.append(" ");
    ops[0].push_text(&mut out);
    let ghost t1 = out@;
    assert(t1 =~= text1(name@, *ops@[0]));
    if ops.len() >= 2 {
        out.append(", ");
        ops[1].push_text(&mut out);
        assert(out@ =~= text2(name@, *ops@[0], *ops@[1]));
    }
    if ops.len() >= 3 {
        out.append(", ");
        ops[2].push_text(&mut out);
        assert(out@ =~= text3(name@, *ops@[0], *ops@[1], *ops@[2]));
    }
    out
}

impl Instr {
    /// This instruction as assembly text. Parsing the text back is not
    /// guaranteed to give the same instruction: an immediate renders the
    /// same whatever its width, and no operand checks are made.
    pub fn render(&self) -> (r: String)
        ensures
            r@ == instr_text(*self),
    {
        proof {
            reveal_strlit(":");
            reveal_strlit("nop");
            reveal_strlit("halt");
            reveal_strlit("mv");
            reveal_strlit("not");
            reveal_strlit("add");
            reveal_strlit("sub");
            reveal_strlit("and");
            reveal_strlit("or");
            reveal_strlit("xor");
            reveal_strlit("addi");
            reveal_strlit("andi");
            reveal_strlit("ori");
            reveal_strlit("xori");
            reveal_strlit("jmp");
            reveal_strlit("bz");
            reveal_strlit("bnz");
        }
        match self {
            Instr::Label(l) => {
                let mut out = l.clone();
                out.append(":");
                out
            },
            Instr::Nop => "nop".to_owned(),
            Instr::Halt => "halt".to_owned(),
            Instr::Mv { rd, rs1 } => render_with("mv", &[rd, rs1]),
            Instr::Not { rd, rs1 } => render_with("not", &[rd, rs1]),
            Instr::Add { rd, rs1, rs2 } => render_with("add", &[rd, rs1, rs2]),
            Instr::Sub { rd, rs1, rs2 } => render_with("sub", &[rd, rs1, rs2]),
            Instr::And { rd, rs1, rs2 } => render_with("and", &[rd, rs1, rs2]),
            Instr::Or { rd, rs1, rs2 } => render_with("or", &[rd, rs1, rs2]),
            Instr::Xor { rd, rs1, rs2 } => render_with("xor", &[rd, rs1, rs2]),
            Instr::Addi { rd, rs1, imm } => render_with("addi", &[rd, rs1, imm]),
            Instr::Andi { rd, rs1, imm } => render_with("andi", &[rd, rs1, imm]),
            Instr::Ori { rd, rs1, imm } => render_with("ori", &[rd, rs1, imm]),
            Instr::Xori { rd, rs1, imm } => render_with("xori", &[rd, rs1, imm]),
            Instr::Jmp { imm } => render_with("jmp", &[imm]),
            Instr::Bz { imm } => render_with("bz", &[imm]),
            Instr::Bnz { imm } => render_with("bnz", &[imm]),
        }
    }
}

} // verus!
