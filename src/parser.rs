//! Assembly text to instructions, one line at a time.

use vstd::prelude::*;
use vstd::std_specs::iter::IteratorSpec;
use crate::ast::{Instr, InstrV, Op, OpV, Program, instrs_view};

verus! {

broadcast use vstd::string::group_string_axioms;

/// The classes of characters the grammar scans runs of.
#[derive(Clone, Copy)]
pub enum CharClass {
    /// Space, tab, carriage return, line feed.
    Space,
    /// ASCII letters.
    Alpha,
    /// Decimal digits.
    Digit,
    /// Hexadecimal digits, either case.
    Hex,
    /// Anything but a line feed.
    Text,
}

pub open spec fn in_class(k: CharClass, c: char) -> bool {
    match k {
        CharClass::Space => c == ' ' || c == '\t' || c == '\r' || c == '\n',
        CharClass::Alpha => ('a' <= c && c <= 'z') || ('A' <= c && c <= 'Z'),
        CharClass::Digit => '0' <= c && c <= '9',
        CharClass::Hex => ('0' <= c && c <= '9') || ('a' <= c && c <= 'f') || ('A' <= c && c <= 'F'),
        CharClass::Text => c != '\n',
    }
}

/// The end of the run of class `k` that starts at `i`.
pub open spec fn span(s: Seq<char>, i: int, k: CharClass) -> int
    decreases s.len() - i,
{
    if 0 <= i < s.len() && in_class(k, s[i]) {
        span(s, i + 1, k)
    } else {
        i
    }
}

/// The value of a hexadecimal (or decimal) digit.
pub open spec fn digit_value(c: char) -> nat {
    if '0' <= c && c <= '9' {
        (c as nat - '0' as nat) as nat
    } else if 'a' <= c && c <= 'f' {
        (c as nat - 'a' as nat + 10) as nat
    } else {
        (c as nat - 'A' as nat + 10) as nat
    }
}

/// The number that the digits `s[lo..hi]` write in `base`.
pub open spec fn digits_value(s: Seq<char>, lo: int, hi: int, base: nat) -> nat
    decreases hi - lo,
{
    if hi <= lo {
        0
    } else {
        digits_value(s, lo, hi - 1, base) * base + digit_value(s[hi - 1])
    }
}

/// A number at `i`, `0x` and hexadecimal digits or decimal digits, with
/// the position after it; `None` if there is none or it exceeds `max`.
pub open spec fn number(s: Seq<char>, i: int, max: nat) -> Option<(nat, int)> {
    if 0 <= i && i + 2 < s.len() && s[i] == '0' && s[i + 1] == 'x' && in_class(
        CharClass::Hex,
        s[i + 2],
    ) {
        let e = span(s, i + 2, CharClass::Hex);
        let v = digits_value(s, i + 2, e, 16);
        if v <= max {
            Some((v, e))
        } else {
            None
        }
    } else if 0 <= i < s.len() && in_class(CharClass::Digit, s[i]) {
        let e = span(s, i, CharClass::Digit);
        let v = digits_value(s, i, e, 10);
        if v <= max {
            Some((v, e))
        } else {
            None
        }
    } else {
        None
    }
}

/// The characters of a string slice.
fn chars_of(s: &str) -> (r: Vec<char>)
    ensures
        r@ == s@,
{
    let mut it = s.chars();
    let mut v: Vec<char> = Vec::new();
    loop
        invariant
            v@ + it.remaining() == s@,
            it.decrease() is Some,
        decreases it.decrease()->0,
    {
        match it.next() {
            Some(c) => {
                v.push(c);
            },
            None => {
                return v;
            },
        }
    }
}

/// A run of class `k` from `i` stays within `s`, holds only characters of
/// the class, and ends at the end of `s` or at a character outside it.
pub proof fn lemma_span(s: Seq<char>, i: int, k: CharClass)
    requires
        0 <= i <= s.len(),
    ensures
        i <= span(s, i, k) <= s.len(),
        forall|j: int| i <= j < span(s, i, k) ==> in_class(k, #[trigger] s[j]),
        span(s, i, k) == s.len() || !in_class(k, s[span(s, i, k)]),
    decreases s.len() - i,
{
    if i < s.len() && in_class(k, s[i]) {
        lemma_span(s, i + 1, k);
    }
}

/// Adding digits never makes a number smaller.
proof fn lemma_digits_grow(s: Seq<char>, lo: int, m: int, hi: int, base: nat)
    requires
        lo <= m <= hi,
        base >= 1,
    ensures
        digits_value(s, lo, m, base) <= digits_value(s, lo, hi, base),
    decreases hi - m,
{
    if m < hi {
        lemma_digits_grow(s, lo, m, hi - 1, base);
        let v = digits_value(s, lo, hi - 1, base);
        assert(v * base + digit_value(s[hi - 1]) >= v) by (nonlinear_arith)
            requires
                base >= 1,
        ;
    }
}

fn char_in_class(k: CharClass, c: char) -> (r: bool)
    ensures
        r == in_class(k, c),
{
    match k {
        CharClass::Space => c == ' ' || c == '\t' || c == '\r' || c == '\n',
        CharClass::Alpha => ('a' <= c && c <= 'z') || ('A' <= c && c <= 'Z'),
        CharClass::Digit => '0' <= c && c <= '9',
        CharClass::Hex => ('0' <= c && c <= '9') || ('a' <= c && c <= 'f') || ('A' <= c && c <= 'F'),
        CharClass::Text => c != '\n',
    }
}

/// The end of the run of class `k` that starts at `i`.
fn scan(cs: &Vec<char>, i: usize, k: CharClass) -> (e: usize)
    requires
        i <= cs@.len(),
    ensures
        e == span(cs@, i as int, k),
{
    let mut e = i;
    while e < cs.len() && char_in_class(k, cs[e])
        invariant
            i <= e <= cs@.len(),
            span(cs@, e as int, k) == span(cs@, i as int, k),
        decreases cs@.len() - e,
    {
        e = e + 1;
    }
    e
}

fn digit_of(c: char) -> (r: u32)
    requires
        in_class(CharClass::Hex, c),
    ensures
        r == digit_value(c),
        r < 16,
{
    if '0' <= c && c <= '9' {
        (c as u32) - ('0' as u32)
    } else if 'a' <= c && c <= 'f' {
        (c as u32) - ('a' as u32) + 10
    } else {
        (c as u32) - ('A' as u32) + 10
    }
}

/// The value of the digits `cs[lo..hi]` in `base`, if it is at most `max`.
fn digits_at_most(cs: &Vec<char>, lo: usize, hi: usize, base: u32, max: u32) -> (r: Option<u32>)
    requires
        lo <= hi <= cs@.len(),
        base == 10 || base == 16,
        max <= 0xFFFF,
        forall|j: int| lo <= j < hi ==> in_class(CharClass::Hex, #[trigger] cs@[j]),
    ensures
        digits_value(cs@, lo as int, hi as int, base as nat) <= max ==> r == Some(
            digits_value(cs@, lo as int, hi as int, base as nat) as u32,
        ),
        digits_value(cs@, lo as int, hi as int, base as nat) > max ==> r is None,
{
    let mut v: u32 = 0;
    let mut j = lo;
    while j < hi
        invariant
            lo <= j <= hi <= cs@.len(),
            base == 10 || base == 16,
            max <= 0xFFFF,
            forall|t: int| lo <= t < hi ==> in_class(CharClass::Hex, #[trigger] cs@[t]),
            v == digits_value(cs@, lo as int, j as int, base as nat),
            v <= max,
        decreases hi - j,
    {
        let d = digit_of(cs[j]);
        assert(v * base + d <= 0xFFFF * 16 + 15) by (nonlinear_arith)
            requires
                v <= 0xFFFF,
                base <= 16,
                d < 16,
        ;
        let nv = v * base + d;
        assert(nv == digits_value(cs@, lo as int, j + 1, base as nat));
        if nv > max {
            proof {
                lemma_digits_grow(cs@, lo as int, j + 1, hi as int, base as nat);
            }
            return None;
        }
        v = nv;
        j = j + 1;
    }
    Some(v)
}

/// A number at `i` no greater than `max`, with the position after it.
fn scan_number(cs: &Vec<char>, i: usize, max: u32) -> (r: Option<(u32, usize)>)
    requires
        i <= cs@.len(),
        max <= 0xFFFF,
    ensures
        match number(cs@, i as int, max as nat) {
            Some((v, e)) => match r {
                Some((rv, re)) => rv == v && re == e && i < e <= cs@.len(),
                None => false,
            },
            None => r is None,
        },
{
    if i < cs.len() && cs.len() - i > 2 && cs[i] == '0' && cs[i + 1] == 'x' && char_in_class(CharClass::Hex, cs[i + 2]) {
        let e = scan(cs, i + 2, CharClass::Hex);
        proof {
            lemma_span(cs@, i + 2, CharClass::Hex);
        }
        match digits_at_most(cs, i + 2, e, 16, max) {
            Some(v) => Some((v, e)),
            None => None,
        }
    } else if i < cs.len() && char_in_class(CharClass::Digit, cs[i]) {
        let e = scan(cs, i, CharClass::Digit);
        proof {
            lemma_span(cs@, i as int, CharClass::Digit);
        }
        match digits_at_most(cs, i, e, 10, max) {
            Some(v) => Some((v, e)),
            None => None,
        }
    } else {
        None
    }
}

/// A register operand `r<number>` at `i`, with the position after it.
pub open spec fn reg_operand(s: Seq<char>, i: int) -> Option<(u8, int)> {
    if 0 <= i < s.len() && s[i] == 'r' {
        match number(s, i + 1, 255) {
            Some((v, e)) => Some((v as u8, e)),
            None => None,
        }
    } else {
        None
    }
}

/// Where the operand after a comma at `i` starts; `None` if there is no comma at `i`.
pub open spec fn after_comma(s: Seq<char>, i: int) -> Option<int> {
    if 0 <= i < s.len() && s[i] == ',' {
        Some(span(s, i + 1, CharClass::Space))
    } else {
        None
    }
}

/// `, r<number>` at `i`.
pub open spec fn comma_reg(s: Seq<char>, i: int) -> Option<(u8, int)> {
    match after_comma(s, i) {
        Some(j) => reg_operand(s, j),
        None => None,
    }
}

/// `, <number>` at `i`, the number fitting in 8 bits.
pub open spec fn comma_imm8(s: Seq<char>, i: int) -> Option<(u8, int)> {
    match after_comma(s, i) {
        Some(j) => match number(s, j, 255) {
            Some((v, e)) => Some((v as u8, e)),
            None => None,
        },
        None => None,
    }
}

/// A branch target at `i`: a label name, or else a number fitting in 12 bits.
pub open spec fn target(s: Seq<char>, i: int) -> Option<(OpV, int)> {
    let a = span(s, i, CharClass::Alpha);
    if a > i {
        Some((OpV::Label(s.subrange(i, a)), a))
    } else {
        match number(s, i, 4095) {
            Some((v, e)) => Some((OpV::Imm12(v as u16), e)),
            None => None,
        }
    }
}

/// The mnemonics of the assembly language.
#[derive(Clone, Copy)]
pub enum Mnemonic {
    Halt,
    Nop,
    Mv,
    Not,
    Add,
    Sub,
    And,
    Or,
    Xor,
    Addi,
    Andi,
    Ori,
    Xori,
    Jmp,
    Bz,
    Bnz,
}

/// A mnemonic's spelling, in capitals.
pub open spec fn mnemonic_word(k: Mnemonic) -> Seq<char> {
    match k {
        Mnemonic::Halt => seq!['H', 'A', 'L', 'T'],
        Mnemonic::Nop => seq!['N', 'O', 'P'],
        Mnemonic::Mv => seq!['M', 'V'],
        Mnemonic::Not => seq!['N', 'O', 'T'],
        Mnemonic::Add => seq!['A', 'D', 'D'],
        Mnemonic::Sub => seq!['S', 'U', 'B'],
        Mnemonic::And => seq!['A', 'N', 'D'],
        Mnemonic::Or => seq!['O', 'R'],
        Mnemonic::Xor => seq!['X', 'O', 'R'],
        Mnemonic::Addi => seq!['A', 'D', 'D', 'I'],
        Mnemonic::Andi => seq!['A', 'N', 'D', 'I'],
        Mnemonic::Ori => seq!['O', 'R', 'I'],
        Mnemonic::Xori => seq!['X', 'O', 'R', 'I'],
        Mnemonic::Jmp => seq!['J', 'M', 'P'],
        Mnemonic::Bz => seq!['B', 'Z'],
        Mnemonic::Bnz => seq!['B', 'N', 'Z'],
    }
}

/// Whether `c` is the capital letter `u` in either case.
pub open spec fn same_letter(c: char, u: char) -> bool {
    c == u || ('a' <= c && c <= 'z' && c as nat == u as nat + 32)
}

/// Whether `m` spells `w` (given in capitals) ignoring case.
pub open spec fn spells(m: Seq<char>, w: Seq<char>) -> bool {
    m.len() == w.len() && forall|t: int| 0 <= t < m.len() ==> same_letter(#[trigger] m[t], w[t])
}

/// The mnemonic that the letters `m` spell, ignoring case.
pub open spec fn mnemonic_of(m: Seq<char>) -> Option<Mnemonic> {
    if spells(m, mnemonic_word(Mnemonic::Halt)) {
        Some(Mnemonic::Halt)
    } else if spells(m, mnemonic_word(Mnemonic::Nop)) {
        Some(Mnemonic::Nop)
    } else if spells(m, mnemonic_word(Mnemonic::Mv)) {
        Some(Mnemonic::Mv)
    } else if spells(m, mnemonic_word(Mnemonic::Not)) {
        Some(Mnemonic::Not)
    } else if spells(m, mnemonic_word(Mnemonic::Add)) {
        Some(Mnemonic::Add)
    } else if spells(m, mnemonic_word(Mnemonic::Sub)) {
        Some(Mnemonic::Sub)
    } else if spells(m, mnemonic_word(Mnemonic::And)) {
        Some(Mnemonic::And)
    } else if spells(m, mnemonic_word(Mnemonic::Or)) {
        Some(Mnemonic::Or)
    } else if spells(m, mnemonic_word(Mnemonic::Xor)) {
        Some(Mnemonic::Xor)
    } else if spells(m, mnemonic_word(Mnemonic::Addi)) {
        Some(Mnemonic::Addi)
    } else if spells(m, mnemonic_word(Mnemonic::Andi)) {
        Some(Mnemonic::Andi)
    } else if spells(m, mnemonic_word(Mnemonic::Ori)) {
        Some(Mnemonic::Ori)
    } else if spells(m, mnemonic_word(Mnemonic::Xori)) {
        Some(Mnemonic::Xori)
    } else if spells(m, mnemonic_word(Mnemonic::Jmp)) {
        Some(Mnemonic::Jmp)
    } else if spells(m, mnemonic_word(Mnemonic::Bz)) {
        Some(Mnemonic::Bz)
    } else if spells(m, mnemonic_word(Mnemonic::Bnz)) {
        Some(Mnemonic::Bnz)
    } else {
        None
    }
}

/// The instruction of mnemonic `k` with register operands `d`, `a`, `b` and
/// 8-bit immediate `b` (for the immediate forms) or target `t` (for branches);
/// an operand that `k` does not take is ignored.
pub open spec fn build(k: Mnemonic, d: u8, a: u8, b: u8, t: OpV) -> InstrV {
    match k {
        Mnemonic::Halt => InstrV::Halt,
        Mnemonic::Nop => InstrV::Nop,
        Mnemonic::Mv => InstrV::Mv { rd: OpV::Reg(d), rs1: OpV::Reg(a) },
        Mnemonic::Not => InstrV::Not { rd: OpV::Reg(d), rs1: OpV::Reg(a) },
        Mnemonic::Add => InstrV::Add { rd: OpV::Reg(d), rs1: OpV::Reg(a), rs2: OpV::Reg(b) },
        Mnemonic::Sub => InstrV::Sub { rd: OpV::Reg(d), rs1: OpV::Reg(a), rs2: OpV::Reg(b) },
        Mnemonic::And => InstrV::And { rd: OpV::Reg(d), rs1: OpV::Reg(a), rs2: OpV::Reg(b) },
        Mnemonic::Or => InstrV::Or { rd: OpV::Reg(d), rs1: OpV::Reg(a), rs2: OpV::Reg(b) },
        Mnemonic::Xor => InstrV::Xor { rd: OpV::Reg(d), rs1: OpV::Reg(a), rs2: OpV::Reg(b) },
        Mnemonic::Addi => InstrV::Addi { rd: OpV::Reg(d), rs1: OpV::Reg(a), imm: OpV::Imm8(b) },
        Mnemonic::Andi => InstrV::Andi { rd: OpV::Reg(d), rs1: OpV::Reg(a), imm: OpV::Imm8(b) },
        Mnemonic::Ori => InstrV::Ori { rd: OpV::Reg(d), rs1: OpV::Reg(a), imm: OpV::Imm8(b) },
        Mnemonic::Xori => InstrV::Xori { rd: OpV::Reg(d), rs1: OpV::Reg(a), imm: OpV::Imm8(b) },
        Mnemonic::Jmp => InstrV::Jmp { imm: t },
        Mnemonic::Bz => InstrV::Bz { imm: t },
        Mnemonic::Bnz => InstrV::Bnz { imm: t },
    }
}

/// The operands of mnemonic `k` starting at `j`: the instruction they make
/// and the position after them.
pub open spec fn operands(s: Seq<char>, j: int, k: Mnemonic) -> Option<(InstrV, int)> {
    match k {
        Mnemonic::Halt | Mnemonic::Nop => Some((build(k, 0, 0, 0, OpV::Reg(0)), j)),
        Mnemonic::Mv | Mnemonic::Not => match reg_operand(s, j) {
            Some((d, e1)) => match comma_reg(s, e1) {
                Some((a, e2)) => Some((build(k, d, a, 0, OpV::Reg(0)), e2)),
                None => None,
            },
            None => None,
        },
        Mnemonic::Add | Mnemonic::Sub | Mnemonic::And | Mnemonic::Or | Mnemonic::Xor => match reg_operand(s, j) {
            Some((d, e1)) => match comma_reg(s, e1) {
                Some((a, e2)) => match comma_reg(s, e2) {
                    Some((b, e3)) => Some((build(k, d, a, b, OpV::Reg(0)), e3)),
                    None => None,
                },
                None => None,
            },
            None => None,
        },
        Mnemonic::Addi | Mnemonic::Andi | Mnemonic::Ori | Mnemonic::Xori => match reg_operand(s, j) {
            Some((d, e1)) => match comma_reg(s, e1) {
                Some((a, e2)) => match comma_imm8(s, e2) {
                    Some((b, e3)) => Some((build(k, d, a, b, OpV::Reg(0)), e3)),
                    None => None,
                },
                None => None,
            },
            None => None,
        },
        Mnemonic::Jmp | Mnemonic::Bz | Mnemonic::Bnz => match target(s, j) {
            Some((t, e)) => Some((build(k, 0, 0, 0, t), e)),
            None => None,
        },
    }
}

/// One line of assembly: leading whitespace, then either a label
/// declaration `name:` or a mnemonic, whitespace and its operands. Gives the
/// instruction and the position where parsing stopped (what follows is not
/// read), or the position where the line fails to match.
pub open spec fn parse_line_spec(s: Seq<char>) -> Result<(InstrV, int), int> {
    let i = span(s, 0, CharClass::Space);
    let a = span(s, i, CharClass::Alpha);
    if a == i {
        Err(i)
    } else if a < s.len() && s[a] == ':' {
        Ok((InstrV::Label(s.subrange(i, a)), a + 1))
    } else {
        let j = span(s, a, CharClass::Space);
        match mnemonic_of(s.subrange(i, a)) {
            None => Err(i),
            Some(k) => match operands(s, j, k) {
                Some((instr, e)) => Ok((instr, e)),
                None => Err(j),
            },
        }
    }
}

fn scan_reg(cs: &Vec<char>, i: usize) -> (r: Option<(u8, usize)>)
    requires
        i <= cs@.len(),
    ensures
        match reg_operand(cs@, i as int) {
            Some((v, e)) => match r {
                Some((rv, re)) => rv == v && re == e && i < e <= cs@.len(),
                None => false,
            },
            None => r is None,
        },
{
    if i < cs.len() && cs[i] == 'r' {
        match scan_number(cs, i + 1, 255) {
            Some((v, e)) => Some((v as u8, e)),
            None => None,
        }
    } else {
        None
    }
}

fn scan_after_comma(cs: &Vec<char>, i: usize) -> (r: Option<usize>)
    requires
        i <= cs@.len(),
    ensures
        match after_comma(cs@, i as int) {
            Some(j) => match r {
                Some(rj) => rj == j && i < j <= cs@.len(),
                None => false,
            },
            None => r is None,
        },
{
    if i < cs.len() && cs[i] == ',' {
        proof {
            lemma_span(cs@, i + 1, CharClass::Space);
        }
        Some(scan(cs, i + 1, CharClass::Space))
    } else {
        None
    }
}

fn scan_comma_reg(cs: &Vec<char>, i: usize) -> (r: Option<(u8, usize)>)
    requires
        i <= cs@.len(),
    ensures
        match comma_reg(cs@, i as int) {
            Some((v, e)) => match r {
                Some((rv, re)) => rv == v && re == e && i < e <= cs@.len(),
                None => false,
            },
            None => r is None,
        },
{
    match scan_after_comma(cs, i) {
        Some(j) => scan_reg(cs, j),
        None => None,
    }
}

fn scan_comma_imm8(cs: &Vec<char>, i: usize) -> (r: Option<(u8, usize)>)
    requires
        i <= cs@.len(),
    ensures
        match comma_imm8(cs@, i as int) {
            Some((v, e)) => match r {
                Some((rv, re)) => rv == v && re == e && i < e <= cs@.len(),
                None => false,
            },
            None => r is None,
        },
{
    match scan_after_comma(cs, i) {
        Some(j) => match scan_number(cs, j, 255) {
            Some((v, e)) => Some((v as u8, e)),
            None => None,
        },
        None => None,
    }
}

fn scan_target(text: &str, base: usize, cs: &Vec<char>, i: usize) -> (r: Option<(Op, usize)>)
    requires
        base + cs@.len() <= text@.len(),
        base + cs@.len() <= usize::MAX,
        cs@ == text@.subrange(base as int, base + cs@.len()),
        i <= cs@.len(),
    ensures
        match target(cs@, i as int) {
            Some((t, e)) => match r {
                Some((op, end)) => op@ == t && end == e && i < e <= cs@.len(),
                None => false,
            },
            None => r is None,
        },
{
    let a = scan(cs, i, CharClass::Alpha);
    proof {
        lemma_span(cs@, i as int, CharClass::Alpha);
    }
    if a > i {
        let name = text.substring_char(base + i, base + a).to_owned();
        assert(name@ =~= cs@.subrange(i as int, a as int));
        Some((Op::Label(name), a))
    } else {
        match scan_number(cs, i, 4095) {
            Some((v, e)) => Some((Op::Imm12(v as u16), e)),
            None => None,
        }
    }
}

/// Whether `cs[lo..hi]` spells `w` (given in capitals) ignoring case.
fn spells_at(cs: &Vec<char>, lo: usize, hi: usize, w: &[char]) -> (r: bool)
    requires
        lo <= hi <= cs@.len(),
        forall|t: int| 0 <= t < w@.len() ==> 'A' <= #[trigger] w@[t] && w@[t] <= 'Z',
    ensures
        r == spells(cs@.subrange(lo as int, hi as int), w@),
{
    if hi - lo != w.len() {
        return false;
    }
    let mut t: usize = 0;
    while t < w.len()
        invariant
            lo <= hi <= cs@.len(),
            hi - lo == w@.len(),
            t <= w@.len(),
            forall|q: int| 0 <= q < w@.len() ==> 'A' <= #[trigger] w@[q] && w@[q] <= 'Z',
            forall|q: int|
                0 <= q < t ==> same_letter(#[trigger] cs@.subrange(lo as int, hi as int)[q], w@[q]),
        decreases w@.len() - t,
    {
        let c = cs[lo + t];
        let u = w[t];
        if !(c == u || ('a' <= c && c <= 'z' && (c as u32) - 32 == (u as u32))) {
            assert(!same_letter(cs@.subrange(lo as int, hi as int)[t as int], w@[t as int]));
            return false;
        }
        t = t + 1;
    }
    true
}

/// The mnemonic that `cs[lo..hi]` spells, ignoring case.
fn mnemonic_at(cs: &Vec<char>, lo: usize, hi: usize) -> (r: Option<Mnemonic>)
    requires
        lo <= hi <= cs@.len(),
    ensures
        r == mnemonic_of(cs@.subrange(lo as int, hi as int)),
{
    if spells_at(cs, lo, hi, &['H', 'A', 'L', 'T']) {
        Some(Mnemonic::Halt)
    } else if spells_at(cs, lo, hi, &['N', 'O', 'P']) {
        Some(Mnemonic::Nop)
    } else if spells_at(cs, lo, hi, &['M', 'V']) {
        Some(Mnemonic::Mv)
    } else if spells_at(cs, lo, hi, &['N', 'O', 'T']) {
        Some(Mnemonic::Not)
    } else if spells_at(cs, lo, hi, &['A', 'D', 'D']) {
        Some(Mnemonic::Add)
    } else if spells_at(cs, lo, hi, &['S', 'U', 'B']) {
        Some(Mnemonic::Sub)
    } else if spells_at(cs, lo, hi, &['A', 'N', 'D']) {
        Some(Mnemonic::And)
    } else if spells_at(cs, lo, hi, &['O', 'R']) {
        Some(Mnemonic::Or)
    } else if spells_at(cs, lo, hi, &['X', 'O', 'R']) {
        Some(Mnemonic::Xor)
    } else if spells_at(cs, lo, hi, &['A', 'D', 'D', 'I']) {
        Some(Mnemonic::Addi)
    } else if spells_at(cs, lo, hi, &['A', 'N', 'D', 'I']) {
        Some(Mnemonic::Andi)
    } else if spells_at(cs, lo, hi, &['O', 'R', 'I']) {
        Some(Mnemonic::Ori)
    } else if spells_at(cs, lo, hi, &['X', 'O', 'R', 'I']) {
        Some(Mnemonic::Xori)
    } else if spells_at(cs, lo, hi, &['J', 'M', 'P']) {
        Some(Mnemonic::Jmp)
    } else if spells_at(cs, lo, hi, &['B', 'Z']) {
        Some(Mnemonic::Bz)
    } else if spells_at(cs, lo, hi, &['B', 'N', 'Z']) {
        Some(Mnemonic::Bnz)
    } else {
        None
    }
}

fn make(k: Mnemonic, d: u8, a: u8, b: u8, t: Op) -> (r: Instr)
    ensures
        r@ == build(k, d, a, b, t@),
{
    match k {
        Mnemonic::Halt => Instr::Halt,
        Mnemonic::Nop => Instr::Nop,
        Mnemonic::Mv => Instr::Mv { rd: Op::Reg(d), rs1: Op::Reg(a) },
        Mnemonic::Not => Instr::Not { rd: Op::Reg(d), rs1: Op::Reg(a) },
        Mnemonic::Add => Instr::Add { rd: Op::Reg(d), rs1: Op::Reg(a), rs2: Op::Reg(b) },
        Mnemonic::Sub => Instr::Sub { rd: Op::Reg(d), rs1: Op::Reg(a), rs2: Op::Reg(b) },
        Mnemonic::And => Instr::And { rd: Op::Reg(d), rs1: Op::Reg(a), rs2: Op::Reg(b) },
        Mnemonic::Or => Instr::Or { rd: Op::Reg(d), rs1: Op::Reg(a), rs2: Op::Reg(b) },
        Mnemonic::Xor => Instr::Xor { rd: Op::Reg(d), rs1: Op::Reg(a), rs2: Op::Reg(b) },
        Mnemonic::Addi => Instr::Addi { rd: Op::Reg(d), rs1: Op::Reg(a), imm: Op::Imm8(b) },
        Mnemonic::Andi => Instr::Andi { rd: Op::Reg(d), rs1: Op::Reg(a), imm: Op::Imm8(b) },
        Mnemonic::Ori => Instr::Ori { rd: Op::Reg(d), rs1: Op::Reg(a), imm: Op::Imm8(b) },
        Mnemonic::Xori => Instr::Xori { rd: Op::Reg(d), rs1: Op::Reg(a), imm: Op::Imm8(b) },
        Mnemonic::Jmp => Instr::Jmp { imm: t },
        Mnemonic::Bz => Instr::Bz { imm: t },
        Mnemonic::Bnz => Instr::Bnz { imm: t },
    }
}

/// Whether an exec parse result is the spec one.
pub open spec fn parsed_as(r: Option<(Instr, usize)>, expected: Option<(InstrV, int)>) -> bool {
    match expected {
        Some((m, e)) => match r {
            Some((instr, re)) => instr@ == m && re == e,
            None => false,
        },
        None => r is None,
    }
}

fn parse_operands(text: &str, base: usize, cs: &Vec<char>, j: usize, k: Mnemonic) -> (r: Option<(Instr, usize)>)
    requires
        base + cs@.len() <= text@.len(),
        base + cs@.len() <= usize::MAX,
        cs@ == text@.subrange(base as int, base + cs@.len()),
        j <= cs@.len(),
    ensures
        parsed_as(r, operands(cs@, j as int, k)),
        match r {
            Some((_, e)) => e <= cs@.len(),
            None => true,
        },
{
    match k {
        Mnemonic::Halt | Mnemonic::Nop => Some((make(k, 0, 0, 0, Op::Reg(0)), j)),
        Mnemonic::Mv | Mnemonic::Not => {
            let (d, e1) = match scan_reg(cs, j) {
                Some(x) => x,
                None => return None,
            };
            let (a, e2) = match scan_comma_reg(cs, e1) {
                Some(x) => x,
                None => return None,
            };
            Some((make(k, d, a, 0, Op::Reg(0)), e2))
        },
        Mnemonic::Add | Mnemonic::Sub | Mnemonic::And | Mnemonic::Or | Mnemonic::Xor => {
            let (d, e1) = match scan_reg(cs, j) {
                Some(x) => x,
                None => return None,
            };
            let (a, e2) = match scan_comma_reg(cs, e1) {
                Some(x) => x,
                None => return None,
            };
            let (b, e3) = match scan_comma_reg(cs, e2) {
                Some(x) => x,
                None => return None,
            };
            Some((make(k, d, a, b, Op::Reg(0)), e3))
        },
        Mnemonic::Addi | Mnemonic::Andi | Mnemonic::Ori | Mnemonic::Xori => {
            let (d, e1) = match scan_reg(cs, j) {
                Some(x) => x,
                None => return None,
            };
            let (a, e2) = match scan_comma_reg(cs, e1) {
                Some(x) => x,
                None => return None,
            };
            let (b, e3) = match scan_comma_imm8(cs, e2) {
                Some(x) => x,
                None => return None,
            };
            Some((make(k, d, a, b, Op::Reg(0)), e3))
        },
        Mnemonic::Jmp | Mnemonic::Bz | Mnemonic::Bnz => {
            let (t, e) = match scan_target(text, base, cs, j) {
                Some(x) => x,
                None => return None,
            };
            Some((make(k, 0, 0, 0, t), e))
        },
    }
}

/// Parses one line, given as its characters `cs`, which stand in `text` at
/// `base`: the instruction and the position where parsing stopped, or the
/// position where the line fails.
fn parse_line_chars(text: &str, base: usize, cs: &Vec<char>) -> (r: Result<(Instr, usize), usize>)
    requires
        base + cs@.len() <= text@.len(),
        base + cs@.len() <= usize::MAX,
        cs@ == text@.subrange(base as int, base + cs@.len()),
    ensures
        match parse_line_spec(cs@) {
            Ok((m, e)) => match r {
                Ok((instr, re)) => instr@ == m && re == e && e <= cs@.len(),
                Err(_) => false,
            },
            Err(p) => r == Err::<(Instr, usize), usize>(p as usize) && 0 <= p <= cs@.len(),
        },
{
    proof {
        lemma_span(cs@, 0, CharClass::Space);
    }
    let i = scan(cs, 0, CharClass::Space);
    proof {
        lemma_span(cs@, i as int, CharClass::Alpha);
    }
    let a = scan(cs, i, CharClass::Alpha);
    if a == i {
        return Err(i);
    }
    if a < cs.len() && cs[a] == ':' {
        let name = text.substring_char(base + i, base + a).to_owned();
        assert(name@ =~= cs@.subrange(i as int, a as int));
        return Ok((Instr::Label(name), a + 1));
    }
    proof {
        lemma_span(cs@, a as int, CharClass::Space);
    }
    let j = scan(cs, a, CharClass::Space);
    let k = match mnemonic_at(cs, i, a) {
        Some(k) => k,
        None => return Err(i),
    };
    match parse_operands(text, base, cs, j, k) {
        Some((instr, e)) => Ok((instr, e)),
        None => Err(j),
    }
}

/// Parses one line of assembly into its instruction. Returns what follows
/// the instruction on the line (which is not read) and the instruction, or
/// the position in the line where it fails to match.
pub fn parse_line(input: &str) -> (r: Result<(&str, Vec<Instr>), usize>)
    ensures
        match parse_line_spec(input@) {
            Ok((m, e)) => match r {
                Ok((rest, v)) => rest@ == input@.subrange(e, input@.len() as int) && v@.len() == 1
                    && v@[0]@ == m,
                Err(_) => false,
            },
            Err(p) => r == Err::<(&str, Vec<Instr>), usize>(p as usize),
        },
{
    let cs = chars_of(input);
    assert(cs@ =~= input@.subrange(0, cs@.len() as int));
    match parse_line_chars(input, 0, &cs) {
        Ok((instr, e)) => {
            let rest = input.substring_char(e, cs.len());
            let mut v: Vec<Instr> = Vec::new();
            v.push(instr);
            Ok((rest, v))
        },
        Err(p) => Err(p),
    }
}

/// A failure to parse a program.
#[derive(Debug, PartialEq, Eq)]
pub enum ParserError {
    /// The 1-based number of the line that fails, and the text of that line
    /// from the point where it stops matching.
    Error(usize, String),
}

/// Where the text of the line that runs from `start` to the line feed (or
/// the end) at `e` ends: a carriage return before the line feed is dropped.
pub open spec fn content_end(s: Seq<char>, start: int, e: int) -> int {
    if e < s.len() && e > start && s[e - 1] == '\r' {
        e - 1
    } else {
        e
    }
}

/// Whether a line is blank or a comment (its first non-space character is `;`).
pub open spec fn is_skipped(line: Seq<char>) -> bool {
    let i = span(line, 0, CharClass::Space);
    i >= line.len() || line[i] == ';'
}

/// Parses the lines of `s` from position `pos`, the first of them being line
/// number `n`: the instructions of the lines that are neither blank nor
/// comments, in order, or the number of the first line that fails with the
/// rest of that line from where it stops matching.
pub open spec fn parse_from(s: Seq<char>, pos: int, n: nat) -> Result<Seq<InstrV>, (nat, Seq<char>)>
    decreases s.len() - pos,
{
    let e = span(s, pos, CharClass::Text);
    if pos < 0 || pos >= s.len() || e < pos {
        Ok(Seq::empty())
    } else {
        let line = s.subrange(pos, content_end(s, pos, e));
        let rest = if e < s.len() {
            parse_from(s, e + 1, n + 1)
        } else {
            Ok(Seq::empty())
        };
        if is_skipped(line) {
            rest
        } else {
            match parse_line_spec(line) {
                Ok((m, _)) => match rest {
                    Ok(ms) => Ok(seq![m] + ms),
                    Err(x) => Err(x),
                },
                Err(p) => Err((n, line.subrange(p, line.len() as int))),
            }
        }
    }
}

/// A program's instructions, the lines numbered from 1.
pub open spec fn parse_program_spec(src: Seq<char>) -> Result<Seq<InstrV>, (nat, Seq<char>)> {
    parse_from(src, 0, 1)
}

/// `prefix` followed by the result of parsing the rest.
pub open spec fn after_prefix(prefix: Seq<InstrV>, r: Result<Seq<InstrV>, (nat, Seq<char>)>) -> Result<
    Seq<InstrV>,
    (nat, Seq<char>),
> {
    match r {
        Ok(ms) => Ok(prefix + ms),
        Err(x) => Err(x),
    }
}

/// The characters `cs[lo..hi]`.
fn copy_range(cs: &Vec<char>, lo: usize, hi: usize) -> (r: Vec<char>)
    requires
        lo <= hi <= cs@.len(),
    ensures
        r@ == cs@.subrange(lo as int, hi as int),
{
    let mut r: Vec<char> = Vec::new();
    let mut i = lo;
    while i < hi
        invariant
            lo <= i <= hi <= cs@.len(),
            r@ == cs@.subrange(lo as int, i as int),
        decreases hi - i,
    {
        r.push(cs[i]);
        assert(r@ =~= cs@.subrange(lo as int, i + 1));
        i = i + 1;
    }
    r
}

fn line_is_skipped(lcs: &Vec<char>) -> (r: bool)
    ensures
        r == is_skipped(lcs@),
{
    let i = scan(lcs, 0, CharClass::Space);
    i >= lcs.len() || lcs[i] == ';'
}

/// Parses a whole program. Blank and comment lines are skipped; the first
/// line that fails to parse fails the whole program, with its number.
pub fn parse_program(src: &str) -> (r: Result<Program, ParserError>)
    ensures
        match parse_program_spec(src@) {
            Ok(ms) => match r {
                Ok(p) => instrs_view(p@) == ms,
                Err(_) => false,
            },
            Err((n, d)) => match r {
                Ok(_) => false,
                Err(ParserError::Error(rn, rd)) => rn == n && rd@ == d,
            },
        },
{
    let cs = chars_of(src);
    let mut out: Vec<Instr> = Vec::new();
    let mut pos: usize = 0;
    let mut idx: usize = 0;
    while pos < cs.len()
        invariant
            cs@ == src@,
            pos <= cs@.len(),
            idx <= pos,
            after_prefix(instrs_view(out@), parse_from(cs@, pos as int, (idx + 1) as nat))
                == parse_program_spec(src@),
        decreases cs@.len() - pos,
    {
        proof {
            lemma_span(cs@, pos as int, CharClass::Text);
        }
        let e = scan(&cs, pos, CharClass::Text);
        let ce = if e < cs.len() && e > pos && cs[e - 1] == '\r' {
            e - 1
        } else {
            e
        };
        let lcs = copy_range(&cs, pos, ce);
        let ghost rest = if e < cs@.len() {
            parse_from(cs@, e + 1, (idx + 2) as nat)
        } else {
            Ok(Seq::empty())
        };
        if !line_is_skipped(&lcs) {
            match parse_line_chars(src, pos, &lcs) {
                Ok((instr, _)) => {
                    proof {
                        let prefix = instrs_view(out@);
                        assert(instrs_view(out@.push(instr)) =~= prefix.push(instr@));
                        match rest {
                            Ok(ms) => {
                                assert(prefix + (seq![instr@] + ms) =~= prefix.push(instr@) + ms);
                            },
                            Err(_) => {},
                        }
                    }
                    out.push(instr);
                },
                Err(p) => {
                    let d = src.substring_char(pos + p, ce).to_owned();
                    assert(d@ =~= lcs@.subrange(p as int, lcs@.len() as int));
                    return Err(ParserError::Error(idx + 1, d));
                },
            }
        }
        if e < cs.len() {
            pos = e + 1;
        } else {
            pos = cs.len();
        }
        idx = idx + 1;
    }
    proof {
        assert(instrs_view(out@) + Seq::<InstrV>::empty() =~= instrs_view(out@));
    }
    Ok(out)
}

} // verus!
