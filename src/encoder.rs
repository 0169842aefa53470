//! Packing resolved instructions into 24-bit machine words.
//!
//! Layout: bits 0-5 opcode, bits 6-7 a function extension, bits 8-11 `rd`,
//! bits 12-15 `rs1`, bits 16-19 `rs2`; an 8-bit immediate takes bits 16-23
//! and a 12-bit immediate bits 12-23.

use vstd::prelude::*;
use crate::ast::{Instr, Op};

verus! {

/// Whether `new` is `old` with the bits of `mask` replaced by those of `bits`.
pub open spec fn sets_field(old: u32, new: u32, mask: u32, bits: u32) -> bool {
    &&& new & mask == bits & mask
    &&& new & !mask == old & !mask
}

/// A 24-bit instruction word under construction. Each setter replaces
/// exactly the bits of its field, so fields can be set in any order.
#[derive(Debug, Clone, Copy)]
pub struct InstrBuilder {
    word: u32,
}

impl View for InstrBuilder {
    type V = u32;

    closed spec fn view(&self) -> u32 {
        self.word
    }
}

impl InstrBuilder {
    /// A word with every bit clear.
    pub fn new() -> (r: Self)
        ensures
            r@ == 0,
    {
        InstrBuilder { word: 0 }
    }

    /// Sets the 6-bit opcode (bits 0-5).
    pub fn opcode(self, op: u8) -> (r: Self)
        ensures
            sets_field(self@, r@, 0x3F, op as u32),
    {
        let w = self.word;
        let v = op as u32;
        let n = (w & !0x3Fu32) | (v & 0x3F);
        assert(sets_field(w, n, 0x3F, v)) by (bit_vector)
            requires
                n == (w & !0x3Fu32) | (v & 0x3F),
        ;
        InstrBuilder { word: n }
    }

    /// Sets the 2-bit function extension (bits 6-7).
    pub fn fun2(self, fun: u8) -> (r: Self)
        ensures
            sets_field(self@, r@, 0xC0, (fun as u32) << 6),
    {
        let w = self.word;
        let v = fun as u32;
        let n = (w & !0xC0u32) | ((v & 0x03) << 6);
        assert(sets_field(w, n, 0xC0, v << 6)) by (bit_vector)
            requires
                n == (w & !0xC0u32) | ((v & 0x03) << 6),
        ;
        InstrBuilder { word: n }
    }

    /// Sets the 4-bit function extension (bits 20-23).
    pub fn fun4(self, fun: u8) -> (r: Self)
        ensures
            sets_field(self@, r@, 0xF00000, (fun as u32) << 20),
    {
        let w = self.word;
        let v = fun as u32;
        let n = (w & !0xF00000u32) | ((v & 0x0F) << 20);
        assert(sets_field(w, n, 0xF00000, v << 20)) by (bit_vector)
            requires
                n == (w & !0xF00000u32) | ((v & 0x0F) << 20),
        ;
        InstrBuilder { word: n }
    }

    /// Sets a 4-bit register field at `shift`.
    fn set_reg(self, value: u8, shift: u32) -> (r: Self)
        requires
            shift == 8 || shift == 12 || shift == 16,
        ensures
            sets_field(self@, r@, 0xFu32 << shift, (value as u32) << shift),
    {
        let w = self.word;
        let v = value as u32;
        let n = (w & !(0x0Fu32 << shift)) | ((v & 0x0F) << shift);
        assert(sets_field(w, n, 0xFu32 << shift, v << shift)) by (bit_vector)
            requires
                n == (w & !(0x0Fu32 << shift)) | ((v & 0x0F) << shift),
                shift == 8 || shift == 12 || shift == 16,
        ;
        InstrBuilder { word: n }
    }

    /// Sets `rd` (bits 8-11).
    pub fn rd(self, reg: u8) -> (r: Self)
        ensures
            sets_field(self@, r@, 0xF00, (reg as u32) << 8),
    {
        let r = self.set_reg(reg, 8);
        assert(0xFu32 << 8u32 == 0xF00) by (bit_vector);
        r
    }

    /// Sets `rs1` (bits 12-15).
    pub fn rs1(self, reg: u8) -> (r: Self)
        ensures
            sets_field(self@, r@, 0xF000, (reg as u32) << 12),
    {
        let r = self.set_reg(reg, 12);
        assert(0xFu32 << 12u32 == 0xF000) by (bit_vector);
        r
    }

    /// Sets `rs2` (bits 16-19).
    pub fn rs2(self, reg: u8) -> (r: Self)
        ensures
            sets_field(self@, r@, 0xF0000, (reg as u32) << 16),
    {
        let r = self.set_reg(reg, 16);
        assert(0xFu32 << 16u32 == 0xF0000) by (bit_vector);
        r
    }

    /// Sets an 8-bit immediate (bits 16-23).
    pub fn imm8(self, imm: u8) -> (r: Self)
        ensures
            sets_field(self@, r@, 0xFF0000, (imm as u32) << 16),
    {
        let w = self.word;
        let v = imm as u32;
        let n = (w & !0xFF0000u32) | ((v & 0xFF) << 16);
        assert(sets_field(w, n, 0xFF0000, v << 16)) by (bit_vector)
            requires
                n == (w & !0xFF0000u32) | ((v & 0xFF) << 16),
        ;
        InstrBuilder { word: n }
    }

    /// Sets a 12-bit immediate (bits 12-23).
    pub fn imm12(self, imm: u16) -> (r: Self)
        ensures
            sets_field(self@, r@, 0xFFF000, (imm as u32) << 12),
    {
        let w = self.word;
        let v = imm as u32;
        let n = (w & !0xFFF000u32) | ((v & 0xFFF) << 12);
        assert(sets_field(w, n, 0xFFF000, v << 12)) by (bit_vector)
            requires
                n == (w & !0xFFF000u32) | ((v & 0xFFF) << 12),
        ;
        InstrBuilder { word: n }
    }

    /// The finished 24-bit word.
    pub fn finalize(self) -> (r: u32)
        ensures
            r == self@ & 0xFFFFFF,
    {
        self.word & 0xFFFFFF
    }
}

proof fn lemma_opcode_on_zero(w: u32, op: u32)
    requires
        sets_field(0, w, 0x3F, op),
        op < 64,
    ensures
        w == op,
{
    assert(sets_field(0, w, 0x3F, op) && op < 64 ==> w == op) by (bit_vector);
}

proof fn lemma_set_rd(w: u32, n: u32, v: u32)
    requires
        sets_field(w, n, 0xF00, v << 8),
        w < 0x100,
        v < 16,
    ensures
        n == w + v * 0x100,
{
    assert(sets_field(w, n, 0xF00, v << 8) && w < 0x100 && v < 16 ==> n == w + v * 0x100)
        by (bit_vector);
}

proof fn lemma_set_rs1(w: u32, n: u32, v: u32)
    requires
        sets_field(w, n, 0xF000, v << 12),
        w < 0x1000,
        v < 16,
    ensures
        n == w + v * 0x1000,
{
    assert(sets_field(w, n, 0xF000, v << 12) && w < 0x1000 && v < 16 ==> n == w + v * 0x1000)
        by (bit_vector);
}

proof fn lemma_set_rs2(w: u32, n: u32, v: u32)
    requires
        sets_field(w, n, 0xF0000, v << 16),
        w < 0x10000,
        v < 16,
    ensures
        n == w + v * 0x10000,
{
    assert(sets_field(w, n, 0xF0000, v << 16) && w < 0x10000 && v < 16 ==> n == w + v * 0x10000)
        by (bit_vector);
}

proof fn lemma_set_imm8(w: u32, n: u32, v: u32)
    requires
        sets_field(w, n, 0xFF0000, v << 16),
        w < 0x10000,
        v < 256,
    ensures
        n == w + v * 0x10000,
{
    assert(sets_field(w, n, 0xFF0000, v << 16) && w < 0x10000 && v < 256 ==> n == w + v
        * 0x10000) by (bit_vector);
}

proof fn lemma_set_imm12(w: u32, n: u32, v: u32)
    requires
        sets_field(w, n, 0xFFF000, v << 12),
        w < 0x1000,
        v < 0x1000,
    ensures
        n == w + v * 0x1000,
{
    assert(sets_field(w, n, 0xFFF000, v << 12) && w < 0x1000 && v < 0x1000 ==> n == w + v
        * 0x1000) by (bit_vector);
}

proof fn lemma_low24(w: u32)
    requires
        w < 0x1000000,
    ensures
        w & 0xFFFFFF == w,
{
    assert(w < 0x1000000 ==> w & 0xFFFFFF == w) by (bit_vector);
}

/// Opcode of `halt`: the all-zero word.
pub const OP_HALT: u8 = 0;

/// Opcode of `addi`; `mv rd, rs1` is `addi rd, rs1, 0` and `nop` is `addi r0, r0, 0`.
pub const OP_ADDI: u8 = 1;

/// Opcode of `add`.
pub const OP_ADD: u8 = 2;

/// Opcode of `sub`.
pub const OP_SUB: u8 = 3;

/// Opcode of `jmp`, whose target takes the 12-bit immediate field.
pub const OP_JMP: u8 = 4;

/// A machine word: only the low 24 bits are used.
pub type MachineCode = u32;

/// The word with opcode `op`, `rd` in bits 8-11, `rs1` in bits 12-15 and
/// `hi` in bits 16-23.
pub open spec fn pack(op: u8, rd: u8, rs1: u8, hi: u8) -> u32 {
    (op + rd * 0x100 + rs1 * 0x1000 + hi * 0x10000) as u32
}

/// The word with opcode `op` and the 12-bit immediate `imm` in bits 12-23.
pub open spec fn pack_wide(op: u8, imm: u16) -> u32 {
    (op + imm * 0x1000) as u32
}

/// A failure to encode an instruction.
#[derive(Debug, PartialEq, Eq)]
pub enum AsmError {
    /// The instruction has no encoding.
    UnknownInstruction(Instr),
    /// A register index outside 0 to 15.
    InvalidRegister(u8),
    /// An operand slot holds the wrong kind of operand.
    InvalidOperand(Instr),
    /// An immediate does not fit its field.
    ImmOverflow(u16),
}

/// The first register index of `regs` that names no register, if any.
pub open spec fn bad_register(regs: Seq<u8>) -> Option<u8>
    decreases regs.len(),
{
    if regs.len() == 0 {
        None
    } else if regs[0] >= 16 {
        Some(regs[0])
    } else {
        bad_register(regs.drop_first())
    }
}

/// The word for registers `regs` (checked in order) packed by `word`.
pub open spec fn checked_word(regs: Seq<u8>, word: u32) -> Result<u32, AsmError> {
    match bad_register(regs) {
        Some(r) => Err(AsmError::InvalidRegister(r)),
        None => Ok(word),
    }
}

/// What encoding a resolved instruction gives.
pub open spec fn encode_spec(i: Instr) -> Result<u32, AsmError> {
    match i {
        Instr::Halt => Ok(0),
        Instr::Nop => Ok(pack(OP_ADDI, 0, 0, 0)),
        Instr::Mv { rd: Op::Reg(d), rs1: Op::Reg(a) } => checked_word(seq![d, a], pack(OP_ADDI, d, a, 0)),
        Instr::Mv { .. } => Err(AsmError::InvalidOperand(i)),
        Instr::Addi { rd: Op::Reg(d), rs1: Op::Reg(a), imm: Op::Imm8(v) } => checked_word(
            seq![d, a],
            pack(OP_ADDI, d, a, v),
        ),
        Instr::Addi { .. } => Err(AsmError::InvalidOperand(i)),
        Instr::Add { rd: Op::Reg(d), rs1: Op::Reg(a), rs2: Op::Reg(b) } => checked_word(
            seq![d, a, b],
            pack(OP_ADD, d, a, b),
        ),
        Instr::Add { .. } => Err(AsmError::InvalidOperand(i)),
        Instr::Sub { rd: Op::Reg(d), rs1: Op::Reg(a), rs2: Op::Reg(b) } => checked_word(
            seq![d, a, b],
            pack(OP_SUB, d, a, b),
        ),
        Instr::Sub { .. } => Err(AsmError::InvalidOperand(i)),
        Instr::Jmp { imm: Op::Imm12(t) } => if t > 0xFFF {
            Err(AsmError::ImmOverflow(t))
        } else {
            Ok(pack_wide(OP_JMP, t))
        },
        Instr::Jmp { .. } => Err(AsmError::InvalidOperand(i)),
        _ => Err(AsmError::UnknownInstruction(i)),
    }
}

/// The word for `op`, `rd`, `rs1` and the 8-bit field `hi` (bits 16-23);
/// `hi_is_reg` sets it through the 4-bit `rs2` field.
fn pack_word(op: u8, rd: u8, rs1: u8, hi: u8, hi_is_reg: bool) -> (r: u32)
    requires
        op < 64,
        rd < 16,
        rs1 < 16,
        hi_is_reg ==> hi < 16,
    ensures
        r == pack(op, rd, rs1, hi),
{
    let b0 = InstrBuilder::new();
    let b1 = b0.opcode(op);
    let b2 = b1.rd(rd);
    let b3 = b2.rs1(rs1);
    let b4 = if hi_is_reg {
        b3.rs2(hi)
    } else {
        b3.imm8(hi)
    };
    proof {
        lemma_opcode_on_zero(b1@, op as u32);
        lemma_set_rd(b1@, b2@, rd as u32);
        lemma_set_rs1(b2@, b3@, rs1 as u32);
        if hi_is_reg {
            lemma_set_rs2(b3@, b4@, hi as u32);
        } else {
            lemma_set_imm8(b3@, b4@, hi as u32);
        }
        lemma_low24(b4@);
    }
    b4.finalize()
}

/// Checks that a register index names a register.
fn check_reg(r: u8) -> (res: Result<(), AsmError>)
    ensures
        r < 16 ==> res is Ok,
        r >= 16 ==> res == Err::<(), AsmError>(AsmError::InvalidRegister(r)),
{
    if r < 16 {
        Ok(())
    } else {
        Err(AsmError::InvalidRegister(r))
    }
}

/// Encodes one resolved instruction as a 24-bit word.
pub fn encode(instr: &Instr) -> (r: Result<MachineCode, AsmError>)
    requires
        !(*instr is Label),
    ensures
        r == encode_spec(*instr),
{
    proof {
        reveal_with_fuel(bad_register, 4);
    }
    match instr {
        Instr::Label(_) => Err(AsmError::UnknownInstruction(instr.clone())),
        Instr::Halt => Ok(0),
        Instr::Nop => Ok(pack_word(OP_ADDI, 0, 0, 0, false)),
        Instr::Mv { rd, rs1 } => match (rd, rs1) {
            (Op::Reg(d), Op::Reg(a)) => {
                if let Err(e) = check_reg(*d) {
                    return Err(e);
                }
                if let Err(e) = check_reg(*a) {
                    return Err(e);
                }
                Ok(pack_word(OP_ADDI, *d, *a, 0, false))
            },
            _ => Err(AsmError::InvalidOperand(instr.clone())),
        },
        Instr::Addi { rd, rs1, imm } => match (rd, rs1, imm) {
            (Op::Reg(d), Op::Reg(a), Op::Imm8(v)) => {
                if let Err(e) = check_reg(*d) {
                    return Err(e);
                }
                if let Err(e) = check_reg(*a) {
                    return Err(e);
                }
                Ok(pack_word(OP_ADDI, *d, *a, *v, false))
            },
            _ => Err(AsmError::InvalidOperand(instr.clone())),
        },
        Instr::Add { rd, rs1, rs2 } | Instr::Sub { rd, rs1, rs2 } => match (rd, rs1, rs2) {
            (Op::Reg(d), Op::Reg(a), Op::Reg(b)) => {
                if let Err(e) = check_reg(*d) {
                    return Err(e);
                }
                if let Err(e) = check_reg(*a) {
                    return Err(e);
                }
                if let Err(e) = check_reg(*b) {
                    return Err(e);
                }
                let op = if let Instr::Add { .. } = instr {
                    OP_ADD
                } else {
                    OP_SUB
                };
                Ok(pack_word(op, *d, *a, *b, true))
            },
            _ => Err(AsmError::InvalidOperand(instr.clone())),
        },
        Instr::Jmp { imm } => match imm {
            Op::Imm12(t) => {
                if *t > 0xFFF {
                    return Err(AsmError::ImmOverflow(*t));
                }
                let b1 = InstrBuilder::new().opcode(OP_JMP);
                let b2 = b1.imm12(*t);
                proof {
                    lemma_opcode_on_zero(b1@, OP_JMP as u32);
                    lemma_set_imm12(b1@, b2@, *t as u32);
                    lemma_low24(b2@);
                }
                Ok(b2.finalize())
            },
            _ => Err(AsmError::InvalidOperand(instr.clone())),
        },
        _ => Err(AsmError::UnknownInstruction(instr.clone())),
    }
}

/// Encoding of the first `n` instructions of `p`: their words in order, or
/// the failure of the first that cannot be encoded.
pub open spec fn encode_prefix(p: Seq<Instr>, n: int) -> Result<Seq<u32>, AsmError>
    decreases n,
{
    if n <= 0 {
        Ok(Seq::empty())
    } else {
        match encode_prefix(p, n - 1) {
            Err(e) => Err(e),
            Ok(ws) => match encode_spec(p[n - 1]) {
                Ok(w) => Ok(ws.push(w)),
                Err(e) => Err(e),
            },
        }
    }
}

proof fn lemma_encode_err_sticks(p: Seq<Instr>, k: int, n: int)
    requires
        k <= n,
        encode_prefix(p, k) is Err,
    ensures
        encode_prefix(p, n) == encode_prefix(p, k),
    decreases n - k,
{
    if k < n {
        lemma_encode_err_sticks(p, k, n - 1);
    }
}

/// Encodes each instruction of a resolved program in order: the word at
/// index `i` is the encoding of the instruction at address `i`.
pub fn encode_program(instrs: &[Instr]) -> (r: Result<Vec<MachineCode>, AsmError>)
    requires
        forall|i: int| 0 <= i < instrs@.len() ==> !(#[trigger] instrs@[i] is Label),
    ensures
        match encode_prefix(instrs@, instrs@.len() as int) {
            Ok(ws) => match r {
                Ok(out) => out@ == ws,
                Err(_) => false,
            },
            Err(e) => r == Err::<Vec<MachineCode>, AsmError>(e),
        },
{
    let mut out: Vec<MachineCode> = Vec::new();
    let mut i: usize = 0;
    while i < instrs.len()
        invariant
            i <= instrs@.len(),
            forall|j: int| 0 <= j < instrs@.len() ==> !(#[trigger] instrs@[j] is Label),
            encode_prefix(instrs@, i as int) == Ok::<Seq<u32>, AsmError>(out@),
        decreases instrs@.len() - i,
    {
        match encode(&instrs[i]) {
            Ok(word) => out.push(word),
            Err(e) => {
                proof {
                    lemma_encode_err_sticks(instrs@, i + 1, instrs@.len() as int);
                }
                return Err(e);
            },
        }
        i = i + 1;
    }
    Ok(out)
}

/// An instruction whose register operands `regs` include one of 16 or more
/// has no encoding.
pub proof fn lemma_encode_rejects_register(instr: Instr, regs: Seq<u8>, k: int)
    requires
        regs == crate::vm::register_operands(instr),
        crate::vm::operands_fit(instr),
        0 <= k < regs.len(),
        regs[k] >= 16,
    ensures
        encode_spec(instr) is Err,
{
    reveal_with_fuel(bad_register, 4);
    match instr {
        Instr::Mv { rd: Op::Reg(d), rs1: Op::Reg(a) } | Instr::Addi { rd: Op::Reg(d), rs1: Op::Reg(a), .. } => {
            assert(regs =~= seq![d, a]);
            assert(seq![d, a].drop_first() =~= seq![a]);
        },
        Instr::Add { rd: Op::Reg(d), rs1: Op::Reg(a), rs2: Op::Reg(b) } | Instr::Sub {
            rd: Op::Reg(d),
            rs1: Op::Reg(a),
            rs2: Op::Reg(b),
        } => {
            assert(regs =~= seq![d, a, b]);
            assert(seq![d, a, b].drop_first() =~= seq![a, b]);
            assert(seq![a, b].drop_first() =~= seq![b]);
        },
        _ => {},
    }
}

} // verus!
