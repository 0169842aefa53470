//! Execution of a single instruction against the machine state.

use vstd::prelude::*;
use crate::ast::{Instr, Op};
use crate::state::{Flags, Registers, State};

verus! {

/// A fault raised while interpreting.
#[derive(Debug, PartialEq, Eq)]
pub enum InterpreterError {
    /// The instruction has no execution behaviour (a label pseudo-instruction).
    InvalidInstruction(Instr),
    /// An operand slot holds the wrong kind of operand.
    InvalidOperands(Instr),
    /// A register index outside 0 to 15.
    InvalidRegister(u8),
    /// The program counter points past the end of the program.
    PCOutOfBounds(u16),
    /// A bounded run used up its step budget before halting.
    StepLimitReached,
}

/// The address after `pc`, wrapping at the top of the 16-bit address space.
pub open spec fn next_pc(pc: u16) -> u16 {
    ((pc + 1) % 0x10000) as u16
}

/// Flags after an instruction that resets them.
pub open spec fn reset_flags() -> Flags {
    Flags { zero: true, overflow: false }
}

/// Outcome of an ALU instruction that computed `res` for register `rd`.
pub open spec fn alu_outcome(s: State, rd: u8, res: u8, zero: bool, overflow: bool) -> Result<
    (Option<u16>, State),
    InterpreterError,
> {
    match s.regs.written(rd, res) {
        Some(regs) => Ok(
            (Some(next_pc(s.pc)), State { pc: s.pc, regs, flags: Flags { zero, overflow } }),
        ),
        None => Err(InterpreterError::InvalidRegister(rd)),
    }
}

/// Outcome of a unary instruction: `rd <- f(rs1)`.
pub open spec fn unary_outcome(instr: Instr, s: State, rd: Op, rs1: Op) -> Result<
    (Option<u16>, State),
    InterpreterError,
> {
    match (rd, rs1) {
        (Op::Reg(d), Op::Reg(a)) => match s.regs.read(a) {
            None => Err(InterpreterError::InvalidRegister(a)),
            Some(va) => {
                let res: u8 = if instr is Not { !va } else { va };
                alu_outcome(s, d, res, res == 0, false)
            },
        },
        _ => Err(InterpreterError::InvalidOperands(instr)),
    }
}

/// The result and overflow flag of a binary ALU operation.
pub open spec fn alu(instr: Instr, a: u8, b: u8) -> (u8, bool) {
    match instr {
        Instr::Add { .. } | Instr::Addi { .. } => (((a + b) % 256) as u8, a + b > 255),
        Instr::Sub { .. } => (((a - b) % 256) as u8, a < b),
        Instr::And { .. } | Instr::Andi { .. } => (a & b, false),
        Instr::Or { .. } | Instr::Ori { .. } => (a | b, false),
        _ => (a ^ b, false),
    }
}

/// Whether `src2` has the kind that the second source slot wants: an 8-bit
/// immediate in the immediate forms, a register otherwise.
pub open spec fn second_source_fits(src2: Op, imm_form: bool) -> bool {
    if imm_form {
        src2 is Imm8
    } else {
        src2 is Reg
    }
}

/// Outcome of a binary instruction whose second source is a register
/// (`imm_form` false) or an 8-bit immediate (`imm_form` true).
pub open spec fn binary_outcome(
    instr: Instr,
    s: State,
    rd: Op,
    rs1: Op,
    src2: Op,
    imm_form: bool,
) -> Result<(Option<u16>, State), InterpreterError> {
    if !(rd is Reg && rs1 is Reg && second_source_fits(src2, imm_form)) {
        Err(InterpreterError::InvalidOperands(instr))
    } else {
        match s.regs.read(rs1->Reg_0) {
            None => Err(InterpreterError::InvalidRegister(rs1->Reg_0)),
            Some(va) => match src2 {
                Op::Imm8(vb) => {
                    let (res, ovf) = alu(instr, va, vb);
                    alu_outcome(s, rd->Reg_0, res, res == 0, ovf)
                },
                _ => match s.regs.read(src2->Reg_0) {
                    None => Err(InterpreterError::InvalidRegister(src2->Reg_0)),
                    Some(vb) => {
                        let (res, ovf) = alu(instr, va, vb);
                        alu_outcome(s, rd->Reg_0, res, res == 0, ovf)
                    },
                },
            },
        }
    }
}

/// What executing `instr` in state `s` does: the next PC (`None` to halt)
/// and the new state, or a fault, in which case the state is left unchanged.
/// The new state keeps the PC of `s`; the caller moves it.
pub open spec fn step(instr: Instr, s: State) -> Result<(Option<u16>, State), InterpreterError> {
    match instr {
        Instr::Halt => Ok((None, State { flags: reset_flags(), ..s })),
        Instr::Nop => Ok((Some(next_pc(s.pc)), State { flags: reset_flags(), ..s })),
        Instr::Mv { rd, rs1 } => unary_outcome(instr, s, rd, rs1),
        Instr::Not { rd, rs1 } => unary_outcome(instr, s, rd, rs1),
        Instr::Add { rd, rs1, rs2 } => binary_outcome(instr, s, rd, rs1, rs2, false),
        Instr::Sub { rd, rs1, rs2 } => binary_outcome(instr, s, rd, rs1, rs2, false),
        Instr::And { rd, rs1, rs2 } => binary_outcome(instr, s, rd, rs1, rs2, false),
        Instr::Or { rd, rs1, rs2 } => binary_outcome(instr, s, rd, rs1, rs2, false),
        Instr::Xor { rd, rs1, rs2 } => binary_outcome(instr, s, rd, rs1, rs2, false),
        Instr::Addi { rd, rs1, imm } => binary_outcome(instr, s, rd, rs1, imm, true),
        Instr::Andi { rd, rs1, imm } => binary_outcome(instr, s, rd, rs1, imm, true),
        Instr::Ori { rd, rs1, imm } => binary_outcome(instr, s, rd, rs1, imm, true),
        Instr::Xori { rd, rs1, imm } => binary_outcome(instr, s, rd, rs1, imm, true),
        Instr::Jmp { imm } => match imm {
            Op::Imm12(t) => Ok((Some(t), State { flags: reset_flags(), ..s })),
            _ => Err(InterpreterError::InvalidOperands(instr)),
        },
        Instr::Bz { imm } => match imm {
            Op::Imm12(t) => Ok((Some(if s.flags.zero { t } else { next_pc(s.pc) }), s)),
            _ => Err(InterpreterError::InvalidOperands(instr)),
        },
        Instr::Bnz { imm } => match imm {
            Op::Imm12(t) => Ok((Some(if s.flags.zero { next_pc(s.pc) } else { t }), s)),
            _ => Err(InterpreterError::InvalidOperands(instr)),
        },
        Instr::Label(_) => Err(InterpreterError::InvalidInstruction(instr)),
    }
}

/// Wrapping 8-bit addition, with a flag telling whether it wrapped.
pub fn inbounds_add(a: u8, b: u8) -> (r: (u8, bool))
    ensures
        r.0 == (a + b) % 256,
        r.1 == (a + b > 255),
{
    match a.checked_add(b) {
        Some(s) => (s, false),
        None => (a.wrapping_add(b), true),
    }
}

/// Wrapping 8-bit subtraction, with a flag telling whether it wrapped.
pub fn inbounds_sub(a: u8, b: u8) -> (r: (u8, bool))
    ensures
        r.0 == (a - b) % 256,
        r.1 == (a < b),
{
    match a.checked_sub(b) {
        Some(s) => (s, false),
        None => (a.wrapping_sub(b), true),
    }
}

/// Register access that reports a missing register as an interpreter fault.
pub trait RegisterAccess: Sized {
    /// What reading `reg` yields, if there is such a register.
    spec fn reg_value(&self, reg: u8) -> Option<u8>;

    /// The registers after writing `val` to `reg`, if there is such a register.
    spec fn reg_written(&self, reg: u8, val: u8) -> Option<Self>;

    fn read_err(&self, reg: u8) -> (r: Result<u8, InterpreterError>)
        ensures
            match self.reg_value(reg) {
                Some(v) => r == Ok::<u8, InterpreterError>(v),
                None => r == Err::<u8, InterpreterError>(InterpreterError::InvalidRegister(reg)),
            },
    ;

    fn write_err(&mut self, reg: u8, val: u8) -> (r: Result<(), InterpreterError>)
        ensures
            match old(self).reg_written(reg, val) {
                Some(n) => r is Ok && *final(self) == n,
                None => r == Err::<(), InterpreterError>(InterpreterError::InvalidRegister(reg))
                    && *final(self) == *old(self),
            },
    ;
}

impl RegisterAccess for Registers {
    open spec fn reg_value(&self, reg: u8) -> Option<u8> {
        self.read(reg)
    }

    open spec fn reg_written(&self, reg: u8, val: u8) -> Option<Registers> {
        self.written(reg, val)
    }

    fn read_err(&self, reg: u8) -> (r: Result<u8, InterpreterError>) {
        match self.r(reg) {
            Some(v) => Ok(v),
            None => Err(InterpreterError::InvalidRegister(reg)),
        }
    }

    fn write_err(&mut self, reg: u8, val: u8) -> (r: Result<(), InterpreterError>) {
        match self.w(reg, val) {
            Ok(()) => Ok(()),
            Err(()) => Err(InterpreterError::InvalidRegister(reg)),
        }
    }
}

/// Whether a step's result and final state are those that `step` gives.
pub open spec fn step_taken(
    outcome: Result<(Option<u16>, State), InterpreterError>,
    r: Result<Option<u16>, InterpreterError>,
    before: State,
    after: State,
) -> bool {
    match outcome {
        Ok((next, s2)) => r == Ok::<Option<u16>, InterpreterError>(next) && after == s2,
        Err(e) => r == Err::<Option<u16>, InterpreterError>(e) && after == before,
    }
}

fn advance(pc: u16) -> (r: u16)
    ensures
        r == next_pc(pc),
{
    if pc == 0xFFFF {
        0
    } else {
        pc + 1
    }
}

fn finish_alu(state: &mut State, rd: u8, res: u8, zero: bool, overflow: bool) -> (r: Result<
    Option<u16>,
    InterpreterError,
>)
    ensures
        step_taken(alu_outcome(*old(state), rd, res, zero, overflow), r, *old(state), *final(state)),
{
    match state.regs.write_err(rd, res) {
        Ok(()) => {},
        Err(e) => return Err(e),
    }
    state.flags = Flags::from((zero, overflow));
    Ok(Some(advance(state.pc)))
}

fn exec_unary(instr: &Instr, state: &mut State, rd: &Op, rs1: &Op) -> (r: Result<
    Option<u16>,
    InterpreterError,
>)
    ensures
        step_taken(unary_outcome(*instr, *old(state), *rd, *rs1), r, *old(state), *final(state)),
{
    match (rd, rs1) {
        (Op::Reg(d), Op::Reg(a)) => {
            let va = match state.regs.read_err(*a) {
                Ok(v) => v,
                Err(e) => return Err(e),
            };
            let res: u8 = if let Instr::Not { .. } = instr {
                !va
            } else {
                va
            };
            finish_alu(state, *d, res, res == 0, false)
        },
        _ => Err(InterpreterError::InvalidOperands(instr.clone())),
    }
}

fn exec_alu(instr: &Instr, a: u8, b: u8) -> (r: (u8, bool))
    ensures
        r == alu(*instr, a, b),
{
    match instr {
        Instr::Add { .. } | Instr::Addi { .. } => inbounds_add(a, b),
        Instr::Sub { .. } => inbounds_sub(a, b),
        Instr::And { .. } | Instr::Andi { .. } => (a & b, false),
        Instr::Or { .. } | Instr::Ori { .. } => (a | b, false),
        _ => (a ^ b, false),
    }
}

fn exec_binary(instr: &Instr, state: &mut State, rd: &Op, rs1: &Op, src2: &Op, imm_form: bool) -> (r:
    Result<Option<u16>, InterpreterError>)
    ensures
        step_taken(
            binary_outcome(*instr, *old(state), *rd, *rs1, *src2, imm_form),
            r,
            *old(state),
            *final(state),
        ),
{
    let (d, a) = match (rd, rs1) {
        (Op::Reg(d), Op::Reg(a)) => (*d, *a),
        _ => return Err(InterpreterError::InvalidOperands(instr.clone())),
    };
    let vb_imm: Option<u8> = if imm_form {
        match src2 {
            Op::Imm8(v) => Some(*v),
            _ => return Err(InterpreterError::InvalidOperands(instr.clone())),
        }
    } else {
        match src2 {
            Op::Reg(_) => None,
            _ => return Err(InterpreterError::InvalidOperands(instr.clone())),
        }
    };
    let va = match state.regs.read_err(a) {
        Ok(v) => v,
        Err(e) => return Err(e),
    };
    let vb = match vb_imm {
        Some(v) => v,
        None => {
            let b = match src2 {
                Op::Reg(b) => *b,
                _ => 0,
            };
            match state.regs.read_err(b) {
                Ok(v) => v,
                Err(e) => return Err(e),
            }
        },
    };
    let (res, ovf) = exec_alu(instr, va, vb);
    finish_alu(state, d, res, res == 0, ovf)
}

/// Interprets one instruction, updating the registers and flags of `state`.
/// Returns the next PC (without setting it), or `None` when the machine halts.
/// On a fault `state` is left unchanged.
pub fn interpret(instr: &Instr, state: &mut State) -> (r: Result<Option<u16>, InterpreterError>)
    ensures
        step_taken(step(*instr, *old(state)), r, *old(state), *final(state)),
{
    match instr {
        Instr::Halt => {
            state.flags = Flags::from((true, false));
            Ok(None)
        },
        Instr::Nop => {
            state.flags = Flags::from((true, false));
            Ok(Some(advance(state.pc)))
        },
        Instr::Mv { rd, rs1 } => exec_unary(instr, state, rd, rs1),
        Instr::Not { rd, rs1 } => exec_unary(instr, state, rd, rs1),
        Instr::Add { rd, rs1, rs2 } => exec_binary(instr, state, rd, rs1, rs2, false),
        Instr::Sub { rd, rs1, rs2 } => exec_binary(instr, state, rd, rs1, rs2, false),
        Instr::And { rd, rs1, rs2 } => exec_binary(instr, state, rd, rs1, rs2, false),
        Instr::Or { rd, rs1, rs2 } => exec_binary(instr, state, rd, rs1, rs2, false),
        Instr::Xor { rd, rs1, rs2 } => exec_binary(instr, state, rd, rs1, rs2, false),
        Instr::Addi { rd, rs1, imm } => exec_binary(instr, state, rd, rs1, imm, true),
        Instr::Andi { rd, rs1, imm } => exec_binary(instr, state, rd, rs1, imm, true),
        Instr::Ori { rd, rs1, imm } => exec_binary(instr, state, rd, rs1, imm, true),
        Instr::Xori { rd, rs1, imm } => exec_binary(instr, state, rd, rs1, imm, true),
        Instr::Jmp { imm } => match imm {
            Op::Imm12(t) => {
                state.flags = Flags::from((true, false));
                Ok(Some(*t))
            },
            _ => Err(InterpreterError::InvalidOperands(instr.clone())),
        },
        Instr::Bz { imm } => match imm {
            Op::Imm12(t) => {
                if state.flags.zero {
                    Ok(Some(*t))
                } else {
                    Ok(Some(advance(state.pc)))
                }
            },
            _ => Err(InterpreterError::InvalidOperands(instr.clone())),
        },
        Instr::Bnz { imm } => match imm {
            Op::Imm12(t) => {
                if state.flags.zero {
                    Ok(Some(advance(state.pc)))
                } else {
                    Ok(Some(*t))
                }
            },
            _ => Err(InterpreterError::InvalidOperands(instr.clone())),
        },
        Instr::Label(_) => Err(InterpreterError::InvalidInstruction(instr.clone())),
    }
}

/// The register written by an instruction, if it writes one.
pub open spec fn dest_register(instr: Instr) -> Option<u8> {
    match instr {
        Instr::Mv { rd: Op::Reg(d), .. } | Instr::Not { rd: Op::Reg(d), .. } | Instr::Add {
            rd: Op::Reg(d),
            ..
        } | Instr::Sub { rd: Op::Reg(d), .. } | Instr::And { rd: Op::Reg(d), .. } | Instr::Or {
            rd: Op::Reg(d),
            ..
        } | Instr::Xor { rd: Op::Reg(d), .. } | Instr::Addi { rd: Op::Reg(d), .. } | Instr::Andi {
            rd: Op::Reg(d),
            ..
        } | Instr::Ori { rd: Op::Reg(d), .. } | Instr::Xori { rd: Op::Reg(d), .. } => Some(d),
        _ => None,
    }
}

/// Register 0 reads as 0 in every register file, and writing it changes
/// nothing. So after any instruction, register 0 still reads 0, and an
/// instruction whose destination is register 0 leaves every register as it was.
pub proof fn lemma_register_zero(regs: Registers, v: u8, instr: Instr, s: State)
    ensures
        regs.read(0) == Some(0u8),
        regs.written(0, v) == Some(regs),
        match step(instr, s) {
            Ok((_, s2)) => s2.regs.read(0) == Some(0u8) && (dest_register(instr) == Some(0u8)
                ==> s2.regs == s.regs),
            Err(_) => true,
        },
{
}

/// Whether every operand slot of `instr` holds the kind of operand it takes
/// (registers, an 8-bit immediate for the immediate forms, a 12-bit
/// immediate for branches).
pub open spec fn operands_fit(instr: Instr) -> bool {
    match instr {
        Instr::Mv { rd, rs1 } | Instr::Not { rd, rs1 } => rd is Reg && rs1 is Reg,
        Instr::Add { rd, rs1, rs2 } | Instr::Sub { rd, rs1, rs2 } | Instr::And { rd, rs1, rs2 }
        | Instr::Or { rd, rs1, rs2 } | Instr::Xor { rd, rs1, rs2 } => rd is Reg && rs1 is Reg
            && rs2 is Reg,
        Instr::Addi { rd, rs1, imm } | Instr::Andi { rd, rs1, imm } | Instr::Ori { rd, rs1, imm }
        | Instr::Xori { rd, rs1, imm } => rd is Reg && rs1 is Reg && imm is Imm8,
        Instr::Jmp { imm } | Instr::Bz { imm } | Instr::Bnz { imm } => imm is Imm12,
        Instr::Halt | Instr::Nop => true,
        Instr::Label(_) => false,
    }
}

/// The register indices that the register-typed operands of `instr` hold.
pub open spec fn register_operands(instr: Instr) -> Seq<u8> {
    match instr {
        Instr::Mv { rd: Op::Reg(d), rs1: Op::Reg(a) } | Instr::Not {
            rd: Op::Reg(d),
            rs1: Op::Reg(a),
        } => seq![d, a],
        Instr::Add { rd: Op::Reg(d), rs1: Op::Reg(a), rs2: Op::Reg(b) } | Instr::Sub {
            rd: Op::Reg(d),
            rs1: Op::Reg(a),
            rs2: Op::Reg(b),
        } | Instr::And { rd: Op::Reg(d), rs1: Op::Reg(a), rs2: Op::Reg(b) } | Instr::Or {
            rd: Op::Reg(d),
            rs1: Op::Reg(a),
            rs2: Op::Reg(b),
        } | Instr::Xor { rd: Op::Reg(d), rs1: Op::Reg(a), rs2: Op::Reg(b) } => seq![d, a, b],
        Instr::Addi { rd: Op::Reg(d), rs1: Op::Reg(a), .. } | Instr::Andi {
            rd: Op::Reg(d),
            rs1: Op::Reg(a),
            ..
        } | Instr::Ori { rd: Op::Reg(d), rs1: Op::Reg(a), .. } | Instr::Xori {
            rd: Op::Reg(d),
            rs1: Op::Reg(a),
            ..
        } => seq![d, a],
        _ => Seq::empty(),
    }
}

proof fn lemma_unary_bad_register(instr: Instr, s: State, rd: Op, rs1: Op)
    requires
        rd is Reg && rs1 is Reg,
        rd->Reg_0 >= 16 || rs1->Reg_0 >= 16,
    ensures
        exists|r: u8|
            r >= 16 && unary_outcome(instr, s, rd, rs1) == Err::<(Option<u16>, State), InterpreterError>(
                InterpreterError::InvalidRegister(r),
            ),
{
    let r = if rs1->Reg_0 >= 16 {
        rs1->Reg_0
    } else {
        rd->Reg_0
    };
    assert(unary_outcome(instr, s, rd, rs1) == Err::<(Option<u16>, State), InterpreterError>(
        InterpreterError::InvalidRegister(r),
    ));
}

proof fn lemma_binary_bad_register(instr: Instr, s: State, rd: Op, rs1: Op, src2: Op, imm_form: bool)
    requires
        rd is Reg && rs1 is Reg && second_source_fits(src2, imm_form),
        rd->Reg_0 >= 16 || rs1->Reg_0 >= 16 || (!imm_form && src2->Reg_0 >= 16),
    ensures
        exists|r: u8|
            r >= 16 && binary_outcome(instr, s, rd, rs1, src2, imm_form) == Err::<
                (Option<u16>, State),
                InterpreterError,
            >(InterpreterError::InvalidRegister(r)),
{
    let r = if rs1->Reg_0 >= 16 {
        rs1->Reg_0
    } else if !imm_form && src2->Reg_0 >= 16 {
        src2->Reg_0
    } else {
        rd->Reg_0
    };
    assert(binary_outcome(instr, s, rd, rs1, src2, imm_form) == Err::<
        (Option<u16>, State),
        InterpreterError,
    >(InterpreterError::InvalidRegister(r)));
}

/// The fault of an instruction with a register operand of 16 or more.
pub open spec fn faults_on_register(instr: Instr, s: State) -> bool {
    exists|r: u8|
        r >= 16 && step(instr, s) == Err::<(Option<u16>, State), InterpreterError>(
            InterpreterError::InvalidRegister(r),
        )
}

proof fn lemma_unary_family(instr: Instr, s: State, k: int)
    requires
        instr is Mv || instr is Not,
        operands_fit(instr),
        0 <= k < register_operands(instr).len(),
        register_operands(instr)[k] >= 16,
    ensures
        faults_on_register(instr, s),
{
    match instr {
        Instr::Mv { rd, rs1 } | Instr::Not { rd, rs1 } => {
            assert(register_operands(instr) =~= seq![rd->Reg_0, rs1->Reg_0]);
            lemma_unary_bad_register(instr, s, rd, rs1);
        },
        _ => {},
    }
}

proof fn lemma_binary_family(instr: Instr, s: State, k: int)
    requires
        instr is Add || instr is Sub || instr is And || instr is Or || instr is Xor,
        operands_fit(instr),
        0 <= k < register_operands(instr).len(),
        register_operands(instr)[k] >= 16,
    ensures
        faults_on_register(instr, s),
{
    match instr {
        Instr::Add { rd, rs1, rs2 } | Instr::Sub { rd, rs1, rs2 } | Instr::And { rd, rs1, rs2 }
        | Instr::Or { rd, rs1, rs2 } | Instr::Xor { rd, rs1, rs2 } => {
            assert(register_operands(instr) =~= seq![rd->Reg_0, rs1->Reg_0, rs2->Reg_0]);
            lemma_binary_bad_register(instr, s, rd, rs1, rs2, false);
        },
        _ => {},
    }
}

proof fn lemma_immediate_family(instr: Instr, s: State, k: int)
    requires
        instr is Addi || instr is Andi || instr is Ori || instr is Xori,
        operands_fit(instr),
        0 <= k < register_operands(instr).len(),
        register_operands(instr)[k] >= 16,
    ensures
        faults_on_register(instr, s),
{
    match instr {
        Instr::Addi { rd, rs1, imm } | Instr::Andi { rd, rs1, imm } | Instr::Ori { rd, rs1, imm }
        | Instr::Xori { rd, rs1, imm } => {
            assert(register_operands(instr) =~= seq![rd->Reg_0, rs1->Reg_0]);
            lemma_binary_bad_register(instr, s, rd, rs1, imm, true);
        },
        _ => {},
    }
}

/// An instruction whose operands have the right kinds but one of whose
/// register operands is 16 or more faults with an invalid register (one of
/// 16 or more) in every state, and the encoder rejects it.
pub proof fn lemma_register_out_of_range(instr: Instr, s: State, k: int)
    requires
        operands_fit(instr),
        0 <= k < register_operands(instr).len(),
        register_operands(instr)[k] >= 16,
    ensures
        faults_on_register(instr, s),
        crate::encoder::encode_spec(instr) is Err,
{
    crate::encoder::lemma_encode_rejects_register(instr, register_operands(instr), k);
    if instr is Mv || instr is Not {
        lemma_unary_family(instr, s, k);
    } else if instr is Add || instr is Sub || instr is And || instr is Or || instr is Xor {
        lemma_binary_family(instr, s, k);
    } else if instr is Addi || instr is Andi || instr is Ori || instr is Xori {
        lemma_immediate_family(instr, s, k);
    }
}

} // verus!
