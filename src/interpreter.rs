//! Running a resolved program until it halts or faults.

use vstd::prelude::*;
use crate::ast::{Instr, Program};
use crate::state::State;
use crate::ast::Op;
use crate::vm::{interpret, reset_flags, step, InterpreterError};

verus! {

/// The state a run starts from: the one given, or the initial state.
pub open spec fn start_state(initial_state: Option<State>) -> State {
    match initial_state {
        Some(s) => s,
        None => State::initial(),
    }
}

/// Runs `p` from `s` for at most `fuel` instructions: fetch the instruction
/// at the PC, execute it, and continue at the address it gives. Returns the
/// fault that stopped the run (`None` for a halt) and the final state.
pub open spec fn run(p: Seq<Instr>, s: State, fuel: nat) -> (Option<InterpreterError>, State)
    decreases fuel,
{
    if fuel == 0 {
        (Some(InterpreterError::StepLimitReached), s)
    } else if s.pc >= p.len() {
        (Some(InterpreterError::PCOutOfBounds(s.pc)), s)
    } else {
        match step(p[s.pc as int], s) {
            Ok((Some(a), s2)) => run(p, State { pc: a, ..s2 }, (fuel - 1) as nat),
            Ok((None, s2)) => (None, s2),
            Err(e) => (Some(e), s),
        }
    }
}

/// Interprets `prg` for at most `max_steps` instructions, from the given
/// state or the initial one. Returns the fault that stopped the run (`None`
/// when it halted) and the final machine state.
pub fn interpret_bounded(prg: &Program, initial_state: Option<State>, max_steps: u64) -> (r: (
    Option<InterpreterError>,
    State,
))
    ensures
        r == run(prg@, start_state(initial_state), max_steps as nat),
{
    let mut state = match initial_state {
        Some(s) => s,
        None => State::new(),
    };
    let mut fuel: u64 = max_steps;
    loop
        invariant
            run(prg@, state, fuel as nat) == run(prg@, start_state(initial_state), max_steps as nat),
        decreases fuel,
    {
        if fuel == 0 {
            return (Some(InterpreterError::StepLimitReached), state);
        }
        if state.pc as usize >= prg.len() {
            return (Some(InterpreterError::PCOutOfBounds(state.pc)), state);
        }
        match interpret(&prg[state.pc as usize], &mut state) {
            Ok(Some(a)) => {
                state.pc = a;
            },
            Ok(None) => {
                return (None, state);
            },
            Err(e) => {
                return (Some(e), state);
            },
        }
        fuel = fuel - 1;
    }
}

/// Interprets `prg` until it halts or faults, from the given state or the
/// initial one, with a step budget of `u64::MAX` instructions. Returns the
/// fault that stopped the run (`None` when it halted) and the final state.
pub fn interpret_program(prg: Program, initial_state: Option<State>) -> (r: (
    Option<InterpreterError>,
    State,
))
    ensures
        r == run(prg@, start_state(initial_state), u64::MAX as nat),
{
    interpret_bounded(&prg, initial_state, u64::MAX)
}

/// A jump to an address past the end of the program makes the next fetch
/// fault with that address out of bounds, given a budget of two steps or more.
pub proof fn lemma_jump_out_of_bounds(p: Seq<Instr>, s: State, t: u16, fuel: nat)
    requires
        s.pc < p.len(),
        p[s.pc as int] == (Instr::Jmp { imm: Op::Imm12(t) }),
        t >= p.len(),
        fuel >= 2,
    ensures
        run(p, s, fuel) == (
            Some(InterpreterError::PCOutOfBounds(t)),
            State { pc: t, regs: s.regs, flags: reset_flags() },
        ),
{
    let s2 = State { pc: t, regs: s.regs, flags: reset_flags() };
    assert(run(p, s, fuel) == run(p, s2, (fuel - 1) as nat));
}

} // verus!
