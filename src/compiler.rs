//! The compilation pipeline: parse, strip label declarations, replace label
//! references.

use vstd::prelude::*;
use crate::ast::{Instr, Program, instrs_view};
use crate::parser::{ParserError, parse_program, parse_program_spec};
use crate::symbol::{SymbolError, replace_symbols, resolve_spec, strip_symbols};

verus! {

/// A failure to compile a program.
#[derive(Debug, PartialEq, Eq)]
pub enum CompileError {
    /// A line does not parse.
    Parse(ParserError),
    /// Label resolution failed.
    Symbol(SymbolError),
    /// The program has more instructions and labels than the 16-bit address
    /// space can hold; carries how many it has.
    TooLarge(usize),
}

/// Whether `r` is what stripping and then replacing labels in `p` gives.
pub open spec fn resolved_as(p: Seq<Instr>, r: Result<Program, CompileError>) -> bool {
    match resolve_spec(p) {
        Ok(q) => match r {
            Ok(out) => out@ == q,
            Err(_) => false,
        },
        Err(e) => match r {
            Err(CompileError::Symbol(re)) => re@ == e,
            _ => false,
        },
    }
}

/// Compiles assembly text into a resolved program: parses it, strips the
/// label declarations into a table of addresses, and replaces label
/// references with those addresses.
pub fn compile_program(src: &str) -> (r: Result<Program, CompileError>)
    ensures
        match parse_program_spec(src@) {
            Err((n, d)) => match r {
                Err(CompileError::Parse(ParserError::Error(rn, rd))) => rn == n && rd@ == d,
                _ => false,
            },
            Ok(ms) => if ms.len() > 0x10000 {
                r == Err::<Program, CompileError>(CompileError::TooLarge(ms.len() as usize))
            } else {
                exists|p: Seq<Instr>| instrs_view(p) == ms && resolved_as(p, r)
            },
        },
{
    let prg = match parse_program(src) {
        Ok(p) => p,
        Err(e) => return Err(CompileError::Parse(e)),
    };
    proof {
        assert(instrs_view(prg@).len() == prg@.len());
    }
    if prg.len() > 0x10000 {
        return Err(CompileError::TooLarge(prg.len()));
    }
    let (stripped, symbols) = match strip_symbols(&prg) {
        Ok(x) => x,
        Err(e) => return Err(CompileError::Symbol(e)),
    };
    let r = match replace_symbols(&stripped, &symbols) {
        Ok(q) => Ok(q),
        Err(e) => Err(CompileError::Symbol(e)),
    };
    assert(resolved_as(prg@, r));
    r
}

} // verus!
