//! Machine state: program counter, register file and ALU flags.

use vstd::prelude::*;
use vstd::array::{spec_array_fill_for_copy_type, spec_array_update};

verus! {

broadcast use vstd::array::group_array_axioms;

/// The writable registers `r1` to `r15`; `r0` has no storage and always reads 0.
#[derive(Debug, Clone, Copy)]
pub struct Registers(pub [u8; 15]);

impl Registers {
    /// What reading register `reg` yields: 0 for `r0`, the stored byte for
    /// `r1` to `r15`, nothing for an index that names no register.
    pub open spec fn read(self, reg: u8) -> Option<u8> {
        if reg == 0 {
            Some(0u8)
        } else if reg < 16 {
            Some(self.0@[reg - 1])
        } else {
            None
        }
    }

    /// The register file after writing `v` to `reg`: unchanged for `r0`,
    /// nothing for an index that names no register.
    pub open spec fn written(self, reg: u8, v: u8) -> Option<Registers> {
        if reg == 0 {
            Some(self)
        } else if reg < 16 {
            Some(Registers(spec_array_update(self.0, reg - 1, v)))
        } else {
            None
        }
    }

    /// Reads a register; `None` if there is no such register.
    pub fn r(&self, reg: u8) -> (res: Option<u8>)
        ensures
            res == self.read(reg),
    {
        if reg == 0 {
            Some(0)
        } else if reg < 16 {
            Some(self.0[(reg - 1) as usize])
        } else {
            None
        }
    }

    /// Writes a register; `Err` if there is no such register, in which case
    /// nothing changes.
    pub fn w(&mut self, reg: u8, v: u8) -> (res: Result<(), ()>)
        ensures
            match old(self).written(reg, v) {
                Some(n) => res is Ok && *final(self) == n,
                None => res is Err && *final(self) == *old(self),
            },
    {
        if reg == 0 {
            Ok(())
        } else if reg < 16 {
            self.0[(reg - 1) as usize] = v;
            Ok(())
        } else {
            Err(())
        }
    }
}

impl Default for Registers {
    fn default() -> (r: Self)
        ensures
            forall|i: int| 0 <= i < 15 ==> r.0@[i] == 0,
    {
        Registers([0u8; 15])
    }
}

/// The ALU flags.
#[derive(Debug, Clone, Copy)]
pub struct Flags {
    pub zero: bool,
    pub overflow: bool,
}

impl Default for Flags {
    fn default() -> (r: Self)
        ensures
            r.zero,
            !r.overflow,
    {
        Flags { zero: true, overflow: false }
    }
}

impl From<(bool, bool)> for Flags {
    fn from(value: (bool, bool)) -> (r: Self) {
        Flags { zero: value.0, overflow: value.1 }
    }
}

impl vstd::std_specs::convert::FromSpecImpl<(bool, bool)> for Flags {
    open spec fn obeys_from_spec() -> bool {
        true
    }

    open spec fn from_spec(v: (bool, bool)) -> Flags {
        Flags { zero: v.0, overflow: v.1 }
    }
}

/// The state of the virtual machine.
#[derive(Debug, Clone, Copy)]
pub struct State {
    /// Program counter.
    pub pc: u16,
    /// Registers.
    pub regs: Registers,
    /// ALU flags.
    pub flags: Flags,
}

impl State {
    /// The state a run starts from by default: PC 0, every register 0,
    /// the zero flag set and the overflow flag clear.
    pub open spec fn initial() -> State {
        State {
            pc: 0,
            regs: Registers(spec_array_fill_for_copy_type::<u8, 15>(0u8)),
            flags: Flags { zero: true, overflow: false },
        }
    }

    pub fn new() -> (r: Self)
        ensures
            r == State::initial(),
    {
        State { pc: 0, regs: Registers([0u8; 15]), flags: Flags { zero: true, overflow: false } }
    }
}

impl Default for State {
    fn default() -> (r: Self)
        ensures
            r == State::initial(),
    {
        State::new()
    }
}

} // verus!
