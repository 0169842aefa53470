//! Two-pass label resolution: strip label declarations into a table of
//! addresses, then replace label operands with those addresses.

use vstd::prelude::*;
use crate::ast::{Instr, Op, Program};

verus! {

/// A table from label names to addresses.
pub struct SymbolTable {
    entries: Vec<(String, u16)>,
    map: Ghost<Map<Seq<char>, u16>>,
}

impl View for SymbolTable {
    type V = Map<Seq<char>, u16>;

    closed spec fn view(&self) -> Map<Seq<char>, u16> {
        self.map@
    }
}

impl SymbolTable {
    /// Every entry is in the map with its address, and every key of the map
    /// has an entry.
    pub closed spec fn wf(&self) -> bool {
        &&& forall|i: int|
            0 <= i < self.entries@.len() ==> #[trigger] self.map@.contains_key(self.entries@[i].0@)
                && self.map@[self.entries@[i].0@] == self.entries@[i].1
        &&& forall|k: Seq<char>|
            #[trigger] self.map@.contains_key(k) ==> exists|i: int|
                0 <= i < self.entries@.len() && #[trigger] self.entries@[i].0@ == k
    }

    /// An empty table.
    pub fn new() -> (r: Self)
        ensures
            r.wf(),
            r@ == Map::<Seq<char>, u16>::empty(),
    {
        SymbolTable { entries: Vec::new(), map: Ghost(Map::empty()) }
    }

    /// The address of `name`, if the table has it.
    fn find(&self, name: &String) -> (r: Option<u16>)
        requires
            self.wf(),
        ensures
            match r {
                Some(a) => self@.contains_key(name@) && self@[name@] == a,
                None => !self@.contains_key(name@),
            },
    {
        let mut i: usize = 0;
        while i < self.entries.len()
            invariant
                self.wf(),
                i <= self.entries@.len(),
                forall|j: int| 0 <= j < i ==> self.entries@[j].0@ != name@,
            decreases self.entries@.len() - i,
        {
            if self.entries[i].0 == *name {
                assert(self.map@.contains_key(self.entries@[i as int].0@));
                return Some(self.entries[i].1);
            }
            i = i + 1;
        }
        None
    }

    /// The address of the label `name`, if the table has it.
    pub fn get(&self, name: &str) -> (r: Option<u16>)
        requires
            self.wf(),
        ensures
            r == (if self@.contains_key(name@) {
                Some(self@[name@])
            } else {
                None
            }),
    {
        let key: String = name.to_owned();
        self.find(&key)
    }

    /// Whether the table has no labels.
    pub fn is_empty(&self) -> (r: bool)
        requires
            self.wf(),
        ensures
            r == (self@.dom() == Set::<Seq<char>>::empty()),
    {
        let r = self.entries.len() == 0;
        proof {
            if r {
                assert(self@.dom() =~= Set::<Seq<char>>::empty());
            } else {
                assert(self@.contains_key(self.entries@[0].0@));
                assert(self@.dom().contains(self.entries@[0].0@));
            }
        }
        r
    }

    /// Records `name` at address `addr` unless the table already has `name`.
    /// Returns whether it was recorded; an existing entry is left as it is.
    pub fn insert(&mut self, name: String, addr: u16) -> (r: bool)
        requires
            old(self).wf(),
        ensures
            final(self).wf(),
            r == !old(self)@.contains_key(name@),
            r ==> final(self)@ == old(self)@.insert(name@, addr),
            !r ==> final(self)@ == old(self)@,
    {
        if self.find(&name).is_some() {
            return false;
        }
        let ghost key = name@;
        let ghost new_map = self.map@.insert(key, addr);
        let ghost old_entries = self.entries@;
        self.entries.push((name, addr));
        self.map = Ghost(new_map);
        proof {
            let n = old_entries.len() as int;
            assert(self.entries@[n].0@ == key);
            assert forall|i: int| 0 <= i < self.entries@.len() implies #[trigger] self.map@.contains_key(
                self.entries@[i].0@,
            ) && self.map@[self.entries@[i].0@] == self.entries@[i].1 by {
                if i < n {
                    assert(self.entries@[i] == old_entries[i]);
                    assert(old(self).map@.contains_key(old_entries[i].0@));
                }
            }
            assert forall|k: Seq<char>| #[trigger] self.map@.contains_key(k) implies exists|i: int|
                0 <= i < self.entries@.len() && #[trigger] self.entries@[i].0@ == k by {
                if k != key {
                    assert(old(self).map@.contains_key(k));
                    let i = choose|i: int| 0 <= i < old_entries.len() && #[trigger] old_entries[i].0@ == k;
                    assert(self.entries@[i] == old_entries[i]);
                }
            }
        }
        true
    }
}

/// A failure of symbol resolution.
#[derive(Debug, PartialEq, Eq)]
pub enum SymbolError {
    /// A label is declared twice.
    Duplicate(String),
    /// A branch refers to a label that is not declared.
    Undefined(String),
    /// A label declaration reached the replacement pass.
    Unstripped(String),
}

/// The mathematical view of a symbol error.
pub enum SymbolErrorV {
    Duplicate(Seq<char>),
    Undefined(Seq<char>),
    Unstripped(Seq<char>),
}

impl View for SymbolError {
    type V = SymbolErrorV;

    open spec fn view(&self) -> SymbolErrorV {
        match self {
            SymbolError::Duplicate(s) => SymbolErrorV::Duplicate(s@),
            SymbolError::Undefined(s) => SymbolErrorV::Undefined(s@),
            SymbolError::Unstripped(s) => SymbolErrorV::Unstripped(s@),
        }
    }
}

/// Label stripping over the first `n` instructions of `p`: the instructions
/// that are not labels, in order, and the address of each label, which is
/// the number of non-label instructions before it; or the first label that
/// is declared a second time.
pub open spec fn strip_prefix(p: Seq<Instr>, n: int) -> Result<
    (Seq<Instr>, Map<Seq<char>, u16>),
    SymbolErrorV,
>
    decreases n,
{
    if n <= 0 {
        Ok((Seq::empty(), Map::empty()))
    } else {
        match strip_prefix(p, n - 1) {
            Err(e) => Err(e),
            Ok((out, t)) => match p[n - 1] {
                Instr::Label(name) => if t.contains_key(name@) {
                    Err(SymbolErrorV::Duplicate(name@))
                } else {
                    Ok((out, t.insert(name@, out.len() as u16)))
                },
                other => Ok((out.push(other), t)),
            },
        }
    }
}

/// Once stripping a prefix fails, stripping any longer prefix fails the same way.
proof fn lemma_strip_err_sticks(p: Seq<Instr>, k: int, n: int)
    requires
        k <= n,
        strip_prefix(p, k) is Err,
    ensures
        strip_prefix(p, n) == strip_prefix(p, k),
    decreases n - k,
{
    if k < n {
        lemma_strip_err_sticks(p, k, n - 1);
    }
}

/// Label stripping over the whole of `p`.
pub open spec fn strip_spec(p: Seq<Instr>) -> Result<(Seq<Instr>, Map<Seq<char>, u16>), SymbolErrorV> {
    strip_prefix(p, p.len() as int)
}

/// Strips the label declarations out of a program, recording the address of
/// each in a table. Fails on the first label declared a second time.
pub fn strip_symbols(prg: &Program) -> (r: Result<(Program, SymbolTable), SymbolError>)
    requires
        prg@.len() <= 0x10000,
    ensures
        match strip_spec(prg@) {
            Ok((q, t)) => match r {
                Ok((out, table)) => out@ == q && table.wf() && table@ == t,
                Err(_) => false,
            },
            Err(e) => match r {
                Ok(_) => false,
                Err(re) => re@ == e,
            },
        },
{
    let mut out: Vec<Instr> = Vec::new();
    let mut symbols = SymbolTable::new();
    let mut i: usize = 0;
    while i < prg.len()
        invariant
            i <= prg@.len() <= 0x10000,
            symbols.wf(),
            out@.len() <= i,
            strip_prefix(prg@, i as int) == Ok::<_, SymbolErrorV>((out@, symbols@)),
        decreases prg@.len() - i,
    {
        match &prg[i] {
            Instr::Label(label) => {
                let pc = out.len() as u16;
                if !symbols.insert(label.clone(), pc) {
                    proof {
                        lemma_strip_err_sticks(prg@, i + 1, prg@.len() as int);
                    }
                    return Err(SymbolError::Duplicate(label.clone()));
                }
            },
            other => {
                out.push(other.clone());
            },
        }
        i = i + 1;
    }
    Ok((out, symbols))
}

/// A resolved instruction: a branch to a label becomes a branch to the
/// label's address in `t`; other instructions stay as they are.
pub open spec fn resolve(i: Instr, t: Map<Seq<char>, u16>) -> Result<Instr, SymbolErrorV> {
    match i {
        Instr::Label(name) => Err(SymbolErrorV::Unstripped(name@)),
        Instr::Jmp { imm: Op::Label(name) } => if t.contains_key(name@) {
            Ok(Instr::Jmp { imm: Op::Imm12(t[name@]) })
        } else {
            Err(SymbolErrorV::Undefined(name@))
        },
        Instr::Bz { imm: Op::Label(name) } => if t.contains_key(name@) {
            Ok(Instr::Bz { imm: Op::Imm12(t[name@]) })
        } else {
            Err(SymbolErrorV::Undefined(name@))
        },
        Instr::Bnz { imm: Op::Label(name) } => if t.contains_key(name@) {
            Ok(Instr::Bnz { imm: Op::Imm12(t[name@]) })
        } else {
            Err(SymbolErrorV::Undefined(name@))
        },
        _ => Ok(i),
    }
}

/// Label replacement over the first `n` instructions of `p`: each resolved,
/// or the failure of the first that cannot be.
pub open spec fn replace_prefix(p: Seq<Instr>, t: Map<Seq<char>, u16>, n: int) -> Result<
    Seq<Instr>,
    SymbolErrorV,
>
    decreases n,
{
    if n <= 0 {
        Ok(Seq::empty())
    } else {
        match replace_prefix(p, t, n - 1) {
            Err(e) => Err(e),
            Ok(out) => match resolve(p[n - 1], t) {
                Ok(i) => Ok(out.push(i)),
                Err(e) => Err(e),
            },
        }
    }
}

/// Once replacing in a prefix fails, replacing in any longer prefix fails
/// the same way.
proof fn lemma_replace_err_sticks(p: Seq<Instr>, t: Map<Seq<char>, u16>, k: int, n: int)
    requires
        k <= n,
        replace_prefix(p, t, k) is Err,
    ensures
        replace_prefix(p, t, n) == replace_prefix(p, t, k),
    decreases n - k,
{
    if k < n {
        lemma_replace_err_sticks(p, t, k, n - 1);
    }
}

/// Label replacement over the whole of `p`.
pub open spec fn replace_spec(p: Seq<Instr>, t: Map<Seq<char>, u16>) -> Result<Seq<Instr>, SymbolErrorV> {
    replace_prefix(p, t, p.len() as int)
}

/// The address of `symbol` in `table`, or an undefined-symbol error.
pub fn lookup_symbol(symbol: &String, table: &SymbolTable) -> (r: Result<u16, SymbolError>)
    requires
        table.wf(),
    ensures
        table@.contains_key(symbol@) ==> r == Ok::<u16, SymbolError>(table@[symbol@]),
        !table@.contains_key(symbol@) ==> r is Err && r->Err_0@ == SymbolErrorV::Undefined(symbol@),
{
    match table.find(symbol) {
        Some(a) => Ok(a),
        None => Err(SymbolError::Undefined(symbol.clone())),
    }
}

/// Replaces the label operands of branches with the labels' addresses.
/// Fails on the first branch to an undeclared label, or on a label
/// declaration left in the program.
pub fn replace_symbols(prg: &Program, symbols: &SymbolTable) -> (r: Result<Program, SymbolError>)
    requires
        symbols.wf(),
    ensures
        match replace_spec(prg@, symbols@) {
            Ok(q) => match r {
                Ok(out) => out@ == q,
                Err(_) => false,
            },
            Err(e) => match r {
                Ok(_) => false,
                Err(re) => re@ == e,
            },
        },
{
    let mut out: Vec<Instr> = Vec::new();
    let mut i: usize = 0;
    while i < prg.len()
        invariant
            i <= prg@.len(),
            symbols.wf(),
            replace_prefix(prg@, symbols@, i as int) == Ok::<_, SymbolErrorV>(out@),
        decreases prg@.len() - i,
    {
        let instr = &prg[i];
        match instr {
            Instr::Label(s) => {
                proof {
                    lemma_replace_err_sticks(prg@, symbols@, i + 1, prg@.len() as int);
                }
                return Err(SymbolError::Unstripped(s.clone()));
            },
            Instr::Jmp { imm: Op::Label(symbol) } => {
                match lookup_symbol(symbol, symbols) {
                    Ok(addr) => out.push(Instr::Jmp { imm: Op::Imm12(addr) }),
                    Err(e) => {
                        proof {
                            lemma_replace_err_sticks(prg@, symbols@, i + 1, prg@.len() as int);
                        }
                        return Err(e);
                    },
                }
            },
            Instr::Bz { imm: Op::Label(symbol) } => {
                match lookup_symbol(symbol, symbols) {
                    Ok(addr) => out.push(Instr::Bz { imm: Op::Imm12(addr) }),
                    Err(e) => {
                        proof {
                            lemma_replace_err_sticks(prg@, symbols@, i + 1, prg@.len() as int);
                        }
                        return Err(e);
                    },
                }
            },
            Instr::Bnz { imm: Op::Label(symbol) } => {
                match lookup_symbol(symbol, symbols) {
                    Ok(addr) => out.push(Instr::Bnz { imm: Op::Imm12(addr) }),
                    Err(e) => {
                        proof {
                            lemma_replace_err_sticks(prg@, symbols@, i + 1, prg@.len() as int);
                        }
                        return Err(e);
                    },
                }
            },
            _ => out.push(instr.clone()),
        }
        i = i + 1;
    }
    Ok(out)
}

/// Whether `i` declares the label `name`.
pub open spec fn declares(i: Instr, name: Seq<char>) -> bool {
    i is Label && i->Label_0@ == name
}

/// The label a branch refers to, if it refers to one by name.
pub open spec fn branch_target(i: Instr) -> Option<Seq<char>> {
    match i {
        Instr::Jmp { imm: Op::Label(n) } | Instr::Bz { imm: Op::Label(n) } | Instr::Bnz {
            imm: Op::Label(n),
        } => Some(n@),
        _ => None,
    }
}

/// Whether some operand slot of `i` holds a label.
pub open spec fn has_label_operand(i: Instr) -> bool {
    match i {
        Instr::Mv { rd, rs1 } | Instr::Not { rd, rs1 } => rd is Label || rs1 is Label,
        Instr::Add { rd, rs1, rs2 } | Instr::Sub { rd, rs1, rs2 } | Instr::And { rd, rs1, rs2 }
        | Instr::Or { rd, rs1, rs2 } | Instr::Xor { rd, rs1, rs2 } => rd is Label || rs1 is Label
            || rs2 is Label,
        Instr::Addi { rd, rs1, imm } | Instr::Andi { rd, rs1, imm } | Instr::Ori { rd, rs1, imm }
        | Instr::Xori { rd, rs1, imm } => rd is Label || rs1 is Label || imm is Label,
        Instr::Jmp { imm } | Instr::Bz { imm } | Instr::Bnz { imm } => imm is Label,
        _ => false,
    }
}

/// Whether `i` is neither a label declaration nor has a label operand.
pub open spec fn label_free(i: Instr) -> bool {
    !(i is Label) && !has_label_operand(i)
}

/// Stripping and then replacing labels in `p`.
pub open spec fn resolve_spec(p: Seq<Instr>) -> Result<Seq<Instr>, SymbolErrorV> {
    match strip_spec(p) {
        Ok((s, t)) => replace_spec(s, t),
        Err(e) => Err(e),
    }
}

/// Whether `p` declares `name` exactly once.
pub open spec fn declared_once(p: Seq<Instr>, name: Seq<char>) -> bool {
    exists|i: int|
        0 <= i < p.len() && #[trigger] declares(p[i], name) && forall|j: int|
            0 <= j < p.len() && j != i ==> !declares(#[trigger] p[j], name)
}

/// Whether no label name is declared twice in `p`.
pub open spec fn no_duplicate_labels(p: Seq<Instr>) -> bool {
    forall|i: int, j: int|
        0 <= i < j < p.len() && #[trigger] p[i] is Label && #[trigger] p[j] is Label ==> p[i]->Label_0@
            != p[j]->Label_0@
}

/// What a successful strip of a prefix records: every label of the prefix
/// is in the table, every name in the table is declared in the prefix, and
/// every instruction kept is a non-label instruction of the prefix.
proof fn lemma_strip_facts(p: Seq<Instr>, n: int)
    requires
        0 <= n <= p.len(),
    ensures
        match strip_prefix(p, n) {
            Ok((out, t)) => {
                &&& forall|j: int| 0 <= j < n && #[trigger] p[j] is Label ==> t.contains_key(p[j]->Label_0@)
                &&& forall|name: Seq<char>| #[trigger] t.contains_key(name) ==> exists|j: int|
                    0 <= j < n && #[trigger] declares(p[j], name)
                &&& forall|k: int| 0 <= k < out.len() ==> exists|j: int|
                    0 <= j < n && #[trigger] out[k] == #[trigger] p[j] && !(p[j] is Label)
            },
            Err(e) => e is Duplicate,
        },
    decreases n,
{
    if n > 0 {
        lemma_strip_facts(p, n - 1);
        match strip_prefix(p, n - 1) {
            Ok((out, t)) => {
                match p[n - 1] {
                    Instr::Label(name) => {
                        if !t.contains_key(name@) {
                            let t2 = t.insert(name@, out.len() as u16);
                            assert forall|nm: Seq<char>| #[trigger] t2.contains_key(nm) implies exists|j: int|
                                0 <= j < n && #[trigger] declares(p[j], nm) by {
                                if nm == name@ {
                                    assert(declares(p[n - 1], nm));
                                } else {
                                    assert(t.contains_key(nm));
                                }
                            }
                        }
                    },
                    other => {
                        let out2 = out.push(other);
                        assert forall|k: int| 0 <= k < out2.len() implies exists|j: int|
                            0 <= j < n && #[trigger] out2[k] == #[trigger] p[j] && !(p[j] is Label) by {
                            if k == out.len() {
                                assert(out2[k] == p[n - 1]);
                            } else {
                                assert(out2[k] == out[k]);
                            }
                        }
                    },
                }
            },
            Err(_) => {},
        }
    }
}

proof fn lemma_strip_no_labels_prefix(p: Seq<Instr>, n: int)
    requires
        0 <= n <= p.len(),
        forall|i: int| 0 <= i < p.len() ==> !(#[trigger] p[i] is Label),
    ensures
        strip_prefix(p, n) == Ok::<_, SymbolErrorV>((p.subrange(0, n), Map::<Seq<char>, u16>::empty())),
    decreases n,
{
    if n > 0 {
        lemma_strip_no_labels_prefix(p, n - 1);
        assert(!(p[n - 1] is Label));
        assert(p.subrange(0, n - 1).push(p[n - 1]) =~= p.subrange(0, n));
    } else {
        assert(p.subrange(0, 0) =~= Seq::<Instr>::empty());
    }
}

/// Stripping a program that declares no labels leaves it as it is and gives
/// an empty table.
pub proof fn lemma_strip_without_labels(p: Seq<Instr>)
    requires
        forall|i: int| 0 <= i < p.len() ==> !(#[trigger] p[i] is Label),
    ensures
        strip_spec(p) == Ok::<_, SymbolErrorV>((p, Map::<Seq<char>, u16>::empty())),
{
    lemma_strip_no_labels_prefix(p, p.len() as int);
    assert(p.subrange(0, p.len() as int) =~= p);
}

/// Declaring the same label twice, wherever the two declarations stand,
/// makes stripping fail with a duplicate-symbol error.
pub proof fn lemma_duplicate_label_fails(p: Seq<Instr>, i: int, j: int)
    requires
        0 <= i < j < p.len(),
        p[i] is Label,
        p[j] is Label,
        p[i]->Label_0@ == p[j]->Label_0@,
    ensures
        strip_spec(p) is Err,
        strip_spec(p)->Err_0 is Duplicate,
{
    lemma_strip_facts(p, j);
    lemma_strip_facts(p, p.len() as int);
    match strip_prefix(p, j) {
        Ok((out, t)) => {
            assert(t.contains_key(p[i]->Label_0@));
            assert(strip_prefix(p, j + 1) is Err);
            lemma_strip_err_sticks(p, j + 1, p.len() as int);
        },
        Err(_) => {
            lemma_strip_err_sticks(p, j, p.len() as int);
        },
    }
}

proof fn lemma_strip_succeeds(p: Seq<Instr>, n: int)
    requires
        0 <= n <= p.len(),
        no_duplicate_labels(p),
    ensures
        strip_prefix(p, n) is Ok,
    decreases n,
{
    if n > 0 {
        lemma_strip_succeeds(p, n - 1);
        lemma_strip_facts(p, n - 1);
        let (out, t) = strip_prefix(p, n - 1)->Ok_0;
        if p[n - 1] is Label {
            let name = p[n - 1]->Label_0@;
            if t.contains_key(name) {
                let j = choose|j: int| 0 <= j < n - 1 && #[trigger] declares(p[j], name);
                assert(p[j] is Label && p[n - 1] is Label);
            }
        }
    }
}

/// Replacement in a program without label declarations, where every branch
/// target is in the table and no other operand is a label, succeeds and
/// leaves no label anywhere.
proof fn lemma_replace_succeeds(q: Seq<Instr>, t: Map<Seq<char>, u16>, n: int)
    requires
        0 <= n <= q.len(),
        forall|k: int|
            0 <= k < q.len() ==> {
                &&& !(#[trigger] q[k] is Label)
                &&& branch_target(q[k]) is Some ==> t.contains_key(branch_target(q[k])->0)
                &&& branch_target(q[k]) is None ==> !has_label_operand(q[k])
            },
    ensures
        replace_prefix(q, t, n) is Ok,
        replace_prefix(q, t, n)->Ok_0.len() == n,
        forall|k: int|
            0 <= k < n ==> !(#[trigger] replace_prefix(q, t, n)->Ok_0[k] is Label) && !has_label_operand(
                replace_prefix(q, t, n)->Ok_0[k],
            ),
    decreases n,
{
    if n > 0 {
        lemma_replace_succeeds(q, t, n - 1);
        let prev = replace_prefix(q, t, n - 1)->Ok_0;
        let cur = replace_prefix(q, t, n)->Ok_0;
        assert(!(q[n - 1] is Label));
        assert forall|k: int| 0 <= k < n implies !(#[trigger] cur[k] is Label) && !has_label_operand(
            cur[k],
        ) by {
            if k < n - 1 {
                assert(cur[k] == prev[k]);
            }
        }
    }
}

/// When every branch target of a program is declared exactly once, and no
/// label is declared twice or used as an operand other than a branch
/// target, stripping and then replacing succeed and leave no label.
pub proof fn lemma_resolution_succeeds(p: Seq<Instr>)
    requires
        forall|k: int|
            0 <= k < p.len() && (#[trigger] branch_target(p[k])) is Some ==> declared_once(
                p,
                branch_target(p[k])->0,
            ),
        no_duplicate_labels(p),
        forall|k: int|
            0 <= k < p.len() && (#[trigger] branch_target(p[k])) is None ==> !has_label_operand(p[k]),
    ensures
        resolve_spec(p) is Ok,
        forall|k: int|
            0 <= k < resolve_spec(p)->Ok_0.len() ==> label_free(#[trigger] resolve_spec(p)->Ok_0[k]),
{
    lemma_strip_succeeds(p, p.len() as int);
    lemma_strip_facts(p, p.len() as int);
    let (out, t) = strip_spec(p)->Ok_0;
    assert forall|k: int| 0 <= k < out.len() implies {
        &&& !(#[trigger] out[k] is Label)
        &&& branch_target(out[k]) is Some ==> t.contains_key(branch_target(out[k])->0)
        &&& branch_target(out[k]) is None ==> !has_label_operand(out[k])
    } by {
        let j = choose|j: int| 0 <= j < p.len() && #[trigger] out[k] == #[trigger] p[j] && !(p[j] is Label);
        if branch_target(p[j]) is Some {
            let name = branch_target(p[j])->0;
            assert(declared_once(p, name));
            let i = choose|i: int|
                0 <= i < p.len() && #[trigger] declares(p[i], name) && forall|m: int|
                    0 <= m < p.len() && m != i ==> !declares(#[trigger] p[m], name);
            assert(p[i] is Label);
        }
    }
    lemma_replace_succeeds(out, t, out.len() as int);
}

proof fn lemma_replace_errors_undefined(p: Seq<Instr>, t: Map<Seq<char>, u16>, n: int)
    requires
        0 <= n <= p.len(),
        forall|j: int| 0 <= j < p.len() ==> !(#[trigger] p[j] is Label),
    ensures
        replace_prefix(p, t, n) is Err ==> replace_prefix(p, t, n)->Err_0 is Undefined,
    decreases n,
{
    if n > 0 {
        lemma_replace_errors_undefined(p, t, n - 1);
        assert(!(p[n - 1] is Label));
    }
}

/// In a program without label declarations, a branch to a label that the
/// table does not have makes replacement fail with an undefined-symbol error.
pub proof fn lemma_undefined_label_fails(p: Seq<Instr>, t: Map<Seq<char>, u16>, k: int)
    requires
        0 <= k < p.len(),
        branch_target(p[k]) is Some,
        !t.contains_key(branch_target(p[k])->0),
        forall|j: int| 0 <= j < p.len() ==> !(#[trigger] p[j] is Label),
    ensures
        replace_spec(p, t) is Err,
        replace_spec(p, t)->Err_0 is Undefined,
{
    lemma_replace_errors_undefined(p, t, p.len() as int);
    if replace_prefix(p, t, k) is Err {
        lemma_replace_err_sticks(p, t, k, p.len() as int);
    } else {
        assert(replace_prefix(p, t, k + 1) is Err);
        lemma_replace_err_sticks(p, t, k + 1, p.len() as int);
    }
}

} // verus!
