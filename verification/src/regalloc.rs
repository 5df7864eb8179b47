//! Local (within a basic block) register allocation.
//!
//! The IR is in static single assignment form, so the lifetime of a variable
//! within a block is a single interval from its definition to its last use.
//! A linear-scan allocator colors these intervals against a small pool of
//! host registers: two variables may share a register only when their
//! intervals are disjoint.
//!
//! Three host registers are reserved for the runtime (CPSR pointer, arena
//! base, guest register file pointer) and never enter the pool.

use vstd::prelude::*;

use crate::block::{
    defined_in, defs_monotone, link_uses, slots_ordered, ssa_form, uses_defined_by, BasicBlock,
    BlockLink,
};
use crate::ir::{
    def_slot, inst_defines, inst_uses, spec_used_vars, Instruction, Var, VarId, VarKind,
};
use crate::lift::TranslateError;

verus! {

/// A physical register on the host machine.
#[derive(Clone, Copy, Debug, PartialEq, Eq, Structural)]
pub enum HostRegister {
    RAX,
    RCX,
    RDX,
    RBX,
    RSP,
    RBP,
    RSI,
    RDI,
    R8,
    R9,
    R10,
    R11,
    R12,
    R13,
    R14,
    R15,
}

/// The hardware encoding of a host register.
pub open spec fn spec_reg_encoding(r: HostRegister) -> u8 {
    match r {
        HostRegister::RAX => 0x0,
        HostRegister::RCX => 0x1,
        HostRegister::RDX => 0x2,
        HostRegister::RBX => 0x3,
        HostRegister::RSP => 0x4,
        HostRegister::RBP => 0x5,
        HostRegister::RSI => 0x6,
        HostRegister::RDI => 0x7,
        HostRegister::R8 => 0x8,
        HostRegister::R9 => 0x9,
        HostRegister::R10 => 0xA,
        HostRegister::R11 => 0xB,
        HostRegister::R12 => 0xC,
        HostRegister::R13 => 0xD,
        HostRegister::R14 => 0xE,
        HostRegister::R15 => 0xF,
    }
}

impl HostRegister {
    /// The hardware encoding of this register.
    pub fn encoding(self) -> (r: u8)
        ensures
            r == spec_reg_encoding(self),
    {
        match self {
            HostRegister::RAX => 0x0,
            HostRegister::RCX => 0x1,
            HostRegister::RDX => 0x2,
            HostRegister::RBX => 0x3,
            HostRegister::RSP => 0x4,
            HostRegister::RBP => 0x5,
            HostRegister::RSI => 0x6,
            HostRegister::RDI => 0x7,
            HostRegister::R8 => 0x8,
            HostRegister::R9 => 0x9,
            HostRegister::R10 => 0xA,
            HostRegister::R11 => 0xB,
            HostRegister::R12 => 0xC,
            HostRegister::R13 => 0xD,
            HostRegister::R14 => 0xE,
            HostRegister::R15 => 0xF,
        }
    }

    /// The register with hardware encoding `x`.
    pub fn from_bits(x: u8) -> (r: HostRegister)
        requires
            x < 16,
        ensures
            spec_reg_encoding(r) == x,
    {
        if x == 0x0 {
            HostRegister::RAX
        } else if x == 0x1 {
            HostRegister::RCX
        } else if x == 0x2 {
            HostRegister::RDX
        } else if x == 0x3 {
            HostRegister::RBX
        } else if x == 0x4 {
            HostRegister::RSP
        } else if x == 0x5 {
            HostRegister::RBP
        } else if x == 0x6 {
            HostRegister::RSI
        } else if x == 0x7 {
            HostRegister::RDI
        } else if x == 0x8 {
            HostRegister::R8
        } else if x == 0x9 {
            HostRegister::R9
        } else if x == 0xA {
            HostRegister::R10
        } else if x == 0xB {
            HostRegister::R11
        } else if x == 0xC {
            HostRegister::R12
        } else if x == 0xD {
            HostRegister::R13
        } else if x == 0xE {
            HostRegister::R14
        } else {
            HostRegister::R15
        }
    }
}

/// Where a variable lives in generated code: a host general-purpose register
/// or a constant embedded directly into instructions.
#[derive(Clone, Copy, Debug, PartialEq, Eq, Structural, PartialOrd, Ord)]
pub enum StorageLoc {
    /// A general-purpose register on the host machine, by encoding.
    Gpr(u8),
    /// A constant value.
    Const(u64),
}

/// The lifetime of a variable inside a basic block: definition position and
/// last-use position. A last use of 0 marks a variable that is never used.
#[derive(Clone, Copy, Debug, PartialEq, Eq, Structural)]
pub struct LiveInterval(pub usize, pub usize);

/// True when the two intervals share no point of `(def, last_use]`.
pub open spec fn intervals_disjoint(a: LiveInterval, b: LiveInterval) -> bool {
    a.1 <= b.0 || b.1 <= a.0
}

/// A map from variables to storage locations on the target machine.
pub struct StorageMap {
    /// The set of bindings from variables to storage locations.
    pub data: Vec<(Var, StorageLoc)>,
}

impl StorageMap {
    /// Bindings are unique per variable.
    pub open spec fn wf(&self) -> bool {
        forall|k1: int, k2: int|
            0 <= k1 < k2 < self.data@.len() ==> (#[trigger] self.data@[k1]).0 != (
            #[trigger] self.data@[k2]).0
    }

    /// True when this map binds `v` to `s`.
    pub open spec fn maps_to(&self, v: Var, s: StorageLoc) -> bool {
        exists|k: int| 0 <= k < self.data@.len() && self.data@[k] == (v, s)
    }

    /// True when this map binds `v` to something.
    pub open spec fn binds(&self, v: Var) -> bool {
        exists|k: int| 0 <= k < self.data@.len() && (#[trigger] self.data@[k]).0 == v
    }

    /// An empty map.
    pub fn new() -> (r: StorageMap)
        ensures
            r.wf(),
            r.data@.len() == 0,
            forall|v: Var| !r.binds(v),
    {
        StorageMap { data: Vec::new() }
    }

    /// Bind variable `v` to storage location `s`, replacing any older binding.
    pub fn bind(&mut self, v: Var, s: StorageLoc)
        requires
            old(self).wf(),
        ensures
            final(self).wf(),
            final(self).maps_to(v, s),
            forall|u: Var, t: StorageLoc|
                u != v ==> (final(self).maps_to(u, t) <==> old(self).maps_to(u, t)),
            forall|u: Var| u != v ==> (final(self).binds(u) <==> old(self).binds(u)),
            final(self).binds(v),
    {
        let n = self.data.len();
        let mut k: usize = 0;
        while k < n
            invariant
                n == self.data@.len(),
                k <= n,
                self.wf(),
                *self == *old(self),
                forall|j: int| 0 <= j < k ==> (#[trigger] self.data@[j]).0 != v,
            decreases n - k,
        {
            if self.data[k].0 == v {
                let ghost pre = self.data@;
                self.data.set(k, (v, s));
                proof {
                    assert(self.data@[k as int] == (v, s));
                    assert forall|u: Var, t: StorageLoc| u != v implies (self.maps_to(u, t)
                        <==> old(self).maps_to(u, t)) by {
                        if self.maps_to(u, t) {
                            let j = choose|j: int|
                                0 <= j < self.data@.len() && self.data@[j] == (u, t);
                            assert(pre[j] == (u, t));
                        }
                        if old(self).maps_to(u, t) {
                            let j = choose|j: int| 0 <= j < pre.len() && pre[j] == (u, t);
                            assert(self.data@[j] == (u, t));
                        }
                    }
                    assert forall|u: Var| u != v implies (self.binds(u) <==> old(self).binds(
                        u,
                    )) by {
                        if self.binds(u) {
                            let j = choose|j: int|
                                0 <= j < self.data@.len() && (#[trigger] self.data@[j]).0 == u;
                            assert(pre[j].0 == u);
                        }
                        if old(self).binds(u) {
                            let j = choose|j: int|
                                0 <= j < pre.len() && (#[trigger] pre[j]).0 == u;
                            assert(self.data@[j].0 == u);
                        }
                    }
                }
                return ;
            }
            k = k + 1;
        }
        self.data.push((v, s));
        proof {
            let ghost pre = old(self).data@;
            assert(self.data@[self.data@.len() - 1] == (v, s));
            assert forall|u: Var, t: StorageLoc| u != v implies (self.maps_to(u, t)
                <==> old(self).maps_to(u, t)) by {
                if self.maps_to(u, t) {
                    let j = choose|j: int| 0 <= j < self.data@.len() && self.data@[j] == (u, t);
                    assert(pre[j] == (u, t));
                }
                if old(self).maps_to(u, t) {
                    let j = choose|j: int| 0 <= j < pre.len() && pre[j] == (u, t);
                    assert(self.data@[j] == (u, t));
                }
            }
            assert forall|u: Var| u != v implies (self.binds(u) <==> old(self).binds(u)) by {
                if self.binds(u) {
                    let j = choose|j: int|
                        0 <= j < self.data@.len() && (#[trigger] self.data@[j]).0 == u;
                    assert(pre[j].0 == u);
                }
                if old(self).binds(u) {
                    let j = choose|j: int| 0 <= j < pre.len() && (#[trigger] pre[j]).0 == u;
                    assert(self.data@[j].0 == u);
                }
            }
        }
    }

    /// The storage location assigned to variable `v`, when bound.
    pub fn get(&self, v: &Var) -> (r: Option<StorageLoc>)
        requires
            self.wf(),
        ensures
            match r {
                Some(s) => self.maps_to(*v, s),
                None => !self.binds(*v),
            },
    {
        let n = self.data.len();
        let mut k: usize = 0;
        while k < n
            invariant
                n == self.data@.len(),
                k <= n,
                forall|j: int| 0 <= j < k ==> (#[trigger] self.data@[j]).0 != *v,
            decreases n - k,
        {
            if self.data[k].0 == *v {
                return Some(self.data[k].1);
            }
            k = k + 1;
        }
        None
    }
}

/// A pool of physical registers available to the allocator.
pub struct RegisterPool {
    /// The registers currently available.
    pub data: Vec<HostRegister>,
}

impl RegisterPool {
    /// The registers currently available, last taken first.
    pub open spec fn view(&self) -> Seq<HostRegister> {
        self.data@
    }

    /// The initial pool: eight scratch registers, with RAX taken first.
    pub fn new() -> (r: RegisterPool)
        ensures
            r@ =~= seq![
                HostRegister::R11,
                HostRegister::R10,
                HostRegister::R9,
                HostRegister::R8,
                HostRegister::RBX,
                HostRegister::RDX,
                HostRegister::RCX,
                HostRegister::RAX,
            ],
    {
        let mut data: Vec<HostRegister> = Vec::new();
        data.push(HostRegister::R11);
        data.push(HostRegister::R10);
        data.push(HostRegister::R9);
        data.push(HostRegister::R8);
        data.push(HostRegister::RBX);
        data.push(HostRegister::RDX);
        data.push(HostRegister::RCX);
        data.push(HostRegister::RAX);
        RegisterPool { data }
    }

    /// Remove (use) the most recently freed register from the pool.
    pub fn take(&mut self) -> (r: HostRegister)
        requires
            old(self)@.len() > 0,
        ensures
            r == old(self)@.last(),
            final(self)@ == old(self)@.drop_last(),
    {
        let idx = self.data.len() - 1;
        self.data.remove(idx)
    }

    /// Restore (free) a register back to the pool.
    pub fn put_back(&mut self, r: HostRegister)
        ensures
            final(self)@ == old(self)@.push(r),
    {
        self.data.push(r);
    }

    /// True when no register is available.
    pub fn is_empty(&self) -> (r: bool)
        ensures
            r == (self@.len() == 0),
    {
        self.data.len() == 0
    }
}

/// A map from variables to live intervals, kept in variable-id order.
pub struct IntervalMap {
    /// The interval of each variable, in variable-id order.
    pub data: Vec<(Var, LiveInterval)>,
}

impl IntervalMap {
    /// Entries are strictly sorted by variable id.
    pub open spec fn wf(&self) -> bool {
        forall|k1: int, k2: int|
            0 <= k1 < k2 < self.data@.len() ==> (#[trigger] self.data@[k1]).0.id < (
            #[trigger] self.data@[k2]).0.id
    }

    /// The entries of the map, in variable-id order.
    pub open spec fn view(&self) -> Seq<(Var, LiveInterval)> {
        self.data@
    }

    /// True when this map holds interval `iv` for variable `v`.
    pub open spec fn maps_to(&self, v: Var, iv: LiveInterval) -> bool {
        exists|k: int| 0 <= k < self.data@.len() && self.data@[k] == (v, iv)
    }

    /// True when this map holds an entry for a variable with id `id`.
    pub open spec fn contains_id(&self, id: VarId) -> bool {
        exists|k: int| 0 <= k < self.data@.len() && (#[trigger] self.data@[k]).0.id == id
    }

    /// An empty map.
    pub fn new() -> (r: IntervalMap)
        ensures
            r.wf(),
            r@.len() == 0,
    {
        IntervalMap { data: Vec::new() }
    }

    /// Drop all entries.
    pub fn clear(&mut self)
        ensures
            final(self).wf(),
            final(self)@.len() == 0,
    {
        self.data = Vec::new();
    }

    /// Open a fresh interval `(def_idx, 0)` for `v`.
    ///
    /// Variables are defined in ascending id order within a block, so a new
    /// entry always lands at the end of the map.
    pub fn define_var(&mut self, v: Var, def_idx: usize)
        requires
            old(self).wf(),
            forall|k: int|
                0 <= k < old(self)@.len() ==> (#[trigger] old(self)@[k]).0.id < v.id,
        ensures
            final(self).wf(),
            final(self)@ == old(self)@.push((v, LiveInterval(def_idx, 0))),
    {
        self.data.push((v, LiveInterval(def_idx, 0)));
        proof {
            assert forall|k1: int, k2: int| 0 <= k1 < k2 < self.data@.len() implies (
            #[trigger] self.data@[k1]).0.id < (#[trigger] self.data@[k2]).0.id by {
                if k2 == self.data@.len() - 1 {
                    assert(old(self)@[k1].0.id < v.id);
                }
            }
        }
    }

    /// Record a use of `v` at position `use_idx`.
    pub fn use_var(&mut self, v: Var, use_idx: usize)
        requires
            old(self).wf(),
            exists|k: int| 0 <= k < old(self)@.len() && (#[trigger] old(self)@[k]).0 == v,
        ensures
            final(self).wf(),
            final(self)@.len() == old(self)@.len(),
            forall|j: int|
                0 <= j < old(self)@.len() ==> (#[trigger] final(self)@[j]).0 == old(self)@[j].0
                    && final(self)@[j].1.0 == old(self)@[j].1.0,
            forall|j: int|
                0 <= j < old(self)@.len() && (#[trigger] old(self)@[j]).0 != v
                    ==> final(self)@[j] == old(self)@[j],
            forall|j: int|
                0 <= j < old(self)@.len() && (#[trigger] old(self)@[j]).0 == v
                    ==> final(self)@[j].1.1 == use_idx,
    {
        let n = self.data.len();
        let mut k: usize = 0;
        while k < n
            invariant
                n == self.data@.len(),
                k <= n,
                *self == *old(self),
                old(self).wf(),
                exists|j: int| 0 <= j < n && (#[trigger] self.data@[j]).0 == v,
                forall|j: int| 0 <= j < k ==> (#[trigger] self.data@[j]).0 != v,
            decreases n - k,
        {
            if self.data[k].0 == v {
                let def_idx = self.data[k].1.0;
                let ghost pre = self.data@;
                self.data.set(k, (v, LiveInterval(def_idx, use_idx)));
                proof {
                    assert(pre == old(self).data@);
                    assert(forall|j: int|
                        0 <= j < self.data@.len() ==> (#[trigger] self.data@[j]).0 == pre[j].0
                            && self.data@[j].1.0 == pre[j].1.0);
                    assert forall|k1: int, k2: int| 0 <= k1 < k2 < self.data@.len() implies (
                    #[trigger] self.data@[k1]).0.id < (#[trigger] self.data@[k2]).0.id by {
                        assert(self.data@[k1].0 == pre[k1].0);
                        assert(self.data@[k2].0 == pre[k2].0);
                        assert(old(self).data@[k1].0.id < old(self).data@[k2].0.id);
                    }
                    assert forall|j: int|
                        0 <= j < pre.len() && (#[trigger] pre[j]).0 == v implies self.data@[j].1.1
                        == use_idx by {
                        if j != k {
                            assert(pre[j].0.id != pre[k as int].0.id);
                            assert(false);
                        }
                    }
                }
                return ;
            }
            k = k + 1;
        }
        proof {
            assert(false);
        }
    }

    /// True when this map holds a never-used (last use 0) entry for `v`.
    pub open spec fn has_dead_entry(&self, v: Var) -> bool {
        exists|k: int|
            0 <= k < self@.len() && (#[trigger] self@[k]).0 == v && self@[k].1.1 == 0
    }

    /// The variables whose intervals were never closed by a use: exactly
    /// those whose last-use position is 0, in ascending variable-id order
    /// and therefore without duplicates.
    pub fn get_dead_vars(&self) -> (r: Vec<Var>)
        requires
            self.wf(),
        ensures
            forall|k: int|
                0 <= k < self@.len() && (#[trigger] self@[k]).1.1 == 0 ==> r@.contains(
                    self@[k].0,
                ),
            forall|j: int| 0 <= j < r@.len() ==> self.has_dead_entry(#[trigger] r@[j]),
            forall|j1: int, j2: int|
                0 <= j1 < j2 < r@.len() ==> (#[trigger] r@[j1]).id < (#[trigger] r@[j2]).id,
    {
        let n = self.data.len();
        let mut r: Vec<Var> = Vec::new();
        let ghost mut srcs: Seq<int> = Seq::empty();
        let mut k: usize = 0;
        while k < n
            invariant
                n == self.data@.len(),
                k <= n,
                self.wf(),
                srcs.len() == r@.len(),
                forall|j1: int, j2: int| 0 <= j1 < j2 < srcs.len() ==> srcs[j1] < srcs[j2],
                forall|j: int| 0 <= j < srcs.len() ==> 0 <= #[trigger] srcs[j] < k,
                forall|j: int|
                    0 <= j < srcs.len() ==> #[trigger] r@[j] == self@[srcs[j]].0,
                forall|j: int|
                    0 <= j < k && (#[trigger] self@[j]).1.1 == 0 ==> r@.contains(self@[j].0),
                forall|j: int| 0 <= j < r@.len() ==> self.has_dead_entry(#[trigger] r@[j]),
                forall|j1: int, j2: int|
                    0 <= j1 < j2 < r@.len() ==> (#[trigger] r@[j1]).id < (#[trigger] r@[j2]).id,
            decreases n - k,
        {
            let ghost rpre = r@;
            if self.data[k].1.1 == 0 {
                r.push(self.data[k].0);
                proof {
                    srcs = srcs.push(k as int);
                    assert(r@[r@.len() - 1] == self@[k as int].0);
                    assert forall|j1: int, j2: int|
                        0 <= j1 < j2 < r@.len() implies (#[trigger] r@[j1]).id < (
                    #[trigger] r@[j2]).id by {
                        if j2 == r@.len() - 1 {
                            assert(r@[j1] == self@[srcs[j1]].0);
                            assert(self@[srcs[j1]].0.id < self@[k as int].0.id);
                        }
                    }
                }
            }
            proof {
                assert forall|j: int| 0 <= j < r@.len() implies self.has_dead_entry(
                    r@[j],
                ) by {
                    if j < rpre.len() {
                        assert(rpre[j] == r@[j]);
                        assert(self.has_dead_entry(rpre[j]));
                    } else {
                        assert(self@[k as int].0 == r@[j] && self@[k as int].1.1 == 0);
                    }
                }
                assert forall|j: int|
                    0 <= j < k + 1 && (#[trigger] self@[j]).1.1 == 0 implies r@.contains(
                    self@[j].0,
                ) by {
                    if j < k {
                        let i = choose|i: int| 0 <= i < rpre.len() && rpre[i] == self@[j].0;
                        assert(r@[i] == self@[j].0);
                    } else {
                        assert(r@[r@.len() - 1] == self@[j].0);
                    }
                }
            }
            k = k + 1;
        }
        r
    }
}


/// The last position in `data[0..n]` that uses `v`, or 0 when none does.
pub open spec fn spec_last_use(data: Seq<Instruction>, n: int, v: Var) -> int
    decreases n,
{
    if n <= 0 {
        0
    } else if inst_uses(data[n - 1], v) {
        n - 1
    } else {
        spec_last_use(data, n - 1, v)
    }
}

/// The last-use position recorded for `v` over a whole block: the block
/// length when the terminator names `v`, else the last instruction use.
pub open spec fn spec_block_lu(data: Seq<Instruction>, link: Option<BlockLink>, v: Var) -> int {
    match link {
        Some(l) => if link_uses(l, v) {
            data.len() as int
        } else {
            spec_last_use(data, data.len() as int, v)
        },
        None => spec_last_use(data, data.len() as int, v),
    }
}

/// In SSA form, a variable has a single defining position.
proof fn lemma_ssa_unique_def(data: Seq<Instruction>, p1: int, p2: int, v: Var)
    requires
        ssa_form(data),
        0 <= p1 < data.len(),
        0 <= p2 < data.len(),
        inst_defines(data[p1], v),
        inst_defines(data[p2], v),
    ensures
        p1 == p2,
{
    let s1: int = if data[p1].lh == Some(v) {
        0
    } else if data[p1].lh_c == Some(v) {
        1
    } else {
        2
    };
    let s2: int = if data[p2].lh == Some(v) {
        0
    } else if data[p2].lh_c == Some(v) {
        1
    } else {
        2
    };
    assert(def_slot(data[p1], s1) == Some(v));
    assert(def_slot(data[p2], s2) == Some(v));
    if p1 != p2 {
        assert(def_slot(data[p1], s1).unwrap().id != def_slot(data[p2], s2).unwrap().id);
        assert(false);
    }
}

/// A variable has no recorded use at or before its defining position.
proof fn lemma_last_use_zero_before_def(data: Seq<Instruction>, d: int, v: Var, n: int)
    requires
        ssa_form(data),
        uses_defined_by(data),
        0 <= d < data.len(),
        inst_defines(data[d], v),
        0 <= n <= d + 1,
    ensures
        spec_last_use(data, n, v) == 0,
    decreases n,
{
    if n > 0 {
        if inst_uses(data[n - 1], v) {
            let q = choose|q: int| 0 <= q < n - 1 && #[trigger] inst_defines(data[q], v);
            lemma_ssa_unique_def(data, q, d, v);
            assert(false);
        }
        lemma_last_use_zero_before_def(data, d, v, n - 1);
    }
}

/// A nonzero last-use position really is a use of the variable.
proof fn lemma_last_use_is_use(data: Seq<Instruction>, n: int, v: Var)
    requires
        0 <= n <= data.len(),
    ensures
        spec_last_use(data, n, v) == 0 || (spec_last_use(data, n, v) < n && inst_uses(
            data[spec_last_use(data, n, v)],
            v,
        )),
    decreases n,
{
    if n > 0 && !inst_uses(data[n - 1], v) {
        lemma_last_use_is_use(data, n - 1, v);
    }
}


/// A nonzero last-use position really is a use of the variable.
pub proof fn lemma_last_use_is_use_pub(data: Seq<Instruction>, n: int, v: Var)
    requires
        0 <= n <= data.len(),
    ensures
        spec_last_use(data, n, v) == 0 || (spec_last_use(data, n, v) < n && inst_uses(
            data[spec_last_use(data, n, v)],
            v,
        )),
{
    lemma_last_use_is_use(data, n, v);
}

/// A zero last-use position means the variable is used nowhere in range.
pub proof fn lemma_no_use_when_lu_zero(data: Seq<Instruction>, n: int, v: Var)
    requires
        0 <= n <= data.len(),
        spec_last_use(data, n, v) == 0,
    ensures
        forall|p: int| 0 < p < n ==> !inst_uses(#[trigger] data[p], v),
    decreases n,
{
    if n > 0 {
        assert(!inst_uses(data[n - 1], v) || n - 1 == 0);
        if n - 1 > 0 {
            assert(!inst_uses(data[n - 1], v));
            lemma_no_use_when_lu_zero(data, n - 1, v);
        }
    }
}

impl IntervalMap {
    /// Compute the live interval of every variable of a terminated block:
    /// each variable's entry runs from its defining position to its last
    /// use (0 when it is never used), with a use by the terminator counting
    /// at the block length. Entries come out in variable-id order, which for
    /// a well-formed block is also definition order.
    #[verifier::spinoff_prover]
    pub fn from_block(bb: &BasicBlock) -> (r: IntervalMap)
        requires
            bb.inv(),
            bb.link.is_some(),
        ensures
            r.wf(),
            forall|v: Var|
                #[trigger] defined_in(bb.data@, v) ==> exists|k: int|
                    0 <= k < r@.len() && (#[trigger] r@[k]).0 == v,
            forall|k: int|
                0 <= k < r@.len() ==> {
                    &&& 0 <= (#[trigger] r@[k]).1.0 < bb.data@.len()
                    &&& inst_defines(bb.data@[r@[k].1.0 as int], r@[k].0)
                    &&& r@[k].1.1 == spec_block_lu(bb.data@, bb.link, r@[k].0)
                    &&& (r@[k].1.1 == 0 || r@[k].1.0 < r@[k].1.1)
                },
            forall|k1: int, k2: int|
                0 <= k1 < k2 < r@.len() ==> (#[trigger] r@[k1]).1.0 <= (#[trigger] r@[k2]).1.0,
    {
        let ghost data = bb.data@;
        let mut map = IntervalMap::new();
        let n = bb.data.len();
        let mut pos: usize = 0;
        while pos < n
            invariant
                bb.inv(),
                data == bb.data@,
                n == data.len(),
                pos <= n,
                map.wf(),
                forall|k: int|
                    0 <= k < map@.len() ==> {
                        &&& 0 <= (#[trigger] map@[k]).1.0 < pos
                        &&& inst_defines(data[map@[k].1.0 as int], map@[k].0)
                        &&& map@[k].1.1 == spec_last_use(data, pos as int, map@[k].0)
                    },
                forall|q: int, v: Var|
                    0 <= q < pos && #[trigger] inst_defines(data[q], v) ==> exists|k: int|
                        0 <= k < map@.len() && (#[trigger] map@[k]).0 == v,
                forall|k1: int, k2: int|
                    0 <= k1 < k2 < map@.len() ==> (#[trigger] map@[k1]).1.0 <= (
                    #[trigger] map@[k2]).1.0,
            decreases n - pos,
        {
            let inst = bb.data[pos];
            let ghost m0 = map@;

            // Open an interval for each result slot, in slot order.
            if let Some(v) = inst.lh {
                proof {
                    assert(def_slot(data[pos as int], 0) == Some(v));
                    assert forall|k: int| 0 <= k < map@.len() implies (#[trigger] map@[k]).0.id
                        < v.id by {
                        assert(inst_defines(data[map@[k].1.0 as int], map@[k].0));
                        assert(inst_defines(data[pos as int], v));
                    }
                    lemma_last_use_zero_before_def(data, pos as int, v, pos as int);
                }
                map.define_var(v, pos);
            }
            let ghost m1 = map@;
            if let Some(v) = inst.lh_c {
                proof {
                    assert(def_slot(data[pos as int], 1) == Some(v));
                    assert forall|k: int| 0 <= k < map@.len() implies (#[trigger] map@[k]).0.id
                        < v.id by {
                        assert(inst_defines(data[map@[k].1.0 as int], map@[k].0));
                        assert(inst_defines(data[pos as int], v));
                        if map@[k].1.0 == pos {
                            lemma_ssa_unique_def(data, map@[k].1.0 as int, pos as int, map@[k].0);
                            assert(data[pos as int].lh == Some(map@[k].0));
                            assert(def_slot(data[pos as int], 0) == Some(map@[k].0));
                        }
                    }
                    lemma_last_use_zero_before_def(data, pos as int, v, pos as int);
                }
                map.define_var(v, pos);
            }
            let ghost m2 = map@;
            if let Some(v) = inst.lh_v {
                proof {
                    assert(def_slot(data[pos as int], 2) == Some(v));
                    assert forall|k: int| 0 <= k < map@.len() implies (#[trigger] map@[k]).0.id
                        < v.id by {
                        assert(inst_defines(data[map@[k].1.0 as int], map@[k].0));
                        assert(inst_defines(data[pos as int], v));
                        if map@[k].1.0 == pos {
                            if data[pos as int].lh == Some(map@[k].0) {
                                assert(def_slot(data[pos as int], 0) == Some(map@[k].0));
                            } else {
                                assert(def_slot(data[pos as int], 1) == Some(map@[k].0));
                            }
                        }
                    }
                    lemma_last_use_zero_before_def(data, pos as int, v, pos as int);
                }
                map.define_var(v, pos);
            }

            proof {
                assert(forall|k: int|
                    0 <= k < map@.len() ==> (#[trigger] map@[k]).1.1 == spec_last_use(
                        data,
                        pos as int,
                        map@[k].0,
                    ));
                assert forall|v: Var| #[trigger] inst_defines(data[pos as int], v)
                    implies exists|k: int|
                    0 <= k < map@.len() && (#[trigger] map@[k]).0 == v by {
                    if data[pos as int].lh == Some(v) {
                        assert(map@[m0.len() as int].0 == v);
                    } else if data[pos as int].lh_c == Some(v) {
                        assert(map@[m1.len() as int].0 == v);
                    } else {
                        assert(map@[m2.len() as int].0 == v);
                    }
                }
                assert forall|q: int, v: Var|
                    0 <= q < pos && #[trigger] inst_defines(data[q], v) implies exists|k: int|
                    0 <= k < map@.len() && (#[trigger] map@[k]).0 == v by {
                    let k = choose|k: int| 0 <= k < m0.len() && (#[trigger] m0[k]).0 == v;
                    assert(map@[k].0 == v);
                }
            }
            let ghost mdef = map@;

            // Close (update) the interval of every operand.
            let used = inst.get_used_vars();
            let ghost used_seq = used@;
            let mut j: usize = 0;
            while j < used.len()
                invariant
                    bb.inv(),
                    data == bb.data@,
                    n == data.len(),
                    pos < n,
                    used@ == used_seq,
                    used_seq == spec_used_vars(data[pos as int].rh),
                    j <= used@.len(),
                    map.wf(),
                    forall|k: int|
                        0 <= k < map@.len() ==> {
                            &&& 0 <= (#[trigger] map@[k]).1.0 <= pos
                            &&& inst_defines(data[map@[k].1.0 as int], map@[k].0)
                        },
                    map@.len() == mdef.len(),
                    forall|k: int|
                        0 <= k < map@.len() ==> (#[trigger] map@[k]).0 == mdef[k].0
                            && map@[k].1.0 == mdef[k].1.0,
                    forall|q: int, v: Var|
                        0 <= q <= pos && #[trigger] inst_defines(data[q], v) ==> exists|k: int|
                            0 <= k < map@.len() && (#[trigger] map@[k]).0 == v,
                    forall|k1: int, k2: int|
                        0 <= k1 < k2 < map@.len() ==> (#[trigger] map@[k1]).1.0 <= (
                        #[trigger] map@[k2]).1.0,
                    forall|k: int|
                        0 <= k < map@.len() ==> (#[trigger] map@[k]).1.1 == (
                        if used_seq.take(j as int).contains(map@[k].0) {
                            pos as int
                        } else {
                            spec_last_use(data, pos as int, map@[k].0)
                        }),
                decreases used@.len() - j,
            {
                let v = used[j];
                proof {
                    assert(used_seq[j as int] == v);
                    assert(inst_uses(data[pos as int], v));
                    let q = choose|q: int| 0 <= q < pos && #[trigger] inst_defines(data[q], v);
                    assert(exists|k: int| 0 <= k < map@.len() && (#[trigger] map@[k]).0 == v);
                }
                map.use_var(v, pos);
                proof {
                    assert(used_seq.take(j + 1).contains(v)) by {
                        assert(used_seq.take(j + 1)[j as int] == v);
                    }
                    assert forall|u: Var| used_seq.take(j as int).contains(u)
                        implies used_seq.take(j + 1).contains(u) by {
                        let i = choose|i: int|
                            0 <= i < used_seq.take(j as int).len() && #[trigger] used_seq.take(
                                j as int,
                            )[i] == u;
                        assert(used_seq.take(j + 1)[i] == u);
                    }
                    assert forall|u: Var|
                        used_seq.take(j + 1).contains(u) && u != v implies used_seq.take(
                        j as int,
                    ).contains(u) by {
                        let i = choose|i: int|
                            0 <= i < used_seq.take(j + 1).len() && #[trigger] used_seq.take(
                                j + 1,
                            )[i] == u;
                        assert(i != j);
                        assert(used_seq.take(j as int)[i] == u);
                    }
                }
                j = j + 1;
            }

            proof {
                assert forall|k: int| 0 <= k < map@.len() implies (#[trigger] map@[k]).1.1
                    == spec_last_use(data, pos as int + 1, map@[k].0) by {
                    let u = map@[k].0;
                    if inst_uses(data[pos as int], u) {
                        let i = choose|i: int|
                            0 <= i < used_seq.len() && #[trigger] used_seq[i] == u;
                        assert(used_seq.take(used_seq.len() as int) == used_seq);
                        assert(used_seq.take(used_seq.len() as int).contains(u));
                    } else {
                        assert(!used_seq.take(used_seq.len() as int).contains(u)) by {
                            if used_seq.take(used_seq.len() as int).contains(u) {
                                let i = choose|i: int|
                                    0 <= i < used_seq.len() && #[trigger] used_seq.take(
                                        used_seq.len() as int,
                                    )[i] == u;
                                assert(used_seq[i] == u);
                                assert(spec_used_vars(data[pos as int].rh).contains(u));
                            }
                        }
                    }
                }
            }
            pos = pos + 1;
        }

        // The terminator's operands are used at the block length.
        let ghost pre_link = map@;
        let link_val = match bb.link {
            Some(l) => l,
            None => {
                proof {
                    assert(false);
                }
                BlockLink::Branch(Var { id: 0, width: 0, kind: crate::ir::VarKind::Local })
            },
        };
        match link_val {
            BlockLink::Branch(addr) => {
                proof {
                    assert(link_uses(link_val, addr));
                    let q = choose|q: int|
                        0 <= q < data.len() && #[trigger] inst_defines(data[q], addr);
                }
                map.use_var(addr, n);
            },
            BlockLink::BranchAndLink(addr, lr) => {
                proof {
                    assert(link_uses(link_val, addr));
                    let q = choose|q: int|
                        0 <= q < data.len() && #[trigger] inst_defines(data[q], addr);
                }
                map.use_var(addr, n);
                proof {
                    assert(link_uses(link_val, lr));
                    let q = choose|q: int|
                        0 <= q < data.len() && #[trigger] inst_defines(data[q], lr);
                    let k = choose|k: int|
                        0 <= k < pre_link.len() && (#[trigger] pre_link[k]).0 == lr;
                    assert(map@[k].0 == lr);
                }
                map.use_var(lr, n);
            },
            BlockLink::BranchCond(_cnd, t, f) => {
                proof {
                    assert(link_uses(link_val, t));
                    let q = choose|q: int|
                        0 <= q < data.len() && #[trigger] inst_defines(data[q], t);
                }
                map.use_var(t, n);
                proof {
                    assert(link_uses(link_val, f));
                    let q = choose|q: int|
                        0 <= q < data.len() && #[trigger] inst_defines(data[q], f);
                    let k = choose|k: int|
                        0 <= k < pre_link.len() && (#[trigger] pre_link[k]).0 == f;
                    assert(map@[k].0 == f);
                }
                map.use_var(f, n);
            },
        }

        proof {
            assert forall|k: int| 0 <= k < map@.len() implies {
                &&& (#[trigger] map@[k]).0 == pre_link[k].0
                &&& map@[k].1.0 == pre_link[k].1.0
                &&& map@[k].1.1 == (if link_uses(link_val, map@[k].0) {
                    n as int
                } else {
                    pre_link[k].1.1 as int
                })
            } by {
                match link_val {
                    BlockLink::Branch(addr) => {
                        if pre_link[k].0 == addr {
                        } else {
                        }
                    },
                    BlockLink::BranchAndLink(addr, lr) => {
                        if pre_link[k].0 == addr || pre_link[k].0 == lr {
                        } else {
                        }
                    },
                    BlockLink::BranchCond(_c2, t, f) => {
                        if pre_link[k].0 == t || pre_link[k].0 == f {
                        } else {
                        }
                    },
                }
            }
        }

        proof {
            assert forall|k: int| 0 <= k < map@.len() implies {
                &&& 0 <= (#[trigger] map@[k]).1.0 < data.len()
                &&& inst_defines(data[map@[k].1.0 as int], map@[k].0)
                &&& map@[k].1.1 == spec_block_lu(data, bb.link, map@[k].0)
                &&& (map@[k].1.1 == 0 || map@[k].1.0 < map@[k].1.1)
            } by {
                let v = map@[k].0;
                let d = map@[k].1.0 as int;
                let l = map@[k].1.1 as int;
                if l != 0 {
                    if l == data.len() as int && match bb.link {
                        Some(lk) => link_uses(lk, v),
                        None => false,
                    } {
                        assert(d < l);
                    } else {
                        lemma_last_use_is_use(data, data.len() as int, v);
                        let q = choose|q: int|
                            0 <= q < spec_last_use(data, data.len() as int, v)
                                && #[trigger] inst_defines(data[q], v);
                        lemma_ssa_unique_def(data, q, d, v);
                    }
                }
            }
        }
        map
    }
}


/// Representing an allocated register and the associated live value.
pub struct ActiveEntry {
    /// The live variable.
    pub var: Var,
    /// The interval associated with this variable.
    pub interval: LiveInterval,
    /// The register allocated for this variable.
    pub reg: HostRegister,
}

/// Register encodings are distinct.
proof fn lemma_encoding_injective(r1: HostRegister, r2: HostRegister)
    requires
        spec_reg_encoding(r1) == spec_reg_encoding(r2),
    ensures
        r1 == r2,
{
}

/// A well-formed storage map binds a variable to at most one location.
pub proof fn lemma_maps_to_unique(sm: StorageMap, v: Var, s1: StorageLoc, s2: StorageLoc)
    requires
        sm.wf(),
        sm.maps_to(v, s1),
        sm.maps_to(v, s2),
    ensures
        s1 == s2,
{
    let k1 = choose|k: int| 0 <= k < sm.data@.len() && sm.data@[k] == (v, s1);
    let k2 = choose|k: int| 0 <= k < sm.data@.len() && sm.data@[k] == (v, s2);
    if k1 != k2 {
        assert(sm.data@[k1].0 != sm.data@[k2].0);
        assert(false);
    }
}

/// The definition position of the most recently processed interval: every
/// retired variable died at or before this point, and every interval still
/// to come starts at or after it.
pub open spec fn spec_frontier(iv: Seq<(Var, LiveInterval)>, k: int) -> int {
    if k <= 0 {
        0
    } else {
        iv[k - 1].1.0 as int
    }
}

/// Entry `e` appears among the first `bound` active entries and is still
/// live past `d`.
spec fn from_live(pre: Seq<ActiveEntry>, bound: int, e: ActiveEntry, d: usize) -> bool {
    exists|a: int| 0 <= a < bound && #[trigger] pre[a] == e && pre[a].interval.1 > d
}

proof fn lemma_from_live_widen(pre: Seq<ActiveEntry>, b1: int, b2: int, e: ActiveEntry, d: usize)
    requires
        from_live(pre, b1, e, d),
        b1 <= b2,
    ensures
        from_live(pre, b2, e, d),
{
    let a = choose|a: int| 0 <= a < b1 && #[trigger] pre[a] == e && pre[a].interval.1 > d;
    assert(0 <= a < b2 && pre[a] == e && pre[a].interval.1 > d);
}

/// Expire every active interval whose last use is at or before `d`,
/// returning the expired registers to the pool and keeping the rest.
#[verifier::spinoff_prover]
fn expire_active(active: Vec<ActiveEntry>, pool: &mut RegisterPool, d: usize) -> (r: Vec<
    ActiveEntry,
>)
    requires
        forall|a1: int, a2: int|
            0 <= a1 < a2 < active@.len() ==> (#[trigger] active@[a1]).reg != (
            #[trigger] active@[a2]).reg,
        forall|p1: int, p2: int|
            0 <= p1 < p2 < old(pool)@.len() ==> (#[trigger] old(pool)@[p1]) != (#[trigger] old(pool)@[p2]),
        forall|p: int, a: int|
            0 <= p < old(pool)@.len() && 0 <= a < active@.len() ==> (#[trigger] old(pool)@[p])
                != (#[trigger] active@[a]).reg,
    ensures
        forall|na: int|
            0 <= na < r@.len() ==> from_live(active@, active@.len() as int, #[trigger] r@[na], d),
        forall|a: int|
            0 <= a < active@.len() && (#[trigger] active@[a]).interval.1 > d ==> r@.contains(
                active@[a],
            ),
        forall|a: int|
            0 <= a < active@.len() && (#[trigger] active@[a]).interval.1 <= d
                ==> final(pool)@.contains(active@[a].reg),
        final(pool)@.len() >= old(pool)@.len(),
        final(pool)@.take(old(pool)@.len() as int) == old(pool)@,
        forall|p: int|
            old(pool)@.len() <= p < final(pool)@.len() ==> exists|a: int|
                0 <= a < active@.len() && (#[trigger] active@[a]).reg == #[trigger] final(pool)@[p] && active@[a].interval.1 <= d,
        forall|p1: int, p2: int|
            0 <= p1 < p2 < final(pool)@.len() ==> (#[trigger] final(pool)@[p1]) != (
            #[trigger] final(pool)@[p2]),
        forall|na1: int, na2: int|
            0 <= na1 < na2 < r@.len() ==> (#[trigger] r@[na1]).reg != (#[trigger] r@[na2]).reg,
        forall|p: int, na: int|
            0 <= p < final(pool)@.len() && 0 <= na < r@.len() ==> (#[trigger] final(pool)@[p])
                != (#[trigger] r@[na]).reg,
{
    let ghost pre_active = active@;
    let ghost pre_pool = pool@;
    let mut new_active: Vec<ActiveEntry> = Vec::new();
    let mut ai: usize = 0;
    while ai < active.len()
        invariant
            ai <= active@.len(),
            active@ == pre_active,
            forall|a1: int, a2: int|
                0 <= a1 < a2 < pre_active.len() ==> (#[trigger] pre_active[a1]).reg != (
                #[trigger] pre_active[a2]).reg,
            forall|na: int|
                0 <= na < new_active@.len() ==> from_live(
                    pre_active,
                    ai as int,
                    #[trigger] new_active@[na],
                    d,
                ),
            forall|a: int|
                0 <= a < ai && (#[trigger] pre_active[a]).interval.1 > d
                    ==> new_active@.contains(pre_active[a]),
            forall|a: int|
                0 <= a < ai && (#[trigger] pre_active[a]).interval.1 <= d ==> pool@.contains(
                    pre_active[a].reg,
                ),
            pool@.len() >= pre_pool.len(),
            pool@.take(pre_pool.len() as int) == pre_pool,
            forall|p: int|
                pre_pool.len() <= p < pool@.len() ==> exists|a: int|
                    0 <= a < ai && (#[trigger] pre_active[a]).reg == #[trigger] pool@[p]
                        && pre_active[a].interval.1 <= d,
            forall|p1: int, p2: int|
                0 <= p1 < p2 < pool@.len() ==> (#[trigger] pool@[p1]) != (#[trigger] pool@[p2]),
            forall|na1: int, na2: int|
                0 <= na1 < na2 < new_active@.len() ==> (#[trigger] new_active@[na1]).reg != (
                #[trigger] new_active@[na2]).reg,
            forall|p: int, na: int|
                0 <= p < pool@.len() && 0 <= na < new_active@.len() ==> (#[trigger] pool@[p]) != (
                #[trigger] new_active@[na]).reg,
            forall|p: int, a: int|
                0 <= p < pool@.len() && ai <= a < pre_active.len() ==> (#[trigger] pool@[p]) != (
                #[trigger] pre_active[a]).reg,
            forall|na: int, a: int|
                0 <= na < new_active@.len() && ai <= a < pre_active.len() ==> (
                #[trigger] new_active@[na]).reg != (#[trigger] pre_active[a]).reg,
        decreases active@.len() - ai,
    {
        let a = ActiveEntry {
            var: active[ai].var,
            interval: active[ai].interval,
            reg: active[ai].reg,
        };
        let ghost pp = pool@;
        let ghost pna = new_active@;
        if a.interval.1 <= d {
            pool.put_back(a.reg);
            proof {
                assert(pool@.take(pre_pool.len() as int) =~= pre_pool);
                assert(pool@.last() == pre_active[ai as int].reg);
                assert forall|a2: int|
                    0 <= a2 < ai + 1 && (#[trigger] pre_active[a2]).interval.1 <= d
                        implies pool@.contains(pre_active[a2].reg) by {
                    if a2 < ai {
                        let p = choose|p: int|
                            0 <= p < pp.len() && #[trigger] pp[p] == pre_active[a2].reg;
                        assert(pool@[p] == pre_active[a2].reg);
                    } else {
                        assert(pool@[pool@.len() - 1] == pre_active[a2].reg);
                    }
                }
                assert forall|na: int| 0 <= na < new_active@.len() implies from_live(
                    pre_active,
                    ai + 1,
                    #[trigger] new_active@[na],
                    d,
                ) by {
                    lemma_from_live_widen(pre_active, ai as int, ai + 1, new_active@[na], d);
                }
            }
        } else {
            new_active.push(a);
            proof {
                assert(new_active@.last() == pre_active[ai as int]);
                assert forall|a2: int|
                    0 <= a2 < ai + 1 && (#[trigger] pre_active[a2]).interval.1 > d
                        implies new_active@.contains(pre_active[a2]) by {
                    if a2 < ai {
                        let na = choose|na: int|
                            0 <= na < pna.len() && #[trigger] pna[na] == pre_active[a2];
                        assert(new_active@[na] == pre_active[a2]);
                    } else {
                        assert(new_active@[new_active@.len() - 1] == pre_active[a2]);
                    }
                }
                assert forall|na: int| 0 <= na < new_active@.len() implies from_live(
                    pre_active,
                    ai + 1,
                    #[trigger] new_active@[na],
                    d,
                ) by {
                    if na < pna.len() {
                        assert(new_active@[na] == pna[na as int]);
                        assert(from_live(pre_active, ai as int, pna[na as int], d));
                        lemma_from_live_widen(pre_active, ai as int, ai + 1, new_active@[na], d);
                    } else {
                        assert(pre_active[ai as int] == new_active@[na]
                            && pre_active[ai as int].interval.1 > d);
                    }
                }
            }
        }
        ai = ai + 1;
    }
    new_active
}

/// Color every variable of an interval map with a storage location by
/// linear scan, in variable-id (equivalently, definition) order.
///
/// Constants are embedded directly and consume no register. Any other
/// variable gets a host register not held by a variable whose interval
/// overlaps: two variables bound to the same register have disjoint
/// intervals. Fails only when more intervals are live at once than the pool
/// has registers, since spilling is not implemented.
#[verifier::rlimit(100)]
#[verifier::spinoff_prover]
pub fn allocate_registers(intervals: &IntervalMap) -> (r: Result<StorageMap, TranslateError>)
    requires
        intervals.wf(),
        forall|k1: int, k2: int|
            0 <= k1 < k2 < intervals@.len() ==> (#[trigger] intervals@[k1]).1.0 <= (
            #[trigger] intervals@[k2]).1.0,
    ensures
        match r {
            Ok(sm) => {
                &&& sm.wf()
                &&& forall|k: int|
                    0 <= k < intervals@.len() ==> sm.binds((#[trigger] intervals@[k]).0)
                &&& forall|k: int|
                    0 <= k < intervals@.len() ==> match (#[trigger] intervals@[k]).0.kind {
                        VarKind::Constant(c) => sm.maps_to(intervals@[k].0, StorageLoc::Const(c)),
                        _ => true,
                    }
                &&& forall|v: Var|
                    #[trigger] sm.binds(v) ==> exists|k: int|
                        0 <= k < intervals@.len() && (#[trigger] intervals@[k]).0 == v
                &&& forall|k1: int, k2: int, g: u8|
                    0 <= k1 < intervals@.len() && 0 <= k2 < intervals@.len() && k1 != k2
                        && #[trigger] sm.maps_to(intervals@[k1].0, StorageLoc::Gpr(g))
                        && #[trigger] sm.maps_to(intervals@[k2].0, StorageLoc::Gpr(g))
                        ==> intervals_disjoint(intervals@[k1].1, intervals@[k2].1)
            },
            Err(e) => e == TranslateError::PoolExhausted,
        },
{
    let ghost ivs = intervals@;
    let mut active: Vec<ActiveEntry> = Vec::new();
    let mut pool = RegisterPool::new();
    let mut storage = StorageMap::new();

    let n = intervals.data.len();
    let mut k: usize = 0;
    while k < n
        invariant
            ivs == intervals@,
            n == ivs.len(),
            k <= n,
            intervals.wf(),
            forall|k1: int, k2: int|
                0 <= k1 < k2 < ivs.len() ==> (#[trigger] ivs[k1]).1.0 <= (#[trigger] ivs[k2]).1.0,
            storage.wf(),
            forall|i: int| 0 <= i < k ==> storage.binds((#[trigger] ivs[i]).0),
            forall|i: int|
                0 <= i < k ==> match (#[trigger] ivs[i]).0.kind {
                    VarKind::Constant(c) => storage.maps_to(ivs[i].0, StorageLoc::Const(c)),
                    _ => true,
                },
            forall|v: Var|
                #[trigger] storage.binds(v) ==> exists|i: int|
                    0 <= i < k && (#[trigger] ivs[i]).0 == v,
            // Every register-bound processed variable is either still active
            // under that register, or its interval ended by the frontier.
            forall|i: int, g: u8|
                0 <= i < k && #[trigger] storage.maps_to(ivs[i].0, StorageLoc::Gpr(g))
                    ==> (exists|a: int|
                    0 <= a < active@.len() && (#[trigger] active@[a]).var == ivs[i].0
                        && spec_reg_encoding(active@[a].reg) == g && active@[a].interval
                        == ivs[i].1) || ivs[i].1.1 <= spec_frontier(ivs, k as int),
            forall|a: int|
                0 <= a < active@.len() ==> exists|i: int|
                    0 <= i < k && #[trigger] ivs[i] == ((#[trigger] active@[a]).var, active@[
                        a
                    ].interval),
            forall|a: int|
                0 <= a < active@.len() ==> storage.maps_to(
                    (#[trigger] active@[a]).var,
                    StorageLoc::Gpr(spec_reg_encoding(active@[a].reg)),
                ),
            forall|a1: int, a2: int|
                0 <= a1 < a2 < active@.len() ==> (#[trigger] active@[a1]).reg != (
                #[trigger] active@[a2]).reg,
            forall|p1: int, p2: int|
                0 <= p1 < p2 < pool@.len() ==> (#[trigger] pool@[p1]) != (#[trigger] pool@[p2]),
            forall|p: int, a: int|
                0 <= p < pool@.len() && 0 <= a < active@.len() ==> (#[trigger] pool@[p]) != (
                #[trigger] active@[a]).reg,
            // Disjointness among already-colored variables.
            forall|i1: int, i2: int, g: u8|
                0 <= i1 < k && 0 <= i2 < k && i1 != i2 && #[trigger] storage.maps_to(
                    ivs[i1].0,
                    StorageLoc::Gpr(g),
                ) && #[trigger] storage.maps_to(ivs[i2].0, StorageLoc::Gpr(g))
                    ==> intervals_disjoint(ivs[i1].1, ivs[i2].1),
        decreases n - k,
    {
        let entry = intervals.data[k];
        let v = entry.0;
        let iv = entry.1;
        let d = iv.0;

        if let VarKind::Constant(c) = v.kind {
            let ghost s0 = storage;
            storage.bind(v, StorageLoc::Const(c));
            proof {
                assert forall|i: int| 0 <= i < k implies (#[trigger] ivs[i]).0 != v by {
                    assert(ivs[i].0.id < ivs[k as int].0.id);
                }
                assert forall|i: int, g: u8|
                    0 <= i < k + 1 && #[trigger] storage.maps_to(ivs[i].0, StorageLoc::Gpr(g))
                        implies (exists|a: int|
                        0 <= a < active@.len() && (#[trigger] active@[a]).var == ivs[i].0
                            && spec_reg_encoding(active@[a].reg) == g && active@[a].interval
                            == ivs[i].1) || ivs[i].1.1 <= spec_frontier(ivs, k + 1) by {
                    if i < k {
                        assert(ivs[i].0 != v);
                        assert(s0.maps_to(ivs[i].0, StorageLoc::Gpr(g)));
                        if exists|a: int|
                            0 <= a < active@.len() && (#[trigger] active@[a]).var == ivs[i].0
                                && spec_reg_encoding(active@[a].reg) == g && active@[a].interval
                                == ivs[i].1 {
                        } else {
                            assert(ivs[i].1.1 <= spec_frontier(ivs, k as int));
                            if k > 0 {
                                assert(ivs[k - 1].1.0 <= ivs[k as int].1.0);
                            }
                        }
                    } else {
                        lemma_maps_to_unique(
                            storage,
                            v,
                            StorageLoc::Gpr(g),
                            StorageLoc::Const(c),
                        );
                        assert(false);
                    }
                }
                assert forall|i1: int, i2: int, g: u8|
                    0 <= i1 < k + 1 && 0 <= i2 < k + 1 && i1 != i2 && #[trigger] storage.maps_to(
                        ivs[i1].0,
                        StorageLoc::Gpr(g),
                    ) && #[trigger] storage.maps_to(ivs[i2].0, StorageLoc::Gpr(g))
                        implies intervals_disjoint(ivs[i1].1, ivs[i2].1) by {
                    if i1 == k || i2 == k {
                        let ii = if i1 == k {
                            i1
                        } else {
                            i2
                        };
                        lemma_maps_to_unique(
                            storage,
                            v,
                            StorageLoc::Gpr(g),
                            StorageLoc::Const(c),
                        );
                        assert(false);
                    } else {
                        assert(s0.maps_to(ivs[i1].0, StorageLoc::Gpr(g)));
                        assert(s0.maps_to(ivs[i2].0, StorageLoc::Gpr(g)));
                    }
                }
            }
            k = k + 1;
            continue ;
        }

        // Expire every active interval that ended at or before this
        // definition, returning its register to the pool.
        let ghost pre_active = active@;
        let ghost pre_pool = pool@;
        active = expire_active(active, &mut pool, d);

        if pool.is_empty() {
            return Err(TranslateError::PoolExhausted);
        }
        let ghost mid_pool = pool@;
        let reg = pool.take();
        let enc = reg.encoding();
        let ghost s0 = storage;
        storage.bind(v, StorageLoc::Gpr(enc));
        let ghost mid_active = active@;
        active.push(ActiveEntry { var: v, interval: iv, reg });

        proof {
            let last = active@.len() - 1;
            assert(active@[last] == (ActiveEntry { var: v, interval: iv, reg }));
            assert forall|i: int| 0 <= i < k implies (#[trigger] ivs[i]).0 != v by {
                assert(ivs[i].0.id < ivs[k as int].0.id);
            }
            // Where did `reg` come from: the untouched part of the pool, or a
            // retirement in this round. Either way no surviving active entry
            // holds it.
            assert(mid_pool.contains(reg)) by {
                assert(mid_pool[mid_pool.len() - 1] == reg);
            }
            assert forall|na: int| 0 <= na < mid_active.len() implies (
            #[trigger] mid_active[na]).reg != reg by {
                assert(mid_pool[mid_pool.len() - 1] == reg);
            }

            // The retired-or-active disjunction at the new frontier.
            assert forall|i: int, g: u8|
                0 <= i < k + 1 && #[trigger] storage.maps_to(ivs[i].0, StorageLoc::Gpr(g))
                    implies (exists|a: int|
                    0 <= a < active@.len() && (#[trigger] active@[a]).var == ivs[i].0
                        && spec_reg_encoding(active@[a].reg) == g && active@[a].interval == ivs[
                        i
                    ].1) || ivs[i].1.1 <= spec_frontier(ivs, k + 1) by {
                if i == k {
                    lemma_maps_to_unique(storage, v, StorageLoc::Gpr(g), StorageLoc::Gpr(enc));
                    assert(active@[last].var == ivs[i].0 && spec_reg_encoding(active@[last].reg)
                        == g && active@[last].interval == ivs[i].1);
                } else {
                    assert(ivs[i].0 != v);
                    assert(s0.maps_to(ivs[i].0, StorageLoc::Gpr(g)));
                    if exists|a: int|
                        0 <= a < pre_active.len() && (#[trigger] pre_active[a]).var == ivs[i].0
                            && spec_reg_encoding(pre_active[a].reg) == g && pre_active[a].interval
                            == ivs[i].1 {
                        let a = choose|a: int|
                            0 <= a < pre_active.len() && (#[trigger] pre_active[a]).var == ivs[
                                i
                            ].0 && spec_reg_encoding(pre_active[a].reg) == g
                                && pre_active[a].interval == ivs[i].1;
                        if pre_active[a].interval.1 <= d {
                            assert(ivs[i].1.1 <= spec_frontier(ivs, k + 1));
                        } else {
                            assert(mid_active.contains(pre_active[a]));
                            let na = choose|na: int|
                                0 <= na < mid_active.len() && #[trigger] mid_active[na]
                                    == pre_active[a];
                            assert(active@[na] == pre_active[a]);
                        }
                    } else {
                        assert(ivs[i].1.1 <= spec_frontier(ivs, k as int));
                        if k > 0 {
                            assert(ivs[k - 1].1.0 <= ivs[k as int].1.0);
                        }
                    }
                }
            }

            // Every active entry records an already-processed interval and
            // its storage binding.
            assert forall|a: int| 0 <= a < active@.len() implies exists|i: int|
                0 <= i < k + 1 && #[trigger] ivs[i] == ((#[trigger] active@[a]).var, active@[
                    a
                ].interval) by {
                if a < last {
                    assert(mid_active[a] == active@[a]);
                    assert(from_live(pre_active, pre_active.len() as int, mid_active[a], d));
                    let ap = choose|ap: int|
                        0 <= ap < pre_active.len() && #[trigger] pre_active[ap] == mid_active[a]
                            && pre_active[ap].interval.1 > d;
                    let i = choose|i: int|
                        0 <= i < k && #[trigger] ivs[i] == (pre_active[ap].var, pre_active[
                            ap
                        ].interval);
                    assert(ivs[i] == (active@[a].var, active@[a].interval));
                } else {
                    assert(ivs[k as int] == (active@[a].var, active@[a].interval));
                }
            }
            assert forall|a: int| 0 <= a < active@.len() implies storage.maps_to(
                (#[trigger] active@[a]).var,
                StorageLoc::Gpr(spec_reg_encoding(active@[a].reg)),
            ) by {
                if a < last {
                    assert(mid_active[a] == active@[a]);
                    assert(from_live(pre_active, pre_active.len() as int, mid_active[a], d));
                    let ap = choose|ap: int|
                        0 <= ap < pre_active.len() && #[trigger] pre_active[ap] == mid_active[a]
                            && pre_active[ap].interval.1 > d;
                    let i = choose|i: int|
                        0 <= i < k && #[trigger] ivs[i] == (pre_active[ap].var, pre_active[
                            ap
                        ].interval);
                    assert(active@[a].var == ivs[i].0);
                    assert(ivs[i].0 != v);
                    assert(s0.maps_to(
                        active@[a].var,
                        StorageLoc::Gpr(spec_reg_encoding(active@[a].reg)),
                    ));
                }
            }

            // Register bookkeeping stays consistent.
            assert forall|a1: int, a2: int| 0 <= a1 < a2 < active@.len() implies (
            #[trigger] active@[a1]).reg != (#[trigger] active@[a2]).reg by {
                if a2 == last {
                    assert(mid_active[a1].reg != reg);
                }
            }
            assert(pool@ == mid_pool.drop_last());
            assert forall|p: int, a: int|
                0 <= p < pool@.len() && 0 <= a < active@.len() implies (#[trigger] pool@[p]) != (
            #[trigger] active@[a]).reg by {
                assert(pool@[p] == mid_pool[p]);
                if a == last {
                    assert(mid_pool[p] != mid_pool[mid_pool.len() - 1]);
                } else {
                    assert(mid_active[a] == active@[a]);
                }
            }

            // Pairwise disjointness, now including the fresh binding.
            assert forall|i1: int, i2: int, g: u8|
                0 <= i1 < k + 1 && 0 <= i2 < k + 1 && i1 != i2 && #[trigger] storage.maps_to(
                    ivs[i1].0,
                    StorageLoc::Gpr(g),
                ) && #[trigger] storage.maps_to(ivs[i2].0, StorageLoc::Gpr(g))
                    implies intervals_disjoint(ivs[i1].1, ivs[i2].1) by {
                if i1 < k && i2 < k {
                    assert(ivs[i1].0 != v && ivs[i2].0 != v);
                    assert(s0.maps_to(ivs[i1].0, StorageLoc::Gpr(g)));
                    assert(s0.maps_to(ivs[i2].0, StorageLoc::Gpr(g)));
                } else {
                    let i = if i1 == k {
                        i2
                    } else {
                        i1
                    };
                    assert(0 <= i < k);
                    lemma_maps_to_unique(storage, v, StorageLoc::Gpr(g), StorageLoc::Gpr(enc));
                    assert(g == enc);
                    assert(ivs[i].0 != v);
                    assert(s0.maps_to(ivs[i].0, StorageLoc::Gpr(g)));
                    // The old holder of this register was retired in this
                    // round or earlier, so its interval ended by `d`.
                    if exists|a: int|
                        0 <= a < pre_active.len() && (#[trigger] pre_active[a]).var == ivs[i].0
                            && spec_reg_encoding(pre_active[a].reg) == g && pre_active[a].interval
                            == ivs[i].1 {
                        let a = choose|a: int|
                            0 <= a < pre_active.len() && (#[trigger] pre_active[a]).var == ivs[
                                i
                            ].0 && spec_reg_encoding(pre_active[a].reg) == g
                                && pre_active[a].interval == ivs[i].1;
                        lemma_encoding_injective(pre_active[a].reg, reg);
                        assert(pre_active[a].reg == reg);
                        if pre_active[a].interval.1 > d {
                            assert(mid_active.contains(pre_active[a]));
                            let na = choose|na: int|
                                0 <= na < mid_active.len() && #[trigger] mid_active[na]
                                    == pre_active[a];
                            assert(mid_active[na].reg != reg);
                            assert(false);
                        }
                        assert(ivs[i].1.1 <= d);
                    } else {
                        assert(ivs[i].1.1 <= spec_frontier(ivs, k as int));
                        if k > 0 {
                            assert(ivs[k - 1].1.0 <= ivs[k as int].1.0);
                        }
                    }
                    assert(ivs[i].1.1 <= ivs[k as int].1.0);
                }
            }
        }
        k = k + 1;
    }
    Ok(storage)
}

} // verus!
