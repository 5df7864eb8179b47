//! Basic blocks and the block-builder interface used while lifting.
//!
//! A block is grown one IR instruction at a time. The builder hands out
//! fresh variable ids in increasing order, so a block is always in static
//! single assignment form: every variable id is bound at most once as a
//! result, every operand was bound earlier, and later instructions bind
//! strictly larger ids.

use vstd::prelude::*;

use crate::emit::HostInst;
use crate::guest;
use crate::guest::ProgramCounter;
use crate::ir::{
    def_slot, inst_defines, inst_slots_ordered, inst_uses, spec_used_vars, width_mask, ArithOp,
    BindOp, Constant, FlagKind, Instruction, MemoryOp, Operation, Var, VarKind,
};
use crate::regalloc::{IntervalMap, StorageMap};

verus! {

/// Per-block variable bindings: the id counter, the registry of every
/// variable handed out, and the constant cache used for deduplication.
pub struct LocalBindings {
    /// The next free variable id.
    pub cur_varid: usize,
    /// Every variable handed out so far, in allocation order.
    pub vars: Vec<Var>,
    /// The constant cache: one variable per distinct constant.
    pub consts: Vec<(Constant, Var)>,
}

impl LocalBindings {
    /// Cached variables carry ids already handed out, match their constant,
    /// and no constant is cached twice.
    pub open spec fn wf(&self) -> bool {
        (forall|k: int|
            0 <= k < self.consts@.len() ==> {
                &&& (#[trigger] self.consts@[k]).1.id < self.cur_varid
                &&& self.consts@[k].1.width == self.consts@[k].0.width
                &&& self.consts@[k].1.kind == VarKind::Constant(self.consts@[k].0.value)
            }) && (forall|k1: int, k2: int|
            0 <= k1 < k2 < self.consts@.len() ==> (#[trigger] self.consts@[k1]).0 != (
            #[trigger] self.consts@[k2]).0)
    }

    /// Empty bindings.
    pub fn new() -> (r: LocalBindings)
        ensures
            r.wf(),
            r.cur_varid == 0,
            r.vars@.len() == 0,
            r.consts@.len() == 0,
    {
        LocalBindings { cur_varid: 0, vars: Vec::new(), consts: Vec::new() }
    }

    /// Hand out the next free variable id.
    pub fn next_id(&mut self) -> (r: usize)
        requires
            old(self).cur_varid < usize::MAX,
        ensures
            r == old(self).cur_varid,
            final(self).cur_varid == old(self).cur_varid + 1,
            final(self).vars@ == old(self).vars@,
            final(self).consts@ == old(self).consts@,
    {
        let res = self.cur_varid;
        self.cur_varid = self.cur_varid + 1;
        res
    }

    /// The cached variable for constant `c`, when one exists.
    pub fn get_constant(&self, c: Constant) -> (r: Option<Var>)
        ensures
            match r {
                Some(v) => exists|k: int|
                    0 <= k < self.consts@.len() && #[trigger] self.consts@[k] == (c, v),
                None => forall|k: int|
                    0 <= k < self.consts@.len() ==> (#[trigger] self.consts@[k]).0 != c,
            },
    {
        let n = self.consts.len();
        let mut k: usize = 0;
        while k < n
            invariant
                n == self.consts@.len(),
                k <= n,
                forall|j: int| 0 <= j < k ==> (#[trigger] self.consts@[j]).0 != c,
            decreases n - k,
        {
            if self.consts[k].0 == c {
                return Some(self.consts[k].1);
            }
            k = k + 1;
        }
        None
    }

    /// Drop the cache entry for constant `c`, if present.
    pub fn remove_constant(&mut self, c: Constant)
        requires
            old(self).wf(),
        ensures
            final(self).wf(),
            final(self).cur_varid == old(self).cur_varid,
            final(self).vars@ == old(self).vars@,
            final(self).consts@.len() <= old(self).consts@.len(),
            (exists|k: int| 0 <= k < old(self).consts@.len() && (#[trigger] old(self).consts@[k]).0 == c)
                ==> final(self).consts@.len() < old(self).consts@.len(),
            forall|k: int| 0 <= k < final(self).consts@.len() ==> (#[trigger] final(self).consts@[k]).0 != c,
            forall|k: int|
                0 <= k < final(self).consts@.len() ==> old(self).consts@.contains(
                    #[trigger] final(self).consts@[k],
                ),
            forall|k: int|
                0 <= k < old(self).consts@.len() && (#[trigger] old(self).consts@[k]).0 != c
                    ==> final(self).consts@.contains(old(self).consts@[k]),
    {
        let n = self.consts.len();
        let mut k: usize = 0;
        while k < n
            invariant
                n == self.consts@.len(),
                k <= n,
                *self == *old(self),
                old(self).wf(),
                forall|j: int| 0 <= j < k ==> (#[trigger] self.consts@[j]).0 != c,
            decreases n - k,
        {
            if self.consts[k].0 == c {
                let ghost pre = self.consts@;
                self.consts.remove(k);
                proof {
                    assert(self.consts@ =~= pre.remove(k as int));
                    assert forall|j: int|
                        0 <= j < self.consts@.len() implies (#[trigger] self.consts@[j]).0
                        != c by {
                        if j < k {
                            assert(self.consts@[j] == pre[j]);
                        } else {
                            assert(self.consts@[j] == pre[j + 1]);
                            assert(pre[k as int].0 == c);
                        }
                    }
                    assert forall|j: int|
                        0 <= j < self.consts@.len() implies old(self).consts@.contains(
                        #[trigger] self.consts@[j]) by {
                        if j < k {
                            assert(self.consts@[j] == pre[j]);
                        } else {
                            assert(self.consts@[j] == pre[j + 1]);
                        }
                    }
                    assert forall|j: int|
                        0 <= j < pre.len() && (#[trigger] pre[j]).0 != c implies self.consts@
                        .contains(pre[j]) by {
                        if j < k {
                            assert(self.consts@[j] == pre[j]);
                        } else {
                            assert(j != k);
                            assert(self.consts@[j - 1] == pre[j]);
                        }
                    }
                }
                return ;
            }
            k = k + 1;
        }
    }

    /// Allocate a fresh block-local variable of the given width.
    pub fn alloca_local(&mut self, width: usize) -> (r: Var)
        requires
            old(self).wf(),
            old(self).cur_varid < usize::MAX,
        ensures
            final(self).wf(),
            r == (Var { id: old(self).cur_varid, width, kind: VarKind::Local }),
            final(self).cur_varid == old(self).cur_varid + 1,
            final(self).consts@ == old(self).consts@,
            final(self).vars@ == old(self).vars@.push(r),
    {
        let id = self.next_id();
        let var = Var::new_local(id, width);
        self.vars.push(var);
        var
    }

    /// Allocate and cache a fresh constant variable for `c`.
    pub fn alloca_constant(&mut self, c: Constant) -> (r: Var)
        requires
            old(self).wf(),
            old(self).cur_varid < usize::MAX,
            forall|k: int| 0 <= k < old(self).consts@.len() ==> (#[trigger] old(self).consts@[k]).0 != c,
        ensures
            final(self).wf(),
            r == (Var { id: old(self).cur_varid, width: c.width, kind: VarKind::Constant(c.value) }),
            final(self).cur_varid == old(self).cur_varid + 1,
            final(self).consts@ == old(self).consts@.push((c, r)),
            final(self).vars@ == old(self).vars@.push(r),
    {
        let id = self.next_id();
        let var = Var::new_constant(id, c.width, c.value);
        self.consts.push((c, var));
        self.vars.push(var);
        proof {
            assert forall|k1: int, k2: int|
                0 <= k1 < k2 < self.consts@.len() implies (#[trigger] self.consts@[k1]).0 != (
            #[trigger] self.consts@[k2]).0 by {
                if k2 == self.consts@.len() - 1 {
                    assert(old(self).consts@[k1].0 != c);
                }
            }
        }
        var
    }

    /// Allocate a fresh variable holding the value of guest register `reg`.
    pub fn alloca_guestreg(&mut self, reg: guest::RegIdx) -> (r: Var)
        requires
            old(self).wf(),
            old(self).cur_varid < usize::MAX,
        ensures
            final(self).wf(),
            r == (Var { id: old(self).cur_varid, width: 32, kind: VarKind::GuestReg(reg) }),
            final(self).cur_varid == old(self).cur_varid + 1,
            final(self).consts@ == old(self).consts@,
            final(self).vars@ == old(self).vars@.push(r),
    {
        let id = self.next_id();
        let var = Var::new_guestreg(id, reg);
        self.vars.push(var);
        var
    }
}

/// The terminal element of a basic block.
#[derive(Clone, Copy, Debug, PartialEq, Eq, Structural)]
pub enum BlockLink {
    /// Branch to a target and record the return address in the link register.
    BranchAndLink(Var, Var),
    /// Unconditional branch to a target.
    Branch(Var),
    /// Branch to one of two targets depending on a condition.
    BranchCond(guest::Cond, Var, Var),
}

/// True when terminator `l` reads variable `v`.
pub open spec fn link_uses(l: BlockLink, v: Var) -> bool {
    match l {
        BlockLink::Branch(a) => v == a,
        BlockLink::BranchAndLink(a, lr) => v == a || v == lr,
        BlockLink::BranchCond(_, t, f) => v == t || v == f,
    }
}

/// True when some instruction of `data` binds `v` in a result slot.
pub open spec fn defined_in(data: Seq<Instruction>, v: Var) -> bool {
    exists|p: int| 0 <= p < data.len() && #[trigger] inst_defines(data[p], v)
}

/// Every variable bound by an instruction of `data` has an id below `n`.
pub open spec fn defs_below(data: Seq<Instruction>, n: int) -> bool {
    forall|p: int, v: Var|
        0 <= p < data.len() && #[trigger] inst_defines(data[p], v) ==> v.id < n
}

/// Static single assignment: no variable id is bound by two distinct result
/// slots anywhere in `data`.
pub open spec fn ssa_form(data: Seq<Instruction>) -> bool {
    forall|p1: int, s1: int, p2: int, s2: int|
        0 <= p1 < data.len() && 0 <= p2 < data.len() && 0 <= s1 < 3 && 0 <= s2 < 3 && (p1 != p2
            || s1 != s2) && (#[trigger] def_slot(data[p1], s1)).is_some() && (#[trigger] def_slot(
            data[p2],
            s2,
        )).is_some() ==> def_slot(data[p1], s1).unwrap().id != def_slot(data[p2], s2).unwrap().id
}

/// Every operand of an instruction was bound at a strictly earlier position.
pub open spec fn uses_defined_by(data: Seq<Instruction>) -> bool {
    forall|p: int, v: Var|
        0 <= p < data.len() && #[trigger] inst_uses(data[p], v) ==> exists|q: int|
            0 <= q < p && #[trigger] inst_defines(data[q], v)
}

/// Every instruction's occupied result slots carry increasing ids.
pub open spec fn slots_ordered(data: Seq<Instruction>) -> bool {
    forall|p: int| 0 <= p < data.len() ==> inst_slots_ordered(#[trigger] data[p])
}

/// Later instructions bind strictly larger variable ids.
pub open spec fn defs_monotone(data: Seq<Instruction>) -> bool {
    forall|p1: int, p2: int, v1: Var, v2: Var|
        0 <= p1 < p2 < data.len() && #[trigger] inst_defines(data[p1], v1)
            && #[trigger] inst_defines(data[p2], v2) ==> v1.id < v2.id
}

/// A result slot always binds a variable that the instruction defines.
proof fn lemma_slot_defines(i: Instruction, s: int)
    requires
        0 <= s < 3,
        def_slot(i, s).is_some(),
    ensures
        inst_defines(i, def_slot(i, s).unwrap()),
{
}

/// Pushing an instruction with fresh, pairwise-distinct result ids and
/// already-bound operands preserves every block-form invariant.
proof fn lemma_wf_push(data: Seq<Instruction>, inst: Instruction, n1: int, n2: int)
    requires
        defs_below(data, n1),
        ssa_form(data),
        uses_defined_by(data),
        defs_monotone(data),
        n1 <= n2,
        forall|v: Var| #[trigger] inst_defines(inst, v) ==> n1 <= v.id < n2,
        slots_ordered(data),
        inst_slots_ordered(inst),
        forall|v: Var| #[trigger] inst_uses(inst, v) ==> defined_in(data, v),
    ensures
        defs_below(data.push(inst), n2),
        ssa_form(data.push(inst)),
        uses_defined_by(data.push(inst)),
        defs_monotone(data.push(inst)),
        slots_ordered(data.push(inst)),
{
    let post = data.push(inst);
    let len = data.len() as int;
    assert(post.len() == len + 1);
    assert(forall|p: int| 0 <= p < len ==> post[p] == data[p]);
    assert(post[len] == inst);

    assert forall|p: int, v: Var|
        0 <= p < post.len() && #[trigger] inst_defines(post[p], v) implies v.id < n2 by {
        if p < len {
            assert(inst_defines(data[p], v));
        }
    }

    assert forall|p1: int, s1: int, p2: int, s2: int|
        0 <= p1 < post.len() && 0 <= p2 < post.len() && 0 <= s1 < 3 && 0 <= s2 < 3 && (p1 != p2
            || s1 != s2) && (#[trigger] def_slot(post[p1], s1)).is_some() && (#[trigger] def_slot(
            post[p2],
            s2,
        )).is_some() implies def_slot(post[p1], s1).unwrap().id != def_slot(
        post[p2],
        s2,
    ).unwrap().id by {
        if p1 < len && p2 < len {
            assert(def_slot(data[p1], s1).is_some());
            assert(def_slot(data[p2], s2).is_some());
        } else if p1 < len && p2 == len {
            lemma_slot_defines(data[p1], s1);
            lemma_slot_defines(inst, s2);
            assert(def_slot(data[p1], s1).unwrap().id < n1);
            assert(def_slot(inst, s2).unwrap().id >= n1);
        } else if p1 == len && p2 < len {
            lemma_slot_defines(data[p2], s2);
            lemma_slot_defines(inst, s1);
            assert(def_slot(data[p2], s2).unwrap().id < n1);
            assert(def_slot(inst, s1).unwrap().id >= n1);
        } else {
            if s1 < s2 {
                assert(def_slot(inst, s1).unwrap().id < def_slot(inst, s2).unwrap().id);
            } else {
                assert(s2 < s1);
                assert(def_slot(inst, s2).unwrap().id < def_slot(inst, s1).unwrap().id);
            }
        }
    }

    assert forall|p: int, v: Var|
        0 <= p < post.len() && #[trigger] inst_uses(post[p], v) implies exists|q: int|
        0 <= q < p && #[trigger] inst_defines(post[q], v) by {
        if p < len {
            assert(inst_uses(data[p], v));
            let q = choose|q: int| 0 <= q < p && #[trigger] inst_defines(data[q], v);
            assert(inst_defines(post[q], v));
        } else {
            assert(inst_uses(inst, v));
            assert(defined_in(data, v));
            let q = choose|q: int| 0 <= q < data.len() && #[trigger] inst_defines(data[q], v);
            assert(inst_defines(post[q], v));
        }
    }

    assert forall|p1: int, p2: int, v1: Var, v2: Var|
        0 <= p1 < p2 < post.len() && #[trigger] inst_defines(post[p1], v1)
            && #[trigger] inst_defines(post[p2], v2) implies v1.id < v2.id by {
        if p2 < len {
            assert(inst_defines(data[p1], v1));
            assert(inst_defines(data[p2], v2));
        } else {
            assert(inst_defines(data[p1], v1));
            assert(v1.id < n1);
            assert(v2.id >= n1);
        }
    }
}

/// A variable bound somewhere in `data` stays bound after an append.
proof fn lemma_defined_push(data: Seq<Instruction>, inst: Instruction)
    ensures
        forall|v: Var| #[trigger] defined_in(data, v) ==> defined_in(data.push(inst), v),
{
    assert forall|v: Var| #[trigger] defined_in(data, v) implies defined_in(
        data.push(inst),
        v,
    ) by {
        let p = choose|p: int| 0 <= p < data.len() && #[trigger] inst_defines(data[p], v);
        assert(inst_defines(data.push(inst)[p], v));
    }
}

/// A block ready to take another lifted instruction.
pub open spec fn builder_ready(b: BasicBlock) -> bool {
    &&& b.wf()
    &&& b.link.is_none()
    &&& b.guest_ops@.len() > 0
}

/// What every block-builder operation guarantees: the block stays
/// well-formed and unterminated, the surrounding state is untouched, ids
/// only grow, and variables already bound stay bound.
pub open spec fn builder_step(pre: BasicBlock, post: BasicBlock) -> bool {
    &&& post.wf()
    &&& post.link.is_none()
    &&& post.guest_ops@.len() > 0
    &&& same_frame(pre, post)
    &&& pre.lb.cur_varid <= post.lb.cur_varid
    &&& pre.data@.len() <= post.data@.len()
    &&& post.data@.take(pre.data@.len() as int) == pre.data@
    &&& forall|v: Var| #[trigger] defined_in(pre.data@, v) ==> defined_in(post.data@, v)
}

/// What one lifted guest instruction guarantees about the block: it stays
/// well-formed, the surrounding state is untouched, and at most a bounded
/// number of fresh variables is allocated.
pub open spec fn lift_step(pre: BasicBlock, post: BasicBlock) -> bool {
    &&& post.wf()
    &&& same_frame(pre, post)
    &&& pre.lb.cur_varid <= post.lb.cur_varid
    &&& post.lb.cur_varid <= pre.lb.cur_varid + 64
}

/// A ready block is a builder step from itself.
pub proof fn lemma_builder_step_refl(b: BasicBlock)
    requires
        b.wf(),
        b.link.is_none(),
        b.guest_ops@.len() > 0,
    ensures
        builder_step(b, b),
{
    assert(b.data@.take(b.data@.len() as int) =~= b.data@);
}

/// Builder steps compose.
pub proof fn lemma_builder_step_trans(a: BasicBlock, b: BasicBlock, c: BasicBlock)
    requires
        builder_step(a, b),
        builder_step(b, c),
    ensures
        builder_step(a, c),
{
    assert forall|v: Var| #[trigger] defined_in(a.data@, v) implies defined_in(c.data@, v) by {
        assert(defined_in(b.data@, v));
    }
    assert(c.data@.take(a.data@.len() as int) =~= a.data@) by {
        assert(forall|i: int|
            0 <= i < b.data@.len() ==> #[trigger] c.data@[i] == b.data@[i]) by {
            assert(forall|i: int|
                0 <= i < b.data@.len() ==> c.data@.take(b.data@.len() as int)[i] == #[trigger] c.data@[i]);
        }
    }
}

/// A basic block: straight-line IR lifted from guest code, ending (once
/// terminated) in a single control-transfer link.
pub struct BasicBlock {
    /// The guest address this block was lifted from.
    pub base_pc: ProgramCounter,
    /// The IR instructions of this block, in program order.
    pub data: Vec<Instruction>,
    /// The terminal element, set exactly once when the block is terminated.
    pub link: Option<BlockLink>,
    /// The variable bindings of this block.
    pub lb: LocalBindings,
    /// Live intervals for IR variables, filled by liveness analysis.
    pub intervals: IntervalMap,
    /// Storage assignments for recompiled code, filled by the allocator.
    pub storage: StorageMap,
    /// The host instructions selected for this block, filled by recompiling.
    pub host_code: Vec<HostInst>,
    /// The guest opcodes consumed by this block, in fetch order.
    pub guest_ops: Vec<u32>,
    /// The fetch address of the instruction currently being lifted.
    pub cur_pc: ProgramCounter,
}

/// The parts of a block that the builder interface never touches.
pub open spec fn same_frame(pre: BasicBlock, post: BasicBlock) -> bool {
    &&& post.base_pc == pre.base_pc
    &&& post.cur_pc == pre.cur_pc
    &&& post.guest_ops@ == pre.guest_ops@
    &&& post.intervals == pre.intervals
    &&& post.storage == pre.storage
    &&& post.host_code@ == pre.host_code@
}

impl BasicBlock {
    /// Structural well-formedness of the IR held by this block: bindings are
    /// consistent, the IR is in SSA form with operands bound before use and
    /// ids increasing with position, and a terminator only names bound
    /// variables.
    pub open spec fn inv(&self) -> bool {
        &&& self.lb.wf()
        &&& defs_below(self.data@, self.lb.cur_varid as int)
        &&& ssa_form(self.data@)
        &&& uses_defined_by(self.data@)
        &&& defs_monotone(self.data@)
        &&& slots_ordered(self.data@)
        &&& match self.link {
            Some(l) => forall|v: Var| #[trigger] link_uses(l, v) ==> defined_in(self.data@, v),
            None => true,
        }
    }

    /// [`BasicBlock::inv`], plus: every cached constant variable is bound by
    /// some instruction of the block, so a cache hit hands out an
    /// already-bound variable.
    pub open spec fn wf(&self) -> bool {
        &&& self.inv()
        &&& forall|k: int|
            0 <= k < self.lb.consts@.len() ==> defined_in(
                self.data@,
                (#[trigger] self.lb.consts@[k]).1,
            )
    }

    /// A fresh, empty, unterminated block at guest address `pc`.
    pub fn new(pc: ProgramCounter) -> (r: BasicBlock)
        ensures
            r.wf(),
            r.base_pc == pc,
            r.cur_pc == pc,
            r.data@.len() == 0,
            r.link.is_none(),
            r.lb.cur_varid == 0,
            r.lb.consts@.len() == 0,
            r.guest_ops@.len() == 0,
            r.intervals@.len() == 0,
            r.host_code@.len() == 0,
    {
        BasicBlock {
            base_pc: pc,
            data: Vec::new(),
            lb: LocalBindings::new(),
            link: None,
            intervals: IntervalMap::new(),
            storage: StorageMap::new(),
            host_code: Vec::new(),
            guest_ops: Vec::new(),
            cur_pc: pc,
        }
    }

    /// The guest opcode currently being lifted (the last one fetched).
    pub fn last_opcd(&self) -> (r: u32)
        requires
            self.guest_ops@.len() > 0,
        ensures
            r == self.guest_ops@.last(),
    {
        self.guest_ops[self.guest_ops.len() - 1]
    }

    /// Append an instruction to an unterminated block. The caller is
    /// responsible for keeping the block invariants.
    fn push(&mut self, inst: Instruction)
        requires
            old(self).link.is_none(),
        ensures
            final(self).data@ == old(self).data@.push(inst),
            final(self).link == old(self).link,
            final(self).lb == old(self).lb,
            same_frame(*old(self), *final(self)),
    {
        self.data.push(inst);
    }

    /// The fetch address of the instruction being lifted.
    pub fn read_fetch_pc(&self) -> (r: u32)
        ensures
            r == self.cur_pc.0,
    {
        self.cur_pc.fetch()
    }

    /// The architecturally visible PC of the instruction being lifted.
    pub fn read_exec_pc(&self) -> (r: u32)
        ensures
            r == (self.cur_pc.0 + 8) % 0x1_0000_0000,
    {
        self.cur_pc.exec()
    }

    /// Advance the fetch address to the next instruction slot.
    pub fn increment_pc(&mut self)
        ensures
            final(self).cur_pc.0 == (old(self).cur_pc.0 + 4) % 0x1_0000_0000,
            *final(self) == (BasicBlock { cur_pc: final(self).cur_pc, ..*old(self) }),
    {
        self.cur_pc.increment();
    }

    /// Terminate this block. A block is terminated exactly once, and nothing
    /// may be appended afterwards.
    pub fn terminate(&mut self, link: BlockLink)
        requires
            old(self).wf(),
            old(self).link.is_none(),
            forall|v: Var| #[trigger] link_uses(link, v) ==> defined_in(old(self).data@, v),
        ensures
            final(self).wf(),
            final(self).link == Some(link),
            *final(self) == (BasicBlock { link: Some(link), ..*old(self) }),
    {
        self.link = Some(link);
    }
}


impl BasicBlock {
    /// The cached variable for the constant `(width, value)`, or a freshly
    /// allocated one bound by a new constant-bind instruction.
    pub fn constant(&mut self, width: usize, value: u64) -> (r: Var)
        requires
            builder_ready(*old(self)),
            old(self).lb.cur_varid + 1 <= usize::MAX,
        ensures
            builder_step(*old(self), *final(self)),
            final(self).lb.cur_varid <= old(self).lb.cur_varid + 1,
            r.width == width,
            r.kind == VarKind::Constant(value & width_mask(width)),
            r.id < final(self).lb.cur_varid,
            defined_in(final(self).data@, r),
            final(self).data@ == old(self).data@ || final(self).data@ == old(self).data@.push(
                (Instruction {
                    guest_op: old(self).guest_ops@.last(),
                    lh: Some(r),
                    lh_c: None,
                    lh_v: None,
                    rh: Operation::Bind(BindOp::Const(Constant { width, value: value & width_mask(width) })),
                }),
            ),
    {
        let c = Constant::new(width, value);
        match self.lb.get_constant(c) {
            Some(var) => {
                proof {
                    let k = choose|k: int|
                        0 <= k < self.lb.consts@.len() && #[trigger] self.lb.consts@[k] == (
                        c,
                        var,
                    );
                    assert(self.lb.consts@[k].1 == var);
                    assert(defined_in(self.data@, var));
                    assert(self.data@.take(old(self).data@.len() as int) =~= old(self).data@);
                }
                var
            },
            None => {
                let opcd = self.last_opcd();
                let v = self.lb.alloca_constant(c);
                let inst = Instruction::constant(opcd, v, c);
                proof {
                    lemma_wf_push(
                        self.data@,
                        inst,
                        old(self).lb.cur_varid as int,
                        self.lb.cur_varid as int,
                    );
                    lemma_defined_push(self.data@, inst);
                }
                self.push(inst);
                proof {
                    assert(self.data@.take(old(self).data@.len() as int) =~= old(self).data@);
                    assert(inst_defines(self.data@[self.data@.len() - 1], v));
                    assert forall|k: int|
                        0 <= k < self.lb.consts@.len() implies defined_in(
                        self.data@,
                        (#[trigger] self.lb.consts@[k]).1,
                    ) by {
                        if k < self.lb.consts@.len() - 1 {
                            assert(old(self).lb.consts@[k] == self.lb.consts@[k]);
                            assert(defined_in(old(self).data@, self.lb.consts@[k].1));
                        } else {
                            assert(self.lb.consts@[k].1 == v);
                        }
                    }
                }
                v
            },
        }
    }

    /// Bind a fresh variable to the value of guest register `reg`.
    pub fn read_reg(&mut self, reg: guest::RegIdx) -> (r: Var)
        requires
            builder_ready(*old(self)),
            old(self).lb.cur_varid + 1 <= usize::MAX,
        ensures
            builder_step(*old(self), *final(self)),
            final(self).lb.cur_varid == old(self).lb.cur_varid + 1,
            final(self).lb.consts@ == old(self).lb.consts@,
            r == (Var { id: old(self).lb.cur_varid, width: 32, kind: VarKind::GuestReg(reg) }),
            defined_in(final(self).data@, r),
            final(self).data@ == old(self).data@.push(
                (Instruction {
                    guest_op: old(self).guest_ops@.last(),
                    lh: Some(r),
                    lh_c: None,
                    lh_v: None,
                    rh: Operation::Bind(BindOp::ReadGuestReg(reg)),
                }),
            ),
    {
        let opcd = self.last_opcd();
        let v = self.lb.alloca_guestreg(reg);
        let inst = Instruction::read_reg(opcd, v, reg);
        proof {
            lemma_wf_push(
                self.data@,
                inst,
                old(self).lb.cur_varid as int,
                self.lb.cur_varid as int,
            );
            lemma_defined_push(self.data@, inst);
        }
        self.push(inst);
        proof {
            assert(self.data@.take(old(self).data@.len() as int) =~= old(self).data@);
            assert(inst_defines(self.data@[self.data@.len() - 1], v));
        }
        v
    }

    /// Write `val` to guest register `reg`.
    pub fn write_reg(&mut self, reg: guest::RegIdx, val: Var)
        requires
            builder_ready(*old(self)),
            defined_in(old(self).data@, val),
        ensures
            builder_step(*old(self), *final(self)),
            final(self).lb == old(self).lb,
            final(self).data@ == old(self).data@.push(
                (Instruction {
                    guest_op: old(self).guest_ops@.last(),
                    lh: None,
                    lh_c: None,
                    lh_v: None,
                    rh: Operation::Bind(BindOp::WriteGuestReg(reg, val)),
                }),
            ),
    {
        let opcd = self.last_opcd();
        let inst = Instruction::write_reg(opcd, reg, val);
        proof {
            assert forall|u: Var| #[trigger] inst_uses(inst, u) implies defined_in(
                self.data@,
                u,
            ) by {
                let uvs = spec_used_vars(inst.rh);
                let i = choose|i: int| 0 <= i < uvs.len() && uvs[i] == u;
                assert(u == val);
            }
            lemma_wf_push(
                self.data@,
                inst,
                self.lb.cur_varid as int,
                self.lb.cur_varid as int,
            );
            lemma_defined_push(self.data@, inst);
        }
        self.push(inst);
        proof {
            assert(self.data@.take(old(self).data@.len() as int) =~= old(self).data@);
        }
    }
}


impl BasicBlock {
    /// Bind a fresh one-bit variable to the value of condition flag `kind`.
    pub fn read_flag(&mut self, kind: FlagKind) -> (r: Var)
        requires
            builder_ready(*old(self)),
            old(self).lb.cur_varid + 1 <= usize::MAX,
        ensures
            builder_step(*old(self), *final(self)),
            final(self).lb.cur_varid == old(self).lb.cur_varid + 1,
            final(self).lb.consts@ == old(self).lb.consts@,
            r == (Var { id: old(self).lb.cur_varid, width: 1, kind: VarKind::Local }),
            defined_in(final(self).data@, r),
            final(self).data@ == old(self).data@.push(
                (Instruction {
                    guest_op: old(self).guest_ops@.last(),
                    lh: Some(r),
                    lh_c: None,
                    lh_v: None,
                    rh: Operation::Bind(BindOp::ReadFlag(kind)),
                }),
            ),
    {
        let opcd = self.last_opcd();
        let v = self.lb.alloca_local(1);
        let inst = (Instruction {
            guest_op: opcd,
            lh: Some(v),
            lh_c: None,
            lh_v: None,
            rh: Operation::Bind(BindOp::ReadFlag(kind)),
        });
        proof {
            lemma_wf_push(
                self.data@,
                inst,
                old(self).lb.cur_varid as int,
                self.lb.cur_varid as int,
            );
            lemma_defined_push(self.data@, inst);
        }
        self.push(inst);
        proof {
            assert(self.data@.take(old(self).data@.len() as int) =~= old(self).data@);
            assert(inst_defines(self.data@[self.data@.len() - 1], v));
        }
        v
    }

    /// Write `val` to condition flag `kind`.
    pub fn write_flag(&mut self, kind: FlagKind, val: Var)
        requires
            builder_ready(*old(self)),
            defined_in(old(self).data@, val),
        ensures
            builder_step(*old(self), *final(self)),
            final(self).lb == old(self).lb,
            final(self).data@ == old(self).data@.push(
                (Instruction {
                    guest_op: old(self).guest_ops@.last(),
                    lh: None,
                    lh_c: None,
                    lh_v: None,
                    rh: Operation::Bind(BindOp::WriteFlag(kind, val)),
                }),
            ),
    {
        let opcd = self.last_opcd();
        let inst = Instruction::write_flag(opcd, kind, val);
        proof {
            assert forall|u: Var| #[trigger] inst_uses(inst, u) implies defined_in(
                self.data@,
                u,
            ) by {
                let uvs = spec_used_vars(inst.rh);
                let i = choose|i: int| 0 <= i < uvs.len() && uvs[i] == u;
                assert(u == val);
            }
            lemma_wf_push(
                self.data@,
                inst,
                self.lb.cur_varid as int,
                self.lb.cur_varid as int,
            );
            lemma_defined_push(self.data@, inst);
        }
        self.push(inst);
        proof {
            assert(self.data@.take(old(self).data@.len() as int) =~= old(self).data@);
        }
    }

    /// Bind a fresh variable to the 32-bit value loaded from `addr`.
    pub fn load32(&mut self, addr: Var) -> (r: Var)
        requires
            builder_ready(*old(self)),
            defined_in(old(self).data@, addr),
            old(self).lb.cur_varid + 1 <= usize::MAX,
        ensures
            builder_step(*old(self), *final(self)),
            final(self).lb.cur_varid == old(self).lb.cur_varid + 1,
            final(self).lb.consts@ == old(self).lb.consts@,
            r == (Var { id: old(self).lb.cur_varid, width: 32, kind: VarKind::Local }),
            defined_in(final(self).data@, r),
            final(self).data@ == old(self).data@.push(
                (Instruction {
                    guest_op: old(self).guest_ops@.last(),
                    lh: Some(r),
                    lh_c: None,
                    lh_v: None,
                    rh: Operation::Memory(MemoryOp::Load32(addr)),
                }),
            ),
    {
        let opcd = self.last_opcd();
        let v = self.lb.alloca_local(32);
        let inst = (Instruction {
            guest_op: opcd,
            lh: Some(v),
            lh_c: None,
            lh_v: None,
            rh: Operation::Memory(MemoryOp::Load32(addr)),
        });
        proof {
            assert forall|u: Var| #[trigger] inst_uses(inst, u) implies defined_in(
                self.data@,
                u,
            ) by {
                let uvs = spec_used_vars(inst.rh);
                let i = choose|i: int| 0 <= i < uvs.len() && uvs[i] == u;
                assert(u == addr);
            }
            lemma_wf_push(
                self.data@,
                inst,
                old(self).lb.cur_varid as int,
                self.lb.cur_varid as int,
            );
            lemma_defined_push(self.data@, inst);
        }
        self.push(inst);
        proof {
            assert(self.data@.take(old(self).data@.len() as int) =~= old(self).data@);
            assert(inst_defines(self.data@[self.data@.len() - 1], v));
        }
        v
    }

    /// Store the 32-bit value `val` to guest memory at `addr`.
    pub fn store32(&mut self, addr: Var, val: Var)
        requires
            builder_ready(*old(self)),
            defined_in(old(self).data@, addr),
            defined_in(old(self).data@, val),
        ensures
            builder_step(*old(self), *final(self)),
            final(self).lb == old(self).lb,
            final(self).data@ == old(self).data@.push(
                (Instruction {
                    guest_op: old(self).guest_ops@.last(),
                    lh: None,
                    lh_c: None,
                    lh_v: None,
                    rh: Operation::Memory(MemoryOp::Store32(addr, val)),
                }),
            ),
    {
        let opcd = self.last_opcd();
        let inst = Instruction::store32(opcd, addr, val);
        proof {
            assert forall|u: Var| #[trigger] inst_uses(inst, u) implies defined_in(
                self.data@,
                u,
            ) by {
                let uvs = spec_used_vars(inst.rh);
                let i = choose|i: int| 0 <= i < uvs.len() && uvs[i] == u;
                if i == 0 {
                    assert(u == addr);
                } else {
                    assert(u == val);
                }
            }
            lemma_wf_push(
                self.data@,
                inst,
                self.lb.cur_varid as int,
                self.lb.cur_varid as int,
            );
            lemma_defined_push(self.data@, inst);
        }
        self.push(inst);
        proof {
            assert(self.data@.take(old(self).data@.len() as int) =~= old(self).data@);
        }
    }

    /// Bind a fresh variable to the wrapping 32-bit sum `x + y`.
    pub fn add32(&mut self, x: Var, y: Var) -> (r: Var)
        requires
            builder_ready(*old(self)),
            defined_in(old(self).data@, x),
            defined_in(old(self).data@, y),
            old(self).lb.cur_varid + 1 <= usize::MAX,
        ensures
            builder_step(*old(self), *final(self)),
            final(self).lb.cur_varid == old(self).lb.cur_varid + 1,
            final(self).lb.consts@ == old(self).lb.consts@,
            r == (Var { id: old(self).lb.cur_varid, width: 32, kind: VarKind::Local }),
            defined_in(final(self).data@, r),
            final(self).data@ == old(self).data@.push(
                (Instruction {
                    guest_op: old(self).guest_ops@.last(),
                    lh: Some(r),
                    lh_c: None,
                    lh_v: None,
                    rh: Operation::Arith(ArithOp::Add32(x, y)),
                }),
            ),
    {
        let opcd = self.last_opcd();
        let v = self.lb.alloca_local(32);
        let inst = (Instruction {
            guest_op: opcd,
            lh: Some(v),
            lh_c: None,
            lh_v: None,
            rh: Operation::Arith(ArithOp::Add32(x, y)),
        });
        proof {
            assert forall|u: Var| #[trigger] inst_uses(inst, u) implies defined_in(
                self.data@,
                u,
            ) by {
                let uvs = spec_used_vars(inst.rh);
                let i = choose|i: int| 0 <= i < uvs.len() && uvs[i] == u;
                if i == 0 {
                    assert(u == x);
                } else {
                    assert(u == y);
                }
            }
            lemma_wf_push(
                self.data@,
                inst,
                old(self).lb.cur_varid as int,
                self.lb.cur_varid as int,
            );
            lemma_defined_push(self.data@, inst);
        }
        self.push(inst);
        proof {
            assert(self.data@.take(old(self).data@.len() as int) =~= old(self).data@);
            assert(inst_defines(self.data@[self.data@.len() - 1], v));
        }
        v
    }

    /// Bind a fresh variable to the wrapping 32-bit difference `x - y`.
    pub fn sub32(&mut self, x: Var, y: Var) -> (r: Var)
        requires
            builder_ready(*old(self)),
            defined_in(old(self).data@, x),
            defined_in(old(self).data@, y),
            old(self).lb.cur_varid + 1 <= usize::MAX,
        ensures
            builder_step(*old(self), *final(self)),
            final(self).lb.cur_varid == old(self).lb.cur_varid + 1,
            final(self).lb.consts@ == old(self).lb.consts@,
            r == (Var { id: old(self).lb.cur_varid, width: 32, kind: VarKind::Local }),
            defined_in(final(self).data@, r),
            final(self).data@ == old(self).data@.push(
                (Instruction {
                    guest_op: old(self).guest_ops@.last(),
                    lh: Some(r),
                    lh_c: None,
                    lh_v: None,
                    rh: Operation::Arith(ArithOp::Sub32(x, y)),
                }),
            ),
    {
        let opcd = self.last_opcd();
        let v = self.lb.alloca_local(32);
        let inst = (Instruction {
            guest_op: opcd,
            lh: Some(v),
            lh_c: None,
            lh_v: None,
            rh: Operation::Arith(ArithOp::Sub32(x, y)),
        });
        proof {
            assert forall|u: Var| #[trigger] inst_uses(inst, u) implies defined_in(
                self.data@,
                u,
            ) by {
                let uvs = spec_used_vars(inst.rh);
                let i = choose|i: int| 0 <= i < uvs.len() && uvs[i] == u;
                if i == 0 {
                    assert(u == x);
                } else {
                    assert(u == y);
                }
            }
            lemma_wf_push(
                self.data@,
                inst,
                old(self).lb.cur_varid as int,
                self.lb.cur_varid as int,
            );
            lemma_defined_push(self.data@, inst);
        }
        self.push(inst);
        proof {
            assert(self.data@.take(old(self).data@.len() as int) =~= old(self).data@);
            assert(inst_defines(self.data@[self.data@.len() - 1], v));
        }
        v
    }

    /// Bind a fresh one-bit variable to `x == 0`.
    pub fn is_zero(&mut self, x: Var) -> (r: Var)
        requires
            builder_ready(*old(self)),
            defined_in(old(self).data@, x),
            old(self).lb.cur_varid + 1 <= usize::MAX,
        ensures
            builder_step(*old(self), *final(self)),
            final(self).lb.cur_varid == old(self).lb.cur_varid + 1,
            final(self).lb.consts@ == old(self).lb.consts@,
            r == (Var { id: old(self).lb.cur_varid, width: 1, kind: VarKind::Local }),
            defined_in(final(self).data@, r),
            final(self).data@ == old(self).data@.push(
                (Instruction {
                    guest_op: old(self).guest_ops@.last(),
                    lh: Some(r),
                    lh_c: None,
                    lh_v: None,
                    rh: Operation::Arith(ArithOp::IsZero(x)),
                }),
            ),
    {
        let opcd = self.last_opcd();
        let v = self.lb.alloca_local(1);
        let inst = (Instruction {
            guest_op: opcd,
            lh: Some(v),
            lh_c: None,
            lh_v: None,
            rh: Operation::Arith(ArithOp::IsZero(x)),
        });
        proof {
            assert forall|u: Var| #[trigger] inst_uses(inst, u) implies defined_in(
                self.data@,
                u,
            ) by {
                let uvs = spec_used_vars(inst.rh);
                let i = choose|i: int| 0 <= i < uvs.len() && uvs[i] == u;
                assert(u == x);
            }
            lemma_wf_push(
                self.data@,
                inst,
                old(self).lb.cur_varid as int,
                self.lb.cur_varid as int,
            );
            lemma_defined_push(self.data@, inst);
        }
        self.push(inst);
        proof {
            assert(self.data@.take(old(self).data@.len() as int) =~= old(self).data@);
            assert(inst_defines(self.data@[self.data@.len() - 1], v));
        }
        v
    }

    /// Bind a fresh one-bit variable to bit 31 of `x`.
    pub fn is_negative(&mut self, x: Var) -> (r: Var)
        requires
            builder_ready(*old(self)),
            defined_in(old(self).data@, x),
            old(self).lb.cur_varid + 1 <= usize::MAX,
        ensures
            builder_step(*old(self), *final(self)),
            final(self).lb.cur_varid == old(self).lb.cur_varid + 1,
            final(self).lb.consts@ == old(self).lb.consts@,
            r == (Var { id: old(self).lb.cur_varid, width: 1, kind: VarKind::Local }),
            defined_in(final(self).data@, r),
            final(self).data@ == old(self).data@.push(
                (Instruction {
                    guest_op: old(self).guest_ops@.last(),
                    lh: Some(r),
                    lh_c: None,
                    lh_v: None,
                    rh: Operation::Arith(ArithOp::IsNegative(x)),
                }),
            ),
    {
        let opcd = self.last_opcd();
        let v = self.lb.alloca_local(1);
        let inst = (Instruction {
            guest_op: opcd,
            lh: Some(v),
            lh_c: None,
            lh_v: None,
            rh: Operation::Arith(ArithOp::IsNegative(x)),
        });
        proof {
            assert forall|u: Var| #[trigger] inst_uses(inst, u) implies defined_in(
                self.data@,
                u,
            ) by {
                let uvs = spec_used_vars(inst.rh);
                let i = choose|i: int| 0 <= i < uvs.len() && uvs[i] == u;
                assert(u == x);
            }
            lemma_wf_push(
                self.data@,
                inst,
                old(self).lb.cur_varid as int,
                self.lb.cur_varid as int,
            );
            lemma_defined_push(self.data@, inst);
        }
        self.push(inst);
        proof {
            assert(self.data@.take(old(self).data@.len() as int) =~= old(self).data@);
            assert(inst_defines(self.data@[self.data@.len() - 1], v));
        }
        v
    }

    /// Bind fresh variables to `x - y` and to its carry and overflow outputs.
    pub fn sub32f(&mut self, x: Var, y: Var) -> (r: (Var, Var, Var))
        requires
            builder_ready(*old(self)),
            defined_in(old(self).data@, x),
            defined_in(old(self).data@, y),
            old(self).lb.cur_varid + 3 <= usize::MAX,
        ensures
            builder_step(*old(self), *final(self)),
            final(self).lb.cur_varid == old(self).lb.cur_varid + 3,
            final(self).lb.consts@ == old(self).lb.consts@,
            r.0 == (Var { id: old(self).lb.cur_varid, width: 32, kind: VarKind::Local }),
            r.1 == (Var { id: (old(self).lb.cur_varid + 1) as usize, width: 1, kind: VarKind::Local }),
            r.2 == (Var { id: (old(self).lb.cur_varid + 2) as usize, width: 1, kind: VarKind::Local }),
            defined_in(final(self).data@, r.0),
            defined_in(final(self).data@, r.1),
            defined_in(final(self).data@, r.2),
            final(self).data@ == old(self).data@.push(
                (Instruction {
                    guest_op: old(self).guest_ops@.last(),
                    lh: Some(r.0),
                    lh_c: Some(r.1),
                    lh_v: Some(r.2),
                    rh: Operation::Arith(ArithOp::Sub32(x, y)),
                }),
            ),
    {
        let opcd = self.last_opcd();
        let res = self.lb.alloca_local(32);
        let c = self.lb.alloca_local(1);
        let v = self.lb.alloca_local(1);
        let inst = (Instruction {
            guest_op: opcd,
            lh: Some(res),
            lh_c: Some(c),
            lh_v: Some(v),
            rh: Operation::Arith(ArithOp::Sub32(x, y)),
        });
        proof {
            assert forall|u: Var| #[trigger] inst_uses(inst, u) implies defined_in(
                self.data@,
                u,
            ) by {
                let uvs = spec_used_vars(inst.rh);
                let i = choose|i: int| 0 <= i < uvs.len() && uvs[i] == u;
                if i == 0 {
                    assert(u == x);
                } else {
                    assert(u == y);
                }
            }
            lemma_wf_push(
                self.data@,
                inst,
                old(self).lb.cur_varid as int,
                self.lb.cur_varid as int,
            );
            lemma_defined_push(self.data@, inst);
        }
        self.push(inst);
        proof {
            assert(self.data@.take(old(self).data@.len() as int) =~= old(self).data@);
            assert(inst_defines(self.data@[self.data@.len() - 1], res));
            assert(inst_defines(self.data@[self.data@.len() - 1], c));
            assert(inst_defines(self.data@[self.data@.len() - 1], v));
        }
        (res, c, v)
    }

    /// Bind fresh variables to `x << y` and to its carry and overflow outputs.
    pub fn lsl32f(&mut self, x: Var, y: Var) -> (r: (Var, Var, Var))
        requires
            builder_ready(*old(self)),
            defined_in(old(self).data@, x),
            defined_in(old(self).data@, y),
            old(self).lb.cur_varid + 3 <= usize::MAX,
        ensures
            builder_step(*old(self), *final(self)),
            final(self).lb.cur_varid == old(self).lb.cur_varid + 3,
            final(self).lb.consts@ == old(self).lb.consts@,
            r.0 == (Var { id: old(self).lb.cur_varid, width: 32, kind: VarKind::Local }),
            r.1 == (Var { id: (old(self).lb.cur_varid + 1) as usize, width: 1, kind: VarKind::Local }),
            r.2 == (Var { id: (old(self).lb.cur_varid + 2) as usize, width: 1, kind: VarKind::Local }),
            defined_in(final(self).data@, r.0),
            defined_in(final(self).data@, r.1),
            defined_in(final(self).data@, r.2),
            final(self).data@ == old(self).data@.push(
                (Instruction {
                    guest_op: old(self).guest_ops@.last(),
                    lh: Some(r.0),
                    lh_c: Some(r.1),
                    lh_v: Some(r.2),
                    rh: Operation::Arith(ArithOp::Lsl32(x, y)),
                }),
            ),
    {
        let opcd = self.last_opcd();
        let res = self.lb.alloca_local(32);
        let c = self.lb.alloca_local(1);
        let v = self.lb.alloca_local(1);
        let inst = (Instruction {
            guest_op: opcd,
            lh: Some(res),
            lh_c: Some(c),
            lh_v: Some(v),
            rh: Operation::Arith(ArithOp::Lsl32(x, y)),
        });
        proof {
            assert forall|u: Var| #[trigger] inst_uses(inst, u) implies defined_in(
                self.data@,
                u,
            ) by {
                let uvs = spec_used_vars(inst.rh);
                let i = choose|i: int| 0 <= i < uvs.len() && uvs[i] == u;
                if i == 0 {
                    assert(u == x);
                } else {
                    assert(u == y);
                }
            }
            lemma_wf_push(
                self.data@,
                inst,
                old(self).lb.cur_varid as int,
                self.lb.cur_varid as int,
            );
            lemma_defined_push(self.data@, inst);
        }
        self.push(inst);
        proof {
            assert(self.data@.take(old(self).data@.len() as int) =~= old(self).data@);
            assert(inst_defines(self.data@[self.data@.len() - 1], res));
            assert(inst_defines(self.data@[self.data@.len() - 1], c));
            assert(inst_defines(self.data@[self.data@.len() - 1], v));
        }
        (res, c, v)
    }
}

} // verus!
