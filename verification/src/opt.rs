//! Dead-variable pruning.
//!
//! Rebuild the live-interval map, collect variables that are defined but
//! never used, and repeat until nothing is dead or nothing can change. An
//! unused carry/overflow binding is cleared rather than keeping its
//! instruction alive; an instruction survives when it still binds a claimed
//! flag output, when its primary result is live, or when it has no result at
//! all (a side-effectful write or store).

use vstd::prelude::*;

use crate::block::{
    defined_in, defs_below, defs_monotone, link_uses, slots_ordered, ssa_form, uses_defined_by,
    BasicBlock,
};
use crate::ir::{
    def_slot, inst_defines, inst_slots_ordered, inst_uses, Constant, Instruction, Var, VarKind,
};
use crate::regalloc::{
    lemma_last_use_is_use_pub, lemma_no_use_when_lu_zero, spec_block_lu, spec_last_use,
    IntervalMap,
};

verus! {

/// The pruning postcondition: every surviving instruction either binds a
/// claimed flag output, produces a primary result that an instruction or the
/// terminator still reads, or has no result at all.
pub open spec fn is_pruned(bb: BasicBlock) -> bool {
    forall|p: int|
        0 <= p < bb.data@.len() ==> match (#[trigger] bb.data@[p]).lh {
            Some(v) => bb.data@[p].lh_c.is_some() || bb.data@[p].lh_v.is_some() || (exists|q: int|
                0 <= q < bb.data@.len() && inst_uses(#[trigger] bb.data@[q], v)) || (match bb.link {
                Some(l) => link_uses(l, v),
                None => false,
            }),
            None => true,
        }
}

/// The number of claimed carry/overflow bindings in `data`.
pub open spec fn flag_count(data: Seq<Instruction>) -> int
    decreases data.len(),
{
    if data.len() == 0 {
        0
    } else {
        flag_count(data.drop_last()) + inst_flag_count(data.last())
    }
}

/// The number of claimed carry/overflow bindings of one instruction.
pub open spec fn inst_flag_count(i: Instruction) -> int {
    (if i.lh_c.is_some() {
        1int
    } else {
        0int
    }) + (if i.lh_v.is_some() {
        1int
    } else {
        0int
    })
}

proof fn lemma_flag_count_nonneg(s: Seq<Instruction>)
    ensures
        flag_count(s) >= 0,
    decreases s.len(),
{
    if s.len() > 0 {
        lemma_flag_count_nonneg(s.drop_last());
    }
}

proof fn lemma_flag_count_push(s: Seq<Instruction>, i: Instruction)
    ensures
        flag_count(s.push(i)) == flag_count(s) + inst_flag_count(i),
{
    assert(s.push(i).drop_last() =~= s);
    assert(s.push(i).last() == i);
}

proof fn lemma_flag_count_take_step(s: Seq<Instruction>, p: int)
    requires
        0 <= p < s.len(),
    ensures
        flag_count(s.take(p + 1)) == flag_count(s.take(p)) + inst_flag_count(s[p]),
{
    assert(s.take(p + 1).drop_last() =~= s.take(p));
    assert(s.take(p + 1).last() == s[p]);
}

/// The instruction `i` with its dead carry/overflow bindings cleared.
pub open spec fn spec_cleared(i: Instruction, dl: Seq<Var>) -> Instruction {
    Instruction {
        lh_c: match i.lh_c {
            Some(c) => if dl.contains(c) {
                None
            } else {
                Some(c)
            },
            None => None,
        },
        lh_v: match i.lh_v {
            Some(v) => if dl.contains(v) {
                None
            } else {
                Some(v)
            },
            None => None,
        },
        ..i
    }
}

/// True when the cleared instruction survives pruning.
pub open spec fn spec_keep(i: Instruction, dl: Seq<Var>) -> bool {
    i.lh_c.is_some() || i.lh_v.is_some() || match i.lh {
        Some(v) => !dl.contains(v),
        None => true,
    }
}

/// True when `v` appears in `list`.
fn contains_var(list: &Vec<Var>, v: Var) -> (r: bool)
    ensures
        r == list@.contains(v),
{
    let n = list.len();
    let mut k: usize = 0;
    while k < n
        invariant
            n == list@.len(),
            k <= n,
            forall|j: int| 0 <= j < k ==> list@[j] != v,
        decreases n - k,
    {
        if list[k] == v {
            return true;
        }
        k = k + 1;
    }
    false
}

impl BasicBlock {
    /// One pruning pass over a block whose `deadlist` names variables that
    /// nothing reads: unbind dead constants from the cache, clear dead flag
    /// bindings, and drop instructions whose only result is dead. Returns
    /// whether anything changed; when nothing did, the block is untouched.
    /// Unbind every dead constant from the constant cache. Returns whether
    /// any cache entry was removed.
    fn prune_consts(&mut self, deadlist: &Vec<Var>) -> (changed: bool)
        requires
            old(self).lb.wf(),
        ensures
            final(self).lb.wf(),
            final(self).data@ == old(self).data@,
            final(self).link == old(self).link,
            final(self).base_pc == old(self).base_pc,
            final(self).cur_pc == old(self).cur_pc,
            final(self).guest_ops@ == old(self).guest_ops@,
            final(self).intervals == old(self).intervals,
            final(self).storage == old(self).storage,
            final(self).host_code@ == old(self).host_code@,
            final(self).lb.cur_varid == old(self).lb.cur_varid,
            final(self).lb.consts@.len() <= old(self).lb.consts@.len(),
            changed ==> final(self).lb.consts@.len() < old(self).lb.consts@.len(),
            !changed ==> final(self).lb.consts@ == old(self).lb.consts@,
    {
        let ghost dl = deadlist@;
        let mut changed = false;
        let dn = deadlist.len();
        let mut dj: usize = 0;
        while dj < dn
            invariant
                dn == dl.len(),
                dj <= dn,
                deadlist@ == dl,
                self.lb.wf(),
                self.data@ == old(self).data@,
                self.link == old(self).link,
                self.base_pc == old(self).base_pc,
                self.cur_pc == old(self).cur_pc,
                self.guest_ops@ == old(self).guest_ops@,
                self.intervals == old(self).intervals,
                self.storage == old(self).storage,
                self.host_code@ == old(self).host_code@,
                self.lb.cur_varid == old(self).lb.cur_varid,
                self.lb.consts@.len() <= old(self).lb.consts@.len(),
                changed ==> self.lb.consts@.len() < old(self).lb.consts@.len(),
                !changed ==> self.lb.consts@ == old(self).lb.consts@,
            decreases dn - dj,
        {
            let dvar = deadlist[dj];
            if let VarKind::Constant(c) = dvar.kind {
                let key = Constant { width: dvar.width, value: c };
                match self.lb.get_constant(key) {
                    Some(_) => {
                        self.lb.remove_constant(key);
                        changed = true;
                    },
                    None => {},
                }
            }
            dj = dj + 1;
        }
        changed
    }

    /// Clear dead flag bindings and drop instructions whose only result is
    /// dead. Returns whether anything changed; when nothing did, the
    /// instruction sequence is untouched.
    #[verifier::rlimit(100)]
    #[verifier::spinoff_prover]
    fn prune_sweep(&mut self, deadlist: &Vec<Var>) -> (changed: bool)
        requires
            old(self).inv(),
            old(self).link.is_some(),
            forall|j: int, p: int|
                0 <= j < deadlist@.len() && 0 <= p < old(self).data@.len() ==> !inst_uses(
                    #[trigger] old(self).data@[p],
                    #[trigger] deadlist@[j],
                ),
            forall|j: int|
                0 <= j < deadlist@.len() ==> match old(self).link {
                    Some(l) => !link_uses(l, #[trigger] deadlist@[j]),
                    None => false,
                },
        ensures
            final(self).inv(),
            final(self).link == old(self).link,
            final(self).base_pc == old(self).base_pc,
            final(self).cur_pc == old(self).cur_pc,
            final(self).guest_ops@ == old(self).guest_ops@,
            final(self).intervals == old(self).intervals,
            final(self).lb == old(self).lb,
            changed ==> final(self).data@.len() + flag_count(final(self).data@) < old(
                self,
            ).data@.len() + flag_count(old(self).data@),
            !changed ==> final(self).data@ == old(self).data@,
            !changed ==> forall|p: int|
                0 <= p < final(self).data@.len() ==> match (#[trigger] final(self).data@[p]).lh {
                    Some(v) => final(self).data@[p].lh_c.is_some()
                        || final(self).data@[p].lh_v.is_some() || !deadlist@.contains(v),
                    None => true,
                },
    {
        let ghost dl = deadlist@;
        let ghost data0 = self.data@;
        let mut sweep_changed = false;
        // Clear dead flag bindings and drop dead-result instructions.
        let ghost pre_sweep = *self;
        let n = self.data.len();
        let mut new_data: Vec<Instruction> = Vec::new();
        let ghost mut idxmap: Seq<int> = Seq::empty();
        let mut sweep_changed = false;
        let mut p: usize = 0;
        while p < n
            invariant
                n == data0.len(),
                self.data@ == data0,
                deadlist@ == dl,
                p <= n,
                idxmap.len() == new_data@.len(),
                forall|j1: int, j2: int| 0 <= j1 < j2 < idxmap.len() ==> idxmap[j1] < idxmap[j2],
                forall|j: int| 0 <= j < idxmap.len() ==> 0 <= #[trigger] idxmap[j] < p,
                forall|j: int|
                    0 <= j < idxmap.len() ==> #[trigger] new_data@[j] == spec_cleared(
                        data0[idxmap[j]],
                        dl,
                    ),
                forall|q: int|
                    0 <= q < p && spec_keep(spec_cleared(#[trigger] data0[q], dl), dl)
                        ==> exists|j: int| 0 <= j < idxmap.len() && #[trigger] idxmap[j] == q,
                new_data@.len() + flag_count(new_data@) + (if sweep_changed {
                    1int
                } else {
                    0int
                }) <= p + flag_count(data0.take(p as int)),
                forall|j: int| 0 <= j < new_data@.len() ==> spec_keep(#[trigger] new_data@[j], dl),
                !sweep_changed ==> new_data@ == data0.take(p as int) && idxmap.len() == p,
            decreases n - p,
        {
            let mut inst = self.data[p];
            let ghost orig = inst;
            if let Some(c) = inst.lh_c {
                if contains_var(deadlist, c) {
                    inst.lh_c = None;
                    sweep_changed = true;
                }
            }
            if let Some(v) = inst.lh_v {
                if contains_var(deadlist, v) {
                    inst.lh_v = None;
                    sweep_changed = true;
                }
            }
            proof {
                assert(inst == spec_cleared(orig, dl));
                lemma_flag_count_take_step(data0, p as int);
            }

            let keep = if inst.lh_c.is_some() || inst.lh_v.is_some() {
                true
            } else {
                match inst.lh {
                    Some(v) => !contains_var(deadlist, v),
                    None => true,
                }
            };
            let ghost pre_new = new_data@;
            let ghost idx0 = idxmap;
            if keep {
                new_data.push(inst);
                proof {
                    idxmap = idxmap.push(p as int);
                    lemma_flag_count_push(pre_new, inst);
                    assert(new_data@[new_data@.len() - 1] == spec_cleared(data0[p as int], dl));
                    assert forall|q: int|
                        0 <= q < p + 1 && spec_keep(spec_cleared(#[trigger] data0[q], dl), dl)
                            implies exists|j: int|
                        0 <= j < idxmap.len() && #[trigger] idxmap[j] == q by {
                        if q < p {
                            let j = choose|j: int| 0 <= j < idx0.len() && #[trigger] idx0[j] == q;
                            assert(idxmap[j] == q);
                        } else {
                            assert(idxmap[idxmap.len() - 1] == q);
                        }
                    }
                    if !sweep_changed {
                        assert(inst == data0[p as int]);
                        assert(new_data@ =~= data0.take(p + 1));
                    }
                }
            } else {
                sweep_changed = true;
                proof {
                    assert forall|q: int|
                        0 <= q < p + 1 && spec_keep(spec_cleared(#[trigger] data0[q], dl), dl)
                            implies exists|j: int|
                        0 <= j < idxmap.len() && #[trigger] idxmap[j] == q by {
                        if q < p {
                            let j = choose|j: int|
                                0 <= j < idxmap.len() && #[trigger] idxmap[j] == q;
                        } else {
                            assert(!spec_keep(spec_cleared(data0[q], dl), dl));
                        }
                    }
                }
            }
            p = p + 1;
        }
        proof {
            assert(data0.take(n as int) =~= data0);
        }
        self.data = new_data;


        proof {
            lemma_sweep_wf(
                data0,
                self.data@,
                idxmap,
                dl,
                old(self).link,
                old(self).lb.cur_varid as int,
            );
        }
        sweep_changed
    }


    /// One pruning pass: unbind dead constants from the cache, clear dead
    /// flag bindings, and drop instructions whose only result is dead.
    fn prune_pass(&mut self, deadlist: &Vec<Var>) -> (changed: bool)
        requires
            old(self).inv(),
            old(self).link.is_some(),
            forall|j: int, p: int|
                0 <= j < deadlist@.len() && 0 <= p < old(self).data@.len() ==> !inst_uses(
                    #[trigger] old(self).data@[p],
                    #[trigger] deadlist@[j],
                ),
            forall|j: int|
                0 <= j < deadlist@.len() ==> match old(self).link {
                    Some(l) => !link_uses(l, #[trigger] deadlist@[j]),
                    None => false,
                },
        ensures
            final(self).inv(),
            final(self).link == old(self).link,
            final(self).base_pc == old(self).base_pc,
            final(self).cur_pc == old(self).cur_pc,
            final(self).guest_ops@ == old(self).guest_ops@,
            final(self).intervals == old(self).intervals,
            final(self).lb.cur_varid == old(self).lb.cur_varid,
            changed ==> final(self).data@.len() + final(self).lb.consts@.len() + flag_count(
                final(self).data@,
            ) < old(self).data@.len() + old(self).lb.consts@.len() + flag_count(old(self).data@),
            !changed ==> final(self).data@ == old(self).data@ && final(self).lb.consts@
                == old(self).lb.consts@,
            !changed ==> forall|p: int|
                0 <= p < final(self).data@.len() ==> match (#[trigger] final(self).data@[p]).lh {
                    Some(v) => final(self).data@[p].lh_c.is_some()
                        || final(self).data@[p].lh_v.is_some() || !deadlist@.contains(v),
                    None => true,
                },
    {
        let c1 = self.prune_consts(deadlist);
        let c2 = self.prune_sweep(deadlist);
        c1 || c2
    }

    /// Iteratively remove dead variables until every remaining instruction
    /// is justified: it binds a claimed flag output, its result is read by a
    /// later instruction or the terminator, or it is a side-effectful write.
    pub fn prune_dead_vars(&mut self)
        requires
            old(self).inv(),
            old(self).link.is_some(),
        ensures
            final(self).inv(),
            final(self).link == old(self).link,
            final(self).base_pc == old(self).base_pc,
            final(self).cur_pc == old(self).cur_pc,
            final(self).guest_ops@ == old(self).guest_ops@,
            final(self).lb.cur_varid == old(self).lb.cur_varid,
            is_pruned(*final(self)),
    {
        loop
            invariant
                self.inv(),
                self.link == old(self).link,
                self.link.is_some(),
                self.base_pc == old(self).base_pc,
                self.cur_pc == old(self).cur_pc,
                self.guest_ops@ == old(self).guest_ops@,
                self.lb.cur_varid == old(self).lb.cur_varid,
            decreases self.data@.len() + self.lb.consts@.len() + flag_count(self.data@),
        {
            let im = IntervalMap::from_block(self);
            self.intervals = im;
            let deadlist = self.intervals.get_dead_vars();
            let ghost dl = deadlist@;
            let ghost data = self.data@;
            let ghost link = self.link;

            proof {
                // Everything on the dead list is read by nothing: not by any
                // instruction and not by the terminator.
                assert forall|j: int, p: int|
                    0 <= j < dl.len() && 0 <= p < data.len() implies !inst_uses(
                    #[trigger] data[p],
                    #[trigger] dl[j],
                ) by {
                    let v = dl[j];
                    assert(im.has_dead_entry(v));
                    let k = choose|k: int|
                        0 <= k < im@.len() && (#[trigger] im@[k]).0 == v && im@[k].1.1 == 0;
                    assert(spec_block_lu(data, link, v) == 0);
                    assert(spec_last_use(data, data.len() as int, v) == 0);
                    lemma_no_use_when_lu_zero(data, data.len() as int, v);
                    if p == 0 && inst_uses(data[0], v) {
                        let q = choose|q: int| 0 <= q < 0 && #[trigger] inst_defines(data[q], v);
                        assert(false);
                    }
                }
                assert forall|j: int| 0 <= j < dl.len() implies match link {
                    Some(l) => !link_uses(l, #[trigger] dl[j]),
                    None => false,
                } by {
                    let v = dl[j];
                    assert(im.has_dead_entry(v));
                    let k = choose|k: int|
                        0 <= k < im@.len() && (#[trigger] im@[k]).0 == v && im@[k].1.1 == 0;
                    match link {
                        Some(l) => {
                            if link_uses(l, v) {
                                assert(defined_in(data, v));
                                let q = choose|q: int|
                                    0 <= q < data.len() && #[trigger] inst_defines(data[q], v);
                                assert(spec_block_lu(data, link, v) == data.len() as int);
                                assert(data.len() > 0);
                                assert(false);
                            }
                        },
                        None => {
                            assert(false);
                        },
                    }
                }
            }

            // Exit when there are no more dead variables to remove.
            if deadlist.is_empty() {
                proof {
                    lemma_pruned_when_no_dead(*self, dl);
                }
                return ;
            }
            let changed = self.prune_pass(&deadlist);
            proof {
                lemma_flag_count_nonneg(self.data@);
            }
            if !changed {
                proof {
                    lemma_pruned_when_stable(*self, dl);
                }
                return ;
            }
        }
    }
}

/// A variable the dead list misses is read somewhere: by an instruction or
/// by the terminator.
proof fn lemma_not_dead_is_used(bb: BasicBlock, dl: Seq<Var>, v: Var)
    requires
        bb.inv(),
        bb.link.is_some(),
        bb.intervals.wf(),
        forall|u: Var|
            #[trigger] defined_in(bb.data@, u) ==> exists|k: int|
                0 <= k < bb.intervals@.len() && (#[trigger] bb.intervals@[k]).0 == u,
        forall|k: int|
            0 <= k < bb.intervals@.len() ==> (#[trigger] bb.intervals@[k]).1.1 == spec_block_lu(
                bb.data@,
                bb.link,
                bb.intervals@[k].0,
            ),
        forall|k: int|
            0 <= k < bb.intervals@.len() && (#[trigger] bb.intervals@[k]).1.1 == 0
                ==> dl.contains(bb.intervals@[k].0),
        defined_in(bb.data@, v),
        !dl.contains(v),
    ensures
        (exists|q: int| 0 <= q < bb.data@.len() && inst_uses(#[trigger] bb.data@[q], v)) || (
        match bb.link {
            Some(l) => link_uses(l, v),
            None => false,
        }),
{
    let k = choose|k: int| 0 <= k < bb.intervals@.len() && (#[trigger] bb.intervals@[k]).0 == v;
    let lu = bb.intervals@[k].1.1;
    if lu == 0 {
        assert(dl.contains(bb.intervals@[k].0));
        assert(false);
    }
    match bb.link {
        Some(l) => {
            if !link_uses(l, v) {
                lemma_last_use_is_use_pub(bb.data@, bb.data@.len() as int, v);
                assert(inst_uses(bb.data@[lu as int], v));
            }
        },
        None => {
            assert(false);
        },
    }
}

/// With an empty dead list, the block already satisfies the pruning
/// postcondition.
proof fn lemma_pruned_when_no_dead(bb: BasicBlock, dl: Seq<Var>)
    requires
        bb.inv(),
        bb.link.is_some(),
        bb.intervals.wf(),
        dl.len() == 0,
        forall|u: Var|
            #[trigger] defined_in(bb.data@, u) ==> exists|k: int|
                0 <= k < bb.intervals@.len() && (#[trigger] bb.intervals@[k]).0 == u,
        forall|k: int|
            0 <= k < bb.intervals@.len() ==> (#[trigger] bb.intervals@[k]).1.1 == spec_block_lu(
                bb.data@,
                bb.link,
                bb.intervals@[k].0,
            ),
        forall|k: int|
            0 <= k < bb.intervals@.len() && (#[trigger] bb.intervals@[k]).1.1 == 0
                ==> dl.contains(bb.intervals@[k].0),
    ensures
        is_pruned(bb),
{
    assert forall|p: int| 0 <= p < bb.data@.len() implies match (#[trigger] bb.data@[p]).lh {
        Some(v) => bb.data@[p].lh_c.is_some() || bb.data@[p].lh_v.is_some() || (exists|q: int|
            0 <= q < bb.data@.len() && inst_uses(#[trigger] bb.data@[q], v)) || (match bb.link {
            Some(l) => link_uses(l, v),
            None => false,
        }),
        None => true,
    } by {
        match bb.data@[p].lh {
            Some(v) => {
                assert(inst_defines(bb.data@[p], v));
                assert(defined_in(bb.data@, v));
                assert(!dl.contains(v));
                lemma_not_dead_is_used(bb, dl, v);
            },
            None => {},
        }
    }
}

/// When a pass changed nothing, every surviving bare result is off the dead
/// list, hence read somewhere.
proof fn lemma_pruned_when_stable(bb: BasicBlock, dl: Seq<Var>)
    requires
        bb.inv(),
        bb.link.is_some(),
        bb.intervals.wf(),
        forall|u: Var|
            #[trigger] defined_in(bb.data@, u) ==> exists|k: int|
                0 <= k < bb.intervals@.len() && (#[trigger] bb.intervals@[k]).0 == u,
        forall|k: int|
            0 <= k < bb.intervals@.len() ==> (#[trigger] bb.intervals@[k]).1.1 == spec_block_lu(
                bb.data@,
                bb.link,
                bb.intervals@[k].0,
            ),
        forall|k: int|
            0 <= k < bb.intervals@.len() && (#[trigger] bb.intervals@[k]).1.1 == 0
                ==> dl.contains(bb.intervals@[k].0),
        forall|p: int|
            0 <= p < bb.data@.len() ==> match (#[trigger] bb.data@[p]).lh {
                Some(v) => bb.data@[p].lh_c.is_some() || bb.data@[p].lh_v.is_some()
                    || !dl.contains(v),
                None => true,
            },
    ensures
        is_pruned(bb),
{
    assert forall|p: int| 0 <= p < bb.data@.len() implies match (#[trigger] bb.data@[p]).lh {
        Some(v) => bb.data@[p].lh_c.is_some() || bb.data@[p].lh_v.is_some() || (exists|q: int|
            0 <= q < bb.data@.len() && inst_uses(#[trigger] bb.data@[q], v)) || (match bb.link {
            Some(l) => link_uses(l, v),
            None => false,
        }),
        None => true,
    } by {
        match bb.data@[p].lh {
            Some(v) => {
                if !(bb.data@[p].lh_c.is_some() || bb.data@[p].lh_v.is_some()) {
                    assert(!dl.contains(v));
                    assert(inst_defines(bb.data@[p], v));
                    assert(defined_in(bb.data@, v));
                    lemma_not_dead_is_used(bb, dl, v);
                }
            },
            None => {},
        }
    }
}


/// After a sweep that clears dead flag bindings and keeps exactly the
/// justified instructions, the block-form invariants still hold on the
/// surviving sequence.
#[verifier::rlimit(100)]
#[verifier::spinoff_prover]
proof fn lemma_sweep_wf(
    data0: Seq<Instruction>,
    nd: Seq<Instruction>,
    idxmap: Seq<int>,
    dl: Seq<Var>,
    link: Option<crate::block::BlockLink>,
    cur_varid: int,
)
    requires
        defs_below(data0, cur_varid),
        ssa_form(data0),
        uses_defined_by(data0),
        defs_monotone(data0),
        slots_ordered(data0),
        link.is_some(),
        match link {
            Some(l) => forall|v: Var| #[trigger] link_uses(l, v) ==> defined_in(data0, v),
            None => true,
        },
        forall|j: int, p: int|
            0 <= j < dl.len() && 0 <= p < data0.len() ==> !inst_uses(
                #[trigger] data0[p],
                #[trigger] dl[j],
            ),
        forall|j: int|
            0 <= j < dl.len() ==> match link {
                Some(l) => !link_uses(l, #[trigger] dl[j]),
                None => false,
            },
        idxmap.len() == nd.len(),
        forall|j1: int, j2: int| 0 <= j1 < j2 < idxmap.len() ==> idxmap[j1] < idxmap[j2],
        forall|j: int| 0 <= j < idxmap.len() ==> 0 <= #[trigger] idxmap[j] < data0.len(),
        forall|j: int|
            0 <= j < idxmap.len() ==> #[trigger] nd[j] == spec_cleared(data0[idxmap[j]], dl),
        forall|q: int|
            0 <= q < data0.len() && spec_keep(spec_cleared(#[trigger] data0[q], dl), dl)
                ==> exists|j: int| 0 <= j < idxmap.len() && #[trigger] idxmap[j] == q,
    ensures
        defs_below(nd, cur_varid),
        ssa_form(nd),
        uses_defined_by(nd),
        defs_monotone(nd),
        slots_ordered(nd),
        match link {
            Some(l) => forall|v: Var| #[trigger] link_uses(l, v) ==> defined_in(nd, v),
            None => true,
        },
{
            // Uses of surviving instructions are never dead variables.
            assert forall|j: int, v: Var|
                0 <= j < nd.len() && #[trigger] inst_uses(nd[j], v) implies !dl.contains(v)
                    && inst_uses(data0[idxmap[j]], v) by {
                assert(nd[j].rh == data0[idxmap[j]].rh);
                if dl.contains(v) {
                    let x = choose|x: int| 0 <= x < dl.len() && dl[x] == v;
                    assert(!inst_uses(data0[idxmap[j]], dl[x]));
                }
            }
            // Surviving defs come from the same slot of the source position.
            assert forall|j: int, s: int|
                0 <= j < nd.len() && 0 <= s < 3 && (#[trigger] def_slot(nd[j], s)).is_some()
                    implies def_slot(data0[idxmap[j]], s) == def_slot(nd[j], s) by {
                assert(nd[j] == spec_cleared(data0[idxmap[j]], dl));
            }

            assert(defs_below(nd, cur_varid as int)) by {
                assert forall|q: int, v: Var|
                    0 <= q < nd.len() && #[trigger] inst_defines(nd[q], v) implies v.id
                    < cur_varid by {
                    assert(inst_defines(data0[idxmap[q]], v));
                }
            }
            assert(ssa_form(nd)) by {
                assert forall|p1: int, s1: int, p2: int, s2: int|
                    0 <= p1 < nd.len() && 0 <= p2 < nd.len() && 0 <= s1 < 3 && 0 <= s2 < 3 && (p1
                        != p2 || s1 != s2) && (#[trigger] def_slot(nd[p1], s1)).is_some() && (
                    #[trigger] def_slot(nd[p2], s2)).is_some() implies def_slot(
                    nd[p1],
                    s1,
                ).unwrap().id != def_slot(nd[p2], s2).unwrap().id by {
                    assert(def_slot(data0[idxmap[p1]], s1) == def_slot(nd[p1], s1));
                    assert(def_slot(data0[idxmap[p2]], s2) == def_slot(nd[p2], s2));
                    if p1 < p2 {
                        assert(idxmap[p1] < idxmap[p2]);
                    } else if p2 < p1 {
                        assert(idxmap[p2] < idxmap[p1]);
                    }
                }
            }
            assert(slots_ordered(nd)) by {
                assert forall|q: int| 0 <= q < nd.len() implies inst_slots_ordered(
                    #[trigger] nd[q],
                ) by {
                    assert(inst_slots_ordered(data0[idxmap[q]]));
                    assert forall|s1: int, s2: int|
                        0 <= s1 < s2 < 3 && (#[trigger] def_slot(nd[q], s1)).is_some() && (
                        #[trigger] def_slot(nd[q], s2)).is_some() implies def_slot(
                        nd[q],
                        s1,
                    ).unwrap().id < def_slot(nd[q], s2).unwrap().id by {
                        assert(def_slot(data0[idxmap[q]], s1) == def_slot(nd[q], s1));
                        assert(def_slot(data0[idxmap[q]], s2) == def_slot(nd[q], s2));
                    }
                }
            }
            assert(defs_monotone(nd)) by {
                assert forall|p1: int, p2: int, v1: Var, v2: Var|
                    0 <= p1 < p2 < nd.len() && #[trigger] inst_defines(nd[p1], v1)
                        && #[trigger] inst_defines(nd[p2], v2) implies v1.id < v2.id by {
                    assert(inst_defines(data0[idxmap[p1]], v1));
                    assert(inst_defines(data0[idxmap[p2]], v2));
                    assert(idxmap[p1] < idxmap[p2]);
                }
            }
            // A used variable's defining instruction survives with the
            // defining slot intact.
            assert forall|v: Var, q: int|
                0 <= q < data0.len() && #[trigger] inst_defines(data0[q], v) && !dl.contains(v)
                    implies exists|j: int|
                0 <= j < nd.len() && #[trigger] idxmap[j] == q && inst_defines(nd[j], v) by {
                let ci = spec_cleared(data0[q], dl);
                assert(inst_defines(ci, v) && spec_keep(ci, dl)) by {
                    if data0[q].lh == Some(v) {
                        assert(ci.lh == Some(v));
                    } else if data0[q].lh_c == Some(v) {
                        assert(ci.lh_c == Some(v));
                    } else {
                        assert(ci.lh_v == Some(v));
                    }
                }
                let j = choose|j: int| 0 <= j < idxmap.len() && #[trigger] idxmap[j] == q;
                assert(nd[j] == ci);
            }
            assert(uses_defined_by(nd)) by {
                assert forall|j: int, v: Var|
                    0 <= j < nd.len() && #[trigger] inst_uses(nd[j], v) implies exists|j2: int|
                    0 <= j2 < j && #[trigger] inst_defines(nd[j2], v) by {
                    assert(inst_uses(data0[idxmap[j]], v));
                    let q = choose|q: int|
                        0 <= q < idxmap[j] && #[trigger] inst_defines(data0[q], v);
                    let j2 = choose|j2: int|
                        0 <= j2 < nd.len() && #[trigger] idxmap[j2] == q && inst_defines(
                            nd[j2],
                            v,
                        );
                    assert(j2 < j) by {
                        if j2 >= j {
                            if j2 > j {
                                assert(idxmap[j] < idxmap[j2]);
                            }
                            assert(false);
                        }
                    }
                }
            }
            // The terminator's operands survive.
            match link {
                Some(l) => {
                    assert forall|v: Var| #[trigger] link_uses(l, v) implies defined_in(
                        nd,
                        v,
                    ) by {
                        assert(defined_in(data0, v));
                        let q = choose|q: int|
                            0 <= q < data0.len() && #[trigger] inst_defines(data0[q], v);
                        assert(!dl.contains(v)) by {
                            if dl.contains(v) {
                                let x = choose|x: int| 0 <= x < dl.len() && dl[x] == v;
                                assert(!link_uses(l, dl[x]));
                            }
                        }
                        let j = choose|j: int|
                            0 <= j < nd.len() && #[trigger] idxmap[j] == q && inst_defines(
                                nd[j],
                                v,
                            );
                        assert(inst_defines(nd[j], v));
                    }
                },
                None => {
                    assert(false);
                },
            }
        }

} // verus!
