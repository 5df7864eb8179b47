//! A dynamic binary translator core for 32-bit ARMv5 guests on x86-64 hosts.
//!
//! Guest basic blocks are lifted into an SSA intermediate representation,
//! dead variables are pruned, variables are colored onto host registers by a
//! linear-scan allocator, and host instructions are selected from the IR.
//! The surrounding runtime (memory mapping, assembling the selected host
//! instructions, and dispatching into them) lives outside this crate; the
//! types here model the guest-visible state and carry the whole translation
//! pipeline.

pub mod alu;
pub mod bits;
pub mod block;
pub mod branch;
pub mod dataproc;
pub mod decode;
pub mod emit;
pub mod guest;
pub mod runtime;
pub mod ir;
pub mod lift;
pub mod loadstore;
pub mod lut;
pub mod mem;
pub mod opt;
pub mod regalloc;

use vstd::prelude::*;

use crate::block::BasicBlock;
use crate::emit::HostInst;
use crate::guest::{GuestMmu, GuestState};
use crate::lift::{spec_lifts_from, TranslateError};
use crate::lut::DecoderLut;
use crate::opt::is_pruned;
use std::collections::HashMap;

verus! {

broadcast use vstd::std_specs::hash::group_hash_axioms;

/// Top-level translator state: the guest machine, its memory, the decoder
/// tables, and a cache of previously translated blocks keyed by guest PC.
pub struct Jit {
    /// The register state associated with this guest machine.
    pub state: GuestState,
    /// The virtual MMU associated with this guest machine.
    pub mmu: GuestMmu,
    /// The decoder lookup tables, computed once at construction.
    pub lut: DecoderLut,
    /// A cache of previously-translated basic blocks.
    pub cache: HashMap<u32, BasicBlock>,
}

impl Jit {
    /// The machine state and tables a translator always maintains.
    pub open spec fn wf(&self) -> bool {
        &&& self.state.wf()
        &&& self.mmu.wf()
        &&& self.lut.arm.wf()
        &&& self.lut.thumb.wf()
    }

    /// A fresh guest machine: zeroed registers, zeroed memory, an empty
    /// translation cache.
    pub fn new() -> (r: Jit)
        ensures
            r.wf(),
            r.cache@.len() == 0,
    {
        Jit {
            state: GuestState::new(0x0000_0000, 0x0000_0000),
            mmu: GuestMmu::new(),
            lut: DecoderLut::new(),
            cache: HashMap::new(),
        }
    }

    /// Translate the block at the current guest PC, unless it is already
    /// cached: lift it to IR, prune dead variables, and recompile it to
    /// host instructions.
    ///
    /// The cache is insert-only: a hit always succeeds and changes nothing;
    /// a miss either inserts the fully processed block under the current PC
    /// or fails leaving the cache untouched, and entries under other keys
    /// are never evicted or replaced.
    pub fn translate(&mut self) -> (r: Result<(), TranslateError>)
        requires
            old(self).wf(),
        ensures
            final(self).wf(),
            final(self).state == old(self).state,
            final(self).mmu == old(self).mmu,
            r.is_ok() ==> final(self).cache@.contains_key(old(self).state.pc.0),
            old(self).cache@.contains_key(old(self).state.pc.0) ==> r.is_ok()
                && final(self).cache@ == old(self).cache@,
            r.is_err() ==> final(self).cache@ == old(self).cache@,
            !old(self).cache@.contains_key(old(self).state.pc.0) && !spec_lifts_from(
                old(self).mmu.mem.data@,
                old(self).state.pc.0 as int,
            ) ==> r.is_err(),
            forall|k: u32|
                k != old(self).state.pc.0 ==> (final(self).cache@.contains_key(k)
                    <==> old(self).cache@.contains_key(k)) && (old(self).cache@.contains_key(k)
                    ==> final(self).cache@[k] == old(self).cache@[k]),
            (r.is_ok() && !old(self).cache@.contains_key(old(self).state.pc.0)) ==> ({
                let b = final(self).cache@[old(self).state.pc.0];
                &&& b.inv()
                &&& b.link.is_some()
                &&& b.base_pc == old(self).state.pc
                &&& is_pruned(b)
                &&& b.host_code@.len() >= 2
                &&& b.host_code@.last() == (HostInst::RetCode { code: 0 })
            }),
    {
        let pc = self.state.pc.fetch();
        if self.cache.contains_key(&pc) {
            return Ok(());
        }
        let mut bb = match BasicBlock::lift(&self.state, &self.mmu, &self.lut.arm) {
            Ok(b) => b,
            Err(e) => {
                return Err(e);
            },
        };
        bb.prune_dead_vars();
        match bb.recompile() {
            Ok(()) => {},
            Err(e) => {
                return Err(e);
            },
        }
        self.cache.insert(pc, bb);
        Ok(())
    }
}

} // verus!

