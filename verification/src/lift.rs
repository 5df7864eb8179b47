//! The lifter: fetch guest opcodes, dispatch them by instruction kind, and
//! grow a basic block until a terminator is produced.

use vstd::prelude::*;

use crate::bits;
use crate::block::{builder_ready, lift_step, BasicBlock};
use crate::branch;
use crate::dataproc;
use crate::decode::{spec_arm_decode, ArmInst};
use crate::guest::{GuestMmu, GuestState};
use crate::loadstore;
use crate::lut::ArmLut;
use crate::mem::{be32_at, ARENA_LEN};

verus! {

/// Why a block could not be translated. Every kind is fatal for the block:
/// translation stops and nothing is retried.
#[derive(Clone, Copy, Debug, PartialEq, Eq, Structural)]
pub enum TranslateError {
    /// The instruction kind is not implemented by the lifter.
    Unimplemented,
    /// The condition field held the reserved encoding 0b1111.
    InvalidCond,
    /// A conditional instruction other than a branch; only branches may be
    /// conditional in the supported subset.
    CondNotAl,
    /// The destination, transfer or base register is the PC.
    DestIsPc,
    /// Post-index with writeback (`P=0, W=1`).
    UnsupportedAddrMode,
    /// The fetch address fell outside the guest arena.
    FetchOutOfBounds,
    /// The register pool is exhausted; spilling is not implemented.
    PoolExhausted,
    /// The emitter has no encoding for an operand/storage combination.
    UnsupportedStorage,
}

/// Exactly the opcodes the lifter translates: an implemented instruction
/// kind whose fields pass that kind's checks.
pub open spec fn spec_lift_ok(op: u32) -> bool {
    match spec_arm_decode(op) {
        ArmInst::B => op >> 28 != 15,
        ArmInst::BlImm => op >> 28 == 14,
        ArmInst::MovImm => op >> 28 == 14 && (op >> 12) & 0xf != 15,
        ArmInst::MovReg => op >> 28 == 14 && (op >> 12) & 0xf != 15 && (op >> 5) & 3 == 0,
        ArmInst::SubImm => op >> 28 == 14 && (op >> 12) & 0xf != 15,
        ArmInst::CmpImm => op >> 28 == 14 && (op >> 16) & 0xf != 15,
        ArmInst::LdrImm => op >> 28 == 14 && (op >> 12) & 0xf != 15 && ((op >> 16) & 0xf == 15
            || !((op >> 24) & 1 == 0 && (op >> 21) & 1 == 1)),
        ArmInst::StrImm => op >> 28 == 14 && (op >> 12) & 0xf != 15 && (op >> 16) & 0xf != 15 && !((
        op >> 24) & 1 == 0 && (op >> 21) & 1 == 1),
        ArmInst::Stmdb => op >> 28 == 14 && (op >> 16) & 0xf != 15,
        _ => false,
    }
}

/// True when the opcode's instruction kind terminates a block.
pub open spec fn spec_is_terminator(op: u32) -> bool {
    match spec_arm_decode(op) {
        ArmInst::B => true,
        ArmInst::BlImm => true,
        _ => false,
    }
}

/// What dispatching one liftable opcode appends to the block, by kind.
pub open spec fn spec_dispatch_content(op: u32, pre: BasicBlock, post: BasicBlock) -> bool {
    match spec_arm_decode(op) {
        ArmInst::B => post.link.is_some() && (op >> 28 == 14 ==> match post.link {
            Some(crate::block::BlockLink::Branch(t)) => t.kind == crate::ir::VarKind::Constant(
                crate::branch::spec_b_target(op, pre.cur_pc.0) as u64,
            ),
            _ => false,
        }) && (op >> 28 < 14 ==> match post.link {
            Some(crate::block::BlockLink::BranchCond(c, t, f)) => c
                == crate::guest::spec_cond_from_bits(op >> 28) && t.kind
                == crate::ir::VarKind::Constant(crate::branch::spec_b_target(op, pre.cur_pc.0) as u64)
                && f.kind == crate::ir::VarKind::Constant(
                crate::branch::spec_next_pc(pre.cur_pc.0) as u64,
            ),
            _ => false,
        }),
        ArmInst::BlImm => match post.link {
            Some(crate::block::BlockLink::BranchAndLink(t, l)) => t.kind
                == crate::ir::VarKind::Constant(crate::branch::spec_b_target(op, pre.cur_pc.0) as u64)
                && l.kind == crate::ir::VarKind::Constant(
                crate::branch::spec_next_pc(pre.cur_pc.0) as u64,
            ),
            _ => false,
        },
        ArmInst::MovImm => crate::dataproc::mov_imm_shape(pre, post, op),
        ArmInst::MovReg => crate::dataproc::mov_reg_shape(pre, post, op),
        ArmInst::SubImm => crate::dataproc::sub_imm_shape(pre, post, op),
        ArmInst::CmpImm => crate::dataproc::cmp_imm_shape(pre, post, op),
        ArmInst::LdrImm => crate::loadstore::writes_loaded_reg(post, (op >> 12) & 0xf) && ((op
            >> 16) & 0xf != 15 ==> crate::dataproc::writes_reg(post, (op >> 16) & 0xf)),
        ArmInst::StrImm => crate::loadstore::stores_reg(post, (op >> 12) & 0xf)
            && crate::dataproc::writes_reg(post, (op >> 16) & 0xf),
        ArmInst::Stmdb => ((op >> 21) & 1 == 1 ==> crate::dataproc::writes_reg(
            post,
            (op >> 16) & 0xf,
        )) && (forall|i: u32|
            i < 15 && ((op & 0xffff) >> i) & 1 == 1 ==> crate::loadstore::stores_reg(post, i)),
        _ => false,
    }
}

/// A whole block lifts successfully from `pc`: every fetched word is inside
/// the arena and liftable, and the straight line ends at a terminator.
pub open spec fn spec_lifts_from(mem: Seq<u8>, pc: int) -> bool
    decreases ARENA_LEN - pc,
{
    if pc < 0 || pc + 4 > ARENA_LEN {
        false
    } else {
        let w = be32_at(mem, pc) as u32;
        spec_lift_ok(w) && (spec_is_terminator(w) || spec_lifts_from(mem, pc + 4))
    }
}

/// Dispatch one fetched opcode to its lifter handler.
///
/// Succeeds exactly on the opcodes of [`spec_lift_ok`]; on failure the block
/// is left untouched.
pub fn dispatch_arm(bb: &mut BasicBlock, lut: &ArmLut, opcd: u32) -> (r: Result<
    (),
    TranslateError,
>)
    requires
        builder_ready(*old(bb)),
        old(bb).lb.cur_varid + 64 <= usize::MAX,
        lut.wf(),
    ensures
        r.is_ok() == spec_lift_ok(opcd),
        r.is_ok() ==> lift_step(*old(bb), *final(bb)),
        r.is_ok() ==> (final(bb).link.is_some() <==> spec_is_terminator(opcd)),
        r.is_ok() ==> spec_dispatch_content(opcd, *old(bb), *final(bb)),
        r.is_err() ==> *final(bb) == *old(bb),
{
    let kind = lut.lookup(opcd);
    let cond = bits::cond_bits(opcd);
    match kind {
        ArmInst::B => {
            if cond == 15 {
                Err(TranslateError::InvalidCond)
            } else {
                branch::b(bb, opcd);
                Ok(())
            }
        },
        ArmInst::BlImm => {
            if cond == 15 {
                Err(TranslateError::InvalidCond)
            } else if cond != 14 {
                Err(TranslateError::CondNotAl)
            } else {
                branch::bl_imm(bb, opcd);
                Ok(())
            }
        },
        ArmInst::MovImm => {
            if cond == 15 {
                Err(TranslateError::InvalidCond)
            } else if cond != 14 {
                Err(TranslateError::CondNotAl)
            } else if bits::rd_bits(opcd) == 15 {
                Err(TranslateError::DestIsPc)
            } else {
                dataproc::mov_imm(bb, opcd);
                Ok(())
            }
        },
        ArmInst::MovReg => {
            if cond == 15 {
                Err(TranslateError::InvalidCond)
            } else if cond != 14 {
                Err(TranslateError::CondNotAl)
            } else if bits::rd_bits(opcd) == 15 {
                Err(TranslateError::DestIsPc)
            } else if bits::stype_bits(opcd) != 0 {
                Err(TranslateError::Unimplemented)
            } else {
                dataproc::mov_reg(bb, opcd);
                Ok(())
            }
        },
        ArmInst::SubImm => {
            if cond == 15 {
                Err(TranslateError::InvalidCond)
            } else if cond != 14 {
                Err(TranslateError::CondNotAl)
            } else if bits::rd_bits(opcd) == 15 {
                Err(TranslateError::DestIsPc)
            } else {
                dataproc::sub_imm(bb, opcd);
                Ok(())
            }
        },
        ArmInst::CmpImm => {
            if cond == 15 {
                Err(TranslateError::InvalidCond)
            } else if cond != 14 {
                Err(TranslateError::CondNotAl)
            } else if bits::rn_bits(opcd) == 15 {
                Err(TranslateError::DestIsPc)
            } else {
                dataproc::cmp_imm(bb, opcd);
                Ok(())
            }
        },
        ArmInst::LdrImm => {
            if cond == 15 {
                Err(TranslateError::InvalidCond)
            } else if cond != 14 {
                Err(TranslateError::CondNotAl)
            } else if bits::rt_bits(opcd) == 15 {
                Err(TranslateError::DestIsPc)
            } else if bits::rn_bits(opcd) != 15 && !bits::p_bit(opcd) && bits::w_bit(opcd) {
                Err(TranslateError::UnsupportedAddrMode)
            } else {
                loadstore::ldr_imm(bb, opcd);
                Ok(())
            }
        },
        ArmInst::StrImm => {
            if cond == 15 {
                Err(TranslateError::InvalidCond)
            } else if cond != 14 {
                Err(TranslateError::CondNotAl)
            } else if bits::rt_bits(opcd) == 15 || bits::rn_bits(opcd) == 15 {
                Err(TranslateError::DestIsPc)
            } else if !bits::p_bit(opcd) && bits::w_bit(opcd) {
                Err(TranslateError::UnsupportedAddrMode)
            } else {
                loadstore::str_imm(bb, opcd);
                Ok(())
            }
        },
        ArmInst::Stmdb => {
            if cond == 15 {
                Err(TranslateError::InvalidCond)
            } else if cond != 14 {
                Err(TranslateError::CondNotAl)
            } else if bits::rn_bits(opcd) == 15 {
                Err(TranslateError::DestIsPc)
            } else {
                loadstore::stmdb(bb, opcd);
                Ok(())
            }
        },
        _ => Err(TranslateError::Unimplemented),
    }
}

impl BasicBlock {
    /// Lift one basic block starting at the guest PC: fetch, dispatch, and
    /// append until a handler terminates the block.
    ///
    /// On success the block is well-formed (in particular, in SSA form) and
    /// carries a terminator.
    pub fn lift(state: &GuestState, mmu: &GuestMmu, lut: &ArmLut) -> (r: Result<
        BasicBlock,
        TranslateError,
    >)
        requires
            mmu.wf(),
            lut.wf(),
        ensures
            r.is_ok() == spec_lifts_from(mmu.mem.data@, state.pc.0 as int),
            match r {
                Ok(bb) => {
                    &&& bb.wf()
                    &&& bb.link.is_some()
                    &&& bb.base_pc == state.pc
                    &&& bb.guest_ops@.len() >= 1
                    &&& forall|j: int|
                        0 <= j < bb.guest_ops@.len() ==> #[trigger] bb.guest_ops@[j] == be32_at(
                            mmu.mem.data@,
                            state.pc.0 + 4 * j,
                        ) as u32 && spec_lift_ok(bb.guest_ops@[j]) && (j < bb.guest_ops@.len() - 1
                            ==> !spec_is_terminator(bb.guest_ops@[j]))
                    &&& spec_is_terminator(bb.guest_ops@.last())
                },
                Err(_) => true,
            },
    {
        let ghost mem = mmu.mem.data@;
        let mut bb = BasicBlock::new(state.pc);
        loop
            invariant
                mmu.wf(),
                lut.wf(),
                mem == mmu.mem.data@,
                bb.wf(),
                bb.link.is_none(),
                bb.base_pc == state.pc,
                bb.cur_pc.0 == bb.base_pc.0 + 4 * bb.guest_ops@.len(),
                bb.guest_ops@.len() > 0 ==> bb.cur_pc.0 <= ARENA_LEN,
                bb.lb.cur_varid <= 64 * bb.guest_ops@.len(),
                spec_lifts_from(mem, state.pc.0 as int) == spec_lifts_from(
                    mem,
                    bb.cur_pc.0 as int,
                ),
                forall|j: int|
                    0 <= j < bb.guest_ops@.len() ==> #[trigger] bb.guest_ops@[j] == be32_at(
                        mem,
                        state.pc.0 + 4 * j,
                    ) as u32 && spec_lift_ok(bb.guest_ops@[j]) && !spec_is_terminator(
                        bb.guest_ops@[j],
                    ),
            decreases ARENA_LEN + 4 - bb.cur_pc.0,
        {
            let fetch_pc = bb.read_fetch_pc();
            if fetch_pc > (ARENA_LEN as u32) - 4 {
                return Err(TranslateError::FetchOutOfBounds);
            }
            let opcd = mmu.read32(fetch_pc);
            bb.guest_ops.push(opcd);

            match dispatch_arm(&mut bb, lut, opcd) {
                Err(e) => {
                    proof {
                        assert(!spec_lift_ok(opcd));
                        assert(!spec_lifts_from(mem, bb.cur_pc.0 as int));
                    }
                    return Err(e);
                },
                Ok(()) => {},
            }

            if bb.link.is_some() {
                proof {
                    assert(spec_is_terminator(opcd));
                    assert(spec_lifts_from(mem, bb.cur_pc.0 as int));
                    assert(bb.guest_ops@.last() == opcd);
                }
                return Ok(bb);
            }
            proof {
                assert(!spec_is_terminator(opcd));
                assert(spec_lifts_from(mem, bb.cur_pc.0 as int) == spec_lifts_from(
                    mem,
                    bb.cur_pc.0 + 4,
                ));
            }
            bb.increment_pc();
        }
    }
}

} // verus!
