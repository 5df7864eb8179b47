//! Lifting of branch instructions.

use vstd::prelude::*;

use crate::bits;
use crate::block::{
    builder_ready, defined_in, lift_step, link_uses, BasicBlock, BlockLink,
};
use crate::guest::{spec_cond_from_bits, Cond};
use crate::ir::{lemma_small_masks, Var, VarKind};
use vstd::wrapping::u32_specs;

verus! {

/// The low `bits` bits of `x` reinterpreted as a signed value, as a 32-bit
/// pattern (ones above bit `bits - 1` when the sign bit is set).
pub open spec fn spec_sign_extend32(x: u32, bits: u32) -> u32 {
    if (x >> ((bits - 1) as u32)) & 1 == 1 {
        x | (0xffff_ffffu32 << bits)
    } else {
        x
    }
}

/// Sign-extend the low `bits` bits of `x`.
pub fn sign_extend(x: u32, bits: i32) -> (r: i32)
    requires
        0 < bits < 32,
    ensures
        r as u32 == spec_sign_extend32(x, bits as u32),
{
    let b = (bits - 1) as u32;
    let bu = bits as u32;
    proof {
        assert(((x >> b) & 1 == 1) == ((x >> b) & 1 != 0)) by (bit_vector);
    }
    if ((x >> b) & 1) != 0 {
        let v = x | (0xffff_ffffu32 << bu);
        proof {
            assert((v as i32) as u32 == v) by (bit_vector);
        }
        #[verifier::truncate] (v as i32)
    } else {
        proof {
            assert((x as i32) as u32 == x) by (bit_vector);
        }
        #[verifier::truncate] (x as i32)
    }
}

/// The 24-bit branch offset of `op`, sign-extended and scaled to bytes.
pub open spec fn spec_b_offset(op: u32) -> u32 {
    u32_specs::wrapping_mul(spec_sign_extend24(op & 0x00ff_ffff), 4)
}

/// The low 24 bits of `x` sign-extended to 32 bits.
pub open spec fn spec_sign_extend24(x: u32) -> u32 {
    if (x >> 23) & 1 == 1 {
        x | 0xff00_0000u32
    } else {
        x
    }
}

/// The branch target of `op` fetched at `pc`: the visible PC (fetch + 8)
/// plus the scaled, sign-extended offset, wrapping at 32 bits.
pub open spec fn spec_b_target(op: u32, pc: u32) -> u32 {
    u32_specs::wrapping_add(u32_specs::wrapping_add(pc, 8), spec_b_offset(op))
}

/// The fall-through address of the instruction fetched at `pc`.
pub open spec fn spec_next_pc(pc: u32) -> u32 {
    u32_specs::wrapping_add(pc, 4)
}

/// The architecturally visible PC of the instruction fetched at `pc`.
pub open spec fn spec_exec_pc(pc: u32) -> u32 {
    u32_specs::wrapping_add(pc, 8)
}

/// Lift `B`: branch to `exec_pc + offset`. A non-always condition produces a
/// two-way conditional terminator whose fall-through is the next instruction.
pub fn b(bb: &mut BasicBlock, op: u32)
    requires
        builder_ready(*old(bb)),
        old(bb).lb.cur_varid + 64 <= usize::MAX,
        op >> 28 < 15,
    ensures
        lift_step(*old(bb), *final(bb)),
        final(bb).link.is_some(),
        (op >> 28 == 14) ==> match final(bb).link {
            Some(BlockLink::Branch(t)) => t.width == 32 && t.kind == VarKind::Constant(
                spec_b_target(op, old(bb).cur_pc.0) as u64,
            ),
            _ => false,
        },
        (op >> 28 < 14) ==> match final(bb).link {
            Some(BlockLink::BranchCond(c, t, f)) => c == spec_cond_from_bits(op >> 28) && t.width
                == 32 && t.kind == VarKind::Constant(spec_b_target(op, old(bb).cur_pc.0) as u64)
                && f.width == 32 && f.kind == VarKind::Constant(
                spec_next_pc(old(bb).cur_pc.0) as u64,
            ),
            _ => false,
        },
{
    let imm = bits::imm24_bits(op);
    let se = if (imm >> 23) & 1 == 1 {
        imm | 0xff00_0000u32
    } else {
        imm
    };
    let ofs = se.wrapping_mul(4);
    let target_val = bb.read_exec_pc().wrapping_add(ofs);
    proof {
        lemma_small_masks();
    }
    let target = bb.constant(32, target_val as u64);

    let cond_field = bits::cond_bits(op);
    if cond_field == 14 {
        proof {
            assert forall|v: Var| #[trigger] link_uses(BlockLink::Branch(target), v)
                implies defined_in(bb.data@, v) by {
                assert(v == target);
            }
        }
        bb.terminate(BlockLink::Branch(target));
    } else {
        let fall = bb.read_fetch_pc().wrapping_add(4);
        let target_false = bb.constant(32, fall as u64);
        let cond = Cond::from_bits(cond_field);
        let link = BlockLink::BranchCond(cond, target, target_false);
        proof {
            assert forall|v: Var| #[trigger] link_uses(link, v) implies defined_in(
                bb.data@,
                v,
            ) by {
                assert(v == target || v == target_false);
            }
        }
        bb.terminate(link);
    }
}

/// Lift `BL`: branch to `exec_pc + offset`, recording the address of the
/// next instruction as the new link-register value.
pub fn bl_imm(bb: &mut BasicBlock, op: u32)
    requires
        builder_ready(*old(bb)),
        old(bb).lb.cur_varid + 64 <= usize::MAX,
        op >> 28 == 14,
    ensures
        lift_step(*old(bb), *final(bb)),
        match final(bb).link {
            Some(BlockLink::BranchAndLink(t, l)) => t.width == 32 && t.kind == VarKind::Constant(
                spec_b_target(op, old(bb).cur_pc.0) as u64,
            ) && l.width == 32 && l.kind == VarKind::Constant(
                spec_next_pc(old(bb).cur_pc.0) as u64,
            ),
            _ => false,
        },
{
    let imm = bits::imm24_bits(op);
    let se = if (imm >> 23) & 1 == 1 {
        imm | 0xff00_0000u32
    } else {
        imm
    };
    let ofs = se.wrapping_mul(4);

    let lr_val = bb.read_fetch_pc().wrapping_add(4);
    proof {
        lemma_small_masks();
    }
    let new_lr = bb.constant(32, lr_val as u64);

    let target_val = bb.read_exec_pc().wrapping_add(ofs);
    let target = bb.constant(32, target_val as u64);

    let link = BlockLink::BranchAndLink(target, new_lr);
    proof {
        assert forall|v: Var| #[trigger] link_uses(link, v) implies defined_in(bb.data@, v) by {
            assert(v == target || v == new_lr);
        }
    }
    bb.terminate(link);
}

} // verus!
