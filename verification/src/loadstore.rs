//! Lifting of load/store instructions and their addressing modes.

use vstd::prelude::*;

use crate::bits;
use crate::block::{
    builder_ready, builder_step, defined_in, lemma_builder_step_trans, lift_step, BasicBlock,
};
use crate::dataproc::writes_reg;
use crate::ir::{lemma_small_masks, BindOp, MemoryOp, Operation, Var, VarKind};
use vstd::wrapping::u32_specs;

verus! {

/// Compute a literal (PC-relative) effective address.
pub fn amode_lit(pc: u32, imm: u32, p: bool, u: bool) -> (r: u32)
    ensures
        r == (if p && u {
            u32_specs::wrapping_add(pc, imm)
        } else if p && !u {
            u32_specs::wrapping_sub(pc, imm)
        } else {
            pc
        }),
{
    if p && u {
        pc.wrapping_add(imm)
    } else if p && !u {
        pc.wrapping_sub(imm)
    } else {
        pc
    }
}

/// Compute a register-plus-immediate address.
///
/// Returns the effective address and the writeback value, chosen by the
/// pre-index and writeback bits. Post-index with writeback (`P=0, W=1`) is
/// not an ordinary addressing mode and is rejected before lifting.
pub fn amode(bb: &mut BasicBlock, rn: Var, imm: Var, u: bool, p: bool, w: bool) -> (r: (Var, Var))
    requires
        builder_ready(*old(bb)),
        old(bb).lb.cur_varid + 1 <= usize::MAX,
        defined_in(old(bb).data@, rn),
        defined_in(old(bb).data@, imm),
        !(!p && w),
    ensures
        builder_step(*old(bb), *final(bb)),
        final(bb).lb.cur_varid <= old(bb).lb.cur_varid + 1,
        defined_in(final(bb).data@, r.0),
        defined_in(final(bb).data@, r.1),
{
    let res = if u {
        bb.add32(rn, imm)
    } else {
        bb.sub32(rn, imm)
    };
    if !p && !w {
        (rn, res)
    } else if p && !w {
        (res, rn)
    } else if p && w {
        (res, res)
    } else {
        proof {
            assert(false);
        }
        (rn, res)
    }
}

/// Some instruction of the block writes to guest register `rt` a value
/// bound by a 32-bit memory load.
pub open spec fn writes_loaded_reg(bb: BasicBlock, rt: u32) -> bool {
    exists|p: int, q: int|
        0 <= p < bb.data@.len() && 0 <= q < bb.data@.len() && match (#[trigger] bb.data@[p]).rh {
            Operation::Bind(BindOp::WriteGuestReg(r, v)) => r == rt && (#[trigger] bb.data@[q]).lh
                == Some(v) && match bb.data@[q].rh {
                Operation::Memory(MemoryOp::Load32(_)) => true,
                _ => false,
            },
            _ => false,
        }
}

/// Lift `LDR (immediate)`: load a 32-bit value into Rt, with literal
/// addressing when Rn is the PC, and register-plus-immediate addressing with
/// writeback otherwise.
#[verifier::rlimit(60)]
pub fn ldr_imm(bb: &mut BasicBlock, op: u32)
    requires
        builder_ready(*old(bb)),
        old(bb).lb.cur_varid + 64 <= usize::MAX,
        op >> 28 == 14,
        (op >> 12) & 0xf != 15,
        (op >> 16) & 0xf == 15 || !((op >> 24) & 1 == 0 && (op >> 21) & 1 == 1),
    ensures
        lift_step(*old(bb), *final(bb)),
        final(bb).link.is_none(),
        writes_reg(*final(bb), (op >> 12) & 0xf),
        writes_loaded_reg(*final(bb), (op >> 12) & 0xf),
        (op >> 16) & 0xf != 15 ==> writes_reg(*final(bb), (op >> 16) & 0xf),
{
    let rn_field = bits::rn_bits(op);
    let res = if rn_field == 15 {
        let addr_val = amode_lit(bb.read_exec_pc(), bits::imm12_bits(op), bits::p_bit(op),
            bits::u_bit(op));
        proof {
            lemma_small_masks();
        }
        let addr = bb.constant(32, addr_val as u64);
        bb.load32(addr)
    } else {
        let rn = bb.read_reg(rn_field);
        proof {
            lemma_small_masks();
        }
        let imm = bb.constant(32, bits::imm12_bits(op) as u64);
        let (addr, wb_addr) = amode(bb, rn, imm, bits::u_bit(op), bits::p_bit(op), bits::w_bit(op));
        bb.write_reg(rn_field, wb_addr);
        bb.load32(addr)
    };

    let rt = bits::rt_bits(op);
    bb.write_reg(rt, res);
    proof {
        let d = bb.data@;
        let n = d.len() as int;
        assert(d[n - 1].rh == Operation::Bind(BindOp::WriteGuestReg(rt, res)));
        assert(d[n - 2].lh == Some(res) && match d[n - 2].rh {
            Operation::Memory(MemoryOp::Load32(_)) => true,
            _ => false,
        });
        if rn_field != 15 {
            assert(match d[n - 3].rh {
                Operation::Bind(BindOp::WriteGuestReg(r, _)) => r == rn_field,
                _ => false,
            });
        }
    }
}

/// Some instruction of the block stores the value read from guest register
/// `reg` to memory.
pub open spec fn stores_reg(bb: BasicBlock, reg: u32) -> bool {
    exists|p: int|
        0 <= p < bb.data@.len() && match (#[trigger] bb.data@[p]).rh {
            Operation::Memory(MemoryOp::Store32(_, v)) => v.kind == VarKind::GuestReg(reg),
            _ => false,
        }
}

/// Lift `STR (immediate)`: store Rt to the register-plus-immediate address,
/// with writeback per the addressing mode.
#[verifier::rlimit(60)]
pub fn str_imm(bb: &mut BasicBlock, op: u32)
    requires
        builder_ready(*old(bb)),
        old(bb).lb.cur_varid + 64 <= usize::MAX,
        op >> 28 == 14,
        (op >> 12) & 0xf != 15,
        (op >> 16) & 0xf != 15,
        !((op >> 24) & 1 == 0 && (op >> 21) & 1 == 1),
    ensures
        lift_step(*old(bb), *final(bb)),
        final(bb).link.is_none(),
        stores_reg(*final(bb), (op >> 12) & 0xf),
        writes_reg(*final(bb), (op >> 16) & 0xf),
{
    let rt = bb.read_reg(bits::rt_bits(op));
    let rn = bb.read_reg(bits::rn_bits(op));
    proof {
        lemma_small_masks();
    }
    let imm = bb.constant(32, bits::imm12_bits(op) as u64);

    let (addr, wb_addr) = amode(bb, rn, imm, bits::u_bit(op), bits::p_bit(op), bits::w_bit(op));
    bb.write_reg(bits::rn_bits(op), wb_addr);
    bb.store32(addr, rt);
    proof {
        let d = bb.data@;
        let n = d.len() as int;
        assert(d[n - 1].rh == Operation::Memory(MemoryOp::Store32(addr, rt)));
        assert(d[n - 2].rh == Operation::Bind(BindOp::WriteGuestReg((op >> 16) & 0xf, wb_addr)));
    }
}

/// The number of registers named in the low 15 bits of a register list,
/// counting positions `0..n`.
pub open spec fn spec_count_regs(list: u32, n: int) -> int
    decreases n,
{
    if n <= 0 {
        0
    } else {
        spec_count_regs(list, n - 1) + (if (list >> ((n - 1) as u32)) & 1 == 1 {
            1int
        } else {
            0int
        })
    }
}

/// Count the registers named in a register list, the PC slot included:
/// decrement-before addressing lowers the base by one word per named
/// register.
fn count_list_regs(list: u32) -> (r: u32)
    ensures
        r == spec_count_regs(list, 16),
        r <= 16,
{
    let mut count: u32 = 0;
    let mut i: u32 = 0;
    while i < 16
        invariant
            i <= 16,
            count == spec_count_regs(list, i as int),
            count <= i,
        decreases 16 - i,
    {
        if (list >> i) & 1 == 1 {
            count = count + 1;
        }
        i = i + 1;
    }
    count
}

/// Lift `STMDB`: store the registers named in the list to consecutive words
/// below Rn, in ascending register order, with optional writeback of the
/// lowered base.
pub fn stmdb(bb: &mut BasicBlock, op: u32)
    requires
        builder_ready(*old(bb)),
        old(bb).lb.cur_varid + 64 <= usize::MAX,
        op >> 28 == 14,
        (op >> 16) & 0xf != 15,
    ensures
        lift_step(*old(bb), *final(bb)),
        final(bb).link.is_none(),
        (op >> 21) & 1 == 1 ==> writes_reg(*final(bb), (op >> 16) & 0xf),
        forall|i: u32|
            i < 15 && ((op & 0xffff) >> i) & 1 == 1 ==> stores_reg(*final(bb), i),
{
    let reglist = bits::register_list(op);
    let num_regs = count_list_regs(reglist);
    proof {
        lemma_small_masks();
    }
    let addr_off = bb.constant(32, (num_regs * 4) as u64);
    let rn_field = bits::rn_bits(op);
    let rn_val = bb.read_reg(rn_field);
    let base_addr = bb.sub32(rn_val, addr_off);
    let wb_addr = base_addr;

    stm_common(bb, reglist, rn_field, base_addr, wb_addr, bits::w_bit(op));
}

/// Store the registers named in `list` to consecutive words starting at
/// `base_addr`, write `wb_addr` back to Rn when requested, and store the
/// visible PC last when bit 15 is set.
pub fn stm_common(bb: &mut BasicBlock, list: u32, rn: u32, base_addr: Var, wb_addr: Var, w: bool)
    requires
        builder_ready(*old(bb)),
        old(bb).lb.cur_varid + 40 <= usize::MAX,
        defined_in(old(bb).data@, base_addr),
        defined_in(old(bb).data@, wb_addr),
    ensures
        builder_step(*old(bb), *final(bb)),
        final(bb).lb.cur_varid <= old(bb).lb.cur_varid + 40,
        final(bb).link.is_none(),
        w ==> writes_reg(*final(bb), rn),
        forall|i: u32| i < 15 && (list >> i) & 1 == 1 ==> stores_reg(*final(bb), i),
{
    let mut addr = base_addr;
    proof {
        lemma_small_masks();
    }
    let inc_val = bb.constant(32, 4);
    let ghost mid = *bb;
    proof {
        crate::block::lemma_builder_step_refl(mid);
    }
    let mut reg_idx: u32 = 0;
    while reg_idx <= 14
        invariant
            builder_step(mid, *bb),
            mid.lb.cur_varid + 39 <= usize::MAX,
            bb.lb.cur_varid <= mid.lb.cur_varid + 2 * reg_idx,
            reg_idx <= 15,
            defined_in(bb.data@, addr),
            defined_in(bb.data@, wb_addr),
            defined_in(bb.data@, inc_val),
            forall|i: u32| i < reg_idx && (list >> i) & 1 == 1 ==> stores_reg(*bb, i),
        decreases 15 - reg_idx,
    {
        proof {
            assert(((list & (1u32 << reg_idx)) != 0) == ((list >> reg_idx) & 1 == 1)) by (bit_vector)
                requires reg_idx < 32;
        }
        let ghost bb_head = *bb;
        if (list & (1u32 << reg_idx)) != 0 {
            let ghost pre = *bb;
            let reg_val = bb.read_reg(reg_idx);
            let ghost prem = *bb;
            bb.store32(addr, reg_val);
            let ghost pre2 = *bb;
            addr = bb.add32(addr, inc_val);
            proof {
                lemma_builder_step_trans(pre, prem, pre2);
                lemma_builder_step_trans(pre, pre2, *bb);
                lemma_builder_step_trans(mid, pre, *bb);
            }
        }
        proof {
            assert forall|i: u32| i < reg_idx + 1 && (list >> i) & 1 == 1 implies stores_reg(
                *bb,
                i,
            ) by {
                if i < reg_idx {
                    assert(stores_reg(bb_head, i));
                    let p = choose|p: int|
                        0 <= p < bb_head.data@.len() && match (#[trigger] bb_head.data@[p]).rh {
                            Operation::Memory(MemoryOp::Store32(_, v)) => v.kind
                                == VarKind::GuestReg(i),
                            _ => false,
                        };
                    assert(bb.data@[p] == bb_head.data@[p]) by {
                        assert(bb.data@.take(bb_head.data@.len() as int) == bb_head.data@);
                        assert(bb.data@.take(bb_head.data@.len() as int)[p] == bb.data@[p]);
                    }
                } else {
                    assert((list & (1u32 << reg_idx)) != 0);
                    let pn = bb.data@.len() - 2;
                    assert(match bb.data@[pn as int].rh {
                        Operation::Memory(MemoryOp::Store32(_, v)) => v.kind == VarKind::GuestReg(
                            i,
                        ),
                        _ => false,
                    });
                }
            }
        }
        reg_idx = reg_idx + 1;
    }

    let ghost bb_loop = *bb;
    if w {
        let ghost pre = *bb;
        bb.write_reg(rn, wb_addr);
        proof {
            lemma_builder_step_trans(mid, pre, *bb);
            assert(bb.data@[bb.data@.len() - 1].rh == Operation::Bind(
                BindOp::WriteGuestReg(rn, wb_addr),
            ));
        }
    }

    if (list & (1u32 << 15u32)) != 0 {
        let ghost pre = *bb;
        let pc_val = bb.constant(32, bb.read_exec_pc() as u64);
        let ghost pre2 = *bb;
        bb.store32(addr, pc_val);
        proof {
            lemma_builder_step_trans(pre, pre2, *bb);
            lemma_builder_step_trans(mid, pre, *bb);
        }
    }
    proof {
        lemma_builder_step_trans(*old(bb), mid, *bb);
        assert forall|i: u32| i < 15 && (list >> i) & 1 == 1 implies stores_reg(*bb, i) by {
            assert(stores_reg(bb_loop, i));
            let p = choose|p: int|
                0 <= p < bb_loop.data@.len() && match (#[trigger] bb_loop.data@[p]).rh {
                    Operation::Memory(MemoryOp::Store32(_, v)) => v.kind == VarKind::GuestReg(i),
                    _ => false,
                };
            assert(bb.data@[p] == bb_loop.data@[p]) by {
                assert(bb.data@.take(bb_loop.data@.len() as int) == bb_loop.data@);
                assert(bb.data@.take(bb_loop.data@.len() as int)[p] == bb.data@[p]);
            }
        }
        if w {
            assert(writes_reg(*bb, rn)) by {
                let p = choose|p: int|
                    0 <= p < bb_loop.data@.len() + 1 && match (#[trigger] bb.data@[p]).rh {
                        Operation::Bind(BindOp::WriteGuestReg(r, _)) => r == rn,
                        _ => false,
                    };
            }
        }
    }
}

} // verus!
