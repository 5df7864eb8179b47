//! Common ALU operations: the barrel shifter used by data-processing
//! instructions.

use vstd::prelude::*;

use crate::block::{builder_ready, builder_step, defined_in, BasicBlock};
use crate::ir::{lemma_small_masks, ArithOp, BindOp, FlagKind, Operation, Var, VarKind};

verus! {

/// The kind of barrel-shifter operation encoded in an instruction.
#[derive(Clone, Copy, Debug, PartialEq, Eq, Structural)]
pub enum ShiftType {
    Lsl,
    Lsr,
    Asr,
    Ror,
}

impl ShiftType {
    /// Decode a two-bit shift-type field.
    pub fn from_bits(x: u32) -> (r: ShiftType)
        requires
            x < 4,
        ensures
            r == (if x == 0 {
                ShiftType::Lsl
            } else if x == 1 {
                ShiftType::Lsr
            } else if x == 2 {
                ShiftType::Asr
            } else {
                ShiftType::Ror
            }),
    {
        if x == 0 {
            ShiftType::Lsl
        } else if x == 1 {
            ShiftType::Lsr
        } else if x == 2 {
            ShiftType::Asr
        } else {
            ShiftType::Ror
        }
    }
}

/// The operands of a barrel-shifter operation.
pub enum ShiftArgs {
    /// Immediate shift: a rotated eight-bit immediate.
    Imm { imm12: u32 },
    /// Register shifted by an immediate amount.
    Reg { rm: Var, stype: u32, imm5: u32 },
    /// Register shifted by a register amount.
    Rsr { rm: Var, stype: u32, rs: u32 },
}

/// `x` rotated right by `r` bit positions (`r < 32`).
pub open spec fn spec_ror32(x: u32, r: u32) -> u32 {
    if r == 0 {
        x
    } else {
        (x >> r) | (x << ((32 - r) as u32))
    }
}

/// The value of a rotated-immediate operand: the low eight bits rotated
/// right by twice the four-bit rotation field.
pub open spec fn spec_rot_imm(imm12: u32) -> u32 {
    spec_ror32(imm12 & 0xff, (((imm12 & 0xf00) >> 8) * 2) as u32)
}

/// The shifter carry-out of a nonzero rotation: bit 31 of the result.
pub open spec fn spec_rot_carry(imm12: u32) -> u64 {
    if spec_rot_imm(imm12) & 0x8000_0000 != 0 {
        1u64
    } else {
        0u64
    }
}

/// The carry operand handed out by the barrel shifter is pinned: for a
/// nonzero rotation it is the constant bit 31 of the rotated value, else it
/// is bound by a read of the current carry flag.
pub open spec fn carry_operand_ok(d: Seq<crate::ir::Instruction>, imm12: u32, c: Var) -> bool {
    if (imm12 & 0xf00) >> 8 != 0 {
        c.kind == VarKind::Constant(spec_rot_carry(imm12))
    } else {
        exists|p: int|
            0 <= p < d.len() && (#[trigger] d[p]).lh == Some(c) && d[p].rh == Operation::Bind(
                BindOp::ReadFlag(FlagKind::Carry),
            )
    }
}

/// Lift a rotated-immediate operand.
///
/// Returns the constant operand value and the shifter's carry-out: the
/// current carry flag when the rotation is zero, else bit 31 of the value.
#[verifier::rlimit(60)]
pub fn rot_by_imm(bb: &mut BasicBlock, imm12: u32) -> (r: (Var, Var))
    requires
        builder_ready(*old(bb)),
        old(bb).lb.cur_varid + 2 <= usize::MAX,
    ensures
        builder_step(*old(bb), *final(bb)),
        final(bb).lb.cur_varid <= old(bb).lb.cur_varid + 2,
        defined_in(final(bb).data@, r.0),
        defined_in(final(bb).data@, r.1),
        r.0.width == 32,
        r.0.kind == VarKind::Constant(spec_rot_imm(imm12) as u64),
        r.1.width == 1,
        carry_operand_ok(final(bb).data@, imm12, r.1),
{
    let simm = (imm12 & 0xf00) >> 8;
    let imm8 = imm12 & 0xff;
    proof {
        assert((imm12 & 0xf00) >> 8 < 16) by (bit_vector);
    }
    let rot = simm * 2;
    let val = if rot == 0 {
        imm8
    } else {
        (imm8 >> rot) | (imm8 << (32 - rot))
    };
    proof {
        lemma_small_masks();
        assert(val <= 0xffff_ffff);
        assert(val as u64 <= 0xffff_ffffu64);
    }
    let res = bb.constant(32, val as u64);
    let ghost mid = *bb;
    let c_out = if simm == 0 {
        let c = bb.read_flag(FlagKind::Carry);
        proof {
            assert(bb.data@[bb.data@.len() - 1].lh == Some(c));
        }
        c
    } else {
        let carry: u64 = if (val & 0x8000_0000) != 0 {
            1
        } else {
            0
        };
        proof {
            lemma_small_masks();
        }
        bb.constant(1, carry)
    };
    proof {
        crate::block::lemma_builder_step_trans(*old(bb), mid, *bb);
    }
    (res, c_out)
}

/// Lift a register operand shifted by an immediate amount. Only logical
/// shift left is in the supported subset.
pub fn shift_by_imm(bb: &mut BasicBlock, rm: Var, stype: u32, simm: u32) -> (r: (Var, Var))
    requires
        builder_ready(*old(bb)),
        old(bb).lb.cur_varid + 4 <= usize::MAX,
        defined_in(old(bb).data@, rm),
        rm.width == 32,
        stype == 0,
        simm < 32,
    ensures
        builder_step(*old(bb), *final(bb)),
        final(bb).lb.cur_varid <= old(bb).lb.cur_varid + 4,
        defined_in(final(bb).data@, r.0),
        defined_in(final(bb).data@, r.1),
        r.0.width == 32,
        r.1.width == 1,
        lsl_result_ok(final(bb).data@, rm, simm, r.0, r.1),
{
    match ShiftType::from_bits(stype) {
        ShiftType::Lsl => do_lsl(bb, rm, simm),
        _ => {
            proof {
                assert(false);
            }
            do_lsl(bb, rm, simm)
        },
    }
}

/// The pair handed out by a shift-by-immediate is pinned: a zero amount
/// passes Rm through and binds the carry by a flag read; a nonzero amount
/// hands out the results of a flag-producing shift of Rm by the constant
/// amount.
pub open spec fn lsl_result_ok(
    d: Seq<crate::ir::Instruction>,
    rm: Var,
    simm: u32,
    res: Var,
    c: Var,
) -> bool {
    if simm == 0 {
        res == rm && exists|p: int|
            0 <= p < d.len() && (#[trigger] d[p]).lh == Some(c) && d[p].rh == Operation::Bind(
                BindOp::ReadFlag(FlagKind::Carry),
            )
    } else {
        exists|p: int|
            0 <= p < d.len() && (#[trigger] d[p]).lh == Some(res) && d[p].lh_c == Some(c)
                && match d[p].rh {
                Operation::Arith(ArithOp::Lsl32(x, y)) => x == rm && y.kind == VarKind::Constant(
                    simm as u64,
                ),
                _ => false,
            }
    }
}

/// Lift a logical shift left by an immediate amount. A zero amount passes
/// the operand through and reads the current carry; a nonzero amount emits a
/// flag-producing shift.
pub fn do_lsl(bb: &mut BasicBlock, rm: Var, simm: u32) -> (r: (Var, Var))
    requires
        builder_ready(*old(bb)),
        old(bb).lb.cur_varid + 4 <= usize::MAX,
        defined_in(old(bb).data@, rm),
        rm.width == 32,
        simm < 32,
    ensures
        builder_step(*old(bb), *final(bb)),
        final(bb).lb.cur_varid <= old(bb).lb.cur_varid + 4,
        defined_in(final(bb).data@, r.0),
        defined_in(final(bb).data@, r.1),
        r.0.width == 32,
        r.1.width == 1,
        lsl_result_ok(final(bb).data@, rm, simm, r.0, r.1),
{
    if simm == 0 {
        let c = bb.read_flag(FlagKind::Carry);
        proof {
            assert(bb.data@[bb.data@.len() - 1].lh == Some(c));
        }
        (rm, c)
    } else {
        proof {
            lemma_small_masks();
        }
        let simm_val = bb.constant(32, simm as u64);
        let ghost mid = *bb;
        let (res, c_out, _unused_v) = bb.lsl32f(rm, simm_val);
        proof {
            assert(bb.data@[bb.data@.len() - 1].lh == Some(res));
            crate::block::lemma_builder_step_trans(*old(bb), mid, *bb);
        }
        (res, c_out)
    }
}

/// Perform a barrel-shifter operation, returning the output value and the
/// shifter's carry-out.
pub fn barrel_shift(bb: &mut BasicBlock, args: ShiftArgs) -> (r: (Var, Var))
    requires
        builder_ready(*old(bb)),
        old(bb).lb.cur_varid + 4 <= usize::MAX,
        match args {
            ShiftArgs::Imm { .. } => true,
            ShiftArgs::Reg { rm, stype, imm5 } => defined_in(old(bb).data@, rm) && rm.width == 32
                && stype == 0 && imm5 < 32,
            ShiftArgs::Rsr { .. } => false,
        },
    ensures
        builder_step(*old(bb), *final(bb)),
        final(bb).lb.cur_varid <= old(bb).lb.cur_varid + 4,
        defined_in(final(bb).data@, r.0),
        defined_in(final(bb).data@, r.1),
        r.0.width == 32,
        r.1.width == 1,
        match args {
            ShiftArgs::Imm { imm12 } => r.0.kind == VarKind::Constant(spec_rot_imm(imm12) as u64)
                && carry_operand_ok(final(bb).data@, imm12, r.1),
            ShiftArgs::Reg { rm, stype: _, imm5 } => lsl_result_ok(
                final(bb).data@,
                rm,
                imm5,
                r.0,
                r.1,
            ),
            ShiftArgs::Rsr { .. } => true,
        },
{
    match args {
        ShiftArgs::Imm { imm12 } => rot_by_imm(bb, imm12),
        ShiftArgs::Reg { rm, stype, imm5 } => shift_by_imm(bb, rm, stype, imm5),
        ShiftArgs::Rsr { rm, stype: _, rs: _ } => {
            proof {
                assert(false);
            }
            do_lsl(bb, rm, 0)
        },
    }
}

} // verus!
