//! Lifting of data-processing instructions.

use vstd::prelude::*;

use crate::alu::{
    barrel_shift, carry_operand_ok, lsl_result_ok, spec_rot_imm, ShiftArgs,
};
use crate::bits;
use crate::block::{builder_ready, lift_step, BasicBlock};
use crate::branch::spec_exec_pc;
use crate::ir::{ArithOp, BindOp, FlagKind, Instruction, Operation, Var, VarKind};

verus! {

/// Some instruction of the block writes guest register `reg`.
pub open spec fn writes_reg(bb: BasicBlock, reg: u32) -> bool {
    exists|p: int|
        0 <= p < bb.data@.len() && match (#[trigger] bb.data@[p]).rh {
            Operation::Bind(BindOp::WriteGuestReg(r, _)) => r == reg,
            _ => false,
        }
}

/// Some instruction of the block writes the constant `value` to guest
/// register `reg`.
pub open spec fn writes_reg_const(bb: BasicBlock, reg: u32, value: u64) -> bool {
    exists|p: int|
        0 <= p < bb.data@.len() && match (#[trigger] bb.data@[p]).rh {
            Operation::Bind(BindOp::WriteGuestReg(r, v)) => r == reg && v.kind
                == VarKind::Constant(value),
            _ => false,
        }
}

/// An operand standing for register `reg` read at fetch address `pc`: the
/// constant visible PC when `reg` is the PC, else a variable bound by a
/// guest-register read somewhere in `d`.
pub open spec fn reg_operand_ok(d: Seq<Instruction>, reg: u32, pc: u32, x: Var) -> bool {
    if reg == 15 {
        x.kind == VarKind::Constant(spec_exec_pc(pc) as u64)
    } else {
        x.kind == VarKind::GuestReg(reg) && exists|p: int|
            0 <= p < d.len() && (#[trigger] d[p]).lh == Some(x) && d[p].rh == Operation::Bind(
                BindOp::ReadGuestReg(reg),
            )
    }
}

/// The tail of a lifted `MOV (immediate)`: a write of the rotated constant
/// to Rd, followed (with the S bit) by sign and zero tests of the operand
/// and writes of the negative, zero and shifter-carry flags.
pub open spec fn mov_imm_shape(pre: BasicBlock, post: BasicBlock, op: u32) -> bool {
    let d = post.data@;
    let n = d.len() as int;
    let rd = (op >> 12) & 0xf;
    let imm12 = op & 0xfff;
    if (op >> 20) & 1 == 1 {
        &&& n >= pre.data@.len() + 6
        &&& match d[n - 6].rh {
            Operation::Bind(BindOp::WriteGuestReg(r, v)) => {
                &&& r == rd
                &&& v.kind == VarKind::Constant(spec_rot_imm(imm12) as u64)
                &&& d[n - 5].rh == Operation::Arith(ArithOp::IsNegative(v))
                &&& d[n - 4].rh == Operation::Arith(ArithOp::IsZero(v))
            },
            _ => false,
        }
        &&& d[n - 5].lh.is_some()
        &&& d[n - 4].lh.is_some()
        &&& d[n - 3].rh == Operation::Bind(
            BindOp::WriteFlag(FlagKind::Negative, d[n - 5].lh.unwrap()),
        )
        &&& d[n - 2].rh == Operation::Bind(BindOp::WriteFlag(FlagKind::Zero, d[n - 4].lh.unwrap()))
        &&& match d[n - 1].rh {
            Operation::Bind(BindOp::WriteFlag(FlagKind::Carry, cv)) => carry_operand_ok(
                d,
                imm12,
                cv,
            ),
            _ => false,
        }
    } else {
        &&& n >= pre.data@.len() + 1
        &&& match d[n - 1].rh {
            Operation::Bind(BindOp::WriteGuestReg(r, v)) => r == rd && v.kind
                == VarKind::Constant(spec_rot_imm(imm12) as u64),
            _ => false,
        }
    }
}

/// Lift `MOV (immediate)`: write the rotated immediate to Rd; with the S bit
/// set, also update the negative, zero and shifter-carry flags.
#[verifier::rlimit(100)]
#[verifier::spinoff_prover]
pub fn mov_imm(bb: &mut BasicBlock, op: u32)
    requires
        builder_ready(*old(bb)),
        old(bb).lb.cur_varid + 64 <= usize::MAX,
        op >> 28 == 14,
        (op >> 12) & 0xf != 15,
    ensures
        lift_step(*old(bb), *final(bb)),
        final(bb).link.is_none(),
        writes_reg_const(*final(bb), (op >> 12) & 0xf, spec_rot_imm(op & 0xfff) as u64),
        mov_imm_shape(*old(bb), *final(bb), op),
{
    let (imm, c_out) = barrel_shift(bb, ShiftArgs::Imm { imm12: bits::imm12_bits(op) });
    let rd = bits::rd_bits(op);
    bb.write_reg(rd, imm);
    let ghost wp = bb.data@.len() - 1;
    if bits::s_bit(op) {
        let n = bb.is_negative(imm);
        let z = bb.is_zero(imm);
        bb.write_flag(FlagKind::Negative, n);
        bb.write_flag(FlagKind::Zero, z);
        bb.write_flag(FlagKind::Carry, c_out);
    }
    proof {
        assert(bb.data@[wp].rh == Operation::Bind(BindOp::WriteGuestReg(rd, imm)));
    }
}


/// Emit the four flag writes of a flag-setting subtraction: sign and zero
/// tests of the result, then writes of N, Z, C and V.
#[verifier::rlimit(100)]
#[verifier::spinoff_prover]
fn emit_sub_flags(bb: &mut BasicBlock, res: Var, c: Var, v: Var)
    requires
        builder_ready(*old(bb)),
        old(bb).lb.cur_varid + 8 <= usize::MAX,
        crate::block::defined_in(old(bb).data@, res),
        crate::block::defined_in(old(bb).data@, c),
        crate::block::defined_in(old(bb).data@, v),
    ensures
        crate::block::builder_step(*old(bb), *final(bb)),
        final(bb).lb.cur_varid <= old(bb).lb.cur_varid + 8,
        final(bb).data@.len() == old(bb).data@.len() + 6,
        ({
            let d = final(bb).data@;
            let n = d.len() as int;
            &&& d[n - 6].rh == Operation::Arith(ArithOp::IsNegative(res))
            &&& d[n - 5].rh == Operation::Arith(ArithOp::IsZero(res))
            &&& d[n - 6].lh.is_some()
            &&& d[n - 5].lh.is_some()
            &&& d[n - 4].rh == Operation::Bind(
                BindOp::WriteFlag(FlagKind::Negative, d[n - 6].lh.unwrap()),
            )
            &&& d[n - 3].rh == Operation::Bind(
                BindOp::WriteFlag(FlagKind::Zero, d[n - 5].lh.unwrap()),
            )
            &&& d[n - 2].rh == Operation::Bind(BindOp::WriteFlag(FlagKind::Carry, c))
            &&& d[n - 1].rh == Operation::Bind(BindOp::WriteFlag(FlagKind::Overflow, v))
        }),
{
    let ghost b0 = *bb;
    let n = bb.is_negative(res);
    let ghost b1 = *bb;
    let z = bb.is_zero(res);
    let ghost b2 = *bb;
    bb.write_flag(FlagKind::Negative, n);
    let ghost b3 = *bb;
    bb.write_flag(FlagKind::Zero, z);
    let ghost b4 = *bb;
    bb.write_flag(FlagKind::Carry, c);
    let ghost b5 = *bb;
    bb.write_flag(FlagKind::Overflow, v);
    proof {
        crate::block::lemma_builder_step_trans(b0, b1, b2);
        crate::block::lemma_builder_step_trans(b0, b2, b3);
        crate::block::lemma_builder_step_trans(b0, b3, b4);
        crate::block::lemma_builder_step_trans(b0, b4, b5);
        crate::block::lemma_builder_step_trans(b0, b5, *bb);
    }
}

/// The tail of a lifted `SUB (immediate)`: a flag-producing subtraction of
/// the Rn operand and the rotated constant, with the S bit four flag writes
/// of its outputs, and finally the write of the difference to Rd.
pub open spec fn sub_imm_shape(pre: BasicBlock, post: BasicBlock, op: u32) -> bool {
    let d = post.data@;
    let n = d.len() as int;
    let rd = (op >> 12) & 0xf;
    let rn = (op >> 16) & 0xf;
    let imm12 = op & 0xfff;
    let sp = if (op >> 20) & 1 == 1 {
        n - 8
    } else {
        n - 2
    };
    &&& n >= pre.data@.len() + (if (op >> 20) & 1 == 1 {
        8int
    } else {
        2int
    })
    &&& d[sp].lh.is_some()
    &&& d[sp].lh_c.is_some()
    &&& d[sp].lh_v.is_some()
    &&& match d[sp].rh {
        Operation::Arith(ArithOp::Sub32(x, y)) => reg_operand_ok(d, rn, pre.cur_pc.0, x) && y.kind
            == VarKind::Constant(spec_rot_imm(imm12) as u64),
        _ => false,
    }
    &&& d[n - 1].rh == Operation::Bind(BindOp::WriteGuestReg(rd, d[sp].lh.unwrap()))
    &&& ((op >> 20) & 1 == 1 ==> {
        &&& d[n - 7].rh == Operation::Arith(ArithOp::IsNegative(d[sp].lh.unwrap()))
        &&& d[n - 6].rh == Operation::Arith(ArithOp::IsZero(d[sp].lh.unwrap()))
        &&& d[n - 7].lh.is_some()
        &&& d[n - 6].lh.is_some()
        &&& d[n - 5].rh == Operation::Bind(
            BindOp::WriteFlag(FlagKind::Negative, d[n - 7].lh.unwrap()),
        )
        &&& d[n - 4].rh == Operation::Bind(BindOp::WriteFlag(FlagKind::Zero, d[n - 6].lh.unwrap()))
        &&& d[n - 3].rh == Operation::Bind(BindOp::WriteFlag(FlagKind::Carry, d[sp].lh_c.unwrap()))
        &&& d[n - 2].rh == Operation::Bind(
            BindOp::WriteFlag(FlagKind::Overflow, d[sp].lh_v.unwrap()),
        )
    })
}

/// Lift `SUB (immediate)`: write `Rn - imm` to Rd; with the S bit set, also
/// update all four arithmetic flags. A PC operand reads as the visible PC.
#[verifier::rlimit(100)]
#[verifier::spinoff_prover]
pub fn sub_imm(bb: &mut BasicBlock, op: u32)
    requires
        builder_ready(*old(bb)),
        old(bb).lb.cur_varid + 64 <= usize::MAX,
        op >> 28 == 14,
        (op >> 12) & 0xf != 15,
    ensures
        lift_step(*old(bb), *final(bb)),
        final(bb).link.is_none(),
        writes_reg(*final(bb), (op >> 12) & 0xf),
        sub_imm_shape(*old(bb), *final(bb), op),
{
    let (imm, _shift_c) = barrel_shift(bb, ShiftArgs::Imm { imm12: bits::imm12_bits(op) });

    let rn_field = bits::rn_bits(op);
    let rn = if rn_field == 15 {
        proof {
            crate::ir::lemma_small_masks();
        }
        let pc = bb.read_exec_pc();
        bb.constant(32, pc as u64)
    } else {
        bb.read_reg(rn_field)
    };
    let ghost rp = bb.data@.len() - 1;
    proof {
        if rn_field != 15 {
            assert(bb.data@[rp].lh == Some(rn));
        }
    }

    let (res, c, v) = bb.sub32f(rn, imm);
    let ghost sp = bb.data@.len() - 1;
    let ghost dsub = bb.data@;

    if bits::s_bit(op) {
        emit_sub_flags(bb, res, c, v);
        proof {
            assert(forall|i: int|
                0 <= i < dsub.len() ==> #[trigger] bb.data@[i] == dsub[i]) by {
                assert(bb.data@.take(dsub.len() as int) == dsub);
                assert(forall|i: int|
                    0 <= i < dsub.len() ==> bb.data@.take(dsub.len() as int)[i]
                        == #[trigger] bb.data@[i]);
            }
        }
    }
    let rd = bits::rd_bits(op);
    bb.write_reg(rd, res);
    proof {
        let d = bb.data@;
        let n = d.len() as int;
        assert(d[n - 1].rh == Operation::Bind(BindOp::WriteGuestReg(rd, res)));
        assert(d[sp as int].lh == Some(res) && d[sp as int].lh_c == Some(c) && d[sp as int].lh_v
            == Some(v));
        if rn_field != 15 {
            assert(d[rp].lh == Some(rn) && d[rp].rh == Operation::Bind(
                BindOp::ReadGuestReg(rn_field),
            ));
        }
        assert(reg_operand_ok(d, rn_field, old(bb).cur_pc.0, rn));
        if (op >> 20) & 1 == 1 {
            assert(sp as int == n - 8);
        } else {
            assert(sp as int == n - 2);
        }
    }
}

/// The tail of a lifted `MOV (register)`: a write to Rd of the shifted Rm
/// operand, followed (with the S bit) by sign and zero tests of the result
/// and writes of the negative, zero and shifter-carry flags.
pub open spec fn mov_reg_shape(pre: BasicBlock, post: BasicBlock, op: u32) -> bool {
    let d = post.data@;
    let n = d.len() as int;
    let rd = (op >> 12) & 0xf;
    let rm = op & 0xf;
    let imm5 = (op >> 7) & 0x1f;
    exists|res: Var, rmv: Var, cv: Var|
        {
            &&& #[trigger] lsl_result_ok(d, rmv, imm5, res, cv)
            &&& reg_operand_ok(d, rm, pre.cur_pc.0, rmv)
            &&& if (op >> 20) & 1 == 1 {
                &&& n >= pre.data@.len() + 6
                &&& d[n - 6].rh == Operation::Bind(BindOp::WriteGuestReg(rd, res))
                &&& d[n - 5].rh == Operation::Arith(ArithOp::IsNegative(res))
                &&& d[n - 4].rh == Operation::Arith(ArithOp::IsZero(res))
                &&& d[n - 5].lh.is_some()
                &&& d[n - 4].lh.is_some()
                &&& d[n - 3].rh == Operation::Bind(
                    BindOp::WriteFlag(FlagKind::Negative, d[n - 5].lh.unwrap()),
                )
                &&& d[n - 2].rh == Operation::Bind(
                    BindOp::WriteFlag(FlagKind::Zero, d[n - 4].lh.unwrap()),
                )
                &&& d[n - 1].rh == Operation::Bind(BindOp::WriteFlag(FlagKind::Carry, cv))
            } else {
                &&& n >= pre.data@.len() + 1
                &&& d[n - 1].rh == Operation::Bind(BindOp::WriteGuestReg(rd, res))
            }
        }
}

/// Lift `MOV (register)`: write the shifted Rm to Rd; with the S bit set,
/// also update the negative, zero and shifter-carry flags. Only a logical
/// shift left by an immediate is in the supported subset.
#[verifier::rlimit(100)]
#[verifier::spinoff_prover]
pub fn mov_reg(bb: &mut BasicBlock, op: u32)
    requires
        builder_ready(*old(bb)),
        old(bb).lb.cur_varid + 64 <= usize::MAX,
        op >> 28 == 14,
        (op >> 12) & 0xf != 15,
        (op >> 5) & 3 == 0,
    ensures
        lift_step(*old(bb), *final(bb)),
        final(bb).link.is_none(),
        writes_reg(*final(bb), (op >> 12) & 0xf),
        mov_reg_shape(*old(bb), *final(bb), op),
{
    let rm_field = bits::rm_bits(op);
    let rm = if rm_field == 15 {
        proof {
            crate::ir::lemma_small_masks();
        }
        let pc = bb.read_exec_pc();
        bb.constant(32, pc as u64)
    } else {
        bb.read_reg(rm_field)
    };
    let ghost rp = bb.data@.len() - 1;
    let ghost dpre = bb.data@;
    proof {
        if rm_field != 15 {
            assert(bb.data@[rp].lh == Some(rm));
        }
    }
    let (res, c) = barrel_shift(
        bb,
        ShiftArgs::Reg { rm, stype: bits::stype_bits(op), imm5: bits::imm5_bits(op) },
    );
    let ghost dbar = bb.data@;
    proof {
        if rm_field != 15 {
            assert(bb.data@[rp] == dpre[rp]) by {
                assert(bb.data@.take(dpre.len() as int) == dpre);
                assert(bb.data@.take(dpre.len() as int)[rp] == bb.data@[rp]);
            }
        }
    }

    let rd = bits::rd_bits(op);
    bb.write_reg(rd, res);
    let ghost wp = bb.data@.len() - 1;
    if bits::s_bit(op) {
        let n = bb.is_negative(res);
        let z = bb.is_zero(res);
        bb.write_flag(FlagKind::Negative, n);
        bb.write_flag(FlagKind::Zero, z);
        bb.write_flag(FlagKind::Carry, c);
    }
    proof {
        assert(bb.data@[wp].rh == Operation::Bind(BindOp::WriteGuestReg(rd, res)));
        assert(forall|i: int| 0 <= i < dbar.len() ==> #[trigger] bb.data@[i] == dbar[i]) by {
            assert(bb.data@.take(dbar.len() as int) == dbar);
            assert(forall|i: int|
                0 <= i < dbar.len() ==> bb.data@.take(dbar.len() as int)[i] == #[trigger] bb.data@[i]);
        }
        if rm_field != 15 {
            assert(bb.data@[rp].lh == Some(rm) && bb.data@[rp].rh == Operation::Bind(
                BindOp::ReadGuestReg(rm_field),
            ));
        }
        assert(reg_operand_ok(bb.data@, rm_field, old(bb).cur_pc.0, rm));
        if (op >> 20) & 1 == 1 {
            let d = bb.data@;
            let n = d.len() as int;
            assert(d[n - 5].rh == Operation::Arith(ArithOp::IsNegative(res)));
            assert(d[n - 4].rh == Operation::Arith(ArithOp::IsZero(res)));
            assert(d[n - 1].rh == Operation::Bind(BindOp::WriteFlag(FlagKind::Carry, c)));
        }
        let d = bb.data@;
        let n = d.len() as int;
        if (op >> 20) & 1 == 1 {
            assert(wp == n - 6);
        } else {
            assert(wp == n - 1);
        }
        let imm5 = (op >> 7) & 0x1f;
        assert(lsl_result_ok(bb.data@, rm, imm5, res, c)) by {
            if imm5 == 0 {
                let p = choose|p: int|
                    0 <= p < dbar.len() && (#[trigger] dbar[p]).lh == Some(c) && dbar[p].rh
                        == Operation::Bind(BindOp::ReadFlag(FlagKind::Carry));
                assert(bb.data@[p] == dbar[p]);
            } else {
                let p = choose|p: int|
                    0 <= p < dbar.len() && (#[trigger] dbar[p]).lh == Some(res) && dbar[p].lh_c
                        == Some(c) && match dbar[p].rh {
                        Operation::Arith(ArithOp::Lsl32(x, y)) => x == rm && y.kind
                            == VarKind::Constant(imm5 as u64),
                        _ => false,
                    };
                assert(bb.data@[p] == dbar[p]);
            }
        }
    }
}

/// The tail of a lifted `CMP (immediate)`: a flag-producing subtraction of
/// the Rn read and the rotated constant, sign and zero tests of the
/// difference, and writes of all four arithmetic flags.
pub open spec fn cmp_imm_shape(pre: BasicBlock, post: BasicBlock, op: u32) -> bool {
    let d = post.data@;
    let n = d.len() as int;
    let rn = (op >> 16) & 0xf;
    let imm12 = op & 0xfff;
    &&& n >= pre.data@.len() + 7
    &&& d[n - 7].lh.is_some()
    &&& d[n - 7].lh_c.is_some()
    &&& d[n - 7].lh_v.is_some()
    &&& match d[n - 7].rh {
        Operation::Arith(ArithOp::Sub32(x, y)) => reg_operand_ok(d, rn, pre.cur_pc.0, x) && y.kind
            == VarKind::Constant(spec_rot_imm(imm12) as u64),
        _ => false,
    }
    &&& d[n - 6].rh == Operation::Arith(ArithOp::IsNegative(d[n - 7].lh.unwrap()))
    &&& d[n - 5].rh == Operation::Arith(ArithOp::IsZero(d[n - 7].lh.unwrap()))
    &&& d[n - 6].lh.is_some()
    &&& d[n - 5].lh.is_some()
    &&& d[n - 4].rh == Operation::Bind(BindOp::WriteFlag(FlagKind::Negative, d[n - 6].lh.unwrap()))
    &&& d[n - 3].rh == Operation::Bind(BindOp::WriteFlag(FlagKind::Zero, d[n - 5].lh.unwrap()))
    &&& d[n - 2].rh == Operation::Bind(BindOp::WriteFlag(FlagKind::Carry, d[n - 7].lh_c.unwrap()))
    &&& d[n - 1].rh == Operation::Bind(
        BindOp::WriteFlag(FlagKind::Overflow, d[n - 7].lh_v.unwrap()),
    )
}

/// Lift `CMP (immediate)`: compute `Rn - imm` and update all four
/// arithmetic flags without writing a register.
#[verifier::rlimit(100)]
#[verifier::spinoff_prover]
pub fn cmp_imm(bb: &mut BasicBlock, op: u32)
    requires
        builder_ready(*old(bb)),
        old(bb).lb.cur_varid + 64 <= usize::MAX,
        op >> 28 == 14,
        (op >> 16) & 0xf != 15,
    ensures
        lift_step(*old(bb), *final(bb)),
        final(bb).link.is_none(),
        cmp_imm_shape(*old(bb), *final(bb), op),
{
    let rn = bb.read_reg(bits::rn_bits(op));
    let ghost rp = bb.data@.len() - 1;
    let (imm, _shift_c) = barrel_shift(bb, ShiftArgs::Imm { imm12: bits::imm12_bits(op) });

    let (res, c, v) = bb.sub32f(rn, imm);
    let n = bb.is_negative(res);
    let z = bb.is_zero(res);
    bb.write_flag(FlagKind::Negative, n);
    bb.write_flag(FlagKind::Zero, z);
    bb.write_flag(FlagKind::Carry, c);
    bb.write_flag(FlagKind::Overflow, v);
    proof {
        assert(bb.data@[rp].lh == Some(rn) && bb.data@[rp].rh == Operation::Bind(
            BindOp::ReadGuestReg((op >> 16) & 0xf),
        ));
    }
}

} // verus!
