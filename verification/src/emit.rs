//! Host-instruction selection from the IR.
//!
//! The selector walks a block's IR in order and chooses one host instruction
//! sequence per IR instruction, using the storage map produced by the
//! register allocator. The result is a sequence of [`HostInst`] values; the
//! runtime outside this crate assembles them into executable bytes.

use vstd::prelude::*;

use crate::block::{defined_in, link_uses, BasicBlock, BlockLink};
use crate::ir::{ArithOp, BindOp, MemoryOp, Operation, VarKind};
use crate::lift::TranslateError;
use crate::regalloc::{allocate_registers, IntervalMap, StorageLoc};

verus! {

/// One selected x86-64 host instruction.
///
/// Register operands are hardware encodings. `r15` holds the guest register
/// file pointer, `r14` the arena base, so guest state and guest memory are
/// reached with base-plus-offset addressing. All 32-bit destination writes
/// zero-extend to 64 bits on the host.
#[derive(Clone, Copy, Debug, PartialEq, Eq, Structural)]
pub enum HostInst {
    /// `mov dst32, [r15 + idx*4]`: read guest register `idx`.
    ReadGuest { dst: u8, idx: u32 },
    /// `mov [r15 + idx*4], src32`: write guest register `idx`. Slot 15 is
    /// the guest PC, at byte offset 0x3C.
    WriteGuestReg { idx: u32, src: u8 },
    /// `mov [r15 + idx*4], imm`: write a constant to guest register `idx`.
    WriteGuestImm { idx: u32, imm: u32 },
    /// `mov dst32, [r14 + addr64]`: load from guest memory.
    LoadFast { dst: u8, addr: u8 },
    /// `mov [r14 + addr64], src32`: store a register to guest memory.
    StoreFastReg { addr: u8, src: u8 },
    /// `mov [r14 + addr64], imm`: store a constant to guest memory.
    StoreFastImm { addr: u8, imm: u32 },
    /// `mov dst64, src64`.
    MovReg { dst: u8, src: u8 },
    /// `add dst32, imm`.
    AddImm { dst: u8, imm: u32 },
    /// `sub dst32, imm`.
    SubImm { dst: u8, imm: u32 },
    /// `mov eax, code; ret`: leave the block with an exit code.
    RetCode { code: u32 },
    /// `setae dst8; movzx dst32, dst8`: materialize the subtraction's carry
    /// (no borrow) immediately after the producing `sub`.
    SetIfNoBorrow { dst: u8 },
    /// `seto dst8; movzx dst32, dst8`: materialize the signed overflow
    /// immediately after the producing instruction.
    SetIfOverflow { dst: u8 },
    /// `test src32, src32; sete dst8; movzx dst32, dst8`.
    TestSetZero { dst: u8, src: u8 },
    /// `shr dst32, imm` (after `mov dst, src` when they differ).
    ShrImm { dst: u8, imm: u32 },
    /// Read bit `bit` of the CPSR (via the reserved `r13` pointer) into a
    /// register as 0 or 1.
    ReadCpsrFlag { dst: u8, bit: u32 },
    /// Replace bit `bit` of the CPSR with the low bit of a register.
    WriteCpsrFlag { bit: u32, src: u8 },
    /// Replace bit `bit` of the CPSR with a constant bit.
    WriteCpsrFlagImm { bit: u32, imm: u32 },
    /// Write `taken` to the guest PC slot when the condition holds of the
    /// CPSR flags, else `not_taken`.
    WritePcCond { cond: crate::guest::Cond, taken: u32, not_taken: u32 },
}

/// The CPSR bit position of a condition flag.
pub open spec fn spec_flag_bit(kind: crate::ir::FlagKind) -> u32 {
    match kind {
        crate::ir::FlagKind::Negative => 31,
        crate::ir::FlagKind::Zero => 30,
        crate::ir::FlagKind::Carry => 29,
        crate::ir::FlagKind::Overflow => 28,
    }
}

/// The CPSR bit position of a condition flag.
fn flag_bit(kind: crate::ir::FlagKind) -> (r: u32)
    ensures
        r == spec_flag_bit(kind),
{
    match kind {
        crate::ir::FlagKind::Negative => 31,
        crate::ir::FlagKind::Zero => 30,
        crate::ir::FlagKind::Carry => 29,
        crate::ir::FlagKind::Overflow => 28,
    }
}



/// A constant-kind variable bound in the block is stored as its own value.
proof fn lemma_const_storage(bb: BasicBlock, v: crate::ir::Var, c: u64)
    requires
        bb.storage.wf(),
        bb.storage.maps_to(v, StorageLoc::Const(c)),
        defined_in(bb.data@, v),
        forall|u: crate::ir::Var|
            #[trigger] defined_in(bb.data@, u) ==> exists|k: int|
                0 <= k < bb.intervals@.len() && (#[trigger] bb.intervals@[k]).0 == u,
        forall|k: int|
            0 <= k < bb.intervals@.len() ==> match (#[trigger] bb.intervals@[k]).0.kind {
                VarKind::Constant(cv) => bb.storage.maps_to(
                    bb.intervals@[k].0,
                    StorageLoc::Const(cv),
                ),
                _ => true,
            },
    ensures
        match v.kind {
            VarKind::Constant(cv) => cv == c,
            _ => true,
        },
{
    match v.kind {
        VarKind::Constant(cv) => {
            let k = choose|k: int|
                0 <= k < bb.intervals@.len() && (#[trigger] bb.intervals@[k]).0 == v;
            assert(bb.storage.maps_to(v, StorageLoc::Const(cv)));
            crate::regalloc::lemma_maps_to_unique(
                bb.storage,
                v,
                StorageLoc::Const(c),
                StorageLoc::Const(cv),
            );
        },
        _ => {},
    }
}

impl BasicBlock {
    /// Recompile the block: rebuild liveness, color the variables onto host
    /// registers, and select one host instruction sequence per IR
    /// instruction, ending with the terminator lowering.
    ///
    /// The terminator writes the guest PC slot (and the link register for a
    /// branch-and-link) and leaves the block with exit code 0. Selection
    /// fails, leaving nothing half-done to run, on any operand/storage
    /// combination outside the supported subset.
    #[verifier::spinoff_prover]
    pub fn recompile(&mut self) -> (r: Result<(), TranslateError>)
        requires
            old(self).inv(),
            old(self).link.is_some(),
        ensures
            final(self).inv(),
            final(self).link == old(self).link,
            final(self).data@ == old(self).data@,
            final(self).base_pc == old(self).base_pc,
            final(self).guest_ops@ == old(self).guest_ops@,
            r.is_ok() ==> {
                let code = final(self).host_code@;
                &&& code.len() >= 2
                &&& code.last() == (HostInst::RetCode { code: 0 })
                &&& match old(self).link {
                    Some(BlockLink::Branch(t)) => match t.kind {
                        VarKind::Constant(cv) => cv <= 0xffff_ffff && code[code.len() - 2] == (
                        HostInst::WriteGuestImm { idx: 15, imm: cv as u32 }),
                        _ => true,
                    },
                    Some(BlockLink::BranchCond(cnd, t, f)) => match (t.kind, f.kind) {
                        (VarKind::Constant(tv), VarKind::Constant(fv)) => tv <= 0xffff_ffff && fv
                            <= 0xffff_ffff && code[code.len() - 2] == (HostInst::WritePcCond {
                            cond: cnd,
                            taken: tv as u32,
                            not_taken: fv as u32,
                        }),
                        _ => true,
                    },
                    Some(BlockLink::BranchAndLink(t, l)) => match (t.kind, l.kind) {
                        (VarKind::Constant(cv), VarKind::Constant(lv)) => cv <= 0xffff_ffff && lv
                            <= 0xffff_ffff && code[code.len() - 3] == (HostInst::WriteGuestImm {
                            idx: 14,
                            imm: lv as u32,
                        }) && code[code.len() - 2] == (HostInst::WriteGuestImm {
                            idx: 15,
                            imm: cv as u32,
                        }),
                        _ => true,
                    },
                    None => false,
                }
            },
    {
        let im = IntervalMap::from_block(self);
        self.intervals = im;
        let sm = match allocate_registers(&self.intervals) {
            Ok(s) => s,
            Err(e) => {
                return Err(e);
            },
        };
        self.storage = sm;

        let mut code: Vec<HostInst> = Vec::new();
        let ghost setup = *self;
        let n = self.data.len();
        let mut p: usize = 0;
        while p < n
            invariant
                n == self.data@.len(),
                *self == setup,
                setup.inv(),
                setup.link == old(self).link,
                setup.data@ == old(self).data@,
                setup.base_pc == old(self).base_pc,
                setup.guest_ops@ == old(self).guest_ops@,
                self.storage.wf(),
            decreases n - p,
        {
            let inst = self.data[p];
            match inst.rh {
                Operation::Bind(op) => match op {
                    BindOp::Const(_) => {},
                    BindOp::ReadGuestReg(idx) => {
                        let lh = match inst.lh {
                            Some(v) => v,
                            None => {
                                return Err(TranslateError::UnsupportedStorage);
                            },
                        };
                        match self.storage.get(&lh) {
                            Some(StorageLoc::Gpr(r)) => {
                                code.push(HostInst::ReadGuest { dst: r, idx });
                            },
                            _ => {
                                return Err(TranslateError::UnsupportedStorage);
                            },
                        }
                    },
                    BindOp::WriteGuestReg(idx, v) => {
                        match self.storage.get(&v) {
                            Some(StorageLoc::Gpr(r)) => {
                                code.push(HostInst::WriteGuestReg { idx, src: r });
                            },
                            Some(StorageLoc::Const(c)) => {
                                if c > 0xffff_ffff {
                                    return Err(TranslateError::UnsupportedStorage);
                                }
                                code.push(HostInst::WriteGuestImm { idx, imm: c as u32 });
                            },
                            None => {
                                return Err(TranslateError::UnsupportedStorage);
                            },
                        }
                    },
                    BindOp::ReadFlag(kind) => {
                        let lh = match inst.lh {
                            Some(v) => v,
                            None => {
                                return Err(TranslateError::UnsupportedStorage);
                            },
                        };
                        match self.storage.get(&lh) {
                            Some(StorageLoc::Gpr(r)) => {
                                code.push(HostInst::ReadCpsrFlag { dst: r, bit: flag_bit(kind) });
                            },
                            _ => {
                                return Err(TranslateError::UnsupportedStorage);
                            },
                        }
                    },
                    BindOp::WriteFlag(kind, v) => {
                        match self.storage.get(&v) {
                            Some(StorageLoc::Gpr(r)) => {
                                code.push(HostInst::WriteCpsrFlag { bit: flag_bit(kind), src: r });
                            },
                            Some(StorageLoc::Const(c)) => {
                                if c > 1 {
                                    return Err(TranslateError::UnsupportedStorage);
                                }
                                code.push(HostInst::WriteCpsrFlagImm {
                                    bit: flag_bit(kind),
                                    imm: c as u32,
                                });
                            },
                            None => {
                                return Err(TranslateError::UnsupportedStorage);
                            },
                        }
                    },
                },
                Operation::Memory(op) => match op {
                    MemoryOp::Store32(addr, val) => {
                        match (self.storage.get(&addr), self.storage.get(&val)) {
                            (Some(StorageLoc::Gpr(a)), Some(StorageLoc::Gpr(v))) => {
                                code.push(HostInst::StoreFastReg { addr: a, src: v });
                            },
                            (Some(StorageLoc::Gpr(a)), Some(StorageLoc::Const(c))) => {
                                if c > 0xffff_ffff {
                                    return Err(TranslateError::UnsupportedStorage);
                                }
                                code.push(HostInst::StoreFastImm { addr: a, imm: c as u32 });
                            },
                            _ => {
                                return Err(TranslateError::UnsupportedStorage);
                            },
                        }
                    },
                    MemoryOp::Load32(addr) => {
                        let lh = match inst.lh {
                            Some(v) => v,
                            None => {
                                return Err(TranslateError::UnsupportedStorage);
                            },
                        };
                        match (self.storage.get(&lh), self.storage.get(&addr)) {
                            (Some(StorageLoc::Gpr(dst)), Some(StorageLoc::Gpr(a))) => {
                                code.push(HostInst::LoadFast { dst, addr: a });
                            },
                            _ => {
                                return Err(TranslateError::UnsupportedStorage);
                            },
                        }
                    },
                },
                Operation::Arith(op) => match op {
                    ArithOp::Sub32(x, y) => {
                        let lh = match inst.lh {
                            Some(v) => v,
                            None => {
                                return Err(TranslateError::UnsupportedStorage);
                            },
                        };
                        match (self.storage.get(&lh), self.storage.get(&x), self.storage.get(&y)) {
                            (
                                Some(StorageLoc::Gpr(d)),
                                Some(StorageLoc::Gpr(xr)),
                                Some(StorageLoc::Const(c)),
                            ) => {
                                if c > 0xffff_ffff {
                                    return Err(TranslateError::UnsupportedStorage);
                                }
                                if d != xr {
                                    code.push(HostInst::MovReg { dst: d, src: xr });
                                }
                                code.push(HostInst::SubImm { dst: d, imm: c as u32 });
                                if let Some(cv) = inst.lh_c {
                                    match self.storage.get(&cv) {
                                        Some(StorageLoc::Gpr(g)) => {
                                            code.push(HostInst::SetIfNoBorrow { dst: g });
                                        },
                                        _ => {
                                            return Err(TranslateError::UnsupportedStorage);
                                        },
                                    }
                                }
                                if let Some(vv) = inst.lh_v {
                                    match self.storage.get(&vv) {
                                        Some(StorageLoc::Gpr(g)) => {
                                            code.push(HostInst::SetIfOverflow { dst: g });
                                        },
                                        _ => {
                                            return Err(TranslateError::UnsupportedStorage);
                                        },
                                    }
                                }
                            },
                            _ => {
                                return Err(TranslateError::UnsupportedStorage);
                            },
                        }
                    },
                    ArithOp::Add32(x, y) => {
                        let lh = match inst.lh {
                            Some(v) => v,
                            None => {
                                return Err(TranslateError::UnsupportedStorage);
                            },
                        };
                        if inst.lh_c.is_some() || inst.lh_v.is_some() {
                            return Err(TranslateError::UnsupportedStorage);
                        }
                        match (self.storage.get(&lh), self.storage.get(&x), self.storage.get(&y)) {
                            (
                                Some(StorageLoc::Gpr(d)),
                                Some(StorageLoc::Gpr(xr)),
                                Some(StorageLoc::Const(c)),
                            ) => {
                                if c > 0xffff_ffff {
                                    return Err(TranslateError::UnsupportedStorage);
                                }
                                if d != xr {
                                    code.push(HostInst::MovReg { dst: d, src: xr });
                                }
                                code.push(HostInst::AddImm { dst: d, imm: c as u32 });
                            },
                            _ => {
                                return Err(TranslateError::UnsupportedStorage);
                            },
                        }
                    },
                    ArithOp::IsNegative(x) => {
                        let lh = match inst.lh {
                            Some(v) => v,
                            None => {
                                return Err(TranslateError::UnsupportedStorage);
                            },
                        };
                        match (self.storage.get(&lh), self.storage.get(&x)) {
                            (Some(StorageLoc::Gpr(d)), Some(StorageLoc::Gpr(xr))) => {
                                if d != xr {
                                    code.push(HostInst::MovReg { dst: d, src: xr });
                                }
                                code.push(HostInst::ShrImm { dst: d, imm: 31 });
                            },
                            _ => {
                                return Err(TranslateError::UnsupportedStorage);
                            },
                        }
                    },
                    ArithOp::IsZero(x) => {
                        let lh = match inst.lh {
                            Some(v) => v,
                            None => {
                                return Err(TranslateError::UnsupportedStorage);
                            },
                        };
                        match (self.storage.get(&lh), self.storage.get(&x)) {
                            (Some(StorageLoc::Gpr(d)), Some(StorageLoc::Gpr(xr))) => {
                                code.push(HostInst::TestSetZero { dst: d, src: xr });
                            },
                            _ => {
                                return Err(TranslateError::UnsupportedStorage);
                            },
                        }
                    },
                    _ => {
                        return Err(TranslateError::UnsupportedStorage);
                    },
                },
            }
            p = p + 1;
        }

        // Terminator lowering: write the guest PC (and link register), then
        // leave with exit code 0.
        match self.link {
            Some(link) => match link {
                BlockLink::Branch(addr) => match self.storage.get(&addr) {
                    Some(StorageLoc::Const(c)) => {
                        if c > 0xffff_ffff {
                            return Err(TranslateError::UnsupportedStorage);
                        }
                        proof {
                            assert(link_uses(link, addr));
                            assert(defined_in(self.data@, addr));
                            lemma_const_storage(*self, addr, c);
                        }
                        code.push(HostInst::WriteGuestImm { idx: 15, imm: c as u32 });
                        code.push(HostInst::RetCode { code: 0 });
                    },
                    _ => {
                        return Err(TranslateError::UnsupportedStorage);
                    },
                },
                BlockLink::BranchAndLink(addr, new_lr) => match (
                    self.storage.get(&addr),
                    self.storage.get(&new_lr),
                ) {
                    (Some(StorageLoc::Const(c)), Some(StorageLoc::Const(l))) => {
                        if c > 0xffff_ffff || l > 0xffff_ffff {
                            return Err(TranslateError::UnsupportedStorage);
                        }
                        proof {
                            assert(link_uses(link, addr));
                            assert(link_uses(link, new_lr));
                            assert(defined_in(self.data@, addr));
                            assert(defined_in(self.data@, new_lr));
                            lemma_const_storage(*self, addr, c);
                            lemma_const_storage(*self, new_lr, l);
                        }
                        code.push(HostInst::WriteGuestImm { idx: 14, imm: l as u32 });
                        code.push(HostInst::WriteGuestImm { idx: 15, imm: c as u32 });
                        code.push(HostInst::RetCode { code: 0 });
                    },
                    _ => {
                        return Err(TranslateError::UnsupportedStorage);
                    },
                },
                BlockLink::BranchCond(cnd, t, f) => match (
                    self.storage.get(&t),
                    self.storage.get(&f),
                ) {
                    (Some(StorageLoc::Const(tc)), Some(StorageLoc::Const(fc))) => {
                        if tc > 0xffff_ffff || fc > 0xffff_ffff {
                            return Err(TranslateError::UnsupportedStorage);
                        }
                        proof {
                            assert(link_uses(link, t));
                            assert(link_uses(link, f));
                            assert(defined_in(self.data@, t));
                            assert(defined_in(self.data@, f));
                            lemma_const_storage(*self, t, tc);
                            lemma_const_storage(*self, f, fc);
                        }
                        code.push(HostInst::WritePcCond {
                            cond: cnd,
                            taken: tc as u32,
                            not_taken: fc as u32,
                        });
                        code.push(HostInst::RetCode { code: 0 });
                    },
                    _ => {
                        return Err(TranslateError::UnsupportedStorage);
                    },
                },
            },
            None => {
                proof {
                    assert(false);
                }
            },
        }

        self.host_code = code;
        Ok(())
    }
}

} // verus!

