//! The intermediate representation: variables, constants, operations and
//! instructions, in static single assignment form within one basic block.

use vstd::prelude::*;

use crate::guest;

verus! {

/// Type used to identify a variable in the IR.
pub type VarId = usize;

/// The kind of a variable in the IR.
#[derive(Clone, Copy, Debug, PartialEq, Eq, Structural)]
pub enum VarKind {
    /// Typical block-local variable.
    Local,
    /// A constant value.
    Constant(u64),
    /// The value of a guest register.
    GuestReg(guest::RegIdx),
}

/// An abstract value in the IR.
#[derive(Clone, Copy, Debug, PartialEq, Eq, Structural)]
pub struct Var {
    /// Unique identifier for this variable within its block.
    pub id: VarId,
    /// The width of this variable in bits.
    pub width: usize,
    /// The kind of variable.
    pub kind: VarKind,
}

impl Var {
    fn new(id: usize, width: usize, kind: VarKind) -> (r: Var)
        ensures
            r == (Var { id, width, kind }),
    {
        Var { id, width, kind }
    }

    /// A fresh block-local variable.
    pub fn new_local(id: usize, width: usize) -> (r: Var)
        ensures
            r == (Var { id, width, kind: VarKind::Local }),
    {
        Var::new(id, width, VarKind::Local)
    }

    /// A fresh constant-valued variable.
    pub fn new_constant(id: usize, width: usize, val: u64) -> (r: Var)
        ensures
            r == (Var { id, width, kind: VarKind::Constant(val) }),
    {
        Var::new(id, width, VarKind::Constant(val))
    }

    /// A fresh variable holding the value of guest register `reg`.
    pub fn new_guestreg(id: usize, reg: guest::RegIdx) -> (r: Var)
        ensures
            r == (Var { id, width: 32, kind: VarKind::GuestReg(reg) }),
    {
        Var::new(id, 32, VarKind::GuestReg(reg))
    }
}

/// The all-ones mask of the low `width` bits (all 64 bits when `width >= 64`).
pub open spec fn width_mask(width: usize) -> u64 {
    if width >= 64 {
        0xffff_ffff_ffff_ffffu64
    } else {
        ((1u64 << width) - 1) as u64
    }
}

/// Small facts about the width masks the lifter uses, which the default
/// solver cannot see through the bitwise operators.
pub proof fn lemma_small_masks()
    ensures
        width_mask(32) == 0xffff_ffffu64,
        width_mask(1) == 1u64,
        forall|v: u64| v <= 0xffff_ffff ==> #[trigger] (v & 0xffff_ffffu64) == v,
        0u64 & 1u64 == 0u64,
        1u64 & 1u64 == 1u64,
{
    assert((1u64 << 32u64) - 1 == 0xffff_ffffu64 && (1u64 << 1u64) - 1 == 1u64 && 0u64 & 1u64
        == 0u64 && 1u64 & 1u64 == 1u64) by (bit_vector);
    assert(width_mask(32) == ((1u64 << 32usize) - 1) as u64);
    assert((1u64 << 32usize) == (1u64 << 32u64)) by (bit_vector);
    assert(width_mask(1) == ((1u64 << 1usize) - 1) as u64);
    assert((1u64 << 1usize) == (1u64 << 1u64)) by (bit_vector);
    assert forall|v: u64| v <= 0xffff_ffff implies #[trigger] (v & 0xffff_ffffu64) == v by {
        assert(v <= 0xffff_ffff ==> (v & 0xffff_ffffu64) == v) by (bit_vector);
    }
}

/// A constant value in the IR, masked to its width.
#[derive(Clone, Copy, Debug, PartialEq, Eq, Structural)]
pub struct Constant {
    /// The width of this value in bits.
    pub width: usize,
    /// The value of this constant.
    pub value: u64,
}

impl Constant {
    /// Build a constant, masking `value` to the low `width` bits.
    pub fn new(width: usize, value: u64) -> (r: Constant)
        ensures
            r.width == width,
            r.value == value & width_mask(width),
    {
        let masked: u64 = if width >= 64 {
            proof {
                assert(value & 0xffff_ffff_ffff_ffffu64 == value) by (bit_vector);
            }
            value
        } else {
            let w = width as u64;
            proof {
                assert(w < 64 ==> 1u64 << w >= 1) by (bit_vector);
            }
            value & ((1u64 << w) - 1)
        };
        Constant { width, value: masked }
    }
}

/// A guest condition flag.
#[derive(Clone, Copy, Debug, PartialEq, Eq, Structural)]
pub enum FlagKind {
    Negative,
    Zero,
    Carry,
    Overflow,
}

/// A condition flag together with an optional known value.
#[derive(Clone, Copy, Debug, PartialEq, Eq, Structural)]
pub struct Flag {
    /// Which flag this is.
    pub kind: FlagKind,
    /// The value of the flag, when known.
    pub value: Option<bool>,
}

/// Guest memory operations.
#[derive(Clone, Copy, Debug, PartialEq, Eq, Structural)]
pub enum MemoryOp {
    Load32(Var),
    Store32(Var, Var),
}

/// Arithmetic and logical operations.
#[derive(Clone, Copy, Debug, PartialEq, Eq, Structural)]
pub enum ArithOp {
    Add32(Var, Var),
    Sub32(Var, Var),
    And32(Var, Var),
    Or32(Var, Var),
    Shl32(Var, Var),
    Shr32(Var, Var),
    Lsl32(Var, Var),
    IsZero(Var),
    IsNegative(Var),
}

/// Operations binding IR variables to guest state or constants.
#[derive(Clone, Copy, Debug, PartialEq, Eq, Structural)]
pub enum BindOp {
    Const(Constant),
    ReadGuestReg(guest::RegIdx),
    WriteGuestReg(guest::RegIdx, Var),
    ReadFlag(FlagKind),
    WriteFlag(FlagKind, Var),
}

/// Control-transfer operations.
#[derive(Clone, Copy, Debug, PartialEq, Eq, Structural)]
pub enum BranchOp {
    Branch(Var),
    BranchCond(guest::Cond, Var, Var),
}

/// The right-hand side of an IR instruction.
#[derive(Clone, Copy, Debug, PartialEq, Eq, Structural)]
pub enum Operation {
    Memory(MemoryOp),
    Arith(ArithOp),
    Bind(BindOp),
}

/// One IR instruction: an operation and the variables its results bind to.
#[derive(Clone, Copy, Debug, PartialEq, Eq, Structural)]
pub struct Instruction {
    /// The guest opcode this instruction was lifted from.
    pub guest_op: u32,
    /// The primary result variable, when the operation produces a value.
    pub lh: Option<Var>,
    /// The variable bound to the operation's carry output, when claimed.
    pub lh_c: Option<Var>,
    /// The variable bound to the operation's overflow output, when claimed.
    pub lh_v: Option<Var>,
    /// The operation itself.
    pub rh: Operation,
}

/// The variables an operation reads.
pub open spec fn spec_used_vars(op: Operation) -> Seq<Var> {
    match op {
        Operation::Bind(b) => match b {
            BindOp::WriteGuestReg(_, v) => seq![v],
            BindOp::WriteFlag(_, v) => seq![v],
            BindOp::Const(_) => seq![],
            BindOp::ReadGuestReg(_) => seq![],
            BindOp::ReadFlag(_) => seq![],
        },
        Operation::Memory(m) => match m {
            MemoryOp::Load32(v) => seq![v],
            MemoryOp::Store32(a, v) => seq![a, v],
        },
        Operation::Arith(a) => match a {
            ArithOp::Add32(x, y) => seq![x, y],
            ArithOp::Sub32(x, y) => seq![x, y],
            ArithOp::And32(x, y) => seq![x, y],
            ArithOp::Or32(x, y) => seq![x, y],
            ArithOp::Shl32(x, y) => seq![x, y],
            ArithOp::Shr32(x, y) => seq![x, y],
            ArithOp::Lsl32(x, y) => seq![x, y],
            ArithOp::IsZero(x) => seq![x],
            ArithOp::IsNegative(x) => seq![x],
        },
    }
}

/// True when instruction `i` reads variable `v`.
pub open spec fn inst_uses(i: Instruction, v: Var) -> bool {
    spec_used_vars(i.rh).contains(v)
}

/// The variable bound by result slot `s` of instruction `i` (0 = primary,
/// 1 = carry, 2 = overflow).
pub open spec fn def_slot(i: Instruction, s: int) -> Option<Var> {
    if s == 0 {
        i.lh
    } else if s == 1 {
        i.lh_c
    } else {
        i.lh_v
    }
}

/// Within one instruction, occupied result slots carry strictly increasing
/// variable ids (the builder allocates them in slot order).
pub open spec fn inst_slots_ordered(i: Instruction) -> bool {
    forall|s1: int, s2: int|
        0 <= s1 < s2 < 3 && (#[trigger] def_slot(i, s1)).is_some() && (#[trigger] def_slot(
            i,
            s2,
        )).is_some() ==> def_slot(i, s1).unwrap().id < def_slot(i, s2).unwrap().id
}

/// True when instruction `i` binds variable `v` in one of its result slots.
pub open spec fn inst_defines(i: Instruction, v: Var) -> bool {
    i.lh == Some(v) || i.lh_c == Some(v) || i.lh_v == Some(v)
}

impl Instruction {
    /// The variables this instruction reads on its right-hand side.
    pub fn get_used_vars(&self) -> (r: Vec<Var>)
        ensures
            r@ == spec_used_vars(self.rh),
    {
        let mut vars: Vec<Var> = Vec::new();
        match self.rh {
            Operation::Bind(ref op) => match op {
                BindOp::WriteGuestReg(_, v) => {
                    vars.push(*v);
                    proof {
                        assert(vars@ =~= spec_used_vars(self.rh));
                    }
                },
                BindOp::WriteFlag(_, v) => {
                    vars.push(*v);
                    proof {
                        assert(vars@ =~= spec_used_vars(self.rh));
                    }
                },
                _ => {
                    proof {
                        assert(vars@ =~= spec_used_vars(self.rh));
                    }
                },
            },
            Operation::Memory(ref op) => match op {
                MemoryOp::Load32(v) => {
                    vars.push(*v);
                    proof {
                        assert(vars@ =~= spec_used_vars(self.rh));
                    }
                },
                MemoryOp::Store32(a, v) => {
                    vars.push(*a);
                    vars.push(*v);
                    proof {
                        assert(vars@ =~= spec_used_vars(self.rh));
                    }
                },
            },
            Operation::Arith(ref op) => match op {
                ArithOp::Lsl32(x, y) | ArithOp::Add32(x, y) | ArithOp::Sub32(x, y)
                    | ArithOp::And32(x, y) | ArithOp::Or32(x, y) | ArithOp::Shl32(x, y)
                    | ArithOp::Shr32(x, y) => {
                    vars.push(*x);
                    vars.push(*y);
                    proof {
                        assert(vars@ =~= spec_used_vars(self.rh));
                    }
                },
                ArithOp::IsNegative(x) | ArithOp::IsZero(x) => {
                    vars.push(*x);
                    proof {
                        assert(vars@ =~= spec_used_vars(self.rh));
                    }
                },
            },
        }
        vars
    }

    /// A constant-bind instruction: `v := c`.
    pub fn constant(opcd: u32, v: Var, c: Constant) -> (r: Instruction)
        ensures
            r == (Instruction {
                guest_op: opcd,
                lh: Some(v),
                lh_c: None,
                lh_v: None,
                rh: Operation::Bind(BindOp::Const(c)),
            }),
    {
        Instruction {
            lh: Some(v),
            lh_c: None,
            lh_v: None,
            rh: Operation::Bind(BindOp::Const(c)),
            guest_op: opcd,
        }
    }

    /// A guest-register read: `v := r<reg>`.
    pub fn read_reg(opcd: u32, v: Var, reg: guest::RegIdx) -> (r: Instruction)
        ensures
            r == (Instruction {
                guest_op: opcd,
                lh: Some(v),
                lh_c: None,
                lh_v: None,
                rh: Operation::Bind(BindOp::ReadGuestReg(reg)),
            }),
    {
        Instruction {
            lh: Some(v),
            lh_c: None,
            lh_v: None,
            rh: Operation::Bind(BindOp::ReadGuestReg(reg)),
            guest_op: opcd,
        }
    }

    /// A guest-register write: `r<reg> := val`.
    pub fn write_reg(opcd: u32, reg: guest::RegIdx, val: Var) -> (r: Instruction)
        ensures
            r == (Instruction {
                guest_op: opcd,
                lh: None,
                lh_c: None,
                lh_v: None,
                rh: Operation::Bind(BindOp::WriteGuestReg(reg, val)),
            }),
    {
        Instruction {
            lh: None,
            lh_c: None,
            lh_v: None,
            rh: Operation::Bind(BindOp::WriteGuestReg(reg, val)),
            guest_op: opcd,
        }
    }

    /// A flag read: `v := flag<kind>`.
    pub fn read_flag(opcd: u32, v: Var, kind: FlagKind) -> (r: Instruction)
        ensures
            r == (Instruction {
                guest_op: opcd,
                lh: Some(v),
                lh_c: None,
                lh_v: None,
                rh: Operation::Bind(BindOp::ReadFlag(kind)),
            }),
    {
        Instruction {
            lh: Some(v),
            lh_c: None,
            lh_v: None,
            rh: Operation::Bind(BindOp::ReadFlag(kind)),
            guest_op: opcd,
        }
    }

    /// A flag write: `flag<kind> := val`.
    pub fn write_flag(opcd: u32, kind: FlagKind, val: Var) -> (r: Instruction)
        ensures
            r == (Instruction {
                guest_op: opcd,
                lh: None,
                lh_c: None,
                lh_v: None,
                rh: Operation::Bind(BindOp::WriteFlag(kind, val)),
            }),
    {
        Instruction {
            lh: None,
            lh_c: None,
            lh_v: None,
            rh: Operation::Bind(BindOp::WriteFlag(kind, val)),
            guest_op: opcd,
        }
    }

    /// A 32-bit load: `v := [addr]`.
    pub fn load32(opcd: u32, v: Var, addr: Var) -> (r: Instruction)
        ensures
            r == (Instruction {
                guest_op: opcd,
                lh: Some(v),
                lh_c: None,
                lh_v: None,
                rh: Operation::Memory(MemoryOp::Load32(addr)),
            }),
    {
        Instruction {
            lh: Some(v),
            lh_c: None,
            lh_v: None,
            rh: Operation::Memory(MemoryOp::Load32(addr)),
            guest_op: opcd,
        }
    }

    /// A 32-bit store: `[addr] := val`.
    pub fn store32(opcd: u32, addr: Var, val: Var) -> (r: Instruction)
        ensures
            r == (Instruction {
                guest_op: opcd,
                lh: None,
                lh_c: None,
                lh_v: None,
                rh: Operation::Memory(MemoryOp::Store32(addr, val)),
            }),
    {
        Instruction {
            lh: None,
            lh_c: None,
            lh_v: None,
            rh: Operation::Memory(MemoryOp::Store32(addr, val)),
            guest_op: opcd,
        }
    }

    /// A 32-bit addition: `dst := x + y`.
    pub fn add32(opcd: u32, dst: Var, x: Var, y: Var) -> (r: Instruction)
        ensures
            r == (Instruction {
                guest_op: opcd,
                lh: Some(dst),
                lh_c: None,
                lh_v: None,
                rh: Operation::Arith(ArithOp::Add32(x, y)),
            }),
    {
        Instruction {
            lh: Some(dst),
            lh_c: None,
            lh_v: None,
            rh: Operation::Arith(ArithOp::Add32(x, y)),
            guest_op: opcd,
        }
    }

    /// A 32-bit subtraction: `dst := x - y`.
    pub fn sub32(opcd: u32, dst: Var, x: Var, y: Var) -> (r: Instruction)
        ensures
            r == (Instruction {
                guest_op: opcd,
                lh: Some(dst),
                lh_c: None,
                lh_v: None,
                rh: Operation::Arith(ArithOp::Sub32(x, y)),
            }),
    {
        Instruction {
            lh: Some(dst),
            lh_c: None,
            lh_v: None,
            rh: Operation::Arith(ArithOp::Sub32(x, y)),
            guest_op: opcd,
        }
    }

    /// A flag-setting 32-bit subtraction: `dst, c, v := x - y`.
    pub fn sub32f(opcd: u32, dst: Var, c: Var, v: Var, x: Var, y: Var) -> (r: Instruction)
        ensures
            r == (Instruction {
                guest_op: opcd,
                lh: Some(dst),
                lh_c: Some(c),
                lh_v: Some(v),
                rh: Operation::Arith(ArithOp::Sub32(x, y)),
            }),
    {
        Instruction {
            lh: Some(dst),
            lh_c: Some(c),
            lh_v: Some(v),
            rh: Operation::Arith(ArithOp::Sub32(x, y)),
            guest_op: opcd,
        }
    }

    /// A 32-bit logical shift left: `dst := x << y`.
    pub fn lsl32(opcd: u32, dst: Var, x: Var, y: Var) -> (r: Instruction)
        ensures
            r == (Instruction {
                guest_op: opcd,
                lh: Some(dst),
                lh_c: None,
                lh_v: None,
                rh: Operation::Arith(ArithOp::Lsl32(x, y)),
            }),
    {
        Instruction {
            lh: Some(dst),
            lh_c: None,
            lh_v: None,
            rh: Operation::Arith(ArithOp::Lsl32(x, y)),
            guest_op: opcd,
        }
    }

    /// A flag-setting 32-bit logical shift left: `dst, c, v := x << y`.
    pub fn lsl32f(opcd: u32, dst: Var, c: Var, v: Var, x: Var, y: Var) -> (r: Instruction)
        ensures
            r == (Instruction {
                guest_op: opcd,
                lh: Some(dst),
                lh_c: Some(c),
                lh_v: Some(v),
                rh: Operation::Arith(ArithOp::Lsl32(x, y)),
            }),
    {
        Instruction {
            lh: Some(dst),
            lh_c: Some(c),
            lh_v: Some(v),
            rh: Operation::Arith(ArithOp::Lsl32(x, y)),
            guest_op: opcd,
        }
    }

    /// A zero test: `dst := (x == 0)`.
    pub fn is_zero(opcd: u32, dst: Var, x: Var) -> (r: Instruction)
        ensures
            r == (Instruction {
                guest_op: opcd,
                lh: Some(dst),
                lh_c: None,
                lh_v: None,
                rh: Operation::Arith(ArithOp::IsZero(x)),
            }),
    {
        Instruction {
            lh: Some(dst),
            lh_c: None,
            lh_v: None,
            rh: Operation::Arith(ArithOp::IsZero(x)),
            guest_op: opcd,
        }
    }

    /// A sign test: `dst := (x >> 31)`.
    pub fn is_negative(opcd: u32, dst: Var, x: Var) -> (r: Instruction)
        ensures
            r == (Instruction {
                guest_op: opcd,
                lh: Some(dst),
                lh_c: None,
                lh_v: None,
                rh: Operation::Arith(ArithOp::IsNegative(x)),
            }),
    {
        Instruction {
            lh: Some(dst),
            lh_c: None,
            lh_v: None,
            rh: Operation::Arith(ArithOp::IsNegative(x)),
            guest_op: opcd,
        }
    }
}

} // verus!
