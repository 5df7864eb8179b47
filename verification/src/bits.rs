//! Bit-field accessors for the ARM instruction encodings the lifter handles.

use vstd::prelude::*;

verus! {

/// The four-bit condition field (bits 31..28).
pub fn cond_bits(op: u32) -> (r: u32)
    ensures
        r == op >> 28,
        r < 16,
{
    proof {
        assert(op >> 28 < 16) by (bit_vector);
    }
    op >> 28
}

/// The first operand register field Rn (bits 19..16).
pub fn rn_bits(op: u32) -> (r: u32)
    ensures
        r == (op >> 16) & 0xf,
        r < 16,
{
    proof {
        assert((op >> 16) & 0xf < 16) by (bit_vector);
    }
    (op >> 16) & 0xf
}

/// The destination register field Rd (bits 15..12).
pub fn rd_bits(op: u32) -> (r: u32)
    ensures
        r == (op >> 12) & 0xf,
        r < 16,
{
    proof {
        assert((op >> 12) & 0xf < 16) by (bit_vector);
    }
    (op >> 12) & 0xf
}

/// The transfer register field Rt (bits 15..12).
pub fn rt_bits(op: u32) -> (r: u32)
    ensures
        r == (op >> 12) & 0xf,
        r < 16,
{
    rd_bits(op)
}

/// The second operand register field Rm (bits 3..0).
pub fn rm_bits(op: u32) -> (r: u32)
    ensures
        r == op & 0xf,
        r < 16,
{
    proof {
        assert(op & 0xf < 16) by (bit_vector);
    }
    op & 0xf
}

/// The twelve-bit immediate field (bits 11..0).
pub fn imm12_bits(op: u32) -> (r: u32)
    ensures
        r == op & 0xfff,
        r < 0x1000,
{
    proof {
        assert(op & 0xfff < 0x1000) by (bit_vector);
    }
    op & 0xfff
}

/// The 24-bit branch offset field (bits 23..0).
pub fn imm24_bits(op: u32) -> (r: u32)
    ensures
        r == op & 0x00ff_ffff,
        r < 0x100_0000,
{
    proof {
        assert(op & 0x00ff_ffff < 0x100_0000) by (bit_vector);
    }
    op & 0x00ff_ffff
}

/// The S (set-flags) bit (bit 20).
pub fn s_bit(op: u32) -> (r: bool)
    ensures
        r == ((op >> 20) & 1 == 1),
        !r == ((op >> 20) & 1 == 0),
{
    proof {
        assert((op >> 20) & 1 == 0 || (op >> 20) & 1 == 1) by (bit_vector);
    }
    (op >> 20) & 1 == 1
}

/// The P (pre-index) bit (bit 24).
pub fn p_bit(op: u32) -> (r: bool)
    ensures
        r == ((op >> 24) & 1 == 1),
        !r == ((op >> 24) & 1 == 0),
{
    proof {
        assert((op >> 24) & 1 == 0 || (op >> 24) & 1 == 1) by (bit_vector);
    }
    (op >> 24) & 1 == 1
}

/// The U (add-offset) bit (bit 23).
pub fn u_bit(op: u32) -> (r: bool)
    ensures
        r == ((op >> 23) & 1 == 1),
        !r == ((op >> 23) & 1 == 0),
{
    proof {
        assert((op >> 23) & 1 == 0 || (op >> 23) & 1 == 1) by (bit_vector);
    }
    (op >> 23) & 1 == 1
}

/// The W (writeback) bit (bit 21).
pub fn w_bit(op: u32) -> (r: bool)
    ensures
        r == ((op >> 21) & 1 == 1),
        !r == ((op >> 21) & 1 == 0),
{
    proof {
        assert((op >> 21) & 1 == 0 || (op >> 21) & 1 == 1) by (bit_vector);
    }
    (op >> 21) & 1 == 1
}

/// The shift-type field (bits 6..5).
pub fn stype_bits(op: u32) -> (r: u32)
    ensures
        r == (op >> 5) & 3,
        r < 4,
{
    proof {
        assert((op >> 5) & 3 < 4) by (bit_vector);
    }
    (op >> 5) & 3
}

/// The five-bit shift amount field (bits 11..7).
pub fn imm5_bits(op: u32) -> (r: u32)
    ensures
        r == (op >> 7) & 0x1f,
        r < 32,
{
    proof {
        assert((op >> 7) & 0x1f < 32) by (bit_vector);
    }
    (op >> 7) & 0x1f
}

/// The register-list field of a load/store-multiple (bits 15..0).
pub fn register_list(op: u32) -> (r: u32)
    ensures
        r == op & 0xffff,
        r < 0x1_0000,
{
    proof {
        assert(op & 0xffff < 0x1_0000) by (bit_vector);
    }
    op & 0xffff
}

} // verus!
