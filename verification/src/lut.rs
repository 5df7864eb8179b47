//! Lookup tables mapping compressed opcode keys to instruction kinds.
//!
//! Each table entry is populated by decoding a canonical opcode rebuilt from
//! the table index. Because the decoder inspects only the bits that survive
//! the compression, a lookup agrees with the decoder on every opcode.

use vstd::prelude::*;

use crate::decode::{
    lemma_arm_decode_key, lemma_thumb_decode_key, spec_arm_decode, spec_thumb_decode, ArmInst,
    ThumbInst,
};

verus! {

/// Number of entries in the ARM lookup table.
pub const ARM_LUT_SIZE: usize = 0x1000;

/// Number of entries in the Thumb lookup table.
pub const THUMB_LUT_SIZE: usize = 0x400;

/// The twelve-bit table key of a 32-bit ARM opcode (bits 27..20 and 7..4).
pub open spec fn spec_arm_opcd_to_idx(opcd: u32) -> u32 {
    ((opcd >> 16) & 0x0ff0) | ((opcd >> 4) & 0x000f)
}

/// The canonical opcode rebuilt from an ARM table index.
pub open spec fn spec_arm_idx_to_opcd(idx: u32) -> u32 {
    ((idx & 0x0ff0) << 16) | ((idx & 0x000f) << 4)
}

/// The ten-bit table key of a 16-bit Thumb opcode (bits 15..6).
pub open spec fn spec_thumb_opcd_to_idx(opcd: u16) -> u16 {
    (opcd & 0xffc0) >> 6
}

/// The canonical opcode rebuilt from a Thumb table index.
pub open spec fn spec_thumb_idx_to_opcd(idx: u16) -> u16 {
    idx << 6
}

/// An ARM table key is in range, and its canonical opcode keeps exactly the
/// bits of the original opcode that the decoder inspects.
pub proof fn lemma_arm_key_round_trip(opcd: u32)
    ensures
        spec_arm_opcd_to_idx(opcd) < 0x1000,
        spec_arm_idx_to_opcd(spec_arm_opcd_to_idx(opcd)) & 0x0ff000f0 == opcd & 0x0ff000f0,
{
    assert((((opcd >> 16) & 0x0ff0) | ((opcd >> 4) & 0x000f)) < 0x1000 && (((((((opcd >> 16)
        & 0x0ff0) | ((opcd >> 4) & 0x000f)) & 0x0ff0) << 16) | (((((opcd >> 16) & 0x0ff0) | ((opcd
        >> 4) & 0x000f)) & 0x000f) << 4)) & 0x0ff000f0u32) == opcd & 0x0ff000f0u32) by (bit_vector);
}

/// A Thumb table key is in range, and its canonical opcode keeps exactly the
/// bits of the original opcode that the decoder inspects.
pub proof fn lemma_thumb_key_round_trip(opcd: u16)
    ensures
        spec_thumb_opcd_to_idx(opcd) < 0x400,
        spec_thumb_idx_to_opcd(spec_thumb_opcd_to_idx(opcd)) & 0xffc0 == opcd & 0xffc0,
{
    assert(((opcd & 0xffc0) >> 6) < 0x400 && ((((opcd & 0xffc0) >> 6) << 6) & 0xffc0u16) == opcd
        & 0xffc0u16) by (bit_vector);
}

/// The ARMv5 lookup table: instruction kinds indexed by compressed opcode.
pub struct ArmLut {
    /// The table entries.
    pub data: Vec<ArmInst>,
}

impl ArmLut {
    /// Every entry holds what the decoder returns for its canonical opcode.
    pub open spec fn wf(&self) -> bool {
        self.data@.len() == ARM_LUT_SIZE && forall|i: int|
            0 <= i < ARM_LUT_SIZE ==> self.data@[i] == spec_arm_decode(
                spec_arm_idx_to_opcd(i as u32),
            )
    }

    /// Rebuild the canonical opcode of a table index.
    fn idx_to_opcd(idx: usize) -> (r: u32)
        requires
            idx < ARM_LUT_SIZE,
        ensures
            r == spec_arm_idx_to_opcd(idx as u32),
    {
        let x = idx as u32;
        ((x & 0x0ff0) << 16) | ((x & 0x000f) << 4)
    }

    /// Compress an opcode to its table index.
    fn opcd_to_idx(opcd: u32) -> (r: usize)
        ensures
            r == spec_arm_opcd_to_idx(opcd),
            r < ARM_LUT_SIZE,
    {
        proof {
            lemma_arm_key_round_trip(opcd);
        }
        (((opcd >> 16) & 0x0ff0) | ((opcd >> 4) & 0x000f)) as usize
    }

    /// Build the table by decoding every canonical opcode.
    pub fn create_lut() -> (r: ArmLut)
        ensures
            r.wf(),
    {
        let mut data: Vec<ArmInst> = Vec::new();
        let mut i: usize = 0;
        while i < ARM_LUT_SIZE
            invariant
                i <= ARM_LUT_SIZE,
                data@.len() == i,
                forall|j: int|
                    0 <= j < i ==> data@[j] == spec_arm_decode(spec_arm_idx_to_opcd(j as u32)),
            decreases ARM_LUT_SIZE - i,
        {
            let opcd = ArmLut::idx_to_opcd(i);
            data.push(ArmInst::decode(opcd));
            i = i + 1;
        }
        ArmLut { data }
    }

    /// Look up the instruction kind of `opcd`. Agrees with the decoder on
    /// every 32-bit opcode.
    pub fn lookup(&self, opcd: u32) -> (r: ArmInst)
        requires
            self.wf(),
        ensures
            r == spec_arm_decode(opcd),
    {
        let idx = ArmLut::opcd_to_idx(opcd);
        proof {
            lemma_arm_key_round_trip(opcd);
            lemma_arm_decode_key(spec_arm_idx_to_opcd(spec_arm_opcd_to_idx(opcd)), opcd);
        }
        self.data[idx]
    }
}

/// The ARMv5T (Thumb) lookup table.
pub struct ThumbLut {
    /// The table entries.
    pub data: Vec<ThumbInst>,
}

impl ThumbLut {
    /// Every entry holds what the decoder returns for its canonical opcode.
    pub open spec fn wf(&self) -> bool {
        self.data@.len() == THUMB_LUT_SIZE && forall|i: int|
            0 <= i < THUMB_LUT_SIZE ==> self.data@[i] == spec_thumb_decode(
                spec_thumb_idx_to_opcd(i as u16),
            )
    }

    /// Rebuild the canonical opcode of a table index.
    fn idx_to_opcd(idx: usize) -> (r: u16)
        requires
            idx < THUMB_LUT_SIZE,
        ensures
            r == spec_thumb_idx_to_opcd(idx as u16),
    {
        (idx as u16) << 6
    }

    /// Compress an opcode to its table index.
    fn opcd_to_idx(opcd: u16) -> (r: usize)
        ensures
            r == spec_thumb_opcd_to_idx(opcd),
            r < THUMB_LUT_SIZE,
    {
        proof {
            lemma_thumb_key_round_trip(opcd);
        }
        ((opcd & 0xffc0) >> 6) as usize
    }

    /// Build the table by decoding every canonical opcode.
    pub fn create_lut() -> (r: ThumbLut)
        ensures
            r.wf(),
    {
        let mut data: Vec<ThumbInst> = Vec::new();
        let mut i: usize = 0;
        while i < THUMB_LUT_SIZE
            invariant
                i <= THUMB_LUT_SIZE,
                data@.len() == i,
                forall|j: int|
                    0 <= j < i ==> data@[j] == spec_thumb_decode(spec_thumb_idx_to_opcd(j as u16)),
            decreases THUMB_LUT_SIZE - i,
        {
            let opcd = ThumbLut::idx_to_opcd(i);
            data.push(ThumbInst::decode(opcd));
            i = i + 1;
        }
        ThumbLut { data }
    }

    /// Look up the instruction kind of `opcd`. Agrees with the decoder on
    /// every 16-bit opcode.
    pub fn lookup(&self, opcd: u16) -> (r: ThumbInst)
        requires
            self.wf(),
        ensures
            r == spec_thumb_decode(opcd),
    {
        let idx = ThumbLut::opcd_to_idx(opcd);
        proof {
            lemma_thumb_key_round_trip(opcd);
            lemma_thumb_decode_key(spec_thumb_idx_to_opcd(spec_thumb_opcd_to_idx(opcd)), opcd);
        }
        self.data[idx]
    }
}

/// Container for the two lookup tables, computed once at startup.
pub struct DecoderLut {
    /// Lookup table for ARM instructions.
    pub arm: ArmLut,
    /// Lookup table for Thumb instructions.
    pub thumb: ThumbLut,
}

impl DecoderLut {
    /// Build both tables.
    pub fn new() -> (r: DecoderLut)
        ensures
            r.arm.wf(),
            r.thumb.wf(),
    {
        let arm = ArmLut::create_lut();
        let thumb = ThumbLut::create_lut();
        DecoderLut { arm, thumb }
    }
}

} // verus!
