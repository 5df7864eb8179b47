//! Tabular decoding of guest opcodes into instruction kinds.
//!
//! Decoding is an ordered cascade of mask/match tests against the opcode;
//! the first match wins. The cascade only inspects the bits selected by the
//! compressed lookup-table key, which is what lets a table indexed by that
//! key agree with the decoder on every opcode.

use vstd::prelude::*;

verus! {

/// The bits of a 32-bit opcode that the ARM decoder inspects.
pub const ARM_KEY_MASK: u32 = 0x0ff000f0;

/// The bits of a 16-bit opcode that the Thumb decoder inspects.
pub const THUMB_KEY_MASK: u16 = 0xffc0;

/// Enumerated type describing different kinds of ARM instruction encodings.
#[derive(Clone, Copy, Debug, PartialEq, Eq, Structural)]
pub enum ArmInst {
    AndRegShiftReg, AdcRegShiftReg, MovRegShiftReg, OrrRegShiftReg,
    EorRegShiftReg, RscRegShiftReg, MvnRegShiftReg, SbcRegShiftReg,
    AddRegShiftReg, BicRegShiftReg, RsbRegShiftReg, SubRegShiftReg,
    TeqRegShiftReg, CmnRegShiftReg, TstRegShiftReg, CmpRegShiftReg,
    SbcReg, OrrReg, BicReg, AddReg, RscReg, EorReg, MvnReg, AdcReg,
    SubReg, MovReg, AndReg, RsbReg, CmpReg, TstReg, CmnReg, TeqReg,
    MovImm, AddImm, AdcImm, RsbImm, OrrImm, BicImm, SubImm, MvnImm,
    AndImm, RscImm, EorImm, SbcImm, CmnImm, CmpImm, TstImm, TeqImm,
    StrImm, StrhImm, StrdImm, StrbImm, StrReg, StrbReg, StrhReg, StrdReg,
    LdrImm, LdrhImm, LdrdImm, LdrbImm, LdrsbImm, LdrshImm,
    LdrReg, LdrbReg, LdrhReg, LdrdReg, LdrsbReg, LdrshReg,
    Qdadd, Qsub, Qadd, Qdsub, Smull, Umlal, Smlal, Umull, Mul, Mla,
    Smulwb, Smlawb, Smlalbb, Smlabb, Smulbb,
    Ldrbt, Strbt, Ldrt, Strt,
    MovImmAlt, LdrbtAlt, StrbtAlt, LdrtAlt, StrtAlt,
    Stm, Stmda, Ldmda, Ldmib, Ldmdb, Ldm, Stmdb, Stmib,
    LdmRegUser, StmRegUser,
    MsrImm, MsrReg, Mrs, Mcrr, Mrrc, Mrc, Mcr, Stc,
    PldReg, PldImm, LdcImm, Clz,
    B, BlImm, Bx, BlxReg, Bxj,
    Svc, Bkpt,
    Undefined,
}

/// The instruction kind encoded by `opcd`, as an ordered mask cascade.
pub open spec fn spec_arm_decode(opcd: u32) -> ArmInst {
    if opcd & 0x0ff000f0u32 == 0x01400050 {
        ArmInst::Qdadd
    } else if opcd & 0x0ff000f0u32 == 0x01200050 {
        ArmInst::Qsub
    } else if opcd & 0x0ff000f0u32 == 0x01000050 {
        ArmInst::Qadd
    } else if opcd & 0x0ff000f0u32 == 0x01600050 {
        ArmInst::Qdsub
    } else if opcd & 0x0ff000f0u32 == 0x01200010 {
        ArmInst::Bx
    } else if opcd & 0x0ff000f0u32 == 0x01600010 {
        ArmInst::Clz
    } else if opcd & 0x0ff000f0u32 == 0x01200020 {
        ArmInst::Bxj
    } else if opcd & 0x0ff000f0u32 == 0x01200070 {
        ArmInst::Bkpt
    } else if opcd & 0x0ff000f0u32 == 0x01200030 {
        ArmInst::BlxReg
    } else if opcd & 0x0fe000f0u32 == 0x00c00090 {
        ArmInst::Smull
    } else if opcd & 0x0fe000f0u32 == 0x00a00090 {
        ArmInst::Umlal
    } else if opcd & 0x0fe000f0u32 == 0x00e00090 {
        ArmInst::Smlal
    } else if opcd & 0x0fe000f0u32 == 0x00800090 {
        ArmInst::Umull
    } else if opcd & 0x0fe000f0u32 == 0x00000090 {
        ArmInst::Mul
    } else if opcd & 0x0fe000f0u32 == 0x00200090 {
        ArmInst::Mla
    } else if opcd & 0x0fb000f0u32 == 0x01200000 {
        ArmInst::MsrReg
    } else if opcd & 0x0fb000f0u32 == 0x01000000 {
        ArmInst::Mrs
    } else if opcd & 0x0ff000b0u32 == 0x012000a0 {
        ArmInst::Smulwb
    } else if opcd & 0x0ff000b0u32 == 0x01200080 {
        ArmInst::Smlawb
    } else if opcd & 0x0ff00090u32 == 0x01400080 {
        ArmInst::Smlalbb
    } else if opcd & 0x0ff00090u32 == 0x01300010 {
        ArmInst::TeqRegShiftReg
    } else if opcd & 0x0ff00090u32 == 0x01700010 {
        ArmInst::CmnRegShiftReg
    } else if opcd & 0x0ff00090u32 == 0x01100010 {
        ArmInst::TstRegShiftReg
    } else if opcd & 0x0ff00090u32 == 0x01500010 {
        ArmInst::CmpRegShiftReg
    } else if opcd & 0x0ff00090u32 == 0x01000080 {
        ArmInst::Smlabb
    } else if opcd & 0x0ff00090u32 == 0x01600080 {
        ArmInst::Smulbb
    } else if opcd & 0x0e5000f0u32 == 0x005000d0 {
        ArmInst::LdrsbImm
    } else if opcd & 0x0e5000f0u32 == 0x000000f0 {
        ArmInst::StrdReg
    } else if opcd & 0x0e5000f0u32 == 0x004000b0 {
        ArmInst::StrhImm
    } else if opcd & 0x0e5000f0u32 == 0x001000d0 {
        ArmInst::LdrsbReg
    } else if opcd & 0x0e5000f0u32 == 0x005000f0 {
        ArmInst::LdrshImm
    } else if opcd & 0x0e5000f0u32 == 0x001000f0 {
        ArmInst::LdrshReg
    } else if opcd & 0x0e5000f0u32 == 0x004000f0 {
        ArmInst::StrdImm
    } else if opcd & 0x0e5000f0u32 == 0x005000b0 {
        ArmInst::LdrhImm
    } else if opcd & 0x0e5000f0u32 == 0x000000d0 {
        ArmInst::LdrdReg
    } else if opcd & 0x0e5000f0u32 == 0x001000b0 {
        ArmInst::LdrhReg
    } else if opcd & 0x0e5000f0u32 == 0x004000d0 {
        ArmInst::LdrdImm
    } else if opcd & 0x0e5000f0u32 == 0x000000b0 {
        ArmInst::StrhReg
    } else if opcd & 0x0fe00090u32 == 0x00000010 {
        ArmInst::AndRegShiftReg
    } else if opcd & 0x0fe00090u32 == 0x00a00010 {
        ArmInst::AdcRegShiftReg
    } else if opcd & 0x0fe00090u32 == 0x01a00010 {
        ArmInst::MovRegShiftReg
    } else if opcd & 0x0fe00090u32 == 0x01800010 {
        ArmInst::OrrRegShiftReg
    } else if opcd & 0x0fe00090u32 == 0x00200010 {
        ArmInst::EorRegShiftReg
    } else if opcd & 0x0fe00090u32 == 0x00e00010 {
        ArmInst::RscRegShiftReg
    } else if opcd & 0x0fe00090u32 == 0x01e00010 {
        ArmInst::MvnRegShiftReg
    } else if opcd & 0x0fe00090u32 == 0x00c00010 {
        ArmInst::SbcRegShiftReg
    } else if opcd & 0x0fe00090u32 == 0x00800010 {
        ArmInst::AddRegShiftReg
    } else if opcd & 0x0fe00090u32 == 0x01c00010 {
        ArmInst::BicRegShiftReg
    } else if opcd & 0x0fe00090u32 == 0x00600010 {
        ArmInst::RsbRegShiftReg
    } else if opcd & 0x0fe00090u32 == 0x00400010 {
        ArmInst::SubRegShiftReg
    } else if opcd & 0x0ff00010u32 == 0x01500000 {
        ArmInst::CmpReg
    } else if opcd & 0x0ff00010u32 == 0x01100000 {
        ArmInst::TstReg
    } else if opcd & 0x0ff00010u32 == 0x01700000 {
        ArmInst::CmnReg
    } else if opcd & 0x0ff00010u32 == 0x01300000 {
        ArmInst::TeqReg
    } else if opcd & 0x0ff00000u32 == 0x03000000 {
        ArmInst::MovImmAlt
    } else if opcd & 0x0ff00000u32 == 0x03700000 {
        ArmInst::CmnImm
    } else if opcd & 0x0ff00000u32 == 0x0c400000 {
        ArmInst::Mcrr
    } else if opcd & 0x0ff00000u32 == 0x03500000 {
        ArmInst::CmpImm
    } else if opcd & 0x0ff00000u32 == 0x03100000 {
        ArmInst::TstImm
    } else if opcd & 0x0ff00000u32 == 0x0c500000 {
        ArmInst::Mrrc
    } else if opcd & 0x0ff00000u32 == 0x03300000 {
        ArmInst::TeqImm
    } else if opcd & 0x0f700010u32 == 0x06700000 {
        ArmInst::LdrbtAlt
    } else if opcd & 0x0f700010u32 == 0x06600000 {
        ArmInst::StrbtAlt
    } else if opcd & 0x0f700010u32 == 0x06300000 {
        ArmInst::LdrtAlt
    } else if opcd & 0x0f700010u32 == 0x06200000 {
        ArmInst::StrtAlt
    } else if opcd & 0x0fe00010u32 == 0x00c00000 {
        ArmInst::SbcReg
    } else if opcd & 0x0fe00010u32 == 0x01800000 {
        ArmInst::OrrReg
    } else if opcd & 0x0fe00010u32 == 0x01c00000 {
        ArmInst::BicReg
    } else if opcd & 0x0fe00010u32 == 0x00800000 {
        ArmInst::AddReg
    } else if opcd & 0x0fe00010u32 == 0x00e00000 {
        ArmInst::RscReg
    } else if opcd & 0x0fe00010u32 == 0x00200000 {
        ArmInst::EorReg
    } else if opcd & 0x0fe00010u32 == 0x01e00000 {
        ArmInst::MvnReg
    } else if opcd & 0x0fe00010u32 == 0x00a00000 {
        ArmInst::AdcReg
    } else if opcd & 0x0fe00010u32 == 0x00400000 {
        ArmInst::SubReg
    } else if opcd & 0x0fe00010u32 == 0x01a00000 {
        ArmInst::MovReg
    } else if opcd & 0x0fe00010u32 == 0x00000000 {
        ArmInst::AndReg
    } else if opcd & 0x0fe00010u32 == 0x00600000 {
        ArmInst::RsbReg
    } else if opcd & 0x0fe00000u32 == 0x03a00000 {
        ArmInst::MovImm
    } else if opcd & 0x0fe00000u32 == 0x02800000 {
        ArmInst::AddImm
    } else if opcd & 0x0fe00000u32 == 0x02a00000 {
        ArmInst::AdcImm
    } else if opcd & 0x0fe00000u32 == 0x02600000 {
        ArmInst::RsbImm
    } else if opcd & 0x0fe00000u32 == 0x03800000 {
        ArmInst::OrrImm
    } else if opcd & 0x0fe00000u32 == 0x03c00000 {
        ArmInst::BicImm
    } else if opcd & 0x0fe00000u32 == 0x02400000 {
        ArmInst::SubImm
    } else if opcd & 0x0fe00000u32 == 0x03e00000 {
        ArmInst::MvnImm
    } else if opcd & 0x0fe00000u32 == 0x02000000 {
        ArmInst::AndImm
    } else if opcd & 0x0fe00000u32 == 0x02e00000 {
        ArmInst::RscImm
    } else if opcd & 0x0fe00000u32 == 0x02200000 {
        ArmInst::EorImm
    } else if opcd & 0x0fe00000u32 == 0x02c00000 {
        ArmInst::SbcImm
    } else if opcd & 0x0f700000u32 == 0x04700000 {
        ArmInst::Ldrbt
    } else if opcd & 0x0f700000u32 == 0x04600000 {
        ArmInst::Strbt
    } else if opcd & 0x0f700000u32 == 0x04300000 {
        ArmInst::Ldrt
    } else if opcd & 0x0f700000u32 == 0x04200000 {
        ArmInst::Strt
    } else if opcd & 0x0fd00000u32 == 0x08800000 {
        ArmInst::Stm
    } else if opcd & 0x0fd00000u32 == 0x08000000 {
        ArmInst::Stmda
    } else if opcd & 0x0fd00000u32 == 0x08100000 {
        ArmInst::Ldmda
    } else if opcd & 0x0fd00000u32 == 0x09900000 {
        ArmInst::Ldmib
    } else if opcd & 0x0fd00000u32 == 0x09100000 {
        ArmInst::Ldmdb
    } else if opcd & 0x0fd00000u32 == 0x08900000 {
        ArmInst::Ldm
    } else if opcd & 0x0fd00000u32 == 0x09000000 {
        ArmInst::Stmdb
    } else if opcd & 0x0fd00000u32 == 0x09800000 {
        ArmInst::Stmib
    } else if opcd & 0x0fb00000u32 == 0x03200000 {
        ArmInst::MsrImm
    } else if opcd & 0x0e500010u32 == 0x06100000 {
        ArmInst::LdrReg
    } else if opcd & 0x0e500010u32 == 0x06400000 {
        ArmInst::StrbReg
    } else if opcd & 0x0e500010u32 == 0x06500000 {
        ArmInst::LdrbReg
    } else if opcd & 0x0e500010u32 == 0x06000000 {
        ArmInst::StrReg
    } else if opcd & 0x0f100010u32 == 0x0e100010 {
        ArmInst::Mrc
    } else if opcd & 0x0f100010u32 == 0x0e000010 {
        ArmInst::Mcr
    } else if opcd & 0x0e500000u32 == 0x0c000000 {
        ArmInst::Stc
    } else if opcd & 0x0e500000u32 == 0x08500000 {
        ArmInst::LdmRegUser
    } else if opcd & 0x0e500000u32 == 0x0c100000 {
        ArmInst::LdcImm
    } else if opcd & 0x0e500000u32 == 0x04000000 {
        ArmInst::StrImm
    } else if opcd & 0x0e500000u32 == 0x04400000 {
        ArmInst::StrbImm
    } else if opcd & 0x0e500000u32 == 0x04500000 {
        ArmInst::LdrbImm
    } else if opcd & 0x0e500000u32 == 0x08400000 {
        ArmInst::StmRegUser
    } else if opcd & 0x0e500000u32 == 0x04100000 {
        ArmInst::LdrImm
    } else if opcd & 0x0f000000u32 == 0x0f000000 {
        ArmInst::Svc
    } else if opcd & 0x0f000000u32 == 0x0a000000 {
        ArmInst::B
    } else if opcd & 0x0f000000u32 == 0x0b000000 {
        ArmInst::BlImm
    } else {
        ArmInst::Undefined
    }
}

impl ArmInst {
    /// Decode a 32-bit ARM opcode into its instruction kind.
    #[verifier::rlimit(50)]
    #[verifier::spinoff_prover]
    pub fn decode(opcd: u32) -> (r: ArmInst)
        ensures
            r == spec_arm_decode(opcd),
    {
    if opcd & 0x0ff000f0u32 == 0x01400050 {
        ArmInst::Qdadd
    } else if opcd & 0x0ff000f0u32 == 0x01200050 {
        ArmInst::Qsub
    } else if opcd & 0x0ff000f0u32 == 0x01000050 {
        ArmInst::Qadd
    } else if opcd & 0x0ff000f0u32 == 0x01600050 {
        ArmInst::Qdsub
    } else if opcd & 0x0ff000f0u32 == 0x01200010 {
        ArmInst::Bx
    } else if opcd & 0x0ff000f0u32 == 0x01600010 {
        ArmInst::Clz
    } else if opcd & 0x0ff000f0u32 == 0x01200020 {
        ArmInst::Bxj
    } else if opcd & 0x0ff000f0u32 == 0x01200070 {
        ArmInst::Bkpt
    } else if opcd & 0x0ff000f0u32 == 0x01200030 {
        ArmInst::BlxReg
    } else if opcd & 0x0fe000f0u32 == 0x00c00090 {
        ArmInst::Smull
    } else if opcd & 0x0fe000f0u32 == 0x00a00090 {
        ArmInst::Umlal
    } else if opcd & 0x0fe000f0u32 == 0x00e00090 {
        ArmInst::Smlal
    } else if opcd & 0x0fe000f0u32 == 0x00800090 {
        ArmInst::Umull
    } else if opcd & 0x0fe000f0u32 == 0x00000090 {
        ArmInst::Mul
    } else if opcd & 0x0fe000f0u32 == 0x00200090 {
        ArmInst::Mla
    } else if opcd & 0x0fb000f0u32 == 0x01200000 {
        ArmInst::MsrReg
    } else if opcd & 0x0fb000f0u32 == 0x01000000 {
        ArmInst::Mrs
    } else if opcd & 0x0ff000b0u32 == 0x012000a0 {
        ArmInst::Smulwb
    } else if opcd & 0x0ff000b0u32 == 0x01200080 {
        ArmInst::Smlawb
    } else if opcd & 0x0ff00090u32 == 0x01400080 {
        ArmInst::Smlalbb
    } else if opcd & 0x0ff00090u32 == 0x01300010 {
        ArmInst::TeqRegShiftReg
    } else if opcd & 0x0ff00090u32 == 0x01700010 {
        ArmInst::CmnRegShiftReg
    } else if opcd & 0x0ff00090u32 == 0x01100010 {
        ArmInst::TstRegShiftReg
    } else if opcd & 0x0ff00090u32 == 0x01500010 {
        ArmInst::CmpRegShiftReg
    } else if opcd & 0x0ff00090u32 == 0x01000080 {
        ArmInst::Smlabb
    } else if opcd & 0x0ff00090u32 == 0x01600080 {
        ArmInst::Smulbb
    } else if opcd & 0x0e5000f0u32 == 0x005000d0 {
        ArmInst::LdrsbImm
    } else if opcd & 0x0e5000f0u32 == 0x000000f0 {
        ArmInst::StrdReg
    } else if opcd & 0x0e5000f0u32 == 0x004000b0 {
        ArmInst::StrhImm
    } else if opcd & 0x0e5000f0u32 == 0x001000d0 {
        ArmInst::LdrsbReg
    } else if opcd & 0x0e5000f0u32 == 0x005000f0 {
        ArmInst::LdrshImm
    } else if opcd & 0x0e5000f0u32 == 0x001000f0 {
        ArmInst::LdrshReg
    } else if opcd & 0x0e5000f0u32 == 0x004000f0 {
        ArmInst::StrdImm
    } else if opcd & 0x0e5000f0u32 == 0x005000b0 {
        ArmInst::LdrhImm
    } else if opcd & 0x0e5000f0u32 == 0x000000d0 {
        ArmInst::LdrdReg
    } else if opcd & 0x0e5000f0u32 == 0x001000b0 {
        ArmInst::LdrhReg
    } else if opcd & 0x0e5000f0u32 == 0x004000d0 {
        ArmInst::LdrdImm
    } else if opcd & 0x0e5000f0u32 == 0x000000b0 {
        ArmInst::StrhReg
    } else if opcd & 0x0fe00090u32 == 0x00000010 {
        ArmInst::AndRegShiftReg
    } else if opcd & 0x0fe00090u32 == 0x00a00010 {
        ArmInst::AdcRegShiftReg
    } else if opcd & 0x0fe00090u32 == 0x01a00010 {
        ArmInst::MovRegShiftReg
    } else if opcd & 0x0fe00090u32 == 0x01800010 {
        ArmInst::OrrRegShiftReg
    } else if opcd & 0x0fe00090u32 == 0x00200010 {
        ArmInst::EorRegShiftReg
    } else if opcd & 0x0fe00090u32 == 0x00e00010 {
        ArmInst::RscRegShiftReg
    } else if opcd & 0x0fe00090u32 == 0x01e00010 {
        ArmInst::MvnRegShiftReg
    } else if opcd & 0x0fe00090u32 == 0x00c00010 {
        ArmInst::SbcRegShiftReg
    } else if opcd & 0x0fe00090u32 == 0x00800010 {
        ArmInst::AddRegShiftReg
    } else if opcd & 0x0fe00090u32 == 0x01c00010 {
        ArmInst::BicRegShiftReg
    } else if opcd & 0x0fe00090u32 == 0x00600010 {
        ArmInst::RsbRegShiftReg
    } else if opcd & 0x0fe00090u32 == 0x00400010 {
        ArmInst::SubRegShiftReg
    } else if opcd & 0x0ff00010u32 == 0x01500000 {
        ArmInst::CmpReg
    } else if opcd & 0x0ff00010u32 == 0x01100000 {
        ArmInst::TstReg
    } else if opcd & 0x0ff00010u32 == 0x01700000 {
        ArmInst::CmnReg
    } else if opcd & 0x0ff00010u32 == 0x01300000 {
        ArmInst::TeqReg
    } else if opcd & 0x0ff00000u32 == 0x03000000 {
        ArmInst::MovImmAlt
    } else if opcd & 0x0ff00000u32 == 0x03700000 {
        ArmInst::CmnImm
    } else if opcd & 0x0ff00000u32 == 0x0c400000 {
        ArmInst::Mcrr
    } else if opcd & 0x0ff00000u32 == 0x03500000 {
        ArmInst::CmpImm
    } else if opcd & 0x0ff00000u32 == 0x03100000 {
        ArmInst::TstImm
    } else if opcd & 0x0ff00000u32 == 0x0c500000 {
        ArmInst::Mrrc
    } else if opcd & 0x0ff00000u32 == 0x03300000 {
        ArmInst::TeqImm
    } else if opcd & 0x0f700010u32 == 0x06700000 {
        ArmInst::LdrbtAlt
    } else if opcd & 0x0f700010u32 == 0x06600000 {
        ArmInst::StrbtAlt
    } else if opcd & 0x0f700010u32 == 0x06300000 {
        ArmInst::LdrtAlt
    } else if opcd & 0x0f700010u32 == 0x06200000 {
        ArmInst::StrtAlt
    } else if opcd & 0x0fe00010u32 == 0x00c00000 {
        ArmInst::SbcReg
    } else if opcd & 0x0fe00010u32 == 0x01800000 {
        ArmInst::OrrReg
    } else if opcd & 0x0fe00010u32 == 0x01c00000 {
        ArmInst::BicReg
    } else if opcd & 0x0fe00010u32 == 0x00800000 {
        ArmInst::AddReg
    } else if opcd & 0x0fe00010u32 == 0x00e00000 {
        ArmInst::RscReg
    } else if opcd & 0x0fe00010u32 == 0x00200000 {
        ArmInst::EorReg
    } else if opcd & 0x0fe00010u32 == 0x01e00000 {
        ArmInst::MvnReg
    } else if opcd & 0x0fe00010u32 == 0x00a00000 {
        ArmInst::AdcReg
    } else if opcd & 0x0fe00010u32 == 0x00400000 {
        ArmInst::SubReg
    } else if opcd & 0x0fe00010u32 == 0x01a00000 {
        ArmInst::MovReg
    } else if opcd & 0x0fe00010u32 == 0x00000000 {
        ArmInst::AndReg
    } else if opcd & 0x0fe00010u32 == 0x00600000 {
        ArmInst::RsbReg
    } else if opcd & 0x0fe00000u32 == 0x03a00000 {
        ArmInst::MovImm
    } else if opcd & 0x0fe00000u32 == 0x02800000 {
        ArmInst::AddImm
    } else if opcd & 0x0fe00000u32 == 0x02a00000 {
        ArmInst::AdcImm
    } else if opcd & 0x0fe00000u32 == 0x02600000 {
        ArmInst::RsbImm
    } else if opcd & 0x0fe00000u32 == 0x03800000 {
        ArmInst::OrrImm
    } else if opcd & 0x0fe00000u32 == 0x03c00000 {
        ArmInst::BicImm
    } else if opcd & 0x0fe00000u32 == 0x02400000 {
        ArmInst::SubImm
    } else if opcd & 0x0fe00000u32 == 0x03e00000 {
        ArmInst::MvnImm
    } else if opcd & 0x0fe00000u32 == 0x02000000 {
        ArmInst::AndImm
    } else if opcd & 0x0fe00000u32 == 0x02e00000 {
        ArmInst::RscImm
    } else if opcd & 0x0fe00000u32 == 0x02200000 {
        ArmInst::EorImm
    } else if opcd & 0x0fe00000u32 == 0x02c00000 {
        ArmInst::SbcImm
    } else if opcd & 0x0f700000u32 == 0x04700000 {
        ArmInst::Ldrbt
    } else if opcd & 0x0f700000u32 == 0x04600000 {
        ArmInst::Strbt
    } else if opcd & 0x0f700000u32 == 0x04300000 {
        ArmInst::Ldrt
    } else if opcd & 0x0f700000u32 == 0x04200000 {
        ArmInst::Strt
    } else if opcd & 0x0fd00000u32 == 0x08800000 {
        ArmInst::Stm
    } else if opcd & 0x0fd00000u32 == 0x08000000 {
        ArmInst::Stmda
    } else if opcd & 0x0fd00000u32 == 0x08100000 {
        ArmInst::Ldmda
    } else if opcd & 0x0fd00000u32 == 0x09900000 {
        ArmInst::Ldmib
    } else if opcd & 0x0fd00000u32 == 0x09100000 {
        ArmInst::Ldmdb
    } else if opcd & 0x0fd00000u32 == 0x08900000 {
        ArmInst::Ldm
    } else if opcd & 0x0fd00000u32 == 0x09000000 {
        ArmInst::Stmdb
    } else if opcd & 0x0fd00000u32 == 0x09800000 {
        ArmInst::Stmib
    } else if opcd & 0x0fb00000u32 == 0x03200000 {
        ArmInst::MsrImm
    } else if opcd & 0x0e500010u32 == 0x06100000 {
        ArmInst::LdrReg
    } else if opcd & 0x0e500010u32 == 0x06400000 {
        ArmInst::StrbReg
    } else if opcd & 0x0e500010u32 == 0x06500000 {
        ArmInst::LdrbReg
    } else if opcd & 0x0e500010u32 == 0x06000000 {
        ArmInst::StrReg
    } else if opcd & 0x0f100010u32 == 0x0e100010 {
        ArmInst::Mrc
    } else if opcd & 0x0f100010u32 == 0x0e000010 {
        ArmInst::Mcr
    } else if opcd & 0x0e500000u32 == 0x0c000000 {
        ArmInst::Stc
    } else if opcd & 0x0e500000u32 == 0x08500000 {
        ArmInst::LdmRegUser
    } else if opcd & 0x0e500000u32 == 0x0c100000 {
        ArmInst::LdcImm
    } else if opcd & 0x0e500000u32 == 0x04000000 {
        ArmInst::StrImm
    } else if opcd & 0x0e500000u32 == 0x04400000 {
        ArmInst::StrbImm
    } else if opcd & 0x0e500000u32 == 0x04500000 {
        ArmInst::LdrbImm
    } else if opcd & 0x0e500000u32 == 0x08400000 {
        ArmInst::StmRegUser
    } else if opcd & 0x0e500000u32 == 0x04100000 {
        ArmInst::LdrImm
    } else if opcd & 0x0f000000u32 == 0x0f000000 {
        ArmInst::Svc
    } else if opcd & 0x0f000000u32 == 0x0a000000 {
        ArmInst::B
    } else if opcd & 0x0f000000u32 == 0x0b000000 {
        ArmInst::BlImm
    } else {
        ArmInst::Undefined
    }
    }
}

/// The ARM decoder reads only the bits under [`ARM_KEY_MASK`]: two opcodes
/// that agree on those bits decode to the same instruction kind.
#[verifier::rlimit(100)]
#[verifier::spinoff_prover]
pub proof fn lemma_arm_decode_key(a: u32, b: u32)
    requires
        a & ARM_KEY_MASK == b & ARM_KEY_MASK,
    ensures
        spec_arm_decode(a) == spec_arm_decode(b),
{
    assert(
        (a & 0x0ff000f0u32 == b & 0x0ff000f0u32) ==>
        ((a & 0x0ff000f0u32 == 0x01400050) == (b & 0x0ff000f0u32 == 0x01400050)) &&
        ((a & 0x0ff000f0u32 == 0x01200050) == (b & 0x0ff000f0u32 == 0x01200050)) &&
        ((a & 0x0ff000f0u32 == 0x01000050) == (b & 0x0ff000f0u32 == 0x01000050)) &&
        ((a & 0x0ff000f0u32 == 0x01600050) == (b & 0x0ff000f0u32 == 0x01600050)) &&
        ((a & 0x0ff000f0u32 == 0x01200010) == (b & 0x0ff000f0u32 == 0x01200010)) &&
        ((a & 0x0ff000f0u32 == 0x01600010) == (b & 0x0ff000f0u32 == 0x01600010)) &&
        ((a & 0x0ff000f0u32 == 0x01200020) == (b & 0x0ff000f0u32 == 0x01200020)) &&
        ((a & 0x0ff000f0u32 == 0x01200070) == (b & 0x0ff000f0u32 == 0x01200070)) &&
        ((a & 0x0ff000f0u32 == 0x01200030) == (b & 0x0ff000f0u32 == 0x01200030)) &&
        ((a & 0x0fe000f0u32 == 0x00c00090) == (b & 0x0fe000f0u32 == 0x00c00090)) &&
        ((a & 0x0fe000f0u32 == 0x00a00090) == (b & 0x0fe000f0u32 == 0x00a00090)) &&
        ((a & 0x0fe000f0u32 == 0x00e00090) == (b & 0x0fe000f0u32 == 0x00e00090)) &&
        ((a & 0x0fe000f0u32 == 0x00800090) == (b & 0x0fe000f0u32 == 0x00800090)) &&
        ((a & 0x0fe000f0u32 == 0x00000090) == (b & 0x0fe000f0u32 == 0x00000090)) &&
        ((a & 0x0fe000f0u32 == 0x00200090) == (b & 0x0fe000f0u32 == 0x00200090)) &&
        ((a & 0x0fb000f0u32 == 0x01200000) == (b & 0x0fb000f0u32 == 0x01200000)) &&
        ((a & 0x0fb000f0u32 == 0x01000000) == (b & 0x0fb000f0u32 == 0x01000000)) &&
        ((a & 0x0ff000b0u32 == 0x012000a0) == (b & 0x0ff000b0u32 == 0x012000a0)) &&
        ((a & 0x0ff000b0u32 == 0x01200080) == (b & 0x0ff000b0u32 == 0x01200080)) &&
        ((a & 0x0ff00090u32 == 0x01400080) == (b & 0x0ff00090u32 == 0x01400080)) &&
        ((a & 0x0ff00090u32 == 0x01300010) == (b & 0x0ff00090u32 == 0x01300010)) &&
        ((a & 0x0ff00090u32 == 0x01700010) == (b & 0x0ff00090u32 == 0x01700010)) &&
        ((a & 0x0ff00090u32 == 0x01100010) == (b & 0x0ff00090u32 == 0x01100010)) &&
        ((a & 0x0ff00090u32 == 0x01500010) == (b & 0x0ff00090u32 == 0x01500010)) &&
        ((a & 0x0ff00090u32 == 0x01000080) == (b & 0x0ff00090u32 == 0x01000080)) &&
        ((a & 0x0ff00090u32 == 0x01600080) == (b & 0x0ff00090u32 == 0x01600080)) &&
        ((a & 0x0e5000f0u32 == 0x005000d0) == (b & 0x0e5000f0u32 == 0x005000d0)) &&
        ((a & 0x0e5000f0u32 == 0x000000f0) == (b & 0x0e5000f0u32 == 0x000000f0)) &&
        ((a & 0x0e5000f0u32 == 0x004000b0) == (b & 0x0e5000f0u32 == 0x004000b0)) &&
        ((a & 0x0e5000f0u32 == 0x001000d0) == (b & 0x0e5000f0u32 == 0x001000d0)) &&
        ((a & 0x0e5000f0u32 == 0x005000f0) == (b & 0x0e5000f0u32 == 0x005000f0)) &&
        ((a & 0x0e5000f0u32 == 0x001000f0) == (b & 0x0e5000f0u32 == 0x001000f0)) &&
        ((a & 0x0e5000f0u32 == 0x004000f0) == (b & 0x0e5000f0u32 == 0x004000f0)) &&
        ((a & 0x0e5000f0u32 == 0x005000b0) == (b & 0x0e5000f0u32 == 0x005000b0)) &&
        ((a & 0x0e5000f0u32 == 0x000000d0) == (b & 0x0e5000f0u32 == 0x000000d0)) &&
        ((a & 0x0e5000f0u32 == 0x001000b0) == (b & 0x0e5000f0u32 == 0x001000b0)) &&
        ((a & 0x0e5000f0u32 == 0x004000d0) == (b & 0x0e5000f0u32 == 0x004000d0)) &&
        ((a & 0x0e5000f0u32 == 0x000000b0) == (b & 0x0e5000f0u32 == 0x000000b0)) &&
        ((a & 0x0fe00090u32 == 0x00000010) == (b & 0x0fe00090u32 == 0x00000010)) &&
        ((a & 0x0fe00090u32 == 0x00a00010) == (b & 0x0fe00090u32 == 0x00a00010)) &&
        ((a & 0x0fe00090u32 == 0x01a00010) == (b & 0x0fe00090u32 == 0x01a00010)) &&
        ((a & 0x0fe00090u32 == 0x01800010) == (b & 0x0fe00090u32 == 0x01800010)) &&
        ((a & 0x0fe00090u32 == 0x00200010) == (b & 0x0fe00090u32 == 0x00200010)) &&
        ((a & 0x0fe00090u32 == 0x00e00010) == (b & 0x0fe00090u32 == 0x00e00010)) &&
        ((a & 0x0fe00090u32 == 0x01e00010) == (b & 0x0fe00090u32 == 0x01e00010)) &&
        ((a & 0x0fe00090u32 == 0x00c00010) == (b & 0x0fe00090u32 == 0x00c00010)) &&
        ((a & 0x0fe00090u32 == 0x00800010) == (b & 0x0fe00090u32 == 0x00800010)) &&
        ((a & 0x0fe00090u32 == 0x01c00010) == (b & 0x0fe00090u32 == 0x01c00010)) &&
        ((a & 0x0fe00090u32 == 0x00600010) == (b & 0x0fe00090u32 == 0x00600010)) &&
        ((a & 0x0fe00090u32 == 0x00400010) == (b & 0x0fe00090u32 == 0x00400010)) &&
        ((a & 0x0ff00010u32 == 0x01500000) == (b & 0x0ff00010u32 == 0x01500000)) &&
        ((a & 0x0ff00010u32 == 0x01100000) == (b & 0x0ff00010u32 == 0x01100000)) &&
        ((a & 0x0ff00010u32 == 0x01700000) == (b & 0x0ff00010u32 == 0x01700000)) &&
        ((a & 0x0ff00010u32 == 0x01300000) == (b & 0x0ff00010u32 == 0x01300000)) &&
        ((a & 0x0ff00000u32 == 0x03000000) == (b & 0x0ff00000u32 == 0x03000000)) &&
        ((a & 0x0ff00000u32 == 0x03700000) == (b & 0x0ff00000u32 == 0x03700000)) &&
        ((a & 0x0ff00000u32 == 0x0c400000) == (b & 0x0ff00000u32 == 0x0c400000)) &&
        ((a & 0x0ff00000u32 == 0x03500000) == (b & 0x0ff00000u32 == 0x03500000)) &&
        ((a & 0x0ff00000u32 == 0x03100000) == (b & 0x0ff00000u32 == 0x03100000)) &&
        ((a & 0x0ff00000u32 == 0x0c500000) == (b & 0x0ff00000u32 == 0x0c500000)) &&
        ((a & 0x0ff00000u32 == 0x03300000) == (b & 0x0ff00000u32 == 0x03300000)) &&
        ((a & 0x0f700010u32 == 0x06700000) == (b & 0x0f700010u32 == 0x06700000)) &&
        ((a & 0x0f700010u32 == 0x06600000) == (b & 0x0f700010u32 == 0x06600000)) &&
        ((a & 0x0f700010u32 == 0x06300000) == (b & 0x0f700010u32 == 0x06300000)) &&
        ((a & 0x0f700010u32 == 0x06200000) == (b & 0x0f700010u32 == 0x06200000)) &&
        ((a & 0x0fe00010u32 == 0x00c00000) == (b & 0x0fe00010u32 == 0x00c00000)) &&
        ((a & 0x0fe00010u32 == 0x01800000) == (b & 0x0fe00010u32 == 0x01800000)) &&
        ((a & 0x0fe00010u32 == 0x01c00000) == (b & 0x0fe00010u32 == 0x01c00000)) &&
        ((a & 0x0fe00010u32 == 0x00800000) == (b & 0x0fe00010u32 == 0x00800000)) &&
        ((a & 0x0fe00010u32 == 0x00e00000) == (b & 0x0fe00010u32 == 0x00e00000)) &&
        ((a & 0x0fe00010u32 == 0x00200000) == (b & 0x0fe00010u32 == 0x00200000)) &&
        ((a & 0x0fe00010u32 == 0x01e00000) == (b & 0x0fe00010u32 == 0x01e00000)) &&
        ((a & 0x0fe00010u32 == 0x00a00000) == (b & 0x0fe00010u32 == 0x00a00000)) &&
        ((a & 0x0fe00010u32 == 0x00400000) == (b & 0x0fe00010u32 == 0x00400000)) &&
        ((a & 0x0fe00010u32 == 0x01a00000) == (b & 0x0fe00010u32 == 0x01a00000)) &&
        ((a & 0x0fe00010u32 == 0x00000000) == (b & 0x0fe00010u32 == 0x00000000)) &&
        ((a & 0x0fe00010u32 == 0x00600000) == (b & 0x0fe00010u32 == 0x00600000)) &&
        ((a & 0x0fe00000u32 == 0x03a00000) == (b & 0x0fe00000u32 == 0x03a00000)) &&
        ((a & 0x0fe00000u32 == 0x02800000) == (b & 0x0fe00000u32 == 0x02800000)) &&
        ((a & 0x0fe00000u32 == 0x02a00000) == (b & 0x0fe00000u32 == 0x02a00000)) &&
        ((a & 0x0fe00000u32 == 0x02600000) == (b & 0x0fe00000u32 == 0x02600000)) &&
        ((a & 0x0fe00000u32 == 0x03800000) == (b & 0x0fe00000u32 == 0x03800000)) &&
        ((a & 0x0fe00000u32 == 0x03c00000) == (b & 0x0fe00000u32 == 0x03c00000)) &&
        ((a & 0x0fe00000u32 == 0x02400000) == (b & 0x0fe00000u32 == 0x02400000)) &&
        ((a & 0x0fe00000u32 == 0x03e00000) == (b & 0x0fe00000u32 == 0x03e00000)) &&
        ((a & 0x0fe00000u32 == 0x02000000) == (b & 0x0fe00000u32 == 0x02000000)) &&
        ((a & 0x0fe00000u32 == 0x02e00000) == (b & 0x0fe00000u32 == 0x02e00000)) &&
        ((a & 0x0fe00000u32 == 0x02200000) == (b & 0x0fe00000u32 == 0x02200000)) &&
        ((a & 0x0fe00000u32 == 0x02c00000) == (b & 0x0fe00000u32 == 0x02c00000)) &&
        ((a & 0x0f700000u32 == 0x04700000) == (b & 0x0f700000u32 == 0x04700000)) &&
        ((a & 0x0f700000u32 == 0x04600000) == (b & 0x0f700000u32 == 0x04600000)) &&
        ((a & 0x0f700000u32 == 0x04300000) == (b & 0x0f700000u32 == 0x04300000)) &&
        ((a & 0x0f700000u32 == 0x04200000) == (b & 0x0f700000u32 == 0x04200000)) &&
        ((a & 0x0fd00000u32 == 0x08800000) == (b & 0x0fd00000u32 == 0x08800000)) &&
        ((a & 0x0fd00000u32 == 0x08000000) == (b & 0x0fd00000u32 == 0x08000000)) &&
        ((a & 0x0fd00000u32 == 0x08100000) == (b & 0x0fd00000u32 == 0x08100000)) &&
        ((a & 0x0fd00000u32 == 0x09900000) == (b & 0x0fd00000u32 == 0x09900000)) &&
        ((a & 0x0fd00000u32 == 0x09100000) == (b & 0x0fd00000u32 == 0x09100000)) &&
        ((a & 0x0fd00000u32 == 0x08900000) == (b & 0x0fd00000u32 == 0x08900000)) &&
        ((a & 0x0fd00000u32 == 0x09000000) == (b & 0x0fd00000u32 == 0x09000000)) &&
        ((a & 0x0fd00000u32 == 0x09800000) == (b & 0x0fd00000u32 == 0x09800000)) &&
        ((a & 0x0fb00000u32 == 0x03200000) == (b & 0x0fb00000u32 == 0x03200000)) &&
        ((a & 0x0e500010u32 == 0x06100000) == (b & 0x0e500010u32 == 0x06100000)) &&
        ((a & 0x0e500010u32 == 0x06400000) == (b & 0x0e500010u32 == 0x06400000)) &&
        ((a & 0x0e500010u32 == 0x06500000) == (b & 0x0e500010u32 == 0x06500000)) &&
        ((a & 0x0e500010u32 == 0x06000000) == (b & 0x0e500010u32 == 0x06000000)) &&
        ((a & 0x0f100010u32 == 0x0e100010) == (b & 0x0f100010u32 == 0x0e100010)) &&
        ((a & 0x0f100010u32 == 0x0e000010) == (b & 0x0f100010u32 == 0x0e000010)) &&
        ((a & 0x0e500000u32 == 0x0c000000) == (b & 0x0e500000u32 == 0x0c000000)) &&
        ((a & 0x0e500000u32 == 0x08500000) == (b & 0x0e500000u32 == 0x08500000)) &&
        ((a & 0x0e500000u32 == 0x0c100000) == (b & 0x0e500000u32 == 0x0c100000)) &&
        ((a & 0x0e500000u32 == 0x04000000) == (b & 0x0e500000u32 == 0x04000000)) &&
        ((a & 0x0e500000u32 == 0x04400000) == (b & 0x0e500000u32 == 0x04400000)) &&
        ((a & 0x0e500000u32 == 0x04500000) == (b & 0x0e500000u32 == 0x04500000)) &&
        ((a & 0x0e500000u32 == 0x08400000) == (b & 0x0e500000u32 == 0x08400000)) &&
        ((a & 0x0e500000u32 == 0x04100000) == (b & 0x0e500000u32 == 0x04100000)) &&
        ((a & 0x0f000000u32 == 0x0f000000) == (b & 0x0f000000u32 == 0x0f000000)) &&
        ((a & 0x0f000000u32 == 0x0a000000) == (b & 0x0f000000u32 == 0x0a000000)) &&
        ((a & 0x0f000000u32 == 0x0b000000) == (b & 0x0f000000u32 == 0x0b000000))
    ) by (bit_vector);
}

/// Enumerated type describing different kinds of Thumb instruction encodings.
#[derive(Clone, Copy, Debug, PartialEq, Eq, Structural)]
pub enum ThumbInst {
    SbcReg, CmpReg, OrrReg, BicReg, TstReg, EorReg, MvnReg, CmnReg, AdcReg,
    AndReg, MovReg, SubReg, AddReg, CmpRegAlt, AddRegAlt, MovRegAlt,
    MovRegShiftReg,
    RsbImm, AddImm, MovImm, SubImm, CmpImm, AddSpImm, SubSpImm,
    AddSpImmAlt, AddImmAlt, SubImmAlt,
    StrbReg, LdrhReg, LdrbReg, StrReg, StrhReg, LdrReg, LdrsbReg, LdrshReg,
    StrhImm, StrImm, StrbImm, StrImmAlt, LdrhImm, LdrbImm, LdrImm, LdrImmAlt,
    LdrLit, Stm, Ldm,
    Pop, Push, Mul,
    B, Bx, BlxReg, Svc, Bkpt, BAlt,
    Undefined,
    BlPrefix, BlImmSuffix, BlxImmSuffix,
}

/// The instruction kind encoded by `opcd`, as an ordered mask cascade.
pub open spec fn spec_thumb_decode(opcd: u16) -> ThumbInst {
    if opcd & 0xffc0u16 == 0x4240 {
        ThumbInst::RsbImm
    } else if opcd & 0xffc0u16 == 0x4180 {
        ThumbInst::SbcReg
    } else if opcd & 0xffc0u16 == 0x4280 {
        ThumbInst::CmpReg
    } else if opcd & 0xffc0u16 == 0x4300 {
        ThumbInst::OrrReg
    } else if opcd & 0xffc0u16 == 0x4380 {
        ThumbInst::BicReg
    } else if opcd & 0xffc0u16 == 0x4200 {
        ThumbInst::TstReg
    } else if opcd & 0xffc0u16 == 0x4040 {
        ThumbInst::EorReg
    } else if opcd & 0xffc0u16 == 0x43c0 {
        ThumbInst::MvnReg
    } else if opcd & 0xffc0u16 == 0x42c0 {
        ThumbInst::CmnReg
    } else if opcd & 0xffc0u16 == 0x4140 {
        ThumbInst::AdcReg
    } else if opcd & 0xffc0u16 == 0x4340 {
        ThumbInst::Mul
    } else if opcd & 0xffc0u16 == 0x4000 {
        ThumbInst::AndReg
    } else if opcd & 0xff80u16 == 0xb000 {
        ThumbInst::AddSpImmAlt
    } else if opcd & 0xff80u16 == 0xb080 {
        ThumbInst::SubSpImm
    } else if opcd & 0xff80u16 == 0x4700 {
        ThumbInst::Bx
    } else if opcd & 0xff80u16 == 0x4780 {
        ThumbInst::BlxReg
    } else if opcd & 0xff00u16 == 0xdf00 {
        ThumbInst::Svc
    } else if opcd & 0xff00u16 == 0x4500 {
        ThumbInst::CmpRegAlt
    } else if opcd & 0xff00u16 == 0x4400 {
        ThumbInst::AddRegAlt
    } else if opcd & 0xff00u16 == 0x4600 {
        ThumbInst::MovReg
    } else if opcd & 0xff00u16 == 0xbe00 {
        ThumbInst::Bkpt
    } else if opcd & 0xfe00u16 == 0x1c00 {
        ThumbInst::AddImm
    } else if opcd & 0xfe00u16 == 0x5800 {
        ThumbInst::LdrReg
    } else if opcd & 0xfe00u16 == 0x5600 {
        ThumbInst::LdrsbReg
    } else if opcd & 0xfe00u16 == 0x4000 {
        ThumbInst::MovRegShiftReg
    } else if opcd & 0xfe00u16 == 0x5e00 {
        ThumbInst::LdrshReg
    } else if opcd & 0xfe00u16 == 0x1e00 {
        ThumbInst::SubImm
    } else if opcd & 0xfe00u16 == 0xbc00 {
        ThumbInst::Pop
    } else if opcd & 0xfe00u16 == 0x1800 {
        ThumbInst::AddReg
    } else if opcd & 0xfe00u16 == 0x5400 {
        ThumbInst::StrbReg
    } else if opcd & 0xfe00u16 == 0x1a00 {
        ThumbInst::SubReg
    } else if opcd & 0xfe00u16 == 0xb400 {
        ThumbInst::Push
    } else if opcd & 0xfe00u16 == 0x5a00 {
        ThumbInst::LdrhReg
    } else if opcd & 0xfe00u16 == 0x5c00 {
        ThumbInst::LdrbReg
    } else if opcd & 0xfe00u16 == 0x5000 {
        ThumbInst::StrReg
    } else if opcd & 0xfe00u16 == 0x5200 {
        ThumbInst::StrhReg
    } else if opcd & 0xf800u16 == 0xf000 {
        ThumbInst::BlPrefix
    } else if opcd & 0xf800u16 == 0xf800 {
        ThumbInst::BlImmSuffix
    } else if opcd & 0xf800u16 == 0xe800 {
        ThumbInst::BlxImmSuffix
    } else if opcd & 0xf800u16 == 0xe000 {
        ThumbInst::BAlt
    } else if opcd & 0xf800u16 == 0x2000 {
        ThumbInst::MovImm
    } else if opcd & 0xf800u16 == 0x3000 {
        ThumbInst::AddImmAlt
    } else if opcd & 0xf800u16 == 0xa800 {
        ThumbInst::AddSpImm
    } else if opcd & 0xf800u16 == 0x8000 {
        ThumbInst::StrhImm
    } else if opcd & 0xf800u16 == 0xc000 {
        ThumbInst::Stm
    } else if opcd & 0xf800u16 == 0x3800 {
        ThumbInst::SubImmAlt
    } else if opcd & 0xf800u16 == 0x2800 {
        ThumbInst::CmpImm
    } else if opcd & 0xf800u16 == 0x6000 {
        ThumbInst::StrImm
    } else if opcd & 0xf800u16 == 0x9000 {
        ThumbInst::StrImmAlt
    } else if opcd & 0xf800u16 == 0x7000 {
        ThumbInst::StrbImm
    } else if opcd & 0xf800u16 == 0x8800 {
        ThumbInst::LdrhImm
    } else if opcd & 0xf800u16 == 0x7800 {
        ThumbInst::LdrbImm
    } else if opcd & 0xf800u16 == 0xc800 {
        ThumbInst::Ldm
    } else if opcd & 0xf800u16 == 0x6800 {
        ThumbInst::LdrImm
    } else if opcd & 0xf800u16 == 0x9800 {
        ThumbInst::LdrImmAlt
    } else if opcd & 0xf800u16 == 0x4800 {
        ThumbInst::LdrLit
    } else if opcd & 0xf000u16 == 0xd000 {
        ThumbInst::B
    } else if opcd & 0xe000u16 == 0x0000 {
        ThumbInst::MovRegAlt
    } else {
        ThumbInst::Undefined
    }
}

impl ThumbInst {
    /// Decode a 16-bit Thumb opcode into its instruction kind.
    #[verifier::rlimit(50)]
    #[verifier::spinoff_prover]
    pub fn decode(opcd: u16) -> (r: ThumbInst)
        ensures
            r == spec_thumb_decode(opcd),
    {
    if opcd & 0xffc0u16 == 0x4240 {
        ThumbInst::RsbImm
    } else if opcd & 0xffc0u16 == 0x4180 {
        ThumbInst::SbcReg
    } else if opcd & 0xffc0u16 == 0x4280 {
        ThumbInst::CmpReg
    } else if opcd & 0xffc0u16 == 0x4300 {
        ThumbInst::OrrReg
    } else if opcd & 0xffc0u16 == 0x4380 {
        ThumbInst::BicReg
    } else if opcd & 0xffc0u16 == 0x4200 {
        ThumbInst::TstReg
    } else if opcd & 0xffc0u16 == 0x4040 {
        ThumbInst::EorReg
    } else if opcd & 0xffc0u16 == 0x43c0 {
        ThumbInst::MvnReg
    } else if opcd & 0xffc0u16 == 0x42c0 {
        ThumbInst::CmnReg
    } else if opcd & 0xffc0u16 == 0x4140 {
        ThumbInst::AdcReg
    } else if opcd & 0xffc0u16 == 0x4340 {
        ThumbInst::Mul
    } else if opcd & 0xffc0u16 == 0x4000 {
        ThumbInst::AndReg
    } else if opcd & 0xff80u16 == 0xb000 {
        ThumbInst::AddSpImmAlt
    } else if opcd & 0xff80u16 == 0xb080 {
        ThumbInst::SubSpImm
    } else if opcd & 0xff80u16 == 0x4700 {
        ThumbInst::Bx
    } else if opcd & 0xff80u16 == 0x4780 {
        ThumbInst::BlxReg
    } else if opcd & 0xff00u16 == 0xdf00 {
        ThumbInst::Svc
    } else if opcd & 0xff00u16 == 0x4500 {
        ThumbInst::CmpRegAlt
    } else if opcd & 0xff00u16 == 0x4400 {
        ThumbInst::AddRegAlt
    } else if opcd & 0xff00u16 == 0x4600 {
        ThumbInst::MovReg
    } else if opcd & 0xff00u16 == 0xbe00 {
        ThumbInst::Bkpt
    } else if opcd & 0xfe00u16 == 0x1c00 {
        ThumbInst::AddImm
    } else if opcd & 0xfe00u16 == 0x5800 {
        ThumbInst::LdrReg
    } else if opcd & 0xfe00u16 == 0x5600 {
        ThumbInst::LdrsbReg
    } else if opcd & 0xfe00u16 == 0x4000 {
        ThumbInst::MovRegShiftReg
    } else if opcd & 0xfe00u16 == 0x5e00 {
        ThumbInst::LdrshReg
    } else if opcd & 0xfe00u16 == 0x1e00 {
        ThumbInst::SubImm
    } else if opcd & 0xfe00u16 == 0xbc00 {
        ThumbInst::Pop
    } else if opcd & 0xfe00u16 == 0x1800 {
        ThumbInst::AddReg
    } else if opcd & 0xfe00u16 == 0x5400 {
        ThumbInst::StrbReg
    } else if opcd & 0xfe00u16 == 0x1a00 {
        ThumbInst::SubReg
    } else if opcd & 0xfe00u16 == 0xb400 {
        ThumbInst::Push
    } else if opcd & 0xfe00u16 == 0x5a00 {
        ThumbInst::LdrhReg
    } else if opcd & 0xfe00u16 == 0x5c00 {
        ThumbInst::LdrbReg
    } else if opcd & 0xfe00u16 == 0x5000 {
        ThumbInst::StrReg
    } else if opcd & 0xfe00u16 == 0x5200 {
        ThumbInst::StrhReg
    } else if opcd & 0xf800u16 == 0xf000 {
        ThumbInst::BlPrefix
    } else if opcd & 0xf800u16 == 0xf800 {
        ThumbInst::BlImmSuffix
    } else if opcd & 0xf800u16 == 0xe800 {
        ThumbInst::BlxImmSuffix
    } else if opcd & 0xf800u16 == 0xe000 {
        ThumbInst::BAlt
    } else if opcd & 0xf800u16 == 0x2000 {
        ThumbInst::MovImm
    } else if opcd & 0xf800u16 == 0x3000 {
        ThumbInst::AddImmAlt
    } else if opcd & 0xf800u16 == 0xa800 {
        ThumbInst::AddSpImm
    } else if opcd & 0xf800u16 == 0x8000 {
        ThumbInst::StrhImm
    } else if opcd & 0xf800u16 == 0xc000 {
        ThumbInst::Stm
    } else if opcd & 0xf800u16 == 0x3800 {
        ThumbInst::SubImmAlt
    } else if opcd & 0xf800u16 == 0x2800 {
        ThumbInst::CmpImm
    } else if opcd & 0xf800u16 == 0x6000 {
        ThumbInst::StrImm
    } else if opcd & 0xf800u16 == 0x9000 {
        ThumbInst::StrImmAlt
    } else if opcd & 0xf800u16 == 0x7000 {
        ThumbInst::StrbImm
    } else if opcd & 0xf800u16 == 0x8800 {
        ThumbInst::LdrhImm
    } else if opcd & 0xf800u16 == 0x7800 {
        ThumbInst::LdrbImm
    } else if opcd & 0xf800u16 == 0xc800 {
        ThumbInst::Ldm
    } else if opcd & 0xf800u16 == 0x6800 {
        ThumbInst::LdrImm
    } else if opcd & 0xf800u16 == 0x9800 {
        ThumbInst::LdrImmAlt
    } else if opcd & 0xf800u16 == 0x4800 {
        ThumbInst::LdrLit
    } else if opcd & 0xf000u16 == 0xd000 {
        ThumbInst::B
    } else if opcd & 0xe000u16 == 0x0000 {
        ThumbInst::MovRegAlt
    } else {
        ThumbInst::Undefined
    }
    }
}

/// The Thumb decoder reads only the bits under [`THUMB_KEY_MASK`].
#[verifier::rlimit(100)]
#[verifier::spinoff_prover]
pub proof fn lemma_thumb_decode_key(a: u16, b: u16)
    requires
        a & THUMB_KEY_MASK == b & THUMB_KEY_MASK,
    ensures
        spec_thumb_decode(a) == spec_thumb_decode(b),
{
    assert(
        (a & 0xffc0u16 == b & 0xffc0u16) ==>
        ((a & 0xffc0u16 == 0x4240) == (b & 0xffc0u16 == 0x4240)) &&
        ((a & 0xffc0u16 == 0x4180) == (b & 0xffc0u16 == 0x4180)) &&
        ((a & 0xffc0u16 == 0x4280) == (b & 0xffc0u16 == 0x4280)) &&
        ((a & 0xffc0u16 == 0x4300) == (b & 0xffc0u16 == 0x4300)) &&
        ((a & 0xffc0u16 == 0x4380) == (b & 0xffc0u16 == 0x4380)) &&
        ((a & 0xffc0u16 == 0x4200) == (b & 0xffc0u16 == 0x4200)) &&
        ((a & 0xffc0u16 == 0x4040) == (b & 0xffc0u16 == 0x4040)) &&
        ((a & 0xffc0u16 == 0x43c0) == (b & 0xffc0u16 == 0x43c0)) &&
        ((a & 0xffc0u16 == 0x42c0) == (b & 0xffc0u16 == 0x42c0)) &&
        ((a & 0xffc0u16 == 0x4140) == (b & 0xffc0u16 == 0x4140)) &&
        ((a & 0xffc0u16 == 0x4340) == (b & 0xffc0u16 == 0x4340)) &&
        ((a & 0xffc0u16 == 0x4000) == (b & 0xffc0u16 == 0x4000)) &&
        ((a & 0xff80u16 == 0xb000) == (b & 0xff80u16 == 0xb000)) &&
        ((a & 0xff80u16 == 0xb080) == (b & 0xff80u16 == 0xb080)) &&
        ((a & 0xff80u16 == 0x4700) == (b & 0xff80u16 == 0x4700)) &&
        ((a & 0xff80u16 == 0x4780) == (b & 0xff80u16 == 0x4780)) &&
        ((a & 0xff00u16 == 0xdf00) == (b & 0xff00u16 == 0xdf00)) &&
        ((a & 0xff00u16 == 0x4500) == (b & 0xff00u16 == 0x4500)) &&
        ((a & 0xff00u16 == 0x4400) == (b & 0xff00u16 == 0x4400)) &&
        ((a & 0xff00u16 == 0x4600) == (b & 0xff00u16 == 0x4600)) &&
        ((a & 0xff00u16 == 0xbe00) == (b & 0xff00u16 == 0xbe00)) &&
        ((a & 0xfe00u16 == 0x1c00) == (b & 0xfe00u16 == 0x1c00)) &&
        ((a & 0xfe00u16 == 0x5800) == (b & 0xfe00u16 == 0x5800)) &&
        ((a & 0xfe00u16 == 0x5600) == (b & 0xfe00u16 == 0x5600)) &&
        ((a & 0xfe00u16 == 0x4000) == (b & 0xfe00u16 == 0x4000)) &&
        ((a & 0xfe00u16 == 0x5e00) == (b & 0xfe00u16 == 0x5e00)) &&
        ((a & 0xfe00u16 == 0x1e00) == (b & 0xfe00u16 == 0x1e00)) &&
        ((a & 0xfe00u16 == 0xbc00) == (b & 0xfe00u16 == 0xbc00)) &&
        ((a & 0xfe00u16 == 0x1800) == (b & 0xfe00u16 == 0x1800)) &&
        ((a & 0xfe00u16 == 0x5400) == (b & 0xfe00u16 == 0x5400)) &&
        ((a & 0xfe00u16 == 0x1a00) == (b & 0xfe00u16 == 0x1a00)) &&
        ((a & 0xfe00u16 == 0xb400) == (b & 0xfe00u16 == 0xb400)) &&
        ((a & 0xfe00u16 == 0x5a00) == (b & 0xfe00u16 == 0x5a00)) &&
        ((a & 0xfe00u16 == 0x5c00) == (b & 0xfe00u16 == 0x5c00)) &&
        ((a & 0xfe00u16 == 0x5000) == (b & 0xfe00u16 == 0x5000)) &&
        ((a & 0xfe00u16 == 0x5200) == (b & 0xfe00u16 == 0x5200)) &&
        ((a & 0xf800u16 == 0xf000) == (b & 0xf800u16 == 0xf000)) &&
        ((a & 0xf800u16 == 0xf800) == (b & 0xf800u16 == 0xf800)) &&
        ((a & 0xf800u16 == 0xe800) == (b & 0xf800u16 == 0xe800)) &&
        ((a & 0xf800u16 == 0xe000) == (b & 0xf800u16 == 0xe000)) &&
        ((a & 0xf800u16 == 0x2000) == (b & 0xf800u16 == 0x2000)) &&
        ((a & 0xf800u16 == 0x3000) == (b & 0xf800u16 == 0x3000)) &&
        ((a & 0xf800u16 == 0xa800) == (b & 0xf800u16 == 0xa800)) &&
        ((a & 0xf800u16 == 0x8000) == (b & 0xf800u16 == 0x8000)) &&
        ((a & 0xf800u16 == 0xc000) == (b & 0xf800u16 == 0xc000)) &&
        ((a & 0xf800u16 == 0x3800) == (b & 0xf800u16 == 0x3800)) &&
        ((a & 0xf800u16 == 0x2800) == (b & 0xf800u16 == 0x2800)) &&
        ((a & 0xf800u16 == 0x6000) == (b & 0xf800u16 == 0x6000)) &&
        ((a & 0xf800u16 == 0x9000) == (b & 0xf800u16 == 0x9000)) &&
        ((a & 0xf800u16 == 0x7000) == (b & 0xf800u16 == 0x7000)) &&
        ((a & 0xf800u16 == 0x8800) == (b & 0xf800u16 == 0x8800)) &&
        ((a & 0xf800u16 == 0x7800) == (b & 0xf800u16 == 0x7800)) &&
        ((a & 0xf800u16 == 0xc800) == (b & 0xf800u16 == 0xc800)) &&
        ((a & 0xf800u16 == 0x6800) == (b & 0xf800u16 == 0x6800)) &&
        ((a & 0xf800u16 == 0x9800) == (b & 0xf800u16 == 0x9800)) &&
        ((a & 0xf800u16 == 0x4800) == (b & 0xf800u16 == 0x4800)) &&
        ((a & 0xf000u16 == 0xd000) == (b & 0xf000u16 == 0xd000)) &&
        ((a & 0xe000u16 == 0x0000) == (b & 0xe000u16 == 0x0000))
    ) by (bit_vector);
}

} // verus!
