use nil::decode::{ArmInst, ThumbInst};
use nil::lut::{ArmLut, DecoderLut, ThumbLut};

#[test]
fn decode_mov_imm() {
    assert!(matches!(ArmInst::decode(0xE3A0_0001), ArmInst::MovImm));
}

#[test]
fn decode_sub_imm_flags() {
    assert!(matches!(ArmInst::decode(0xE251_1003), ArmInst::SubImm));
}

#[test]
fn decode_ldr_literal() {
    assert!(matches!(ArmInst::decode(0xE59F_00F8), ArmInst::LdrImm));
}

#[test]
fn decode_branch() {
    assert!(matches!(ArmInst::decode(0xEA00_0003), ArmInst::B));
}

#[test]
fn decode_branch_and_link() {
    assert!(matches!(ArmInst::decode(0xEB00_0005), ArmInst::BlImm));
}

#[test]
fn decode_str_post_index() {
    assert!(matches!(ArmInst::decode(0xE481_0004), ArmInst::StrImm));
}

#[test]
fn decode_str_translated_is_not_plain_str() {
    // P=0, W=1 is the unprivileged-store encoding, not a plain STR: the
    // cascade's mask order resolves the alias in favour of Strt.
    assert!(matches!(ArmInst::decode(0xE4A1_0004), ArmInst::Strt));
}

#[test]
fn decode_mov_reg() {
    assert!(matches!(ArmInst::decode(0xE1A0_2001), ArmInst::MovReg));
}

#[test]
fn decode_cmp_imm() {
    assert!(matches!(ArmInst::decode(0xE351_0003), ArmInst::CmpImm));
}

#[test]
fn decode_stmdb() {
    assert!(matches!(ArmInst::decode(0xE92D_4010), ArmInst::Stmdb));
}

#[test]
fn decode_qadd() {
    assert!(matches!(ArmInst::decode(0xE103_0054), ArmInst::Qadd));
}

#[test]
fn decode_undefined() {
    assert!(matches!(ArmInst::decode(0xE7F0_00F0), ArmInst::Undefined));
}

#[test]
fn decode_thumb_mov_imm() {
    assert!(matches!(ThumbInst::decode(0x2001), ThumbInst::MovImm));
}

#[test]
fn decode_thumb_push() {
    assert!(matches!(ThumbInst::decode(0xB410), ThumbInst::Push));
}

#[test]
fn lut_agrees_with_decoder() {
    // The table was built from canonical opcodes; a lookup must agree with
    // the decoder on arbitrary opcodes, whose extra bits the decoder does
    // not inspect.
    let lut = ArmLut::create_lut();
    let samples: [u32; 8] = [
        0xE3A0_0001,
        0xE251_1003,
        0xE59F_00F8,
        0xEA00_0003,
        0xEB00_0005,
        0xE481_0004,
        0x0123_4567,
        0xFFFF_FFFF,
    ];
    for op in samples {
        assert_eq!(lut.lookup(op), ArmInst::decode(op));
    }
}

#[test]
fn thumb_lut_agrees_with_decoder() {
    let lut = ThumbLut::create_lut();
    for op in [0x2001u16, 0xB410, 0x0000, 0xFFFF, 0x4700] {
        assert_eq!(lut.lookup(op), ThumbInst::decode(op));
    }
}

#[test]
fn decoder_lut_container_builds_both_tables() {
    let lut = DecoderLut::new();
    assert_eq!(lut.arm.lookup(0xE3A0_0001), ArmInst::decode(0xE3A0_0001));
    assert_eq!(lut.thumb.lookup(0x2001), ThumbInst::decode(0x2001));
}
