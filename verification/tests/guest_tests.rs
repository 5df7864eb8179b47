use nil::guest::{Cond, CpuMode, GuestMmu, GuestState, ProgramCounter, Psr};
use nil::ir::Constant;
use nil::mem::MemRegion;

#[test]
fn pc_views() {
    let pc = ProgramCounter(0x1000);
    assert_eq!(pc.fetch(), 0x1000);
    assert_eq!(pc.exec(), 0x1008);
    let mut pc2 = ProgramCounter(0xFFFF_FFFE);
    pc2.increment();
    assert_eq!(pc2.fetch(), 0x0000_0002);
}

#[test]
fn psr_flags() {
    let mut psr = Psr(0);
    psr.set_n(true);
    psr.set_z(false);
    psr.set_c(true);
    psr.set_v(false);
    psr.set_q(true);
    assert!(psr.n());
    assert!(!psr.z());
    assert!(psr.c());
    assert!(!psr.v());
    assert!(psr.q());
    psr.set_c(false);
    assert!(!psr.c());
    assert!(psr.n());
}

#[test]
fn psr_mode_bits() {
    let mut psr = Psr(0);
    psr.set_mode(CpuMode::Svc);
    assert_eq!(psr.mode(), CpuMode::Svc);
    assert!(psr.mode().is_privileged());
    psr.set_mode(CpuMode::Usr);
    assert!(!psr.mode().is_privileged());
    psr.set_thumb(true);
    assert!(psr.thumb());
    psr.set_fiq_disable(true);
    psr.set_irq_disable(true);
    assert!(psr.fiq_disable());
    assert!(psr.irq_disable());
}

#[test]
fn cond_decoding() {
    assert_eq!(Cond::from_bits(0), Cond::EQ);
    assert_eq!(Cond::from_bits(14), Cond::AL);
    assert_eq!(Cond::from_bits(11), Cond::LT);
}

#[test]
fn constant_canonicalization() {
    // Constant::new masks its value to the requested width.
    assert_eq!(Constant::new(8, 0x1FF).value, 0xFF);
    assert_eq!(Constant::new(32, 0x1_2345_6789).value, 0x2345_6789);
    assert_eq!(Constant::new(1, 3).value, 1);
    assert_eq!(Constant::new(64, u64::MAX).value, u64::MAX);
    assert_eq!(Constant::new(16, 0xABCD).width, 16);
}

#[test]
fn arena_round_trip() {
    // write_buf then read back: the arena returns exactly what was stored.
    let mut mmu = GuestMmu::new();
    let buf = [0xDE, 0xAD, 0xBE, 0xEF, 0x42];
    mmu.write_buf(0x100, &buf);
    assert_eq!(mmu.read32(0x100), 0xDEAD_BEEF);
    assert_eq!(mmu.mem.read8(0x104), 0x42);
    assert_eq!(mmu.mem.read16(0x100), 0xDEAD);
    assert_eq!(mmu.mem.read8(0x105), 0x00);
}

#[test]
fn mem_region_zeroed() {
    let r = MemRegion::new(0, 16);
    for i in 0..16 {
        assert_eq!(r.read8(i), 0);
    }
}

#[test]
fn guest_state_fresh() {
    let st = GuestState::new(0x8000, 0);
    assert_eq!(st.reg.len(), 15);
    assert!(st.reg.iter().all(|&r| r == 0));
    assert_eq!(st.pc.fetch(), 0x8000);
    assert_eq!(st.cpsr.0, 0);
}
