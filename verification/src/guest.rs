//! Guest-visible architectural state: registers, program counter, status
//! word, condition codes, and the virtual memory interface used while
//! lifting.

use vstd::prelude::*;

use crate::mem::{be32_at, MemRegion, ARENA_LEN};

verus! {

/// Index of a guest general-purpose register (0..=14).
pub type RegIdx = u32;

/// The guest program counter.
///
/// Two views exist: the *fetch* PC (address of the instruction being lifted)
/// and the *exec* PC (fetch + 8, the architecturally visible PC during the
/// instruction's execution). All arithmetic wraps at 32 bits.
#[derive(Clone, Copy, PartialEq, Eq, Structural, Debug)]
pub struct ProgramCounter(pub u32);

impl ProgramCounter {
    /// The architecturally visible PC while executing the fetched
    /// instruction: fetch + 8, wrapping.
    pub fn exec(&self) -> (r: u32)
        ensures
            r == (self.0 + 8) % 0x1_0000_0000,
    {
        self.0.wrapping_add(8)
    }

    /// The address of the instruction being lifted.
    pub fn fetch(&self) -> (r: u32)
        ensures
            r == self.0,
    {
        self.0
    }

    /// Advance to the next instruction slot (+4, wrapping).
    pub fn increment(&mut self)
        ensures
            final(self).0 == (old(self).0 + 4) % 0x1_0000_0000,
    {
        self.0 = self.0.wrapping_add(4);
    }
}

/// CPU operating mode, as held in the low five bits of the status word.
#[derive(Clone, Copy, PartialEq, Eq, Structural, Debug)]
pub enum CpuMode {
    Usr,
    Fiq,
    Irq,
    Svc,
    Abt,
    Und,
    Sys,
}

/// True when `x` is a valid encoding of a [`CpuMode`].
pub open spec fn is_mode_bits(x: u32) -> bool {
    x == 0b10000 || x == 0b10001 || x == 0b10010 || x == 0b10011 || x == 0b10111 || x == 0b11011
        || x == 0b11111
}

/// The [`CpuMode`] encoded by valid mode bits `x`.
pub open spec fn spec_mode_from_bits(x: u32) -> CpuMode {
    if x == 0b10000 {
        CpuMode::Usr
    } else if x == 0b10001 {
        CpuMode::Fiq
    } else if x == 0b10010 {
        CpuMode::Irq
    } else if x == 0b10011 {
        CpuMode::Svc
    } else if x == 0b10111 {
        CpuMode::Abt
    } else if x == 0b11011 {
        CpuMode::Und
    } else {
        CpuMode::Sys
    }
}

/// The five-bit encoding of a [`CpuMode`].
pub open spec fn spec_mode_bits(m: CpuMode) -> u32 {
    match m {
        CpuMode::Usr => 0b10000,
        CpuMode::Fiq => 0b10001,
        CpuMode::Irq => 0b10010,
        CpuMode::Svc => 0b10011,
        CpuMode::Abt => 0b10111,
        CpuMode::Und => 0b11011,
        CpuMode::Sys => 0b11111,
    }
}

impl CpuMode {
    /// Every mode but user mode is privileged.
    pub fn is_privileged(self) -> (r: bool)
        ensures
            r == (self != CpuMode::Usr),
    {
        self != CpuMode::Usr
    }

    /// The five-bit encoding of this mode.
    pub fn bits(self) -> (r: u32)
        ensures
            r == spec_mode_bits(self),
            is_mode_bits(r),
    {
        match self {
            CpuMode::Usr => 0b10000,
            CpuMode::Fiq => 0b10001,
            CpuMode::Irq => 0b10010,
            CpuMode::Svc => 0b10011,
            CpuMode::Abt => 0b10111,
            CpuMode::Und => 0b11011,
            CpuMode::Sys => 0b11111,
        }
    }

    /// Decode valid mode bits.
    pub fn from_bits(x: u32) -> (r: CpuMode)
        requires
            is_mode_bits(x),
        ensures
            r == spec_mode_from_bits(x),
    {
        if x == 0b10000 {
            CpuMode::Usr
        } else if x == 0b10001 {
            CpuMode::Fiq
        } else if x == 0b10010 {
            CpuMode::Irq
        } else if x == 0b10011 {
            CpuMode::Svc
        } else if x == 0b10111 {
            CpuMode::Abt
        } else if x == 0b11011 {
            CpuMode::Und
        } else {
            CpuMode::Sys
        }
    }
}

/// Program status register: mode bits, Thumb/FIQ/IRQ bits and the
/// NZCVQ condition flags, packed as on the guest architecture.
#[derive(Clone, Copy, PartialEq, Eq, Structural, Debug)]
pub struct Psr(pub u32);

impl Psr {
    /// Replace bit `idx` of the word with `val`.
    fn set_bit(&mut self, idx: usize, val: bool)
        requires
            idx < 32,
        ensures
            final(self).0 == (old(self).0 & !(1u32 << idx)) | ((if val {
                1u32
            } else {
                0u32
            }) << idx),
    {
        self.0 = (self.0 & !(1u32 << idx)) | ((if val {
            1u32
        } else {
            0u32
        }) << idx)
    }

    /// The operating mode held in the low five bits.
    pub fn mode(&self) -> (r: CpuMode)
        requires
            is_mode_bits(self.0 & 0x1f),
        ensures
            r == spec_mode_from_bits(self.0 & 0x1f),
    {
        CpuMode::from_bits(self.0 & 0x1f)
    }

    /// The Thumb-state bit.
    pub fn thumb(&self) -> (r: bool)
        ensures
            r == ((self.0 & 0x0000_0020) != 0),
    {
        (self.0 & 0x0000_0020) != 0
    }

    /// The FIQ-disable bit.
    pub fn fiq_disable(&self) -> (r: bool)
        ensures
            r == ((self.0 & 0x0000_0040) != 0),
    {
        (self.0 & 0x0000_0040) != 0
    }

    /// The IRQ-disable bit.
    pub fn irq_disable(&self) -> (r: bool)
        ensures
            r == ((self.0 & 0x0000_0080) != 0),
    {
        (self.0 & 0x0000_0080) != 0
    }

    /// The sticky-saturation flag.
    pub fn q(&self) -> (r: bool)
        ensures
            r == ((self.0 & 0x0800_0000) != 0),
    {
        (self.0 & 0x0800_0000) != 0
    }

    /// The overflow flag.
    pub fn v(&self) -> (r: bool)
        ensures
            r == ((self.0 & 0x1000_0000) != 0),
    {
        (self.0 & 0x1000_0000) != 0
    }

    /// The carry flag.
    pub fn c(&self) -> (r: bool)
        ensures
            r == ((self.0 & 0x2000_0000) != 0),
    {
        (self.0 & 0x2000_0000) != 0
    }

    /// The zero flag.
    pub fn z(&self) -> (r: bool)
        ensures
            r == ((self.0 & 0x4000_0000) != 0),
    {
        (self.0 & 0x4000_0000) != 0
    }

    /// The negative flag.
    pub fn n(&self) -> (r: bool)
        ensures
            r == ((self.0 & 0x8000_0000) != 0),
    {
        (self.0 & 0x8000_0000) != 0
    }

    /// Replace the mode bits.
    pub fn set_mode(&mut self, mode: CpuMode)
        ensures
            final(self).0 == (old(self).0 & !0x1fu32) | spec_mode_bits(mode),
    {
        self.0 = (self.0 & !0x1fu32) | mode.bits()
    }

    /// Replace the Thumb-state bit.
    pub fn set_thumb(&mut self, val: bool)
        ensures
            final(self).0 == (old(self).0 & !(1u32 << 5)) | ((if val {
                1u32
            } else {
                0u32
            }) << 5),
    {
        self.set_bit(5, val);
    }

    /// Replace the FIQ-disable bit.
    pub fn set_fiq_disable(&mut self, val: bool)
        ensures
            final(self).0 == (old(self).0 & !(1u32 << 6)) | ((if val {
                1u32
            } else {
                0u32
            }) << 6),
    {
        self.set_bit(6, val);
    }

    /// Replace the IRQ-disable bit.
    pub fn set_irq_disable(&mut self, val: bool)
        ensures
            final(self).0 == (old(self).0 & !(1u32 << 7)) | ((if val {
                1u32
            } else {
                0u32
            }) << 7),
    {
        self.set_bit(7, val);
    }

    /// Replace the sticky-saturation flag.
    pub fn set_q(&mut self, val: bool)
        ensures
            final(self).0 == (old(self).0 & !(1u32 << 27)) | ((if val {
                1u32
            } else {
                0u32
            }) << 27),
    {
        self.set_bit(27, val);
    }

    /// Replace the overflow flag.
    pub fn set_v(&mut self, val: bool)
        ensures
            final(self).0 == (old(self).0 & !(1u32 << 28)) | ((if val {
                1u32
            } else {
                0u32
            }) << 28),
    {
        self.set_bit(28, val);
    }

    /// Replace the carry flag.
    pub fn set_c(&mut self, val: bool)
        ensures
            final(self).0 == (old(self).0 & !(1u32 << 29)) | ((if val {
                1u32
            } else {
                0u32
            }) << 29),
    {
        self.set_bit(29, val);
    }

    /// Replace the zero flag.
    pub fn set_z(&mut self, val: bool)
        ensures
            final(self).0 == (old(self).0 & !(1u32 << 30)) | ((if val {
                1u32
            } else {
                0u32
            }) << 30),
    {
        self.set_bit(30, val);
    }

    /// Replace the negative flag.
    pub fn set_n(&mut self, val: bool)
        ensures
            final(self).0 == (old(self).0 & !(1u32 << 31)) | ((if val {
                1u32
            } else {
                0u32
            }) << 31),
    {
        self.set_bit(31, val);
    }
}

/// Guest condition codes, as held in bits 31..28 of an instruction.
#[derive(Clone, Copy, PartialEq, Eq, Structural, Debug)]
pub enum Cond {
    EQ,
    NE,
    CS,
    CC,
    MI,
    PL,
    VS,
    VC,
    HI,
    LS,
    GE,
    LT,
    GT,
    LE,
    AL,
}

/// The [`Cond`] encoded by condition bits `x` (valid for `x < 15`).
pub open spec fn spec_cond_from_bits(x: u32) -> Cond {
    if x == 0 {
        Cond::EQ
    } else if x == 1 {
        Cond::NE
    } else if x == 2 {
        Cond::CS
    } else if x == 3 {
        Cond::CC
    } else if x == 4 {
        Cond::MI
    } else if x == 5 {
        Cond::PL
    } else if x == 6 {
        Cond::VS
    } else if x == 7 {
        Cond::VC
    } else if x == 8 {
        Cond::HI
    } else if x == 9 {
        Cond::LS
    } else if x == 10 {
        Cond::GE
    } else if x == 11 {
        Cond::LT
    } else if x == 12 {
        Cond::GT
    } else if x == 13 {
        Cond::LE
    } else {
        Cond::AL
    }
}

impl Cond {
    /// Decode a four-bit condition field. The encoding 0b1111 is not a
    /// condition and is rejected by the lifter before this is called.
    pub fn from_bits(x: u32) -> (r: Cond)
        requires
            x < 15,
        ensures
            r == spec_cond_from_bits(x),
    {
        if x == 0 {
            Cond::EQ
        } else if x == 1 {
            Cond::NE
        } else if x == 2 {
            Cond::CS
        } else if x == 3 {
            Cond::CC
        } else if x == 4 {
            Cond::MI
        } else if x == 5 {
            Cond::PL
        } else if x == 6 {
            Cond::VS
        } else if x == 7 {
            Cond::VC
        } else if x == 8 {
            Cond::HI
        } else if x == 9 {
            Cond::LS
        } else if x == 10 {
            Cond::GE
        } else if x == 11 {
            Cond::LT
        } else if x == 12 {
            Cond::GT
        } else if x == 13 {
            Cond::LE
        } else {
            Cond::AL
        }
    }
}

/// The virtual MMU: the single guest memory arena.
pub struct GuestMmu {
    /// The backing memory region for all of guest physical memory.
    pub mem: MemRegion,
}

impl GuestMmu {
    /// The arena always spans exactly `ARENA_LEN` bytes.
    pub open spec fn wf(&self) -> bool {
        self.mem.data@.len() == ARENA_LEN
    }

    /// A fresh, zero-filled arena at guest address 0.
    pub fn new() -> (r: GuestMmu)
        ensures
            r.wf(),
            forall|i: int| 0 <= i < ARENA_LEN ==> r.mem.data@[i] == 0u8,
    {
        GuestMmu { mem: MemRegion::new(0x0000_0000, ARENA_LEN) }
    }

    /// Copy `buf` into the arena at guest address `addr`.
    pub fn write_buf(&mut self, addr: u32, buf: &[u8])
        requires
            old(self).wf(),
            addr + buf@.len() <= ARENA_LEN,
        ensures
            final(self).wf(),
            forall|i: int|
                addr <= i < addr + buf@.len() ==> final(self).mem.data@[i] == buf@[i - addr],
            forall|i: int|
                0 <= i < ARENA_LEN && !(addr <= i < addr + buf@.len())
                    ==> final(self).mem.data@[i] == old(self).mem.data@[i],
    {
        self.mem.write_buf(addr, buf);
    }

    /// Read the 32-bit big-endian value at guest address `addr`.
    pub fn read32(&self, addr: u32) -> (r: u32)
        requires
            self.wf(),
            addr + 4 <= ARENA_LEN,
        ensures
            r as int == be32_at(self.mem.data@, addr as int),
    {
        self.mem.read32(addr as usize)
    }
}

/// The complete guest register state: R0..R14, the PC, and the CPSR.
///
/// The runtime lays these fields out as fifteen 32-bit registers followed by
/// the 32-bit PC and the 32-bit CPSR, with no padding, so that generated code
/// can address them at fixed byte offsets (R14 at +0x38, PC at +0x3C).
#[derive(Clone, Debug)]
pub struct GuestState {
    /// The general-purpose registers R0..R14.
    pub reg: Vec<u32>,
    /// The program counter.
    pub pc: ProgramCounter,
    /// The current program status register.
    pub cpsr: Psr,
}

impl GuestState {
    /// A guest state always holds exactly fifteen general-purpose registers.
    pub open spec fn wf(&self) -> bool {
        self.reg@.len() == 15
    }

    /// Fresh state: all registers zero, the given PC and CPSR.
    pub fn new(pc: u32, cpsr: u32) -> (r: GuestState)
        ensures
            r.wf(),
            forall|i: int| 0 <= i < 15 ==> r.reg@[i] == 0u32,
            r.pc.0 == pc,
            r.cpsr.0 == cpsr,
    {
        GuestState { reg: vec![0u32; 15], pc: ProgramCounter(pc), cpsr: Psr(cpsr) }
    }
}

} // verus!
