//! The guest memory arena, modelled as a plain byte buffer.

use vstd::prelude::*;

verus! {

/// Host virtual address at which the runtime maps the arena, so that
/// generated code can reach guest memory with base-plus-offset addressing.
pub const ARENA_BASE: u64 = 0x0000_1337_0000_0000;

/// Length of the guest memory arena in bytes.
pub const ARENA_LEN: usize = 0x0010_0000;

/// Big-endian 32-bit value held at offset `off` of a byte sequence.
pub open spec fn be32_at(s: Seq<u8>, off: int) -> int {
    (s[off] as int) * 0x100_0000 + (s[off + 1] as int) * 0x1_0000 + (s[off + 2] as int) * 0x100
        + (s[off + 3] as int)
}

/// Big-endian 16-bit value held at offset `off` of a byte sequence.
pub open spec fn be16_at(s: Seq<u8>, off: int) -> int {
    (s[off] as int) * 0x100 + (s[off + 1] as int)
}

/// A contiguous region of guest physical memory.
///
/// The runtime maps a host region with these contents at `ARENA_BASE`; this
/// type is the model of the region that the lifter and the tests read.
pub struct MemRegion {
    /// The bytes held by this region.
    pub data: Vec<u8>,
    /// Guest physical address of the first byte of this region.
    pub addr: u32,
}

impl MemRegion {
    /// Create a zero-filled region of `len` bytes at guest address `addr`.
    pub fn new(addr: u32, len: usize) -> (r: MemRegion)
        ensures
            r.addr == addr,
            r.data@.len() == len,
            forall|i: int| 0 <= i < len ==> r.data@[i] == 0u8,
    {
        MemRegion { data: vec![0u8; len], addr }
    }

    /// Copy `buf` into the region starting at offset `off`.
    pub fn write_buf(&mut self, off: u32, buf: &[u8])
        requires
            off + buf@.len() <= old(self).data@.len(),
        ensures
            final(self).addr == old(self).addr,
            final(self).data@.len() == old(self).data@.len(),
            forall|i: int|
                off <= i < off + buf@.len() ==> final(self).data@[i] == buf@[i - off],
            forall|i: int|
                0 <= i < old(self).data@.len() && !(off <= i < off + buf@.len())
                    ==> final(self).data@[i] == old(self).data@[i],
    {
        let len = self.data.len();
        let mut i: usize = 0;
        while i < buf.len()
            invariant
                i <= buf@.len(),
                len == self.data@.len(),
                off + buf@.len() <= self.data@.len(),
                self.addr == old(self).addr,
                self.data@.len() == old(self).data@.len(),
                forall|j: int| off <= j < off + i ==> self.data@[j] == buf@[j - off],
                forall|j: int|
                    0 <= j < old(self).data@.len() && !(off <= j < off + i)
                        ==> self.data@[j] == old(self).data@[j],
            decreases buf@.len() - i,
        {
            let idx = off as usize + i;
            self.data.set(idx, buf[i]);
            i = i + 1;
        }
    }

    /// Read a 32-bit big-endian value at offset `off`.
    pub fn read32(&self, off: usize) -> (r: u32)
        requires
            off + 4 <= self.data@.len(),
        ensures
            r as int == be32_at(self.data@, off as int),
    {
        let len = self.data.len();
        let b0 = self.data[off] as u32;
        let b1 = self.data[off + 1] as u32;
        let b2 = self.data[off + 2] as u32;
        let b3 = self.data[off + 3] as u32;
        b0 * 0x100_0000 + b1 * 0x1_0000 + b2 * 0x100 + b3
    }

    /// Read a 16-bit big-endian value at offset `off`.
    pub fn read16(&self, off: usize) -> (r: u16)
        requires
            off + 2 <= self.data@.len(),
        ensures
            r as int == be16_at(self.data@, off as int),
    {
        let len = self.data.len();
        let b0 = self.data[off] as u16;
        let b1 = self.data[off + 1] as u16;
        b0 * 0x100 + b1
    }

    /// Read the byte at offset `off`.
    pub fn read8(&self, off: usize) -> (r: u8)
        requires
            off < self.data@.len(),
        ensures
            r == self.data@[off as int],
    {
        self.data[off]
    }
}


/// Round-trip law for the arena: after copying a buffer to offset `a`, the
/// first `n` bytes read back from `a` are exactly the first `n` bytes of the
/// buffer.
pub proof fn lemma_write_read_round_trip(post: Seq<u8>, a: int, b: Seq<u8>, n: int)
    requires
        0 <= a,
        a + b.len() <= post.len(),
        forall|i: int| a <= i < a + b.len() ==> post[i] == b[i - a],
        0 <= n <= b.len(),
    ensures
        post.subrange(a, a + n) == b.take(n),
{
    assert(post.subrange(a, a + n) =~= b.take(n));
}

} // verus!
