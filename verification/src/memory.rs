//! A small standalone byte memory.

use vstd::prelude::*;

verus! {

/// The number of bytes a `Mem` holds.
pub const MEM_SIZE: usize = 16384;

/// A flat byte memory with unchecked access.
pub struct Mem {
    mem: [u8; 16384],
}

impl View for Mem {
    type V = Seq<u8>;

    closed spec fn view(&self) -> Seq<u8> {
        self.mem@
    }
}

impl Mem {
    /// The memory of any `Mem` holds exactly its fixed size of bytes.
    pub proof fn lemma_len(&self)
        ensures
            self@.len() == 16384,
    {
    }

    pub fn new() -> (m: Mem)
        ensures
            m@ == Seq::new(16384nat, |i: int| 0u8),
    {
        Mem { mem: [0u8; 16384] }
    }

    pub fn get(&self, address: u16) -> (b: u8)
        requires
            address < 16384,
        ensures
            b == self@[address as int],
    {
        self.mem[address as usize]
    }

    pub fn set(&mut self, dest: u16, src: u8)
        requires
            dest < 16384,
        ensures
            final(self)@ == old(self)@.update(dest as int, src),
    {
        self.mem[dest as usize] = src;
    }

    pub fn get_range(&self, a: u16, b: u16) -> (r: &[u8])
        requires
            a <= b <= 16384,
        ensures
            r@ == self@.subrange(a as int, b as int),
    {
        let s: &[u8] = self.mem.as_slice();
        vstd::slice::slice_subrange(s, a as usize, b as usize)
    }
}

} // verus!
