//! Flat addressable byte store of the machine.
//!
//! 4096 bytes, addresses 0x000 through 0xFFF. Every access is bounds-checked
//! at the contract level: an address beyond the end of the store is a
//! programming error of the caller, ruled out by `requires`, never silently
//! truncated.

use vstd::prelude::*;

verus! {

/// Number of addressable bytes.
pub const MEMORY_SIZE: usize = 4096;

/// The byte store. Its view is the sequence of its 4096 bytes.
pub struct Memory {
    bytes: [u8; 4096],
}

impl View for Memory {
    type V = Seq<u8>;

    closed spec fn view(&self) -> Seq<u8> {
        self.bytes@
    }
}

impl Memory {
    /// A fresh store with every byte zero.
    pub fn new() -> (r: Self)
        ensures
            r@.len() == MEMORY_SIZE,
            forall|a: int| 0 <= a < MEMORY_SIZE ==> r@[a] == 0u8,
    {
        Memory { bytes: [0u8; 4096] }
    }

    /// Read the byte at address `pos`.
    pub fn get_byte(&mut self, pos: usize) -> (r: u8)
        requires
            pos < MEMORY_SIZE,
        ensures
            *final(self) == *old(self),
            r == old(self)@[pos as int],
    {
        self.bytes[pos]
    }

    /// Write `value` to address `pos`.
    pub fn set_byte(&mut self, pos: usize, value: u8)
        requires
            pos < MEMORY_SIZE,
        ensures
            final(self)@ == old(self)@.update(pos as int, value),
    {
        self.bytes[pos] = value;
    }

    /// Copy `data` into the store starting at address `at`.
    pub fn write_slice_at(&mut self, at: usize, data: &[u8])
        requires
            at + data@.len() <= MEMORY_SIZE,
        ensures
            final(self)@.len() == old(self)@.len(),
            forall|a: int|
                at <= a < at + data@.len() ==> final(self)@[a] == data@[a - at],
            forall|a: int|
                0 <= a < MEMORY_SIZE && !(at <= a < at + data@.len())
                    ==> final(self)@[a] == old(self)@[a],
    {
        let mut k: usize = 0;
        while k < data.len()
            invariant
                at + data@.len() <= MEMORY_SIZE,
                k <= data@.len(),
                self@.len() == old(self)@.len(),
                forall|a: int| at <= a < at + k ==> self@[a] == data@[a - at],
                forall|a: int|
                    0 <= a < MEMORY_SIZE && !(at <= a < at + k)
                        ==> self@[a] == old(self)@[a],
            decreases data@.len() - k,
        {
            self.bytes[at + k] = data[k];
            k = k + 1;
        }
    }

    /// Read `n` consecutive bytes starting at address `at`.
    pub fn read_slice_at(&mut self, at: usize, n: usize) -> (r: Vec<u8>)
        requires
            at + n <= MEMORY_SIZE,
        ensures
            *final(self) == *old(self),
            r@.len() == n,
            forall|j: int| 0 <= j < n ==> r@[j] == old(self)@[at + j],
    {
        let mut out: Vec<u8> = Vec::new();
        let mut k: usize = 0;
        while k < n
            invariant
                at + n <= MEMORY_SIZE,
                k <= n,
                out@.len() == k,
                forall|j: int| 0 <= j < k ==> out@[j] == self@[at + j],
            decreases n - k,
        {
            out.push(self.bytes[at + k]);
            k = k + 1;
        }
        out
    }
}

} // verus!
