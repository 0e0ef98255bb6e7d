//! Flat byte-addressable memory covering the full 16-bit address space.
//!
//! Every read and write is unconditionally in range: the space is always
//! allocated whole, so no bounds failure is possible for a 16-bit address.

use vstd::prelude::*;

verus! {

/// Number of addressable bytes: the whole 16-bit address space.
pub const MEM_SIZE: usize = 0x10000;

/// The shared addressable memory. Both the instruction execution engine and
/// the pixel pipeline read and write it, one component at a time.
pub struct Mmu {
    memory: Vec<u8>,
}

impl View for Mmu {
    type V = Seq<u8>;

    closed spec fn view(&self) -> Seq<u8> {
        self.memory@
    }
}

impl Mmu {
    #[verifier::type_invariant]
    spec fn inv(&self) -> bool {
        self.memory@.len() == MEM_SIZE
    }

    /// Every 16-bit address maps to a byte.
    pub fn size(&self) -> (r: usize)
        ensures
            r == self@.len(),
            r == MEM_SIZE,
    {
        proof {
            use_type_invariant(self);
        }
        self.memory.len()
    }

    /// Memory at power-on: every byte zero.
    pub fn new() -> (r: Self)
        ensures
            r@ == Seq::new(MEM_SIZE as nat, |i: int| 0u8),
    {
        let mut memory: Vec<u8> = Vec::new();
        let mut i: usize = 0;
        while i < MEM_SIZE
            invariant
                i <= MEM_SIZE,
                memory@.len() == i,
                forall|j: int| 0 <= j < i ==> memory@[j] == 0u8,
            decreases MEM_SIZE - i,
        {
            memory.push(0u8);
            i = i + 1;
        }
        let r = Mmu { memory };
        proof {
            assert(r@ =~= Seq::new(MEM_SIZE as nat, |i: int| 0u8));
        }
        r
    }

    /// Copies a boot image into the lowest addresses, leaving the rest as it
    /// was.
    pub fn load_boot_image(&mut self, rom: &Vec<u8>)
        requires
            rom@.len() <= MEM_SIZE,
        ensures
            final(self)@ == rom@ + old(self)@.skip(rom@.len() as int),
    {
        proof {
            use_type_invariant(&*self);
        }
        let n = rom.len();
        let mut i: usize = 0;
        while i < n
            invariant
                i <= n,
                n == rom@.len() <= MEM_SIZE,
                self.memory@.len() == MEM_SIZE,
                forall|j: int| 0 <= j < i ==> self.memory@[j] == rom@[j],
                forall|j: int| i <= j < MEM_SIZE ==> self.memory@[j] == old(self)@[j],
            decreases n - i,
        {
            self.memory[i] = rom[i];
            i = i + 1;
        }
        proof {
            assert(self@ =~= rom@ + old(self)@.skip(rom@.len() as int));
        }
    }

    /// The byte at `addr`.
    pub fn read_byte(&self, addr: u16) -> (r: u8)
        ensures
            r == self@[addr as int],
    {
        proof {
            use_type_invariant(self);
        }
        self.memory[addr as usize]
    }

    /// Stores `data` at `addr`.
    pub fn write_byte(&mut self, addr: u16, data: u8)
        ensures
            final(self)@ == old(self)@.update(addr as int, data),
    {
        proof {
            use_type_invariant(&*self);
        }
        self.memory[addr as usize] = data;
    }
}

} // verus!
