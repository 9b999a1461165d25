//! Heap buffers whose payload starts at a caller-chosen byte alignment.
//!
//! Direct block-device I/O rejects buffers that are not aligned to the storage
//! block size, so the transfer driver allocates one such buffer and reuses it
//! for every block. The buffer over-allocates by one alignment unit and places
//! the payload at the first aligned offset inside the allocation.

use vstd::prelude::*;
use vstd::arithmetic::div_mod::{lemma_fundamental_div_mod, lemma_mod_multiples_basic};

verus! {

/// True when `n` is a power of two.
pub open spec fn is_power_of_two(n: nat) -> bool
    decreases n,
{
    if n == 0 {
        false
    } else if n == 1 {
        true
    } else {
        n % 2 == 0 && is_power_of_two(n / 2)
    }
}

/// Relies on std's `Vec::as_ptr` for the address of the vector's heap buffer.
/// std guarantees that a live allocation fits in the address space without
/// wrapping, so the one-past-the-end offset still fits in `usize`; nothing
/// else is assumed of the address.
#[verifier::external_body]
fn buffer_base_address(v: &Vec<u8>) -> (r: usize)
    ensures
        r + v@.len() <= usize::MAX,
{
    v.as_ptr() as usize
}

/// A zero-initialised heap region of `size` bytes whose first payload byte
/// sits at an address that is a multiple of `align`.
pub struct AlignedBuffer {
    data: Vec<u8>,
    start: usize,
    addr: usize,
    size: usize,
    align: usize,
}

impl View for AlignedBuffer {
    type V = Seq<u8>;

    closed spec fn view(&self) -> Seq<u8> {
        self.data@.subrange(self.start as int, self.start + self.size)
    }
}

impl AlignedBuffer {
    /// The payload lies inside the allocation and its address is aligned.
    pub closed spec fn wf(&self) -> bool {
        &&& 0 < self.size
        &&& 0 < self.align
        &&& self.start + self.size <= self.data@.len()
        &&& self.addr as int % self.align as int == 0
    }

    pub closed spec fn spec_size(&self) -> usize {
        self.size
    }

    pub closed spec fn spec_align(&self) -> usize {
        self.align
    }

    pub closed spec fn spec_addr(&self) -> usize {
        self.addr
    }

    /// Allocate `size` bytes at an address that is a multiple of `align`.
    ///
    /// The returned address is congruent to 0 modulo `align`, for every
    /// power-of-two alignment; the payload starts zeroed.
    pub fn new(size: usize, align: usize) -> (r: AlignedBuffer)
        requires
            0 < size,
            0 < align,
            is_power_of_two(align as nat),
            size + align <= usize::MAX,
        ensures
            r.wf(),
            r.spec_size() == size,
            r.spec_align() == align,
            r.spec_addr() as int % align as int == 0,
            r@ =~= Seq::new(size as nat, |i: int| 0u8),
    {
        let total: usize = size + align;
        let mut data: Vec<u8> = Vec::new();
        let mut i: usize = 0;
        while i < total
            invariant
                i <= total,
                data@.len() == i,
                forall|j: int| 0 <= j < i ==> data@[j] == 0u8,
            decreases total - i,
        {
            data.push(0u8);
            i = i + 1;
        }
        let base = buffer_base_address(&data);
        let rem = base % align;
        let pad: usize = if rem == 0 {
            0
        } else {
            align - rem
        };
        let addr = base + pad;
        proof {
            let b = base as int;
            let a = align as int;
            lemma_fundamental_div_mod(b, a);
            if rem != 0 {
                assert(addr as int == (b / a) * a + a);
                assert((b / a) * a + a == (b / a + 1) * a) by (nonlinear_arith);
                lemma_mod_multiples_basic(b / a + 1, a);
            } else {
                lemma_mod_multiples_basic(b / a, a);
            }
        }
        let r = AlignedBuffer { data, start: pad, addr, size, align };
        proof {
            assert forall|j: int| 0 <= j < size implies r@[j] == 0u8 by {
                assert(r@[j] == r.data@[r.start + j]);
            }
        }
        r
    }

    /// The number of payload bytes.
    pub fn len(&self) -> (r: usize)
        requires
            self.wf(),
        ensures
            r == self.spec_size(),
            r == self@.len(),
    {
        self.size
    }

    /// The alignment the buffer was created with.
    pub fn alignment(&self) -> (r: usize)
        ensures
            r == self.spec_align(),
    {
        self.align
    }

    /// The address of the first payload byte, as handed to the kernel.
    pub fn address(&self) -> (r: usize)
        ensures
            r == self.spec_addr(),
    {
        self.addr
    }

    /// Read the payload byte at `i`.
    pub fn read_byte(&self, i: usize) -> (r: u8)
        requires
            self.wf(),
            i < self.spec_size(),
        ensures
            r == self@[i as int],
    {
        proof {
            assert(self.data@.len() == self.data.len());
        }
        self.data[self.start + i]
    }

    /// Overwrite the payload byte at `i`.
    pub fn write_byte(&mut self, i: usize, b: u8)
        requires
            old(self).wf(),
            i < old(self).spec_size(),
        ensures
            final(self).wf(),
            final(self).spec_size() == old(self).spec_size(),
            final(self).spec_align() == old(self).spec_align(),
            final(self).spec_addr() == old(self).spec_addr(),
            final(self)@ =~= old(self)@.update(i as int, b),
    {
        proof {
            assert(self.data@.len() == self.data.len());
        }
        let j = self.start + i;
        self.data[j] = b;
    }
}

} // verus!
