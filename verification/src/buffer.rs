//! The shape of the memory that direct I/O reads into and writes from.

use vstd::prelude::*;
use crate::worker::{Submission, WorkerView};

verus! {

/// The sector size that buffers and transfers are aligned to.
pub const SECTOR_SIZE: usize = 4096;

/// `n` has exactly one bit set.
pub open spec fn is_power_of_two(n: usize) -> bool {
    n != 0 && n & ((n - 1) as usize) == 0
}

/// The size and alignment of one I/O buffer.
#[derive(Clone, Copy, Debug, PartialEq, Eq, Structural)]
pub struct BufferLayout {
    pub size: usize,
    pub align: usize,
}

impl BufferLayout {
    /// Memory of this shape can be asked for: the alignment is a power of
    /// two, and the size rounded up to it still fits a signed size.
    pub open spec fn valid(self) -> bool {
        &&& is_power_of_two(self.align)
        &&& self.size + (self.align - 1) <= isize::MAX
    }

    /// The layout of `size` bytes aligned to `align`, if memory of that shape
    /// can be asked for.
    pub fn new(size: usize, align: usize) -> (layout: Option<Self>)
        ensures
            (BufferLayout { size, align }).valid() ==> layout == Some(BufferLayout { size, align }),
            !(BufferLayout { size, align }).valid() ==> layout.is_none(),
    {
        if align == 0 || align & (align - 1) != 0 {
            return None;
        }
        let limit = isize::MAX as usize;
        if align - 1 > limit || size > limit - (align - 1) {
            return None;
        }
        Some(BufferLayout { size, align })
    }

    /// Whether memory at `addr` meets the alignment.
    pub fn holds(&self, addr: usize) -> (ok: bool)
        requires
            self.valid(),
        ensures
            ok == (addr % self.align == 0),
    {
        addr % self.align == 0
    }
}

/// Where the block size is a whole number of sectors, every I/O a worker may
/// issue starts on a sector boundary and is a whole number of sectors long.
pub proof fn lemma_submissions_sector_aligned(w: WorkerView, s: Submission)
    requires
        w.admits(s),
        w.io_size % SECTOR_SIZE as u64 == 0,
    ensures
        s.len % SECTOR_SIZE as u64 == 0,
        s.offset % SECTOR_SIZE as u64 == 0,
{
    let blocks = s.offset as int / w.io_size as int;
    let sectors = w.io_size as int / 4096;
    vstd::arithmetic::div_mod::lemma_fundamental_div_mod(s.offset as int, w.io_size as int);
    vstd::arithmetic::div_mod::lemma_fundamental_div_mod(w.io_size as int, 4096);
    assert(s.offset == 4096 * (sectors * blocks)) by (nonlinear_arith)
        requires
            s.offset == w.io_size * blocks,
            w.io_size == 4096 * sectors,
    ;
    vstd::arithmetic::div_mod::lemma_mod_multiples_basic(sectors * blocks, 4096);
    assert(4096 * (sectors * blocks) == (sectors * blocks) * 4096) by (nonlinear_arith);
}

} // verus!
