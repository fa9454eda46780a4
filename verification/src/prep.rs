//! Preparing a device: the data written to it, and how a sequential fill is
//! cut into chunks.

use vstd::prelude::*;
use crate::entropy::random_u64;

verus! {

/// Bytes written per step when a file device is created.
pub const FILE_CHUNK: u64 = 0x10_0000;

/// Bytes written per step when a device is filled before a test.
pub const PREP_CHUNK: u64 = 0x40_0000;

/// Progress of creating a file is shown once per this many chunks.
pub const FILE_PROGRESS_STRIDE: u64 = 1024;

/// Progress of filling a device is shown once per this many chunks.
pub const PREP_PROGRESS_STRIDE: u64 = 64;

/// Bytes in one GiB.
pub const GIB: u64 = 0x4000_0000;

/// Byte `k` of `word`, least significant first.
pub open spec fn le_byte(word: u64, k: nat) -> u8 {
    ((word >> ((8 * k) as u64)) & 0xff) as u8
}

/// Byte `i` of the words `words` laid out one after the other, each least
/// significant byte first.
pub open spec fn pattern_byte(words: Seq<u64>, i: int) -> u8 {
    le_byte(words[i / 8], (i % 8) as nat)
}

/// `bytes` is the start of `words` laid out one after the other, each least
/// significant byte first.
pub open spec fn is_pattern_of(bytes: Seq<u8>, words: Seq<u64>) -> bool {
    &&& bytes.len() <= words.len() * 8
    &&& forall|i: int| 0 <= i < bytes.len() ==> #[trigger] bytes[i] == pattern_byte(words, i)
}

/// The first `len` bytes of `words` laid out one after the other, each least
/// significant byte first.
pub fn bytes_of_words(words: &Vec<u64>, len: usize) -> (bytes: Vec<u8>)
    requires
        len <= words@.len() * 8,
    ensures
        bytes@.len() == len,
        is_pattern_of(bytes@, words@),
{
    let mut bytes: Vec<u8> = Vec::with_capacity(len);
    let mut i: usize = 0;
    while i < len
        invariant
            len <= words@.len() * 8,
            i <= len,
            bytes@.len() == i,
            forall|j: int| 0 <= j < i ==> #[trigger] bytes@[j] == pattern_byte(words@, j),
        decreases len - i,
    {
        let word = words[i / 8];
        let k: u64 = (i % 8) as u64;
        let byte = ((word >> (8 * k)) & 0xff) as u8;
        bytes.push(byte);
        i += 1;
    }
    bytes
}

/// `len` bytes of random data, eight from every 64-bit draw and the rest of
/// the last draw dropped.
pub fn random_bytes(len: usize) -> (bytes: Vec<u8>)
    ensures
        bytes@.len() == len,
        exists|words: Seq<u64>| words.len() == (len + 7) / 8 && #[trigger] is_pattern_of(
            bytes@,
            words,
        ),
{
    let count = len / 8 + if len % 8 == 0 {
        0
    } else {
        1
    };
    let mut words: Vec<u64> = Vec::with_capacity(count);
    let mut i: usize = 0;
    while i < count
        invariant
            i <= count,
            words@.len() == i,
        decreases count - i,
    {
        words.push(random_u64());
        i += 1;
    }
    let bytes = bytes_of_words(&words, len);
    assert(is_pattern_of(bytes@, words@));
    bytes
}

/// A sequential fill of `total` bytes in steps of `chunk_size`: so many full
/// chunks, then a shorter one of `remainder` bytes if anything is left.
#[derive(Clone, Copy, Debug, PartialEq, Eq, Structural)]
pub struct ChunkPlan {
    pub chunk_size: u64,
    pub full_chunks: u64,
    pub remainder: u64,
}

impl ChunkPlan {
    /// The plan covers `total` bytes without gap or overlap.
    pub open spec fn covers(self, total: u64) -> bool {
        &&& self.chunk_size > 0
        &&& self.full_chunks * self.chunk_size + self.remainder == total
        &&& self.remainder < self.chunk_size
    }

    /// Cuts `total` bytes into chunks of `chunk_size`.
    pub fn new(total: u64, chunk_size: u64) -> (plan: Self)
        requires
            chunk_size > 0,
        ensures
            plan.covers(total),
            plan.chunk_size == chunk_size,
            plan.full_chunks == total / chunk_size,
            plan.remainder == total % chunk_size,
    {
        proof {
            vstd::arithmetic::div_mod::lemma_fundamental_div_mod(total as int, chunk_size as int);
            assert((total / chunk_size) * chunk_size == chunk_size * (total / chunk_size))
                by (nonlinear_arith);
        }
        ChunkPlan { chunk_size, full_chunks: total / chunk_size, remainder: total % chunk_size }
    }

    /// Where full chunk `index` starts.
    pub fn offset_of(&self, index: u64, total: u64) -> (offset: u64)
        requires
            self.covers(total),
            index < self.full_chunks,
        ensures
            offset == index * self.chunk_size,
            offset + self.chunk_size <= total - self.remainder,
    {
        proof {
            assert(index * self.chunk_size + self.chunk_size <= self.full_chunks
                * self.chunk_size) by (nonlinear_arith)
                requires
                    index < self.full_chunks,
                    self.chunk_size > 0,
            ;
        }
        index * self.chunk_size
    }
}

/// Whether progress is shown before chunk `index`, when it is shown once per
/// `stride` chunks starting with the first.
pub fn progress_due(index: u64, stride: u64) -> (due: bool)
    requires
        stride > 0,
    ensures
        due == (index % stride == 0),
{
    index % stride == 0
}

/// `size_gib` GiB in bytes, if that can be told in 64 bits.
pub fn gib_to_bytes(size_gib: u64) -> (bytes: Option<u64>)
    ensures
        size_gib * GIB <= u64::MAX ==> bytes == Some((size_gib * GIB) as u64),
        size_gib * GIB > u64::MAX ==> bytes.is_none(),
{
    size_gib.checked_mul(GIB)
}

} // verus!
