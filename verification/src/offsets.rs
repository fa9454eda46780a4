//! The ring of precomputed byte offsets that a worker issues its I/O at.
//!
//! A worker draws its offsets once, before the first submission, and then
//! walks the ring with a cursor, so the hot path never touches the generator.

use vstd::prelude::*;
use crate::entropy::random_u64;

verus! {

/// Entries in a worker's offset ring.
pub const OFFSET_TABLE_LEN: usize = 16_384;

/// `offset` is a place where one I/O of `io_size` bytes fits inside the first
/// `usable_range` bytes of the device, on a block boundary.
pub open spec fn offset_in_range(offset: u64, io_size: u64, usable_range: u64) -> bool {
    &&& io_size > 0
    &&& offset as int % io_size as int == 0
    &&& offset + io_size <= usable_range
}

/// The offset that a random `draw` selects: block `draw mod blocks`, where
/// `blocks` is the number of whole blocks in the usable range.
pub open spec fn offset_of_draw(draw: u64, io_size: u64, usable_range: u64) -> int {
    (draw as int % (usable_range as int / io_size as int)) * io_size as int
}

/// The ring that `draws` select, entry by entry.
pub open spec fn offsets_of_draws(draws: Seq<u64>, io_size: u64, usable_range: u64) -> Seq<u64> {
    Seq::new(draws.len(), |i: int| offset_of_draw(draws[i], io_size, usable_range) as u64)
}

/// Every draw selects an offset at which the I/O fits.
pub proof fn lemma_offset_of_draw(draw: u64, io_size: u64, usable_range: u64)
    requires
        0 < io_size <= usable_range,
    ensures
        usable_range as int / io_size as int >= 1,
        0 <= offset_of_draw(draw, io_size, usable_range) <= usable_range - io_size,
        offset_in_range(offset_of_draw(draw, io_size, usable_range) as u64, io_size, usable_range),
{
    let blocks = usable_range as int / io_size as int;
    let block = draw as int % blocks;
    assert(blocks >= 1 && blocks * io_size <= usable_range) by (nonlinear_arith)
        requires
            blocks == usable_range as int / io_size as int,
            0 < io_size <= usable_range,
    ;
    assert(0 <= block < blocks);
    assert(0 <= block * io_size <= (blocks - 1) * io_size) by (nonlinear_arith)
        requires
            0 <= block <= blocks - 1,
            io_size > 0,
    ;
    assert((blocks - 1) * io_size == blocks * io_size - io_size) by (nonlinear_arith);
    assert((block * io_size) % (io_size as int) == 0) by (nonlinear_arith)
        requires
            io_size > 0,
    ;
}

/// What an `OffsetTable` stands for: the ring and the position of the entry
/// that is handed out next.
pub struct OffsetTableView {
    pub offsets: Seq<u64>,
    pub cursor: nat,
}

impl OffsetTableView {
    /// The ring is not empty and the cursor points into it.
    pub open spec fn wf(self) -> bool {
        self.cursor < self.offsets.len()
    }

    /// At every entry of the ring an I/O of `io_size` bytes fits into the
    /// usable range.
    pub open spec fn covers(self, io_size: u64, usable_range: u64) -> bool {
        forall|i: int|
            0 <= i < self.offsets.len() ==> offset_in_range(
                #[trigger] self.offsets[i],
                io_size,
                usable_range,
            )
    }

    /// The entry handed out next.
    pub open spec fn peek(self) -> u64 {
        self.offsets[self.cursor as int]
    }

    /// The table after one entry was handed out: the cursor moves on and
    /// returns to the first entry after the last.
    pub open spec fn advanced(self) -> OffsetTableView {
        OffsetTableView {
            cursor: if self.cursor + 1 < self.offsets.len() {
                self.cursor + 1
            } else {
                0
            },
            ..self
        }
    }
}

/// A ring of byte offsets with a cursor.
pub struct OffsetTable {
    offsets: Vec<u64>,
    cursor: usize,
}

impl View for OffsetTable {
    type V = OffsetTableView;

    closed spec fn view(&self) -> OffsetTableView {
        OffsetTableView { offsets: self.offsets@, cursor: self.cursor as nat }
    }
}

/// The offset that `draw` selects among the whole blocks of the usable range.
pub fn offset_from_draw(draw: u64, io_size: u64, usable_range: u64) -> (offset: u64)
    requires
        0 < io_size <= usable_range,
    ensures
        offset == offset_of_draw(draw, io_size, usable_range),
        offset_in_range(offset, io_size, usable_range),
{
    proof {
        lemma_offset_of_draw(draw, io_size, usable_range);
    }
    let blocks = usable_range / io_size;
    let block = draw % blocks;
    block * io_size
}

impl OffsetTable {
    /// The ring that `draws` select.
    pub fn from_draws(draws: &Vec<u64>, io_size: u64, usable_range: u64) -> (table: Self)
        requires
            0 < io_size <= usable_range,
            draws@.len() > 0,
        ensures
            table@.offsets == offsets_of_draws(draws@, io_size, usable_range),
            table@.cursor == 0,
            table@.wf(),
            table@.covers(io_size, usable_range),
    {
        let mut offsets: Vec<u64> = Vec::with_capacity(draws.len());
        let mut i: usize = 0;
        while i < draws.len()
            invariant
                0 < io_size <= usable_range,
                i <= draws@.len(),
                offsets@.len() == i,
                forall|k: int|
                    0 <= k < i ==> #[trigger] offsets@[k] == offset_of_draw(
                        draws@[k],
                        io_size,
                        usable_range,
                    ),
                forall|k: int|
                    0 <= k < i ==> offset_in_range(#[trigger] offsets@[k], io_size, usable_range),
            decreases draws@.len() - i,
        {
            let offset = offset_from_draw(draws[i], io_size, usable_range);
            offsets.push(offset);
            i += 1;
        }
        assert(offsets@ =~= offsets_of_draws(draws@, io_size, usable_range));
        OffsetTable { offsets, cursor: 0 }
    }

    /// A ring of `OFFSET_TABLE_LEN` offsets drawn at random, each a multiple
    /// of `io_size` at which a whole I/O fits below `usable_range`.
    pub fn generate(io_size: u64, usable_range: u64) -> (table: Self)
        requires
            0 < io_size <= usable_range,
        ensures
            table@.offsets.len() == OFFSET_TABLE_LEN,
            table@.cursor == 0,
            table@.wf(),
            table@.covers(io_size, usable_range),
            exists|draws: Seq<u64>| table@.offsets == offsets_of_draws(draws, io_size, usable_range),
    {
        let mut draws: Vec<u64> = Vec::with_capacity(OFFSET_TABLE_LEN);
        let mut i: usize = 0;
        while i < OFFSET_TABLE_LEN
            invariant
                i <= OFFSET_TABLE_LEN,
                draws@.len() == i,
            decreases OFFSET_TABLE_LEN - i,
        {
            draws.push(random_u64());
            i += 1;
        }
        OffsetTable::from_draws(&draws, io_size, usable_range)
    }

    /// Hands out the entry under the cursor and moves the cursor on, wrapping
    /// to the first entry after the last.
    pub fn next(&mut self) -> (offset: u64)
        requires
            old(self)@.wf(),
        ensures
            offset == old(self)@.peek(),
            final(self)@ == old(self)@.advanced(),
            final(self)@.wf(),
    {
        let len = self.offsets.len();
        let offset = self.offsets[self.cursor];
        self.cursor = if self.cursor + 1 < len {
            self.cursor + 1
        } else {
            0
        };
        offset
    }
}

} // verus!
