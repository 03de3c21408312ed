//! Planning of a block range: its numbers in ascending order, cut into
//! chunks of a fixed size.

use vstd::prelude::*;

verus! {

/// The number of blocks in every chunk but, possibly, the last.
pub const CHUNK_SIZE: usize = 1000;

/// An inclusive range of block numbers. It is empty when `start > end`.
#[derive(Clone, Copy, Debug, PartialEq, Eq, Structural)]
pub struct BlockRange {
    pub start: u64,
    pub end: u64,
}

/// The `len` consecutive block numbers that begin at `first`.
#[derive(Clone, Copy, Debug, PartialEq, Eq, Structural)]
pub struct Chunk {
    pub first: u64,
    pub len: usize,
}

impl Chunk {
    /// A chunk holds between one and `CHUNK_SIZE` numbers, all of them
    /// block numbers.
    pub open spec fn wf(self) -> bool {
        1 <= self.len <= CHUNK_SIZE && self.first + self.len - 1 <= u64::MAX
    }

    /// The numbers of the chunk, ascending.
    pub open spec fn numbers(self) -> Seq<u64> {
        Seq::new(self.len as nat, |i: int| (self.first + i) as u64)
    }

    /// The number at `offset`.
    pub fn number_at(&self, offset: usize) -> (number: u64)
        requires
            self.wf(),
            offset < self.len,
        ensures
            number == self.numbers()[offset as int],
            number == self.first + offset,
    {
        self.first + offset as u64
    }

    /// The offset of `number` in the chunk, if it is one of its numbers.
    pub fn offset_of(&self, number: u64) -> (offset: Option<usize>)
        requires
            self.wf(),
        ensures
            match offset {
                Some(k) => k < self.len && self.first + k == number,
                None => number < self.first || number >= self.first + self.len,
            },
    {
        if number < self.first {
            return None;
        }
        let distance: u64 = number - self.first;
        if distance < self.len as u64 {
            Some(distance as usize)
        } else {
            None
        }
    }

    /// The numbers of the chunk, ascending.
    pub fn to_numbers(&self) -> (numbers: Vec<u64>)
        requires
            self.wf(),
        ensures
            numbers@ == self.numbers(),
    {
        let mut numbers: Vec<u64> = Vec::new();
        let mut offset: usize = 0;
        while offset < self.len
            invariant
                self.wf(),
                offset <= self.len,
                numbers@.len() == offset,
                forall|i: int| 0 <= i < offset ==> numbers@[i] == self.first + i,
            decreases self.len - offset,
        {
            numbers.push(self.first + offset as u64);
            offset += 1;
        }
        assert(numbers@ =~= self.numbers());
        numbers
    }
}

impl BlockRange {
    /// The range from `start` to `end`, both included.
    pub fn new(start: u64, end: u64) -> (range: BlockRange)
        ensures
            range.start == start,
            range.end == end,
    {
        BlockRange { start, end }
    }

    /// How many block numbers the range holds.
    pub open spec fn count(self) -> nat {
        if self.start <= self.end {
            (self.end - self.start + 1) as nat
        } else {
            0
        }
    }

    /// The numbers of the range, ascending.
    pub open spec fn numbers(self) -> Seq<u64> {
        Seq::new(self.count(), |i: int| (self.start + i) as u64)
    }

    /// True when the range holds no number.
    pub fn is_empty(&self) -> (empty: bool)
        ensures
            empty == (self.count() == 0),
    {
        self.start > self.end
    }

    /// True when `number` lies in the range.
    pub fn contains(&self, number: u64) -> (inside: bool)
        ensures
            inside == (self.start <= number <= self.end),
            inside == self.numbers().contains(number),
    {
        let inside = self.start <= number && number <= self.end;
        proof {
            if inside {
                assert(self.numbers()[number - self.start] == number);
            }
        }
        inside
    }

    /// The chunk that begins `offset` numbers into the range: as many of the
    /// numbers from there on as a chunk can hold. None at or past the end.
    pub open spec fn chunk_from(self, offset: nat) -> Option<Chunk> {
        if offset < self.count() {
            let rest = self.count() - offset;
            Some(
                Chunk {
                    first: (self.start + offset) as u64,
                    len: if rest < CHUNK_SIZE {
                        rest as usize
                    } else {
                        CHUNK_SIZE
                    },
                },
            )
        } else {
            None
        }
    }

    /// How many chunks the range is cut into.
    pub open spec fn chunk_count(self) -> nat {
        ((self.count() + CHUNK_SIZE - 1) / (CHUNK_SIZE as int)) as nat
    }

    /// The chunk at position `index`, counted from zero.
    pub open spec fn chunk(self, index: nat) -> Option<Chunk> {
        self.chunk_from(index * CHUNK_SIZE as nat)
    }

    /// The numbers of the first `chunks` chunks, one chunk after the other.
    pub open spec fn numbers_of_chunks(self, chunks: nat) -> Seq<u64>
        decreases chunks,
    {
        if chunks == 0 {
            Seq::empty()
        } else {
            let before = self.numbers_of_chunks((chunks - 1) as nat);
            match self.chunk((chunks - 1) as nat) {
                Some(chunk) => before + chunk.numbers(),
                None => before,
            }
        }
    }

    /// Every chunk of a range is well formed and lies inside the range.
    pub proof fn lemma_chunk_inside(self, offset: nat)
        requires
            offset < self.count(),
        ensures
            self.chunk_from(offset) matches Some(chunk) && chunk.wf() && self.start + offset
                == chunk.first && chunk.first + chunk.len - 1 <= self.end && offset + chunk.len
                <= self.count(),
    {
    }

    /// The chunks have `CHUNK_SIZE` numbers each, except the last, which has
    /// what is left; past the last there is none.
    pub proof fn lemma_chunk_sizes(self, index: nat)
        ensures
            index + 1 < self.chunk_count() ==> (self.chunk(index) matches Some(chunk) && chunk.len
                == CHUNK_SIZE),
            index + 1 == self.chunk_count() ==> (self.chunk(index) matches Some(chunk) && chunk.len
                == self.count() - index * CHUNK_SIZE && 1 <= chunk.len <= CHUNK_SIZE),
            index >= self.chunk_count() ==> self.chunk(index) is None,
    {
    }

    /// The first `chunks` chunks hold, in order, the first numbers of the
    /// range: nothing left out, nothing twice.
    pub proof fn lemma_chunks_are_prefix(self, chunks: nat)
        ensures
            self.numbers_of_chunks(chunks) == self.numbers().take(
                if chunks * CHUNK_SIZE <= self.count() {
                    (chunks * CHUNK_SIZE) as int
                } else {
                    self.count() as int
                },
            ),
        decreases chunks,
    {
        if chunks == 0 {
            assert(self.numbers().take(0) =~= Seq::<u64>::empty());
        } else {
            let before = (chunks - 1) as nat;
            self.lemma_chunks_are_prefix(before);
            let done: int = if chunks * CHUNK_SIZE <= self.count() {
                (chunks * CHUNK_SIZE) as int
            } else {
                self.count() as int
            };
            match self.chunk(before) {
                Some(chunk) => {
                    assert(self.numbers_of_chunks(chunks) =~= self.numbers().take(done));
                },
                None => {
                    assert(self.numbers().take(done) =~= self.numbers().take(self.count() as int));
                },
            }
        }
    }

    /// The chunks of a range, one after the other, are the numbers of the
    /// range in ascending order.
    pub proof fn lemma_chunks_cover(self)
        ensures
            self.numbers_of_chunks(self.chunk_count()) == self.numbers(),
    {
        self.lemma_chunks_are_prefix(self.chunk_count());
        assert(self.numbers().take(self.count() as int) =~= self.numbers());
    }
}

/// Hands out the chunks of a range one at a time, in ascending order.
#[derive(Clone, Copy, Debug, PartialEq, Eq)]
pub struct RangePlanner {
    range: BlockRange,
    cursor: Option<u64>,
}

impl RangePlanner {
    /// The range that is planned.
    pub closed spec fn range(self) -> BlockRange {
        self.range
    }

    /// How many numbers of the range have been handed out.
    pub closed spec fn planned(self) -> nat {
        match self.cursor {
            Some(next) => (next - self.range.start) as nat,
            None => self.range.count(),
        }
    }

    /// What was handed out is a whole number of chunks, or the whole range.
    pub closed spec fn wf(self) -> bool {
        match self.cursor {
            Some(next) => self.range.start <= next <= self.range.end && (next - self.range.start)
                % (CHUNK_SIZE as int) == 0,
            None => true,
        }
    }

    /// A planner at the start of `range`.
    pub fn new(range: BlockRange) -> (planner: RangePlanner)
        ensures
            planner.wf(),
            planner.range() == range,
            planner.planned() == 0,
    {
        let cursor = if range.start <= range.end {
            Some(range.start)
        } else {
            None
        };
        RangePlanner { range, cursor }
    }

    /// The next chunk, or `None` when the range is exhausted.
    pub fn next_chunk(&mut self) -> (next: Option<Chunk>)
        requires
            old(self).wf(),
        ensures
            final(self).wf(),
            final(self).range() == old(self).range(),
            next == old(self).range().chunk_from(old(self).planned()),
            match next {
                Some(chunk) => final(self).planned() == old(self).planned() + chunk.len,
                None => final(self).planned() == old(self).planned(),
            },
    {
        match self.cursor {
            None => None,
            Some(first) => {
                let last_offset: u64 = self.range.end - first;
                let len: usize = if last_offset < CHUNK_SIZE as u64 {
                    (last_offset + 1) as usize
                } else {
                    CHUNK_SIZE
                };
                if last_offset < CHUNK_SIZE as u64 {
                    self.cursor = None;
                } else {
                    self.cursor = Some(first + CHUNK_SIZE as u64);
                }
                Some(Chunk { first, len })
            },
        }
    }

    /// What was handed out so far is a prefix of the range's chunks: the
    /// planner never skips or repeats a number.
    pub proof fn lemma_planned_is_chunk_boundary(self)
        requires
            self.wf(),
        ensures
            self.planned() <= self.range().count(),
            self.planned() == self.range().count() || self.planned() % (CHUNK_SIZE as nat) == 0,
    {
    }
}

} // verus!
