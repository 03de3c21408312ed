//! The orchestration of one export, as a machine that decides and never
//! waits: it says what to do next, and is told what came of it.
//!
//! The program around it starts the fetches, awaits them and writes the
//! blocks. The machine bounds the fetches under way, keeps the results of a
//! chunk by block number, and hands a chunk to the writer only when all of it
//! is there.

use crate::convert::{ethers_block_to_block, is_conversion_of, Block, ConvertError, RawBlock};
use crate::gate::{ConcurrencyGate, ConcurrencyPermit, CONCURRENCY};
use crate::range::{BlockRange, Chunk, RangePlanner};
use vstd::prelude::*;

verus! {

/// What the node answered when asked for one block.
#[derive(Clone, Debug, PartialEq, Eq)]
pub enum FetchOutcome<T> {
    /// The block.
    Found(RawBlock<T>),
    /// The node has no block of that number.
    NotFound,
    /// The request failed on the way, with the transport's message.
    Transport(String),
}

/// Why an export stopped.
#[derive(Clone, Debug, PartialEq, Eq)]
pub enum ExportError {
    /// A request to the node failed on the way.
    Transport(String),
    /// The node has no block of this number.
    NotFound(u64),
    /// A block of the node has no canonical form.
    Convert(ConvertError),
}

/// What the task for block `number` owes once the node has answered: the
/// canonical form of the block that was found, or the error that says why
/// there is none.
pub open spec fn is_task_result<T>(
    result: Result<Block<T>, ExportError>,
    number: u64,
    outcome: FetchOutcome<T>,
) -> bool {
    match outcome {
        FetchOutcome::Found(raw) => match result {
            Ok(block) => is_conversion_of(Ok(block), raw),
            Err(ExportError::Convert(error)) => is_conversion_of(Err(error), raw),
            Err(_) => false,
        },
        FetchOutcome::NotFound => result == Err::<Block<T>, ExportError>(
            ExportError::NotFound(number),
        ),
        FetchOutcome::Transport(message) => result == Err::<Block<T>, ExportError>(
            ExportError::Transport(message),
        ),
    }
}

/// A task that ends with a block, for an answer of the node that bears the
/// number asked for, ends with a block of that number.
pub proof fn lemma_task_result_keeps_number<T>(
    result: Result<Block<T>, ExportError>,
    number: u64,
    outcome: FetchOutcome<T>,
)
    requires
        is_task_result(result, number, outcome),
        outcome matches FetchOutcome::Found(raw) && raw.number == Some(number),
    ensures
        result matches Ok(block) ==> block.header.number == number,
{
}

/// Turns the node's answer for block `number` into the task's result.
pub fn conclude_fetch<T>(number: u64, outcome: FetchOutcome<T>) -> (result: Result<
    Block<T>,
    ExportError,
>)
    requires
        outcome matches FetchOutcome::Found(raw) ==> raw.quantities_fit(),
    ensures
        is_task_result(result, number, outcome),
{
    match outcome {
        FetchOutcome::Found(raw) => match ethers_block_to_block(raw) {
            Ok(block) => Ok(block),
            Err(error) => Err(ExportError::Convert(error)),
        },
        FetchOutcome::NotFound => Err(ExportError::NotFound(number)),
        FetchOutcome::Transport(message) => Err(ExportError::Transport(message)),
    }
}

/// Where the task for one block number of the current chunk stands.
#[derive(Debug)]
pub enum Slot<T> {
    /// Not started.
    Idle,
    /// The request is with the node; the task holds a permit.
    Fetching(ConcurrencyPermit),
    /// The node has answered and the permit is back; the result is awaited.
    Converting,
    /// The task has ended with this result.
    Settled(Result<Block<T>, ExportError>),
}

/// How many tasks hold a permit.
pub open spec fn fetching_count<T>(slots: Seq<Slot<T>>) -> nat
    decreases slots.len(),
{
    if slots.len() == 0 {
        0
    } else {
        fetching_count(slots.drop_last()) + if slots.last() is Fetching {
            1nat
        } else {
            0nat
        }
    }
}

/// True when every task has ended.
pub open spec fn all_settled<T>(slots: Seq<Slot<T>>) -> bool {
    forall|k: int| 0 <= k < slots.len() ==> (#[trigger] slots[k]) is Settled
}

/// True when every task has ended with a block.
pub open spec fn all_succeeded<T>(slots: Seq<Slot<T>>) -> bool {
    forall|k: int| 0 <= k < slots.len() ==> (#[trigger] slots[k]) matches Slot::Settled(Ok(_))
}

/// True when the task at `index` has failed and none before it has.
pub open spec fn is_first_failed<T>(slots: Seq<Slot<T>>, index: int) -> bool {
    &&& 0 <= index < slots.len()
    &&& slots[index] matches Slot::Settled(Err(_))
    &&& forall|k: int| 0 <= k < index ==> (#[trigger] slots[k]) matches Slot::Settled(Ok(_))
}

/// True when `slots` are the tasks of a chunk of which none has started:
/// one for each number of the chunk, or none where there is no chunk.
pub open spec fn is_fresh_chunk<T>(chunk: Option<Chunk>, slots: Seq<Slot<T>>) -> bool {
    &&& slots.len() == match chunk {
        Some(chunk) => chunk.len as nat,
        None => 0nat,
    }
    &&& forall|k: int| 0 <= k < slots.len() ==> (#[trigger] slots[k]) is Idle
}

/// True when `results` holds `result` for block `number`.
pub open spec fn is_recorded<T>(
    results: Map<u64, Result<Block<T>, ExportError>>,
    number: int,
    result: Result<Block<T>, ExportError>,
) -> bool {
    0 <= number <= u64::MAX && results.contains_key(number as u64) && results[number as u64]
        == result
}

/// No more tasks hold a permit than there are tasks; where the count is
/// positive one of them does, and where none does the count is zero.
proof fn lemma_count_bounds<T>(slots: Seq<Slot<T>>)
    ensures
        fetching_count(slots) <= slots.len(),
        fetching_count(slots) > 0 ==> exists|k: int|
            0 <= k < slots.len() && (#[trigger] slots[k]) is Fetching,
        (forall|k: int| 0 <= k < slots.len() ==> !((#[trigger] slots[k]) is Fetching))
            ==> fetching_count(slots) == 0,
    decreases slots.len(),
{
    if slots.len() > 0 {
        let front = slots.drop_last();
        lemma_count_bounds(front);
        if fetching_count(slots) > 0 {
            if slots.last() is Fetching {
                assert(slots[slots.len() - 1] is Fetching);
            } else {
                let k = choose|k: int| 0 <= k < front.len() && (#[trigger] front[k]) is Fetching;
                assert(slots[k] is Fetching);
            }
        }
        if forall|k: int| 0 <= k < slots.len() ==> !((#[trigger] slots[k]) is Fetching) {
            assert forall|k: int| 0 <= k < front.len() implies !((#[trigger] front[k])
                is Fetching) by {
                assert(front[k] == slots[k]);
            }
            assert(!(slots[slots.len() - 1] is Fetching));
        }
    }
}

/// Changing one task changes the count of permits held by what that task
/// held before and holds after.
proof fn lemma_count_update<T>(slots: Seq<Slot<T>>, index: int, slot: Slot<T>)
    requires
        0 <= index < slots.len(),
    ensures
        fetching_count(slots.update(index, slot)) + (if slots[index] is Fetching {
            1nat
        } else {
            0nat
        }) == fetching_count(slots) + (if slot is Fetching {
            1nat
        } else {
            0nat
        }),
    decreases slots.len(),
{
    let updated = slots.update(index, slot);
    if index == slots.len() - 1 {
        assert(updated.drop_last() =~= slots.drop_last());
    } else {
        lemma_count_update(slots.drop_last(), index, slot);
        assert(updated.drop_last() =~= slots.drop_last().update(index, slot));
    }
}

/// Whether the machine is at work, or how it ended.
#[derive(Clone, Copy, Debug, PartialEq, Eq, Structural)]
pub enum Phase {
    Running,
    Finished,
    Aborted,
}

/// The kind of an action.
#[derive(Clone, Copy, Debug, PartialEq, Eq, Structural)]
pub enum Decision {
    Fetch,
    Wait,
    Write,
    Finish,
    Abort,
    Halt,
}

/// What the program around the machine is to do next.
#[derive(Debug, PartialEq, Eq)]
pub enum Action<T> {
    /// Start the fetch of this block; a permit is held for it.
    Fetch { number: u64 },
    /// Nothing can be started: await the end of a fetch or of a task.
    Wait,
    /// Append these blocks to the output, in this order: one whole chunk.
    Write { blocks: Vec<Block<T>> },
    /// Every block of the range is written: flush and close the output.
    Finish,
    /// A task of the current chunk failed: give up, with its error.
    Abort { error: ExportError },
    /// The export has ended before; there is nothing to do.
    Halt,
}

impl<T> Action<T> {
    /// The kind of this action.
    pub open spec fn decision(self) -> Decision {
        match self {
            Action::Fetch { .. } => Decision::Fetch,
            Action::Wait => Decision::Wait,
            Action::Write { .. } => Decision::Write,
            Action::Finish => Decision::Finish,
            Action::Abort { .. } => Decision::Abort,
            Action::Halt => Decision::Halt,
        }
    }
}

/// One export of a range.
pub struct Exporter<T> {
    planner: RangePlanner,
    chunk: Option<Chunk>,
    slots: Vec<Slot<T>>,
    submitted: usize,
    gate: ConcurrencyGate,
    phase: Phase,
    delivered: Ghost<Map<u64, Result<Block<T>, ExportError>>>,
    written: Ghost<Seq<Block<T>>>,
}

/// The tasks of a chunk of `len` numbers, none of them started.
fn idle_slots<T>(len: usize) -> (slots: Vec<Slot<T>>)
    ensures
        slots@.len() == len,
        forall|k: int| 0 <= k < len ==> (#[trigger] slots@[k]) is Idle,
{
    let mut slots: Vec<Slot<T>> = Vec::new();
    while slots.len() < len
        invariant
            slots@.len() <= len,
            forall|k: int| 0 <= k < slots@.len() ==> (#[trigger] slots@[k]) is Idle,
        decreases len - slots@.len(),
    {
        slots.push(Slot::Idle);
    }
    slots
}

/// Tests whether every task has ended.
fn every_slot_settled<T>(slots: &Vec<Slot<T>>) -> (settled: bool)
    ensures
        settled == all_settled(slots@),
{
    let mut index: usize = 0;
    while index < slots.len()
        invariant
            index <= slots@.len(),
            forall|k: int| 0 <= k < index ==> (#[trigger] slots@[k]) is Settled,
        decreases slots@.len() - index,
    {
        match &slots[index] {
            Slot::Settled(_) => {},
            _ => {
                return false;
            },
        }
        index += 1;
    }
    true
}

/// The blocks of a chunk whose tasks have all ended, in the order of their
/// numbers; or the error of the first task that failed.
pub fn collect_chunk<T>(slots: Vec<Slot<T>>) -> (result: Result<Vec<Block<T>>, ExportError>)
    requires
        all_settled(slots@),
    ensures
        match result {
            Ok(blocks) => {
                &&& blocks@.len() == slots@.len()
                &&& forall|k: int|
                    0 <= k < slots@.len() ==> (#[trigger] slots@[k]) == Slot::Settled(
                        Ok::<Block<T>, ExportError>(blocks@[k]),
                    )
            },
            Err(error) => exists|index: int|
                is_first_failed(slots@, index) && (#[trigger] slots@[index]) == Slot::<
                    T,
                >::Settled(Err(error)),
        },
{
    let mut blocks: Vec<Block<T>> = Vec::new();
    for slot in it: slots.into_iter()
        invariant
            it.seq() == slots@,
            all_settled(slots@),
            blocks@.len() == it.index(),
            forall|k: int|
                0 <= k < blocks@.len() ==> (#[trigger] slots@[k]) == Slot::Settled(
                    Ok::<Block<T>, ExportError>(blocks@[k]),
                ),
    {
        assert(slots@[blocks@.len() as int] is Settled);
        match slot {
            Slot::Settled(Ok(block)) => {
                blocks.push(block);
            },
            Slot::Settled(Err(error)) => {
                assert(is_first_failed(slots@, blocks@.len() as int));
                return Err(error);
            },
            _ => {
                assert(false);
            },
        }
    }
    Ok(blocks)
}

impl<T> Exporter<T> {
    /// The range that is exported.
    pub closed spec fn range(self) -> BlockRange {
        self.planner.range()
    }

    /// Whether the export is at work, or how it ended.
    pub closed spec fn phase(self) -> Phase {
        self.phase
    }

    /// The chunk at work: `None` before the first decision on an empty
    /// range, after the last chunk, and once the export has ended.
    pub closed spec fn chunk(self) -> Option<Chunk> {
        self.chunk
    }

    /// The tasks of the chunk at work, by offset in the chunk.
    pub closed spec fn slots(self) -> Seq<Slot<T>> {
        self.slots@
    }

    /// How many tasks of the chunk at work have been started.
    pub closed spec fn submitted(self) -> nat {
        self.submitted as nat
    }

    /// Every block handed to the writer so far, in the order handed over.
    pub closed spec fn written(self) -> Seq<Block<T>> {
        self.written@
    }

    /// The result of every task that has ended, by block number.
    pub closed spec fn delivered(self) -> Map<u64, Result<Block<T>, ExportError>> {
        self.delivered@
    }

    /// How many fetches are under way, each holding a permit.
    pub open spec fn in_flight(self) -> nat {
        fetching_count(self.slots())
    }

    /// What holds of the machine between any two calls.
    pub closed spec fn wf(self) -> bool {
        &&& self.planner.wf()
        &&& self.gate.wf()
        &&& self.gate.capacity() == CONCURRENCY
        &&& self.gate.in_use() == fetching_count(self.slots@)
        &&& self.written@.len() <= self.planner.range().count()
        &&& forall|i: int|
            0 <= i < self.written@.len() ==> #[trigger] is_recorded(
                self.delivered@,
                self.planner.range().start + i,
                Ok(self.written@[i]),
            )
        &&& match self.chunk {
            Some(chunk) => {
                &&& self.phase is Running
                &&& self.planner.range().chunk_from(self.written@.len()) == Some(chunk)
                &&& self.planner.planned() == self.written@.len() + chunk.len
                &&& self.slots@.len() == chunk.len
                &&& self.submitted <= chunk.len
                &&& forall|k: int|
                    0 <= k < chunk.len ==> ((#[trigger] self.slots@[k]) is Idle <==> k
                        >= self.submitted)
                &&& forall|k: int|
                    0 <= k < chunk.len ==> ((#[trigger] self.slots@[k]) matches Slot::Settled(
                        result,
                    ) ==> is_recorded(self.delivered@, chunk.first + k, result))
            },
            None => {
                &&& self.slots@.len() == 0
                &&& self.submitted == 0
                &&& !(self.phase is Aborted) ==> self.written@.len()
                    == self.planner.range().count()
            },
        }
    }

    /// The kind of action that the machine takes next.
    pub open spec fn decision(self) -> Decision {
        if !(self.phase() is Running) {
            Decision::Halt
        } else {
            match self.chunk() {
                None => Decision::Finish,
                Some(chunk) => if self.submitted() < chunk.len {
                    if self.in_flight() < CONCURRENCY {
                        Decision::Fetch
                    } else {
                        Decision::Wait
                    }
                } else if !all_settled(self.slots()) {
                    Decision::Wait
                } else if all_succeeded(self.slots()) {
                    Decision::Write
                } else {
                    Decision::Abort
                },
            }
        }
    }

    /// At no time do more fetches hold a permit than `CONCURRENCY` allows.
    pub proof fn lemma_concurrency_cap(self)
        requires
            self.wf(),
        ensures
            self.in_flight() <= CONCURRENCY,
    {
    }

    /// What has been handed to the writer is, at any time, a run of whole
    /// chunks from the start of the range: block after block in ascending
    /// order of number, each the block that its task delivered, none left
    /// out and none twice. While a chunk is at work, nothing of it is written.
    pub proof fn lemma_written_in_order(self)
        requires
            self.wf(),
        ensures
            self.written().len() <= self.range().count(),
            forall|i: int|
                0 <= i < self.written().len() ==> #[trigger] is_recorded(
                    self.delivered(),
                    self.range().start + i,
                    Ok(self.written()[i]),
                ),
            self.chunk() matches Some(chunk) ==> self.range().start + self.written().len()
                == chunk.first,
    {
        if self.chunk is Some {
            self.planner.range().lemma_chunk_inside(self.written@.len());
        }
    }

    /// An export that has finished has handed to the writer one block for
    /// every number of the range, in ascending order of number: for `start`,
    /// then `start + 1`, up to `end`.
    pub proof fn lemma_finished_is_complete(self)
        requires
            self.wf(),
            self.phase() is Finished,
        ensures
            self.written().len() == self.range().count(),
            forall|i: int|
                0 <= i < self.range().count() ==> #[trigger] is_recorded(
                    self.delivered(),
                    self.range().start + i,
                    Ok(self.written()[i]),
                ),
    {
    }

    /// An export of an empty range has nothing to fetch and nothing to
    /// write: all that is left to do is to finish.
    pub proof fn lemma_empty_range_finishes(self)
        requires
            self.wf(),
            self.phase() is Running,
            self.range().count() == 0,
        ensures
            self.decision() is Finish,
            self.written().len() == 0,
    {
    }

    /// The machine waits only while a task is outstanding: a fetch that is
    /// with the node, or a result that is awaited. It never waits for
    /// nothing.
    pub proof fn lemma_wait_has_outstanding(self)
        requires
            self.wf(),
            self.decision() is Wait,
        ensures
            exists|k: int|
                0 <= k < self.slots().len() && ((#[trigger] self.slots()[k]) is Fetching
                    || self.slots()[k] is Converting),
    {
        lemma_count_bounds(self.slots@);
        let chunk = self.chunk->Some_0;
        if self.submitted < chunk.len {
            let k = choose|k: int|
                0 <= k < self.slots@.len() && (#[trigger] self.slots@[k]) is Fetching;
            assert(self.slots()[k] is Fetching);
        } else {
            let k = choose|k: int|
                0 <= k < self.slots@.len() && !((#[trigger] self.slots@[k]) is Settled);
            assert(!(self.slots()[k] is Idle));
        }
    }

    /// While a task of the chunk at work has failed, that chunk is not
    /// written and the export does not finish: it can only go on to abort.
    pub proof fn lemma_failure_blocks_chunk(self, index: int)
        requires
            self.wf(),
            0 <= index < self.slots().len(),
            self.slots()[index] matches Slot::Settled(Err(_)),
        ensures
            self.decision() is Fetch || self.decision() is Wait || self.decision() is Abort,
    {
    }

    /// An export that was aborted does nothing more: nothing is fetched and
    /// nothing is written after the failure.
    pub proof fn lemma_aborted_halts(self)
        requires
            self.wf(),
            self.phase() is Aborted,
        ensures
            self.decision() is Halt,
            self.chunk() is None,
    {
    }

    /// An export of `range`, with nothing started and nothing written.
    pub fn new(range: BlockRange) -> (exporter: Exporter<T>)
        ensures
            exporter.wf(),
            exporter.range() == range,
            exporter.phase() is Running,
            exporter.chunk() == range.chunk_from(0),
            exporter.submitted() == 0,
            exporter.in_flight() == 0,
            is_fresh_chunk(exporter.chunk(), exporter.slots()),
            exporter.written() == Seq::<Block<T>>::empty(),
            exporter.delivered() == Map::<u64, Result<Block<T>, ExportError>>::empty(),
    {
        let mut planner = RangePlanner::new(range);
        let chunk = planner.next_chunk();
        let slots = match chunk {
            Some(chunk) => idle_slots(chunk.len),
            None => idle_slots(0),
        };
        proof {
            lemma_count_bounds(slots@);
            if range.count() > 0 {
                range.lemma_chunk_inside(0);
            }
        }
        Exporter {
            planner,
            chunk,
            slots,
            submitted: 0,
            gate: ConcurrencyGate::new(CONCURRENCY),
            phase: Phase::Running,
            delivered: Ghost(Map::empty()),
            written: Ghost(Seq::empty()),
        }
    }

    /// Whether the export is at work, or how it ended.
    pub fn current_phase(&self) -> (phase: Phase)
        ensures
            phase == self.phase(),
    {
        self.phase
    }

    /// How many fetches are under way.
    pub fn fetches_in_flight(&self) -> (count: usize)
        requires
            self.wf(),
        ensures
            count == self.in_flight(),
            count <= CONCURRENCY,
    {
        CONCURRENCY - self.gate.available()
    }

    /// Decides what to do next.
    pub fn next_action(&mut self) -> (action: Action<T>)
        requires
            old(self).wf(),
        ensures
            final(self).wf(),
            final(self).range() == old(self).range(),
            final(self).delivered() == old(self).delivered(),
            action.decision() == old(self).decision(),
            match action {
                Action::Fetch { number } => {
                    &&& old(self).chunk() matches Some(chunk)
                    &&& number == chunk.first + old(self).submitted()
                    &&& final(self).phase() == old(self).phase()
                    &&& final(self).chunk() == old(self).chunk()
                    &&& final(self).written() == old(self).written()
                    &&& final(self).submitted() == old(self).submitted() + 1
                    &&& final(self).in_flight() == old(self).in_flight() + 1
                    &&& final(self).slots().len() == old(self).slots().len()
                    &&& final(self).slots()[old(self).submitted() as int] is Fetching
                    &&& forall|k: int|
                        0 <= k < chunk.len && k != old(self).submitted() ==> final(self).slots()[k]
                            == old(self).slots()[k]
                },
                Action::Wait => *final(self) == *old(self) && old(self).chunk() is Some,
                Action::Write { blocks } => {
                    &&& old(self).chunk() matches Some(chunk)
                    &&& blocks@.len() == chunk.len
                    &&& forall|k: int|
                        0 <= k < chunk.len ==> (#[trigger] old(self).slots()[k]) == Slot::Settled(
                            Ok::<Block<T>, ExportError>(blocks@[k]),
                        )
                    &&& final(self).phase() is Running
                    &&& final(self).written() == old(self).written() + blocks@
                    &&& final(self).chunk() == final(self).range().chunk_from(
                        final(self).written().len(),
                    )
                    &&& final(self).submitted() == 0
                    &&& final(self).in_flight() == 0
                    &&& is_fresh_chunk(final(self).chunk(), final(self).slots())
                },
                Action::Finish => {
                    &&& final(self).phase() is Finished
                    &&& final(self).chunk() is None
                    &&& final(self).written() == old(self).written()
                    &&& final(self).written().len() == final(self).range().count()
                },
                Action::Abort { error } => {
                    &&& exists|index: int|
                        is_first_failed(old(self).slots(), index) && (#[trigger] old(
                            self,
                        ).slots()[index]) == Slot::<T>::Settled(Err(error))
                    &&& final(self).phase() is Aborted
                    &&& final(self).chunk() is None
                    &&& final(self).written() == old(self).written()
                },
                Action::Halt => *final(self) == *old(self),
            },
    {
        match self.phase {
            Phase::Running => {},
            _ => {
                return Action::Halt;
            },
        }
        let chunk = match self.chunk {
            Some(chunk) => chunk,
            None => {
                self.phase = Phase::Finished;
                return Action::Finish;
            },
        };
        proof {
            lemma_count_bounds(self.slots@);
            self.planner.range().lemma_chunk_inside(self.written@.len());
        }
        if self.submitted < chunk.len {
            match self.gate.try_acquire() {
                Some(permit) => {
                    let offset = self.submitted;
                    let number = chunk.number_at(offset);
                    proof {
                        lemma_count_update(self.slots@, offset as int, Slot::Fetching(permit));
                    }
                    self.slots.set(offset, Slot::Fetching(permit));
                    self.submitted = offset + 1;
                    return Action::Fetch { number };
                },
                None => {
                    return Action::Wait;
                },
            }
        }
        if !every_slot_settled(&self.slots) {
            return Action::Wait;
        }
        let mut slots: Vec<Slot<T>> = Vec::new();
        core::mem::swap(&mut self.slots, &mut slots);
        self.submitted = 0;
        match collect_chunk(slots) {
            Ok(blocks) => {
                self.written = Ghost(self.written@ + blocks@);
                self.chunk = self.planner.next_chunk();
                self.slots =
                match self.chunk {
                    Some(next) => idle_slots(next.len),
                    None => idle_slots(0),
                };
                proof {
                    let range = self.planner.range();
                    let before = old(self).written@;
                    lemma_count_bounds(self.slots@);
                    if self.written@.len() < range.count() {
                        range.lemma_chunk_inside(self.written@.len());
                    }
                    assert forall|i: int|
                        0 <= i < self.written@.len() implies #[trigger] is_recorded(
                        self.delivered@,
                        range.start + i,
                        Ok(self.written@[i]),
                    ) by {
                        if i < before.len() {
                            assert(is_recorded(
                                old(self).delivered@,
                                range.start + i,
                                Ok(before[i]),
                            ));
                        } else {
                            let k = i - before.len();
                            assert(old(self).slots@[k] == Slot::Settled(
                                Ok::<Block<T>, ExportError>(blocks@[k]),
                            ));
                        }
                    }
                }
                Action::Write { blocks }
            },
            Err(error) => {
                self.phase = Phase::Aborted;
                self.chunk = None;
                proof {
                    lemma_count_bounds(self.slots@);
                }
                Action::Abort { error }
            },
        }
    }

    /// Takes note that the node has answered the request for block `number`,
    /// whatever the answer: the permit of its task is given back.
    /// Refused, with nothing changed, unless that fetch is under way.
    pub fn fetch_returned(&mut self, number: u64) -> (accepted: bool)
        requires
            old(self).wf(),
        ensures
            final(self).wf(),
            accepted <==> (old(self).chunk() matches Some(chunk) && chunk.first <= number
                < chunk.first + chunk.len && old(self).slots()[number - chunk.first] is Fetching),
            !accepted ==> *final(self) == *old(self),
            accepted ==> {
                &&& old(self).chunk() matches Some(chunk)
                &&& final(self).slots() == old(self).slots().update(
                    number - chunk.first,
                    Slot::Converting,
                )
                &&& final(self).in_flight() == old(self).in_flight() - 1
                &&& final(self).range() == old(self).range()
                &&& final(self).phase() == old(self).phase()
                &&& final(self).chunk() == old(self).chunk()
                &&& final(self).submitted() == old(self).submitted()
                &&& final(self).written() == old(self).written()
                &&& final(self).delivered() == old(self).delivered()
            },
    {
        let chunk = match self.chunk {
            Some(chunk) => chunk,
            None => {
                return false;
            },
        };
        proof {
            self.planner.range().lemma_chunk_inside(self.written@.len());
        }
        let offset = match chunk.offset_of(number) {
            Some(offset) => offset,
            None => {
                return false;
            },
        };
        match &self.slots[offset] {
            Slot::Fetching(_) => {},
            _ => {
                return false;
            },
        }
        proof {
            lemma_count_update(self.slots@, offset as int, Slot::Converting);
        }
        let mut slot: Slot<T> = Slot::Converting;
        core::mem::swap(&mut self.slots[offset], &mut slot);
        match slot {
            Slot::Fetching(permit) => {
                self.gate.release(permit);
            },
            _ => {
                assert(false);
            },
        }
        true
    }

    /// Takes in the result of the task for block `number`. Refused, with
    /// nothing changed, unless the node has answered for that block and its
    /// result is still awaited.
    pub fn task_completed(
        &mut self,
        number: u64,
        result: Result<Block<T>, ExportError>,
    ) -> (accepted: bool)
        requires
            old(self).wf(),
        ensures
            final(self).wf(),
            accepted <==> (old(self).chunk() matches Some(chunk) && chunk.first <= number
                < chunk.first + chunk.len && old(self).slots()[number - chunk.first]
                is Converting),
            !accepted ==> *final(self) == *old(self),
            accepted ==> {
                &&& old(self).chunk() matches Some(chunk)
                &&& final(self).slots() == old(self).slots().update(
                    number - chunk.first,
                    Slot::Settled(result),
                )
                &&& final(self).delivered() == old(self).delivered().insert(number, result)
                &&& final(self).in_flight() == old(self).in_flight()
                &&& final(self).range() == old(self).range()
                &&& final(self).phase() == old(self).phase()
                &&& final(self).chunk() == old(self).chunk()
                &&& final(self).submitted() == old(self).submitted()
                &&& final(self).written() == old(self).written()
            },
    {
        let chunk = match self.chunk {
            Some(chunk) => chunk,
            None => {
                return false;
            },
        };
        proof {
            self.planner.range().lemma_chunk_inside(self.written@.len());
        }
        let offset = match chunk.offset_of(number) {
            Some(offset) => offset,
            None => {
                return false;
            },
        };
        match &self.slots[offset] {
            Slot::Converting => {},
            _ => {
                return false;
            },
        }
        proof {
            lemma_count_update(self.slots@, offset as int, Slot::Settled(result));
        }
        self.delivered = Ghost(self.delivered@.insert(number, result));
        self.slots.set(offset, Slot::Settled(result));
        proof {
            let start = self.planner.range().start;
            assert forall|i: int| 0 <= i < self.written@.len() implies #[trigger] is_recorded(
                self.delivered@,
                start + i,
                Ok(self.written@[i]),
            ) by {
                assert(is_recorded(old(self).delivered@, start + i, Ok(self.written@[i])));
            }
            assert forall|k: int| 0 <= k < chunk.len implies ((#[trigger] self.slots@[k])
                matches Slot::Settled(recorded) ==> is_recorded(
                self.delivered@,
                chunk.first + k,
                recorded,
            )) by {
                if k != offset {
                    assert(self.slots@[k] == old(self).slots@[k]);
                }
            }
        }
        true
    }
}

} // verus!
