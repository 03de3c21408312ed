use alloy_rlp::Error as RlpError;
use block_export::convert::{Block, ConvertError, Field, RawBlock};
use block_export::export::{
    collect_chunk, conclude_fetch, Action, ExportError, Exporter, FetchOutcome, Phase, Slot,
};
use block_export::gate::CONCURRENCY;
use block_export::range::{BlockRange, CHUNK_SIZE};

// A synthetic block of the node: its marker is its only transaction.
fn synthetic(number: u64) -> RawBlock<u64> {
    RawBlock {
        parent_hash: [0; 32],
        uncles_hash: [0; 32],
        author: Some([0; 20]),
        state_root: Some([0; 32]),
        transactions_root: Some([0; 32]),
        receipts_root: Some([0; 32]),
        number: Some(number),
        gas_used: Some([0; 4]),
        gas_limit: Some([0; 4]),
        extra_data: vec![],
        logs_bloom: Some([0; 256]),
        timestamp: [number, 0, 0, 0],
        difficulty: [0; 4],
        transactions: vec![Ok(number + 7_000_000)],
        mix_hash: Some([0; 32]),
        nonce: Some([0; 8]),
        base_fee_per_gas: None,
        blob_gas_used: None,
        excess_blob_gas: None,
        withdrawals_root: None,
        withdrawals: None,
        parent_beacon_block_root: None,
    }
}

fn canonical(number: u64) -> Block<u64> {
    conclude_fetch(number, FetchOutcome::Found(synthetic(number))).unwrap()
}

struct Run {
    written: Vec<Block<u64>>,
    writes: usize,
    error: Option<ExportError>,
    fetched: Vec<u64>,
    most_in_flight: usize,
}

// Runs an export against a stub node. `answer` is the node; `pick` says which
// of the fetches under way ends next, by its place in the list of them.
fn run_export(
    start: u64,
    end: u64,
    answer: &dyn Fn(u64) -> FetchOutcome<u64>,
    pick: &dyn Fn(usize) -> usize,
) -> Run {
    let mut exporter: Exporter<u64> = Exporter::new(BlockRange::new(start, end));
    let mut run =
        Run { written: vec![], writes: 0, error: None, fetched: vec![], most_in_flight: 0 };
    let mut under_way: Vec<u64> = vec![];
    loop {
        assert_eq!(exporter.fetches_in_flight(), under_way.len());
        assert!(exporter.fetches_in_flight() <= CONCURRENCY);
        run.most_in_flight = run.most_in_flight.max(exporter.fetches_in_flight());
        match exporter.next_action() {
            Action::Fetch { number } => {
                run.fetched.push(number);
                under_way.push(number);
            }
            Action::Wait => {
                assert!(!under_way.is_empty());
                let number = under_way.remove(pick(under_way.len()));
                assert!(exporter.fetch_returned(number));
                let result = conclude_fetch(number, answer(number));
                assert!(exporter.task_completed(number, result));
            }
            Action::Write { blocks } => {
                assert!(under_way.is_empty());
                run.writes += 1;
                run.written.extend(blocks);
            }
            Action::Finish => {
                assert_eq!(exporter.current_phase(), Phase::Finished);
                break;
            }
            Action::Abort { error } => {
                assert_eq!(exporter.current_phase(), Phase::Aborted);
                run.error = Some(error);
                break;
            }
            Action::Halt => panic!("halted while at work"),
        }
    }
    assert_eq!(exporter.next_action(), Action::Halt);
    assert_eq!(exporter.next_action(), Action::Halt);
    run
}

fn found(number: u64) -> FetchOutcome<u64> {
    FetchOutcome::Found(synthetic(number))
}

fn oldest(_under_way: usize) -> usize {
    0
}

fn newest(under_way: usize) -> usize {
    under_way - 1
}

fn middle(under_way: usize) -> usize {
    under_way / 2
}

fn numbers_of(blocks: &[Block<u64>]) -> Vec<u64> {
    blocks.iter().map(|block| block.header.number).collect()
}

fn markers_of(blocks: &[Block<u64>]) -> Vec<u64> {
    blocks.iter().map(|block| block.body[0]).collect()
}

#[test]
fn export_writes_every_block_of_the_range_in_order() {
    let run = run_export(5, 2504, &found, &middle);
    assert_eq!(run.error, None);
    assert_eq!(run.written.len(), 2500);
    assert_eq!(numbers_of(&run.written), (5..=2504).collect::<Vec<u64>>());
    assert_eq!(run.fetched, (5..=2504).collect::<Vec<u64>>());
    assert_eq!(run.writes, 3);
}

#[test]
fn export_of_a_single_block() {
    let run = run_export(77, 77, &found, &oldest);
    assert_eq!(run.error, None);
    assert_eq!(run.written, vec![canonical(77)]);
    assert_eq!(run.writes, 1);
    assert_eq!(run.most_in_flight, 1);
}

#[test]
fn reversed_range_exports_nothing_and_is_no_error() {
    let run = run_export(10, 9, &found, &oldest);
    assert_eq!(run.error, None);
    assert_eq!(run.written, vec![]);
    assert_eq!(run.fetched, Vec::<u64>::new());
    assert_eq!(run.writes, 0);
    let mut exporter: Exporter<u64> = Exporter::new(BlockRange::new(u64::MAX, 0));
    assert_eq!(exporter.current_phase(), Phase::Running);
    assert_eq!(exporter.next_action(), Action::Finish);
    assert_eq!(exporter.current_phase(), Phase::Finished);
}

#[test]
fn export_of_exactly_one_chunk() {
    let end = CHUNK_SIZE as u64;
    let run = run_export(1, end, &found, &newest);
    assert_eq!(run.error, None);
    assert_eq!(run.written.len(), CHUNK_SIZE);
    assert_eq!(numbers_of(&run.written), (1..=end).collect::<Vec<u64>>());
    assert_eq!(run.writes, 1);
}

#[test]
fn export_of_one_block_less_than_a_chunk() {
    let end = CHUNK_SIZE as u64 - 1;
    let run = run_export(1, end, &found, &newest);
    assert_eq!(run.error, None);
    assert_eq!(run.written.len(), CHUNK_SIZE - 1);
    assert_eq!(numbers_of(&run.written), (1..=end).collect::<Vec<u64>>());
    assert_eq!(run.writes, 1);
}

#[test]
fn export_of_one_block_more_than_a_chunk() {
    let end = CHUNK_SIZE as u64 + 1;
    let run = run_export(1, end, &found, &newest);
    assert_eq!(run.error, None);
    assert_eq!(run.written.len(), CHUNK_SIZE + 1);
    assert_eq!(numbers_of(&run.written), (1..=end).collect::<Vec<u64>>());
    assert_eq!(run.writes, 2);
}

#[test]
fn export_up_to_the_largest_block_number() {
    let run = run_export(u64::MAX - 2, u64::MAX, &found, &newest);
    assert_eq!(run.error, None);
    assert_eq!(numbers_of(&run.written), vec![u64::MAX - 2, u64::MAX - 1, u64::MAX]);
}

#[test]
fn never_more_fetches_under_way_than_the_cap() {
    let run = run_export(0, 2999, &found, &newest);
    assert_eq!(run.error, None);
    assert_eq!(run.most_in_flight, CONCURRENCY);
    let few = run_export(0, 41, &found, &oldest);
    assert_eq!(few.most_in_flight, 42);
}

#[test]
fn the_cap_holds_across_chunks() {
    let mut exporter: Exporter<u64> = Exporter::new(BlockRange::new(0, 1099));
    let mut started = vec![];
    for _ in 0..CONCURRENCY {
        match exporter.next_action() {
            Action::Fetch { number } => started.push(number),
            other => panic!("unexpected: {:?}", other),
        }
    }
    assert_eq!(started, (0..100).collect::<Vec<u64>>());
    assert_eq!(exporter.fetches_in_flight(), CONCURRENCY);
    assert_eq!(exporter.next_action(), Action::Wait);
    assert_eq!(exporter.next_action(), Action::Wait);
    assert!(exporter.fetch_returned(40));
    assert_eq!(exporter.fetches_in_flight(), CONCURRENCY - 1);
    assert_eq!(exporter.next_action(), Action::Fetch { number: 100 });
    assert_eq!(exporter.fetches_in_flight(), CONCURRENCY);
    assert_eq!(exporter.next_action(), Action::Wait);
}

#[test]
fn three_blocks_come_out_in_order_whatever_order_they_arrive_in() {
    for pick in [&oldest as &dyn Fn(usize) -> usize, &newest, &middle] {
        let run = run_export(100, 102, &found, pick);
        assert_eq!(run.error, None);
        assert_eq!(run.written.len(), 3);
        assert_eq!(numbers_of(&run.written), vec![100, 101, 102]);
        assert_eq!(markers_of(&run.written), vec![7_000_100, 7_000_101, 7_000_102]);
    }
}

#[test]
fn last_block_first_still_comes_out_last() {
    let mut exporter: Exporter<u64> = Exporter::new(BlockRange::new(100, 102));
    assert_eq!(exporter.next_action(), Action::Fetch { number: 100 });
    assert_eq!(exporter.next_action(), Action::Fetch { number: 101 });
    assert_eq!(exporter.next_action(), Action::Fetch { number: 102 });
    assert_eq!(exporter.next_action(), Action::Wait);
    assert!(exporter.fetch_returned(102));
    assert!(exporter.task_completed(102, Ok(canonical(102))));
    assert_eq!(exporter.next_action(), Action::Wait);
    assert!(exporter.fetch_returned(100));
    assert!(exporter.fetch_returned(101));
    assert_eq!(exporter.fetches_in_flight(), 0);
    assert!(exporter.task_completed(101, Ok(canonical(101))));
    assert_eq!(exporter.next_action(), Action::Wait);
    assert!(exporter.task_completed(100, Ok(canonical(100))));
    assert_eq!(
        exporter.next_action(),
        Action::Write { blocks: vec![canonical(100), canonical(101), canonical(102)] }
    );
    assert_eq!(exporter.next_action(), Action::Finish);
    assert_eq!(exporter.next_action(), Action::Halt);
}

#[test]
fn events_that_nothing_awaits_are_refused() {
    let mut exporter: Exporter<u64> = Exporter::new(BlockRange::new(100, 102));
    assert!(!exporter.fetch_returned(100));
    assert!(!exporter.task_completed(100, Ok(canonical(100))));
    assert_eq!(exporter.next_action(), Action::Fetch { number: 100 });
    assert!(!exporter.task_completed(100, Ok(canonical(100))));
    assert!(!exporter.fetch_returned(99));
    assert!(!exporter.fetch_returned(101));
    assert!(!exporter.fetch_returned(103));
    assert!(exporter.fetch_returned(100));
    assert!(!exporter.fetch_returned(100));
    assert!(exporter.task_completed(100, Ok(canonical(100))));
    assert!(!exporter.task_completed(100, Ok(canonical(100))));
    assert_eq!(exporter.fetches_in_flight(), 0);
    assert_eq!(exporter.next_action(), Action::Fetch { number: 101 });
}

#[test]
fn failed_fetch_aborts_and_its_chunk_is_not_written() {
    let node = |number: u64| {
        if number == 1500 {
            FetchOutcome::Transport(String::from("connection reset"))
        } else {
            found(number)
        }
    };
    let run = run_export(0, 2999, &node, &middle);
    assert_eq!(run.error, Some(ExportError::Transport(String::from("connection reset"))));
    assert_eq!(numbers_of(&run.written), (0..1000).collect::<Vec<u64>>());
    assert_eq!(run.writes, 1);
    assert_eq!(run.fetched, (0..2000).collect::<Vec<u64>>());
}

#[test]
fn failure_in_the_first_chunk_leaves_nothing_written() {
    for position in [0u64, 1, 500, 998, 999] {
        let node = move |number: u64| {
            if number == position {
                FetchOutcome::NotFound
            } else {
                found(number)
            }
        };
        let run = run_export(0, 1500, &node, &newest);
        assert_eq!(run.error, Some(ExportError::NotFound(position)));
        assert_eq!(run.written, vec![]);
        assert_eq!(run.writes, 0);
    }
}

#[test]
fn failure_in_the_last_chunk_keeps_the_chunks_before_it() {
    let node = |number: u64| {
        if number == 2001 {
            FetchOutcome::NotFound
        } else {
            found(number)
        }
    };
    let run = run_export(1, 2001, &node, &oldest);
    assert_eq!(run.error, Some(ExportError::NotFound(2001)));
    assert_eq!(numbers_of(&run.written), (1..=2000).collect::<Vec<u64>>());
}

#[test]
fn the_failure_with_the_lowest_number_is_reported() {
    let node = |number: u64| match number {
        12 => FetchOutcome::Transport(String::from("timed out")),
        7 => FetchOutcome::NotFound,
        _ => found(number),
    };
    for pick in [&oldest as &dyn Fn(usize) -> usize, &newest, &middle] {
        let run = run_export(0, 20, &node, pick);
        assert_eq!(run.error, Some(ExportError::NotFound(7)));
        assert_eq!(run.written, vec![]);
    }
}

#[test]
fn block_that_does_not_convert_aborts_the_export() {
    let node = |number: u64| {
        let mut raw = synthetic(number);
        if number == 3 {
            raw.mix_hash = None;
        }
        if number == 5 {
            raw.transactions = vec![Ok(1), Err(RlpError::UnexpectedString)];
        }
        FetchOutcome::Found(raw)
    };
    let run = run_export(0, 9, &node, &newest);
    assert_eq!(
        run.error,
        Some(ExportError::Convert(ConvertError::FieldMissing(Field::MixHash)))
    );
    let run = run_export(4, 9, &node, &newest);
    assert_eq!(
        run.error,
        Some(ExportError::Convert(ConvertError::TxDecodeError {
            index: 1,
            cause: RlpError::UnexpectedString
        }))
    );
    assert_eq!(run.written, vec![]);
}

#[test]
fn conclude_fetch_gives_each_result() {
    assert_eq!(conclude_fetch(8, found(8)).unwrap().header.number, 8);
    assert_eq!(conclude_fetch(8, found(9)).unwrap().header.number, 9);
    assert_eq!(
        conclude_fetch::<u64>(8, FetchOutcome::NotFound),
        Err(ExportError::NotFound(8))
    );
    assert_eq!(
        conclude_fetch::<u64>(8, FetchOutcome::Transport(String::from("refused"))),
        Err(ExportError::Transport(String::from("refused")))
    );
    let mut raw = synthetic(8);
    raw.number = None;
    assert_eq!(
        conclude_fetch(8, FetchOutcome::Found(raw)),
        Err(ExportError::Convert(ConvertError::FieldMissing(Field::Number)))
    );
}

#[test]
fn collect_chunk_gives_the_blocks_or_the_first_error() {
    let slots: Vec<Slot<u64>> = vec![];
    assert_eq!(collect_chunk(slots), Ok(vec![]));
    let slots = vec![Slot::Settled(Ok(canonical(2))), Slot::Settled(Ok(canonical(1)))];
    assert_eq!(collect_chunk(slots), Ok(vec![canonical(2), canonical(1)]));
    let slots = vec![
        Slot::Settled(Ok(canonical(1))),
        Slot::Settled(Err(ExportError::NotFound(2))),
        Slot::Settled(Err(ExportError::NotFound(3))),
    ];
    assert_eq!(collect_chunk(slots), Err(ExportError::NotFound(2)));
}
