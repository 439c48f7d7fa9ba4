use eth_pipe::pipe::{
    Action, Batch, CommitPlan, CommitStep, PipeError, SyncState, MAX_BLOCKS_PER_BATCH,
    UPSERT_CLAUSE,
};
use eth_pipe::sql::ethereum::{Address, Block, Digest, Transaction, Uint256};
use eth_pipe::sql::{Sequelizable, SqlOperation};

fn tx(hash: u8, block: u64, index: u64, to: Option<Address>) -> Transaction {
    Transaction {
        hash: Digest { bytes: [hash; 32] },
        nonce: index,
        block_hash: Digest { bytes: [block as u8; 32] },
        block_number: block,
        transaction_index: index,
        from: Some(Address { bytes: [0x33; 20] }),
        to,
        value: Uint256 { words: [10, 0, 0, 0] },
        gas: Uint256 { words: [21000, 0, 0, 0] },
        gas_price: None,
    }
}

fn block(number: u64, txs: Vec<Transaction>) -> Block {
    Block { number, hash: Digest { bytes: [number as u8; 32] }, timestamp: 1000 + number, transactions: txs }
}

const BLOCK_HEADER: &str = "INSERT INTO blocks(\"number\", hash, \"timestamp\") VALUES\n";
const TX_HEADER: &str = "INSERT INTO transactions(hash, nonce, blockHash, blockNumber, transactionIndex, \"from\", \"to\", \"value\", gas, gasPrice) VALUES\n";

fn fill(batch: &mut Batch, blocks: Vec<Block>) {
    for b in blocks {
        let h = batch.next_height(false).expect("batch should take a block");
        assert_eq!(h, b.number);
        batch.accept(Some(b)).unwrap();
    }
}

fn plan_for(watermark: u64, tip: u64, op: SqlOperation, blocks: Vec<Block>) -> CommitPlan {
    let mut batch = Batch::new(watermark, tip, op);
    fill(&mut batch, blocks);
    batch.finish().expect("a plan")
}

#[test]
fn initial_watermark_takes_the_higher_of_store_and_override() {
    assert_eq!(SyncState::new(Some(500), 0, SqlOperation::Insert).last_db_block, 500);
    assert_eq!(SyncState::new(Some(500), 800, SqlOperation::Insert).last_db_block, 800);
    assert_eq!(SyncState::new(None, 0, SqlOperation::Copy).last_db_block, 0);
    assert_eq!(SyncState::new(None, 42, SqlOperation::Copy).last_db_block, 42);
    let s = SyncState::new(None, 0, SqlOperation::Insert);
    assert!(s.running);
    assert!(!s.syncing);
    assert_eq!(s.last_node_block, 0);
}

#[test]
fn insert_plan_without_transactions() {
    let p = plan_for(4, 10, SqlOperation::Insert, vec![block(5, vec![])]);
    assert_eq!(p.statements.len(), 1);
    assert!(p.copy_stream.is_none());
    let expected = format!("{}{}", BLOCK_HEADER, block(5, vec![]).to_insert_values());
    assert_eq!(p.statements[0], expected[..expected.len() - 1]);
    assert_eq!((p.first_block, p.last_block, p.block_count, p.transaction_count), (5, 5, 1, 0));
}

#[test]
fn insert_plan_with_transactions_upserts() {
    let b5 = block(5, vec![tx(0xa1, 5, 0, None)]);
    let b6 = block(6, vec![tx(0xa2, 6, 0, Some(Address { bytes: [0x44; 20] })), tx(0xa3, 6, 1, None)]);
    let p = plan_for(4, 10, SqlOperation::Insert, vec![b5.clone(), b6.clone()]);
    assert_eq!(p.statements.len(), 2);
    let blocks = format!("{}{}\n{}", BLOCK_HEADER, b5.to_insert_values(), b6.to_insert_values());
    assert_eq!(p.statements[0], blocks[..blocks.len() - 1]);
    let rows = format!(
        "{}{}\n{}\n{}",
        TX_HEADER,
        b5.transactions[0].to_insert_values(),
        b6.transactions[0].to_insert_values(),
        b6.transactions[1].to_insert_values()
    );
    assert_eq!(p.statements[1], format!("{}{}", &rows[..rows.len() - 1], UPSERT_CLAUSE));
    assert!(p.statements[1].ends_with("gas = excluded.gas, gasPrice = excluded.gasPrice"));
    assert!(p.copy_stream.is_none());
    assert_eq!((p.first_block, p.last_block, p.block_count, p.transaction_count), (5, 6, 2, 3));
}

#[test]
fn copy_plan_streams_transactions() {
    let b5 = block(5, vec![tx(0xa1, 5, 0, None), tx(0xa2, 5, 1, None)]);
    let p = plan_for(4, 5, SqlOperation::Copy, vec![b5.clone()]);
    assert_eq!(p.statements.len(), 1);
    let expected = format!(
        "{}\n{}\n",
        b5.transactions[0].to_copy_values(),
        b5.transactions[1].to_copy_values()
    );
    assert_eq!(p.copy_stream, Some(expected));
    assert!(p.statements[0].starts_with(BLOCK_HEADER));
}

#[test]
fn copy_header_names_the_columns() {
    assert_eq!(
        eth_pipe::pipe::copy_header_text::<Transaction>(),
        "COPY transactions(hash, nonce, blockHash, blockNumber, transactionIndex, \"from\", \"to\", \"value\", gas, gasPrice) FROM STDIN NULL 'NULL'"
    );
}

#[test]
fn absent_block_is_an_error_and_leaves_the_batch() {
    let mut batch = Batch::new(4, 10, SqlOperation::Insert);
    fill(&mut batch, vec![block(5, vec![])]);
    match batch.accept(None) {
        Err(PipeError::AbsentBlock(h)) => assert_eq!(h, 6),
        other => panic!("unexpected {:?}", other.is_ok()),
    }
    assert_eq!(batch.processed, 1);
    assert_eq!(batch.next_height(false), Some(6));
}

#[test]
fn batch_cap_respected() {
    let mut batch = Batch::new(0, 1000, SqlOperation::Insert);
    let mut fetched: u64 = 0;
    while let Some(h) = batch.next_height(false) {
        assert_eq!(h, fetched + 1);
        batch.accept(Some(block(h, vec![]))).unwrap();
        fetched += 1;
    }
    assert_eq!(fetched, MAX_BLOCKS_PER_BATCH);
    let p = batch.finish().unwrap();
    assert_eq!((p.first_block, p.last_block, p.block_count), (1, 100, 100));
}

#[test]
fn batch_stops_at_the_tip() {
    let mut batch = Batch::new(7, 9, SqlOperation::Insert);
    let mut heights = Vec::new();
    while let Some(h) = batch.next_height(false) {
        heights.push(h);
        batch.accept(Some(block(h, vec![]))).unwrap();
    }
    assert_eq!(heights, vec![8, 9]);
}

#[test]
fn cancelled_batch_is_a_no_op() {
    let batch = Batch::new(7, 9, SqlOperation::Insert);
    assert_eq!(batch.next_height(true), None);
    assert!(batch.finish().is_none());
}

#[test]
fn empty_gap_no_op() {
    let mut s = SyncState::new(Some(50), 0, SqlOperation::Insert);
    assert_eq!(s.begin_iteration(false), Action::Refresh);
    assert_eq!(s.update_node_info(50, false), Action::Sleep);
    let batch = s.start_batch();
    assert_eq!(batch.next_height(false), None);
    assert!(batch.finish().is_none());
}

#[test]
fn tip_behind_watermark_fetches_nothing() {
    let batch = Batch::new(50, 40, SqlOperation::Copy);
    assert_eq!(batch.next_height(false), None);
    assert!(batch.finish().is_none());
}

#[test]
fn syncing_gate() {
    let mut s = SyncState::new(Some(10), 0, SqlOperation::Insert);
    assert_eq!(s.begin_iteration(false), Action::Refresh);
    assert_eq!(s.update_node_info(100, true), Action::Sleep);
    assert!(s.syncing);
    assert_eq!(s.last_db_block, 10);
    assert_eq!(s.after_sleep(false), Action::Refresh);
    assert_eq!(s.update_node_info(100, false), Action::Assemble);
}

#[test]
fn interruptible_wait() {
    let mut s = SyncState::new(Some(10), 0, SqlOperation::Insert);
    assert_eq!(s.update_node_info(10, false), Action::Sleep);
    assert_eq!(s.after_sleep(true), Action::Stop);
    assert!(!s.running);
    assert_eq!(s.begin_iteration(false), Action::Stop);
}

#[test]
fn ascending_watermark_over_a_drain() {
    let mut s = SyncState::new(Some(0), 0, SqlOperation::Insert);
    assert_eq!(s.update_node_info(250, false), Action::Assemble);
    let mut seen = Vec::new();
    let mut action = Action::Assemble;
    while action == Action::Assemble {
        let mut batch = s.start_batch();
        while let Some(h) = batch.next_height(false) {
            batch.accept(Some(block(h, vec![]))).unwrap();
        }
        let plan = batch.finish().unwrap();
        let before = s.last_db_block;
        action = s.record_commit(&plan, false);
        assert!(s.last_db_block >= before);
        assert_eq!(s.last_db_block, plan.last_block);
        seen.push(s.last_db_block);
    }
    assert_eq!(seen, vec![100, 200, 250]);
    assert_eq!(action, Action::Sleep);
}

#[test]
fn cancel_during_drain_stops() {
    let mut s = SyncState::new(Some(0), 0, SqlOperation::Insert);
    s.update_node_info(250, false);
    let batch = s.start_batch();
    assert_eq!(batch.next_height(true), None);
    assert!(batch.finish().is_none());
    assert_eq!(s.record_empty_batch(true), Action::Stop);
}

fn run_steps(plan: &CommitPlan, outcomes: &[bool]) -> Vec<CommitStep> {
    let mut run = plan.begin_commit();
    let mut steps = Vec::new();
    let mut i = 0;
    loop {
        let step = plan.next_step(&run);
        steps.push(step);
        match step {
            CommitStep::Done | CommitStep::Rollback => return steps,
            _ => {
                run.record(plan, outcomes[i]);
                i += 1;
            }
        }
    }
}

#[test]
fn no_partial_commit() {
    let b5 = block(5, vec![tx(0xa1, 5, 0, None)]);
    let plan = plan_for(4, 5, SqlOperation::Insert, vec![b5]);
    let steps = run_steps(&plan, &[true, false]);
    assert_eq!(steps, vec![CommitStep::Execute(0), CommitStep::Execute(1), CommitStep::Rollback]);
    assert!(!steps.contains(&CommitStep::Commit));
}

#[test]
fn commit_runs_statements_then_commits() {
    let b5 = block(5, vec![tx(0xa1, 5, 0, None)]);
    let insert = plan_for(4, 5, SqlOperation::Insert, vec![b5.clone()]);
    assert_eq!(
        run_steps(&insert, &[true, true, true]),
        vec![CommitStep::Execute(0), CommitStep::Execute(1), CommitStep::Commit, CommitStep::Done]
    );
    let copy = plan_for(4, 5, SqlOperation::Copy, vec![b5]);
    assert_eq!(
        run_steps(&copy, &[true, true, true]),
        vec![CommitStep::Execute(0), CommitStep::Commit, CommitStep::Emit, CommitStep::Done]
    );
}

#[test]
fn idempotent_upsert_statement() {
    let b5 = block(5, vec![tx(0xa1, 5, 0, None)]);
    let first = plan_for(4, 5, SqlOperation::Insert, vec![b5.clone()]);
    let again = plan_for(4, 5, SqlOperation::Insert, vec![b5]);
    assert_eq!(first.statements, again.statements);
    assert!(first.statements[1].contains("ON CONFLICT (hash) DO UPDATE SET"));
}

#[test]
fn reorg_overwrite_statement_carries_new_linkage() {
    let moved = tx(0xa1, 9, 3, None);
    let p = plan_for(8, 9, SqlOperation::Insert, vec![block(9, vec![moved.clone()])]);
    let stmt = &p.statements[1];
    assert!(stmt.contains(&moved.to_insert_values()[..moved.to_insert_values().len() - 1]));
    for column in ["blockHash", "blockNumber", "transactionIndex"] {
        assert!(stmt.contains(&format!("{} = excluded.{}", column, column)));
    }
}

#[test]
fn encoding_round_trip_for_blocks_of_zero_one_and_many_transactions() {
    let creation = tx(0xc1, 7, 2, None);
    let blocks = vec![
        block(5, vec![]),
        block(6, vec![tx(0xb1, 6, 0, Some(Address { bytes: [0x44; 20] }))]),
        block(7, vec![tx(0xc0, 7, 0, None), tx(0xc2, 7, 1, None), creation.clone()]),
    ];
    let insert = plan_for(4, 7, SqlOperation::Insert, blocks.clone());
    let copy = plan_for(4, 7, SqlOperation::Copy, blocks.clone());
    assert_eq!(insert.statements[0], copy.statements[0]);
    assert_eq!(insert.transaction_count, 4);
    let stream = copy.copy_stream.clone().unwrap();
    let lines: Vec<&str> = stream.lines().collect();
    assert_eq!(lines.len(), 4);
    let last: Vec<&str> = lines[3].split('\t').collect();
    assert_eq!(last.len(), 10);
    assert_eq!(last[1], "2");
    assert_eq!(last[3], "7");
    assert_eq!(last[4], "2");
    assert_eq!(last[6], "NULL");
    assert_eq!(last[7], "10");
    assert_eq!(last[8], "21000");
    assert_eq!(last[9], "NULL");
    let row = creation.to_insert_values();
    assert!(insert.statements[1].contains(&row[..row.len() - 1]));
    assert!(row.ends_with(", NULL, 10, 21000, NULL),"));
}
