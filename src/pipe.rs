//! The synchronisation engine: batch assembly, the commit of a batch, and the
//! decisions of the run loop.

pub mod error;

pub use error::PipeError;

use crate::sql::ethereum::{Block, Transaction};
use crate::sql::{insert_row, row_text, Field, Sequelizable, SqlOperation};
use crate::text::string_views;
use vstd::prelude::*;

verus! {

/// The most blocks that one batch holds.
pub const MAX_BLOCKS_PER_BATCH: u64 = 100;

/// `INSERT INTO <table>(<columns>) VALUES` and a newline.
pub open spec fn insert_header<S: Sequelizable>() -> Seq<char> {
    "INSERT INTO "@ + S::spec_table_name() + "("@ + S::spec_insert_fields() + ") VALUES\n"@
}

/// `COPY <table>(<columns>) FROM STDIN NULL 'NULL'`.
pub open spec fn copy_header<S: Sequelizable>() -> Seq<char> {
    "COPY "@ + S::spec_table_name() + "("@ + S::spec_insert_fields() + ") FROM STDIN NULL 'NULL'"@
}

/// The clause that turns the transaction `INSERT` into an upsert on the
/// hash: every other column takes the value of the new row.
pub open spec fn upsert_clause() -> Seq<char> {
    "\nON CONFLICT (hash) DO UPDATE SET nonce = excluded.nonce, blockHash = excluded.blockHash, blockNumber = excluded.blockNumber, transactionIndex = excluded.transactionIndex, \"from\" = excluded.from, \"to\" = excluded.to, \"value\" = excluded.value, gas = excluded.gas, gasPrice = excluded.gasPrice"@
}

/// The upsert clause, as the statement text carries it.
pub const UPSERT_CLAUSE: &'static str = "\nON CONFLICT (hash) DO UPDATE SET nonce = excluded.nonce, blockHash = excluded.blockHash, blockNumber = excluded.blockNumber, transactionIndex = excluded.transactionIndex, \"from\" = excluded.from, \"to\" = excluded.to, \"value\" = excluded.value, gas = excluded.gas, gasPrice = excluded.gasPrice";

/// `s` without its last two characters.
pub open spec fn trimmed(s: Seq<char>) -> Seq<char> {
    s.subrange(0, s.len() - 2)
}

/// Appends the `INSERT` header of the record kind `S`.
pub fn write_insert_header<S: Sequelizable>(sql_query: &mut String)
    ensures
        final(sql_query)@ == old(sql_query)@ + insert_header::<S>(),
{
    sql_query.append("INSERT INTO ");
    sql_query.append(S::table_name());
    sql_query.append("(");
    sql_query.append(S::insert_fields());
    sql_query.append(") VALUES\n");
}

/// The bulk-copy header of the record kind `S`, for the loader that reads the
/// copy stream.
pub fn copy_header_text<S: Sequelizable>() -> (r: String)
    ensures
        r@ == copy_header::<S>(),
{
    let mut s = String::from_str("COPY ");
    s.append(S::table_name());
    s.append("(");
    s.append(S::insert_fields());
    s.append(") FROM STDIN NULL 'NULL'");
    s
}

/// Removes the last two characters: the newline and the comma after the last
/// value tuple.
pub fn trim_ends(sql_query: &mut String)
    requires
        old(sql_query)@.len() >= 2,
    ensures
        final(sql_query)@ == trimmed(old(sql_query)@),
{
    let n = sql_query.as_str().unicode_len();
    let kept = String::from_str(sql_query.as_str().substring_char(0, n - 2));
    *sql_query = kept;
}

/// The value tuples of the blocks, one per line.
pub open spec fn blocks_text(bs: Seq<Block>) -> Seq<char>
    decreases bs.len(),
{
    if bs.len() == 0 {
        Seq::empty()
    } else {
        blocks_text(bs.drop_last()) + insert_row(bs.last().spec_fields()) + "\n"@
    }
}

/// The rows of the transactions under `op`, one per line.
pub open spec fn transactions_text(txs: Seq<Transaction>, op: SqlOperation) -> Seq<char>
    decreases txs.len(),
{
    if txs.len() == 0 {
        Seq::empty()
    } else {
        transactions_text(txs.drop_last(), op) + row_text(txs.last().spec_fields(), op) + "\n"@
    }
}

/// The rows of all transactions of the blocks, block by block, under `op`.
pub open spec fn batch_transactions_text(bs: Seq<Block>, op: SqlOperation) -> Seq<char>
    decreases bs.len(),
{
    if bs.len() == 0 {
        Seq::empty()
    } else {
        batch_transactions_text(bs.drop_last(), op) + transactions_text(bs.last().transactions@, op)
    }
}

/// The number of transactions in the blocks.
pub open spec fn transaction_count(bs: Seq<Block>) -> nat
    decreases bs.len(),
{
    if bs.len() == 0 {
        0
    } else {
        transaction_count(bs.drop_last()) + bs.last().transactions@.len()
    }
}

/// What stands before the transaction rows: the `INSERT` header under
/// `Insert`, nothing under `Copy`.
pub open spec fn transactions_prefix(op: SqlOperation) -> Seq<char> {
    match op {
        SqlOperation::Insert => insert_header::<Transaction>(),
        SqlOperation::Copy => Seq::empty(),
    }
}

/// The contiguous blocks after a watermark, fetched one at a time in
/// ascending order and encoded as they come.
pub struct Batch {
    pub operation: SqlOperation,
    /// The highest height stored when the batch began.
    pub watermark: u64,
    /// The node's tip when the batch began.
    pub tip: u64,
    /// The highest height in the batch (the watermark while it is empty).
    pub last: u64,
    pub processed: u64,
    /// The number of transactions, saturated at `u64::MAX`.
    pub processed_tx: u64,
    pub sql_blocks: String,
    pub data_transactions: String,
    /// The blocks taken, in order.
    pub blocks: Ghost<Seq<Block>>,
}

impl Batch {
    pub open spec fn wf(&self) -> bool {
        &&& self.last as int == self.watermark as int + self.processed as int
        &&& self.processed <= MAX_BLOCKS_PER_BATCH
        &&& self.blocks@.len() == self.processed as nat
        &&& (self.processed > 0 ==> self.last <= self.tip)
        &&& self.processed_tx as nat == if transaction_count(self.blocks@) <= u64::MAX as nat {
            transaction_count(self.blocks@)
        } else {
            u64::MAX as nat
        }
        &&& self.sql_blocks@ == insert_header::<Block>() + blocks_text(self.blocks@)
        &&& self.data_transactions@ == transactions_prefix(self.operation)
            + batch_transactions_text(self.blocks@, self.operation)
    }

    /// Whether the batch takes another block: it holds fewer than the most
    /// blocks, the tip is not reached, and no stop was asked for.
    pub open spec fn wants_block(&self, cancelled: bool) -> bool {
        self.processed < MAX_BLOCKS_PER_BATCH && self.last < self.tip && !cancelled
    }

    /// An empty batch of the blocks after `watermark` up to `tip`.
    pub fn new(watermark: u64, tip: u64, operation: SqlOperation) -> (r: Batch)
        ensures
            r.wf(),
            r.watermark == watermark,
            r.tip == tip,
            r.operation == operation,
            r.processed == 0,
    {
        let mut sql_blocks = String::new();
        write_insert_header::<Block>(&mut sql_blocks);
        let mut data_transactions = String::new();
        if operation == SqlOperation::Insert {
            write_insert_header::<Transaction>(&mut data_transactions);
        }
        let r = Batch {
            operation,
            watermark,
            tip,
            last: watermark,
            processed: 0,
            processed_tx: 0,
            sql_blocks,
            data_transactions,
            blocks: Ghost(Seq::empty()),
        };
        assert(r.sql_blocks@ =~= insert_header::<Block>() + blocks_text(r.blocks@));
        assert(r.data_transactions@ =~= transactions_prefix(operation) + batch_transactions_text(
            r.blocks@,
            operation,
        ));
        r
    }

    /// The height to fetch next, if the batch takes another block.
    pub fn next_height(&self, cancelled: bool) -> (r: Option<u64>)
        requires
            self.wf(),
        ensures
            r == if self.wants_block(cancelled) {
                Some((self.last + 1) as u64)
            } else {
                None::<u64>
            },
    {
        if self.processed < MAX_BLOCKS_PER_BATCH && self.last < self.tip && !cancelled {
            Some(self.last + 1)
        } else {
            None
        }
    }

    /// Appends a fetched block and its transactions.
    pub fn push_block(&mut self, block: Block)
        requires
            old(self).wf(),
            old(self).wants_block(false),
        ensures
            final(self).wf(),
            final(self).blocks@ == old(self).blocks@.push(block),
            final(self).last == old(self).last + 1,
            final(self).processed == old(self).processed + 1,
            final(self).watermark == old(self).watermark,
            final(self).tip == old(self).tip,
            final(self).operation == old(self).operation,
    {
        let ghost old_blocks = self.blocks@;
        let ghost new_blocks = old_blocks.push(block);
        let row = block.to_insert_values();
        self.sql_blocks.append(row.as_str());
        self.sql_blocks.append("\n");
        let n = block.transactions.len();
        let mut lines = String::new();
        let mut i: usize = 0;
        while i < n
            invariant
                n == block.transactions@.len(),
                i <= n,
                lines@ == transactions_text(block.transactions@.take(i as int), self.operation),
            decreases n - i,
        {
            let line = block.transactions[i].to_values(&self.operation);
            lines.append(line.as_str());
            lines.append("\n");
            proof {
                let pre = block.transactions@.take(i as int);
                let post = block.transactions@.take(i as int + 1);
                assert(post.drop_last() =~= pre);
            }
            i = i + 1;
        }
        self.data_transactions.append(lines.as_str());
        proof {
            assert(block.transactions@.take(n as int) =~= block.transactions@);
            assert(new_blocks.drop_last() =~= old_blocks);
            assert(new_blocks.last() == block);
            assert(self.sql_blocks@ =~= insert_header::<Block>() + blocks_text(new_blocks));
            assert(self.data_transactions@ =~= transactions_prefix(self.operation)
                + batch_transactions_text(new_blocks, self.operation));
        }
        self.processed_tx = self.processed_tx.saturating_add(n as u64);
        self.processed = self.processed + 1;
        self.last = self.last + 1;
        self.blocks = Ghost(new_blocks);
    }

    /// Takes what the node returned for the next height: a block joins the
    /// batch; no block is an error, and the batch stays as it was.
    pub fn accept(&mut self, fetched: Option<Block>) -> (r: Result<(), PipeError>)
        requires
            old(self).wf(),
            old(self).wants_block(false),
        ensures
            final(self).wf(),
            match fetched {
                Some(b) => {
                    &&& r is Ok
                    &&& final(self).blocks@ == old(self).blocks@.push(b)
                    &&& final(self).last == old(self).last + 1
                    &&& final(self).processed == old(self).processed + 1
                    &&& final(self).watermark == old(self).watermark
                    &&& final(self).tip == old(self).tip
                    &&& final(self).operation == old(self).operation
                },
                None => {
                    &&& r == Err::<(), PipeError>(PipeError::AbsentBlock((old(self).last + 1) as u64))
                    &&& *final(self) == *old(self)
                },
            },
    {
        match fetched {
            Some(block) => {
                self.push_block(block);
                Ok(())
            },
            None => Err(PipeError::AbsentBlock(self.last + 1)),
        }
    }

    /// Ends the batch. An empty batch gives no plan; otherwise the plan of the
    /// database transaction that stores it.
    pub fn finish(self) -> (r: Option<CommitPlan>)
        requires
            self.wf(),
        ensures
            self.processed == 0 <==> r is None,
            match r {
                Some(p) => {
                    &&& p.wf()
                    &&& p.blocks@ == self.blocks@
                    &&& p.operation == self.operation
                    &&& p.first_block == self.watermark + 1
                    &&& p.last_block == self.last
                    &&& p.block_count == self.processed
                },
                None => true,
            },
    {
        if self.processed == 0 {
            return None;
        }
        proof {
            reveal_strlit("INSERT INTO ");
        }
        let ghost bs = self.blocks@;
        let Batch { operation, watermark, last, processed, processed_tx, mut sql_blocks, mut data_transactions, .. } = self;
        trim_ends(&mut sql_blocks);
        let mut statements: Vec<String> = Vec::new();
        statements.push(sql_blocks);
        let mut copy_stream: Option<String> = None;
        if processed_tx > 0 {
            match operation {
                SqlOperation::Insert => {
                    trim_ends(&mut data_transactions);
                    data_transactions.append(UPSERT_CLAUSE);
                    statements.push(data_transactions);
                },
                SqlOperation::Copy => {
                    copy_stream = Some(data_transactions);
                },
            }
        }
        let p = CommitPlan {
            operation,
            statements,
            copy_stream,
            first_block: watermark + 1,
            last_block: last,
            block_count: processed,
            transaction_count: processed_tx,
            blocks: Ghost(bs),
        };
        assert(string_views(p.statements@) =~= plan_statements(bs, operation));
        Some(p)
    }
}

/// The statements that store the blocks, run in order in one database
/// transaction: the block `INSERT`, then, under `Insert` and where there are
/// transactions, the transaction upsert.
pub open spec fn plan_statements(bs: Seq<Block>, op: SqlOperation) -> Seq<Seq<char>> {
    let blocks = trimmed(insert_header::<Block>() + blocks_text(bs));
    if op == SqlOperation::Insert && transaction_count(bs) > 0 {
        seq![
            blocks,
            trimmed(insert_header::<Transaction>() + batch_transactions_text(bs, op))
                + upsert_clause(),
        ]
    } else {
        seq![blocks]
    }
}

/// The bulk-copy stream of the transactions, emitted after the commit: under
/// `Copy` and where there are transactions.
pub open spec fn plan_copy_stream(bs: Seq<Block>, op: SqlOperation) -> Option<Seq<char>> {
    if op == SqlOperation::Copy && transaction_count(bs) > 0 {
        Some(batch_transactions_text(bs, op))
    } else {
        None
    }
}

/// How a batch is stored: statements run in one database transaction, then
/// the bulk-copy stream, if any, once that transaction has committed.
pub struct CommitPlan {
    pub operation: SqlOperation,
    pub statements: Vec<String>,
    pub copy_stream: Option<String>,
    /// The lowest height stored by the plan.
    pub first_block: u64,
    /// The highest height stored by the plan.
    pub last_block: u64,
    pub block_count: u64,
    /// The number of transactions, saturated at `u64::MAX`.
    pub transaction_count: u64,
    /// The blocks stored, in ascending order of height.
    pub blocks: Ghost<Seq<Block>>,
}

impl CommitPlan {
    pub open spec fn wf(&self) -> bool {
        &&& self.block_count >= 1
        &&& self.block_count <= MAX_BLOCKS_PER_BATCH
        &&& self.blocks@.len() == self.block_count as nat
        &&& self.last_block as int == self.first_block as int + self.block_count as int - 1
        &&& (self.transaction_count > 0 <==> transaction_count(self.blocks@) > 0)
        &&& string_views(self.statements@) == plan_statements(self.blocks@, self.operation)
        &&& match self.copy_stream {
            Some(c) => plan_copy_stream(self.blocks@, self.operation) == Some(c@),
            None => plan_copy_stream(self.blocks@, self.operation) is None,
        }
    }
}

/// The transactions of the blocks, block by block, each in block order.
pub open spec fn batch_transactions(bs: Seq<Block>) -> Seq<Transaction>
    decreases bs.len(),
{
    if bs.len() == 0 {
        Seq::empty()
    } else {
        batch_transactions(bs.drop_last()) + bs.last().transactions@
    }
}

/// What the transaction upsert does to the transaction rows of the store,
/// which hold one row per hash: each row in turn is inserted, or, where its
/// hash is present, replaces every other column of the row there.
pub open spec fn upsert_rows(
    table: Map<Seq<u8>, Seq<Field>>,
    txs: Seq<Transaction>,
) -> Map<Seq<u8>, Seq<Field>>
    decreases txs.len(),
{
    if txs.len() == 0 {
        table
    } else {
        upsert_rows(table, txs.drop_last()).insert(txs.last().hash.bytes@, txs.last().spec_fields())
    }
}

proof fn lemma_upsert_overlay(table: Map<Seq<u8>, Seq<Field>>, txs: Seq<Transaction>)
    ensures
        upsert_rows(table, txs) == table.union_prefer_right(upsert_rows(Map::empty(), txs)),
    decreases txs.len(),
{
    if txs.len() > 0 {
        lemma_upsert_overlay(table, txs.drop_last());
        lemma_upsert_overlay(Map::empty(), txs.drop_last());
        assert(Map::<Seq<u8>, Seq<Field>>::empty().union_prefer_right(
            upsert_rows(Map::empty(), txs.drop_last()),
        ) =~= upsert_rows(Map::empty(), txs.drop_last()));
        assert(upsert_rows(table, txs) =~= table.union_prefer_right(
            upsert_rows(Map::empty(), txs),
        ));
    } else {
        assert(table =~= table.union_prefer_right(Map::empty()));
    }
}

/// Storing the same batch twice under `Insert` leaves the transaction rows
/// as storing it once does.
pub proof fn lemma_upsert_idempotent(table: Map<Seq<u8>, Seq<Field>>, plan: CommitPlan)
    requires
        plan.wf(),
        plan.operation == SqlOperation::Insert,
    ensures
        upsert_rows(upsert_rows(table, batch_transactions(plan.blocks@)), batch_transactions(
            plan.blocks@,
        )) == upsert_rows(table, batch_transactions(plan.blocks@)),
{
    let txs = batch_transactions(plan.blocks@);
    let once = upsert_rows(table, txs);
    lemma_upsert_overlay(table, txs);
    lemma_upsert_overlay(once, txs);
    assert(once.union_prefer_right(upsert_rows(Map::empty(), txs)) =~= once);
}

/// A transaction stored again under another block ends as one row under its
/// hash, whose columns, the block linkage among them, are those of the new
/// block's transaction.
pub proof fn lemma_reorg_overwrite(table: Map<Seq<u8>, Seq<Field>>, txs: Seq<Transaction>, k: int)
    requires
        0 <= k < txs.len(),
        forall|j: int| 0 <= j < txs.len() && j != k ==> #[trigger] txs[j].hash.bytes@ != txs[k].hash.bytes@,
    ensures
        upsert_rows(table, txs).contains_key(txs[k].hash.bytes@),
        upsert_rows(table, txs)[txs[k].hash.bytes@] == txs[k].spec_fields(),
    decreases txs.len(),
{
    if k < txs.len() - 1 {
        let prev = txs.drop_last();
        assert forall|j: int| 0 <= j < prev.len() && j != k implies #[trigger] prev[j].hash.bytes@
            != prev[k].hash.bytes@ by {
            assert(prev[j] == txs[j]);
        }
        lemma_reorg_overwrite(table, prev, k);
        assert(txs.last() == txs[txs.len() - 1]);
    }
}

/// One step of storing a plan.
#[derive(PartialEq, Eq, Structural, Clone, Copy, Debug)]
pub enum CommitStep {
    /// Run the statement of this index inside the database transaction.
    Execute(usize),
    /// Commit the database transaction.
    Commit,
    /// Emit the bulk-copy stream.
    Emit,
    /// Roll the database transaction back and give up the batch.
    Rollback,
    /// The plan is stored.
    Done,
}

/// How far the storing of a plan has come.
#[derive(PartialEq, Eq, Structural, Clone, Copy, Debug)]
pub struct CommitRun {
    /// The number of steps that succeeded.
    pub stage: usize,
    /// Whether a step failed.
    pub failed: bool,
}

/// Whether a step is one that is performed and has an outcome.
pub open spec fn is_performed(step: CommitStep) -> bool {
    step is Execute || step is Commit || step is Emit
}

impl CommitPlan {
    /// The step that follows `run`: each statement in order, then the commit,
    /// then the copy stream if there is one. After a failure, only rollback.
    pub open spec fn step_at(&self, run: CommitRun) -> CommitStep {
        let n = self.statements@.len();
        if run.failed {
            CommitStep::Rollback
        } else if run.stage < n {
            CommitStep::Execute(run.stage)
        } else if run.stage == n {
            CommitStep::Commit
        } else if run.stage == n + 1 && self.copy_stream is Some {
            CommitStep::Emit
        } else {
            CommitStep::Done
        }
    }

    /// The run after the outcome `ok` of the step that follows `run`.
    pub open spec fn after_outcome(&self, run: CommitRun, ok: bool) -> CommitRun {
        if !is_performed(self.step_at(run)) {
            run
        } else if ok {
            CommitRun { stage: (run.stage + 1) as usize, failed: false }
        } else {
            CommitRun { stage: run.stage, failed: true }
        }
    }

    /// The run after the outcomes `outcomes`, one per step, from the start.
    pub open spec fn run_after(&self, outcomes: Seq<bool>) -> CommitRun
        decreases outcomes.len(),
    {
        if outcomes.len() == 0 {
            CommitRun { stage: 0, failed: false }
        } else {
            self.after_outcome(self.run_after(outcomes.drop_last()), outcomes.last())
        }
    }

    /// The run before any step.
    pub fn begin_commit(&self) -> (r: CommitRun)
        ensures
            r == self.run_after(Seq::empty()),
    {
        CommitRun { stage: 0, failed: false }
    }

    /// The step that follows `run`.
    pub fn next_step(&self, run: &CommitRun) -> (r: CommitStep)
        ensures
            r == self.step_at(*run),
    {
        if run.failed {
            CommitStep::Rollback
        } else if run.stage < self.statements.len() {
            CommitStep::Execute(run.stage)
        } else if run.stage == self.statements.len() {
            CommitStep::Commit
        } else if run.stage == self.statements.len() + 1 && self.copy_stream.is_some() {
            CommitStep::Emit
        } else {
            CommitStep::Done
        }
    }
}

impl CommitRun {
    /// Records the outcome of the step that followed this run.
    pub fn record(&mut self, plan: &CommitPlan, ok: bool)
        requires
            plan.wf(),
        ensures
            *final(self) == plan.after_outcome(*old(self), ok),
    {
        let step = plan.next_step(self);
        proof {
            assert(string_views(plan.statements@).len() == plan.statements@.len());
        }
        match step {
            CommitStep::Execute(_) | CommitStep::Commit | CommitStep::Emit => {
                if ok {
                    self.stage = self.stage + 1;
                } else {
                    self.failed = true;
                }
            },
            _ => {},
        }
    }
}

/// What the run loop does next.
#[derive(PartialEq, Eq, Structural, Clone, Copy, Debug)]
pub enum Action {
    /// Ask the node for its tip and sync status.
    Refresh,
    /// Assemble and store the next batch.
    Assemble,
    /// Wait for the fixed interval, or until a stop is asked for.
    Sleep,
    /// Stop: the run ends cleanly.
    Stop,
}

/// The synchronisation state: the watermark, what the node last reported,
/// and whether the run goes on.
pub struct SyncState {
    /// The highest height stored.
    pub last_db_block: u64,
    /// The node's tip, as last reported.
    pub last_node_block: u64,
    /// Whether the node last reported that it is syncing.
    pub syncing: bool,
    /// Whether no stop was asked for.
    pub running: bool,
    pub operation: SqlOperation,
}

impl SyncState {
    /// The state once a stop, if `cancelled`, has been seen.
    pub open spec fn with_cancel(self, cancelled: bool) -> SyncState {
        SyncState { running: self.running && !cancelled, ..self }
    }

    /// The state after a refresh that reported `tip` and `syncing`.
    pub open spec fn refreshed(self, tip: u64, syncing: bool) -> SyncState {
        SyncState { last_node_block: tip, syncing, ..self }
    }

    /// The state after `plan` was stored.
    pub open spec fn committed(self, plan: CommitPlan, cancelled: bool) -> SyncState {
        SyncState { last_db_block: plan.last_block, ..self.with_cancel(cancelled) }
    }

    /// At the start of an iteration: a refresh while running, else a stop.
    pub open spec fn iteration_decision(&self) -> Action {
        if self.running {
            Action::Refresh
        } else {
            Action::Stop
        }
    }

    /// While draining: another batch while the watermark is below the tip,
    /// else the idle wait; a stop once one was asked for.
    pub open spec fn drain_decision(&self) -> Action {
        if !self.running {
            Action::Stop
        } else if self.last_db_block < self.last_node_block {
            Action::Assemble
        } else {
            Action::Sleep
        }
    }

    /// After a refresh: wait while the node syncs, else drain.
    pub open spec fn refresh_decision(&self) -> Action {
        if self.running && self.syncing {
            Action::Sleep
        } else {
            self.drain_decision()
        }
    }

    /// The state at startup: the watermark is the stored height (zero for an
    /// empty store) raised to the override.
    pub fn new(stored: Option<u64>, last_block_override: u64, operation: SqlOperation) -> (r: SyncState)
        ensures
            r.last_db_block == match stored {
                Some(h) => if h >= last_block_override { h } else { last_block_override },
                None => last_block_override,
            },
            r.last_node_block == 0,
            !r.syncing,
            r.running,
            r.operation == operation,
    {
        let mut last_db_block: u64 = match stored {
            Some(h) => h,
            None => 0,
        };
        if last_block_override > last_db_block {
            last_db_block = last_block_override;
        }
        SyncState { last_db_block, last_node_block: 0, syncing: false, running: true, operation }
    }

    /// The start of an outer iteration: a refresh, or a stop once one was
    /// asked for.
    pub fn begin_iteration(&mut self, cancelled: bool) -> (r: Action)
        ensures
            *final(self) == old(self).with_cancel(cancelled),
            r == final(self).iteration_decision(),
    {
        if cancelled {
            self.running = false;
        }
        if self.running {
            Action::Refresh
        } else {
            Action::Stop
        }
    }

    /// Takes the node's tip and sync status; each refresh replaces both.
    pub fn update_node_info(&mut self, tip: u64, syncing: bool) -> (r: Action)
        ensures
            *final(self) == old(self).refreshed(tip, syncing),
            r == final(self).refresh_decision(),
    {
        self.last_node_block = tip;
        self.syncing = syncing;
        if self.running && self.syncing {
            Action::Sleep
        } else {
            self.drain_now()
        }
    }

    fn drain_now(&self) -> (r: Action)
        ensures
            r == self.drain_decision(),
    {
        if !self.running {
            Action::Stop
        } else if self.last_db_block < self.last_node_block {
            Action::Assemble
        } else {
            Action::Sleep
        }
    }

    /// The batch of the blocks after the watermark up to the tip.
    pub fn start_batch(&self) -> (r: Batch)
        ensures
            r.wf(),
            r.watermark == self.last_db_block,
            r.tip == self.last_node_block,
            r.operation == self.operation,
            r.processed == 0,
    {
        Batch::new(self.last_db_block, self.last_node_block, self.operation)
    }

    /// After a plan was stored: the watermark moves to its highest height.
    pub fn record_commit(&mut self, plan: &CommitPlan, cancelled: bool) -> (r: Action)
        requires
            plan.wf(),
            plan.first_block == old(self).last_db_block + 1,
        ensures
            *final(self) == old(self).committed(*plan, cancelled),
            r == final(self).drain_decision(),
    {
        self.last_db_block = plan.last_block;
        if cancelled {
            self.running = false;
        }
        self.drain_now()
    }

    /// After a batch that took no block: draining ends.
    pub fn record_empty_batch(&mut self, cancelled: bool) -> (r: Action)
        ensures
            *final(self) == old(self).with_cancel(cancelled),
            r == if final(self).running {
                Action::Sleep
            } else {
                Action::Stop
            },
    {
        if cancelled {
            self.running = false;
        }
        if self.running {
            Action::Sleep
        } else {
            Action::Stop
        }
    }

    /// After a wait: an interrupted wait stops the run, else the next
    /// iteration begins.
    pub fn after_sleep(&mut self, interrupted: bool) -> (r: Action)
        ensures
            *final(self) == old(self).with_cancel(interrupted),
            r == final(self).iteration_decision(),
    {
        self.begin_iteration(interrupted)
    }
}

/// The state after the plans were stored one after another.
pub open spec fn after_commits(s: SyncState, plans: Seq<CommitPlan>) -> SyncState
    decreases plans.len(),
{
    if plans.len() == 0 {
        s
    } else {
        after_commits(s, plans.drop_last()).committed(plans.last(), false)
    }
}

/// Whether each plan starts right above the watermark that the plans
/// before it left, as the batches of a drain do.
pub open spec fn chained(s: SyncState, plans: Seq<CommitPlan>) -> bool
    decreases plans.len(),
{
    if plans.len() == 0 {
        true
    } else {
        &&& chained(s, plans.drop_last())
        &&& plans.last().wf()
        &&& plans.last().first_block == after_commits(s, plans.drop_last()).last_db_block + 1
    }
}

/// Over successive commits the watermark never decreases, and after each
/// commit it equals the highest height that the commit stored.
pub proof fn lemma_watermark_ascends(s: SyncState, plans: Seq<CommitPlan>)
    requires
        chained(s, plans),
    ensures
        forall|i: int, j: int|
            0 <= i <= j <= plans.len() ==> #[trigger] after_commits(s, plans.take(i)).last_db_block
                <= #[trigger] after_commits(s, plans.take(j)).last_db_block,
        forall|i: int|
            0 <= i < plans.len() ==> #[trigger] after_commits(s, plans.take(i + 1)).last_db_block
                == plans[i].last_block,
    decreases plans.len(),
{
    if plans.len() > 0 {
        let prev = plans.drop_last();
        lemma_watermark_ascends(s, prev);
        assert(plans.take(plans.len() as int) =~= plans);
        assert forall|i: int| 0 <= i <= prev.len() implies #[trigger] plans.take(i) == prev.take(i) by {
            assert(plans.take(i) =~= prev.take(i));
        }
        assert(after_commits(s, plans).last_db_block == plans.last().last_block);
        assert(after_commits(s, plans).last_db_block >= after_commits(s, prev).last_db_block);
        assert(prev.take(prev.len() as int) =~= prev);
        assert forall|i: int, j: int|
            0 <= i <= j <= plans.len() implies #[trigger] after_commits(s, plans.take(i)).last_db_block
                <= #[trigger] after_commits(s, plans.take(j)).last_db_block by {
            if j == plans.len() && i < j {
                assert(after_commits(s, prev.take(i)).last_db_block <= after_commits(s, prev.take(prev.len() as int)).last_db_block);
            }
        }
        assert forall|i: int|
            0 <= i < plans.len() implies #[trigger] after_commits(s, plans.take(i + 1)).last_db_block
                == plans[i].last_block by {
            if i + 1 < plans.len() {
                assert(after_commits(s, prev.take(i + 1)).last_db_block == prev[i].last_block);
            }
        }
    } else {
        assert forall|i: int| 0 <= i <= 0 implies #[trigger] plans.take(i) == plans by {
            assert(plans.take(i) =~= plans);
        }
    }
}

/// When the tip lies more than the cap above the watermark, a batch takes
/// blocks exactly until it holds the cap, never more.
pub proof fn lemma_batch_cap(b: Batch)
    requires
        b.wf(),
        b.tip as int - b.watermark as int > MAX_BLOCKS_PER_BATCH as int,
    ensures
        b.processed <= MAX_BLOCKS_PER_BATCH,
        b.wants_block(false) <==> b.processed < MAX_BLOCKS_PER_BATCH,
{
}

/// When the tip equals the watermark, the drain neither fetches nor commits:
/// no batch is asked for, and a batch begun there takes no block and gives
/// no plan.
pub proof fn lemma_empty_gap(s: SyncState, b: Batch, cancelled: bool)
    requires
        s.last_db_block == s.last_node_block,
        b.wf(),
        b.watermark == s.last_db_block,
        b.tip == s.last_node_block,
        b.processed == 0,
    ensures
        s.refresh_decision() != Action::Assemble,
        s.drain_decision() != Action::Assemble,
        !b.wants_block(cancelled),
{
}

/// While the node syncs, a refresh leads to a wait, never to a batch; a wait
/// that was not interrupted leads to the next refresh.
pub proof fn lemma_syncing_gate(s: SyncState, tip: u64)
    requires
        s.running,
    ensures
        s.refreshed(tip, true).refresh_decision() == Action::Sleep,
        s.refreshed(tip, true).with_cancel(false).iteration_decision() == Action::Refresh,
{
}

/// A stop asked for during a wait ends the run: the state no longer runs,
/// and every later decision is a stop.
pub proof fn lemma_interrupted_wait_stops(s: SyncState)
    ensures
        !s.with_cancel(true).running,
        s.with_cancel(true).iteration_decision() == Action::Stop,
        forall|c: bool| #[trigger] s.with_cancel(true).with_cancel(c).iteration_decision() == Action::Stop,
        s.with_cancel(true).drain_decision() == Action::Stop,
        s.with_cancel(true).refresh_decision() == Action::Stop,
{
}

/// When a statement of a plan fails after the ones before it succeeded, the
/// database transaction is never committed: the steps before the failure
/// run the statements in order, and every step after it is a rollback.
pub proof fn lemma_no_partial_commit(plan: CommitPlan, outcomes: Seq<bool>, f: int)
    requires
        plan.wf(),
        0 <= f < plan.statements@.len(),
        f < outcomes.len(),
        forall|i: int| 0 <= i < f ==> outcomes[i],
        !outcomes[f],
    ensures
        forall|k: int|
            0 <= k <= outcomes.len() ==> #[trigger] plan.step_at(plan.run_after(outcomes.take(k)))
                == if k <= f {
                CommitStep::Execute(k as usize)
            } else {
                CommitStep::Rollback
            },
{
    assert forall|k: int| 0 <= k <= outcomes.len() implies #[trigger] plan.step_at(
        plan.run_after(outcomes.take(k)),
    ) == if k <= f {
        CommitStep::Execute(k as usize)
    } else {
        CommitStep::Rollback
    } by {
        lemma_run_prefix(plan, outcomes, f, k);
    }
}

proof fn lemma_run_prefix(plan: CommitPlan, outcomes: Seq<bool>, f: int, k: int)
    requires
        plan.wf(),
        0 <= f < plan.statements@.len(),
        f < outcomes.len(),
        forall|i: int| 0 <= i < f ==> outcomes[i],
        !outcomes[f],
        0 <= k <= outcomes.len(),
    ensures
        plan.run_after(outcomes.take(k)) == if k <= f {
            CommitRun { stage: k as usize, failed: false }
        } else {
            CommitRun { stage: f as usize, failed: true }
        },
    decreases k,
{
    assert(string_views(plan.statements@).len() == plan.statements@.len());
    if k > 0 {
        lemma_run_prefix(plan, outcomes, f, k - 1);
        assert(outcomes.take(k).drop_last() =~= outcomes.take(k - 1));
        assert(outcomes.take(k).last() == outcomes[k - 1]);
    } else {
        assert(outcomes.take(0) =~= Seq::<bool>::empty());
    }
}

} // verus!
