//! The export job: a block range cut into batches, each batch fetched with
//! bounded parallelism and joined before the next one starts.
//!
//! The job does no fetching itself. It says which block to fetch next, is
//! told how each fetch ended, and keeps the counts. At most `max_workers`
//! fetches are in flight at a time, all of them in one batch; the batch
//! size decides only where the job waits for everything in flight.

use crate::exporters::{CsvExporter, SinkOutput};
use crate::domain::Block;
use crate::exporters::{row_texts, rows_bytes};
use crate::mappers::{
    block_maps_to, block_row, block_to_rows, ethers_block_to_block, missing_field,
    transaction_row,
};
use crate::providers::FetchOutcome;
use crate::utils::{ExportError, ProgressSignal, ProgressTracker, ProgressView, TrackerState};
use vstd::arithmetic::div_mod::{
    lemma_div_is_ordered, lemma_div_multiples_vanish, lemma_fundamental_div_mod,
    lemma_fundamental_div_mod_converse, lemma_mod_multiples_basic,
};
use std::time::Instant;
use vstd::prelude::*;

verus! {

/// What the job asks of its driver.
#[derive(Debug, Clone, Copy, PartialEq, Eq, Structural)]
pub enum JobAction {
    /// Fetch the block of this number, then report how it went.
    Fetch(u64),
    /// Nothing more may start before a fetch in flight is reported.
    Wait,
    /// Every block of the range has been dealt with.
    Finished,
    /// A batch failed; the run is over.
    Failed,
}

/// The counts of a run.
#[derive(Debug, Clone, Copy, PartialEq, Eq, Structural)]
pub struct Stats {
    /// Blocks whose rows were handed to the sink.
    pub blocks_processed: u64,
    /// Blocks that were fetched but could not be mapped or written.
    pub blocks_skipped: u64,
    /// Transactions of the blocks processed.
    pub transactions_processed: u128,
}

/// The state of a job as the contracts see it.
pub struct JobView {
    pub start_block: u64,
    pub end_block: u64,
    pub batch_size: u64,
    pub max_workers: usize,
    pub exporter: CsvExporter,
    pub progress: ProgressView,
    /// The number of blocks in the batches that have been joined.
    pub done: nat,
    /// The number of blocks whose fetch has been started.
    pub launched: nat,
    /// The blocks whose fetch has been started and not yet reported.
    pub in_flight: Seq<u64>,
    pub batch_blocks: nat,
    pub batch_skipped: nat,
    pub batch_transactions: nat,
    /// The failed fetch of the open batch with the lowest block number.
    pub batch_error: Option<(u64, ExportError)>,
    pub blocks_count: nat,
    pub blocks_skipped: nat,
    pub transactions_count: nat,
    pub failure: Option<ExportError>,
    /// The blocks whose tasks have been reported, in the order of the
    /// reports.
    pub log: Seq<u64>,
}

/// The first place at which `x` stands in `s`, or the length of `s` where it
/// does not occur.
pub open spec fn first_index(s: Seq<u64>, x: u64) -> int
    decreases s.len(),
{
    if s.len() == 0 {
        0
    } else if s[0] == x {
        0
    } else {
        1 + first_index(s.skip(1), x)
    }
}

/// `first_index` is the least index that holds `x`.
pub proof fn lemma_first_index(s: Seq<u64>, x: u64, i: int)
    requires
        0 <= i < s.len(),
        s[i] == x,
        forall|j: int| 0 <= j < i ==> s[j] != x,
    ensures
        first_index(s, x) == i,
    decreases s.len(),
{
    if i > 0 {
        assert(s[0] != x);
        assert forall|j: int| 0 <= j < i - 1 implies s.skip(1)[j] != x by {
            assert(s.skip(1)[j] == s[j + 1]);
        }
        lemma_first_index(s.skip(1), x, i - 1);
    }
}

/// Where `x` occurs in `s`, `first_index` is a place that holds it.
pub proof fn lemma_first_index_bounds(s: Seq<u64>, x: u64, at: int)
    requires
        0 <= at < s.len(),
        s[at] == x,
    ensures
        0 <= first_index(s, x) <= at,
        s[first_index(s, x)] == x,
    decreases s.len(),
{
    if s[0] != x {
        assert(s.skip(1)[at - 1] == s[at]);
        lemma_first_index_bounds(s.skip(1), x, at - 1);
        assert(s.skip(1)[first_index(s.skip(1), x)] == s[first_index(s.skip(1), x) + 1]);
    }
}

impl JobView {
    /// The number of blocks in the range; none where it ends before it
    /// starts.
    pub open spec fn total(&self) -> nat {
        if self.start_block <= self.end_block {
            (self.end_block - self.start_block + 1) as nat
        } else {
            0
        }
    }

    /// The first block of the batch that block `n` belongs to.
    pub open spec fn batch_first(&self, n: u64) -> int {
        self.start_block + ((n - self.start_block) / (self.batch_size as int)) * self.batch_size
    }

    /// Whether every block of the open batch has been started.
    pub open spec fn batch_is_complete(&self) -> bool {
        self.launched == self.total() || self.launched - self.done == self.batch_size
    }

    /// Whether another fetch may start: the run has not failed, the range
    /// and the open batch have blocks left, and a worker is free.
    pub open spec fn can_launch(&self) -> bool {
        &&& self.failure is None
        &&& self.launched < self.total()
        &&& self.launched - self.done < self.batch_size
        &&& self.in_flight.len() < self.max_workers
    }

    /// What the job asks for in this state.
    pub open spec fn action(&self) -> JobAction {
        if self.failure is Some {
            JobAction::Failed
        } else if self.can_launch() {
            JobAction::Fetch((self.start_block + self.launched) as u64)
        } else if self.in_flight.len() > 0 {
            JobAction::Wait
        } else {
            JobAction::Finished
        }
    }

    /// The state once the next block's fetch has started.
    pub open spec fn after_launch(&self) -> JobView {
        JobView {
            launched: self.launched + 1,
            in_flight: self.in_flight.push((self.start_block + self.launched) as u64),
            ..*self
        }
    }

    /// The state once the block asked for, if one was, is in flight.
    pub open spec fn after_action(&self) -> JobView {
        if self.can_launch() {
            self.after_launch()
        } else {
            *self
        }
    }

    /// The failed fetch to keep: the one with the lower block number.
    pub open spec fn lower_error(&self, number: u64, error: ExportError) -> Option<
        (u64, ExportError),
    > {
        match self.batch_error {
            Some((n, e)) => if number < n {
                Some((number, error))
            } else {
                Some((n, e))
            },
            None => Some((number, error)),
        }
    }

    /// The state once the task of block `number`, which is in flight, is
    /// taken into the counts of the open batch. A task that went well
    /// counts one block and its transactions; one that could not map or
    /// write its block counts as skipped; a failed fetch is kept as the
    /// batch's error if no lower block failed.
    pub open spec fn recorded(&self, number: u64, result: Result<u64, ExportError>) -> JobView {
        let in_flight = self.in_flight.remove(first_index(self.in_flight, number));
        let log = self.log.push(number);
        match result {
            Ok(transactions) => JobView {
                in_flight,
                log,
                batch_blocks: self.batch_blocks + 1,
                batch_transactions: self.batch_transactions + transactions as nat,
                ..*self
            },
            Err(error) => if error.spec_is_fatal() {
                JobView { in_flight, log, batch_error: self.lower_error(number, error), ..*self }
            } else {
                JobView { in_flight, log, batch_skipped: self.batch_skipped + 1, ..*self }
            },
        }
    }

    /// The state once the open batch, all of whose tasks are reported, is
    /// joined. Its counts go to the totals. If a fetch failed, the run has
    /// failed with the error of the lowest such block; else the batch is
    /// done and its size goes to the progress tracker.
    pub open spec fn joined(&self) -> JobView {
        let counted = JobView {
            batch_blocks: 0,
            batch_skipped: 0,
            batch_transactions: 0,
            batch_error: None,
            blocks_count: self.blocks_count + self.batch_blocks,
            blocks_skipped: self.blocks_skipped + self.batch_skipped,
            transactions_count: self.transactions_count + self.batch_transactions,
            ..*self
        };
        match self.batch_error {
            Some((_, error)) => JobView { failure: Some(error), ..counted },
            None => JobView {
                done: self.launched,
                progress: self.progress.after_track((self.launched - self.done) as nat),
                ..counted
            },
        }
    }

    /// Whether the open batch is to be joined: nothing is in flight, and
    /// every one of its blocks has been started.
    pub open spec fn due_for_join(&self) -> bool {
        self.in_flight.len() == 0 && self.batch_is_complete() && self.launched > self.done
    }

    /// The state once the task of block `number` is reported. A block that
    /// is not in flight changes nothing.
    pub open spec fn after_completion(
        &self,
        number: u64,
        result: Result<u64, ExportError>,
    ) -> JobView {
        if !self.in_flight.contains(number) {
            *self
        } else if self.recorded(number, result).due_for_join() {
            self.recorded(number, result).joined()
        } else {
            self.recorded(number, result)
        }
    }

    /// The signal that the report of block `number` sets off: that of the
    /// progress tracker where the report completes a batch without a failed
    /// fetch.
    pub open spec fn completion_signal(
        &self,
        number: u64,
        result: Result<u64, ExportError>,
    ) -> Option<ProgressSignal> {
        let r = self.recorded(number, result);
        if self.in_flight.contains(number) && r.due_for_join() && r.batch_error is None {
            r.progress.track_signal((r.launched - r.done) as nat)
        } else {
            None
        }
    }

    /// Every block reported so far had all blocks of earlier batches
    /// reported before it.
    pub open spec fn batches_in_order(&self) -> bool {
        forall|j: int, m: u64|
            0 <= j < self.log.len() && self.start_block <= m < self.batch_first(self.log[j])
                ==> #[trigger] self.log.take(j).contains(m)
    }

    /// What holds of a job between any two calls, but for the join that may
    /// be due.
    pub open spec fn wf_open(&self) -> bool {
        &&& self.batch_size >= 1
        &&& self.max_workers >= 1
        &&& self.total() <= u64::MAX
        &&& self.done <= self.launched <= self.total()
        &&& self.launched - self.done <= self.batch_size
        &&& self.in_flight.len() <= self.max_workers
        &&& self.in_flight.len() <= self.launched - self.done
        &&& forall|i: int|
            0 <= i < self.in_flight.len() ==> self.start_block + self.done <= (
            #[trigger] self.in_flight[i]) < self.start_block + self.launched
        &&& self.done % (self.batch_size as nat) == 0 || self.done == self.total()
        &&& self.batch_blocks + self.batch_skipped + self.in_flight.len() <= self.launched
            - self.done
        &&& self.failure is None && self.batch_error is None ==> self.batch_blocks
            + self.batch_skipped + self.in_flight.len() == self.launched - self.done
        &&& self.batch_error matches Some((n, e)) ==> e.spec_is_fatal()
        &&& self.blocks_count + self.blocks_skipped <= self.launched
        &&& self.failure is None ==> self.blocks_count + self.blocks_skipped == self.done
        &&& self.failure is Some ==> self.in_flight.len() == 0 && self.batch_error is None
        &&& self.batch_transactions <= self.batch_blocks * u64::MAX
        &&& self.transactions_count <= self.blocks_count * u64::MAX
        &&& self.progress.wf()
        &&& self.progress.total_items == Some(self.total() as u64)
        &&& self.progress.processed_items <= self.done
        &&& forall|j: int|
            0 <= j < self.log.len() ==> self.start_block <= (#[trigger] self.log[j])
                < self.start_block + self.launched
        &&& forall|m: u64|
            self.start_block <= m < self.start_block + self.done ==> #[trigger] self.log.contains(
                m,
            )
        &&& forall|m: u64|
            self.start_block + self.done <= m < self.start_block + self.launched
                ==> self.in_flight.contains(m) || #[trigger] self.log.contains(m)
        &&& self.batches_in_order()
    }

    /// What holds of a job between any two calls: a batch all of whose
    /// tasks are reported has been joined.
    pub open spec fn wf(&self) -> bool {
        &&& self.wf_open()
        &&& self.failure is None ==> !self.due_for_join()
    }

    /// A job that has started nothing.
    pub open spec fn fresh(&self) -> bool {
        &&& self.done == 0
        &&& self.launched == 0
        &&& self.in_flight.len() == 0
        &&& self.batch_blocks == 0
        &&& self.batch_skipped == 0
        &&& self.batch_transactions == 0
        &&& self.batch_error is None
        &&& self.blocks_count == 0
        &&& self.blocks_skipped == 0
        &&& self.transactions_count == 0
        &&& self.failure is None
        &&& self.log.len() == 0
        &&& self.progress.processed_items == 0
    }
}

/// A block in flight belongs to the open batch.
pub proof fn lemma_open_batch(v: JobView, number: u64)
    requires
        v.wf_open(),
        v.start_block + v.done <= number < v.start_block + v.launched,
    ensures
        v.batch_first(number) == v.start_block + v.done,
{
    let b = v.batch_size as int;
    let x = number - v.start_block;
    let d = v.done as int;
    if d % b == 0 {
        lemma_fundamental_div_mod(d, b);
        let q = d / b;
        assert(d == b * q);
        assert(x == q * b + (x - d)) by (nonlinear_arith)
            requires
                d == b * q,
        ;
        lemma_fundamental_div_mod_converse(x, b, q, x - d);
        assert(x / b == q);
        assert((x / b) * b == d) by (nonlinear_arith)
            requires
                x / b == q,
                d == b * q,
        ;
    }
}

/// Starting the next fetch keeps the job well formed.
pub proof fn lemma_launch_wf(v: JobView)
    requires
        v.wf(),
        v.can_launch(),
    ensures
        v.after_launch().wf(),
        v.after_launch().in_flight.len() == v.in_flight.len() + 1,
{
    let w = v.after_launch();
    let n = (v.start_block + v.launched) as u64;
    assert forall|i: int| 0 <= i < w.in_flight.len() implies w.start_block + w.done <= (
    #[trigger] w.in_flight[i]) < w.start_block + w.launched by {
        if i < v.in_flight.len() {
            assert(w.in_flight[i] == v.in_flight[i]);
        }
    }
    assert forall|m: u64|
        w.start_block + w.done <= m < w.start_block + w.launched implies w.in_flight.contains(m)
        || #[trigger] w.log.contains(m) by {
        if m == n {
            assert(w.in_flight[v.in_flight.len() as int] == n);
        } else {
            if v.in_flight.contains(m) {
                let i = choose|i: int| 0 <= i < v.in_flight.len() && v.in_flight[i] == m;
                assert(w.in_flight[i] == m);
            }
        }
    }
    assert(v.done != v.total());
}

/// Taking the report of a block in flight into the open batch keeps the job
/// well formed, but for the join that may now be due.
pub proof fn lemma_record_wf(v: JobView, number: u64, result: Result<u64, ExportError>)
    requires
        v.wf(),
        v.in_flight.contains(number),
    ensures
        v.recorded(number, result).wf_open(),
        v.recorded(number, result).in_flight.len() + 1 == v.in_flight.len(),
        v.failure is None,
{
    let w = v.recorded(number, result);
    let k = first_index(v.in_flight, number);
    let at = choose|i: int| 0 <= i < v.in_flight.len() && v.in_flight[i] == number;
    lemma_first_index_bounds(v.in_flight, number, at);
    assert(0 <= k < v.in_flight.len() && v.in_flight[k] == number);
    assert(w.in_flight == v.in_flight.remove(k));
    assert(w.log == v.log.push(number));
    assert forall|i: int| 0 <= i < w.in_flight.len() implies w.start_block + w.done <= (
    #[trigger] w.in_flight[i]) < w.start_block + w.launched by {
        if i < k {
            assert(w.in_flight[i] == v.in_flight[i]);
        } else {
            assert(w.in_flight[i] == v.in_flight[i + 1]);
        }
    }
    assert forall|j: int| 0 <= j < w.log.len() implies w.start_block <= (#[trigger] w.log[j])
        < w.start_block + w.launched by {
        if j < v.log.len() {
            assert(w.log[j] == v.log[j]);
        }
    }
    assert forall|m: u64| w.start_block <= m < w.start_block + w.done implies #[trigger] w.log.contains(
        m,
    ) by {
        assert(v.log.contains(m));
        let j = choose|j: int| 0 <= j < v.log.len() && v.log[j] == m;
        assert(w.log[j] == m);
    }
    assert forall|m: u64|
        w.start_block + w.done <= m < w.start_block + w.launched implies w.in_flight.contains(m)
        || #[trigger] w.log.contains(m) by {
        if m == number {
            assert(w.log[v.log.len() as int] == number);
        } else if v.log.contains(m) {
            let j = choose|j: int| 0 <= j < v.log.len() && v.log[j] == m;
            assert(w.log[j] == m);
        } else {
            assert(v.in_flight.contains(m));
            let i = choose|i: int| 0 <= i < v.in_flight.len() && v.in_flight[i] == m;
            if i < k {
                assert(w.in_flight[i] == m);
            } else {
                assert(w.in_flight[i - 1] == m);
            }
        }
    }
    assert forall|j: int, m: u64|
        0 <= j < w.log.len() && w.start_block <= m < w.batch_first(w.log[j]) implies #[trigger] w.log.take(
        j,
    ).contains(m) by {
        if j < v.log.len() {
            assert(w.log[j] == v.log[j]);
            assert(w.log.take(j) =~= v.log.take(j));
            assert(v.batch_first(v.log[j]) == w.batch_first(w.log[j]));
            assert(v.log.take(j).contains(m));
        } else {
            lemma_open_batch(v, number);
            assert(w.log.take(j) =~= v.log);
            assert(v.log.contains(m));
        }
    }
    match result {
        Ok(transactions) => {
            assert(w.batch_transactions <= w.batch_blocks * u64::MAX) by (nonlinear_arith)
                requires
                    w.batch_transactions == v.batch_transactions + transactions,
                    w.batch_blocks == v.batch_blocks + 1,
                    v.batch_transactions <= v.batch_blocks * u64::MAX,
                    transactions <= u64::MAX,
            ;
        },
        Err(_) => {},
    }
}

/// Joining a batch all of whose tasks are reported makes the job well
/// formed again.
pub proof fn lemma_join_wf(v: JobView)
    requires
        v.wf_open(),
        v.failure is None,
        v.due_for_join(),
    ensures
        v.joined().wf(),
{
    let w = v.joined();
    assert(w.transactions_count <= w.blocks_count * u64::MAX) by (nonlinear_arith)
        requires
            w.transactions_count == v.transactions_count + v.batch_transactions,
            w.blocks_count == v.blocks_count + v.batch_blocks,
            v.transactions_count <= v.blocks_count * u64::MAX,
            v.batch_transactions <= v.batch_blocks * u64::MAX,
    ;
    if v.batch_error is None {
        let n = (v.launched - v.done) as nat;
        crate::utils::lemma_track_step(v.progress, n);
        let b = v.batch_size as int;
        if v.launched != v.total() {
            assert(v.done % (v.batch_size as nat) == 0);
            lemma_mod_multiples_basic(1, b);
            lemma_fundamental_div_mod(v.done as int, b);
            assert((v.done + v.batch_size) as nat % (v.batch_size as nat) == 0) by (nonlinear_arith)
                requires
                    v.done as int == b * (v.done as int / b),
                    b == v.batch_size,
                    b >= 1,
            ;
        }
        assert forall|m: u64| w.start_block <= m < w.start_block + w.done implies #[trigger] w.log.contains(
            m,
        ) by {
            if m < v.start_block + v.done {
                assert(v.log.contains(m));
            } else {
                assert(v.in_flight.contains(m) || v.log.contains(m));
            }
        }
        assert(w.batches_in_order()) by {
            assert forall|j: int, m: u64|
                0 <= j < w.log.len() && w.start_block <= m < w.batch_first(
                    w.log[j],
                ) implies #[trigger] w.log.take(j).contains(m) by {
                assert(v.batch_first(v.log[j]) == w.batch_first(w.log[j]));
                assert(v.log.take(j).contains(m));
            }
        }
    } else {
        assert(w.batches_in_order()) by {
            assert forall|j: int, m: u64|
                0 <= j < w.log.len() && w.start_block <= m < w.batch_first(
                    w.log[j],
                ) implies #[trigger] w.log.take(j).contains(m) by {
                assert(v.batch_first(v.log[j]) == w.batch_first(w.log[j]));
                assert(v.log.take(j).contains(m));
            }
        }
    }
}

/// Reporting a task keeps the job well formed.
pub proof fn lemma_completion_wf(v: JobView, number: u64, result: Result<u64, ExportError>)
    requires
        v.wf(),
    ensures
        v.after_completion(number, result).wf(),
{
    if v.in_flight.contains(number) {
        lemma_record_wf(v, number, result);
        if v.recorded(number, result).due_for_join() {
            lemma_join_wf(v.recorded(number, result));
        }
    }
}

/// One call on a job.
pub enum JobStep {
    /// `begin`, at this instant.
    Begin(Instant),
    /// `next_action`.
    Advance,
    /// `task_completed` with the block and how its task ended.
    Report(u64, Result<u64, ExportError>),
    /// `finish`.
    Finish,
}

impl JobView {
    /// The state after one call.
    pub open spec fn after_step(&self, step: JobStep) -> JobView {
        match step {
            JobStep::Begin(now) => JobView { progress: self.progress.started(now), ..*self },
            JobStep::Advance => self.after_action(),
            JobStep::Report(number, result) => self.after_completion(number, result),
            JobStep::Finish => JobView { progress: self.progress.finished(), ..*self },
        }
    }

    /// The state after a run of calls.
    pub open spec fn after_steps(&self, steps: Seq<JobStep>) -> JobView
        decreases steps.len(),
    {
        if steps.len() == 0 {
            *self
        } else {
            self.after_steps(steps.drop_last()).after_step(steps.last())
        }
    }

    /// The blocks counted as skipped, joined or not.
    pub open spec fn skipped(&self) -> nat {
        self.blocks_skipped + self.batch_skipped
    }
}

/// Whether every task reported in `steps` went well.
pub open spec fn every_task_succeeded(steps: Seq<JobStep>) -> bool {
    forall|i: int|
        0 <= i < steps.len() ==> match #[trigger] steps[i] {
            JobStep::Report(_, result) => result is Ok,
            _ => true,
        }
}

/// Whatever is called on a job, in whatever order, it stays well formed;
/// and as long as every task reported went well, it has skipped no block
/// and has not failed.
pub proof fn lemma_steps_keep_wf(v: JobView, steps: Seq<JobStep>)
    requires
        v.wf(),
    ensures
        v.after_steps(steps).wf(),
        every_task_succeeded(steps) && v.skipped() == 0 && v.failure is None && v.batch_error
            is None ==> {
            &&& v.after_steps(steps).skipped() == 0
            &&& v.after_steps(steps).failure is None
            &&& v.after_steps(steps).batch_error is None
        },
    decreases steps.len(),
{
    if steps.len() > 0 {
        let before = v.after_steps(steps.drop_last());
        lemma_steps_keep_wf(v, steps.drop_last());
        if every_task_succeeded(steps) {
            assert forall|i: int| 0 <= i < steps.drop_last().len() implies match #[trigger] steps.drop_last()[i] {
                JobStep::Report(_, result) => result is Ok,
                _ => true,
            } by {
                assert(steps.drop_last()[i] == steps[i]);
            }
            assert(steps[steps.len() - 1] == steps.last());
        }
        match steps.last() {
            JobStep::Begin(now) => {
                if let Some(total) = before.progress.total_items {
                    crate::utils::lemma_threshold_monotonic(
                        before.progress.processed_items,
                        before.progress.processed_items,
                        total as nat,
                    );
                }
            },
            JobStep::Advance => {
                if before.can_launch() {
                    lemma_launch_wf(before);
                }
            },
            JobStep::Report(number, result) => {
                lemma_completion_wf(before, number, result);
            },
            JobStep::Finish => {},
        }
    }
}

/// A run over a range that does not end before it starts, in which every
/// task went well and at whose end the job says that it has finished, has
/// processed each block of the range: as many as the range holds.
pub proof fn lemma_successful_run_counts_the_range(v: JobView, steps: Seq<JobStep>)
    requires
        v.wf(),
        v.fresh(),
        v.start_block <= v.end_block,
        every_task_succeeded(steps),
        v.after_steps(steps).action() == JobAction::Finished,
    ensures
        v.after_steps(steps).blocks_count == v.end_block - v.start_block + 1,
        v.after_steps(steps).blocks_skipped == 0,
        v.after_steps(steps).failure is None,
{
    lemma_steps_keep_wf(v, steps);
    lemma_steps_keep_range(v, steps);
    lemma_finished_counts_every_block(v.after_steps(steps));
}

/// No call changes the range, the batch size or the number of workers.
pub proof fn lemma_steps_keep_range(v: JobView, steps: Seq<JobStep>)
    ensures
        v.after_steps(steps).start_block == v.start_block,
        v.after_steps(steps).end_block == v.end_block,
        v.after_steps(steps).batch_size == v.batch_size,
        v.after_steps(steps).max_workers == v.max_workers,
        v.after_steps(steps).exporter == v.exporter,
    decreases steps.len(),
{
    if steps.len() > 0 {
        lemma_steps_keep_range(v, steps.drop_last());
    }
}

/// When a job says that it has finished, every block of the range has been
/// reported and counted: as processed, or as skipped. A run in which no
/// block was skipped has processed as many blocks as the range holds.
pub proof fn lemma_finished_counts_every_block(v: JobView)
    requires
        v.wf(),
        v.action() == JobAction::Finished,
    ensures
        v.failure is None,
        v.done == v.total(),
        v.blocks_count + v.blocks_skipped == v.total(),
        v.blocks_skipped == 0 && v.start_block <= v.end_block ==> v.blocks_count == v.end_block
            - v.start_block + 1,
        forall|m: u64| v.start_block <= m < v.start_block + v.total() ==> v.log.contains(m),
{
}

/// The batch boundary: by the time a block at or after the start of batch
/// `k` is reported, every block of the batches before it has been reported.
pub proof fn lemma_batch_boundary(v: JobView, j: int, k: nat, m: u64)
    requires
        v.wf(),
        0 <= j < v.log.len(),
        v.log[j] >= v.start_block + k * v.batch_size,
        v.start_block <= m < v.start_block + k * v.batch_size,
    ensures
        v.log.take(j).contains(m),
{
    let b = v.batch_size as int;
    let x = v.log[j] - v.start_block;
    let kb = b * (k as int);
    assert(kb == k * v.batch_size) by (nonlinear_arith)
        requires
            kb == b * (k as int),
            b == v.batch_size,
    ;
    lemma_div_is_ordered(kb, x, b);
    lemma_div_multiples_vanish(k as int, b);
    assert((x / b) * b >= k * b) by (nonlinear_arith)
        requires
            x / b >= k,
            b >= 1,
    ;
    assert(v.start_block <= m < v.batch_first(v.log[j]));
}

/// No more fetches are in flight than there are workers, and all of them
/// belong to the open batch.
pub proof fn lemma_bounded_parallelism(v: JobView)
    requires
        v.wf(),
    ensures
        v.in_flight.len() <= v.max_workers,
        v.in_flight.len() <= v.batch_size,
        forall|i: int|
            0 <= i < v.in_flight.len() ==> v.batch_first(#[trigger] v.in_flight[i])
                == v.start_block + v.done,
{
    assert forall|i: int| 0 <= i < v.in_flight.len() implies v.batch_first(
        #[trigger] v.in_flight[i],
    ) == v.start_block + v.done by {
        lemma_open_batch(v, v.in_flight[i]);
    }
}

/// Why a job cannot be set up.
#[derive(Debug, Clone, Copy, PartialEq, Eq, Structural)]
pub enum ConfigError {
    /// The batch size is zero.
    ZeroBatchSize,
    /// The number of workers is zero.
    ZeroWorkers,
    /// The range holds more blocks than can be counted in 64 bits.
    RangeTooLarge,
}

/// What one task yields for the block it fetched.
#[derive(Debug)]
pub struct TaskOutput {
    /// The block in the normalized schema, where it was delivered whole.
    pub block: Option<Block>,
    /// The bytes to append to the streams, where the rows were encoded.
    pub output: Option<SinkOutput>,
    /// The number of transactions of the block, or why the task failed.
    pub result: Result<u64, ExportError>,
}

/// The rows of the transactions of `b`, in their order.
pub open spec fn transaction_rows(b: Block) -> Seq<Seq<Seq<char>>> {
    Seq::new(b.transactions@.len(), |i: int| transaction_row(b.transactions@[i]))
}

/// Does the work of one task on what the provider answered for block
/// `block_number`: maps the block, derives its row and those of its
/// transactions, and encodes them for the streams that are on.
///
/// A block that was not found, a failed call and a block without a required
/// field fail the task without output. A block that is whole always yields
/// one block row and one row per transaction, and its task succeeds with
/// the number of its transactions.
pub fn process_block(exporter: &CsvExporter, block_number: u64, outcome: &FetchOutcome) -> (t:
    TaskOutput)
    ensures
        match *outcome {
            FetchOutcome::NotFound => {
                &&& t.result == Err::<u64, ExportError>(ExportError::NotFound { block_number })
                &&& t.block is None
                &&& t.output is None
            },
            FetchOutcome::TransportError(text) => {
                &&& t.result == Err::<u64, ExportError>(
                    ExportError::Transport { block_number, message: text },
                )
                &&& t.block is None
                &&& t.output is None
            },
            FetchOutcome::Found(raw) => match missing_field(raw) {
                Some(missing) => {
                    &&& t.result == Err::<u64, ExportError>(
                        ExportError::Mapping { block_number, missing },
                    )
                    &&& t.block is None
                    &&& t.output is None
                },
                None => {
                    &&& t.block matches Some(b)
                    &&& block_maps_to(raw, b)
                    &&& b.wf()
                    &&& t.result is Ok
                    &&& match t.result {
                        Ok(count) => {
                            &&& count == raw.transactions@.len()
                            &&& t.output matches Some(out)
                            &&& if exporter.blocks_enabled {
                                out.blocks matches Some(bytes) && bytes@ == rows_bytes(
                                    seq![block_row(b)],
                                )
                            } else {
                                out.blocks is None
                            }
                            &&& if exporter.transactions_enabled {
                                out.transactions matches Some(bytes) && bytes@ == rows_bytes(
                                    transaction_rows(b),
                                )
                            } else {
                                out.transactions is None
                            }
                        },
                        Err(_) => false,
                    }
                },
            },
        },
{
    match outcome {
        FetchOutcome::NotFound => TaskOutput {
            block: None,
            output: None,
            result: Err(ExportError::NotFound { block_number }),
        },
        FetchOutcome::TransportError(text) => TaskOutput {
            block: None,
            output: None,
            result: Err(ExportError::Transport { block_number, message: text.clone() }),
        },
        FetchOutcome::Found(raw) => match ethers_block_to_block(raw) {
            Err(missing) => TaskOutput {
                block: None,
                output: None,
                result: Err(ExportError::Mapping { block_number, missing }),
            },
            Ok(block) => {
                let rows = block_to_rows(&block);
                let mut block_rows: Vec<Vec<String>> = Vec::new();
                block_rows.push(rows.0);
                let count = block.transactions.len() as u64;
                proof {
                    assert(row_texts(block_rows@) =~= seq![block_row(block)]);
                    assert(row_texts(rows.1@) =~= transaction_rows(block));
                }
                match exporter.export_blocks_and_transactions(&block_rows, &rows.1) {
                    Ok(out) => TaskOutput { block: Some(block), output: Some(out), result: Ok(count) },
                    Err(cause) => TaskOutput {
                        block: Some(block),
                        output: None,
                        result: Err(ExportError::SinkWrite { block_number, cause }),
                    },
                }
            },
        },
    }
}

/// The place of the first `x` in `v`, if it holds one.
fn position(v: &Vec<u64>, x: u64) -> (r: Option<usize>)
    ensures
        match r {
            Some(i) => v@.contains(x) && i == first_index(v@, x) && i < v@.len(),
            None => !v@.contains(x),
        },
{
    let mut i: usize = 0;
    while i < v.len()
        invariant
            i <= v.len(),
            forall|j: int| 0 <= j < i ==> v@[j] != x,
        decreases v.len() - i,
    {
        if v[i] == x {
            proof {
                lemma_first_index(v@, x, i as int);
            }
            return Some(i);
        }
        i += 1;
    }
    None
}

/// An export of a block range in batches.
pub struct ExportBlocksJob {
    start_block: u64,
    end_block: u64,
    batch_size: u64,
    max_workers: usize,
    exporter: CsvExporter,
    progress: ProgressTracker,
    done: u64,
    launched: u64,
    in_flight: Vec<u64>,
    batch_blocks: u64,
    batch_skipped: u64,
    batch_transactions: u128,
    batch_error: Option<(u64, ExportError)>,
    blocks_count: u64,
    blocks_skipped: u64,
    transactions_count: u128,
    failure: Option<ExportError>,
    log: Ghost<Seq<u64>>,
}

impl View for ExportBlocksJob {
    type V = JobView;

    closed spec fn view(&self) -> JobView {
        JobView {
            start_block: self.start_block,
            end_block: self.end_block,
            batch_size: self.batch_size,
            max_workers: self.max_workers,
            exporter: self.exporter,
            progress: self.progress@,
            done: self.done as nat,
            launched: self.launched as nat,
            in_flight: self.in_flight@,
            batch_blocks: self.batch_blocks as nat,
            batch_skipped: self.batch_skipped as nat,
            batch_transactions: self.batch_transactions as nat,
            batch_error: self.batch_error,
            blocks_count: self.blocks_count as nat,
            blocks_skipped: self.blocks_skipped as nat,
            transactions_count: self.transactions_count as nat,
            failure: self.failure,
            log: self.log@,
        }
    }
}

/// Whether a job can be set up with these numbers.
pub open spec fn valid_config(
    start_block: u64,
    end_block: u64,
    batch_size: u64,
    max_workers: usize,
) -> bool {
    &&& batch_size >= 1
    &&& max_workers >= 1
    &&& end_block - start_block < u64::MAX
}

/// Says what is wrong with the numbers of a job, if anything is: first the
/// batch size, then the number of workers, then the range.
pub fn check_config(start_block: u64, end_block: u64, batch_size: u64, max_workers: usize) -> (r:
    Result<(), ConfigError>)
    ensures
        r is Ok <==> valid_config(start_block, end_block, batch_size, max_workers),
        r == if batch_size == 0 {
            Err::<(), ConfigError>(ConfigError::ZeroBatchSize)
        } else if max_workers == 0 {
            Err(ConfigError::ZeroWorkers)
        } else if end_block - start_block >= u64::MAX {
            Err(ConfigError::RangeTooLarge)
        } else {
            Ok(())
        },
{
    if batch_size == 0 {
        Err(ConfigError::ZeroBatchSize)
    } else if max_workers == 0 {
        Err(ConfigError::ZeroWorkers)
    } else if start_block == 0 && end_block == u64::MAX {
        Err(ConfigError::RangeTooLarge)
    } else {
        Ok(())
    }
}

impl ExportBlocksJob {
    /// A job over the blocks from `start_block` to `end_block`, both
    /// included, that has started nothing. Its progress tracker is idle and
    /// knows the number of blocks.
    pub fn new(
        start_block: u64,
        end_block: u64,
        batch_size: u64,
        max_workers: usize,
        exporter: CsvExporter,
    ) -> (job: Self)
        requires
            valid_config(start_block, end_block, batch_size, max_workers),
        ensures
            job@.wf(),
            job@.fresh(),
            job@.start_block == start_block,
            job@.end_block == end_block,
            job@.batch_size == batch_size,
            job@.max_workers == max_workers,
            job@.exporter == exporter,
            job@.progress.state == TrackerState::Idle,
    {
        let total: u64 = if start_block <= end_block {
            end_block - start_block + 1
        } else {
            0
        };
        let job = ExportBlocksJob {
            start_block,
            end_block,
            batch_size,
            max_workers,
            exporter,
            progress: ProgressTracker::new("export_blocks_and_transactions", Some(total)),
            done: 0,
            launched: 0,
            in_flight: Vec::new(),
            batch_blocks: 0,
            batch_skipped: 0,
            batch_transactions: 0,
            batch_error: None,
            blocks_count: 0,
            blocks_skipped: 0,
            transactions_count: 0,
            failure: None,
            log: Ghost(Seq::empty()),
        };
        proof {
            assert(0nat % (batch_size as nat) == 0);
        }
        job
    }

    /// A job as `new` makes it, or what is wrong with its numbers.
    pub fn try_new(
        start_block: u64,
        end_block: u64,
        batch_size: u64,
        max_workers: usize,
        exporter: CsvExporter,
    ) -> (r: Result<Self, ConfigError>)
        ensures
            match r {
                Ok(job) => {
                    &&& valid_config(start_block, end_block, batch_size, max_workers)
                    &&& job@.wf()
                    &&& job@.fresh()
                    &&& job@.start_block == start_block
                    &&& job@.end_block == end_block
                    &&& job@.batch_size == batch_size
                    &&& job@.max_workers == max_workers
                    &&& job@.exporter == exporter
                    &&& job@.progress.state == TrackerState::Idle
                },
                Err(e) => !valid_config(start_block, end_block, batch_size, max_workers) && e == (
                if batch_size == 0 {
                    ConfigError::ZeroBatchSize
                } else if max_workers == 0 {
                    ConfigError::ZeroWorkers
                } else {
                    ConfigError::RangeTooLarge
                }),
            },
    {
        match check_config(start_block, end_block, batch_size, max_workers) {
            Ok(()) => Ok(Self::new(start_block, end_block, batch_size, max_workers, exporter)),
            Err(e) => Err(e),
        }
    }

    /// The number of blocks in the range.
    pub fn total_blocks(&self) -> (n: u64)
        requires
            self@.wf(),
        ensures
            n == self@.total(),
    {
        if self.start_block <= self.end_block {
            self.end_block - self.start_block + 1
        } else {
            0
        }
    }

    /// The sink that the job was made with.
    pub fn exporter(&self) -> (e: CsvExporter)
        ensures
            e == self@.exporter,
    {
        self.exporter
    }

    /// The progress tracker of the job.
    pub fn progress(&self) -> (p: &ProgressTracker)
        ensures
            p@ == self@.progress,
    {
        &self.progress
    }

    /// The number of fetches in flight.
    pub fn in_flight_count(&self) -> (n: usize)
        ensures
            n == self@.in_flight.len(),
    {
        self.in_flight.len()
    }

    /// The counts of the batches joined so far.
    pub fn stats(&self) -> (s: Stats)
        ensures
            s.blocks_processed == self@.blocks_count,
            s.blocks_skipped == self@.blocks_skipped,
            s.transactions_processed == self@.transactions_count,
    {
        Stats {
            blocks_processed: self.blocks_count,
            blocks_skipped: self.blocks_skipped,
            transactions_processed: self.transactions_count,
        }
    }

    /// The error that the run failed with, if it has failed.
    pub fn failure(&self) -> (e: Option<&ExportError>)
        ensures
            match e {
                Some(error) => self@.failure == Some(*error),
                None => self@.failure is None,
            },
    {
        self.failure.as_ref()
    }

    /// Starts the progress tracker, which records the instant as its start
    /// time, and hands out its signal.
    pub fn begin(&mut self) -> (signal: Option<ProgressSignal>)
        requires
            old(self)@.wf(),
        ensures
            match final(self)@.progress.start_time {
                Some(now) => final(self)@ == (JobView {
                    progress: old(self)@.progress.started(now),
                    ..old(self)@
                }),
                None => false,
            },
            final(self)@.wf(),
            signal == if old(self)@.progress.state == TrackerState::Idle {
                Some(ProgressSignal::Started { total_items: Some(old(self)@.total() as u64) })
            } else {
                None
            },
    {
        self.progress.start()
    }

    /// Finishes the progress tracker and hands out its signal, which
    /// carries the time that the run took.
    pub fn finish(&mut self) -> (signal: Option<ProgressSignal>)
        requires
            old(self)@.wf(),
        ensures
            final(self)@ == (JobView { progress: old(self)@.progress.finished(), ..old(self)@ }),
            final(self)@.wf(),
            match signal {
                Some(ProgressSignal::Finished { processed_items, elapsed }) => {
                    &&& old(self)@.progress.state == TrackerState::Running
                    &&& processed_items == old(self)@.progress.processed_items
                    &&& elapsed is Some
                },
                Some(_) => false,
                None => old(self)@.progress.state != TrackerState::Running,
            },
    {
        self.progress.finish()
    }

    /// Says what to do next. Where that is a fetch, the block counts as in
    /// flight from now on.
    pub fn next_action(&mut self) -> (action: JobAction)
        requires
            old(self)@.wf(),
        ensures
            action == old(self)@.action(),
            final(self)@ == old(self)@.after_action(),
            final(self)@.wf(),
    {
        if self.failure.is_some() {
            return JobAction::Failed;
        }
        let total = self.total_blocks();
        if self.launched < total && self.launched - self.done < self.batch_size
            && self.in_flight.len() < self.max_workers {
            proof {
                lemma_launch_wf(self@);
            }
            let number = self.start_block + self.launched;
            self.launched = self.launched + 1;
            self.in_flight.push(number);
            JobAction::Fetch(number)
        } else if self.in_flight.len() > 0 {
            JobAction::Wait
        } else {
            JobAction::Finished
        }
    }

    /// Takes the report of the task of block `number`: the number of its
    /// transactions, or why it failed. A block that is not in flight is
    /// ignored. When the report is the last of its batch, the batch is
    /// joined, and the signal of the progress tracker, if it sends one, is
    /// handed out.
    pub fn task_completed(&mut self, number: u64, result: Result<u64, ExportError>) -> (signal:
        Option<ProgressSignal>)
        requires
            old(self)@.wf(),
        ensures
            final(self)@ == old(self)@.after_completion(number, result),
            final(self)@.wf(),
            signal == old(self)@.completion_signal(number, result),
    {
        proof {
            lemma_completion_wf(self@, number, result);
        }
        let place = match position(&self.in_flight, number) {
            Some(i) => i,
            None => { return None; },
        };
        proof {
            lemma_record_wf(self@, number, result);
        }
        let total = self.total_blocks();
        self.in_flight.remove(place);
        self.log = Ghost(self.log@.push(number));
        match result {
            Ok(transactions) => {
                self.batch_blocks = self.batch_blocks + 1;
                self.batch_transactions = self.batch_transactions + transactions as u128;
            },
            Err(error) => {
                if error.is_fatal() {
                    let lower = match &self.batch_error {
                        Some(kept) => number < kept.0,
                        None => true,
                    };
                    if lower {
                        self.batch_error = Some((number, error));
                    }
                } else {
                    self.batch_skipped = self.batch_skipped + 1;
                }
            },
        }
        assert(self@ == old(self)@.recorded(number, result));
        if self.in_flight.len() == 0 && (self.launched == total || self.launched - self.done
            == self.batch_size) {
            proof {
                lemma_join_wf(self@);
            }
            self.blocks_count = self.blocks_count + self.batch_blocks;
            self.blocks_skipped = self.blocks_skipped + self.batch_skipped;
            self.transactions_count = self.transactions_count + self.batch_transactions;
            self.batch_blocks = 0;
            self.batch_skipped = 0;
            self.batch_transactions = 0;
            match self.batch_error.take() {
                Some(kept) => {
                    self.failure = Some(kept.1);
                    None
                },
                None => {
                    let size = self.launched - self.done;
                    self.done = self.launched;
                    self.progress.track(size)
                },
            }
        } else {
            None
        }
    }
}

} // verus!
