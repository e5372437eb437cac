//! Progress tracking for a long-running job, and the errors of an export.

use crate::exporters::SinkWriteError;
use crate::mappers::MappingError;
use std::time::{Duration, Instant};
use vstd::arithmetic::div_mod::{lemma_div_is_ordered, lemma_fundamental_div_mod};
use vstd::prelude::*;

verus! {

/// `std::time::Instant`, a point in time that only the clock can produce.
#[verifier::external_type_specification]
#[verifier::external_body]
pub struct ExInstant(Instant);

/// Percentage signals are sent at multiples of this many points.
pub const LOG_PERCENTAGE_STEP: u64 = 10;

/// Without a known total, a signal is sent once this many items have been
/// processed since the last one.
pub const LOG_ITEMS_STEP: u64 = 5000;

/// Where a tracker stands in its life.
#[derive(Debug, Clone, Copy, PartialEq, Eq, Structural)]
pub enum TrackerState {
    Idle,
    Running,
    Finished,
}

/// What a tracker tells its observer.
#[derive(Debug, Clone, Copy)]
pub enum ProgressSignal {
    /// The job started; `total_items` is the number of items to process, if
    /// it is known.
    Started { total_items: Option<u64> },
    /// `percentage`, a multiple of ten, was crossed for the first time.
    Percentage { processed_items: u64, percentage: u64 },
    /// Another `LOG_ITEMS_STEP` items or more were processed.
    Items { processed_items: u64 },
    /// The job finished after `elapsed`.
    Finished { processed_items: u64, elapsed: Option<Duration> },
}

/// A failure of an export, by the block it concerns.
#[derive(Debug, Clone)]
pub enum ExportError {
    /// The provider has no block of this number.
    NotFound { block_number: u64 },
    /// The call to the provider failed.
    Transport { block_number: u64, message: String },
    /// The provider delivered a block without a required field.
    Mapping { block_number: u64, missing: MappingError },
    /// The rows of the block could not be appended to their stream.
    SinkWrite { block_number: u64, cause: SinkWriteError },
}

impl ExportError {
    /// The block that the failure concerns.
    pub open spec fn spec_block_number(&self) -> u64 {
        match *self {
            ExportError::NotFound { block_number } => block_number,
            ExportError::Transport { block_number, .. } => block_number,
            ExportError::Mapping { block_number, .. } => block_number,
            ExportError::SinkWrite { block_number, .. } => block_number,
        }
    }

    /// Whether the failure ends the whole run: a block that was not found
    /// and a failed call do, a block that could not be mapped or written
    /// does not.
    pub open spec fn spec_is_fatal(&self) -> bool {
        *self is NotFound || *self is Transport
    }

    /// The block that the failure concerns.
    #[verifier::when_used_as_spec(spec_block_number)]
    pub fn block_number(&self) -> (n: u64)
        ensures
            n == self.spec_block_number(),
    {
        match self {
            ExportError::NotFound { block_number } => *block_number,
            ExportError::Transport { block_number, .. } => *block_number,
            ExportError::Mapping { block_number, .. } => *block_number,
            ExportError::SinkWrite { block_number, .. } => *block_number,
        }
    }

    /// Whether the failure ends the whole run.
    #[verifier::when_used_as_spec(spec_is_fatal)]
    pub fn is_fatal(&self) -> (b: bool)
        ensures
            b == self.spec_is_fatal(),
    {
        match self {
            ExportError::NotFound { .. } => true,
            ExportError::Transport { .. } => true,
            ExportError::Mapping { .. } => false,
            ExportError::SinkWrite { .. } => false,
        }
    }
}

/// The share of `total` that `processed` is, in whole percent, rounded down
/// and capped at the largest 64-bit number. With a total of zero it is zero.
pub open spec fn percent_of(processed: nat, total: nat) -> nat {
    if total == 0 {
        0
    } else if processed * 100 / total > u64::MAX {
        u64::MAX as nat
    } else {
        processed * 100 / total
    }
}

/// The largest multiple of ten that `percent_of(processed, total)` has
/// reached.
pub open spec fn threshold_of(processed: nat, total: nat) -> nat {
    percent_of(processed, total) / 10 * 10
}

/// What a tracker is, apart from its name.
pub struct ProgressView {
    pub total_items: Option<u64>,
    pub state: TrackerState,
    /// The instant at which the tracker was started, once it has been.
    pub start_time: Option<Instant>,
    pub processed_items: nat,
    pub last_logged_percentage: nat,
    pub last_logged_items: nat,
}

impl ProgressView {
    /// The last percentage sent is a multiple of ten; an idle tracker has
    /// sent nothing and has no start time, any other has one; a running
    /// tracker with a known total has sent every threshold that it has
    /// reached, or had reached it before it started; a running one without
    /// a total has counted fewer than `LOG_ITEMS_STEP` items since its last
    /// signal.
    pub open spec fn wf(&self) -> bool {
        &&& self.last_logged_percentage % 10 == 0
        &&& self.last_logged_items <= self.processed_items
        &&& self.state == TrackerState::Idle ==> self.last_logged_percentage == 0
            && self.last_logged_items == 0
        &&& self.state == TrackerState::Idle <==> self.start_time is None
        &&& self.state == TrackerState::Running ==> match self.total_items {
            Some(total) => self.last_logged_percentage == threshold_of(
                self.processed_items,
                total as nat,
            ),
            None => self.processed_items - self.last_logged_items < LOG_ITEMS_STEP,
        }
    }

    /// The tracker after a `start` at the instant `now`: an idle one runs
    /// from here on with `now` as its start time, and what it had counted so
    /// far will never be signalled.
    pub open spec fn started(&self, now: Instant) -> ProgressView {
        if self.state == TrackerState::Idle {
            ProgressView {
                state: TrackerState::Running,
                start_time: Some(now),
                last_logged_percentage: match self.total_items {
                    Some(total) => threshold_of(self.processed_items, total as nat),
                    None => 0,
                },
                last_logged_items: self.processed_items,
                ..*self
            }
        } else {
            *self
        }
    }

    /// The signal that `track(n)` sends, if it sends one. Only a running
    /// tracker sends any.
    pub open spec fn track_signal(&self, n: nat) -> Option<ProgressSignal> {
        let processed = self.processed_items + n;
        if self.state != TrackerState::Running {
            None
        } else {
            match self.total_items {
                Some(total) => if threshold_of(processed, total as nat)
                    > self.last_logged_percentage {
                    Some(
                        ProgressSignal::Percentage {
                            processed_items: processed as u64,
                            percentage: threshold_of(processed, total as nat) as u64,
                        },
                    )
                } else {
                    None
                },
                None => if processed - self.last_logged_items >= LOG_ITEMS_STEP {
                    Some(ProgressSignal::Items { processed_items: processed as u64 })
                } else {
                    None
                },
            }
        }
    }

    /// The tracker after `track(n)`.
    pub open spec fn after_track(&self, n: nat) -> ProgressView {
        let processed = self.processed_items + n;
        match self.track_signal(n) {
            Some(ProgressSignal::Percentage { percentage, .. }) => ProgressView {
                processed_items: processed,
                last_logged_percentage: percentage as nat,
                ..*self
            },
            Some(ProgressSignal::Items { .. }) => ProgressView {
                processed_items: processed,
                last_logged_items: processed,
                ..*self
            },
            _ => ProgressView { processed_items: processed, ..*self },
        }
    }

    /// The tracker after `finish`.
    pub open spec fn finished(&self) -> ProgressView {
        if self.state == TrackerState::Running {
            ProgressView { state: TrackerState::Finished, ..*self }
        } else {
            *self
        }
    }
}

/// The percentages that a tracker signals over a run of `track` calls with
/// the given counts, in the order in which it sends them.
pub open spec fn percentage_signals(v: ProgressView, counts: Seq<u64>) -> Seq<u64>
    decreases counts.len(),
{
    if counts.len() == 0 {
        Seq::empty()
    } else {
        let rest = percentage_signals(v.after_track(counts[0] as nat), counts.skip(1));
        match v.track_signal(counts[0] as nat) {
            Some(ProgressSignal::Percentage { percentage, .. }) => seq![percentage] + rest,
            _ => rest,
        }
    }
}

/// More processed items never lower the percentage or its threshold.
pub proof fn lemma_threshold_monotonic(a: nat, b: nat, total: nat)
    requires
        a <= b,
    ensures
        percent_of(a, total) <= percent_of(b, total),
        threshold_of(a, total) <= threshold_of(b, total),
        threshold_of(a, total) % 10 == 0,
        threshold_of(a, total) <= percent_of(a, total) <= u64::MAX,
{
    if total > 0 {
        lemma_div_is_ordered((a * 100) as int, (b * 100) as int, total as int);
    }
    lemma_div_is_ordered(percent_of(a, total) as int, percent_of(b, total) as int, 10);
    lemma_fundamental_div_mod(percent_of(a, total) as int, 10);
    assert(threshold_of(a, total) % 10 == 0) by (nonlinear_arith)
        requires
            threshold_of(a, total) == percent_of(a, total) / 10 * 10,
    ;
}

/// One `track` keeps a tracker well formed, and leaves its start time as it
/// is. Counting no items signals nothing. A percentage that is signalled is
/// a multiple of ten above the last one sent, and one that the items
/// counted before the call had not reached.
pub proof fn lemma_track_step(v: ProgressView, n: nat)
    requires
        v.wf(),
    ensures
        v.after_track(n).wf(),
        v.after_track(n).start_time == v.start_time,
        n == 0 ==> v.track_signal(n) is None,
        v.after_track(n).last_logged_percentage >= v.last_logged_percentage,
        match v.track_signal(n) {
            Some(ProgressSignal::Percentage { percentage, .. }) => {
                &&& percentage % 10 == 0
                &&& percentage > v.last_logged_percentage
                &&& v.after_track(n).last_logged_percentage == percentage
                &&& v.total_items matches Some(total) && percent_of(v.processed_items, total as nat)
                    < percentage <= percent_of(v.processed_items + n, total as nat)
            },
            _ => v.after_track(n).last_logged_percentage == v.last_logged_percentage,
        },
{
    if let Some(total) = v.total_items {
        lemma_threshold_monotonic(v.processed_items, v.processed_items + n, total as nat);
        lemma_threshold_monotonic(v.processed_items + n, v.processed_items + n, total as nat);
        if v.state == TrackerState::Running {
            let p = percent_of(v.processed_items, total as nat);
            lemma_fundamental_div_mod(p as int, 10);
            assert(p < threshold_of(v.processed_items, total as nat) + 10) by (nonlinear_arith)
                requires
                    threshold_of(v.processed_items, total as nat) == p / 10 * 10,
                    p as int == 10 * (p as int / 10) + p as int % 10,
                    0 <= p as int % 10 < 10,
            ;
        }
    }
}

/// Over any run of `track` calls, the percentages signalled are multiples of
/// ten, each above the one before it, and all above the last one sent before
/// the run.
pub proof fn lemma_percentage_signals_increase(v: ProgressView, counts: Seq<u64>)
    requires
        v.wf(),
    ensures
        forall|i: int|
            0 <= i < percentage_signals(v, counts).len() ==> {
                &&& (#[trigger] percentage_signals(v, counts)[i]) % 10 == 0
                &&& percentage_signals(v, counts)[i] > v.last_logged_percentage
            },
        forall|i: int, j: int|
            0 <= i < j < percentage_signals(v, counts).len() ==> percentage_signals(v, counts)[i]
                < percentage_signals(v, counts)[j],
    decreases counts.len(),
{
    if counts.len() > 0 {
        let n = counts[0] as nat;
        let next = v.after_track(n);
        let rest = percentage_signals(next, counts.skip(1));
        lemma_track_step(v, n);
        lemma_percentage_signals_increase(next, counts.skip(1));
        let all = percentage_signals(v, counts);
        match v.track_signal(n) {
            Some(ProgressSignal::Percentage { percentage, .. }) => {
                assert(all =~= seq![percentage] + rest);
                assert forall|i: int| 0 <= i < all.len() implies (#[trigger] all[i]) % 10 == 0
                    && all[i] > v.last_logged_percentage by {
                    if i > 0 {
                        assert(all[i] == rest[i - 1]);
                    }
                }
                assert forall|i: int, j: int| 0 <= i < j < all.len() implies all[i] < all[j] by {
                    assert(all[j] == rest[j - 1]);
                    if i > 0 {
                        assert(all[i] == rest[i - 1]);
                    }
                }
            },
            _ => {
                assert(all =~= rest);
            },
        }
    }
}

/// Reads the clock, by `std::time::Instant::now`. Nothing is claimed of the
/// instant it returns.
#[verifier::external_body]
fn clock_now() -> Instant {
    Instant::now()
}

/// The time that has passed since `since`, by `std::time::Instant::elapsed`.
/// Nothing is claimed of the duration it returns.
#[verifier::external_body]
fn clock_elapsed(since: &Instant) -> Duration {
    since.elapsed()
}

/// Counts processed items and decides when the observer hears of them.
pub struct ProgressTracker {
    name: String,
    total_items: Option<u64>,
    state: TrackerState,
    start_time: Option<Instant>,
    processed_items: u64,
    last_logged_percentage: u64,
    last_logged_items: u64,
}

impl View for ProgressTracker {
    type V = ProgressView;

    closed spec fn view(&self) -> ProgressView {
        ProgressView {
            total_items: self.total_items,
            state: self.state,
            start_time: self.start_time,
            processed_items: self.processed_items as nat,
            last_logged_percentage: self.last_logged_percentage as nat,
            last_logged_items: self.last_logged_items as nat,
        }
    }
}

impl ProgressTracker {
    /// The name that the tracker was made with.
    pub closed spec fn spec_name(&self) -> Seq<char> {
        self.name@
    }

    /// An idle tracker that has counted nothing.
    pub fn new(name: &str, total_items: Option<u64>) -> (t: Self)
        ensures
            t@ == (ProgressView {
                total_items,
                state: TrackerState::Idle,
                start_time: None,
                processed_items: 0,
                last_logged_percentage: 0,
                last_logged_items: 0,
            }),
            t@.wf(),
            t.spec_name() == name@,
    {
        ProgressTracker {
            name: String::from_str(name),
            total_items,
            state: TrackerState::Idle,
            start_time: None,
            processed_items: 0,
            last_logged_percentage: 0,
            last_logged_items: 0,
        }
    }

    /// The name that the tracker was made with.
    pub fn name(&self) -> (s: &str)
        ensures
            s@ == self.spec_name(),
    {
        self.name.as_str()
    }

    /// The number of items to process, if it is known.
    pub fn total_items(&self) -> (t: Option<u64>)
        ensures
            t == self@.total_items,
    {
        self.total_items
    }

    /// Where the tracker stands in its life.
    pub fn state(&self) -> (s: TrackerState)
        ensures
            s == self@.state,
    {
        self.state
    }

    /// The number of items counted so far.
    pub fn processed_items(&self) -> (n: u64)
        ensures
            n == self@.processed_items,
    {
        self.processed_items
    }

    /// The largest multiple of ten that the share processed so far has
    /// reached; zero without a known total.
    pub fn current_threshold(&self) -> (t: u64)
        ensures
            t == match self@.total_items {
                Some(total) => threshold_of(self@.processed_items, total as nat),
                None => 0,
            },
    {
        match self.total_items {
            Some(total) => threshold(self.processed_items, total),
            None => 0,
        }
    }

    /// Starts an idle tracker at the instant `now`, which it records as its
    /// start time, and signals the start. A tracker that is not idle stays
    /// as it is and signals nothing.
    pub fn start_at(&mut self, now: Instant) -> (signal: Option<ProgressSignal>)
        requires
            old(self)@.wf(),
        ensures
            final(self)@ == old(self)@.started(now),
            final(self)@.wf(),
            final(self).spec_name() == old(self).spec_name(),
            signal == if old(self)@.state == TrackerState::Idle {
                Some(ProgressSignal::Started { total_items: old(self)@.total_items })
            } else {
                None
            },
    {
        if self.state == TrackerState::Idle {
            let baseline = self.current_threshold();
            self.state = TrackerState::Running;
            self.start_time = Some(now);
            self.last_logged_percentage = baseline;
            self.last_logged_items = self.processed_items;
            proof {
                if let Some(total) = self.total_items {
                    lemma_threshold_monotonic(
                        self.processed_items as nat,
                        self.processed_items as nat,
                        total as nat,
                    );
                }
            }
            Some(ProgressSignal::Started { total_items: self.total_items })
        } else {
            None
        }
    }

    /// Starts an idle tracker now, records the instant as its start time,
    /// and signals the start. A tracker that is not idle stays as it is and
    /// signals nothing.
    pub fn start(&mut self) -> (signal: Option<ProgressSignal>)
        requires
            old(self)@.wf(),
        ensures
            match final(self)@.start_time {
                Some(now) => final(self)@ == old(self)@.started(now),
                None => false,
            },
            final(self)@.wf(),
            final(self).spec_name() == old(self).spec_name(),
            signal == if old(self)@.state == TrackerState::Idle {
                Some(ProgressSignal::Started { total_items: old(self)@.total_items })
            } else {
                None
            },
    {
        let now = clock_now();
        self.start_at(now)
    }

    /// Counts `item_count` more items. A running tracker with a known total
    /// signals the largest multiple of ten that the share processed has
    /// reached, once, when it is first reached; one without a total signals
    /// when `LOG_ITEMS_STEP` items or more have come since its last signal.
    pub fn track(&mut self, item_count: u64) -> (signal: Option<ProgressSignal>)
        requires
            old(self)@.wf(),
            old(self)@.processed_items + item_count <= u64::MAX,
        ensures
            final(self)@ == old(self)@.after_track(item_count as nat),
            final(self)@.wf(),
            final(self)@.start_time == old(self)@.start_time,
            final(self).spec_name() == old(self).spec_name(),
            signal == old(self)@.track_signal(item_count as nat),
            item_count == 0 ==> signal is None,
    {
        proof {
            lemma_track_step(self@, item_count as nat);
        }
        self.processed_items = self.processed_items + item_count;
        if self.state != TrackerState::Running {
            return None;
        }
        match self.total_items {
            Some(total) => {
                let reached = threshold(self.processed_items, total);
                if reached > self.last_logged_percentage {
                    self.last_logged_percentage = reached;
                    Some(
                        ProgressSignal::Percentage {
                            processed_items: self.processed_items,
                            percentage: reached,
                        },
                    )
                } else {
                    None
                }
            },
            None => {
                if self.processed_items - self.last_logged_items >= LOG_ITEMS_STEP {
                    self.last_logged_items = self.processed_items;
                    Some(ProgressSignal::Items { processed_items: self.processed_items })
                } else {
                    None
                }
            },
        }
    }

    /// Finishes a running tracker after `elapsed` and signals the end with
    /// the number of items counted. A tracker that is not running stays as
    /// it is and signals nothing.
    pub fn finish_after(&mut self, elapsed: Option<Duration>) -> (signal: Option<ProgressSignal>)
        requires
            old(self)@.wf(),
        ensures
            final(self)@ == old(self)@.finished(),
            final(self)@.wf(),
            final(self).spec_name() == old(self).spec_name(),
            signal == if old(self)@.state == TrackerState::Running {
                Some(
                    ProgressSignal::Finished {
                        processed_items: old(self)@.processed_items as u64,
                        elapsed,
                    },
                )
            } else {
                None
            },
    {
        if self.state == TrackerState::Running {
            self.state = TrackerState::Finished;
            Some(ProgressSignal::Finished { processed_items: self.processed_items, elapsed })
        } else {
            None
        }
    }

    /// Finishes a running tracker and signals the end with the number of
    /// items counted and the time that has passed since its start time. A tracker that is not
    /// running stays as it is and signals nothing.
    pub fn finish(&mut self) -> (signal: Option<ProgressSignal>)
        requires
            old(self)@.wf(),
        ensures
            final(self)@ == old(self)@.finished(),
            final(self)@.wf(),
            final(self).spec_name() == old(self).spec_name(),
            match signal {
                Some(ProgressSignal::Finished { processed_items, elapsed }) => {
                    &&& old(self)@.state == TrackerState::Running
                    &&& processed_items == old(self)@.processed_items
                    &&& elapsed is Some
                },
                Some(_) => false,
                None => old(self)@.state != TrackerState::Running,
            },
    {
        let elapsed = match &self.start_time {
            Some(since) => Some(clock_elapsed(since)),
            None => None,
        };
        self.finish_after(elapsed)
    }

    /// The total as text: its decimal digits, or `Unknown`.
    pub fn total_items_display(&self) -> (s: String)
        ensures
            s@ == match self@.total_items {
                Some(total) => crate::text::decimal_text(total as nat),
                None => "Unknown"@,
            },
    {
        match self.total_items {
            Some(total) => crate::text::u64_to_string(total),
            None => String::from_str("Unknown"),
        }
    }
}

/// Computes `threshold_of`.
fn threshold(processed: u64, total: u64) -> (t: u64)
    ensures
        t == threshold_of(processed as nat, total as nat),
{
    if total == 0 {
        return 0;
    }
    let scaled: u128 = processed as u128 * 100;
    let share: u128 = scaled / (total as u128);
    let percent: u64 = if share > u64::MAX as u128 {
        u64::MAX
    } else {
        share as u64
    };
    percent / 10 * 10
}

} // verus!
