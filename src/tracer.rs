use vstd::prelude::*;
use std::time::{Duration, Instant};

verus! {

#[verifier::external_type_specification]
#[verifier::external_body]
pub struct ExInstant(std::time::Instant);

/// Relies on std's `Instant::now`: a reading of the monotonic clock. Nothing
/// is known of its value.
#[verifier::external_body]
fn instant_now() -> Instant {
    Instant::now()
}

/// Relies on std's `Instant::duration_since`: the time from `earlier` to
/// `later`, zero when `earlier` is in fact the later one. Nothing is known of
/// its value.
#[verifier::external_body]
fn time_between(later: &Instant, earlier: &Instant) -> Duration {
    later.duration_since(*earlier)
}

/// The whole seconds of a duration, as `Duration::as_secs` reads them.
pub uninterp spec fn secs_of(d: Duration) -> u64;

/// The sub-second nanoseconds of a duration, as `Duration::subsec_nanos`
/// reads them.
pub uninterp spec fn nanos_of(d: Duration) -> u32;

/// Relies on std's `Duration::as_secs`: the whole seconds of the duration, a
/// function of the duration alone.
pub assume_specification[ core::time::Duration::as_secs ](d: &core::time::Duration) -> (r: u64)
    ensures
        r == secs_of(*d),
;

/// Relies on std's `Duration::subsec_nanos`: the fraction of a second in
/// nanoseconds, a function of the duration alone, which the documentation
/// gives as less than one billion.
pub assume_specification[ core::time::Duration::subsec_nanos ](d: &core::time::Duration) -> (r: u32)
    ensures
        r == nanos_of(*d),
        r < 1_000_000_000,
;

pub const MILLIS_PER_SEC: i64 = 1000;

pub const NANOS_PER_MILLI: i64 = 1_000_000;

/// Whole milliseconds of `secs` seconds and `nanos` nanoseconds, capped at
/// `i64::MAX`.
pub open spec fn millis_of(secs: nat, nanos: nat) -> int {
    let ms = secs * 1000 + nanos / 1_000_000;
    if ms > i64::MAX {
        i64::MAX as int
    } else {
        ms as int
    }
}

/// Whole milliseconds of a duration given as seconds and sub-second nanoseconds.
pub fn millis_from_parts(secs: u64, nanos: u32) -> (r: i64)
    ensures
        r == millis_of(secs as nat, nanos as nat),
{
    let whole = nanos as i64 / NANOS_PER_MILLI;
    if secs > ((i64::MAX - whole) / MILLIS_PER_SEC) as u64 {
        proof {
            assert(secs * 1000 + whole > i64::MAX) by (nonlinear_arith)
                requires
                    secs > (i64::MAX - whole) / 1000,
                    0 <= whole <= 4294,
            ;
        }
        i64::MAX
    } else {
        proof {
            assert(secs * 1000 + whole <= i64::MAX) by (nonlinear_arith)
                requires
                    secs <= (i64::MAX - whole) / 1000,
                    0 <= whole <= 4294,
            ;
        }
        secs as i64 * MILLIS_PER_SEC + whole
    }
}

/// Whole milliseconds of a duration, capped at `i64::MAX`.
pub fn duration_millis(d: &Duration) -> (r: i64)
    ensures
        r == millis_of(secs_of(*d) as nat, nanos_of(*d) as nat),
{
    let secs = d.as_secs();
    let nanos = d.subsec_nanos();
    millis_from_parts(secs, nanos)
}

/// The time one stage of a traced task took.
pub struct StageTime {
    pub label: String,
    pub stage: String,
    pub elapsed: Duration,
}

/// What a finished trace reports: the whole task's time and, when stages were
/// used, the last stage's.
pub struct TraceReport {
    pub label: String,
    pub total: Duration,
    pub last_stage: Option<StageTime>,
}

pub struct TracerView {
    pub label: Seq<char>,
    pub stage: Seq<char>,
    pub staged: bool,
    /// When the task started.
    pub start: Instant,
    /// When the current stage started.
    pub prev: Instant,
}

/// Measures the wall-clock time of a task and of its named stages. Each call
/// returns the timings it closes, for the caller to report.
pub struct TimeTracer {
    label: String,
    stage: String,
    staged: bool,
    start: Instant,
    prev: Instant,
}

impl View for TimeTracer {
    type V = TracerView;

    closed spec fn view(&self) -> TracerView {
        TracerView {
            label: self.label@,
            stage: self.stage@,
            staged: self.staged,
            start: self.start,
            prev: self.prev,
        }
    }
}

impl TimeTracer {
    /// Starts timing the task `label`, in its initial stage "init", which
    /// starts with the task.
    pub fn new(label: &str) -> (t: TimeTracer)
        ensures
            t@.label == label@,
            t@.stage == "init"@,
            !t@.staged,
            t@.prev == t@.start,
    {
        let start_time = instant_now();
        TimeTracer {
            label: label.to_owned(),
            stage: "init".to_owned(),
            staged: false,
            start: start_time,
            prev: start_time,
        }
    }

    /// Closes the current stage, returning its time, and opens stage `label`,
    /// which starts at a clock reading taken on entry. The task's start is
    /// kept.
    pub fn stage(&mut self, label: &str) -> (closed: StageTime)
        ensures
            closed.label@ == old(self)@.label,
            closed.stage@ == old(self)@.stage,
            final(self)@.label == old(self)@.label,
            final(self)@.stage == label@,
            final(self)@.staged,
            final(self)@.start == old(self)@.start,
    {
        let now = instant_now();
        let closed = self.finish_stage();
        self.stage = label.to_owned();
        self.prev = now;
        self.staged = true;
        closed
    }

    /// Ends the trace: the whole task's time, and the last stage's time when
    /// stages were used.
    pub fn finish(self) -> (r: TraceReport)
        ensures
            r.label@ == self@.label,
            r.last_stage is Some <==> self@.staged,
            r.last_stage matches Some(s) ==> s.label@ == self@.label && s.stage@ == self@.stage,
    {
        let now = instant_now();
        let since_start = time_between(&now, &self.start);
        let last_stage = if self.staged {
            Some(self.finish_stage())
        } else {
            None
        };
        TraceReport { label: self.label, total: since_start, last_stage }
    }

    /// The time the current stage has taken so far.
    fn finish_stage(&self) -> (r: StageTime)
        ensures
            r.label@ == self@.label,
            r.stage@ == self@.stage,
    {
        let now = instant_now();
        let since_prev = time_between(&now, &self.prev);
        StageTime { label: self.label.clone(), stage: self.stage.clone(), elapsed: since_prev }
    }
}

} // verus!
