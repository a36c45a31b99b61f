//! Pause/resume stopwatch with drift-correct elapsed-time accounting.
//!
//! Elapsed time is computed from wall-clock deltas at read time rather than
//! accumulated by a ticking loop: the state keeps the total of all closed
//! running segments (`paused_time`) plus the start timestamp of the open
//! segment, if one is running. Every operation takes the current time in
//! milliseconds as an argument, so each one is a pure state transition.

use vstd::prelude::*;

verus! {

/// State of the pause/resume stopwatch. Also used as the snapshot that
/// `get_status` returns.
#[derive(Clone, Copy, Debug, PartialEq, Eq, Structural)]
pub struct TimerState {
    /// Configured countdown length in milliseconds, if one was given.
    pub duration: Option<u64>,
    /// Timestamp (ms) at which the current running segment opened;
    /// `None` unless the stopwatch is running and not paused.
    pub start_time: Option<u64>,
    pub is_running: bool,
    pub is_paused: bool,
    /// Total milliseconds elapsed over all closed running segments.
    pub paused_time: u64,
    /// Cached elapsed value for reporting; refreshed by `get_status`.
    pub elapsed_ms: u64,
}

/// Milliseconds of the open segment from `start` to `now`; zero if the
/// clock reads earlier than the segment start.
pub open spec fn seg_ms(start: u64, now: u64) -> u64 {
    if now >= start {
        (now - start) as u64
    } else {
        0
    }
}

/// `u64` addition that stops at the largest representable value.
pub open spec fn sat_add(a: u64, b: u64) -> u64 {
    if a + b <= u64::MAX {
        (a + b) as u64
    } else {
        u64::MAX
    }
}

/// Elapsed running time at clock reading `now`: the closed segments plus
/// the open one, if any.
pub open spec fn spec_elapsed(st: TimerState, now: u64) -> u64 {
    if st.is_running && !st.is_paused && st.start_time is Some {
        sat_add(st.paused_time, seg_ms(st.start_time->0, now))
    } else {
        st.paused_time
    }
}

/// The zeroed stopwatch: not running, nothing accumulated.
pub open spec fn spec_default() -> TimerState {
    TimerState {
        duration: None,
        start_time: None,
        is_running: false,
        is_paused: false,
        paused_time: 0,
        elapsed_ms: 0,
    }
}

/// State after `start_timer` at time `now`: everything reset, a fresh
/// segment open.
pub open spec fn spec_start(now: u64, duration_ms: u64) -> TimerState {
    TimerState {
        duration: Some(duration_ms),
        start_time: Some(now),
        is_running: true,
        is_paused: false,
        paused_time: 0,
        elapsed_ms: 0,
    }
}

/// State after `pause_timer` at time `now`: a no-op unless running and not
/// paused; otherwise the open segment is folded into `paused_time` and
/// cleared.
pub open spec fn spec_pause(st: TimerState, now: u64) -> TimerState {
    if st.is_running && !st.is_paused {
        let e = spec_elapsed(st, now);
        TimerState { start_time: None, is_paused: true, paused_time: e, elapsed_ms: e, ..st }
    } else {
        st
    }
}

/// State after `resume_timer` at time `now`: a no-op unless running and
/// paused; otherwise a new segment opens at `now`.
pub open spec fn spec_resume(st: TimerState, now: u64) -> TimerState {
    if st.is_running && st.is_paused {
        TimerState { start_time: Some(now), is_paused: false, ..st }
    } else {
        st
    }
}

/// State after `get_status` at time `now`: only the cached `elapsed_ms`
/// is refreshed; the timing fields are untouched.
pub open spec fn spec_status(st: TimerState, now: u64) -> TimerState {
    if st.is_running && !st.is_paused {
        if st.start_time is Some {
            TimerState { elapsed_ms: spec_elapsed(st, now), ..st }
        } else {
            st
        }
    } else if st.is_paused {
        TimerState { elapsed_ms: st.paused_time, ..st }
    } else {
        st
    }
}

/// Well-formedness per the stopwatch state invariant: exactly one of
/// {not running}, {running and not paused, segment start set},
/// {running and paused, segment start cleared} holds.
pub open spec fn wf(st: TimerState) -> bool {
    &&& (!st.is_running ==> !st.is_paused && st.start_time is None)
    &&& (st.is_running && !st.is_paused ==> st.start_time is Some)
    &&& (st.is_running && st.is_paused ==> st.start_time is None)
}

impl Default for TimerState {
    /// The zeroed stopwatch: not running, nothing accumulated.
    fn default() -> (st: Self)
        ensures
            st == spec_default(),
    {
        TimerState {
            duration: None,
            start_time: None,
            is_running: false,
            is_paused: false,
            paused_time: 0,
            elapsed_ms: 0,
        }
    }
}

/// Resets all state and opens a running segment at `now_ms` with the given
/// configured duration. Replaces any prior state unconditionally.
pub fn start_timer(state: &mut TimerState, now_ms: u64, duration_ms: u64)
    ensures
        *final(state) == spec_start(now_ms, duration_ms),
{
    *state = TimerState {
        duration: Some(duration_ms),
        start_time: Some(now_ms),
        is_running: true,
        is_paused: false,
        paused_time: 0,
        elapsed_ms: 0,
    };
}

/// Folds the open segment's elapsed time into `paused_time` and marks the
/// stopwatch paused; a no-op unless running and not paused.
pub fn pause_timer(state: &mut TimerState, now_ms: u64)
    ensures
        *final(state) == spec_pause(*old(state), now_ms),
{
    if state.is_running && !state.is_paused {
        let e: u64 = match state.start_time {
            Some(start) => {
                let seg: u64 = if now_ms >= start {
                    now_ms - start
                } else {
                    0
                };
                state.paused_time.saturating_add(seg)
            },
            None => state.paused_time,
        };
        state.start_time = None;
        state.is_paused = true;
        state.paused_time = e;
        state.elapsed_ms = e;
    }
}

/// Opens a new running segment at `now_ms`; a no-op unless running and
/// paused.
pub fn resume_timer(state: &mut TimerState, now_ms: u64)
    ensures
        *final(state) == spec_resume(*old(state), now_ms),
{
    if state.is_running && state.is_paused {
        state.start_time = Some(now_ms);
        state.is_paused = false;
    }
}

/// Resets to the zeroed default regardless of current state.
pub fn stop_timer(state: &mut TimerState)
    ensures
        *final(state) == spec_default(),
{
    *state = TimerState {
        duration: None,
        start_time: None,
        is_running: false,
        is_paused: false,
        paused_time: 0,
        elapsed_ms: 0,
    };
}

/// Returns a snapshot whose `elapsed_ms` reflects the clock reading
/// `now_ms`. Mutates only the cached `elapsed_ms` field, so calling it
/// arbitrarily often never affects the timing computation itself.
pub fn get_status(state: &mut TimerState, now_ms: u64) -> (r: TimerState)
    ensures
        *final(state) == spec_status(*old(state), now_ms),
        r == *final(state),
        wf(*old(state)) && old(state).is_running ==> r.elapsed_ms == spec_elapsed(
            *old(state),
            now_ms,
        ),
{
    if state.is_running && !state.is_paused {
        if let Some(start) = state.start_time {
            let seg: u64 = if now_ms >= start {
                now_ms - start
            } else {
                0
            };
            state.elapsed_ms = state.paused_time.saturating_add(seg);
        }
    } else if state.is_paused {
        state.elapsed_ms = state.paused_time;
    }
    *state
}

/// A control operation on the stopwatch, tagged with the clock reading at
/// which it is issued.
pub enum SwOp {
    Pause { now_ms: u64 },
    Resume { now_ms: u64 },
    Status { now_ms: u64 },
}

/// The clock reading at which an operation is issued.
pub open spec fn op_time(op: SwOp) -> u64 {
    match op {
        SwOp::Pause { now_ms } => now_ms,
        SwOp::Resume { now_ms } => now_ms,
        SwOp::Status { now_ms } => now_ms,
    }
}

/// The state transition an operation performs.
pub open spec fn sw_apply(st: TimerState, op: SwOp) -> TimerState {
    match op {
        SwOp::Pause { now_ms } => spec_pause(st, now_ms),
        SwOp::Resume { now_ms } => spec_resume(st, now_ms),
        SwOp::Status { now_ms } => spec_status(st, now_ms),
    }
}

/// The state after applying a sequence of operations in order.
pub open spec fn sw_apply_ops(st: TimerState, ops: Seq<SwOp>) -> TimerState
    decreases ops.len(),
{
    if ops.len() == 0 {
        st
    } else {
        sw_apply_ops(sw_apply(st, ops[0]), ops.drop_first())
    }
}

/// The operations' clock readings are nondecreasing from `t0` up to `t_end`.
pub open spec fn times_ordered(t0: u64, ops: Seq<SwOp>, t_end: u64) -> bool
    decreases ops.len(),
{
    if ops.len() == 0 {
        t0 <= t_end
    } else {
        t0 <= op_time(ops[0]) && times_ordered(op_time(ops[0]), ops.drop_first(), t_end)
    }
}

/// Wall-clock time from `a` to `b` that counts as running: the whole
/// interval when the state is running and not paused, else nothing.
pub open spec fn run_seg(st: TimerState, a: u64, b: u64) -> int {
    if st.is_running && !st.is_paused {
        b - a
    } else {
        0
    }
}

/// Total wall-clock time spent running and not paused while the given
/// operations are applied between `t0` and `t_end`.
pub open spec fn accrued(st: TimerState, t0: u64, ops: Seq<SwOp>, t_end: u64) -> int
    decreases ops.len(),
{
    if ops.len() == 0 {
        run_seg(st, t0, t_end)
    } else {
        run_seg(st, t0, op_time(ops[0])) + accrued(
            sw_apply(st, ops[0]),
            op_time(ops[0]),
            ops.drop_first(),
            t_end,
        )
    }
}

/// Elapsed running time as an unbounded integer, for exact accounting.
pub open spec fn ielapsed(st: TimerState, t: u64) -> int {
    st.paused_time + if st.is_running && !st.is_paused && st.start_time is Some {
        t - st.start_time->0
    } else {
        0
    }
}

/// The state is well formed and consistent with a monotonic clock that
/// currently reads `t`: all recorded timestamps lie in the past, and the
/// accumulated elapsed time cannot exceed the time the clock has covered.
pub open spec fn clock_consistent(st: TimerState, t: u64) -> bool {
    &&& wf(st)
    &&& st.paused_time <= t
    &&& (st.is_running && !st.is_paused ==> st.paused_time <= st.start_time->0
        && st.start_time->0 <= t)
}

/// Under a consistent clock the saturating `u64` elapsed value is exact.
pub proof fn lemma_elapsed_exact(st: TimerState, t: u64)
    requires
        clock_consistent(st, t),
    ensures
        spec_elapsed(st, t) == ielapsed(st, t),
        ielapsed(st, t) <= t,
{
}

/// Pausing when already paused, or when not running, changes nothing.
pub proof fn lemma_pause_noop(st: TimerState, now: u64)
    requires
        !(st.is_running && !st.is_paused),
    ensures
        spec_pause(st, now) == st,
{
}

/// Resuming when not paused, or when not running, changes nothing.
pub proof fn lemma_resume_noop(st: TimerState, now: u64)
    requires
        !(st.is_running && st.is_paused),
    ensures
        spec_resume(st, now) == st,
{
}

/// A status query never changes the elapsed-time computation, at this or
/// any other clock reading: repeated polling cannot double-count time.
pub proof fn lemma_status_preserves_elapsed(st: TimerState, now: u64, t: u64)
    ensures
        ielapsed(spec_status(st, now), t) == ielapsed(st, t),
        spec_elapsed(spec_status(st, now), t) == spec_elapsed(st, t),
{
}

/// Any single operation issued at time `t1` keeps the clock consistent and
/// leaves the elapsed reading at `t1` unchanged: pausing freezes exactly
/// the time accrued so far, resuming restarts accrual from `t1` with
/// nothing added, and a status query touches only the reporting cache.
pub proof fn lemma_op_preserves_elapsed(st: TimerState, op: SwOp, t1: u64)
    requires
        clock_consistent(st, t1),
        op_time(op) == t1,
    ensures
        clock_consistent(sw_apply(st, op), t1),
        ielapsed(sw_apply(st, op), t1) == ielapsed(st, t1),
{
    lemma_elapsed_exact(st, t1);
}

/// Between two clock readings with no intervening operation, elapsed time
/// grows by exactly the running time of the interval.
pub proof fn lemma_idle_interval(st: TimerState, t1: u64, t2: u64)
    requires
        wf(st),
    ensures
        ielapsed(st, t2) == ielapsed(st, t1) + run_seg(st, t1, t2),
{
}

/// Drift-correct accounting: over any sequence of pause, resume and status
/// operations issued at nondecreasing clock readings, the elapsed value
/// read at the end equals the elapsed value at the start plus exactly the
/// wall-clock time spent in the running-and-not-paused state, no matter
/// how often the status was polled.
pub proof fn lemma_elapsed_accounts_running_time(
    st: TimerState,
    t0: u64,
    ops: Seq<SwOp>,
    t_end: u64,
)
    requires
        clock_consistent(st, t0),
        times_ordered(t0, ops, t_end),
    ensures
        clock_consistent(sw_apply_ops(st, ops), t_end),
        ielapsed(sw_apply_ops(st, ops), t_end) == ielapsed(st, t0) + accrued(st, t0, ops, t_end),
    decreases ops.len(),
{
    if ops.len() == 0 {
        lemma_idle_interval(st, t0, t_end);
    } else {
        let t1 = op_time(ops[0]);
        let st1 = sw_apply(st, ops[0]);
        lemma_idle_interval(st, t0, t1);
        lemma_op_preserves_elapsed(st, ops[0], t1);
        lemma_elapsed_accounts_running_time(st1, t1, ops.drop_first(), t_end);
    }
}

} // verus!
