//! Laws of the phase-cycling engine, stated over its mathematical model
//! and arbitrary sequences of control events.

use vstd::prelude::*;
use crate::engine::EngineModel;
use crate::engine::Phase;
use crate::engine::Settings;
use crate::engine::Tick;
use crate::engine::spec_advance;
use crate::engine::spec_interrupt;
use crate::engine::spec_on_second;
use crate::engine::spec_publish;
use crate::engine::spec_recv;
use crate::engine::spec_start;
use crate::engine::spec_subscribe;
use crate::engine::spec_update_settings;
use crate::engine::push_tick;

verus! {

/// A control event reaching the engine: the two outcomes of the per-second
/// wait race, plus the commands of the control surface.
pub enum Event {
    Start,
    Second,
    Interrupt,
    Subscribe,
    Recv { sub: int },
    UpdateSettings { settings: Settings },
}

/// The transition one event performs.
pub open spec fn apply_event(m: EngineModel, e: Event) -> EngineModel {
    match e {
        Event::Start => spec_start(m),
        Event::Second => spec_on_second(m),
        Event::Interrupt => spec_interrupt(m),
        Event::Subscribe => spec_subscribe(m),
        Event::Recv { sub } => spec_recv(m, sub),
        Event::UpdateSettings { settings } => spec_update_settings(m, settings),
    }
}

/// The state after a sequence of events, applied in order.
pub open spec fn apply_events(m: EngineModel, evs: Seq<Event>) -> EngineModel
    decreases evs.len(),
{
    if evs.len() == 0 {
        m
    } else {
        apply_events(apply_event(m, evs[0]), evs.drop_first())
    }
}

/// Position of a phase instance in the lifetime order of the engine: each
/// cycle contributes its Focus phase followed by its break-type phase, and
/// the idle state before a cycle sits with the break slot of the previous
/// cycle count.
pub open spec fn pos_of(cycle: u64, focus: bool) -> int {
    2 * cycle + if focus {
        0int
    } else {
        1int
    }
}

/// Position of the engine's current phase instance.
pub open spec fn mpos(m: EngineModel) -> int {
    pos_of(m.cycle, m.running && m.phase == Phase::Focus)
}

/// Every queued tick that belongs to the phase instance `(cycle, phase)`
/// has strictly fewer than `v` seconds remaining.
pub open spec fn sub_ticks_below(q: Seq<Tick>, cycle: u64, phase: Phase, v: u64) -> bool {
    forall|k: int|
        0 <= k < q.len() && q[k].cycle == cycle && q[k].phase == phase ==> q[k].seconds_left < v
}

/// Every queued tick that belongs to the phase instance `(cycle, phase)`
/// has at least `v` seconds remaining.
pub open spec fn sub_ticks_at_least(q: Seq<Tick>, cycle: u64, phase: Phase, v: u64) -> bool {
    forall|k: int|
        0 <= k < q.len() && q[k].cycle == cycle && q[k].phase == phase ==> q[k].seconds_left >= v
}

/// Every queued tick of every subscriber that belongs to the phase
/// instance `(cycle, phase)` has at least `v` seconds remaining.
pub open spec fn all_ticks_at_least(subs: Seq<Seq<Tick>>, cycle: u64, phase: Phase, v: u64) -> bool {
    forall|i: int, k: int|
        0 <= i < subs.len() && 0 <= k < subs[i].len() && subs[i][k].cycle == cycle
            && subs[i][k].phase == phase ==> subs[i][k].seconds_left >= v
}

/// One event never moves the engine to an earlier phase instance, as long
/// as the reference position is below the saturation point of the cycle
/// counter.
pub proof fn lemma_mpos_nondecreasing(m: EngineModel, e: Event, p0: int)
    requires
        mpos(m) >= p0,
        p0 <= 2 * (u64::MAX as int),
    ensures
        mpos(apply_event(m, e)) >= p0,
{
}

/// The cycle count never decreases.
pub proof fn lemma_cycle_nondecreasing_step(m: EngineModel, e: Event)
    ensures
        apply_event(m, e).cycle >= m.cycle,
{
}

/// The event started a Focus phase: afterwards the engine is running a
/// Focus phase it was not running before.
pub open spec fn focus_phase_starts(m: EngineModel, e: Event) -> bool {
    let m2 = apply_event(m, e);
    m2.running && m2.phase == Phase::Focus && !(m.running && m.phase == Phase::Focus)
}

/// The cycle count increases by exactly one precisely when a Focus phase
/// starts, and is otherwise untouched — interrupts included.
pub proof fn lemma_cycle_counts_focus_starts(m: EngineModel, e: Event)
    requires
        m.cycle < u64::MAX,
    ensures
        apply_event(m, e).cycle == if focus_phase_starts(m, e) {
            m.cycle + 1
        } else {
            m.cycle as int
        },
{
}

/// Over any sequence of events the cycle count never decreases.
pub proof fn lemma_cycle_nondecreasing(m: EngineModel, evs: Seq<Event>)
    ensures
        apply_events(m, evs).cycle >= m.cycle,
    decreases evs.len(),
{
    if evs.len() > 0 {
        lemma_cycle_nondecreasing_step(m, evs[0]);
        lemma_cycle_nondecreasing(apply_event(m, evs[0]), evs.drop_first());
    }
}

/// An interrupt of an active phase publishes nothing — no subscriber
/// receives a tick of the interrupted phase past the interrupt — and the
/// next phase of the normal cycle order begins at once.
pub proof fn lemma_interrupt_immediate(m: EngineModel)
    requires
        m.running,
    ensures
        spec_interrupt(m).subs == m.subs,
        spec_interrupt(m) == spec_advance(m),
        spec_interrupt(m).phase == spec_advance(m).phase,
{
}

/// Appending a tick to a bounded queue preserves an upper bound that the
/// new tick itself respects.
proof fn lemma_push_tick_below(q: Seq<Tick>, t: Tick, cycle: u64, phase: Phase, v: u64)
    requires
        sub_ticks_below(q, cycle, phase, v),
        t.cycle == cycle && t.phase == phase ==> t.seconds_left < v,
    ensures
        sub_ticks_below(push_tick(q, t), cycle, phase, v),
{
    let q2 = push_tick(q, t);
    assert forall|k: int|
        0 <= k < q2.len() && q2[k].cycle == cycle && q2[k].phase == phase implies q2[k].seconds_left
        < v by {
        if k < q2.len() - 1 {
            if q.len() >= crate::engine::TICK_QUEUE_CAP {
                assert(q2[k] == q[k + 1]);
            } else {
                assert(q2[k] == q[k]);
            }
        } else {
            assert(q2[k] == t);
        }
    }
}

/// Appending a tick to a bounded queue preserves a lower bound that the
/// new tick itself respects.
proof fn lemma_push_tick_at_least(q: Seq<Tick>, t: Tick, cycle: u64, phase: Phase, v: u64)
    requires
        sub_ticks_at_least(q, cycle, phase, v),
        t.cycle == cycle && t.phase == phase ==> t.seconds_left >= v,
    ensures
        sub_ticks_at_least(push_tick(q, t), cycle, phase, v),
{
    let q2 = push_tick(q, t);
    assert forall|k: int|
        0 <= k < q2.len() && q2[k].cycle == cycle && q2[k].phase == phase implies q2[k].seconds_left
        >= v by {
        if k < q2.len() - 1 {
            if q.len() >= crate::engine::TICK_QUEUE_CAP {
                assert(q2[k] == q[k + 1]);
            } else {
                assert(q2[k] == q[k]);
            }
        } else {
            assert(q2[k] == t);
        }
    }
}

/// Inductive invariant for one observer: it watches the phase instance
/// `(cycle, phase)` that had `v` seconds remaining when its queue at index
/// `i` was created. The engine never sits before that phase instance, and
/// while still inside it has at most `v` seconds remaining, so every tick
/// of that instance reaching queue `i` stays below `v`.
pub open spec fn observer_inv(m: EngineModel, i: int, cycle: u64, phase: Phase, v: u64) -> bool {
    &&& 0 <= i < m.subs.len()
    &&& sub_ticks_below(m.subs[i], cycle, phase, v)
    &&& mpos(m) >= pos_of(cycle, phase == Phase::Focus)
    &&& (m.running && m.cycle == cycle && m.phase == phase ==> m.seconds_left <= v)
}

/// One event preserves the observer invariant.
proof fn lemma_observer_inv_step(
    m: EngineModel,
    e: Event,
    i: int,
    cycle: u64,
    phase: Phase,
    v: u64,
)
    requires
        observer_inv(m, i, cycle, phase, v),
        cycle < u64::MAX,
    ensures
        observer_inv(apply_event(m, e), i, cycle, phase, v),
{
    let m2 = apply_event(m, e);
    lemma_mpos_nondecreasing(m, e, pos_of(cycle, phase == Phase::Focus));
    match e {
        Event::Second => {
            if m.running && m.seconds_left > 0 {
                let s2 = (m.seconds_left - 1) as u64;
                let t = Tick { phase: m.phase, seconds_left: s2, cycle: m.cycle };
                let mp = spec_publish(EngineModel { seconds_left: s2, ..m }, t);
                assert(mp.subs[i] == push_tick(m.subs[i], t));
                lemma_push_tick_below(m.subs[i], t, cycle, phase, v);
                assert(observer_inv(mp, i, cycle, phase, v));
            }
        },
        Event::Recv { sub } => {
            if 0 <= sub < m.subs.len() && m.subs[sub].len() > 0 {
                if sub == i {
                    let q = m.subs[i];
                    let q2 = q.drop_first();
                    assert forall|k: int|
                        0 <= k < q2.len() && q2[k].cycle == cycle && q2[k].phase
                            == phase implies q2[k].seconds_left < v by {
                        assert(q2[k] == q[k + 1]);
                    }
                } else {
                    assert(m2.subs[i] == m.subs[i]);
                }
            }
        },
        Event::Subscribe => {
            assert(m2.subs[i] == m.subs[i]);
        },
        _ => {},
    }
}

/// The observer invariant holds after any sequence of events.
proof fn lemma_observer_inv_trace(
    m: EngineModel,
    evs: Seq<Event>,
    i: int,
    cycle: u64,
    phase: Phase,
    v: u64,
)
    requires
        observer_inv(m, i, cycle, phase, v),
        cycle < u64::MAX,
    ensures
        observer_inv(apply_events(m, evs), i, cycle, phase, v),
    decreases evs.len(),
{
    if evs.len() > 0 {
        lemma_observer_inv_step(m, evs[0], i, cycle, phase, v);
        lemma_observer_inv_trace(apply_event(m, evs[0]), evs.drop_first(), i, cycle, phase, v);
    }
}

/// A subscription created mid-phase never receives a tick of that same
/// phase instance with more seconds remaining than were left at
/// subscription time: whatever events follow, every tick in the new
/// subscriber's queue that belongs to the phase current at subscription
/// carries strictly fewer seconds than were then remaining.
pub proof fn lemma_mid_phase_subscription_bounded(m: EngineModel, evs: Seq<Event>)
    requires
        m.cycle < u64::MAX,
    ensures
        ({
            let m1 = spec_subscribe(m);
            let i = m.subs.len() as int;
            let m2 = apply_events(m1, evs);
            &&& i < m2.subs.len()
            &&& sub_ticks_below(m2.subs[i], m.cycle, m.phase, m.seconds_left)
        }),
{
    let m1 = spec_subscribe(m);
    let i = m.subs.len() as int;
    assert(m1.subs[i] == Seq::<Tick>::empty());
    lemma_observer_inv_trace(m1, evs, i, m.cycle, m.phase, m.seconds_left);
}

/// Inductive invariant for an ended phase instance: the engine sits
/// strictly past `(cycle, phase)`, so no further tick of that instance is
/// ever published, and every one already queued has at least `v` seconds.
pub open spec fn past_phase_inv(m: EngineModel, cycle: u64, phase: Phase, v: u64) -> bool {
    &&& mpos(m) >= pos_of(cycle, phase == Phase::Focus) + 1
    &&& all_ticks_at_least(m.subs, cycle, phase, v)
}

/// One event preserves the ended-phase invariant.
proof fn lemma_past_phase_inv_step(m: EngineModel, e: Event, cycle: u64, phase: Phase, v: u64)
    requires
        past_phase_inv(m, cycle, phase, v),
        cycle < u64::MAX,
    ensures
        past_phase_inv(apply_event(m, e), cycle, phase, v),
{
    let m2 = apply_event(m, e);
    lemma_mpos_nondecreasing(m, e, pos_of(cycle, phase == Phase::Focus) + 1);
    match e {
        Event::Second => {
            if m.running && m.seconds_left > 0 {
                let s2 = (m.seconds_left - 1) as u64;
                let t = Tick { phase: m.phase, seconds_left: s2, cycle: m.cycle };
                assert(!(t.cycle == cycle && t.phase == phase));
                let mp = spec_publish(EngineModel { seconds_left: s2, ..m }, t);
                assert forall|j: int, k: int|
                    0 <= j < mp.subs.len() && 0 <= k < mp.subs[j].len() && mp.subs[j][k].cycle
                        == cycle && mp.subs[j][k].phase == phase implies mp.subs[j][k].seconds_left
                    >= v by {
                    assert(mp.subs[j] == push_tick(m.subs[j], t));
                    lemma_push_tick_at_least(m.subs[j], t, cycle, phase, v);
                }
            }
        },
        Event::Recv { sub } => {
            if 0 <= sub < m.subs.len() && m.subs[sub].len() > 0 {
                assert forall|j: int, k: int|
                    0 <= j < m2.subs.len() && 0 <= k < m2.subs[j].len() && m2.subs[j][k].cycle
                        == cycle && m2.subs[j][k].phase == phase implies m2.subs[j][k].seconds_left
                    >= v by {
                    if j == sub {
                        assert(m2.subs[j][k] == m.subs[j][k + 1]);
                    } else {
                        assert(m2.subs[j] == m.subs[j]);
                    }
                }
            }
        },
        Event::Subscribe => {
            assert forall|j: int, k: int|
                0 <= j < m2.subs.len() && 0 <= k < m2.subs[j].len() && m2.subs[j][k].cycle == cycle
                    && m2.subs[j][k].phase == phase implies m2.subs[j][k].seconds_left >= v by {
                if j < m.subs.len() {
                    assert(m2.subs[j] == m.subs[j]);
                } else {
                    assert(m2.subs[j] == Seq::<Tick>::empty());
                }
            }
        },
        _ => {},
    }
}

/// The ended-phase invariant holds after any sequence of events.
proof fn lemma_past_phase_inv_trace(
    m: EngineModel,
    evs: Seq<Event>,
    cycle: u64,
    phase: Phase,
    v: u64,
)
    requires
        past_phase_inv(m, cycle, phase, v),
        cycle < u64::MAX,
    ensures
        past_phase_inv(apply_events(m, evs), cycle, phase, v),
    decreases evs.len(),
{
    if evs.len() > 0 {
        lemma_past_phase_inv_step(m, evs[0], cycle, phase, v);
        lemma_past_phase_inv_trace(apply_event(m, evs[0]), evs.drop_first(), cycle, phase, v);
    }
}

/// Position of the phase instance a tick belongs to.
pub open spec fn tick_pos(t: Tick) -> int {
    pos_of(t.cycle, t.phase == Phase::Focus)
}

/// Invariant of every reachable engine state, as long as the cycle counter
/// has not saturated: every queued tick belongs either to an already ended
/// phase instance, or to the current one — and then it was published at an
/// earlier point of the current countdown, so it shows at least the
/// seconds now remaining.
pub open spec fn engine_inv(m: EngineModel) -> bool {
    m.cycle < u64::MAX ==> forall|i: int, k: int|
        0 <= i < m.subs.len() && 0 <= k < m.subs[i].len() ==> (tick_pos(#[trigger] m.subs[i][k])
            < mpos(m) || (m.subs[i][k].cycle == m.cycle && m.subs[i][k].phase == m.phase
            && m.subs[i][k].seconds_left >= m.seconds_left))
}

/// A fresh engine satisfies the invariant: it has no subscribers.
pub proof fn lemma_engine_inv_new(m: EngineModel)
    requires
        m.subs.len() == 0,
    ensures
        engine_inv(m),
{
}

/// Every event preserves the invariant.
pub proof fn lemma_engine_inv_preserved(m: EngineModel, e: Event)
    requires
        engine_inv(m),
    ensures
        engine_inv(apply_event(m, e)),
{
    let m2 = apply_event(m, e);
    if m2.cycle < u64::MAX {
        lemma_cycle_nondecreasing_step(m, e);
        assert(m.cycle < u64::MAX);
        lemma_mpos_nondecreasing(m, e, mpos(m));
        assert forall|i: int, k: int|
            0 <= i < m2.subs.len() && 0 <= k < m2.subs[i].len() implies (tick_pos(
            #[trigger] m2.subs[i][k],
        ) < mpos(m2) || (m2.subs[i][k].cycle == m2.cycle && m2.subs[i][k].phase == m2.phase
            && m2.subs[i][k].seconds_left >= m2.seconds_left)) by {
            match e {
                Event::Second => {
                    if m.running && m.seconds_left > 0 {
                        let s2 = (m.seconds_left - 1) as u64;
                        let t = Tick { phase: m.phase, seconds_left: s2, cycle: m.cycle };
                        let mp = spec_publish(EngineModel { seconds_left: s2, ..m }, t);
                        assert(mp.subs[i] == push_tick(m.subs[i], t));
                        let q = m.subs[i];
                        let q2 = mp.subs[i];
                        if k < q2.len() - 1 {
                            if q.len() >= crate::engine::TICK_QUEUE_CAP {
                                assert(q2[k] == q[k + 1]);
                            } else {
                                assert(q2[k] == q[k]);
                            }
                        } else {
                            assert(q2[k] == t);
                        }
                    }
                },
                Event::Recv { sub } => {
                    if 0 <= sub < m.subs.len() && m.subs[sub].len() > 0 {
                        if i == sub {
                            assert(m2.subs[i][k] == m.subs[i][k + 1]);
                        } else {
                            assert(m2.subs[i] == m.subs[i]);
                        }
                    }
                },
                Event::Subscribe => {
                    if i < m.subs.len() {
                        assert(m2.subs[i] == m.subs[i]);
                    } else {
                        assert(m2.subs[i] == Seq::<Tick>::empty());
                    }
                },
                _ => {},
            }
        }
    }
}

/// The invariant holds after any sequence of events.
pub proof fn lemma_engine_inv_trace(m: EngineModel, evs: Seq<Event>)
    requires
        engine_inv(m),
    ensures
        engine_inv(apply_events(m, evs)),
    decreases evs.len(),
{
    if evs.len() > 0 {
        lemma_engine_inv_preserved(m, evs[0]);
        lemma_engine_inv_trace(apply_event(m, evs[0]), evs.drop_first());
    }
}

/// In a running invariant state, every queued tick of the current phase
/// instance shows at least the seconds now remaining.
pub proof fn lemma_inv_current_ticks(m: EngineModel)
    requires
        engine_inv(m),
        m.running,
        m.cycle < u64::MAX,
    ensures
        all_ticks_at_least(m.subs, m.cycle, m.phase, m.seconds_left),
{
    assert forall|i: int, k: int|
        0 <= i < m.subs.len() && 0 <= k < m.subs[i].len() && m.subs[i][k].cycle == m.cycle
            && m.subs[i][k].phase == m.phase implies m.subs[i][k].seconds_left
        >= m.seconds_left by {
        assert(tick_pos(m.subs[i][k]) == mpos(m));
    }
}


/// Tick `a` is published strictly before tick `b` in any run of the
/// engine: it belongs to an earlier phase instance, or to the same one
/// with more seconds remaining.
pub open spec fn tick_precedes(a: Tick, b: Tick) -> bool {
    tick_pos(a) < tick_pos(b) || (a.cycle == b.cycle && a.phase == b.phase && a.seconds_left
        > b.seconds_left)
}

/// Adjacent queued ticks stand in publication order.
pub open spec fn queue_ordered(q: Seq<Tick>) -> bool {
    forall|k: int| 0 <= k < q.len() - 1 ==> tick_precedes(#[trigger] q[k], q[k + 1])
}

/// Every subscriber's queue is in publication order, as long as the cycle
/// counter has not saturated.
pub open spec fn streams_ordered(m: EngineModel) -> bool {
    m.cycle < u64::MAX ==> forall|i: int| 0 <= i < m.subs.len() ==> queue_ordered(#[trigger] m.subs[i])
}

/// A fresh engine trivially has ordered streams: it has no subscribers.
pub proof fn lemma_streams_ordered_new(m: EngineModel)
    requires
        m.subs.len() == 0,
    ensures
        streams_ordered(m),
{
}

/// Every event preserves ordered streams: a published tick belongs to the
/// running phase instance, which by the engine invariant comes no earlier
/// than anything already queued.
pub proof fn lemma_streams_ordered_preserved(m: EngineModel, e: Event)
    requires
        engine_inv(m),
        streams_ordered(m),
    ensures
        streams_ordered(apply_event(m, e)),
{
    let m2 = apply_event(m, e);
    if m2.cycle < u64::MAX {
        lemma_cycle_nondecreasing_step(m, e);
        assert forall|i: int| 0 <= i < m2.subs.len() implies queue_ordered(
            #[trigger] m2.subs[i],
        ) by {
            match e {
                Event::Second => {
                    if m.running && m.seconds_left > 0 {
                        let s2 = (m.seconds_left - 1) as u64;
                        let t = Tick { phase: m.phase, seconds_left: s2, cycle: m.cycle };
                        let mp = spec_publish(EngineModel { seconds_left: s2, ..m }, t);
                        assert(mp.subs[i] == push_tick(m.subs[i], t));
                        let q = m.subs[i];
                        let q2 = mp.subs[i];
                        assert forall|k: int| 0 <= k < q2.len() - 1 implies tick_precedes(
                            #[trigger] q2[k],
                            q2[k + 1],
                        ) by {
                            if q.len() >= crate::engine::TICK_QUEUE_CAP {
                                if k < q2.len() - 2 {
                                    assert(q2[k] == q[k + 1]);
                                    assert(q2[k + 1] == q[k + 2]);
                                } else {
                                    assert(q2[k] == q[q.len() - 1]);
                                    assert(q2[k + 1] == t);
                                    assert(tick_pos(t) == mpos(m));
                                }
                            } else {
                                if k < q2.len() - 2 {
                                    assert(q2[k] == q[k]);
                                    assert(q2[k + 1] == q[k + 1]);
                                } else {
                                    assert(q2[k] == q[q.len() - 1]);
                                    assert(q2[k + 1] == t);
                                    assert(tick_pos(t) == mpos(m));
                                }
                            }
                        }
                    }
                },
                Event::Recv { sub } => {
                    if 0 <= sub < m.subs.len() && m.subs[sub].len() > 0 {
                        if i == sub {
                            let q = m.subs[i];
                            let q2 = m2.subs[i];
                            assert forall|k: int| 0 <= k < q2.len() - 1 implies tick_precedes(
                                #[trigger] q2[k],
                                q2[k + 1],
                            ) by {
                                assert(q2[k] == q[k + 1]);
                                assert(q2[k + 1] == q[k + 2]);
                            }
                        } else {
                            assert(m2.subs[i] == m.subs[i]);
                        }
                    }
                },
                Event::Subscribe => {
                    if i < m.subs.len() {
                        assert(m2.subs[i] == m.subs[i]);
                    } else {
                        assert(m2.subs[i] == Seq::<Tick>::empty());
                    }
                },
                _ => {},
            }
        }
    }
}

/// Ordered streams hold after any sequence of events.
pub proof fn lemma_streams_ordered_trace(m: EngineModel, evs: Seq<Event>)
    requires
        engine_inv(m),
        streams_ordered(m),
    ensures
        streams_ordered(apply_events(m, evs)),
    decreases evs.len(),
{
    if evs.len() > 0 {
        lemma_engine_inv_preserved(m, evs[0]);
        lemma_streams_ordered_preserved(m, evs[0]);
        lemma_streams_ordered_trace(apply_event(m, evs[0]), evs.drop_first());
    }
}

/// In an ordered queue, every earlier tick precedes every later one, so a
/// subscriber never receives ticks out of order.
pub proof fn lemma_ordered_queue_pairwise(q: Seq<Tick>, k: int, l: int)
    requires
        queue_ordered(q),
        0 <= k < l < q.len(),
    ensures
        tick_precedes(q[k], q[l]),
    decreases l - k,
{
    if k + 1 < l {
        lemma_ordered_queue_pairwise(q, k + 1, l);
    }
}

/// An interrupt raised while the active phase has `N` seconds remaining
/// cuts that phase short for good: whatever events follow, no subscriber
/// ever holds a tick of the interrupted phase instance with fewer than `N`
/// seconds remaining. The invariant hypothesis holds of every reachable
/// state: a fresh engine satisfies it and every event preserves it.
pub proof fn lemma_interrupt_cuts_phase(m: EngineModel, evs: Seq<Event>)
    requires
        m.running,
        m.cycle < u64::MAX,
        engine_inv(m),
    ensures
        all_ticks_at_least(
            apply_events(spec_interrupt(m), evs).subs,
            m.cycle,
            m.phase,
            m.seconds_left,
        ),
{
    lemma_inv_current_ticks(m);
    let m1 = spec_interrupt(m);
    assert(past_phase_inv(m1, m.cycle, m.phase, m.seconds_left));
    lemma_past_phase_inv_trace(m1, evs, m.cycle, m.phase, m.seconds_left);
}

} // verus!
