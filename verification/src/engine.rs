//! Phase-cycling countdown engine.
//!
//! The engine owns the Focus/Break/MicroBreak cycle policy, a registry of
//! bounded per-subscriber tick queues, and the interrupt behaviour that ends
//! the current phase early. It is a step machine: the driving loop outside
//! the library waits for the earliest of {one second elapsed, interrupt
//! request} and calls the matching method, so every transition is a pure,
//! verified function of the current state. Publication to a full queue drops
//! the oldest unread tick of that subscriber only, so a slow consumer can
//! never block or disturb the timing loop.

use vstd::prelude::*;

verus! {

/// Number of ticks a subscriber's queue can hold before the oldest is
/// dropped.
pub const TICK_QUEUE_CAP: usize = 64;

/// What the current countdown represents.
#[derive(Clone, Copy, Debug, PartialEq, Eq, Structural)]
pub enum Phase {
    Focus,
    MicroBreak,
    Break,
    Idle,
}

/// Cycle configuration consumed by the engine. `micro_every == 0` disables
/// micro-breaks.
#[derive(Clone, Copy, Debug, PartialEq, Eq, Structural)]
pub struct Settings {
    pub focus_minutes: u64,
    pub break_minutes: u64,
    pub micro_every: u64,
    pub micro_minutes: u64,
    pub hard_break: bool,
    pub snooze_sec: u64,
}

/// One-second progress event delivered to subscribers.
#[derive(Clone, Copy, Debug, PartialEq, Eq, Structural)]
pub struct Tick {
    pub phase: Phase,
    pub seconds_left: u64,
    pub cycle: u64,
}

/// One subscriber's bounded queue of unread ticks.
struct Subscription {
    queue: Vec<Tick>,
}

/// Mathematical model of the engine: the cycle state plus the queued ticks
/// of every subscriber.
#[verifier::ext_equal]
pub struct EngineModel {
    pub settings: Settings,
    pub cycle: u64,
    pub phase: Phase,
    pub seconds_left: u64,
    pub running: bool,
    pub subs: Seq<Seq<Tick>>,
}

/// The phase-cycling engine.
pub struct Engine {
    pub settings: Settings,
    pub cycle: u64,
    pub phase: Phase,
    pub seconds_left: u64,
    pub running: bool,
    subs: Vec<Subscription>,
}

impl View for Engine {
    type V = EngineModel;

    closed spec fn view(&self) -> EngineModel {
        EngineModel {
            settings: self.settings,
            cycle: self.cycle,
            phase: self.phase,
            seconds_left: self.seconds_left,
            running: self.running,
            subs: self.subs@.map_values(|s: Subscription| s.queue@),
        }
    }
}

/// The break-type phase that follows the Focus phase of the given cycle:
/// a micro-break every `micro_every`-th cycle when enabled, else a break.
pub open spec fn break_kind(s: Settings, cycle: u64) -> Phase {
    if s.micro_every > 0 && cycle % s.micro_every == 0 {
        Phase::MicroBreak
    } else {
        Phase::Break
    }
}

/// Minutes converted to seconds, stopping at the largest `u64`.
pub open spec fn sat_minutes_to_secs(m: u64) -> u64 {
    if m <= u64::MAX / 60 {
        (m * 60) as u64
    } else {
        u64::MAX
    }
}

/// Countdown length of a phase under the given settings, in seconds.
pub open spec fn phase_secs(s: Settings, p: Phase) -> u64 {
    match p {
        Phase::Focus => sat_minutes_to_secs(s.focus_minutes),
        Phase::Break => sat_minutes_to_secs(s.break_minutes),
        Phase::MicroBreak => sat_minutes_to_secs(s.micro_minutes),
        Phase::Idle => 0,
    }
}

/// `cycle + 1`, stopping at the largest `u64`.
pub open spec fn sat_inc(c: u64) -> u64 {
    if c < u64::MAX {
        (c + 1) as u64
    } else {
        c
    }
}

/// The phase transition: after Focus comes the cycle's break-type phase;
/// after a break-type phase (or Idle) a new cycle begins with Focus,
/// incrementing the cycle count.
pub open spec fn spec_advance(m: EngineModel) -> EngineModel {
    if m.phase == Phase::Focus {
        let p = break_kind(m.settings, m.cycle);
        EngineModel { phase: p, seconds_left: phase_secs(m.settings, p), ..m }
    } else {
        EngineModel {
            cycle: sat_inc(m.cycle),
            phase: Phase::Focus,
            seconds_left: phase_secs(m.settings, Phase::Focus),
            ..m
        }
    }
}

/// A tick appended to one bounded queue: the oldest unread tick is dropped
/// first when the queue is full.
pub open spec fn push_tick(q: Seq<Tick>, t: Tick) -> Seq<Tick> {
    if q.len() >= TICK_QUEUE_CAP {
        q.drop_first().push(t)
    } else {
        q.push(t)
    }
}

/// A tick delivered to every subscriber.
pub open spec fn spec_publish(m: EngineModel, t: Tick) -> EngineModel {
    EngineModel { subs: m.subs.map_values(|q: Seq<Tick>| push_tick(q, t)), ..m }
}

/// One elapsed second of an active phase: the countdown decrements, the
/// resulting tick goes to every subscriber, and a countdown that reaches
/// zero is immediately followed by the phase transition.
pub open spec fn spec_on_second(m: EngineModel) -> EngineModel {
    if !m.running {
        m
    } else if m.seconds_left == 0 {
        spec_advance(m)
    } else {
        let s2 = (m.seconds_left - 1) as u64;
        let t = Tick { phase: m.phase, seconds_left: s2, cycle: m.cycle };
        let m2 = spec_publish(EngineModel { seconds_left: s2, ..m }, t);
        if s2 == 0 {
            spec_advance(m2)
        } else {
            m2
        }
    }
}

/// An interrupt ends the active phase at once and moves to the next phase
/// in normal cycle order, publishing nothing; a no-op when idle.
pub open spec fn spec_interrupt(m: EngineModel) -> EngineModel {
    if m.running {
        spec_advance(m)
    } else {
        m
    }
}

/// Starting the engine enters the first Focus phase of a new cycle; a
/// no-op when already running.
pub open spec fn spec_start(m: EngineModel) -> EngineModel {
    if m.running {
        m
    } else {
        EngineModel {
            running: true,
            cycle: sat_inc(m.cycle),
            phase: Phase::Focus,
            seconds_left: phase_secs(m.settings, Phase::Focus),
            ..m
        }
    }
}

/// A new, empty subscriber queue is registered.
pub open spec fn spec_subscribe(m: EngineModel) -> EngineModel {
    EngineModel { subs: m.subs.push(Seq::empty()), ..m }
}

/// The oldest unread tick of one subscriber is consumed.
pub open spec fn spec_recv(m: EngineModel, i: int) -> EngineModel {
    if 0 <= i < m.subs.len() && m.subs[i].len() > 0 {
        EngineModel { subs: m.subs.update(i, m.subs[i].drop_first()), ..m }
    } else {
        m
    }
}

/// What `recv` returns: the oldest unread tick, if any.
pub open spec fn spec_recv_result(m: EngineModel, i: int) -> Option<Tick> {
    if 0 <= i < m.subs.len() && m.subs[i].len() > 0 {
        Some(m.subs[i][0])
    } else {
        None
    }
}

/// The configuration is replaced for phases not yet started; the phase in
/// progress keeps its remaining countdown.
pub open spec fn spec_update_settings(m: EngineModel, s: Settings) -> EngineModel {
    EngineModel { settings: s, ..m }
}

impl Engine {
    /// A fresh engine: idle, cycle count zero, no subscribers.
    pub fn new(settings: Settings) -> (e: Engine)
        ensures
            e@ == (EngineModel {
                settings,
                cycle: 0,
                phase: Phase::Idle,
                seconds_left: 0,
                running: false,
                subs: Seq::<Seq<Tick>>::empty(),
            }),
    {
        let e = Engine {
            settings,
            cycle: 0,
            phase: Phase::Idle,
            seconds_left: 0,
            running: false,
            subs: Vec::new(),
        };
        proof {
            assert(e@.subs =~= Seq::<Seq<Tick>>::empty());
            assert(e@ =~= (EngineModel {
                settings,
                cycle: 0,
                phase: Phase::Idle,
                seconds_left: 0,
                running: false,
                subs: Seq::<Seq<Tick>>::empty(),
            }));
        }
        e
    }

    /// Countdown length of a phase under the given settings, in seconds.
    fn phase_len(settings: &Settings, p: Phase) -> (r: u64)
        ensures
            r == phase_secs(*settings, p),
    {
        let minutes: u64 = match p {
            Phase::Focus => settings.focus_minutes,
            Phase::Break => settings.break_minutes,
            Phase::MicroBreak => settings.micro_minutes,
            Phase::Idle => 0,
        };
        if minutes <= u64::MAX / 60 {
            minutes * 60
        } else {
            u64::MAX
        }
    }

    /// Moves to the next phase in cycle order.
    fn advance(&mut self)
        ensures
            final(self)@ == spec_advance(old(self)@),
    {
        if self.phase == Phase::Focus {
            let p = if self.settings.micro_every > 0 && self.cycle % self.settings.micro_every
                == 0 {
                Phase::MicroBreak
            } else {
                Phase::Break
            };
            self.seconds_left = Self::phase_len(&self.settings, p);
            self.phase = p;
        } else {
            self.cycle = if self.cycle < u64::MAX {
                self.cycle + 1
            } else {
                self.cycle
            };
            self.phase = Phase::Focus;
            self.seconds_left = Self::phase_len(&self.settings, Phase::Focus);
        }
    }

    /// Delivers one tick to every subscriber without ever blocking: a full
    /// queue loses its oldest unread tick instead.
    fn publish(&mut self, t: Tick)
        ensures
            final(self)@ == spec_publish(old(self)@, t),
    {
        let n = self.subs.len();
        let mut i: usize = 0;
        while i < n
            invariant
                n == self.subs.len(),
                i <= n,
                self.settings == old(self).settings,
                self.cycle == old(self).cycle,
                self.phase == old(self).phase,
                self.seconds_left == old(self).seconds_left,
                self.running == old(self).running,
                forall|j: int|
                    0 <= j < i ==> self.subs@[j].queue@ == push_tick(old(self).subs@[j].queue@, t),
                forall|j: int| i <= j < n ==> self.subs@[j] == old(self).subs@[j],
            decreases n - i,
        {
            let sub = &mut self.subs[i];
            if sub.queue.len() >= TICK_QUEUE_CAP {
                let dropped = sub.queue.remove(0);
                proof {
                    assert(sub.queue@ =~= old(self).subs@[i as int].queue@.drop_first());
                }
            }
            sub.queue.push(t);
            i += 1;
        }
        proof {
            assert(self@.subs =~~= spec_publish(old(self)@, t).subs);
            assert(self@ =~~= spec_publish(old(self)@, t));
        }
    }

    /// Enters the first Focus phase of a new cycle; a no-op when already
    /// running.
    pub fn start(&mut self)
        ensures
            final(self)@ == spec_start(old(self)@),
    {
        if !self.running {
            self.running = true;
            self.cycle = if self.cycle < u64::MAX {
                self.cycle + 1
            } else {
                self.cycle
            };
            self.phase = Phase::Focus;
            self.seconds_left = Self::phase_len(&self.settings, Phase::Focus);
        }
    }

    /// One elapsed second of the active phase: decrements the countdown,
    /// publishes the resulting tick to every subscriber, and performs the
    /// phase transition when the countdown reaches zero.
    pub fn on_second(&mut self)
        ensures
            final(self)@ == spec_on_second(old(self)@),
    {
        if !self.running {
            return ;
        }
        if self.seconds_left == 0 {
            self.advance();
            return ;
        }
        self.seconds_left = self.seconds_left - 1;
        let t = Tick { phase: self.phase, seconds_left: self.seconds_left, cycle: self.cycle };
        self.publish(t);
        if self.seconds_left == 0 {
            self.advance();
        }
    }

    /// Ends the active phase immediately and proceeds to the next phase in
    /// normal cycle order; publishes nothing. Affects only the phase active
    /// now — a later phase needs its own interrupt.
    pub fn interrupt(&mut self)
        ensures
            final(self)@ == spec_interrupt(old(self)@),
    {
        if self.running {
            self.advance();
        }
    }

    /// Replaces the configuration used for all phases not yet started; the
    /// phase currently in progress keeps its remaining countdown.
    pub fn update_settings(&mut self, settings: Settings)
        ensures
            final(self)@ == spec_update_settings(old(self)@, settings),
    {
        self.settings = settings;
    }

    /// Registers a new independent subscriber and returns its handle. The
    /// new queue starts empty: a subscriber receives only ticks published
    /// after it subscribed, never historical ones.
    pub fn subscribe(&mut self) -> (id: usize)
        ensures
            final(self)@ == spec_subscribe(old(self)@),
            id as int == old(self)@.subs.len(),
            final(self)@.subs[id as int] == Seq::<Tick>::empty(),
    {
        let id = self.subs.len();
        self.subs.push(Subscription { queue: Vec::new() });
        proof {
            assert(self@.subs =~~= spec_subscribe(old(self)@).subs);
            assert(self@ =~~= spec_subscribe(old(self)@));
        }
        id
    }

    /// Takes the oldest unread tick of the given subscriber, if any.
    pub fn recv(&mut self, sub_id: usize) -> (r: Option<Tick>)
        ensures
            final(self)@ == spec_recv(old(self)@, sub_id as int),
            r == spec_recv_result(old(self)@, sub_id as int),
    {
        if sub_id < self.subs.len() {
            let sub = &mut self.subs[sub_id];
            if sub.queue.len() > 0 {
                let t = sub.queue.remove(0);
                proof {
                    assert(sub.queue@ =~= old(self).subs@[sub_id as int].queue@.drop_first());
                    assert(self@.subs =~~= spec_recv(old(self)@, sub_id as int).subs);
                    assert(self@ =~~= spec_recv(old(self)@, sub_id as int));
                }
                Some(t)
            } else {
                None
            }
        } else {
            None
        }
    }

    /// How many ticks the given subscriber has waiting.
    pub fn pending(&self, sub_id: usize) -> (n: usize)
        ensures
            sub_id < self@.subs.len() ==> n as int == self@.subs[sub_id as int].len(),
            sub_id >= self@.subs.len() ==> n == 0,
    {
        if sub_id < self.subs.len() {
            self.subs[sub_id].queue.len()
        } else {
            0
        }
    }
}

} // verus!
