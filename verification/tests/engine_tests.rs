use rune_pause::engine::Engine;
use rune_pause::engine::Phase;
use rune_pause::engine::Settings;
use rune_pause::engine::TICK_QUEUE_CAP;

fn settings(focus: u64, brk: u64, micro_every: u64, micro: u64) -> Settings {
    Settings {
        focus_minutes: focus,
        break_minutes: brk,
        micro_every,
        micro_minutes: micro,
        hard_break: false,
        snooze_sec: 60,
    }
}

#[test]
fn new_engine_is_idle() {
    let e = Engine::new(settings(25, 5, 4, 2));
    assert_eq!(e.cycle, 0);
    assert_eq!(e.phase, Phase::Idle);
    assert!(!e.running);
    assert_eq!(e.seconds_left, 0);
}

#[test]
fn phase_sequence_with_micro_every_four() {
    // Focus 25 min, break 5 min, micro-break of 2 min every 4th cycle:
    // cycles 1-4 run Focus, Break, Focus, Break, Focus, Break, Focus,
    // MicroBreak.
    let mut e = Engine::new(settings(25, 5, 4, 2));
    e.start();
    let mut phases = vec![e.phase];
    let mut guard = 0u32;
    while phases.len() < 8 && guard < 200_000 {
        e.on_second();
        if *phases.last().unwrap() != e.phase {
            phases.push(e.phase);
        }
        guard += 1;
    }
    assert_eq!(
        phases,
        vec![
            Phase::Focus,
            Phase::Break,
            Phase::Focus,
            Phase::Break,
            Phase::Focus,
            Phase::Break,
            Phase::Focus,
            Phase::MicroBreak,
        ]
    );
}

#[test]
fn micro_every_zero_disables_micro_breaks() {
    let mut e = Engine::new(settings(1, 1, 0, 1));
    e.start();
    for _ in 0..6 {
        // Run one full phase of 60 seconds.
        for _ in 0..60 {
            e.on_second();
        }
        assert_ne!(e.phase, Phase::MicroBreak);
    }
}

#[test]
fn countdown_and_ticks() {
    let mut e = Engine::new(settings(1, 1, 0, 1));
    let sub = e.subscribe();
    e.start();
    assert_eq!(e.seconds_left, 60);
    e.on_second();
    assert_eq!(e.seconds_left, 59);
    let t = e.recv(sub).unwrap();
    assert_eq!(t.phase, Phase::Focus);
    assert_eq!(t.seconds_left, 59);
    assert_eq!(t.cycle, 1);
    assert_eq!(e.recv(sub), None);
}

#[test]
fn interrupt_starts_next_phase_at_once_without_stale_ticks() {
    let mut e = Engine::new(settings(1, 5, 0, 1));
    e.start();
    for _ in 0..10 {
        e.on_second();
    }
    let sub = e.subscribe();
    let n = e.seconds_left;
    assert_eq!(n, 50);
    e.interrupt();
    // The very next phase begins immediately, with no tick published for
    // the interrupted phase.
    assert_eq!(e.phase, Phase::Break);
    assert_eq!(e.seconds_left, 5 * 60);
    assert_eq!(e.recv(sub), None);
    // Every later tick belongs to the new phase: none of the interrupted
    // Focus phase with fewer than n seconds left.
    for _ in 0..20 {
        e.on_second();
    }
    while let Some(t) = e.recv(sub) {
        assert_eq!(t.phase, Phase::Break);
        assert!(!(t.phase == Phase::Focus && t.seconds_left < n));
    }
}

#[test]
fn interrupt_affects_only_the_phase_it_was_raised_in() {
    let mut e = Engine::new(settings(1, 1, 0, 1));
    e.start();
    e.interrupt();
    assert_eq!(e.phase, Phase::Break);
    // The next phase runs its full countdown: the earlier interrupt was
    // consumed and does not cut it short.
    e.on_second();
    assert_eq!(e.phase, Phase::Break);
    assert_eq!(e.seconds_left, 59);
}

#[test]
fn interrupt_when_idle_is_noop() {
    let mut e = Engine::new(settings(1, 1, 0, 1));
    e.interrupt();
    assert_eq!(e.phase, Phase::Idle);
    assert_eq!(e.cycle, 0);
    assert!(!e.running);
}

#[test]
fn mid_phase_subscription_sees_only_later_ticks() {
    let mut e = Engine::new(settings(1, 1, 0, 1));
    e.start();
    for _ in 0..10 {
        e.on_second();
    }
    let v = e.seconds_left;
    assert_eq!(v, 50);
    let sub = e.subscribe();
    // No historical ticks.
    assert_eq!(e.recv(sub), None);
    for _ in 0..5 {
        e.on_second();
    }
    let mut seen: u32 = 0;
    while let Some(t) = e.recv(sub) {
        assert!(t.seconds_left < v);
        seen += 1;
    }
    assert_eq!(seen, 5);
}

#[test]
fn cycle_count_increases_only_at_focus_starts() {
    let mut e = Engine::new(settings(1, 1, 2, 1));
    assert_eq!(e.cycle, 0);
    e.start();
    assert_eq!(e.cycle, 1);
    let mut last_cycle = e.cycle;
    let mut last_phase = e.phase;
    for step in 0..500 {
        if step % 7 == 3 {
            e.interrupt();
        } else {
            e.on_second();
        }
        // Never decremented, interrupts included.
        assert!(e.cycle >= last_cycle);
        // +1 exactly when a Focus phase starts.
        if e.cycle != last_cycle {
            assert_eq!(e.cycle, last_cycle + 1);
            assert_eq!(e.phase, Phase::Focus);
            assert_ne!(last_phase, Phase::Focus);
        }
        last_cycle = e.cycle;
        last_phase = e.phase;
    }
}

#[test]
fn slow_subscriber_loses_only_oldest_ticks() {
    let mut e = Engine::new(settings(2, 1, 0, 1));
    let sub = e.subscribe();
    e.start();
    // 100 ticks published (seconds 119 down to 20), queue keeps the
    // newest 64: 83 down to 20.
    for _ in 0..100 {
        e.on_second();
    }
    assert_eq!(e.pending(sub), TICK_QUEUE_CAP);
    let first = e.recv(sub).unwrap();
    assert_eq!(first.seconds_left, 83);
    let mut expected: u64 = 82;
    while let Some(t) = e.recv(sub) {
        assert_eq!(t.seconds_left, expected);
        expected -= 1;
    }
    assert_eq!(expected, 19);
}

#[test]
fn subscribers_are_independent() {
    let mut e = Engine::new(settings(1, 1, 0, 1));
    let a = e.subscribe();
    let b = e.subscribe();
    e.start();
    e.on_second();
    e.on_second();
    // Draining one queue leaves the other untouched.
    assert_eq!(e.recv(a).unwrap().seconds_left, 59);
    assert_eq!(e.recv(a).unwrap().seconds_left, 58);
    assert_eq!(e.recv(a), None);
    assert_eq!(e.recv(b).unwrap().seconds_left, 59);
    assert_eq!(e.recv(b).unwrap().seconds_left, 58);
    assert_eq!(e.recv(b), None);
}

#[test]
fn update_settings_spares_the_phase_in_progress() {
    let mut e = Engine::new(settings(1, 1, 0, 1));
    e.start();
    for _ in 0..10 {
        e.on_second();
    }
    assert_eq!(e.seconds_left, 50);
    e.update_settings(settings(2, 3, 0, 1));
    // The running phase keeps its original remaining time.
    assert_eq!(e.seconds_left, 50);
    e.on_second();
    assert_eq!(e.seconds_left, 49);
    // Phases not yet started use the new configuration.
    e.interrupt();
    assert_eq!(e.phase, Phase::Break);
    assert_eq!(e.seconds_left, 3 * 60);
}

#[test]
fn recv_with_unknown_handle_is_none() {
    let mut e = Engine::new(settings(1, 1, 0, 1));
    e.start();
    e.on_second();
    assert_eq!(e.recv(7), None);
    assert_eq!(e.pending(7), 0);
}

#[test]
fn start_when_running_is_noop() {
    let mut e = Engine::new(settings(1, 1, 0, 1));
    e.start();
    for _ in 0..10 {
        e.on_second();
    }
    let cycle = e.cycle;
    let left = e.seconds_left;
    e.start();
    assert_eq!(e.cycle, cycle);
    assert_eq!(e.seconds_left, left);
}
