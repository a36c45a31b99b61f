use rune_pause::stopwatch::TimerState;
use rune_pause::stopwatch::get_status;
use rune_pause::stopwatch::pause_timer;
use rune_pause::stopwatch::resume_timer;
use rune_pause::stopwatch::start_timer;
use rune_pause::stopwatch::stop_timer;

fn fresh() -> TimerState {
    TimerState {
        duration: None,
        start_time: None,
        is_running: false,
        is_paused: false,
        paused_time: 0,
        elapsed_ms: 0,
    }
}

#[test]
fn start_resets_and_runs() {
    let mut st = fresh();
    start_timer(&mut st, 1_000, 25 * 60 * 1_000);
    assert_eq!(st.duration, Some(25 * 60 * 1_000));
    assert_eq!(st.start_time, Some(1_000));
    assert!(st.is_running);
    assert!(!st.is_paused);
    assert_eq!(st.paused_time, 0);
    assert_eq!(st.elapsed_ms, 0);
    // Starting again replaces any prior state unconditionally.
    start_timer(&mut st, 9_000, 5_000);
    assert_eq!(st.duration, Some(5_000));
    assert_eq!(st.start_time, Some(9_000));
    assert_eq!(st.paused_time, 0);
}

#[test]
fn elapsed_accounts_only_running_time() {
    let mut st = fresh();
    start_timer(&mut st, 1_000, 60_000);
    // 2 s of running time, then pause.
    pause_timer(&mut st, 3_000);
    assert_eq!(st.paused_time, 2_000);
    // Paused wall time does not count.
    let snap = get_status(&mut st, 10_000);
    assert_eq!(snap.elapsed_ms, 2_000);
    resume_timer(&mut st, 10_000);
    // 1.5 s more of running time.
    let snap = get_status(&mut st, 11_500);
    assert_eq!(snap.elapsed_ms, 3_500);
    pause_timer(&mut st, 12_000);
    assert_eq!(st.paused_time, 4_000);
}

#[test]
fn repeated_status_polls_never_double_count() {
    let mut st = fresh();
    start_timer(&mut st, 0, 60_000);
    for _ in 0..10 {
        let snap = get_status(&mut st, 5_000);
        assert_eq!(snap.elapsed_ms, 5_000);
    }
    let snap = get_status(&mut st, 7_000);
    assert_eq!(snap.elapsed_ms, 7_000);
    pause_timer(&mut st, 8_000);
    for _ in 0..10 {
        let snap = get_status(&mut st, 20_000);
        assert_eq!(snap.elapsed_ms, 8_000);
    }
}

#[test]
fn pause_when_paused_and_resume_when_running_are_noops() {
    let mut st = fresh();
    start_timer(&mut st, 0, 60_000);
    // Resume while running and not paused: no-op.
    let before = st;
    resume_timer(&mut st, 2_000);
    assert_eq!(st, before);
    pause_timer(&mut st, 3_000);
    let paused = st;
    // Pause while already paused: no-op, even with a later clock.
    pause_timer(&mut st, 9_000);
    assert_eq!(st, paused);
    // Neither call changed the elapsed computation.
    let snap = get_status(&mut st, 50_000);
    assert_eq!(snap.elapsed_ms, 3_000);
}

#[test]
fn pause_resume_on_idle_stopwatch_are_noops() {
    let mut st = fresh();
    let before = st;
    pause_timer(&mut st, 1_000);
    assert_eq!(st, before);
    resume_timer(&mut st, 1_000);
    assert_eq!(st, before);
}

#[test]
fn stop_resets_to_default() {
    let mut st = fresh();
    start_timer(&mut st, 0, 60_000);
    pause_timer(&mut st, 2_500);
    stop_timer(&mut st);
    assert_eq!(st, fresh());
    let snap = get_status(&mut st, 99_000);
    assert_eq!(snap.elapsed_ms, 0);
}

#[test]
fn status_freezes_while_paused_and_resumes_cleanly() {
    let mut st = fresh();
    start_timer(&mut st, 100, 60_000);
    pause_timer(&mut st, 400);
    resume_timer(&mut st, 1_000);
    pause_timer(&mut st, 1_200);
    resume_timer(&mut st, 5_000);
    let snap = get_status(&mut st, 5_500);
    // 300 + 200 + 500 ms of running time over three segments.
    assert_eq!(snap.elapsed_ms, 1_000);
}
