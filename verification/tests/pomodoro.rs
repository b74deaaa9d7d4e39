use ulanzi_pomodoro::pomodoro::presets::default_presets;
use ulanzi_pomodoro::pomodoro::{Phase, PhaseTransition, Pomodoro, Preset, State};

#[test]
fn full_cycle() {
    let mut p = Pomodoro::new([Preset::new(1, 1), Preset::new(2, 2), Preset::new(3, 3)]);
    let start = 0u64;
    assert!(p.start(0, start));
    // Half-way through work: nothing happens.
    assert!(p.tick(30_000).is_none());
    // Work boundary triggers transition + credit.
    assert_eq!(p.tick(60_000), Some(PhaseTransition::WorkFinished));
    let credit = p.take_completed_work().unwrap();
    assert_eq!(credit.minutes, 1);
    assert_eq!(p.phase(), Some(Phase::Rest));
    // End of rest goes idle.
    assert_eq!(p.tick(120_000), Some(PhaseTransition::RestFinished));
    assert!(matches!(p.state(), State::Idle));
}

#[test]
fn pause_resume_preserves_remaining() {
    let mut p = Pomodoro::new(default_presets());
    p.start(0, 0);
    p.toggle_pause(10_000);
    assert!(matches!(p.state(), State::Paused { .. }));
    // 20 seconds pass while paused.
    p.toggle_pause(30_000);
    // Remaining should still be 25min - 10s = 24:50.
    let remaining = p.remaining_ms(30_000).unwrap();
    assert_eq!(remaining, 25 * 60_000 - 10_000);
}

#[test]
fn abort_does_not_credit_stats() {
    let mut p = Pomodoro::new(default_presets());
    p.start(0, 0);
    p.stop();
    assert!(p.take_completed_work().is_none());
    assert!(matches!(p.state(), State::Idle));
}

#[test]
fn start_rejected_when_busy_or_bad_index() {
    let mut p = Pomodoro::with_default_presets();
    assert!(!p.start(3, 0));
    assert_eq!(p.state(), State::Idle);
    assert!(p.start(2, 5));
    assert_eq!(
        p.state(),
        State::Running { preset_idx: 2, phase: Phase::Work, started_ms: 5, duration_ms: 90 * 60_000 }
    );
    assert!(!p.start(0, 10));
    assert_eq!(p.duration_ms(), Some(90 * 60_000));
}

#[test]
fn tick_overshoot_shortens_rest_start() {
    let mut p = Pomodoro::new([Preset::new(1, 2), Preset::new(2, 2), Preset::new(3, 3)]);
    p.start(0, 1_000);
    // Tick arrives 5 s late.
    assert_eq!(p.tick(66_000), Some(PhaseTransition::WorkFinished));
    assert_eq!(
        p.state(),
        State::Running { preset_idx: 0, phase: Phase::Rest, started_ms: 61_000, duration_ms: 120_000 }
    );
    assert_eq!(p.remaining_ms(66_000), Some(115_000));
}

#[test]
fn skip_rest_keeps_credit_and_skip_work_drops_it() {
    let mut p = Pomodoro::new([Preset::new(1, 1), Preset::new(2, 2), Preset::new(3, 3)]);
    p.start(0, 0);
    assert_eq!(p.skip(10), None);
    assert_eq!(p.state(), State::Idle);
    assert!(p.take_completed_work().is_none());

    p.start(0, 0);
    p.tick(60_000);
    assert_eq!(p.skip(61_000), Some(PhaseTransition::RestFinished));
    assert_eq!(p.state(), State::Idle);
    assert_eq!(p.take_completed_work().map(|w| w.minutes), Some(1));
    assert_eq!(p.skip(70_000), None);
}

#[test]
fn paused_phase_does_not_advance() {
    let mut p = Pomodoro::new([Preset::new(1, 1), Preset::new(2, 2), Preset::new(3, 3)]);
    p.start(0, 0);
    p.toggle_pause(20_000);
    assert!(p.is_paused());
    assert_eq!(p.tick(500_000), None);
    assert_eq!(p.remaining_ms(500_000), Some(40_000));
    assert_eq!(p.remaining_ms(900_000), Some(40_000));
    p.toggle_pause(500_000);
    assert!(!p.is_paused());
    assert_eq!(p.remaining_ms(500_000), Some(40_000));
}

#[test]
fn idle_answers_nothing() {
    let mut p = Pomodoro::with_default_presets();
    assert_eq!(p.remaining_ms(0), None);
    assert_eq!(p.duration_ms(), None);
    assert_eq!(p.phase(), None);
    assert_eq!(p.tick(1_000_000), None);
    p.toggle_pause(5);
    assert_eq!(p.state(), State::Idle);
}

#[test]
fn presets_can_be_edited() {
    let mut p = Pomodoro::with_default_presets();
    p.presets_mut()[1].work_min = 7;
    assert_eq!(p.presets()[1], Preset::new(7, 10));
    p.set_rest_min(2, 9);
    p.set_work_min(0, 3);
    assert_eq!(p.presets()[2], Preset::new(90, 9));
    assert_eq!(p.presets()[0], Preset::new(3, 5));
    assert!(p.start(0, 0));
    assert_eq!(p.duration_ms(), Some(3 * 60_000));
}
