use ulanzi_pomodoro::control::{
    adopt_ntp_time, apply_action, boot_fade_brightness, clamp_i16, credit_completed_work,
    draw_boot_splash, draw_sync_dot, factory_reset_bar_height, schedule_next_frame,
    stamp_last_seen, Effects,
};
use ulanzi_pomodoro::display::{FrameBuffer, RgbColor};
use ulanzi_pomodoro::pomodoro::{PhaseTransition, Pomodoro, Preset, State};
use ulanzi_pomodoro::storage::{Settings, Stats};
use ulanzi_pomodoro::ui::UiAction;

#[test]
fn clamp_examples() {
    assert_eq!(clamp_i16(5, 1, 240), 5);
    assert_eq!(clamp_i16(-4, 1, 240), 1);
    assert_eq!(clamp_i16(245, 1, 240), 240);
}

#[test]
fn start_click_only_when_accepted() {
    let mut p = Pomodoro::with_default_presets();
    let mut s = Settings::defaults();
    let mut dirty = false;
    let fx = apply_action(UiAction::StartPreset(0), 0, &mut p, &mut s, &mut dirty);
    assert_eq!(fx, Effects { click: true, save_settings: false, brightness: None });
    let fx = apply_action(UiAction::StartPreset(1), 5, &mut p, &mut s, &mut dirty);
    assert!(!fx.click);
    let fx = apply_action(UiAction::TogglePause, 10, &mut p, &mut s, &mut dirty);
    assert!(fx.click);
    assert!(p.is_paused());
    apply_action(UiAction::StopSession, 10, &mut p, &mut s, &mut dirty);
    assert_eq!(p.state(), State::Idle);
}

#[test]
fn menu_edits_mark_settings_dirty_and_save_on_exit() {
    let mut p = Pomodoro::with_default_presets();
    let mut s = Settings::defaults();
    let mut dirty = false;
    let fx = apply_action(UiAction::AdjustBrightness(-64), 0, &mut p, &mut s, &mut dirty);
    assert_eq!(s.brightness, 8);
    assert_eq!(fx.brightness, Some(8));
    assert!(dirty);
    let fx = apply_action(UiAction::AdjustBrightness(-16), 0, &mut p, &mut s, &mut dirty);
    assert_eq!(fx.brightness, None);
    apply_action(UiAction::AdjustWork { preset_idx: 2, delta_min: 200 }, 0, &mut p, &mut s, &mut dirty);
    assert_eq!(s.presets[2], Preset::new(240, 20));
    assert_eq!(p.presets()[2], Preset::new(240, 20));
    apply_action(UiAction::AdjustRest { preset_idx: 0, delta_min: -5 }, 0, &mut p, &mut s, &mut dirty);
    assert_eq!(s.presets[0], Preset::new(25, 1));
    apply_action(UiAction::AdjustRest { preset_idx: 5, delta_min: -5 }, 0, &mut p, &mut s, &mut dirty);
    let fx = apply_action(UiAction::ExitMenu, 0, &mut p, &mut s, &mut dirty);
    assert!(fx.save_settings);
    let mut clean = false;
    let fx = apply_action(UiAction::ExitMenu, 0, &mut p, &mut s, &mut clean);
    assert!(!fx.save_settings);
}

#[test]
fn finished_work_is_credited_once() {
    let mut p = Pomodoro::new([Preset::new(1, 1), Preset::new(2, 2), Preset::new(3, 3)]);
    let mut st = Stats::empty();
    p.start(0, 0);
    assert_eq!(p.tick(60_000), Some(PhaseTransition::WorkFinished));
    assert!(credit_completed_work(&mut p, &mut st, Some(20260510)));
    assert!(!credit_completed_work(&mut p, &mut st, Some(20260510)));
    assert_eq!(st.today(20260510).focus_minutes, 1);
    assert_eq!(st.today(20260510).completed_pomodoros, 1);
}

#[test]
fn last_seen_only_moves_forward() {
    let mut s = Settings::defaults();
    assert!(stamp_last_seen(&mut s, Some(100)));
    assert_eq!(s.last_seen_unix, 100);
    assert!(!stamp_last_seen(&mut s, Some(90)));
    assert!(!stamp_last_seen(&mut s, None));
    assert_eq!(s.last_seen_unix, 100);
    assert!(adopt_ntp_time(&mut s, 90));
    assert_eq!(s.last_seen_unix, 90);
    assert!(!adopt_ntp_time(&mut s, 90));
}

#[test]
fn boot_and_frame_helpers() {
    assert_eq!(boot_fade_brightness(1, 64), 8);
    assert_eq!(boot_fade_brightness(6, 64), 32);
    assert_eq!(boot_fade_brightness(12, 200), 200);
    assert_eq!(factory_reset_bar_height(0), 0);
    assert_eq!(factory_reset_bar_height(750), 4);
    assert_eq!(factory_reset_bar_height(3000), 8);
    assert_eq!(schedule_next_frame(100, 110), (133, 23));
    assert_eq!(schedule_next_frame(100, 200), (200, 0));
    let mut fb = FrameBuffer::default();
    draw_sync_dot(&mut fb);
    assert_eq!(fb.pixel(31, 0), Some(RgbColor::new(0, 120, 80)));
    let texts = draw_boot_splash(&mut fb);
    assert_eq!(texts[0].text, b"POMO".to_vec());
    assert_eq!(fb.pixel(31, 0), Some(RgbColor::black()));
    assert_eq!(fb.pixel(19, 5), Some(RgbColor::new(80, 80, 120)));
    assert_eq!(fb.pixel(24, 5), Some(RgbColor::black()));
}
