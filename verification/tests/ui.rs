use ulanzi_pomodoro::display::{FrameBuffer, PixelMapping, RgbColor};
use ulanzi_pomodoro::input::{ButtonEvent, ButtonId};
use ulanzi_pomodoro::pomodoro::{Pomodoro, Preset};
use ulanzi_pomodoro::storage::{Settings, Stats};
use ulanzi_pomodoro::ui::menu::MenuState;
use ulanzi_pomodoro::ui::text::{format_mmss, format_u16, TextFont};
use ulanzi_pomodoro::ui::{idle, menu, running, RenderContext, Screen, Ui, UiAction};

fn ctx<'a>(p: &'a Pomodoro, s: &'a Settings, st: &'a Stats, now_ms: u64) -> RenderContext<'a> {
    RenderContext { pomodoro: p, settings: s, stats: st, today: None, time_synced: false, now_ms }
}

#[test]
fn format_mmss_examples() {
    assert_eq!(format_mmss(0, 0), *b"00:00");
    assert_eq!(format_mmss(25, 5), *b"25:05");
    assert_eq!(format_mmss(99, 59), *b"99:59");
}

#[test]
fn format_u16_caps_at_999() {
    assert_eq!(format_u16(0), b"0".to_vec());
    assert_eq!(format_u16(42), b"42".to_vec());
    assert_eq!(format_u16(250), b"250".to_vec());
    assert_eq!(format_u16(5000), b"999".to_vec());
}

#[test]
fn idle_buttons_start_presets_and_open_menu() {
    let p = Pomodoro::with_default_presets();
    let s = Settings::defaults();
    let st = Stats::empty();
    let c = ctx(&p, &s, &st, 0);
    assert_eq!(idle::handle(ButtonEvent::Press(ButtonId::Left), &c), Some(UiAction::StartPreset(0)));
    assert_eq!(idle::handle(ButtonEvent::Press(ButtonId::Select), &c), Some(UiAction::StartPreset(1)));
    assert_eq!(idle::handle(ButtonEvent::Press(ButtonId::Right), &c), Some(UiAction::StartPreset(2)));
    assert_eq!(idle::handle(ButtonEvent::LongPress(ButtonId::Select), &c), Some(UiAction::EnterMenu));
    assert_eq!(idle::handle(ButtonEvent::LongPress(ButtonId::Left), &c), None);
    assert_eq!(idle::handle(ButtonEvent::Repeat(ButtonId::Right), &c), None);
}

#[test]
fn running_buttons_pause_skip_and_stop() {
    let mut p = Pomodoro::new([Preset::new(1, 1), Preset::new(2, 2), Preset::new(3, 3)]);
    let s = Settings::defaults();
    let st = Stats::empty();
    assert_eq!(running::handle(ButtonEvent::Press(ButtonId::Left), &ctx(&p, &s, &st, 0)), None);
    p.start(0, 0);
    let c = ctx(&p, &s, &st, 0);
    assert_eq!(running::handle(ButtonEvent::Press(ButtonId::Right), &c), Some(UiAction::TogglePause));
    assert_eq!(running::handle(ButtonEvent::LongPress(ButtonId::Select), &c), Some(UiAction::StopSession));
    p.tick(60_000);
    let c = ctx(&p, &s, &st, 60_000);
    assert_eq!(running::handle(ButtonEvent::LongPress(ButtonId::Select), &c), Some(UiAction::SkipRest));
    assert_eq!(running::handle(ButtonEvent::LongPress(ButtonId::Left), &c), None);
}

#[test]
fn menu_navigation_and_editing() {
    let p = Pomodoro::with_default_presets();
    let s = Settings::defaults();
    let st = Stats::empty();
    let c = ctx(&p, &s, &st, 0);
    let mut m = MenuState::new();
    assert_eq!(menu::handle(ButtonEvent::Press(ButtonId::Left), &mut m, &c), None);
    assert_eq!(m.item, 6);
    assert_eq!(menu::handle(ButtonEvent::Press(ButtonId::Right), &mut m, &c), None);
    assert_eq!(m.item, 0);
    assert_eq!(menu::handle(ButtonEvent::Press(ButtonId::Select), &mut m, &c), None);
    assert!(m.editing);
    assert_eq!(
        menu::handle(ButtonEvent::Repeat(ButtonId::Right), &mut m, &c),
        Some(UiAction::AdjustBrightness(16))
    );
    m.item = 4;
    assert_eq!(
        menu::handle(ButtonEvent::Press(ButtonId::Left), &mut m, &c),
        Some(UiAction::AdjustRest { preset_idx: 1, delta_min: -5 })
    );
    assert_eq!(menu::handle(ButtonEvent::LongPress(ButtonId::Select), &mut m, &c), Some(UiAction::ExitMenu));
    assert!(!m.editing);
}

#[test]
fn ui_follows_actions_and_state() {
    let mut p = Pomodoro::with_default_presets();
    let s = Settings::defaults();
    let st = Stats::empty();
    let mut ui = Ui::new();
    assert_eq!(ui.screen(), Screen::Idle);
    let a = ui.handle(ButtonEvent::Press(ButtonId::Select), &ctx(&p, &s, &st, 0));
    assert_eq!(a, Some(UiAction::StartPreset(1)));
    assert_eq!(ui.screen(), Screen::Running);
    p.start(1, 0);
    ui.sync_to_state(p.state());
    assert_eq!(ui.screen(), Screen::Running);
    p.stop();
    ui.sync_to_state(p.state());
    assert_eq!(ui.screen(), Screen::Idle);
    let a = ui.handle(ButtonEvent::LongPress(ButtonId::Select), &ctx(&p, &s, &st, 0));
    assert_eq!(a, Some(UiAction::EnterMenu));
    assert_eq!(ui.screen(), Screen::Menu);
    // The menu is never left by a state change.
    p.start(0, 0);
    ui.sync_to_state(p.state());
    assert_eq!(ui.screen(), Screen::Menu);
    let a = ui.handle(ButtonEvent::LongPress(ButtonId::Select), &ctx(&p, &s, &st, 0));
    assert_eq!(a, Some(UiAction::ExitMenu));
    assert_eq!(ui.screen(), Screen::Idle);
}

#[test]
fn idle_render_draws_squares_and_minutes() {
    let p = Pomodoro::with_default_presets();
    let s = Settings::defaults();
    let mut st = Stats::empty();
    st.record_completed_work(20260510, 25);
    st.record_completed_work(20260510, 25);
    let mut fb = FrameBuffer::new(PixelMapping::RowZigZag);
    let texts = Ui::new().render(&mut fb, &ctx(&p, &s, &st, 0));
    assert_eq!(texts.len(), 2);
    assert_eq!(texts[0].text, b"M".to_vec());
    assert_eq!(texts[1].text, b"50".to_vec());
    assert_eq!(texts[1].x, 5);
    assert_eq!(texts[1].color, RgbColor::new(255, 200, 0));
    assert_eq!(texts[1].font, TextFont::Font4x6);
    assert_eq!(fb.pixel(18, 0), Some(RgbColor::new(255, 120, 0)));
    assert_eq!(fb.pixel(19, 1), Some(RgbColor::new(255, 120, 0)));
    assert_eq!(fb.pixel(21, 0), Some(RgbColor::new(255, 200, 0)));
    assert_eq!(fb.pixel(20, 0), Some(RgbColor::new(0, 0, 0)));
    assert_eq!(fb.pixel(24, 0), Some(RgbColor::new(0, 0, 0)));
}

#[test]
fn idle_overflow_square_blinks_white() {
    let p = Pomodoro::with_default_presets();
    let s = Settings::defaults();
    let mut st = Stats::empty();
    for _ in 0..13 {
        st.record_completed_work(20260510, 1);
    }
    let mut fb = FrameBuffer::default();
    idle::render(&mut fb, &ctx(&p, &s, &st, 0));
    assert_eq!(fb.pixel(27, 6), Some(RgbColor::white()));
    let mut fb = FrameBuffer::default();
    idle::render(&mut fb, &ctx(&p, &s, &st, 600));
    assert_eq!(fb.pixel(27, 6), Some(RgbColor::new(220, 80, 180)));
}

#[test]
fn running_render_shows_countdown_and_progress() {
    let mut p = Pomodoro::new([Preset::new(1, 1), Preset::new(2, 2), Preset::new(3, 3)]);
    let s = Settings::defaults();
    let st = Stats::empty();
    p.start(0, 0);
    let mut fb = FrameBuffer::default();
    let texts = running::render(&mut fb, &ctx(&p, &s, &st, 30_500));
    assert_eq!(texts[0].text, b"00:30".to_vec());
    assert_eq!(texts[0].font, TextFont::Font5x8);
    assert_eq!(texts[0].color, RgbColor::new(255, 60, 0));
    assert_eq!(texts[1].text, b"W".to_vec());
    assert_eq!((texts[1].x, texts[1].y), (28, 0));
    // Half of 7 columns is 3 filled columns.
    let bar = RgbColor::new(255, 60, 0).scale(110);
    let track = RgbColor::new(255, 60, 0).scale(25);
    assert_eq!(fb.pixel(27, 7), Some(bar));
    assert_eq!(fb.pixel(28, 6), Some(track));
    assert_eq!(fb.pixel(31, 7), Some(track));
}

#[test]
fn menu_render_shows_label_and_right_aligned_value() {
    let p = Pomodoro::with_default_presets();
    let s = Settings::defaults();
    let st = Stats::empty();
    let mut fb = FrameBuffer::default();
    let m = MenuState { item: 3, editing: true };
    let texts = menu::render(&mut fb, &m, &ctx(&p, &s, &st, 350));
    assert_eq!(texts[0].text, b"P2W".to_vec());
    assert_eq!(texts[1].text, b"50".to_vec());
    assert_eq!(texts[1].x, 23);
    assert_eq!(texts[1].color, RgbColor::new(80, 60, 0));
    assert_eq!(fb.pixel(13, 0), Some(RgbColor::new(255, 200, 0)));
    assert_eq!(fb.pixel(1, 0), Some(RgbColor::new(40, 40, 60)));
    assert_eq!(fb.pixel(2, 0), Some(RgbColor::new(0, 0, 0)));
}
