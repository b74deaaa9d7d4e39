use ulanzi_pomodoro::input::{ButtonChannel, Buttons, ButtonEvent, ButtonId};

#[test]
fn click_is_reported_on_release() {
    let mut ch = ButtonChannel::new(ButtonId::Left);
    assert_eq!(ch.poll(true, 1_000), None);
    // Not yet debounced.
    assert_eq!(ch.poll(true, 1_010), None);
    assert_eq!(ch.poll(true, 1_020), None);
    assert!(ch.stable_pressed);
    assert_eq!(ch.poll(false, 1_100), None);
    assert_eq!(ch.poll(false, 1_120), Some(ButtonEvent::Press(ButtonId::Left)));
    assert!(!ch.stable_pressed);
}

#[test]
fn bounce_shorter_than_window_is_ignored() {
    let mut ch = ButtonChannel::new(ButtonId::Right);
    assert_eq!(ch.poll(true, 1_000), None);
    assert_eq!(ch.poll(false, 1_005), None);
    assert_eq!(ch.poll(false, 1_100), None);
    assert!(!ch.stable_pressed);
}

#[test]
fn long_press_then_repeats_and_no_click() {
    let mut ch = ButtonChannel::new(ButtonId::Select);
    ch.poll(true, 1_000);
    ch.poll(true, 1_020);
    assert_eq!(ch.poll(true, 1_500), None);
    assert_eq!(ch.poll(true, 1_720), Some(ButtonEvent::LongPress(ButtonId::Select)));
    assert_eq!(ch.poll(true, 1_800), None);
    assert_eq!(ch.poll(true, 1_870), Some(ButtonEvent::Repeat(ButtonId::Select)));
    assert_eq!(ch.poll(true, 2_020), Some(ButtonEvent::Repeat(ButtonId::Select)));
    ch.poll(false, 2_100);
    assert_eq!(ch.poll(false, 2_120), None);
}

#[test]
fn channels_report_in_button_order() {
    let mut b = Buttons::new();
    let mut out = Vec::new();
    b.poll([true, false, true], 0, &mut out);
    b.poll([true, false, true], 20, &mut out);
    b.poll([false, false, false], 40, &mut out);
    b.poll([false, false, false], 60, &mut out);
    assert_eq!(out, vec![ButtonEvent::Press(ButtonId::Left), ButtonEvent::Press(ButtonId::Right)]);
}

#[test]
fn hold_of_exactly_long_press_threshold_is_one_press() {
    let mut ch = ButtonChannel::new(ButtonId::Select);
    let mut out = Vec::new();
    for (now, raw) in [(0u64, true), (20, true), (700, false), (720, false)] {
        if let Some(e) = ch.poll(raw, now) {
            out.push(e);
        }
    }
    assert_eq!(out, vec![ButtonEvent::Press(ButtonId::Select)]);
}

#[test]
fn long_hold_seen_only_at_release_is_one_long_press() {
    let mut ch = ButtonChannel::new(ButtonId::Right);
    let mut out = Vec::new();
    for (now, raw) in [(0u64, true), (20, true), (710, false), (900, false), (1_000, false)] {
        if let Some(e) = ch.poll(raw, now) {
            out.push(e);
        }
    }
    assert_eq!(out, vec![ButtonEvent::LongPress(ButtonId::Right)]);
}
