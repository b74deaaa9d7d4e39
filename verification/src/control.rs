//! The firmware's decisions between button events, the Pomodoro state
//! machine, the settings and the statistics: what an action changes, when
//! something must be saved, and the small computations of the boot and
//! frame loop. The firmware performs the I/O these decisions call for.

use vstd::prelude::*;

use crate::display::{
    black, lemma_set_pixel_frame, on_matrix, pixel_spec, set_pixel_spec, solid, FrameBuffer,
    FrameView, RgbColor, MATRIX_LED_COUNT,
};
use crate::pomodoro::presets::{Preset, MAX_MINUTES, MIN_MINUTES};
use crate::pomodoro::state::{
    ms_of_minutes, state_phase, toggled, Phase, Pomodoro, PomodoroView, State,
};
use crate::storage::settings::Settings;
use crate::storage::stats::{best_effort_date, recorded, Stats};
use crate::ui::idle::span_view;
use crate::ui::text::{TextFont, TextSpan};
use crate::ui::{painted, UiAction};

verus! {

/// Lowest LED brightness the menu can set.
pub const MIN_BRIGHTNESS: u8 = 8;

/// Brightness of the boot splash before the settings are read.
pub const SPLASH_INITIAL_BRIGHTNESS: u8 = 64;

/// How long LEFT must be held at boot to wipe the stored data.
pub const FACTORY_RESET_HOLD_MS: u32 = 1_500;

/// Time budget of the one NTP fetch at boot.
pub const NTP_BUDGET_MS: u64 = 10_000;

/// Period of the display loop.
pub const FRAME_PERIOD_MS: u64 = 33;

/// How often the last observed wall-clock time is saved.
pub const LAST_SEEN_SAVE_PERIOD_MS: u64 = 300_000;

/// `v` clamped into `lo..=hi` (checked against `lo` first).
pub open spec fn clamp_spec(v: int, lo: int, hi: int) -> int {
    if v < lo {
        lo
    } else if v > hi {
        hi
    } else {
        v
    }
}

pub fn clamp_i16(v: i16, lo: i16, hi: i16) -> (r: i16)
    ensures
        r == clamp_spec(v as int, lo as int, hi as int),
{
    if v < lo {
        lo
    } else if v > hi {
        hi
    } else {
        v
    }
}

/// Side effects the firmware carries out after an action.
#[derive(Clone, Copy, Debug, PartialEq, Eq)]
pub struct Effects {
    /// Play the click sound.
    pub click: bool,
    /// Persist the settings now.
    pub save_settings: bool,
    /// Apply this brightness to the display.
    pub brightness: Option<u8>,
}

/// The arithmetic of `apply_action` stays within `i16`.
pub open spec fn action_fits(action: UiAction, settings: Settings) -> bool {
    match action {
        UiAction::AdjustBrightness(delta) => i16::MIN <= settings.brightness + delta <= i16::MAX,
        UiAction::AdjustWork { preset_idx, delta_min } => preset_idx < 3 ==> i16::MIN
            <= (settings.presets[preset_idx as int].work_min as i16) + delta_min <= i16::MAX,
        UiAction::AdjustRest { preset_idx, delta_min } => preset_idx < 3 ==> i16::MIN
            <= (settings.presets[preset_idx as int].rest_min as i16) + delta_min <= i16::MAX,
        _ => true,
    }
}

/// Whether `apply_action` can be asked to apply `action` to `settings`: its
/// arithmetic stays within `i16`.
pub fn check_action_fits(action: UiAction, settings: &Settings) -> (ok: bool)
    ensures
        ok == action_fits(action, *settings),
{
    match action {
        UiAction::AdjustBrightness(delta) => (settings.brightness as i16).checked_add(delta).is_some(),
        UiAction::AdjustWork { preset_idx, delta_min } => {
            if preset_idx < 3 {
                (settings.presets[preset_idx as usize].work_min as i16).checked_add(delta_min).is_some()
            } else {
                true
            }
        },
        UiAction::AdjustRest { preset_idx, delta_min } => {
            if preset_idx < 3 {
                (settings.presets[preset_idx as usize].rest_min as i16).checked_add(delta_min).is_some()
            } else {
                true
            }
        },
        _ => true,
    }
}

/// A preset length after adding `delta` minutes, kept within
/// `MIN_MINUTES..=MAX_MINUTES`.
pub open spec fn adjusted_minutes(current: u16, delta: i16) -> u16 {
    clamp_spec((current as i16) + delta, MIN_MINUTES as int, MAX_MINUTES as int) as u16
}

/// The brightness after adding `delta`, kept within `MIN_BRIGHTNESS..=255`.
pub open spec fn adjusted_brightness(current: u8, delta: i16) -> u8 {
    clamp_spec(current + delta, MIN_BRIGHTNESS as int, 255) as u8
}

/// Apply a UI action: drive the Pomodoro state machine, edit the settings
/// (and the presets the state machine runs with), and say what to do next.
pub fn apply_action(
    action: UiAction,
    now_ms: u64,
    pomodoro: &mut Pomodoro,
    settings: &mut Settings,
    settings_dirty: &mut bool,
) -> (fx: Effects)
    requires
        action_fits(action, *old(settings)),
    ensures
        match action {
            UiAction::StartPreset(idx) => {
                let accepted = old(pomodoro)@.state is Idle && idx < 3;
                &&& fx == Effects { click: accepted, save_settings: false, brightness: None }
                &&& final(pomodoro)@.presets == old(pomodoro)@.presets
                &&& final(pomodoro)@.pending == old(pomodoro)@.pending
                &&& accepted ==> final(pomodoro)@.state == (State::Running {
                    preset_idx: idx,
                    phase: Phase::Work,
                    started_ms: now_ms,
                    duration_ms: ms_of_minutes(old(pomodoro)@.presets[idx as int].work_min),
                })
                &&& !accepted ==> final(pomodoro)@.state == old(pomodoro)@.state
                &&& *final(settings) == *old(settings)
                &&& *final(settings_dirty) == *old(settings_dirty)
            },
            UiAction::TogglePause => {
                &&& fx == Effects { click: true, save_settings: false, brightness: None }
                &&& final(pomodoro)@ == PomodoroView {
                    state: toggled(old(pomodoro)@.state, now_ms),
                    ..old(pomodoro)@
                }
                &&& *final(settings) == *old(settings)
                &&& *final(settings_dirty) == *old(settings_dirty)
            },
            UiAction::StopSession => {
                &&& fx == Effects { click: true, save_settings: false, brightness: None }
                &&& final(pomodoro)@ == PomodoroView {
                    state: State::Idle,
                    pending: None,
                    ..old(pomodoro)@
                }
                &&& *final(settings) == *old(settings)
                &&& *final(settings_dirty) == *old(settings_dirty)
            },
            UiAction::SkipRest => {
                &&& fx == Effects { click: true, save_settings: false, brightness: None }
                &&& final(pomodoro)@.presets == old(pomodoro)@.presets
                &&& match state_phase(old(pomodoro)@.state) {
                    Some(Phase::Rest) => final(pomodoro)@.state == State::Idle
                        && final(pomodoro)@.pending == old(pomodoro)@.pending,
                    Some(Phase::Work) => final(pomodoro)@.state == State::Idle
                        && final(pomodoro)@.pending is None,
                    None => final(pomodoro)@ == old(pomodoro)@,
                }
                &&& *final(settings) == *old(settings)
                &&& *final(settings_dirty) == *old(settings_dirty)
            },
            UiAction::EnterMenu => {
                &&& fx == Effects { click: true, save_settings: false, brightness: None }
                &&& final(pomodoro)@ == old(pomodoro)@
                &&& *final(settings) == *old(settings)
                &&& *final(settings_dirty) == *old(settings_dirty)
            },
            UiAction::ExitMenu => {
                &&& fx == Effects {
                    click: true,
                    save_settings: *old(settings_dirty),
                    brightness: None,
                }
                &&& final(pomodoro)@ == old(pomodoro)@
                &&& *final(settings) == *old(settings)
                &&& *final(settings_dirty) == *old(settings_dirty)
            },
            UiAction::AdjustBrightness(delta) => {
                let b = adjusted_brightness(old(settings).brightness, delta);
                let changed = b != old(settings).brightness;
                &&& fx == Effects {
                    click: false,
                    save_settings: false,
                    brightness: if changed {
                        Some(b)
                    } else {
                        None
                    },
                }
                &&& *final(settings) == Settings { brightness: b, ..*old(settings) }
                &&& *final(settings_dirty) == (*old(settings_dirty) || changed)
                &&& final(pomodoro)@ == old(pomodoro)@
            },
            UiAction::AdjustWork { preset_idx, delta_min } => {
                &&& fx == Effects { click: false, save_settings: false, brightness: None }
                &&& if preset_idx < 3 {
                    let cur = old(settings).presets[preset_idx as int];
                    let new = adjusted_minutes(cur.work_min, delta_min);
                    if new != cur.work_min {
                        &&& final(settings).presets@ == old(settings).presets@.update(
                            preset_idx as int,
                            Preset { work_min: new, ..cur },
                        )
                        &&& final(settings).brightness == old(settings).brightness
                        &&& final(settings).tz_offset_min == old(settings).tz_offset_min
                        &&& final(settings).last_seen_unix == old(settings).last_seen_unix
                        &&& *final(settings_dirty)
                        &&& final(pomodoro)@.presets@ == old(pomodoro)@.presets@.update(
                            preset_idx as int,
                            Preset {
                                work_min: new,
                                ..old(pomodoro)@.presets[preset_idx as int]
                            },
                        )
                        &&& final(pomodoro)@.state == old(pomodoro)@.state
                        &&& final(pomodoro)@.pending == old(pomodoro)@.pending
                    } else {
                        &&& *final(settings) == *old(settings)
                        &&& *final(settings_dirty) == *old(settings_dirty)
                        &&& final(pomodoro)@ == old(pomodoro)@
                    }
                } else {
                    &&& *final(settings) == *old(settings)
                    &&& *final(settings_dirty) == *old(settings_dirty)
                    &&& final(pomodoro)@ == old(pomodoro)@
                }
            },
            UiAction::AdjustRest { preset_idx, delta_min } => {
                &&& fx == Effects { click: false, save_settings: false, brightness: None }
                &&& if preset_idx < 3 {
                    let cur = old(settings).presets[preset_idx as int];
                    let new = adjusted_minutes(cur.rest_min, delta_min);
                    if new != cur.rest_min {
                        &&& final(settings).presets@ == old(settings).presets@.update(
                            preset_idx as int,
                            Preset { rest_min: new, ..cur },
                        )
                        &&& final(settings).brightness == old(settings).brightness
                        &&& final(settings).tz_offset_min == old(settings).tz_offset_min
                        &&& final(settings).last_seen_unix == old(settings).last_seen_unix
                        &&& *final(settings_dirty)
                        &&& final(pomodoro)@.presets@ == old(pomodoro)@.presets@.update(
                            preset_idx as int,
                            Preset {
                                rest_min: new,
                                ..old(pomodoro)@.presets[preset_idx as int]
                            },
                        )
                        &&& final(pomodoro)@.state == old(pomodoro)@.state
                        &&& final(pomodoro)@.pending == old(pomodoro)@.pending
                    } else {
                        &&& *final(settings) == *old(settings)
                        &&& *final(settings_dirty) == *old(settings_dirty)
                        &&& final(pomodoro)@ == old(pomodoro)@
                    }
                } else {
                    &&& *final(settings) == *old(settings)
                    &&& *final(settings_dirty) == *old(settings_dirty)
                    &&& final(pomodoro)@ == old(pomodoro)@
                }
            },
        },
{
    let quiet = Effects { click: false, save_settings: false, brightness: None };
    let click = Effects { click: true, save_settings: false, brightness: None };
    match action {
        UiAction::StartPreset(idx) => {
            if pomodoro.start(idx, now_ms) {
                click
            } else {
                quiet
            }
        },
        UiAction::TogglePause => {
            pomodoro.toggle_pause(now_ms);
            click
        },
        UiAction::StopSession => {
            pomodoro.stop();
            click
        },
        UiAction::SkipRest => {
            pomodoro.skip(now_ms);
            click
        },
        UiAction::EnterMenu => click,
        UiAction::ExitMenu => Effects { click: true, save_settings: *settings_dirty, brightness: None },
        UiAction::AdjustBrightness(delta) => {
            let new_b = clamp_i16(settings.brightness as i16 + delta, MIN_BRIGHTNESS as i16, 255) as u8;
            if new_b != settings.brightness {
                settings.brightness = new_b;
                *settings_dirty = true;
                Effects { click: false, save_settings: false, brightness: Some(new_b) }
            } else {
                quiet
            }
        },
        UiAction::AdjustWork { preset_idx, delta_min } => {
            if preset_idx < 3 {
                let idx = preset_idx as usize;
                let cur = settings.presets[idx];
                let new = clamp_i16(
                    cur.work_min as i16 + delta_min,
                    MIN_MINUTES as i16,
                    MAX_MINUTES as i16,
                ) as u16;
                if new != cur.work_min {
                    settings.presets[idx] = Preset { work_min: new, rest_min: cur.rest_min };
                    *settings_dirty = true;
                    pomodoro.set_work_min(idx, new);
                }
            }
            quiet
        },
        UiAction::AdjustRest { preset_idx, delta_min } => {
            if preset_idx < 3 {
                let idx = preset_idx as usize;
                let cur = settings.presets[idx];
                let new = clamp_i16(
                    cur.rest_min as i16 + delta_min,
                    MIN_MINUTES as i16,
                    MAX_MINUTES as i16,
                ) as u16;
                if new != cur.rest_min {
                    settings.presets[idx] = Preset { work_min: cur.work_min, rest_min: new };
                    *settings_dirty = true;
                    pomodoro.set_rest_min(idx, new);
                }
            }
            quiet
        },
    }
}

/// After a finished work phase: credit the pending work to the best day
/// known (`today`, or the current statistics slot without a clock). Returns
/// whether the statistics changed and must be saved.
pub fn credit_completed_work(
    pomodoro: &mut Pomodoro,
    stats: &mut Stats,
    today: Option<u32>,
) -> (changed: bool)
    ensures
        final(pomodoro)@ == (PomodoroView { pending: None, ..old(pomodoro)@ }),
        (match old(pomodoro)@.pending {
            Some(w) => {
                &&& changed == (final(stats)@ != old(stats)@)
                &&& final(stats)@ == recorded(
                    old(stats)@,
                    best_effort_date(old(stats)@, today),
                    w.minutes,
                )
            },
            None => !changed && final(stats)@ == old(stats)@,
        }),
{
    match pomodoro.take_completed_work() {
        Some(completed) => stats.record_completed_work_best_effort(today, completed.minutes),
        None => false,
    }
}

/// Remember a newer observed wall-clock time. Returns whether the settings
/// changed and must be saved.
pub fn stamp_last_seen(settings: &mut Settings, now_unix: Option<i64>) -> (changed: bool)
    ensures
        changed == (now_unix matches Some(u) && u > old(settings).last_seen_unix),
        *final(settings) == if changed {
            Settings { last_seen_unix: now_unix.unwrap(), ..*old(settings) }
        } else {
            *old(settings)
        },
{
    match now_unix {
        Some(unix) => {
            if unix > settings.last_seen_unix {
                settings.last_seen_unix = unix;
                true
            } else {
                false
            }
        },
        None => false,
    }
}

/// Adopt a time fetched from NTP as the last observed time. Returns whether
/// the settings changed and must be saved.
pub fn adopt_ntp_time(settings: &mut Settings, unix: i64) -> (changed: bool)
    ensures
        changed == (unix != old(settings).last_seen_unix),
        *final(settings) == (Settings { last_seen_unix: unix, ..*old(settings) }),
{
    if unix != settings.last_seen_unix {
        settings.last_seen_unix = unix;
        true
    } else {
        false
    }
}

/// Brightness of step `step` (of 12) of the boot fade-in towards `target`,
/// never below `MIN_BRIGHTNESS`.
pub fn boot_fade_brightness(step: u8, target: u8) -> (b: u8)
    requires
        step <= 12,
    ensures
        b == if (step * target / 12) as u8 > MIN_BRIGHTNESS {
            (step * target / 12) as u8
        } else {
            MIN_BRIGHTNESS
        },
{
    assert(step * target <= 12 * 255) by (nonlinear_arith)
        requires
            step <= 12,
            target <= 255,
    ;
    let b = ((step as u32) * (target as u32) / 12) as u8;
    if b > MIN_BRIGHTNESS {
        b
    } else {
        MIN_BRIGHTNESS
    }
}

/// Height in rows of the red bar shown while LEFT is held at boot, after
/// `progress_ms` of holding.
pub fn factory_reset_bar_height(progress_ms: u32) -> (h: usize)
    requires
        progress_ms * 8 <= u32::MAX,
    ensures
        h == if progress_ms * 8 / (FACTORY_RESET_HOLD_MS as int) < 8 {
            progress_ms * 8 / (FACTORY_RESET_HOLD_MS as int)
        } else {
            8
        },
{
    let h = progress_ms * 8 / FACTORY_RESET_HOLD_MS;
    if h < 8 {
        h as usize
    } else {
        8
    }
}

/// Draw the boot splash: a clear frame with a row of dots under the
/// "POMO" title, which is returned as text.
pub fn draw_boot_splash(fb: &mut FrameBuffer) -> (texts: Vec<TextSpan>)
    ensures
        texts@.map_values(|s: TextSpan| span_view(s)) == seq![
            (seq![80u8, 79u8, 77u8, 79u8], 2i32, 0i32, RgbColor { r: 200, g: 80, b: 0 }, TextFont::Font4x6),
        ],
        painted(
            FrameView { pixels: solid(MATRIX_LED_COUNT as nat, black()), mapping: old(fb)@.mapping },
            final(fb)@,
            |x: int, y: int|
                if y == 5 && 19 <= x <= 23 {
                    Some(RgbColor { r: 80, g: 80, b: 120 })
                } else {
                    None
                },
        ),
{
    fb.clear();
    proof {
        fb.lemma_len();
    }
    let ghost cleared = fb@;
    let dot = RgbColor::new(80, 80, 120);
    let mut x: usize = 19;
    while x <= 23
        invariant
            19 <= x <= 24,
            dot == (RgbColor { r: 80, g: 80, b: 120 }),
            painted(
                cleared,
                fb@,
                |qx: int, qy: int|
                    if qy == 5 && 19 <= qx < x {
                        Some(RgbColor { r: 80, g: 80, b: 120 })
                    } else {
                        None
                    },
            ),
        decreases 24 - x,
    {
        let ghost f0 = fb@;
        fb.set_pixel(x, 5, dot);
        proof {
            lemma_set_pixel_frame(f0, x as int, 5, dot);
        }
        x = x + 1;
        proof {
            assert forall|qx: int, qy: int| #![trigger pixel_spec(fb@, qx, qy)]
                on_matrix(qx, qy) implies pixel_spec(fb@, qx, qy) == match (if qy == 5 && 19 <= qx
                < x {
                Some(RgbColor { r: 80, g: 80, b: 120 })
            } else {
                None
            }) {
                Some(c) => Some(c),
                None => pixel_spec(cleared, qx, qy),
            } by {}
        }
    }
    let mut title: Vec<u8> = Vec::new();
    title.push(80u8);
    title.push(79u8);
    title.push(77u8);
    title.push(79u8);
    assert(title@ =~= seq![80u8, 79u8, 77u8, 79u8]);
    let mut texts: Vec<TextSpan> = Vec::new();
    texts.push(
        TextSpan {
            text: title,
            x: 2,
            y: 0,
            color: RgbColor::new(200, 80, 0),
            font: TextFont::Font4x6,
        },
    );
    assert(texts@.map_values(|s: TextSpan| span_view(s)) =~= seq![
        (seq![80u8, 79u8, 77u8, 79u8], 2i32, 0i32, RgbColor { r: 200, g: 80, b: 0 }, TextFont::Font4x6),
    ]);
    texts
}

/// Mark "clock anchored to NTP" with a green dot in the top-right corner.
pub fn draw_sync_dot(fb: &mut FrameBuffer)
    ensures
        final(fb)@ == set_pixel_spec(old(fb)@, 31, 0, RgbColor { r: 0, g: 120, b: 80 }),
{
    fb.set_pixel(31, 0, RgbColor::new(0, 120, 80));
}

/// When the next frame is due after the one due at `next_frame_ms`, and
/// how long to wait for it at `now_ms` (a frame that is already late
/// restarts the schedule from now).
pub fn schedule_next_frame(next_frame_ms: u64, now_ms: u64) -> (r: (u64, u64))
    ensures
        ({
            let due = if next_frame_ms + FRAME_PERIOD_MS > u64::MAX {
                u64::MAX as int
            } else {
                next_frame_ms + FRAME_PERIOD_MS
            };
            if due > now_ms {
                r == (due as u64, (due - now_ms) as u64)
            } else {
                r == (now_ms, 0u64)
            }
        }),
{
    let due = next_frame_ms.saturating_add(FRAME_PERIOD_MS);
    if due > now_ms {
        (due, due - now_ms)
    } else {
        (now_ms, 0)
    }
}

/// Menu edits keep the settings in range: brightness in
/// `MIN_BRIGHTNESS..=255`, preset lengths in `MIN_MINUTES..=MAX_MINUTES`.
pub proof fn lemma_adjustments_stay_in_range(b: u8, minutes: u16, delta: i16)
    requires
        i16::MIN <= b + delta <= i16::MAX,
        i16::MIN <= (minutes as i16) + delta <= i16::MAX,
    ensures
        MIN_BRIGHTNESS <= adjusted_brightness(b, delta) <= 255,
        MIN_MINUTES <= adjusted_minutes(minutes, delta) <= MAX_MINUTES,
{
}

} // verus!
