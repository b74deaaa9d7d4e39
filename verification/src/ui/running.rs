//! Running / paused session screen.
//!
//! Layout (32x8). `cols 0..=24` host the 5x8 `MM:SS` countdown. The top-right
//! 4x6 corner shows a `W` / `R` phase letter, and the 7x2 stripe at the
//! bottom-right is filled left-to-right as the phase progresses.
//!
//! ```text
//!     cols 0..=24            25..=27      28..=31
//!   +---------------------+------------+-----------+
//!   |   M  M  :  S  S    |            |  W or R   |   rows 0..=5
//!   |                    |            |           |
//!   |                    |####progress bar#####   |   rows 6..=7
//!   +---------------------+------------+-----------+
//! ```
//!
//! Colours: red while in `Work`, green while in `Rest`, dimmed and slowly
//! blinking while paused.

use vstd::prelude::*;

use crate::display::{
    lemma_set_pixel_frame, on_matrix, pixel_spec, scale_spec, FrameBuffer, RgbColor,
};
use crate::input::{ButtonEvent, ButtonId};
use crate::pomodoro::state::{state_duration, state_phase, state_remaining, Phase, PomodoroView, State};

use super::idle::span_view;
use super::text::{format_mmss, mmss_spec, TextFont, TextSpan};
use super::{painted, RenderContext, UiAction};

verus! {

/// Horizontal progress bar: columns 25..=31, rows 6..=7.
pub const PROGRESS_X0: usize = 25;

pub const PROGRESS_X1: usize = 32;

pub const PROGRESS_Y0: usize = 6;

pub const PROGRESS_Y1: usize = 8;

pub const PROGRESS_WIDTH: usize = 7;

/// The action a button event asks for on the session screen: any click
/// pauses or resumes a session; a long SELECT skips the rest phase or stops
/// the session.
pub open spec fn running_action(ev: ButtonEvent, s: State) -> Option<UiAction> {
    match ev {
        ButtonEvent::Press(_) => if s is Running || s is Paused {
            Some(UiAction::TogglePause)
        } else {
            None
        },
        ButtonEvent::LongPress(ButtonId::Select) => match state_phase(s) {
            Some(Phase::Rest) => Some(UiAction::SkipRest),
            _ => Some(UiAction::StopSession),
        },
        _ => None,
    }
}

pub fn handle(ev: ButtonEvent, ctx: &RenderContext<'_>) -> (a: Option<UiAction>)
    ensures
        a == running_action(ev, ctx.pomodoro@.state),
{
    match ev {
        ButtonEvent::Press(_) => {
            match ctx.pomodoro.state() {
                State::Running { .. } | State::Paused { .. } => Some(UiAction::TogglePause),
                State::Idle => None,
            }
        },
        ButtonEvent::LongPress(ButtonId::Select) => match ctx.pomodoro.phase() {
            Some(Phase::Rest) => Some(UiAction::SkipRest),
            Some(Phase::Work) | None => Some(UiAction::StopSession),
        },
        _ => None,
    }
}

/// Red while working, green while resting.
pub open spec fn base_color_spec(phase: Phase) -> RgbColor {
    match phase {
        Phase::Work => RgbColor { r: 255, g: 60, b: 0 },
        Phase::Rest => RgbColor { r: 0, g: 200, b: 90 },
    }
}

fn base_color(phase: Phase) -> (c: RgbColor)
    ensures
        c == base_color_spec(phase),
{
    match phase {
        Phase::Work => RgbColor::new(255, 60, 0),
        Phase::Rest => RgbColor::new(0, 200, 90),
    }
}

/// The phase shown (work when idle).
pub open spec fn shown_phase(p: PomodoroView) -> Phase {
    match state_phase(p.state) {
        Some(ph) => ph,
        None => Phase::Work,
    }
}

/// The time left shown (0 when idle).
pub open spec fn shown_remaining(p: PomodoroView, now_ms: u64) -> u32 {
    match state_remaining(p.state, now_ms) {
        Some(r) => r,
        None => 0,
    }
}

/// The phase length the progress bar is measured against.
pub open spec fn shown_duration(p: PomodoroView, now_ms: u64) -> u32 {
    match state_duration(p.state) {
        Some(d) => d,
        None => if shown_remaining(p, now_ms) > 1 {
            shown_remaining(p, now_ms)
        } else {
            1
        },
    }
}

/// Text color: the phase color, dimmed and slowly blinking while paused.
pub open spec fn text_color_spec(p: PomodoroView, now_ms: u64) -> RgbColor {
    let base = base_color_spec(shown_phase(p));
    if p.state is Paused {
        scale_spec(
            base,
            if (now_ms / 600) % 2 == 0 {
                110
            } else {
                35
            },
        )
    } else {
        base
    }
}

/// `MM:SS` of the time left, rounded up to whole seconds, minutes capped
/// at 99.
pub open spec fn countdown_spec(remaining_ms: u32) -> Seq<u8> {
    let total_seconds = remaining_ms / 1000 + if remaining_ms % 1000 != 0 {
        1int
    } else {
        0int
    };
    let mm = ((total_seconds / 60) as u16);
    mmss_spec(if mm < 99 { mm } else { 99 }, (total_seconds % 60) as u8)
}

/// Columns of the progress bar that are filled.
pub open spec fn filled_spec(duration_ms: u32, remaining_ms: u32) -> int {
    if duration_ms == 0 {
        0
    } else {
        let elapsed: int = if duration_ms >= remaining_ms {
            duration_ms - remaining_ms
        } else {
            0
        };
        (elapsed * PROGRESS_WIDTH) / (duration_ms as int)
    }
}

/// The color the progress bar gives pixel `(x, y)`, if it lies on the bar.
pub open spec fn bar_pixel(filled: int, bar: RgbColor, track: RgbColor, x: int, y: int) -> Option<
    RgbColor,
> {
    if PROGRESS_X0 <= x < PROGRESS_X1 && PROGRESS_Y0 <= y < PROGRESS_Y1 {
        Some(
            if x - PROGRESS_X0 < filled {
                bar
            } else {
                track
            },
        )
    } else {
        None
    }
}

/// The texts of the session screen: the countdown in the 5x8 font and the
/// phase letter in the top-right corner.
pub open spec fn running_texts(p: PomodoroView, now_ms: u64) -> Seq<
    (Seq<u8>, i32, i32, RgbColor, TextFont),
> {
    let color = text_color_spec(p, now_ms);
    seq![
        (countdown_spec(shown_remaining(p, now_ms)), 0i32, 0i32, color, TextFont::Font5x8),
        (
            match shown_phase(p) {
                Phase::Work => seq![87u8],
                Phase::Rest => seq![82u8],
            },
            28i32,
            0i32,
            scale_spec(color, 200),
            TextFont::Font4x6,
        ),
    ]
}

/// Draw the session screen's progress bar and return its texts.
pub fn render(fb: &mut FrameBuffer, ctx: &RenderContext<'_>) -> (texts: Vec<TextSpan>)
    ensures
        texts@.map_values(|s: TextSpan| span_view(s)) == running_texts(ctx.pomodoro@, ctx.now_ms),
        painted(
            old(fb)@,
            final(fb)@,
            |x: int, y: int|
                bar_pixel(
                    filled_spec(
                        shown_duration(ctx.pomodoro@, ctx.now_ms),
                        shown_remaining(ctx.pomodoro@, ctx.now_ms),
                    ),
                    scale_spec(base_color_spec(shown_phase(ctx.pomodoro@)), 110),
                    scale_spec(base_color_spec(shown_phase(ctx.pomodoro@)), 25),
                    x,
                    y,
                ),
        ),
{
    let pomodoro = ctx.pomodoro;
    let now_ms = ctx.now_ms;
    let phase = match pomodoro.phase() {
        Some(p) => p,
        None => Phase::Work,
    };
    let remaining_ms = match pomodoro.remaining_ms(now_ms) {
        Some(r) => r,
        None => 0,
    };
    let duration_ms = match pomodoro.duration_ms() {
        Some(d) => d,
        None => if remaining_ms > 1 {
            remaining_ms
        } else {
            1
        },
    };
    let paused = pomodoro.is_paused();

    let base = base_color(phase);
    let text_color = if paused {
        // Slow blink while paused so the inactive state is obvious.
        let on = (now_ms / 600) % 2 == 0;
        base.scale(
            if on {
                110
            } else {
                35
            },
        )
    } else {
        base
    };

    // MM:SS, rounded up so the last second is visible for a full tick.
    let total_seconds = remaining_ms / 1000 + if remaining_ms % 1000 != 0 {
        1
    } else {
        0
    };
    let minutes = (total_seconds / 60) as u16;
    let mm = if minutes < 99 {
        minutes
    } else {
        99
    };
    let ss = (total_seconds % 60) as u8;
    let digits = format_mmss(mm, ss);
    let mut time_text: Vec<u8> = Vec::new();
    let mut k: usize = 0;
    while k < 5
        invariant
            k <= 5,
            time_text@ == digits@.take(k as int),
        decreases 5 - k,
    {
        time_text.push(digits[k]);
        k = k + 1;
        assert(time_text@ =~= digits@.take(k as int));
    }
    assert(digits@.take(5) =~= digits@);

    let mut texts: Vec<TextSpan> = Vec::new();
    texts.push(
        TextSpan { text: time_text, x: 0, y: 0, color: text_color, font: TextFont::Font5x8 },
    );
    // Phase letter in the top-right 4x6 cell.
    let mut letter: Vec<u8> = Vec::new();
    match phase {
        Phase::Work => letter.push(87u8),
        Phase::Rest => letter.push(82u8),
    }
    texts.push(
        TextSpan {
            text: letter,
            x: 28,
            y: 0,
            color: text_color.scale(200),
            font: TextFont::Font4x6,
        },
    );
    assert(texts@.map_values(|s: TextSpan| span_view(s)) =~= running_texts(
        ctx.pomodoro@,
        ctx.now_ms,
    ));

    // Horizontal progress bar: filled left-to-right based on elapsed time.
    let filled: u64 = if duration_ms == 0 {
        0
    } else {
        let elapsed = duration_ms.saturating_sub(remaining_ms) as u64;
        assert(elapsed * 7 <= u32::MAX * 7) by (nonlinear_arith)
            requires
                elapsed <= u32::MAX,
        ;
        (elapsed * PROGRESS_WIDTH as u64) / duration_ms as u64
    };
    assert(filled == filled_spec(duration_ms, remaining_ms));
    let bar_color = base.scale(110);
    let track_color = base.scale(25);
    proof {
        fb.lemma_len();
    }
    let mut i: usize = 0;
    while i < PROGRESS_WIDTH
        invariant
            i <= PROGRESS_WIDTH,
            painted(
                old(fb)@,
                fb@,
                |x: int, y: int|
                    if x < PROGRESS_X0 + i {
                        bar_pixel(filled as int, bar_color, track_color, x, y)
                    } else {
                        None
                    },
            ),
        decreases PROGRESS_WIDTH - i,
    {
        let x = PROGRESS_X0 + i;
        let color = if (i as u64) < filled {
            bar_color
        } else {
            track_color
        };
        let ghost f0 = fb@;
        fb.set_pixel(x, PROGRESS_Y0, color);
        proof {
            lemma_set_pixel_frame(f0, x as int, PROGRESS_Y0 as int, color);
        }
        let ghost f1 = fb@;
        fb.set_pixel(x, PROGRESS_Y0 + 1, color);
        proof {
            lemma_set_pixel_frame(f1, x as int, PROGRESS_Y0 + 1, color);
        }
        i = i + 1;
        proof {
            assert forall|qx: int, qy: int| #![trigger pixel_spec(fb@, qx, qy)]
                on_matrix(qx, qy) implies pixel_spec(fb@, qx, qy) == match (if qx < PROGRESS_X0 + i {
                bar_pixel(filled as int, bar_color, track_color, qx, qy)
            } else {
                None
            }) {
                Some(c) => Some(c),
                None => pixel_spec(old(fb)@, qx, qy),
            } by {}
        }
    }
    texts
}


/// The progress bar fills with elapsed time: no column is filled when a
/// phase has just started, all of them when it is over, the filled part
/// never shrinks as the time left goes down, and it never exceeds the bar.
pub proof fn lemma_progress_fills_with_elapsed_time(duration_ms: u32, r1: u32, r2: u32)
    ensures
        filled_spec(duration_ms, duration_ms) == 0,
        duration_ms > 0 ==> filled_spec(duration_ms, 0) == PROGRESS_WIDTH,
        r1 <= r2 ==> filled_spec(duration_ms, r2) <= filled_spec(duration_ms, r1),
        0 <= filled_spec(duration_ms, r1) <= PROGRESS_WIDTH,
{
    if duration_ms > 0 {
        let d = duration_ms as int;
        let e1: int = if d >= r1 {
            d - r1
        } else {
            0
        };
        let e2: int = if d >= r2 {
            d - r2
        } else {
            0
        };
        assert(0 <= e1 <= d && 0 <= e2 <= d);
        if r1 <= r2 {
            assert((e2 * 7) / d <= (e1 * 7) / d) by (nonlinear_arith)
                requires
                    0 <= e2 <= e1,
                    d > 0,
            ;
        }
        assert(0 <= (e1 * 7) / d <= 7) by (nonlinear_arith)
            requires
                0 <= e1 <= d,
                d > 0,
        ;
        assert((d * 7) / d == 7) by (nonlinear_arith)
            requires
                d > 0,
        ;
    }
}


/// The countdown of a phase of `m` whole minutes (fewer than 99) reads
/// `MM:00` at its start, and any time left under one second still reads
/// `00:01`: the time shown is rounded up, so `00:00` only shows at the end.
pub proof fn lemma_countdown_rounds_up(m: u16, r: u32)
    requires
        m < 99,
        0 < r <= 1000,
    ensures
        countdown_spec((m * 60_000) as u32) == mmss_spec(m, 0),
        countdown_spec(r) == mmss_spec(0, 1),
        countdown_spec(0) == mmss_spec(0, 0),
{
    assert(((m * 60_000) as u32) / 1000 == m * 60 && ((m * 60_000) as u32) % 1000 == 0);
    assert((m * 60) / 60 == m && (m * 60) % 60 == 0);
}

/// The session screen: the phase letter is `R` during rest and `W`
/// otherwise, the phase letter and the countdown share the phase's color,
/// and clicks pause or resume a session while a long SELECT ends it (skips
/// to idle during rest, stops it during work).
pub proof fn lemma_session_screen_names_the_phase(p: PomodoroView, now_ms: u64, b: ButtonId)
    ensures
        running_texts(p, now_ms)[1].0 == if state_phase(p.state) == Some(Phase::Rest) {
            seq![82u8]
        } else {
            seq![87u8]
        },
        !(p.state is Paused) ==> running_texts(p, now_ms)[0].3 == base_color_spec(
            shown_phase(p),
        ),
        running_action(ButtonEvent::Press(b), p.state) == if p.state is Idle {
            None
        } else {
            Some(UiAction::TogglePause)
        },
        p.state is Running || p.state is Paused ==> running_action(
            ButtonEvent::LongPress(ButtonId::Select),
            p.state,
        ) == if state_phase(p.state) == Some(Phase::Rest) {
            Some(UiAction::SkipRest)
        } else {
            Some(UiAction::StopSession)
        },
{
}

} // verus!
