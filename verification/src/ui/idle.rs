//! Idle screen — what the clock shows when no Pomodoro is running.
//!
//! Layout (32x8):
//!
//! ```text
//!     cols 0..=3    5..=16       18..=31
//!   +------------+------------+----------------+
//!   |     M      | minutes    | completed work |
//!   | (FONT_4X6) | today      | segment squares|
//!   +------------+------------+----------------+
//! ```
//!
//! The segment grid fits twelve completed work intervals. If today has more
//! completions than fit, the last square blinks white to indicate overflow.
//!
//! Buttons:
//!   * Press LEFT / SELECT / RIGHT → start the corresponding preset.
//!   * Long-press SELECT          → open the settings menu.

use vstd::prelude::*;

use crate::display::{FrameBuffer, RgbColor};
use crate::input::{ButtonEvent, ButtonId};
use crate::storage::stats::{current_spec, today_spec, DayStats};

use super::text::{decimal_spec, format_u16, TextFont, TextSpan};
use super::{fill_square, in_square, painted, RenderContext, UiAction};

verus! {

pub const MINUTES_X: i32 = 5;

pub const SEGMENT_X0: usize = 18;

pub const SEGMENT_Y0: usize = 0;

pub const SEGMENT_COLS: usize = 4;

pub const SEGMENT_ROWS: usize = 3;

pub const SEGMENT_SIZE: usize = 2;

pub const SEGMENT_STRIDE: usize = 3;

pub const MAX_SEGMENT_SQUARES: usize = 12;

/// The action a button event asks for on the idle screen.
pub open spec fn idle_action(ev: ButtonEvent) -> Option<UiAction> {
    match ev {
        ButtonEvent::Press(ButtonId::Left) => Some(UiAction::StartPreset(0)),
        ButtonEvent::Press(ButtonId::Select) => Some(UiAction::StartPreset(1)),
        ButtonEvent::Press(ButtonId::Right) => Some(UiAction::StartPreset(2)),
        ButtonEvent::LongPress(ButtonId::Select) => Some(UiAction::EnterMenu),
        _ => None,
    }
}

pub fn handle(ev: ButtonEvent, _ctx: &RenderContext<'_>) -> (a: Option<UiAction>)
    ensures
        a == idle_action(ev),
{
    match ev {
        ButtonEvent::Press(ButtonId::Left) => Some(UiAction::StartPreset(0)),
        ButtonEvent::Press(ButtonId::Select) => Some(UiAction::StartPreset(1)),
        ButtonEvent::Press(ButtonId::Right) => Some(UiAction::StartPreset(2)),
        ButtonEvent::LongPress(ButtonId::Select) => Some(UiAction::EnterMenu),
        _ => None,
    }
}

/// Color of segment square `i` from a repeating six-color palette.
pub open spec fn palette(i: int) -> RgbColor {
    let k = i % 6;
    if k == 0 {
        RgbColor { r: 255, g: 120, b: 0 }
    } else if k == 1 {
        RgbColor { r: 255, g: 200, b: 0 }
    } else if k == 2 {
        RgbColor { r: 80, g: 220, b: 80 }
    } else if k == 3 {
        RgbColor { r: 0, g: 180, b: 220 }
    } else if k == 4 {
        RgbColor { r: 120, g: 120, b: 255 }
    } else {
        RgbColor { r: 220, g: 80, b: 180 }
    }
}

/// Color of square `i` for `completed` completions at `now_ms`: the last
/// square blinks white (600 ms on, 600 ms off) when there are more
/// completions than squares.
pub open spec fn square_color(i: int, completed: u16, now_ms: u64) -> RgbColor {
    if completed > MAX_SEGMENT_SQUARES && i + 1 == MAX_SEGMENT_SQUARES && (now_ms / 600) % 2
        == 0 {
        RgbColor { r: 255, g: 255, b: 255 }
    } else {
        palette(i)
    }
}

/// Top-left corner of square `i`: four per row, three pixels apart.
pub open spec fn square_x0(i: int) -> int {
    SEGMENT_X0 + (i % 4) * 3
}

pub open spec fn square_y0(i: int) -> int {
    SEGMENT_Y0 + (i / 4) * 3
}

/// The color the first `n` segment squares give pixel `(x, y)`, if it lies
/// in one of them.
pub open spec fn segment_pixel_upto(n: int, completed: u16, now_ms: u64, x: int, y: int) -> Option<
    RgbColor,
> {
    if SEGMENT_X0 <= x < SEGMENT_X0 + 12 && 0 <= y < 8 && (x - SEGMENT_X0) % 3 < 2 && y % 3 < 2
        && (y / 3) * 4 + (x - SEGMENT_X0) / 3 < n {
        Some(square_color((y / 3) * 4 + (x - SEGMENT_X0) / 3, completed, now_ms))
    } else {
        None
    }
}

/// Number of squares lit for `completed` completions.
pub open spec fn visible_squares(completed: u16) -> int {
    if completed > MAX_SEGMENT_SQUARES {
        MAX_SEGMENT_SQUARES as int
    } else {
        completed as int
    }
}

/// The color the segment grid gives pixel `(x, y)`, if any.
pub open spec fn segment_pixel(completed: u16, now_ms: u64, x: int, y: int) -> Option<RgbColor> {
    segment_pixel_upto(visible_squares(completed), completed, now_ms, x, y)
}

fn segment_color(i: usize) -> (c: RgbColor)
    ensures
        c == palette(i as int),
{
    let k = i % 6;
    if k == 0 {
        RgbColor::new(255, 120, 0)
    } else if k == 1 {
        RgbColor::new(255, 200, 0)
    } else if k == 2 {
        RgbColor::new(80, 220, 80)
    } else if k == 3 {
        RgbColor::new(0, 180, 220)
    } else if k == 4 {
        RgbColor::new(120, 120, 255)
    } else {
        RgbColor::new(220, 80, 180)
    }
}

/// Light one 2x2 square per completed work interval (at most twelve).
pub fn draw_segment_squares(fb: &mut FrameBuffer, completed: u16, now_ms: u64)
    ensures
        painted(
            old(fb)@,
            final(fb)@,
            |x: int, y: int| segment_pixel(completed, now_ms, x, y),
        ),
{
    proof {
        fb.lemma_len();
    }
    let visible: usize = if completed as usize > MAX_SEGMENT_SQUARES {
        MAX_SEGMENT_SQUARES
    } else {
        completed as usize
    };
    let overflow = completed as usize > MAX_SEGMENT_SQUARES;
    let overflow_on = (now_ms / 600) % 2 == 0;
    let mut i: usize = 0;
    while i < visible
        invariant
            visible == visible_squares(completed),
            overflow == (completed > MAX_SEGMENT_SQUARES),
            overflow_on == ((now_ms / 600) % 2 == 0),
            i <= visible,
            painted(
                old(fb)@,
                fb@,
                |x: int, y: int| segment_pixel_upto(i as int, completed, now_ms, x, y),
            ),
        decreases visible - i,
    {
        let col = i % SEGMENT_COLS;
        let row = i / SEGMENT_COLS;
        let x0 = SEGMENT_X0 + col * SEGMENT_STRIDE;
        let y0 = SEGMENT_Y0 + row * SEGMENT_STRIDE;
        let color = if overflow && i + 1 == MAX_SEGMENT_SQUARES && overflow_on {
            RgbColor::white()
        } else {
            segment_color(i)
        };
        assert(color == square_color(i as int, completed, now_ms));
        let ghost before = fb@;
        fill_square(fb, x0, y0, color);
        proof {
            assert forall|x: int, y: int| #![trigger crate::display::pixel_spec(fb@, x, y)]
                crate::display::on_matrix(x, y) implies crate::display::pixel_spec(fb@, x, y)
                == match segment_pixel_upto(i + 1, completed, now_ms, x, y) {
                Some(c) => Some(c),
                None => crate::display::pixel_spec(old(fb)@, x, y),
            } by {
                if in_square(x0 as int, y0 as int, x, y) {
                    assert((y / 3) * 4 + (x - SEGMENT_X0) / 3 == i);
                } else {
                    assert(segment_pixel_upto(i + 1, completed, now_ms, x, y)
                        == segment_pixel_upto(i as int, completed, now_ms, x, y));
                }
            }
        }
        i = i + 1;
    }
}

/// The stats the idle screen shows: today's entry when the date is known,
/// else the most recent one.
pub open spec fn shown_day(ctx: RenderContext) -> DayStats {
    match ctx.today {
        Some(t) => today_spec(ctx.stats@, t),
        None => current_spec(ctx.stats@),
    }
}

/// The texts of the idle screen: an "M" label and today's focus minutes
/// (amber when there are any, grey otherwise).
pub open spec fn idle_texts(day: DayStats) -> Seq<(Seq<u8>, i32, i32, RgbColor, TextFont)> {
    seq![
        (seq![77u8], 0i32, 1i32, RgbColor { r: 160, g: 160, b: 160 }, TextFont::Font4x6),
        (
            decimal_spec(day.focus_minutes),
            MINUTES_X,
            1i32,
            if day.focus_minutes > 0 {
                RgbColor { r: 255, g: 200, b: 0 }
            } else {
                RgbColor { r: 100, g: 100, b: 100 }
            },
            TextFont::Font4x6,
        ),
    ]
}

/// A text span as plain values.
pub open spec fn span_view(s: TextSpan) -> (Seq<u8>, i32, i32, RgbColor, TextFont) {
    (s.text@, s.x, s.y, s.color, s.font)
}

/// Draw the idle screen's segment squares and return its texts.
pub fn render(fb: &mut FrameBuffer, ctx: &RenderContext<'_>) -> (texts: Vec<TextSpan>)
    ensures
        texts@.map_values(|s: TextSpan| span_view(s)) == idle_texts(shown_day(*ctx)),
        painted(
            old(fb)@,
            final(fb)@,
            |x: int, y: int| segment_pixel(shown_day(*ctx).completed_pomodoros, ctx.now_ms, x, y),
        ),
{
    let today_stats = match ctx.today {
        Some(t) => ctx.stats.today(t),
        None => ctx.stats.current(),
    };
    let today_minutes = today_stats.focus_minutes;

    // "M" = productive minutes today.
    let mut label: Vec<u8> = Vec::new();
    label.push(77u8);
    let mut texts: Vec<TextSpan> = Vec::new();
    texts.push(
        TextSpan {
            text: label,
            x: 0,
            y: 1,
            color: RgbColor::new(160, 160, 160),
            font: TextFont::Font4x6,
        },
    );
    let count_color = if today_minutes > 0 {
        RgbColor::new(255, 200, 0)
    } else {
        RgbColor::new(100, 100, 100)
    };
    texts.push(
        TextSpan {
            text: format_u16(today_minutes),
            x: MINUTES_X,
            y: 1,
            color: count_color,
            font: TextFont::Font4x6,
        },
    );
    assert(texts@.map_values(|s: TextSpan| span_view(s)) =~= idle_texts(shown_day(*ctx)));

    draw_segment_squares(fb, today_stats.completed_pomodoros, ctx.now_ms);
    texts
}


/// With a known date the idle screen shows that date's entry: when the
/// newest recorded day is another date, it shows 0 minutes in grey and no
/// lit square; when the newest day is that date, it shows that day.
pub proof fn lemma_idle_shows_the_known_date(ctx: RenderContext, t: u32, now_ms: u64, x: int, y: int)
    requires
        ctx.today == Some(t),
    ensures
        current_spec(ctx.stats@).date_yyyymmdd != t ==> {
            &&& shown_day(ctx).completed_pomodoros == 0
            &&& shown_day(ctx).focus_minutes == 0
            &&& idle_texts(shown_day(ctx))[1].0 == seq![48u8]
            &&& idle_texts(shown_day(ctx))[1].3 == (RgbColor { r: 100, g: 100, b: 100 })
            &&& segment_pixel(shown_day(ctx).completed_pomodoros, now_ms, x, y) is None
        },
        current_spec(ctx.stats@).date_yyyymmdd == t && t != 0 ==> shown_day(ctx) == current_spec(
            ctx.stats@,
        ),
        t != 0 && !ctx.stats@.empty ==> shown_day(ctx).date_yyyymmdd == t,
{
}


/// On the idle screen a click of LEFT, SELECT or RIGHT starts preset 1, 2
/// or 3 (index 0, 1, 2), a long SELECT opens the menu, and nothing else
/// asks for anything.
pub proof fn lemma_idle_buttons_start_their_presets(ev: ButtonEvent)
    ensures
        idle_action(ButtonEvent::Press(ButtonId::Left)) == Some(UiAction::StartPreset(0)),
        idle_action(ButtonEvent::Press(ButtonId::Select)) == Some(UiAction::StartPreset(1)),
        idle_action(ButtonEvent::Press(ButtonId::Right)) == Some(UiAction::StartPreset(2)),
        idle_action(ButtonEvent::LongPress(ButtonId::Select)) == Some(UiAction::EnterMenu),
        idle_action(ev) is Some ==> (ev is Press || ev == ButtonEvent::LongPress(ButtonId::Select)),
{
}

/// The idle screen shows the day's focus minutes in amber when there are
/// any, and lights one square per completed Pomodoro, at most twelve.
pub proof fn lemma_idle_minutes_and_squares(day: DayStats, now_ms: u64, i: int)
    requires
        0 <= i < MAX_SEGMENT_SQUARES,
    ensures
        idle_texts(day)[1].0 == decimal_spec(day.focus_minutes),
        day.focus_minutes > 0 ==> idle_texts(day)[1].3 == (RgbColor { r: 255, g: 200, b: 0 }),
        (segment_pixel(day.completed_pomodoros, now_ms, square_x0(i), square_y0(i)) is Some)
            <==> i < day.completed_pomodoros,
{
    assert((square_x0(i) - SEGMENT_X0) % 3 == 0 && (square_x0(i) - SEGMENT_X0) / 3 == i % 4);
    assert(square_y0(i) % 3 == 0 && square_y0(i) / 3 == i / 4);
}

} // verus!
