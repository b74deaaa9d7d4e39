//! Settings menu, reached by long-pressing SELECT in the Idle screen.
//!
//! Seven items, one per scroll position:
//!
//! | idx | label | range          | step |
//! |-----|-------|----------------|------|
//! |  0  | BRT   | 8..=255        | 16   |
//! |  1  | P1W   | 1..=240 min    | 5    |
//! |  2  | P1R   | 1..=240 min    | 5    |
//! |  3  | P2W   | 1..=240 min    | 5    |
//! |  4  | P2R   | 1..=240 min    | 5    |
//! |  5  | P3W   | 1..=240 min    | 5    |
//! |  6  | P3R   | 1..=240 min    | 5    |
//!
//! Buttons:
//!   * **Not editing:**
//!     - Press LEFT / RIGHT — move to previous / next item
//!     - Press SELECT — enter edit mode for the current item
//!     - Long-press SELECT — exit menu and save settings
//!   * **Editing:**
//!     - Press / Repeat LEFT — decrement
//!     - Press / Repeat RIGHT — increment
//!     - Press SELECT — leave edit mode (stays in menu)
//!     - Long-press SELECT — exit menu and save settings

use vstd::prelude::*;

use crate::display::{lemma_set_pixel_frame, on_matrix, pixel_spec, FrameBuffer, RgbColor};
use crate::input::{ButtonEvent, ButtonId};
use crate::pomodoro::presets::ADJUST_STEP_MIN;
use crate::storage::settings::Settings;

use super::idle::span_view;
use super::text::{decimal_spec, format_u16, TextFont, TextSpan};
use super::{painted, RenderContext, UiAction};

verus! {

pub const ITEM_COUNT: u8 = 7;

pub const BRIGHTNESS_STEP: i16 = 16;

#[derive(Clone, Copy, Debug, PartialEq, Eq)]
pub struct MenuState {
    pub item: u8,
    pub editing: bool,
}

impl MenuState {
    pub fn new() -> (s: Self)
        ensures
            s == (MenuState { item: 0, editing: false }),
    {
        Self { item: 0, editing: false }
    }
}

impl Default for MenuState {
    fn default() -> (s: Self)
        ensures
            s == (MenuState { item: 0, editing: false }),
    {
        Self::new()
    }
}

/// `-1`, `0` or `1`, the sign of `v`.
pub open spec fn signum_spec(v: i16) -> i16 {
    if v > 0 {
        1i16
    } else if v < 0 {
        -1i16
    } else {
        0i16
    }
}

/// The adjustment an edit step of sign `sign` on menu item `item` asks for.
pub open spec fn adjustment_spec(item: u8, sign: i16) -> Option<UiAction> {
    let step = (signum_spec(sign) * ADJUST_STEP_MIN) as i16;
    if item == 0 {
        Some(UiAction::AdjustBrightness((signum_spec(sign) * BRIGHTNESS_STEP) as i16))
    } else if item == 1 {
        Some(UiAction::AdjustWork { preset_idx: 0, delta_min: step })
    } else if item == 2 {
        Some(UiAction::AdjustRest { preset_idx: 0, delta_min: step })
    } else if item == 3 {
        Some(UiAction::AdjustWork { preset_idx: 1, delta_min: step })
    } else if item == 4 {
        Some(UiAction::AdjustRest { preset_idx: 1, delta_min: step })
    } else if item == 5 {
        Some(UiAction::AdjustWork { preset_idx: 2, delta_min: step })
    } else if item == 6 {
        Some(UiAction::AdjustRest { preset_idx: 2, delta_min: step })
    } else {
        None
    }
}

fn adjustment(item: u8, sign: i16) -> (a: Option<UiAction>)
    ensures
        a == adjustment_spec(item, sign),
{
    let signum: i16 = if sign > 0 {
        1
    } else if sign < 0 {
        -1
    } else {
        0
    };
    let step = signum * ADJUST_STEP_MIN as i16;
    match item {
        0 => Some(UiAction::AdjustBrightness(signum * BRIGHTNESS_STEP)),
        1 => Some(UiAction::AdjustWork { preset_idx: 0, delta_min: step }),
        2 => Some(UiAction::AdjustRest { preset_idx: 0, delta_min: step }),
        3 => Some(UiAction::AdjustWork { preset_idx: 1, delta_min: step }),
        4 => Some(UiAction::AdjustRest { preset_idx: 1, delta_min: step }),
        5 => Some(UiAction::AdjustWork { preset_idx: 2, delta_min: step }),
        6 => Some(UiAction::AdjustRest { preset_idx: 2, delta_min: step }),
        _ => None,
    }
}

/// The item arithmetic of `handle` stays within `u8`.
pub open spec fn menu_step_fits(ev: ButtonEvent, s: MenuState) -> bool {
    !s.editing ==> match ev {
        ButtonEvent::Press(ButtonId::Left) => s.item + ITEM_COUNT <= u8::MAX,
        ButtonEvent::Press(ButtonId::Right) => s.item + 1 <= u8::MAX,
        _ => true,
    }
}

/// The menu state and the action after button event `ev`.
pub open spec fn menu_step(ev: ButtonEvent, s: MenuState) -> (MenuState, Option<UiAction>) {
    if !s.editing {
        match ev {
            ButtonEvent::Press(ButtonId::Left) => (
                MenuState { item: ((s.item + ITEM_COUNT - 1) % (ITEM_COUNT as int)) as u8, ..s },
                None,
            ),
            ButtonEvent::Press(ButtonId::Right) => (
                MenuState { item: ((s.item + 1) % (ITEM_COUNT as int)) as u8, ..s },
                None,
            ),
            ButtonEvent::Press(ButtonId::Select) => (MenuState { editing: true, ..s }, None),
            ButtonEvent::LongPress(ButtonId::Select) => (s, Some(UiAction::ExitMenu)),
            _ => (s, None),
        }
    } else {
        match ev {
            ButtonEvent::Press(ButtonId::Left) => (s, adjustment_spec(s.item, -1i16)),
            ButtonEvent::Repeat(ButtonId::Left) => (s, adjustment_spec(s.item, -1i16)),
            ButtonEvent::Press(ButtonId::Right) => (s, adjustment_spec(s.item, 1i16)),
            ButtonEvent::Repeat(ButtonId::Right) => (s, adjustment_spec(s.item, 1i16)),
            ButtonEvent::Press(ButtonId::Select) => (MenuState { editing: false, ..s }, None),
            ButtonEvent::LongPress(ButtonId::Select) => (
                MenuState { editing: false, ..s },
                Some(UiAction::ExitMenu),
            ),
            _ => (s, None),
        }
    }
}

pub fn handle(ev: ButtonEvent, state: &mut MenuState, _ctx: &RenderContext<'_>) -> (a: Option<
    UiAction,
>)
    requires
        menu_step_fits(ev, *old(state)),
    ensures
        (*final(state), a) == menu_step(ev, *old(state)),
{
    if !state.editing {
        match ev {
            ButtonEvent::Press(ButtonId::Left) => {
                state.item = (state.item + ITEM_COUNT - 1) % ITEM_COUNT;
                None
            },
            ButtonEvent::Press(ButtonId::Right) => {
                state.item = (state.item + 1) % ITEM_COUNT;
                None
            },
            ButtonEvent::Press(ButtonId::Select) => {
                state.editing = true;
                None
            },
            ButtonEvent::LongPress(ButtonId::Select) => Some(UiAction::ExitMenu),
            _ => None,
        }
    } else {
        match ev {
            ButtonEvent::Press(ButtonId::Left) | ButtonEvent::Repeat(ButtonId::Left) => {
                adjustment(state.item, -1)
            },
            ButtonEvent::Press(ButtonId::Right) | ButtonEvent::Repeat(ButtonId::Right) => {
                adjustment(state.item, 1)
            },
            ButtonEvent::Press(ButtonId::Select) => {
                state.editing = false;
                None
            },
            ButtonEvent::LongPress(ButtonId::Select) => {
                state.editing = false;
                Some(UiAction::ExitMenu)
            },
            _ => None,
        }
    }
}

/// Label and value of menu item `item`.
pub open spec fn item_value(item: u8, s: Settings) -> (Seq<u8>, u16) {
    if item == 0 {
        (seq![66u8, 82u8, 84u8], s.brightness as u16)
    } else if item == 1 {
        (seq![80u8, 49u8, 87u8], s.presets[0].work_min)
    } else if item == 2 {
        (seq![80u8, 49u8, 82u8], s.presets[0].rest_min)
    } else if item == 3 {
        (seq![80u8, 50u8, 87u8], s.presets[1].work_min)
    } else if item == 4 {
        (seq![80u8, 50u8, 82u8], s.presets[1].rest_min)
    } else if item == 5 {
        (seq![80u8, 51u8, 87u8], s.presets[2].work_min)
    } else if item == 6 {
        (seq![80u8, 51u8, 82u8], s.presets[2].rest_min)
    } else {
        (seq![63u8, 63u8, 63u8], 0)
    }
}

fn label3(a: u8, b: u8, c: u8) -> (v: Vec<u8>)
    ensures
        v@ == seq![a, b, c],
{
    let mut v: Vec<u8> = Vec::new();
    v.push(a);
    v.push(b);
    v.push(c);
    assert(v@ =~= seq![a, b, c]);
    v
}

fn current_value(item: u8, ctx: &RenderContext<'_>) -> (r: (Vec<u8>, u16))
    ensures
        (r.0@, r.1) == item_value(item, *ctx.settings),
{
    match item {
        0 => (label3(66, 82, 84), ctx.settings.brightness as u16),
        1 => (label3(80, 49, 87), ctx.settings.presets[0].work_min),
        2 => (label3(80, 49, 82), ctx.settings.presets[0].rest_min),
        3 => (label3(80, 50, 87), ctx.settings.presets[1].work_min),
        4 => (label3(80, 50, 82), ctx.settings.presets[1].rest_min),
        5 => (label3(80, 51, 87), ctx.settings.presets[2].work_min),
        6 => (label3(80, 51, 82), ctx.settings.presets[2].rest_min),
        _ => (label3(63, 63, 63), 0),
    }
}

/// The color the cursor row gives pixel `(x, y)`: one dot per item on the
/// top row, the current one bright.
pub open spec fn dot_pixel(item: u8, x: int, y: int) -> Option<RgbColor> {
    if y == 0 && 0 <= x && x % 4 == 1 && x / 4 < ITEM_COUNT {
        Some(
            if x / 4 == item {
                RgbColor { r: 255, g: 200, b: 0 }
            } else {
                RgbColor { r: 40, g: 40, b: 60 }
            },
        )
    } else {
        None
    }
}

/// The texts of the menu: the item label on the left, its value
/// right-aligned, dimmed every other 350 ms while editing.
pub open spec fn menu_texts(state: MenuState, s: Settings, now_ms: u64) -> Seq<
    (Seq<u8>, i32, i32, RgbColor, TextFont),
> {
    let (label, value) = item_value(state.item, s);
    let text = decimal_spec(value);
    seq![
        (label, 0i32, 2i32, RgbColor { r: 180, g: 180, b: 180 }, TextFont::Font4x6),
        (
            text,
            (31 - 4 * text.len()) as i32,
            2i32,
            if state.editing && (now_ms / 350) % 2 != 0 {
                RgbColor { r: 80, g: 60, b: 0 }
            } else {
                RgbColor { r: 255, g: 200, b: 0 }
            },
            TextFont::Font4x6,
        ),
    ]
}

/// Draw the menu's cursor dots and return its texts.
pub fn render(fb: &mut FrameBuffer, state: &MenuState, ctx: &RenderContext<'_>) -> (texts: Vec<
    TextSpan,
>)
    ensures
        texts@.map_values(|s: TextSpan| span_view(s)) == menu_texts(
            *state,
            *ctx.settings,
            ctx.now_ms,
        ),
        painted(old(fb)@, final(fb)@, |x: int, y: int| dot_pixel(state.item, x, y)),
{
    // Top row dots: one per item, current item is bright. Helps the user
    // count where they are without having to keep scrolling.
    proof {
        fb.lemma_len();
    }
    let mut i: usize = 0;
    while i < ITEM_COUNT as usize
        invariant
            i <= ITEM_COUNT,
            painted(
                old(fb)@,
                fb@,
                |x: int, y: int|
                    if x < 4 * i {
                        dot_pixel(state.item, x, y)
                    } else {
                        None
                    },
            ),
        decreases ITEM_COUNT - i,
    {
        let x = i * 4 + 1;
        let color = if i == state.item as usize {
            RgbColor::new(255, 200, 0)
        } else {
            RgbColor::new(40, 40, 60)
        };
        let ghost f0 = fb@;
        fb.set_pixel(x, 0, color);
        proof {
            lemma_set_pixel_frame(f0, x as int, 0, color);
        }
        i = i + 1;
        proof {
            assert forall|qx: int, qy: int| #![trigger pixel_spec(fb@, qx, qy)]
                on_matrix(qx, qy) implies pixel_spec(fb@, qx, qy) == match (if qx < 4 * i {
                dot_pixel(state.item, qx, qy)
            } else {
                None
            }) {
                Some(c) => Some(c),
                None => pixel_spec(old(fb)@, qx, qy),
            } by {}
        }
    }

    // Label + value on the bottom 6 rows.
    let (label, value) = current_value(state.item, ctx);
    let mut texts: Vec<TextSpan> = Vec::new();
    texts.push(
        TextSpan {
            text: label,
            x: 0,
            y: 2,
            color: RgbColor::new(180, 180, 180),
            font: TextFont::Font4x6,
        },
    );
    let blink_on = (ctx.now_ms / 350) % 2 == 0;
    let value_color = if state.editing && !blink_on {
        RgbColor::new(80, 60, 0)
    } else {
        RgbColor::new(255, 200, 0)
    };
    let value_text = format_u16(value);
    // Value is right-aligned to keep the layout stable as digits drop off.
    let value_x = 31i32 - 4 * value_text.len() as i32;
    texts.push(
        TextSpan { text: value_text, x: value_x, y: 2, color: value_color, font: TextFont::Font4x6 },
    );
    assert(texts@.map_values(|s: TextSpan| span_view(s)) =~= menu_texts(
        *state,
        *ctx.settings,
        ctx.now_ms,
    ));
    texts
}


/// A SELECT click toggles edit mode and asks for nothing: it leaves
/// navigation for editing the current item, and editing for navigation, on
/// the same item; two clicks give the state back.
pub proof fn lemma_select_toggles_editing(s: MenuState)
    ensures
        menu_step(ButtonEvent::Press(ButtonId::Select), s).1 is None,
        menu_step(ButtonEvent::Press(ButtonId::Select), s).0.editing == !s.editing,
        menu_step(ButtonEvent::Press(ButtonId::Select), s).0.item == s.item,
        menu_step(
            ButtonEvent::Press(ButtonId::Select),
            menu_step(ButtonEvent::Press(ButtonId::Select), s).0,
        ).0 == s,
{
}


/// Navigating the menu: RIGHT moves to the next item and LEFT to the
/// previous one, wrapping around the seven items; neither enters editing or
/// asks for anything, and RIGHT then LEFT comes back to the same item.
pub proof fn lemma_navigation_moves_between_items(s: MenuState)
    requires
        !s.editing,
        s.item < ITEM_COUNT,
    ensures
        ({
            let r = menu_step(ButtonEvent::Press(ButtonId::Right), s);
            let l = menu_step(ButtonEvent::Press(ButtonId::Left), s);
            &&& r.1 is None && l.1 is None
            &&& !r.0.editing && !l.0.editing
            &&& r.0.item < ITEM_COUNT && l.0.item < ITEM_COUNT
            &&& r.0.item == if s.item + 1 == ITEM_COUNT { 0 } else { s.item + 1 }
            &&& l.0.item == if s.item == 0 { ITEM_COUNT - 1 } else { s.item - 1 }
            &&& menu_step(ButtonEvent::Press(ButtonId::Left), r.0).0 == s
        }),
{
}

/// Editing item `item`: LEFT (click or auto-repeat) lowers and RIGHT raises
/// the item's own setting by one step, and neither leaves the item or edit
/// mode. Item 0 is the brightness (step 16); items 1 to 6 are the work and
/// rest lengths of presets 1 to 3, in that order (step 5 minutes).
pub proof fn lemma_editing_adjusts_the_selected_setting(s: MenuState, up: ButtonEvent, down: ButtonEvent)
    requires
        s.editing,
        s.item < ITEM_COUNT,
        up == ButtonEvent::Press(ButtonId::Right) || up == ButtonEvent::Repeat(ButtonId::Right),
        down == ButtonEvent::Press(ButtonId::Left) || down == ButtonEvent::Repeat(ButtonId::Left),
    ensures
        menu_step(up, s).0 == s,
        menu_step(down, s).0 == s,
        s.item == 0 ==> menu_step(up, s).1 == Some(UiAction::AdjustBrightness(16i16))
            && menu_step(down, s).1 == Some(UiAction::AdjustBrightness(-16i16)),
        s.item != 0 && s.item % 2 == 1 ==> menu_step(up, s).1 == Some(
            UiAction::AdjustWork { preset_idx: ((s.item - 1) / 2) as u8, delta_min: 5i16 },
        ) && menu_step(down, s).1 == Some(
            UiAction::AdjustWork { preset_idx: ((s.item - 1) / 2) as u8, delta_min: -5i16 },
        ),
        s.item != 0 && s.item % 2 == 0 ==> menu_step(up, s).1 == Some(
            UiAction::AdjustRest { preset_idx: ((s.item - 1) / 2) as u8, delta_min: 5i16 },
        ) && menu_step(down, s).1 == Some(
            UiAction::AdjustRest { preset_idx: ((s.item - 1) / 2) as u8, delta_min: -5i16 },
        ),
{
}

/// A long SELECT leaves the menu, from navigation and from editing alike,
/// and asks for the settings to be saved with it.
pub proof fn lemma_long_select_exits_menu(s: MenuState)
    ensures
        menu_step(ButtonEvent::LongPress(ButtonId::Select), s).1 == Some(UiAction::ExitMenu),
        !menu_step(ButtonEvent::LongPress(ButtonId::Select), s).0.editing,
        menu_step(ButtonEvent::LongPress(ButtonId::Select), s).0.item == s.item,
{
}

} // verus!
