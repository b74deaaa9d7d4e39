//! On-display UI: routes button events to action requests and draws the
//! current screen onto the matrix framebuffer.
//!
//! The UI is intentionally side-effect-free: it never mutates the Pomodoro
//! FSM (or any settings) directly — instead it returns [`UiAction`] values
//! that the firmware then applies. That keeps screens easy to test in
//! isolation and makes the data flow obvious.

pub mod text;
pub mod idle;
pub mod menu;
pub mod running;

use vstd::prelude::*;

use crate::display::{
    black, lemma_set_pixel_frame, on_matrix, pixel_spec, scale_spec, solid, FrameBuffer,
    FrameView, RgbColor, MATRIX_LED_COUNT,
};
use crate::input::ButtonEvent;
use crate::pomodoro::state::{Pomodoro, State};
use crate::storage::settings::Settings;
use crate::storage::stats::Stats;

verus! {

/// Side-effecting requests the UI wants the firmware to apply.
#[derive(Clone, Copy, Debug, PartialEq, Eq)]
pub enum UiAction {
    StartPreset(u8),
    TogglePause,
    StopSession,
    SkipRest,
    /// Open the settings menu.
    EnterMenu,
    /// Exit the menu, persisting any in-memory settings changes.
    ExitMenu,
    /// Adjust the work duration of preset `preset_idx` by `delta_min`.
    AdjustWork { preset_idx: u8, delta_min: i16 },
    /// Adjust the rest duration of preset `preset_idx` by `delta_min`.
    AdjustRest { preset_idx: u8, delta_min: i16 },
    /// Adjust the global LED brightness by `delta` (positive or negative).
    AdjustBrightness(i16),
}

/// All read-only state a screen might want to look at while rendering.
pub struct RenderContext<'a> {
    pub pomodoro: &'a Pomodoro,
    pub settings: &'a Settings,
    pub stats: &'a Stats,
    /// Today's calendar date as `YYYYMMDD`, or `None` if the clock has never
    /// been anchored.
    pub today: Option<u32>,
    /// Whether the clock was anchored from NTP. Drives the tiny indicator
    /// dot in the corner.
    pub time_synced: bool,
    /// Free-running monotonic milliseconds since boot. Used for animations
    /// (blinking, etc.).
    pub now_ms: u64,
}

/// `new` is `old` with the pixels that `paint` names set to the color it
/// gives, and every other pixel as it was.
pub open spec fn painted(
    old_frame: FrameView,
    new_frame: FrameView,
    paint: spec_fn(int, int) -> Option<RgbColor>,
) -> bool {
    &&& new_frame.mapping == old_frame.mapping
    &&& new_frame.pixels.len() == MATRIX_LED_COUNT
    &&& forall|x: int, y: int|
        #![trigger pixel_spec(new_frame, x, y)]
        on_matrix(x, y) ==> pixel_spec(new_frame, x, y) == match paint(x, y) {
            Some(c) => Some(c),
            None => pixel_spec(old_frame, x, y),
        }
}

/// The 2x2 square with top-left corner `(x0, y0)`.
pub open spec fn in_square(x0: int, y0: int, x: int, y: int) -> bool {
    x0 <= x < x0 + 2 && y0 <= y < y0 + 2
}

/// Paint the 2x2 square with top-left corner `(x0, y0)`.
pub fn fill_square(fb: &mut FrameBuffer, x0: usize, y0: usize, color: RgbColor)
    requires
        x0 + 2 <= 32,
        y0 + 2 <= 8,
    ensures
        painted(
            old(fb)@,
            final(fb)@,
            |x: int, y: int|
                if in_square(x0 as int, y0 as int, x, y) {
                    Some(color)
                } else {
                    None
                },
        ),
{
    proof {
        fb.lemma_len();
    }
    let ghost f0 = fb@;
    fb.set_pixel(x0, y0, color);
    proof {
        lemma_set_pixel_frame(f0, x0 as int, y0 as int, color);
    }
    let ghost f1 = fb@;
    fb.set_pixel(x0 + 1, y0, color);
    proof {
        lemma_set_pixel_frame(f1, x0 + 1, y0 as int, color);
    }
    let ghost f2 = fb@;
    fb.set_pixel(x0, y0 + 1, color);
    proof {
        lemma_set_pixel_frame(f2, x0 as int, y0 + 1, color);
    }
    let ghost f3 = fb@;
    fb.set_pixel(x0 + 1, y0 + 1, color);
    proof {
        lemma_set_pixel_frame(f3, x0 + 1, y0 + 1, color);
    }
}

#[derive(Clone, Copy, Debug, PartialEq, Eq)]
pub enum Screen {
    Idle,
    Running,
    Menu,
}

/// Abstract value of a [`Ui`].
pub struct UiView {
    pub screen: Screen,
    pub menu: menu::MenuState,
}

/// The screen that shows a Pomodoro state.
pub open spec fn screen_for(s: State) -> Screen {
    match s {
        State::Idle => Screen::Idle,
        _ => Screen::Running,
    }
}

/// The action a button event asks for on the current screen, and the menu
/// state after it.
pub open spec fn screen_step(v: UiView, ev: ButtonEvent, pomodoro_state: State) -> (
    menu::MenuState,
    Option<UiAction>,
) {
    match v.screen {
        Screen::Idle => (v.menu, idle::idle_action(ev)),
        Screen::Running => (v.menu, running::running_action(ev, pomodoro_state)),
        Screen::Menu => menu::menu_step(ev, v.menu),
    }
}

/// The screen transition an action will cause, anticipated so the next
/// render uses the correct screen even before `sync_to_state` runs.
pub open spec fn preview_spec(v: UiView, action: UiAction) -> UiView {
    match action {
        UiAction::StartPreset(_) => UiView { screen: Screen::Running, ..v },
        UiAction::StopSession => UiView { screen: Screen::Idle, ..v },
        UiAction::EnterMenu => UiView {
            screen: Screen::Menu,
            menu: menu::MenuState { item: 0, editing: false },
        },
        UiAction::ExitMenu => UiView { screen: Screen::Idle, ..v },
        _ => v,
    }
}

/// The texts of a screen.
pub open spec fn screen_texts(v: UiView, ctx: RenderContext) -> Seq<
    (Seq<u8>, i32, i32, RgbColor, text::TextFont),
> {
    match v.screen {
        Screen::Idle => idle::idle_texts(idle::shown_day(ctx)),
        Screen::Running => running::running_texts(ctx.pomodoro@, ctx.now_ms),
        Screen::Menu => menu::menu_texts(v.menu, *ctx.settings, ctx.now_ms),
    }
}

/// The pixels a screen draws besides its texts.
pub open spec fn screen_pixel(v: UiView, ctx: RenderContext, x: int, y: int) -> Option<RgbColor> {
    match v.screen {
        Screen::Idle => idle::segment_pixel(
            idle::shown_day(ctx).completed_pomodoros,
            ctx.now_ms,
            x,
            y,
        ),
        Screen::Running => running::bar_pixel(
            running::filled_spec(
                running::shown_duration(ctx.pomodoro@, ctx.now_ms),
                running::shown_remaining(ctx.pomodoro@, ctx.now_ms),
            ),
            scale_spec(running::base_color_spec(running::shown_phase(ctx.pomodoro@)), 110),
            scale_spec(running::base_color_spec(running::shown_phase(ctx.pomodoro@)), 25),
            x,
            y,
        ),
        Screen::Menu => menu::dot_pixel(v.menu.item, x, y),
    }
}

pub struct Ui {
    screen: Screen,
    menu_state: menu::MenuState,
}

impl View for Ui {
    type V = UiView;

    closed spec fn view(&self) -> UiView {
        UiView { screen: self.screen, menu: self.menu_state }
    }
}

impl Ui {
    #[verifier::type_invariant]
    spec fn inv(self) -> bool {
        self.menu_state.item < menu::ITEM_COUNT
    }

    pub fn new() -> (ui: Self)
        ensures
            ui@.screen == Screen::Idle,
            ui@.menu == (menu::MenuState { item: 0, editing: false }),
    {
        Self { screen: Screen::Idle, menu_state: menu::MenuState::new() }
    }

    /// Should be called whenever the Pomodoro FSM transitions on its own
    /// (e.g. when a phase boundary is reached) so the UI follows along.
    /// Never overrides the Menu screen.
    pub fn sync_to_state(&mut self, state: State)
        ensures
            final(self)@.menu == old(self)@.menu,
            final(self)@.screen == if old(self)@.screen == Screen::Menu {
                Screen::Menu
            } else {
                screen_for(state)
            },
    {
        proof {
            use_type_invariant(&*self);
        }
        if let Screen::Menu = self.screen {
            return;
        }
        self.screen = match state {
            State::Idle => Screen::Idle,
            State::Running { .. } | State::Paused { .. } => Screen::Running,
        };
    }

    pub fn screen(&self) -> (s: Screen)
        ensures
            s == self@.screen,
    {
        self.screen
    }

    pub fn handle(&mut self, ev: ButtonEvent, ctx: &RenderContext<'_>) -> (action: Option<UiAction>)
        ensures
            action == screen_step(old(self)@, ev, ctx.pomodoro@.state).1,
            final(self)@ == match action {
                Some(a) => preview_spec(
                    UiView { menu: screen_step(old(self)@, ev, ctx.pomodoro@.state).0, ..old(self)@ },
                    a,
                ),
                None => UiView {
                    menu: screen_step(old(self)@, ev, ctx.pomodoro@.state).0,
                    ..old(self)@
                },
            },
    {
        proof {
            use_type_invariant(&*self);
        }
        let action = match self.screen {
            Screen::Idle => idle::handle(ev, ctx),
            Screen::Running => running::handle(ev, ctx),
            Screen::Menu => {
                let mut menu_state = self.menu_state;
                let a = menu::handle(ev, &mut menu_state, ctx);
                self.menu_state = menu_state;
                a
            },
        };
        if let Some(act) = action {
            self.preview(act);
        }
        action
    }

    /// Anticipate the screen transition that an action will cause so the next
    /// render uses the correct screen even before `sync_to_state` runs.
    fn preview(&mut self, action: UiAction)
        ensures
            final(self)@ == preview_spec(old(self)@, action),
    {
        proof {
            use_type_invariant(&*self);
        }
        match action {
            UiAction::StartPreset(_) => self.screen = Screen::Running,
            UiAction::StopSession => self.screen = Screen::Idle,
            UiAction::EnterMenu => {
                self.menu_state = menu::MenuState::new();
                self.screen = Screen::Menu;
            },
            UiAction::ExitMenu => self.screen = Screen::Idle,
            UiAction::SkipRest
            | UiAction::TogglePause
            | UiAction::AdjustWork { .. }
            | UiAction::AdjustRest { .. }
            | UiAction::AdjustBrightness(_) => {},
        }
    }

    /// Clear the frame, draw the current screen's shapes, and return the
    /// texts that go on top of them.
    pub fn render(&self, fb: &mut FrameBuffer, ctx: &RenderContext<'_>) -> (texts: Vec<text::TextSpan>)
        ensures
            texts@.map_values(|s: text::TextSpan| idle::span_view(s)) == screen_texts(self@, *ctx),
            painted(
                FrameView {
                    pixels: solid(MATRIX_LED_COUNT as nat, black()),
                    mapping: old(fb)@.mapping,
                },
                final(fb)@,
                |x: int, y: int| screen_pixel(self@, *ctx, x, y),
            ),
    {
        fb.clear();
        match self.screen {
            Screen::Idle => idle::render(fb, ctx),
            Screen::Running => running::render(fb, ctx),
            Screen::Menu => menu::render(fb, &self.menu_state, ctx),
        }
    }
}

impl Default for Ui {
    fn default() -> (ui: Self)
        ensures
            ui@.screen == Screen::Idle,
            ui@.menu == (menu::MenuState { item: 0, editing: false }),
    {
        Self::new()
    }
}

} // verus!
