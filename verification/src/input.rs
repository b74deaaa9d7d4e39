//! Three-button input: debouncing and press / long-press / repeat
//! detection for the Ulanzi TC001 front panel.
//!
//! Each of the three front-panel buttons is wired between its GPIO and ground,
//! with the GPIO held high via an internal pull-up; the firmware samples the
//! pins and hands the samples (`true` = pressed) to this module.
//!
//! The reader:
//!   * debounces samples with a 20 ms stable-state window,
//!   * emits a `Press` event on every clean release that happened *before*
//!     the long-press threshold (so a "click" only fires once the user lets
//!     go, which matches what most physical UIs do),
//!   * emits a `LongPress` event as soon as a button has been held for 700 ms,
//!   * emits repeated `Repeat` events every 150 ms while a button is still
//!     held after the long press — handy for "+/-" style menus.
//!
//! All time-keeping is done in milliseconds against a free-running monotonic
//! counter supplied by the caller.

use vstd::prelude::*;

use crate::pomodoro::state::sat_sub;

verus! {

pub const DEBOUNCE_MS: u32 = 20;

pub const LONG_PRESS_MS: u32 = 700;

pub const REPEAT_PERIOD_MS: u32 = 150;

#[derive(Clone, Copy, Debug, PartialEq, Eq)]
pub enum ButtonId {
    Left,
    Select,
    Right,
}

#[derive(Clone, Copy, Debug, PartialEq, Eq)]
pub enum ButtonEvent {
    /// Short click (button released without crossing the long-press threshold).
    Press(ButtonId),
    /// Held for at least `LONG_PRESS_MS`. Fires exactly once per hold.
    LongPress(ButtonId),
    /// Auto-repeat tick. Fires every `REPEAT_PERIOD_MS` *after* the initial
    /// `LongPress`, useful for adjusting numeric values.
    Repeat(ButtonId),
}

/// Debounce and hold state of one button.
#[derive(Clone, Copy, Debug, PartialEq, Eq)]
pub struct ButtonChannel {
    pub id: ButtonId,
    /// Last raw sample (true = pressed).
    pub raw_pressed: bool,
    /// Last *debounced* state (true = pressed).
    pub stable_pressed: bool,
    /// Time of the last raw change, in ms.
    pub stable_since_ms: u64,
    /// When the button transitioned from released to pressed, in ms.
    pub pressed_at_ms: u64,
    /// Whether a `LongPress` was already emitted for the current hold.
    pub long_press_emitted: bool,
    /// Time of the last `Repeat` event in the current hold.
    pub last_repeat_ms: u64,
}

/// A released button that has never seen a sample.
pub open spec fn fresh_channel(id: ButtonId) -> ButtonChannel {
    ButtonChannel {
        id,
        raw_pressed: false,
        stable_pressed: false,
        stable_since_ms: 0,
        pressed_at_ms: 0,
        long_press_emitted: false,
        last_repeat_ms: 0,
    }
}

/// The channel after noting raw sample `raw` at `now_ms`: a change of the
/// raw level restarts the debounce window.
pub open spec fn sampled(c: ButtonChannel, raw: bool, now_ms: u64) -> ButtonChannel {
    if raw != c.raw_pressed {
        ButtonChannel { raw_pressed: raw, stable_since_ms: now_ms, ..c }
    } else {
        c
    }
}

/// The channel and the event after accepting a debounced level change (if
/// the raw level differs from the stable one and has been steady for
/// `DEBOUNCE_MS`). A release ends the hold with exactly one event in all: when
/// no long press was emitted while held, it emits `Press` for a hold of at
/// most `LONG_PRESS_MS` and `LongPress` for a longer one.
pub open spec fn debounced(c: ButtonChannel, now_ms: u64) -> (ButtonChannel, Option<ButtonEvent>) {
    if c.raw_pressed != c.stable_pressed && sat_sub(now_ms, c.stable_since_ms) >= DEBOUNCE_MS {
        if c.raw_pressed {
            (
                ButtonChannel {
                    stable_pressed: true,
                    pressed_at_ms: now_ms,
                    long_press_emitted: false,
                    last_repeat_ms: now_ms,
                    ..c
                },
                None,
            )
        } else {
            (
                ButtonChannel { stable_pressed: false, ..c },
                if c.long_press_emitted {
                    None
                } else if sat_sub(now_ms, c.pressed_at_ms) <= LONG_PRESS_MS {
                    Some(ButtonEvent::Press(c.id))
                } else {
                    Some(ButtonEvent::LongPress(c.id))
                },
            )
        }
    } else {
        (c, None)
    }
}

/// While held: one `LongPress` once the hold reaches `LONG_PRESS_MS`, then a
/// `Repeat` every `REPEAT_PERIOD_MS`.
pub open spec fn held(c: ButtonChannel, now_ms: u64) -> (ButtonChannel, Option<ButtonEvent>) {
    if !c.stable_pressed {
        (c, None)
    } else if !c.long_press_emitted && sat_sub(now_ms, c.pressed_at_ms) >= LONG_PRESS_MS {
        (
            ButtonChannel { long_press_emitted: true, last_repeat_ms: now_ms, ..c },
            Some(ButtonEvent::LongPress(c.id)),
        )
    } else if c.long_press_emitted && sat_sub(now_ms, c.last_repeat_ms) >= REPEAT_PERIOD_MS {
        (ButtonChannel { last_repeat_ms: now_ms, ..c }, Some(ButtonEvent::Repeat(c.id)))
    } else {
        (c, None)
    }
}

/// One poll of a channel with raw sample `raw` at `now_ms`: the new channel
/// state and the event it produces, if any.
pub open spec fn poll_spec(c: ButtonChannel, raw: bool, now_ms: u64) -> (ButtonChannel, Option<
    ButtonEvent,
>) {
    let (c2, ev) = debounced(sampled(c, raw, now_ms), now_ms);
    let (c3, ev2) = held(c2, now_ms);
    (c3, if ev2 is Some { ev2 } else { ev })
}

impl ButtonChannel {
    /// Always start in the "released" state, regardless of what the pin
    /// actually reads. If a button happens to be held while the firmware
    /// starts, the normal debouncing path will pick that up after
    /// `DEBOUNCE_MS` and produce a real Press transition — without this a
    /// phantom LongPress would be emitted on the first frame.
    pub fn new(id: ButtonId) -> (c: Self)
        ensures
            c == fresh_channel(id),
    {
        Self {
            id,
            raw_pressed: false,
            stable_pressed: false,
            stable_since_ms: 0,
            pressed_at_ms: 0,
            long_press_emitted: false,
            last_repeat_ms: 0,
        }
    }

    /// Feed one raw sample (`true` = pressed) taken at `now_ms`.
    pub fn poll(&mut self, raw: bool, now_ms: u64) -> (ev: Option<ButtonEvent>)
        ensures
            (*final(self), ev) == poll_spec(*old(self), raw, now_ms),
    {
        // Track when the raw signal last changed. A new stable state is only
        // believed once `DEBOUNCE_MS` have passed without a flip.
        if raw != self.raw_pressed {
            self.raw_pressed = raw;
            self.stable_since_ms = now_ms;
        }
        let mut event: Option<ButtonEvent> = None;
        let elapsed_stable = now_ms.saturating_sub(self.stable_since_ms);
        if raw != self.stable_pressed && elapsed_stable >= DEBOUNCE_MS as u64 {
            // The signal has been steady long enough — accept the new state.
            self.stable_pressed = raw;
            if self.stable_pressed {
                // Released -> pressed.
                self.pressed_at_ms = now_ms;
                self.long_press_emitted = false;
                self.last_repeat_ms = now_ms;
            } else {
                // Pressed -> released. A hold whose long press was already
                // emitted is handled; otherwise the release reports it: a
                // tap of up to `LONG_PRESS_MS` as a press, a longer hold that
                // no poll caught in time as its long press.
                let held = now_ms.saturating_sub(self.pressed_at_ms);
                if !self.long_press_emitted {
                    if held <= LONG_PRESS_MS as u64 {
                        event = Some(ButtonEvent::Press(self.id));
                    } else {
                        event = Some(ButtonEvent::LongPress(self.id));
                    }
                }
            }
        }
        // While the button is held, generate exactly one `LongPress` and then
        // a periodic `Repeat` stream.

        if self.stable_pressed {
            let held = now_ms.saturating_sub(self.pressed_at_ms);
            if !self.long_press_emitted && held >= LONG_PRESS_MS as u64 {
                self.long_press_emitted = true;
                self.last_repeat_ms = now_ms;
                event = Some(ButtonEvent::LongPress(self.id));
            } else if self.long_press_emitted && now_ms.saturating_sub(self.last_repeat_ms)
                >= REPEAT_PERIOD_MS as u64 {
                self.last_repeat_ms = now_ms;
                event = Some(ButtonEvent::Repeat(self.id));
            }
        }
        event
    }
}

/// The three front-panel buttons (LEFT, SELECT, RIGHT).
pub struct Buttons {
    pub channels: [ButtonChannel; 3],
}

impl Buttons {
    pub fn new() -> (b: Self)
        ensures
            b.channels@ == seq![
                fresh_channel(ButtonId::Left),
                fresh_channel(ButtonId::Select),
                fresh_channel(ButtonId::Right),
            ],
    {
        let b = Self {
            channels: [
                ButtonChannel::new(ButtonId::Left),
                ButtonChannel::new(ButtonId::Select),
                ButtonChannel::new(ButtonId::Right),
            ],
        };
        assert(b.channels@ =~= seq![
            fresh_channel(ButtonId::Left),
            fresh_channel(ButtonId::Select),
            fresh_channel(ButtonId::Right),
        ]);
        b
    }

    /// Feed one sample of each button (`raw[i]` = button `i` pressed) and
    /// append the events produced to `out`, in button order.
    pub fn poll(&mut self, raw: [bool; 3], now_ms: u64, out: &mut Vec<ButtonEvent>)
        ensures
            forall|i: int|
                0 <= i < 3 ==> #[trigger] final(self).channels@[i] == poll_spec(
                    old(self).channels@[i],
                    raw@[i],
                    now_ms,
                ).0,
            final(out)@ == old(out)@ + events_of(
                poll_spec(old(self).channels@[0], raw@[0], now_ms).1,
            ) + events_of(poll_spec(old(self).channels@[1], raw@[1], now_ms).1) + events_of(
                poll_spec(old(self).channels@[2], raw@[2], now_ms).1,
            ),
    {
        let ghost old_out = out@;
        let mut i: usize = 0;
        while i < 3
            invariant
                i <= 3,
                forall|j: int|
                    0 <= j < i ==> #[trigger] self.channels@[j] == poll_spec(
                        old(self).channels@[j],
                        raw@[j],
                        now_ms,
                    ).0,
                forall|j: int| i <= j < 3 ==> #[trigger] self.channels@[j] == old(self).channels@[j],
                out@ == old_out + events_upto(old(self).channels@, raw@, now_ms, i as int),
            decreases 3 - i,
        {
            let mut ch = self.channels[i];
            let ev = ch.poll(raw[i], now_ms);
            self.channels[i] = ch;
            if let Some(e) = ev {
                out.push(e);
            }
            assert(out@ =~= old_out + events_upto(old(self).channels@, raw@, now_ms, i + 1));
            i = i + 1;
        }
        assert(events_upto(old(self).channels@, raw@, now_ms, 3) =~= events_of(
            poll_spec(old(self).channels@[0], raw@[0], now_ms).1,
        ) + events_of(poll_spec(old(self).channels@[1], raw@[1], now_ms).1) + events_of(
            poll_spec(old(self).channels@[2], raw@[2], now_ms).1,
        )) by {
            reveal_with_fuel(events_upto, 4);
            assert(events_upto(old(self).channels@, raw@, now_ms, 0) =~= Seq::<ButtonEvent>::empty());
        }
    }
}

/// An optional event as a list of zero or one events.
pub open spec fn events_of(e: Option<ButtonEvent>) -> Seq<ButtonEvent> {
    match e {
        Some(ev) => seq![ev],
        None => Seq::empty(),
    }
}

/// The events of the first `n` channels for one poll.
pub open spec fn events_upto(chs: Seq<ButtonChannel>, raw: Seq<bool>, now_ms: u64, n: int) -> Seq<
    ButtonEvent,
>
    decreases n,
{
    if n <= 0 {
        Seq::empty()
    } else {
        events_upto(chs, raw, now_ms, n - 1) + events_of(poll_spec(chs[n - 1], raw[n - 1], now_ms).1)
    }
}

/// The button an event is about.
pub open spec fn event_button(e: ButtonEvent) -> ButtonId {
    match e {
        ButtonEvent::Press(b) => b,
        ButtonEvent::LongPress(b) => b,
        ButtonEvent::Repeat(b) => b,
    }
}

/// Every event a channel reports names that channel's button, and a poll
/// never changes which button a channel belongs to.
pub proof fn lemma_events_name_own_button(c: ButtonChannel, raw: bool, now_ms: u64)
    ensures
        poll_spec(c, raw, now_ms).0.id == c.id,
        poll_spec(c, raw, now_ms).1 matches Some(e) ==> event_button(e) == c.id,
{
}

/// A long press is reported once per hold: once it has been emitted, polls
/// that keep the button held only ever report `Repeat`.
pub proof fn lemma_long_press_once(c: ButtonChannel, now_ms: u64)
    requires
        c.stable_pressed,
        c.raw_pressed,
        c.long_press_emitted,
    ensures
        !(poll_spec(c, true, now_ms).1 matches Some(ButtonEvent::LongPress(_))),
        !(poll_spec(c, true, now_ms).1 matches Some(ButtonEvent::Press(_))),
        poll_spec(c, true, now_ms).0.long_press_emitted,
{
}

/// A raw change that has not been steady for the debounce window changes
/// neither the debounced level nor produces an event.
pub proof fn lemma_bounce_is_ignored(c: ButtonChannel, raw: bool, now_ms: u64)
    requires
        raw != c.raw_pressed,
        raw != c.stable_pressed,
        !c.stable_pressed,
    ensures
        poll_spec(c, raw, now_ms).0.stable_pressed == c.stable_pressed,
        poll_spec(c, raw, now_ms).1 is None,
{
}

/// Every hold is reported by exactly one of `Press` and `LongPress`: a hold
/// whose long press was not emitted while held is reported when its release
/// is accepted, as `Press` for a hold of at most `LONG_PRESS_MS` and as
/// `LongPress` for a longer one.
pub proof fn lemma_release_reports_hold(c: ButtonChannel, now_ms: u64)
    requires
        c.stable_pressed,
        !c.long_press_emitted,
        !c.raw_pressed,
        sat_sub(now_ms, c.stable_since_ms) >= DEBOUNCE_MS,
    ensures
        !poll_spec(c, false, now_ms).0.stable_pressed,
        poll_spec(c, false, now_ms).1 == if sat_sub(now_ms, c.pressed_at_ms) <= LONG_PRESS_MS {
            Some(ButtonEvent::Press(c.id))
        } else {
            Some(ButtonEvent::LongPress(c.id))
        },
{
}

/// A release that follows a long press never also reports a short press.
pub proof fn lemma_no_click_after_long_press(c: ButtonChannel, now_ms: u64)
    requires
        c.stable_pressed,
        c.long_press_emitted,
    ensures
        !(poll_spec(c, false, now_ms).1 matches Some(ButtonEvent::Press(_))),
{
}


/// A press is believed once the raw level has stayed pressed for
/// `DEBOUNCE_MS`; it starts the hold at that moment and reports nothing yet.
pub proof fn lemma_press_accepted_after_debounce(c: ButtonChannel, now_ms: u64)
    requires
        c.raw_pressed,
        !c.stable_pressed,
    ensures
        poll_spec(c, true, now_ms).0.stable_pressed == (sat_sub(now_ms, c.stable_since_ms)
            >= DEBOUNCE_MS),
        poll_spec(c, true, now_ms).0.stable_pressed ==> poll_spec(c, true, now_ms).0.pressed_at_ms
            == now_ms && !poll_spec(c, true, now_ms).0.long_press_emitted,
        poll_spec(c, true, now_ms).1 is None,
{
}

/// While a button stays held: the long press is reported on the first poll
/// at least `LONG_PRESS_MS` after the hold began, and after it a `Repeat`
/// on every poll at least `REPEAT_PERIOD_MS` after the previous one.
pub proof fn lemma_hold_reports_long_press_then_repeats(c: ButtonChannel, now_ms: u64)
    requires
        c.raw_pressed,
        c.stable_pressed,
    ensures
        !c.long_press_emitted ==> poll_spec(c, true, now_ms).1 == if sat_sub(now_ms, c.pressed_at_ms)
            >= LONG_PRESS_MS {
            Some(ButtonEvent::LongPress(c.id))
        } else {
            None
        },
        c.long_press_emitted ==> poll_spec(c, true, now_ms).1 == if sat_sub(now_ms, c.last_repeat_ms)
            >= REPEAT_PERIOD_MS {
            Some(ButtonEvent::Repeat(c.id))
        } else {
            None
        },
        poll_spec(c, true, now_ms).1 is Some ==> poll_spec(c, true, now_ms).0.last_repeat_ms == now_ms,
        poll_spec(c, true, now_ms).0.stable_pressed,
{
}
} // verus!
