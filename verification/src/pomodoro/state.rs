//! Pomodoro FSM.
//!
//! ```text
//!   Idle ── start(N) ───────────► Running{Work}
//!   Running{Work} ── tick (t=0) ─► Running{Rest}   (and pushes CompletedWork)
//!   Running{Rest} ── tick (t=0) ─► Idle
//!   Running{*} ── toggle_pause ──► Paused{*}
//!   Paused{*}  ── toggle_pause ──► Running{*}
//!   *          ── stop ─────────► Idle  (no stats credited)
//! ```
//!
//! Time is tracked in monotonic milliseconds supplied by the caller, which
//! keeps the state machine independent of how the rest of the firmware
//! sources its clock.

use vstd::prelude::*;

use super::presets::{default_presets, default_presets_spec, Preset};

verus! {

#[derive(Clone, Copy, Debug, PartialEq, Eq)]
pub enum Phase {
    Work,
    Rest,
}

#[derive(Clone, Copy, Debug, PartialEq, Eq)]
pub enum State {
    Idle,
    Running {
        preset_idx: u8,
        phase: Phase,
        /// Monotonic ms at which this phase started.
        started_ms: u64,
        /// Phase length in ms (cached so callers can compute progress).
        duration_ms: u32,
    },
    Paused {
        preset_idx: u8,
        phase: Phase,
        /// Remaining milliseconds when the user paused.
        remaining_ms: u32,
        /// Original phase length, retained so the progress bar still makes
        /// sense after a resume.
        duration_ms: u32,
    },
}

/// Description of a work phase that has just completed, ready to be appended
/// to long-term statistics.
#[derive(Clone, Copy, Debug, PartialEq, Eq)]
pub struct CompletedWork {
    pub preset_idx: u8,
    pub minutes: u16,
}

/// Emitted by [`Pomodoro::tick`] whenever the FSM transitions on its own.
#[derive(Clone, Copy, Debug, PartialEq, Eq)]
pub enum PhaseTransition {
    /// Work finished, the timer just rolled over into rest.
    WorkFinished,
    /// Rest finished, the timer is now Idle.
    RestFinished,
}

/// Abstract value of a [`Pomodoro`]: its state, its presets and the work
/// credit that has not been collected yet.
pub struct PomodoroView {
    pub state: State,
    pub presets: [Preset; 3],
    pub pending: Option<CompletedWork>,
}

/// `a - b`, or 0 when `b > a`.
pub open spec fn sat_sub(a: u64, b: u64) -> u64 {
    if a >= b {
        (a - b) as u64
    } else {
        0
    }
}

/// Length in milliseconds of a phase of `minutes` minutes.
pub open spec fn ms_of_minutes(minutes: u16) -> u32 {
    (minutes * 60_000) as u32
}

/// Milliseconds of a running phase that have passed at `now_ms`, capped at
/// the phase length.
pub open spec fn elapsed_capped(started_ms: u64, duration_ms: u32, now_ms: u64) -> u32 {
    if sat_sub(now_ms, started_ms) < duration_ms {
        sat_sub(now_ms, started_ms) as u32
    } else {
        duration_ms
    }
}

/// Milliseconds left at `now_ms` in a phase of `duration_ms` that started at
/// `started_ms`.
pub open spec fn remaining_at(started_ms: u64, duration_ms: u32, now_ms: u64) -> u32 {
    (duration_ms - elapsed_capped(started_ms, duration_ms, now_ms)) as u32
}

/// What `remaining_ms(now_ms)` answers in state `s`.
pub open spec fn state_remaining(s: State, now_ms: u64) -> Option<u32> {
    match s {
        State::Running { started_ms, duration_ms, .. } => Some(
            remaining_at(started_ms, duration_ms, now_ms),
        ),
        State::Paused { remaining_ms, .. } => Some(remaining_ms),
        State::Idle => None,
    }
}

/// The state a pause/resume toggle at `now_ms` leads to from `s`.
pub open spec fn toggled(s: State, now_ms: u64) -> State {
    match s {
        State::Running { preset_idx, phase, started_ms, duration_ms } => State::Paused {
            preset_idx,
            phase,
            remaining_ms: remaining_at(started_ms, duration_ms, now_ms),
            duration_ms,
        },
        State::Paused { preset_idx, phase, remaining_ms, duration_ms } => State::Running {
            preset_idx,
            phase,
            started_ms: sat_sub(now_ms, (duration_ms - remaining_ms) as u64),
            duration_ms,
        },
        State::Idle => State::Idle,
    }
}

/// The phase of a state, if a session is under way.
pub open spec fn state_phase(s: State) -> Option<Phase> {
    match s {
        State::Running { phase, .. } => Some(phase),
        State::Paused { phase, .. } => Some(phase),
        State::Idle => None,
    }
}

/// The phase length of a state, if a session is under way.
pub open spec fn state_duration(s: State) -> Option<u32> {
    match s {
        State::Running { duration_ms, .. } => Some(duration_ms),
        State::Paused { duration_ms, .. } => Some(duration_ms),
        State::Idle => None,
    }
}

/// A state the machine can be in: a session names one of the three presets,
/// and a paused phase has no more time left than its length.
pub open spec fn state_wf(s: State) -> bool {
    match s {
        State::Running { preset_idx, .. } => preset_idx < 3,
        State::Paused { preset_idx, remaining_ms, duration_ms, .. } => preset_idx < 3
            && remaining_ms <= duration_ms,
        State::Idle => true,
    }
}

/// The current state, kept well formed at all times.
struct Session {
    state: State,
}

impl Session {
    #[verifier::type_invariant]
    spec fn inv(self) -> bool {
        state_wf(self.state)
    }
}

pub struct Pomodoro {
    session: Session,
    presets: [Preset; 3],
    pending_completion: Option<CompletedWork>,
}

impl View for Pomodoro {
    type V = PomodoroView;

    closed spec fn view(&self) -> PomodoroView {
        PomodoroView { state: self.session.state, presets: self.presets, pending: self.pending_completion }
    }
}

impl Pomodoro {
    pub fn new(presets: [Preset; 3]) -> (p: Self)
        ensures
            p@.state == State::Idle,
            p@.presets == presets,
            p@.pending is None,
    {
        Self { session: Session { state: State::Idle }, presets, pending_completion: None }
    }

    pub fn with_default_presets() -> (p: Self)
        ensures
            p@.state == State::Idle,
            p@.presets == default_presets_spec(),
            p@.pending is None,
    {
        Self::new(default_presets())
    }

    pub fn state(&self) -> (s: State)
        ensures
            s == self@.state,
            state_wf(s),
    {
        proof {
            use_type_invariant(&self.session);
        }
        self.session.state
    }

    pub fn presets(&self) -> (p: &[Preset; 3])
        ensures
            *p == self@.presets,
    {
        &self.presets
    }

    pub fn presets_mut(&mut self) -> (p: &mut [Preset; 3])
        ensures
            *p == old(self)@.presets,
            final(self)@.presets == *final(p),
            final(self)@.state == old(self)@.state,
            final(self)@.pending == old(self)@.pending,
    {
        &mut self.presets
    }

    /// Replace the work length of preset `idx` (used when the settings menu
    /// edits a preset).
    pub fn set_work_min(&mut self, idx: usize, minutes: u16)
        requires
            idx < 3,
        ensures
            final(self)@.state == old(self)@.state,
            final(self)@.pending == old(self)@.pending,
            final(self)@.presets@ == old(self)@.presets@.update(
                idx as int,
                Preset { work_min: minutes, rest_min: old(self)@.presets[idx as int].rest_min },
            ),
    {
        let p = Preset { work_min: minutes, rest_min: self.presets[idx].rest_min };
        self.presets[idx] = p;
    }

    /// Replace the rest length of preset `idx`.
    pub fn set_rest_min(&mut self, idx: usize, minutes: u16)
        requires
            idx < 3,
        ensures
            final(self)@.state == old(self)@.state,
            final(self)@.pending == old(self)@.pending,
            final(self)@.presets@ == old(self)@.presets@.update(
                idx as int,
                Preset { work_min: old(self)@.presets[idx as int].work_min, rest_min: minutes },
            ),
    {
        let p = Preset { work_min: self.presets[idx].work_min, rest_min: minutes };
        self.presets[idx] = p;
    }

    /// Start a session with the given preset. Returns `true` if the FSM was
    /// idle and the request was accepted, `false` otherwise (the caller can
    /// either ignore the press or treat it as "restart" — currently we keep
    /// it as a no-op so accidental clicks during a session don't lose state).
    pub fn start(&mut self, preset_idx: u8, now_ms: u64) -> (accepted: bool)
        ensures
            accepted == (old(self)@.state is Idle && preset_idx < 3),
            final(self)@.presets == old(self)@.presets,
            final(self)@.pending == old(self)@.pending,
            accepted ==> final(self)@.state == (State::Running {
                preset_idx,
                phase: Phase::Work,
                started_ms: now_ms,
                duration_ms: ms_of_minutes(old(self)@.presets[preset_idx as int].work_min),
            }),
            !accepted ==> final(self)@.state == old(self)@.state,
    {
        if !(match self.session.state {
            State::Idle => true,
            _ => false,
        }) {
            return false;
        }
        if preset_idx >= 3 {
            return false;
        }
        let preset = self.presets[preset_idx as usize];
        self.session = Session { state: State::Running {
            preset_idx,
            phase: Phase::Work,
            started_ms: now_ms,
            duration_ms: minutes_to_ms(preset.work_min),
        } };
        true
    }

    /// Pause a running session or resume a paused one. No-op when idle.
    pub fn toggle_pause(&mut self, now_ms: u64)
        ensures
            final(self)@.state == toggled(old(self)@.state, now_ms),
            final(self)@.presets == old(self)@.presets,
            final(self)@.pending == old(self)@.pending,
    {
        proof {
            use_type_invariant(&self.session);
        }
        match self.session.state {
            State::Running { preset_idx, phase, started_ms, duration_ms } => {
                let since = now_ms.saturating_sub(started_ms);
                let elapsed: u32 = if since < duration_ms as u64 {
                    since as u32
                } else {
                    duration_ms
                };
                let remaining_ms = duration_ms.saturating_sub(elapsed);
                self.session = Session { state: State::Paused { preset_idx, phase, remaining_ms, duration_ms } };
            },
            State::Paused { preset_idx, phase, remaining_ms, duration_ms } => {
                let started_ms = now_ms.saturating_sub((duration_ms - remaining_ms) as u64);
                self.session = Session { state: State::Running { preset_idx, phase, started_ms, duration_ms } };
            },
            State::Idle => {},
        }
    }

    /// Force-return to idle without crediting any stats.
    pub fn stop(&mut self)
        ensures
            final(self)@.state == State::Idle,
            final(self)@.pending is None,
            final(self)@.presets == old(self)@.presets,
    {
        self.session = Session { state: State::Idle };
        self.pending_completion = None;
    }

    /// Skip the current phase. Used to bail out of the rest phase early; for
    /// the work phase this is equivalent to [`Pomodoro::stop`] (no credit).
    pub fn skip(&mut self, _now_ms: u64) -> (r: Option<PhaseTransition>)
        ensures
            final(self)@.presets == old(self)@.presets,
            match state_phase(old(self)@.state) {
                Some(Phase::Rest) => {
                    &&& r == Some(PhaseTransition::RestFinished)
                    &&& final(self)@.state == State::Idle
                    &&& final(self)@.pending == old(self)@.pending
                },
                Some(Phase::Work) => {
                    &&& r is None
                    &&& final(self)@.state == State::Idle
                    &&& final(self)@.pending is None
                },
                None => {
                    &&& r is None
                    &&& final(self)@.state == old(self)@.state
                    &&& final(self)@.pending == old(self)@.pending
                },
            },
    {
        match self.session.state {
            State::Running { phase, .. } | State::Paused { phase, .. } => {
                match phase {
                    Phase::Rest => {
                        self.session = Session { state: State::Idle };
                        Some(PhaseTransition::RestFinished)
                    },
                    Phase::Work => {
                        self.stop();
                        None
                    },
                }
            },
            State::Idle => None,
        }
    }

    /// Advance the FSM. Returns a [`PhaseTransition`] when the timer rolls
    /// over so the UI can flash and the buzzer can beep.
    pub fn tick(&mut self, now_ms: u64) -> (r: Option<PhaseTransition>)
        ensures
            final(self)@.presets == old(self)@.presets,
            match old(self)@.state {
                State::Running { preset_idx, phase, started_ms, duration_ms } => {
                    let elapsed = sat_sub(now_ms, started_ms);
                    if elapsed < duration_ms {
                        &&& r is None
                        &&& final(self)@ == old(self)@
                    } else {
                        match phase {
                            Phase::Work => {
                                let preset = old(self)@.presets[preset_idx as int];
                                &&& r == Some(PhaseTransition::WorkFinished)
                                &&& final(self)@.pending == Some(
                                    CompletedWork { preset_idx, minutes: preset.work_min },
                                )
                                &&& final(self)@.state == (State::Running {
                                    preset_idx,
                                    phase: Phase::Rest,
                                    started_ms: sat_sub(
                                        now_ms,
                                        (elapsed - duration_ms) as u64,
                                    ),
                                    duration_ms: ms_of_minutes(preset.rest_min),
                                })
                            },
                            Phase::Rest => {
                                &&& r == Some(PhaseTransition::RestFinished)
                                &&& final(self)@.state == State::Idle
                                &&& final(self)@.pending == old(self)@.pending
                            },
                        }
                    }
                },
                _ => {
                    &&& r is None
                    &&& final(self)@ == old(self)@
                },
            },
    {
        proof {
            use_type_invariant(&self.session);
        }
        let (preset_idx, phase, started_ms, duration_ms) = match self.session.state {
            State::Running { preset_idx, phase, started_ms, duration_ms } => (
                preset_idx,
                phase,
                started_ms,
                duration_ms,
            ),
            _ => {
                return None;
            },
        };

        let elapsed = now_ms.saturating_sub(started_ms);
        if elapsed < duration_ms as u64 {
            return None;
        }
        // Phase is over.

        match phase {
            Phase::Work => {
                let preset = self.presets[preset_idx as usize];
                self.pending_completion = Some(
                    CompletedWork { preset_idx, minutes: preset.work_min },
                );
                // Schedule the rest phase, accounting for any overshoot so a
                // delayed tick doesn't make the rest interval longer than it
                // should be.
                let overshoot = elapsed - duration_ms as u64;
                let rest_ms = minutes_to_ms(preset.rest_min);
                let rest_started_ms = now_ms.saturating_sub(overshoot);
                self.session = Session { state: State::Running {
                    preset_idx,
                    phase: Phase::Rest,
                    started_ms: rest_started_ms,
                    duration_ms: rest_ms,
                } };
                Some(PhaseTransition::WorkFinished)
            },
            Phase::Rest => {
                self.session = Session { state: State::Idle };
                Some(PhaseTransition::RestFinished)
            },
        }
    }

    pub fn take_completed_work(&mut self) -> (w: Option<CompletedWork>)
        ensures
            w == old(self)@.pending,
            final(self)@.pending is None,
            final(self)@.state == old(self)@.state,
            final(self)@.presets == old(self)@.presets,
    {
        self.pending_completion.take()
    }

    /// Remaining milliseconds in the current phase, if any.
    pub fn remaining_ms(&self, now_ms: u64) -> (r: Option<u32>)
        ensures
            r == state_remaining(self@.state, now_ms),
    {
        match self.session.state {
            State::Running { started_ms, duration_ms, .. } => {
                let since = now_ms.saturating_sub(started_ms);
                let elapsed: u32 = if since < duration_ms as u64 {
                    since as u32
                } else {
                    duration_ms
                };
                Some(duration_ms.saturating_sub(elapsed))
            },
            State::Paused { remaining_ms, .. } => Some(remaining_ms),
            State::Idle => None,
        }
    }

    pub fn duration_ms(&self) -> (r: Option<u32>)
        ensures
            r == state_duration(self@.state),
    {
        match self.session.state {
            State::Running { duration_ms, .. } | State::Paused { duration_ms, .. } => {
                Some(duration_ms)
            },
            State::Idle => None,
        }
    }

    pub fn phase(&self) -> (r: Option<Phase>)
        ensures
            r == state_phase(self@.state),
    {
        match self.session.state {
            State::Running { phase, .. } | State::Paused { phase, .. } => Some(phase),
            State::Idle => None,
        }
    }

    pub fn is_paused(&self) -> (r: bool)
        ensures
            r == (self@.state is Paused),
    {
        match self.session.state {
            State::Paused { .. } => true,
            _ => false,
        }
    }
}

/// Pausing a running phase at `paused_at` and resuming it at a later
/// `resumed_at` leaves the same time on the clock: the remaining time read
/// right after the resume equals the remaining time at the moment of the
/// pause, and the session keeps its preset, phase and length.
pub proof fn lemma_pause_resume_preserves_remaining(s: State, paused_at: u64, resumed_at: u64)
    requires
        s is Running,
        paused_at <= resumed_at,
    ensures
        toggled(s, paused_at) is Paused,
        toggled(toggled(s, paused_at), resumed_at) is Running,
        state_remaining(toggled(toggled(s, paused_at), resumed_at), resumed_at) == state_remaining(
            s,
            paused_at,
        ),
        state_phase(toggled(toggled(s, paused_at), resumed_at)) == state_phase(s),
        state_duration(toggled(toggled(s, paused_at), resumed_at)) == state_duration(s),
{
}

/// While paused, the time left does not depend on the clock.
pub proof fn lemma_paused_remaining_is_frozen(s: State, t1: u64, t2: u64)
    requires
        s is Paused,
    ensures
        state_remaining(s, t1) == state_remaining(s, t2),
{
}

/// In every well-formed state with a session, the time left is at most the
/// phase length.
pub proof fn lemma_remaining_within_duration(s: State, now_ms: u64)
    requires
        state_wf(s),
        !(s is Idle),
    ensures
        state_remaining(s, now_ms).unwrap() <= state_duration(s).unwrap(),
{
}

fn minutes_to_ms(minutes: u16) -> (ms: u32)
    ensures
        ms == ms_of_minutes(minutes),
        ms == minutes * 60_000,
{
    (minutes as u32) * 60_000
}


/// The preset a state's session runs, if a session is under way.
pub open spec fn state_preset(s: State) -> Option<u8> {
    match s {
        State::Running { preset_idx, .. } => Some(preset_idx),
        State::Paused { preset_idx, .. } => Some(preset_idx),
        State::Idle => None,
    }
}

/// A pause/resume toggle never changes which session runs: from any state,
/// the toggled state runs the same preset, in the same phase, with the same
/// phase length; it only switches between running and paused (and leaves
/// `Idle` alone). So pausing a session and resuming it later gives back a
/// running session of the same preset, phase and length.
pub proof fn lemma_toggle_keeps_session(s: State, paused_at: u64, resumed_at: u64)
    ensures
        state_preset(toggled(s, paused_at)) == state_preset(s),
        state_phase(toggled(s, paused_at)) == state_phase(s),
        state_duration(toggled(s, paused_at)) == state_duration(s),
        s is Running <==> toggled(s, paused_at) is Paused,
        s is Paused <==> toggled(s, paused_at) is Running,
        s is Idle <==> toggled(s, paused_at) is Idle,
        state_preset(toggled(toggled(s, paused_at), resumed_at)) == state_preset(s),
        state_phase(toggled(toggled(s, paused_at), resumed_at)) == state_phase(s),
        state_duration(toggled(toggled(s, paused_at), resumed_at)) == state_duration(s),
        s is Running ==> toggled(toggled(s, paused_at), resumed_at) is Running,
{
}


/// A running phase counts down in real time: `t` ms after it started it has
/// `duration - t` ms left, and none once its length has passed; a paused
/// phase keeps the time it had when paused.
pub proof fn lemma_running_phase_counts_down(
    preset_idx: u8,
    phase: Phase,
    started_ms: u64,
    duration_ms: u32,
    now_ms: u64,
)
    requires
        started_ms <= now_ms,
    ensures
        ({
            let s = State::Running { preset_idx, phase, started_ms, duration_ms };
            &&& now_ms - started_ms <= duration_ms ==> state_remaining(s, now_ms) == Some(
                (duration_ms - (now_ms - started_ms)) as u32,
            )
            &&& now_ms - started_ms >= duration_ms ==> state_remaining(s, now_ms) == Some(0u32)
            &&& toggled(s, now_ms) is Paused
            &&& state_remaining(toggled(s, now_ms), 0) == state_remaining(s, now_ms)
        }),
{
}

} // verus!
