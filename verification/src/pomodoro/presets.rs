//! Three user-configurable Pomodoro presets, one per front-panel button.

use vstd::prelude::*;

verus! {

/// Work and rest lengths, in minutes, of one session preset.
#[derive(Clone, Copy, Debug, PartialEq, Eq)]
pub struct Preset {
    pub work_min: u16,
    pub rest_min: u16,
}

impl Preset {
    pub fn new(work_min: u16, rest_min: u16) -> (p: Self)
        ensures
            p.work_min == work_min,
            p.rest_min == rest_min,
    {
        Self { work_min, rest_min }
    }
}

/// The factory presets as a value: 25/5 (classic), 50/10 (deep work),
/// 90/20 (full session).
pub open spec fn default_presets_spec() -> [Preset; 3] {
    [
        Preset { work_min: 25, rest_min: 5 },
        Preset { work_min: 50, rest_min: 10 },
        Preset { work_min: 90, rest_min: 20 },
    ]
}

/// Defaults: 25/5 (classic), 50/10 (deep work), 90/20 (full session).
///
/// These match the three "slots" the user picks via the LEFT / SELECT / RIGHT
/// buttons when the clock is idle.
pub fn default_presets() -> (p: [Preset; 3])
    ensures
        p == default_presets_spec(),
{
    [Preset::new(25, 5), Preset::new(50, 10), Preset::new(90, 20)]
}

pub const MIN_MINUTES: u16 = 1;

pub const MAX_MINUTES: u16 = 240;

pub const ADJUST_STEP_MIN: u16 = 5;

} // verus!
