//! Tactile feedback for UI interactions: whether it is enabled, and which
//! feedback pattern an interaction asks the platform to perform.

use vstd::prelude::*;

verus! {

#[derive(Clone, Copy, Debug, PartialEq, Eq, Structural)]
pub enum HapticPattern {
    /// Standard click / tap (buttons, menu items, tabs).
    Generic,
    /// Alignment / notch detent (toggles, snapping to min/max).
    Alignment,
    /// Level change (scrubbing sliders).
    LevelChange,
}

/// The haptics setting. Feedback starts disabled.
#[derive(Clone, Copy, Debug, PartialEq, Eq, Structural)]
pub struct Haptics {
    enabled: bool,
}

impl Haptics {
    /// Whether feedback is enabled, as the model of this setting.
    pub closed spec fn is_enabled(self) -> bool {
        self.enabled
    }

    /// The setting after enabling or disabling feedback.
    pub closed spec fn with_enabled(self, enabled: bool) -> Haptics {
        Haptics { enabled }
    }

    /// The feedback performed for `pattern` under this setting.
    pub open spec fn feedback(self, pattern: HapticPattern) -> Option<HapticPattern> {
        if self.is_enabled() {
            Some(pattern)
        } else {
            None
        }
    }

    pub fn new() -> (r: Self)
        ensures
            !r.is_enabled(),
    {
        Haptics { enabled: false }
    }

    pub fn set_haptics_enabled(&mut self, enabled: bool)
        ensures
            *final(self) == old(self).with_enabled(enabled),
    {
        self.enabled = enabled;
    }

    pub fn haptics_enabled(&self) -> (r: bool)
        ensures
            r == self.is_enabled(),
    {
        self.enabled
    }

    /// The feedback to perform for `pattern`: the pattern itself while
    /// feedback is enabled, nothing while it is disabled.
    pub fn trigger(&self, pattern: HapticPattern) -> (r: Option<HapticPattern>)
        ensures
            r == self.feedback(pattern),
    {
        if !self.enabled {
            return None;
        }
        Some(pattern)
    }

    /// Reading the setting gives back what was last written; once disabled
    /// no interaction performs feedback, and once enabled every interaction
    /// performs its own pattern.
    pub proof fn law_haptics_read_back(self, enabled: bool, pattern: HapticPattern)
        ensures
            self.with_enabled(enabled).is_enabled() == enabled,
            self.with_enabled(false).feedback(pattern) is None,
            self.with_enabled(true).feedback(pattern) == Some(pattern),
    {
    }
}

} // verus!
