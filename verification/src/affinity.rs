//! Display affinity values and the choice of how a window's affinity is set.

use vstd::prelude::*;

verus! {

/// A window display affinity, as `SetWindowDisplayAffinity` takes it.
#[derive(Debug, Clone, Copy, PartialEq, Eq, Structural)]
pub enum AffinityValue {
    /// `WDA_NONE` (0): the window is captured as usual.
    NoAffinity,
    /// `WDA_MONITOR` (1): the window is captured as black.
    Monitor,
    /// `WDA_EXCLUDEFROMCAPTURE` (17): the window is left out of captures.
    ExcludeFromCapture,
}

/// The affinity that protects a window, or leaves it visible.
pub open spec fn affinity_for(protected: bool) -> AffinityValue {
    if protected {
        AffinityValue::ExcludeFromCapture
    } else {
        AffinityValue::NoAffinity
    }
}

impl AffinityValue {
    /// The numeric value that Windows gives this affinity.
    pub open spec fn code(self) -> u32 {
        match self {
            AffinityValue::NoAffinity => 0,
            AffinityValue::Monitor => 1,
            AffinityValue::ExcludeFromCapture => 17,
        }
    }

    /// The numeric value that Windows gives this affinity.
    pub fn as_u32(self) -> (r: u32)
        ensures
            r == self.code(),
    {
        match self {
            AffinityValue::NoAffinity => 0,
            AffinityValue::Monitor => 1,
            AffinityValue::ExcludeFromCapture => 17,
        }
    }

    /// Excluded from capture when `protected`, otherwise none.
    pub fn from_bool(protected: bool) -> (r: Self)
        ensures
            r == affinity_for(protected),
    {
        if protected {
            Self::ExcludeFromCapture
        } else {
            Self::NoAffinity
        }
    }

    /// None when the window is to stay `visible`, otherwise excluded from capture.
    pub fn from_visibility(visible: bool) -> (r: Self)
        ensures
            r == affinity_for(!visible),
    {
        if visible {
            Self::NoAffinity
        } else {
            Self::ExcludeFromCapture
        }
    }
}

/// A window is given a capture-blocking affinity (one other than
/// `WDA_NONE`) exactly when it is protected, that is, when it is not to
/// stay visible.
pub proof fn lemma_visibility_is_negated_protection(visible: bool, protected: bool)
    ensures
        (affinity_for(protected).code() != 0) == protected,
        (affinity_for(!visible).code() == 0) == visible,
{
}

/// When `WDA_EXCLUDEFROMCAPTURE` cannot be set, `WDA_MONITOR` is tried in
/// its place; no other affinity has a fallback.
pub fn native_fallback(requested: AffinityValue) -> (r: Option<AffinityValue>)
    ensures
        r == (if requested == AffinityValue::ExcludeFromCapture {
            Some(AffinityValue::Monitor)
        } else {
            None
        }),
{
    match requested {
        AffinityValue::ExcludeFromCapture => Some(AffinityValue::Monitor),
        _ => None,
    }
}

/// How a window's affinity is set.
#[derive(Debug, Clone, Copy, PartialEq, Eq, Structural)]
pub enum ApplyRoute {
    /// The window belongs to this process: call `SetWindowDisplayAffinity` directly.
    Native,
    /// The owning process has no `user32.dll`, so no window to protect: do nothing.
    SkipNonGui,
    /// Make the owning process itself call `SetWindowDisplayAffinity`.
    Inject,
}

/// Sets windows' display affinity.
#[derive(Debug, Clone)]
pub struct AffinityOrchestrator {}

impl AffinityOrchestrator {
    /// An orchestrator; the path of the 32-bit helper is not used.
    pub fn new(helper_32_path: &str) -> (r: Self) {
        AffinityOrchestrator {}
    }

    /// How the affinity of a window of the process `pid` is set from the
    /// process `self_pid`: directly for its own windows; otherwise not at
    /// all when the target has no `user32.dll`, and by injection when it has.
    pub fn route(&self, pid: u32, self_pid: u32, target_has_user32: bool) -> (r: ApplyRoute)
        ensures
            r == (if pid == self_pid {
                ApplyRoute::Native
            } else if !target_has_user32 {
                ApplyRoute::SkipNonGui
            } else {
                ApplyRoute::Inject
            }),
    {
        if pid == self_pid {
            ApplyRoute::Native
        } else if !target_has_user32 {
            ApplyRoute::SkipNonGui
        } else {
            ApplyRoute::Inject
        }
    }
}

} // verus!
