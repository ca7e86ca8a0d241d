//! Switching between the animated character and the physics ragdoll with the
//! `R` key.

use vstd::prelude::*;

verus! {

/// Whether physics (the ragdoll) or the animation player owns the bones.
#[derive(Clone, Copy, Debug, PartialEq, Eq)]
pub struct RagdollMode {
    pub dynamic: bool,
}

/// What the caller must do after a frame's toggle decision.
#[derive(Clone, Copy, Debug, PartialEq, Eq)]
pub enum ToggleAction {
    /// The key was not pressed: nothing changes.
    Unchanged,
    /// Build the ragdoll from the current pose and pause every animation.
    BuildRagdollAndPause,
    /// Despawn every ragdoll body and joint and resume every animation.
    TearDownAndResume,
}

/// The action that entering mode `now_dynamic` calls for.
pub open spec fn spec_entry_action(now_dynamic: bool) -> ToggleAction {
    if now_dynamic {
        ToggleAction::BuildRagdollAndPause
    } else {
        ToggleAction::TearDownAndResume
    }
}

impl RagdollMode {
    /// The viewer starts with the animation playing.
    pub fn new() -> (mode: Self)
        ensures
            !mode.dynamic,
    {
        RagdollMode { dynamic: false }
    }

    /// A press of `R` flips the mode and asks for the matching build or
    /// tear-down; without a press nothing changes.
    pub fn toggle(&mut self, r_pressed: bool) -> (action: ToggleAction)
        ensures
            *final(self) == spec_toggled(*old(self), r_pressed),
            r_pressed ==> action == spec_entry_action(final(self).dynamic),
            !r_pressed ==> action == ToggleAction::Unchanged && *final(self) == *old(self),
            r_pressed ==> final(self).dynamic != old(self).dynamic,
    {
        if !r_pressed {
            return ToggleAction::Unchanged;
        }
        self.dynamic = !self.dynamic;
        if self.dynamic {
            ToggleAction::BuildRagdollAndPause
        } else {
            ToggleAction::TearDownAndResume
        }
    }

    /// Physics drives the skeleton only while the ragdoll is on.
    pub fn drives_bones(&self) -> (drives: bool)
        ensures
            drives == self.dynamic,
    {
        self.dynamic
    }
}

/// The mode after one toggle decision.
pub open spec fn spec_toggled(mode: RagdollMode, r_pressed: bool) -> RagdollMode {
    if r_pressed {
        RagdollMode { dynamic: !mode.dynamic }
    } else {
        mode
    }
}

/// Two presses of `R` give back the mode that was there before, and the two
/// presses ask for opposite actions: a ragdoll that is built is torn down by
/// the next press and the reverse.
pub proof fn lemma_toggle_twice_restores(mode: RagdollMode)
    ensures
        spec_toggled(spec_toggled(mode, true), true) == mode,
        spec_entry_action(spec_toggled(mode, true).dynamic) != spec_entry_action(
            spec_toggled(spec_toggled(mode, true), true).dynamic,
        ),
        spec_entry_action(spec_toggled(mode, true).dynamic) == ToggleAction::BuildRagdollAndPause
            <==> !mode.dynamic,
{
}

/// Without a press of `R` nothing changes; a press flips the mode, building
/// the ragdoll when the animation was playing and tearing it down when the
/// ragdoll was on.
pub proof fn lemma_toggle_rules(mode: RagdollMode)
    ensures
        spec_toggled(mode, false) == mode,
        spec_toggled(mode, true).dynamic == !mode.dynamic,
        !mode.dynamic ==> spec_entry_action(spec_toggled(mode, true).dynamic)
            == ToggleAction::BuildRagdollAndPause,
        mode.dynamic ==> spec_entry_action(spec_toggled(mode, true).dynamic)
            == ToggleAction::TearDownAndResume,
{
}

} // verus!
