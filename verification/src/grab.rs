//! Grabbing and throwing a ragdoll body with the left mouse button.
//!
//! While the button is held, the grabbed point of the body chases the cursor
//! at the depth where it was grabbed; releasing leaves the body with whatever
//! velocity it had. This module decides, frame by frame, which of these things
//! happens; the caller reads the input, casts the ray and computes velocities.

use vstd::prelude::*;

verus! {

/// What the caller knows at the start of a frame.
#[derive(Clone, Copy, Debug, PartialEq, Eq)]
pub struct GrabInput {
    /// A body is being held.
    pub holding: bool,
    /// The left button was released this frame.
    pub left_released: bool,
    /// The left button was pressed this frame.
    pub left_pressed: bool,
    /// There is one window with the cursor in it and one camera, and the
    /// cursor's ray into the world could be built.
    pub ray_ready: bool,
    /// The held body still exists with a pose.
    pub held_body_exists: bool,
}

/// What the caller must do this frame.
#[derive(Clone, Copy, Debug, PartialEq, Eq)]
pub enum GrabAction {
    /// Nothing happens.
    Nothing,
    /// Let go of the held body.
    Release,
    /// Drive the held body's velocity so its grab point chases the cursor.
    Steer,
    /// Cast the cursor's ray against the ragdoll to look for a body to grab.
    Probe,
}

/// The action for a frame: a release of the button lets go (if anything is
/// held) before anything else; without a ray nothing happens; a held body is
/// steered while it exists and let go once it is gone; otherwise a press
/// probes for a body to grab.
pub open spec fn spec_grab_action(input: GrabInput) -> GrabAction {
    if input.left_released {
        if input.holding {
            GrabAction::Release
        } else {
            GrabAction::Nothing
        }
    } else if !input.ray_ready {
        GrabAction::Nothing
    } else if input.holding {
        if input.held_body_exists {
            GrabAction::Steer
        } else {
            GrabAction::Release
        }
    } else if input.left_pressed {
        GrabAction::Probe
    } else {
        GrabAction::Nothing
    }
}

/// Decides what the mouse grab does this frame.
pub fn grab_ragdoll(input: GrabInput) -> (action: GrabAction)
    ensures
        action == spec_grab_action(input),
        action == GrabAction::Steer ==> input.holding && input.held_body_exists,
        action == GrabAction::Release ==> input.holding,
        action == GrabAction::Probe ==> !input.holding && input.left_pressed,
        input.left_released && input.holding ==> action == GrabAction::Release,
        input.left_released ==> action != GrabAction::Steer && action != GrabAction::Probe,
{
    if input.left_released {
        if input.holding {
            return GrabAction::Release;
        }
        return GrabAction::Nothing;
    }
    if !input.ray_ready {
        return GrabAction::Nothing;
    }
    if input.holding {
        if input.held_body_exists {
            GrabAction::Steer
        } else {
            GrabAction::Release
        }
    } else if input.left_pressed {
        GrabAction::Probe
    } else {
        GrabAction::Nothing
    }
}

/// The body grabbed after a probe: the entity the ray hit first, provided it is
/// a ragdoll body with a pose; otherwise nothing is grabbed.
pub fn probe_outcome(hit: Option<u64>, hit_is_ragdoll_body: bool) -> (grabbed: Option<u64>)
    ensures
        grabbed == (if hit_is_ragdoll_body {
            hit
        } else {
            None
        }),
{
    if hit_is_ragdoll_body {
        hit
    } else {
        None
    }
}

/// The grab rules, input by input:
/// - letting go of the button while holding a body releases it, whatever else
///   happens this frame; letting go with nothing held does nothing;
/// - while the button is not released, nothing happens without a cursor ray;
/// - a held body is steered while it exists and released once it is gone;
/// - with nothing held, a press probes for a body and no press does nothing.
pub proof fn lemma_grab_rules(input: GrabInput)
    ensures
        input.left_released && input.holding ==> spec_grab_action(input) == GrabAction::Release,
        input.left_released && !input.holding ==> spec_grab_action(input) == GrabAction::Nothing,
        !input.left_released && !input.ray_ready ==> spec_grab_action(input)
            == GrabAction::Nothing,
        !input.left_released && input.ray_ready && input.holding && input.held_body_exists
            ==> spec_grab_action(input) == GrabAction::Steer,
        !input.left_released && input.ray_ready && input.holding && !input.held_body_exists
            ==> spec_grab_action(input) == GrabAction::Release,
        !input.left_released && input.ray_ready && !input.holding && input.left_pressed
            ==> spec_grab_action(input) == GrabAction::Probe,
        !input.left_released && input.ray_ready && !input.holding && !input.left_pressed
            ==> spec_grab_action(input) == GrabAction::Nothing,
{
}

} // verus!
