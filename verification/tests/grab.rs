use glb_ragdoll::grab::{grab_ragdoll, probe_outcome, GrabAction, GrabInput};

fn input(holding: bool, released: bool, pressed: bool, ray: bool, exists: bool) -> GrabInput {
    GrabInput {
        holding,
        left_released: released,
        left_pressed: pressed,
        ray_ready: ray,
        held_body_exists: exists,
    }
}

#[test]
fn release_lets_go_first() {
    assert_eq!(grab_ragdoll(input(true, true, true, true, true)), GrabAction::Release);
    assert_eq!(grab_ragdoll(input(false, true, true, true, true)), GrabAction::Nothing);
}

#[test]
fn no_ray_no_action() {
    assert_eq!(grab_ragdoll(input(true, false, false, false, true)), GrabAction::Nothing);
    assert_eq!(grab_ragdoll(input(false, false, true, false, false)), GrabAction::Nothing);
}

#[test]
fn held_body_is_steered_or_dropped() {
    assert_eq!(grab_ragdoll(input(true, false, false, true, true)), GrabAction::Steer);
    assert_eq!(grab_ragdoll(input(true, false, true, true, false)), GrabAction::Release);
}

#[test]
fn press_probes() {
    assert_eq!(grab_ragdoll(input(false, false, true, true, false)), GrabAction::Probe);
    assert_eq!(grab_ragdoll(input(false, false, false, true, false)), GrabAction::Nothing);
}

#[test]
fn probe_grabs_only_ragdoll_bodies() {
    assert_eq!(probe_outcome(Some(7), true), Some(7));
    assert_eq!(probe_outcome(Some(7), false), None);
    assert_eq!(probe_outcome(None, false), None);
}
