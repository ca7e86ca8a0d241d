use glb_ragdoll::mode::{RagdollMode, ToggleAction};

#[test]
fn starts_animated() {
    let mode = RagdollMode::new();
    assert!(!mode.dynamic);
    assert!(!mode.drives_bones());
}

#[test]
fn press_builds_then_tears_down() {
    let mut mode = RagdollMode::new();
    assert_eq!(mode.toggle(true), ToggleAction::BuildRagdollAndPause);
    assert!(mode.dynamic);
    assert!(mode.drives_bones());
    assert_eq!(mode.toggle(true), ToggleAction::TearDownAndResume);
    assert!(!mode.dynamic);
}

#[test]
fn no_press_keeps_mode() {
    let mut mode = RagdollMode { dynamic: true };
    assert_eq!(mode.toggle(false), ToggleAction::Unchanged);
    assert!(mode.dynamic);
}

#[test]
fn two_presses_restore_mode() {
    for start in [false, true] {
        let mut mode = RagdollMode { dynamic: start };
        let first = mode.toggle(true);
        let second = mode.toggle(true);
        assert_eq!(mode.dynamic, start);
        assert_ne!(first, second);
    }
}
