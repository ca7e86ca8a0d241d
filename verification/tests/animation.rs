use glb_ragdoll::animation::{
    animation_name, requested_clip, switch_animation, switch_animation_checked, AnimationKeys,
    AnimationSelection, ANIMATION_NAME_COUNT,
};

fn keys(digit1: bool, digit2: bool, enter: bool) -> AnimationKeys {
    AnimationKeys { digit1, digit2, enter }
}

#[test]
fn first_clip_plays_at_start() {
    let sel = AnimationSelection::new(2);
    assert_eq!(sel.current_index, 0);
    assert_eq!(sel.clip_count, 2);
    assert_eq!(animation_name(sel.current_index), "walking");
}

#[test]
fn clip_names() {
    assert_eq!(ANIMATION_NAME_COUNT, 2);
    assert_eq!(animation_name(0), "walking");
    assert_eq!(animation_name(1), "whypausegame");
}

#[test]
fn digit_keys_pick_clips_directly() {
    let mut sel = AnimationSelection::new(2);
    assert_eq!(switch_animation(&mut sel, keys(false, true, false)), Some(1));
    assert_eq!(sel.current_index, 1);
    assert_eq!(switch_animation(&mut sel, keys(true, false, false)), Some(0));
    assert_eq!(sel.current_index, 0);
}

#[test]
fn digit_one_wins_over_the_other_keys() {
    assert_eq!(requested_clip(keys(true, true, true), 1, 2), Some(0));
    assert_eq!(requested_clip(keys(false, true, true), 0, 2), Some(1));
}

#[test]
fn enter_cycles_and_wraps() {
    let mut sel = AnimationSelection::new(2);
    assert_eq!(switch_animation(&mut sel, keys(false, false, true)), Some(1));
    assert_eq!(switch_animation(&mut sel, keys(false, false, true)), Some(0));
    assert_eq!(sel.current_index, 0);
}

#[test]
fn enter_once_per_clip_returns_to_the_start() {
    let mut sel = AnimationSelection { current_index: 1, clip_count: 2 };
    for _ in 0..sel.clip_count {
        switch_animation(&mut sel, keys(false, false, true));
    }
    assert_eq!(sel.current_index, 1);
}

#[test]
fn no_key_changes_nothing() {
    let mut sel = AnimationSelection { current_index: 1, clip_count: 2 };
    assert_eq!(switch_animation(&mut sel, keys(false, false, false)), None);
    assert_eq!(sel, AnimationSelection { current_index: 1, clip_count: 2 });
    assert_eq!(requested_clip(keys(false, false, false), 0, 1), None);
}

#[test]
fn single_clip_enter_stays() {
    let mut sel = AnimationSelection::new(1);
    assert_eq!(switch_animation(&mut sel, keys(false, false, true)), Some(0));
    assert_eq!(sel.current_index, 0);
}

#[test]
fn checked_switch_ignores_missing_clip() {
    let mut sel = AnimationSelection::new(1);
    assert_eq!(switch_animation_checked(&mut sel, keys(false, true, false)), None);
    assert_eq!(sel.current_index, 0);
    let mut two = AnimationSelection::new(2);
    assert_eq!(switch_animation_checked(&mut two, keys(false, true, false)), Some(1));
    assert_eq!(two.current_index, 1);
    assert_eq!(switch_animation_checked(&mut two, keys(false, false, true)), Some(0));
}

#[test]
fn k_enter_presses_land_on_current_plus_k() {
    for start in 0..2usize {
        let mut sel = AnimationSelection { current_index: start, clip_count: 2 };
        for k in 1..=5usize {
            switch_animation(&mut sel, keys(false, false, true));
            assert_eq!(sel.current_index, (start + k) % 2);
        }
    }
}
