use std::collections::{HashMap, HashSet};

use glb_ragdoll::mode::RagdollMode;
use glb_ragdoll::skeleton::{drive_bones_from_ragdoll, fresh_bone_global, GlobalBase};

// Skeleton: 1 (armature root, no parent) -> 2 (hips) -> 3 (spine) -> 4 (neck) -> 5 (head)
//                                                   3 -> 6 (shoulder) -> 7 (forearm) -> 8 (hand)
fn skeleton() -> Vec<(u64, Option<u64>)> {
    vec![
        (1, None),
        (2, Some(1)),
        (3, Some(2)),
        (4, Some(3)),
        (5, Some(4)),
        (6, Some(3)),
        (7, Some(6)),
        (8, Some(7)),
    ]
}

fn parents() -> HashMap<u64, Option<u64>> {
    skeleton().into_iter().collect()
}

#[test]
fn driven_bone_is_its_target() {
    let driven: HashSet<u64> = [3u64].into_iter().collect();
    let fresh = fresh_bone_global(3, &driven, &parents());
    assert_eq!(fresh.base, GlobalBase::Target(3));
    assert!(fresh.chain.is_empty());
}

#[test]
fn undriven_bones_ride_on_the_driven_ancestor() {
    let driven: HashSet<u64> = [3u64, 5].into_iter().collect();
    let fresh = fresh_bone_global(8, &driven, &parents());
    assert_eq!(fresh.base, GlobalBase::Target(3));
    assert_eq!(fresh.chain, vec![6, 7, 8]);
}

#[test]
fn climb_stops_at_the_untracked_root() {
    let driven: HashSet<u64> = HashSet::new();
    let fresh = fresh_bone_global(4, &driven, &parents());
    assert_eq!(fresh.base, GlobalBase::Fallback(1));
    assert_eq!(fresh.chain, vec![2, 3, 4]);
    let unknown = fresh_bone_global(42, &driven, &parents());
    assert_eq!(unknown.base, GlobalBase::Fallback(42));
    assert!(unknown.chain.is_empty());
}

#[test]
fn nothing_driven_while_animated() {
    let mode = RagdollMode { dynamic: false };
    assert!(drive_bones_from_ragdoll(&mode, &vec![3, 5], &skeleton()).is_empty());
}

#[test]
fn one_entry_per_driven_bone() {
    let mode = RagdollMode { dynamic: true };
    let drives = drive_bones_from_ragdoll(&mode, &vec![5, 3, 5, 1], &skeleton());
    assert_eq!(drives.len(), 3);
    let bones: Vec<u64> = drives.iter().map(|d| d.bone).collect();
    assert_eq!(bones, vec![5, 3, 1]);
    // head (5): parent 4 is undriven and rides on the driven spine (3).
    let head = drives[0].parent_global.as_ref().unwrap();
    assert_eq!(head.base, GlobalBase::Target(3));
    assert_eq!(head.chain, vec![4]);
    // spine (3): parent 2 rides on the driven armature root (1).
    let spine = drives[1].parent_global.as_ref().unwrap();
    assert_eq!(spine.base, GlobalBase::Target(1));
    assert_eq!(spine.chain, vec![2]);
    // armature root (1) has no parent: its target is its local transform.
    assert!(drives[2].parent_global.is_none());
}

#[test]
fn climb_stops_at_a_driven_bone_below_a_cycle() {
    // 1 -> 2 -> 1 is a cycle, but 2 is driven, so the climb from 1 stops there.
    let cyclic: HashMap<u64, Option<u64>> = [(1u64, Some(2u64)), (2, Some(1))].into_iter().collect();
    let driven: HashSet<u64> = [2u64].into_iter().collect();
    let fresh = fresh_bone_global(1, &driven, &cyclic);
    assert_eq!(fresh.base, GlobalBase::Target(2));
    assert_eq!(fresh.chain, vec![1]);
}

#[test]
fn driving_twice_gives_the_same_plan() {
    let mode = RagdollMode { dynamic: true };
    let first = drive_bones_from_ragdoll(&mode, &vec![8, 3], &skeleton());
    let second = drive_bones_from_ragdoll(&mode, &vec![8, 3], &skeleton());
    assert_eq!(first.len(), second.len());
    for (a, b) in first.iter().zip(second.iter()) {
        assert_eq!(a.bone, b.bone);
        let (ra, rb) = (a.parent_global.as_ref().unwrap(), b.parent_global.as_ref().unwrap());
        assert_eq!(ra.base, rb.base);
        assert_eq!(ra.chain, rb.chain);
        assert!(ra.chain.iter().all(|bone| *bone != 8 && *bone != 3));
    }
}
