use glb_ragdoll::rig::{
    is_free_leaf_bone, last_index_of, plan_ragdoll, ragdoll_joint, ragdoll_part, JointKind,
    RagdollBody, RagdollShape, RAGDOLL_JOINT_COUNT, RAGDOLL_PART_COUNT,
};

fn all_bone_names() -> Vec<String> {
    (0..RAGDOLL_PART_COUNT).map(|p| ragdoll_part(p).bone_name.to_string()).collect()
}

#[test]
fn part_table() {
    assert_eq!(ragdoll_part(0).bone_name, "root.x");
    assert_eq!(
        ragdoll_part(0).shape,
        RagdollShape::Cuboid { x_mm: 350, y_mm: 250, z_mm: 280 }
    );
    assert_eq!(ragdoll_part(3).shape, RagdollShape::Sphere { radius_mm: 200 });
    assert_eq!(
        ragdoll_part(5).shape,
        RagdollShape::Capsule { radius_mm: 70, length_mm: 400 }
    );
    assert_eq!(ragdoll_part(13).bone_name, "foot.r");
}

#[test]
fn part_names_are_distinct() {
    let names = all_bone_names();
    for i in 0..names.len() {
        for j in 0..i {
            assert_ne!(names[i], names[j]);
        }
    }
}

#[test]
fn joints_form_a_tree() {
    let names = all_bone_names();
    for j in 0..RAGDOLL_JOINT_COUNT {
        let (parent, child) = ragdoll_joint(j);
        let p = names.iter().position(|n| n == parent).unwrap();
        let c = names.iter().position(|n| n == child).unwrap();
        assert!(p < c);
        assert_eq!(c, j + 1);
    }
}

#[test]
fn free_leaf_bones() {
    assert!(is_free_leaf_bone("forearm_stretch.l"));
    assert!(is_free_leaf_bone("foot.r"));
    assert!(!is_free_leaf_bone("shoulder.l"));
    assert!(!is_free_leaf_bone("hand.l"));
}

#[test]
fn last_bone_of_a_name_wins() {
    let names: Vec<String> = vec!["a".into(), "root.x".into(), "b".into(), "root.x".into()];
    assert_eq!(last_index_of(&names, "root.x"), Some(3));
    assert_eq!(last_index_of(&names, "a"), Some(0));
    assert_eq!(last_index_of(&names, "c"), None);
}

#[test]
fn full_skeleton_gives_every_body_and_joint() {
    let mut names = vec!["Armature".to_string(), "hand.l".to_string()];
    names.extend(all_bone_names());
    let plan = plan_ragdoll(&names);
    assert_eq!(plan.bodies.len(), 14);
    assert_eq!(plan.joints.len(), 13);
    for (i, body) in plan.bodies.iter().enumerate() {
        assert_eq!(*body, RagdollBody { part: i, bone: i + 2 });
    }
    for (j, joint) in plan.joints.iter().enumerate() {
        assert_eq!(joint.child_body, j + 1);
        let spherical = matches!(j, 4 | 6 | 9 | 12);
        assert_eq!(joint.kind == JointKind::Spherical, spherical);
    }
    assert_eq!(plan.joints[0].parent_body, 0);
    assert_eq!(plan.joints[3].parent_body, 2);
}

#[test]
fn missing_bones_drop_bodies_and_their_joints() {
    let names: Vec<String> = all_bone_names()
        .into_iter()
        .filter(|n| n != "spine_02.x" && n != "foot.l")
        .collect();
    let plan = plan_ragdoll(&names);
    assert_eq!(plan.bodies.len(), 12);
    // joints touching spine_02.x (1, 2, 3, 5) or foot.l (9) are gone
    assert_eq!(plan.joints.len(), 8);
    for joint in &plan.joints {
        assert!(joint.parent_body < plan.bodies.len());
        assert!(joint.child_body < plan.bodies.len());
    }
}

#[test]
fn empty_scene_gives_no_ragdoll() {
    let plan = plan_ragdoll(&Vec::new());
    assert!(plan.bodies.is_empty());
    assert!(plan.joints.is_empty());
}

#[test]
fn bones_outside_the_rig_do_not_change_the_plan() {
    let names = all_bone_names();
    let plan = plan_ragdoll(&names);
    let mut with_extra = names.clone();
    with_extra.insert(5, "hand.l".to_string());
    let plan2 = plan_ragdoll(&with_extra);
    assert_eq!(plan.bodies.len(), plan2.bodies.len());
    for (a, b) in plan.bodies.iter().zip(plan2.bodies.iter()) {
        assert_eq!(a.part, b.part);
        assert_eq!(b.bone, if a.bone >= 5 { a.bone + 1 } else { a.bone });
    }
    assert_eq!(plan.joints, plan2.joints);
}
