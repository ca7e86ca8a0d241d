//! The ragdoll rig: which skeleton bones get a physics body, with which
//! collision shape, which bodies are joined, and the plan that turns the bones
//! found in a loaded scene into bodies and joints.

use vstd::prelude::*;

verus! {

/// Number of bones that get a physics body.
pub const RAGDOLL_PART_COUNT: usize = 14;

/// Number of joints between ragdoll bodies.
pub const RAGDOLL_JOINT_COUNT: usize = 13;

/// Number of leaf bones that hang from a point-only joint.
pub const FREE_LEAF_BONE_COUNT: usize = 4;

/// Collision shape of a ragdoll body; lengths are in millimetres.
#[derive(Clone, Copy, Debug, PartialEq, Eq)]
pub enum RagdollShape {
    Sphere { radius_mm: u32 },
    Capsule { radius_mm: u32, length_mm: u32 },
    Cuboid { x_mm: u32, y_mm: u32, z_mm: u32 },
}

/// A bone that gets a physics body, and the body's shape.
#[derive(Clone, Copy, Debug)]
pub struct RagdollPartSpec {
    pub bone_name: &'static str,
    pub shape: RagdollShape,
}

/// Bone name of each ragdoll part, by part index.
pub open spec fn spec_part_name(part: int) -> Seq<char> {
    if part == 0 {
        "root.x"@
    } else if part == 1 {
        "spine_01.x"@
    } else if part == 2 {
        "spine_02.x"@
    } else if part == 3 {
        "head.x"@
    } else if part == 4 {
        "shoulder.l"@
    } else if part == 5 {
        "forearm_stretch.l"@
    } else if part == 6 {
        "shoulder.r"@
    } else if part == 7 {
        "forearm_stretch.r"@
    } else if part == 8 {
        "thigh_stretch.l"@
    } else if part == 9 {
        "leg_stretch.l"@
    } else if part == 10 {
        "foot.l"@
    } else if part == 11 {
        "thigh_stretch.r"@
    } else if part == 12 {
        "leg_stretch.r"@
    } else {
        "foot.r"@
    }
}

/// Collision shape of each ragdoll part: the pelvis and the feet are boxes,
/// the head a ball, the spine and the limbs capsules.
pub open spec fn spec_part_shape(part: int) -> RagdollShape {
    if part == 0 {
        RagdollShape::Cuboid { x_mm: 350, y_mm: 250, z_mm: 280 }
    } else if part == 1 {
        RagdollShape::Capsule { radius_mm: 160, length_mm: 450 }
    } else if part == 2 {
        RagdollShape::Capsule { radius_mm: 150, length_mm: 420 }
    } else if part == 3 {
        RagdollShape::Sphere { radius_mm: 200 }
    } else if part == 4 || part == 6 {
        RagdollShape::Capsule { radius_mm: 80, length_mm: 450 }
    } else if part == 5 || part == 7 {
        RagdollShape::Capsule { radius_mm: 70, length_mm: 400 }
    } else if part == 8 || part == 11 {
        RagdollShape::Capsule { radius_mm: 100, length_mm: 550 }
    } else if part == 9 || part == 12 {
        RagdollShape::Capsule { radius_mm: 90, length_mm: 500 }
    } else {
        RagdollShape::Cuboid { x_mm: 150, y_mm: 120, z_mm: 280 }
    }
}

/// The bone and shape of ragdoll part `part`.
pub fn ragdoll_part(part: usize) -> (spec: RagdollPartSpec)
    requires
        part < RAGDOLL_PART_COUNT,
    ensures
        spec.bone_name@ == spec_part_name(part as int),
        spec.shape == spec_part_shape(part as int),
{
    if part == 0 {
        RagdollPartSpec {
            bone_name: "root.x",
            shape: RagdollShape::Cuboid { x_mm: 350, y_mm: 250, z_mm: 280 },
        }
    } else if part == 1 {
        RagdollPartSpec {
            bone_name: "spine_01.x",
            shape: RagdollShape::Capsule { radius_mm: 160, length_mm: 450 },
        }
    } else if part == 2 {
        RagdollPartSpec {
            bone_name: "spine_02.x",
            shape: RagdollShape::Capsule { radius_mm: 150, length_mm: 420 },
        }
    } else if part == 3 {
        RagdollPartSpec { bone_name: "head.x", shape: RagdollShape::Sphere { radius_mm: 200 } }
    } else if part == 4 {
        RagdollPartSpec {
            bone_name: "shoulder.l",
            shape: RagdollShape::Capsule { radius_mm: 80, length_mm: 450 },
        }
    } else if part == 5 {
        RagdollPartSpec {
            bone_name: "forearm_stretch.l",
            shape: RagdollShape::Capsule { radius_mm: 70, length_mm: 400 },
        }
    } else if part == 6 {
        RagdollPartSpec {
            bone_name: "shoulder.r",
            shape: RagdollShape::Capsule { radius_mm: 80, length_mm: 450 },
        }
    } else if part == 7 {
        RagdollPartSpec {
            bone_name: "forearm_stretch.r",
            shape: RagdollShape::Capsule { radius_mm: 70, length_mm: 400 },
        }
    } else if part == 8 {
        RagdollPartSpec {
            bone_name: "thigh_stretch.l",
            shape: RagdollShape::Capsule { radius_mm: 100, length_mm: 550 },
        }
    } else if part == 9 {
        RagdollPartSpec {
            bone_name: "leg_stretch.l",
            shape: RagdollShape::Capsule { radius_mm: 90, length_mm: 500 },
        }
    } else if part == 10 {
        RagdollPartSpec {
            bone_name: "foot.l",
            shape: RagdollShape::Cuboid { x_mm: 150, y_mm: 120, z_mm: 280 },
        }
    } else if part == 11 {
        RagdollPartSpec {
            bone_name: "thigh_stretch.r",
            shape: RagdollShape::Capsule { radius_mm: 100, length_mm: 550 },
        }
    } else if part == 12 {
        RagdollPartSpec {
            bone_name: "leg_stretch.r",
            shape: RagdollShape::Capsule { radius_mm: 90, length_mm: 500 },
        }
    } else {
        RagdollPartSpec {
            bone_name: "foot.r",
            shape: RagdollShape::Cuboid { x_mm: 150, y_mm: 120, z_mm: 280 },
        }
    }
}

/// Bone names of each joint, parent first, by joint index.
pub open spec fn spec_joint_names(joint: int) -> (Seq<char>, Seq<char>) {
    if joint == 0 {
        ("root.x"@, "spine_01.x"@)
    } else if joint == 1 {
        ("spine_01.x"@, "spine_02.x"@)
    } else if joint == 2 {
        ("spine_02.x"@, "head.x"@)
    } else if joint == 3 {
        ("spine_02.x"@, "shoulder.l"@)
    } else if joint == 4 {
        ("shoulder.l"@, "forearm_stretch.l"@)
    } else if joint == 5 {
        ("spine_02.x"@, "shoulder.r"@)
    } else if joint == 6 {
        ("shoulder.r"@, "forearm_stretch.r"@)
    } else if joint == 7 {
        ("root.x"@, "thigh_stretch.l"@)
    } else if joint == 8 {
        ("thigh_stretch.l"@, "leg_stretch.l"@)
    } else if joint == 9 {
        ("leg_stretch.l"@, "foot.l"@)
    } else if joint == 10 {
        ("root.x"@, "thigh_stretch.r"@)
    } else if joint == 11 {
        ("thigh_stretch.r"@, "leg_stretch.r"@)
    } else {
        ("leg_stretch.r"@, "foot.r"@)
    }
}

/// The parent and child bone names of joint `joint`.
pub fn ragdoll_joint(joint: usize) -> (names: (&'static str, &'static str))
    requires
        joint < RAGDOLL_JOINT_COUNT,
    ensures
        names.0@ == spec_joint_names(joint as int).0,
        names.1@ == spec_joint_names(joint as int).1,
{
    if joint == 0 {
        ("root.x", "spine_01.x")
    } else if joint == 1 {
        ("spine_01.x", "spine_02.x")
    } else if joint == 2 {
        ("spine_02.x", "head.x")
    } else if joint == 3 {
        ("spine_02.x", "shoulder.l")
    } else if joint == 4 {
        ("shoulder.l", "forearm_stretch.l")
    } else if joint == 5 {
        ("spine_02.x", "shoulder.r")
    } else if joint == 6 {
        ("shoulder.r", "forearm_stretch.r")
    } else if joint == 7 {
        ("root.x", "thigh_stretch.l")
    } else if joint == 8 {
        ("thigh_stretch.l", "leg_stretch.l")
    } else if joint == 9 {
        ("leg_stretch.l", "foot.l")
    } else if joint == 10 {
        ("root.x", "thigh_stretch.r")
    } else if joint == 11 {
        ("thigh_stretch.r", "leg_stretch.r")
    } else {
        ("leg_stretch.r", "foot.r")
    }
}

/// Names of the thin leaf bones (forearms and feet) that hang from a
/// point-only joint.
pub open spec fn spec_free_leaf_name(index: int) -> Seq<char> {
    if index == 0 {
        "forearm_stretch.l"@
    } else if index == 1 {
        "forearm_stretch.r"@
    } else if index == 2 {
        "foot.l"@
    } else {
        "foot.r"@
    }
}

/// Whether `name` is one of the free leaf bones.
pub open spec fn spec_is_free_leaf(name: Seq<char>) -> bool {
    exists|i: int| 0 <= i < FREE_LEAF_BONE_COUNT && spec_free_leaf_name(i) == name
}

fn free_leaf_bone(index: usize) -> (name: &'static str)
    requires
        index < FREE_LEAF_BONE_COUNT,
    ensures
        name@ == spec_free_leaf_name(index as int),
{
    if index == 0 {
        "forearm_stretch.l"
    } else if index == 1 {
        "forearm_stretch.r"
    } else if index == 2 {
        "foot.l"
    } else {
        "foot.r"
    }
}

fn same_name(a: &str, b: &str) -> (same: bool)
    ensures
        same == (a@ == b@),
{
    let a_owned = a.to_owned();
    let b_owned = b.to_owned();
    a_owned == b_owned
}

/// Whether bone `name` is a free leaf bone.
pub fn is_free_leaf_bone(name: &str) -> (free: bool)
    ensures
        free == spec_is_free_leaf(name@),
{
    let mut i: usize = 0;
    while i < FREE_LEAF_BONE_COUNT
        invariant
            i <= FREE_LEAF_BONE_COUNT,
            forall|k: int| 0 <= k < i ==> spec_free_leaf_name(k) != name@,
        decreases FREE_LEAF_BONE_COUNT - i,
    {
        if same_name(free_leaf_bone(i), name) {
            return true;
        }
        i = i + 1;
    }
    false
}

/// How two ragdoll bodies are joined.
#[derive(Clone, Copy, Debug, PartialEq, Eq)]
pub enum JointKind {
    /// Point-only joint: the child dangles freely around the pivot.
    Spherical,
    /// Near-rigid point constraint plus a compliant angle constraint that
    /// holds the current relative orientation as the rest pose.
    Fixed,
}

/// The kind of joint `joint`: spherical where its child is a free leaf bone.
pub open spec fn spec_joint_kind(joint: int) -> JointKind {
    if spec_is_free_leaf(spec_joint_names(joint).1) {
        JointKind::Spherical
    } else {
        JointKind::Fixed
    }
}

/// Position of the last bone called `name` in a scene's list of bone names:
/// a later bone of the same name replaces an earlier one.
pub open spec fn spec_last_match(names: Seq<Seq<char>>, name: Seq<char>) -> Option<int>
    decreases names.len(),
{
    if names.len() == 0 {
        None
    } else if names.last() == name {
        Some(names.len() - 1)
    } else {
        spec_last_match(names.drop_last(), name)
    }
}

/// [`spec_last_match`] finds the last bone called `name`: the bone there has
/// that name and no later bone does; when it finds nothing, no bone has it.
pub proof fn lemma_last_match(names: Seq<Seq<char>>, name: Seq<char>)
    ensures
        match spec_last_match(names, name) {
            Some(i) => 0 <= i < names.len() && names[i] == name && forall|j: int|
                i < j < names.len() ==> names[j] != name,
            None => forall|j: int| 0 <= j < names.len() ==> names[j] != name,
        },
    decreases names.len(),
{
    if names.len() > 0 && names.last() != name {
        let shorter = names.drop_last();
        lemma_last_match(shorter, name);
        assert forall|j: int| 0 <= j < shorter.len() implies shorter[j] == names[j] by {}
    }
}

/// Position of the last bone called `name`, if there is one.
pub fn last_index_of(names: &Vec<String>, name: &str) -> (found: Option<usize>)
    ensures
        match spec_last_match(names.deep_view(), name@) {
            Some(i) => found == Some(i as usize),
            None => found.is_none(),
        },
{
    proof {
        lemma_last_match(names.deep_view(), name@);
    }
    assert(names.deep_view().len() == names.len());
    let target = name.to_owned();
    let mut i = names.len();
    while i > 0
        invariant
            i <= names.len(),
            target@ == name@,
            forall|j: int| i <= j < names.len() ==> names@[j]@ != name@,
        decreases i,
    {
        i = i - 1;
        if names[i] == target {
            proof {
                assert(names.deep_view()[i as int] == names@[i as int]@);
                assert forall|j: int| i < j < names.len() implies names.deep_view()[j] != name@ by {
                    assert(names.deep_view()[j] == names@[j]@);
                }
                lemma_last_match(names.deep_view(), name@);
                if let Some(last) = spec_last_match(names.deep_view(), name@) {
                    if last > i {
                        assert(names.deep_view()[last] == names@[last]@);
                    }
                }
            }
            return Some(i);
        }
    }
    proof {
        assert forall|j: int| 0 <= j < names.len() implies names.deep_view()[j] != name@ by {
            assert(names.deep_view()[j] == names@[j]@);
        }
    }
    None
}

/// A physics body of the ragdoll: the part it stands for and the position of
/// its bone in the scene's list of bones.
#[derive(Clone, Copy, Debug, PartialEq, Eq)]
pub struct RagdollBody {
    pub part: usize,
    pub bone: usize,
}

/// A joint of the ragdoll: positions of the two bodies in the plan's list of
/// bodies, and the joint's kind.
#[derive(Clone, Copy, Debug, PartialEq, Eq)]
pub struct RagdollJointPlan {
    pub parent_body: usize,
    pub child_body: usize,
    pub kind: JointKind,
}

/// The bodies and joints to spawn for a scene.
#[derive(Clone, Debug)]
pub struct RagdollPlan {
    pub bodies: Vec<RagdollBody>,
    pub joints: Vec<RagdollJointPlan>,
}

/// Whether the scene holds the bone of part `part`.
pub open spec fn spec_part_found(names: Seq<Seq<char>>, part: int) -> bool {
    spec_last_match(names, spec_part_name(part)) is Some
}

/// The bodies for the first `parts` ragdoll parts, in part order: one for each
/// part whose bone the scene holds, on the last bone of that name.
pub open spec fn spec_planned_bodies(names: Seq<Seq<char>>, parts: int) -> Seq<RagdollBody>
    decreases parts,
{
    if parts <= 0 {
        seq![]
    } else {
        let earlier = spec_planned_bodies(names, parts - 1);
        match spec_last_match(names, spec_part_name(parts - 1)) {
            Some(bone) => earlier.push(RagdollBody { part: (parts - 1) as usize, bone: bone as usize }),
            None => earlier,
        }
    }
}

/// The joints among the first `joints` joints of the rig whose two bones the
/// scene holds, in rig order.
pub open spec fn spec_planned_joints(names: Seq<Seq<char>>, joints: int) -> Seq<int>
    decreases joints,
{
    if joints <= 0 {
        seq![]
    } else {
        let earlier = spec_planned_joints(names, joints - 1);
        let (parent, child) = spec_joint_names(joints - 1);
        if spec_last_match(names, parent) is Some && spec_last_match(names, child) is Some {
            earlier.push(joints - 1)
        } else {
            earlier
        }
    }
}

/// Part index of the parent and the child body of each joint.
pub open spec fn spec_joint_parts(joint: int) -> (int, int) {
    if joint == 0 {
        (0, 1)
    } else if joint == 1 {
        (1, 2)
    } else if joint == 2 {
        (2, 3)
    } else if joint == 3 {
        (2, 4)
    } else if joint == 4 {
        (4, 5)
    } else if joint == 5 {
        (2, 6)
    } else if joint == 6 {
        (6, 7)
    } else if joint == 7 {
        (0, 8)
    } else if joint == 8 {
        (8, 9)
    } else if joint == 9 {
        (9, 10)
    } else if joint == 10 {
        (0, 11)
    } else if joint == 11 {
        (11, 12)
    } else {
        (12, 13)
    }
}

/// The rig of the model, value by value: the bone name and collision shape
/// of every part (lengths in millimetres), the parent and child part of every
/// joint (the pelvis carries the spine and both thighs, the upper spine the
/// head and both shoulders, every other part the next part of its limb), and
/// the free leaf bones.
pub proof fn lemma_rig_values()
    ensures
        spec_part_name(0) == "root.x"@,
        spec_part_shape(0) == (RagdollShape::Cuboid { x_mm: 350, y_mm: 250, z_mm: 280 }),
        spec_part_name(1) == "spine_01.x"@,
        spec_part_shape(1) == (RagdollShape::Capsule { radius_mm: 160, length_mm: 450 }),
        spec_part_name(2) == "spine_02.x"@,
        spec_part_shape(2) == (RagdollShape::Capsule { radius_mm: 150, length_mm: 420 }),
        spec_part_name(3) == "head.x"@,
        spec_part_shape(3) == (RagdollShape::Sphere { radius_mm: 200 }),
        spec_part_name(4) == "shoulder.l"@,
        spec_part_shape(4) == (RagdollShape::Capsule { radius_mm: 80, length_mm: 450 }),
        spec_part_name(5) == "forearm_stretch.l"@,
        spec_part_shape(5) == (RagdollShape::Capsule { radius_mm: 70, length_mm: 400 }),
        spec_part_name(6) == "shoulder.r"@,
        spec_part_shape(6) == (RagdollShape::Capsule { radius_mm: 80, length_mm: 450 }),
        spec_part_name(7) == "forearm_stretch.r"@,
        spec_part_shape(7) == (RagdollShape::Capsule { radius_mm: 70, length_mm: 400 }),
        spec_part_name(8) == "thigh_stretch.l"@,
        spec_part_shape(8) == (RagdollShape::Capsule { radius_mm: 100, length_mm: 550 }),
        spec_part_name(9) == "leg_stretch.l"@,
        spec_part_shape(9) == (RagdollShape::Capsule { radius_mm: 90, length_mm: 500 }),
        spec_part_name(10) == "foot.l"@,
        spec_part_shape(10) == (RagdollShape::Cuboid { x_mm: 150, y_mm: 120, z_mm: 280 }),
        spec_part_name(11) == "thigh_stretch.r"@,
        spec_part_shape(11) == (RagdollShape::Capsule { radius_mm: 100, length_mm: 550 }),
        spec_part_name(12) == "leg_stretch.r"@,
        spec_part_shape(12) == (RagdollShape::Capsule { radius_mm: 90, length_mm: 500 }),
        spec_part_name(13) == "foot.r"@,
        spec_part_shape(13) == (RagdollShape::Cuboid { x_mm: 150, y_mm: 120, z_mm: 280 }),
        spec_joint_parts(0) == (0int, 1int),
        spec_joint_parts(1) == (1int, 2int),
        spec_joint_parts(2) == (2int, 3int),
        spec_joint_parts(3) == (2int, 4int),
        spec_joint_parts(4) == (4int, 5int),
        spec_joint_parts(5) == (2int, 6int),
        spec_joint_parts(6) == (6int, 7int),
        spec_joint_parts(7) == (0int, 8int),
        spec_joint_parts(8) == (8int, 9int),
        spec_joint_parts(9) == (9int, 10int),
        spec_joint_parts(10) == (0int, 11int),
        spec_joint_parts(11) == (11int, 12int),
        spec_joint_parts(12) == (12int, 13int),
        spec_free_leaf_name(0) == "forearm_stretch.l"@,
        spec_free_leaf_name(1) == "forearm_stretch.r"@,
        spec_free_leaf_name(2) == "foot.l"@,
        spec_free_leaf_name(3) == "foot.r"@,
{
}

/// Radius of a capsule (zero for any other shape).
pub open spec fn spec_capsule_radius(shape: RagdollShape) -> int {
    match shape {
        RagdollShape::Capsule { radius_mm, .. } => radius_mm as int,
        _ => 0,
    }
}

/// A capsule is longer than its diameter; other shapes pass.
pub open spec fn spec_elongated(shape: RagdollShape) -> bool {
    match shape {
        RagdollShape::Capsule { radius_mm, length_mm } => length_mm > 2 * radius_mm,
        _ => true,
    }
}

/// The rig's shapes make a plausible body: mirrored left and right parts have
/// the same shape; every capsule is longer than it is wide; a limb is thinner
/// below the joint than above it (forearm below shoulder, shin below thigh);
/// the pelvis and the feet are boxes and the head is a ball.
pub proof fn lemma_rig_shapes_plausible()
    ensures
        spec_part_shape(4) == spec_part_shape(6),
        spec_part_shape(5) == spec_part_shape(7),
        spec_part_shape(8) == spec_part_shape(11),
        spec_part_shape(9) == spec_part_shape(12),
        spec_part_shape(10) == spec_part_shape(13),
        forall|p: int|
            0 <= p < RAGDOLL_PART_COUNT ==> spec_elongated(#[trigger] spec_part_shape(p)),
        spec_capsule_radius(spec_part_shape(5)) < spec_capsule_radius(spec_part_shape(4)),
        spec_capsule_radius(spec_part_shape(9)) < spec_capsule_radius(spec_part_shape(8)),
        (spec_part_shape(0) is Cuboid) && (spec_part_shape(10) is Cuboid) && (spec_part_shape(13) is Cuboid),
        (spec_part_shape(3) is Sphere),
{
}

/// The rig tables agree with one another and describe a skeleton: every part
/// has a bone name of its own; every joint names the bones of two parts, the
/// parent part coming before the child part; every part but the pelvis is the
/// child of exactly one joint (the joints form a tree rooted at the pelvis);
/// and exactly the joints that end in a forearm or a foot are spherical.
pub proof fn lemma_rig_tables()
    ensures
        forall|p: int, q: int|
            0 <= p < RAGDOLL_PART_COUNT && 0 <= q < RAGDOLL_PART_COUNT && p != q
                ==> #[trigger] spec_part_name(p) != #[trigger] spec_part_name(q),
        forall|j: int|
            0 <= j < RAGDOLL_JOINT_COUNT ==> {
                &&& spec_part_name(#[trigger] spec_joint_parts(j).0) == spec_joint_names(j).0
                &&& spec_part_name(spec_joint_parts(j).1) == spec_joint_names(j).1
                &&& 0 <= spec_joint_parts(j).0 < spec_joint_parts(j).1
                &&& spec_joint_parts(j).1 == j + 1
            },
        forall|j: int|
            0 <= j < RAGDOLL_JOINT_COUNT ==> (#[trigger] spec_joint_kind(j) == JointKind::Spherical
                <==> (j == 4 || j == 6 || j == 9 || j == 12)),
{
    reveal_strlit("root.x");
    reveal_strlit("spine_01.x");
    reveal_strlit("spine_02.x");
    reveal_strlit("head.x");
    reveal_strlit("shoulder.l");
    reveal_strlit("forearm_stretch.l");
    reveal_strlit("shoulder.r");
    reveal_strlit("forearm_stretch.r");
    reveal_strlit("thigh_stretch.l");
    reveal_strlit("leg_stretch.l");
    reveal_strlit("foot.l");
    reveal_strlit("thigh_stretch.r");
    reveal_strlit("leg_stretch.r");
    reveal_strlit("foot.r");
    assert(spec_part_name(0).len() == 6 && spec_part_name(0)[0] == 'r' && spec_part_name(0)[1] == 'o' && spec_part_name(0)[5] == 'x');
    assert(spec_part_name(1).len() == 10 && spec_part_name(1)[0] == 's' && spec_part_name(1)[1] == 'p' && spec_part_name(1)[7] == '1' && spec_part_name(1)[9] == 'x');
    assert(spec_part_name(2).len() == 10 && spec_part_name(2)[0] == 's' && spec_part_name(2)[1] == 'p' && spec_part_name(2)[7] == '2' && spec_part_name(2)[9] == 'x');
    assert(spec_part_name(3).len() == 6 && spec_part_name(3)[0] == 'h' && spec_part_name(3)[1] == 'e' && spec_part_name(3)[5] == 'x');
    assert(spec_part_name(4).len() == 10 && spec_part_name(4)[0] == 's' && spec_part_name(4)[1] == 'h' && spec_part_name(4)[7] == 'r' && spec_part_name(4)[9] == 'l');
    assert(spec_part_name(5).len() == 17 && spec_part_name(5)[0] == 'f' && spec_part_name(5)[1] == 'o' && spec_part_name(5)[7] == '_' && spec_part_name(5)[16] == 'l');
    assert(spec_part_name(6).len() == 10 && spec_part_name(6)[0] == 's' && spec_part_name(6)[1] == 'h' && spec_part_name(6)[7] == 'r' && spec_part_name(6)[9] == 'r');
    assert(spec_part_name(7).len() == 17 && spec_part_name(7)[0] == 'f' && spec_part_name(7)[1] == 'o' && spec_part_name(7)[7] == '_' && spec_part_name(7)[16] == 'r');
    assert(spec_part_name(8).len() == 15 && spec_part_name(8)[0] == 't' && spec_part_name(8)[1] == 'h' && spec_part_name(8)[7] == 't' && spec_part_name(8)[14] == 'l');
    assert(spec_part_name(9).len() == 13 && spec_part_name(9)[0] == 'l' && spec_part_name(9)[1] == 'e' && spec_part_name(9)[7] == 'e' && spec_part_name(9)[12] == 'l');
    assert(spec_part_name(10).len() == 6 && spec_part_name(10)[0] == 'f' && spec_part_name(10)[1] == 'o' && spec_part_name(10)[5] == 'l');
    assert(spec_part_name(11).len() == 15 && spec_part_name(11)[0] == 't' && spec_part_name(11)[1] == 'h' && spec_part_name(11)[7] == 't' && spec_part_name(11)[14] == 'r');
    assert(spec_part_name(12).len() == 13 && spec_part_name(12)[0] == 'l' && spec_part_name(12)[1] == 'e' && spec_part_name(12)[7] == 'e' && spec_part_name(12)[12] == 'r');
    assert(spec_part_name(13).len() == 6 && spec_part_name(13)[0] == 'f' && spec_part_name(13)[1] == 'o' && spec_part_name(13)[5] == 'r');
    assert(spec_free_leaf_name(0).len() == 17 && spec_free_leaf_name(0)[0] == 'f' && spec_free_leaf_name(0)[16] == 'l');
    assert(spec_free_leaf_name(1).len() == 17 && spec_free_leaf_name(1)[0] == 'f' && spec_free_leaf_name(1)[16] == 'r');
    assert(spec_free_leaf_name(2).len() == 6 && spec_free_leaf_name(2)[0] == 'f' && spec_free_leaf_name(2)[5] == 'l');
    assert(spec_free_leaf_name(3).len() == 6 && spec_free_leaf_name(3)[0] == 'f' && spec_free_leaf_name(3)[5] == 'r');
    assert forall|j: int| 0 <= j < RAGDOLL_JOINT_COUNT implies (#[trigger] spec_joint_kind(j)
        == JointKind::Spherical <==> (j == 4 || j == 6 || j == 9 || j == 12)) by {
        if j == 4 {
            assert(spec_free_leaf_name(0) == spec_joint_names(j).1);
        } else if j == 6 {
            assert(spec_free_leaf_name(1) == spec_joint_names(j).1);
        } else if j == 9 {
            assert(spec_free_leaf_name(2) == spec_joint_names(j).1);
        } else if j == 12 {
            assert(spec_free_leaf_name(3) == spec_joint_names(j).1);
        } else {
            assert forall|i: int| 0 <= i < FREE_LEAF_BONE_COUNT implies spec_free_leaf_name(i)
                != spec_joint_names(j).1 by {}
        }
    }
}

/// The planned bodies, in increasing part order, are exactly the parts whose
/// bone the scene holds, each on the last bone of its name.
pub proof fn lemma_planned_bodies(names: Seq<Seq<char>>, parts: int)
    requires
        0 <= parts <= RAGDOLL_PART_COUNT,
        names.len() <= usize::MAX,
    ensures
        spec_planned_bodies(names, parts).len() <= parts,
        forall|i: int|
            0 <= i < spec_planned_bodies(names, parts).len() ==> {
                let b = #[trigger] spec_planned_bodies(names, parts)[i];
                &&& b.part < parts
                &&& spec_last_match(names, spec_part_name(b.part as int)) == Some(b.bone as int)
            },
        forall|i: int, k: int|
            0 <= i < k < spec_planned_bodies(names, parts).len() ==> (#[trigger] spec_planned_bodies(
                names,
                parts,
            )[i]).part < (#[trigger] spec_planned_bodies(names, parts)[k]).part,
        forall|p: int|
            0 <= p < parts ==> (#[trigger] spec_part_found(names, p) <==> exists|i: int|
                0 <= i < spec_planned_bodies(names, parts).len() && (#[trigger] spec_planned_bodies(
                    names,
                    parts,
                )[i]).part == p),
    decreases parts,
{
    if parts > 0 {
        lemma_planned_bodies(names, parts - 1);
        let earlier = spec_planned_bodies(names, parts - 1);
        let now = spec_planned_bodies(names, parts);
        lemma_last_match(names, spec_part_name(parts - 1));
        match spec_last_match(names, spec_part_name(parts - 1)) {
            Some(bone) => {
                assert(now == earlier.push(
                    RagdollBody { part: (parts - 1) as usize, bone: bone as usize },
                ));
                assert forall|p: int| 0 <= p < parts implies (#[trigger] spec_part_found(names, p)
                    <==> exists|i: int| 0 <= i < now.len() && (#[trigger] now[i]).part == p) by {
                    if p == parts - 1 {
                        assert(now[now.len() - 1].part == p);
                    } else if spec_part_found(names, p) {
                        let i = choose|i: int| 0 <= i < earlier.len() && (#[trigger] earlier[i]).part == p;
                        assert(now[i] == earlier[i]);
                    } else {
                        assert forall|i: int| 0 <= i < now.len() implies (#[trigger] now[i]).part != p by {
                            if i < earlier.len() {
                                assert(now[i] == earlier[i]);
                            }
                        }
                    }
                }
            },
            None => {
                assert forall|p: int| 0 <= p < parts implies (#[trigger] spec_part_found(names, p)
                    <==> exists|i: int| 0 <= i < now.len() && (#[trigger] now[i]).part == p) by {
                    if p == parts - 1 {
                        assert(!spec_part_found(names, p));
                        assert forall|i: int| 0 <= i < now.len() implies (#[trigger] now[i]).part != p by {}
                    }
                }
            },
        }
    }
}

proof fn lemma_planned_joints_len(names: Seq<Seq<char>>, joints: int)
    requires
        0 <= joints,
    ensures
        spec_planned_joints(names, joints).len() <= joints,
        forall|i: int|
            0 <= i < spec_planned_joints(names, joints).len() ==> 0 <= #[trigger] spec_planned_joints(
                names,
                joints,
            )[i] < joints,
    decreases joints,
{
    if joints > 0 {
        lemma_planned_joints_len(names, joints - 1);
    }
}

/// The planned joints, in increasing rig order, are exactly the joints whose
/// two bones the scene holds.
pub proof fn lemma_planned_joints(names: Seq<Seq<char>>, joints: int)
    requires
        0 <= joints,
    ensures
        forall|i: int, k: int|
            0 <= i < k < spec_planned_joints(names, joints).len() ==> #[trigger] spec_planned_joints(
                names,
                joints,
            )[i] < #[trigger] spec_planned_joints(names, joints)[k],
        forall|j: int|
            0 <= j < joints ==> ((exists|i: int|
                0 <= i < spec_planned_joints(names, joints).len() && #[trigger] spec_planned_joints(
                    names,
                    joints,
                )[i] == j) <==> (spec_last_match(names, #[trigger] spec_joint_names(j).0) is Some
                && spec_last_match(names, spec_joint_names(j).1) is Some)),
    decreases joints,
{
    lemma_planned_joints_len(names, joints);
    if joints > 0 {
        lemma_planned_joints(names, joints - 1);
        lemma_planned_joints_len(names, joints - 1);
        let earlier = spec_planned_joints(names, joints - 1);
        let now = spec_planned_joints(names, joints);
        assert forall|j: int| 0 <= j < joints implies ((exists|i: int|
            0 <= i < now.len() && #[trigger] now[i] == j) <==> (spec_last_match(
            names,
            #[trigger] spec_joint_names(j).0,
        ) is Some && spec_last_match(names, spec_joint_names(j).1) is Some)) by {
            if j == joints - 1 {
                if spec_last_match(names, spec_joint_names(j).0) is Some && spec_last_match(
                    names,
                    spec_joint_names(j).1,
                ) is Some {
                    assert(now[now.len() - 1] == j);
                } else {
                    assert forall|i: int| 0 <= i < now.len() implies #[trigger] now[i] != j by {
                        assert(now[i] == earlier[i]);
                    }
                }
            } else {
                if exists|i: int| 0 <= i < earlier.len() && #[trigger] earlier[i] == j {
                    let i = choose|i: int| 0 <= i < earlier.len() && #[trigger] earlier[i] == j;
                    assert(now[i] == earlier[i]);
                }
                if exists|i: int| 0 <= i < now.len() && #[trigger] now[i] == j {
                    let i = choose|i: int| 0 <= i < now.len() && #[trigger] now[i] == j;
                    if i < earlier.len() {
                        assert(now[i] == earlier[i]);
                    }
                }
            }
        }
        assert forall|i: int, k: int| 0 <= i < k < now.len() implies #[trigger] now[i]
            < #[trigger] now[k] by {
            if k < earlier.len() {
                assert(now[i] == earlier[i] && now[k] == earlier[k]);
            } else {
                assert(now[i] == earlier[i]);
            }
        }
    }
}

fn find_body(bodies: &Vec<RagdollBody>, name: &str) -> (found: Option<usize>)
    requires
        forall|i: int| 0 <= i < bodies.len() ==> (#[trigger] bodies@[i]).part < RAGDOLL_PART_COUNT,
    ensures
        match found {
            Some(i) => i < bodies.len() && spec_part_name(bodies@[i as int].part as int) == name@,
            None => forall|i: int|
                0 <= i < bodies.len() ==> spec_part_name((#[trigger] bodies@[i]).part as int) != name@,
        },
{
    let mut i: usize = 0;
    while i < bodies.len()
        invariant
            i <= bodies.len(),
            forall|k: int| 0 <= k < bodies.len() ==> (#[trigger] bodies@[k]).part < RAGDOLL_PART_COUNT,
            forall|k: int|
                0 <= k < i ==> spec_part_name((#[trigger] bodies@[k]).part as int) != name@,
        decreases bodies.len() - i,
    {
        if same_name(ragdoll_part(bodies[i].part).bone_name, name) {
            return Some(i);
        }
        i = i + 1;
    }
    None
}

/// A scene never gives more bodies than there are parts nor more joints than
/// the rig has, and a scene that holds the bone of every part gives all of
/// them: one body per part, in part order, and every joint of the rig.
pub proof fn lemma_plan_sizes(names: Seq<Seq<char>>)
    requires
        names.len() <= usize::MAX,
    ensures
        spec_planned_bodies(names, RAGDOLL_PART_COUNT as int).len() <= RAGDOLL_PART_COUNT,
        spec_planned_joints(names, RAGDOLL_JOINT_COUNT as int).len() <= RAGDOLL_JOINT_COUNT,
        (forall|p: int| 0 <= p < RAGDOLL_PART_COUNT ==> #[trigger] spec_part_found(names, p)) ==> {
            &&& spec_planned_bodies(names, RAGDOLL_PART_COUNT as int).len() == RAGDOLL_PART_COUNT
            &&& forall|i: int|
                0 <= i < RAGDOLL_PART_COUNT ==> (#[trigger] spec_planned_bodies(
                    names,
                    RAGDOLL_PART_COUNT as int,
                )[i]).part == i
            &&& spec_planned_joints(names, RAGDOLL_JOINT_COUNT as int) == Seq::new(
                RAGDOLL_JOINT_COUNT as nat,
                |j: int| j,
            )
        },
{
    lemma_planned_bodies(names, RAGDOLL_PART_COUNT as int);
    lemma_planned_joints_len(names, RAGDOLL_JOINT_COUNT as int);
    if forall|p: int| 0 <= p < RAGDOLL_PART_COUNT ==> #[trigger] spec_part_found(names, p) {
        lemma_all_found_plans_everything(names, RAGDOLL_PART_COUNT as int, RAGDOLL_JOINT_COUNT as int);
    }
}

proof fn lemma_all_found_plans_everything(names: Seq<Seq<char>>, parts: int, joints: int)
    requires
        0 <= parts <= RAGDOLL_PART_COUNT,
        0 <= joints <= RAGDOLL_JOINT_COUNT,
        forall|p: int| 0 <= p < RAGDOLL_PART_COUNT ==> #[trigger] spec_part_found(names, p),
    ensures
        spec_planned_bodies(names, parts).len() == parts,
        forall|i: int|
            0 <= i < parts ==> (#[trigger] spec_planned_bodies(names, parts)[i]).part == i,
        spec_planned_joints(names, joints) == Seq::new(joints as nat, |j: int| j),
    decreases parts + joints,
{
    if parts > 0 {
        lemma_all_found_plans_everything(names, parts - 1, joints);
        assert(spec_part_found(names, parts - 1));
        let earlier = spec_planned_bodies(names, parts - 1);
        assert forall|i: int| 0 <= i < parts implies (#[trigger] spec_planned_bodies(
            names,
            parts,
        )[i]).part == i by {
            if i < parts - 1 {
                assert(spec_planned_bodies(names, parts)[i] == earlier[i]);
            }
        }
    } else if joints > 0 {
        lemma_all_found_plans_everything(names, parts, joints - 1);
        lemma_rig_tables();
        let j = joints - 1;
        assert(spec_part_found(names, spec_joint_parts(j).0));
        assert(spec_part_found(names, spec_joint_parts(j).1));
        assert(spec_planned_joints(names, joints) =~= Seq::new(joints as nat, |k: int| k));
    }
}

proof fn lemma_last_match_insert(names: Seq<Seq<char>>, extra: Seq<char>, at: int, name: Seq<char>)
    requires
        0 <= at <= names.len(),
        name != extra,
    ensures
        spec_last_match(names.insert(at, extra), name) == match spec_last_match(names, name) {
            Some(i) => Some(if i >= at {
                i + 1
            } else {
                i
            }),
            None => None,
        },
{
    let longer = names.insert(at, extra);
    lemma_last_match(names, name);
    lemma_last_match(longer, name);
    assert forall|j: int| 0 <= j < longer.len() implies #[trigger] longer[j] == (if j < at {
        names[j]
    } else if j == at {
        extra
    } else {
        names[j - 1]
    }) by {}
    match spec_last_match(names, name) {
        Some(i) => {
            let moved = if i >= at {
                i + 1
            } else {
                i
            };
            assert(longer[moved] == name);
            match spec_last_match(longer, name) {
                Some(m) => {
                    if m > moved {
                        if m > at {
                            assert(names[m - 1] == name);
                        } else {
                            assert(names[m] == name);
                        }
                    }
                },
                None => {},
            }
        },
        None => {
            match spec_last_match(longer, name) {
                Some(m) => {
                    if m > at {
                        assert(names[m - 1] == name);
                    } else if m < at {
                        assert(names[m] == name);
                    }
                },
                None => {},
            }
        },
    }
}

proof fn lemma_planned_bodies_insert(
    names: Seq<Seq<char>>,
    extra: Seq<char>,
    at: int,
    parts: int,
)
    requires
        0 <= at <= names.len(),
        names.len() < usize::MAX,
        0 <= parts <= RAGDOLL_PART_COUNT,
        forall|p: int| 0 <= p < RAGDOLL_PART_COUNT ==> #[trigger] spec_part_name(p) != extra,
    ensures
        spec_planned_bodies(names.insert(at, extra), parts).len() == spec_planned_bodies(
            names,
            parts,
        ).len(),
        forall|i: int|
            0 <= i < spec_planned_bodies(names, parts).len() ==> {
                let before = #[trigger] spec_planned_bodies(names, parts)[i];
                let after = spec_planned_bodies(names.insert(at, extra), parts)[i];
                &&& after.part == before.part
                &&& after.bone as int == if before.bone >= at {
                    before.bone + 1
                } else {
                    before.bone as int
                }
            },
    decreases parts,
{
    if parts > 0 {
        lemma_planned_bodies_insert(names, extra, at, parts - 1);
        let name = spec_part_name(parts - 1);
        lemma_last_match_insert(names, extra, at, name);
        lemma_last_match(names, name);
        let longer = names.insert(at, extra);
        let b1 = spec_planned_bodies(names, parts);
        let b2 = spec_planned_bodies(longer, parts);
        let e1 = spec_planned_bodies(names, parts - 1);
        let e2 = spec_planned_bodies(longer, parts - 1);
        assert forall|i: int| 0 <= i < b1.len() implies {
            let before = #[trigger] b1[i];
            let after = b2[i];
            &&& after.part == before.part
            &&& after.bone as int == if before.bone >= at {
                before.bone + 1
            } else {
                before.bone as int
            }
        } by {
            if i < e1.len() {
                assert(b1[i] == e1[i]);
                assert(b2[i] == e2[i]);
            }
        }
    }
}

/// Bones that no ragdoll part names do not change the plan: adding such a bone
/// anywhere in the scene's list of bones gives the same bodies for the same
/// parts (each on the same bone, whose position in the list moves past the
/// added one) and the same joints.
pub proof fn lemma_plan_ignores_foreign_bones(names: Seq<Seq<char>>, extra: Seq<char>, at: int)
    requires
        0 <= at <= names.len(),
        names.len() < usize::MAX,
        forall|p: int| 0 <= p < RAGDOLL_PART_COUNT ==> #[trigger] spec_part_name(p) != extra,
    ensures
        spec_planned_bodies(names.insert(at, extra), RAGDOLL_PART_COUNT as int).len()
            == spec_planned_bodies(names, RAGDOLL_PART_COUNT as int).len(),
        forall|i: int|
            0 <= i < spec_planned_bodies(names, RAGDOLL_PART_COUNT as int).len() ==> {
                let before = #[trigger] spec_planned_bodies(names, RAGDOLL_PART_COUNT as int)[i];
                let after = spec_planned_bodies(names.insert(at, extra), RAGDOLL_PART_COUNT as int)[i];
                &&& after.part == before.part
                &&& after.bone as int == if before.bone >= at {
                    before.bone + 1
                } else {
                    before.bone as int
                }
            },
        spec_planned_joints(names.insert(at, extra), RAGDOLL_JOINT_COUNT as int)
            == spec_planned_joints(names, RAGDOLL_JOINT_COUNT as int),
{
    lemma_planned_bodies_insert(names, extra, at, RAGDOLL_PART_COUNT as int);
    lemma_planned_joints_insert(names, extra, at, RAGDOLL_JOINT_COUNT as int);
}

proof fn lemma_planned_joints_insert(names: Seq<Seq<char>>, extra: Seq<char>, at: int, joints: int)
    requires
        0 <= at <= names.len(),
        0 <= joints <= RAGDOLL_JOINT_COUNT,
        forall|p: int| 0 <= p < RAGDOLL_PART_COUNT ==> #[trigger] spec_part_name(p) != extra,
    ensures
        spec_planned_joints(names.insert(at, extra), joints) == spec_planned_joints(names, joints),
    decreases joints,
{
    if joints > 0 {
        lemma_planned_joints_insert(names, extra, at, joints - 1);
        lemma_rig_tables();
        let (parent, child) = spec_joint_names(joints - 1);
        assert(spec_part_name(spec_joint_parts(joints - 1).0) == parent);
        assert(spec_part_name(spec_joint_parts(joints - 1).1) == child);
        lemma_last_match_insert(names, extra, at, parent);
        lemma_last_match_insert(names, extra, at, child);
    }
}

/// The bodies and joints of the ragdoll for a scene whose bones carry the
/// names `bone_names` (in the order in which the scene lists them): a body for
/// every part whose bone the scene holds, on the last bone of that name, in
/// part order; and a joint for every rig joint whose two bones the scene
/// holds, in rig order, between the bodies of its two parts, spherical where
/// its child is a free leaf bone.
pub fn plan_ragdoll(bone_names: &Vec<String>) -> (plan: RagdollPlan)
    ensures
        plan.bodies@ == spec_planned_bodies(bone_names.deep_view(), RAGDOLL_PART_COUNT as int),
        plan.bodies@.len() <= RAGDOLL_PART_COUNT,
        plan.joints@.len() <= RAGDOLL_JOINT_COUNT,
        plan.joints@.len() == spec_planned_joints(
            bone_names.deep_view(),
            RAGDOLL_JOINT_COUNT as int,
        ).len(),
        forall|i: int|
            0 <= i < plan.joints@.len() ==> {
                let joint = spec_planned_joints(bone_names.deep_view(), RAGDOLL_JOINT_COUNT as int)[i];
                let planned = #[trigger] plan.joints@[i];
                &&& planned.parent_body < plan.bodies@.len()
                &&& planned.child_body < plan.bodies@.len()
                &&& plan.bodies@[planned.parent_body as int].part == spec_joint_parts(joint).0
                &&& plan.bodies@[planned.child_body as int].part == spec_joint_parts(joint).1
                &&& planned.kind == spec_joint_kind(joint)
            },
{
    let ghost names = bone_names.deep_view();
    proof {
        lemma_rig_tables();
    }
    let mut bodies: Vec<RagdollBody> = Vec::new();
    let mut part: usize = 0;
    while part < RAGDOLL_PART_COUNT
        invariant
            part <= RAGDOLL_PART_COUNT,
            names == bone_names.deep_view(),
            bodies@ == spec_planned_bodies(names, part as int),
        decreases RAGDOLL_PART_COUNT - part,
    {
        let spec = ragdoll_part(part);
        match last_index_of(bone_names, spec.bone_name) {
            Some(bone) => {
                bodies.push(RagdollBody { part, bone });
            },
            None => {},
        }
        part = part + 1;
    }
    proof {
        assert(names.len() == bone_names.len());
        lemma_planned_bodies(names, RAGDOLL_PART_COUNT as int);
    }
    let mut joints: Vec<RagdollJointPlan> = Vec::new();
    let mut joint: usize = 0;
    while joint < RAGDOLL_JOINT_COUNT
        invariant
            joint <= RAGDOLL_JOINT_COUNT,
            names == bone_names.deep_view(),
            names.len() == bone_names.len(),
            bodies@ == spec_planned_bodies(names, RAGDOLL_PART_COUNT as int),
            forall|i: int| 0 <= i < bodies.len() ==> (#[trigger] bodies@[i]).part < RAGDOLL_PART_COUNT,
            joints@.len() == spec_planned_joints(names, joint as int).len(),
            forall|i: int|
                0 <= i < joints@.len() ==> {
                    let rig_joint = spec_planned_joints(names, joint as int)[i];
                    let planned = #[trigger] joints@[i];
                    &&& planned.parent_body < bodies@.len()
                    &&& planned.child_body < bodies@.len()
                    &&& bodies@[planned.parent_body as int].part == spec_joint_parts(rig_joint).0
                    &&& bodies@[planned.child_body as int].part == spec_joint_parts(rig_joint).1
                    &&& planned.kind == spec_joint_kind(rig_joint)
                },
        decreases RAGDOLL_JOINT_COUNT - joint,
    {
        proof {
            lemma_rig_tables();
            lemma_planned_bodies(names, RAGDOLL_PART_COUNT as int);
        }
        let ghost earlier = spec_planned_joints(names, joint as int);
        let (parent_name, child_name) = ragdoll_joint(joint);
        let ghost parent_part = spec_joint_parts(joint as int).0;
        let ghost child_part = spec_joint_parts(joint as int).1;
        let parent_body = find_body(&bodies, parent_name);
        let child_body = find_body(&bodies, child_name);
        proof {
            assert(spec_part_name(parent_part) == parent_name@);
            assert(spec_part_name(child_part) == child_name@);
            if let Some(b) = parent_body {
                assert(bodies@[b as int].part == parent_part);
            } else {
                assert forall|i: int| 0 <= i < bodies.len() implies (#[trigger] bodies@[i]).part
                    != parent_part by {}
                assert(!spec_part_found(names, parent_part));
            }
            if let Some(b) = child_body {
                assert(bodies@[b as int].part == child_part);
            } else {
                assert forall|i: int| 0 <= i < bodies.len() implies (#[trigger] bodies@[i]).part
                    != child_part by {}
                assert(!spec_part_found(names, child_part));
            }
        }
        match (parent_body, child_body) {
            (Some(p), Some(c)) => {
                proof {
                    assert(spec_part_found(names, parent_part));
                    assert(spec_part_found(names, child_part));
                }
                let kind = if is_free_leaf_bone(child_name) {
                    JointKind::Spherical
                } else {
                    JointKind::Fixed
                };
                joints.push(RagdollJointPlan { parent_body: p, child_body: c, kind });
                proof {
                    assert(spec_planned_joints(names, joint + 1) == earlier.push(joint as int));
                }
            },
            _ => {
                proof {
                    assert(spec_planned_joints(names, joint + 1) == earlier);
                }
            },
        }
        joint = joint + 1;
    }
    proof {
        lemma_plan_sizes(names);
    }
    RagdollPlan { bodies, joints }
}

} // verus!
