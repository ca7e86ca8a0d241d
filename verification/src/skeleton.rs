//! Carrying the ragdoll's physics poses back onto the skeleton.
//!
//! Every bone with a physics body must land exactly on its body's world pose.
//! A bone's new local transform is its target expressed relative to its
//! parent's world transform *of this frame*, and that parent may itself ride on
//! a driven ancestor through bones that physics does not drive. This module
//! decides, for each driven bone, how that parent world transform is built: a
//! base (a body's target, or the last propagated world transform of a bone
//! that nothing drives this frame) followed by the local transforms of the
//! undriven bones below it. The transforms themselves are composed by the
//! caller. Entities are identified by their 64-bit id.

use std::collections::HashMap;
use std::collections::HashSet;
use vstd::prelude::*;

use crate::mode::RagdollMode;

verus! {

broadcast use vstd::std_specs::hash::group_hash_axioms;

/// Where the world transform of a bone starts from.
#[derive(Clone, Copy, Debug, PartialEq, Eq)]
pub enum GlobalBase {
    /// The physics target of this driven bone.
    Target(u64),
    /// The last propagated world transform of this bone, which nothing drives
    /// this frame (it has no tracked parent).
    Fallback(u64),
}

impl GlobalBase {
    pub open spec fn bone(self) -> u64 {
        match self {
            GlobalBase::Target(b) => b,
            GlobalBase::Fallback(b) => b,
        }
    }
}

/// How to build a bone's world transform of this frame: the base, then the
/// local transform of each bone in `chain`, outermost first.
#[derive(Clone, Debug)]
pub struct FreshGlobal {
    pub base: GlobalBase,
    pub chain: Vec<u64>,
}

/// Whether the skeleton records a parent for `bone`.
pub open spec fn spec_has_parent(parents: Map<u64, Option<u64>>, bone: u64) -> bool {
    parents.contains_key(bone) && parents[bone] is Some
}

/// The ancestor `steps` levels above `bone`, if the recorded parents reach
/// that far.
pub open spec fn spec_ancestor(parents: Map<u64, Option<u64>>, bone: u64, steps: nat) -> Option<
    u64,
>
    decreases steps,
{
    if steps == 0 {
        Some(bone)
    } else {
        match spec_ancestor(parents, bone, (steps - 1) as nat) {
            Some(a) => if spec_has_parent(parents, a) {
                parents[a]
            } else {
                None
            },
            None => None,
        }
    }
}

/// Whether the climb from `bone` stops at `steps` levels up: the bone there is
/// driven or has no recorded parent (or the climb has already stopped below).
pub open spec fn spec_stops_at(
    driven: Set<u64>,
    parents: Map<u64, Option<u64>>,
    bone: u64,
    steps: nat,
) -> bool {
    match spec_ancestor(parents, bone, steps) {
        Some(a) => driven.contains(a) || !spec_has_parent(parents, a),
        None => true,
    }
}

/// The climb from `bone` up the recorded parents meets a driven bone or a bone
/// without a recorded parent: it does not run round a cycle of undriven bones.
pub open spec fn spec_climb_stops(
    driven: Set<u64>,
    parents: Map<u64, Option<u64>>,
    bone: u64,
) -> bool {
    exists|steps: nat| #[trigger] spec_stops_at(driven, parents, bone, steps)
}

/// `base` and `chain` build the world transform of `bone` for this frame: the
/// chain is the run of undriven bones with a recorded parent that starts at
/// `bone` and climbs the hierarchy, listed from the top down; the base is the
/// bone where the climb stops, a driven bone (its target) or an undriven one
/// without a recorded parent (its last world transform).
pub open spec fn spec_is_fresh_global(
    driven: Set<u64>,
    parents: Map<u64, Option<u64>>,
    bone: u64,
    base: GlobalBase,
    chain: Seq<u64>,
) -> bool {
    let n = chain.len();
    &&& forall|k: int|
        0 <= k < n ==> {
            &&& spec_ancestor(parents, bone, (n - 1 - k) as nat) == Some(#[trigger] chain[k])
            &&& !driven.contains(chain[k])
            &&& spec_has_parent(parents, chain[k])
        }
    &&& spec_ancestor(parents, bone, n) == Some(base.bone())
    &&& (base is Target <==> driven.contains(base.bone()))
    &&& (base is Fallback ==> !spec_has_parent(parents, base.bone()))
}

/// How to build the world transform that `bone` has this frame, given the
/// bones that physics drives and the recorded parent of every tracked bone.
pub fn fresh_bone_global(
    bone: u64,
    driven: &HashSet<u64>,
    parents: &HashMap<u64, Option<u64>>,
) -> (fresh: FreshGlobal)
    requires
        spec_climb_stops(driven@, parents@, bone),
    ensures
        spec_is_fresh_global(driven@, parents@, bone, fresh.base, fresh.chain@),
{
    let ghost top = choose|steps: nat| #[trigger] spec_stops_at(driven@, parents@, bone, steps);
    let mut climbed: Vec<u64> = Vec::new();
    let mut cur = bone;
    loop
        invariant
            spec_stops_at(driven@, parents@, bone, top),
            spec_ancestor(parents@, bone, climbed.len() as nat) == Some(cur),
            climbed.len() <= top,
            forall|i: int|
                0 <= i < climbed.len() ==> {
                    &&& spec_ancestor(parents@, bone, i as nat) == Some(#[trigger] climbed@[i])
                    &&& !driven@.contains(climbed@[i])
                    &&& spec_has_parent(parents@, climbed@[i])
                },
        decreases top - climbed.len(),
    {
        let base = if driven.contains(&cur) {
            Some(GlobalBase::Target(cur))
        } else {
            match parents.get(&cur) {
                Some(Some(parent)) => {
                    let parent = *parent;
                    climbed.push(cur);
                    proof {
                        assert(spec_ancestor(parents@, bone, climbed.len() as nat) == Some(parent));
                    }
                    cur = parent;
                    None
                },
                _ => Some(GlobalBase::Fallback(cur)),
            }
        };
        if let Some(base) = base {
            let mut chain: Vec<u64> = Vec::new();
            let mut i = climbed.len();
            while i > 0
                invariant
                    i <= climbed.len(),
                    chain.len() == climbed.len() - i,
                    forall|k: int|
                        0 <= k < chain.len() ==> #[trigger] chain@[k] == climbed@[climbed.len() - 1
                            - k],
                decreases i,
            {
                i = i - 1;
                chain.push(climbed[i]);
            }
            return FreshGlobal { base, chain };
        }
    }
}

/// Whether `drives` holds an entry for `bone`.
pub open spec fn spec_drives_bone(drives: Seq<BoneDrive>, bone: u64) -> bool {
    exists|i: int| 0 <= i < drives.len() && (#[trigger] drives[i]).bone == bone
}

/// A driven bone and how to build its parent's world transform of this frame
/// (`None` when the bone has no recorded parent: its target is its local
/// transform).
#[derive(Clone, Debug)]
pub struct BoneDrive {
    pub bone: u64,
    pub parent_global: Option<FreshGlobal>,
}

/// The recorded parent of each tracked bone; a later record of the same bone
/// replaces an earlier one.
pub open spec fn spec_parent_map(bones: Seq<(u64, Option<u64>)>) -> Map<u64, Option<u64>>
    decreases bones.len(),
{
    if bones.len() == 0 {
        Map::empty()
    } else {
        spec_parent_map(bones.drop_last()).insert(bones.last().0, bones.last().1)
    }
}

/// One step up: the ancestors of a bone with a recorded parent are, one level
/// further, the ancestors of that parent.
pub proof fn lemma_ancestor_shift(parents: Map<u64, Option<u64>>, bone: u64, parent: u64, steps: nat)
    requires
        spec_has_parent(parents, bone),
        parents[bone] == Some(parent),
    ensures
        spec_ancestor(parents, bone, steps + 1) == spec_ancestor(parents, parent, steps),
    decreases steps,
{
    reveal_with_fuel(spec_ancestor, 2);
    if steps > 0 {
        lemma_ancestor_shift(parents, bone, parent, (steps - 1) as nat);
    }
}

/// `drives` is the drive plan for the bones `driven` on the skeleton `bones`:
/// empty while the animation owns the skeleton; otherwise one entry per
/// distinct driven bone, holding, when the bone has a recorded parent, how to
/// build that parent's world transform of this frame.
pub open spec fn spec_is_drive_plan(
    dynamic: bool,
    driven: Seq<u64>,
    bones: Seq<(u64, Option<u64>)>,
    drives: Seq<BoneDrive>,
) -> bool {
    if !dynamic {
        drives.len() == 0
    } else {
        let parents = spec_parent_map(bones);
        &&& forall|i: int, j: int|
            0 <= i < j < drives.len() ==> (#[trigger] drives[i]).bone != (#[trigger] drives[j]).bone
        &&& forall|i: int| 0 <= i < drives.len() ==> driven.contains((#[trigger] drives[i]).bone)
        &&& forall|k: int| 0 <= k < driven.len() ==> spec_drives_bone(drives, #[trigger] driven[k])
        &&& forall|i: int|
            0 <= i < drives.len() ==> {
                let d = #[trigger] drives[i];
                if spec_has_parent(parents, d.bone) {
                    &&& d.parent_global is Some
                    &&& spec_is_fresh_global(
                        driven.to_set(),
                        parents,
                        parents[d.bone]->0,
                        d.parent_global->0.base,
                        d.parent_global->0.chain@,
                    )
                } else {
                    d.parent_global is None
                }
            }
    }
}

/// Whether record `i` is the last record of its bone.
pub open spec fn spec_is_last_record(bones: Seq<(u64, Option<u64>)>, i: int) -> bool {
    forall|j: int| i < j < bones.len() ==> (#[trigger] bones[j]).0 != bones[i].0
}

/// The parent map records exactly the listed bones, each with the parent of
/// its last record.
#[verifier::spinoff_prover]
#[verifier::rlimit(60)]
pub proof fn lemma_parent_map(bones: Seq<(u64, Option<u64>)>, bone: u64)
    ensures
        spec_parent_map(bones).contains_key(bone) <==> exists|i: int|
            0 <= i < bones.len() && (#[trigger] bones[i]).0 == bone,
        forall|i: int|
            0 <= i < bones.len() && (#[trigger] bones[i]).0 == bone && spec_is_last_record(bones, i)
                ==> spec_parent_map(bones)[bone] == bones[i].1,
    decreases bones.len(),
{
    if bones.len() > 0 {
        let shorter = bones.drop_last();
        let n = bones.len() - 1;
        lemma_parent_map(shorter, bone);
        assert forall|i: int| 0 <= i < shorter.len() implies shorter[i] == bones[i] by {}
        if bones[n].0 != bone {
            if exists|i: int| 0 <= i < bones.len() && (#[trigger] bones[i]).0 == bone {
                let i = choose|i: int| 0 <= i < bones.len() && (#[trigger] bones[i]).0 == bone;
                assert(shorter[i].0 == bone);
            }
            assert forall|i: int|
                0 <= i < bones.len() && (#[trigger] bones[i]).0 == bone && spec_is_last_record(bones, i)
                implies spec_parent_map(bones)[bone] == bones[i].1 by {
                assert(shorter[i] == bones[i]);
                assert forall|j: int| i < j < shorter.len() implies (#[trigger] shorter[j]).0
                    != shorter[i].0 by {
                    assert(shorter[j] == bones[j]);
                }
                assert(spec_is_last_record(shorter, i));
            }
        } else {
            assert forall|i: int|
                0 <= i < bones.len() && (#[trigger] bones[i]).0 == bone && spec_is_last_record(bones, i)
                implies spec_parent_map(bones)[bone] == bones[i].1 by {
                if i < n {
                    assert(bones[n].0 != bones[i].0);
                }
            }
        }
    }
}

/// For each bone that physics drives, how to build its new local transform:
/// nothing while the animation owns the skeleton; otherwise one entry per
/// distinct driven bone, holding how to build its parent's world transform of
/// this frame when it has a recorded parent.
///
/// `driven` lists the bone of every ragdoll body; `bones` lists every tracked
/// bone with its parent.
pub fn drive_bones_from_ragdoll(
    mode: &RagdollMode,
    driven: &Vec<u64>,
    bones: &Vec<(u64, Option<u64>)>,
) -> (drives: Vec<BoneDrive>)
    requires
        mode.dynamic ==> forall|i: int|
            0 <= i < driven.len() && spec_has_parent(spec_parent_map(bones@), #[trigger] driven@[i])
                ==> spec_climb_stops(
                driven@.to_set(),
                spec_parent_map(bones@),
                spec_parent_map(bones@)[driven@[i]]->0,
            ),
    ensures
        spec_is_drive_plan(mode.dynamic, driven@, bones@, drives@),
{
    let mut drives: Vec<BoneDrive> = Vec::new();
    if !mode.drives_bones() {
        return drives;
    }
    let mut targets: HashSet<u64> = HashSet::new();
    let mut i: usize = 0;
    while i < driven.len()
        invariant
            i <= driven.len(),
            targets@ == driven@.take(i as int).to_set(),
        decreases driven.len() - i,
    {
        proof {
            assert(driven@.take(i + 1) == driven@.take(i as int).push(driven@[i as int]));
        }
        targets.insert(driven[i]);
        proof {
            assert(targets@ =~= driven@.take(i + 1).to_set()) by {
                assert forall|x: u64| targets@.contains(x) <==> driven@.take(i + 1).to_set().contains(x) by {
                    let pre = driven@.take(i as int);
                    let post = driven@.take(i + 1);
                    if targets@.contains(x) && x != driven@[i as int] {
                        let k = choose|k: int| 0 <= k < pre.len() && pre[k] == x;
                        assert(post[k] == x);
                    }
                    if post.to_set().contains(x) {
                        let k = choose|k: int| 0 <= k < post.len() && post[k] == x;
                        if k < i {
                            assert(pre[k] == x);
                        }
                    }
                    if x == driven@[i as int] {
                        assert(post[i as int] == x);
                    }
                }
            }
        }
        i = i + 1;
    }
    assert(driven@.take(driven.len() as int) == driven@);
    let mut parents: HashMap<u64, Option<u64>> = HashMap::new();
    let mut b: usize = 0;
    while b < bones.len()
        invariant
            b <= bones.len(),
            parents@ == spec_parent_map(bones@.take(b as int)),
        decreases bones.len() - b,
    {
        proof {
            assert(bones@.take(b + 1).drop_last() == bones@.take(b as int));
        }
        let (bone, parent) = bones[b];
        parents.insert(bone, parent);
        b = b + 1;
    }
    assert(bones@.take(bones.len() as int) == bones@);
    let ghost pmap = spec_parent_map(bones@);
    let mut seen: HashSet<u64> = HashSet::new();
    let mut k: usize = 0;
    while k < driven.len()
        invariant
            k <= driven.len(),
            mode.dynamic,
            targets@ == driven@.to_set(),
            parents@ == pmap,
            pmap == spec_parent_map(bones@),
            forall|i: int|
                0 <= i < driven.len() && spec_has_parent(pmap, #[trigger] driven@[i])
                    ==> spec_climb_stops(driven@.to_set(), pmap, pmap[driven@[i]]->0),
            forall|x: u64| seen@.contains(x) <==> exists|i: int| 0 <= i < drives.len() && (#[trigger] drives@[i]).bone == x,
            forall|i: int, j: int|
                0 <= i < j < drives.len() ==> (#[trigger] drives@[i]).bone != (#[trigger] drives@[j]).bone,
            forall|i: int|
                0 <= i < drives.len() ==> driven@.contains((#[trigger] drives@[i]).bone),
            forall|m: int| 0 <= m < k ==> spec_drives_bone(drives@, #[trigger] driven@[m]),
            forall|i: int|
                0 <= i < drives.len() ==> {
                    let d = #[trigger] drives@[i];
                    if spec_has_parent(pmap, d.bone) {
                        &&& d.parent_global is Some
                        &&& spec_is_fresh_global(
                            driven@.to_set(),
                            pmap,
                            pmap[d.bone]->0,
                            d.parent_global->0.base,
                            d.parent_global->0.chain@,
                        )
                    } else {
                        d.parent_global is None
                    }
                },
        decreases driven.len() - k,
    {
        let bone = driven[k];
        if !seen.contains(&bone) {
            let parent_global = match parents.get(&bone) {
                Some(Some(parent)) => {
                    proof {
                        assert(spec_has_parent(pmap, driven@[k as int]));
                    }
                    Some(fresh_bone_global(*parent, &targets, &parents))
                },
                _ => None,
            };
            let ghost before = drives@;
            drives.push(BoneDrive { bone, parent_global });
            seen.insert(bone);
            proof {
                assert(driven@[k as int] == bone);
                assert(drives@[drives.len() - 1].bone == bone);
                assert forall|x: u64| seen@.contains(x) <==> exists|i: int| 0 <= i < drives.len() && (#[trigger] drives@[i]).bone == x by {
                    if seen@.contains(x) && x != bone {
                        let i = choose|i: int| 0 <= i < before.len() && (#[trigger] before[i]).bone == x;
                        assert(drives@[i] == before[i]);
                    }
                    if exists|i: int| 0 <= i < drives.len() && (#[trigger] drives@[i]).bone == x {
                        let i = choose|i: int| 0 <= i < drives.len() && (#[trigger] drives@[i]).bone == x;
                        if i < before.len() {
                            assert(before[i] == drives@[i]);
                        }
                    }
                }
                assert forall|m: int| 0 <= m < k + 1 implies spec_drives_bone(drives@, #[trigger] driven@[m]) by {
                    if m < k {
                        let i = choose|i: int| 0 <= i < before.len() && (#[trigger] before[i]).bone == driven@[m];
                        assert(drives@[i] == before[i]);
                    } else {
                        assert(drives@[drives.len() - 1].bone == driven@[m]);
                    }
                }
            }
        } else {
            proof {
                let i = choose|i: int| 0 <= i < drives.len() && (#[trigger] drives@[i]).bone == bone;
                assert(drives@[i].bone == driven@[k as int]);
            }
        }
        k = k + 1;
    }
    drives
}

/// Deciding twice on the same skeleton and the same driven bones gives the
/// same plan: the same bones, each with the same recipe for its parent's world
/// transform. No recipe composes the local transform of a driven bone, so the
/// local transforms written from a first plan do not change what a second
/// plan in the same frame builds: driving the bones twice in a frame is the
/// same as driving them once.
pub proof fn lemma_drive_plan_deterministic(
    dynamic: bool,
    driven: Seq<u64>,
    bones: Seq<(u64, Option<u64>)>,
    first: Seq<BoneDrive>,
    second: Seq<BoneDrive>,
)
    requires
        spec_is_drive_plan(dynamic, driven, bones, first),
        spec_is_drive_plan(dynamic, driven, bones, second),
    ensures
        first.len() == second.len(),
        forall|i: int| 0 <= i < first.len() ==> spec_drives_bone(second, (#[trigger] first[i]).bone),
        forall|i: int, j: int|
            0 <= i < first.len() && 0 <= j < second.len() && (#[trigger] first[i]).bone == (
            #[trigger] second[j]).bone ==> {
                &&& first[i].parent_global is Some <==> second[j].parent_global is Some
                &&& first[i].parent_global is Some ==> {
                    &&& first[i].parent_global->0.base == second[j].parent_global->0.base
                    &&& first[i].parent_global->0.chain@ == second[j].parent_global->0.chain@
                }
            },
        forall|i: int, k: int|
            0 <= i < first.len() && (#[trigger] first[i]).parent_global is Some && 0 <= k
                < first[i].parent_global->0.chain@.len() ==> !driven.contains(
                #[trigger] first[i].parent_global->0.chain@[k],
            ),
{
    if dynamic {
        let parents = spec_parent_map(bones);
        assert forall|i: int| 0 <= i < first.len() implies spec_drives_bone(
            second,
            (#[trigger] first[i]).bone,
        ) by {
            let k = choose|k: int| 0 <= k < driven.len() && driven[k] == first[i].bone;
            assert(spec_drives_bone(second, driven[k]));
        }
        assert forall|i: int, j: int|
            0 <= i < first.len() && 0 <= j < second.len() && (#[trigger] first[i]).bone == (
            #[trigger] second[j]).bone implies {
            &&& first[i].parent_global is Some <==> second[j].parent_global is Some
            &&& first[i].parent_global is Some ==> {
                &&& first[i].parent_global->0.base == second[j].parent_global->0.base
                &&& first[i].parent_global->0.chain@ == second[j].parent_global->0.chain@
            }
        } by {
            if first[i].parent_global is Some {
                let bone = first[i].bone;
                lemma_fresh_global_unique(
                    driven.to_set(),
                    parents,
                    parents[bone]->0,
                    first[i].parent_global->0.base,
                    first[i].parent_global->0.chain@,
                    second[j].parent_global->0.base,
                    second[j].parent_global->0.chain@,
                );
            }
        }
        assert forall|i: int, k: int|
            0 <= i < first.len() && (#[trigger] first[i]).parent_global is Some && 0 <= k
                < first[i].parent_global->0.chain@.len() implies !driven.contains(
            #[trigger] first[i].parent_global->0.chain@[k],
        ) by {
            assert(!driven.to_set().contains(first[i].parent_global->0.chain@[k]));
        }
        let b1 = first.map_values(|d: BoneDrive| d.bone);
        let b2 = second.map_values(|d: BoneDrive| d.bone);
        assert(b1.no_duplicates()) by {
            assert forall|i: int, j: int| 0 <= i < b1.len() && 0 <= j < b1.len() && i != j implies b1[i]
                != b1[j] by {
                if i < j {
                    assert(first[i].bone != first[j].bone);
                } else {
                    assert(first[j].bone != first[i].bone);
                }
            }
        }
        assert(b2.no_duplicates()) by {
            assert forall|i: int, j: int| 0 <= i < b2.len() && 0 <= j < b2.len() && i != j implies b2[i]
                != b2[j] by {
                if i < j {
                    assert(second[i].bone != second[j].bone);
                } else {
                    assert(second[j].bone != second[i].bone);
                }
            }
        }
        assert(b1.to_set() =~= b2.to_set()) by {
            assert forall|x: u64| b1.to_set().contains(x) implies b2.to_set().contains(x) by {
                let i = choose|i: int| 0 <= i < b1.len() && b1[i] == x;
                assert(spec_drives_bone(second, first[i].bone));
                let j = choose|j: int| 0 <= j < second.len() && (#[trigger] second[j]).bone == x;
                assert(b2[j] == x);
            }
            assert forall|x: u64| b2.to_set().contains(x) implies b1.to_set().contains(x) by {
                let j = choose|j: int| 0 <= j < b2.len() && b2[j] == x;
                let k = choose|k: int| 0 <= k < driven.len() && driven[k] == second[j].bone;
                assert(spec_drives_bone(first, driven[k]));
                let i = choose|i: int| 0 <= i < first.len() && (#[trigger] first[i]).bone == x;
                assert(b1[i] == x);
            }
        }
        b1.unique_seq_to_set();
        b2.unique_seq_to_set();
    }
}

/// The recipe of [`fresh_bone_global`] is unique: two ways of building the
/// world transform of the same bone from the same skeleton agree.
pub proof fn lemma_fresh_global_unique(
    driven: Set<u64>,
    parents: Map<u64, Option<u64>>,
    bone: u64,
    base1: GlobalBase,
    chain1: Seq<u64>,
    base2: GlobalBase,
    chain2: Seq<u64>,
)
    requires
        spec_is_fresh_global(driven, parents, bone, base1, chain1),
        spec_is_fresh_global(driven, parents, bone, base2, chain2),
    ensures
        base1 == base2,
        chain1 == chain2,
{
    let n1 = chain1.len();
    let n2 = chain2.len();
    if n1 < n2 {
        let k = n2 - 1 - n1;
        assert(spec_ancestor(parents, bone, (n2 - 1 - k) as nat) == Some(chain2[k]));
    } else if n2 < n1 {
        let k = n1 - 1 - n2;
        assert(spec_ancestor(parents, bone, (n1 - 1 - k) as nat) == Some(chain1[k]));
    } else {
        assert forall|k: int| 0 <= k < n1 implies chain1[k] == chain2[k] by {
            assert(spec_ancestor(parents, bone, (n1 - 1 - k) as nat) == Some(chain1[k]));
            assert(spec_ancestor(parents, bone, (n2 - 1 - k) as nat) == Some(chain2[k]));
        }
        assert(chain1 =~= chain2);
    }
}

/// A bone that physics does not drive and that has a recorded parent rides on
/// that parent at its own local offset: its world transform is built like the
/// parent's, followed by its own local transform.
pub proof fn lemma_undriven_bone_rides_its_parent(
    driven: Set<u64>,
    parents: Map<u64, Option<u64>>,
    bone: u64,
    base: GlobalBase,
    parent_chain: Seq<u64>,
)
    requires
        !driven.contains(bone),
        spec_has_parent(parents, bone),
        spec_is_fresh_global(driven, parents, parents[bone]->0, base, parent_chain),
    ensures
        spec_is_fresh_global(driven, parents, bone, base, parent_chain.push(bone)),
{
    let parent = parents[bone]->0;
    let n = parent_chain.len();
    let chain = parent_chain.push(bone);
    lemma_ancestor_shift(parents, bone, parent, n);
    assert forall|k: int| 0 <= k < chain.len() implies {
        &&& spec_ancestor(parents, bone, (chain.len() - 1 - k) as nat) == Some(#[trigger] chain[k])
        &&& !driven.contains(chain[k])
        &&& spec_has_parent(parents, chain[k])
    } by {
        if k < n {
            assert(chain[k] == parent_chain[k]);
            assert(spec_ancestor(parents, parent, (n - 1 - k) as nat) == Some(parent_chain[k]));
            lemma_ancestor_shift(parents, bone, parent, (n - 1 - k) as nat);
        }
    }
}

/// A bone that physics does not drive and that has no recorded parent keeps
/// the world transform it was last given.
pub proof fn lemma_untracked_bone_keeps_its_global(
    driven: Set<u64>,
    parents: Map<u64, Option<u64>>,
    bone: u64,
)
    requires
        !driven.contains(bone),
        !spec_has_parent(parents, bone),
    ensures
        spec_is_fresh_global(driven, parents, bone, GlobalBase::Fallback(bone), Seq::empty()),
{
}

/// A bone that physics drives is its own base: its world transform of this
/// frame is its target, with nothing composed on top.
pub proof fn lemma_driven_bone_is_its_target(
    driven: Set<u64>,
    parents: Map<u64, Option<u64>>,
    bone: u64,
    base: GlobalBase,
    chain: Seq<u64>,
)
    requires
        driven.contains(bone),
        spec_is_fresh_global(driven, parents, bone, base, chain),
    ensures
        base == GlobalBase::Target(bone),
        chain.len() == 0,
{
    if chain.len() > 0 {
        let k = chain.len() - 1;
        assert(spec_ancestor(parents, bone, (chain.len() - 1 - k) as nat) == Some(chain[k]));
    }
}

} // verus!
