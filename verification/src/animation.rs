//! Choosing the animation clip from the keyboard: `1` and `2` pick a clip
//! directly, `Enter` cycles to the next one.

use vstd::prelude::*;

verus! {

/// Number of named animation clips in the model.
pub const ANIMATION_NAME_COUNT: usize = 2;

/// Display name of each animation clip, by clip index.
pub open spec fn spec_animation_name(index: int) -> Seq<char> {
    if index == 0 {
        "walking"@
    } else {
        "whypausegame"@
    }
}

/// The display name of clip `index`.
pub fn animation_name(index: usize) -> (name: &'static str)
    requires
        index < ANIMATION_NAME_COUNT,
    ensures
        name@ == spec_animation_name(index as int),
{
    if index == 0 {
        "walking"
    } else {
        "whypausegame"
    }
}

/// The keys pressed during this frame that take part in clip selection.
#[derive(Clone, Copy, Debug, PartialEq, Eq)]
pub struct AnimationKeys {
    pub digit1: bool,
    pub digit2: bool,
    pub enter: bool,
}

/// Which clip is playing, out of how many.
#[derive(Clone, Copy, Debug, PartialEq, Eq)]
pub struct AnimationSelection {
    pub current_index: usize,
    pub clip_count: usize,
}

impl AnimationSelection {
    /// A selection is valid when it points at an existing clip and every clip
    /// has a display name.
    pub open spec fn wf(&self) -> bool {
        &&& 0 < self.clip_count <= ANIMATION_NAME_COUNT
        &&& self.current_index < self.clip_count
    }

    /// The first clip plays when the model appears.
    pub fn new(clip_count: usize) -> (sel: Self)
        requires
            0 < clip_count <= ANIMATION_NAME_COUNT,
        ensures
            sel.wf(),
            sel.current_index == 0,
            sel.clip_count == clip_count,
    {
        AnimationSelection { current_index: 0, clip_count }
    }
}

/// The clip index after `Enter`: the next clip, wrapping around.
pub open spec fn spec_next_clip(current: int, clip_count: int) -> int {
    (current + 1) % clip_count
}

/// The clip that this frame's keys ask for: `1` wins over `2`, `2` over
/// `Enter`; no key asks for nothing.
pub open spec fn spec_requested_clip(keys: AnimationKeys, current: int, clip_count: int) -> Option<
    int,
> {
    if keys.digit1 {
        Some(0)
    } else if keys.digit2 {
        Some(1)
    } else if keys.enter {
        Some(spec_next_clip(current, clip_count))
    } else {
        None
    }
}

/// The clip that this frame's keys ask for.
pub fn requested_clip(keys: AnimationKeys, current: usize, clip_count: usize) -> (req: Option<
    usize,
>)
    requires
        current < clip_count,
    ensures
        match spec_requested_clip(keys, current as int, clip_count as int) {
            Some(i) => req == Some(i as usize),
            None => req.is_none(),
        },
{
    if keys.digit1 {
        Some(0)
    } else if keys.digit2 {
        Some(1)
    } else if keys.enter {
        Some((current + 1) % clip_count)
    } else {
        None
    }
}

/// Switches the playing clip as the keys ask and returns the clip to cross-fade
/// to. A clip index that does not exist is not asked for here: the caller
/// plays the clip by indexing its clip list with it.
pub fn switch_animation(sel: &mut AnimationSelection, keys: AnimationKeys) -> (switched: Option<
    usize,
>)
    requires
        old(sel).wf(),
        spec_requested_clip(keys, old(sel).current_index as int, old(sel).clip_count as int) matches Some(i)
            ==> i < old(sel).clip_count,
    ensures
        final(sel).wf(),
        final(sel).clip_count == old(sel).clip_count,
        match spec_requested_clip(
            keys,
            old(sel).current_index as int,
            old(sel).clip_count as int,
        ) {
            Some(i) => switched == Some(i as usize) && final(sel).current_index == i,
            None => switched.is_none() && *final(sel) == *old(sel),
        },
{
    match requested_clip(keys, sel.current_index, sel.clip_count) {
        Some(i) => {
            sel.current_index = i;
            Some(i)
        },
        None => None,
    }
}

/// Like [`switch_animation`], for a clip list that may hold fewer clips than
/// the keys can name: a request for a clip that does not exist leaves the
/// selection as it is.
pub fn switch_animation_checked(sel: &mut AnimationSelection, keys: AnimationKeys) -> (switched:
    Option<usize>)
    requires
        old(sel).wf(),
    ensures
        final(sel).wf(),
        final(sel).clip_count == old(sel).clip_count,
        match spec_requested_clip(
            keys,
            old(sel).current_index as int,
            old(sel).clip_count as int,
        ) {
            Some(i) => if i < old(sel).clip_count {
                switched == Some(i as usize) && final(sel).current_index == i
            } else {
                switched.is_none() && *final(sel) == *old(sel)
            },
            None => switched.is_none() && *final(sel) == *old(sel),
        },
{
    match requested_clip(keys, sel.current_index, sel.clip_count) {
        Some(i) => {
            if i >= sel.clip_count {
                return None;
            }
            sel.current_index = i;
            Some(i)
        },
        None => None,
    }
}

/// The clip reached from `current` after pressing `Enter` `presses` times.
pub open spec fn spec_cycle(current: int, clip_count: int, presses: nat) -> int
    decreases presses,
{
    if presses == 0 {
        current
    } else {
        spec_next_clip(spec_cycle(current, clip_count, (presses - 1) as nat), clip_count)
    }
}

/// `presses` presses of `Enter` (each one a [`switch_animation`] call whose
/// only key is `Enter`) starting from clip `current` land on clip
/// `(current + presses) % clip_count`.
pub proof fn lemma_cycle_offset(current: int, clip_count: int, presses: nat)
    requires
        0 <= current < clip_count,
    ensures
        spec_cycle(current, clip_count, presses) == (current + presses) % clip_count,
    decreases presses,
{
    if presses == 0 {
        vstd::arithmetic::div_mod::lemma_small_mod(current as nat, clip_count as nat);
    } else {
        lemma_cycle_offset(current, clip_count, (presses - 1) as nat);
        let prev = current + presses - 1;
        assert(spec_cycle(current, clip_count, (presses - 1) as nat) == prev % clip_count);
        assert(spec_cycle(current, clip_count, presses) == (prev % clip_count + 1) % clip_count);
        assert(current + presses == prev + 1);
        vstd::arithmetic::div_mod::lemma_add_mod_noop(prev, 1, clip_count);
        vstd::arithmetic::div_mod::lemma_add_mod_noop_right(prev % clip_count, 1, clip_count);
    }
}

/// Pressing `Enter` once per clip comes back to the clip that was playing, no
/// fewer presses do, and every press lands on an existing clip.
pub proof fn lemma_enter_cycles_through_all_clips(current: int, clip_count: int)
    requires
        0 <= current < clip_count,
    ensures
        spec_cycle(current, clip_count, clip_count as nat) == current,
        forall|k: nat| 0 < k < clip_count ==> #[trigger] spec_cycle(current, clip_count, k) != current,
        forall|k: nat| 0 <= #[trigger] spec_cycle(current, clip_count, k) < clip_count,
{
    lemma_cycle_offset(current, clip_count, clip_count as nat);
    vstd::arithmetic::div_mod::lemma_mod_add_multiples_vanish(current, clip_count);
    vstd::arithmetic::div_mod::lemma_small_mod(current as nat, clip_count as nat);
    assert forall|k: nat| 0 < k < clip_count implies #[trigger] spec_cycle(current, clip_count, k)
        != current by {
        lemma_cycle_offset(current, clip_count, k);
        if current + k < clip_count {
            vstd::arithmetic::div_mod::lemma_small_mod((current + k) as nat, clip_count as nat);
        } else {
            vstd::arithmetic::div_mod::lemma_mod_sub_multiples_vanish(current + k, clip_count);
            vstd::arithmetic::div_mod::lemma_small_mod(
                (current + k - clip_count) as nat,
                clip_count as nat,
            );
        }
    }
    assert forall|k: nat| 0 <= #[trigger] spec_cycle(current, clip_count, k) < clip_count by {
        lemma_cycle_offset(current, clip_count, k);
        vstd::arithmetic::div_mod::lemma_mod_bound(current + k, clip_count);
    }
}

/// The clip keys, key by key: `1` asks for the first clip whatever else is
/// pressed; `2` without `1` asks for the second; `Enter` alone asks for the
/// clip after the current one, wrapping to the first after the last, always
/// an existing clip; no key asks for nothing. The clips are named "walking"
/// and "whypausegame".
pub proof fn lemma_clip_request_rules(keys: AnimationKeys, current: int, clip_count: int)
    requires
        0 <= current < clip_count,
    ensures
        keys.digit1 ==> spec_requested_clip(keys, current, clip_count) == Some(0int),
        !keys.digit1 && keys.digit2 ==> spec_requested_clip(keys, current, clip_count) == Some(
            1int,
        ),
        !keys.digit1 && !keys.digit2 && keys.enter ==> {
            &&& current + 1 < clip_count ==> spec_requested_clip(keys, current, clip_count) == Some(
                current + 1,
            )
            &&& current + 1 == clip_count ==> spec_requested_clip(keys, current, clip_count)
                == Some(0int)
        },
        !keys.digit1 && !keys.digit2 && !keys.enter ==> spec_requested_clip(
            keys,
            current,
            clip_count,
        ) is None,
        spec_animation_name(0) == "walking"@,
        spec_animation_name(1) == "whypausegame"@,
{
    if current + 1 < clip_count {
        vstd::arithmetic::div_mod::lemma_small_mod((current + 1) as nat, clip_count as nat);
    } else {
        vstd::arithmetic::div_mod::lemma_mod_self_0(clip_count);
    }
}

} // verus!
