//! Verified decision logic of a glTF character viewer with a physics ragdoll:
//! which animation clip plays, when the ragdoll is built or torn down, which
//! bodies and joints make up the ragdoll, how physics poses are carried back
//! onto the skeleton, how the mouse grab reacts to input, and how a crowd of
//! animated instances is laid out on a grid.

pub mod animation;
pub mod crowd;
pub mod grab;
pub mod mode;
pub mod rig;
pub mod skeleton;
