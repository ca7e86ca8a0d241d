# glb_ragdoll

A glTF character viewer built on Bevy and Avian: the model plays one of its
animation clips, `R` turns it into a physics ragdoll and back, and the left
mouse button grabs and throws ragdoll parts. A second mode (`--crowd`) shows a
grid of animated instances.

- `src/` is the verified library: clip selection (`animation`), the
  ragdoll on/off state machine (`mode`), the rig tables and the plan of bodies
  and joints for a loaded scene (`rig`), how physics poses are carried back to
  the skeleton (`skeleton`), the grab decisions (`grab`) and the crowd grid
  (`crowd`).
- `app/` is the Bevy application: ECS systems, input, physics calls and the
  floating-point transform math.
- `tests/` exercises the library on concrete values.
