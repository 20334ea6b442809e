# pixy_tree

A procedural tree generator for Godot, built around a verified core.

- `src/` is the library, verified with Verus: the seeded xorshift random
  source, the index topology of the generated meshes (ring grids, caps,
  quads, junctions between a branch and its parent, masked ring bridges),
  vertex adjacency for smoothing, the integer spatial cell index used to find
  nearby branches, the child lists and the children-before-parents
  order that walk branch forests, the state machine of the growth simulation, the turn schedule of
  breadth-first branch growth, and the settings hash that triggers
  regeneration in the editor (which settings count, with which weights, and
  the proof that editing any one of them changes the hash). Each public function states
  its result in its contract; the public proof functions state the laws that
  tie several calls together.
- `tests/` runs the library on concrete values.
- `app/` is the Godot extension around it: the `PixyTree` node and its
  editor plugin, and the floating-point geometry (branch growth, gravity,
  foliage placement, mesh positions and normals) that calls into the library
  for every discrete decision.
