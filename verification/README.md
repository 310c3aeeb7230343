# worldengine_rapier

The native core of a physics-body universe for a voxel world. Every body
of a dimension has a persistent record; bodies are simulated in Rapier
regions only while something may touch them, advanced analytically while
they fly alone, and left untouched while they rest.

- `src/` is the library, verified with Verus: section keys, the command
  buffer format, the tiered scheduler and its per-tick decisions, the
  macro-cell spatial index, command flushing, terrain tracking, the
  sections and block edits of regions, octree sizing, the persistent block
  geometry of bodies, the eviction decision, the export records read by
  the JVM, and the serial-callback counts of regions. `src/laws.rs` states the properties
  that span several operations.
- `tests/` exercises the library on concrete values.
- `app/` is the JNI surface: it reads and writes JVM arrays and buffers,
  does the floating-point math of poses and bounds (the flight of
  ballistic bodies, swept boxes, speeds at rest), and steps Rapier regions.
  It changes the bookkeeping mostly through the library's operations.
