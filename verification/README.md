# hopf_sta_viz

A realtime visualizer of the Rañada electromagnetic hopfion (GPU FDTD Maxwell
solver, streamlines and particles), split into a verified library and a thin
application.

* `src/` — the Verus-verified library: the preset tables and their cycles
  (`preset`, `web_preset`), line-list and box-edge index buffers and their
  byte form (`geometry`), GPU dispatch sizes, the step counter and the
  seeding generator (`dispatch`), the FDTD grid layout and the conductor
  mask (`grid`), the touch list (`touch`), frame gating and camera-drag
  buttons (`transport`), WGSL source joining (`shader`), JSON escaping and
  number text (`json`), and the F1 remark log (`remarks`).
* `app/` — the native program: winit window, wgpu pipelines, egui panel,
  orbit camera, the floating-point field seeding and the CPU Yee solver.
  WGSL shaders are read at run time from `shaders/`.
* `tests/` — tests of the library on concrete values.
