# gravitium

Verified core of Gravitium, a WebGPU N-body gravity simulator built on Bevy.

- `src/` is the library, checked by Verus: the compute-pass schedule of a simulation
  frame and the pipeline-readiness latch (`simulation::gpu::node`), the merge uniform and
  merge scratch layout (`simulation::gpu::params`), the initial merge index buffers
  (`simulation::upload`), shader constant injection (`simulation::shaders`), the profiling
  switches, dump / benchmark / checksum frame counting and the physics checksum
  (`simulation::profiling`), viewport clamping, URL fragment synchronisation decisions
  (`url::sync`), orbit-gesture tracking (`view::camera::orbit_focus`) and the merge-cell
  policies (`model`).
- `app/` is the Bevy application around it: plugins, systems, GPU recording, floating-point
  geometry and environment access.
- `tests/` exercises the library on concrete values.
