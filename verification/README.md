# mesh_renderer

A small instanced mesh renderer built on wgpu and winit, whose bookkeeping
is verified with Verus.

* `src/` — the verified library:
  * `state` — uploaded meshes, the queue of draw commands, per-mesh batching;
  * `draw` — the plan of a frame: per command, how the instance buffer is
    prepared, whether the camera is uploaded, which pipeline is bound, and
    the indexed draw call; laws on buffer growth and batching;
  * `buffer` — buffer kinds and the growth policy of the instance buffer
    (next power of two);
  * `frame` — what each outcome of acquiring a surface texture calls for;
  * `pipeline`, `surface`, `camera` — pipeline choice, surface size and
    present mode, and the steering keys;
  * `upload` — the contents of a mesh's index buffer.
* `app/` — the program: window, GPU device, buffers, pipelines and render
  passes, carrying out the plans that the library computes.
* `tests/` — tests of the library.
