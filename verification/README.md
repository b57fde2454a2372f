# neocogi

The core of a small rendering toolkit with an immediate-mode UI, written in
Verus.

`src/` is the verified library:

- `geometry`: integer vectors, colors and rectangles, and rectangle
  intersection.
- `ui`: the immediate-mode UI. `flags` holds the bit sets of states and
  options, `layout` the row/column layout engine, `pool` widget ids and the
  container and tree node pools, `num` and `text` number and text measuring,
  `context` the UI context (input, ids, clipping, containers, commands,
  frames), `scroll`, `window` and `controls` the scroll bars, windows,
  popups, panels and controls.
- `renderer`: the descriptions of GPU resources, the format tables a driver
  reads them with, the slot table a driver keeps resources in, and quad
  batching.
- `scene`: the colored segments, triangles and quads of utility meshes.

`app/` holds what talks to the GPU or the window system, or computes in
floating point: GPU resource handles and passes, the OpenGL ES 3 driver,
surface read-back, the UI painter, real-number controls, the pointer and 3D
view, and utility mesh shapes.

`tests/` exercises the library on concrete values.
