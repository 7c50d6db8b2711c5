# capture_canvas

A window-capture canvas: frames captured from a browser window are shown on a wgpu
surface through a bufferless fullscreen pass.

- `src/` is the verified library (Verus): the texture state machine of the fullscreen
  node (`texture_state`), the binding layout of its bind group (`binding`), the packing
  and sizing of BGRA frames (`pixels`), and the choice of the captured window and the
  routing of capture-stream events (`capture_rules`).
- `app/` holds the GPU, capture and platform side: the wgpu pipeline and resources,
  the capture stream on a tokio runtime, the Android entry points, and the
  floating-point aspect fit. It asks the library what to do at each step.
- `tests/` runs the library on concrete values.
