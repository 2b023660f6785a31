# kama_panels

The decision logic of a video editor's side panels, written in Verus and proved against its
contracts: the pipeline graph (selection, raising order, wires and the actions they ask for),
the media library (listing order, keyboard navigation, selection and drag items), media
details, project options, the inspector's selection tracking and effect sections, and the
renderer's generator-frame cache and clip cache keys.

- `src/` is the verified library. Each module states its model with spec functions; public
  proof functions state the laws that hold across calls.
- `tests/` runs the library on concrete values.
- `app/` holds what stays outside the proofs: winit input conversion and the helpers that
  compute on floating-point values.
