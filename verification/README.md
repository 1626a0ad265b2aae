# Galaxy engine

A game engine on Vulkan whose logic is verified with Verus.

- `src/` is the library: resource paths, model and texture files, materials, pipelines, levels,
  the choice of a device, the plans for buffers, images, descriptors and draws, and the state of
  the frames in flight. Each function says in its contract what it returns, and Verus proves it.
  Handles of the graphics API are plain numbers there, and floating point numbers are bit patterns.
- `app/` is the program around it: windows, files, Vulkan calls, the user interface and the
  mathematics in floating point. It hands plain values to the library and does what the library
  plans.
- `tests/` runs the library.

What the library has from other crates (index maps, mesh optimisation, model and texture parsing,
decompression, transcoding) is called through small functions marked
`#[verifier::external_body]`. The comment above each of them says what is taken on trust.
