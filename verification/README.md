# erika

The decisions of a video renderer, with proofs: which passes a frame needs, what
the shaders are told, how subtitles and comments are laid out, how a luma plane
is doubled, and what the Metal, Direct3D 11 and Vulkan back ends do next.

- `src/` is the verified library. It holds no graphics objects: a back end is a
  state machine that says what to do and takes in how it went. Single-precision
  numbers are held by their encoding (`float::F32`), and `product`, `quotient`
  and `sum` round exactly as the standard says.
- `tests/` runs the library on concrete values.
- `app/` is the code around it: devices, windows, threads, the environment, and
  the mathematics that takes powers, angles or double precision.
- `extras/shaders/` holds the shaders of the back ends that are not part of the
  library.

The weights of the upscaling network are handed to the library as bytes
(`artcnn::EmbeddedModels`).
