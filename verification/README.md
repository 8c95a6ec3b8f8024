# vortex_core

Verified pieces of a columnar file format: run-end take, decimal casts, integer and string
compression schemes, the layout strategy of a file, reads and writes of objects, and the export of
arrays in Arrow layout.

- `src/` is the library. Every function states its behaviour in `requires` and `ensures`, and Verus
  proves it. Calls into other crates (`bytes`, `fsst`, `num_traits`, `object_store`) stand behind
  small functions whose contracts say what is relied on.
- `tests/` runs the library with those crates linked.
- `app/` is ordinary Rust around the library: object stores, CUDA devices, floating-point ratios,
  and formatting.
