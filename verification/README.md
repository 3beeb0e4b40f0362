# wgsl_ln

The core of a set of procedural macros that embed WGSL shaders in Rust, with
its logic verified by Verus.

- `src/tokens.rs`: a plain-value model of token trees and its mathematical view.
- `src/sanitize.rs`: finding the first `#name` reference to another exported
  shader snippet and removing the `#` in front of later uses of it, with laws
  showing that nothing but `#` tokens is ever removed, that each reference
  found removes at least one `#`, which `#` tokens go with and without a
  reference, and that sanitising is idempotent where no reference is found.
  naga_oil preprocessor directives can be kept behind a flag.
- `src/conversions.rs`: converting Rust types (`f32`, `Vec3<f32>`, `[T; N]`,
  `Mat4`, ...) to WGSL types, and spelling WGSL types as tokens.
- `src/items.rs`: reading the macro input as a type, else a struct, else a
  function with `syn`, and writing it back with each Rust type replaced by
  its WGSL type where syn reads that as a type.
- `src/wgsl2.rs`: what a macro expands to (a re-invocation through a paste
  macro, or validated WGSL source), checking the rendered source with naga
  (or not, for naga_oil sources), and locating the span an error is
  reported at.
- `app/`: the bridge between `proc_macro2` token streams and the token model,
  and the macro entry points with their `proc_macro_error` diagnostics.
