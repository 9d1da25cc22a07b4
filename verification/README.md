# glsl2wgsl

A GLSL to WGSL converter, verified with Verus.

- `src/syntax.rs`: the GLSL syntax tree (float constants are held as the
  WGSL text that stands for them).
- `src/transpiler/`: the printer that writes a syntax tree as WGSL
  (`wgsl.rs`), the texts it writes as spec functions (`wgsl_text.rs`), a test
  of what the printer asks of a tree (`wf_check.rs`), and properties of the
  float conversion (`laws.rs`).
- `src/replace_defs.rs`, `src/parse_func_defines.rs`, `src/replace_defines.rs`:
  the `#define`, `#ifdef` and comment handling done before parsing
  (`preprocessing` in `src/lib.rs`).
- `src/let2var.rs`, `src/replace_unis.rs`, `src/replace_main.rs`,
  `src/replace_inouts.rs`, `src/replace_texel_fetch.rs`,
  `src/insert_new_arg_vars.rs`, `src/replace_mod.rs`: the text passes run on
  the printed program (`postprocessing` in `src/lib.rs`).
- `src/nom_helpers.rs`, `src/text.rs`: the character-level readers shared by
  the passes.
- `src/text_laws.rs`: properties of the passes as a whole.
- `app/lib.rs`: float printing and the entry point that chains the steps
  around a GLSL parser passed in by the caller.
