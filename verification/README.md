# egg_stitch (TypeScript operators)

The operators of the TypeScript language family used for library learning
over `egg` e-graphs, verified with Verus.

- `src/lang/ts_op.rs`: `TsOp`, its model `TsOpModel`, naming (`to_string`,
  `from_name`), node size, binders and de Bruijn variables, and the laws
  that tie names and operators together.
- `src/lang/mod.rs`: `Weights`, the node costs.
- `src/decimal.rs`: decimal notation of `u32`/`i32` and reading it back,
  with the same results as `Display` and `str::parse`.
- `src/text.rs`: characters of a string, matching a word, appending a char.
