# cassida_swc_plugin_next

The JSX-spread rewrite of the Cassida SWC plugin (Next.js build), as a
verified library with a thin SWC adapter.

For every `{...cas().X().props}` spread on a JSX element whose chain is
statically known, the spread becomes
`className={/* @cassida-ir:<JSON> */ "__CAS_PLACEHOLDER_<N>__"}`; the Node
loader later compiles the IR comment and swaps in the class name.

- `src/` — the library, verified with Verus: the chain walker, the IR and its
  JSON text, the modifier table, import scanning and the rewrite decisions,
  and the laws they obey. It works on its own small model of the expression
  tree.
- `app/` — the plugin entry point: converts swc's syntax tree into that model,
  and writes the library's decisions back into the tree and comment table.
- `tests/` — tests of the library.
