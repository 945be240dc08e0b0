# luana

A Lua packager: it turns a Lua project into one file, pulling imported data
files and loaded modules into it, ending every statement with `;`, and
optionally minifying the whitespace between tokens.

* `src/` is the library, verified with Verus: the rules of packaging over
  plain values (`token` for token names, `import` for `'!import name'`
  directives, `quote` for single-quoted Lua string literals and how Lua reads
  them back, `lua` for the Lua and JSON values that imports produce, `json`
  for reading JSON with `serde_json`, `load` for `_load("name")` calls, `visitor`
  for the state of the visit and its decisions, `minify` for whitespace, and
  `text` for the character-sequence helpers they rest on).
* `app/` is the `luana` command: it reads and writes files, parses and
  prints Lua with `full_moon`, walks the syntax tree, and hands the library
  the values its rules read.
* `tests/` runs the library on concrete inputs.
