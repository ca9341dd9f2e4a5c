# ppduster

The decision-making core of a task automation engine, verified with Verus:
typed context with sensitivity and provenance, a bounded expression language
with a static checker, action-input bindings, workflow graphs with their
validation and migration, the block registry, task packs and automation packs.

- `src/` is the verified library. Every public function states in its contract
  what it returns for every input; the `law_*` proof functions state what holds
  across functions.
- `tests/` runs the library on concrete values.
- `app/` is ordinary Rust around it: files, the environment, and the copies of
  the library's types that are read from and written to JSON and YAML.

What the library takes from other crates stands behind a few small functions
whose contracts are believed, not proved. Each names the function that it calls:
regular expressions (`regex`), RFC 3339 dates (`chrono`), JSON strings
(`serde_json`), the trees of YAML texts (`serde_yaml`), and from the standard
library the Unicode character classes, the debug form of a text and
`String::push`.
