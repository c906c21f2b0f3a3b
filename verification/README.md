# sapri

Core of the URCM / Sapri language tools, written in Verus: every function in
`src/` carries a contract that Verus proves.

- `bucket`: counting sorts (8-bit, 16-bit, stable) and prefix sorting of words.
- `registry`: names with generated short aliases (`app.file.list` → `a.f.l`).
- `resolver`: relative path normalisation and path aliases.
- `sson_lexer`, `sson_parser`, `sson_ast`, `sson_error`: the structural `.sson`
  format, from text to tables and field definitions.
- `doc_parser`: the document parser, from tokens to tables, metadata and the
  flat dictionary of field nodes (relative sections, header rows with `_:`
  properties).
- `field_props`, `numbers`: the `_:` field properties and the number syntax
  their bounds are checked against.
- `error_handler`: errors and warnings of a run, with recovery of hinted
  errors in generative mode.
- `validators`: the built-in validators called by name (`req`, `pattern`,
  `enum`, `mutex`, `at_least_one`, `exactly`, `guard`, `type`, `length`).
- `dict_check`: enumeration checks and the validation tally of a dictionary.
- `table_format`: tokens, errors and fields of the tabular format.
- `pipeline`, `state_machine`, `parser_types`, `error_codes`: the parser's
  state machine and the run of its pipeline, its types and its standard
  error codes.
- `interp`: the assignment language of the interpreter.
- `obj`, `obj_adapter`, `obj_tree`, `paths`: flat objects of JSON values,
  nested objects read by path and flattened, and path handling.
- `atom`, `charmap`: atoms and their reactive dependencies.
- `fp`, `fp2`: functional helpers.
- `text`: the character-level models and helpers the rest builds on.
- `web`, `files`, `http`, `editor`: what the servers and connectors compute.

`app/` is the command-line program around the library (`sapri sson`,
`sapri run`, `sapri runtime`, `sapri serve`): file and network I/O, the
floating-point evaluation of expressions and scores, and serialisation.

Two maps of the original are held differently here:

- `obj::Obj` keeps its entries in a `Vec` of pairs with distinct keys, whose
  view is the map they stand for. `std::collections::HashMap<String, _>` has
  no usable specification in vstd (its key model covers integer keys only),
  and vstd's `StringHashMap` implements neither `Clone` nor `Debug`, both of
  which `Obj` offers.
- `charmap::CharMap` likewise stands for `HashMap<char, _>`: vstd gives
  `char` keys no key model, so a `HashMap<char, _>` could be called but
  nothing could be proved of what it holds.
