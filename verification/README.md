# emscripten_env

The Emscripten environment for wasmer, with its decisions verified by Verus.

- `src/` is the verified library:
  - `layout`: where globals, the stack and the dynamic heap start in linear
    memory (`EmscriptenGlobalsData`, `align_memory`, `static_alloc`), with
    proofs that static memory, stack and heap follow each other in order;
  - `imports` and `module_imports`: a module's function imports as plain
    values, whether it uses the older `abortOnCannotGrowMemory`, and its
    null-function imports;
  - `namespace`: the globals of the `env` namespace, the underscore-less
    aliases newer Emscripten looks up, and the final list of entries in order;
  - `exports`: completing wasmer's `Exports` map of the `env` namespace with
    those aliases and the null-function stubs;
  - `memory`: the offset and bytes of the heap's base at `DYNAMICTOP_PTR`, or
    the error, for a memory of a given size (`dynamictop_write`), handed to
    wasmer's write (memory contents themselves are not modelled);
  - `startup`: the export and form of the call to `main`, the `argv` table
    and the writes that place it;
  - `metadata`: the layout a module records in its last two globals;
  - `env`: the environment shared by the host functions, with a proof that
    it holds the memory given by the last `set_memory`;
  - `text`: character-level comparison of names.
- `app/` drives wasmer with those decisions: it creates the memory and table,
  builds the import object and runs the module.
- `tests/` runs the library on concrete values, against real wasmer memories
  and modules.
