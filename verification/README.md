# bg3_debug_tool

The logic of a debugging tool for Baldur's Gate 3, written in Verus: the
functions under `src/` are verified against their contracts. The stand-ins for
the script extender's runtime (`src/shims.rs`, `src/shims/`) do nothing, and
those that return a placeholder or nothing carry no contract.

- `src/` is the verified library: the binary-mapping patterns and symbol
  mapper, the engine's containers and strings as read from game memory, the
  Osiris function database and the conversion of call arguments, the console
  command handling and its history, the menu's console call syntax, tables
  (search, sort, paging), the search window's decisions, function search, the
  Win32 input translation, and the choice of the code section and of device
  memory types.
- `app/` is plain Rust around it: the exported C functions, terminal and file
  output, the XML reader for the mapping file and the conversions that need
  floating point or an outside crate's traits.
- `tests/` runs the library on concrete values.
