# wiz

Parts of the wiz compiler toolchain, written in Verus with their behaviour
stated in `requires` / `ensures` contracts and proved.

- `src/` is the verified library: scoped symbol tables, dependency ordering,
  the typed intermediate representation with its type rules and checker, the
  declaration arena, the literal lexer, the mid-level IR with its builder and
  printer, the lowering of names, literals, types and calls into that IR,
  the resolution of calls against declared functions and types, identifier
  generators, and the command-line configuration.
- `tests/` runs the library on concrete values.
- `app/` is a `wizc` command-line driver. It parses the arguments, looks
  for the builtin libraries and reports the configuration and the output
  path. It does not compile: the source parser, the rest of the name resolver and
  of the lowering passes and the LLVM back end are not part of this crate.
