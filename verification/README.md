# shiika

Parts of the front end of the Shiika compiler as a library whose behaviour is stated in
contracts and proved with Verus: the lexer and parts of the parser (method signatures, types,
constant names), the class dictionary and its queries, vtables, the core library's classes,
library exports and imports, packages, and the resolution of `require`. The parser of whole
programs (class and method definitions, expressions) and the construction of HIR from the
syntax tree are not part of it.

- `src/names.rs`, `src/ty.rs`: names of classes, methods and constants, and Shiika types.
- `src/parser/`: the lexer, its tokens, the parser's reading of tokens, constant names with
  type arguments (`A::B<C, D>`), and method signatures with their parameters and types.
- `src/ast.rs`: the syntax tree.
- `src/hir/`: the class dictionary and the index built from class definitions (method
  lookup, supertypes, conformance), the stack of contexts that variable lookup walks, and
  the expressions of HIR.
- `src/mir/`: the vtables of the classes.
- `src/corelib/`: the classes of the core library and the signatures of their methods.
- `src/library.rs`: what a library exports and what a program imports from it.
- `src/package.rs`: packages and their dependencies.
- `src/loader.rs`: the files that a source file requires, next to it.

`app/` is the `shiika` command around the library: command-line arguments, configuration, and
reading source files and packages from disk. Code generation uses LLVM and is not part of this crate.
