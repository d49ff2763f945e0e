# rustmodlica

The front end of a Modelica compiler, verified with Verus: a lexer and a
recursive-descent parser for Modelica class definitions and `.mos` scripts, a
model loader that finds classes on library paths and caches them, the
renaming tables between library versions, the equation vectorizer, the
xorshift generators of the Modelica standard library, and the checks that
the code generator makes on expressions and names.

Layout:

- `src/` — the verified library. Each parser is a grammar written as spec
  functions (`g_*`) and a reader whose result is proved equal to it. The
  loader is proved to follow `src/resolve.rs`, which states as functions of
  its state what each load gives and what it leaves.
- `tests/` — tests of the library.
- `app/` — the command line, file reading, environment settings and the
  floating-point parts (FFT, random numbers mapped to `[0, 1)`).

What the project does not contain: the code generator and JIT that compile
the clustered equations to machine code and run the simulation. They emit
Cranelift IR over floating-point values, Cranelift is not a dependency of this
crate, and the translation context they are written against is not part of the
sources it was built from. What the back end decides on plain values (which
builtin a call dispatches to, arity and unknown-state errors, buffer offsets)
would belong in `src/` once that code is available. The command line loads a
class, reports it, and reports the compile units that its equations cluster
into.
