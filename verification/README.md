# kotlinrs

A Kotlin runtime on the [`fusevm`](https://crates.io/crates/fusevm) bytecode VM,
with its logic verified by Verus.

* `src/` is the library: the lexer, the object heap, the members of the standard
  library, exceptions, equality and hashing, collections and their iteration
  order, formatting, and the answers of the language server. Every public
  function has a contract that says what it answers; the laws that relate functions are the
  public proof functions whose names start with `law_`.
* `tests/` runs the library on concrete values.
* `app/` is the `kotlin` program around it: the machine that runs a chunk, the
  floating-point arithmetic, and the transport of the language server.

## How a run works

The library never runs user code. A member that takes a lambda, or that has to ask
a declared `equals`, `hashCode` or `toString`, names the call that it needs. The
machine runs it and hands the result back, until the member is done. With the
result of a declared member it hands back the state in which the question was asked,
so that nothing which has been read by then changes under the reader. Doubles are
held by their bits and their shortest decimal digits; arithmetic on them is named
as a task and done by the machine.

A program reaches the machine as a compiled chunk. Each operation in it is one of
the numbered operations of `src/ops.rs`.

## What is trusted

The wrappers marked `external_body` in `src/text.rs`, `src/strings.rs` and
`src/chars.rs` call functions of the standard library on characters and strings.
Those in `src/host.rs` call `fusevm` to read a text or an integer as a number. Each
says in its comment what it claims of the function that it calls.
