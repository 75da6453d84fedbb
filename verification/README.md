# ketox

Metadata, validation and source discovery for Kotlin/JVM bindings of Rust
functions, verified with Verus.

- `src/` is the verified library: the metadata model and its JVM descriptors
  (`metadata`), identifier rules and the Rust-to-Kotlin renaming (`names`),
  metadata validation (`validate`), the syntax model that discovery reads
  (`syntax`), reading Rust source text with `syn` into that model (`reader`),
  discovery itself (`discover`, `order`, `arrangement`), the string rules and
  exception-reporting decisions of the JNI boundary (`runtime`), command-line
  parsing (`cli`), and properties that relate them (`laws`).
- Trusted, not proved: the few std and `syn` calls in `text`, `names`,
  `runtime` and `reader`. In `reader` this includes the conversion of `syn`'s
  tree into the syntax model, which copies fields and reads a few plain facts
  off `syn`'s values (whether a path segment has arguments, whether a
  function has generics, whether it is `pub`); every check on the model is
  verified.
- `app/` is the `ketox` command-line tool: it reads files, performs JNI calls
  and prints JSON metadata, and leaves every decision to the library.
- `tests/` exercises the library on concrete inputs.
