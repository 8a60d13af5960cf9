# java_asm

Reading and writing JVM class files (JVMS chapter 4), verified with Verus.

- `src/jvms/` — the class-file structures, a reader from bytes and a writer to bytes.
  Reading a class file keeps attribute bodies as bytes first and then reads every known
  attribute body into its structure; `class_roundtrip.rs` proves that reading the bytes
  written for a well-formed class file gives that class file back, `reread.rs` that
  writing a class file read with its bodies kept as bytes gives back the bytes read, and
  `class_roundtrip.rs` again that a class file read with its bodies in their structures
  is written back as the bytes read wherever each body is written as it was read.
- `src/mutf8.rs` — Java's modified UTF-8, both directions; valid UTF-8 converts to
  modified UTF-8 and back unchanged.
- `src/node/` — resolving constant-pool entries into names and values, with a cache, and
  the node view of a class (`node_reader.rs`: name, super class, interfaces, signature,
  source file and debug extension, module, enclosing method, annotations and type
  annotations, inner classes, nest host and members, permitted subclasses, record
  components, the other attributes under their names, fields with their initial values
  and annotations, methods with their signatures, exceptions, parameters and annotations).
- `src/pool.rs` — a constant pool builder that never holds an item twice.
- `src/smali.rs`, `src/render.rs` — smali token trees, access-flag text, and the smali
  text of a class in the node view.
- `src/descriptor.rs` — method descriptors taken apart into argument and return types.
- `src/class_index.rs`, `src/cli.rs` — the rules of the command-line front end: input
  recognition, class-name forms, archive paths, output paths, member listings.
- `app/` — the command-line program: argument parsing, files, ZIP archives, JSON output.

Every reader that the original lets panic on malformed input has a `try_` form that
returns `None` exactly on those inputs.
