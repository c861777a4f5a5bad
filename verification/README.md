# slopc

An attribute that asks a language model to write the body of a function at
compile time, checks the reply and sends errors back until a reply passes or
the attempts run out.

The decisions are a verified library (`src/`, checked with Verus):

- `text` — character helpers: trimming (Unicode white space), lines, joining,
  decimal and hexadecimal digits.
- `fences` — removing a markdown fence around a reply.
- `lint` — finding panic-prone calls outside string and character literals.
- `doctests` — the code blocks of doc comments, and the program that runs them.
- `prompt` — the system and user prompts.
- `config` — defaults, attribute arguments and their merge.
- `cache` — cache key, cache file name and contents, and the cache decision.
- `types` — type names of a signature and their definitions in the sources.
- `order` — string order and sorting.
- `deps` — the dependency list read from `Cargo.toml`.
- `session` — the protocol: model call, parse, lint, compile, doctests, retry.

`app/` holds the parts that talk to the compiler, the file system, the
environment, the model's HTTP API and `rustc`; `tests/` exercises the library.
