# nssa_framework

Developer framework for building NSSA/LEZ programs, with its core written in
Verus and proved against its contracts.

- `src/` — the verified library:
  - `error`: `NssaError`, its numeric codes and messages;
  - `text`: decimal formatting and string helpers;
  - `naming`: PascalCase names of instruction variants;
  - `idl_type`, `idl`: IDL type strings and the generated IDL;
  - `attrs`, `instruction`, `program`: what the `#[nssa_program]` expansion
    reads from a module and what it plans to generate;
  - `pda`: PDA seed bytes from IDL seed definitions;
  - `scaffold`: the files of a new project.
- `app/` — the edges: the macro front end (`syn`/`quote`), the error type
  with its `thiserror`/Borsh derives, writing a new project to disk, and PDA
  addresses through the NSSA crates.
- `tests/` — tests of the library.

The resolved accounts that a PDA seed may name are held in `pda::AccountMap`,
a vector of `(name, address)` entries whose type invariant is that no name
occurs twice, viewed as a `Map` from names to addresses. vstd specifies what
a `HashMap` holds only for key types that obey its key model
(`obeys_key_model`), which it grants to primitive integers, `bool` and their
boxes but not to `String`; claiming it for `String` would take an `assume`.
So the map is kept as entries that the proofs can read.
