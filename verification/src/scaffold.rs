//! Scaffolding of a new NSSA program project: the directories and files
//! that `init` creates for a project name.

use vstd::prelude::*;

use crate::text::{chars_of, push_char};

verus! {

/// Piece 0 of the template of `workspace_manifest`.
pub const WORKSPACE_MANIFEST_0: &'static str = r#"[workspace]
members = [
    ""#;
/// Piece 1 of the template of `workspace_manifest`.
pub const WORKSPACE_MANIFEST_1: &'static str = r#"_core",
    "methods",
    "methods/guest",
    "examples",
]
resolver = "2"
"#;
/// Piece 0 of the template of `gitignore`.
pub const GITIGNORE_0: &'static str = r#"target/
methods/guest/target/
*.bin
.{name}-state
.{name}-state.tmp
"#;
/// Piece 0 of the template of `makefile`.
pub const MAKEFILE_0: &'static str = r#".PHONY: build idl cli

build:
	cd methods && cargo build

idl:
	cargo run --bin generate_idl > "#;
/// Piece 1 of the template of `makefile`.
pub const MAKEFILE_1: &'static str = r#"-idl.json

cli:
	cargo run --bin "#;
/// Piece 2 of the template of `makefile`.
pub const MAKEFILE_2: &'static str = r#"_cli -- -i "#;
/// Piece 3 of the template of `makefile`.
pub const MAKEFILE_3: &'static str = r#"-idl.json $(ARGS)
"#;
/// Piece 0 of the template of `readme`.
pub const README_0: &'static str = r#"# "#;
/// Piece 1 of the template of `readme`.
pub const README_1: &'static str = r#"

An NSSA/LEZ program built with [nssa-framework](https://github.com/jimmy-claw/nssa-framework).

## Quick Start

### 1. Build the guest program

```bash
cd methods && cargo build
```

### 2. Generate the IDL

```bash
make idl
# or: cargo run --bin generate_idl > "#;
/// Piece 2 of the template of `readme`.
pub const README_2: &'static str = r#"-idl.json
```

### 3. Use the CLI

```bash
# Show available commands (auto-generated from IDL):
make cli ARGS="--help"

# Dry run an instruction:
make cli ARGS="--dry-run -p path/to/"#;
/// Piece 3 of the template of `readme`.
pub const README_3: &'static str = r#".bin <command> --arg1 value1"

# Submit a transaction:
make cli ARGS="-p path/to/"#;
/// Piece 4 of the template of `readme`.
pub const README_4: &'static str = r#".bin <command> --arg1 value1"
```

## Project Structure

- **`"#;
/// Piece 5 of the template of `readme`.
pub const README_5: &'static str = r#"_core/`** — Shared types and structs (used by guest + host)
- **`methods/guest/`** — The RISC Zero guest program (runs on-chain)
- **`examples/`** — CLI tools (IDL generator + generic CLI wrapper)
"#;
/// Piece 0 of the template of `core_manifest`.
pub const CORE_MANIFEST_0: &'static str = r#"[package]
name = ""#;
/// Piece 1 of the template of `core_manifest`.
pub const CORE_MANIFEST_1: &'static str = r#"_core"
version = "0.1.0"
edition = "2021"

[dependencies]
serde = { version = "1.0", features = ["derive"] }
borsh = "1.5"
"#;
/// Piece 0 of the template of `core_lib`.
pub const CORE_LIB_0: &'static str = r#"use serde::{Deserialize, Serialize};

/// Example state struct — customize for your program.
#[derive(Debug, Clone, Serialize, Deserialize)]
pub struct ProgramState {
    pub initialized: bool,
    pub owner: [u8; 32],
}
"#;
/// Piece 0 of the template of `methods_manifest`.
pub const METHODS_MANIFEST_0: &'static str = r#"[package]
name = ""#;
/// Piece 1 of the template of `methods_manifest`.
pub const METHODS_MANIFEST_1: &'static str = r#"-methods"
version = "0.1.0"
edition = "2021"

[build-dependencies]
risc0-build = "3.0"

[dependencies]
risc0-zkvm = { version = "3.0.3", features = ["std"] }
"#;
/// Piece 2 of the template of `methods_manifest`.
pub const METHODS_MANIFEST_2: &'static str = r#"_core = { path = "../"#;
/// Piece 3 of the template of `methods_manifest`.
pub const METHODS_MANIFEST_3: &'static str = r#"_core" }
"#;
/// Piece 0 of the template of `methods_build_script`.
pub const METHODS_BUILD_SCRIPT_0: &'static str = r#"fn main() {
    risc0_build::embed_methods();
}
"#;
/// Piece 0 of the template of `methods_lib`.
pub const METHODS_LIB_0: &'static str = r#"include!(concat!(env!("OUT_DIR"), "/methods.rs"));
"#;
/// Piece 0 of the template of `guest_manifest`.
pub const GUEST_MANIFEST_0: &'static str = r#"[package]
name = ""#;
/// Piece 1 of the template of `guest_manifest`.
pub const GUEST_MANIFEST_1: &'static str = r#"-guest"
version = "0.1.0"
edition = "2021"

[workspace]

[[bin]]
name = ""#;
/// Piece 2 of the template of `guest_manifest`.
pub const GUEST_MANIFEST_2: &'static str = r#""
path = "src/bin/"#;
/// Piece 3 of the template of `guest_manifest`.
pub const GUEST_MANIFEST_3: &'static str = r#".rs"

[dependencies]
nssa-framework = { git = "https://github.com/jimmy-claw/nssa-framework.git" }
nssa_core = { git = "https://github.com/logos-blockchain/lssa.git", branch = "schouhy/full-bedrock-integration" }
risc0-zkvm = { version = "3.0.3", default-features = false, features = ["guest"] }
"#;
/// Piece 4 of the template of `guest_manifest`.
pub const GUEST_MANIFEST_4: &'static str = r#"_core = { path = "../../"#;
/// Piece 5 of the template of `guest_manifest`.
pub const GUEST_MANIFEST_5: &'static str = r#"_core" }
serde = { version = "1.0", features = ["derive"] }
borsh = "1.5"
"#;
/// Piece 0 of the template of `guest_program`.
pub const GUEST_PROGRAM_0: &'static str = r#"#![no_main]

use nssa_core::account::{Account, AccountId, AccountWithMetadata};
use nssa_core::program::{AccountPostState, ProgramId};
use nssa_framework::prelude::*;
use "#;
/// Piece 1 of the template of `guest_program`.
pub const GUEST_PROGRAM_1: &'static str = r#"_core::ProgramState;

risc0_zkvm::guest::entry!(main);

#[nssa_program]
mod "#;
/// Piece 2 of the template of `guest_program`.
pub const GUEST_PROGRAM_2: &'static str = r#" {
    #[allow(unused_imports)]
    use super::*;

    /// Initialize the program state.
    #[instruction]
    pub fn initialize(
        #[account(init, pda = literal("state"))]
        state: AccountWithMetadata,
        #[account(signer)]
        owner: AccountWithMetadata,
    ) {
        // TODO: implement initialization logic
    }

    /// Example instruction — replace with your own.
    #[instruction]
    pub fn do_something(
        #[account(mut, pda = literal("state"))]
        state: AccountWithMetadata,
        #[account(signer)]
        owner: AccountWithMetadata,
        amount: u64,
    ) {
        // TODO: implement your logic
    }
}
"#;
/// Piece 0 of the template of `examples_manifest`.
pub const EXAMPLES_MANIFEST_0: &'static str = r#"[package]
name = ""#;
/// Piece 1 of the template of `examples_manifest`.
pub const EXAMPLES_MANIFEST_1: &'static str = r#"-examples"
version = "0.1.0"
edition = "2021"

[[bin]]
name = "generate_idl"
path = "src/bin/generate_idl.rs"

[[bin]]
name = ""#;
/// Piece 2 of the template of `examples_manifest`.
pub const EXAMPLES_MANIFEST_2: &'static str = r#"_cli"
path = "src/bin/"#;
/// Piece 3 of the template of `examples_manifest`.
pub const EXAMPLES_MANIFEST_3: &'static str = r#"_cli.rs"

[dependencies]
nssa-framework = { git = "https://github.com/jimmy-claw/nssa-framework.git" }
nssa-framework-core = { git = "https://github.com/jimmy-claw/nssa-framework.git" }
nssa-framework-cli = { git = "https://github.com/jimmy-claw/nssa-framework.git" }
"#;
/// Piece 4 of the template of `examples_manifest`.
pub const EXAMPLES_MANIFEST_4: &'static str = r#"_core = { path = "../"#;
/// Piece 5 of the template of `examples_manifest`.
pub const EXAMPLES_MANIFEST_5: &'static str = r#"_core" }
serde_json = "1.0"
tokio = { version = "1.28.2", features = ["net", "rt-multi-thread", "sync", "macros"] }
"#;
/// Piece 0 of the template of `idl_generator`.
pub const IDL_GENERATOR_0: &'static str = r#"/// Generate IDL JSON for the "#;
/// Piece 1 of the template of `idl_generator`.
pub const IDL_GENERATOR_1: &'static str = r#" program.
///
/// Usage:
///   cargo run --bin generate_idl > "#;
/// Piece 2 of the template of `idl_generator`.
pub const IDL_GENERATOR_2: &'static str = r#"-idl.json

nssa_framework::generate_idl!("../../methods/guest/src/bin/"#;
/// Piece 3 of the template of `idl_generator`.
pub const IDL_GENERATOR_3: &'static str = r#".rs");
"#;
/// Piece 0 of the template of `cli_wrapper`.
pub const CLI_WRAPPER_0: &'static str = r#"#[tokio::main]
async fn main() {
    nssa_framework_cli::run().await;
}
"#;

/// The workspace manifest `Cargo.toml`.
pub open spec fn workspace_manifest(name: Seq<char>, snake: Seq<char>) -> Seq<char> {
    WORKSPACE_MANIFEST_0@
        + snake
        + WORKSPACE_MANIFEST_1@
}

/// `.gitignore`.
pub open spec fn gitignore(name: Seq<char>, snake: Seq<char>) -> Seq<char> {
    GITIGNORE_0@
}

/// The `Makefile` with the `build`, `idl` and `cli` targets.
pub open spec fn makefile(name: Seq<char>, snake: Seq<char>) -> Seq<char> {
    MAKEFILE_0@
        + name
        + MAKEFILE_1@
        + snake
        + MAKEFILE_2@
        + name
        + MAKEFILE_3@
}

/// The project `README.md`.
pub open spec fn readme(name: Seq<char>, snake: Seq<char>) -> Seq<char> {
    README_0@
        + name
        + README_1@
        + name
        + README_2@
        + name
        + README_3@
        + name
        + README_4@
        + snake
        + README_5@
}

/// The manifest of the shared types crate.
pub open spec fn core_manifest(name: Seq<char>, snake: Seq<char>) -> Seq<char> {
    CORE_MANIFEST_0@
        + snake
        + CORE_MANIFEST_1@
}

/// The shared types crate, with an example state struct.
pub open spec fn core_lib(name: Seq<char>, snake: Seq<char>) -> Seq<char> {
    CORE_LIB_0@
}

/// The manifest of the methods crate.
pub open spec fn methods_manifest(name: Seq<char>, snake: Seq<char>) -> Seq<char> {
    METHODS_MANIFEST_0@
        + snake
        + METHODS_MANIFEST_1@
        + snake
        + METHODS_MANIFEST_2@
        + snake
        + METHODS_MANIFEST_3@
}

/// The build script of the methods crate.
pub open spec fn methods_build_script(name: Seq<char>, snake: Seq<char>) -> Seq<char> {
    METHODS_BUILD_SCRIPT_0@
}

/// The methods crate, which embeds the guest.
pub open spec fn methods_lib(name: Seq<char>, snake: Seq<char>) -> Seq<char> {
    METHODS_LIB_0@
}

/// The manifest of the guest program.
pub open spec fn guest_manifest(name: Seq<char>, snake: Seq<char>) -> Seq<char> {
    GUEST_MANIFEST_0@
        + snake
        + GUEST_MANIFEST_1@
        + snake
        + GUEST_MANIFEST_2@
        + snake
        + GUEST_MANIFEST_3@
        + snake
        + GUEST_MANIFEST_4@
        + snake
        + GUEST_MANIFEST_5@
}

/// The guest program skeleton with two instructions.
pub open spec fn guest_program(name: Seq<char>, snake: Seq<char>) -> Seq<char> {
    GUEST_PROGRAM_0@
        + snake
        + GUEST_PROGRAM_1@
        + snake
        + GUEST_PROGRAM_2@
}

/// The manifest of the examples crate.
pub open spec fn examples_manifest(name: Seq<char>, snake: Seq<char>) -> Seq<char> {
    EXAMPLES_MANIFEST_0@
        + snake
        + EXAMPLES_MANIFEST_1@
        + snake
        + EXAMPLES_MANIFEST_2@
        + snake
        + EXAMPLES_MANIFEST_3@
        + snake
        + EXAMPLES_MANIFEST_4@
        + snake
        + EXAMPLES_MANIFEST_5@
}

/// The IDL generator binary.
pub open spec fn idl_generator(name: Seq<char>, snake: Seq<char>) -> Seq<char> {
    IDL_GENERATOR_0@
        + name
        + IDL_GENERATOR_1@
        + name
        + IDL_GENERATOR_2@
        + snake
        + IDL_GENERATOR_3@
}

/// The generic CLI wrapper binary.
pub open spec fn cli_wrapper(name: Seq<char>, snake: Seq<char>) -> Seq<char> {
    CLI_WRAPPER_0@
}

fn workspace_manifest_text(name: &str, snake: &str) -> (s: String)
    ensures
        s@ == workspace_manifest(name@, snake@),
{
    let mut s = String::new();
    s.append(WORKSPACE_MANIFEST_0);
    s.append(snake);
    s.append(WORKSPACE_MANIFEST_1);
    s
}

fn gitignore_text(name: &str, snake: &str) -> (s: String)
    ensures
        s@ == gitignore(name@, snake@),
{
    let mut s = String::new();
    s.append(GITIGNORE_0);
    s
}

fn makefile_text(name: &str, snake: &str) -> (s: String)
    ensures
        s@ == makefile(name@, snake@),
{
    let mut s = String::new();
    s.append(MAKEFILE_0);
    s.append(name);
    s.append(MAKEFILE_1);
    s.append(snake);
    s.append(MAKEFILE_2);
    s.append(name);
    s.append(MAKEFILE_3);
    s
}

fn readme_text(name: &str, snake: &str) -> (s: String)
    ensures
        s@ == readme(name@, snake@),
{
    let mut s = String::new();
    s.append(README_0);
    s.append(name);
    s.append(README_1);
    s.append(name);
    s.append(README_2);
    s.append(name);
    s.append(README_3);
    s.append(name);
    s.append(README_4);
    s.append(snake);
    s.append(README_5);
    s
}

fn core_manifest_text(name: &str, snake: &str) -> (s: String)
    ensures
        s@ == core_manifest(name@, snake@),
{
    let mut s = String::new();
    s.append(CORE_MANIFEST_0);
    s.append(snake);
    s.append(CORE_MANIFEST_1);
    s
}

fn core_lib_text(name: &str, snake: &str) -> (s: String)
    ensures
        s@ == core_lib(name@, snake@),
{
    let mut s = String::new();
    s.append(CORE_LIB_0);
    s
}

fn methods_manifest_text(name: &str, snake: &str) -> (s: String)
    ensures
        s@ == methods_manifest(name@, snake@),
{
    let mut s = String::new();
    s.append(METHODS_MANIFEST_0);
    s.append(snake);
    s.append(METHODS_MANIFEST_1);
    s.append(snake);
    s.append(METHODS_MANIFEST_2);
    s.append(snake);
    s.append(METHODS_MANIFEST_3);
    s
}

fn methods_build_script_text(name: &str, snake: &str) -> (s: String)
    ensures
        s@ == methods_build_script(name@, snake@),
{
    let mut s = String::new();
    s.append(METHODS_BUILD_SCRIPT_0);
    s
}

fn methods_lib_text(name: &str, snake: &str) -> (s: String)
    ensures
        s@ == methods_lib(name@, snake@),
{
    let mut s = String::new();
    s.append(METHODS_LIB_0);
    s
}

fn guest_manifest_text(name: &str, snake: &str) -> (s: String)
    ensures
        s@ == guest_manifest(name@, snake@),
{
    let mut s = String::new();
    s.append(GUEST_MANIFEST_0);
    s.append(snake);
    s.append(GUEST_MANIFEST_1);
    s.append(snake);
    s.append(GUEST_MANIFEST_2);
    s.append(snake);
    s.append(GUEST_MANIFEST_3);
    s.append(snake);
    s.append(GUEST_MANIFEST_4);
    s.append(snake);
    s.append(GUEST_MANIFEST_5);
    s
}

fn guest_program_text(name: &str, snake: &str) -> (s: String)
    ensures
        s@ == guest_program(name@, snake@),
{
    let mut s = String::new();
    s.append(GUEST_PROGRAM_0);
    s.append(snake);
    s.append(GUEST_PROGRAM_1);
    s.append(snake);
    s.append(GUEST_PROGRAM_2);
    s
}

fn examples_manifest_text(name: &str, snake: &str) -> (s: String)
    ensures
        s@ == examples_manifest(name@, snake@),
{
    let mut s = String::new();
    s.append(EXAMPLES_MANIFEST_0);
    s.append(snake);
    s.append(EXAMPLES_MANIFEST_1);
    s.append(snake);
    s.append(EXAMPLES_MANIFEST_2);
    s.append(snake);
    s.append(EXAMPLES_MANIFEST_3);
    s.append(snake);
    s.append(EXAMPLES_MANIFEST_4);
    s.append(snake);
    s.append(EXAMPLES_MANIFEST_5);
    s
}

fn idl_generator_text(name: &str, snake: &str) -> (s: String)
    ensures
        s@ == idl_generator(name@, snake@),
{
    let mut s = String::new();
    s.append(IDL_GENERATOR_0);
    s.append(name);
    s.append(IDL_GENERATOR_1);
    s.append(name);
    s.append(IDL_GENERATOR_2);
    s.append(snake);
    s.append(IDL_GENERATOR_3);
    s
}

fn cli_wrapper_text(name: &str, snake: &str) -> (s: String)
    ensures
        s@ == cli_wrapper(name@, snake@),
{
    let mut s = String::new();
    s.append(CLI_WRAPPER_0);
    s
}


/// `name` with every `-` replaced by `_`, usable as a Rust crate name.
pub open spec fn snake_case(name: Seq<char>) -> Seq<char> {
    name.map_values(|c: char| if c == '-' { '_' } else { c })
}

/// The crate-safe name of a project has the same length as the name, holds
/// no `-`, and keeps every other character in place.
pub proof fn lemma_snake_case_name(name: Seq<char>)
    ensures
        snake_case(name).len() == name.len(),
        forall|j: int| 0 <= j < name.len() ==> #[trigger] snake_case(name)[j] != '-',
        forall|j: int| 0 <= j < name.len() && name[j] != '-' ==> #[trigger] snake_case(name)[j] == name[j],
{
}

/// Replaces every `-` of a project name by `_`.
pub fn snake_case_name(name: &str) -> (r: String)
    ensures
        r@ == snake_case(name@),
{
    let cs = chars_of(name);
    let mut r = String::new();
    let mut i: usize = 0;
    while i < cs.len()
        invariant
            cs@ == name@,
            i <= cs.len(),
            r@ == snake_case(cs@.take(i as int)),
        decreases cs.len() - i,
    {
        let c = cs[i];
        push_char(&mut r, if c == '-' { '_' } else { c });
        i = i + 1;
        proof {
            assert(snake_case(cs@.take(i as int)) =~= snake_case(cs@.take(i - 1)).push(
                if c == '-' { '_' } else { c },
            ));
        }
    }
    proof {
        assert(cs@.take(cs.len() as int) =~= name@);
    }
    r
}

/// A file of the new project: its path below the project root and its
/// contents.
pub struct ProjectFile {
    pub path: String,
    pub contents: String,
}

/// The directories and files of a new project.
pub struct ProjectLayout {
    /// The project name with `-` replaced by `_`.
    pub snake_name: String,
    /// The directories to create below the project root (with their
    /// parents), in order; `""` is the root itself.
    pub dirs: Vec<String>,
    /// The files to write below the project root, in order.
    pub files: Vec<ProjectFile>,
}

/// The directories of a new project whose snake_case name is `snake`.
pub open spec fn layout_dirs(snake: Seq<char>) -> Seq<Seq<char>> {
    seq![""@, snake + "_core/src"@, "methods/src"@, "methods/guest/src/bin"@, "examples/src/bin"@]
}

/// The files of a new project named `name`, whose snake_case name is
/// `snake`: paths and contents.
pub open spec fn layout_files(name: Seq<char>, snake: Seq<char>) -> Seq<(Seq<char>, Seq<char>)> {
    seq![
        ("Cargo.toml"@, workspace_manifest(name, snake)),
        (".gitignore"@, gitignore(name, snake)),
        ("Makefile"@, makefile(name, snake)),
        ("README.md"@, readme(name, snake)),
        (snake + "_core/Cargo.toml"@, core_manifest(name, snake)),
        (snake + "_core/src/lib.rs"@, core_lib(name, snake)),
        ("methods/Cargo.toml"@, methods_manifest(name, snake)),
        ("methods/build.rs"@, methods_build_script(name, snake)),
        ("methods/src/lib.rs"@, methods_lib(name, snake)),
        ("methods/guest/Cargo.toml"@, guest_manifest(name, snake)),
        ("methods/guest/src/bin/"@ + snake + ".rs"@, guest_program(name, snake)),
        ("examples/Cargo.toml"@, examples_manifest(name, snake)),
        ("examples/src/bin/generate_idl.rs"@, idl_generator(name, snake)),
        ("examples/src/bin/"@ + snake + "_cli.rs"@, cli_wrapper(name, snake)),
    ]
}

/// The paths and contents of a sequence of files.
pub open spec fn file_views(files: Seq<ProjectFile>) -> Seq<(Seq<char>, Seq<char>)> {
    files.map_values(|f: ProjectFile| (f.path@, f.contents@))
}

/// Text contained in `hay` at some position.
pub open spec fn contains_text(hay: Seq<char>, needle: Seq<char>) -> bool {
    exists|i: int| 0 <= i && i + needle.len() <= hay.len() && #[trigger] hay.subrange(i, i + needle.len()) == needle
}

/// The scaffolded files name the project: the shared types crate is named
/// `<snake>_core`, the Makefile writes the IDL to `<name>-idl.json`, and the
/// guest program declares `mod <snake>`.
pub proof fn lemma_layout_names_the_project(name: Seq<char>, snake: Seq<char>)
    ensures
        core_manifest(name, snake).subrange(0, 24 + snake.len() as int) == "[package]\nname = \""@ + snake
            + "_core\""@,
        contains_text(makefile(name, snake), "cargo run --bin generate_idl > "@ + name + "-idl.json"@),
        contains_text(guest_program(name, snake), "mod "@ + snake + " {"@),
{
    reveal_strlit(r#"[package]
name = ""#);
    reveal_strlit(r#"_core"
version = "0.1.0"
edition = "2021"

[dependencies]
serde = { version = "1.0", features = ["derive"] }
borsh = "1.5"
"#);
    reveal_strlit(r#".PHONY: build idl cli

build:
	cd methods && cargo build

idl:
	cargo run --bin generate_idl > "#);
    reveal_strlit(r#"-idl.json

cli:
	cargo run --bin "#);
    reveal_strlit(r#"_core::ProgramState;

risc0_zkvm::guest::entry!(main);

#[nssa_program]
mod "#);
    reveal_strlit(r#" {
    #[allow(unused_imports)]
    use super::*;

    /// Initialize the program state.
    #[instruction]
    pub fn initialize(
        #[account(init, pda = literal("state"))]
        state: AccountWithMetadata,
        #[account(signer)]
        owner: AccountWithMetadata,
    ) {
        // TODO: implement initialization logic
    }

    /// Example instruction — replace with your own.
    #[instruction]
    pub fn do_something(
        #[account(mut, pda = literal("state"))]
        state: AccountWithMetadata,
        #[account(signer)]
        owner: AccountWithMetadata,
        amount: u64,
    ) {
        // TODO: implement your logic
    }
}
"#);
    reveal_strlit("[package]\nname = \"");
    reveal_strlit("_core\"");
    reveal_strlit("cargo run --bin generate_idl > ");
    reveal_strlit("-idl.json");
    reveal_strlit("mod ");
    reveal_strlit(" {");
    let c = core_manifest(name, snake);
    assert(c.subrange(0, 24 + snake.len() as int) =~= "[package]\nname = \""@ + snake + "_core\""@);
    let m = makefile(name, snake);
    let needle = "cargo run --bin generate_idl > "@ + name + "-idl.json"@;
    let i = MAKEFILE_0@.len() - 31;
    assert(m.subrange(i, i + needle.len()) =~= needle);
    let g = guest_program(name, snake);
    let needle = "mod "@ + snake + " {"@;
    let j = GUEST_PROGRAM_0@.len() + snake.len() + GUEST_PROGRAM_1@.len() - 4;
    assert(g.subrange(j, j + needle.len()) =~= needle);
}

/// The guest manifest builds the guest program that the layout writes: its
/// `[[bin]]` target is named after the crate-safe name and its path, taken
/// from the guest crate's directory `methods/guest/`, is the path of the
/// guest program file.
pub proof fn lemma_guest_manifest_builds_guest_program(name: Seq<char>, snake: Seq<char>)
    ensures
        layout_files(name, snake)[9].0 == "methods/guest/Cargo.toml"@,
        layout_files(name, snake)[10].0 == "methods/guest/"@ + ("src/bin/"@ + snake + ".rs"@),
        contains_text(
            layout_files(name, snake)[9].1,
            "[[bin]]\nname = \""@ + snake + "\"\npath = \""@ + ("src/bin/"@ + snake + ".rs"@) + "\""@,
        ),
{
    reveal_strlit(r#"[package]
name = ""#);
    reveal_strlit(r#"-guest"
version = "0.1.0"
edition = "2021"

[workspace]

[[bin]]
name = ""#);
    reveal_strlit(r#""
path = "src/bin/"#);
    reveal_strlit(r#".rs"

[dependencies]
nssa-framework = { git = "https://github.com/jimmy-claw/nssa-framework.git" }
nssa_core = { git = "https://github.com/logos-blockchain/lssa.git", branch = "schouhy/full-bedrock-integration" }
risc0-zkvm = { version = "3.0.3", default-features = false, features = ["guest"] }
"#);
    reveal_strlit("methods/guest/Cargo.toml");
    reveal_strlit("methods/guest/src/bin/");
    reveal_strlit("methods/guest/");
    reveal_strlit("src/bin/");
    reveal_strlit(".rs");
    reveal_strlit("[[bin]]\nname = \"");
    reveal_strlit("\"\npath = \"");
    reveal_strlit("\"");
    assert("methods/guest/src/bin/"@ + snake + ".rs"@ =~= "methods/guest/"@ + ("src/bin/"@ + snake + ".rs"@));
    let g = guest_manifest(name, snake);
    let needle = "[[bin]]\nname = \""@ + snake + "\"\npath = \""@ + ("src/bin/"@ + snake + ".rs"@) + "\""@;
    let i = GUEST_MANIFEST_0@.len() + snake.len() + GUEST_MANIFEST_1@.len() - 16;
    assert(g.subrange(i, i + needle.len()) =~= needle);
}

/// Plans the directories and files of a new project named `name`.
pub fn project_layout(name: &str) -> (l: ProjectLayout)
    ensures
        l.snake_name@ == snake_case(name@),
        l.dirs@.map_values(|d: String| d@) == layout_dirs(snake_case(name@)),
        file_views(l.files@) == layout_files(name@, snake_case(name@)),
{
    let snake = snake_case_name(name);
    let snake = snake.as_str();
    let mut dirs: Vec<String> = Vec::new();
    dirs.push(String::from_str(""));
    let mut d = String::from_str(snake);
    d.append("_core/src");
    dirs.push(d);
    dirs.push(String::from_str("methods/src"));
    dirs.push(String::from_str("methods/guest/src/bin"));
    dirs.push(String::from_str("examples/src/bin"));
    let mut files: Vec<ProjectFile> = Vec::new();
    {
        let mut p = String::new();
        p.append("Cargo.toml");
        files.push(ProjectFile { path: p, contents: workspace_manifest_text(name, snake) });
    }
    {
        let mut p = String::new();
        p.append(".gitignore");
        files.push(ProjectFile { path: p, contents: gitignore_text(name, snake) });
    }
    {
        let mut p = String::new();
        p.append("Makefile");
        files.push(ProjectFile { path: p, contents: makefile_text(name, snake) });
    }
    {
        let mut p = String::new();
        p.append("README.md");
        files.push(ProjectFile { path: p, contents: readme_text(name, snake) });
    }
    {
        let mut p = String::new();
        p.append(snake);
        p.append("_core/Cargo.toml");
        files.push(ProjectFile { path: p, contents: core_manifest_text(name, snake) });
    }
    {
        let mut p = String::new();
        p.append(snake);
        p.append("_core/src/lib.rs");
        files.push(ProjectFile { path: p, contents: core_lib_text(name, snake) });
    }
    {
        let mut p = String::new();
        p.append("methods/Cargo.toml");
        files.push(ProjectFile { path: p, contents: methods_manifest_text(name, snake) });
    }
    {
        let mut p = String::new();
        p.append("methods/build.rs");
        files.push(ProjectFile { path: p, contents: methods_build_script_text(name, snake) });
    }
    {
        let mut p = String::new();
        p.append("methods/src/lib.rs");
        files.push(ProjectFile { path: p, contents: methods_lib_text(name, snake) });
    }
    {
        let mut p = String::new();
        p.append("methods/guest/Cargo.toml");
        files.push(ProjectFile { path: p, contents: guest_manifest_text(name, snake) });
    }
    {
        let mut p = String::new();
        p.append("methods/guest/src/bin/");
        p.append(snake);
        p.append(".rs");
        files.push(ProjectFile { path: p, contents: guest_program_text(name, snake) });
    }
    {
        let mut p = String::new();
        p.append("examples/Cargo.toml");
        files.push(ProjectFile { path: p, contents: examples_manifest_text(name, snake) });
    }
    {
        let mut p = String::new();
        p.append("examples/src/bin/generate_idl.rs");
        files.push(ProjectFile { path: p, contents: idl_generator_text(name, snake) });
    }
    {
        let mut p = String::new();
        p.append("examples/src/bin/");
        p.append(snake);
        p.append("_cli.rs");
        files.push(ProjectFile { path: p, contents: cli_wrapper_text(name, snake) });
    }
    proof {
        assert(dirs@.map_values(|d: String| d@) =~= layout_dirs(snake@));
        assert(file_views(files@) =~= layout_files(name@, snake@));
    }
    ProjectLayout { snake_name: String::from_str(snake), dirs, files }
}

} // verus!
