use nssa_framework::scaffold::project_layout;

fn file<'a>(layout: &'a nssa_framework::scaffold::ProjectLayout, path: &str) -> &'a str {
    &layout
        .files
        .iter()
        .find(|f| f.path == path)
        .unwrap_or_else(|| panic!("no file {}", path))
        .contents
}

#[test]
fn layout_directories_and_paths() {
    let l = project_layout("my-app");
    assert_eq!(l.snake_name, "my_app");
    assert_eq!(
        l.dirs,
        vec!["", "my_app_core/src", "methods/src", "methods/guest/src/bin", "examples/src/bin"]
    );
    let paths: Vec<&str> = l.files.iter().map(|f| f.path.as_str()).collect();
    assert_eq!(
        paths,
        vec![
            "Cargo.toml",
            ".gitignore",
            "Makefile",
            "README.md",
            "my_app_core/Cargo.toml",
            "my_app_core/src/lib.rs",
            "methods/Cargo.toml",
            "methods/build.rs",
            "methods/src/lib.rs",
            "methods/guest/Cargo.toml",
            "methods/guest/src/bin/my_app.rs",
            "examples/Cargo.toml",
            "examples/src/bin/generate_idl.rs",
            "examples/src/bin/my_app_cli.rs",
        ]
    );
}

#[test]
fn workspace_manifest_lists_members() {
    let l = project_layout("my-app");
    assert_eq!(
        file(&l, "Cargo.toml"),
        "[workspace]\nmembers = [\n    \"my_app_core\",\n    \"methods\",\n    \"methods/guest\",\n    \"examples\",\n]\nresolver = \"2\"\n"
    );
}

#[test]
fn makefile_uses_both_names() {
    let l = project_layout("my-app");
    assert_eq!(
        file(&l, "Makefile"),
        ".PHONY: build idl cli\n\nbuild:\n\tcd methods && cargo build\n\nidl:\n\tcargo run --bin generate_idl > my-app-idl.json\n\ncli:\n\tcargo run --bin my_app_cli -- -i my-app-idl.json $(ARGS)\n"
    );
}

#[test]
fn gitignore_is_written_verbatim() {
    let l = project_layout("my-app");
    assert_eq!(
        file(&l, ".gitignore"),
        "target/\nmethods/guest/target/\n*.bin\n.{name}-state\n.{name}-state.tmp\n"
    );
}

#[test]
fn core_manifest_names_the_crate() {
    let l = project_layout("my-app");
    assert_eq!(
        file(&l, "my_app_core/Cargo.toml"),
        "[package]\nname = \"my_app_core\"\nversion = \"0.1.0\"\nedition = \"2021\"\n\n[dependencies]\nserde = { version = \"1.0\", features = [\"derive\"] }\nborsh = \"1.5\"\n"
    );
}

#[test]
fn templates_substitute_names() {
    let l = project_layout("my-app");
    let readme = file(&l, "README.md");
    assert!(readme.starts_with("# my-app\n\nAn NSSA/LEZ program built with"));
    assert!(readme.contains("- **`my_app_core/`** — Shared types and structs (used by guest + host)\n"));
    let guest = file(&l, "methods/guest/src/bin/my_app.rs");
    assert!(guest.contains("use my_app_core::ProgramState;\n"));
    assert!(guest.contains("#[nssa_program]\nmod my_app {\n"));
    assert!(guest.contains("fn initialize(\n"));
    let idl_gen = file(&l, "examples/src/bin/generate_idl.rs");
    assert_eq!(
        idl_gen,
        "/// Generate IDL JSON for the my-app program.\n///\n/// Usage:\n///   cargo run --bin generate_idl > my-app-idl.json\n\nnssa_framework::generate_idl!(\"../../methods/guest/src/bin/my_app.rs\");\n"
    );
    let methods = file(&l, "methods/Cargo.toml");
    assert!(methods.starts_with("[package]\nname = \"my_app-methods\"\n"));
    assert!(methods.contains("my_app_core = { path = \"../my_app_core\" }\n"));
    assert_eq!(
        file(&l, "examples/src/bin/my_app_cli.rs"),
        "#[tokio::main]\nasync fn main() {\n    nssa_framework_cli::run().await;\n}\n"
    );
}
