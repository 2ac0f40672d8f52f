use nssa_framework::naming::to_pascal_case;
use nssa_framework::scaffold::snake_case_name;

#[test]
fn pascal_case_of_instruction_names() {
    assert_eq!(to_pascal_case("create_token"), "CreateToken");
    assert_eq!(to_pascal_case("initialize"), "Initialize");
    assert_eq!(to_pascal_case("do_something"), "DoSomething");
    assert_eq!(to_pascal_case("transfer_from_vault_2"), "TransferFromVault2");
}

#[test]
fn pascal_case_edge_cases() {
    assert_eq!(to_pascal_case(""), "");
    assert_eq!(to_pascal_case("_a__b_"), "AB");
    assert_eq!(to_pascal_case("Already"), "Already");
    assert_eq!(to_pascal_case("über_groß"), "ÜberGroß");
    assert_eq!(to_pascal_case("ßa"), "SSa");
}

#[test]
fn pascal_case_is_idempotent_on_ascii() {
    let once = to_pascal_case("mint_new_tokens");
    assert_eq!(to_pascal_case(&once), once);
    assert!(!once.contains('_'));
}

#[test]
fn snake_case_project_names() {
    assert_eq!(snake_case_name("my-app"), "my_app");
    assert_eq!(snake_case_name("a--b-"), "a__b_");
    assert_eq!(snake_case_name("plain"), "plain");
    assert_eq!(snake_case_name(""), "");
}
