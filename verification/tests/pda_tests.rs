use nssa_framework::idl::IdlSeed;
use nssa_framework::pda::{compute_pda_seed, AccountMap};

fn const_seed(v: &str) -> IdlSeed {
    IdlSeed::Const { value: v.to_string() }
}

fn err_of(r: Result<[u8; 32], String>) -> String {
    match r {
        Ok(_) => panic!("expected an error"),
        Err(e) => e,
    }
}

#[test]
fn const_seed_is_zero_padded() {
    let seed = compute_pda_seed(&vec![const_seed("state")], &AccountMap::new()).unwrap();
    let mut expected = [0u8; 32];
    expected[..5].copy_from_slice(b"state");
    assert_eq!(seed, expected);
}

#[test]
fn const_seed_of_exactly_32_bytes() {
    let v = "abcdefghijklmnopqrstuvwxyz012345";
    let seed = compute_pda_seed(&vec![const_seed(v)], &AccountMap::new()).unwrap();
    assert_eq!(&seed[..], v.as_bytes());
}

#[test]
fn const_seed_counts_utf8_bytes() {
    let seed = compute_pda_seed(&vec![const_seed("é")], &AccountMap::new()).unwrap();
    assert_eq!(&seed[..2], "é".as_bytes());
    assert!(seed[2..].iter().all(|b| *b == 0));
    let v = "ééééééééééééééééé";
    assert_eq!(v.len(), 34);
    assert_eq!(
        err_of(compute_pda_seed(&vec![const_seed(v)], &AccountMap::new())),
        format!("Const seed '{}' exceeds 32 bytes", v)
    );
}

#[test]
fn const_seed_too_long() {
    let v = "abcdefghijklmnopqrstuvwxyz0123456";
    assert_eq!(
        err_of(compute_pda_seed(&vec![const_seed(v)], &AccountMap::new())),
        "Const seed 'abcdefghijklmnopqrstuvwxyz0123456' exceeds 32 bytes"
    );
}

#[test]
fn seed_count_must_be_one() {
    assert_eq!(
        err_of(compute_pda_seed(&vec![], &AccountMap::new())),
        "Multi-seed PDAs not yet supported (got 0 seeds)"
    );
    assert_eq!(
        err_of(compute_pda_seed(&vec![const_seed("a"), const_seed("b")], &AccountMap::new())),
        "Multi-seed PDAs not yet supported (got 2 seeds)"
    );
}

#[test]
fn account_seed_uses_resolved_address() {
    let mut accounts = AccountMap::new();
    accounts.insert("owner".to_string(), [7u8; 32]);
    let seed = compute_pda_seed(&vec![IdlSeed::Account { path: "owner".to_string() }], &accounts).unwrap();
    assert_eq!(seed, [7u8; 32]);
    assert_eq!(
        err_of(compute_pda_seed(&vec![IdlSeed::Account { path: "mint".to_string() }], &accounts)),
        "PDA seed references account 'mint' which hasn't been resolved yet"
    );
}

#[test]
fn arg_seeds_are_not_supported() {
    assert_eq!(
        err_of(compute_pda_seed(&vec![IdlSeed::Arg { path: "amount".to_string() }], &AccountMap::new())),
        "Arg-based PDA seeds not yet supported (arg: amount)"
    );
}

#[test]
fn account_map_read_after_write() {
    let mut m = AccountMap::new();
    assert_eq!(m.get("a"), None);
    m.insert("a".to_string(), [1u8; 32]);
    m.insert("b".to_string(), [2u8; 32]);
    assert_eq!(m.get("a"), Some([1u8; 32]));
    assert_eq!(m.get("b"), Some([2u8; 32]));
    m.insert("a".to_string(), [3u8; 32]);
    assert_eq!(m.get("a"), Some([3u8; 32]));
    assert_eq!(m.get("b"), Some([2u8; 32]));
    assert_eq!(m.get("c"), None);
}
