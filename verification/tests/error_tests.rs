use nssa_framework::error::NssaError;

#[test]
fn custom_builds_custom_variant() {
    let e = NssaError::custom(42, "bad thing");
    match &e {
        NssaError::Custom { code, message } => {
            assert_eq!(*code, 42);
            assert_eq!(message, "bad thing");
        }
        _ => panic!("expected a custom error"),
    }
    assert_eq!(e.error_code(), 6042);
}

#[test]
fn builtin_error_codes() {
    let errors = vec![
        NssaError::AccountCountMismatch { expected: 2, actual: 1 },
        NssaError::InvalidAccountOwner { account_index: 0, expected_owner: "p".to_string() },
        NssaError::AccountAlreadyInitialized { account_index: 1 },
        NssaError::AccountNotInitialized { account_index: 1 },
        NssaError::InsufficientBalance { available: 1, requested: 2 },
        NssaError::DeserializationError { account_index: 3, message: "m".to_string() },
        NssaError::SerializationError { message: "m".to_string() },
        NssaError::Overflow { operation: "add".to_string() },
        NssaError::Unauthorized { message: "no".to_string() },
        NssaError::PdaMismatch { account_index: 4 },
    ];
    for (i, e) in errors.iter().enumerate() {
        assert_eq!(e.error_code(), 1000 + i as u32);
    }
}

#[test]
fn custom_codes_are_offset() {
    assert_eq!(NssaError::custom(0, "").error_code(), 6000);
    assert_eq!(NssaError::custom(u32::MAX - 6000, "").error_code(), u32::MAX);
}

#[test]
fn error_messages() {
    assert_eq!(
        NssaError::AccountCountMismatch { expected: 3, actual: 10 }.to_string(),
        "Expected 3 accounts, got 10"
    );
    assert_eq!(
        NssaError::InvalidAccountOwner { account_index: 2, expected_owner: "token".to_string() }
            .to_string(),
        "Account 2 has wrong owner: expected token"
    );
    assert_eq!(
        NssaError::AccountAlreadyInitialized { account_index: 0 }.to_string(),
        "Account 0 is already initialized"
    );
    assert_eq!(
        NssaError::AccountNotInitialized { account_index: 105 }.to_string(),
        "Account 105 is not initialized"
    );
    assert_eq!(
        NssaError::InsufficientBalance { available: 1000, requested: u128::MAX }.to_string(),
        "Insufficient balance: have 1000, need 340282366920938463463374607431768211455"
    );
    assert_eq!(
        NssaError::DeserializationError { account_index: 7, message: "eof".to_string() }
            .to_string(),
        "Failed to deserialize account data at index 7: eof"
    );
    assert_eq!(
        NssaError::SerializationError { message: "too big".to_string() }.to_string(),
        "Failed to serialize data: too big"
    );
    assert_eq!(
        NssaError::Overflow { operation: "mint".to_string() }.to_string(),
        "Arithmetic overflow: mint"
    );
    assert_eq!(
        NssaError::Unauthorized { message: "not owner".to_string() }.to_string(),
        "Unauthorized: not owner"
    );
    assert_eq!(
        NssaError::PdaMismatch { account_index: 9 }.to_string(),
        "PDA mismatch for account 9"
    );
    assert_eq!(NssaError::custom(17, "paused").to_string(), "Program error 17: paused");
}

#[test]
fn decimal_edge_values() {
    let mut s = String::new();
    nssa_framework::text::push_decimal(&mut s, 0);
    assert_eq!(s, "0");
    let mut s = String::from("x");
    nssa_framework::text::push_decimal(&mut s, 10);
    assert_eq!(s, "x10");
}
