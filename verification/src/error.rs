//! Structured errors for NSSA programs, their numeric codes and messages.

use vstd::prelude::*;

use crate::text::push_decimal;

verus! {

/// Structured error type for NSSA programs.
///
/// Programs use the built-in variants for common failures, or `Custom` for
/// program-specific error codes.
#[derive(Debug)]
pub enum NssaError {
    /// Wrong number of accounts provided for this instruction.
    AccountCountMismatch { expected: usize, actual: usize },
    /// Account is not owned by the expected program.
    InvalidAccountOwner { account_index: usize, expected_owner: String },
    /// Account should be uninitialized but contains data.
    AccountAlreadyInitialized { account_index: usize },
    /// Account should be initialized but is empty.
    AccountNotInitialized { account_index: usize },
    /// Insufficient balance for a transfer or burn.
    InsufficientBalance { available: u128, requested: u128 },
    /// Account data at the given index could not be deserialized.
    DeserializationError { account_index: usize, message: String },
    /// Data could not be serialized.
    SerializationError { message: String },
    /// Arithmetic overflow.
    Overflow { operation: String },
    /// Authorization failure.
    Unauthorized { message: String },
    /// PDA derivation mismatch.
    PdaMismatch { account_index: usize },
    /// Program-specific error with its own code and message.
    Custom { code: u32, message: String },
}

/// The first code of program-specific errors: `Custom { code }` reports
/// `CUSTOM_CODE_BASE + code`.
pub const CUSTOM_CODE_BASE: u32 = 6000;

impl NssaError {
    /// The numeric code reported to clients for this error.
    pub open spec fn spec_error_code(&self) -> int {
        match self {
            NssaError::AccountCountMismatch { .. } => 1000,
            NssaError::InvalidAccountOwner { .. } => 1001,
            NssaError::AccountAlreadyInitialized { .. } => 1002,
            NssaError::AccountNotInitialized { .. } => 1003,
            NssaError::InsufficientBalance { .. } => 1004,
            NssaError::DeserializationError { .. } => 1005,
            NssaError::SerializationError { .. } => 1006,
            NssaError::Overflow { .. } => 1007,
            NssaError::Unauthorized { .. } => 1008,
            NssaError::PdaMismatch { .. } => 1009,
            NssaError::Custom { code, .. } => CUSTOM_CODE_BASE + *code,
        }
    }

    /// Whether the numeric code of this error fits in a `u32`: always, but
    /// for a `Custom` code above `u32::MAX - 6000`.
    pub open spec fn code_fits(&self) -> bool {
        self.spec_error_code() <= u32::MAX
    }

    /// The human-readable message of this error.
    pub open spec fn spec_message(&self) -> Seq<char> {
        match self {
            NssaError::AccountCountMismatch { expected, actual } =>
                "Expected "@ + crate::text::decimal(*expected as nat) + " accounts, got "@ + crate::text::decimal(*actual as nat),
            NssaError::InvalidAccountOwner { account_index, expected_owner } =>
                "Account "@ + crate::text::decimal(*account_index as nat) + " has wrong owner: expected "@
                    + expected_owner@,
            NssaError::AccountAlreadyInitialized { account_index } =>
                "Account "@ + crate::text::decimal(*account_index as nat) + " is already initialized"@,
            NssaError::AccountNotInitialized { account_index } =>
                "Account "@ + crate::text::decimal(*account_index as nat) + " is not initialized"@,
            NssaError::InsufficientBalance { available, requested } =>
                "Insufficient balance: have "@ + crate::text::decimal(*available as nat) + ", need "@
                    + crate::text::decimal(*requested as nat),
            NssaError::DeserializationError { account_index, message } =>
                "Failed to deserialize account data at index "@ + crate::text::decimal(*account_index as nat)
                    + ": "@ + message@,
            NssaError::SerializationError { message } => "Failed to serialize data: "@ + message@,
            NssaError::Overflow { operation } => "Arithmetic overflow: "@ + operation@,
            NssaError::Unauthorized { message } => "Unauthorized: "@ + message@,
            NssaError::PdaMismatch { account_index } =>
                "PDA mismatch for account "@ + crate::text::decimal(*account_index as nat),
            NssaError::Custom { code, message } =>
                "Program error "@ + crate::text::decimal(*code as nat) + ": "@ + message@,
        }
    }

    /// Creates a custom error with a code and message.
    pub fn custom(code: u32, message: &str) -> (e: NssaError)
        ensures
            e matches NssaError::Custom { code: c, message: m } && c == code && m@ == message@,
    {
        NssaError::Custom { code, message: message.to_owned() }
    }

    /// Gets the numeric error code for client-side handling: `1000` to `1009`
    /// for the built-in variants, in declaration order, and `6000 + code` for
    /// `Custom`.
    pub fn error_code(&self) -> (c: u32)
        requires
            self.code_fits(),
        ensures
            c == self.spec_error_code(),
    {
        match self {
            NssaError::AccountCountMismatch { .. } => 1000,
            NssaError::InvalidAccountOwner { .. } => 1001,
            NssaError::AccountAlreadyInitialized { .. } => 1002,
            NssaError::AccountNotInitialized { .. } => 1003,
            NssaError::InsufficientBalance { .. } => 1004,
            NssaError::DeserializationError { .. } => 1005,
            NssaError::SerializationError { .. } => 1006,
            NssaError::Overflow { .. } => 1007,
            NssaError::Unauthorized { .. } => 1008,
            NssaError::PdaMismatch { .. } => 1009,
            NssaError::Custom { code, .. } => CUSTOM_CODE_BASE + *code,
        }
    }

    /// The human-readable message of this error.
    pub fn to_string(&self) -> (s: String)
        ensures
            s@ == self.spec_message(),
    {
        let mut s = String::new();
        match self {
            NssaError::AccountCountMismatch { expected, actual } => {
                s.append("Expected ");
                push_decimal(&mut s, *expected as u128);
                s.append(" accounts, got ");
                push_decimal(&mut s, *actual as u128);
            },
            NssaError::InvalidAccountOwner { account_index, expected_owner } => {
                s.append("Account ");
                push_decimal(&mut s, *account_index as u128);
                s.append(" has wrong owner: expected ");
                s.append(expected_owner.as_str());
            },
            NssaError::AccountAlreadyInitialized { account_index } => {
                s.append("Account ");
                push_decimal(&mut s, *account_index as u128);
                s.append(" is already initialized");
            },
            NssaError::AccountNotInitialized { account_index } => {
                s.append("Account ");
                push_decimal(&mut s, *account_index as u128);
                s.append(" is not initialized");
            },
            NssaError::InsufficientBalance { available, requested } => {
                s.append("Insufficient balance: have ");
                push_decimal(&mut s, *available);
                s.append(", need ");
                push_decimal(&mut s, *requested);
            },
            NssaError::DeserializationError { account_index, message } => {
                s.append("Failed to deserialize account data at index ");
                push_decimal(&mut s, *account_index as u128);
                s.append(": ");
                s.append(message.as_str());
            },
            NssaError::SerializationError { message } => {
                s.append("Failed to serialize data: ");
                s.append(message.as_str());
            },
            NssaError::Overflow { operation } => {
                s.append("Arithmetic overflow: ");
                s.append(operation.as_str());
            },
            NssaError::Unauthorized { message } => {
                s.append("Unauthorized: ");
                s.append(message.as_str());
            },
            NssaError::PdaMismatch { account_index } => {
                s.append("PDA mismatch for account ");
                push_decimal(&mut s, *account_index as u128);
            },
            NssaError::Custom { code, message } => {
                s.append("Program error ");
                push_decimal(&mut s, *code as u128);
                s.append(": ");
                s.append(message.as_str());
            },
        }
        s
    }
}

/// Position of the variant of `e` in the declaration of `NssaError`.
pub open spec fn variant_index(e: NssaError) -> int {
    match e {
        NssaError::AccountCountMismatch { .. } => 0,
        NssaError::InvalidAccountOwner { .. } => 1,
        NssaError::AccountAlreadyInitialized { .. } => 2,
        NssaError::AccountNotInitialized { .. } => 3,
        NssaError::InsufficientBalance { .. } => 4,
        NssaError::DeserializationError { .. } => 5,
        NssaError::SerializationError { .. } => 6,
        NssaError::Overflow { .. } => 7,
        NssaError::Unauthorized { .. } => 8,
        NssaError::PdaMismatch { .. } => 9,
        NssaError::Custom { .. } => 10,
    }
}

/// A built-in error reports `1000` plus the position of its variant, and a
/// custom error reports its own code offset by `6000`: so two built-in errors
/// share a code exactly when they are of the same variant, and no custom code
/// is ever taken for a built-in one.
pub proof fn lemma_error_codes_identify_variants(a: NssaError, b: NssaError)
    ensures
        !(a is Custom) ==> a.spec_error_code() == 1000 + variant_index(a),
        a matches NssaError::Custom { code, .. } ==> a.spec_error_code() == 6000 + code,
        !(a is Custom) && !(b is Custom) ==> (a.spec_error_code() == b.spec_error_code()
            <==> variant_index(a) == variant_index(b)),
        (a is Custom) && !(b is Custom) ==> a.spec_error_code() != b.spec_error_code(),
{
}

/// The code of an error made by `custom` is its code offset by `6000`, and
/// its message is the one given.
pub proof fn lemma_custom_error_reports_its_code(e: NssaError, code: u32, message: Seq<char>)
    requires
        e matches NssaError::Custom { code: c, message: m } && c == code && m@ == message,
    ensures
        e.spec_error_code() == 6000 + code,
        e.spec_message() == "Program error "@ + crate::text::decimal(code as nat) + ": "@ + message,
{
}

} // verus!
