//! Verified core of a developer framework for NSSA/LEZ programs: structured
//! program errors, the naming and IDL rules of the `#[nssa_program]` macro,
//! PDA seed derivation from IDL seed definitions and project scaffolding.

pub mod text;
pub mod error;
pub mod naming;
pub mod idl_type;
pub mod attrs;
pub mod instruction;
pub mod idl;
pub mod program;
pub mod pda;
pub mod scaffold;
