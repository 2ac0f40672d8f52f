//! The interface description (IDL) of a program, as the `#[nssa_program]`
//! expansion generates it.

use vstd::prelude::*;

use crate::attrs::ConstraintsView;
use crate::idl_type::{rust_type_to_idl_string, TypeModel};
use crate::instruction::{InstructionInfo, InstructionView};

verus! {

/// The IDL of a program.
pub struct NssaIdl {
    pub version: String,
    pub name: String,
    pub instructions: Vec<IdlInstruction>,
}

/// One instruction of the IDL.
pub struct IdlInstruction {
    pub name: String,
    pub accounts: Vec<IdlAccountItem>,
    pub args: Vec<IdlArg>,
}

/// One account of an IDL instruction.
pub struct IdlAccountItem {
    pub name: String,
    pub writable: bool,
    pub signer: bool,
    pub init: bool,
    pub owner: Option<String>,
    pub pda: Option<IdlPda>,
}

/// How the address of a program-derived account is computed.
pub struct IdlPda {
    pub seeds: Vec<IdlSeed>,
}

/// One seed of a program-derived address.
pub enum IdlSeed {
    /// A constant string.
    Const { value: String },
    /// The address of another account of the instruction.
    Account { path: String },
    /// An instruction argument.
    Arg { path: String },
}

/// One argument of an IDL instruction.
pub struct IdlArg {
    pub name: String,
    pub type_: IdlType,
}

/// The type of an IDL argument.
pub enum IdlType {
    /// A type written by its IDL type string.
    Primitive(String),
}

/// The IDL account generated for the account parameter `a`: writable when
/// it is `mut` (or `init`), signer and init as declared, no owner and no PDA.
pub open spec fn idl_account_matches(x: IdlAccountItem, a: (Seq<char>, ConstraintsView)) -> bool {
    &&& x.name@ == a.0
    &&& x.writable == a.1.mutable
    &&& x.signer == a.1.signer
    &&& x.init == a.1.init
    &&& x.owner is None
    &&& x.pda is None
}

/// The IDL argument generated for the argument `a`: its name and its IDL
/// type string.
pub open spec fn idl_arg_matches(x: IdlArg, a: (Seq<char>, TypeModel)) -> bool {
    &&& x.name@ == a.0
    &&& x.type_ matches IdlType::Primitive(t) && t@ == crate::idl_type::idl_type_string(a.1)
}

/// The IDL instruction generated for the instruction `ix`.
pub open spec fn idl_instruction_matches(x: IdlInstruction, ix: InstructionView) -> bool {
    &&& x.name@ == ix.fn_name
    &&& x.accounts.len() == ix.params.accounts.len()
    &&& forall|j: int|
        0 <= j < x.accounts.len() ==> idl_account_matches(#[trigger] x.accounts@[j], ix.params.accounts[j])
    &&& x.args.len() == ix.params.args.len()
    &&& forall|j: int| 0 <= j < x.args.len() ==> idl_arg_matches(#[trigger] x.args@[j], ix.params.args[j])
}

/// The IDL generated for a program module named `name` with the
/// instructions `ixs`.
pub open spec fn idl_matches(idl: NssaIdl, name: Seq<char>, ixs: Seq<InstructionView>) -> bool {
    &&& idl.version@ == "0.1.0"@
    &&& idl.name@ == name
    &&& idl.instructions.len() == ixs.len()
    &&& forall|i: int|
        0 <= i < ixs.len() ==> idl_instruction_matches(#[trigger] idl.instructions@[i], ixs[i])
}

fn idl_instruction(ix: &InstructionInfo) -> (x: IdlInstruction)
    ensures
        idl_instruction_matches(x, ix@),
{
    let mut accounts: Vec<IdlAccountItem> = Vec::new();
    let mut j: usize = 0;
    while j < ix.accounts.len()
        invariant
            j <= ix.accounts.len(),
            accounts.len() == j,
            forall|k: int|
                0 <= k < j ==> idl_account_matches(#[trigger] accounts@[k], ix@.params.accounts[k]),
        decreases ix.accounts.len() - j,
    {
        let acc = &ix.accounts[j];
        accounts.push(
            IdlAccountItem {
                name: acc.name.clone(),
                writable: acc.constraints.mutable,
                signer: acc.constraints.signer,
                init: acc.constraints.init,
                owner: None,
                pda: None,
            },
        );
        j = j + 1;
    }
    let mut args: Vec<IdlArg> = Vec::new();
    let mut j: usize = 0;
    while j < ix.args.len()
        invariant
            j <= ix.args.len(),
            args.len() == j,
            forall|k: int| 0 <= k < j ==> idl_arg_matches(#[trigger] args@[k], ix@.params.args[k]),
        decreases ix.args.len() - j,
    {
        let arg = &ix.args[j];
        args.push(IdlArg { name: arg.name.clone(), type_: IdlType::Primitive(rust_type_to_idl_string(&arg.ty)) });
        j = j + 1;
    }
    IdlInstruction { name: ix.fn_name.clone(), accounts, args }
}

/// Generates the IDL of a program module from its instructions: version
/// `0.1.0`, the module's name, and one IDL instruction per instruction, in
/// order.
pub fn generate_idl(mod_name: &str, instructions: &Vec<InstructionInfo>) -> (idl: NssaIdl)
    ensures
        idl_matches(idl, mod_name@, instructions@.map_values(|ix: InstructionInfo| ix@)),
{
    let mut out: Vec<IdlInstruction> = Vec::new();
    let mut i: usize = 0;
    while i < instructions.len()
        invariant
            i <= instructions.len(),
            out.len() == i,
            forall|k: int| 0 <= k < i ==> idl_instruction_matches(#[trigger] out@[k], instructions@[k]@),
        decreases instructions.len() - i,
    {
        out.push(idl_instruction(&instructions[i]));
        i = i + 1;
    }
    NssaIdl { version: String::from_str("0.1.0"), name: String::from_str(mod_name), instructions: out }
}

/// An IDL account is writable exactly when its parameter is declared `mut`
/// or `init`, a signer exactly when it is declared `signer`, and init
/// exactly when it is declared `init`: for an instruction read from `inputs`
/// whose account attributes hold accepted keys only, each IDL account
/// follows the keys of the parameter it was read from.
pub proof fn lemma_idl_accounts_follow_declared_keys(
    inputs: Seq<crate::instruction::FnArgModel>,
    fn_name: Seq<char>,
    x: IdlInstruction,
)
    requires
        crate::instruction::params_of(inputs) is Ok,
        idl_instruction_matches(
            x,
            InstructionView { fn_name, params: crate::instruction::params_of(inputs)->Ok_0 },
        ),
    ensures
        forall|j: int|
            0 <= j < x.accounts.len() ==> {
                let q = crate::instruction::params_of(inputs)->Ok_0.account_positions[j];
                inputs[q] matches crate::instruction::FnArgModel::Typed { attrs, .. } && ((forall|i: int|
                    0 <= i < attrs@.len() ==> crate::attrs::plainly_accepted(#[trigger] attrs@[i])) ==> {
                    let keys = crate::attrs::account_keys(attrs@);
                    &&& (#[trigger] x.accounts@[j]).writable == (crate::attrs::names_key(keys, "mut"@)
                        || crate::attrs::names_key(keys, "init"@))
                    &&& x.accounts@[j].signer == crate::attrs::names_key(keys, "signer"@)
                    &&& x.accounts@[j].init == crate::attrs::names_key(keys, "init"@)
                })
            },
{
    let p = crate::instruction::params_of(inputs)->Ok_0;
    crate::instruction::lemma_params_come_from_their_inputs(inputs);
    assert forall|j: int| 0 <= j < x.accounts.len() implies {
        let q = p.account_positions[j];
        inputs[q] matches crate::instruction::FnArgModel::Typed { attrs, .. } && ((forall|i: int|
            0 <= i < attrs@.len() ==> crate::attrs::plainly_accepted(#[trigger] attrs@[i])) ==> {
            let keys = crate::attrs::account_keys(attrs@);
            &&& (#[trigger] x.accounts@[j]).writable == (crate::attrs::names_key(keys, "mut"@)
                || crate::attrs::names_key(keys, "init"@))
            &&& x.accounts@[j].signer == crate::attrs::names_key(keys, "signer"@)
            &&& x.accounts@[j].init == crate::attrs::names_key(keys, "init"@)
        })
    } by {
        let q = p.account_positions[j];
        assert(idl_account_matches(x.accounts@[j], p.accounts[j]));
        if let crate::instruction::FnArgModel::Typed { attrs, .. } = inputs[q] {
            if forall|i: int| 0 <= i < attrs@.len() ==> crate::attrs::plainly_accepted(#[trigger] attrs@[i]) {
                crate::attrs::lemma_constraints_from_keys(attrs@);
            }
        }
    }
}

} // verus!
