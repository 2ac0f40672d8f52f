//! Instruction functions of an `#[nssa_program]` module and what the
//! expansion reads from their signatures.

use vstd::prelude::*;

use crate::attrs::{parse_account_constraints, AccountConstraints, AttrModel, MacroError};
use crate::idl_type::TypeModel;
use crate::text::str_eq;

verus! {

/// One input of a function signature.
pub enum FnArgModel {
    /// A `self` receiver.
    Receiver,
    /// A typed parameter `pattern: ty` with its attributes.
    Typed {
        /// The bound name when the pattern is a plain identifier.
        pattern_ident: Option<String>,
        ty: TypeModel,
        attrs: Vec<AttrModel>,
    },
}

/// A function item of the program module.
pub struct FnModel {
    pub name: String,
    pub attrs: Vec<AttrModel>,
    pub inputs: Vec<FnArgModel>,
}

/// An account parameter: its name and constraints.
pub struct AccountParam {
    pub name: String,
    pub constraints: AccountConstraints,
}

/// An instruction argument: its name and type.
pub struct ArgParam {
    pub name: String,
    pub ty: TypeModel,
}

/// What the expansion reads from an instruction function.
pub struct InstructionInfo {
    pub fn_name: String,
    /// Account parameters (of type `AccountWithMetadata`), in order.
    pub accounts: Vec<AccountParam>,
    /// The instruction's arguments, in order: the parameters that are
    /// neither accounts nor the handler's context.
    pub args: Vec<ArgParam>,
    /// For each argument, its position among the function's inputs.
    pub arg_positions: Vec<usize>,
    /// For each account, its position among the function's inputs.
    pub account_positions: Vec<usize>,
    /// Names of the context parameters (of type `Context`), in order.
    pub contexts: Vec<String>,
    /// Names of all parameters, in declared order: the order in which the
    /// handler takes them.
    pub declared: Vec<String>,
}

/// The parameters of an instruction, split into accounts and arguments.
pub struct ParamsView {
    pub accounts: Seq<(Seq<char>, crate::attrs::ConstraintsView)>,
    pub args: Seq<(Seq<char>, TypeModel)>,
    pub arg_positions: Seq<int>,
    pub account_positions: Seq<int>,
    pub contexts: Seq<Seq<char>>,
    pub declared: Seq<Seq<char>>,
}

/// An instruction function as the expansion reads it.
pub struct InstructionView {
    pub fn_name: Seq<char>,
    pub params: ParamsView,
}

impl View for AccountParam {
    type V = (Seq<char>, crate::attrs::ConstraintsView);

    open spec fn view(&self) -> Self::V {
        (self.name@, self.constraints@)
    }
}

impl View for ArgParam {
    type V = (Seq<char>, TypeModel);

    open spec fn view(&self) -> Self::V {
        (self.name@, self.ty)
    }
}

impl View for InstructionInfo {
    type V = InstructionView;

    open spec fn view(&self) -> InstructionView {
        InstructionView {
            fn_name: self.fn_name@,
            params: ParamsView {
                accounts: self.accounts@.map_values(|a: AccountParam| a@),
                args: self.args@.map_values(|a: ArgParam| a@),
                arg_positions: self.arg_positions@.map_values(|p: usize| p as int),
                account_positions: self.account_positions@.map_values(|p: usize| p as int),
                contexts: self.contexts@.map_values(|c: String| c@),
                declared: self.declared@.map_values(|c: String| c@),
            },
        }
    }
}

/// Whether `ty` is the account type: a path whose last identifier is
/// `AccountWithMetadata`.
pub open spec fn is_account(ty: TypeModel) -> bool {
    ty matches TypeModel::Path { ident, .. } && ident@ == "AccountWithMetadata"@
}

/// Whether `ty` is the account type `AccountWithMetadata`.
pub fn is_account_type(ty: &TypeModel) -> (r: bool)
    ensures
        r == is_account(*ty),
{
    match ty {
        TypeModel::Path { ident, .. } => str_eq(ident.as_str(), "AccountWithMetadata"),
        _ => false,
    }
}

/// Whether `ty` is the handler's context type: a path whose last identifier
/// is `Context`. A context parameter is no instruction argument.
pub open spec fn is_context(ty: TypeModel) -> bool {
    ty matches TypeModel::Path { ident, .. } && ident@ == "Context"@
}

/// Whether `ty` is the handler's context type `Context`.
pub fn is_context_type(ty: &TypeModel) -> (r: bool)
    ensures
        r == is_context(*ty),
{
    match ty {
        TypeModel::Path { ident, .. } => str_eq(ident.as_str(), "Context"),
        _ => false,
    }
}

/// The name bound by a parameter pattern, which must be a plain identifier.
pub fn extract_param_name(pattern_ident: &Option<String>) -> (r: Result<String, MacroError>)
    ensures
        match *pattern_ident {
            Some(n) => r == Ok::<String, MacroError>(n),
            None => r == Err::<String, MacroError>(MacroError::NonIdentPattern),
        },
{
    match pattern_ident {
        Some(n) => Ok(n.clone()),
        None => Err(MacroError::NonIdentPattern),
    }
}

/// The parameters declared by `inputs`, read in order: a `self` receiver
/// and a pattern that is not a plain identifier are errors; a parameter of
/// the account type is an account with the constraints of its attributes, a
/// parameter of the context type is the handler's context, any other is an
/// instruction argument.
pub open spec fn params_of(inputs: Seq<FnArgModel>) -> Result<ParamsView, MacroError>
    decreases inputs.len(),
{
    if inputs.len() == 0 {
        Ok(ParamsView { accounts: Seq::empty(), args: Seq::empty(), arg_positions: Seq::empty(), account_positions: Seq::empty(), contexts: Seq::empty(), declared: Seq::empty() })
    } else {
        match params_of(inputs.drop_last()) {
            Err(e) => Err(e),
            Ok(p) => match inputs.last() {
                FnArgModel::Receiver => Err(MacroError::SelfParameter),
                FnArgModel::Typed { pattern_ident, ty, attrs } => match pattern_ident {
                    None => Err(MacroError::NonIdentPattern),
                    Some(n) => if is_account(ty) {
                        match crate::attrs::constraints_of(attrs@) {
                            Ok(c) => Ok(
                                ParamsView {
                                    accounts: p.accounts.push((n@, c)),
                                    account_positions: p.account_positions.push(inputs.len() - 1),
                                    declared: p.declared.push(n@),
                                    ..p
                                },
                            ),
                            Err(e) => Err(e),
                        }
                    } else if is_context(ty) {
                        Ok(ParamsView { contexts: p.contexts.push(n@), declared: p.declared.push(n@), ..p })
                    } else {
                        Ok(
                            ParamsView {
                                args: p.args.push((n@, ty)),
                                arg_positions: p.arg_positions.push(inputs.len() - 1),
                                declared: p.declared.push(n@),
                                ..p
                            },
                        )
                    },
                },
            },
        }
    }
}

proof fn lemma_params_of_stops(inputs: Seq<FnArgModel>, k: int)
    requires
        0 <= k <= inputs.len(),
        params_of(inputs.take(k)) is Err,
    ensures
        params_of(inputs) == params_of(inputs.take(k)),
    decreases inputs.len() - k,
{
    if k < inputs.len() {
        assert(inputs.take(k + 1).drop_last() =~= inputs.take(k));
        lemma_params_of_stops(inputs, k + 1);
    } else {
        assert(inputs.take(k) =~= inputs);
    }
}

/// Reads an instruction function: its name, its account parameters with
/// their constraints and its arguments.
pub fn parse_instruction(func: &FnModel) -> (r: Result<InstructionInfo, MacroError>)
    ensures
        match r {
            Ok(info) => info@.fn_name == func.name@ && params_of(func.inputs@) == Ok::<
                ParamsView,
                MacroError,
            >(info@.params),
            Err(e) => params_of(func.inputs@) == Err::<ParamsView, MacroError>(e),
        },
{
    let mut accounts: Vec<AccountParam> = Vec::new();
    let mut args: Vec<ArgParam> = Vec::new();
    let mut arg_positions: Vec<usize> = Vec::new();
    let mut account_positions: Vec<usize> = Vec::new();
    let mut contexts: Vec<String> = Vec::new();
    let mut declared: Vec<String> = Vec::new();
    let mut i: usize = 0;
    proof {
        assert(func.inputs@.take(0) =~= Seq::<FnArgModel>::empty());
        assert(accounts@.map_values(|a: AccountParam| a@) =~= Seq::empty());
        assert(args@.map_values(|a: ArgParam| a@) =~= Seq::empty());
        assert(arg_positions@.map_values(|p: usize| p as int) =~= Seq::empty());
        assert(account_positions@.map_values(|p: usize| p as int) =~= Seq::empty());
        assert(contexts@.map_values(|c: String| c@) =~= Seq::empty());
        assert(declared@.map_values(|c: String| c@) =~= Seq::empty());
    }
    while i < func.inputs.len()
        invariant
            i <= func.inputs.len(),
            params_of(func.inputs@.take(i as int)) == Ok::<ParamsView, MacroError>(
                ParamsView {
                    accounts: accounts@.map_values(|a: AccountParam| a@),
                    args: args@.map_values(|a: ArgParam| a@),
                    arg_positions: arg_positions@.map_values(|p: usize| p as int),
                    account_positions: account_positions@.map_values(|p: usize| p as int),
                    contexts: contexts@.map_values(|c: String| c@),
                    declared: declared@.map_values(|c: String| c@),
                },
            ),
        decreases func.inputs.len() - i,
    {
        proof {
            assert(func.inputs@.take(i + 1).drop_last() =~= func.inputs@.take(i as int));
        }
        match &func.inputs[i] {
            FnArgModel::Receiver => {
                proof {
                    lemma_params_of_stops(func.inputs@, i + 1);
                }
                return Err(MacroError::SelfParameter);
            },
            FnArgModel::Typed { pattern_ident, ty, attrs } => {
                let name = match extract_param_name(pattern_ident) {
                    Ok(n) => n,
                    Err(e) => {
                        proof {
                            lemma_params_of_stops(func.inputs@, i + 1);
                        }
                        return Err(e);
                    },
                };
                let ghost prev_declared = declared@;
                let decl = name.clone();
                if is_account_type(ty) {
                    match parse_account_constraints(attrs) {
                        Ok(constraints) => {
                            let ghost prev = accounts@;
                            let ghost prev_pos = account_positions@;
                            accounts.push(AccountParam { name, constraints });
                            account_positions.push(i);
                            proof {
                                assert(accounts@.map_values(|a: AccountParam| a@) =~= prev.map_values(
                                    |a: AccountParam| a@,
                                ).push(accounts@.last()@));
                                assert(account_positions@.map_values(|p: usize| p as int) =~= prev_pos.map_values(
                                    |p: usize| p as int,
                                ).push(i as int));
                                assert(func.inputs@.take(i + 1).len() - 1 == i);
                            }
                        },
                        Err(e) => {
                            proof {
                                lemma_params_of_stops(func.inputs@, i + 1);
                            }
                            return Err(e);
                        },
                    }
                } else if is_context_type(ty) {
                    let ghost prev = contexts@;
                    contexts.push(name);
                    proof {
                        assert(contexts@.map_values(|c: String| c@) =~= prev.map_values(
                            |c: String| c@,
                        ).push(contexts@.last()@));
                    }
                } else {
                    let ghost prev = args@;
                    let ghost prev_pos = arg_positions@;
                    args.push(ArgParam { name, ty: ty.duplicate() });
                    arg_positions.push(i);
                    proof {
                        assert(args@.map_values(|a: ArgParam| a@) =~= prev.map_values(
                            |a: ArgParam| a@,
                        ).push(args@.last()@));
                        assert(arg_positions@.map_values(|p: usize| p as int) =~= prev_pos.map_values(
                            |p: usize| p as int,
                        ).push(i as int));
                        assert(func.inputs@.take(i + 1).len() - 1 == i);
                    }
                }
                declared.push(decl);
                proof {
                    assert(declared@.map_values(|c: String| c@) =~= prev_declared.map_values(
                        |c: String| c@,
                    ).push(declared@.last()@));
                }
            },
        }
        i = i + 1;
    }
    proof {
        assert(func.inputs@.take(func.inputs.len() as int) =~= func.inputs@);
    }
    Ok(
        InstructionInfo {
            fn_name: func.name.clone(),
            accounts,
            args,
            arg_positions,
            account_positions,
            contexts,
            declared,
        },
    )
}

/// Every account of accepted parameters that is `init` is also `mut`.
pub proof fn lemma_params_init_accounts_mutable(inputs: Seq<FnArgModel>)
    ensures
        params_of(inputs) matches Ok(p) ==> forall|j: int|
            0 <= j < p.accounts.len() ==> (#[trigger] p.accounts[j]).1.init ==> p.accounts[j].1.mutable,
    decreases inputs.len(),
{
    if inputs.len() > 0 {
        lemma_params_init_accounts_mutable(inputs.drop_last());
        if let FnArgModel::Typed { attrs, .. } = inputs.last() {
            crate::attrs::lemma_init_implies_mut(attrs@);
        }
    }
}

/// The handler is called with its parameters in the order it declares
/// them: for accepted parameters, the call order names every input, each at
/// its own position.
pub proof fn lemma_declared_order_matches_inputs(inputs: Seq<FnArgModel>)
    ensures
        params_of(inputs) matches Ok(p) ==> {
            &&& p.declared.len() == inputs.len()
            &&& forall|i: int|
                0 <= i < inputs.len() ==> (#[trigger] inputs[i] matches FnArgModel::Typed {
                    pattern_ident: Some(n),
                    ..
                } && p.declared[i] == n@)
        },
    decreases inputs.len(),
{
    if inputs.len() > 0 {
        let prefix = inputs.drop_last();
        lemma_declared_order_matches_inputs(prefix);
        if let Ok(p) = params_of(inputs) {
            let q = params_of(prefix)->Ok_0;
            assert forall|i: int| 0 <= i < inputs.len() implies (#[trigger] inputs[i] matches FnArgModel::Typed {
                pattern_ident: Some(n),
                ..
            } && p.declared[i] == n@) by {
                if i < prefix.len() {
                    assert(inputs[i] == prefix[i]);
                    assert(p.declared[i] == q.declared[i]);
                }
            }
        }
    }
}

/// Whether input `q` is a plain-identifier parameter named `name` of type
/// `ty` whose attributes are `attrs`.
pub open spec fn input_is(inputs: Seq<FnArgModel>, q: int, name: Seq<char>, ty: TypeModel) -> bool {
    0 <= q < inputs.len() && (inputs[q] matches FnArgModel::Typed { pattern_ident: Some(n), ty: t, .. } && n@
        == name && t == ty)
}

/// Each argument and each account is the parameter at its recorded
/// position: an argument keeps the name and type it is declared with, and is
/// neither an account nor a context; an account has the account type and
/// the constraints its own attributes declare. Positions increase, and every
/// parameter of either kind is recorded.
pub proof fn lemma_params_come_from_their_inputs(inputs: Seq<FnArgModel>)
    ensures
        params_of(inputs) matches Ok(p) ==> {
            &&& p.arg_positions.len() == p.args.len()
            &&& forall|k: int|
                0 <= k < p.args.len() ==> input_is(inputs, #[trigger] p.arg_positions[k], p.args[k].0, p.args[k].1)
                    && !is_account(p.args[k].1) && !is_context(p.args[k].1)
            &&& forall|k1: int, k2: int|
                0 <= k1 < k2 < p.args.len() ==> #[trigger] p.arg_positions[k1] < #[trigger] p.arg_positions[k2]
            &&& p.account_positions.len() == p.accounts.len()
            &&& forall|k: int|
                0 <= k < p.accounts.len() ==> (inputs[#[trigger] p.account_positions[k]] matches FnArgModel::Typed {
                    pattern_ident: Some(n),
                    ty,
                    attrs,
                } && 0 <= p.account_positions[k] < inputs.len() && n@ == p.accounts[k].0 && is_account(ty)
                    && crate::attrs::constraints_of(attrs@) == Ok::<
                    crate::attrs::ConstraintsView,
                    MacroError,
                >(p.accounts[k].1))
            &&& forall|k1: int, k2: int|
                0 <= k1 < k2 < p.accounts.len() ==> #[trigger] p.account_positions[k1]
                    < #[trigger] p.account_positions[k2]
            &&& forall|q: int|
                0 <= q < inputs.len() ==> (#[trigger] inputs[q] matches FnArgModel::Typed { ty, .. } && !is_account(
                    ty,
                ) && !is_context(ty) ==> p.arg_positions.contains(q))
            &&& forall|q: int|
                0 <= q < inputs.len() ==> (#[trigger] inputs[q] matches FnArgModel::Typed { ty, .. } && is_account(
                    ty,
                ) ==> p.account_positions.contains(q))
        },
    decreases inputs.len(),
{
    if inputs.len() > 0 {
        let prefix = inputs.drop_last();
        let n = inputs.len() - 1;
        lemma_params_come_from_their_inputs(prefix);
        if let Ok(p) = params_of(inputs) {
            let q0 = params_of(prefix)->Ok_0;
            assert forall|q: int| 0 <= q < n implies #[trigger] inputs[q] == prefix[q] by {}
            assert forall|k: int| 0 <= k < p.args.len() implies input_is(inputs, #[trigger] p.arg_positions[k], p.args[k].0, p.args[k].1)
                && !is_account(p.args[k].1) && !is_context(p.args[k].1) by {
                if k < q0.args.len() {
                    assert(p.arg_positions[k] == q0.arg_positions[k]);
                    assert(p.args[k] == q0.args[k]);
                    assert(input_is(prefix, q0.arg_positions[k], q0.args[k].0, q0.args[k].1));
                    assert(inputs[q0.arg_positions[k]] == prefix[q0.arg_positions[k]]);
                }
            }
            assert forall|k: int| 0 <= k < p.accounts.len() implies (inputs[#[trigger] p.account_positions[k]] matches FnArgModel::Typed {
                pattern_ident: Some(nm),
                ty,
                attrs,
            } && 0 <= p.account_positions[k] < inputs.len() && nm@ == p.accounts[k].0 && is_account(ty)
                && crate::attrs::constraints_of(attrs@) == Ok::<crate::attrs::ConstraintsView, MacroError>(p.accounts[k].1)) by {
                if k < q0.accounts.len() {
                    assert(p.account_positions[k] == q0.account_positions[k]);
                    assert(p.accounts[k] == q0.accounts[k]);
                    assert(inputs[q0.account_positions[k]] == prefix[q0.account_positions[k]]);
                }
            }
            assert forall|q: int| 0 <= q < inputs.len() implies (#[trigger] inputs[q] matches FnArgModel::Typed { ty, .. } && !is_account(
                ty,
            ) && !is_context(ty) ==> p.arg_positions.contains(q)) by {
                if q < n {
                    if inputs[q] matches FnArgModel::Typed { ty, .. } && !is_account(ty) && !is_context(ty) {
                        assert(prefix[q] == inputs[q]);
                        let k = choose|k: int| 0 <= k < q0.arg_positions.len() && q0.arg_positions[k] == q;
                        assert(p.arg_positions[k] == q);
                    }
                } else if inputs[q] matches FnArgModel::Typed { ty, .. } && !is_account(ty) && !is_context(ty) {
                    assert(p.arg_positions[p.arg_positions.len() - 1] == q);
                }
            }
            assert forall|q: int| 0 <= q < inputs.len() implies (#[trigger] inputs[q] matches FnArgModel::Typed { ty, .. } && is_account(
                ty,
            ) ==> p.account_positions.contains(q)) by {
                if q < n {
                    if inputs[q] matches FnArgModel::Typed { ty, .. } && is_account(ty) {
                        assert(prefix[q] == inputs[q]);
                        let k = choose|k: int| 0 <= k < q0.account_positions.len() && q0.account_positions[k] == q;
                        assert(p.account_positions[k] == q);
                    }
                } else if inputs[q] matches FnArgModel::Typed { ty, .. } && is_account(ty) {
                    assert(p.account_positions[p.account_positions.len() - 1] == q);
                }
            }
        }
    }
}

} // verus!
