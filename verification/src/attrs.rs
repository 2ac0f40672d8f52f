//! Attributes on instruction functions and their parameters, and the
//! account constraints that `#[account(...)]` attributes declare.

use vstd::prelude::*;

use crate::text::str_eq;

verus! {

/// An attribute such as `#[instruction]` or `#[account(mut, signer)]`.
pub struct AttrModel {
    /// The attribute's path when it is a single identifier (`account`),
    /// `None` for a longer path (`a::b`).
    pub path_ident: Option<String>,
    /// The attribute's arguments, as read by nested-meta parsing.
    pub args: AttrArgs,
}

/// The arguments of an attribute, read as a parenthesized, comma-separated
/// list of nested metas.
pub enum AttrArgs {
    /// The metas that were read, in order, and the syntax error that stopped
    /// the reading before the end, if any.
    List { metas: Vec<MetaModel>, error: Option<String> },
    /// No arguments at all: the bare marker `#[account]`.
    Bare,
    /// Arguments that are not a parenthesized list (`#[account = x]`), with
    /// the parser's message.
    NotList(String),
}

/// One nested meta: `mut`, `owner = PROGRAM` or `seeds(...)`.
pub struct MetaModel {
    /// The path of the meta, `None` when it is longer than one identifier.
    pub path_ident: Option<String>,
    /// What follows the path.
    pub value: MetaValue,
}

/// What follows the path of a nested meta.
pub enum MetaValue {
    /// Nothing: a `,` or the end of the list.
    Absent,
    /// `= expr`, with the expression's source text.
    Assigned(String),
    /// `= ...` where what follows does not parse as an expression, with the
    /// parser's message.
    BadAssigned(String),
    /// A parenthesized group.
    Parenthesized,
}

/// Errors of the `#[nssa_program]` expansion.
pub enum MacroError {
    /// The annotated module is declared without a body.
    MissingModuleBody,
    /// The module holds no `#[instruction]` function.
    NoInstructions,
    /// An instruction function takes `self`.
    SelfParameter,
    /// A parameter pattern is not a plain identifier.
    NonIdentPattern,
    /// An `#[account(...)]` attribute names an unknown constraint.
    UnknownConstraint,
    /// Tokens follow a constraint flag where a `,` or the end was expected.
    ExpectedComma,
    /// A constraint that takes a value is not followed by `=`.
    ExpectedEq,
    /// The attribute's tokens do not parse, with the parser's message.
    Syntax(String),
}

impl MacroError {
    /// The message reported at the offending tokens.
    pub open spec fn spec_message(&self) -> Seq<char> {
        match self {
            MacroError::MissingModuleBody => "nssa_program module must have a body"@,
            MacroError::NoInstructions =>
                "nssa_program must contain at least one #[instruction] function"@,
            MacroError::SelfParameter => "instruction functions cannot have self parameter"@,
            MacroError::NonIdentPattern => "expected simple identifier pattern"@,
            MacroError::UnknownConstraint => "unknown account constraint"@,
            MacroError::ExpectedComma => "expected `,`"@,
            MacroError::ExpectedEq => "expected `=`"@,
            MacroError::Syntax(m) => m@,
        }
    }

    /// The message reported at the offending tokens.
    pub fn message(&self) -> (m: String)
        ensures
            m@ == self.spec_message(),
    {
        match self {
            MacroError::MissingModuleBody => String::from_str("nssa_program module must have a body"),
            MacroError::NoInstructions => String::from_str(
                "nssa_program must contain at least one #[instruction] function",
            ),
            MacroError::SelfParameter => String::from_str(
                "instruction functions cannot have self parameter",
            ),
            MacroError::NonIdentPattern => String::from_str("expected simple identifier pattern"),
            MacroError::UnknownConstraint => String::from_str("unknown account constraint"),
            MacroError::ExpectedComma => String::from_str("expected `,`"),
            MacroError::ExpectedEq => String::from_str("expected `=`"),
            MacroError::Syntax(m) => m.clone(),
        }
    }

    /// A copy of this error.
    pub fn duplicate(&self) -> (e: MacroError)
        ensures
            e == *self,
    {
        match self {
            MacroError::MissingModuleBody => MacroError::MissingModuleBody,
            MacroError::NoInstructions => MacroError::NoInstructions,
            MacroError::SelfParameter => MacroError::SelfParameter,
            MacroError::NonIdentPattern => MacroError::NonIdentPattern,
            MacroError::UnknownConstraint => MacroError::UnknownConstraint,
            MacroError::ExpectedComma => MacroError::ExpectedComma,
            MacroError::ExpectedEq => MacroError::ExpectedEq,
            MacroError::Syntax(m) => MacroError::Syntax(m.clone()),
        }
    }
}

/// The constraints of an account parameter.
pub struct AccountConstraints {
    pub mutable: bool,
    pub init: bool,
    /// Source text of the expected owner expression.
    pub owner: Option<String>,
    pub signer: bool,
}

/// The constraints of an account parameter, with the owner expression's text
/// as characters.
pub struct ConstraintsView {
    pub mutable: bool,
    pub init: bool,
    pub owner: Option<Seq<char>>,
    pub signer: bool,
}

impl View for AccountConstraints {
    type V = ConstraintsView;

    open spec fn view(&self) -> ConstraintsView {
        ConstraintsView {
            mutable: self.mutable,
            init: self.init,
            owner: match self.owner {
                Some(o) => Some(o@),
                None => None,
            },
            signer: self.signer,
        }
    }
}

/// No constraint at all.
pub open spec fn no_constraints() -> ConstraintsView {
    ConstraintsView { mutable: false, init: false, owner: None, signer: false }
}

/// Whether `p` is the single identifier `name`.
pub open spec fn is_ident(p: Option<String>, name: Seq<char>) -> bool {
    p matches Some(s) && s@ == name
}

/// The effect of one nested meta of `#[account(...)]`: `mut` and `signer`
/// set their flag, `init` sets `init` and `mut`, `owner = expr` records the
/// expression; a flag followed by anything but `,` or the end, an `owner`
/// without `= expr`, and any other name are errors.
pub open spec fn apply_meta(c: ConstraintsView, m: MetaModel) -> Result<ConstraintsView, MacroError> {
    let flag_ok = m.value is Absent;
    if is_ident(m.path_ident, "mut"@) {
        if flag_ok {
            Ok(ConstraintsView { mutable: true, ..c })
        } else {
            Err(MacroError::ExpectedComma)
        }
    } else if is_ident(m.path_ident, "init"@) {
        if flag_ok {
            Ok(ConstraintsView { init: true, mutable: true, ..c })
        } else {
            Err(MacroError::ExpectedComma)
        }
    } else if is_ident(m.path_ident, "signer"@) {
        if flag_ok {
            Ok(ConstraintsView { signer: true, ..c })
        } else {
            Err(MacroError::ExpectedComma)
        }
    } else if is_ident(m.path_ident, "owner"@) {
        match m.value {
            MetaValue::Assigned(e) => Ok(ConstraintsView { owner: Some(e@), ..c }),
            MetaValue::BadAssigned(msg) => Err(MacroError::Syntax(msg)),
            _ => Err(MacroError::ExpectedEq),
        }
    } else {
        Err(MacroError::UnknownConstraint)
    }
}

/// The effect of the nested metas `ms`, in order, stopping at the first error.
pub open spec fn apply_metas(c: ConstraintsView, ms: Seq<MetaModel>) -> Result<ConstraintsView, MacroError>
    decreases ms.len(),
{
    if ms.len() == 0 {
        Ok(c)
    } else {
        match apply_metas(c, ms.drop_last()) {
            Ok(c2) => apply_meta(c2, ms.last()),
            Err(e) => Err(e),
        }
    }
}

/// The effect of one attribute of an account parameter: an `account`
/// attribute applies its nested metas, the bare marker `#[account]` declares
/// a plain account (no constraint), any other attribute is ignored.
pub open spec fn apply_attr(c: ConstraintsView, a: AttrModel) -> Result<ConstraintsView, MacroError> {
    if is_ident(a.path_ident, "account"@) {
        match a.args {
            AttrArgs::Bare => Ok(c),
            AttrArgs::NotList(m) => Err(MacroError::Syntax(m)),
            AttrArgs::List { metas, error } => match apply_metas(c, metas@) {
                Ok(c2) => match error {
                    Some(m) => Err(MacroError::Syntax(m)),
                    None => Ok(c2),
                },
                Err(e) => Err(e),
            },
        }
    } else {
        Ok(c)
    }
}

/// The constraints that the attributes `attrs` of an account parameter
/// declare, read in order from no constraint at all.
pub open spec fn constraints_of(attrs: Seq<AttrModel>) -> Result<ConstraintsView, MacroError>
    decreases attrs.len(),
{
    if attrs.len() == 0 {
        Ok(no_constraints())
    } else {
        match constraints_of(attrs.drop_last()) {
            Ok(c) => apply_attr(c, attrs.last()),
            Err(e) => Err(e),
        }
    }
}

/// Whether `p` is the single identifier `name`.
pub fn path_is(p: &Option<String>, name: &str) -> (r: bool)
    ensures
        r == is_ident(*p, name@),
{
    match p {
        Some(s) => str_eq(s.as_str(), name),
        None => false,
    }
}

/// Applies one nested meta of `#[account(...)]` to `c`.
fn apply_meta_to(c: &mut AccountConstraints, m: &MetaModel) -> (r: Result<(), MacroError>)
    ensures
        (match r {
            Ok(_) => Ok(final(c)@),
            Err(e) => Err(e),
        }) == apply_meta(old(c)@, *m),
{
    let flag_ok = match m.value {
        MetaValue::Absent => true,
        _ => false,
    };
    if path_is(&m.path_ident, "mut") {
        if flag_ok {
            c.mutable = true;
            Ok(())
        } else {
            Err(MacroError::ExpectedComma)
        }
    } else if path_is(&m.path_ident, "init") {
        if flag_ok {
            c.init = true;
            c.mutable = true;
            Ok(())
        } else {
            Err(MacroError::ExpectedComma)
        }
    } else if path_is(&m.path_ident, "signer") {
        if flag_ok {
            c.signer = true;
            Ok(())
        } else {
            Err(MacroError::ExpectedComma)
        }
    } else if path_is(&m.path_ident, "owner") {
        match &m.value {
            MetaValue::Assigned(e) => {
                c.owner = Some(e.clone());
                Ok(())
            },
            MetaValue::BadAssigned(msg) => Err(MacroError::Syntax(msg.clone())),
            _ => Err(MacroError::ExpectedEq),
        }
    } else {
        Err(MacroError::UnknownConstraint)
    }
}

/// Applies one attribute of an account parameter to `c`.
fn apply_attr_to(c: &mut AccountConstraints, a: &AttrModel) -> (r: Result<(), MacroError>)
    ensures
        (match r {
            Ok(_) => Ok(final(c)@),
            Err(e) => Err(e),
        }) == apply_attr(old(c)@, *a),
{
    if !path_is(&a.path_ident, "account") {
        return Ok(());
    }
    match &a.args {
        AttrArgs::Bare => Ok(()),
        AttrArgs::NotList(m) => Err(MacroError::Syntax(m.clone())),
        AttrArgs::List { metas, error } => {
            let mut i: usize = 0;
            while i < metas.len()
                invariant
                    i <= metas.len(),
                    is_ident(a.path_ident, "account"@),
                    a.args == (AttrArgs::List { metas: *metas, error: *error }),
                    apply_metas(old(c)@, metas@.take(i as int)) == Ok::<ConstraintsView, MacroError>(c@),
                decreases metas.len() - i,
            {
                proof {
                    assert(metas@.take(i + 1).drop_last() =~= metas@.take(i as int));
                }
                let ghost before = c@;
                let r = apply_meta_to(c, &metas[i]);
                if let Err(e) = r {
                    proof {
                        assert(apply_meta(before, metas@[i as int]) == Err::<ConstraintsView, MacroError>(e));
                        lemma_apply_metas_stops(old(c)@, metas@, i as int + 1);
                    }
                    return Err(e);
                }
                i = i + 1;
            }
            proof {
                assert(metas@.take(metas.len() as int) =~= metas@);
            }
            match error {
                Some(m) => Err(MacroError::Syntax(m.clone())),
                None => Ok(()),
            }
        },
    }
}

/// Once the metas up to `k` fail, so do all of them, with the same error.
proof fn lemma_apply_metas_stops(c: ConstraintsView, ms: Seq<MetaModel>, k: int)
    requires
        0 <= k <= ms.len(),
        apply_metas(c, ms.take(k)) is Err,
    ensures
        apply_metas(c, ms) == apply_metas(c, ms.take(k)),
    decreases ms.len() - k,
{
    if k < ms.len() {
        assert(ms.take(k + 1).drop_last() =~= ms.take(k));
        lemma_apply_metas_stops(c, ms, k + 1);
    } else {
        assert(ms.take(k) =~= ms);
    }
}

/// Once the attributes up to `k` fail, so do all of them, with the same error.
proof fn lemma_constraints_of_stops(attrs: Seq<AttrModel>, k: int)
    requires
        0 <= k <= attrs.len(),
        constraints_of(attrs.take(k)) is Err,
    ensures
        constraints_of(attrs) == constraints_of(attrs.take(k)),
    decreases attrs.len() - k,
{
    if k < attrs.len() {
        assert(attrs.take(k + 1).drop_last() =~= attrs.take(k));
        lemma_constraints_of_stops(attrs, k + 1);
    } else {
        assert(attrs.take(k) =~= attrs);
    }
}

/// Reads the account constraints that the attributes of an account
/// parameter declare.
pub fn parse_account_constraints(attrs: &Vec<AttrModel>) -> (r: Result<AccountConstraints, MacroError>)
    ensures
        (match r {
            Ok(c) => Ok(c@),
            Err(e) => Err(e),
        }) == constraints_of(attrs@),
{
    let mut c = AccountConstraints { mutable: false, init: false, owner: None, signer: false };
    let mut i: usize = 0;
    while i < attrs.len()
        invariant
            i <= attrs.len(),
            constraints_of(attrs@.take(i as int)) == Ok::<ConstraintsView, MacroError>(c@),
        decreases attrs.len() - i,
    {
        proof {
            assert(attrs@.take(i + 1).drop_last() =~= attrs@.take(i as int));
        }
        let r = apply_attr_to(&mut c, &attrs[i]);
        if let Err(e) = r {
            proof {
                lemma_constraints_of_stops(attrs@, i as int + 1);
            }
            return Err(e);
        }
        i = i + 1;
    }
    proof {
        assert(attrs@.take(attrs.len() as int) =~= attrs@);
    }
    Ok(c)
}

/// Whether some attribute in `attrs` is `#[instruction]`.
pub open spec fn has_instruction(attrs: Seq<AttrModel>) -> bool {
    exists|i: int| 0 <= i < attrs.len() && is_ident(#[trigger] attrs[i].path_ident, "instruction"@)
}

/// Whether some attribute in `attrs` is `#[instruction]`.
pub fn has_instruction_attr(attrs: &Vec<AttrModel>) -> (r: bool)
    ensures
        r == has_instruction(attrs@),
{
    let mut i: usize = 0;
    while i < attrs.len()
        invariant
            i <= attrs.len(),
            forall|j: int| 0 <= j < i ==> !is_ident(#[trigger] attrs@[j].path_ident, "instruction"@),
        decreases attrs.len() - i,
    {
        if path_is(&attrs[i].path_ident, "instruction") {
            return true;
        }
        i = i + 1;
    }
    false
}

/// The positions, in order, of the attributes in `attrs` that are not the
/// single identifier `name`.
pub open spec fn kept_positions(attrs: Seq<AttrModel>, name: Seq<char>) -> Seq<int>
    decreases attrs.len(),
{
    if attrs.len() == 0 {
        Seq::<int>::empty()
    } else {
        let rest = kept_positions(attrs.drop_last(), name);
        if is_ident(attrs.last().path_ident, name) {
            rest
        } else {
            rest.push(attrs.len() - 1)
        }
    }
}

/// Stripping `#[name]` attributes keeps exactly the others, in order: every
/// kept position is a valid position whose attribute is not `name`, the
/// positions increase, and every attribute that is not `name` is kept.
pub proof fn lemma_kept_positions_strip_exactly(attrs: Seq<AttrModel>, name: Seq<char>)
    ensures
        forall|k: int|
            0 <= k < kept_positions(attrs, name).len() ==> 0 <= #[trigger] kept_positions(attrs, name)[k]
                < attrs.len() && !is_ident(attrs[kept_positions(attrs, name)[k]].path_ident, name),
        forall|k1: int, k2: int|
            0 <= k1 < k2 < kept_positions(attrs, name).len() ==> #[trigger] kept_positions(attrs, name)[k1]
                < #[trigger] kept_positions(attrs, name)[k2],
        forall|j: int|
            0 <= j < attrs.len() && !is_ident(#[trigger] attrs[j].path_ident, name) ==> kept_positions(
                attrs,
                name,
            ).contains(j),
    decreases attrs.len(),
{
    if attrs.len() > 0 {
        let prefix = attrs.drop_last();
        lemma_kept_positions_strip_exactly(prefix, name);
        let rest = kept_positions(prefix, name);
        let kp = kept_positions(attrs, name);
        let n = attrs.len() - 1;
        assert forall|k: int| 0 <= k < rest.len() implies rest[k] < n && #[trigger] attrs[rest[k]] == prefix[rest[k]] by {}
        assert forall|j: int| 0 <= j < attrs.len() && !is_ident(#[trigger] attrs[j].path_ident, name) implies kp.contains(j) by {
            if j < n {
                assert(prefix[j] == attrs[j]);
                let k = choose|k: int| 0 <= k < rest.len() && rest[k] == j;
                assert(kp[k] == j);
            } else {
                assert(kp[kp.len() - 1] == j);
            }
        }
    }
}

/// The positions of the attributes that remain once every `#[name]`
/// attribute is stripped.
pub fn retained_attrs(attrs: &Vec<AttrModel>, name: &str) -> (r: Vec<usize>)
    ensures
        r@.map_values(|p: usize| p as int) == kept_positions(attrs@, name@),
{
    let mut r: Vec<usize> = Vec::new();
    let mut i: usize = 0;
    while i < attrs.len()
        invariant
            i <= attrs.len(),
            r@.map_values(|p: usize| p as int) == kept_positions(attrs@.take(i as int), name@),
        decreases attrs.len() - i,
    {
        proof {
            assert(attrs@.take(i + 1).drop_last() =~= attrs@.take(i as int));
        }
        if !path_is(&attrs[i].path_ident, name) {
            r.push(i);
            proof {
                assert(r@.map_values(|p: usize| p as int) =~= kept_positions(
                    attrs@.take(i as int),
                    name@,
                ).push(i as int));
            }
        }
        i = i + 1;
    }
    proof {
        assert(attrs@.take(attrs.len() as int) =~= attrs@);
    }
    r
}

proof fn lemma_apply_metas_keeps_init_mutable(c: ConstraintsView, ms: Seq<MetaModel>)
    requires
        c.init ==> c.mutable,
    ensures
        apply_metas(c, ms) matches Ok(c2) ==> (c2.init ==> c2.mutable),
    decreases ms.len(),
{
    if ms.len() > 0 {
        lemma_apply_metas_keeps_init_mutable(c, ms.drop_last());
    }
}

/// An `init` account is always mutable: whatever the attributes of an
/// account parameter, when they are accepted, `init` implies `mut`.
pub proof fn lemma_init_implies_mut(attrs: Seq<AttrModel>)
    ensures
        constraints_of(attrs) matches Ok(c) ==> (c.init ==> c.mutable),
    decreases attrs.len(),
{
    if attrs.len() > 0 {
        lemma_init_implies_mut(attrs.drop_last());
        if let Ok(c) = constraints_of(attrs.drop_last()) {
            if let AttrArgs::List { metas, error } = attrs.last().args {
                lemma_apply_metas_keeps_init_mutable(c, metas@);
            }
        }
    }
}

/// Every flag and the owner that `c` holds, `c2` holds too.
pub open spec fn flags_within(c: ConstraintsView, c2: ConstraintsView) -> bool {
    &&& c.mutable ==> c2.mutable
    &&& c.init ==> c2.init
    &&& c.signer ==> c2.signer
    &&& c.owner is Some ==> c2.owner is Some
}

proof fn lemma_apply_metas_only_sets(c: ConstraintsView, ms: Seq<MetaModel>)
    ensures
        apply_metas(c, ms) matches Ok(c2) ==> flags_within(c, c2),
    decreases ms.len(),
{
    if ms.len() > 0 {
        lemma_apply_metas_only_sets(c, ms.drop_last());
    }
}

/// Constraints are only ever set: when the attributes `attrs` followed by
/// one more attribute `a` are accepted, so are `attrs` alone, and every flag
/// (and the owner) that they declare stays declared.
pub proof fn lemma_constraints_only_grow(attrs: Seq<AttrModel>, a: AttrModel)
    ensures
        constraints_of(attrs.push(a)) matches Ok(c2) ==> (constraints_of(attrs) matches Ok(c) && flags_within(c, c2)),
{
    assert(attrs.push(a).drop_last() =~= attrs);
    if let Ok(c) = constraints_of(attrs) {
        if let AttrArgs::List { metas, error } = a.args {
            lemma_apply_metas_only_sets(c, metas@);
        }
    }
}

/// A constraint flag without value: `mut`, `init` or `signer`.
pub open spec fn is_flag_meta(m: MetaModel) -> bool {
    &&& m.value is Absent
    &&& is_ident(m.path_ident, "mut"@) || is_ident(m.path_ident, "init"@) || is_ident(m.path_ident, "signer"@)
}

/// Whether some meta of `ms` is the single identifier `name`.
pub open spec fn names_key(ms: Seq<MetaModel>, name: Seq<char>) -> bool {
    exists|i: int| 0 <= i < ms.len() && is_ident(#[trigger] ms[i].path_ident, name)
}

proof fn lemma_flag_names_differ()
    ensures
        "mut"@ != "init"@,
        "mut"@ != "signer"@,
        "init"@ != "signer"@,
        "owner"@ != "mut"@,
        "owner"@ != "init"@,
        "owner"@ != "signer"@,
{
    reveal_strlit("mut");
    reveal_strlit("init");
    reveal_strlit("signer");
    reveal_strlit("owner");
    assert("mut"@.len() == 3);
    assert("init"@.len() == 4);
    assert("signer"@.len() == 6);
    assert("owner"@.len() == 5);
}

/// A key that `#[account(...)]` accepts: a flag, or `owner = expr`.
pub open spec fn is_accepted_key(m: MetaModel) -> bool {
    is_flag_meta(m) || (is_ident(m.path_ident, "owner"@) && m.value is Assigned)
}

/// The expression of the last `owner = expr` key of `ms`, if any.
pub open spec fn last_owner(ms: Seq<MetaModel>) -> Option<Seq<char>>
    decreases ms.len(),
{
    if ms.len() == 0 {
        None
    } else {
        let m = ms.last();
        if is_ident(m.path_ident, "owner"@) && m.value is Assigned {
            Some(m.value->Assigned_0@)
        } else {
            last_owner(ms.drop_last())
        }
    }
}

/// What a list of accepted keys declares on top of `c`: `mut` or `init`
/// make the account mutable, `init` makes it init, `signer` a signer, and
/// the last `owner = expr` sets the owner.
pub open spec fn keys_applied(c: ConstraintsView, ms: Seq<MetaModel>) -> ConstraintsView {
    ConstraintsView {
        mutable: c.mutable || names_key(ms, "mut"@) || names_key(ms, "init"@),
        init: c.init || names_key(ms, "init"@),
        signer: c.signer || names_key(ms, "signer"@),
        owner: match last_owner(ms) {
            Some(o) => Some(o),
            None => c.owner,
        },
    }
}

proof fn lemma_names_key_push(ms: Seq<MetaModel>, m: MetaModel, n: Seq<char>)
    ensures
        names_key(ms.push(m), n) == (names_key(ms, n) || is_ident(m.path_ident, n)),
{
    let ms2 = ms.push(m);
    if names_key(ms2, n) {
        let i = choose|i: int| 0 <= i < ms2.len() && is_ident(#[trigger] ms2[i].path_ident, n);
        if i < ms.len() {
            assert(ms[i] == ms2[i]);
        }
    }
    if names_key(ms, n) {
        let i = choose|i: int| 0 <= i < ms.len() && is_ident(#[trigger] ms[i].path_ident, n);
        assert(ms2[i] == ms[i]);
    }
    if is_ident(m.path_ident, n) {
        assert(is_ident(ms2[ms.len() as int].path_ident, n));
    }
}

/// Accepted keys only set: a list of `mut`, `init`, `signer` and
/// `owner = expr` keys is always accepted and declares exactly
/// `keys_applied`.
pub proof fn lemma_accepted_keys_declare(c: ConstraintsView, ms: Seq<MetaModel>)
    requires
        forall|i: int| 0 <= i < ms.len() ==> is_accepted_key(#[trigger] ms[i]),
    ensures
        apply_metas(c, ms) == Ok::<ConstraintsView, MacroError>(keys_applied(c, ms)),
    decreases ms.len(),
{
    if ms.len() == 0 {
        assert(keys_applied(c, ms) == c);
    } else {
        let prefix = ms.drop_last();
        let last = ms[ms.len() - 1];
        assert forall|i: int| 0 <= i < prefix.len() implies is_accepted_key(#[trigger] prefix[i]) by {
            assert(prefix[i] == ms[i]);
        }
        lemma_accepted_keys_declare(c, prefix);
        lemma_flag_names_differ();
        assert(is_accepted_key(last));
        assert(prefix.push(last) =~= ms);
        lemma_names_key_push(prefix, last, "mut"@);
        lemma_names_key_push(prefix, last, "init"@);
        lemma_names_key_push(prefix, last, "signer"@);
    }
}

proof fn lemma_keys_applied_concat(c: ConstraintsView, a: Seq<MetaModel>, b: Seq<MetaModel>)
    ensures
        keys_applied(keys_applied(c, a), b) == keys_applied(c, a + b),
    decreases b.len(),
{
    if b.len() == 0 {
        assert(a + b =~= a);
    } else {
        let b0 = b.drop_last();
        let m = b.last();
        lemma_keys_applied_concat(c, a, b0);
        assert((a + b0).push(m) =~= a + b);
        assert(b0.push(m) =~= b);
        assert((a + b).drop_last() =~= a + b0);
        lemma_names_key_push(a + b0, m, "mut"@);
        lemma_names_key_push(a + b0, m, "init"@);
        lemma_names_key_push(a + b0, m, "signer"@);
        lemma_names_key_push(b0, m, "mut"@);
        lemma_names_key_push(b0, m, "init"@);
        lemma_names_key_push(b0, m, "signer"@);
    }
}

/// The keys of all `#[account(...)]` lists of `attrs`, in order.
pub open spec fn account_keys(attrs: Seq<AttrModel>) -> Seq<MetaModel>
    decreases attrs.len(),
{
    if attrs.len() == 0 {
        Seq::empty()
    } else {
        let a = attrs.last();
        account_keys(attrs.drop_last()) + if is_ident(a.path_ident, "account"@) {
            match a.args {
                AttrArgs::List { metas, .. } => metas@,
                _ => Seq::empty(),
            }
        } else {
            Seq::empty()
        }
    }
}

/// An attribute that is accepted as it stands: not an `account` attribute,
/// the bare `#[account]`, or `#[account(...)]` holding accepted keys only.
pub open spec fn plainly_accepted(a: AttrModel) -> bool {
    ||| !is_ident(a.path_ident, "account"@)
    ||| a.args is Bare
    ||| (a.args matches AttrArgs::List { metas, error } && error is None && forall|i: int|
        0 <= i < metas@.len() ==> is_accepted_key(#[trigger] metas@[i]))
}

/// However the keys are spread over `#[account(...)]` attributes, accepted
/// keys declare what they declare in one list: the constraints of `attrs`
/// are those of all their keys, in order.
pub proof fn lemma_constraints_from_keys(attrs: Seq<AttrModel>)
    requires
        forall|i: int| 0 <= i < attrs.len() ==> plainly_accepted(#[trigger] attrs[i]),
    ensures
        constraints_of(attrs) == Ok::<ConstraintsView, MacroError>(keys_applied(no_constraints(), account_keys(attrs))),
    decreases attrs.len(),
{
    if attrs.len() == 0 {
        assert(keys_applied(no_constraints(), Seq::<MetaModel>::empty()) == no_constraints());
    } else {
        let prefix = attrs.drop_last();
        let a = attrs[attrs.len() - 1];
        assert forall|i: int| 0 <= i < prefix.len() implies plainly_accepted(#[trigger] prefix[i]) by {
            assert(prefix[i] == attrs[i]);
        }
        lemma_constraints_from_keys(prefix);
        let k = account_keys(prefix);
        let c = keys_applied(no_constraints(), k);
        assert(plainly_accepted(a));
        if is_ident(a.path_ident, "account"@) {
            match a.args {
                AttrArgs::List { metas, error } => {
                    lemma_accepted_keys_declare(c, metas@);
                    lemma_keys_applied_concat(no_constraints(), k, metas@);
                },
                _ => {
                    assert(k + Seq::<MetaModel>::empty() =~= k);
                },
            }
        } else {
            assert(k + Seq::<MetaModel>::empty() =~= k);
        }
    }
}

/// Repeating or reordering keys changes nothing: two attribute lists made
/// of accepted keys that name the same flags and end with the same owner
/// declare the same constraints, however the keys are ordered, repeated or
/// spread over attributes.
pub proof fn lemma_keys_order_irrelevant(attrs1: Seq<AttrModel>, attrs2: Seq<AttrModel>)
    requires
        forall|i: int| 0 <= i < attrs1.len() ==> plainly_accepted(#[trigger] attrs1[i]),
        forall|i: int| 0 <= i < attrs2.len() ==> plainly_accepted(#[trigger] attrs2[i]),
        names_key(account_keys(attrs1), "mut"@) == names_key(account_keys(attrs2), "mut"@),
        names_key(account_keys(attrs1), "init"@) == names_key(account_keys(attrs2), "init"@),
        names_key(account_keys(attrs1), "signer"@) == names_key(account_keys(attrs2), "signer"@),
        last_owner(account_keys(attrs1)) == last_owner(account_keys(attrs2)),
    ensures
        constraints_of(attrs1) == constraints_of(attrs2),
{
    lemma_constraints_from_keys(attrs1);
    lemma_constraints_from_keys(attrs2);
}

} // verus!
