//! The `#[nssa_program]` expansion: which items of the module are
//! instructions, and what is generated for them.

use vstd::prelude::*;

use crate::attrs::{has_instruction_attr, retained_attrs, MacroError};
use crate::idl::{generate_idl, NssaIdl};
use crate::instruction::{parse_instruction, FnArgModel, FnModel, InstructionInfo, InstructionView};
use crate::naming::to_pascal_case;

verus! {

/// An item of the program module.
pub enum ItemModel {
    Fn(FnModel),
    /// Any item that is not a function.
    Other,
}

/// The module that `#[nssa_program]` annotates.
pub struct ModuleModel {
    pub name: String,
    /// The items of the module's body, `None` for `mod name;`.
    pub content: Option<Vec<ItemModel>>,
}

/// A variant of the generated `Instruction` enum: one per instruction, named
/// in PascalCase, with the instruction's arguments as fields.
pub struct VariantPlan {
    pub name: String,
    pub field_names: Vec<String>,
}

/// A dispatch arm of the generated `main`: it matches the variant, takes
/// exactly `num_accounts` pre-states as the account parameters, makes the
/// handler's contexts, and calls the handler with every parameter in the
/// order the function declares them.
pub struct MatchArmPlan {
    pub variant_name: String,
    pub fn_name: String,
    pub num_accounts: usize,
    pub field_names: Vec<String>,
    pub account_names: Vec<String>,
    pub context_names: Vec<String>,
    pub call_args: Vec<String>,
}

/// A handler function as it is emitted: the instruction function with its
/// `#[instruction]` attributes and its parameters' `#[account]` attributes
/// stripped. Holds the positions of the attributes that remain.
pub struct HandlerPlan {
    pub item_index: usize,
    pub fn_attrs: Vec<usize>,
    pub param_attrs: Vec<Vec<usize>>,
}

/// Everything the expansion of a program module generates.
pub struct ProgramPlan {
    pub module_name: String,
    /// The instruction functions, in module order.
    pub instructions: Vec<InstructionInfo>,
    /// For each instruction, the position of its function in the module.
    pub instruction_items: Vec<usize>,
    /// Positions of the module items that are not instructions, in order.
    pub other_items: Vec<usize>,
    pub variants: Vec<VariantPlan>,
    pub match_arms: Vec<MatchArmPlan>,
    pub handlers: Vec<HandlerPlan>,
    pub idl: NssaIdl,
}

/// The views of a sequence of strings.
pub open spec fn names(v: Seq<String>) -> Seq<Seq<char>> {
    v.map_values(|s: String| s@)
}

/// The names of a sequence of named parameters.
pub open spec fn param_names<T>(ps: Seq<(Seq<char>, T)>) -> Seq<Seq<char>> {
    ps.map_values(|p: (Seq<char>, T)| p.0)
}

/// What the scan of a module body finds.
pub struct ScanView {
    pub instructions: Seq<InstructionView>,
    pub instruction_items: Seq<int>,
    pub other_items: Seq<int>,
}

/// Scans the module items in order: a function with an `#[instruction]`
/// attribute is read as an instruction, stopping at the first error; every
/// other item is kept as is.
pub open spec fn scan_items(items: Seq<ItemModel>) -> Result<ScanView, MacroError>
    decreases items.len(),
{
    if items.len() == 0 {
        Ok(ScanView { instructions: Seq::empty(), instruction_items: Seq::empty(), other_items: Seq::empty() })
    } else {
        let k = items.len() - 1;
        match scan_items(items.drop_last()) {
            Err(e) => Err(e),
            Ok(s) => match items.last() {
                ItemModel::Fn(f) => if crate::attrs::has_instruction(f.attrs@) {
                    match crate::instruction::params_of(f.inputs@) {
                        Ok(p) => Ok(
                            ScanView {
                                instructions: s.instructions.push(InstructionView { fn_name: f.name@, params: p }),
                                instruction_items: s.instruction_items.push(k),
                                ..s
                            },
                        ),
                        Err(e) => Err(e),
                    }
                } else {
                    Ok(ScanView { other_items: s.other_items.push(k), ..s })
                },
                ItemModel::Other => Ok(ScanView { other_items: s.other_items.push(k), ..s }),
            },
        }
    }
}

/// What the expansion of `m` finds: an error for a module without body, the
/// first error in its instructions, an error when it holds no instruction.
pub open spec fn scan_module(m: ModuleModel) -> Result<ScanView, MacroError> {
    match m.content {
        None => Err(MacroError::MissingModuleBody),
        Some(items) => match scan_items(items@) {
            Err(e) => Err(e),
            Ok(s) => if s.instructions.len() == 0 {
                Err(MacroError::NoInstructions)
            } else {
                Ok(s)
            },
        },
    }
}

/// The variant generated for the instruction `ix`.
pub open spec fn variant_matches(v: VariantPlan, ix: InstructionView) -> bool {
    &&& v.name@ == crate::naming::pascal_case(ix.fn_name)
    &&& names(v.field_names@) == param_names(ix.params.args)
}

/// The dispatch arm generated for the instruction `ix`.
pub open spec fn arm_matches(a: MatchArmPlan, ix: InstructionView) -> bool {
    &&& a.variant_name@ == crate::naming::pascal_case(ix.fn_name)
    &&& a.fn_name@ == ix.fn_name
    &&& a.num_accounts == ix.params.accounts.len()
    &&& names(a.field_names@) == param_names(ix.params.args)
    &&& names(a.account_names@) == param_names(ix.params.accounts)
    &&& names(a.context_names@) == ix.params.contexts
    &&& names(a.call_args@) == ix.params.declared
}

/// The positions in `ps` as integers.
pub open spec fn positions(ps: Seq<usize>) -> Seq<int> {
    ps.map_values(|p: usize| p as int)
}

/// The handler generated for the instruction function `f`, the item at
/// position `k` of the module.
pub open spec fn handler_matches(h: HandlerPlan, k: int, f: FnModel) -> bool {
    &&& h.item_index == k
    &&& positions(h.fn_attrs@) == crate::attrs::kept_positions(f.attrs@, "instruction"@)
    &&& h.param_attrs.len() == f.inputs.len()
    &&& forall|j: int|
        0 <= j < f.inputs.len() ==> positions(#[trigger] h.param_attrs@[j]@) == match f.inputs@[j] {
            FnArgModel::Typed { attrs, .. } => crate::attrs::kept_positions(attrs@, "account"@),
            FnArgModel::Receiver => Seq::<int>::empty(),
        }
}

fn clone_strings(v: &Vec<String>) -> (r: Vec<String>)
    ensures
        names(r@) == names(v@),
        r.len() == v.len(),
        forall|k: int| 0 <= k < v.len() ==> (#[trigger] r@[k])@ == v@[k]@,
{
    let mut r: Vec<String> = Vec::new();
    let mut i: usize = 0;
    while i < v.len()
        invariant
            i <= v.len(),
            r.len() == i,
            forall|k: int| 0 <= k < i ==> (#[trigger] r@[k])@ == v@[k]@,
        decreases v.len() - i,
    {
        r.push(v[i].clone());
        i = i + 1;
    }
    proof {
        assert(names(r@) =~= names(v@));
    }
    r
}

fn account_names(ix: &InstructionInfo) -> (r: Vec<String>)
    ensures
        names(r@) == param_names(ix@.params.accounts),
{
    let mut r: Vec<String> = Vec::new();
    let mut i: usize = 0;
    while i < ix.accounts.len()
        invariant
            i <= ix.accounts.len(),
            r.len() == i,
            forall|k: int| 0 <= k < i ==> (#[trigger] r@[k])@ == ix.accounts@[k].name@,
        decreases ix.accounts.len() - i,
    {
        r.push(ix.accounts[i].name.clone());
        i = i + 1;
    }
    proof {
        assert(names(r@) =~= param_names(ix@.params.accounts));
    }
    r
}

fn arg_names(ix: &InstructionInfo) -> (r: Vec<String>)
    ensures
        names(r@) == param_names(ix@.params.args),
{
    let mut r: Vec<String> = Vec::new();
    let mut i: usize = 0;
    while i < ix.args.len()
        invariant
            i <= ix.args.len(),
            r.len() == i,
            forall|k: int| 0 <= k < i ==> (#[trigger] r@[k])@ == ix.args@[k].name@,
        decreases ix.args.len() - i,
    {
        r.push(ix.args[i].name.clone());
        i = i + 1;
    }
    proof {
        assert(names(r@) =~= param_names(ix@.params.args));
    }
    r
}

/// Generates the variants of the `Instruction` enum, one per instruction,
/// in order.
pub fn generate_enum_variants(instructions: &Vec<InstructionInfo>) -> (r: Vec<VariantPlan>)
    ensures
        r.len() == instructions.len(),
        forall|i: int| 0 <= i < r.len() ==> variant_matches(#[trigger] r@[i], instructions@[i]@),
{
    let mut r: Vec<VariantPlan> = Vec::new();
    let mut i: usize = 0;
    while i < instructions.len()
        invariant
            i <= instructions.len(),
            r.len() == i,
            forall|k: int| 0 <= k < i ==> variant_matches(#[trigger] r@[k], instructions@[k]@),
        decreases instructions.len() - i,
    {
        let ix = &instructions[i];
        r.push(VariantPlan { name: to_pascal_case(ix.fn_name.as_str()), field_names: arg_names(ix) });
        i = i + 1;
    }
    r
}

/// Generates the dispatch arms of `main`, one per instruction, in order.
pub fn generate_match_arms(instructions: &Vec<InstructionInfo>) -> (r: Vec<MatchArmPlan>)
    ensures
        r.len() == instructions.len(),
        forall|i: int| 0 <= i < r.len() ==> arm_matches(#[trigger] r@[i], instructions@[i]@),
{
    let mut r: Vec<MatchArmPlan> = Vec::new();
    let mut i: usize = 0;
    while i < instructions.len()
        invariant
            i <= instructions.len(),
            r.len() == i,
            forall|k: int| 0 <= k < i ==> arm_matches(#[trigger] r@[k], instructions@[k]@),
        decreases instructions.len() - i,
    {
        let ix = &instructions[i];
        let accounts = account_names(ix);
        let fields = arg_names(ix);
        let contexts = clone_strings(&ix.contexts);
        let call_args = clone_strings(&ix.declared);
        r.push(
            MatchArmPlan {
                variant_name: to_pascal_case(ix.fn_name.as_str()),
                fn_name: ix.fn_name.clone(),
                num_accounts: ix.accounts.len(),
                field_names: fields,
                account_names: accounts,
                context_names: contexts,
                call_args,
            },
        );
        i = i + 1;
    }
    r
}

/// The handler for the instruction function `f`, item `k` of the module.
fn handler_fn(k: usize, f: &FnModel) -> (h: HandlerPlan)
    ensures
        handler_matches(h, k as int, *f),
{
    let fn_attrs = retained_attrs(&f.attrs, "instruction");
    let mut param_attrs: Vec<Vec<usize>> = Vec::new();
    let mut j: usize = 0;
    while j < f.inputs.len()
        invariant
            j <= f.inputs.len(),
            param_attrs.len() == j,
            forall|q: int|
                0 <= q < j ==> positions(#[trigger] param_attrs@[q]@) == match f.inputs@[q] {
                    FnArgModel::Typed { attrs, .. } => crate::attrs::kept_positions(attrs@, "account"@),
                    FnArgModel::Receiver => Seq::<int>::empty(),
                },
        decreases f.inputs.len() - j,
    {
        let kept = match &f.inputs[j] {
            FnArgModel::Typed { attrs, .. } => retained_attrs(attrs, "account"),
            FnArgModel::Receiver => {
                let v: Vec<usize> = Vec::new();
                proof {
                    assert(positions(v@) =~= Seq::<int>::empty());
                }
                v
            },
        };
        param_attrs.push(kept);
        j = j + 1;
    }
    HandlerPlan { item_index: k, fn_attrs, param_attrs }
}

/// Generates the handler functions, one per instruction, in order: each
/// instruction function with its macro attributes stripped.
pub fn generate_handler_fns(items: &Vec<ItemModel>, instruction_items: &Vec<usize>) -> (r: Vec<HandlerPlan>)
    requires
        forall|i: int|
            0 <= i < instruction_items.len() ==> #[trigger] instruction_items@[i] < items.len()
                && items@[instruction_items@[i] as int] is Fn,
    ensures
        r.len() == instruction_items.len(),
        forall|i: int|
            0 <= i < r.len() ==> (items@[instruction_items@[i] as int] matches ItemModel::Fn(f)
                && handler_matches(#[trigger] r@[i], instruction_items@[i] as int, f)),
{
    let mut r: Vec<HandlerPlan> = Vec::new();
    let mut i: usize = 0;
    while i < instruction_items.len()
        invariant
            i <= instruction_items.len(),
            r.len() == i,
            forall|q: int|
                0 <= q < instruction_items.len() ==> #[trigger] instruction_items@[q] < items.len()
                    && items@[instruction_items@[q] as int] is Fn,
            forall|q: int|
                0 <= q < i ==> (items@[instruction_items@[q] as int] matches ItemModel::Fn(f)
                    && handler_matches(#[trigger] r@[q], instruction_items@[q] as int, f)),
        decreases instruction_items.len() - i,
    {
        let k = instruction_items[i];
        match &items[k] {
            ItemModel::Fn(f) => {
                r.push(handler_fn(k, f));
            },
            ItemModel::Other => {
                proof {
                    assert(items@[instruction_items@[i as int] as int] is Fn);
                }
            },
        }
        i = i + 1;
    }
    r
}

proof fn lemma_scan_items_stops(items: Seq<ItemModel>, k: int)
    requires
        0 <= k <= items.len(),
        scan_items(items.take(k)) is Err,
    ensures
        scan_items(items) == scan_items(items.take(k)),
    decreases items.len() - k,
{
    if k < items.len() {
        assert(items.take(k + 1).drop_last() =~= items.take(k));
        lemma_scan_items_stops(items, k + 1);
    } else {
        assert(items.take(k) =~= items);
    }
}

/// The views of a sequence of instructions.
pub open spec fn instruction_views(v: Seq<InstructionInfo>) -> Seq<InstructionView> {
    v.map_values(|ix: InstructionInfo| ix@)
}

/// Expands an `#[nssa_program]` module: finds its instruction functions and
/// plans the `Instruction` enum, the dispatch arms, the handlers and the IDL.
pub fn expand_nssa_program(input: &ModuleModel) -> (r: Result<ProgramPlan, MacroError>)
    ensures
        match r {
            Ok(plan) => {
                &&& scan_module(*input) == Ok::<ScanView, MacroError>(
                    ScanView {
                        instructions: instruction_views(plan.instructions@),
                        instruction_items: positions(plan.instruction_items@),
                        other_items: positions(plan.other_items@),
                    },
                )
                &&& plan.module_name@ == input.name@
                &&& plan.variants.len() == plan.instructions.len()
                &&& forall|i: int|
                    0 <= i < plan.variants.len() ==> variant_matches(
                        #[trigger] plan.variants@[i],
                        plan.instructions@[i]@,
                    )
                &&& plan.match_arms.len() == plan.instructions.len()
                &&& forall|i: int|
                    0 <= i < plan.match_arms.len() ==> arm_matches(
                        #[trigger] plan.match_arms@[i],
                        plan.instructions@[i]@,
                    )
                &&& plan.handlers.len() == plan.instructions.len()
                &&& forall|i: int|
                    0 <= i < plan.handlers.len() ==> (input.content matches Some(items)
                        && items@[plan.instruction_items@[i] as int] matches ItemModel::Fn(f)
                        && handler_matches(#[trigger] plan.handlers@[i], plan.instruction_items@[i] as int, f))
                &&& crate::idl::idl_matches(plan.idl, input.name@, instruction_views(plan.instructions@))
            },
            Err(e) => scan_module(*input) == Err::<ScanView, MacroError>(e),
        },
{
    let items = match &input.content {
        Some(items) => items,
        None => {
            return Err(MacroError::MissingModuleBody);
        },
    };
    let mut instructions: Vec<InstructionInfo> = Vec::new();
    let mut instruction_items: Vec<usize> = Vec::new();
    let mut other_items: Vec<usize> = Vec::new();
    let mut i: usize = 0;
    proof {
        assert(items@.take(0) =~= Seq::<ItemModel>::empty());
        assert(instruction_views(instructions@) =~= Seq::empty());
        assert(positions(instruction_items@) =~= Seq::empty());
        assert(positions(other_items@) =~= Seq::empty());
    }
    while i < items.len()
        invariant
            i <= items.len(),
            input.content == Some(*items),
            scan_items(items@.take(i as int)) == Ok::<ScanView, MacroError>(
                ScanView {
                    instructions: instruction_views(instructions@),
                    instruction_items: positions(instruction_items@),
                    other_items: positions(other_items@),
                },
            ),
            instructions.len() == instruction_items.len(),
            forall|q: int|
                0 <= q < instruction_items.len() ==> #[trigger] instruction_items@[q] < i
                    && items@[instruction_items@[q] as int] is Fn,
        decreases items.len() - i,
    {
        proof {
            assert(items@.take(i + 1).drop_last() =~= items@.take(i as int));
        }
        let ghost prev_ix = instructions@;
        let ghost prev_ii = instruction_items@;
        let ghost prev_oi = other_items@;
        match &items[i] {
            ItemModel::Fn(f) => {
                if has_instruction_attr(&f.attrs) {
                    match parse_instruction(f) {
                        Ok(info) => {
                            instructions.push(info);
                            instruction_items.push(i);
                            proof {
                                assert(instruction_views(instructions@) =~= instruction_views(prev_ix).push(
                                    instructions@.last()@,
                                ));
                                assert(positions(instruction_items@) =~= positions(prev_ii).push(i as int));
                            }
                        },
                        Err(e) => {
                            proof {
                                lemma_scan_items_stops(items@, i + 1);
                            }
                            return Err(e);
                        },
                    }
                } else {
                    other_items.push(i);
                    proof {
                        assert(positions(other_items@) =~= positions(prev_oi).push(i as int));
                    }
                }
            },
            ItemModel::Other => {
                other_items.push(i);
                proof {
                    assert(positions(other_items@) =~= positions(prev_oi).push(i as int));
                }
            },
        }
        i = i + 1;
    }
    proof {
        assert(items@.take(items.len() as int) =~= items@);
    }
    if instructions.len() == 0 {
        return Err(MacroError::NoInstructions);
    }
    let variants = generate_enum_variants(&instructions);
    let match_arms = generate_match_arms(&instructions);
    let handlers = generate_handler_fns(items, &instruction_items);
    let idl = generate_idl(input.name.as_str(), &instructions);
    Ok(
        ProgramPlan {
            module_name: input.name.clone(),
            instructions,
            instruction_items,
            other_items,
            variants,
            match_arms,
            handlers,
            idl,
        },
    )
}

proof fn lemma_scan_init_accounts_mutable(items: Seq<ItemModel>)
    ensures
        scan_items(items) matches Ok(s) ==> forall|i: int, j: int|
            0 <= i < s.instructions.len() && 0 <= j < s.instructions[i].params.accounts.len()
                ==> (#[trigger] s.instructions[i].params.accounts[j]).1.init
                ==> s.instructions[i].params.accounts[j].1.mutable,
    decreases items.len(),
{
    if items.len() > 0 {
        lemma_scan_init_accounts_mutable(items.drop_last());
        if let Ok(s) = scan_items(items) {
            let prev = scan_items(items.drop_last())->Ok_0;
            if let ItemModel::Fn(f) = items.last() {
                crate::instruction::lemma_params_init_accounts_mutable(f.inputs@);
            }
            assert forall|i: int, j: int|
                0 <= i < s.instructions.len() && 0 <= j < s.instructions[i].params.accounts.len()
                    && (#[trigger] s.instructions[i].params.accounts[j]).1.init implies s.instructions[i].params.accounts[j].1.mutable by {
                if i < prev.instructions.len() {
                    assert(s.instructions[i] == prev.instructions[i]);
                    assert(prev.instructions[i].params.accounts[j].1.init);
                }
            }
        }
    }
}

/// In the IDL of an expanded program, every account marked `init` is also
/// writable.
pub proof fn lemma_idl_init_accounts_writable(m: ModuleModel, idl: NssaIdl)
    requires
        scan_module(m) matches Ok(s) && crate::idl::idl_matches(idl, m.name@, s.instructions),
    ensures
        forall|i: int, j: int|
            0 <= i < idl.instructions.len() && 0 <= j < idl.instructions@[i].accounts.len()
                ==> (#[trigger] idl.instructions@[i].accounts@[j]).init
                ==> idl.instructions@[i].accounts@[j].writable,
{
    let s = scan_module(m)->Ok_0;
    let items = m.content->Some_0;
    lemma_scan_init_accounts_mutable(items@);
    assert(scan_items(items@) == Ok::<ScanView, MacroError>(s));
    assert forall|i: int, j: int|
        0 <= i < idl.instructions.len() && 0 <= j < idl.instructions@[i].accounts.len()
            && (#[trigger] idl.instructions@[i].accounts@[j]).init implies idl.instructions@[i].accounts@[j].writable by {
        assert(crate::idl::idl_instruction_matches(idl.instructions@[i], s.instructions[i]));
        assert(crate::idl::idl_account_matches(idl.instructions@[i].accounts@[j], s.instructions[i].params.accounts[j]));
        assert(s.instructions[i].params.accounts[j].1.init);
    }
}

/// Whether the item is a function with an `#[instruction]` attribute.
pub open spec fn is_instruction_item(item: ItemModel) -> bool {
    item matches ItemModel::Fn(f) && crate::attrs::has_instruction(f.attrs@)
}

/// Whether `s` is strictly increasing.
pub open spec fn increasing(s: Seq<int>) -> bool {
    forall|i: int, j: int| 0 <= i < j < s.len() ==> s[i] < s[j]
}

/// When the expansion accepts a module body, every item is kept exactly
/// once, in order: a function with `#[instruction]` as an instruction of the
/// same name, any other item as is.
pub proof fn lemma_scan_keeps_every_item(items: Seq<ItemModel>)
    ensures
        scan_items(items) matches Ok(s) ==> {
            &&& s.instructions.len() == s.instruction_items.len()
            &&& s.instruction_items.len() + s.other_items.len() == items.len()
            &&& increasing(s.instruction_items)
            &&& increasing(s.other_items)
            &&& forall|i: int|
                0 <= i < s.instruction_items.len() ==> 0 <= #[trigger] s.instruction_items[i] < items.len()
                    && is_instruction_item(items[s.instruction_items[i]])
                    && items[s.instruction_items[i]]->Fn_0.name@ == s.instructions[i].fn_name
            &&& forall|i: int|
                0 <= i < s.other_items.len() ==> 0 <= #[trigger] s.other_items[i] < items.len()
                    && !is_instruction_item(items[s.other_items[i]])
            &&& forall|k: int|
                0 <= k < items.len() ==> if is_instruction_item(#[trigger] items[k]) {
                    s.instruction_items.contains(k)
                } else {
                    s.other_items.contains(k)
                }
        },
    decreases items.len(),
{
    if items.len() > 0 {
        let prefix = items.drop_last();
        let n = items.len() - 1;
        lemma_scan_keeps_every_item(prefix);
        if let Ok(s) = scan_items(items) {
            let p = scan_items(prefix)->Ok_0;
            assert forall|k: int| 0 <= k < n implies #[trigger] items[k] == prefix[k] by {}
            assert forall|k: int|
                0 <= k < items.len() implies if is_instruction_item(#[trigger] items[k]) {
                    s.instruction_items.contains(k)
                } else {
                    s.other_items.contains(k)
                } by {
                if k < n {
                    assert(items[k] == prefix[k]);
                    if is_instruction_item(prefix[k]) {
                        let q = choose|q: int| 0 <= q < p.instruction_items.len() && p.instruction_items[q] == k;
                        assert(s.instruction_items[q] == k);
                    } else {
                        let q = choose|q: int| 0 <= q < p.other_items.len() && p.other_items[q] == k;
                        assert(s.other_items[q] == k);
                    }
                } else {
                    if is_instruction_item(items[k]) {
                        assert(s.instruction_items[s.instruction_items.len() - 1] == k);
                    } else {
                        assert(s.other_items[s.other_items.len() - 1] == k);
                    }
                }
            }
        }
    }
}

} // verus!
