use nssa_framework::attrs::{
    has_instruction_attr, parse_account_constraints, retained_attrs, AttrArgs, AttrModel,
    MacroError, MetaModel, MetaValue,
};
use nssa_framework::idl::IdlType;
use nssa_framework::idl_type::{rust_type_to_idl_string, ArrayLen, GenericArgs, TypeModel};
use nssa_framework::instruction::{is_account_type, parse_instruction, FnArgModel, FnModel};
use nssa_framework::program::{expand_nssa_program, ItemModel, ModuleModel};

fn path(ident: &str) -> TypeModel {
    TypeModel::Path { ident: ident.to_string(), generics: GenericArgs::NotAngleBracketed }
}

fn generic(ident: &str, inner: TypeModel) -> TypeModel {
    TypeModel::Path { ident: ident.to_string(), generics: GenericArgs::FirstType(Box::new(inner)) }
}

fn array(elem: TypeModel, len: &str) -> TypeModel {
    TypeModel::Array { elem: Box::new(elem), len: ArrayLen::IntLiteral(len.to_string()) }
}

fn flag(name: &str) -> MetaModel {
    MetaModel { path_ident: Some(name.to_string()), value: MetaValue::Absent }
}

fn account_attr(metas: Vec<MetaModel>) -> AttrModel {
    AttrModel {
        path_ident: Some("account".to_string()),
        args: AttrArgs::List { metas, error: None },
    }
}

fn plain_attr(name: &str) -> AttrModel {
    AttrModel {
        path_ident: Some(name.to_string()),
        args: AttrArgs::NotList("expected attribute arguments in parentheses".to_string()),
    }
}

fn typed(name: &str, ty: TypeModel, attrs: Vec<AttrModel>) -> FnArgModel {
    FnArgModel::Typed { pattern_ident: Some(name.to_string()), ty, attrs }
}

fn error_message(r: Result<impl Sized, MacroError>) -> String {
    match r {
        Ok(_) => panic!("expected an error"),
        Err(e) => e.message(),
    }
}

#[test]
fn idl_strings_of_primitives() {
    for p in ["u8", "u16", "u32", "u64", "u128", "i8", "i16", "i32", "i64", "i128", "bool"] {
        assert_eq!(rust_type_to_idl_string(&path(p)), p);
    }
    assert_eq!(rust_type_to_idl_string(&path("String")), "string");
    assert_eq!(rust_type_to_idl_string(&path("ProgramId")), "program_id");
    assert_eq!(rust_type_to_idl_string(&path("AccountId")), "AccountId");
    assert_eq!(rust_type_to_idl_string(&path("usize")), "usize");
}

#[test]
fn idl_strings_of_composites() {
    assert_eq!(rust_type_to_idl_string(&generic("Vec", path("u64"))), "vec<u64>");
    assert_eq!(
        rust_type_to_idl_string(&generic("Vec", array(path("u8"), "32"))),
        "vec<[u8; 32]>"
    );
    assert_eq!(
        rust_type_to_idl_string(&TypeModel::Path {
            ident: "Vec".to_string(),
            generics: GenericArgs::NotAngleBracketed
        }),
        "vec<unknown>"
    );
    assert_eq!(
        rust_type_to_idl_string(&TypeModel::Path {
            ident: "Vec".to_string(),
            generics: GenericArgs::FirstNotType
        }),
        "vec<unknown>"
    );
    assert_eq!(rust_type_to_idl_string(&generic("Option", path("u64"))), "option<u64>");
    assert_eq!(
        rust_type_to_idl_string(&generic("Option", generic("Vec", array(path("u8"), "32")))),
        "option<vec<[u8; 32]>>"
    );
    assert_eq!(
        rust_type_to_idl_string(&TypeModel::Path {
            ident: "Option".to_string(),
            generics: GenericArgs::NotAngleBracketed
        }),
        "option<unknown>"
    );
    assert_eq!(rust_type_to_idl_string(&generic("HashMap", path("u8"))), "HashMap");
    assert_eq!(rust_type_to_idl_string(&array(path("u32"), "8")), "[u32; 8]");
    assert_eq!(rust_type_to_idl_string(&array(path("String"), "2usize")), "[string; 2usize]");
    assert_eq!(
        rust_type_to_idl_string(&TypeModel::Array {
            elem: Box::new(path("u8")),
            len: ArrayLen::Other
        }),
        "[u8; ?]"
    );
    assert_eq!(rust_type_to_idl_string(&TypeModel::Other), "unknown");
}

#[test]
fn account_type_detection() {
    assert!(is_account_type(&path("AccountWithMetadata")));
    assert!(!is_account_type(&path("Account")));
    assert!(!is_account_type(&TypeModel::Other));
}

#[test]
fn constraints_from_flags() {
    let c = parse_account_constraints(&vec![account_attr(vec![flag("mut"), flag("signer")])])
        .ok()
        .unwrap();
    assert!(c.mutable && c.signer && !c.init && c.owner.is_none());
}

#[test]
fn init_implies_mut() {
    let c = parse_account_constraints(&vec![account_attr(vec![flag("init")])]).ok().unwrap();
    assert!(c.init && c.mutable && !c.signer);
}

#[test]
fn constraints_accumulate_over_attributes() {
    let owner = MetaModel {
        path_ident: Some("owner".to_string()),
        value: MetaValue::Assigned("TOKEN_PROGRAM".to_string()),
    };
    let attrs = vec![
        plain_attr("doc"),
        account_attr(vec![flag("signer")]),
        account_attr(vec![owner]),
    ];
    let c = parse_account_constraints(&attrs).ok().unwrap();
    assert!(c.signer && !c.mutable);
    assert_eq!(c.owner.as_deref(), Some("TOKEN_PROGRAM"));
}

#[test]
fn constraint_errors() {
    assert_eq!(
        error_message(parse_account_constraints(&vec![account_attr(vec![flag("pda")])])),
        "unknown account constraint"
    );
    assert_eq!(
        error_message(parse_account_constraints(&vec![account_attr(vec![MetaModel {
            path_ident: None,
            value: MetaValue::Absent
        }])])),
        "unknown account constraint"
    );
    assert_eq!(
        error_message(parse_account_constraints(&vec![account_attr(vec![flag("owner")])])),
        "expected `=`"
    );
    assert_eq!(
        error_message(parse_account_constraints(&vec![account_attr(vec![MetaModel {
            path_ident: Some("mut".to_string()),
            value: MetaValue::Assigned("true".to_string())
        }])])),
        "expected `,`"
    );
    assert_eq!(
        error_message(parse_account_constraints(&vec![account_attr(vec![MetaModel {
            path_ident: Some("owner".to_string()),
            value: MetaValue::BadAssigned("expected an expression".to_string())
        }])])),
        "expected an expression"
    );
    assert_eq!(
        error_message(parse_account_constraints(&vec![AttrModel {
            path_ident: Some("account".to_string()),
            args: AttrArgs::List { metas: vec![flag("mut")], error: Some("expected `,`".to_string()) },
        }])),
        "expected `,`"
    );
    assert_eq!(
        error_message(parse_account_constraints(&vec![AttrModel {
            path_ident: Some("account".to_string()),
            args: AttrArgs::NotList("expected parentheses".to_string()),
        }])),
        "expected parentheses"
    );
}

#[test]
fn first_constraint_error_wins() {
    let attrs = vec![account_attr(vec![flag("mut"), flag("bogus"), flag("owner")])];
    assert_eq!(error_message(parse_account_constraints(&attrs)), "unknown account constraint");
}

#[test]
fn instruction_attribute_detection_and_stripping() {
    let attrs = vec![plain_attr("doc"), plain_attr("instruction"), plain_attr("inline")];
    assert!(has_instruction_attr(&attrs));
    assert!(!has_instruction_attr(&vec![plain_attr("doc")]));
    assert_eq!(retained_attrs(&attrs, "instruction"), vec![0, 2]);
    let long_path = AttrModel {
        path_ident: None,
        args: AttrArgs::NotList(String::new()),
    };
    assert!(!has_instruction_attr(&vec![long_path]));
}

fn transfer_fn() -> FnModel {
    FnModel {
        name: "transfer_tokens".to_string(),
        attrs: vec![plain_attr("instruction")],
        inputs: vec![
            typed("from", path("AccountWithMetadata"), vec![account_attr(vec![flag("mut"), flag("signer")])]),
            typed("amount", path("u128"), vec![]),
            typed("to", path("AccountWithMetadata"), vec![account_attr(vec![flag("init")])]),
            typed("memo", path("String"), vec![]),
        ],
    }
}

#[test]
fn instruction_parameters_split() {
    let info = parse_instruction(&transfer_fn()).ok().unwrap();
    assert_eq!(info.fn_name, "transfer_tokens");
    assert_eq!(info.accounts.len(), 2);
    assert_eq!(info.accounts[0].name, "from");
    assert!(info.accounts[0].constraints.signer);
    assert_eq!(info.accounts[1].name, "to");
    assert!(info.accounts[1].constraints.init);
    assert_eq!(info.args.len(), 2);
    assert_eq!(info.args[0].name, "amount");
    assert_eq!(info.args[1].name, "memo");
}

#[test]
fn instruction_signature_errors() {
    let with_self = FnModel {
        name: "f".to_string(),
        attrs: vec![],
        inputs: vec![FnArgModel::Receiver],
    };
    assert_eq!(
        error_message(parse_instruction(&with_self)),
        "instruction functions cannot have self parameter"
    );
    let with_tuple = FnModel {
        name: "f".to_string(),
        attrs: vec![],
        inputs: vec![FnArgModel::Typed { pattern_ident: None, ty: path("u8"), attrs: vec![] }],
    };
    assert_eq!(error_message(parse_instruction(&with_tuple)), "expected simple identifier pattern");
}

#[test]
fn expansion_errors() {
    let no_body = ModuleModel { name: "p".to_string(), content: None };
    assert_eq!(error_message(expand_nssa_program(&no_body)), "nssa_program module must have a body");
    let no_ix = ModuleModel {
        name: "p".to_string(),
        content: Some(vec![
            ItemModel::Other,
            ItemModel::Fn(FnModel { name: "helper".to_string(), attrs: vec![], inputs: vec![] }),
        ]),
    };
    assert_eq!(
        error_message(expand_nssa_program(&no_ix)),
        "nssa_program must contain at least one #[instruction] function"
    );
}

#[test]
fn expansion_plan() {
    let init = FnModel {
        name: "initialize".to_string(),
        attrs: vec![plain_attr("doc"), plain_attr("instruction")],
        inputs: vec![typed(
            "state",
            path("AccountWithMetadata"),
            vec![plain_attr("doc"), account_attr(vec![flag("init")])],
        )],
    };
    let module = ModuleModel {
        name: "token".to_string(),
        content: Some(vec![
            ItemModel::Other,
            ItemModel::Fn(init),
            ItemModel::Fn(FnModel { name: "helper".to_string(), attrs: vec![], inputs: vec![] }),
            ItemModel::Fn(transfer_fn()),
        ]),
    };
    let plan = expand_nssa_program(&module).ok().unwrap();
    assert_eq!(plan.module_name, "token");
    assert_eq!(plan.instruction_items, vec![1, 3]);
    assert_eq!(plan.other_items, vec![0, 2]);

    assert_eq!(plan.variants[0].name, "Initialize");
    assert!(plan.variants[0].field_names.is_empty());
    assert_eq!(plan.variants[1].name, "TransferTokens");
    assert_eq!(plan.variants[1].field_names, vec!["amount".to_string(), "memo".to_string()]);

    let arm = &plan.match_arms[1];
    assert_eq!(arm.variant_name, "TransferTokens");
    assert_eq!(arm.fn_name, "transfer_tokens");
    assert_eq!(arm.num_accounts, 2);
    assert_eq!(arm.account_names, vec!["from".to_string(), "to".to_string()]);
    assert_eq!(
        arm.call_args,
        vec!["from".to_string(), "amount".to_string(), "to".to_string(), "memo".to_string()]
    );

    assert_eq!(plan.handlers[0].item_index, 1);
    assert_eq!(plan.handlers[0].fn_attrs, vec![0]);
    assert_eq!(plan.handlers[0].param_attrs, vec![vec![0]]);
    assert_eq!(plan.handlers[1].param_attrs, vec![vec![], vec![], vec![], vec![]]);

    let idl = &plan.idl;
    assert_eq!(idl.version, "0.1.0");
    assert_eq!(idl.name, "token");
    assert_eq!(idl.instructions.len(), 2);
    let state = &idl.instructions[0].accounts[0];
    assert_eq!(state.name, "state");
    assert!(state.writable && state.init && !state.signer);
    assert!(state.owner.is_none() && state.pda.is_none());
    let tr = &idl.instructions[1];
    assert_eq!(tr.name, "transfer_tokens");
    assert!(tr.accounts[0].writable && tr.accounts[0].signer && !tr.accounts[0].init);
    assert!(tr.accounts[1].writable && tr.accounts[1].init);
    assert_eq!(tr.args[0].name, "amount");
    match &tr.args[0].type_ {
        IdlType::Primitive(t) => assert_eq!(t, "u128"),
    }
    match &tr.args[1].type_ {
        IdlType::Primitive(t) => assert_eq!(t, "string"),
    }
}

#[test]
fn expansion_reports_first_instruction_error() {
    let bad = FnModel {
        name: "bad".to_string(),
        attrs: vec![plain_attr("instruction")],
        inputs: vec![typed("acc", path("AccountWithMetadata"), vec![account_attr(vec![flag("writable")])])],
    };
    let module = ModuleModel {
        name: "m".to_string(),
        content: Some(vec![ItemModel::Fn(bad), ItemModel::Fn(transfer_fn())]),
    };
    assert_eq!(error_message(expand_nssa_program(&module)), "unknown account constraint");
}

#[test]
fn enum_variant_of_documented_example() {
    let create = FnModel {
        name: "create".to_string(),
        attrs: vec![plain_attr("instruction")],
        inputs: vec![
            typed("a", path("AccountWithMetadata"), vec![]),
            typed("b", path("AccountWithMetadata"), vec![]),
            typed("name", path("String"), vec![]),
            typed("supply", path("u128"), vec![]),
        ],
    };
    let info = parse_instruction(&create).ok().unwrap();
    let variants = nssa_framework::program::generate_enum_variants(&vec![info]);
    assert_eq!(variants.len(), 1);
    assert_eq!(variants[0].name, "Create");
    assert_eq!(variants[0].field_names, vec!["name".to_string(), "supply".to_string()]);
}

fn bare_account() -> AttrModel {
    AttrModel { path_ident: Some("account".to_string()), args: AttrArgs::Bare }
}

#[test]
fn bare_account_marker_declares_plain_account() {
    let c = parse_account_constraints(&vec![bare_account()]).ok().unwrap();
    assert!(!c.mutable && !c.init && !c.signer && c.owner.is_none());
    let c = parse_account_constraints(&vec![bare_account(), account_attr(vec![flag("signer")])])
        .ok()
        .unwrap();
    assert!(c.signer && !c.mutable);
}

#[test]
fn documented_bare_account_example() {
    let create = FnModel {
        name: "create".to_string(),
        attrs: vec![plain_attr("instruction")],
        inputs: vec![
            typed("a", path("AccountWithMetadata"), vec![bare_account()]),
            typed("b", path("AccountWithMetadata"), vec![bare_account()]),
            typed("name", path("String"), vec![]),
            typed("supply", path("u128"), vec![]),
        ],
    };
    let info = parse_instruction(&create).ok().unwrap();
    assert_eq!(info.accounts.len(), 2);
    assert!(!info.accounts[0].constraints.mutable);
    let variants = nssa_framework::program::generate_enum_variants(&vec![info]);
    assert_eq!(variants[0].name, "Create");
    assert_eq!(variants[0].field_names, vec!["name".to_string(), "supply".to_string()]);
}

#[test]
fn readme_context_is_no_argument() {
    let initialize = FnModel {
        name: "initialize".to_string(),
        attrs: vec![plain_attr("instruction")],
        inputs: vec![
            typed("ctx", path("Context"), vec![]),
            typed("name", path("String"), vec![]),
            typed("amount", path("u64"), vec![]),
        ],
    };
    let info = parse_instruction(&initialize).ok().unwrap();
    assert_eq!(info.contexts, vec!["ctx".to_string()]);
    assert!(info.accounts.is_empty());
    assert_eq!(info.args.len(), 2);
    assert_eq!(info.args[0].name, "name");
    assert_eq!(info.args[1].name, "amount");
    assert_eq!(info.arg_positions, vec![1, 2]);

    let module = ModuleModel {
        name: "my_program".to_string(),
        content: Some(vec![ItemModel::Fn(initialize)]),
    };
    let plan = expand_nssa_program(&module).ok().unwrap();
    assert_eq!(plan.variants[0].name, "Initialize");
    assert_eq!(plan.variants[0].field_names, vec!["name".to_string(), "amount".to_string()]);
    let arm = &plan.match_arms[0];
    assert_eq!(arm.context_names, vec!["ctx".to_string()]);
    assert_eq!(arm.num_accounts, 0);
    assert_eq!(
        arm.call_args,
        vec!["ctx".to_string(), "name".to_string(), "amount".to_string()]
    );
    let idl_args = &plan.idl.instructions[0].args;
    assert_eq!(idl_args.len(), 2);
    assert_eq!(idl_args[0].name, "name");
    match &idl_args[1].type_ {
        IdlType::Primitive(t) => assert_eq!(t, "u64"),
    }
}

#[test]
fn flag_keys_in_any_order() {
    let a = parse_account_constraints(&vec![account_attr(vec![flag("signer"), flag("init"), flag("signer")])])
        .ok()
        .unwrap();
    let b = parse_account_constraints(&vec![account_attr(vec![flag("init"), flag("signer")])]).ok().unwrap();
    assert_eq!((a.mutable, a.init, a.signer), (b.mutable, b.init, b.signer));
    assert_eq!((a.mutable, a.init, a.signer), (true, true, true));
}

#[test]
fn context_after_account_keeps_declared_order() {
    let f = FnModel {
        name: "f".to_string(),
        attrs: vec![plain_attr("instruction")],
        inputs: vec![
            typed("a", path("AccountWithMetadata"), vec![]),
            typed("ctx", path("Context"), vec![]),
            typed("x", path("u64"), vec![]),
        ],
    };
    let module = ModuleModel { name: "m".to_string(), content: Some(vec![ItemModel::Fn(f)]) };
    let plan = expand_nssa_program(&module).ok().unwrap();
    let arm = &plan.match_arms[0];
    assert_eq!(arm.call_args, vec!["a".to_string(), "ctx".to_string(), "x".to_string()]);
    assert_eq!(arm.account_names, vec!["a".to_string()]);
    assert_eq!(arm.context_names, vec!["ctx".to_string()]);
    assert_eq!(plan.instructions[0].arg_positions, vec![2]);
}

#[test]
fn argument_before_account_keeps_declared_order() {
    let f = FnModel {
        name: "g".to_string(),
        attrs: vec![plain_attr("instruction")],
        inputs: vec![
            typed("x", path("u64"), vec![]),
            typed("a", path("AccountWithMetadata"), vec![account_attr(vec![flag("mut")])]),
        ],
    };
    let module = ModuleModel { name: "m".to_string(), content: Some(vec![ItemModel::Fn(f)]) };
    let plan = expand_nssa_program(&module).ok().unwrap();
    assert_eq!(plan.match_arms[0].call_args, vec!["x".to_string(), "a".to_string()]);
    assert_eq!(plan.variants[0].field_names, vec!["x".to_string()]);
}

#[test]
fn keys_spread_over_attributes_with_owner() {
    let owner = |e: &str| MetaModel {
        path_ident: Some("owner".to_string()),
        value: MetaValue::Assigned(e.to_string()),
    };
    let spread = parse_account_constraints(&vec![
        account_attr(vec![flag("signer"), owner("A")]),
        bare_account(),
        account_attr(vec![flag("mut"), owner("B"), flag("signer")]),
    ])
    .ok()
    .unwrap();
    let single = parse_account_constraints(&vec![account_attr(vec![flag("mut"), flag("signer"), owner("B")])])
        .ok()
        .unwrap();
    assert_eq!(
        (spread.mutable, spread.init, spread.signer, spread.owner.clone()),
        (single.mutable, single.init, single.signer, single.owner.clone())
    );
    assert_eq!(spread.owner.as_deref(), Some("B"));
}
