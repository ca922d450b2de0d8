use tusks::declare::UseTree;
use tusks::{
    accept_converted, parse_type, result_code, ArgumentMultiplicity, Argument,
    FnParam, LinkNode, ParameterField, Repeat, RepeatMinMax, ResolveError, ResolvedValue,
    ResultCode, ReturnKind, SchemaError, Selection, Supplied, TasksConfig, Tusk, TusksAttr,
    TusksNode, TusksParameters, TypeArg, TypeExpr, ValueHint,
};

fn s(x: &str) -> String {
    x.to_string()
}

fn path_ty(ident: &str, args: Option<Vec<TypeArg>>, text: &str) -> TypeExpr {
    TypeExpr { text: s(text), ident: Some(s(ident)), single_segment: true, args, referent: None }
}

fn plain(ident: &str) -> TypeExpr {
    path_ty(ident, None, ident)
}

fn reference(inner: TypeExpr, text: &str) -> TypeExpr {
    TypeExpr { text: s(text), ident: None, single_segment: false, args: None, referent: Some(Box::new(inner)) }
}

fn node(name: &str) -> TusksNode {
    TusksNode {
        name: s(name),
        scope_path: vec![s(name)],
        parameters: None,
        tusks: Vec::new(),
        childs: Vec::new(),
        links: Vec::new(),
        allow_external_subcommands: false,
        external_parent: None,
        is_link: false,
        link_name: None,
    }
}

fn typed(name: &str, ty: TypeExpr) -> FnParam {
    FnParam::Typed { name: Some(s(name)), ty }
}

fn supplied(name: &str, values: &[&str]) -> Supplied {
    Supplied { name: s(name), values: values.iter().map(|v| s(v)).collect() }
}

#[test]
fn option_type_makes_argument_optional() {
    let t = path_ty("Option", Some(vec![TypeArg::Type(plain("String"))]), "Option<String>");
    let shape = parse_type(&t).ok().unwrap();
    assert!(shape.optional);
    assert!(!shape.flag);
    assert_eq!(shape.count, None);
    assert_eq!(shape.type_, "String");
}

#[test]
fn vec_type_gives_unbounded_multiplicity() {
    let t = path_ty("Vec", Some(vec![TypeArg::Type(plain("u32"))]), "Vec<u32>");
    let shape = parse_type(&t).ok().unwrap();
    assert_eq!(shape.count, Some(ArgumentMultiplicity { min: None, max: None }));
    assert_eq!(shape.type_, "u32");
}

#[test]
fn repeat_types_give_bounds() {
    let t = path_ty(
        "RepeatMinMax",
        Some(vec![TypeArg::Type(plain("u8")), TypeArg::Const(Some(2)), TypeArg::Const(Some(4))]),
        "RepeatMinMax<u8, 2, 4>",
    );
    let shape = parse_type(&t).ok().unwrap();
    assert_eq!(shape.count, Some(ArgumentMultiplicity { min: Some(2), max: Some(4) }));
    let r = path_ty("Repeat", Some(vec![TypeArg::Type(plain("u8")), TypeArg::Const(Some(3))]), "Repeat<u8, 3>");
    assert_eq!(parse_type(&r).ok().unwrap().count, Some(ArgumentMultiplicity { min: Some(3), max: Some(3) }));
    let m = path_ty("RepeatMax", Some(vec![TypeArg::Type(plain("u8")), TypeArg::Const(Some(5))]), "RepeatMax<u8, 5>");
    assert_eq!(parse_type(&m).ok().unwrap().count, Some(ArgumentMultiplicity { min: None, max: Some(5) }));
}

#[test]
fn optional_list_of_strings() {
    let inner = path_ty("Vec", Some(vec![TypeArg::Type(plain("String"))]), "Vec<String>");
    let t = path_ty("Option", Some(vec![TypeArg::Type(inner)]), "Option<Vec<String>>");
    let shape = parse_type(&t).ok().unwrap();
    assert!(shape.optional);
    assert_eq!(shape.count, Some(ArgumentMultiplicity { min: None, max: None }));
    assert_eq!(shape.type_, "String");
}

#[test]
fn bool_is_a_flag() {
    let shape = parse_type(&plain("bool")).ok().unwrap();
    assert!(shape.flag);
    assert_eq!(shape.type_, "bool");
}

#[test]
fn optional_bool_is_rejected() {
    let t = path_ty("Option", Some(vec![TypeArg::Type(plain("bool"))]), "Option<bool>");
    match parse_type(&t) {
        Err(SchemaError::BoolNotFlag { type_text }) => assert_eq!(type_text, "Option<bool>"),
        _ => panic!("expected a rejected bool"),
    }
}

#[test]
fn from_fn_arg_errors() {
    assert!(matches!(Argument::from_fn_arg(&FnParam::Receiver), Err(SchemaError::ReceiverParameter)));
    let p = FnParam::Typed { name: None, ty: plain("u8") };
    assert!(matches!(Argument::from_fn_arg(&p), Err(SchemaError::ComplexPattern)));
    let a = Argument::from_fn_arg(&typed("count", plain("u8"))).ok().unwrap();
    assert_eq!(a.name, "count");
    assert_eq!(a.type_, "u8");
    assert!(!a.optional && !a.flag && a.count.is_none());
}

#[test]
fn argument_check_rejects_ambiguous_descriptors() {
    let mut a = Argument::new(s("v"), s("bool"));
    a.flag = true;
    a.default = Some(s("true"));
    assert!(matches!(a.check(), Err(SchemaError::FlagWithValueShape { .. })));
    let mut b = Argument::new(s("n"), s("u8"));
    b.optional = true;
    b.default = Some(s("1"));
    match b.check() {
        Err(SchemaError::DefaultForOptional { argument }) => assert_eq!(argument, "n"),
        _ => panic!("expected a default for an optional argument"),
    }
    let c = Argument::new(s("ok"), s("u8"));
    assert!(c.check().is_ok());
}

#[test]
fn add_argument_rejects_duplicates() {
    let mut t = Tusk::new(s("run"));
    assert!(t.add_argument(Argument::new(s("a"), s("u8"))).is_ok());
    match t.add_argument(Argument::new(s("a"), s("String"))) {
        Err(SchemaError::DuplicateArgument { tusk, argument }) => {
            assert_eq!(tusk, "run");
            assert_eq!(argument, "a");
        }
        _ => panic!("expected a duplicate"),
    }
    assert_eq!(t.argument_count(), 1);
    assert_eq!(t.argument_at(0).type_, "u8");
}

#[test]
fn attribute_info_sets_defaults_and_positional() {
    let mut t = Tusk::new(s("run"));
    assert!(t.add_argument(Argument::new(s("required"), s("String"))).is_ok());
    assert!(t.add_argument(Argument::new(s("user_id"), s("u32"))).is_ok());
    assert!(t.add_argument(Argument::new(s("name"), s("String"))).is_ok());
    let defaults = vec![(s("user_id"), s("42"))];
    let positional = vec![s("required"), s("user_id")];
    assert!(t.add_attribute_info(&defaults, &positional).is_ok());
    assert_eq!(t.argument_at(1).default, Some(s("42")));
    assert!(t.argument_at(0).positional);
    assert!(t.argument_at(1).positional);
    assert!(!t.argument_at(2).positional);
    assert_eq!(t.argument_at(0).default, None);
    assert_eq!(t.argument_at(1).name, "user_id");
}

#[test]
fn attribute_info_rejects_unknown_and_optional() {
    let mut t = Tusk::new(s("run"));
    let mut opt = Argument::new(s("maybe"), s("u8"));
    opt.optional = true;
    assert!(t.add_argument(opt).is_ok());
    match t.add_attribute_info(&vec![(s("nope"), s("1"))], &vec![]) {
        Err(SchemaError::UnknownArgument { attribute, argument }) => {
            assert_eq!(attribute, "defaults");
            assert_eq!(argument, "nope");
        }
        _ => panic!("expected an unknown argument"),
    }
    assert!(matches!(
        t.add_attribute_info(&vec![(s("maybe"), s("1"))], &vec![]),
        Err(SchemaError::DefaultForOptional { .. })
    ));
    match t.add_attribute_info(&vec![], &vec![s("ghost")]) {
        Err(SchemaError::UnknownArgument { attribute, .. }) => assert_eq!(attribute, "positional"),
        _ => panic!("expected an unknown positional"),
    }
}

#[test]
fn result_codes() {
    assert_eq!(result_code(ReturnKind::Unit, Some(3)), ResultCode::Success);
    assert_eq!(result_code(ReturnKind::Code, Some(3)), ResultCode::SuccessCode(3));
    assert_eq!(result_code(ReturnKind::OptionalCode, None), ResultCode::Success);
    assert_eq!(result_code(ReturnKind::OptionalCode, Some(0)), ResultCode::SuccessCode(0));
}

#[test]
fn supplement_adds_back_reference_below_root() {
    let mut root = node("root");
    let mut a = node("a");
    a.parameters = Some(TusksParameters { fields: vec![ParameterField::Value(Argument::new(s("user"), s("String")))] });
    let mut b = node("b");
    b.tusks.push(Tusk::new(s("run")));
    a.childs.push(b);
    root.childs.push(a);
    let done = root.supplement_parameters(true).ok().unwrap();
    let root_fields = &done.parameters.as_ref().unwrap().fields;
    assert!(root_fields.is_empty());
    let a_fields = &done.childs[0].parameters.as_ref().unwrap().fields;
    assert_eq!(a_fields.len(), 2);
    assert!(matches!(a_fields[0], ParameterField::Value(_)));
    assert!(matches!(a_fields[1], ParameterField::Super));
    let b_fields = &done.childs[0].childs[0].parameters.as_ref().unwrap().fields;
    assert_eq!(b_fields.len(), 1);
    assert!(matches!(b_fields[0], ParameterField::Super));
    assert_eq!(done.childs[0].childs[0].tusks.len(), 1);
}

#[test]
fn declared_back_reference_is_rejected() {
    let mut root = node("root");
    let mut a = node("a");
    a.parameters = Some(TusksParameters { fields: vec![ParameterField::Super] });
    root.childs.push(a);
    match root.supplement_parameters(true) {
        Err(SchemaError::SuperFieldNotAllowed { scope }) => assert_eq!(scope, "a"),
        _ => panic!("expected a refused back-reference"),
    }
}

#[test]
fn check_finds_duplicate_default_and_bad_arguments() {
    let mut root = node("root");
    let mut x = Tusk::new(s("x"));
    x.is_default = true;
    let mut y = Tusk::new(s("y"));
    y.is_default = true;
    root.tusks.push(x);
    root.tusks.push(y);
    match root.check() {
        Err(SchemaError::DuplicateDefault { scope, tusk }) => {
            assert_eq!(scope, "root");
            assert_eq!(tusk, "y");
        }
        _ => panic!("expected a duplicate default"),
    }
    let mut other = node("root");
    let mut child = node("c");
    let mut t = Tusk::new(s("t"));
    let mut bad = Argument::new(s("f"), s("bool"));
    bad.flag = true;
    bad.count = Some(ArgumentMultiplicity { min: None, max: None });
    assert!(t.add_argument(bad).is_ok());
    child.tusks.push(t);
    other.childs.push(child);
    assert!(matches!(other.check(), Err(SchemaError::FlagWithValueShape { .. })));
    assert!(node("empty").check().is_ok());
}

#[test]
fn default_with_arguments_is_rejected_by_check() {
    let mut root = node("root");
    let mut d = Tusk::new(s("d"));
    d.is_default = true;
    assert!(d.add_argument(Argument::new(s("a"), s("u8"))).is_ok());
    root.tusks.push(d);
    assert!(matches!(root.check(), Err(SchemaError::InvalidDefaultSignature { .. })));
}

#[test]
fn links_listed_depth_first() {
    let mut root = node("root");
    root.links.push(LinkNode { name: s("l1") });
    let mut a = TusksNode { scope_path: vec![s("root"), s("a")], ..node("a") };
    a.links.push(LinkNode { name: s("l2") });
    let mut b = TusksNode { scope_path: vec![s("root"), s("b")], ..node("b") };
    b.links.push(LinkNode { name: s("l3") });
    root.childs.push(a);
    root.childs.push(b);
    let all = root.iter_all_links();
    assert_eq!(all.len(), 3);
    assert_eq!(all[0], (vec![s("root")], s("l1")));
    assert_eq!(all[1], (vec![s("root"), s("a")], s("l2")));
    assert_eq!(all[2], (vec![s("root"), s("b")], s("l3")));
}

#[test]
fn relative_path_drops_root() {
    let n = TusksNode { scope_path: vec![s("root"), s("a"), s("b")], ..node("b") };
    assert_eq!(n.relative_module_path(), vec![s("a"), s("b")]);
    let r = TusksNode { scope_path: vec![], ..node("r") };
    assert!(r.relative_module_path().is_empty());
}

#[test]
fn build_arg_declarations() {
    let mut a = Argument::new(s("count"), s("u8"));
    a.default = Some(s("3"));
    a.short = Some('c');
    a.help = Some(s("how many"));
    a.value_hint = Some(ValueHint::Other);
    let d = a.build_arg(0);
    assert!(!d.required);
    assert_eq!(d.long, Some(s("count")));
    assert_eq!(d.index, None);
    assert_eq!(d.default, Some(s("3")));
    assert_eq!(d.short, Some('c'));
    assert_eq!(d.help, Some(s("how many")));
    let mut p = Argument::new(s("file"), s("String"));
    p.positional = true;
    let dp = p.build_arg(2);
    assert!(dp.required);
    assert_eq!(dp.long, None);
    assert_eq!(dp.index, Some(2));
    let mut f = Argument::new(s("verbose"), s("bool"));
    f.flag = true;
    let df = f.build_arg(0);
    assert!(df.is_flag);
    assert!(!df.required);
    assert_eq!(df.num_args, None);
}

#[test]
fn schema_numbers_positionals_and_nests_scopes() {
    let mut root = node("root");
    let mut t = Tusk::new(s("cp"));
    let mut src = Argument::new(s("src"), s("String"));
    src.positional = true;
    let mut dst = Argument::new(s("dst"), s("String"));
    dst.positional = true;
    assert!(t.add_argument(src).is_ok());
    assert!(t.add_argument(Argument::new(s("mode"), s("u8"))).is_ok());
    assert!(t.add_argument(dst).is_ok());
    root.tusks.push(t);
    let mut admin = node("admin");
    admin.parameters = Some(TusksParameters {
        fields: vec![ParameterField::Value(Argument::new(s("user"), s("String"))), ParameterField::Super],
    });
    root.childs.push(admin);
    root.links.push(LinkNode { name: s("ext") });
    let schema = root.build_cli();
    assert!(schema.has_subcommand);
    assert_eq!(schema.tusks[0].args.len(), 3);
    assert_eq!(schema.tusks[0].args[0].index, Some(1));
    assert_eq!(schema.tusks[0].args[1].index, None);
    assert_eq!(schema.tusks[0].args[2].index, Some(2));
    assert_eq!(schema.subcommands[0].name, "admin");
    assert_eq!(schema.subcommands[0].args.len(), 1);
    assert!(!schema.subcommands[0].has_subcommand);
    assert_eq!(schema.links, vec![s("ext")]);
}

#[test]
fn compiled_twice_accepts_the_same() {
    let mut root = node("root");
    let mut t = Tusk::new(s("go"));
    assert!(t.add_argument(Argument::new(s("speed"), s("u8"))).is_ok());
    root.tusks.push(t);
    root.links.push(LinkNode { name: s("ext") });
    let s1 = root.build_cli();
    let s2 = root.build_cli();
    let sels = vec![
        Selection::Tusk { name: s("go"), inputs: vec![supplied("speed", &["1"])] },
        Selection::Tusk { name: s("go"), inputs: vec![supplied("colour", &["red"])] },
        Selection::Tusk { name: s("stop"), inputs: vec![] },
        Selection::Link { alias: s("ext"), rest: vec![] },
        Selection::Scope { name: s("none"), inputs: vec![], sub: None },
    ];
    let expected = [true, false, false, true, false];
    for (i, sel) in sels.iter().enumerate() {
        assert_eq!(s1.accepts(sel), expected[i]);
        assert_eq!(s2.accepts(sel), expected[i]);
    }
}

#[test]
fn resolver_policy() {
    let mut a = Argument::new(s("n"), s("u8"));
    assert!(matches!(a.extract_from_matches(None), Err(ResolveError::Missing { .. })));
    a.optional = true;
    assert!(matches!(a.extract_from_matches(None), Ok(ResolvedValue::Absent)));
    let vals = vec![s("7")];
    match a.extract_from_matches(Some(&vals)) {
        Ok(ResolvedValue::Single(v)) => assert_eq!(v, "7"),
        _ => panic!("expected the value"),
    }
    let two = vec![s("1"), s("2")];
    assert!(matches!(a.extract_from_matches(Some(&two)), Err(ResolveError::Multiplicity { found: 2, .. })));
    let mut many = Argument::new(s("xs"), s("u8"));
    many.count = Some(ArgumentMultiplicity { min: None, max: None });
    many.default = Some(s("0"));
    match many.extract_from_matches(None) {
        Ok(ResolvedValue::Many(v)) => assert_eq!(v, vec![s("0")]),
        _ => panic!("expected the default as a list"),
    }
    let mut flag = Argument::new(s("v"), s("bool"));
    flag.flag = true;
    assert!(matches!(flag.extract_from_matches(None), Ok(ResolvedValue::Flag(false))));
    let empty: Vec<String> = vec![];
    assert!(matches!(flag.extract_from_matches(Some(&empty)), Ok(ResolvedValue::Flag(true))));
}

#[test]
fn conversion_and_validation_errors_name_the_argument() {
    let mut a = Argument::new(s("port"), s("u16"));
    match accept_converted(&a, Err(s("not a number")), Ok(())) {
        Err(ResolveError::Conversion { argument, message }) => {
            assert_eq!(argument, "port");
            assert_eq!(message, "not a number");
        }
        _ => panic!("expected a conversion error"),
    }
    assert!(accept_converted(&a, Ok(()), Err(s("ignored"))).is_ok());
    a.validator = Some(s("check_port"));
    match accept_converted(&a, Ok(()), Err(s("too low"))) {
        Err(ResolveError::Validation { argument, message }) => {
            assert_eq!(argument, "port");
            assert_eq!(message, "too low");
        }
        _ => panic!("expected a validation error"),
    }
}

#[test]
fn from_fn_builds_operation() {
    let params = vec![
        typed("parameters", reference(plain("Parameters"), "&Parameters")),
        typed("name", plain("String")),
        typed("verbose", plain("bool")),
    ];
    let t = Tusk::from_fn(s("greet"), &params, &Some(plain("u8")), false, false).ok().unwrap();
    assert!(t.takes_parameters);
    assert_eq!(t.return_kind, ReturnKind::Code);
    assert_eq!(t.argument_count(), 2);
    assert_eq!(t.argument_at(0).name, "name");
    assert!(t.argument_at(1).flag);
}

#[test]
fn from_fn_rejects_bad_return_type_and_defaults() {
    let bad = Tusk::from_fn(s("f"), &vec![], &Some(plain("i32")), false, false);
    match bad {
        Err(SchemaError::InvalidReturnType { type_text }) => assert_eq!(type_text, "i32"),
        _ => panic!("expected a bad return type"),
    }
    let opt_u8 = path_ty("Option", Some(vec![TypeArg::Type(plain("u8"))]), "Option<u8>");
    let ok = Tusk::from_fn(s("f"), &vec![], &Some(opt_u8), false, false).ok().unwrap();
    assert_eq!(ok.return_kind, ReturnKind::OptionalCode);
    let params = vec![typed("x", plain("u8"))];
    assert!(matches!(
        Tusk::from_fn(s("d"), &params, &None, true, false),
        Err(SchemaError::InvalidDefaultSignature { .. })
    ));
    let vec_string = path_ty("Vec", Some(vec![TypeArg::Type(plain("String"))]), "Vec<String>");
    let ext = vec![typed("args", vec_string)];
    assert!(matches!(
        Tusk::from_fn(s("d"), &ext, &None, true, false),
        Err(SchemaError::InvalidDefaultSignature { .. })
    ));
    let d = Tusk::from_fn(s("d"), &ext, &None, true, true).ok().unwrap();
    assert!(d.takes_external_args);
    assert!(d.is_default);
    let dup = vec![typed("a", plain("u8")), typed("a", plain("u8"))];
    assert!(matches!(
        Tusk::from_fn(s("f"), &dup, &None, false, false),
        Err(SchemaError::DuplicateArgument { .. })
    ));
}

#[test]
fn use_items_become_links_and_parent() {
    let mut n = node("root");
    let tree = UseTree::Path {
        ident: s("crate"),
        tree: Box::new(UseTree::Group {
            items: vec![
                UseTree::Name { ident: s("sub1") },
                UseTree::Rename { ident: s("other"), rename: s("sub2") },
                UseTree::Glob,
                UseTree::Rename { ident: s("up"), rename: s("parent_") },
            ],
        }),
    };
    n.extract_external_modules(&tree, true);
    assert_eq!(n.links.len(), 2);
    assert_eq!(n.links[0].name, "sub1");
    assert_eq!(n.links[1].name, "sub2");
    assert_eq!(n.external_parent.as_ref().unwrap().name, "parent_");
    let mut m = node("inner");
    m.extract_external_modules(&UseTree::Name { ident: s("parent_") }, false);
    assert!(m.external_parent.is_none());
    assert_eq!(m.links[0].name, "parent_");
}

#[test]
fn root_or_parent_rule() {
    let mut n = node("root");
    assert!(n.validate_is_root_or_has_parent(true, true).is_ok());
    assert!(matches!(n.validate_is_root_or_has_parent(false, true), Err(SchemaError::MissingParent { .. })));
    assert!(n.validate_is_root_or_has_parent(false, false).is_ok());
    n.external_parent = Some(LinkNode { name: s("parent_") });
    assert!(matches!(n.validate_is_root_or_has_parent(true, true), Err(SchemaError::RootWithParent { .. })));
    assert!(n.validate_is_root_or_has_parent(false, true).is_ok());
}

#[test]
fn tasks_config_defaults() {
    let c = TasksConfig::default();
    assert_eq!(c.max_groupsize, 5);
    assert_eq!(c.max_depth, 20);
    assert_eq!(c.separator, ".");
    assert!(c.use_colors);
    let a = TusksAttr::default();
    assert!(!a.debug && !a.root && !a.derive_debug_for_parameters);
    assert!(a.tasks.is_none());
}

#[test]
fn repeat_wrappers_keep_their_values() {
    let r: Repeat<u8, 2> = Repeat::new(vec![1, 2]);
    assert_eq!(r.as_vec(), &vec![1, 2]);
    assert_eq!(r.into_inner(), vec![1, 2]);
    let m: RepeatMinMax<u8, 1, 3> = RepeatMinMax::new(vec![9]);
    assert_eq!(m.into_inner(), vec![9]);
}

#[test]
fn operations_listed_depth_first() {
    let mut root = node("root");
    root.tusks.push(Tusk::new(s("t1")));
    let mut a = TusksNode { scope_path: vec![s("root"), s("a")], ..node("a") };
    a.tusks.push(Tusk::new(s("t2")));
    a.tusks.push(Tusk::new(s("t3")));
    root.childs.push(a);
    let all = root.iter_all_tusks();
    assert_eq!(all.len(), 3);
    assert_eq!(all[0], (vec![s("root")], s("t1")));
    assert_eq!(all[2], (vec![s("root"), s("a")], s("t3")));
}

#[test]
fn spliced_tree_becomes_marked_child() {
    let mut root = node("root");
    let mut ext = node("ext_root");
    ext.tusks.push(Tusk::new(s("foo")));
    root.splice_link(ext, s("ext"));
    assert_eq!(root.childs.len(), 1);
    assert!(root.childs[0].is_link);
    assert_eq!(root.childs[0].link_name, Some(s("ext")));
    assert_eq!(root.childs[0].tusks[0].name, "foo");
}
