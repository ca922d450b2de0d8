use tusks::{
    ArgumentMultiplicity, Argument, Dispatch, DispatchError, LinkNode, ParameterField,
    ResolveError, ResolvedValue, ResultCode, ReturnKind, Selection, Supplied, Target, Tusk, TusksNode,
    TusksParameters, target_result,
};

fn s(x: &str) -> String {
    x.to_string()
}

fn node(name: &str, path: &[&str]) -> TusksNode {
    TusksNode {
        name: s(name),
        scope_path: path.iter().map(|p| s(p)).collect(),
        parameters: None,
        tusks: Vec::new(),
        childs: Vec::new(),
        links: Vec::new(),
        allow_external_subcommands: false,
        external_parent: None,
        is_link: false,
        link_name: None,
    }
}

fn supplied(name: &str, values: &[&str]) -> Supplied {
    Supplied { name: s(name), values: values.iter().map(|v| s(v)).collect() }
}

fn greet_tree() -> TusksNode {
    let mut root = node("root", &["root"]);
    let mut greet = Tusk::new(s("greet"));
    let mut name = Argument::new(s("name"), s("String"));
    name.default = Some(s("world"));
    assert!(greet.add_argument(name).is_ok());
    root.tusks.push(greet);
    root
}

fn admin_tree() -> TusksNode {
    let mut root = node("root", &["root"]);
    let mut admin = node("admin", &["root", "admin"]);
    admin.parameters = Some(TusksParameters {
        fields: vec![ParameterField::Value(Argument::new(s("user"), s("String")))],
    });
    let mut ban = Tusk::new(s("ban"));
    let mut reason = Argument::new(s("reason"), s("String"));
    reason.optional = true;
    assert!(ban.add_argument(reason).is_ok());
    admin.tusks.push(ban);
    root.childs.push(admin);
    root
}

fn single(v: &ResolvedValue) -> Option<String> {
    match v {
        ResolvedValue::Single(x) => Some(x.clone()),
        _ => None,
    }
}

fn tusk_args(d: &Dispatch) -> &Vec<ResolvedValue> {
    match &d.target {
        Target::Tusk { args, .. } => args,
        _ => panic!("expected an operation"),
    }
}

#[test]
fn greet_uses_default_when_name_missing() {
    let root = greet_tree();
    let sel = Some(Selection::Tusk { name: s("greet"), inputs: vec![] });
    let d = root.dispatch(&vec![], &sel).ok().unwrap();
    let args = tusk_args(&d);
    assert_eq!(args.len(), 1);
    assert_eq!(single(&args[0]), Some(s("world")));
}

#[test]
fn greet_uses_supplied_name() {
    let root = greet_tree();
    let sel = Some(Selection::Tusk { name: s("greet"), inputs: vec![supplied("name", &["Ada"])] });
    let d = root.dispatch(&vec![], &sel).ok().unwrap();
    match &d.target {
        Target::Tusk { name, args, .. } => {
            assert_eq!(name, "greet");
            assert_eq!(single(&args[0]), Some(s("Ada")));
        }
        _ => panic!("expected greet"),
    }
}

#[test]
fn admin_ban_without_reason() {
    let root = admin_tree();
    let sel = Some(Selection::Scope {
        name: s("admin"),
        inputs: vec![supplied("user", &["bob"])],
        sub: Some(Box::new(Selection::Tusk { name: s("ban"), inputs: vec![] })),
    });
    let d = root.dispatch(&vec![], &sel).ok().unwrap();
    assert_eq!(d.path, vec![s("admin")]);
    assert_eq!(d.scopes.len(), 2);
    assert_eq!(d.scopes[1].names, vec![s("user")]);
    assert_eq!(single(&d.scopes[1].values[0]), Some(s("bob")));
    let args = tusk_args(&d);
    assert!(matches!(args[0], ResolvedValue::Absent));
}

#[test]
fn admin_ban_with_reason() {
    let root = admin_tree();
    let sel = Some(Selection::Scope {
        name: s("admin"),
        inputs: vec![supplied("user", &["bob"])],
        sub: Some(Box::new(Selection::Tusk {
            name: s("ban"),
            inputs: vec![supplied("reason", &["spam"])],
        })),
    });
    let d = root.dispatch(&vec![], &sel).ok().unwrap();
    assert_eq!(single(&d.scopes[1].values[0]), Some(s("bob")));
    assert_eq!(single(&tusk_args(&d)[0]), Some(s("spam")));
}

#[test]
fn admin_missing_user_is_an_error() {
    let root = admin_tree();
    let sel = Some(Selection::Scope {
        name: s("admin"),
        inputs: vec![],
        sub: Some(Box::new(Selection::Tusk { name: s("ban"), inputs: vec![] })),
    });
    match root.dispatch(&vec![], &sel) {
        Err(DispatchError::Resolve(ResolveError::Missing { argument })) => {
            assert_eq!(argument, "user")
        }
        _ => panic!("expected a missing argument"),
    }
}

#[test]
fn enum_value_not_allowed() {
    let mut root = node("root", &["root"]);
    let mut set = Tusk::new(s("set"));
    let mut level = Argument::new(s("level"), s("String"));
    level.arg_enum = Some(vec![s("low"), s("high")]);
    assert!(set.add_argument(level).is_ok());
    root.tusks.push(set);
    let sel = Some(Selection::Tusk { name: s("set"), inputs: vec![supplied("level", &["medium"])] });
    match root.dispatch(&vec![], &sel) {
        Err(DispatchError::Resolve(ResolveError::NotAllowed { argument, value, allowed })) => {
            assert_eq!(argument, "level");
            assert_eq!(value, "medium");
            assert_eq!(allowed, vec![s("low"), s("high")]);
        }
        _ => panic!("expected a value that is not allowed"),
    }
}

#[test]
fn link_forwards_remaining_tokens() {
    let mut root = node("root", &["root"]);
    root.links.push(LinkNode { name: s("ext") });
    let sel = Some(Selection::Link { alias: s("ext"), rest: vec![s("foo"), s("--x=1")] });
    let d = root.dispatch(&vec![], &sel).ok().unwrap();
    match &d.target {
        Target::Forward { alias, rest } => {
            assert_eq!(alias, "ext");
            assert_eq!(rest, &vec![s("foo"), s("--x=1")]);
        }
        _ => panic!("expected forwarding"),
    }
    assert_eq!(d.scopes.len(), 1);
}

#[test]
fn unknown_link_alias_is_unknown_command() {
    let mut root = node("root", &["root"]);
    root.links.push(LinkNode { name: s("ext") });
    let sel = Some(Selection::Link { alias: s("other"), rest: vec![] });
    match root.dispatch(&vec![], &sel) {
        Err(DispatchError::UnknownCommand { name }) => assert_eq!(name, "other"),
        _ => panic!("expected an unknown command"),
    }
}

#[test]
fn no_default_gives_nothing_matched() {
    let mut root = node("root", &["root"]);
    root.tusks.push(Tusk::new(s("a")));
    let d = root.dispatch(&vec![], &None).ok().unwrap();
    assert!(matches!(d.target, Target::NothingMatched));
}

#[test]
fn default_operation_runs_when_nothing_selected() {
    let mut root = node("root", &["root"]);
    root.tusks.push(Tusk::new(s("a")));
    let mut b = Tusk::new(s("b"));
    b.is_default = true;
    b.return_kind = ReturnKind::Code;
    root.tusks.push(b);
    let d = root.dispatch(&vec![], &None).ok().unwrap();
    match &d.target {
        Target::Default { name, return_kind, .. } => {
            assert_eq!(name, "b");
            assert_eq!(*return_kind, ReturnKind::Code);
        }
        _ => panic!("expected the default"),
    }
}

#[test]
fn unknown_operation_is_reported() {
    let root = greet_tree();
    let sel = Some(Selection::Tusk { name: s("wave"), inputs: vec![] });
    match root.dispatch(&vec![], &sel) {
        Err(DispatchError::UnknownCommand { name }) => assert_eq!(name, "wave"),
        _ => panic!("expected an unknown command"),
    }
}

#[test]
fn nested_scopes_refer_to_parent_values() {
    let mut root = node("root", &["root"]);
    let mut a = node("a", &["root", "a"]);
    let mut b = node("b", &["root", "a", "b"]);
    b.tusks.push(Tusk::new(s("run")));
    a.childs.push(b);
    root.childs.push(a);
    let sel = Some(Selection::Scope {
        name: s("a"),
        inputs: vec![],
        sub: Some(Box::new(Selection::Scope {
            name: s("b"),
            inputs: vec![],
            sub: Some(Box::new(Selection::Tusk { name: s("run"), inputs: vec![] })),
        })),
    });
    let d = root.dispatch(&vec![], &sel).ok().unwrap();
    assert_eq!(d.path, vec![s("a"), s("b")]);
    assert_eq!(d.scopes.len(), 3);
    assert_eq!(d.scopes[0].parent, None);
    assert_eq!(d.scopes[1].parent, Some(0));
    assert_eq!(d.scopes[2].parent, Some(1));
    assert_eq!(d.scopes[1].scope, "a");
    assert_eq!(d.scopes[2].scope, "b");
}

#[test]
fn round_trip_invokes_addressed_operation_once() {
    let mut root = node("root", &["root"]);
    let mut copy = Tusk::new(s("copy"));
    let mut src = Argument::new(s("src"), s("String"));
    src.positional = true;
    let mut force = Argument::new(s("force"), s("bool"));
    force.flag = true;
    let mut files = Argument::new(s("files"), s("String"));
    files.count = Some(ArgumentMultiplicity { min: Some(1), max: None });
    assert!(copy.add_argument(src).is_ok());
    assert!(copy.add_argument(force).is_ok());
    assert!(copy.add_argument(files).is_ok());
    root.tusks.push(copy);
    let schema = root.build_cli();
    let sel = Selection::Tusk {
        name: s("copy"),
        inputs: vec![supplied("src", &["a.txt"]), supplied("files", &["x", "y"])],
    };
    assert!(schema.accepts(&sel));
    let d = root.dispatch(&vec![], &Some(sel)).ok().unwrap();
    let args = tusk_args(&d);
    assert_eq!(args.len(), 3);
    assert_eq!(single(&args[0]), Some(s("a.txt")));
    assert!(matches!(args[1], ResolvedValue::Flag(false)));
    match &args[2] {
        ResolvedValue::Many(v) => assert_eq!(v, &vec![s("x"), s("y")]),
        _ => panic!("expected many values"),
    }
}

#[test]
fn multiplicity_violation_is_reported() {
    let mut root = node("root", &["root"]);
    let mut t = Tusk::new(s("pick"));
    let mut two = Argument::new(s("two"), s("u8"));
    two.count = Some(ArgumentMultiplicity { min: Some(2), max: Some(2) });
    assert!(t.add_argument(two).is_ok());
    root.tusks.push(t);
    let sel = Some(Selection::Tusk { name: s("pick"), inputs: vec![supplied("two", &["1"])] });
    match root.dispatch(&vec![], &sel) {
        Err(DispatchError::Resolve(ResolveError::Multiplicity { argument, found })) => {
            assert_eq!(argument, "two");
            assert_eq!(found, 1);
        }
        _ => panic!("expected a multiplicity error"),
    }
}

#[test]
fn root_parameters_are_materialized() {
    let mut root = greet_tree();
    let mut verbose = Argument::new(s("verbose"), s("bool"));
    verbose.flag = true;
    root.parameters = Some(TusksParameters { fields: vec![ParameterField::Value(verbose)] });
    let sel = Some(Selection::Tusk { name: s("greet"), inputs: vec![] });
    let d = root.dispatch(&vec![supplied("verbose", &[])], &sel).ok().unwrap();
    assert!(matches!(d.scopes[0].values[0], ResolvedValue::Flag(true)));
}

#[test]
fn forwarded_dispatch_continues_in_linked_tree() {
    let mut root = node("root", &["root"]);
    root.links.push(LinkNode { name: s("ext") });
    let sel = Some(Selection::Link { alias: s("ext"), rest: vec![s("foo"), s("--x=1")] });
    let outer = root.dispatch(&vec![], &sel).ok().unwrap();
    let mut ext = node("ext", &["ext"]);
    let mut foo = Tusk::new(s("foo"));
    assert!(foo.add_argument(Argument::new(s("x"), s("u8"))).is_ok());
    foo.return_kind = ReturnKind::Code;
    ext.tusks.push(foo);
    let inner_sel = Some(Selection::Tusk { name: s("foo"), inputs: vec![supplied("x", &["1"])] });
    let d = ext.dispatch_linked(&vec![], &inner_sel, outer.scopes).ok().unwrap();
    assert_eq!(d.scopes.len(), 2);
    assert_eq!(d.scopes[1].scope, "ext");
    assert_eq!(d.scopes[1].parent, Some(0));
    assert_eq!(single(&tusk_args(&d)[0]), Some(s("1")));
    let code = target_result(&d.target, Some(4), ResultCode::Success);
    assert_eq!(code, ResultCode::SuccessCode(4));
    assert_eq!(target_result(&outer.target, None, code), ResultCode::SuccessCode(4));
}

#[test]
fn nothing_matched_result_code() {
    let mut root = node("root", &["root"]);
    root.tusks.push(Tusk::new(s("a")));
    let d = root.dispatch(&vec![], &None).ok().unwrap();
    assert_eq!(target_result(&d.target, None, ResultCode::Success), ResultCode::NothingMatched);
}
