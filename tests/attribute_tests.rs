use tusks::attribute::{parse_identifier_list, parse_key_value_list};
use tusks::{AttrError, AttrToken, Expected, TasksConfig, TusksAttr};

fn id(x: &str) -> AttrToken {
    AttrToken::Ident(x.to_string())
}

fn int_token(value: Option<usize>) -> AttrToken {
    AttrToken::Int { text: value.map(|v| v.to_string()).unwrap_or_else(|| "99999999999999999999999".to_string()), value }
}

fn p(c: char) -> AttrToken {
    AttrToken::Punct(c)
}

#[test]
fn flags_alone_and_with_values() {
    let ts = vec![id("root"), p(','), id("debug"), p('='), AttrToken::Bool(false), p(','), id("derive_debug_for_parameters")];
    let a = TusksAttr::parse(&ts).ok().unwrap();
    assert!(a.root);
    assert!(!a.debug);
    assert!(a.derive_debug_for_parameters);
    assert!(a.tasks.is_none());
}

#[test]
fn tasks_group_overrides_some_defaults() {
    let group = vec![
        id("max_groupsize"),
        p('='),
        int_token(Some(10)),
        p(','),
        id("separator"),
        p('='),
        AttrToken::Str("/".to_string()),
    ];
    let ts = vec![id("root"), p(','), id("tasks"), AttrToken::Group(group), p(',')];
    let a = TusksAttr::parse(&ts).ok().unwrap();
    let t = a.tasks.unwrap();
    assert_eq!(t.max_groupsize, 10);
    assert_eq!(t.max_depth, 20);
    assert_eq!(t.separator, "/");
    assert!(t.use_colors);
}

#[test]
fn empty_options_are_defaults() {
    let a = TusksAttr::parse(&vec![]).ok().unwrap();
    assert!(!a.root && !a.debug);
    let c = TasksConfig::parse(&vec![]).ok().unwrap();
    assert_eq!(c.max_groupsize, 5);
    assert_eq!(c.separator, ".");
}

#[test]
fn unknown_attribute_is_named() {
    match TusksAttr::parse(&vec![id("verbose")]) {
        Err(AttrError::UnknownAttribute { name }) => assert_eq!(name, "verbose"),
        _ => panic!("expected an unknown attribute"),
    }
}

#[test]
fn unknown_tasks_parameter_is_named() {
    let ts = vec![id("tasks"), AttrToken::Group(vec![id("width"), p('='), int_token(Some(3))])];
    match TusksAttr::parse(&ts) {
        Err(AttrError::InTasks(inner)) => match *inner {
            AttrError::UnknownParameter { name } => assert_eq!(name, "width"),
            _ => panic!("expected an unknown parameter"),
        },
        _ => panic!("expected a fault inside tasks"),
    }
}

#[test]
fn syntax_faults_give_position() {
    match TusksAttr::parse(&vec![id("root"), id("debug")]) {
        Err(AttrError::Expected { position, what }) => {
            assert_eq!(position, 1);
            assert_eq!(what, Expected::Comma);
        }
        _ => panic!("expected a missing comma"),
    }
    match TusksAttr::parse(&vec![id("debug"), p('='), int_token(Some(1))]) {
        Err(AttrError::Expected { position, what }) => {
            assert_eq!(position, 2);
            assert_eq!(what, Expected::Bool);
        }
        _ => panic!("expected a missing boolean"),
    }
    match TasksConfig::parse(&vec![id("max_depth"), int_token(Some(1))]) {
        Err(AttrError::Expected { position, what }) => {
            assert_eq!(position, 1);
            assert_eq!(what, Expected::Equals);
        }
        _ => panic!("expected a missing equals sign"),
    }
    assert!(matches!(
        TasksConfig::parse(&vec![id("max_depth"), p('='), int_token(None)]),
        Err(AttrError::IntOutOfRange { position: 2 })
    ));
    assert!(matches!(
        TusksAttr::parse(&vec![id("tasks"), p(',')]),
        Err(AttrError::Expected { position: 1, what: Expected::Group })
    ));
    assert!(matches!(
        TusksAttr::parse(&vec![p(',')]),
        Err(AttrError::Expected { position: 0, what: Expected::Ident })
    ));
}

#[test]
fn defaults_list_in_order() {
    let ts = vec![
        id("user_id"),
        p('='),
        AttrToken::Int { text: "42".to_string(), value: Some(42) },
        p(','),
        id("verbose"),
        p('='),
        AttrToken::Bool(false),
        p(','),
        id("name"),
        p('='),
        AttrToken::Str("demo".to_string()),
    ];
    let v = parse_key_value_list(&ts).ok().unwrap();
    assert_eq!(
        v,
        vec![
            ("user_id".to_string(), "42".to_string()),
            ("verbose".to_string(), "false".to_string()),
            ("name".to_string(), "demo".to_string()),
        ]
    );
}

#[test]
fn defaults_list_faults() {
    assert!(matches!(
        parse_key_value_list(&vec![]),
        Err(AttrError::Expected { position: 0, what: Expected::Ident })
    ));
    let dup = vec![id("a"), p('='), AttrToken::Str("1".to_string()), p(','), id("a"), p('='), AttrToken::Str("2".to_string())];
    match parse_key_value_list(&dup) {
        Err(AttrError::Duplicate { name }) => assert_eq!(name, "a"),
        _ => panic!("expected a duplicate"),
    }
    assert!(matches!(
        parse_key_value_list(&vec![id("a"), p('='), p(',')]),
        Err(AttrError::Expected { position: 2, what: Expected::Value })
    ));
    assert!(matches!(
        parse_key_value_list(&vec![id("a"), p('='), AttrToken::Str("1".to_string()), p(',')]),
        Err(AttrError::Expected { position: 4, what: Expected::Ident })
    ));
}

#[test]
fn positional_list() {
    assert!(parse_identifier_list(&vec![]).ok().unwrap().is_empty());
    let v = parse_identifier_list(&vec![id("required"), p(','), id("user_id")]).ok().unwrap();
    assert_eq!(v, vec!["required".to_string(), "user_id".to_string()]);
    match parse_identifier_list(&vec![id("x"), p(','), id("x")]) {
        Err(AttrError::Duplicate { name }) => assert_eq!(name, "x"),
        _ => panic!("expected a duplicate"),
    }
    assert!(matches!(
        parse_identifier_list(&vec![id("x"), id("y")]),
        Err(AttrError::Expected { position: 1, what: Expected::Comma })
    ));
}
