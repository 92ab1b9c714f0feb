use runtime_cfg::Predicate::{All, Any, Name, NameValue, Not};
use runtime_cfg::matches::FlagMap;
use runtime_cfg::{Cfg, all, any, name, name_value, not};

#[test]
fn test_matches() {
    let testcases: Vec<(Cfg, Vec<(&str, Option<&str>)>, bool)> = vec![
        (Cfg(Name("unix".to_owned())), vec![("unix", None)], true),
        (
            Cfg(NameValue("target_os".to_owned(), "macos".to_owned())),
            vec![("target_os", Some("macos"))],
            true,
        ),
        (
            Cfg(Any(vec![
                Box::new(Name("foo".to_owned())),
                Box::new(Name("bar".to_owned())),
            ])),
            vec![("foo", None)],
            true,
        ),
        (
            Cfg(Not(Box::new(Name("bar".to_owned())))),
            vec![("foo", None), ("bar", None)],
            false,
        ),
        (
            Cfg(All(vec![
                Box::new(Name("unix".to_owned())),
                Box::new(NameValue("target_pointer_width".to_owned(), "32".to_owned())),
            ])),
            vec![("unix", None)],
            false,
        ),
        (
            Cfg(All(vec![
                Box::new(Name("unix".to_owned())),
                Box::new(NameValue("target_pointer_width".to_owned(), "32".to_owned())),
            ])),
            vec![("unix", None), ("target_pointer_width", Some("32"))],
            true,
        ),
    ];

    for (cfg, flags, res) in testcases {
        assert_eq!(cfg.matches(&flags), res);
    }
}

#[test]
fn test_matches_hashmap() {
    let mut h: FlagMap<Vec<&str>> = FlagMap::new();

    h.insert("foo", None);
    h.insert("bar", None);
    h.insert("target_os", Some(vec!["macos"]));
    h.insert("target_pointer_width", Some(vec!["32"]));

    let testcases = vec![
        ("#[cfg(unix)]", false),
        ("#[cfg(target_os = \"macos\")]", true),
        ("#[cfg(any(foo, bar))]", true),
        ("#[cfg(not(bar))]", false),
        ("#[cfg(all(unix, target_pointer_width = \"32\"))]", false),
        ("#[cfg(any(unix, target_pointer_width = \"32\"))]", true),
    ];

    for (s, res) in testcases {
        assert_eq!(Cfg::parse(s).unwrap().matches(&h), res, "matching {}", s);
    }
}

#[test]
fn test_map_shaped_pattern_with_builders() {
    let mut h: FlagMap<Vec<&str>> = FlagMap::new();

    h.insert("foo", None);
    h.insert("bar", None);
    h.insert("target_os", Some(vec!["macos"]));
    h.insert("target_pointer_width", Some(vec!["32"]));

    let all_p = all(vec![name("unix"), name_value("target_pointer_width", "32")]);
    assert!(!all_p.matches(&h));
    let any_p = any(vec![name("unix"), name_value("target_pointer_width", "32")]);
    assert!(any_p.matches(&h));
}

#[test]
fn test_flag_map_replaces_value() {
    let mut h: FlagMap<&str> = FlagMap::new();
    h.insert("target_os", Some("linux"));
    h.insert("target_os", Some("macos"));
    assert!(name_value("target_os", "macos").matches(&h));
    assert!(!name_value("target_os", "linux").matches(&h));
}

#[test]
fn test_empty_all_any() {
    let flags: Vec<(&str, Option<&str>)> = vec![("anything", None)];
    let no_flags: Vec<(&str, Option<&str>)> = vec![];
    assert!(all(vec![]).matches(&flags));
    assert!(all(vec![]).matches(&no_flags));
    assert!(!any(vec![]).matches(&flags));
    assert!(!any(vec![]).matches(&no_flags));
}

#[test]
fn test_double_negation() {
    let flags: Vec<(&str, Option<&str>)> = vec![("foo", None)];
    for p in [name("foo"), name("bar"), name_value("foo", "x")] {
        let direct = p.matches(&flags);
        assert_eq!(not(not(p)).matches(&flags), direct);
    }
}

#[test]
fn test_order_independent() {
    let flags: Vec<(&str, Option<&str>)> = vec![("b", None)];
    assert_eq!(
        any(vec![name("a"), name("b"), name("c")]).matches(&flags),
        any(vec![name("c"), name("b"), name("a")]).matches(&flags),
    );
    assert_eq!(
        all(vec![name("a"), name("b")]).matches(&flags),
        all(vec![name("b"), name("a")]).matches(&flags),
    );
}

#[test]
fn test_presence_ignores_value() {
    let flags: Vec<(&str, Option<&str>)> = vec![("target_os", Some("macos"))];
    assert!(name("target_os").matches(&flags));
}

#[test]
fn test_value_requires_declared() {
    let flags: Vec<(&str, Option<&str>)> = vec![("foo", None)];
    assert!(!name_value("foo", "bar").matches(&flags));
}

#[test]
fn test_string_set_matcher() {
    let flags: Vec<(&str, Option<Vec<&str>>)> =
        vec![("target_os", Some(vec!["macos", "linux"]))];
    assert!(name_value("target_os", "linux").matches(&flags));
    assert!(!name_value("target_os", "windows").matches(&flags));
}

#[test]
fn test_clone_deep() {
    let predicates = vec![
        name("unix"),
        name_value("target_os", "macos"),
        not(name("foo")),
        any(vec![name("foo"), all(vec![name("bar"), name_value("a", "b")])]),
    ];
    for p in predicates {
        assert_eq!(p.clone(), p);
    }
    let c = Cfg(any(vec![name("foo"), name("bar")]));
    assert_eq!(c.clone(), c);
}

#[test]
fn test_slice_pattern_and_matcher() {
    let entries: Vec<(&str, Option<&str>)> = vec![("unix", None), ("target_os", Some("macos"))];
    let flags: &[(&str, Option<&str>)] = entries.as_slice();
    assert!(name("unix").matches(&flags));
    assert!(name_value("target_os", "macos").matches(&flags));
    assert!(!name_value("unix", "x").matches(&flags));

    let values: Vec<&str> = vec!["macos", "linux"];
    let set_entries: Vec<(&str, Option<&[&str]>)> =
        vec![("target_os", Some(values.as_slice()))];
    assert!(name_value("target_os", "linux").matches(&set_entries));
    assert!(!name_value("target_os", "windows").matches(&set_entries));
}
