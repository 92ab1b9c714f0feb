use runtime_cfg::Predicate::{All, Any, Name, NameValue, Not};
use runtime_cfg::meta::{Ident, Literal, MetaItem, NestedItem, Span, lit_to_string};
use runtime_cfg::parsing::parse_meta;
use runtime_cfg::{Cfg, all, any, name, name_value, not};

#[test]
fn test_lit() {
    let testcases = vec![
        (Literal::Str("hello world".to_owned()), "hello world"),
        (Literal::ByteStr("hello world".to_owned()), "hello world"),
        (Literal::Byte(b'b'), "b"),
        (Literal::Char('c'), "c"),
        (Literal::Int(123), "123"),
        (Literal::Float("3.14".to_owned()), "3.14"),
        (Literal::Bool(true), "true"),
        (Literal::Bool(false), "false"),
    ];

    for (l, s) in testcases {
        assert_eq!(lit_to_string(&l).as_str(), s);
    }
}

#[test]
fn test_lit_large_int() {
    assert_eq!(lit_to_string(&Literal::Int(0)), "0");
    assert_eq!(lit_to_string(&Literal::Int(10)), "10");
    assert_eq!(lit_to_string(&Literal::Int(90210)), "90210");
    assert_eq!(
        lit_to_string(&Literal::Int(u64::MAX)),
        "18446744073709551615"
    );
}

#[test]
fn test_parse() {
    let testcases = vec![
        (
            "#[cfg(any(foo, bar))]",
            Cfg(Any(vec![
                Box::new(Name("foo".to_owned())),
                Box::new(Name("bar".to_owned())),
            ])),
        ),
        (
            "#[cfg(target_os = \"macos\")]",
            Cfg(NameValue("target_os".to_owned(), "macos".to_owned())),
        ),
        (
            "#[cfg(all(unix, target_pointer_width = \"32\"))]",
            Cfg(All(vec![
                Box::new(Name("unix".to_owned())),
                Box::new(NameValue("target_pointer_width".to_owned(), "32".to_owned())),
            ])),
        ),
        ("#[cfg(not(foo))]", Cfg(Not(Box::new(Name("foo".to_owned()))))),
        ("#[cfg(test)]", Cfg(Name("test".to_owned()))),
    ];

    for (s, cfg) in testcases {
        assert_eq!(Cfg::parse(s).unwrap(), cfg, "parse {}", s);
        assert_eq!(cfg.to_text().replace(" ", ""), s.replace(" ", ""));
    }
}

#[test]
fn test_parse_error() {
    let errcases = vec![
        ("#[test]", "expect #[cfg(..)] attribute"),
        ("#[cfg(foo(bar))]", "unexpected operator `foo`"),
        ("#[cfg(foo, bar)]", "#[cfg(..)] only support one predicate"),
        ("#[cfg(not(foo, bar))]", "#[cfg(not(..))] only support one predicate"),
        ("#[cfg(not())]", "#[cfg(not(..))] predicate can't be empty"),
        ("#[cfg()]", "#[cfg(..)] predicate can't be empty"),
        ("#[cfg(\"hello\")]", "unexpected literal: \"hello\""),
    ];

    for (s, err) in errcases {
        assert_eq!(Cfg::parse(s).unwrap_err().message, err);
    }
}

#[test]
fn test_parse_error_escaped_literal() {
    let e = Cfg::parse("#[cfg(\"he\\\"llo\")]").unwrap_err();
    assert_eq!(e.message, "unexpected literal: \"he\\\"llo\"");
}

#[test]
fn test_parse_error_control_char_literal() {
    let e = Cfg::parse("#[cfg(\"\\u{1}\")]").unwrap_err();
    assert_eq!(e.message, "unexpected literal: \"\\u{1}\"");
}

#[test]
fn test_round_trip_structured() {
    let predicates = vec![
        name("unix"),
        name_value("target_os", "macos"),
        not(name("foo")),
        any(vec![name("foo"), name("bar")]),
        all(vec![name("unix"), name_value("target_pointer_width", "32")]),
        all(vec![]),
        any(vec![]),
        not(all(vec![any(vec![name("a")]), name_value("b", "c")])),
    ];
    for p in predicates {
        assert_eq!(parse_meta(p.to_meta()).unwrap(), p);
    }
}

#[test]
fn test_round_trip_text() {
    let predicates = vec![
        name("unix"),
        name_value("target_os", "macos"),
        not(name("foo")),
        any(vec![name("foo"), name("bar")]),
        all(vec![name("unix"), name_value("target_pointer_width", "32")]),
    ];
    for p in predicates {
        let c = Cfg(p);
        let text = c.to_text();
        assert_eq!(Cfg::parse(&text).unwrap(), c, "round trip {}", text);
    }
}

#[test]
fn test_cfg_from_structured_meta() {
    let zero = Span { lo: 0, hi: 0 };
    let meta = MetaItem::List(
        Ident { name: "cfg".to_owned(), span: zero },
        vec![NestedItem::MetaItem(MetaItem::Word(Ident {
            name: "unix".to_owned(),
            span: zero,
        }))],
        zero,
    );
    assert_eq!(runtime_cfg::parsing::cfg(meta).unwrap(), Cfg(Name("unix".to_owned())));

    let other = MetaItem::Word(Ident { name: "test".to_owned(), span: zero });
    assert_eq!(runtime_cfg::parsing::cfg(other).unwrap_err().message, "expect #[cfg(..)] attribute");
}

#[test]
fn test_nested_literal_int_error() {
    let e = Cfg::parse("#[cfg(any(123))]").unwrap_err();
    assert_eq!(e.message, "unexpected literal: \"123\"");
}

#[test]
fn test_error_spans() {
    let s = "#[cfg(not(foo, bar))]";
    let e = Cfg::parse(s).unwrap_err();
    assert_eq!(&s[e.span.lo..e.span.hi], "bar");

    let s2 = "#[cfg(quux(a))]";
    let e2 = Cfg::parse(s2).unwrap_err();
    assert_eq!(&s2[e2.span.lo..e2.span.hi], "quux(a)");
}

#[test]
fn test_find() {
    let item: syn::DeriveInput =
        syn::parse_str("#[derive(Debug)] #[cfg(any(foo, bar))] struct X;").unwrap();
    let found = Cfg::find(&item.attrs).unwrap();
    assert_eq!(
        found,
        Cfg(Any(vec![
            Box::new(Name("foo".to_owned())),
            Box::new(Name("bar".to_owned())),
        ]))
    );

    let none: syn::DeriveInput = syn::parse_str("#[derive(Debug)] struct X;").unwrap();
    assert!(Cfg::find(&none.attrs).is_none());

    let bad: syn::DeriveInput = syn::parse_str("#[cfg(not(a, b))] struct X;").unwrap();
    assert!(Cfg::find(&bad.attrs).is_none());
}

#[test]
fn test_parse_rejects_other_text() {
    assert!(Cfg::parse("").is_err());
    assert!(Cfg::parse("not an attribute").is_err());
    assert!(Cfg::parse("#[cfg(a)] #[cfg(b)]").is_err());
}

#[test]
fn test_parse_literal_kinds() {
    let cases = vec![
        ("#[cfg(x = \"hello world\")]", "hello world"),
        ("#[cfg(x = b\"hello\")]", "hello"),
        ("#[cfg(x = b'b')]", "b"),
        ("#[cfg(x = 'c')]", "c"),
        ("#[cfg(x = 123)]", "123"),
        ("#[cfg(x = 0xff)]", "255"),
        ("#[cfg(x = 3.14)]", "3.14"),
        ("#[cfg(x = true)]", "true"),
        ("#[cfg(x = false)]", "false"),
    ];
    for (s, v) in cases {
        assert_eq!(
            Cfg::parse(s).unwrap(),
            Cfg(NameValue("x".to_owned(), v.to_owned())),
            "parse {}",
            s
        );
    }
}

#[test]
fn test_parse_invalid_utf8_byte_string() {
    let e = Cfg::parse("#[cfg(x = b\"\\xff\")]").unwrap_err();
    assert_eq!(e.message, "byte string literal is not valid UTF-8");
}
