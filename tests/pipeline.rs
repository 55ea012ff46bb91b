use getopts::Options;
use getopts_spec::{
    build_options, compile, directive_of, options_from_text, primitive_for, resolve_clause,
    tokenize, BuildError, Clause, CompileError, DirectiveEffect, ErrorKind, GetOptsExt,
    Occurrence, OptionName, OptionSpec, Primitive, RegistryRejection, Token, ValueKind,
};

fn resolve_text(text: &str) -> Result<OptionSpec, ErrorKind> {
    resolve_clause(&tokenize(text).expect("closed quotes"))
}

fn short_usage(text: &str) -> String {
    options_from_text(text).ok().expect("builds").short_usage("prog")
}

#[test]
fn test() {
    let usage = short_usage(
        r#"
        -c --center-rule            "...";
        -i --ignore*=NAME           "...";
        -I --ignore-partial*=NAME   "...";
        -S --fake-source-from=SRC   "...";
        -s --sep?=PATTERN           "...";
        -k --keep*?=PATTERN         "...";
        -h,--help*                  "...";
        -m*                         "...";
           --long                   "...";
           --long-arg=A             "...";
        -j+=J                       "...";
        .parsing_style(getopts::ParsingStyle::StopAtFirstFree)
        "#,
    );
    assert_eq!(usage, "Usage: prog [-c] [-i NAME].. [-I NAME].. [-S SRC] [-s [PATTERN]] [-k [PATTERN]].. [-h].. [-m].. [--long] [--long-arg A] -j J");
}

#[test]
fn seed_scenario_emits_in_order() {
    let text = r#"-c --center-rule "..."; -i --ignore *= NAME "..."; -h,--help * "...";
        -m * "..."; --long "..."; --long-arg = A "..."; -j += J "...";"#;
    let clauses = compile(&tokenize(text).unwrap()).ok().unwrap();
    assert_eq!(clauses.len(), 7);
    let expect: Vec<(&str, &str, Occurrence, Primitive)> = vec![
        ("c", "center-rule", Occurrence::Single, Primitive::Flag),
        ("i", "ignore", Occurrence::Multi, Primitive::ValueRepeatable),
        ("h", "help", Occurrence::Multi, Primitive::FlagRepeatable),
        ("m", "", Occurrence::Multi, Primitive::FlagRepeatable),
        ("", "long", Occurrence::Single, Primitive::Flag),
        ("", "long-arg", Occurrence::Single, Primitive::Value),
        ("j", "", Occurrence::RequiredOne, Primitive::ValueRequiredOnce),
    ];
    for (c, (short, long, occ, prim)) in clauses.iter().zip(expect) {
        match c {
            Clause::Option(s) => {
                let (a, b) = match &s.name {
                    OptionName::ShortOnly(a) => (a.as_str(), ""),
                    OptionName::LongOnly(b) => ("", b.as_str()),
                    OptionName::ShortAndLong(a, b) => (a.as_str(), b.as_str()),
                };
                assert_eq!((a, b), (short, long));
                assert_eq!(s.occurrence, occ);
                assert_eq!(primitive_for(s.occurrence, &s.value), prim);
                assert_eq!(s.description, "...");
            }
            Clause::Directive(_) => panic!("no directive here"),
        }
    }
    assert_eq!(
        short_usage(text),
        "Usage: prog [-c] [-i NAME].. [-h].. [-m].. [--long] [--long-arg A] -j J"
    );
}

#[test]
fn hints_of_seed_scenario() {
    match resolve_text(r#"-i --ignore *= NAME "...""#) {
        Ok(OptionSpec { value: ValueKind::RequiredValue(h), .. }) => assert_eq!(h, "NAME"),
        _ => panic!("expected a required value"),
    }
    match resolve_text(r#"--long-arg = A "...""#) {
        Ok(OptionSpec { value: ValueKind::RequiredValue(h), occurrence: Occurrence::Single, .. }) => {
            assert_eq!(h, "A")
        }
        _ => panic!("expected a required value"),
    }
}

#[test]
fn extension_scenario_keep() {
    let s = resolve_text(r#"-k --keep *?= PATTERN "...""#).ok().unwrap();
    assert_eq!(s.occurrence, Occurrence::Multi);
    match &s.value {
        ValueKind::OptionalValue(h) => assert_eq!(h, "PATTERN"),
        _ => panic!("expected an optional value"),
    }
    assert_eq!(
        primitive_for(s.occurrence, &s.value),
        Primitive::FlagWithOptionalValueRepeatable
    );
    let built = options_from_text(r#"-k --keep *?= PATTERN "...""#).ok().unwrap();
    let mut direct = Options::new();
    direct.opt("k", "keep", "...", "PATTERN", getopts::HasArg::Maybe, getopts::Occur::Multi);
    assert_eq!(built, direct);
    let m = built.parse(["-k", "--keep=a", "-k"]).unwrap();
    assert_eq!(m.opt_count("k"), 3);
    assert_eq!(m.opt_strs("keep"), vec!["a".to_string()]);
}

#[test]
fn required_once_with_optional_value() {
    let built = options_from_text(r#"--mode +?= M "...""#).ok().unwrap();
    assert_eq!(built.short_usage("p"), "Usage: p --mode [M]");
    assert!(built.parse(Vec::<String>::new()).is_err());
    assert!(built.parse(["--mode"]).is_ok());
}

#[test]
fn every_pair_resolves() {
    let cases: Vec<(&str, Occurrence, Primitive)> = vec![
        ("", Occurrence::Single, Primitive::Flag),
        ("*", Occurrence::Multi, Primitive::FlagRepeatable),
        ("+", Occurrence::RequiredOne, Primitive::FlagRequiredOnce),
        ("= H", Occurrence::Single, Primitive::Value),
        ("* = H", Occurrence::Multi, Primitive::ValueRepeatable),
        ("*= H", Occurrence::Multi, Primitive::ValueRepeatable),
        ("+ = H", Occurrence::RequiredOne, Primitive::ValueRequiredOnce),
        ("+= H", Occurrence::RequiredOne, Primitive::ValueRequiredOnce),
        ("?= H", Occurrence::Single, Primitive::FlagWithOptionalValue),
        ("*?= H", Occurrence::Multi, Primitive::FlagWithOptionalValueRepeatable),
        ("+?= H", Occurrence::RequiredOne, Primitive::FlagWithOptionalValueRequiredOnce),
    ];
    let mut extensions = 0;
    for (m, occ, prim) in cases {
        let s = resolve_text(&format!("-x {} \"d\"", m)).ok().unwrap();
        assert_eq!(s.occurrence, occ);
        let p = primitive_for(s.occurrence, &s.value);
        assert_eq!(p, prim);
        if matches!(
            p,
            Primitive::FlagWithOptionalValueRepeatable | Primitive::FlagWithOptionalValueRequiredOnce
        ) {
            extensions += 1;
        }
    }
    assert_eq!(extensions, 2);
}

#[test]
fn required_flag_uses_low_level_registration() {
    let built = options_from_text(r#"-v + "verbose""#).ok().unwrap();
    let mut direct = Options::new();
    direct.opt("v", "", "verbose", "", getopts::HasArg::No, getopts::Occur::Req);
    assert_eq!(built, direct);
}

#[test]
fn long_name_words_are_joined() {
    let s = resolve_text(r#"--parse-config-file-now = F "x""#).ok().unwrap();
    match &s.name {
        OptionName::LongOnly(l) => assert_eq!(l, "parse-config-file-now"),
        _ => panic!("expected a long name"),
    }
    let s = resolve_text(r#"-I --ignore-partial "x""#).ok().unwrap();
    match &s.name {
        OptionName::ShortAndLong(a, l) => {
            assert_eq!(a, "I");
            assert_eq!(l, "ignore-partial");
        }
        _ => panic!("expected both names"),
    }
}

#[test]
fn description_alone_is_structural() {
    assert!(matches!(resolve_text(r#""only a description""#), Err(ErrorKind::StructuralError)));
    let r = compile(&tokenize(r#"-a "x"; "lonely";"#).unwrap());
    assert!(matches!(
        r,
        Err(CompileError { kind: ErrorKind::StructuralError, clause: 1 })
    ));
}

#[test]
fn missing_description_is_structural() {
    assert!(matches!(resolve_text("-a *"), Err(ErrorKind::StructuralError)));
    assert!(matches!(resolve_text(""), Err(ErrorKind::StructuralError)));
}

#[test]
fn unknown_modifier_is_malformed() {
    assert!(matches!(resolve_text(r#"-a % "x""#), Err(ErrorKind::MalformedModifier)));
    assert!(matches!(resolve_text(r#"--all = "x""#), Err(ErrorKind::MalformedModifier)));
    assert!(matches!(resolve_text(r#"-a * * "x""#), Err(ErrorKind::MalformedModifier)));
}

#[test]
fn bad_names_are_malformed() {
    assert!(matches!(resolve_text(r#"-ab "x""#), Err(ErrorKind::MalformedOptionName)));
    assert!(matches!(resolve_text(r#"a "x""#), Err(ErrorKind::MalformedOptionName)));
    assert!(matches!(resolve_text(r#"-a, * "x""#), Err(ErrorKind::MalformedOptionName)));
}

#[test]
fn compile_error_names_the_clause_and_registers_nothing() {
    let r = options_from_text(r#"-a "x"; -b "y"; -c % "z"; -d "w""#);
    assert!(matches!(
        r,
        Err(BuildError::Compile(CompileError { kind: ErrorKind::MalformedModifier, clause: 2 }))
    ));
}

#[test]
fn directive_is_passed_through() {
    let toks = tokenize(".long_only( true );").unwrap();
    let clauses = compile(&toks).ok().unwrap();
    assert_eq!(clauses.len(), 1);
    match &clauses[0] {
        Clause::Directive(e) => {
            assert_eq!(e.len(), 4);
            assert!(matches!(&e[0], Token::Ident(w) if w == "long_only"));
            assert!(matches!(&e[2], Token::Ident(w) if w == "true"));
            assert_eq!(directive_of(e), Some(DirectiveEffect::LongOnly(true)));
        }
        _ => panic!("expected a directive"),
    }
    let mut direct = Options::new();
    direct.long_only(true);
    assert_eq!(options_from_text(".long_only(true)").ok().unwrap(), direct);
}

#[test]
fn parsing_style_directive_applies() {
    let mut direct = Options::new();
    direct.optflag("a", "", "x");
    direct.parsing_style(getopts::ParsingStyle::StopAtFirstFree);
    let built = options_from_text(r#"-a "x"; .parsing_style(ParsingStyle::StopAtFirstFree)"#);
    assert_eq!(built.ok().unwrap(), direct);
}

#[test]
fn unknown_directive_is_rejected_after_earlier_clauses() {
    let r = options_from_text(r#"-a "x"; .frobnicate(); -b "y""#);
    assert!(matches!(r, Err(BuildError::Registry(RegistryRejection { clause: 1 }))));
}

#[test]
fn one_character_long_name_is_rejected_by_registry() {
    let r = options_from_text(r#"--x "x""#);
    assert!(matches!(r, Err(BuildError::Registry(RegistryRejection { clause: 0 }))));
}

#[test]
fn unclosed_quote() {
    assert!(tokenize(r#"-a "x"#).is_none());
    assert!(matches!(options_from_text(r#"-a "x"#), Err(BuildError::UnclosedText)));
}

#[test]
fn tokens_of_a_clause() {
    let t = tokenize(r#"-h,--help* "d e""#).unwrap();
    assert_eq!(t.len(), 8);
    assert!(matches!(&t[0], Token::Punct('-')));
    assert!(matches!(&t[1], Token::Ident(w) if w == "h"));
    assert!(matches!(&t[2], Token::Punct(',')));
    assert!(matches!(&t[3], Token::Punct('-')));
    assert!(matches!(&t[4], Token::Punct('-')));
    assert!(matches!(&t[5], Token::Ident(w) if w == "help"));
    assert!(matches!(&t[6], Token::Punct('*')));
    assert!(matches!(&t[7], Token::Text(d) if d == "d e"));
}

#[test]
fn same_text_builds_same_registry() {
    let text = r#"-f --file=FILE "input"; -p --parse-config*=CONFIG "parse"; --help-long* "help""#;
    let a = options_from_text(text).ok().unwrap();
    let b = options_from_text(text).ok().unwrap();
    assert_eq!(a, b);
    let again = build_options(&tokenize(text).unwrap()).ok().unwrap();
    assert_eq!(a, again);
}

#[test]
fn trailing_semicolon_makes_no_clause() {
    assert_eq!(compile(&tokenize(r#"-a "x";"#).unwrap()).ok().unwrap().len(), 1);
    assert_eq!(compile(&tokenize("").unwrap()).ok().unwrap().len(), 0);
    assert!(matches!(
        compile(&tokenize(r#"-a "x";;"#).unwrap()),
        Err(CompileError { kind: ErrorKind::StructuralError, clause: 1 })
    ));
}

#[test]
fn extension_trait_registers_groups() {
    let mut a = Options::new();
    a.optflagreqopt("r", "req", "d", "H").optflagmultiopt("m", "multi", "d", "H");
    let mut b = Options::new();
    b.opt("r", "req", "d", "H", getopts::HasArg::Maybe, getopts::Occur::Req);
    b.opt("m", "multi", "d", "H", getopts::HasArg::Maybe, getopts::Occur::Multi);
    assert_eq!(a, b);
}
