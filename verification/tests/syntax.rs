use quasar::accounts::lower::lower_field;
use quasar::accounts::model::{FieldKind, TypeModel, TypeSegment, ValueExpr};
use quasar::accounts::syntax::{parse_directive, parse_field_attrs, Directive, DirectiveError};
use quasar::attr_args::{ArgToken, Delim};
use quasar::seeds::{parse_seeds_args, SeedType, SeedsError};

fn id(s: &str) -> ArgToken {
    ArgToken::Ident(s.to_string())
}

fn kw(s: &str) -> ArgToken {
    ArgToken::Keyword(s.to_string())
}

fn paren(ts: Vec<ArgToken>) -> ArgToken {
    ArgToken::Group(Delim::Paren, ts)
}

fn num(d: &str) -> ArgToken {
    ArgToken::Int(d.to_string())
}

use ArgToken::{At, Colon, Comma, PathSep};

const EQ: ArgToken = ArgToken::Eq;

fn rule(r: Result<Vec<Directive>, DirectiveError>) -> String {
    match r {
        Err(DirectiveError::Rule(m)) => m,
        _ => panic!("expected a worded error"),
    }
}

fn is_path(e: &ValueExpr, segs: &[&str]) -> bool {
    match e {
        ValueExpr::Path { qself: false, segments } => {
            segments.len() == segs.len() && segments.iter().zip(segs).all(|(a, b)| a == b)
        }
        _ => false,
    }
}

#[test]
fn core_directives_parse() {
    let ts = vec![kw("mut"), Comma, id("init"), Comma, id("payer"), EQ, id("authority"), Comma];
    let ds = parse_field_attrs(&ts).unwrap();
    assert_eq!(ds.len(), 3);
    assert!(matches!(ds[0], Directive::Mut));
    assert!(matches!(ds[1], Directive::Init { idempotent: false }));
    assert!(matches!(&ds[2], Directive::Payer(p) if p == "authority"));
    assert!(parse_field_attrs(&Vec::new()).unwrap().is_empty());
    assert!(matches!(parse_field_attrs(&vec![id("dup")]).unwrap()[0], Directive::Dup));
}

#[test]
fn init_directive_flags() {
    let ok = parse_field_attrs(&vec![id("init"), paren(vec![id("idempotent")])]).unwrap();
    assert!(matches!(ok[0], Directive::Init { idempotent: true }));
    assert!(matches!(parse_field_attrs(&vec![id("init"), paren(vec![])]).unwrap()[0], Directive::Init { idempotent: false }));
    assert_eq!(
        rule(parse_field_attrs(&vec![id("init"), paren(vec![id("lazy")])])),
        "unknown init flag `lazy`. Only `init` or `init(idempotent)` are valid."
    );
    assert_eq!(
        rule(parse_field_attrs(&vec![id("init"), paren(vec![id("idempotent"), Comma, id("x")])])),
        "`init(idempotent)` does not accept additional arguments"
    );
}

#[test]
fn address_and_realloc_take_expressions() {
    let ts = vec![id("address"), EQ, id("CONFIG"), At, id("MyError"), PathSep, id("Bad")];
    match &parse_field_attrs(&ts).unwrap()[0] {
        Directive::Address(e, Some(err)) => {
            assert!(is_path(e, &["CONFIG"]));
            assert!(is_path(err, &["MyError", "Bad"]));
        }
        _ => panic!("expected an address"),
    }
    let ts = vec![id("realloc"), EQ, num("8"), ArgToken::Other("+".to_string()), id("len")];
    assert!(matches!(&parse_field_attrs(&ts).unwrap()[0], Directive::Realloc(ValueExpr::Other)));
    let ts = vec![id("realloc"), EQ, num("64")];
    assert!(matches!(&parse_field_attrs(&ts).unwrap()[0], Directive::Realloc(ValueExpr::Lit { text }) if text == "64"));
}

#[test]
fn behavior_groups_keep_path_and_args() {
    let ts = vec![
        id("spl"),
        PathSep,
        id("token"),
        paren(vec![
            id("mint"),
            EQ,
            id("mint"),
            Comma,
            id("authority"),
            EQ,
            id("Some"),
            paren(vec![id("owner")]),
        ]),
    ];
    match &parse_field_attrs(&ts).unwrap()[0] {
        Directive::Behavior(g) => {
            assert_eq!(g.path, vec!["spl".to_string(), "token".to_string()]);
            assert_eq!(g.args.len(), 2);
            assert!(g.args[0].key == "mint" && is_path(&g.args[0].value, &["mint"]));
            match &g.args[1].value {
                ValueExpr::Call { func, args } => {
                    assert!(is_path(func, &["Some"]));
                    assert!(args.len() == 1 && is_path(&args[0], &["owner"]));
                }
                _ => panic!("expected a call"),
            }
        }
        _ => panic!("expected a behavior group"),
    }
    assert_eq!(
        rule(parse_field_attrs(&vec![id("token"), paren(vec![id("mint")])])),
        "behavior arg `mint` requires a value: `mint = ...`. Bare flags are not supported in behavior groups"
    );
    assert_eq!(
        rule(parse_field_attrs(&vec![
            id("token"),
            paren(vec![id("a"), EQ, id("x"), Comma, id("a"), EQ, id("y")])
        ])),
        "duplicate arg `a` — each arg may only appear once"
    );
}

#[test]
fn close_directive_needs_a_field_destination() {
    let ok = parse_field_attrs(&vec![id("close"), paren(vec![id("dest"), EQ, id("receiver")])]).unwrap();
    assert!(matches!(&ok[0], Directive::Close(d) if d == "receiver"));
    assert_eq!(
        rule(parse_field_attrs(&vec![id("close"), paren(vec![id("to"), EQ, id("x")])])),
        "`close(...)` requires `dest = field`"
    );
    assert_eq!(
        rule(parse_field_attrs(&vec![id("close"), paren(vec![id("dest"), EQ, id("a"), PathSep, id("b")])])),
        "`close(dest = ...)` must be a field name"
    );
}

#[test]
fn checks_and_allow_lists() {
    let ts = vec![id("has_one"), paren(vec![id("authority"), Comma, id("mint")]), At, id("E")];
    match &parse_field_attrs(&ts).unwrap()[0] {
        Directive::HasOne(ids, Some(err)) => {
            assert_eq!(ids, &vec!["authority".to_string(), "mint".to_string()]);
            assert!(is_path(err, &["E"]));
        }
        _ => panic!("expected has_one"),
    }
    let ts = vec![id("constraints"), paren(vec![id("a"), ArgToken::Other(">".to_string()), num("0"), Comma, kw("true")])];
    match &parse_field_attrs(&ts).unwrap()[0] {
        Directive::Constraints(es, None) => {
            assert!(matches!(es[0], ValueExpr::Other));
            assert!(matches!(&es[1], ValueExpr::Lit { text } if text == "true"));
        }
        _ => panic!("expected constraints"),
    }
    let ts = vec![id("allow"), paren(vec![id("unconstrained")])];
    assert!(matches!(&parse_field_attrs(&ts).unwrap()[0], Directive::Allow(ids) if ids.len() == 1));
}

#[test]
fn unknown_names_and_bad_tokens() {
    assert_eq!(rule(parse_field_attrs(&vec![id("space"), EQ, num("8")])), "unknown key-value directive `space = ...`");
    assert_eq!(rule(parse_field_attrs(&vec![id("signer")])), "unknown bare directive `signer`; did you mean `signer(...)`?");
    assert!(matches!(parse_field_attrs(&vec![kw("mut"), kw("mut")]), Err(DirectiveError::Syntax)));
    assert!(matches!(parse_field_attrs(&vec![id("payer"), EQ, num("5")]), Err(DirectiveError::Syntax)));
    assert!(matches!(parse_field_attrs(&vec![Comma]), Err(DirectiveError::Syntax)));
    assert!(matches!(parse_directive(&vec![kw("mut")]), Ok(Directive::Mut)));
    assert!(matches!(parse_directive(&vec![kw("mut"), Comma]), Err(DirectiveError::Syntax)));
}

fn bytes(b: &[u8]) -> ArgToken {
    ArgToken::ByteStr { text: format!("b{:?}", String::from_utf8_lossy(b)), bytes: b.to_vec() }
}

#[test]
fn seeds_grammar() {
    let ts = vec![bytes(b"vault"), Comma, id("owner"), Colon, id("Address"), Comma, id("id"), Colon, id("u64"), Comma];
    let (prefix, params) = parse_seeds_args(&ts).unwrap();
    assert_eq!(prefix, b"vault".to_vec());
    assert_eq!(params, vec![("owner".to_string(), SeedType::Address), ("id".to_string(), SeedType::U64)]);
    let (prefix, params) = parse_seeds_args(&vec![bytes(b"p")]).unwrap();
    assert_eq!(prefix, b"p".to_vec());
    assert!(params.is_empty());
    match parse_seeds_args(&vec![bytes(b"p"), Comma, id("s"), Colon, id("String")]) {
        Err(SeedsError::UnsupportedType(m)) => {
            assert_eq!(m, "unsupported seed type; expected Address, u8, u16, u32, or u64")
        }
        _ => panic!("expected an unsupported type"),
    }
    assert!(matches!(parse_seeds_args(&vec![id("vault")]), Err(SeedsError::Syntax)));
    assert!(matches!(parse_seeds_args(&vec![bytes(b"p"), id("x")]), Err(SeedsError::Syntax)));
    assert!(matches!(parse_seeds_args(&vec![bytes(b"p"), Comma, id("x"), id("u8")]), Err(SeedsError::Syntax)));
}

fn account_ty(inner: &str) -> TypeModel {
    TypeModel::Path {
        segments: vec![TypeSegment {
            ident: "Account".to_string(),
            args: vec![TypeModel::Path { segments: vec![TypeSegment { ident: inner.to_string(), args: vec![] }] }],
        }],
    }
}

#[test]
fn lowering_fills_the_field_from_its_directives() {
    let ts = vec![
        kw("mut"),
        Comma,
        id("init"),
        Comma,
        id("payer"),
        EQ,
        id("authority"),
        Comma,
        id("token"),
        paren(vec![id("mint"), EQ, id("mint")]),
        Comma,
        id("init"),
        paren(vec![id("idempotent")]),
    ];
    let ds = parse_field_attrs(&ts).unwrap();
    let sem = lower_field("vault".to_string(), FieldKind::Single, account_ty("Vault"), false, false, ds);
    assert!(sem.core.is_mut && !sem.core.dup);
    assert!(matches!(sem.init, Some(i) if i.idempotent));
    assert_eq!(sem.payer.as_deref(), Some("authority"));
    assert_eq!(sem.groups.len(), 1);
    assert_eq!(sem.groups[0].name(), "token");
    assert!(!sem.is_migration);
    assert!(quasar::accounts::rules::validate_field(&sem).is_ok());
}

#[test]
fn migration_fields_are_always_mutable() {
    let leaf = |n: &str| TypeModel::Path { segments: vec![TypeSegment { ident: n.to_string(), args: vec![] }] };
    let ty = TypeModel::Path {
        segments: vec![TypeSegment { ident: "Migration".to_string(), args: vec![leaf("V1"), leaf("V2")] }],
    };
    let sem = lower_field("cfg".to_string(), FieldKind::Single, ty, false, false, Vec::new());
    assert!(sem.is_migration && sem.core.is_mut);
    let sem = lower_field("cfg".to_string(), FieldKind::Single, account_ty("V"), true, false, Vec::new());
    assert!(!sem.is_migration && !sem.core.is_mut && sem.core.optional);
}

#[test]
fn later_directives_replace_earlier_ones() {
    let ts = vec![id("payer"), EQ, id("a"), Comma, id("payer"), EQ, id("b"), Comma, id("dup")];
    let sem = lower_field(
        "x".to_string(),
        FieldKind::Single,
        account_ty("V"),
        false,
        true,
        parse_field_attrs(&ts).unwrap(),
    );
    assert_eq!(sem.payer.as_deref(), Some("b"));
    assert!(sem.core.dup && sem.core.has_doc);
}
