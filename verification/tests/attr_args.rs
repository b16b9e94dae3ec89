use quasar::attr_args::{
    parse_max_args, parse_max_attr, parse_max_attr_from_program_arg, program_args, ArgError,
    ArgToken, AttrModel,
};

fn lit_int(d: &str) -> ArgToken {
    ArgToken::Int(d.to_string())
}

fn ident(s: &str) -> ArgToken {
    ArgToken::Ident(s.to_string())
}

fn attr(path: &[&str], args: Vec<ArgToken>) -> AttrModel {
    AttrModel { path: path.iter().map(|s| s.to_string()).collect(), args }
}

#[test]
fn max_takes_a_length_and_an_optional_prefix() {
    assert_eq!(parse_max_args(&vec![lit_int("32")]), Ok((32, 0)));
    assert_eq!(
        parse_max_args(&vec![lit_int("64"), ArgToken::Comma, ident("pfx"), ArgToken::Eq, lit_int("2")]),
        Ok((64, 2))
    );
}

#[test]
fn max_rejects_other_keys_and_shapes() {
    assert_eq!(
        parse_max_args(&vec![lit_int("8"), ArgToken::Comma, ident("len"), ArgToken::Eq, lit_int("1")]),
        Err(ArgError::ExpectedPfx)
    );
    assert_eq!(parse_max_args(&Vec::new()), Err(ArgError::Syntax));
    assert_eq!(parse_max_args(&vec![ident("n")]), Err(ArgError::Syntax));
    assert_eq!(parse_max_args(&vec![lit_int("8"), ArgToken::Eq]), Err(ArgError::Syntax));
    assert_eq!(parse_max_args(&vec![lit_int("8"), ArgToken::Comma]), Err(ArgError::Syntax));
    assert_eq!(
        parse_max_args(&vec![lit_int("8"), ArgToken::Comma, ident("pfx"), lit_int("2")]),
        Err(ArgError::Syntax)
    );
    assert_eq!(
        parse_max_args(&vec![
            lit_int("8"),
            ArgToken::Comma,
            ident("pfx"),
            ArgToken::Eq,
            lit_int("2"),
            ArgToken::Comma
        ]),
        Err(ArgError::Syntax)
    );
    assert_eq!(parse_max_args(&vec![lit_int("18446744073709551616")]), Err(ArgError::Syntax));
    assert_eq!(ArgError::ExpectedPfx.message(), Some("expected `pfx`"));
    assert_eq!(ArgError::Syntax.message(), None);
}

#[test]
fn the_first_max_attribute_decides() {
    let attrs = vec![
        attr(&["doc"], vec![ArgToken::Other("#".to_string())]),
        attr(&["max"], vec![lit_int("10")]),
        attr(&["max"], vec![lit_int("20")]),
    ];
    assert_eq!(parse_max_attr(&attrs), Some(Ok((10, 0))));
    assert_eq!(parse_max_attr(&vec![attr(&["serde", "max"], vec![lit_int("1")])]), None);
    assert_eq!(parse_max_attr(&Vec::new()), None);
    let bad = vec![attr(&["max"], vec![ident("x")]), attr(&["max"], vec![lit_int("5")])];
    assert_eq!(parse_max_attr(&bad), Some(Err(ArgError::Syntax)));
    assert_eq!(parse_max_attr_from_program_arg(&bad), None);
    assert_eq!(parse_max_attr_from_program_arg(&attrs), Some((10, 0)));
}

#[test]
fn program_accepts_only_no_entrypoint() {
    assert_eq!(program_args(&Vec::new()), Ok(false));
    assert_eq!(program_args(&vec![ident("no_entrypoint")]), Ok(true));
    assert_eq!(program_args(&vec![ident("no_entrypoint"), ArgToken::Comma]), Ok(true));
    assert_eq!(program_args(&vec![ident("no_entrypoint"), ident("no_entrypoint")]), Ok(true));
    assert_eq!(program_args(&vec![ident("entry")]), Err(ArgError::ExpectedNoEntrypoint));
    assert_eq!(
        program_args(&vec![ident("no_entrypoint"), ArgToken::Comma, ident("x")]),
        Err(ArgError::ExpectedNoEntrypoint)
    );
    assert_eq!(program_args(&vec![ArgToken::Comma]), Err(ArgError::Syntax));
    assert_eq!(ArgError::ExpectedNoEntrypoint.message(), Some("expected `no_entrypoint`"));
}
