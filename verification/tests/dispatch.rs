use quasar::dispatch::{
    check_instructions, raw_dispatch, raw_table_slot, route_instruction, ContextParam,
    InstructionDecl, RawDispatch, Route,
};

fn decl(handler: &str, disc: Option<Vec<u8>>, raw: bool, context: ContextParam) -> InstructionDecl {
    InstructionDecl { handler: handler.to_string(), discriminator: disc, raw, context }
}

fn ok(handler: &str, disc: Vec<u8>) -> InstructionDecl {
    decl(handler, Some(disc), false, ContextParam::Ctx)
}

#[test]
fn checks_accept_distinct_discriminators() {
    let ds = vec![
        ok("initialize", vec![0]),
        decl("deposit", Some(vec![1]), false, ContextParam::CtxWithRemaining),
        decl("fast_path", Some(vec![2]), true, ContextParam::Missing),
    ];
    assert_eq!(check_instructions(&ds), Ok(1));
}

#[test]
fn checks_without_instructions_use_one_byte() {
    assert_eq!(check_instructions(&Vec::new()), Ok(1));
}

#[test]
fn checks_report_common_multi_byte_length() {
    let ds = vec![ok("a", vec![1, 2, 3, 4]), ok("b", vec![1, 2, 3, 5])];
    assert_eq!(check_instructions(&ds), Ok(4));
}

#[test]
fn checks_reject_missing_discriminator() {
    let ds = vec![ok("a", vec![0]), decl("b", None, false, ContextParam::Ctx)];
    assert_eq!(
        check_instructions(&ds),
        Err("#[program]: instruction requires `discriminator = [...]`".to_string())
    );
}

#[test]
fn checks_reject_length_mismatch() {
    let ds = vec![ok("a", vec![0]), ok("b", vec![1, 2])];
    assert_eq!(
        check_instructions(&ds),
        Err("all instruction discriminators must have the same length: expected 1 byte(s), found 2"
            .to_string())
    );
}

#[test]
fn checks_reject_duplicate_discriminator() {
    let ds = vec![ok("first", vec![7, 8]), ok("second", vec![1, 2]), ok("third", vec![7, 8])];
    assert_eq!(
        check_instructions(&ds),
        Err("duplicate discriminator [7, 8]: already used by `first`".to_string())
    );
}

#[test]
fn checks_reject_missing_context() {
    let ds = vec![decl("a", Some(vec![0]), false, ContextParam::Missing)];
    assert_eq!(
        check_instructions(&ds),
        Err("#[program]: instruction function must have ctx: Ctx<T> as first parameter".to_string())
    );
}

#[test]
fn checks_reject_wrong_context() {
    let ds = vec![decl("a", Some(vec![0]), false, ContextParam::Other)];
    assert_eq!(
        check_instructions(&ds),
        Err("first parameter must be Ctx<T> or CtxWithRemaining<T>".to_string())
    );
}

#[test]
fn raw_handlers_need_no_context() {
    let ds = vec![decl("a", Some(vec![0]), true, ContextParam::Other)];
    assert_eq!(check_instructions(&ds), Ok(1));
}

#[test]
fn checks_reject_reserved_event_byte() {
    let ds = vec![ok("a", vec![0]), ok("emit_like", vec![0xFF])];
    assert_eq!(
        check_instructions(&ds),
        Err("instruction `emit_like` has a discriminator starting with 0xFF which is reserved for events"
            .to_string())
    );
}

#[test]
fn earlier_errors_win_over_reserved_byte() {
    let ds = vec![ok("a", vec![0xFF]), decl("b", None, false, ContextParam::Ctx)];
    assert_eq!(
        check_instructions(&ds),
        Err("#[program]: instruction requires `discriminator = [...]`".to_string())
    );
}

#[test]
fn consecutive_raw_bytes_get_a_table() {
    match raw_dispatch(&vec![vec![3], vec![1], vec![2]], 1) {
        RawDispatch::Table { base, handlers } => {
            assert_eq!(base, 1);
            assert_eq!(handlers, vec![1, 2, 0]);
        }
        other => panic!("expected a table, got {:?}", other),
    }
}

#[test]
fn single_raw_instruction_gets_a_table() {
    match raw_dispatch(&vec![vec![9]], 1) {
        RawDispatch::Table { base, handlers } => {
            assert_eq!(base, 9);
            assert_eq!(handlers, vec![0]);
        }
        other => panic!("expected a table, got {:?}", other),
    }
}

#[test]
fn gaps_fall_back_to_a_match() {
    assert!(matches!(raw_dispatch(&vec![vec![1], vec![2], vec![5]], 1), RawDispatch::MatchChain));
}

#[test]
fn multi_byte_raw_discriminators_use_a_match() {
    assert!(matches!(raw_dispatch(&vec![vec![1, 0], vec![2, 0]], 2), RawDispatch::MatchChain));
}

#[test]
fn no_raw_instructions_need_no_dispatch() {
    assert!(matches!(raw_dispatch(&Vec::new(), 1), RawDispatch::NoRaw));
}

#[test]
fn table_slot_is_byte_minus_base() {
    assert_eq!(raw_table_slot(1, 3, 0), None);
    assert_eq!(raw_table_slot(1, 3, 1), Some(0));
    assert_eq!(raw_table_slot(1, 3, 3), Some(2));
    assert_eq!(raw_table_slot(1, 3, 4), None);
    assert_eq!(raw_table_slot(250, 6, 255), Some(5));
    assert_eq!(raw_table_slot(5, 2, 4), None);
}

#[test]
fn table_routes_each_byte_to_its_instruction() {
    let discs = vec![vec![12], vec![10], vec![11]];
    if let RawDispatch::Table { base, handlers } = raw_dispatch(&discs, 1) {
        for byte in 0u8..=255 {
            let expected = discs.iter().position(|d| d[0] == byte);
            let got = raw_table_slot(base, handlers.len(), byte).map(|k| handlers[k]);
            assert_eq!(got, expected);
        }
    } else {
        panic!("expected a table");
    }
}

fn raw(handler: &str, disc: Vec<u8>) -> InstructionDecl {
    decl(handler, Some(disc), true, ContextParam::Missing)
}

fn routed(ds: &Vec<InstructionDecl>, needs: bool, data: &[u8]) -> Route {
    let len = check_instructions(ds).expect("instructions pass the checks");
    route_instruction(ds, len, needs, &data.to_vec())
}

#[test]
fn routing_through_a_raw_table() {
    let ds = vec![ok("typed", vec![0]), raw("b", vec![1]), raw("c", vec![2])];
    assert_eq!(routed(&ds, false, &[1, 9]), Route::Raw(1));
    assert_eq!(routed(&ds, false, &[2]), Route::Raw(2));
    assert_eq!(routed(&ds, false, &[0, 5]), Route::Instruction(0));
    assert_eq!(routed(&ds, false, &[3]), Route::Invalid);
    assert_eq!(routed(&ds, false, &[]), Route::Invalid);
    assert_eq!(routed(&ds, false, &[0xFF, 1]), Route::Event);
}

#[test]
fn event_byte_needs_a_handler() {
    let ds = vec![ok("a", vec![0]), ok("b", vec![1])];
    assert_eq!(routed(&ds, false, &[0xFF]), Route::Invalid);
    assert_eq!(routed(&ds, true, &[0xFF]), Route::Event);
    assert_eq!(routed(&ds, true, &[1]), Route::Instruction(1));
}

#[test]
fn routing_multi_byte_discriminators() {
    let ds = vec![ok("a", vec![1, 2]), raw("b", vec![3, 4])];
    assert_eq!(routed(&ds, false, &[3, 4, 5]), Route::Raw(1));
    assert_eq!(routed(&ds, false, &[3]), Route::Invalid);
    assert_eq!(routed(&ds, false, &[1, 2]), Route::Instruction(0));
    assert_eq!(routed(&ds, false, &[1, 3]), Route::Invalid);
}

#[test]
fn routing_raw_instructions_with_gaps() {
    let ds = vec![raw("a", vec![1]), ok("b", vec![2]), raw("c", vec![3])];
    assert!(matches!(raw_dispatch(&vec![vec![1], vec![3]], 1), RawDispatch::MatchChain));
    assert_eq!(routed(&ds, false, &[3]), Route::Raw(2));
    assert_eq!(routed(&ds, false, &[1]), Route::Raw(0));
    assert_eq!(routed(&ds, false, &[2]), Route::Instruction(1));
}

#[test]
fn routing_without_instructions_rejects_everything() {
    let ds: Vec<InstructionDecl> = Vec::new();
    assert_eq!(routed(&ds, false, &[0]), Route::Invalid);
    assert_eq!(routed(&ds, false, &[0xFF]), Route::Invalid);
}

#[test]
fn every_byte_reaches_its_instruction() {
    let ds = vec![raw("r5", vec![5]), ok("t0", vec![0]), raw("r6", vec![6]), raw("r4", vec![4])];
    for byte in 0u8..=255 {
        let expected = if byte == 0xFF {
            Route::Event
        } else {
            match ds.iter().position(|d| d.discriminator == Some(vec![byte])) {
                Some(i) if ds[i].raw => Route::Raw(i),
                Some(i) => Route::Instruction(i),
                None => Route::Invalid,
            }
        };
        assert_eq!(routed(&ds, false, &[byte, 0, 0]), expected);
    }
}
