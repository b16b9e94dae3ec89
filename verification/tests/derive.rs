use quasar::accounts::client::{client_account_flags, is_signer_type};
use quasar::accounts::header::HeaderPlan;
use quasar::accounts::model::{
    contains_name, BehaviorArg, BehaviorGroup, FieldCore, FieldKind, FieldSemantics,
    InitDirective, TypeModel, TypeSegment, ValueExpr,
};
use quasar::accounts::planner::{
    build_plan, classify_value, compute_rent_plan, find_payer_field, lower_behavior_call,
    plan_field, resolve_field_payer, BehaviorPhase, EpilogueStep, InitPlan, LoweredValue,
    PostLoadStep, PreLoadStep, RentPlan, ValueKind,
};
use quasar::accounts::rules::{
    collect_field_names, is_valid_behavior_arg, validate_behavior_arg,
    validate_behavior_field_refs, validate_field, validate_semantics, validate_single_arg,
    FieldRule, PayerNeed, ResolveError,
};

fn path(segs: &[&str]) -> ValueExpr {
    ValueExpr::Path { qself: false, segments: segs.iter().map(|s| s.to_string()).collect() }
}

fn call(func: &str, args: Vec<ValueExpr>) -> ValueExpr {
    ValueExpr::Call { func: Box::new(path(&[func])), args }
}

fn lit(text: &str) -> ValueExpr {
    ValueExpr::Lit { text: text.to_string() }
}

fn ty(name: &str, args: Vec<TypeModel>) -> TypeModel {
    TypeModel::Path { segments: vec![TypeSegment { ident: name.to_string(), args }] }
}

fn field(name: &str, effective_ty: TypeModel) -> FieldSemantics {
    FieldSemantics {
        core: FieldCore {
            ident: name.to_string(),
            kind: FieldKind::Single,
            effective_ty,
            optional: false,
            is_mut: false,
            dup: false,
            has_doc: false,
        },
        init: None,
        payer: None,
        address: None,
        realloc: None,
        close_dest: None,
        groups: Vec::new(),
        is_migration: false,
    }
}

fn account(name: &str) -> FieldSemantics {
    field(name, ty("Account", vec![ty("Vault", vec![])]))
}

fn group(path_segs: &[&str], args: Vec<(&str, ValueExpr)>) -> BehaviorGroup {
    BehaviorGroup {
        path: path_segs.iter().map(|s| s.to_string()).collect(),
        args: args.into_iter().map(|(k, v)| BehaviorArg { key: k.to_string(), value: v }).collect(),
    }
}

fn names(list: &[&str]) -> Vec<String> {
    list.iter().map(|s| s.to_string()).collect()
}

fn rule_of(r: Result<(), ResolveError>) -> Option<FieldRule> {
    match r {
        Err(ResolveError::Rule { rule, .. }) => Some(rule),
        _ => None,
    }
}

#[test]
fn init_without_mut_is_rejected() {
    let mut sem = account("vault");
    sem.init = Some(InitDirective { idempotent: false });
    let r = validate_field(&sem);
    assert!(rule_of(r) == Some(FieldRule::InitRequiresMut));
    let e = ResolveError::Rule { field: "vault".to_string(), rule: FieldRule::InitRequiresMut };
    assert_eq!(e.message(), "`init(...)` requires `mut`");
}

#[test]
fn init_with_realloc_is_rejected() {
    let mut sem = account("vault");
    sem.core.is_mut = true;
    sem.init = Some(InitDirective { idempotent: false });
    sem.realloc = Some(lit("100"));
    assert!(rule_of(validate_field(&sem)) == Some(FieldRule::InitWithRealloc));
}

#[test]
fn migration_rules_come_first() {
    let mut sem = field("config", ty("Migration", vec![ty("V1", vec![]), ty("V2", vec![])]));
    sem.is_migration = true;
    assert!(rule_of(validate_field(&sem)) == Some(FieldRule::MigrationRequiresMut));
    sem.core.is_mut = true;
    sem.core.optional = true;
    assert!(rule_of(validate_field(&sem)) == Some(FieldRule::MigrationNotOptional));
    sem.core.optional = false;
    sem.groups = vec![group(&["token"], vec![])];
    assert!(rule_of(validate_field(&sem)) == Some(FieldRule::MigrationWithBehavior));
    sem.groups = Vec::new();
    assert!(validate_field(&sem).is_ok());
}

#[test]
fn dup_fields_must_not_mutate_and_need_a_doc() {
    let mut sem = account("other");
    sem.core.dup = true;
    assert!(rule_of(validate_field(&sem)) == Some(FieldRule::DupWithoutDoc));
    sem.core.has_doc = true;
    assert!(validate_field(&sem).is_ok());
    sem.close_dest = Some("dest".to_string());
    assert!(rule_of(validate_field(&sem)) == Some(FieldRule::DupWithClose));
    let e = ResolveError::Rule { field: "other".to_string(), rule: FieldRule::DupWithClose };
    assert_eq!(
        e.message(),
        "`dup` cannot be used with `close` — mutation on aliased accounts is unsound"
    );
}

#[test]
fn optional_fields_take_no_realloc() {
    let mut sem = account("maybe");
    sem.core.is_mut = true;
    sem.core.optional = true;
    sem.realloc = Some(lit("8"));
    assert!(rule_of(validate_field(&sem)) == Some(FieldRule::OptionalRealloc));
}

#[test]
fn realloc_requires_mut() {
    let mut sem = account("vault");
    sem.realloc = Some(lit("8"));
    assert!(rule_of(validate_field(&sem)) == Some(FieldRule::ReallocRequiresMut));
}

#[test]
fn idempotent_init_needs_a_group_or_address() {
    let mut sem = account("vault");
    sem.core.is_mut = true;
    sem.init = Some(InitDirective { idempotent: true });
    assert!(rule_of(validate_field(&sem)) == Some(FieldRule::IdempotentInitWithoutTarget));
    sem.address = Some(path(&["VAULT"]));
    assert!(validate_field(&sem).is_ok());
}

#[test]
fn unknown_lowercase_field_ref_is_rejected() {
    let fields = names(&["payer", "mint"]);
    let key = "authority".to_string();
    let r = validate_single_arg(&path(&["owner"]), &key, &fields);
    match r {
        Err(e) => {
            assert!(matches!(&e, ResolveError::UnknownFieldRef { name, .. } if name == "owner"));
            assert_eq!(e.message(), "`authority = owner` — no field `owner` in this accounts struct");
        }
        Ok(()) => panic!("expected an unknown field error"),
    }
    assert!(validate_single_arg(&path(&["mint"]), &key, &fields).is_ok());
    assert!(validate_single_arg(&path(&["None"]), &key, &fields).is_ok());
    assert!(validate_single_arg(&path(&["true"]), &key, &fields).is_ok());
    assert!(validate_single_arg(&path(&["MAX_SIZE"]), &key, &fields).is_ok());
    assert!(validate_single_arg(&path(&["Élan"]), &key, &fields).is_ok());
    assert!(validate_single_arg(&path(&["crate", "owner"]), &key, &fields).is_ok());
    assert!(validate_single_arg(&lit("3"), &key, &fields).is_ok());
}

#[test]
fn some_wrapped_field_refs_are_checked_too() {
    let mut sem = account("vault");
    sem.groups = vec![group(&["token"], vec![("authority", call("Some", vec![path(&["owner"])]))])];
    let r = validate_behavior_field_refs(&sem, &names(&["vault"]));
    assert!(matches!(r, Err(ResolveError::UnknownFieldRef { ref name, .. }) if name == "owner"));
    assert!(validate_behavior_field_refs(&sem, &names(&["vault", "owner"])).is_ok());
}

#[test]
fn semantics_report_the_first_failing_field() {
    let mut first = account("a");
    first.groups = vec![group(&["token"], vec![("mint", path(&["nope"]))])];
    let mut second = account("b");
    second.init = Some(InitDirective { idempotent: false });
    let sems = vec![first, second];
    assert_eq!(collect_field_names(&sems), names(&["a", "b"]));
    let r = validate_semantics(&sems);
    assert!(matches!(r, Err(ResolveError::UnknownFieldRef { ref name, .. }) if name == "nope"));
    let ok = vec![account("a"), account("b")];
    assert!(validate_semantics(&ok).is_ok());
}

#[test]
fn behavior_arg_grammar() {
    assert!(is_valid_behavior_arg(&path(&["mint"])));
    assert!(is_valid_behavior_arg(&path(&["crate", "CONST"])));
    assert!(is_valid_behavior_arg(&lit("42")));
    assert!(is_valid_behavior_arg(&call("Some", vec![path(&["mint"])])));
    assert!(!is_valid_behavior_arg(&call("Some", vec![])));
    assert!(!is_valid_behavior_arg(&call("compute", vec![path(&["mint"])])));
    assert!(!is_valid_behavior_arg(&ValueExpr::Other));
    assert!(!is_valid_behavior_arg(&ValueExpr::Path { qself: true, segments: names(&["x"]) }));
    let key = "decimals".to_string();
    assert!(validate_behavior_arg(&key, &lit("6")).is_ok());
    match validate_behavior_arg(&key, &ValueExpr::Other) {
        Err(e) => {
            assert!(matches!(&e, ResolveError::InvalidBehaviorArg { key } if key == "decimals"));
            assert!(e.message().starts_with("behavior arg `decimals` has a value that is not valid"));
        }
        Ok(()) => panic!("expected an invalid arg error"),
    }
}

#[test]
fn values_are_classified_against_field_names() {
    let fields = names(&["mint", "maybe"]);
    let optional = names(&["maybe"]);
    assert!(classify_value(&path(&["mint"]), &fields, &optional) == ValueKind::BareFieldRef);
    assert!(classify_value(&path(&["maybe"]), &fields, &optional) == ValueKind::OptionalFieldRef);
    assert!(classify_value(&path(&["None"]), &fields, &optional) == ValueKind::NoneLiteral);
    assert!(classify_value(&path(&["DECIMALS"]), &fields, &optional) == ValueKind::Expr);
    assert!(classify_value(&lit("6"), &fields, &optional) == ValueKind::Expr);
    assert!(
        classify_value(&call("Some", vec![path(&["mint"])]), &fields, &optional)
            == ValueKind::SomeFieldRef
    );
    assert!(
        classify_value(&call("Some", vec![lit("1")]), &fields, &optional) == ValueKind::SomeExpr
    );
}

#[test]
fn behavior_calls_lower_each_arg() {
    let g = group(&["token"], vec![("mint", path(&["mint"])), ("decimals", lit("6"))]);
    let fields = names(&["mint"]);
    let c = lower_behavior_call(&g, BehaviorPhase::Check, &fields, &Vec::new());
    assert!(c.phase == BehaviorPhase::Check);
    assert_eq!(c.args.len(), 2);
    assert_eq!(c.args[0].key, "mint");
    assert!(matches!(c.args[0].lowered, LoweredValue::FieldView(n) if n == "mint"));
    assert!(matches!(c.args[1].lowered, LoweredValue::Expr(ValueExpr::Lit { .. })));
}

#[test]
fn group_name_is_last_path_segment() {
    assert_eq!(group(&["token"], vec![]).name(), "token");
    assert_eq!(group(&["spl", "token", "ata"], vec![]).name(), "ata");
    assert_eq!(group(&["a", "b", "token"], vec![]).name(), "token");
}

#[test]
fn payer_is_explicit_else_named_payer() {
    let sems = vec![account("vault"), field("payer", ty("Signer", vec![]))];
    let pf = find_payer_field(&sems);
    assert_eq!(pf.map(|s| s.as_str()), Some("payer"));
    let mut init = account("vault");
    init.init = Some(InitDirective { idempotent: false });
    assert_eq!(resolve_field_payer(&init, pf).map(|s| s.as_str()), Some("payer"));
    init.payer = Some("funder".to_string());
    assert_eq!(resolve_field_payer(&init, pf).map(|s| s.as_str()), Some("funder"));
    let plain = account("data");
    assert_eq!(resolve_field_payer(&plain, pf), None);
    assert_eq!(find_payer_field(&vec![account("vault")]), None);
}

#[test]
fn init_field_plans_address_check_then_init() {
    let mut sem = account("vault");
    sem.core.is_mut = true;
    sem.init = Some(InitDirective { idempotent: false });
    sem.address = Some(path(&["VAULT"]));
    let payer = "payer".to_string();
    let plan = plan_field(&sem, Some(&payer), &names(&["vault", "payer"]), &Vec::new());
    let plan = match plan {
        Ok(p) => p,
        Err(_) => panic!("init field with a payer plans"),
    };
    assert_eq!(plan.pre_load.len(), 2);
    assert!(matches!(plan.pre_load[0], PreLoadStep::VerifyAddress(_)));
    assert!(matches!(
        plan.pre_load[1],
        PreLoadStep::Init(InitPlan::Program { payer: p, idempotent: false, .. }) if p == "payer"
    ));
    assert!(plan.post_load.is_empty());
    assert!(plan.epilogue.is_empty());
}

#[test]
fn mutable_group_field_checks_updates_and_exits() {
    let mut sem = account("ata");
    sem.core.is_mut = true;
    sem.groups = vec![group(&["token"], vec![]), group(&["associated"], vec![])];
    sem.close_dest = Some("dest".to_string());
    let plan = match plan_field(&sem, None, &names(&["ata", "dest"]), &Vec::new()) {
        Ok(p) => p,
        Err(_) => panic!("no payer is needed"),
    };
    assert!(plan.pre_load.is_empty());
    let phases: Vec<(String, BehaviorPhase)> = plan
        .post_load
        .iter()
        .map(|s| match s {
            PostLoadStep::Behavior(c) => (c.group.name(), c.phase),
            _ => panic!("only behavior steps expected"),
        })
        .collect();
    assert_eq!(phases.len(), 4);
    assert!(phases[0].0 == "token" && phases[0].1 == BehaviorPhase::Check);
    assert!(phases[1].0 == "associated" && phases[1].1 == BehaviorPhase::Check);
    assert!(phases[2].0 == "token" && phases[2].1 == BehaviorPhase::Update);
    assert!(phases[3].0 == "associated" && phases[3].1 == BehaviorPhase::Update);
    assert_eq!(plan.epilogue.len(), 3);
    assert!(matches!(&plan.epilogue[0], EpilogueStep::Behavior(c) if c.phase == BehaviorPhase::Exit));
    assert!(matches!(&plan.epilogue[1], EpilogueStep::Behavior(c) if c.group.name() == "associated"));
    assert!(matches!(plan.epilogue[2], EpilogueStep::ProgramClose { destination_field: d } if d == "dest"));
}

#[test]
fn init_with_groups_runs_after_init_before_check() {
    let mut sem = account("ata");
    sem.core.is_mut = true;
    sem.init = Some(InitDirective { idempotent: true });
    sem.groups = vec![group(&["token"], vec![])];
    let payer = "payer".to_string();
    let plan = match plan_field(&sem, Some(&payer), &names(&["ata", "payer"]), &Vec::new()) {
        Ok(p) => p,
        Err(_) => panic!("payer resolves"),
    };
    assert!(matches!(
        &plan.pre_load[0],
        PreLoadStep::Init(InitPlan::Behavior { idempotent: true, init_param_calls, .. })
            if init_param_calls.len() == 1 && init_param_calls[0].phase == BehaviorPhase::SetInitParam
    ));
    assert!(matches!(&plan.post_load[0], PostLoadStep::Behavior(c) if c.phase == BehaviorPhase::AfterInit));
    assert!(matches!(&plan.post_load[1], PostLoadStep::Behavior(c) if c.phase == BehaviorPhase::Check));
    assert!(matches!(&plan.post_load[2], PostLoadStep::Behavior(c) if c.phase == BehaviorPhase::Update));
}

#[test]
fn migration_grows_then_normalizes_with_its_payer() {
    let mut sem = field("config", ty("Migration", vec![ty("V1", vec![]), ty("V2", vec![])]));
    sem.is_migration = true;
    sem.core.is_mut = true;
    let payer = "payer".to_string();
    let plan = match plan_field(&sem, Some(&payer), &names(&["config", "payer"]), &Vec::new()) {
        Ok(p) => p,
        Err(_) => panic!("payer resolves"),
    };
    assert!(matches!(plan.post_load[0], PostLoadStep::MigrationGrow { payer: p } if p == "payer"));
    assert!(matches!(
        plan.epilogue[0],
        EpilogueStep::MigrationVerifyAndNormalize { payer: p } if p == "payer"
    ));
}

#[test]
fn missing_payer_is_reported_per_need() {
    let mut sem = account("vault");
    sem.core.is_mut = true;
    sem.realloc = Some(lit("64"));
    match plan_field(&sem, None, &names(&["vault"]), &Vec::new()) {
        Err(e) => {
            assert!(matches!(&e, ResolveError::MissingPayer { need: PayerNeed::Realloc, field } if field == "vault"));
            assert_eq!(
                e.message(),
                "`realloc = ...` requires `payer = ...` (or add a field named `payer`)"
            );
        }
        Ok(_) => panic!("realloc without payer must fail"),
    }
    let mut init = account("vault");
    init.core.is_mut = true;
    init.init = Some(InitDirective { idempotent: false });
    let sems = vec![init];
    let r = build_plan(&sems);
    assert!(matches!(r, Err(ResolveError::MissingPayer { need: PayerNeed::Init, .. })));
}

#[test]
fn rent_comes_from_a_sysvar_field_when_present() {
    let rent_ty = ty("Sysvar", vec![ty("Rent", vec![])]);
    let mut init = account("vault");
    init.core.is_mut = true;
    init.init = Some(InitDirective { idempotent: false });
    let with_sysvar = vec![field("payer", ty("Signer", vec![])), init, field("rent", rent_ty)];
    assert!(matches!(compute_rent_plan(&with_sysvar), RentPlan::FromSysvarField { field } if field == "rent"));
    let mut init2 = account("vault");
    init2.core.is_mut = true;
    init2.init = Some(InitDirective { idempotent: false });
    let without = vec![field("payer", ty("Signer", vec![])), init2];
    assert!(matches!(compute_rent_plan(&without), RentPlan::FetchOnce));
    let none = vec![account("data")];
    assert!(matches!(compute_rent_plan(&none), RentPlan::NotNeeded));
}

#[test]
fn whole_struct_plan_has_one_plan_per_field() {
    let mut init = account("vault");
    init.core.is_mut = true;
    init.init = Some(InitDirective { idempotent: false });
    let mut payer = field("payer", ty("Signer", vec![]));
    payer.core.is_mut = true;
    let sems = vec![payer, init, account("data")];
    let plan = match build_plan(&sems) {
        Ok(p) => p,
        Err(_) => panic!("payer field resolves"),
    };
    assert_eq!(plan.fields.len(), 3);
    assert!(plan.fields[0].pre_load.is_empty());
    assert!(matches!(
        plan.fields[1].pre_load[0],
        PreLoadStep::Init(InitPlan::Program { payer: p, .. }) if p == "payer"
    ));
    assert!(matches!(plan.rent, RentPlan::FetchOnce));
}

#[test]
fn header_expectation_sets_flag_bytes() {
    let mut sem = account("vault");
    sem.core.is_mut = true;
    let h = HeaderPlan::from_semantics(&sem);
    assert!(h.writable && !h.optional && !h.allow_dup);
    assert_eq!(h.expected(true, false), 0x0001_01FF);
    assert_eq!(h.mask(true, false), 0x00FF_FFFF);
    assert_eq!(h.flag_mask(true, false), 0x00FF_FF00);
    let ro = HeaderPlan::from_semantics(&account("data"));
    assert_eq!(ro.expected(false, true), 0x0100_00FF);
    assert_eq!(ro.mask(false, true), 0xFF00_00FF);
    assert_eq!(ro.expected(false, false) & ro.mask(false, false), ro.expected(false, false));
}

#[test]
fn client_metas_follow_mut_init_and_signer() {
    assert!(is_signer_type(&ty("Signer", vec![])));
    assert!(!is_signer_type(&TypeModel::Other));
    let mut init = account("vault");
    init.core.is_mut = true;
    init.init = Some(InitDirective { idempotent: false });
    assert_eq!(client_account_flags(&init), (true, true));
    init.address = Some(path(&["VAULT"]));
    assert_eq!(client_account_flags(&init), (true, false));
    assert_eq!(client_account_flags(&field("payer", ty("Signer", vec![]))), (false, true));
    assert_eq!(client_account_flags(&account("data")), (false, false));
}

#[test]
fn name_lookup_is_exact() {
    let list = names(&["mint", "vault"]);
    assert!(contains_name(&list, "vault"));
    assert!(!contains_name(&list, "Vault"));
    assert!(!contains_name(&Vec::new(), "vault"));
}

use quasar::accounts::directives::{
    bare_directive, check_group_args, close_dest, group_kind, init_idempotent, key_value_directive,
    path_to_string, BareDirective, GroupKind, KeyValueKind,
};

#[test]
fn directive_names_and_forms() {
    assert_eq!(path_to_string(&names(&["spl", "token"])), "spl::token");
    assert_eq!(path_to_string(&names(&["token"])), "token");
    assert_eq!(key_value_directive("payer"), Ok(KeyValueKind::Payer));
    assert_eq!(key_value_directive("address"), Ok(KeyValueKind::Address));
    assert_eq!(key_value_directive("realloc"), Ok(KeyValueKind::Realloc));
    assert_eq!(
        key_value_directive("space"),
        Err("unknown key-value directive `space = ...`".to_string())
    );
    assert_eq!(group_kind("init"), GroupKind::Init);
    assert_eq!(group_kind("has_one"), GroupKind::HasOne);
    assert_eq!(group_kind("constraints"), GroupKind::Constraints);
    assert_eq!(group_kind("close"), GroupKind::Close);
    assert_eq!(group_kind("allow"), GroupKind::Allow);
    assert_eq!(group_kind("token"), GroupKind::Behavior);
    assert_eq!(bare_directive("init"), Ok(BareDirective::Init));
    assert_eq!(bare_directive("dup"), Ok(BareDirective::Dup));
    assert_eq!(
        bare_directive("token"),
        Err("unknown bare directive `token`; did you mean `token(...)`?".to_string())
    );
}

#[test]
fn init_flags() {
    assert_eq!(init_idempotent(None, false), Ok(false));
    assert_eq!(init_idempotent(Some("idempotent"), false), Ok(true));
    assert_eq!(
        init_idempotent(Some("idempotent"), true),
        Err("`init(idempotent)` does not accept additional arguments".to_string())
    );
    assert_eq!(
        init_idempotent(Some("lazy"), false),
        Err("unknown init flag `lazy`. Only `init` or `init(idempotent)` are valid.".to_string())
    );
}

#[test]
fn group_args_need_values_and_unique_keys() {
    let ok = vec![("mint".to_string(), true), ("authority".to_string(), true)];
    assert_eq!(check_group_args(&ok), Ok(()));
    let bare = vec![("mint".to_string(), true), ("frozen".to_string(), false)];
    assert_eq!(
        check_group_args(&bare),
        Err("behavior arg `frozen` requires a value: `frozen = ...`. Bare flags are not supported in behavior groups".to_string())
    );
    let dup = vec![("mint".to_string(), true), ("mint".to_string(), true), ("x".to_string(), false)];
    assert_eq!(
        check_group_args(&dup),
        Err("duplicate arg `mint` — each arg may only appear once".to_string())
    );
}

#[test]
fn close_needs_a_field_destination() {
    let arg = |k: &str, v: ValueExpr| BehaviorArg { key: k.to_string(), value: v };
    assert_eq!(close_dest(&vec![arg("dest", path(&["receiver"]))]), Ok("receiver".to_string()));
    assert_eq!(
        close_dest(&vec![arg("to", path(&["receiver"]))]),
        Err("`close(...)` requires `dest = field`".to_string())
    );
    assert_eq!(
        close_dest(&vec![arg("dest", path(&["a", "b"]))]),
        Err("`close(dest = ...)` must be a field name".to_string())
    );
    assert_eq!(
        close_dest(&vec![arg("dest", lit("1")), arg("dest", path(&["x"]))]),
        Err("`close(dest = ...)` must be a field name".to_string())
    );
}
