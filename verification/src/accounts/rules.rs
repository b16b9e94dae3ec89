//! Structural rules on a field's directives, and the check that behavior args which
//! look like field references name a field of the struct.

use vstd::prelude::*;
use crate::accounts::model::{
    bare_ident, contains_name, names_contain, some_call_arg, BehaviorArg, BehaviorGroup,
    FieldSemantics, ValueExpr,
};
use crate::text::{append_str, string_from};

verus! {

broadcast use vstd::string::group_string_axioms;

/// A structural rule that a field's directives break.
#[derive(Clone, Copy, PartialEq, Eq, Structural)]
pub enum FieldRule {
    MigrationRequiresMut,
    MigrationNotOptional,
    MigrationWithInit,
    MigrationWithRealloc,
    MigrationWithBehavior,
    InitRequiresMut,
    InitWithRealloc,
    DupWithInit,
    DupWithRealloc,
    DupWithClose,
    DupMutWithBehavior,
    DupWithoutDoc,
    OptionalInit,
    OptionalRealloc,
    ReallocRequiresMut,
    IdempotentInitWithoutTarget,
}

/// What a resolved payer is needed for.
#[derive(Clone, Copy, PartialEq, Eq, Structural)]
pub enum PayerNeed {
    Init,
    Realloc,
    Migration,
}

/// Why an accounts struct is rejected.
pub enum ResolveError {
    /// The field named `field` breaks `rule`.
    Rule { field: String, rule: FieldRule },
    /// The behavior arg `key = name` names no field of the struct.
    UnknownFieldRef { key: String, name: String },
    /// The field named `field` needs a payer and none can be resolved.
    MissingPayer { field: String, need: PayerNeed },
    /// The value of behavior arg `key` is not valid in every lifecycle phase.
    InvalidBehaviorArg { key: String },
}

/// The text of the error reported for `rule`.
pub open spec fn rule_message(rule: FieldRule) -> Seq<char> {
    match rule {
        FieldRule::MigrationRequiresMut => "`Migration<From, To>` requires `mut`"@,
        FieldRule::MigrationNotOptional =>
            "`Option<Migration<...>>` is not supported — migration fields cannot be optional"@,
        FieldRule::MigrationWithInit => "`init` cannot be used with `Migration<From, To>`"@,
        FieldRule::MigrationWithRealloc => "`realloc` cannot be used with `Migration<From, To>`"@,
        FieldRule::MigrationWithBehavior =>
            "behavior groups cannot be used with `Migration<From, To>` — migration and behavior exit both mutate the account during epilogue"@,
        FieldRule::InitRequiresMut => "`init(...)` requires `mut`"@,
        FieldRule::InitWithRealloc => "`realloc = ...` cannot be used with `init`"@,
        FieldRule::DupWithInit =>
            "`dup` cannot be used with `init` — mutation on aliased accounts is unsound"@,
        FieldRule::DupWithRealloc =>
            "`dup` cannot be used with `realloc` — mutation on aliased accounts is unsound"@,
        FieldRule::DupWithClose =>
            "`dup` cannot be used with `close` — mutation on aliased accounts is unsound"@,
        FieldRule::DupMutWithBehavior =>
            "`dup` with `mut` cannot have behavior groups — mutation on aliased accounts is unsound"@,
        FieldRule::DupWithoutDoc => "#[account(dup)] requires a /// CHECK: <reason> doc comment"@,
        FieldRule::OptionalInit => "init(...) cannot be used on Option<T> fields"@,
        FieldRule::OptionalRealloc => "`realloc = ...` cannot be used on Option<T> fields"@,
        FieldRule::ReallocRequiresMut => "`realloc = ...` requires `mut`"@,
        FieldRule::IdempotentInitWithoutTarget =>
            "`init(idempotent)` requires a behavior group (e.g., token(...)) or address constraint"@,
    }
}

/// The text of the error reported when no payer resolves for `need`.
pub open spec fn payer_message(need: PayerNeed) -> Seq<char> {
    match need {
        PayerNeed::Init => "init requires `payer = ...` (or add a field named `payer`)"@,
        PayerNeed::Realloc =>
            "`realloc = ...` requires `payer = ...` (or add a field named `payer`)"@,
        PayerNeed::Migration =>
            "`Migration<From, To>` requires `payer = ...` (or add a field named `payer`)"@,
    }
}

/// The text of the error reported for an invalid behavior arg value.
pub open spec fn invalid_arg_message(key: Seq<char>) -> Seq<char> {
    "behavior arg `"@ + key
        + "` has a value that is not valid in all lifecycle phases. Behavior args must be bare field idents, literals, const paths, `Some(field)`, or `None`. Move complex expressions to `constraints(...)` or handler code."@
}

/// The text of the error reported for a behavior arg naming no field.
pub open spec fn unknown_ref_message(key: Seq<char>, name: Seq<char>) -> Seq<char> {
    "`"@ + key + " = "@ + name + "` — no field `"@ + name + "` in this accounts struct"@
}

impl ResolveError {
    /// The error's text, as the compiler shows it.
    pub open spec fn spec_message(&self) -> Seq<char> {
        match self {
            ResolveError::Rule { field: _, rule } => rule_message(*rule),
            ResolveError::UnknownFieldRef { key, name } => unknown_ref_message(key@, name@),
            ResolveError::MissingPayer { field: _, need } => payer_message(*need),
            ResolveError::InvalidBehaviorArg { key } => invalid_arg_message(key@),
        }
    }

    /// The error's text, as the compiler shows it.
    pub fn message(&self) -> (r: String)
        ensures
            r@ == self.spec_message(),
    {
        match self {
            ResolveError::Rule { field: _, rule } => string_from(rule_text(*rule)),
            ResolveError::UnknownFieldRef { key, name } => {
                let mut s = string_from("`");
                append_str(&mut s, key.as_str());
                append_str(&mut s, " = ");
                append_str(&mut s, name.as_str());
                append_str(&mut s, "` — no field `");
                append_str(&mut s, name.as_str());
                append_str(&mut s, "` in this accounts struct");
                s
            },
            ResolveError::MissingPayer { field: _, need } => string_from(payer_text(*need)),
            ResolveError::InvalidBehaviorArg { key } => {
                let mut s = string_from("behavior arg `");
                append_str(&mut s, key.as_str());
                append_str(
                    &mut s,
                    "` has a value that is not valid in all lifecycle phases. Behavior args must be bare field idents, literals, const paths, `Some(field)`, or `None`. Move complex expressions to `constraints(...)` or handler code.",
                );
                s
            },
        }
    }
}

fn rule_text(rule: FieldRule) -> (r: &'static str)
    ensures
        r@ == rule_message(rule),
{
    match rule {
        FieldRule::MigrationRequiresMut => "`Migration<From, To>` requires `mut`",
        FieldRule::MigrationNotOptional =>
            "`Option<Migration<...>>` is not supported — migration fields cannot be optional",
        FieldRule::MigrationWithInit => "`init` cannot be used with `Migration<From, To>`",
        FieldRule::MigrationWithRealloc => "`realloc` cannot be used with `Migration<From, To>`",
        FieldRule::MigrationWithBehavior =>
            "behavior groups cannot be used with `Migration<From, To>` — migration and behavior exit both mutate the account during epilogue",
        FieldRule::InitRequiresMut => "`init(...)` requires `mut`",
        FieldRule::InitWithRealloc => "`realloc = ...` cannot be used with `init`",
        FieldRule::DupWithInit =>
            "`dup` cannot be used with `init` — mutation on aliased accounts is unsound",
        FieldRule::DupWithRealloc =>
            "`dup` cannot be used with `realloc` — mutation on aliased accounts is unsound",
        FieldRule::DupWithClose =>
            "`dup` cannot be used with `close` — mutation on aliased accounts is unsound",
        FieldRule::DupMutWithBehavior =>
            "`dup` with `mut` cannot have behavior groups — mutation on aliased accounts is unsound",
        FieldRule::DupWithoutDoc => "#[account(dup)] requires a /// CHECK: <reason> doc comment",
        FieldRule::OptionalInit => "init(...) cannot be used on Option<T> fields",
        FieldRule::OptionalRealloc => "`realloc = ...` cannot be used on Option<T> fields",
        FieldRule::ReallocRequiresMut => "`realloc = ...` requires `mut`",
        FieldRule::IdempotentInitWithoutTarget =>
            "`init(idempotent)` requires a behavior group (e.g., token(...)) or address constraint",
    }
}

fn payer_text(need: PayerNeed) -> (r: &'static str)
    ensures
        r@ == payer_message(need),
{
    match need {
        PayerNeed::Init => "init requires `payer = ...` (or add a field named `payer`)",
        PayerNeed::Realloc => "`realloc = ...` requires `payer = ...` (or add a field named `payer`)",
        PayerNeed::Migration =>
            "`Migration<From, To>` requires `payer = ...` (or add a field named `payer`)",
    }
}

/// The first structural rule, in the order they are checked, that the field breaks.
pub open spec fn field_violation(sem: FieldSemantics) -> Option<FieldRule> {
    let init = sem.init.is_some();
    let realloc = sem.realloc.is_some();
    let groups = sem.groups@.len() > 0;
    if sem.is_migration && !sem.core.is_mut {
        Some(FieldRule::MigrationRequiresMut)
    } else if sem.is_migration && sem.core.optional {
        Some(FieldRule::MigrationNotOptional)
    } else if sem.is_migration && init {
        Some(FieldRule::MigrationWithInit)
    } else if sem.is_migration && realloc {
        Some(FieldRule::MigrationWithRealloc)
    } else if sem.is_migration && groups {
        Some(FieldRule::MigrationWithBehavior)
    } else if init && !sem.core.is_mut {
        Some(FieldRule::InitRequiresMut)
    } else if init && realloc {
        Some(FieldRule::InitWithRealloc)
    } else if sem.core.dup && init {
        Some(FieldRule::DupWithInit)
    } else if sem.core.dup && realloc {
        Some(FieldRule::DupWithRealloc)
    } else if sem.core.dup && sem.close_dest.is_some() {
        Some(FieldRule::DupWithClose)
    } else if sem.core.dup && sem.core.is_mut && groups {
        Some(FieldRule::DupMutWithBehavior)
    } else if sem.core.dup && !sem.core.has_doc {
        Some(FieldRule::DupWithoutDoc)
    } else if sem.core.optional && init {
        Some(FieldRule::OptionalInit)
    } else if sem.core.optional && realloc {
        Some(FieldRule::OptionalRealloc)
    } else if realloc && !sem.core.is_mut {
        Some(FieldRule::ReallocRequiresMut)
    } else if init && sem.init.unwrap().idempotent && !groups && sem.address.is_none() {
        Some(FieldRule::IdempotentInitWithoutTarget)
    } else {
        None
    }
}

/// Check one field against the structural rules: migration exclusivity, `init` and
/// `realloc` need `mut` and exclude each other, `dup` excludes every mutation and needs a
/// doc comment, optional fields take neither `init` nor `realloc`, and `init(idempotent)`
/// needs a behavior group or an address constraint.
pub fn validate_field(sem: &FieldSemantics) -> (r: Result<(), ResolveError>)
    ensures
        match field_violation(*sem) {
            Some(rule) => r == Err::<(), ResolveError>(
                ResolveError::Rule { field: sem.core.ident, rule },
            ),
            None => r is Ok,
        },
{
    let init = sem.init.is_some();
    let realloc = sem.realloc.is_some();
    let groups = sem.groups.len() > 0;
    let rule = if sem.is_migration && !sem.core.is_mut {
        Some(FieldRule::MigrationRequiresMut)
    } else if sem.is_migration && sem.core.optional {
        Some(FieldRule::MigrationNotOptional)
    } else if sem.is_migration && init {
        Some(FieldRule::MigrationWithInit)
    } else if sem.is_migration && realloc {
        Some(FieldRule::MigrationWithRealloc)
    } else if sem.is_migration && groups {
        Some(FieldRule::MigrationWithBehavior)
    } else if init && !sem.core.is_mut {
        Some(FieldRule::InitRequiresMut)
    } else if init && realloc {
        Some(FieldRule::InitWithRealloc)
    } else if sem.core.dup && init {
        Some(FieldRule::DupWithInit)
    } else if sem.core.dup && realloc {
        Some(FieldRule::DupWithRealloc)
    } else if sem.core.dup && sem.close_dest.is_some() {
        Some(FieldRule::DupWithClose)
    } else if sem.core.dup && sem.core.is_mut && groups {
        Some(FieldRule::DupMutWithBehavior)
    } else if sem.core.dup && !sem.core.has_doc {
        Some(FieldRule::DupWithoutDoc)
    } else if sem.core.optional && init {
        Some(FieldRule::OptionalInit)
    } else if sem.core.optional && realloc {
        Some(FieldRule::OptionalRealloc)
    } else if realloc && !sem.core.is_mut {
        Some(FieldRule::ReallocRequiresMut)
    } else {
        match &sem.init {
            Some(d) => if d.idempotent && !groups && sem.address.is_none() {
                Some(FieldRule::IdempotentInitWithoutTarget)
            } else {
                None
            },
            None => None,
        }
    };
    match rule {
        Some(rule) => Err(ResolveError::Rule { field: sem.core.ident.clone(), rule }),
        None => Ok(()),
    }
}

/// `Unicode`'s uppercase property of a character (std's `char::is_uppercase`).
pub uninterp spec fn uppercase_char(c: char) -> bool;

/// `char::is_uppercase`: whether `c` has Unicode's uppercase property. The contract names
/// the result and states the ASCII cases (`A`..=`Z` are uppercase, no other ASCII
/// character is); the Unicode tables beyond ASCII are left unsaid.
#[verifier::external_body]
fn is_uppercase(c: char) -> (r: bool)
    ensures
        r == uppercase_char(c),
        ('A' <= c && c <= 'Z') ==> r,
        (c <= '\u{7f}' && !('A' <= c && c <= 'Z')) ==> !r,
{
    c.is_uppercase()
}

/// The error for a bare lowercase identifier that names no field (`None`, `true`, `false`
/// and identifiers starting with an uppercase letter are constants, not field refs).
pub open spec fn single_arg_error(
    value: ValueExpr,
    key: String,
    names: Seq<String>,
) -> Option<ResolveError> {
    match bare_ident(value) {
        Some(name) => if name@ == "None"@ || name@ == "true"@ || name@ == "false"@ {
            None
        } else if name@.len() > 0 && uppercase_char(name@[0]) {
            None
        } else if !names_contain(names, name@) {
            Some(ResolveError::UnknownFieldRef { key, name })
        } else {
            None
        },
        None => None,
    }
}

/// Reject a bare lowercase single-segment identifier that isn't a field name.
pub fn validate_single_arg(value: &ValueExpr, key: &String, field_names: &Vec<String>) -> (r:
    Result<(), ResolveError>)
    ensures
        match single_arg_error(*value, *key, field_names@) {
            Some(e) => r == Err::<(), ResolveError>(e),
            None => r is Ok,
        },
{
    match value {
        ValueExpr::Path { qself, segments } => {
            if *qself || segments.len() != 1 {
                return Ok(());
            }
            let name = &segments[0];
            if crate::text::str_eq(name.as_str(), "None") || crate::text::str_eq(
                name.as_str(),
                "true",
            ) || crate::text::str_eq(name.as_str(), "false") {
                return Ok(());
            }
            let chars = crate::text::chars_of(name.as_str());
            if chars.len() > 0 && is_uppercase(chars[0]) {
                return Ok(());
            }
            if !contains_name(field_names, name.as_str()) {
                return Err(ResolveError::UnknownFieldRef { key: key.clone(), name: name.clone() });
            }
            Ok(())
        },
        _ => Ok(()),
    }
}

/// The first field-reference error of one behavior arg: its value, then the argument of
/// `Some(..)` when the value is such a call.
pub open spec fn arg_ref_error(arg: BehaviorArg, names: Seq<String>) -> Option<ResolveError> {
    match single_arg_error(arg.value, arg.key, names) {
        Some(e) => Some(e),
        None => match some_call_arg(arg.value) {
            Some(inner) => single_arg_error(inner, arg.key, names),
            None => None,
        },
    }
}

/// The first field-reference error among `args`, in order.
pub open spec fn args_ref_error(args: Seq<BehaviorArg>, names: Seq<String>) -> Option<
    ResolveError,
>
    decreases args.len(),
{
    if args.len() == 0 {
        None
    } else {
        match arg_ref_error(args[0], names) {
            Some(e) => Some(e),
            None => args_ref_error(args.drop_first(), names),
        }
    }
}

/// The first field-reference error among the args of `groups`, in order.
pub open spec fn groups_ref_error(groups: Seq<BehaviorGroup>, names: Seq<String>) -> Option<
    ResolveError,
>
    decreases groups.len(),
{
    if groups.len() == 0 {
        None
    } else {
        match args_ref_error(groups[0].args@, names) {
            Some(e) => Some(e),
            None => groups_ref_error(groups.drop_first(), names),
        }
    }
}

fn validate_arg_refs(arg: &BehaviorArg, field_names: &Vec<String>) -> (r: Result<(), ResolveError>)
    ensures
        match arg_ref_error(*arg, field_names@) {
            Some(e) => r == Err::<(), ResolveError>(e),
            None => r is Ok,
        },
{
    validate_single_arg(&arg.value, &arg.key, field_names)?;
    match &arg.value {
        ValueExpr::Call { func, args } => {
            match &**func {
                ValueExpr::Path { qself: _, segments } => {
                    if segments.len() == 1 && crate::text::str_eq(segments[0].as_str(), "Some")
                        && args.len() == 1 {
                        return validate_single_arg(&args[0], &arg.key, field_names);
                    }
                },
                _ => {},
            }
            Ok(())
        },
        _ => Ok(()),
    }
}

/// Validate behavior arg values: reject single-segment lowercase identifiers that don't
/// match any field name (likely typos or instruction args), also inside `Some(..)`.
pub fn validate_behavior_field_refs(sem: &FieldSemantics, field_names: &Vec<String>) -> (r: Result<
    (),
    ResolveError,
>)
    ensures
        match groups_ref_error(sem.groups@, field_names@) {
            Some(e) => r == Err::<(), ResolveError>(e),
            None => r is Ok,
        },
{
    let ng = sem.groups.len();
    let mut g: usize = 0;
    assert(sem.groups@.skip(0) == sem.groups@);
    while g < ng
        invariant
            ng == sem.groups@.len(),
            g <= ng,
            groups_ref_error(sem.groups@, field_names@) == groups_ref_error(
                sem.groups@.skip(g as int),
                field_names@,
            ),
        decreases ng - g,
    {
        let group = &sem.groups[g];
        let na = group.args.len();
        let mut a: usize = 0;
        proof {
            assert(sem.groups@.skip(g as int)[0] == *group);
            assert(group.args@.skip(0) == group.args@);
        }
        while a < na
            invariant
                na == group.args@.len(),
                a <= na,
                g < ng,
                ng == sem.groups@.len(),
                *group == sem.groups@[g as int],
                sem.groups@.skip(g as int)[0] == *group,
                groups_ref_error(sem.groups@, field_names@) == groups_ref_error(
                    sem.groups@.skip(g as int),
                    field_names@,
                ),
                args_ref_error(group.args@, field_names@) == args_ref_error(
                    group.args@.skip(a as int),
                    field_names@,
                ),
            decreases na - a,
        {
            proof {
                assert(group.args@.skip(a as int)[0] == group.args@[a as int]);
                assert(group.args@.skip(a as int).drop_first() == group.args@.skip(a + 1));
            }
            validate_arg_refs(&group.args[a], field_names)?;
            a = a + 1;
        }
        proof {
            assert(sem.groups@.skip(g as int).drop_first() == sem.groups@.skip(g + 1));
        }
        g = g + 1;
    }
    Ok(())
}

/// The first error of one field: a broken structural rule, else a bad field reference.
pub open spec fn field_error(sem: FieldSemantics, names: Seq<String>) -> Option<ResolveError> {
    match field_violation(sem) {
        Some(rule) => Some(ResolveError::Rule { field: sem.core.ident, rule }),
        None => groups_ref_error(sem.groups@, names),
    }
}

/// The first error among `sems`, in field order.
pub open spec fn fields_error(sems: Seq<FieldSemantics>, names: Seq<String>) -> Option<
    ResolveError,
>
    decreases sems.len(),
{
    if sems.len() == 0 {
        None
    } else {
        match field_error(sems[0], names) {
            Some(e) => Some(e),
            None => fields_error(sems.drop_first(), names),
        }
    }
}

/// The field names of an accounts struct, in field order.
pub open spec fn field_names_of(sems: Seq<FieldSemantics>) -> Seq<String> {
    sems.map_values(|s: FieldSemantics| s.core.ident)
}

/// The names of all fields, in order.
pub fn collect_field_names(semantics: &Vec<FieldSemantics>) -> (r: Vec<String>)
    ensures
        r@ == field_names_of(semantics@),
{
    let mut names: Vec<String> = Vec::new();
    let n = semantics.len();
    let mut i: usize = 0;
    while i < n
        invariant
            n == semantics@.len(),
            i <= n,
            names@ == field_names_of(semantics@).take(i as int),
        decreases n - i,
    {
        names.push(semantics[i].core.ident.clone());
        assert(field_names_of(semantics@).take(i + 1) == field_names_of(semantics@).take(
            i as int,
        ).push(semantics@[i as int].core.ident));
        i = i + 1;
    }
    assert(field_names_of(semantics@).take(n as int) == field_names_of(semantics@));
    names
}

/// Validate every field of an accounts struct, in order: the structural rules first,
/// then the field references in its behavior args. The first error found is returned.
pub fn validate_semantics(semantics: &Vec<FieldSemantics>) -> (r: Result<(), ResolveError>)
    ensures
        match fields_error(semantics@, field_names_of(semantics@)) {
            Some(e) => r == Err::<(), ResolveError>(e),
            None => r is Ok,
        },
{
    let field_names = collect_field_names(semantics);
    let n = semantics.len();
    let mut i: usize = 0;
    assert(semantics@.skip(0) == semantics@);
    while i < n
        invariant
            n == semantics@.len(),
            i <= n,
            field_names@ == field_names_of(semantics@),
            fields_error(semantics@, field_names@) == fields_error(
                semantics@.skip(i as int),
                field_names@,
            ),
        decreases n - i,
    {
        proof {
            assert(semantics@.skip(i as int)[0] == semantics@[i as int]);
            assert(semantics@.skip(i as int).drop_first() == semantics@.skip(i + 1));
        }
        validate_field(&semantics[i])?;
        validate_behavior_field_refs(&semantics[i], &field_names)?;
        i = i + 1;
    }
    Ok(())
}

/// The value conforms to the behavior-arg grammar: a path without qualified self (bare
/// field ident, const or type path), a literal, or `Some(v)` with a single valid `v`.
pub open spec fn is_valid_arg(value: ValueExpr) -> bool
    decreases value,
{
    match value {
        ValueExpr::Path { qself, segments: _ } => !qself,
        ValueExpr::Lit { text: _ } => true,
        ValueExpr::Call { func, args } => match *func {
            ValueExpr::Path { qself, segments } => if !qself && segments@.len() == 1
                && segments@[0]@ == "Some"@ {
                args@.len() == 1 && is_valid_arg(args@[0])
            } else {
                false
            },
            _ => false,
        },
        ValueExpr::Other => false,
    }
}

/// Check if an expression conforms to the behavior arg grammar.
pub fn is_valid_behavior_arg(value: &ValueExpr) -> (r: bool)
    ensures
        r == is_valid_arg(*value),
    decreases value,
{
    match value {
        ValueExpr::Path { qself, segments: _ } => !*qself,
        ValueExpr::Lit { text: _ } => true,
        ValueExpr::Call { func, args } => {
            match &**func {
                ValueExpr::Path { qself, segments } => {
                    if !*qself && segments.len() == 1 && crate::text::str_eq(
                        segments[0].as_str(),
                        "Some",
                    ) {
                        if args.len() != 1 {
                            return false;
                        }
                        proof {
                            vstd::std_specs::vec::axiom_vec_index_decreases(*args, 0);
                        }
                        is_valid_behavior_arg(&args[0])
                    } else {
                        false
                    }
                },
                _ => false,
            }
        },
        ValueExpr::Other => false,
    }
}

/// Validate that a behavior arg value is valid in every lifecycle phase: bare field
/// idents, literals, const paths, `Some(valid)` and `None` are; method calls, field
/// paths, casts and arithmetic are not.
pub fn validate_behavior_arg(key: &String, value: &ValueExpr) -> (r: Result<(), ResolveError>)
    ensures
        is_valid_arg(*value) ==> r is Ok,
        !is_valid_arg(*value) ==> r == Err::<(), ResolveError>(
            ResolveError::InvalidBehaviorArg { key: *key },
        ),
{
    if is_valid_behavior_arg(value) {
        Ok(())
    } else {
        Err(ResolveError::InvalidBehaviorArg { key: key.clone() })
    }
}

} // verus!
