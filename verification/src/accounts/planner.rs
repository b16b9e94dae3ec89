//! Phase scheduling: from the fields' semantics to a phase-ordered plan of the steps that
//! run before load, after load and in the epilogue of an instruction.

use vstd::prelude::*;
use crate::accounts::model::{
    bare_ident, contains_name, names_contain, some_call_arg, BehaviorGroup, FieldKind,
    FieldSemantics, TypeModel, ValueExpr,
};
use crate::accounts::rules::{collect_field_names, field_names_of, PayerNeed, ResolveError};

verus! {

broadcast use vstd::string::group_string_axioms;

/// How a behavior arg value is classified for lowering.
#[derive(Clone, Copy, PartialEq, Eq, Structural)]
pub enum ValueKind {
    /// A bare identifier naming a field.
    BareFieldRef,
    /// A bare identifier naming an optional field.
    OptionalFieldRef,
    /// Any other expression, passed through.
    Expr,
    /// The `None` literal.
    NoneLiteral,
    /// `Some(field)` where `field` names a field.
    SomeFieldRef,
    /// `Some(expr)` where `expr` does not name a field.
    SomeExpr,
}

/// A behavior lifecycle phase.
#[derive(Clone, Copy, PartialEq, Eq, Structural)]
pub enum BehaviorPhase {
    SetInitParam,
    AfterInit,
    Check,
    Update,
    Exit,
}

/// How a behavior arg value is lowered for code generation.
pub enum LoweredValue<'a> {
    /// `field.to_account_view()`.
    FieldView(&'a String),
    /// `field.as_ref().map(|v| v.to_account_view())`.
    OptionalFieldView(&'a String),
    /// The expression itself.
    Expr(&'a ValueExpr),
    /// `None`.
    NoneLiteral,
    /// `Some(field.to_account_view())`.
    SomeFieldView(&'a String),
    /// `Some(expr)`.
    SomeExpr(&'a ValueExpr),
}

/// A `key = value` pair with the value already lowered.
pub struct LoweredArg<'a> {
    pub key: &'a String,
    pub lowered: LoweredValue<'a>,
}

/// One behavior group called in one lifecycle phase.
pub struct BehaviorCall<'a> {
    pub group: &'a BehaviorGroup,
    pub args: Vec<LoweredArg<'a>>,
    pub phase: BehaviorPhase,
}

/// Plain program account init, or init delegated to behavior groups.
pub enum InitPlan<'a> {
    /// System program create with the space of the field's type.
    Program { payer: &'a String, space_from: &'a TypeModel, idempotent: bool },
    /// `set_init_param` on each behavior group, then the behavior's own init.
    Behavior {
        payer: &'a String,
        idempotent: bool,
        init_param_calls: Vec<BehaviorCall<'a>>,
    },
}

/// A step that runs before the account is loaded.
pub enum PreLoadStep<'a> {
    VerifyAddress(&'a ValueExpr),
    Init(InitPlan<'a>),
}

/// A step that runs after the account is loaded.
pub enum PostLoadStep<'a> {
    Behavior(BehaviorCall<'a>),
    VerifyExistingAddress(&'a ValueExpr),
    Realloc { new_space: &'a ValueExpr, payer: &'a String },
    MigrationGrow { payer: &'a String },
}

/// A step that runs in the epilogue.
pub enum EpilogueStep<'a> {
    Behavior(BehaviorCall<'a>),
    ProgramClose { destination_field: &'a String },
    MigrationVerifyAndNormalize { payer: &'a String },
}

/// The phase-ordered steps of one field.
pub struct FieldPlan<'a> {
    pub pre_load: Vec<PreLoadStep<'a>>,
    pub post_load: Vec<PostLoadStep<'a>>,
    pub epilogue: Vec<EpilogueStep<'a>>,
}

/// Where the instruction gets rent from.
pub enum RentPlan<'a> {
    /// No step needs rent.
    NotNeeded,
    /// Read it from this `Sysvar<Rent>` field.
    FromSysvarField { field: &'a String },
    /// Fetch it once by syscall.
    FetchOnce,
}

/// The plan of a whole accounts struct.
pub struct AccountsPlanTyped<'a> {
    pub fields: Vec<FieldPlan<'a>>,
    pub rent: RentPlan<'a>,
}

// ---------------------------------------------------------------------------
// Value classification and lowering
// ---------------------------------------------------------------------------

/// The classification of a behavior arg value against the struct's field names.
pub open spec fn value_kind(value: ValueExpr, names: Seq<String>, optional: Seq<String>) -> ValueKind {
    match bare_ident(value) {
        Some(name) => if name@ == "None"@ {
            ValueKind::NoneLiteral
        } else if names_contain(names, name@) {
            if names_contain(optional, name@) {
                ValueKind::OptionalFieldRef
            } else {
                ValueKind::BareFieldRef
            }
        } else {
            ValueKind::Expr
        },
        None => match some_call_arg(value) {
            Some(inner) => match bare_ident(inner) {
                Some(name) => if names_contain(names, name@) {
                    ValueKind::SomeFieldRef
                } else {
                    ValueKind::SomeExpr
                },
                None => ValueKind::SomeExpr,
            },
            None => ValueKind::Expr,
        },
    }
}

/// `lowered` is the lowering of `value` under its classification.
pub open spec fn lowered_from<'a>(
    lowered: LoweredValue<'a>,
    value: ValueExpr,
    names: Seq<String>,
    optional: Seq<String>,
) -> bool {
    match value_kind(value, names, optional) {
        ValueKind::BareFieldRef => lowered matches LoweredValue::FieldView(r) && Some(*r)
            == bare_ident(value),
        ValueKind::OptionalFieldRef => lowered matches LoweredValue::OptionalFieldView(r) && Some(
            *r,
        ) == bare_ident(value),
        ValueKind::Expr => lowered matches LoweredValue::Expr(e) && *e == value,
        ValueKind::NoneLiteral => lowered is NoneLiteral,
        ValueKind::SomeFieldRef => lowered matches LoweredValue::SomeFieldView(r) && Some(*r)
            == bare_ident(some_call_arg(value).unwrap()),
        ValueKind::SomeExpr => lowered matches LoweredValue::SomeExpr(e) && Some(*e)
            == some_call_arg(value),
    }
}

/// Classify a behavior arg value: `None`, `Some(field)`, `Some(expr)`, a bare field
/// (optional or not), or a plain expression.
pub fn classify_value(value: &ValueExpr, field_names: &Vec<String>, optional_fields: &Vec<String>) -> (r:
    ValueKind)
    ensures
        r == value_kind(*value, field_names@, optional_fields@),
{
    match value {
        ValueExpr::Path { qself, segments } => {
            if !*qself && segments.len() == 1 {
                let name = &segments[0];
                if crate::text::str_eq(name.as_str(), "None") {
                    return ValueKind::NoneLiteral;
                }
                if contains_name(field_names, name.as_str()) {
                    if contains_name(optional_fields, name.as_str()) {
                        ValueKind::OptionalFieldRef
                    } else {
                        ValueKind::BareFieldRef
                    }
                } else {
                    ValueKind::Expr
                }
            } else {
                ValueKind::Expr
            }
        },
        ValueExpr::Call { func, args } => {
            match &**func {
                ValueExpr::Path { qself: _, segments } => {
                    if segments.len() == 1 && crate::text::str_eq(segments[0].as_str(), "Some")
                        && args.len() == 1 {
                        match &args[0] {
                            ValueExpr::Path { qself, segments } => {
                                if !*qself && segments.len() == 1 && contains_name(
                                    field_names,
                                    segments[0].as_str(),
                                ) {
                                    ValueKind::SomeFieldRef
                                } else {
                                    ValueKind::SomeExpr
                                }
                            },
                            _ => ValueKind::SomeExpr,
                        }
                    } else {
                        ValueKind::Expr
                    }
                },
                _ => ValueKind::Expr,
            }
        },
        _ => ValueKind::Expr,
    }
}

fn lower_value<'a>(value: &'a ValueExpr, field_names: &Vec<String>, optional_fields: &Vec<String>) -> (r:
    LoweredValue<'a>)
    ensures
        lowered_from(r, *value, field_names@, optional_fields@),
{
    let kind = classify_value(value, field_names, optional_fields);
    match kind {
        ValueKind::BareFieldRef | ValueKind::OptionalFieldRef => {
            match value {
                ValueExpr::Path { qself: _, segments } => {
                    if kind == ValueKind::BareFieldRef {
                        LoweredValue::FieldView(&segments[0])
                    } else {
                        LoweredValue::OptionalFieldView(&segments[0])
                    }
                },
                _ => LoweredValue::Expr(value),
            }
        },
        ValueKind::Expr => LoweredValue::Expr(value),
        ValueKind::NoneLiteral => LoweredValue::NoneLiteral,
        ValueKind::SomeFieldRef | ValueKind::SomeExpr => {
            match value {
                ValueExpr::Call { func: _, args } => {
                    if kind == ValueKind::SomeExpr {
                        LoweredValue::SomeExpr(&args[0])
                    } else {
                        match &args[0] {
                            ValueExpr::Path { qself: _, segments } => LoweredValue::SomeFieldView(
                                &segments[0],
                            ),
                            _ => LoweredValue::Expr(value),
                        }
                    }
                },
                _ => LoweredValue::Expr(value),
            }
        },
    }
}

/// `call` is `group` called in `phase`, with every arg lowered in order.
pub open spec fn call_of<'a>(
    call: BehaviorCall<'a>,
    group: BehaviorGroup,
    phase: BehaviorPhase,
    names: Seq<String>,
    optional: Seq<String>,
) -> bool {
    &&& *call.group == group
    &&& call.phase == phase
    &&& call.args@.len() == group.args@.len()
    &&& forall|i: int|
        0 <= i < call.args@.len() ==> *(#[trigger] call.args@[i]).key == group.args@[i].key
            && lowered_from(call.args@[i].lowered, group.args@[i].value, names, optional)
}

/// Lower a behavior group directive into a call in `phase` with classified values.
pub fn lower_behavior_call<'a>(
    group: &'a BehaviorGroup,
    phase: BehaviorPhase,
    field_names: &Vec<String>,
    optional_fields: &Vec<String>,
) -> (r: BehaviorCall<'a>)
    ensures
        call_of(r, *group, phase, field_names@, optional_fields@),
{
    let mut args: Vec<LoweredArg<'a>> = Vec::new();
    let n = group.args.len();
    let mut i: usize = 0;
    while i < n
        invariant
            n == group.args@.len(),
            i <= n,
            args@.len() == i,
            forall|j: int|
                0 <= j < i ==> *(#[trigger] args@[j]).key == group.args@[j].key && lowered_from(
                    args@[j].lowered,
                    group.args@[j].value,
                    field_names@,
                    optional_fields@,
                ),
        decreases n - i,
    {
        let arg = &group.args[i];
        let lowered = lower_value(&arg.value, field_names, optional_fields);
        args.push(LoweredArg { key: &arg.key, lowered });
        i = i + 1;
    }
    BehaviorCall { group, args, phase }
}

// ---------------------------------------------------------------------------
// Payer resolution and rent
// ---------------------------------------------------------------------------

/// The struct-wide payer: the first single field named `payer`.
pub open spec fn payer_field_of(sems: Seq<FieldSemantics>) -> Option<String>
    decreases sems.len(),
{
    if sems.len() == 0 {
        None
    } else if sems[0].core.ident@ == "payer"@ && sems[0].core.kind == FieldKind::Single {
        Some(sems[0].core.ident)
    } else {
        payer_field_of(sems.drop_first())
    }
}

/// Find the struct-wide payer field (by name convention).
pub fn find_payer_field<'a>(semantics: &'a Vec<FieldSemantics>) -> (r: Option<&'a String>)
    ensures
        match r {
            Some(p) => payer_field_of(semantics@) == Some(*p),
            None => payer_field_of(semantics@) is None,
        },
{
    let n = semantics.len();
    let mut i: usize = 0;
    assert(semantics@.skip(0) == semantics@);
    while i < n
        invariant
            n == semantics@.len(),
            i <= n,
            payer_field_of(semantics@) == payer_field_of(semantics@.skip(i as int)),
        decreases n - i,
    {
        proof {
            assert(semantics@.skip(i as int)[0] == semantics@[i as int]);
            assert(semantics@.skip(i as int).drop_first() == semantics@.skip(i + 1));
        }
        let sem = &semantics[i];
        if crate::text::str_eq(sem.core.ident.as_str(), "payer") && sem.core.kind
            == FieldKind::Single {
            return Some(&sem.core.ident);
        }
        i = i + 1;
    }
    None
}

/// The field needs a payer: it is created, reallocated or migrated.
pub open spec fn needs_payer(sem: FieldSemantics) -> bool {
    sem.init.is_some() || sem.is_migration || sem.realloc.is_some()
}

/// The payer of a field: its explicit `payer = ..`, else the struct-wide payer when the
/// field needs one.
pub open spec fn resolved_payer(sem: FieldSemantics, payer_field: Option<String>) -> Option<String> {
    if sem.payer.is_some() {
        sem.payer
    } else if needs_payer(sem) {
        payer_field
    } else {
        None
    }
}

/// Resolve the payer of a field: explicit first, then inferred by name.
pub fn resolve_field_payer<'a>(sem: &'a FieldSemantics, payer_field: Option<&'a String>) -> (r:
    Option<&'a String>)
    ensures
        match r {
            Some(p) => resolved_payer(*sem, match payer_field {
                Some(q) => Some(*q),
                None => None,
            }) == Some(*p),
            None => resolved_payer(*sem, match payer_field {
                Some(q) => Some(*q),
                None => None,
            }) is None,
        },
{
    match &sem.payer {
        Some(p) => Some(p),
        None => {
            if sem.init.is_some() || sem.is_migration || sem.realloc.is_some() {
                payer_field
            } else {
                None
            }
        },
    }
}

/// The type is `..::Sysvar<.., ..::Rent, ..>`.
pub open spec fn is_rent_sysvar(ty: TypeModel) -> bool {
    match ty {
        TypeModel::Path { segments } => segments@.len() > 0 && segments@.last().ident@
            == "Sysvar"@ && exists|k: int|
            0 <= k < segments@.last().args@.len() && last_ident_is(
                #[trigger] segments@.last().args@[k],
                "Rent"@,
            ),
        TypeModel::Other => false,
    }
}

/// The type is a path whose last segment is `name`.
pub open spec fn last_ident_is(ty: TypeModel, name: Seq<char>) -> bool {
    match ty {
        TypeModel::Path { segments } => segments@.len() > 0 && segments@.last().ident@ == name,
        TypeModel::Other => false,
    }
}

fn type_last_ident_is(ty: &TypeModel, name: &str) -> (r: bool)
    ensures
        r == last_ident_is(*ty, name@),
{
    match ty {
        TypeModel::Path { segments } => segments.len() > 0 && crate::text::str_eq(
            segments[segments.len() - 1].ident.as_str(),
            name,
        ),
        TypeModel::Other => false,
    }
}

fn type_is_rent_sysvar(ty: &TypeModel) -> (r: bool)
    ensures
        r == is_rent_sysvar(*ty),
{
    match ty {
        TypeModel::Path { segments } => {
            if segments.len() == 0 {
                return false;
            }
            let last = &segments[segments.len() - 1];
            if !crate::text::str_eq(last.ident.as_str(), "Sysvar") {
                return false;
            }
            let n = last.args.len();
            let mut k: usize = 0;
            while k < n
                invariant
                    n == last.args@.len(),
                    k <= n,
                    segments@.len() > 0,
                    *last == segments@.last(),
                    *ty == (TypeModel::Path { segments: *segments }),
                    last.ident@ == "Sysvar"@,
                    forall|j: int| 0 <= j < k ==> !last_ident_is(#[trigger] last.args@[j], "Rent"@),
                decreases n - k,
            {
                if type_last_ident_is(&last.args[k], "Rent") {
                    assert(last_ident_is(last.args@[k as int], "Rent"@));
                    return true;
                }
                k = k + 1;
            }
            false
        },
        TypeModel::Other => false,
    }
}

/// Some field is created, reallocated or migrated.
pub open spec fn any_needs_rent(sems: Seq<FieldSemantics>) -> bool {
    exists|i: int| 0 <= i < sems.len() && needs_payer(#[trigger] sems[i])
}

/// The first non-optional `Sysvar<Rent>` field.
pub open spec fn rent_field_of(sems: Seq<FieldSemantics>) -> Option<String>
    decreases sems.len(),
{
    if sems.len() == 0 {
        None
    } else if !sems[0].core.optional && is_rent_sysvar(sems[0].core.effective_ty) {
        Some(sems[0].core.ident)
    } else {
        rent_field_of(sems.drop_first())
    }
}

/// `plan` is where the instruction gets rent from: nowhere when no field needs rent, else
/// the first non-optional `Sysvar<Rent>` field, else one syscall.
pub open spec fn rent_plan_of<'a>(plan: RentPlan<'a>, sems: Seq<FieldSemantics>) -> bool {
    if !any_needs_rent(sems) {
        plan is NotNeeded
    } else {
        match rent_field_of(sems) {
            Some(f) => plan matches RentPlan::FromSysvarField { field } && *field == f,
            None => plan is FetchOnce,
        }
    }
}

/// Decide where the instruction reads rent from.
pub fn compute_rent_plan<'a>(semantics: &'a Vec<FieldSemantics>) -> (r: RentPlan<'a>)
    ensures
        rent_plan_of(r, semantics@),
{
    let n = semantics.len();
    let mut needs_rent = false;
    let mut i: usize = 0;
    while i < n
        invariant
            n == semantics@.len(),
            i <= n,
            needs_rent == exists|j: int| 0 <= j < i && needs_payer(#[trigger] semantics@[j]),
        decreases n - i,
    {
        let sem = &semantics[i];
        if sem.init.is_some() || sem.realloc.is_some() || sem.is_migration {
            needs_rent = true;
        }
        i = i + 1;
    }
    if !needs_rent {
        return RentPlan::NotNeeded;
    }
    let mut i: usize = 0;
    assert(semantics@.skip(0) == semantics@);
    while i < n
        invariant
            n == semantics@.len(),
            i <= n,
            rent_field_of(semantics@) == rent_field_of(semantics@.skip(i as int)),
            any_needs_rent(semantics@),
        decreases n - i,
    {
        proof {
            assert(semantics@.skip(i as int)[0] == semantics@[i as int]);
            assert(semantics@.skip(i as int).drop_first() == semantics@.skip(i + 1));
        }
        let sem = &semantics[i];
        if !sem.core.optional && type_is_rent_sysvar(&sem.core.effective_ty) {
            return RentPlan::FromSysvarField { field: &sem.core.ident };
        }
        i = i + 1;
    }
    RentPlan::FetchOnce
}


// ---------------------------------------------------------------------------
// Per-field planning
// ---------------------------------------------------------------------------

/// What a step before load is, for stating the plan.
#[derive(Clone, Copy, PartialEq, Eq, Structural)]
pub enum PreLoadKind {
    VerifyAddress,
    Init,
}

/// What a step after load is, for stating the plan: a behavior call names the group by
/// its index.
#[derive(Clone, Copy, PartialEq, Eq, Structural)]
pub enum PostLoadKind {
    Behavior(usize, BehaviorPhase),
    VerifyExistingAddress,
    Realloc,
    MigrationGrow,
}

/// What an epilogue step is, for stating the plan: a behavior exit call names the group by
/// its index.
#[derive(Clone, Copy, PartialEq, Eq, Structural)]
pub enum EpilogueKind {
    BehaviorExit(usize),
    ProgramClose,
    MigrationVerifyAndNormalize,
}

/// Per group, in order: `after_init` (only for `init` fields), then `check`.
pub open spec fn check_kinds(n: nat, init: bool) -> Seq<PostLoadKind>
    decreases n,
{
    if n == 0 {
        seq![]
    } else {
        let g = (n - 1) as usize;
        check_kinds((n - 1) as nat, init) + if init {
            seq![
                PostLoadKind::Behavior(g, BehaviorPhase::AfterInit),
                PostLoadKind::Behavior(g, BehaviorPhase::Check),
            ]
        } else {
            seq![PostLoadKind::Behavior(g, BehaviorPhase::Check)]
        }
    }
}

/// Per group, in order: `update`.
pub open spec fn update_kinds(n: nat) -> Seq<PostLoadKind>
    decreases n,
{
    if n == 0 {
        seq![]
    } else {
        update_kinds((n - 1) as nat).push(
            PostLoadKind::Behavior((n - 1) as usize, BehaviorPhase::Update),
        )
    }
}

/// Per group, in order: `exit`.
pub open spec fn exit_kinds(n: nat) -> Seq<EpilogueKind>
    decreases n,
{
    if n == 0 {
        seq![]
    } else {
        exit_kinds((n - 1) as nat).push(EpilogueKind::BehaviorExit((n - 1) as usize))
    }
}

/// The steps before load: address verification then init, for `init` fields only.
pub open spec fn pre_load_kinds(sem: FieldSemantics) -> Seq<PreLoadKind> {
    let init = sem.init.is_some();
    (if init && sem.address.is_some() {
        seq![PreLoadKind::VerifyAddress]
    } else {
        seq![]
    }) + (if init {
        seq![PreLoadKind::Init]
    } else {
        seq![]
    })
}

/// The steps after load: behavior checks, realloc, migration grow, address verification
/// of an existing account, then behavior updates of a mutable account.
pub open spec fn post_load_kinds(sem: FieldSemantics) -> Seq<PostLoadKind> {
    let init = sem.init.is_some();
    let ng = sem.groups@.len();
    check_kinds(ng, init) + (if sem.realloc.is_some() {
        seq![PostLoadKind::Realloc]
    } else {
        seq![]
    }) + (if sem.is_migration && sem.core.is_mut {
        seq![PostLoadKind::MigrationGrow]
    } else {
        seq![]
    }) + (if !init && sem.address.is_some() {
        seq![PostLoadKind::VerifyExistingAddress]
    } else {
        seq![]
    }) + (if sem.core.is_mut {
        update_kinds(ng)
    } else {
        seq![]
    })
}

/// The epilogue: behavior exits of a mutable account, the program close, then migration
/// verification when a payer resolves.
pub open spec fn epilogue_kinds(sem: FieldSemantics, payer: Option<String>) -> Seq<EpilogueKind> {
    (if sem.core.is_mut {
        exit_kinds(sem.groups@.len())
    } else {
        seq![]
    }) + (if sem.close_dest.is_some() {
        seq![EpilogueKind::ProgramClose]
    } else {
        seq![]
    }) + (if sem.is_migration && payer.is_some() {
        seq![EpilogueKind::MigrationVerifyAndNormalize]
    } else {
        seq![]
    })
}

/// `plan` creates the account of `sem`, paid by `payer`: a plain program init when the
/// field has no behavior group, else `set_init_param` on every group in order.
pub open spec fn init_plan_of<'a>(
    plan: InitPlan<'a>,
    sem: FieldSemantics,
    payer: String,
    names: Seq<String>,
    optional: Seq<String>,
) -> bool {
    if sem.groups@.len() == 0 {
        plan matches InitPlan::Program { payer: p, space_from, idempotent } && *p == payer
            && *space_from == sem.core.effective_ty && idempotent == sem.init.unwrap().idempotent
    } else {
        plan matches InitPlan::Behavior { payer: p, idempotent, init_param_calls } && *p == payer
            && idempotent == sem.init.unwrap().idempotent && init_param_calls@.len()
            == sem.groups@.len() && forall|i: int|
            0 <= i < init_param_calls@.len() ==> call_of(
                #[trigger] init_param_calls@[i],
                sem.groups@[i],
                BehaviorPhase::SetInitParam,
                names,
                optional,
            )
    }
}

/// `step` is the step of kind `kind` for `sem`.
pub open spec fn pre_load_step_of<'a>(
    step: PreLoadStep<'a>,
    kind: PreLoadKind,
    sem: FieldSemantics,
    payer: Option<String>,
    names: Seq<String>,
    optional: Seq<String>,
) -> bool {
    match kind {
        PreLoadKind::VerifyAddress => step matches PreLoadStep::VerifyAddress(e) && Some(*e)
            == sem.address,
        PreLoadKind::Init => step matches PreLoadStep::Init(plan) && payer.is_some()
            && init_plan_of(plan, sem, payer.unwrap(), names, optional),
    }
}

/// `step` is the step of kind `kind` for `sem`.
pub open spec fn post_load_step_of<'a>(
    step: PostLoadStep<'a>,
    kind: PostLoadKind,
    sem: FieldSemantics,
    payer: Option<String>,
    names: Seq<String>,
    optional: Seq<String>,
) -> bool {
    match kind {
        PostLoadKind::Behavior(g, phase) => step matches PostLoadStep::Behavior(c) && g
            < sem.groups@.len() && call_of(c, sem.groups@[g as int], phase, names, optional),
        PostLoadKind::VerifyExistingAddress => step matches PostLoadStep::VerifyExistingAddress(
            e,
        ) && Some(*e) == sem.address,
        PostLoadKind::Realloc => step matches PostLoadStep::Realloc { new_space, payer: p }
            && Some(*new_space) == sem.realloc && Some(*p) == payer,
        PostLoadKind::MigrationGrow => step matches PostLoadStep::MigrationGrow { payer: p }
            && Some(*p) == payer,
    }
}

/// `step` is the step of kind `kind` for `sem`.
pub open spec fn epilogue_step_of<'a>(
    step: EpilogueStep<'a>,
    kind: EpilogueKind,
    sem: FieldSemantics,
    payer: Option<String>,
    names: Seq<String>,
    optional: Seq<String>,
) -> bool {
    match kind {
        EpilogueKind::BehaviorExit(g) => step matches EpilogueStep::Behavior(c) && g
            < sem.groups@.len() && call_of(
            c,
            sem.groups@[g as int],
            BehaviorPhase::Exit,
            names,
            optional,
        ),
        EpilogueKind::ProgramClose => step matches EpilogueStep::ProgramClose {
            destination_field,
        } && Some(*destination_field) == sem.close_dest,
        EpilogueKind::MigrationVerifyAndNormalize => step matches
            EpilogueStep::MigrationVerifyAndNormalize { payer: p } && Some(*p) == payer,
    }
}

/// `plan` holds, phase by phase and in order, exactly the steps that `sem` calls for.
pub open spec fn field_plan_of<'a>(
    plan: FieldPlan<'a>,
    sem: FieldSemantics,
    payer: Option<String>,
    names: Seq<String>,
    optional: Seq<String>,
) -> bool {
    let pre = pre_load_kinds(sem);
    let post = post_load_kinds(sem);
    let epi = epilogue_kinds(sem, payer);
    &&& plan.pre_load@.len() == pre.len()
    &&& forall|i: int|
        0 <= i < pre.len() ==> pre_load_step_of(
            #[trigger] plan.pre_load@[i],
            pre[i],
            sem,
            payer,
            names,
            optional,
        )
    &&& plan.post_load@.len() == post.len()
    &&& forall|i: int|
        0 <= i < post.len() ==> post_load_step_of(
            #[trigger] plan.post_load@[i],
            post[i],
            sem,
            payer,
            names,
            optional,
        )
    &&& plan.epilogue@.len() == epi.len()
    &&& forall|i: int|
        0 <= i < epi.len() ==> epilogue_step_of(
            #[trigger] plan.epilogue@[i],
            epi[i],
            sem,
            payer,
            names,
            optional,
        )
}

/// The error of planning `sem` with resolved payer `payer`: `init`, `realloc` and a
/// mutable migration each need a payer, checked in that order.
pub open spec fn plan_error(sem: FieldSemantics, payer: Option<String>) -> Option<ResolveError> {
    if sem.init.is_some() && payer.is_none() {
        Some(ResolveError::MissingPayer { field: sem.core.ident, need: PayerNeed::Init })
    } else if sem.realloc.is_some() && payer.is_none() {
        Some(ResolveError::MissingPayer { field: sem.core.ident, need: PayerNeed::Realloc })
    } else if sem.is_migration && sem.core.is_mut && payer.is_none() {
        Some(ResolveError::MissingPayer { field: sem.core.ident, need: PayerNeed::Migration })
    } else {
        None
    }
}

fn plan_init<'a>(
    sem: &'a FieldSemantics,
    idempotent: bool,
    payer: &'a String,
    field_names: &Vec<String>,
    optional_fields: &Vec<String>,
) -> (r: InitPlan<'a>)
    requires
        sem.init == Some(super::model::InitDirective { idempotent }),
    ensures
        init_plan_of(r, *sem, *payer, field_names@, optional_fields@),
{
    if sem.groups.len() == 0 {
        return InitPlan::Program { payer, space_from: &sem.core.effective_ty, idempotent };
    }
    let mut calls: Vec<BehaviorCall<'a>> = Vec::new();
    let n = sem.groups.len();
    let mut i: usize = 0;
    while i < n
        invariant
            n == sem.groups@.len(),
            i <= n,
            calls@.len() == i,
            forall|j: int|
                0 <= j < i ==> call_of(
                    #[trigger] calls@[j],
                    sem.groups@[j],
                    BehaviorPhase::SetInitParam,
                    field_names@,
                    optional_fields@,
                ),
        decreases n - i,
    {
        let c = lower_behavior_call(
            &sem.groups[i],
            BehaviorPhase::SetInitParam,
            field_names,
            optional_fields,
        );
        calls.push(c);
        i = i + 1;
    }
    InitPlan::Behavior { payer, idempotent, init_param_calls: calls }
}

/// Plan one field: the steps before load, after load and in the epilogue, in order. Fails
/// when the field needs a payer (for `init`, `realloc` or a mutable migration) and none
/// resolves.
#[verifier::rlimit(60)]
#[verifier::spinoff_prover]
pub fn plan_field<'a>(
    sem: &'a FieldSemantics,
    payer_field: Option<&'a String>,
    field_names: &Vec<String>,
    optional_fields: &Vec<String>,
) -> (r: Result<FieldPlan<'a>, ResolveError>)
    ensures
        ({
            let payer = resolved_payer(*sem, match payer_field {
                Some(q) => Some(*q),
                None => None,
            });
            match plan_error(*sem, payer) {
                Some(e) => r == Err::<FieldPlan<'a>, ResolveError>(e),
                None => r matches Ok(plan) && field_plan_of(
                    plan,
                    *sem,
                    payer,
                    field_names@,
                    optional_fields@,
                ),
            }
        }),
{
    let ghost pf = match payer_field {
        Some(q) => Some(*q),
        None => None,
    };
    let ghost payer = resolved_payer(*sem, pf);
    let resolved = resolve_field_payer(sem, payer_field);
    let ghost names = field_names@;
    let ghost opts = optional_fields@;
    let has_init = sem.init.is_some();

    // Before load: address verification and init, for init fields.
    let mut pre_load: Vec<PreLoadStep<'a>> = Vec::new();
    if has_init {
        match &sem.address {
            Some(addr) => {
                pre_load.push(PreLoadStep::VerifyAddress(addr));
            },
            None => {},
        }
    }
    match &sem.init {
        Some(d) => {
            match resolved {
                Some(p) => {
                    let plan = plan_init(sem, d.idempotent, p, field_names, optional_fields);
                    pre_load.push(PreLoadStep::Init(plan));
                },
                None => {
                    return Err(
                        ResolveError::MissingPayer {
                            field: sem.core.ident.clone(),
                            need: PayerNeed::Init,
                        },
                    );
                },
            }
        },
        None => {},
    }
    proof {
        let pre = pre_load_kinds(*sem);
        assert(pre_load@.len() == pre.len());
        assert forall|i: int| 0 <= i < pre.len() implies pre_load_step_of(
            #[trigger] pre_load@[i],
            pre[i],
            *sem,
            payer,
            names,
            opts,
        ) by {}
    }

    // After load: behavior after_init (init fields) and check, per group.
    let mut post_load: Vec<PostLoadStep<'a>> = Vec::new();
    let ghost mut post_k: Seq<PostLoadKind> = seq![];
    let ng = sem.groups.len();
    let mut g: usize = 0;
    while g < ng
        invariant
            ng == sem.groups@.len(),
            g <= ng,
            has_init == sem.init.is_some(),
            post_k == check_kinds(g as nat, has_init),
            post_load@.len() == post_k.len(),
            forall|i: int|
                0 <= i < post_k.len() ==> post_load_step_of(
                    #[trigger] post_load@[i],
                    post_k[i],
                    *sem,
                    payer,
                    names,
                    opts,
                ),
            names == field_names@,
            opts == optional_fields@,
        decreases ng - g,
    {
        let group = &sem.groups[g];
        if has_init {
            let c = lower_behavior_call(
                group,
                BehaviorPhase::AfterInit,
                field_names,
                optional_fields,
            );
            post_load.push(PostLoadStep::Behavior(c));
            proof {
                post_k = post_k.push(PostLoadKind::Behavior(g, BehaviorPhase::AfterInit));
            }
        }
        let c = lower_behavior_call(group, BehaviorPhase::Check, field_names, optional_fields);
        post_load.push(PostLoadStep::Behavior(c));
        proof {
            post_k = post_k.push(PostLoadKind::Behavior(g, BehaviorPhase::Check));
            assert(check_kinds((g + 1) as nat, has_init) =~= post_k);
        }
        g = g + 1;
    }

    // After load: realloc.
    match &sem.realloc {
        Some(space) => {
            match resolved {
                Some(p) => {
                    post_load.push(PostLoadStep::Realloc { new_space: space, payer: p });
                    proof {
                        post_k = post_k.push(PostLoadKind::Realloc);
                    }
                },
                None => {
                    return Err(
                        ResolveError::MissingPayer {
                            field: sem.core.ident.clone(),
                            need: PayerNeed::Realloc,
                        },
                    );
                },
            }
        },
        None => {},
    }

    // After load: migration grow.
    if sem.is_migration && sem.core.is_mut {
        match resolved {
            Some(p) => {
                post_load.push(PostLoadStep::MigrationGrow { payer: p });
                proof {
                    post_k = post_k.push(PostLoadKind::MigrationGrow);
                }
            },
            None => {
                return Err(
                    ResolveError::MissingPayer {
                        field: sem.core.ident.clone(),
                        need: PayerNeed::Migration,
                    },
                );
            },
        }
    }

    // After load: address verification of an existing account.
    if !has_init {
        match &sem.address {
            Some(addr) => {
                post_load.push(PostLoadStep::VerifyExistingAddress(addr));
                proof {
                    post_k = post_k.push(PostLoadKind::VerifyExistingAddress);
                }
            },
            None => {},
        }
    }
    let ghost before_updates = post_k;

    // After load and epilogue: update and exit, for mutable fields.
    let mut epilogue: Vec<EpilogueStep<'a>> = Vec::new();
    let ghost mut epi_k: Seq<EpilogueKind> = seq![];
    if sem.core.is_mut {
        let mut g: usize = 0;
        while g < ng
            invariant
                ng == sem.groups@.len(),
                g <= ng,
                post_k == before_updates + update_kinds(g as nat),
                post_load@.len() == post_k.len(),
                forall|i: int|
                    0 <= i < post_k.len() ==> post_load_step_of(
                        #[trigger] post_load@[i],
                        post_k[i],
                        *sem,
                        payer,
                        names,
                        opts,
                    ),
                epi_k == exit_kinds(g as nat),
                epilogue@.len() == epi_k.len(),
                forall|i: int|
                    0 <= i < epi_k.len() ==> epilogue_step_of(
                        #[trigger] epilogue@[i],
                        epi_k[i],
                        *sem,
                        payer,
                        names,
                        opts,
                    ),
                names == field_names@,
                opts == optional_fields@,
            decreases ng - g,
        {
            let group = &sem.groups[g];
            let c = lower_behavior_call(group, BehaviorPhase::Update, field_names, optional_fields);
            post_load.push(PostLoadStep::Behavior(c));
            let e = lower_behavior_call(group, BehaviorPhase::Exit, field_names, optional_fields);
            epilogue.push(EpilogueStep::Behavior(e));
            proof {
                post_k = post_k.push(PostLoadKind::Behavior(g, BehaviorPhase::Update));
                epi_k = epi_k.push(EpilogueKind::BehaviorExit(g));
                assert(before_updates + update_kinds((g + 1) as nat) =~= post_k);
            }
            g = g + 1;
        }
    }

    // Epilogue: program close.
    match &sem.close_dest {
        Some(dest) => {
            epilogue.push(EpilogueStep::ProgramClose { destination_field: dest });
            proof {
                epi_k = epi_k.push(EpilogueKind::ProgramClose);
            }
        },
        None => {},
    }

    // Epilogue: migration verify and normalize.
    if sem.is_migration {
        match resolved {
            Some(p) => {
                epilogue.push(EpilogueStep::MigrationVerifyAndNormalize { payer: p });
                proof {
                    epi_k = epi_k.push(EpilogueKind::MigrationVerifyAndNormalize);
                }
            },
            None => {},
        }
    }
    proof {
        assert(post_k =~= post_load_kinds(*sem));
        assert(epi_k =~= epilogue_kinds(*sem, payer));
    }
    Ok(FieldPlan { pre_load, post_load, epilogue })
}


// ---------------------------------------------------------------------------
// Whole-struct planning
// ---------------------------------------------------------------------------

/// The names of the optional fields, in field order.
pub open spec fn optional_names_of(sems: Seq<FieldSemantics>) -> Seq<String>
    decreases sems.len(),
{
    if sems.len() == 0 {
        seq![]
    } else if sems.last().core.optional {
        optional_names_of(sems.drop_last()).push(sems.last().core.ident)
    } else {
        optional_names_of(sems.drop_last())
    }
}

fn collect_optional_names(semantics: &Vec<FieldSemantics>) -> (r: Vec<String>)
    ensures
        r@ == optional_names_of(semantics@),
{
    let mut names: Vec<String> = Vec::new();
    let n = semantics.len();
    let mut i: usize = 0;
    while i < n
        invariant
            n == semantics@.len(),
            i <= n,
            names@ == optional_names_of(semantics@.take(i as int)),
        decreases n - i,
    {
        proof {
            assert(semantics@.take(i + 1).drop_last() == semantics@.take(i as int));
            assert(semantics@.take(i + 1).last() == semantics@[i as int]);
        }
        if semantics[i].core.optional {
            names.push(semantics[i].core.ident.clone());
        }
        i = i + 1;
    }
    assert(semantics@.take(n as int) == semantics@);
    names
}

/// The first planning error among `sems`, in field order.
pub open spec fn plans_error(sems: Seq<FieldSemantics>, payer_field: Option<String>) -> Option<
    ResolveError,
>
    decreases sems.len(),
{
    if sems.len() == 0 {
        None
    } else {
        match plan_error(sems[0], resolved_payer(sems[0], payer_field)) {
            Some(e) => Some(e),
            None => plans_error(sems.drop_first(), payer_field),
        }
    }
}

/// `plan` is the plan of the accounts struct `sems`: one field plan per field, in order,
/// and the rent plan.
pub open spec fn accounts_plan_of<'a>(plan: AccountsPlanTyped<'a>, sems: Seq<FieldSemantics>) -> bool {
    let pf = payer_field_of(sems);
    let names = field_names_of(sems);
    let optional = optional_names_of(sems);
    &&& plan.fields@.len() == sems.len()
    &&& forall|i: int|
        0 <= i < sems.len() ==> field_plan_of(
            #[trigger] plan.fields@[i],
            sems[i],
            resolved_payer(sems[i], pf),
            names,
            optional,
        )
    &&& rent_plan_of(plan.rent, sems)
}

/// Build the phase-ordered execution plan of an accounts struct: classify every behavior
/// arg against the field names, resolve each field's payer, plan every field in order and
/// decide where rent comes from. The first field whose payer cannot be resolved fails it.
pub fn build_plan<'a>(semantics: &'a Vec<FieldSemantics>) -> (r: Result<
    AccountsPlanTyped<'a>,
    ResolveError,
>)
    ensures
        match plans_error(semantics@, payer_field_of(semantics@)) {
            Some(e) => r == Err::<AccountsPlanTyped<'a>, ResolveError>(e),
            None => r matches Ok(plan) && accounts_plan_of(plan, semantics@),
        },
{
    let field_names = collect_field_names(semantics);
    let optional_fields = collect_optional_names(semantics);
    let payer_field = find_payer_field(semantics);
    let ghost pf = payer_field_of(semantics@);
    let mut fields: Vec<FieldPlan<'a>> = Vec::new();
    let n = semantics.len();
    let mut i: usize = 0;
    assert(semantics@.skip(0) == semantics@);
    while i < n
        invariant
            n == semantics@.len(),
            i <= n,
            pf == payer_field_of(semantics@),
            match payer_field {
                Some(q) => pf == Some(*q),
                None => pf is None,
            },
            field_names@ == field_names_of(semantics@),
            optional_fields@ == optional_names_of(semantics@),
            plans_error(semantics@, pf) == plans_error(semantics@.skip(i as int), pf),
            fields@.len() == i,
            forall|j: int|
                0 <= j < i ==> field_plan_of(
                    #[trigger] fields@[j],
                    semantics@[j],
                    resolved_payer(semantics@[j], pf),
                    field_names@,
                    optional_fields@,
                ),
        decreases n - i,
    {
        proof {
            assert(semantics@.skip(i as int)[0] == semantics@[i as int]);
            assert(semantics@.skip(i as int).drop_first() == semantics@.skip(i + 1));
        }
        let plan = plan_field(&semantics[i], payer_field, &field_names, &optional_fields)?;
        fields.push(plan);
        i = i + 1;
    }
    let rent = compute_rent_plan(semantics);
    Ok(AccountsPlanTyped { fields, rent })
}

} // verus!
