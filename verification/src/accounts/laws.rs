//! Properties that span the rules and the planner.

use vstd::prelude::*;
use crate::accounts::model::FieldSemantics;
use crate::accounts::planner::{
    check_kinds, epilogue_kinds, exit_kinds, post_load_kinds, pre_load_kinds, update_kinds,
    BehaviorPhase, EpilogueKind, PostLoadKind, PreLoadKind,
};
use crate::accounts::rules::field_violation;

verus! {

proof fn lemma_check_kinds(n: nat, init: bool, g: usize)
    requires
        g < n,
    ensures
        check_kinds(n, init).contains(PostLoadKind::Behavior(g, BehaviorPhase::Check)),
    decreases n,
{
    let tail = if init {
        seq![
            PostLoadKind::Behavior((n - 1) as usize, BehaviorPhase::AfterInit),
            PostLoadKind::Behavior((n - 1) as usize, BehaviorPhase::Check),
        ]
    } else {
        seq![PostLoadKind::Behavior((n - 1) as usize, BehaviorPhase::Check)]
    };
    let prev = check_kinds((n - 1) as nat, init);
    if g == n - 1 {
        let k: int = if init { prev.len() as int + 1 } else { prev.len() as int };
        assert(check_kinds(n, init)[k] == PostLoadKind::Behavior(g, BehaviorPhase::Check));
    } else {
        lemma_check_kinds((n - 1) as nat, init, g);
        let k = choose|k: int|
            0 <= k < prev.len() && prev[k] == PostLoadKind::Behavior(g, BehaviorPhase::Check);
        assert(check_kinds(n, init)[k] == prev[k]);
    }
}

proof fn lemma_check_kinds_only(n: nat, init: bool)
    ensures
        forall|i: int|
            0 <= i < check_kinds(n, init).len() ==> match #[trigger] check_kinds(n, init)[i] {
                PostLoadKind::Behavior(g, phase) => g < n && (phase == BehaviorPhase::Check || (
                init && phase == BehaviorPhase::AfterInit)),
                _ => false,
            },
    decreases n,
{
    if n > 0 {
        lemma_check_kinds_only((n - 1) as nat, init);
    }
}

proof fn lemma_update_kinds_only(n: nat)
    ensures
        forall|i: int|
            0 <= i < update_kinds(n).len() ==> match #[trigger] update_kinds(n)[i] {
                PostLoadKind::Behavior(g, phase) => g < n && phase == BehaviorPhase::Update,
                _ => false,
            },
    decreases n,
{
    if n > 0 {
        lemma_update_kinds_only((n - 1) as nat);
    }
}

proof fn lemma_exit_kinds_only(n: nat)
    ensures
        forall|i: int|
            0 <= i < exit_kinds(n).len() ==> match #[trigger] exit_kinds(n)[i] {
                EpilogueKind::BehaviorExit(g) => g < n,
                _ => false,
            },
        exit_kinds(n).len() == n,
    decreases n,
{
    if n > 0 {
        lemma_exit_kinds_only((n - 1) as nat);
    }
}

/// Every behavior group of a field is checked after the account is loaded.
pub proof fn every_group_is_checked(sem: FieldSemantics, g: usize)
    requires
        g < sem.groups@.len(),
    ensures
        post_load_kinds(sem).contains(PostLoadKind::Behavior(g, BehaviorPhase::Check)),
{
    let ck = check_kinds(sem.groups@.len(), sem.init.is_some());
    lemma_check_kinds(sem.groups@.len(), sem.init.is_some(), g);
    let k = choose|k: int|
        0 <= k < ck.len() && ck[k] == PostLoadKind::Behavior(g, BehaviorPhase::Check);
    assert(post_load_kinds(sem)[k] == ck[k]);
}

/// An account that is not mutable gets no behavior update and no behavior exit.
pub proof fn read_only_fields_are_not_updated(sem: FieldSemantics, p: Option<String>)
    requires
        !sem.core.is_mut,
    ensures
        forall|i: int|
            0 <= i < post_load_kinds(sem).len() ==> !(#[trigger] post_load_kinds(sem)[i]
                matches PostLoadKind::Behavior(_, BehaviorPhase::Update)),
        forall|i: int|
            0 <= i < epilogue_kinds(sem, p).len() ==> !(#[trigger] epilogue_kinds(sem, p)[i]
                is BehaviorExit),
{
    lemma_check_kinds_only(sem.groups@.len(), sem.init.is_some());
    let init = sem.init.is_some();
    let ck = check_kinds(sem.groups@.len(), init);
    assert forall|i: int| 0 <= i < post_load_kinds(sem).len() implies !(#[trigger] post_load_kinds(
        sem,
    )[i] matches PostLoadKind::Behavior(_, BehaviorPhase::Update)) by {
        if i < ck.len() {
            assert(post_load_kinds(sem)[i] == ck[i]);
        }
    }
}


/// A field that passes the structural rules is never both created and reallocated by one
/// instruction.
pub proof fn valid_fields_never_init_and_realloc(sem: FieldSemantics)
    requires
        field_violation(sem) is None,
    ensures
        !(pre_load_kinds(sem).contains(PreLoadKind::Init) && post_load_kinds(sem).contains(
            PostLoadKind::Realloc,
        )),
{
    lemma_check_kinds_only(sem.groups@.len(), sem.init.is_some());
    lemma_update_kinds_only(sem.groups@.len());
    if sem.init.is_some() {
        assert(sem.realloc.is_none());
        let post = post_load_kinds(sem);
        let ck = check_kinds(sem.groups@.len(), true);
        assert forall|i: int| 0 <= i < post.len() implies post[i] != PostLoadKind::Realloc by {
            if i < ck.len() {
                assert(post[i] == ck[i]);
            } else if sem.core.is_mut && i >= post.len() - update_kinds(sem.groups@.len()).len() {
                let u = update_kinds(sem.groups@.len());
                assert(post[i] == u[i - (post.len() - u.len())]);
            }
        }
    }
}

/// A `dup` field that passes the structural rules, and is not a migration, is never
/// mutated by the derive: no init, no realloc, no close, and no behavior update or exit.
pub proof fn valid_dup_fields_are_not_mutated(sem: FieldSemantics, p: Option<String>)
    requires
        field_violation(sem) is None,
        sem.core.dup,
        !sem.is_migration,
    ensures
        pre_load_kinds(sem).len() == 0,
        forall|i: int|
            0 <= i < post_load_kinds(sem).len() ==> match #[trigger] post_load_kinds(sem)[i] {
                PostLoadKind::Behavior(_, phase) => phase == BehaviorPhase::Check,
                PostLoadKind::VerifyExistingAddress => true,
                _ => false,
            },
        epilogue_kinds(sem, p).len() == 0,
{
    lemma_check_kinds_only(sem.groups@.len(), false);
    assert(sem.init.is_none());
    assert(sem.realloc.is_none());
    assert(sem.close_dest.is_none());
    assert(sem.core.is_mut ==> sem.groups@.len() == 0);
    assert(update_kinds(0) =~= seq![]);
    assert(exit_kinds(0) =~= seq![]);
    let post = post_load_kinds(sem);
    let ck = check_kinds(sem.groups@.len(), false);
    assert forall|i: int| 0 <= i < post.len() implies match #[trigger] post[i] {
        PostLoadKind::Behavior(_, phase) => phase == BehaviorPhase::Check,
        PostLoadKind::VerifyExistingAddress => true,
        _ => false,
    } by {
        if i < ck.len() {
            assert(post[i] == ck[i]);
        }
    }
}

} // verus!
