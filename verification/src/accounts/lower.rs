//! Lowering a field's parsed directives into its structural facts and semantics: `mut`
//! and `dup` go to the core (a migration field is always mutable), and each other kind
//! of directive fills its slot, a later directive of a kind replacing an earlier one;
//! behavior groups are kept in order. `has_one`, `constraints` and `allow` are checks the
//! model does not carry, and an `address`'s `@ error` is not kept.

use vstd::prelude::*;
use crate::accounts::model::{
    BehaviorGroup, FieldCore, FieldKind, FieldSemantics, InitDirective, TypeModel, ValueExpr,
};
use crate::accounts::syntax::Directive;

verus! {

broadcast use vstd::string::group_string_axioms;

/// The type is `Migration<From, To>`: its last path segment is `Migration` with at least
/// two type arguments.
pub open spec fn is_migration_type(ty: TypeModel) -> bool {
    match ty {
        TypeModel::Path { segments } => segments@.len() > 0 && segments@.last().ident@
            == "Migration"@ && segments@.last().args@.len() >= 2,
        TypeModel::Other => false,
    }
}

/// Some directive is `mut`.
pub open spec fn has_mut(ds: Seq<Directive>) -> bool {
    exists|i: int| 0 <= i < ds.len() && ds[i] is Mut
}

/// Some directive is `dup`.
pub open spec fn has_dup(ds: Seq<Directive>) -> bool {
    exists|i: int| 0 <= i < ds.len() && ds[i] is Dup
}

/// The last `init` directive.
pub open spec fn last_init(ds: Seq<Directive>) -> Option<InitDirective>
    decreases ds.len(),
{
    if ds.len() == 0 {
        None
    } else {
        match ds.last() {
            Directive::Init { idempotent } => Some(InitDirective { idempotent }),
            _ => last_init(ds.drop_last()),
        }
    }
}

/// The last `payer = ..`.
pub open spec fn last_payer(ds: Seq<Directive>) -> Option<String>
    decreases ds.len(),
{
    if ds.len() == 0 {
        None
    } else {
        match ds.last() {
            Directive::Payer(p) => Some(p),
            _ => last_payer(ds.drop_last()),
        }
    }
}

/// The last `address = ..`'s expression.
pub open spec fn last_address(ds: Seq<Directive>) -> Option<ValueExpr>
    decreases ds.len(),
{
    if ds.len() == 0 {
        None
    } else {
        match ds.last() {
            Directive::Address(e, _) => Some(e),
            _ => last_address(ds.drop_last()),
        }
    }
}

/// The last `realloc = ..`.
pub open spec fn last_realloc(ds: Seq<Directive>) -> Option<ValueExpr>
    decreases ds.len(),
{
    if ds.len() == 0 {
        None
    } else {
        match ds.last() {
            Directive::Realloc(e) => Some(e),
            _ => last_realloc(ds.drop_last()),
        }
    }
}

/// The last `close(dest = ..)`'s destination.
pub open spec fn last_close(ds: Seq<Directive>) -> Option<String>
    decreases ds.len(),
{
    if ds.len() == 0 {
        None
    } else {
        match ds.last() {
            Directive::Close(d) => Some(d),
            _ => last_close(ds.drop_last()),
        }
    }
}

/// The behavior groups, in order.
pub open spec fn groups_of(ds: Seq<Directive>) -> Seq<BehaviorGroup>
    decreases ds.len(),
{
    if ds.len() == 0 {
        seq![]
    } else {
        match ds.last() {
            Directive::Behavior(g) => groups_of(ds.drop_last()).push(g),
            _ => groups_of(ds.drop_last()),
        }
    }
}

fn is_migration(ty: &TypeModel) -> (r: bool)
    ensures
        r == is_migration_type(*ty),
{
    match ty {
        TypeModel::Path { segments } => {
            let n = segments.len();
            n > 0 && crate::text::str_eq(segments[n - 1].ident.as_str(), "Migration")
                && segments[n - 1].args.len() >= 2
        },
        TypeModel::Other => false,
    }
}

/// Lower one field: its name, kind, type with `Option<..>` and references removed,
/// whether it was `Option<..>`, whether it carries a doc comment, and its parsed
/// directives in order.
pub fn lower_field(
    ident: String,
    kind: FieldKind,
    effective_ty: TypeModel,
    optional: bool,
    has_doc: bool,
    directives: Vec<Directive>,
) -> (r: FieldSemantics)
    ensures
        r.core.ident == ident,
        r.core.kind == kind,
        r.core.effective_ty == effective_ty,
        r.core.optional == optional,
        r.core.has_doc == has_doc,
        r.is_migration == is_migration_type(effective_ty),
        r.core.is_mut == (is_migration_type(effective_ty) || has_mut(directives@)),
        r.core.dup == has_dup(directives@),
        r.init == last_init(directives@),
        r.payer == last_payer(directives@),
        r.address == last_address(directives@),
        r.realloc == last_realloc(directives@),
        r.close_dest == last_close(directives@),
        r.groups@ == groups_of(directives@),
{
    let migration = is_migration(&effective_ty);
    let ghost all = directives@;
    let mut rest = directives;
    let mut is_mut = false;
    let mut dup = false;
    let mut init: Option<InitDirective> = None;
    let mut payer: Option<String> = None;
    let mut address: Option<ValueExpr> = None;
    let mut realloc: Option<ValueExpr> = None;
    let mut close_dest: Option<String> = None;
    let mut groups: Vec<BehaviorGroup> = Vec::new();
    let ghost mut k: int = 0;
    assert(all.take(0) =~= Seq::<Directive>::empty());
    assert(rest@ =~= all.skip(0));
    while rest.len() > 0
        invariant
            0 <= k <= all.len(),
            rest@ == all.skip(k),
            is_mut == has_mut(all.take(k)),
            dup == has_dup(all.take(k)),
            init == last_init(all.take(k)),
            payer == last_payer(all.take(k)),
            address == last_address(all.take(k)),
            realloc == last_realloc(all.take(k)),
            close_dest == last_close(all.take(k)),
            groups@ == groups_of(all.take(k)),
        decreases rest@.len(),
    {
        let ghost pre = all.take(k);
        let d = rest.remove(0);
        let ghost next = all.take(k + 1);
        proof {
            assert(d == all[k]);
            assert(next.drop_last() =~= pre);
            assert(next.last() == d);
            assert(rest@ =~= all.skip(k + 1));
        }
        let ghost was_mut = is_mut;
        let ghost was_dup = dup;
        match d {
            Directive::Mut => {
                is_mut = true;
            },
            Directive::Dup => {
                dup = true;
            },
            Directive::Init { idempotent } => {
                init = Some(InitDirective { idempotent });
            },
            Directive::Payer(p) => {
                payer = Some(p);
            },
            Directive::Address(e, _) => {
                address = Some(e);
            },
            Directive::Realloc(e) => {
                realloc = Some(e);
            },
            Directive::Close(c) => {
                close_dest = Some(c);
            },
            Directive::Behavior(g) => {
                groups.push(g);
            },
            _ => {},
        }
        proof {
            if is_mut {
                if was_mut {
                    let w = choose|w: int| 0 <= w < pre.len() && pre[w] is Mut;
                    assert(next[w] is Mut);
                } else {
                    assert(next[k] is Mut);
                }
            } else {
                assert forall|w: int| 0 <= w < next.len() implies !(next[w] is Mut) by {
                    if w < k {
                        assert(next[w] == pre[w]);
                    }
                }
            }
            if dup {
                if was_dup {
                    let w = choose|w: int| 0 <= w < pre.len() && pre[w] is Dup;
                    assert(next[w] is Dup);
                } else {
                    assert(next[k] is Dup);
                }
            } else {
                assert forall|w: int| 0 <= w < next.len() implies !(next[w] is Dup) by {
                    if w < k {
                        assert(next[w] == pre[w]);
                    }
                }
            }
            k = k + 1;
        }
    }
    assert(all.take(k) =~= all);
    FieldSemantics {
        core: FieldCore {
            ident,
            kind,
            effective_ty,
            optional,
            is_mut: migration || is_mut,
            dup,
            has_doc,
        },
        init,
        payer,
        address,
        realloc,
        close_dest,
        groups,
        is_migration: migration,
    }
}

} // verus!
