//! The account metas of the client instruction builder generated for an accounts struct.

use vstd::prelude::*;
use crate::accounts::model::{client_requires_signer, FieldSemantics, TypeModel};
use crate::accounts::planner::last_ident_is;

verus! {

broadcast use vstd::string::group_string_axioms;

/// The type is a `Signer` (its path ends in `Signer`).
pub fn is_signer_type(ty: &TypeModel) -> (r: bool)
    ensures
        r == last_ident_is(*ty, "Signer"@),
{
    match ty {
        TypeModel::Path { segments } => segments.len() > 0 && crate::text::str_eq(
            segments[segments.len() - 1].ident.as_str(),
            "Signer",
        ),
        TypeModel::Other => false,
    }
}

/// The flags of a field's account meta in the generated client: writable when `mut` or
/// `init`, signer when the type is `Signer` or the field is a non-PDA `init`.
pub fn client_account_flags(sem: &FieldSemantics) -> (r: (bool, bool))
    ensures
        r.0 == sem.spec_is_writable(),
        r.1 == (last_ident_is(sem.core.effective_ty, "Signer"@) || (sem.init.is_some()
            && sem.address.is_none())),
{
    let writable = sem.is_writable();
    let signer = is_signer_type(&sem.core.effective_ty) || client_requires_signer(sem);
    (writable, signer)
}

} // verus!
