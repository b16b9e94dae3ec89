//! `#[account]`: which code an item gets, and the checks on its fields' layout.

use vstd::prelude::*;
use crate::text::string_from;

verus! {

broadcast use vstd::string::group_string_axioms;

/// The kind of item `#[account]` is applied to.
#[derive(Clone, Copy, Debug, PartialEq, Eq, Structural)]
pub enum AccountItem {
    UnitStruct,
    /// A struct with named fields.
    NamedStruct,
    /// A tuple struct.
    TupleStruct,
    Enum,
    Union,
}

/// The flags given to `#[account(...)]` that decide the shape of the generated code.
#[derive(Clone, Copy, Debug, PartialEq, Eq, Structural)]
pub struct AccountFlags {
    pub custom: bool,
    pub one_of: bool,
    pub unsafe_no_disc: bool,
    pub fixed_capacity: bool,
}

/// The code generated for the item.
#[derive(Clone, Copy, Debug, PartialEq, Eq, Structural)]
pub enum AccountShape {
    /// `custom` on a unit struct: a transparent wrapper with a user-written check.
    Custom,
    /// `one_of` on an enum: a polymorphic account over the variants.
    OneOf,
    /// A zero-copy account; `dynamic` when some field is a PodString/PodVec kept in the
    /// dynamic region.
    Layout { dynamic: bool },
}

/// Some field kept fixed comes after one kept dynamic.
pub open spec fn fixed_after_dynamic(dynamic: Seq<bool>) -> bool {
    exists|i: int, j: int| 0 <= i < j < dynamic.len() && dynamic[i] && !dynamic[j]
}

/// Some field is kept dynamic.
pub open spec fn any_dynamic(dynamic: Seq<bool>) -> bool {
    exists|i: int| 0 <= i < dynamic.len() && dynamic[i]
}

/// The shape for an item whose discriminator passed its check, given for each field in
/// order whether its type is a PodString/PodVec (`pod_dynamic`). With `fixed_capacity`
/// every field is kept fixed.
pub open spec fn account_shape_spec(flags: AccountFlags, item: AccountItem, pod_dynamic: Seq<bool>) -> Result<
    AccountShape,
    Seq<char>,
> {
    let dynamic = if flags.fixed_capacity {
        Seq::new(pod_dynamic.len(), |i: int| false)
    } else {
        pod_dynamic
    };
    if flags.custom && item == AccountItem::UnitStruct {
        Ok(AccountShape::Custom)
    } else if flags.one_of {
        if item == AccountItem::Enum {
            Ok(AccountShape::OneOf)
        } else {
            Err("#[account(one_of)] can only be used on enum declarations"@)
        }
    } else if item == AccountItem::UnitStruct || item == AccountItem::TupleStruct {
        Err("#[account] can only be used on structs with named fields"@)
    } else if item != AccountItem::NamedStruct {
        Err("#[account] can only be used on structs"@)
    } else if any_dynamic(dynamic) && fixed_after_dynamic(dynamic) {
        Err("fixed fields must precede all PodString/PodVec fields"@)
    } else if any_dynamic(dynamic) && flags.unsafe_no_disc {
        Err("unsafe_no_disc accounts cannot have PodString/PodVec fields"@)
    } else {
        Ok(AccountShape::Layout { dynamic: any_dynamic(dynamic) })
    }
}

/// Decide the code `#[account]` generates and check the field layout: `custom` on a unit
/// struct and `one_of` on an enum take their own paths; otherwise the item must be a
/// struct with named fields whose fixed fields all precede its PodString/PodVec fields,
/// and an `unsafe_no_disc` account may have no PodString/PodVec field at all. The
/// discriminator's own check comes before these and is not modelled here.
pub fn account_shape(flags: AccountFlags, item: AccountItem, pod_dynamic: &Vec<bool>) -> (r: Result<
    AccountShape,
    String,
>)
    ensures
        match account_shape_spec(flags, item, pod_dynamic@) {
            Ok(s) => r == Ok::<AccountShape, String>(s),
            Err(m) => r matches Err(e) && e@ == m,
        },
{
    let ghost dynamic = if flags.fixed_capacity {
        Seq::new(pod_dynamic@.len(), |i: int| false)
    } else {
        pod_dynamic@
    };
    if flags.custom && item == AccountItem::UnitStruct {
        return Ok(AccountShape::Custom);
    }
    if flags.one_of {
        if item == AccountItem::Enum {
            return Ok(AccountShape::OneOf);
        }
        return Err(string_from("#[account(one_of)] can only be used on enum declarations"));
    }
    if item == AccountItem::UnitStruct || item == AccountItem::TupleStruct {
        return Err(string_from("#[account] can only be used on structs with named fields"));
    }
    if item != AccountItem::NamedStruct {
        return Err(string_from("#[account] can only be used on structs"));
    }
    // One pass: whether a dynamic field has been seen, and whether a fixed one followed it.
    let n = pod_dynamic.len();
    let mut seen_dynamic = false;
    let mut misplaced = false;
    let mut i: usize = 0;
    while i < n
        invariant
            n == pod_dynamic@.len(),
            dynamic.len() == n,
            dynamic == (if flags.fixed_capacity {
                Seq::new(pod_dynamic@.len(), |i: int| false)
            } else {
                pod_dynamic@
            }),
            i <= n,
            seen_dynamic == any_dynamic(dynamic.take(i as int)),
            misplaced == fixed_after_dynamic(dynamic.take(i as int)),
        decreases n - i,
    {
        let d = !flags.fixed_capacity && pod_dynamic[i];
        let ghost t = dynamic.take(i as int);
        let ghost t2 = dynamic.take(i + 1);
        proof {
            assert(dynamic[i as int] == d);
            assert(t2 =~= t.push(d));
            if seen_dynamic {
                let w = choose|w: int| 0 <= w < t.len() && t[w];
                assert(t2[w]);
            }
            if misplaced {
                let (a, b) = choose|a: int, b: int| 0 <= a < b < t.len() && t[a] && !t[b];
                assert(t2[a] && !t2[b]);
            }
            if d {
                assert(t2[i as int]);
            }
            if !d && seen_dynamic {
                let w = choose|w: int| 0 <= w < t.len() && t[w];
                assert(t2[w] && !t2[i as int]);
            }
            if any_dynamic(t2) && !seen_dynamic {
                let w = choose|w: int| 0 <= w < t2.len() && t2[w];
                if w < i {
                    assert(t[w]);
                }
            }
            if fixed_after_dynamic(t2) && !misplaced {
                let (a, b) = choose|a: int, b: int| 0 <= a < b < t2.len() && t2[a] && !t2[b];
                if b < i {
                    assert(t[a] && !t[b]);
                } else {
                    assert(t[a]);
                }
            }
        }
        if d {
            seen_dynamic = true;
        } else if seen_dynamic {
            misplaced = true;
        }
        i = i + 1;
    }
    assert(dynamic.take(n as int) =~= dynamic);
    if seen_dynamic && misplaced {
        return Err(string_from("fixed fields must precede all PodString/PodVec fields"));
    }
    if seen_dynamic && flags.unsafe_no_disc {
        return Err(string_from("unsafe_no_disc accounts cannot have PodString/PodVec fields"));
    }
    Ok(AccountShape::Layout { dynamic: seen_dynamic })
}

} // verus!
