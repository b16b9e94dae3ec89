use quasar::account_attr::{account_shape, AccountFlags, AccountItem, AccountShape};

fn flags() -> AccountFlags {
    AccountFlags { custom: false, one_of: false, unsafe_no_disc: false, fixed_capacity: false }
}

#[test]
fn fixed_fields_before_dynamic_ones() {
    assert_eq!(
        account_shape(flags(), AccountItem::NamedStruct, &vec![false, false, true, true]),
        Ok(AccountShape::Layout { dynamic: true })
    );
    assert_eq!(
        account_shape(flags(), AccountItem::NamedStruct, &vec![false, false]),
        Ok(AccountShape::Layout { dynamic: false })
    );
    assert_eq!(
        account_shape(flags(), AccountItem::NamedStruct, &vec![false, true, false]),
        Err("fixed fields must precede all PodString/PodVec fields".to_string())
    );
}

#[test]
fn fixed_capacity_keeps_every_field_fixed() {
    let f = AccountFlags { fixed_capacity: true, unsafe_no_disc: true, ..flags() };
    assert_eq!(
        account_shape(f, AccountItem::NamedStruct, &vec![true, false]),
        Ok(AccountShape::Layout { dynamic: false })
    );
}

#[test]
fn unsafe_no_disc_rejects_dynamic_fields() {
    let f = AccountFlags { unsafe_no_disc: true, ..flags() };
    assert_eq!(
        account_shape(f, AccountItem::NamedStruct, &vec![false, true]),
        Err("unsafe_no_disc accounts cannot have PodString/PodVec fields".to_string())
    );
    assert_eq!(
        account_shape(f, AccountItem::NamedStruct, &vec![true, false]),
        Err("fixed fields must precede all PodString/PodVec fields".to_string())
    );
    assert_eq!(
        account_shape(f, AccountItem::NamedStruct, &vec![false]),
        Ok(AccountShape::Layout { dynamic: false })
    );
}

#[test]
fn item_kinds_take_their_paths() {
    let custom = AccountFlags { custom: true, ..flags() };
    assert_eq!(account_shape(custom, AccountItem::UnitStruct, &vec![]), Ok(AccountShape::Custom));
    assert_eq!(
        account_shape(custom, AccountItem::NamedStruct, &vec![false]),
        Ok(AccountShape::Layout { dynamic: false })
    );
    let one_of = AccountFlags { one_of: true, ..flags() };
    assert_eq!(account_shape(one_of, AccountItem::Enum, &vec![]), Ok(AccountShape::OneOf));
    assert_eq!(
        account_shape(one_of, AccountItem::NamedStruct, &vec![]),
        Err("#[account(one_of)] can only be used on enum declarations".to_string())
    );
    assert_eq!(
        account_shape(flags(), AccountItem::TupleStruct, &vec![]),
        Err("#[account] can only be used on structs with named fields".to_string())
    );
    assert_eq!(
        account_shape(flags(), AccountItem::UnitStruct, &vec![]),
        Err("#[account] can only be used on structs with named fields".to_string())
    );
    assert_eq!(
        account_shape(flags(), AccountItem::Enum, &vec![]),
        Err("#[account] can only be used on structs".to_string())
    );
}
