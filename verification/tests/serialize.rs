use quasar::serialize::{
    check_enum, enum_from_repr, enum_to_repr, repr_type, serialize_path, ReprItem, SerializeItem,
    SerializePath, VariantShape,
};

fn words(ws: &[&str]) -> Vec<ReprItem> {
    ws.iter().map(|w| ReprItem::Word(w.to_string())).collect()
}

const MISSING_REPR: &str = "QuasarSerialize enums require #[repr(u8|u16|u32|u64|i8|i16|i32|i64)]";

#[test]
fn items_take_their_code_paths() {
    assert_eq!(serialize_path(SerializeItem::Enum, false), Ok(SerializePath::Enum));
    assert_eq!(serialize_path(SerializeItem::Enum, true), Ok(SerializePath::Enum));
    assert_eq!(serialize_path(SerializeItem::NamedStruct, false), Ok(SerializePath::Fixed));
    assert_eq!(serialize_path(SerializeItem::NamedStruct, true), Ok(SerializePath::BorrowedCompact));
    assert_eq!(
        serialize_path(SerializeItem::OtherStruct, false),
        Err("QuasarSerialize can only be derived for structs with named fields".to_string())
    );
    assert_eq!(
        serialize_path(SerializeItem::Union, false),
        Err("QuasarSerialize can only be derived for structs or repr-backed unit enums".to_string())
    );
}

#[test]
fn repr_type_finds_the_integer() {
    assert_eq!(repr_type(&vec![words(&["u8"])]), Ok("u8".to_string()));
    assert_eq!(repr_type(&vec![words(&["C", "u16"])]), Ok("u16".to_string()));
    assert_eq!(repr_type(&vec![words(&["u8", "i64"])]), Ok("i64".to_string()));
    assert_eq!(repr_type(&vec![words(&["C"]), words(&["i32"])]), Ok("i32".to_string()));
    assert_eq!(repr_type(&vec![words(&["u32"]), words(&["u8"])]), Ok("u32".to_string()));
}

#[test]
fn repr_type_rejects_missing_or_odd_repr() {
    assert_eq!(repr_type(&Vec::new()), Err(MISSING_REPR.to_string()));
    assert_eq!(repr_type(&vec![words(&["C"]), words(&["usize"])]), Err(MISSING_REPR.to_string()));
    assert_eq!(
        repr_type(&vec![vec![ReprItem::Word("u8".to_string()), ReprItem::Path]]),
        Err("unsupported #[repr(...)]".to_string())
    );
    assert_eq!(
        repr_type(&vec![words(&["C"]), vec![ReprItem::Path]]),
        Err("unsupported #[repr(...)]".to_string())
    );
}

fn unit(d: bool) -> VariantShape {
    VariantShape { unit: true, has_discriminant: d }
}

#[test]
fn enum_checks_run_in_order() {
    let repr = vec![words(&["u8"])];
    assert_eq!(check_enum(false, &repr, &vec![unit(true), unit(true)]), Ok("u8".to_string()));
    assert_eq!(
        check_enum(true, &repr, &vec![unit(true)]),
        Err("QuasarSerialize enums cannot have lifetime parameters".to_string())
    );
    assert_eq!(check_enum(false, &Vec::new(), &vec![unit(false)]), Err(MISSING_REPR.to_string()));
    assert_eq!(
        check_enum(false, &repr, &vec![unit(true), VariantShape { unit: false, has_discriminant: true }]),
        Err("QuasarSerialize enums must contain only unit variants".to_string())
    );
    assert_eq!(
        check_enum(false, &repr, &vec![unit(false), VariantShape { unit: false, has_discriminant: false }]),
        Err("QuasarSerialize enums require explicit discriminants on every variant".to_string())
    );
}

#[test]
fn enum_values_map_to_variants() {
    let discs: Vec<i128> = vec![0, 5, 7, -3];
    assert_eq!(enum_from_repr(&discs, 5), Some(1));
    assert_eq!(enum_from_repr(&discs, -3), Some(3));
    assert_eq!(enum_from_repr(&discs, 3), None);
    assert_eq!(enum_to_repr(&discs, 2), 7);
}

#[test]
fn enum_repr_round_trips() {
    let discs: Vec<i128> = vec![10, 20, 30, 255];
    for i in 0..discs.len() {
        assert_eq!(enum_from_repr(&discs, enum_to_repr(&discs, i)), Some(i));
    }
    for v in -5i128..300 {
        if let Some(i) = enum_from_repr(&discs, v) {
            assert_eq!(enum_to_repr(&discs, i), v);
        }
    }
}
