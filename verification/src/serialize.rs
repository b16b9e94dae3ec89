//! `#[derive(QuasarSerialize)]`: which code path an item takes, the checks on a
//! repr-backed enum, and how the generated instruction-arg code maps an enum to its repr
//! value and back.

use vstd::prelude::*;
use crate::text::{str_eq, string_from};

verus! {

broadcast use vstd::string::group_string_axioms;

/// The kind of item the derive is applied to.
#[derive(Clone, Copy, Debug, PartialEq, Eq, Structural)]
pub enum SerializeItem {
    Enum,
    /// A struct with named fields.
    NamedStruct,
    /// A tuple or unit struct.
    OtherStruct,
    Union,
}

/// The code the derive generates for an item.
#[derive(Clone, Copy, Debug, PartialEq, Eq, Structural)]
pub enum SerializePath {
    /// A repr-backed unit enum.
    Enum,
    /// A struct with lifetimes: a compact schema with borrowed views.
    BorrowedCompact,
    /// A struct of `Copy` fields: a zero-copy companion.
    Fixed,
}

pub open spec fn serialize_path_spec(item: SerializeItem, has_lifetimes: bool) -> Result<
    SerializePath,
    Seq<char>,
> {
    match item {
        SerializeItem::Enum => Ok(SerializePath::Enum),
        SerializeItem::NamedStruct => if has_lifetimes {
            Ok(SerializePath::BorrowedCompact)
        } else {
            Ok(SerializePath::Fixed)
        },
        SerializeItem::OtherStruct => Err(
            "QuasarSerialize can only be derived for structs with named fields"@,
        ),
        SerializeItem::Union => Err(
            "QuasarSerialize can only be derived for structs or repr-backed unit enums"@,
        ),
    }
}

/// Which code path the derive takes for an item: enums go to the enum path; structs
/// with named fields to the borrowed path when they have lifetimes, else to the fixed
/// path; anything else is rejected.
pub fn serialize_path(item: SerializeItem, has_lifetimes: bool) -> (r: Result<SerializePath, String>)
    ensures
        match serialize_path_spec(item, has_lifetimes) {
            Ok(p) => r == Ok::<SerializePath, String>(p),
            Err(m) => r matches Err(e) && e@ == m,
        },
{
    match item {
        SerializeItem::Enum => Ok(SerializePath::Enum),
        SerializeItem::NamedStruct => if has_lifetimes {
            Ok(SerializePath::BorrowedCompact)
        } else {
            Ok(SerializePath::Fixed)
        },
        SerializeItem::OtherStruct => {
            let e = string_from("QuasarSerialize can only be derived for structs with named fields");
            Err(e)
        },
        SerializeItem::Union => {
            let e = string_from(
                "QuasarSerialize can only be derived for structs or repr-backed unit enums",
            );
            Err(e)
        },
    }
}

/// One item inside `#[repr(...)]`: a single identifier such as `u8` or `C`, or a longer
/// path.
pub enum ReprItem {
    Word(String),
    Path,
}

/// The integer types an enum may be backed by.
pub open spec fn supported_repr(w: Seq<char>) -> bool {
    w == "u8"@ || w == "u16"@ || w == "u32"@ || w == "u64"@ || w == "i8"@ || w == "i16"@
        || w == "i32"@ || w == "i64"@
}

/// The supported integer type named last among the first `n` items of one attribute.
pub open spec fn last_supported(items: Seq<Option<Seq<char>>>, n: int) -> Option<Seq<char>>
    decreases n,
{
    if n <= 0 {
        None
    } else {
        match items[n - 1] {
            Some(w) => if supported_repr(w) {
                Some(w)
            } else {
                last_supported(items, n - 1)
            },
            None => last_supported(items, n - 1),
        }
    }
}

/// An attribute's items as plain values: a word, or `None` for a longer path.
pub open spec fn repr_items_view(items: Seq<ReprItem>) -> Seq<Option<Seq<char>>> {
    items.map_values(
        |it: ReprItem|
            match it {
                ReprItem::Word(w) => Some(w@),
                ReprItem::Path => None,
            },
    )
}

/// The message for a repr item that is not a single identifier.
pub open spec fn unsupported_repr_message() -> Seq<char> {
    "unsupported #[repr(...)]"@
}

/// The message for an enum without an integer repr.
pub open spec fn missing_repr_message() -> Seq<char> {
    "QuasarSerialize enums require #[repr(u8|u16|u32|u64|i8|i16|i32|i64)]"@
}

/// The repr type from the item's `#[repr(...)]` attributes, in order: within an
/// attribute a longer path is an error and the last supported integer type counts; the
/// first attribute that names one decides.
pub open spec fn repr_type_spec(attrs: Seq<Seq<Option<Seq<char>>>>) -> Result<Seq<char>, Seq<char>>
    decreases attrs.len(),
{
    if attrs.len() == 0 {
        Err(missing_repr_message())
    } else if attrs[0].contains(None) {
        Err(unsupported_repr_message())
    } else {
        match last_supported(attrs[0], attrs[0].len() as int) {
            Some(w) => Ok(w),
            None => repr_type_spec(attrs.drop_first()),
        }
    }
}

fn is_supported_repr(w: &str) -> (r: bool)
    ensures
        r == supported_repr(w@),
{
    str_eq(w, "u8") || str_eq(w, "u16") || str_eq(w, "u32") || str_eq(w, "u64") || str_eq(w, "i8")
        || str_eq(w, "i16") || str_eq(w, "i32") || str_eq(w, "i64")
}

/// The integer repr of an enum, from its `#[repr(...)]` attributes (each given as its
/// list of items, outer attributes in order). Items with arguments, such as `align(8)`,
/// are outside this model.
pub fn repr_type(attrs: &Vec<Vec<ReprItem>>) -> (r: Result<String, String>)
    ensures
        match repr_type_spec(attrs@.map_values(|a: Vec<ReprItem>| repr_items_view(a@))) {
            Ok(w) => r matches Ok(t) && t@ == w,
            Err(m) => r matches Err(e) && e@ == m,
        },
{
    let ghost all = attrs@.map_values(|a: Vec<ReprItem>| repr_items_view(a@));
    let n = attrs.len();
    let mut i: usize = 0;
    assert(all.skip(0) =~= all);
    while i < n
        invariant
            n == attrs@.len(),
            all.len() == n,
            all == attrs@.map_values(|a: Vec<ReprItem>| repr_items_view(a@)),
            i <= n,
            repr_type_spec(all) == repr_type_spec(all.skip(i as int)),
        decreases n - i,
    {
        let attr = &attrs[i];
        let ghost items = repr_items_view(attr@);
        proof {
            assert(all[i as int] == items);
        }
        let m = attr.len();
        let mut found: Option<usize> = None;
        let mut j: usize = 0;
        while j < m
            invariant
                m == attr@.len(),
                items == repr_items_view(attr@),
                all.len() == n,
                all == attrs@.map_values(|a: Vec<ReprItem>| repr_items_view(a@)),
                i < n,
                all[i as int] == items,
                repr_type_spec(all) == repr_type_spec(all.skip(i as int)),
                j <= m,
                forall|k: int| 0 <= k < j ==> items[k] is Some,
                match found {
                    Some(f) => f < j && items[f as int] is Some && supported_repr(
                        items[f as int].unwrap(),
                    ) && last_supported(items, j as int) == items[f as int],
                    None => last_supported(items, j as int) is None,
                },
            decreases m - j,
        {
            match &attr[j] {
                ReprItem::Path => {
                    proof {
                        assert(items[j as int] is None);
                        assert(items.contains(None));
                        assert(all.skip(i as int)[0] == items);
                        assert(repr_type_spec(all.skip(i as int)) == Err::<Seq<char>, Seq<char>>(
                            unsupported_repr_message(),
                        ));
                    }
                    return Err(string_from("unsupported #[repr(...)]"));
                },
                ReprItem::Word(w) => {
                    proof {
                        assert(items[j as int] == Some(w@));
                    }
                    if is_supported_repr(w.as_str()) {
                        found = Some(j);
                    }
                },
            }
            j = j + 1;
        }
        proof {
            assert(!items.contains(None)) by {
                if items.contains(None) {
                    let k = choose|k: int| 0 <= k < items.len() && items[k] == None::<Seq<char>>;
                    assert(items[k] is Some);
                }
            }
            assert(all.skip(i as int)[0] == items);
            assert(all.skip(i as int).drop_first() =~= all.skip(i + 1));
        }
        match found {
            Some(f) => {
                let t = match &attr[f] {
                    ReprItem::Word(w) => string_from(w.as_str()),
                    ReprItem::Path => string_from(""),
                };
                proof {
                    assert(items[f as int] == Some(t@));
                }
                return Ok(t);
            },
            None => {},
        }
        i = i + 1;
    }
    proof {
        assert(all.skip(n as int).len() == 0);
    }
    Err(string_from("QuasarSerialize enums require #[repr(u8|u16|u32|u64|i8|i16|i32|i64)]"))
}

/// One variant of the enum: whether it is a unit variant, and whether it has an explicit
/// discriminant.
#[derive(Clone, Copy, Debug, PartialEq, Eq, Structural)]
pub struct VariantShape {
    pub unit: bool,
    pub has_discriminant: bool,
}

/// The first failing check over the variants, in order: each must be a unit variant with
/// an explicit discriminant.
pub open spec fn variants_error(vs: Seq<VariantShape>, n: int) -> Option<Seq<char>>
    decreases n,
{
    if n <= 0 {
        None
    } else {
        match variants_error(vs, n - 1) {
            Some(e) => Some(e),
            None => if !vs[n - 1].unit {
                Some("QuasarSerialize enums must contain only unit variants"@)
            } else if !vs[n - 1].has_discriminant {
                Some("QuasarSerialize enums require explicit discriminants on every variant"@)
            } else {
                None
            },
        }
    }
}

/// The checks on an enum, in the order the derive makes them: no lifetime parameters, an
/// integer repr, then each variant a unit variant with an explicit discriminant.
pub open spec fn enum_check_spec(
    has_lifetimes: bool,
    repr: Result<Seq<char>, Seq<char>>,
    vs: Seq<VariantShape>,
) -> Result<Seq<char>, Seq<char>> {
    if has_lifetimes {
        Err("QuasarSerialize enums cannot have lifetime parameters"@)
    } else {
        match repr {
            Err(m) => Err(m),
            Ok(t) => match variants_error(vs, vs.len() as int) {
                Some(m) => Err(m),
                None => Ok(t),
            },
        }
    }
}

/// Check an enum for the derive; returns its repr type.
pub fn check_enum(has_lifetimes: bool, attrs: &Vec<Vec<ReprItem>>, variants: &Vec<VariantShape>) -> (r:
    Result<String, String>)
    ensures
        match enum_check_spec(
            has_lifetimes,
            repr_type_spec(attrs@.map_values(|a: Vec<ReprItem>| repr_items_view(a@))),
            variants@,
        ) {
            Ok(w) => r matches Ok(t) && t@ == w,
            Err(m) => r matches Err(e) && e@ == m,
        },
{
    if has_lifetimes {
        return Err(string_from("QuasarSerialize enums cannot have lifetime parameters"));
    }
    let t = match repr_type(attrs) {
        Ok(t) => t,
        Err(e) => return Err(e),
    };
    let n = variants.len();
    let mut i: usize = 0;
    while i < n
        invariant
            n == variants@.len(),
            i <= n,
            variants_error(variants@, i as int) is None,
            !has_lifetimes,
            repr_type_spec(attrs@.map_values(|a: Vec<ReprItem>| repr_items_view(a@))) == Ok::<
                Seq<char>,
                Seq<char>,
            >(t@),
        decreases n - i,
    {
        let v = variants[i];
        if !v.unit {
            proof {
                assert(variants_error(variants@, i + 1) == Some(
                    "QuasarSerialize enums must contain only unit variants"@,
                ));
                lemma_variants_error_stays(variants@, i + 1, n as int);
            }
            return Err(string_from("QuasarSerialize enums must contain only unit variants"));
        }
        if !v.has_discriminant {
            proof {
                assert(variants_error(variants@, i + 1) == Some(
                    "QuasarSerialize enums require explicit discriminants on every variant"@,
                ));
                lemma_variants_error_stays(variants@, i + 1, n as int);
            }
            return Err(
                string_from("QuasarSerialize enums require explicit discriminants on every variant"),
            );
        }
        i = i + 1;
    }
    Ok(t)
}

proof fn lemma_variants_error_stays(vs: Seq<VariantShape>, k: int, n: int)
    requires
        0 <= k <= n,
        variants_error(vs, k) is Some,
    ensures
        variants_error(vs, n) == variants_error(vs, k),
    decreases n - k,
{
    if k < n {
        lemma_variants_error_stays(vs, k, n - 1);
    }
}

/// The variant whose discriminant is `value`: the first one, as the generated match
/// tries them in declaration order.
pub open spec fn variant_of(discs: Seq<i128>, value: i128, n: int) -> Option<int>
    decreases n,
{
    if n <= 0 {
        None
    } else {
        match variant_of(discs, value, n - 1) {
            Some(i) => Some(i),
            None => if discs[n - 1] == value {
                Some(n - 1)
            } else {
                None
            },
        }
    }
}

/// The generated `validate_zc` and `from_zc` together: the variant that a repr value
/// decodes to, or `None` where `validate_zc` rejects it (`InvalidInstructionData`).
pub fn enum_from_repr(discs: &Vec<i128>, value: i128) -> (r: Option<usize>)
    ensures
        match variant_of(discs@, value, discs@.len() as int) {
            Some(i) => r == Some(i as usize),
            None => r is None,
        },
{
    let n = discs.len();
    let mut i: usize = 0;
    while i < n
        invariant
            n == discs@.len(),
            i <= n,
            variant_of(discs@, value, i as int) is None,
        decreases n - i,
    {
        if discs[i] == value {
            proof {
                assert(variant_of(discs@, value, i + 1) == Some(i as int));
                lemma_variant_of_stays(discs@, value, i + 1, n as int);
            }
            return Some(i);
        }
        i = i + 1;
    }
    None
}

proof fn lemma_variant_of_stays(discs: Seq<i128>, value: i128, k: int, n: int)
    requires
        0 <= k <= n,
        variant_of(discs, value, k) is Some,
    ensures
        variant_of(discs, value, n) == variant_of(discs, value, k),
    decreases n - k,
{
    if k < n {
        lemma_variant_of_stays(discs, value, k, n - 1);
    }
}

/// The generated `to_zc`: the repr value of variant `i`.
pub fn enum_to_repr(discs: &Vec<i128>, i: usize) -> (r: i128)
    requires
        i < discs@.len(),
    ensures
        r == discs@[i as int],
{
    discs[i]
}

proof fn lemma_variant_of_facts(discs: Seq<i128>, value: i128, n: int)
    requires
        0 <= n <= discs.len(),
    ensures
        variant_of(discs, value, n) matches Some(i) ==> 0 <= i < n && discs[i] == value && forall|
            j: int,
        | 0 <= j < i ==> discs[j] != value,
        variant_of(discs, value, n) is None ==> forall|j: int| 0 <= j < n ==> discs[j] != value,
    decreases n,
{
    if n > 0 {
        lemma_variant_of_facts(discs, value, n - 1);
    }
}

/// With distinct discriminants, as the compiler requires of an enum, every variant's
/// repr value decodes back to that variant, and a value that decodes encodes back to
/// itself: nothing that `validate_zc` accepts reaches the unreachable arm of `from_zc`.
pub proof fn enum_repr_round_trip(discs: Seq<i128>, i: int, value: i128)
    requires
        forall|a: int, b: int| 0 <= a < b < discs.len() ==> discs[a] != discs[b],
        0 <= i < discs.len(),
    ensures
        variant_of(discs, discs[i], discs.len() as int) == Some(i),
        variant_of(discs, value, discs.len() as int) matches Some(k) ==> discs[k] == value,
        variant_of(discs, value, discs.len() as int) is None <==> !discs.contains(value),
{
    lemma_variant_of_facts(discs, discs[i], discs.len() as int);
    lemma_variant_of_facts(discs, value, discs.len() as int);
    match variant_of(discs, discs[i], discs.len() as int) {
        Some(k) => {
            if k != i {
                if k < i {
                } else {
                    assert(discs[i] != discs[k]);
                }
            }
        },
        None => {
            assert(discs[i] != discs[i]);
        },
    }
    if variant_of(discs, value, discs.len() as int) is None {
        assert(!discs.contains(value));
    } else {
        let k = variant_of(discs, value, discs.len() as int).unwrap();
        assert(discs[k] == value);
    }
}

} // verus!
