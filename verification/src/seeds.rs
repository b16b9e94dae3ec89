//! Typed PDA seed specs (`#[derive(Seeds)]`): the supported seed parameter types, the
//! bytes each parameter is stored as, and the seed slices a seed set hands to PDA
//! derivation.

use vstd::prelude::*;
use crate::borsh::{le32, le64};
use crate::attr_args::ArgToken;
use crate::text::{chars_of, chars_eq_str, string_from};

verus! {

broadcast use vstd::string::group_string_axioms;

/// A supported seed parameter type.
#[derive(Clone, Copy, Debug, PartialEq, Eq, Structural)]
pub enum SeedType {
    Address,
    U8,
    U16,
    U32,
    U64,
}

/// The message for an unsupported seed parameter type.
pub open spec fn unsupported_seed_type_message() -> Seq<char> {
    "unsupported seed type; expected Address, u8, u16, u32, or u64"@
}

impl SeedType {
    /// The seed type named by a type identifier.
    pub open spec fn spec_from_ident(name: Seq<char>) -> Option<SeedType> {
        if name == "Address"@ {
            Some(SeedType::Address)
        } else if name == "u8"@ {
            Some(SeedType::U8)
        } else if name == "u16"@ {
            Some(SeedType::U16)
        } else if name == "u32"@ {
            Some(SeedType::U32)
        } else if name == "u64"@ {
            Some(SeedType::U64)
        } else {
            None
        }
    }

    /// The seed type named by a type identifier, or the error for an unsupported one.
    pub fn from_ident(name: &str) -> (r: Result<SeedType, String>)
        ensures
            match SeedType::spec_from_ident(name@) {
                Some(t) => r == Ok::<SeedType, String>(t),
                None => r matches Err(e) && e@ == unsupported_seed_type_message(),
            },
    {
        let c = chars_of(name);
        if chars_eq_str(&c, "Address") {
            Ok(SeedType::Address)
        } else if chars_eq_str(&c, "u8") {
            Ok(SeedType::U8)
        } else if chars_eq_str(&c, "u16") {
            Ok(SeedType::U16)
        } else if chars_eq_str(&c, "u32") {
            Ok(SeedType::U32)
        } else if chars_eq_str(&c, "u64") {
            Ok(SeedType::U64)
        } else {
            Err(string_from("unsupported seed type; expected Address, u8, u16, u32, or u64"))
        }
    }

    /// How many bytes a parameter of this type is stored as.
    pub open spec fn spec_stored_len(self) -> nat {
        match self {
            SeedType::Address => 32,
            SeedType::U8 => 1,
            SeedType::U16 => 2,
            SeedType::U32 => 4,
            SeedType::U64 => 8,
        }
    }
}

/// A seed parameter value.
#[derive(Clone, Copy)]
pub enum SeedValue {
    Address([u8; 32]),
    U8(u8),
    U16(u16),
    U32(u32),
    U64(u64),
}

/// The two little-endian bytes of `x`.
pub open spec fn le16(x: u16) -> Seq<u8> {
    seq![(x & 0xff) as u8, ((x >> 8) & 0xff) as u8]
}

impl SeedValue {
    /// The type of this value.
    pub open spec fn seed_type(self) -> SeedType {
        match self {
            SeedValue::Address(_) => SeedType::Address,
            SeedValue::U8(_) => SeedType::U8,
            SeedValue::U16(_) => SeedType::U16,
            SeedValue::U32(_) => SeedType::U32,
            SeedValue::U64(_) => SeedType::U64,
        }
    }

    /// The seed bytes of this value: an address as its 32 bytes, a `u8` as itself, wider
    /// integers as their little-endian bytes.
    pub open spec fn spec_bytes(self) -> Seq<u8> {
        match self {
            SeedValue::Address(a) => a@,
            SeedValue::U8(v) => seq![v],
            SeedValue::U16(v) => le16(v),
            SeedValue::U32(v) => le32(v),
            SeedValue::U64(v) => le64(v),
        }
    }

    /// The seed bytes of this value.
    pub fn stored_bytes(&self) -> (r: Vec<u8>)
        ensures
            r@ == self.spec_bytes(),
    {
        let mut v: Vec<u8> = Vec::new();
        match self {
            SeedValue::Address(a) => {
                let mut i: usize = 0;
                while i < 32
                    invariant
                        i <= 32,
                        v@ == a@.take(i as int),
                    decreases 32 - i,
                {
                    v.push(a[i]);
                    assert(v@ == a@.take(i + 1));
                    i = i + 1;
                }
                assert(a@.take(32) == a@);
            },
            SeedValue::U8(x) => {
                v.push(*x);
            },
            SeedValue::U16(x) => {
                v.push((*x & 0xff) as u8);
                v.push(((*x >> 8) & 0xff) as u8);
            },
            SeedValue::U32(x) => {
                v.push((*x & 0xff) as u8);
                v.push(((*x >> 8) & 0xff) as u8);
                v.push(((*x >> 16) & 0xff) as u8);
                v.push(((*x >> 24) & 0xff) as u8);
            },
            SeedValue::U64(x) => {
                v.push((*x & 0xff) as u8);
                v.push(((*x >> 8) & 0xff) as u8);
                v.push(((*x >> 16) & 0xff) as u8);
                v.push(((*x >> 24) & 0xff) as u8);
                v.push(((*x >> 32) & 0xff) as u8);
                v.push(((*x >> 40) & 0xff) as u8);
                v.push(((*x >> 48) & 0xff) as u8);
                v.push(((*x >> 56) & 0xff) as u8);
            },
        }
        assert(v@ =~= self.spec_bytes());
        v
    }
}

/// A seed set: the static prefix and the parameters in declaration order.
pub struct SeedSet {
    pub prefix: Vec<u8>,
    pub params: Vec<SeedValue>,
}

/// A seed set with its bump appended.
pub struct SeedSetWithBump {
    pub inner: SeedSet,
    pub bump: u8,
}

/// The seed slices of a seed set: the prefix, then each parameter's bytes.
pub open spec fn slices_of(prefix: Seq<u8>, params: Seq<SeedValue>) -> Seq<Seq<u8>> {
    seq![prefix] + params.map_values(|p: SeedValue| p.spec_bytes())
}

impl SeedSet {
    /// The seed slices handed to PDA derivation.
    pub fn as_slices(&self) -> (r: Vec<Vec<u8>>)
        ensures
            r@.map_values(|s: Vec<u8>| s@) == slices_of(self.prefix@, self.params@),
    {
        let mut out: Vec<Vec<u8>> = Vec::new();
        out.push(self.prefix.clone());
        let n = self.params.len();
        let mut i: usize = 0;
        assert(out@.map_values(|s: Vec<u8>| s@) =~= slices_of(self.prefix@, self.params@.take(0)));
        while i < n
            invariant
                n == self.params@.len(),
                i <= n,
                out@.map_values(|s: Vec<u8>| s@) == slices_of(
                    self.prefix@,
                    self.params@.take(i as int),
                ),
            decreases n - i,
        {
            let ghost before = out@.map_values(|s: Vec<u8>| s@);
            let b = self.params[i].stored_bytes();
            out.push(b);
            assert(out@.map_values(|s: Vec<u8>| s@) =~= before.push(b@));
            assert(slices_of(self.prefix@, self.params@.take(i + 1)) =~= slices_of(
                self.prefix@,
                self.params@.take(i as int),
            ).push(self.params@[i as int].spec_bytes()));
            i = i + 1;
        }
        assert(self.params@.take(n as int) == self.params@);
        out
    }

    /// This seed set with `bump` appended.
    pub fn with_bump(self, bump: u8) -> (r: SeedSetWithBump)
        ensures
            r.inner.prefix@ == self.prefix@,
            r.inner.params@ == self.params@,
            r.bump == bump,
    {
        SeedSetWithBump { inner: self, bump }
    }
}

impl SeedSetWithBump {
    /// The seed slices handed to PDA derivation: the seed set's slices, then the bump.
    pub fn as_slices(&self) -> (r: Vec<Vec<u8>>)
        ensures
            r@.map_values(|s: Vec<u8>| s@) == slices_of(self.inner.prefix@, self.inner.params@).push(
                seq![self.bump],
            ),
    {
        let mut out = self.inner.as_slices();
        let ghost before = out@.map_values(|s: Vec<u8>| s@);
        let mut b: Vec<u8> = Vec::new();
        b.push(self.bump);
        out.push(b);
        assert(out@.map_values(|s: Vec<u8>| s@) =~= before.push(seq![self.bump]));
        out
    }
}

/// A seed set's slices are its prefix followed by one slice per parameter, in order, each
/// the parameter's stored bytes; a set with a bump adds one final slice holding the bump.
pub proof fn seed_slices_follow_params(prefix: Seq<u8>, params: Seq<SeedValue>, bump: u8)
    ensures
        slices_of(prefix, params).len() == params.len() + 1,
        slices_of(prefix, params)[0] == prefix,
        forall|k: int| 0 <= k < params.len() ==> slices_of(prefix, params)[k + 1] == (
        #[trigger] params[k]).spec_bytes(),
        slices_of(prefix, params).push(seq![bump]).last() == seq![bump],
{
}

/// Why `#[derive(Seeds)]` refuses an item.
pub open spec fn seeds_target_error(is_struct: bool, has_fields: bool, has_seeds_attr: bool) -> Option<
    Seq<char>,
> {
    if !is_struct {
        Some("#[derive(Seeds)] can only be applied to a unit struct"@)
    } else if has_fields {
        Some("#[derive(Seeds)] requires a unit struct (no fields)"@)
    } else if !has_seeds_attr {
        Some("missing #[seeds(...)] attribute"@)
    } else {
        None
    }
}

/// Check the item `#[derive(Seeds)]` is applied to: a unit struct carrying `#[seeds(...)]`.
pub fn check_seeds_target(is_struct: bool, has_fields: bool, has_seeds_attr: bool) -> (r: Result<
    (),
    String,
>)
    ensures
        match seeds_target_error(is_struct, has_fields, has_seeds_attr) {
            Some(m) => r matches Err(e) && e@ == m,
            None => r is Ok,
        },
{
    if !is_struct {
        Err(string_from("#[derive(Seeds)] can only be applied to a unit struct"))
    } else if has_fields {
        Err(string_from("#[derive(Seeds)] requires a unit struct (no fields)"))
    } else if !has_seeds_attr {
        Err(string_from("missing #[seeds(...)] attribute"))
    } else {
        Ok(())
    }
}

/// A seed value's bytes are as long as its type's storage, and the bumped seed set has one
/// slice more than the plain one: the prefix, one per parameter, then the bump.
pub proof fn seed_slices_shape(prefix: Seq<u8>, params: Seq<SeedValue>, v: SeedValue)
    ensures
        v.spec_bytes().len() == v.seed_type().spec_stored_len(),
        slices_of(prefix, params).len() == 1 + params.len(),
{
}

/// Integer seeds are stored little-endian: the stored bytes, read as base-256 digits with
/// the first byte least significant, give back the value. (This fixes every byte, as each
/// is below 256.)
pub proof fn integer_seeds_are_little_endian(d: u8, a: u16, b: u32, c: u64)
    ensures
        ({
            let x = SeedValue::U16(a).spec_bytes();
            x.len() == 2 && x[0] + 256 * x[1] == a
        }),
        ({
            let x = SeedValue::U32(b).spec_bytes();
            x.len() == 4 && x[0] + 0x100 * x[1] + 0x1_0000 * x[2] + 0x100_0000 * x[3] == b
        }),
        ({
            let x = SeedValue::U64(c).spec_bytes();
            &&& x.len() == 8
            &&& x[0] + 0x100 * x[1] + 0x1_0000 * x[2] + 0x100_0000 * x[3] + 0x1_0000_0000 * x[4]
                + 0x100_0000_0000 * x[5] + 0x1_0000_0000_0000 * x[6] + 0x100_0000_0000_0000 * x[7]
                == c
        }),
        SeedValue::U8(d).spec_bytes() == seq![d],
{
    assert((a & 0xff) + ((a >> 8) & 0xff) * 256 == a) by (bit_vector);
    assert((b & 0xff) + ((b >> 8) & 0xff) * 0x100 + ((b >> 16) & 0xff) * 0x1_0000 + ((b >> 24)
        & 0xff) * 0x100_0000 == b) by (bit_vector);
    assert((c & 0xff) + ((c >> 8) & 0xff) * 0x100 + ((c >> 16) & 0xff) * 0x1_0000 + ((c >> 24)
        & 0xff) * 0x100_0000 + ((c >> 32) & 0xff) * 0x1_0000_0000 + ((c >> 40) & 0xff)
        * 0x100_0000_0000 + ((c >> 48) & 0xff) * 0x1_0000_0000_0000 + ((c >> 56) & 0xff)
        * 0x100_0000_0000_0000 == c) by (bit_vector);
    assert(a & 0xff < 256 && (a >> 8) & 0xff < 256) by (bit_vector);
    assert((b & 0xff) < 256 && ((b >> 8) & 0xff) < 256 && ((b >> 16) & 0xff) < 256 && ((b >> 24)
        & 0xff) < 256) by (bit_vector);
    assert((c & 0xff) < 256 && ((c >> 8) & 0xff) < 256 && ((c >> 16) & 0xff) < 256 && ((c >> 24)
        & 0xff) < 256 && ((c >> 32) & 0xff) < 256 && ((c >> 40) & 0xff) < 256 && ((c >> 48)
        & 0xff) < 256 && ((c >> 56) & 0xff) < 256) by (bit_vector);
}

/// Why a `#[seeds(...)]` attribute was refused: an unsupported parameter type, or one of
/// the token parser's own errors (its wording is not modelled).
#[derive(Debug)]
pub enum SeedsError {
    UnsupportedType(String),
    Syntax,
}

/// The seeds attribute's parameters from token `i` on, after those in `acc`: each is
/// `, name: Type`; a trailing comma may end the list, and nothing else may follow it.
pub open spec fn seed_params_spec(s: Seq<ArgToken>, i: int, acc: Seq<(Seq<char>, SeedType)>) -> Option<
    Result<Seq<(Seq<char>, SeedType)>, ()>,
>
    decreases s.len() - i,
{
    if i < 0 || i >= s.len() {
        Some(Ok(acc))
    } else if !(s[i] is Comma) {
        None
    } else if i + 1 >= s.len() {
        Some(Ok(acc))
    } else if !(s[i + 1] is Ident && i + 2 < s.len() && s[i + 2] is Colon && i + 3 < s.len()
        && s[i + 3] is Ident) {
        None
    } else {
        match SeedType::spec_from_ident(
            match s[i + 3] {
                ArgToken::Ident(t) => t@,
                _ => seq![],
            },
        ) {
            None => Some(Err(())),
            Some(ty) => seed_params_spec(
                s,
                i + 4,
                acc.push(
                    (
                        match s[i + 1] {
                            ArgToken::Ident(n) => n@,
                            _ => seq![],
                        },
                        ty,
                    ),
                ),
            ),
        }
    }
}

/// `#[seeds(b"prefix", name: Type, ...)]`: the prefix bytes and the typed parameters;
/// `Err(None)` for a parser error, `Err(Some(()))` for an unsupported type.
pub open spec fn seeds_args_spec(s: Seq<ArgToken>) -> Result<
    (Seq<u8>, Seq<(Seq<char>, SeedType)>),
    Option<()>,
> {
    if s.len() == 0 {
        Err(None)
    } else {
        match s[0] {
            ArgToken::ByteStr { text: _, bytes } => match seed_params_spec(s, 1, seq![]) {
                None => Err(None),
                Some(Err(_)) => Err(Some(())),
                Some(Ok(ps)) => Ok((bytes@, ps)),
            },
            _ => Err(None),
        }
    }
}

pub open spec fn params_v(v: Seq<(String, SeedType)>) -> Seq<(Seq<char>, SeedType)> {
    v.map_values(|p: (String, SeedType)| (p.0@, p.1))
}

/// Parse the tokens of `#[seeds(...)]`.
pub fn parse_seeds_args(ts: &Vec<ArgToken>) -> (r: Result<(Vec<u8>, Vec<(String, SeedType)>), SeedsError>)
    ensures
        match seeds_args_spec(ts@) {
            Ok((prefix, params)) => r matches Ok((p, v)) && p@ == prefix && params_v(v@) == params,
            Err(None) => r matches Err(SeedsError::Syntax),
            Err(Some(_)) => r matches Err(SeedsError::UnsupportedType(m)) && m@
                == unsupported_seed_type_message(),
        },
{
    if ts.len() == 0 {
        return Err(SeedsError::Syntax);
    }
    let prefix: Vec<u8> = match &ts[0] {
        ArgToken::ByteStr { text: _, bytes } => {
            let mut p: Vec<u8> = Vec::new();
            let mut k: usize = 0;
            while k < bytes.len()
                invariant
                    k <= bytes@.len(),
                    p@ == bytes@.take(k as int),
                decreases bytes@.len() - k,
            {
                p.push(bytes[k]);
                assert(p@ =~= bytes@.take(k + 1));
                k = k + 1;
            }
            assert(bytes@.take(bytes@.len() as int) =~= bytes@);
            p
        },
        _ => return Err(SeedsError::Syntax),
    };
    let n = ts.len();
    let mut params: Vec<(String, SeedType)> = Vec::new();
    let mut i: usize = 1;
    assert(params_v(params@) =~= seq![]);
    while i < n
        invariant
            n == ts@.len(),
            1 <= i,
            (ts@[0] matches ArgToken::ByteStr { text: _, bytes } && bytes@ == prefix@),
            seed_params_spec(ts@, 1, seq![]) == seed_params_spec(ts@, i as int, params_v(params@)),
        decreases n - i,
    {
        let comma = match &ts[i] {
            ArgToken::Comma => true,
            _ => false,
        };
        if !comma {
            return Err(SeedsError::Syntax);
        }
        if i + 1 >= n {
            return Ok((prefix, params));
        }
        let name = match &ts[i + 1] {
            ArgToken::Ident(x) => x.clone(),
            _ => return Err(SeedsError::Syntax),
        };
        let colon = i + 2 < n && match &ts[i + 2] {
            ArgToken::Colon => true,
            _ => false,
        };
        if !colon || i + 3 >= n {
            return Err(SeedsError::Syntax);
        }
        let ty = match &ts[i + 3] {
            ArgToken::Ident(t) => match SeedType::from_ident(t.as_str()) {
                Ok(ty) => ty,
                Err(m) => return Err(SeedsError::UnsupportedType(m)),
            },
            _ => return Err(SeedsError::Syntax),
        };
        let ghost before = params_v(params@);
        params.push((name, ty));
        proof {
            assert(params_v(params@) =~= before.push((name@, ty)));
        }
        i = i + 4;
    }
    Ok((prefix, params))
}

} // verus!
