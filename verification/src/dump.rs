//! Platform-tools version directory names, such as `v1.18.22`, and their numeric order.

use vstd::prelude::*;
use crate::text::{chars_of, split_on, split_on_char};

verus! {

broadcast use vstd::string::group_string_axioms;

/// A platform-tools version: its dot-separated numeric parts.
#[derive(Clone, Debug, PartialEq, Eq)]
pub struct ToolchainVersion(pub Vec<u64>);

/// The character is an ASCII decimal digit.
pub open spec fn is_digit(c: char) -> bool {
    '0' <= c && c <= '9'
}

/// The value of an ASCII digit.
pub open spec fn digit_value(c: char) -> nat {
    (c as nat - '0' as nat) as nat
}

/// The value of a string of decimal digits.
pub open spec fn digits_value(d: Seq<char>) -> nat
    decreases d.len(),
{
    if d.len() == 0 {
        0
    } else {
        digits_value(d.drop_last()) * 10 + digit_value(d.last())
    }
}

/// `p` without one leading `+`.
pub open spec fn sign_stripped(p: Seq<char>) -> Seq<char> {
    if p.len() > 0 && p[0] == '+' {
        p.drop_first()
    } else {
        p
    }
}

/// Every character is an ASCII digit.
pub open spec fn all_digits(d: Seq<char>) -> bool {
    forall|i: int| 0 <= i < d.len() ==> is_digit(#[trigger] d[i])
}

/// What `str::parse::<u64>` gives: an optional `+` sign, then one or more ASCII digits
/// whose value fits in a `u64`.
pub open spec fn parse_u64_spec(p: Seq<char>) -> Option<u64> {
    let d = sign_stripped(p);
    if d.len() == 0 || !all_digits(d) {
        None
    } else if digits_value(d) > u64::MAX {
        None
    } else {
        Some(digits_value(d) as u64)
    }
}

/// Every piece parses as a `u64`.
pub open spec fn all_parse(pieces: Seq<Seq<char>>) -> bool {
    forall|i: int| 0 <= i < pieces.len() ==> (#[trigger] parse_u64_spec(pieces[i])) is Some
}

/// What `parse_toolchain_version` gives for a directory name: `v` followed by
/// dot-separated parts that each parse as a `u64`.
pub open spec fn toolchain_version_spec(name: Seq<char>) -> Option<Seq<u64>> {
    if name.len() == 0 || name[0] != 'v' {
        None
    } else {
        let pieces = split_on(name.drop_first(), '.');
        if all_parse(pieces) {
            Some(pieces.map_values(|p: Seq<char>| parse_u64_spec(p).unwrap()))
        } else {
            None
        }
    }
}

proof fn lemma_digits_value_prefix(d: Seq<char>, k: int)
    requires
        0 <= k <= d.len(),
    ensures
        digits_value(d.take(k)) <= digits_value(d),
    decreases d.len() - k,
{
    if k < d.len() {
        lemma_digits_value_prefix(d, k + 1);
        assert(d.take(k + 1).drop_last() == d.take(k));
    } else {
        assert(d.take(k) == d);
    }
}

/// Parse a `u64` the way `str::parse::<u64>` does.
pub fn parse_u64(p: &Vec<char>) -> (r: Option<u64>)
    ensures
        r == parse_u64_spec(p@),
{
    let start: usize = if p.len() > 0 && p[0] == '+' {
        1
    } else {
        0
    };
    let ghost d = sign_stripped(p@);
    assert(d == p@.skip(start as int));
    if start >= p.len() {
        return None;
    }
    let n = p.len();
    let mut v: u64 = 0;
    let mut i: usize = start;
    while i < n
        invariant
            n == p@.len(),
            start <= i <= n,
            d == p@.skip(start as int),
            d == sign_stripped(p@),
            forall|j: int| 0 <= j < i - start ==> is_digit(#[trigger] d[j]),
            v == digits_value(d.take(i - start)),
        decreases n - i,
    {
        let c = p[i];
        if !('0' <= c && c <= '9') {
            assert(!is_digit(d[i - start]));
            return None;
        }
        let dv: u64 = (c as u32 - '0' as u32) as u64;
        proof {
            assert(d.take(i - start + 1).drop_last() == d.take(i - start));
            assert(d.take(i - start + 1).last() == c);
        }
        if v > (u64::MAX - dv) / 10 {
            proof {
                assert(v * 10 + dv > u64::MAX) by (nonlinear_arith)
                    requires
                        v > (u64::MAX - dv) / 10,
                        dv <= 9,
                ;
                lemma_digits_value_prefix(d, i - start + 1);
                assert(digits_value(d) > u64::MAX);
            }
            return None;
        }
        proof {
            assert(v * 10 + dv <= u64::MAX) by (nonlinear_arith)
                requires
                    v <= (u64::MAX - dv) / 10,
                    dv <= 9,
            ;
        }
        v = v * 10 + dv;
        i = i + 1;
    }
    assert(d.take(n - start) == d);
    Some(v)
}


/// Parse a platform-tools directory name such as `v1.18.22` into its numeric parts: the
/// name must start with `v`, and every dot-separated piece after it must parse as a `u64`.
pub fn parse_toolchain_version(name: &str) -> (r: Option<ToolchainVersion>)
    ensures
        match toolchain_version_spec(name@) {
            Some(parts) => r matches Some(v) && v.0@ == parts,
            None => r is None,
        },
{
    let chars = chars_of(name);
    if chars.len() == 0 || chars[0] != 'v' {
        return None;
    }
    let mut rest: Vec<char> = Vec::new();
    let n = chars.len();
    let mut i: usize = 1;
    while i < n
        invariant
            n == chars@.len(),
            1 <= i <= n,
            rest@ == chars@.subrange(1, i as int),
        decreases n - i,
    {
        rest.push(chars[i]);
        i = i + 1;
    }
    assert(rest@ == name@.drop_first());
    let pieces = split_on_char(&rest, '.');
    let ghost ps = pieces@.map_values(|l: Vec<char>| l@);
    let mut parts: Vec<u64> = Vec::new();
    let m = pieces.len();
    let mut k: usize = 0;
    while k < m
        invariant
            m == pieces@.len(),
            ps == pieces@.map_values(|l: Vec<char>| l@),
            ps == split_on(name@.drop_first(), '.'),
            name@.len() > 0 && name@[0] == 'v',
            k <= m,
            parts@.len() == k,
            forall|j: int| 0 <= j < k ==> (#[trigger] parse_u64_spec(ps[j])) == Some(parts@[j]),
        decreases m - k,
    {
        match parse_u64(&pieces[k]) {
            Some(v) => {
                parts.push(v);
            },
            None => {
                assert(parse_u64_spec(ps[k as int]) is None);
                return None;
            },
        }
        k = k + 1;
    }
    assert(parts@ == ps.map_values(|p: Seq<char>| parse_u64_spec(p).unwrap()));
    Some(ToolchainVersion(parts))
}

/// The part at index `i`, or 0 past the end (shorter versions are padded with zeros).
pub open spec fn part_at(v: Seq<u64>, i: int) -> u64 {
    if 0 <= i < v.len() {
        v[i]
    } else {
        0
    }
}

/// The longer of the two lengths.
pub open spec fn max_len(a: Seq<u64>, b: Seq<u64>) -> int {
    if a.len() >= b.len() {
        a.len() as int
    } else {
        b.len() as int
    }
}

/// The numeric order of two versions from index `i` on: -1, 0 or 1 as the first differing
/// part (zero-padded) of `a` is smaller, absent or larger.
pub open spec fn order_from(a: Seq<u64>, b: Seq<u64>, i: int) -> int
    decreases max_len(a, b) - i,
{
    if i < 0 || i >= max_len(a, b) {
        0
    } else if part_at(a, i) < part_at(b, i) {
        -1
    } else if part_at(a, i) > part_at(b, i) {
        1
    } else {
        order_from(a, b, i + 1)
    }
}

/// The numeric order of two versions: -1, 0 or 1.
pub open spec fn version_order(a: Seq<u64>, b: Seq<u64>) -> int {
    order_from(a, b, 0)
}

/// Compare two versions part by part, numerically, padding the shorter with zeros:
/// -1, 0 or 1.
pub fn compare_parts(a: &Vec<u64>, b: &Vec<u64>) -> (r: i8)
    ensures
        r == version_order(a@, b@),
{
    let max = if a.len() >= b.len() {
        a.len()
    } else {
        b.len()
    };
    let mut i: usize = 0;
    while i < max
        invariant
            max == max_len(a@, b@),
            i <= max,
            version_order(a@, b@) == order_from(a@, b@, i as int),
        decreases max - i,
    {
        let l: u64 = if i < a.len() {
            a[i]
        } else {
            0
        };
        let r: u64 = if i < b.len() {
            b[i]
        } else {
            0
        };
        if l < r {
            return -1;
        } else if l > r {
            return 1;
        }
        i = i + 1;
    }
    0
}

/// The newest of `versions`: the first of the newest ones in list order, which is the one
/// a stable sort from newest to oldest puts first; none for an empty list.
pub fn newest_version(versions: &Vec<ToolchainVersion>) -> (r: Option<usize>)
    ensures
        versions@.len() == 0 <==> r is None,
        r matches Some(i) ==> {
            &&& i < versions@.len()
            &&& forall|j: int|
                0 <= j < versions@.len() ==> version_order(
                    #[trigger] versions@[j].0@,
                    versions@[i as int].0@,
                ) <= 0
            &&& forall|j: int|
                0 <= j < i ==> version_order(#[trigger] versions@[j].0@, versions@[i as int].0@)
                    < 0
        },
{
    let n = versions.len();
    if n == 0 {
        return None;
    }
    let mut best: usize = 0;
    let mut k: usize = 1;
    proof {
        version_order_reflexive(versions@[0].0@);
    }
    while k < n
        invariant
            n == versions@.len(),
            best < k <= n,
            forall|j: int| 0 <= j < k ==> version_order(#[trigger] versions@[j].0@, versions@[best as int].0@) <= 0,
            forall|j: int| 0 <= j < best ==> version_order(#[trigger] versions@[j].0@, versions@[best as int].0@) < 0,
        decreases n - k,
    {
        let c = compare_parts(&versions[k].0, &versions[best].0);
        if c > 0 {
            let ghost vb = versions@[best as int].0@;
            let ghost vk = versions@[k as int].0@;
            proof {
                version_order_antisymmetric(vb, vk);
                version_order_reflexive(vk);
                assert forall|j: int| 0 <= j < k + 1 implies version_order(
                    #[trigger] versions@[j].0@,
                    vk,
                ) <= 0 by {
                    if j < k {
                        version_order_transitive(versions@[j].0@, vb, vk);
                    }
                }
                assert forall|j: int| 0 <= j < k implies version_order(
                    #[trigger] versions@[j].0@,
                    vk,
                ) < 0 by {
                    let vj = versions@[j].0@;
                    version_order_transitive(vj, vb, vk);
                    if version_order(vj, vk) == 0 {
                        version_order_antisymmetric(vj, vk);
                        version_order_transitive(vk, vj, vb);
                        version_order_antisymmetric(vk, vb);
                    }
                }
            }
            best = k;
        }
        k = k + 1;
    }
    Some(best)
}


proof fn lemma_order_step(a: Seq<u64>, b: Seq<u64>, i: int)
    requires
        i >= 0,
    ensures
        order_from(a, b, i) <= 0 ==> part_at(a, i) <= part_at(b, i) && (part_at(a, i) < part_at(
            b,
            i,
        ) || order_from(a, b, i + 1) <= 0),
        order_from(a, b, i) >= 0 ==> part_at(a, i) >= part_at(b, i) && (part_at(a, i) > part_at(
            b,
            i,
        ) || order_from(a, b, i + 1) >= 0),
        i >= max_len(a, b) ==> order_from(a, b, i + 1) == 0,
{
}

/// The version order is reflexive: every version is equal to itself.
pub proof fn version_order_reflexive(a: Seq<u64>)
    ensures
        version_order(a, a) == 0,
{
    lemma_order_refl_from(a, 0);
}

proof fn lemma_order_refl_from(a: Seq<u64>, i: int)
    requires
        i >= 0,
    ensures
        order_from(a, a, i) == 0,
    decreases a.len() - i,
{
    if i < a.len() {
        lemma_order_refl_from(a, i + 1);
    }
}

proof fn lemma_order_antisym_from(a: Seq<u64>, b: Seq<u64>, i: int)
    requires
        i >= 0,
    ensures
        order_from(a, b, i) == -order_from(b, a, i),
    decreases max_len(a, b) - i,
{
    if i < max_len(a, b) {
        lemma_order_antisym_from(a, b, i + 1);
    }
}

/// Swapping the two versions reverses their order.
pub proof fn version_order_antisymmetric(a: Seq<u64>, b: Seq<u64>)
    ensures
        version_order(a, b) == -version_order(b, a),
{
    lemma_order_antisym_from(a, b, 0);
}

proof fn lemma_order_trans_from(a: Seq<u64>, b: Seq<u64>, c: Seq<u64>, i: int)
    requires
        i >= 0,
        order_from(a, b, i) <= 0,
        order_from(b, c, i) <= 0,
    ensures
        order_from(a, c, i) <= 0,
    decreases max_len(a, b) + max_len(b, c) + max_len(a, c) - i,
{
    if i < max_len(a, c) {
        lemma_order_step(a, b, i);
        lemma_order_step(b, c, i);
        if part_at(a, i) == part_at(c, i) {
            lemma_order_step(a, b, i + 1);
            lemma_order_trans_from(a, b, c, i + 1);
        }
    }
}

/// The version order is transitive: if `a` is not newer than `b` and `b` is not newer than
/// `c`, then `a` is not newer than `c`.
pub proof fn version_order_transitive(a: Seq<u64>, b: Seq<u64>, c: Seq<u64>)
    requires
        version_order(a, b) <= 0,
        version_order(b, c) <= 0,
    ensures
        version_order(a, c) <= 0,
{
    lemma_order_trans_from(a, b, c, 0);
}

proof fn lemma_order_zero_from(a: Seq<u64>, i: int)
    requires
        i >= 0,
    ensures
        order_from(a.push(0), a, i) == 0,
    decreases a.len() + 1 - i,
{
    if i < a.len() + 1 {
        assert(part_at(a.push(0), i) == part_at(a, i));
        lemma_order_zero_from(a, i + 1);
    }
}

/// A trailing zero part does not change a version: `v2.0.0` equals `v2.0`.
pub proof fn version_order_ignores_trailing_zero(a: Seq<u64>)
    ensures
        version_order(a.push(0), a) == 0,
{
    lemma_order_zero_from(a, 0);
}

} // verus!
