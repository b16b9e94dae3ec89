//! `#[program]`: the checks on a program's instruction discriminators, and how raw
//! instructions are dispatched — through a table indexed by the first instruction byte
//! when their one-byte discriminators are consecutive, else through a match.

use vstd::prelude::*;
use crate::text::{append_decimal, append_str, decimal, string_from};

verus! {

broadcast use vstd::string::group_string_axioms;

/// How an instruction handler takes its context.
#[derive(Clone, Copy, Debug, PartialEq, Eq, Structural)]
pub enum ContextParam {
    /// The handler has no typed first parameter.
    Missing,
    /// `Ctx<T>`.
    Ctx,
    /// `CtxWithRemaining<T>`.
    CtxWithRemaining,
    /// Some other type.
    Other,
}

/// One `#[instruction(...)]` read from a program module, in source order: the handler's
/// name, its discriminator bytes if given, whether it is raw, and its context parameter.
pub struct InstructionDecl {
    pub handler: String,
    pub discriminator: Option<Vec<u8>>,
    pub raw: bool,
    pub context: ContextParam,
}

/// A declaration as plain values.
pub open spec fn decl_view(d: InstructionDecl) -> (Seq<char>, Option<Seq<u8>>, bool, ContextParam) {
    (
        d.handler@,
        match d.discriminator {
            Some(v) => Some(v@),
            None => None,
        },
        d.raw,
        d.context,
    )
}

/// The declarations as plain values.
pub open spec fn decls_view(ds: Seq<InstructionDecl>) -> Seq<
    (Seq<char>, Option<Seq<u8>>, bool, ContextParam),
> {
    ds.map_values(|d: InstructionDecl| decl_view(d))
}

/// Bytes as `Debug` prints a `Vec<u8>`: `[1, 2, 3]`.
pub open spec fn bytes_debug(b: Seq<u8>) -> Seq<char> {
    "["@ + bytes_list(b) + "]"@
}

/// The bytes in decimal, separated by `, `.
pub open spec fn bytes_list(b: Seq<u8>) -> Seq<char>
    decreases b.len(),
{
    if b.len() == 0 {
        seq![]
    } else if b.len() == 1 {
        decimal(b[0] as nat)
    } else {
        bytes_list(b.drop_last()) + ", "@ + decimal(b.last() as nat)
    }
}

/// The error for an instruction without a discriminator.
pub open spec fn missing_discriminator_message() -> Seq<char> {
    "#[program]: instruction requires `discriminator = [...]`"@
}

/// The error for a discriminator of another length than the first one's.
pub open spec fn length_mismatch_message(expected: nat, found: nat) -> Seq<char> {
    "all instruction discriminators must have the same length: expected "@ + decimal(expected)
        + " byte(s), found "@ + decimal(found)
}

/// The error for a discriminator that an earlier handler already uses.
pub open spec fn duplicate_discriminator_message(b: Seq<u8>, previous: Seq<char>) -> Seq<char> {
    "duplicate discriminator "@ + bytes_debug(b) + ": already used by `"@ + previous + "`"@
}

/// The error for a handler without a typed first parameter.
pub open spec fn missing_context_message() -> Seq<char> {
    "#[program]: instruction function must have ctx: Ctx<T> as first parameter"@
}

/// The error for a handler whose first parameter is no context.
pub open spec fn wrong_context_message() -> Seq<char> {
    "first parameter must be Ctx<T> or CtxWithRemaining<T>"@
}

/// The error for a discriminator that starts with the byte reserved for events.
pub open spec fn reserved_discriminator_message(handler: Seq<char>) -> Seq<char> {
    "instruction `"@ + handler + "` has a discriminator starting with 0xFF which is reserved for events"@
}

/// The first of the declarations before `upto` whose discriminator is `b`.
pub open spec fn first_same(
    ds: Seq<(Seq<char>, Option<Seq<u8>>, bool, ContextParam)>,
    upto: int,
    b: Seq<u8>,
) -> Option<int>
    decreases upto,
{
    if upto <= 0 {
        None
    } else {
        match first_same(ds, upto - 1, b) {
            Some(j) => Some(j),
            None => if ds[upto - 1].1 == Some(b) {
                Some(upto - 1)
            } else {
                None
            },
        }
    }
}

/// The error at declaration `i`, the ones before it having passed: a missing
/// discriminator, one whose length differs from the first's, one already used, or, for a
/// handler that is not raw, a missing or wrong context parameter.
pub open spec fn decl_error(ds: Seq<(Seq<char>, Option<Seq<u8>>, bool, ContextParam)>, i: int) -> Option<
    Seq<char>,
> {
    match ds[i].1 {
        None => Some(missing_discriminator_message()),
        Some(b) => if i > 0 && b.len() != ds[0].1.unwrap().len() {
            Some(length_mismatch_message(ds[0].1.unwrap().len(), b.len()))
        } else {
            match first_same(ds, i, b) {
                Some(j) => Some(duplicate_discriminator_message(b, ds[j].0)),
                None => if ds[i].2 {
                    None
                } else {
                    match ds[i].3 {
                        ContextParam::Missing => Some(missing_context_message()),
                        ContextParam::Other => Some(wrong_context_message()),
                        _ => None,
                    }
                },
            }
        },
    }
}

/// The first error among the first `n` declarations.
pub open spec fn scan_error(ds: Seq<(Seq<char>, Option<Seq<u8>>, bool, ContextParam)>, n: int) -> Option<
    Seq<char>,
>
    decreases n,
{
    if n <= 0 {
        None
    } else {
        match scan_error(ds, n - 1) {
            Some(e) => Some(e),
            None => decl_error(ds, n - 1),
        }
    }
}

/// The first declaration among the first `n` whose discriminator starts with `0xFF`.
pub open spec fn first_reserved(ds: Seq<(Seq<char>, Option<Seq<u8>>, bool, ContextParam)>, n: int) -> Option<
    int,
>
    decreases n,
{
    if n <= 0 {
        None
    } else {
        match first_reserved(ds, n - 1) {
            Some(j) => Some(j),
            None => match ds[n - 1].1 {
                Some(b) => if b.len() > 0 && b[0] == 0xFF {
                    Some(n - 1)
                } else {
                    None
                },
                None => None,
            },
        }
    }
}

/// The outcome of the checks: the first error in source order, then the reserved-byte
/// check over all discriminators; else the common discriminator length (1 without
/// instructions).
pub open spec fn check_spec(ds: Seq<(Seq<char>, Option<Seq<u8>>, bool, ContextParam)>) -> Result<
    nat,
    Seq<char>,
> {
    match scan_error(ds, ds.len() as int) {
        Some(e) => Err(e),
        None => match first_reserved(ds, ds.len() as int) {
            Some(j) => Err(reserved_discriminator_message(ds[j].0)),
            None => Ok(
                if ds.len() == 0 {
                    1
                } else {
                    ds[0].1.unwrap().len()
                },
            ),
        },
    }
}

fn append_bytes_debug(s: &mut String, b: &Vec<u8>)
    ensures
        final(s)@ == old(s)@ + bytes_debug(b@),
{
    append_str(s, "[");
    let ghost start = s@;
    let n = b.len();
    let mut i: usize = 0;
    while i < n
        invariant
            n == b@.len(),
            i <= n,
            s@ == start + bytes_list(b@.take(i as int)),
        decreases n - i,
    {
        let ghost before = s@;
        if i > 0 {
            append_str(s, ", ");
        }
        append_decimal(s, b[i] as u64);
        proof {
            let t = b@.take(i + 1);
            assert(t.drop_last() =~= b@.take(i as int));
            assert(t.last() == b@[i as int]);
            if i == 0 {
                assert(t.len() == 1);
                assert(bytes_list(b@.take(i as int)) =~= Seq::<char>::empty());
                assert(s@ =~= start + decimal(t[0] as nat));
            } else {
                assert(s@ =~= start + (bytes_list(b@.take(i as int)) + ", "@ + decimal(
                    t.last() as nat,
                )));
            }
        }
        i = i + 1;
    }
    assert(b@.take(n as int) =~= b@);
    append_str(s, "]");
    assert(final(s)@ =~= old(s)@ + bytes_debug(b@));
}

fn same_bytes(a: &Vec<u8>, b: &Vec<u8>) -> (r: bool)
    ensures
        r == (a@ == b@),
{
    if a.len() != b.len() {
        return false;
    }
    let n = a.len();
    let mut i: usize = 0;
    while i < n
        invariant
            n == a@.len(),
            n == b@.len(),
            i <= n,
            forall|j: int| 0 <= j < i ==> a@[j] == b@[j],
        decreases n - i,
    {
        if a[i] != b[i] {
            return false;
        }
        i = i + 1;
    }
    assert(a@ =~= b@);
    true
}

/// The index of the first declaration before `upto` whose discriminator is `b`.
fn find_same(ds: &Vec<InstructionDecl>, upto: usize, b: &Vec<u8>) -> (r: Option<usize>)
    requires
        upto <= ds@.len(),
    ensures
        match r {
            Some(j) => j < upto && first_same(decls_view(ds@), upto as int, b@) == Some(j as int),
            None => first_same(decls_view(ds@), upto as int, b@) is None,
        },
{
    let ghost v = decls_view(ds@);
    let mut k: usize = 0;
    while k < upto
        invariant
            upto <= ds@.len(),
            v == decls_view(ds@),
            k <= upto,
            first_same(v, k as int, b@) is None,
        decreases upto - k,
    {
        let found = match &ds[k].discriminator {
            Some(d) => same_bytes(d, b),
            None => false,
        };
        proof {
            assert(v[k as int] == decl_view(ds@[k as int]));
        }
        if found {
            proof {
                assert(first_same(v, k as int + 1, b@) == Some(k as int));
                lemma_first_same_stays(v, k as int + 1, upto as int, b@);
            }
            return Some(k);
        }
        k = k + 1;
    }
    None
}

proof fn lemma_first_same_stays(
    ds: Seq<(Seq<char>, Option<Seq<u8>>, bool, ContextParam)>,
    k: int,
    n: int,
    b: Seq<u8>,
)
    requires
        0 <= k <= n,
        first_same(ds, k, b) is Some,
    ensures
        first_same(ds, n, b) == first_same(ds, k, b),
    decreases n - k,
{
    if k < n {
        lemma_first_same_stays(ds, k, n - 1, b);
    }
}

proof fn lemma_scan_error_stays(ds: Seq<(Seq<char>, Option<Seq<u8>>, bool, ContextParam)>, k: int, n: int)
    requires
        0 <= k <= n,
        scan_error(ds, k) is Some,
    ensures
        scan_error(ds, n) == scan_error(ds, k),
    decreases n - k,
{
    if k < n {
        lemma_scan_error_stays(ds, k, n - 1);
    }
}

proof fn lemma_first_reserved_stays(
    ds: Seq<(Seq<char>, Option<Seq<u8>>, bool, ContextParam)>,
    k: int,
    n: int,
)
    requires
        0 <= k <= n,
        first_reserved(ds, k) is Some,
    ensures
        first_reserved(ds, n) == first_reserved(ds, k),
    decreases n - k,
{
    if k < n {
        lemma_first_reserved_stays(ds, k, n - 1);
    }
}

fn decl_check(ds: &Vec<InstructionDecl>, i: usize) -> (r: Result<(), String>)
    requires
        i < ds@.len(),
        i > 0 ==> ds@[0].discriminator is Some,
    ensures
        match decl_error(decls_view(ds@), i as int) {
            Some(m) => r matches Err(e) && e@ == m,
            None => r is Ok,
        },
{
    let ghost v = decls_view(ds@);
    proof {
        assert(v[i as int] == decl_view(ds@[i as int]));
        assert(v[0] == decl_view(ds@[0]));
    }
    let d = &ds[i];
    match &d.discriminator {
        None => {
            let e = string_from("#[program]: instruction requires `discriminator = [...]`");
            assert(e@ == missing_discriminator_message());
            assert(decl_error(v, i as int) == Some(e@));
            Err(e)
        },
        Some(b) => {
            if i > 0 {
                match &ds[0].discriminator {
                    Some(first) => {
                        if b.len() != first.len() {
                            let mut e = string_from(
                                "all instruction discriminators must have the same length: expected ",
                            );
                            append_decimal(&mut e, first.len() as u64);
                            append_str(&mut e, " byte(s), found ");
                            append_decimal(&mut e, b.len() as u64);
                            assert(e@ =~= length_mismatch_message(first@.len(), b@.len()));
                            assert(decl_error(v, i as int) == Some(e@));
                            return Err(e);
                        }
                    },
                    None => {},
                }
            }
            match find_same(ds, i, b) {
                Some(j) => {
                    let mut e = string_from("duplicate discriminator ");
                    append_bytes_debug(&mut e, b);
                    append_str(&mut e, ": already used by `");
                    append_str(&mut e, ds[j].handler.as_str());
                    append_str(&mut e, "`");
                    proof {
                        assert(v[j as int] == decl_view(ds@[j as int]));
                    }
                    assert(e@ =~= duplicate_discriminator_message(b@, ds@[j as int].handler@));
                    assert(decl_error(v, i as int) == Some(e@));
                    Err(e)
                },
                None => {
                    if d.raw {
                        Ok(())
                    } else {
                        match d.context {
                            ContextParam::Missing => {
                                let e = string_from(
                                    "#[program]: instruction function must have ctx: Ctx<T> as first parameter",
                                );
                                assert(e@ == missing_context_message());
                                assert(decl_error(v, i as int) == Some(e@));
                                Err(e)
                            },
                            ContextParam::Other => {
                                let e = string_from(
                                    "first parameter must be Ctx<T> or CtxWithRemaining<T>",
                                );
                                assert(e@ == wrong_context_message());
                                assert(decl_error(v, i as int) == Some(e@));
                                Err(e)
                            },
                            _ => Ok(()),
                        }
                    }
                },
            }
        },
    }
}

/// Check a program's instructions, in source order: each needs a discriminator, all
/// discriminators have the length of the first, none repeats an earlier one, and every
/// handler that is not raw takes a context first; then no discriminator may start with
/// `0xFF`, which is reserved for events. Returns the common discriminator length.
pub fn check_instructions(ds: &Vec<InstructionDecl>) -> (r: Result<usize, String>)
    ensures
        match check_spec(decls_view(ds@)) {
            Ok(n) => r == Ok::<usize, String>(n as usize),
            Err(m) => r matches Err(e) && e@ == m,
        },
{
    let ghost v = decls_view(ds@);
    let n = ds.len();
    let mut i: usize = 0;
    while i < n
        invariant
            n == ds@.len(),
            v == decls_view(ds@),
            i <= n,
            scan_error(v, i as int) is None,
            i > 0 ==> ds@[0].discriminator is Some,
        decreases n - i,
    {
        match decl_check(ds, i) {
            Err(e) => {
                proof {
                    lemma_scan_error_stays(v, i + 1, n as int);
                }
                return Err(e);
            },
            Ok(()) => {
                proof {
                    if i == 0 {
                        assert(v[0] == decl_view(ds@[0]));
                    }
                }
            },
        }
        i = i + 1;
    }
    let mut k: usize = 0;
    while k < n
        invariant
            n == ds@.len(),
            v == decls_view(ds@),
            k <= n,
            scan_error(v, n as int) is None,
            first_reserved(v, k as int) is None,
        decreases n - k,
    {
        proof {
            assert(v[k as int] == decl_view(ds@[k as int]));
        }
        let reserved = match &ds[k].discriminator {
            Some(b) => b.len() > 0 && b[0] == 0xFF,
            None => false,
        };
        if reserved {
            let mut e = string_from("instruction `");
            append_str(&mut e, ds[k].handler.as_str());
            append_str(&mut e, "` has a discriminator starting with 0xFF which is reserved for events");
            proof {
                lemma_first_reserved_stays(v, k + 1, n as int);
            }
            return Err(e);
        }
        k = k + 1;
    }
    if n == 0 {
        Ok(1)
    } else {
        proof {
            assert(v[0] == decl_view(ds@[0]));
            assert(scan_error(v, 1) is None) by {
                if scan_error(v, 1) is Some {
                    lemma_scan_error_stays(v, 1, n as int);
                }
            }
        }
        match &ds[0].discriminator {
            Some(b) => Ok(b.len()),
            None => Ok(0),
        }
    }
}

/// How the raw instructions are dispatched.
#[derive(Debug)]
pub enum RawDispatch {
    /// The program has no raw instruction.
    NoRaw,
    /// A table indexed by the first instruction byte minus `base`; slot `k` calls the raw
    /// instruction `handlers[k]` (an index into the raw discriminators).
    Table { base: u8, handlers: Vec<usize> },
    /// A match over the full discriminators.
    MatchChain,
}

/// No two discriminators are equal.
pub open spec fn distinct_discriminators(d: Seq<Seq<u8>>) -> bool {
    forall|i: int, j: int| 0 <= i < j < d.len() ==> d[i] != d[j]
}

/// Every discriminator's first byte lies in `base .. base + d.len()`.
pub open spec fn fits_window(d: Seq<Seq<u8>>, base: int) -> bool {
    forall|i: int| 0 <= i < d.len() ==> base <= #[trigger] d[i][0] < base + d.len()
}

/// One-byte discriminators whose values are consecutive get a table.
pub open spec fn table_eligible(d: Seq<Seq<u8>>, disc_len: nat) -> bool {
    disc_len == 1 && d.len() > 0 && exists|base: int| fits_window(d, base)
}

/// A table for `d`: it starts at `base`, covers exactly the discriminators, and slot `k`
/// names the discriminator `base + k`.
pub open spec fn is_table_for(d: Seq<Seq<u8>>, base: int, handlers: Seq<usize>) -> bool {
    &&& handlers.len() == d.len()
    &&& base + d.len() <= 256
    &&& fits_window(d, base)
    &&& forall|k: int|
        0 <= k < handlers.len() ==> #[trigger] handlers[k] < d.len() && d[handlers[k] as int][0]
            == base + k
}

/// Index `j` occurs in `order`.
pub open spec fn listed(order: Seq<usize>, j: int) -> bool {
    exists|k: int| 0 <= k < order.len() && order[k] == j
}

/// The table slot that a first instruction byte selects, if any.
pub open spec fn table_slot(base: int, size: int, byte: int) -> Option<int> {
    if base <= byte < base + size {
        Some(byte - base)
    } else {
        None
    }
}

proof fn lemma_increasing_spread(s: Seq<int>, i: int, j: int)
    requires
        0 <= i <= j < s.len(),
        forall|a: int, b: int| 0 <= a < b < s.len() ==> s[a] < s[b],
    ensures
        s[j] - s[i] >= j - i,
    decreases j - i,
{
    if i < j {
        lemma_increasing_spread(s, i, j - 1);
    }
}

/// Choose how the raw instructions are dispatched, from their discriminators in source
/// order and the common discriminator length: with one-byte discriminators whose values
/// are consecutive, a table from the smallest value up; else a match; nothing without raw
/// instructions.
pub fn raw_dispatch(raw_discs: &Vec<Vec<u8>>, disc_len: usize) -> (r: RawDispatch)
    requires
        forall|i: int| 0 <= i < raw_discs@.len() ==> (#[trigger] raw_discs@[i])@.len() == disc_len,
        distinct_discriminators(raw_discs@.map_values(|v: Vec<u8>| v@)),
    ensures
        raw_discs@.len() == 0 <==> r is NoRaw,
        raw_discs@.len() > 0 ==> (r is Table <==> table_eligible(
            raw_discs@.map_values(|v: Vec<u8>| v@),
            disc_len as nat,
        )),
        r matches RawDispatch::Table { base, handlers } ==> is_table_for(
            raw_discs@.map_values(|v: Vec<u8>| v@),
            base as int,
            handlers@,
        ),
{
    let ghost d = raw_discs@.map_values(|v: Vec<u8>| v@);
    let n = raw_discs.len();
    if n == 0 {
        return RawDispatch::NoRaw;
    }
    if disc_len != 1 {
        return RawDispatch::MatchChain;
    }
    proof {
        assert forall|i: int, j: int| 0 <= i < j < n implies d[i][0] != d[j][0] by {
            assert(d[i] == raw_discs@[i]@);
            assert(d[j] == raw_discs@[j]@);
            if d[i][0] == d[j][0] {
                assert(d[i] =~= d[j]);
            }
        }
    }
    // Insertion sort of the indices by first byte.
    let mut order: Vec<usize> = Vec::new();
    let mut i: usize = 0;
    while i < n
        invariant
            n == raw_discs@.len(),
            d == raw_discs@.map_values(|v: Vec<u8>| v@),
            disc_len == 1,
            forall|q: int| 0 <= q < n ==> (#[trigger] raw_discs@[q])@.len() == 1,
            forall|a: int, b: int| 0 <= a < b < n ==> d[a][0] != d[b][0],
            i <= n,
            order@.len() == i,
            forall|k: int| 0 <= k < i ==> #[trigger] order@[k] < i,
            forall|j: int| 0 <= j < i ==> #[trigger] listed(order@, j),
            forall|a: int, b: int|
                0 <= a < b < i ==> d[order@[a] as int][0] < d[order@[b] as int][0],
        decreases n - i,
    {
        let key = raw_discs[i][0];
        proof {
            assert(d[i as int] == raw_discs@[i as int]@);
        }
        let m = order.len();
        let mut p: usize = 0;
        while p < m && raw_discs[order[p]][0] < key
            invariant
                m == order@.len(),
                m == i,
                i < n,
                n == raw_discs@.len(),
                d == raw_discs@.map_values(|v: Vec<u8>| v@),
                forall|q: int| 0 <= q < n ==> (#[trigger] raw_discs@[q])@.len() == 1,
                forall|k: int| 0 <= k < i ==> #[trigger] order@[k] < i,
                key == d[i as int][0],
                p <= m,
                forall|a: int| 0 <= a < p ==> d[order@[a] as int][0] < key,
            decreases m - p,
        {
            proof {
                assert(order@[p as int] < i);
                assert(d[order@[p as int] as int] == raw_discs@[order@[p as int] as int]@);
            }
            p = p + 1;
        }
        proof {
            assert forall|a: int| p <= a < m implies key < d[order@[a] as int][0] by {
                assert(order@[a] < i);
                if p < m {
                    assert(order@[p as int] < i);
                    assert(d[order@[p as int] as int] == raw_discs@[order@[p as int] as int]@);
                    assert(d[order@[p as int] as int][0] != key);
                    assert(key < d[order@[p as int] as int][0]);
                }
                if a > p {
                    assert(d[order@[p as int] as int][0] < d[order@[a] as int][0]);
                }
            }
        }
        let ghost old_order = order@;
        order.insert(p, i);
        proof {
            assert(order@ =~= old_order.insert(p as int, i));
            assert forall|j: int| 0 <= j < i + 1 implies #[trigger] listed(order@, j) by {
                if j == i {
                    assert(order@[p as int] == j);
                } else {
                    assert(listed(old_order, j));
                    let k0 = choose|k: int| 0 <= k < old_order.len() && old_order[k] == j;
                    if k0 < p {
                        assert(order@[k0] == j);
                    } else {
                        assert(order@[k0 + 1] == j);
                    }
                }
            }
            assert forall|k: int| 0 <= k < i + 1 implies #[trigger] order@[k] < i + 1 by {
                if k < p {
                    assert(old_order[k] < i);
                } else if k > p {
                    assert(old_order[k - 1] < i);
                }
            }
            assert forall|a: int, b: int| 0 <= a < b < i + 1 implies d[order@[a] as int][0]
                < d[order@[b] as int][0] by {
                if b < p {
                } else if b == p {
                } else if a < p {
                } else if a == p {
                    assert(order@[b] == old_order[b - 1]);
                } else {
                    assert(order@[a] == old_order[a - 1]);
                    assert(order@[b] == old_order[b - 1]);
                }
            }
        }
        i = i + 1;
    }
    let ghost s = order@.map_values(|j: usize| d[j as int][0] as int);
    proof {
        assert forall|a: int, b: int| 0 <= a < b < s.len() implies s[a] < s[b] by {
        }
    }
    // The sorted first bytes must go up by one at each step.
    let base = raw_discs[order[0]][0];
    proof {
        assert(order@[0] < n);
        assert(d[order@[0] as int] == raw_discs@[order@[0] as int]@);
        assert(s[0] == base);
    }
    let mut k: usize = 1;
    while k < n
        invariant
            n == raw_discs@.len(),
            n == order@.len(),
            d == raw_discs@.map_values(|v: Vec<u8>| v@),
            s == order@.map_values(|j: usize| d[j as int][0] as int),
            forall|q: int| 0 <= q < n ==> (#[trigger] raw_discs@[q])@.len() == 1,
            forall|q: int| 0 <= q < n ==> #[trigger] order@[q] < n,
            forall|a: int, b: int| 0 <= a < b < s.len() ==> s[a] < s[b],
            s[0] == base,
            1 <= k <= n,
            forall|q: int| 0 <= q < k ==> #[trigger] s[q] == base + q,
        decreases n - k,
    {
        let prev = raw_discs[order[k - 1]][0];
        let cur = raw_discs[order[k]][0];
        proof {
            assert(d[order@[k - 1] as int] == raw_discs@[order@[k - 1] as int]@);
            assert(d[order@[k as int] as int] == raw_discs@[order@[k as int] as int]@);
            assert(s[k - 1] == prev);
            assert(s[k as int] == cur);
        }
        if prev == 255 || cur != prev + 1 {
            proof {
                assert(s[k as int] >= s[k - 1] + 2);
                lemma_increasing_spread(s, k as int, n - 1);
                lemma_increasing_spread(s, 0, k - 1);
                assert(s[n - 1] - s[0] >= n);
                assert forall|b: int| !fits_window(d, b) by {
                    if fits_window(d, b) {
                        let i0 = order@[0] as int;
                        let il = order@[n - 1] as int;
                        assert(b <= d[i0][0]);
                        assert(d[il][0] < b + n);
                    }
                }
            }
            return RawDispatch::MatchChain;
        }
        k = k + 1;
    }
    proof {
        assert forall|q: int| 0 <= q < n implies base <= #[trigger] d[q][0] < base + n by {
            assert(listed(order@, q));
            let kq = choose|kk: int| 0 <= kk < order@.len() && order@[kk] == q;
            assert(s[kq] == base + kq);
        }
        assert(fits_window(d, base as int));
        assert(s[n - 1] == base + n - 1);
        assert forall|q: int| 0 <= q < order@.len() implies #[trigger] order@[q] < d.len()
            && d[order@[q] as int][0] == base + q by {
            assert(s[q] == base + q);
        }
    }
    RawDispatch::Table { base, handlers: order }
}

/// The table slot for the first instruction byte: the byte minus the base, wrapping, if
/// it is below the table's size.
pub fn raw_table_slot(base: u8, size: usize, byte: u8) -> (r: Option<usize>)
    requires
        base + size <= 256,
    ensures
        match table_slot(base as int, size as int, byte as int) {
            Some(k) => r == Some(k as usize),
            None => r is None,
        },
{
    let idx = byte.wrapping_sub(base) as usize;
    if idx < size {
        Some(idx)
    } else {
        None
    }
}

/// The dispatch table sends a first instruction byte to a slot exactly when some raw
/// instruction has that byte as its discriminator, and the slot calls that instruction.
pub proof fn table_slot_names_the_instruction(
    d: Seq<Seq<u8>>,
    base: int,
    handlers: Seq<usize>,
    byte: u8,
)
    requires
        forall|i: int| 0 <= i < d.len() ==> (#[trigger] d[i]).len() == 1,
        distinct_discriminators(d),
        is_table_for(d, base, handlers),
    ensures
        table_slot(base, d.len() as int, byte as int) is Some <==> exists|i: int|
            0 <= i < d.len() && d[i] == seq![byte],
        table_slot(base, d.len() as int, byte as int) matches Some(k) ==> d[handlers[k] as int]
            == seq![byte],
{
    match table_slot(base, d.len() as int, byte as int) {
        Some(k) => {
            assert(handlers[k] < d.len());
            let i = handlers[k] as int;
            assert(d[i][0] == byte);
            assert(d[i] =~= seq![byte]);
        },
        None => {
            assert forall|i: int| 0 <= i < d.len() implies d[i] != seq![byte] by {
                if d[i] == seq![byte] {
                    assert(d[i][0] == byte);
                }
            }
        },
    }
}

proof fn lemma_first_same_none(
    ds: Seq<(Seq<char>, Option<Seq<u8>>, bool, ContextParam)>,
    upto: int,
    b: Seq<u8>,
)
    requires
        first_same(ds, upto, b) is None,
    ensures
        forall|j: int| 0 <= j < upto ==> ds[j].1 != Some(b),
    decreases upto,
{
    if upto > 0 {
        lemma_first_same_none(ds, upto - 1, b);
    }
}

proof fn lemma_first_reserved_none(ds: Seq<(Seq<char>, Option<Seq<u8>>, bool, ContextParam)>, n: int)
    requires
        first_reserved(ds, n) is None,
    ensures
        forall|j: int|
            0 <= j < n ==> (#[trigger] ds[j].1 matches Some(b) ==> !(b.len() > 0 && b[0] == 0xFF)),
    decreases n,
{
    if n > 0 {
        lemma_first_reserved_none(ds, n - 1);
    }
}

/// A discriminator is given, has length `len` and does not start with `0xFF`.
pub open spec fn usable_discriminator(o: Option<Seq<u8>>, len: nat) -> bool {
    match o {
        Some(b) => b.len() == len && !(b.len() > 0 && b[0] == 0xFF),
        None => false,
    }
}

/// When a program's instructions pass the checks, every one has a discriminator of the
/// common length, no two discriminators are equal, and none starts with `0xFF`.
pub proof fn checked_discriminators_are_distinct(
    ds: Seq<(Seq<char>, Option<Seq<u8>>, bool, ContextParam)>,
    len: nat,
)
    requires
        check_spec(ds) == Ok::<nat, Seq<char>>(len),
    ensures
        forall|i: int| 0 <= i < ds.len() ==> usable_discriminator(#[trigger] ds[i].1, len),
        forall|i: int, j: int| 0 <= i < j < ds.len() ==> ds[i].1 != ds[j].1,
{
    let n = ds.len() as int;
    assert forall|k: int| 0 <= k <= n implies scan_error(ds, k) is None by {
        if scan_error(ds, k) is Some {
            lemma_scan_error_stays(ds, k, n);
        }
    }
    lemma_first_reserved_none(ds, n);
    assert forall|i: int| 0 <= i < n implies decl_error(ds, i) is None by {
        assert(scan_error(ds, i + 1) is None);
    }
    assert forall|i: int| 0 <= i < n implies usable_discriminator(#[trigger] ds[i].1, len) by {
        assert(decl_error(ds, i) is None);
        assert(decl_error(ds, 0) is None);
    }
    assert forall|i: int, j: int| 0 <= i < j < n implies ds[i].1 != ds[j].1 by {
        assert(decl_error(ds, j) is None);
        let b = ds[j].1.unwrap();
        lemma_first_same_none(ds, j, b);
    }
}

/// Where the generated `__dispatch` sends an instruction.
#[derive(Clone, Copy, Debug, PartialEq, Eq, Structural)]
pub enum Route {
    /// The event handler (first byte `0xFF`).
    Event,
    /// The raw instruction declared at this index.
    Raw(usize),
    /// The instruction declared at this index, through its typed context.
    Instruction(usize),
    /// `ProgramError::InvalidInstructionData`.
    Invalid,
}

/// Declaration `i`'s discriminator starts the instruction data.
pub open spec fn decl_matches(
    ds: Seq<(Seq<char>, Option<Seq<u8>>, bool, ContextParam)>,
    i: int,
    disc_len: nat,
    data: Seq<u8>,
) -> bool {
    data.len() >= disc_len && ds[i].1 == Some(data.take(disc_len as int))
}

/// Some declaration is raw.
pub open spec fn has_raw(ds: Seq<(Seq<char>, Option<Seq<u8>>, bool, ContextParam)>) -> bool {
    exists|i: int| 0 <= i < ds.len() && #[trigger] ds[i].2
}

/// Some declaration is not raw.
pub open spec fn has_typed(ds: Seq<(Seq<char>, Option<Seq<u8>>, bool, ContextParam)>) -> bool {
    exists|i: int| 0 <= i < ds.len() && !#[trigger] ds[i].2
}

fn copy_bytes(v: &Vec<u8>) -> (r: Vec<u8>)
    ensures
        r@ == v@,
{
    let mut r: Vec<u8> = Vec::new();
    let mut i: usize = 0;
    while i < v.len()
        invariant
            i <= v@.len(),
            r@ == v@.take(i as int),
        decreases v@.len() - i,
    {
        r.push(v[i]);
        assert(r@ =~= v@.take(i + 1));
        i = i + 1;
    }
    assert(v@.take(v@.len() as int) =~= v@);
    r
}

fn starts_with_bytes(data: &Vec<u8>, d: &Vec<u8>) -> (r: bool)
    ensures
        r == (data@.len() >= d@.len() && data@.take(d@.len() as int) == d@),
{
    if data.len() < d.len() {
        return false;
    }
    let n = d.len();
    let mut i: usize = 0;
    while i < n
        invariant
            n == d@.len(),
            n <= data@.len(),
            i <= n,
            forall|j: int| 0 <= j < i ==> data@[j] == d@[j],
        decreases n - i,
    {
        if data[i] != d[i] {
            assert(data@.take(n as int)[i as int] != d@[i as int]);
            return false;
        }
        i = i + 1;
    }
    assert(data@.take(n as int) =~= d@);
    true
}

/// Route instruction data the way the generated `__dispatch` does, for a program whose
/// instructions passed the checks with discriminator length `disc_len`: a first byte
/// `0xFF` goes to the event handler when there are raw instructions or when a typed
/// instruction's accounts can serve event CPI (`needs_event_cpi`), else it is invalid;
/// raw instructions are tried next, through the table or the match that `raw_dispatch`
/// chose; then the typed instructions. Whatever the path, the instruction called is the
/// one whose discriminator starts the data, and data that no discriminator starts is
/// invalid.
pub fn route_instruction(
    ds: &Vec<InstructionDecl>,
    disc_len: usize,
    needs_event_cpi: bool,
    data: &Vec<u8>,
) -> (r: Route)
    requires
        check_spec(decls_view(ds@)) == Ok::<nat, Seq<char>>(disc_len as nat),
    ensures
        data@.len() > 0 && data@[0] == 0xFF ==> r == (if has_raw(decls_view(ds@)) || (has_typed(
            decls_view(ds@),
        ) && needs_event_cpi) {
            Route::Event
        } else {
            Route::Invalid
        }),
        !(data@.len() > 0 && data@[0] == 0xFF) ==> {
            &&& r !is Event
            &&& r matches Route::Raw(i) ==> i < ds@.len() && ds@[i as int].raw && decl_matches(
                decls_view(ds@),
                i as int,
                disc_len as nat,
                data@,
            )
            &&& r matches Route::Instruction(i) ==> i < ds@.len() && !ds@[i as int].raw
                && decl_matches(decls_view(ds@), i as int, disc_len as nat, data@)
            &&& r is Invalid ==> forall|i: int|
                0 <= i < ds@.len() ==> !decl_matches(decls_view(ds@), i, disc_len as nat, data@)
        },
{
    let ghost v = decls_view(ds@);
    proof {
        checked_discriminators_are_distinct(v, disc_len as nat);
    }
    let n = ds.len();
    // The raw discriminators, in source order, and where each raw instruction stands.
    let mut raw_discs: Vec<Vec<u8>> = Vec::new();
    let mut raw_at: Vec<usize> = Vec::new();
    let mut any_typed = false;
    let mut i: usize = 0;
    while i < n
        invariant
            n == ds@.len(),
            v == decls_view(ds@),
            i <= n,
            forall|q: int| 0 <= q < n ==> usable_discriminator(#[trigger] v[q].1, disc_len as nat),
            forall|a: int, b: int| 0 <= a < b < n ==> v[a].1 != v[b].1,
            raw_discs@.len() == raw_at@.len(),
            forall|k: int| 0 <= k < raw_at@.len() ==> #[trigger] raw_at@[k] < i && v[raw_at@[k] as int].2
                && v[raw_at@[k] as int].1 == Some(raw_discs@[k]@),
            forall|a: int, b: int| 0 <= a < b < raw_at@.len() ==> raw_at@[a] < raw_at@[b],
            forall|q: int| 0 <= q < i && #[trigger] v[q].2 ==> listed(raw_at@, q),
            any_typed == has_typed(v.take(i as int)),
        decreases n - i,
    {
        proof {
            assert(v[i as int] == decl_view(ds@[i as int]));
        }
        let ghost old_at = raw_at@;
        let ghost old_typed = any_typed;
        if ds[i].raw {
            match &ds[i].discriminator {
                Some(d) => {
                    let c = copy_bytes(d);
                    raw_discs.push(c);
                    raw_at.push(i);
                    proof {
                        assert(raw_at@[raw_at@.len() - 1] == i);
                        assert(listed(raw_at@, i as int));
                        assert forall|q: int| 0 <= q < i && #[trigger] v[q].2 implies listed(
                            raw_at@,
                            q,
                        ) by {
                            assert(listed(old_at, q));
                            let k = choose|k: int| 0 <= k < old_at.len() && old_at[k] == q;
                            assert(raw_at@[k] == q);
                        }
                    }
                },
                None => {
                    proof {
                        assert(usable_discriminator(v[i as int].1, disc_len as nat));
                    }
                },
            }
        } else {
            any_typed = true;
        }
        proof {
            let t = v.take(i + 1);
            assert(t.take(i as int) =~= v.take(i as int));
            if any_typed {
                if old_typed {
                    let w = choose|w: int| 0 <= w < i && !#[trigger] v.take(i as int)[w].2;
                    assert(!t[w].2);
                } else {
                    assert(!t[i as int].2);
                }
                assert(has_typed(t));
            } else {
                assert forall|w: int| 0 <= w < t.len() implies #[trigger] t[w].2 by {
                    if w < i {
                        assert(t[w] == v.take(i as int)[w]);
                    }
                }
            }
        }
        i = i + 1;
    }
    let ghost rd = raw_discs@.map_values(|x: Vec<u8>| x@);
    proof {
        assert(v.take(n as int) =~= v);
        assert(any_typed == has_typed(v));
        assert(raw_discs@.len() > 0 <==> has_raw(v)) by {
            if has_raw(v) {
                let q = choose|q: int| 0 <= q < v.len() && #[trigger] v[q].2;
                assert(listed(raw_at@, q));
            }
            if raw_discs@.len() > 0 {
                assert(v[raw_at@[0] as int].2);
            }
        }
        assert forall|k: int| 0 <= k < raw_discs@.len() implies (#[trigger] raw_discs@[k])@.len()
            == disc_len by {
            assert(usable_discriminator(v[raw_at@[k] as int].1, disc_len as nat));
        }
        assert forall|a: int, b: int| 0 <= a < b < rd.len() implies rd[a] != rd[b] by {
            assert(raw_at@[a] < raw_at@[b]);
            assert(v[raw_at@[a] as int].1 != v[raw_at@[b] as int].1);
        }
    }
    if data.len() > 0 && data[0] == 0xFF {
        if raw_discs.len() > 0 || (any_typed && needs_event_cpi) {
            return Route::Event;
        }
        return Route::Invalid;
    }
    // A declaration that matches is the only one that does.
    proof {
        assert forall|a: int, b: int|
            0 <= a < n && 0 <= b < n && decl_matches(v, a, disc_len as nat, data@) && decl_matches(
                v,
                b,
                disc_len as nat,
                data@,
            ) implies a == b by {
            if a < b {
                assert(v[a].1 != v[b].1);
            } else if b < a {
                assert(v[b].1 != v[a].1);
            }
        }
    }
    if raw_discs.len() > 0 {
        match raw_dispatch(&raw_discs, disc_len) {
            RawDispatch::Table { base, handlers } => {
                proof {
                    assert(rd == raw_discs@.map_values(|x: Vec<u8>| x@));
                    assert forall|q: int| 0 <= q < rd.len() implies (#[trigger] rd[q]).len() == 1 by {
                        assert(raw_discs@[q]@.len() == disc_len);
                    }
                }
                if data.len() >= 1 {
                    let byte = data[0];
                    match raw_table_slot(base, handlers.len(), byte) {
                        Some(k) => {
                            let j = handlers[k];
                            proof {
                                table_slot_names_the_instruction(rd, base as int, handlers@, byte);
                                assert(rd[j as int] == seq![byte]);
                                assert(data@.take(1) =~= seq![byte]);
                            }
                            let at = raw_at[j];
                            return Route::Raw(at);
                        },
                        None => {
                            proof {
                                table_slot_names_the_instruction(rd, base as int, handlers@, byte);
                                assert forall|q: int| 0 <= q < n && v[q].2 implies !decl_matches(
                                    v,
                                    q,
                                    disc_len as nat,
                                    data@,
                                ) by {
                                    assert(listed(raw_at@, q));
                                    let k = choose|k: int| 0 <= k < raw_at@.len() && raw_at@[k] == q;
                                    assert(data@.take(1) =~= seq![byte]);
                                    if decl_matches(v, q, disc_len as nat, data@) {
                                        assert(rd[k] == seq![byte]);
                                    }
                                }
                            }
                        },
                    }
                } else {
                    proof {
                        assert forall|q: int| 0 <= q < n implies !decl_matches(
                            v,
                            q,
                            disc_len as nat,
                            data@,
                        ) by {}
                    }
                }
            },
            _ => {
                if data.len() >= disc_len {
                    let m = raw_discs.len();
                    let mut k: usize = 0;
                    while k < m
                        invariant
                            m == raw_discs@.len(),
                            m == raw_at@.len(),
                            n == ds@.len(),
                            v == decls_view(ds@),
                            k <= m,
                            data@.len() >= disc_len,
                            !(data@.len() > 0 && data@[0] == 0xFF),
                            forall|q: int| 0 <= q < raw_at@.len() ==> #[trigger] raw_at@[q] < n
                                && v[raw_at@[q] as int].2 && v[raw_at@[q] as int].1 == Some(
                                raw_discs@[q]@,
                            ),
                            forall|q: int| 0 <= q < m ==> (#[trigger] raw_discs@[q])@.len() == disc_len,
                            forall|q: int|
                                0 <= q < k ==> data@.take(disc_len as int) != (
                                #[trigger] raw_discs@[q])@,
                        decreases m - k,
                    {
                        if starts_with_bytes(data, &raw_discs[k]) {
                            let at = raw_at[k];
                            return Route::Raw(at);
                        }
                        k = k + 1;
                    }
                    proof {
                        assert forall|q: int| 0 <= q < n && v[q].2 implies !decl_matches(
                            v,
                            q,
                            disc_len as nat,
                            data@,
                        ) by {
                            assert(listed(raw_at@, q));
                            let kk = choose|kk: int| 0 <= kk < raw_at@.len() && raw_at@[kk] == q;
                            assert(data@.take(disc_len as int) != raw_discs@[kk]@);
                        }
                    }
                } else {
                    proof {
                        assert forall|q: int| 0 <= q < n implies !decl_matches(
                            v,
                            q,
                            disc_len as nat,
                            data@,
                        ) by {}
                    }
                }
            },
        }
    } else {
        proof {
            assert forall|q: int| 0 <= q < n && v[q].2 implies !decl_matches(
                v,
                q,
                disc_len as nat,
                data@,
            ) by {
                assert(listed(raw_at@, q));
            }
        }
    }
    // No raw instruction matches: the typed instructions.
    if !any_typed || data.len() < disc_len {
        proof {
            assert forall|q: int| 0 <= q < n implies !decl_matches(v, q, disc_len as nat, data@) by {
                if !v[q].2 {
                    assert(any_typed);
                }
            }
        }
        return Route::Invalid;
    }
    let mut q: usize = 0;
    while q < n
        invariant
            n == ds@.len(),
            v == decls_view(ds@),
            q <= n,
            data@.len() >= disc_len,
            !(data@.len() > 0 && data@[0] == 0xFF),
            forall|t: int| 0 <= t < n ==> usable_discriminator(#[trigger] v[t].1, disc_len as nat),
            forall|t: int| 0 <= t < n && v[t].2 ==> !decl_matches(v, t, disc_len as nat, data@),
            forall|t: int| 0 <= t < q ==> !decl_matches(v, t, disc_len as nat, data@),
        decreases n - q,
    {
        proof {
            assert(v[q as int] == decl_view(ds@[q as int]));
        }
        if !ds[q].raw {
            let hit = match &ds[q].discriminator {
                Some(d) => starts_with_bytes(data, d),
                None => false,
            };
            if hit {
                proof {
                    let d = v[q as int].1.unwrap();
                    assert(usable_discriminator(v[q as int].1, disc_len as nat));
                }
                return Route::Instruction(q);
            }
            proof {
                if decl_matches(v, q as int, disc_len as nat, data@) {
                    assert(usable_discriminator(v[q as int].1, disc_len as nat));
                }
            }
        }
        q = q + 1;
    }
    Route::Invalid
}

} // verus!
