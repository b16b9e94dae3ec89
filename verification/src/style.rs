//! Terminal styling of CLI messages: ANSI 256-color escapes when color is on, plain
//! bracketed tags when it is off.

use vstd::prelude::*;
use crate::text::{append_decimal, append_str, decimal, string_from};

verus! {

broadcast use vstd::string::group_string_axioms;

/// ANSI reset.
pub open spec fn reset() -> Seq<char> {
    "\x1b[0m"@
}

/// A message after a colored symbol, or after a plain tag when color is off.
pub open spec fn tagged(enabled: bool, symbol: Seq<char>, tag: Seq<char>, msg: Seq<char>) -> Seq<char> {
    if enabled {
        symbol + reset() + " "@ + msg
    } else {
        tag + " "@ + msg
    }
}

/// Text wrapped in an escape and a reset, or the text itself when color is off.
pub open spec fn wrapped(enabled: bool, start: Seq<char>, s: Seq<char>) -> Seq<char> {
    if enabled {
        start + s + reset()
    } else {
        s
    }
}

fn tag_line(enabled: bool, symbol: &str, tag: &str, msg: &str) -> (r: String)
    ensures
        r@ == tagged(enabled, symbol@, tag@, msg@),
{
    if enabled {
        let mut s = string_from(symbol);
        append_str(&mut s, "\x1b[0m");
        append_str(&mut s, " ");
        append_str(&mut s, msg);
        s
    } else {
        let mut s = string_from(tag);
        append_str(&mut s, " ");
        append_str(&mut s, msg);
        s
    }
}

fn wrap(enabled: bool, start: &str, text: &str) -> (r: String)
    ensures
        r@ == wrapped(enabled, start@, text@),
{
    if enabled {
        let mut s = string_from(start);
        append_str(&mut s, text);
        append_str(&mut s, "\x1b[0m");
        s
    } else {
        string_from(text)
    }
}

/// Green checkmark, or `[ok]`.
pub fn success(msg: &str, enabled: bool) -> (r: String)
    ensures
        r@ == tagged(enabled, "\x1b[38;5;83m\u{2714}"@, "[ok]"@, msg@),
{
    tag_line(enabled, "\x1b[38;5;83m\u{2714}", "[ok]", msg)
}

/// Red X, or `[error]`.
pub fn fail(msg: &str, enabled: bool) -> (r: String)
    ensures
        r@ == tagged(enabled, "\x1b[38;5;196m\u{2718}"@, "[error]"@, msg@),
{
    tag_line(enabled, "\x1b[38;5;196m\u{2718}", "[error]", msg)
}

/// Cyan arrow for an in-progress step, or `[..]`.
pub fn step(msg: &str, enabled: bool) -> (r: String)
    ensures
        r@ == tagged(enabled, "\x1b[38;5;45m\u{279c}"@, "[..]"@, msg@),
{
    tag_line(enabled, "\x1b[38;5;45m\u{279c}", "[..]", msg)
}

/// Yellow warning triangle, or `[warn]`.
pub fn warn(msg: &str, enabled: bool) -> (r: String)
    ensures
        r@ == tagged(enabled, "\x1b[38;5;208m\u{26a0}"@, "[warn]"@, msg@),
{
    tag_line(enabled, "\x1b[38;5;208m\u{26a0}", "[warn]", msg)
}

/// Bold text.
pub fn bold(s: &str, enabled: bool) -> (r: String)
    ensures
        r@ == wrapped(enabled, "\x1b[1m"@, s@),
{
    wrap(enabled, "\x1b[1m", s)
}

/// Dim text.
pub fn dim(s: &str, enabled: bool) -> (r: String)
    ensures
        r@ == wrapped(enabled, "\x1b[2m"@, s@),
{
    wrap(enabled, "\x1b[2m", s)
}

/// Text in the 256-color palette entry `code`.
pub fn color(code: u8, s: &str, enabled: bool) -> (r: String)
    ensures
        r@ == wrapped(enabled, "\x1b[38;5;"@ + decimal(code as nat) + "m"@, s@),
{
    if enabled {
        let mut out = string_from("\x1b[38;5;");
        append_decimal(&mut out, code as u64);
        append_str(&mut out, "m");
        append_str(&mut out, s);
        append_str(&mut out, "\x1b[0m");
        out
    } else {
        string_from(s)
    }
}

/// `n / d` rounded to the nearest integer, a tie going to the even neighbour.
pub open spec fn div_round_even(n: nat, d: nat) -> nat {
    let q = n / d;
    let r = n % d;
    if 2 * r < d {
        q
    } else if 2 * r > d {
        q + 1
    } else if q % 2 == 0 {
        q
    } else {
        q + 1
    }
}

/// The spacing of 64-bit floats around `x`: 1 below 2^53, doubling with each further bit
/// of `x`.
pub open spec fn ulp53(x: nat) -> nat
    decreases x,
{
    if x < 0x20_0000_0000_0000 {
        1
    } else {
        2 * ulp53(x / 2)
    }
}

/// The value of the 64-bit float nearest to `x` (ties to an even significand), which is
/// what converting an integer to `f64` yields.
pub open spec fn as_f64(x: nat) -> nat {
    div_round_even(x, ulp53(x)) * ulp53(x)
}

/// A number of tenths written with one decimal place: `12` is `1.2`.
pub open spec fn fixed1(tenths: nat) -> Seq<char> {
    decimal(tenths / 10) + "."@ + decimal(tenths % 10)
}

/// A byte count for humans: whole bytes below 1 KiB, else KiB or MiB with one decimal,
/// rounded to nearest with ties to even (the size is first taken as a 64-bit float).
pub open spec fn human_size_spec(bytes: u64) -> Seq<char> {
    if bytes < 1024 {
        decimal(bytes as nat) + " B"@
    } else if bytes < 1024 * 1024 {
        fixed1(div_round_even(bytes as nat * 10, 1024)) + " KB"@
    } else {
        fixed1(div_round_even(as_f64(bytes as nat) * 10, 1024 * 1024)) + " MB"@
    }
}

proof fn lemma_ulp53_bounds(x: nat)
    ensures
        ulp53(x) >= 1,
        x < ulp53(x) * 0x20_0000_0000_0000,
        x >= 0x20_0000_0000_0000 ==> ulp53(x) * 0x10_0000_0000_0000 <= x,
    decreases x,
{
    if x >= 0x20_0000_0000_0000 {
        lemma_ulp53_bounds(x / 2);
    }
}

fn round_even_div(n: u128, d: u128) -> (r: u128)
    requires
        d > 0,
        d <= 0x1_0000_0000,
        n <= 0x1_0000_0000_0000_0000_0000,
    ensures
        r == div_round_even(n as nat, d as nat),
        r <= n / d + 1,
{
    let q = n / d;
    let rem = n % d;
    if 2 * rem < d {
        q
    } else if 2 * rem > d {
        q + 1
    } else if q % 2 == 0 {
        q
    } else {
        q + 1
    }
}

fn ulp53_of(x: u64) -> (u: u64)
    ensures
        u == ulp53(x as nat),
    decreases x,
{
    if x < 0x20_0000_0000_0000 {
        1
    } else {
        let h = ulp53_of(x / 2);
        proof {
            lemma_ulp53_bounds((x / 2) as nat);
        }
        2 * h
    }
}

fn append_fixed1(s: &mut String, tenths: u64)
    ensures
        final(s)@ == old(s)@ + fixed1(tenths as nat),
{
    append_decimal(s, tenths / 10);
    append_str(s, ".");
    append_decimal(s, tenths % 10);
    assert(final(s)@ =~= old(s)@ + fixed1(tenths as nat));
}

/// Format a byte size in a human-readable way: `512 B`, `1.5 KB`, `2.0 MB`.
pub fn human_size(bytes: u64) -> (r: String)
    ensures
        r@ == human_size_spec(bytes),
{
    let mut out = String::new();
    if bytes < 1024 {
        append_decimal(&mut out, bytes);
        append_str(&mut out, " B");
    } else if bytes < 1024 * 1024 {
        let t = round_even_div((bytes as u128) * 10, 1024);
        assert(t <= 10 * 1024 * 1024);
        append_fixed1(&mut out, t as u64);
        append_str(&mut out, " KB");
    } else {
        let u = ulp53_of(bytes);
        proof {
            lemma_ulp53_bounds(bytes as nat);
        }
        let b: u128 = bytes as u128;
        let uu: u128 = u as u128;
        assert(uu <= 0x1000) by {
            if bytes >= 0x20_0000_0000_0000 {
                assert(ulp53(bytes as nat) * 0x10_0000_0000_0000 <= bytes);
            }
        };
        let q = round_even_div(b, uu);
        assert(q * uu <= b + uu) by (nonlinear_arith)
            requires
                q <= b / uu + 1,
                uu > 0,
        {
            assert((b / uu) * uu <= b);
        };
        let f = q * uu;
        let t = round_even_div(f * 10, 1024 * 1024);
        assert(t <= 0x1_0000_0000_0000) by (nonlinear_arith)
            requires
                t <= (f * 10) as int / 0x10_0000 + 1,
                f <= 0x1_0000_0000_0000_1000,
        ;
        append_fixed1(&mut out, t as u64);
        append_str(&mut out, " MB");
    }
    assert(out@ =~= human_size_spec(bytes));
    out
}

/// 2^82: durations are measured in units of 2^-82 s, in which every 64-bit float that
/// can arise below is a whole number.
pub open spec fn unit82() -> nat {
    0x4_0000_0000_0000_0000_0000
}

/// The 64-bit float `0.1`, in those units.
pub open spec fn tenth_f64() -> nat {
    0x6666_6666_6666_6800_0000
}

/// The 64-bit float nearest to `p / q` (ties to an even significand), for a quotient of
/// at least 2^52 or zero.
pub open spec fn round_ratio(p: nat, q: nat) -> nat {
    let s = ulp53(p / q);
    div_round_even(p, q * s) * s
}

/// A duration's seconds as a 64-bit float, in units of 2^-82 s: the nanoseconds divided
/// by 10^9 and rounded, then added to the whole seconds (themselves rounded to a float)
/// and rounded again.
pub open spec fn duration_units(secs: u64, nanos: u32) -> nat {
    let f = round_ratio(nanos as nat * unit82(), 1_000_000_000);
    if secs == 0 {
        f
    } else {
        as_f64(as_f64(secs as nat) * unit82() + f)
    }
}

/// The text for a duration of `v` units: below the float `0.1` s, whole milliseconds
/// (the float times 1000, rounded to a float, then to an integer); below 60 s, seconds
/// with one decimal; else minutes and seconds of the whole seconds (at most `u64::MAX`).
pub open spec fn duration_text(v: nat) -> Seq<char> {
    if v < tenth_f64() {
        decimal(div_round_even(as_f64(v * 1000), unit82())) + "ms"@
    } else if v < 60 * unit82() {
        fixed1(div_round_even(v * 10, unit82())) + "s"@
    } else {
        let t: nat = if v / unit82() > 0xffff_ffff_ffff_ffff {
            0xffff_ffff_ffff_ffff
        } else {
            v / unit82()
        };
        decimal(t / 60) + "m "@ + decimal(t % 60) + "s"@
    }
}

/// A duration for humans, as the float formatting of its seconds gives it.
pub open spec fn human_duration_spec(secs: u64, nanos: u32) -> Seq<char> {
    duration_text(duration_units(secs, nanos))
}

fn ulp53_wide(x: u128) -> (u: u128)
    ensures
        u == ulp53(x as nat),
    decreases x,
{
    if x < 0x20_0000_0000_0000 {
        1
    } else {
        let h = ulp53_wide(x / 2);
        proof {
            lemma_ulp53_bounds((x / 2) as nat);
            lemma_ulp53_bounds(x as nat);
        }
        2 * h
    }
}

fn round_even_div_wide(n: u128, d: u128) -> (r: u128)
    requires
        0 < d <= 0x4000_0000_0000_0000_0000_0000_0000_0000,
        n < 0x8000_0000_0000_0000_0000_0000_0000_0000,
    ensures
        r == div_round_even(n as nat, d as nat),
        r <= n / d + 1,
{
    let q = n / d;
    let rem = n % d;
    if 2 * rem < d {
        q
    } else if 2 * rem > d {
        q + 1
    } else if q % 2 == 0 {
        q
    } else {
        q + 1
    }
}

/// `as_f64(x)` for an `x` that fits in 125 bits.
fn to_f64_grid(x: u128) -> (r: u128)
    requires
        x < 0x2000_0000_0000_0000_0000_0000_0000_0000,
    ensures
        r == as_f64(x as nat),
        r <= x + x / 0x10_0000_0000_0000 + 1,
{
    let s = ulp53_wide(x);
    proof {
        lemma_ulp53_bounds(x as nat);
    }
    assert(s <= x / 0x10_0000_0000_0000 + 1) by {
        if x >= 0x20_0000_0000_0000 {
            assert(s * 0x10_0000_0000_0000 <= x);
        }
    }
    let m = round_even_div_wide(x, s);
    assert(m * s <= x + s) by (nonlinear_arith)
        requires
            m <= x / s + 1,
            s > 0,
    {
        assert((x / s) * s <= x);
    }
    m * s
}

fn duration_text_of(v: u128) -> (r: String)
    requires
        v < 0x1000_0000_0000_0000_0000_0000_0000_0000,
    ensures
        r@ == duration_text(v as nat),
{
    let mut out = String::new();
    if v < 0x6666_6666_6666_6800_0000 {
        let w = to_f64_grid(v * 1000);
        let ms = round_even_div_wide(w, 0x4_0000_0000_0000_0000_0000);
        assert(ms <= 0x1_0000_0000);
        append_decimal(&mut out, ms as u64);
        append_str(&mut out, "ms");
    } else if v < 60 * 0x4_0000_0000_0000_0000_0000 {
        let t = round_even_div_wide(v * 10, 0x4_0000_0000_0000_0000_0000);
        assert(t <= 601);
        append_fixed1(&mut out, t as u64);
        append_str(&mut out, "s");
    } else {
        let whole = v / 0x4_0000_0000_0000_0000_0000;
        let t: u64 = if whole > 0xffff_ffff_ffff_ffff {
            0xffff_ffff_ffff_ffff
        } else {
            whole as u64
        };
        append_decimal(&mut out, t / 60);
        append_str(&mut out, "m ");
        append_decimal(&mut out, t % 60);
        append_str(&mut out, "s");
    }
    assert(out@ =~= duration_text(v as nat));
    out
}

/// 2 to the power `j`.
pub open spec fn two_to(j: nat) -> nat
    decreases j,
{
    if j == 0 {
        1
    } else {
        2 * two_to((j - 1) as nat)
    }
}

proof fn lemma_two_to_pos(j: nat)
    ensures
        two_to(j) >= 1,
    decreases j,
{
    if j > 0 {
        lemma_two_to_pos((j - 1) as nat);
    }
}

/// Scaling a number down by a power of two scales its float spacing alike, while the
/// scaled number is still at least 2^53.
proof fn lemma_ulp53_scaled(x: nat, j: nat)
    requires
        x / two_to(j) >= 0x20_0000_0000_0000,
    ensures
        ulp53(x) == ulp53(x / two_to(j)) * two_to(j),
    decreases j,
{
    if j > 0 {
        let c = two_to((j - 1) as nat);
        lemma_two_to_pos((j - 1) as nat);
        vstd::arithmetic::div_mod::lemma_div_denominator(x as int, c as int, 2);
        assert(c * 2 == two_to(j));
        let y = x / c;
        assert(y / 2 == x / two_to(j));
        assert(y >= 0x20_0000_0000_0000);
        lemma_ulp53_scaled(x, (j - 1) as nat);
        assert(ulp53(y) == 2 * ulp53(y / 2));
        let a = ulp53(x);
        let b = ulp53(y);
        let e = ulp53(y / 2);
        let t = two_to(j);
        assert(a == e * t) by (nonlinear_arith)
            requires
                a == b * c,
                b == 2 * e,
                t == c * 2,
        ;
    } else {
        assert(two_to(0) == 1);
        assert(x / 1 == x);
    }
}

/// Round-to-even of `xp / sp`, where `sticky` tells whether a remainder lies below the
/// bits that `xp` keeps.
pub open spec fn round_even_sticky(xp: nat, sp: nat, sticky: bool) -> nat {
    let q = xp / sp;
    let rm = xp % sp;
    if 2 * rm < sp {
        q
    } else if 2 * rm > sp {
        q + 1
    } else if sticky {
        q + 1
    } else if q % 2 == 0 {
        q
    } else {
        q + 1
    }
}

/// Rounding `xp * 2^40 + r0` to a multiple of `sp * 2^40` needs only `xp`, `sp` and
/// whether `r0` is zero.
proof fn lemma_round_scaled(xp: nat, r0: nat, sp: nat)
    requires
        sp >= 2,
        sp % 2 == 0,
        r0 < 0x100_0000_0000,
    ensures
        div_round_even(xp * 0x100_0000_0000 + r0, sp * 0x100_0000_0000) == round_even_sticky(
            xp,
            sp,
            r0 != 0,
        ),
{
    let k: int = 0x100_0000_0000;
    let q = xp / sp;
    let rm = xp % sp;
    let x = xp * k + r0;
    let big_s = sp * k;
    assert(xp == q * sp + rm) by {
        vstd::arithmetic::div_mod::lemma_fundamental_div_mod(xp as int, sp as int);
    }
    assert(x == q * big_s + (rm * k + r0)) by (nonlinear_arith)
        requires
            xp == q * sp + rm,
            x == xp * k + r0,
            big_s == sp * k,
    ;
    assert(rm * k + r0 < big_s);
    vstd::arithmetic::div_mod::lemma_fundamental_div_mod_converse(
        x,
        big_s,
        q as int,
        rm * k + r0,
    );
}

/// Format a duration for humans — `42ms`, `3.5s`, `2m 5s` — from its whole seconds and
/// its nanoseconds below one second, as formatting its seconds taken as a 64-bit float
/// does: below 0.1 s whole milliseconds, below a minute seconds to one decimal (ties to
/// even), else minutes and seconds.
#[verifier::spinoff_prover]
pub fn human_duration(secs: u64, nanos: u32) -> (r: String)
    requires
        nanos < 1_000_000_000,
    ensures
        r@ == human_duration_spec(secs, nanos),
{
    // The fraction of a second as a float, in units of 2^-82 s.
    let p: u128 = nanos as u128 * 0x4_0000_0000_0000_0000_0000;
    let pq = p / 1_000_000_000;
    let s = ulp53_wide(pq);
    proof {
        lemma_ulp53_bounds(pq as nat);
    }
    assert(s <= 0x4000_0000) by {
        if pq >= 0x20_0000_0000_0000 {
            assert(s * 0x10_0000_0000_0000 <= pq);
        }
    }
    let d = 1_000_000_000 * s;
    let m = round_even_div_wide(p, d);
    assert(m * s <= pq + s) by (nonlinear_arith)
        requires
            m <= p / d + 1,
            d == 1_000_000_000 * s,
            pq == p / 1_000_000_000,
            s > 0,
    {
        vstd::arithmetic::div_mod::lemma_div_denominator(p as int, 1_000_000_000, s as int);
        assert((pq / s) * s <= pq);
    }
    let f = m * s;
    assert(f == round_ratio(nanos as nat * unit82(), 1_000_000_000));
    if secs == 0 {
        assert(duration_units(secs, nanos) == f);
        return duration_text_of(f);
    }
    if secs < 0x100_0000_0000 {
        proof {
            assert(ulp53(secs as nat) == 1);
            assert(div_round_even(secs as nat, 1) == secs);
        }
        let v = to_f64_grid(secs as u128 * 0x4_0000_0000_0000_0000_0000 + f);
        proof {
            assert(as_f64(secs as nat) == secs);
            assert(duration_units(secs, nanos) == v);
        }
        return duration_text_of(v);
    }
    // Many seconds: the sum is at least 2^122 units; round it at 2^40 times coarser.
    let sw: u128 = secs as u128;
    let u = ulp53_wide(sw);
    proof {
        lemma_ulp53_bounds(secs as nat);
    }
    assert(u <= 0x1000) by {
        if secs >= 0x20_0000_0000_0000 {
            assert(u * 0x10_0000_0000_0000 <= secs);
        }
    }
    let qa = round_even_div_wide(sw, u);
    assert(qa * u <= sw + u) by (nonlinear_arith)
        requires
            qa <= sw / u + 1,
            u > 0,
    {
        assert((sw / u) * u <= sw);
    }
    let a = qa * u;
    assert(a >= 0x80_0000_0000) by (nonlinear_arith)
        requires
            a == qa * u,
            qa >= sw / u,
            sw >= 0x100_0000_0000,
            u <= 0x1000,
            u > 0,
    {
        assert(sw < (sw / u) * u + u) by {
            vstd::arithmetic::div_mod::lemma_fundamental_div_mod(sw as int, u as int);
        }
    }
    let xp: u128 = a * 0x400_0000_0000 + f / 0x100_0000_0000;
    let r0: u128 = f % 0x100_0000_0000;
    let sp = ulp53_wide(xp);
    proof {
        lemma_ulp53_bounds(xp as nat);
        assert(sp == 2 * ulp53((xp / 2) as nat));
        lemma_ulp53_bounds((xp / 2) as nat);
    }
    assert(sp <= 0x10_0000_0000_0000_0000) by {
        assert(sp * 0x10_0000_0000_0000 <= xp);
    }
    let q = xp / sp;
    let rm = xp % sp;
    let half = sp / 2;
    let mm = if rm < half {
        q
    } else if rm > half {
        q + 1
    } else if r0 != 0 {
        q + 1
    } else if q % 2 == 0 {
        q
    } else {
        q + 1
    };
    assert(mm == round_even_sticky(xp as nat, sp as nat, r0 != 0));
    assert(mm * sp <= xp + sp) by (nonlinear_arith)
        requires
            mm <= q + 1,
            q == xp / sp,
            sp > 0,
    {
        assert(q * sp <= xp);
    }
    let w = mm * sp;
    let whole = w / 0x400_0000_0000;
    proof {
        let big_x: nat = a as nat * unit82() + f as nat;
        assert(big_x == xp as nat * 0x100_0000_0000 + r0 as nat);
        vstd::arithmetic::div_mod::lemma_fundamental_div_mod_converse(
            big_x as int,
            0x100_0000_0000,
            xp as int,
            r0 as int,
        );
        reveal_with_fuel(two_to, 41);
        assert(two_to(40) == 0x100_0000_0000);
        lemma_ulp53_scaled(big_x, 40);
        assert(ulp53(big_x) == sp * 0x100_0000_0000);
        lemma_round_scaled(xp as nat, r0 as nat, sp as nat);
        let v = as_f64(big_x);
        let big_s: nat = sp as nat * 0x100_0000_0000;
        assert(div_round_even(big_x, big_s) == mm);
        assert(v == mm * big_s);
        assert(v == w * 0x100_0000_0000) by (nonlinear_arith)
            requires
                v == mm * big_s,
                big_s == sp * 0x100_0000_0000,
                w == mm * sp,
        ;
        assert(w >= 0x1_0000_0000_0000_0000_0000) by (nonlinear_arith)
            requires
                w == mm * sp,
                mm >= q,
                q == xp / sp,
                sp > 0,
                sp * 0x10_0000_0000_0000 <= xp,
                xp >= 0x2_0000_0000_0000_0000_0000,
        {
            vstd::arithmetic::div_mod::lemma_fundamental_div_mod(xp as int, sp as int);
            assert(xp < q * sp + sp);
        }
        assert(v / unit82() == whole) by {
            vstd::arithmetic::div_mod::lemma_div_denominator(
                v as int,
                0x100_0000_0000,
                0x400_0000_0000,
            );
        }
        assert(v >= 60 * unit82());
        assert(duration_units(secs, nanos) == v);
    }
    let t: u64 = if whole > 0xffff_ffff_ffff_ffff {
        0xffff_ffff_ffff_ffff
    } else {
        whole as u64
    };
    let mut out = String::new();
    append_decimal(&mut out, t / 60);
    append_str(&mut out, "m ");
    append_decimal(&mut out, t % 60);
    append_str(&mut out, "s");
    assert(out@ =~= human_duration_spec(secs, nanos));
    out
}

/// With color off, every decoration leaves the text as it is, and each tagged message
/// ends with the message itself.
pub proof fn plain_output_keeps_text(start: Seq<char>, symbol: Seq<char>, tag: Seq<char>, s: Seq<
    char,
>)
    ensures
        wrapped(false, start, s) == s,
        tagged(false, symbol, tag, s).skip(tagged(false, symbol, tag, s).len() - s.len()) == s,
        tagged(true, symbol, tag, s).skip(tagged(true, symbol, tag, s).len() - s.len()) == s,
{
    let a = tagged(false, symbol, tag, s);
    let b = tagged(true, symbol, tag, s);
    assert(a.skip(a.len() - s.len()) =~= s);
    assert(b.skip(b.len() - s.len()) =~= s);
}

} // verus!
