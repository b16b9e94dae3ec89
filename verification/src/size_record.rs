//! The build size record: a text file with one `<program path> <bytes>` line per built
//! program, kept between builds so that each build can show how much the program grew or
//! shrank since the last one.

use vstd::prelude::*;
use crate::dump::{all_digits, digit_value, digits_value, is_digit, parse_u64, parse_u64_spec, sign_stripped};
use crate::style::{color, human_size, human_size_spec, wrapped};
use crate::text::{
    append_char, append_chars, append_decimal, append_str, chars_of, chars_start_with, decimal,
    digit_char, has_prefix, lemma_newline_pos_bound, lemma_newline_pos_exact, lines_of, lines_spec,
    newline_pos, strip_cr,
};

verus! {

broadcast use vstd::string::group_string_axioms;

/// The text after the last space of `line`, if it has a space.
pub open spec fn after_last_space(line: Seq<char>) -> Option<Seq<char>>
    decreases line.len(),
{
    if line.len() == 0 {
        None
    } else if line.last() == ' ' {
        Some(seq![])
    } else {
        match after_last_space(line.drop_last()) {
            Some(t) => Some(t.push(line.last())),
            None => None,
        }
    }
}

/// The size recorded for `key` among `lines`: the first line that starts with `key` holds
/// it after its last space (a malformed first match records nothing).
pub open spec fn recorded_size_in(lines: Seq<Seq<char>>, key: Seq<char>) -> Option<u64>
    decreases lines.len(),
{
    if lines.len() == 0 {
        None
    } else if has_prefix(lines[0], key) {
        match after_last_space(lines[0]) {
            Some(t) => parse_u64_spec(t),
            None => None,
        }
    } else {
        recorded_size_in(lines.drop_first(), key)
    }
}

/// The size the record `contents` holds for `key`.
pub open spec fn recorded_size_spec(contents: Seq<char>, key: Seq<char>) -> Option<u64> {
    recorded_size_in(lines_spec(contents), key)
}

/// The lines of the record that are not about `key`, in order.
pub open spec fn other_records(lines: Seq<Seq<char>>, key: Seq<char>) -> Seq<Seq<char>>
    decreases lines.len(),
{
    if lines.len() == 0 {
        seq![]
    } else if has_prefix(lines.last(), key) {
        other_records(lines.drop_last(), key)
    } else {
        other_records(lines.drop_last(), key).push(lines.last())
    }
}

/// Lines joined with one `'\n'` between neighbours.
pub open spec fn joined_by_newline(lines: Seq<Seq<char>>) -> Seq<char>
    decreases lines.len(),
{
    if lines.len() == 0 {
        seq![]
    } else if lines.len() == 1 {
        lines[0]
    } else {
        lines[0] + "\n"@ + joined_by_newline(lines.drop_first())
    }
}

/// The record line for `key`: the key, a space, then the size in decimal.
pub open spec fn record_line(key: Seq<char>, size: u64) -> Seq<char> {
    key + " "@ + decimal(size as nat)
}

/// The record after saving `size` for `key`: every other line kept in order, then the
/// line for `key`.
pub open spec fn updated_record_spec(contents: Seq<char>, key: Seq<char>, size: u64) -> Seq<char> {
    joined_by_newline(other_records(lines_spec(contents), key).push(record_line(key, size)))
}

/// The delta shown after a build: nothing without a previous size or when the size is
/// unchanged, else `, ` and the growth in red (`+..`) or the shrink in green (`-..`).
pub open spec fn size_delta_spec(prev: Option<u64>, new_size: u64, enabled: bool) -> Seq<char> {
    match prev {
        None => seq![],
        Some(p) => if new_size == p {
            seq![]
        } else if new_size > p {
            ", "@ + wrapped(
                enabled,
                "\x1b[38;5;"@ + decimal(196) + "m"@,
                "+"@ + human_size_spec((new_size - p) as u64),
            )
        } else {
            ", "@ + wrapped(
                enabled,
                "\x1b[38;5;"@ + decimal(83) + "m"@,
                "-"@ + human_size_spec((p - new_size) as u64),
            )
        },
    }
}

proof fn lemma_after_last_space_split(l: Seq<char>, i: int)
    requires
        0 <= i <= l.len(),
        forall|k: int| i <= k < l.len() ==> l[k] != ' ',
    ensures
        after_last_space(l) == match after_last_space(l.take(i)) {
            Some(t) => Some(t + l.skip(i)),
            None => None::<Seq<char>>,
        },
    decreases l.len() - i,
{
    if i == l.len() {
        assert(l.take(i) == l);
        match after_last_space(l) {
            Some(t) => {
                assert(t + l.skip(i) =~= t);
            },
            None => {},
        }
    } else {
        lemma_after_last_space_split(l, i + 1);
        let c = l[i];
        assert(l.take(i + 1).drop_last() == l.take(i));
        assert(l.take(i + 1).last() == c);
        match after_last_space(l.take(i)) {
            Some(t) => {
                assert(t.push(c) + l.skip(i + 1) =~= t + l.skip(i));
            },
            None => {},
        }
    }
}

fn after_last_space_of(line: &Vec<char>) -> (r: Option<Vec<char>>)
    ensures
        match after_last_space(line@) {
            Some(t) => r matches Some(v) && v@ == t,
            None => r is None,
        },
{
    let n = line.len();
    let mut i: usize = n;
    while i > 0
        invariant
            n == line@.len(),
            i <= n,
            forall|k: int| i <= k < n ==> line@[k] != ' ',
        decreases i,
    {
        if line[i - 1] == ' ' {
            proof {
                lemma_after_last_space_split(line@, i as int);
                assert(line@.take(i as int).last() == ' ');
            }
            let mut v: Vec<char> = Vec::new();
            let mut k: usize = i;
            while k < n
                invariant
                    n == line@.len(),
                    i <= k <= n,
                    v@ == line@.subrange(i as int, k as int),
                decreases n - k,
            {
                v.push(line[k]);
                k = k + 1;
            }
            assert(v@ =~= seq![] + line@.skip(i as int));
            return Some(v);
        }
        i = i - 1;
    }
    proof {
        lemma_after_last_space_split(line@, 0);
        assert(line@.take(0).len() == 0);
    }
    None
}

/// The size the record `contents` holds for `key`: after the last space of the first line
/// that starts with `key`, parsed as a `u64`.
pub fn recorded_size(contents: &str, key: &str) -> (r: Option<u64>)
    ensures
        r == recorded_size_spec(contents@, key@),
{
    let c = chars_of(contents);
    let k = chars_of(key);
    let lines = lines_of(&c);
    let ghost ls = lines@.map_values(|l: Vec<char>| l@);
    let n = lines.len();
    let mut i: usize = 0;
    assert(ls.skip(0) == ls);
    while i < n
        invariant
            n == lines@.len(),
            ls == lines@.map_values(|l: Vec<char>| l@),
            ls == lines_spec(contents@),
            k@ == key@,
            i <= n,
            recorded_size_in(ls, key@) == recorded_size_in(ls.skip(i as int), key@),
        decreases n - i,
    {
        proof {
            assert(ls.skip(i as int)[0] == lines@[i as int]@);
            assert(ls.skip(i as int).drop_first() == ls.skip(i + 1));
        }
        if chars_start_with(&lines[i], &k) {
            return match after_last_space_of(&lines[i]) {
                Some(t) => parse_u64(&t),
                None => None,
            };
        }
        i = i + 1;
    }
    None
}

/// The delta shown after a build, from the previous size (if one was recorded) to the new
/// one. Sizes are compared as signed 64-bit integers, so both must be at most `i64::MAX`.
pub fn size_delta_text(prev: Option<u64>, new_size: u64, enabled: bool) -> (r: String)
    requires
        new_size <= i64::MAX,
        prev matches Some(p) ==> p <= i64::MAX,
    ensures
        r@ == size_delta_spec(prev, new_size, enabled),
{
    match prev {
        None => String::new(),
        Some(p) => {
            if new_size == p {
                String::new()
            } else if new_size > p {
                let mut t = String::new();
                append_str(&mut t, "+");
                let h = human_size(new_size - p);
                append_str(&mut t, h.as_str());
                let colored = color(196, t.as_str(), enabled);
                let mut out = String::new();
                append_str(&mut out, ", ");
                append_str(&mut out, colored.as_str());
                out
            } else {
                let mut t = String::new();
                append_str(&mut t, "-");
                let h = human_size(p - new_size);
                append_str(&mut t, h.as_str());
                let colored = color(83, t.as_str(), enabled);
                let mut out = String::new();
                append_str(&mut out, ", ");
                append_str(&mut out, colored.as_str());
                out
            }
        },
    }
}

/// The delta shown after a build of the program recorded under `key`, given the record's
/// contents (an unreadable record reads as empty).
pub fn size_delta(contents: &str, key: &str, new_size: u64, enabled: bool) -> (r: String)
    requires
        new_size <= i64::MAX,
        recorded_size_spec(contents@, key@) matches Some(p) ==> p <= i64::MAX,
    ensures
        r@ == size_delta_spec(recorded_size_spec(contents@, key@), new_size, enabled),
{
    let prev = recorded_size(contents, key);
    size_delta_text(prev, new_size, enabled)
}

proof fn lemma_joined_push(lines: Seq<Seq<char>>, x: Seq<char>)
    requires
        lines.len() > 0,
    ensures
        joined_by_newline(lines.push(x)) == joined_by_newline(lines) + "\n"@ + x,
    decreases lines.len(),
{
    let p = lines.push(x);
    assert(p[0] == lines[0]);
    if lines.len() == 1 {
        assert(p.drop_first() =~= seq![x]);
        assert(joined_by_newline(seq![x]) == x);
        assert(joined_by_newline(lines) == lines[0]);
        assert(joined_by_newline(p) == lines[0] + "\n"@ + x);
    } else {
        assert(p.drop_first() =~= lines.drop_first().push(x));
        lemma_joined_push(lines.drop_first(), x);
        let j = joined_by_newline(lines.drop_first());
        assert(joined_by_newline(p) == lines[0] + "\n"@ + (j + "\n"@ + x));
        assert(joined_by_newline(lines) == lines[0] + "\n"@ + j);
        assert(lines[0] + "\n"@ + (j + "\n"@ + x) =~= lines[0] + "\n"@ + j + "\n"@ + x);
    }
}

/// The record after saving `size` for `key`: the lines about `key` dropped, the others
/// kept in order, and `<key> <size>` added last.
pub fn updated_record(contents: &str, key: &str, size: u64) -> (r: String)
    ensures
        r@ == updated_record_spec(contents@, key@, size),
{
    let c = chars_of(contents);
    let k = chars_of(key);
    let lines = lines_of(&c);
    let ghost ls = lines@.map_values(|l: Vec<char>| l@);
    let n = lines.len();
    let mut out = String::new();
    let mut any = false;
    let mut i: usize = 0;
    while i < n
        invariant
            n == lines@.len(),
            ls == lines@.map_values(|l: Vec<char>| l@),
            ls == lines_spec(contents@),
            k@ == key@,
            i <= n,
            any == (other_records(ls.take(i as int), key@).len() > 0),
            out@ == joined_by_newline(other_records(ls.take(i as int), key@)),
        decreases n - i,
    {
        let ghost kept = other_records(ls.take(i as int), key@);
        proof {
            assert(ls.take(i + 1).drop_last() == ls.take(i as int));
            assert(ls.take(i + 1).last() == lines@[i as int]@);
        }
        let ghost l = lines@[i as int]@;
        if !chars_start_with(&lines[i], &k) {
            assert(other_records(ls.take(i + 1), key@) == kept.push(l));
            if any {
                proof {
                    lemma_joined_push(kept, l);
                }
                append_char(&mut out, '\n');
                append_chars(&mut out, &lines[i]);
                proof {
                    reveal_strlit("\n");
                }
                assert(out@ =~= joined_by_newline(kept) + "\n"@ + l);
            } else {
                assert(kept.len() == 0);
                assert(kept.push(l) =~= seq![l]);
                assert(joined_by_newline(seq![l]) == l);
                append_chars(&mut out, &lines[i]);
                assert(out@ =~= l);
            }
            any = true;
        } else {
            assert(other_records(ls.take(i + 1), key@) == kept);
        }
        i = i + 1;
    }
    assert(ls.take(n as int) == ls);
    let ghost kept = other_records(ls, key@);
    let ghost entry = record_line(key@, size);
    let ghost before = out@;
    if any {
        proof {
            lemma_joined_push(kept, entry);
        }
        append_char(&mut out, '\n');
        proof {
            reveal_strlit("\n");
        }
        assert(out@ =~= joined_by_newline(kept) + "\n"@);
    } else {
        assert(kept.len() == 0);
        assert(kept.push(entry) =~= seq![entry]);
        assert(joined_by_newline(seq![entry]) == entry);
    }
    let ghost mid = out@;
    append_str(&mut out, key);
    append_str(&mut out, " ");
    append_decimal(&mut out, size);
    assert(out@ =~= mid + entry);
    assert(out@ =~= updated_record_spec(contents@, key@, size));
    out
}

/// The line has no line break.
pub open spec fn single_line(l: Seq<char>) -> bool {
    forall|j: int| 0 <= j < l.len() ==> l[j] != '\n'
}

proof fn lemma_lines_are_single(s: Seq<char>)
    ensures
        forall|i: int| 0 <= i < lines_spec(s).len() ==> single_line(#[trigger] lines_spec(s)[i]),
    decreases s.len(),
{
    if s.len() > 0 {
        lemma_newline_pos_bound(s);
        let i = newline_pos(s);
        if i < s.len() {
            lemma_lines_are_single(s.skip(i as int + 1));
            let first = strip_cr(s.take(i as int));
            assert(single_line(first)) by {
                assert forall|j: int| 0 <= j < first.len() implies first[j] != '\n' by {
                    assert(first[j] == s[j]);
                }
            }
            let rest = lines_spec(s.skip(i as int + 1));
            assert(lines_spec(s) == seq![first] + rest);
            assert forall|k: int| 0 <= k < lines_spec(s).len() implies single_line(
                #[trigger] lines_spec(s)[k],
            ) by {
                if k > 0 {
                    assert(lines_spec(s)[k] == rest[k - 1]);
                }
            }
        }
    }
}

proof fn lemma_other_records(lines: Seq<Seq<char>>, key: Seq<char>)
    ensures
        forall|i: int|
            0 <= i < other_records(lines, key).len() ==> {
                &&& !has_prefix(#[trigger] other_records(lines, key)[i], key)
                &&& lines.contains(other_records(lines, key)[i])
            },
    decreases lines.len(),
{
    if lines.len() > 0 {
        lemma_other_records(lines.drop_last(), key);
        let o = other_records(lines, key);
        let p = other_records(lines.drop_last(), key);
        assert forall|i: int| 0 <= i < o.len() implies !has_prefix(#[trigger] o[i], key)
            && lines.contains(o[i]) by {
            if i < p.len() {
                assert(o[i] == p[i]);
                let j = choose|j: int| 0 <= j < lines.drop_last().len() && lines.drop_last()[j] == p[i];
                assert(lines[j] == p[i]);
            } else {
                assert(o[i] == lines.last());
                assert(lines[lines.len() - 1] == lines.last());
            }
        }
    }
}

proof fn lemma_lines_of_joined(lines: Seq<Seq<char>>)
    requires
        lines.len() > 0,
        forall|i: int| 0 <= i < lines.len() ==> single_line(#[trigger] lines[i]),
        lines.last().len() > 0,
    ensures
        lines_spec(joined_by_newline(lines)) == lines.drop_last().map_values(
            |l: Seq<char>| strip_cr(l),
        ).push(lines.last()),
    decreases lines.len(),
{
    let first = lines[0];
    if lines.len() == 1 {
        assert(single_line(first));
        lemma_newline_pos_exact(first, first.len() as int);
        assert(lines_spec(first) == seq![first]);
        assert(lines.drop_last().map_values(|l: Seq<char>| strip_cr(l)).push(lines.last())
            =~= seq![first]);
    } else {
        let rest = lines.drop_first();
        assert forall|i: int| 0 <= i < rest.len() implies single_line(#[trigger] rest[i]) by {
            assert(rest[i] == lines[i + 1]);
        }
        lemma_lines_of_joined(rest);
        let j = joined_by_newline(rest);
        let s = first + "\n"@ + j;
        reveal_strlit("\n");
        assert(joined_by_newline(lines) == s);
        assert(single_line(first));
        assert forall|k: int| 0 <= k < first.len() implies s[k] != '\n' by {
            assert(s[k] == first[k]);
        }
        assert(s[first.len() as int] == '\n');
        lemma_newline_pos_exact(s, first.len() as int);
        assert(s.take(first.len() as int) =~= first);
        assert(s.skip(first.len() as int + 1) =~= j);
        assert(lines_spec(s) == seq![strip_cr(first)] + lines_spec(j));
        assert(lines.drop_last() =~= seq![first] + rest.drop_last());
        assert(lines.drop_last().map_values(|l: Seq<char>| strip_cr(l)).push(lines.last())
            =~= seq![strip_cr(first)] + rest.drop_last().map_values(|l: Seq<char>| strip_cr(l)).push(
            rest.last(),
        ));
    }
}

proof fn lemma_strip_cr_keeps_no_prefix(l: Seq<char>, key: Seq<char>)
    requires
        !has_prefix(l, key),
    ensures
        !has_prefix(strip_cr(l), key),
{
    if has_prefix(strip_cr(l), key) {
        assert(l.take(key.len() as int) =~= strip_cr(l).take(key.len() as int));
    }
}

proof fn lemma_recorded_skips(a: Seq<Seq<char>>, b: Seq<Seq<char>>, key: Seq<char>)
    requires
        forall|i: int| 0 <= i < a.len() ==> !has_prefix(#[trigger] a[i], key),
    ensures
        recorded_size_in(a + b, key) == recorded_size_in(b, key),
    decreases a.len(),
{
    if a.len() > 0 {
        assert((a + b)[0] == a[0]);
        assert((a + b).drop_first() =~= a.drop_first() + b);
        assert forall|i: int| 0 <= i < a.drop_first().len() implies !has_prefix(
            #[trigger] a.drop_first()[i],
            key,
        ) by {
            assert(a.drop_first()[i] == a[i + 1]);
        }
        lemma_recorded_skips(a.drop_first(), b, key);
    } else {
        assert(a + b =~= b);
    }
}

proof fn lemma_decimal_digits(n: nat)
    ensures
        decimal(n).len() > 0,
        all_digits(decimal(n)),
        digits_value(decimal(n)) == n,
    decreases n,
{
    let c = digit_char(n % 10);
    assert(c as nat == n % 10 + 48);
    assert(digit_value(c) == n % 10);
    if n < 10 {
        assert(decimal(n) == seq![c]);
        assert(decimal(n).drop_last() =~= Seq::<char>::empty());
        assert(digits_value(decimal(n)) == digits_value(Seq::<char>::empty()) * 10 + digit_value(c));
    }
    if n >= 10 {
        lemma_decimal_digits(n / 10);
        let d = decimal(n / 10);
        assert(decimal(n) == d.push(c));
        assert(decimal(n).drop_last() =~= d);
        assert(decimal(n).last() == c);
        assert(digits_value(decimal(n)) == (n / 10) * 10 + n % 10);
        assert forall|i: int| 0 <= i < decimal(n).len() implies is_digit(#[trigger] decimal(n)[i]) by {
            if i < d.len() {
                assert(decimal(n)[i] == d[i]);
            }
        }
    }
}

proof fn lemma_record_line_reads_back(key: Seq<char>, size: u64)
    ensures
        after_last_space(record_line(key, size)) == Some(decimal(size as nat)),
        parse_u64_spec(decimal(size as nat)) == Some(size),
{
    reveal_strlit(" ");
    let l = record_line(key, size);
    let d = decimal(size as nat);
    lemma_decimal_digits(size as nat);
    let i: int = key.len() as int + 1;
    assert forall|k: int| i <= k < l.len() implies l[k] != ' ' by {
        assert(l[k] == d[k - i]);
        assert(is_digit(d[k - i]));
    }
    lemma_after_last_space_split(l, i);
    assert(l.take(i).last() == ' ');
    assert(l.skip(i) =~= d);
    assert(seq![] + d =~= d);
    assert(sign_stripped(d) == d);
}

/// Saving a program's size and reading the record back gives that size, whatever the
/// record held before (the key is a single line, as a path is).
pub proof fn saved_size_reads_back(contents: Seq<char>, key: Seq<char>, size: u64)
    requires
        single_line(key),
    ensures
        recorded_size_spec(updated_record_spec(contents, key, size), key) == Some(size),
{
    reveal_strlit(" ");
    let lines = lines_spec(contents);
    let kept = other_records(lines, key);
    let entry = record_line(key, size);
    let all = kept.push(entry);
    lemma_lines_are_single(contents);
    lemma_other_records(lines, key);
    lemma_decimal_digits(size as nat);
    assert(single_line(entry)) by {
        let d = decimal(size as nat);
        assert forall|j: int| 0 <= j < entry.len() implies entry[j] != '\n' by {
            if j < key.len() {
                assert(entry[j] == key[j]);
            } else if j > key.len() {
                assert(entry[j] == d[j - key.len() - 1]);
                assert(is_digit(d[j - key.len() - 1]));
            }
        }
    }
    assert forall|i: int| 0 <= i < all.len() implies single_line(#[trigger] all[i]) by {
        if i < kept.len() {
            assert(all[i] == kept[i]);
            let j = choose|j: int| 0 <= j < lines.len() && lines[j] == kept[i];
            assert(single_line(lines[j]));
        }
    }
    lemma_lines_of_joined(all);
    assert(all.drop_last() =~= kept);
    let stripped = kept.map_values(|l: Seq<char>| strip_cr(l));
    assert forall|i: int| 0 <= i < stripped.len() implies !has_prefix(#[trigger] stripped[i], key) by {
        lemma_strip_cr_keeps_no_prefix(kept[i], key);
    }
    lemma_recorded_skips(stripped, seq![entry], key);
    assert(stripped.push(entry) =~= stripped + seq![entry]);
    lemma_record_line_reads_back(key, size);
    assert(has_prefix(entry, key)) by {
        assert(entry.take(key.len() as int) =~= key);
    }
    assert(seq![entry].drop_first().len() == 0);
}

/// Some line of `lines` starts with `key`.
pub open spec fn mentions(lines: Seq<Seq<char>>, key: Seq<char>) -> bool {
    exists|i: int| 0 <= i < lines.len() && has_prefix(#[trigger] lines[i], key)
}

proof fn lemma_recorded_concat(x: Seq<Seq<char>>, y: Seq<Seq<char>>, key: Seq<char>)
    ensures
        recorded_size_in(x + y, key) == if mentions(x, key) {
            recorded_size_in(x, key)
        } else {
            recorded_size_in(y, key)
        },
        !mentions(x, key) ==> recorded_size_in(x, key) is None,
    decreases x.len(),
{
    if x.len() == 0 {
        assert(x + y =~= y);
    } else {
        assert((x + y)[0] == x[0]);
        assert((x + y).drop_first() =~= x.drop_first() + y);
        lemma_recorded_concat(x.drop_first(), y, key);
        if !has_prefix(x[0], key) {
            assert(mentions(x, key) == mentions(x.drop_first(), key)) by {
                if mentions(x, key) {
                    let i = choose|i: int| 0 <= i < x.len() && has_prefix(#[trigger] x[i], key);
                    assert(x.drop_first()[i - 1] == x[i]);
                }
                if mentions(x.drop_first(), key) {
                    let i = choose|i: int|
                        0 <= i < x.drop_first().len() && has_prefix(#[trigger] x.drop_first()[i], key);
                    assert(x[i + 1] == x.drop_first()[i]);
                }
            }
        } else {
            assert(mentions(x, key)) by {
                assert(has_prefix(x[0], key));
            }
        }
    }
}

proof fn lemma_prefixes_meet(s: Seq<char>, a: Seq<char>, b: Seq<char>)
    requires
        has_prefix(s, a),
        has_prefix(s, b),
    ensures
        has_prefix(a, b) || has_prefix(b, a),
{
    if a.len() <= b.len() {
        assert(b.take(a.len() as int) =~= s.take(a.len() as int));
    } else {
        assert(a.take(b.len() as int) =~= s.take(b.len() as int));
    }
}

proof fn lemma_other_records_keep(lines: Seq<Seq<char>>, a: Seq<char>, b: Seq<char>)
    requires
        !has_prefix(a, b),
        !has_prefix(b, a),
    ensures
        mentions(other_records(lines, a), b) == mentions(lines, b),
        recorded_size_in(other_records(lines, a), b) == recorded_size_in(lines, b),
    decreases lines.len(),
{
    if lines.len() > 0 {
        let init = lines.drop_last();
        let last = lines.last();
        lemma_other_records_keep(init, a, b);
        let o = other_records(init, a);
        assert(lines =~= init + seq![last]);
        lemma_recorded_concat(init, seq![last], b);
        assert(mentions(lines, b) == (mentions(init, b) || has_prefix(last, b))) by {
            if mentions(lines, b) {
                let i = choose|i: int| 0 <= i < lines.len() && has_prefix(#[trigger] lines[i], b);
                if i < init.len() {
                    assert(init[i] == lines[i]);
                }
            }
            if mentions(init, b) {
                let i = choose|i: int| 0 <= i < init.len() && has_prefix(#[trigger] init[i], b);
                assert(lines[i] == init[i]);
            }
            if has_prefix(last, b) {
                assert(lines[lines.len() - 1] == last);
            }
        }
        if has_prefix(last, a) {
            if has_prefix(last, b) {
                lemma_prefixes_meet(last, a, b);
            }
            assert(other_records(lines, a) == o);
            assert(!has_prefix(last, b));
            assert(seq![last][0] == last);
            assert(seq![last].drop_first().len() == 0);
            assert(recorded_size_in(seq![last].drop_first(), b) is None);
            assert(recorded_size_in(seq![last], b) is None);
        } else {
            assert(other_records(lines, a) == o.push(last));
            assert(o.push(last) =~= o + seq![last]);
            lemma_recorded_concat(o, seq![last], b);
            assert(mentions(o.push(last), b) == (mentions(o, b) || has_prefix(last, b))) by {
                let p = o.push(last);
                if mentions(p, b) {
                    let i = choose|i: int| 0 <= i < p.len() && has_prefix(#[trigger] p[i], b);
                    if i < o.len() {
                        assert(o[i] == p[i]);
                    }
                }
                if mentions(o, b) {
                    let i = choose|i: int| 0 <= i < o.len() && has_prefix(#[trigger] o[i], b);
                    assert(p[i] == o[i]);
                }
                if has_prefix(last, b) {
                    assert(p[p.len() - 1] == last);
                }
            }
        }
    }
}

/// Saving one program's size leaves the size recorded for every other program as it was,
/// when neither path is a prefix of the other and no line of the record ends in `'\r'`
/// (the rewritten record drops such a `'\r'`).
pub proof fn saving_keeps_other_sizes(contents: Seq<char>, key: Seq<char>, other: Seq<char>, size: u64)
    requires
        single_line(key),
        !has_prefix(key, other),
        !has_prefix(other, key),
        forall|i: int|
            0 <= i < lines_spec(contents).len() ==> strip_cr(#[trigger] lines_spec(contents)[i])
                == lines_spec(contents)[i],
    ensures
        recorded_size_spec(updated_record_spec(contents, key, size), other) == recorded_size_spec(
            contents,
            other,
        ),
{
    reveal_strlit(" ");
    let lines = lines_spec(contents);
    let kept = other_records(lines, key);
    let entry = record_line(key, size);
    let all = kept.push(entry);
    lemma_lines_are_single(contents);
    lemma_other_records(lines, key);
    lemma_decimal_digits(size as nat);
    assert(single_line(entry)) by {
        let d = decimal(size as nat);
        assert forall|j: int| 0 <= j < entry.len() implies entry[j] != '\n' by {
            if j < key.len() {
                assert(entry[j] == key[j]);
            } else if j > key.len() {
                assert(entry[j] == d[j - key.len() - 1]);
                assert(is_digit(d[j - key.len() - 1]));
            }
        }
    }
    assert forall|i: int| 0 <= i < all.len() implies single_line(#[trigger] all[i]) by {
        if i < kept.len() {
            assert(all[i] == kept[i]);
            let j = choose|j: int| 0 <= j < lines.len() && lines[j] == kept[i];
            assert(single_line(lines[j]));
        }
    }
    lemma_lines_of_joined(all);
    assert(all.drop_last() =~= kept);
    let stripped = kept.map_values(|l: Seq<char>| strip_cr(l));
    assert(stripped =~= kept) by {
        assert forall|i: int| 0 <= i < kept.len() implies stripped[i] == kept[i] by {
            let j = choose|j: int| 0 <= j < lines.len() && lines[j] == kept[i];
            assert(strip_cr(lines[j]) == lines[j]);
        }
    }
    assert(has_prefix(entry, key)) by {
        assert(entry.take(key.len() as int) =~= key);
    }
    assert(!has_prefix(entry, other)) by {
        if has_prefix(entry, other) {
            lemma_prefixes_meet(entry, key, other);
        }
    }
    assert(kept.push(entry) =~= kept + seq![entry]);
    lemma_recorded_concat(kept, seq![entry], other);
    assert(seq![entry][0] == entry);
    assert(seq![entry].drop_first().len() == 0);
    assert(recorded_size_in(seq![entry].drop_first(), other) is None);
    assert(recorded_size_in(seq![entry], other) is None);
    lemma_other_records_keep(lines, key, other);
    assert(lines_spec(updated_record_spec(contents, key, size)) == kept.push(entry));
}

} // verus!
