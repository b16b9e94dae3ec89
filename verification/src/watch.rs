//! Watch mode: which files are watched, the snapshot of their modification times in path
//! order, and when a new snapshot asks for a rebuild.

use vstd::prelude::*;
use crate::text::{chars_of, string_from};
use crate::test_runner::views;

verus! {

broadcast use vstd::string::group_string_axioms;

/// A watched file: its path, component by component, and its modification time (in
/// nanoseconds from the Unix epoch, negative before it).
pub struct WatchEntry {
    pub path: Vec<String>,
    pub modified: i128,
}

/// An entry as plain values.
pub open spec fn entry_view(e: WatchEntry) -> (Seq<Seq<char>>, i128) {
    (views(e.path@), e.modified)
}

/// A snapshot as plain values.
pub open spec fn snapshot_view(s: Seq<WatchEntry>) -> Seq<(Seq<Seq<char>>, i128)> {
    s.map_values(|e: WatchEntry| entry_view(e))
}

/// The watched roots, relative to the project: the manifests and configs, then the `src`
/// and `tests` trees.
pub open spec fn watch_roots_spec() -> Seq<Seq<Seq<char>>> {
    seq![
        seq!["Cargo.toml"@],
        seq!["Cargo.lock"@],
        seq!["Quasar.toml"@],
        seq![".cargo"@, "config.toml"@],
        seq!["src"@],
        seq!["tests"@],
    ]
}

fn one(a: &str) -> (r: Vec<String>)
    ensures
        views(r@) == seq![a@],
{
    let mut v: Vec<String> = Vec::new();
    v.push(string_from(a));
    assert(views(v@) =~= seq![a@]);
    v
}

/// The watched roots, as path components.
pub fn watch_roots() -> (r: Vec<Vec<String>>)
    ensures
        r@.map_values(|p: Vec<String>| views(p@)) == watch_roots_spec(),
{
    let mut roots: Vec<Vec<String>> = Vec::new();
    roots.push(one("Cargo.toml"));
    roots.push(one("Cargo.lock"));
    roots.push(one("Quasar.toml"));
    let mut cfg: Vec<String> = Vec::new();
    cfg.push(string_from(".cargo"));
    cfg.push(string_from("config.toml"));
    assert(views(cfg@) =~= seq![".cargo"@, "config.toml"@]);
    roots.push(cfg);
    roots.push(one("src"));
    roots.push(one("tests"));
    assert(roots@.map_values(|p: Vec<String>| views(p@)) =~= watch_roots_spec());
    roots
}

/// `a` comes no later than `b` in the order of their characters' code points (which is the
/// order of their UTF-8 bytes).
pub open spec fn chars_le(a: Seq<char>, b: Seq<char>) -> bool
    decreases a.len(),
{
    if a.len() == 0 {
        true
    } else if b.len() == 0 {
        false
    } else if a[0] != b[0] {
        a[0] < b[0]
    } else {
        chars_le(a.drop_first(), b.drop_first())
    }
}

/// Path `a` comes no later than path `b`: component by component, the first differing
/// component decides, and a path comes before the paths it is a prefix of.
pub open spec fn path_le(a: Seq<Seq<char>>, b: Seq<Seq<char>>) -> bool
    decreases a.len(),
{
    if a.len() == 0 {
        true
    } else if b.len() == 0 {
        false
    } else if a[0] != b[0] {
        chars_le(a[0], b[0])
    } else {
        path_le(a.drop_first(), b.drop_first())
    }
}

proof fn lemma_chars_le_total(a: Seq<char>, b: Seq<char>)
    ensures
        chars_le(a, b) || chars_le(b, a),
        chars_le(a, b) && chars_le(b, a) ==> a == b,
    decreases a.len(),
{
    if a.len() > 0 && b.len() > 0 {
        if a[0] == b[0] {
            lemma_chars_le_total(a.drop_first(), b.drop_first());
            if chars_le(a, b) && chars_le(b, a) {
                assert(a =~= seq![a[0]] + a.drop_first());
                assert(b =~= seq![b[0]] + b.drop_first());
            }
        }
    } else if a.len() == 0 && b.len() == 0 {
        assert(a =~= b);
    }
}

proof fn lemma_chars_le_trans(a: Seq<char>, b: Seq<char>, c: Seq<char>)
    requires
        chars_le(a, b),
        chars_le(b, c),
    ensures
        chars_le(a, c),
    decreases a.len(),
{
    if a.len() > 0 && b.len() > 0 && c.len() > 0 {
        if a[0] == b[0] && b[0] == c[0] {
            lemma_chars_le_trans(a.drop_first(), b.drop_first(), c.drop_first());
        }
    }
}

proof fn lemma_path_le_total(a: Seq<Seq<char>>, b: Seq<Seq<char>>)
    ensures
        path_le(a, b) || path_le(b, a),
    decreases a.len(),
{
    if a.len() > 0 && b.len() > 0 {
        if a[0] != b[0] {
            lemma_chars_le_total(a[0], b[0]);
        } else {
            lemma_path_le_total(a.drop_first(), b.drop_first());
        }
    }
}

proof fn lemma_path_le_trans(a: Seq<Seq<char>>, b: Seq<Seq<char>>, c: Seq<Seq<char>>)
    requires
        path_le(a, b),
        path_le(b, c),
    ensures
        path_le(a, c),
    decreases a.len(),
{
    if a.len() > 0 && b.len() > 0 && c.len() > 0 {
        if a[0] == b[0] && b[0] == c[0] {
            lemma_path_le_trans(a.drop_first(), b.drop_first(), c.drop_first());
        } else if a[0] == b[0] {
            // b[0] != c[0]: the first components decide between a and c.
        } else if b[0] == c[0] {
        } else {
            lemma_chars_le_trans(a[0], b[0], c[0]);
            lemma_chars_le_total(a[0], c[0]);
            if a[0] == c[0] {
                lemma_chars_le_total(a[0], b[0]);
            }
        }
    }
}

fn chars_le_exec(a: &Vec<char>, b: &Vec<char>) -> (r: bool)
    ensures
        r == chars_le(a@, b@),
{
    let n = a.len();
    let m = b.len();
    let mut i: usize = 0;
    assert(a@.skip(0) =~= a@);
    assert(b@.skip(0) =~= b@);
    while i < n && i < m
        invariant
            n == a@.len(),
            m == b@.len(),
            i <= n,
            i <= m,
            chars_le(a@, b@) == chars_le(a@.skip(i as int), b@.skip(i as int)),
        decreases n - i,
    {
        proof {
            assert(a@.skip(i as int)[0] == a@[i as int]);
            assert(b@.skip(i as int)[0] == b@[i as int]);
            assert(a@.skip(i as int).drop_first() =~= a@.skip(i + 1));
            assert(b@.skip(i as int).drop_first() =~= b@.skip(i + 1));
        }
        let x = a[i];
        let y = b[i];
        if x != y {
            return x < y;
        }
        i = i + 1;
    }
    i == n
}

fn path_le_exec(a: &Vec<String>, b: &Vec<String>) -> (r: bool)
    ensures
        r == path_le(views(a@), views(b@)),
{
    let n = a.len();
    let m = b.len();
    let ghost va = views(a@);
    let ghost vb = views(b@);
    let mut i: usize = 0;
    assert(va.skip(0) =~= va);
    assert(vb.skip(0) =~= vb);
    while i < n && i < m
        invariant
            n == a@.len(),
            m == b@.len(),
            va == views(a@),
            vb == views(b@),
            i <= n,
            i <= m,
            path_le(va, vb) == path_le(va.skip(i as int), vb.skip(i as int)),
        decreases n - i,
    {
        proof {
            assert(va.skip(i as int)[0] == a@[i as int]@);
            assert(vb.skip(i as int)[0] == b@[i as int]@);
            assert(va.skip(i as int).drop_first() =~= va.skip(i + 1));
            assert(vb.skip(i as int).drop_first() =~= vb.skip(i + 1));
        }
        let x = chars_of(a[i].as_str());
        let y = chars_of(b[i].as_str());
        if !crate::text::chars_eq(&x, &y) {
            return chars_le_exec(&x, &y);
        }
        i = i + 1;
    }
    i == n
}

/// The snapshot is in path order.
pub open spec fn in_path_order(s: Seq<(Seq<Seq<char>>, i128)>) -> bool {
    forall|i: int, j: int| 0 <= i < j < s.len() ==> path_le(s[i].0, s[j].0)
}

/// Put a snapshot in path order; no entry is added or lost.
pub fn sort_snapshot(entries: Vec<WatchEntry>) -> (r: Vec<WatchEntry>)
    ensures
        in_path_order(snapshot_view(r@)),
        snapshot_view(r@).to_multiset() == snapshot_view(entries@).to_multiset(),
{
    let mut out: Vec<WatchEntry> = Vec::new();
    let mut rest = entries;
    let ghost original = snapshot_view(rest@);
    let mut pending: Vec<WatchEntry> = Vec::new();
    // Move the entries out in reverse, so that they can be popped in their original order.
    while rest.len() > 0
        invariant
            snapshot_view(rest@) + snapshot_view(pending@).reverse() == original,
        decreases rest.len(),
    {
        let ghost before_rest = snapshot_view(rest@);
        let ghost before_pending = snapshot_view(pending@);
        let e = rest.pop().unwrap();
        let ghost ev = entry_view(e);
        pending.push(e);
        proof {
            assert(snapshot_view(rest@) =~= before_rest.drop_last());
            assert(snapshot_view(pending@) =~= before_pending.push(ev));
            assert(before_rest.last() == ev);
            assert(snapshot_view(pending@).reverse() =~= seq![ev] + before_pending.reverse());
            assert(before_rest =~= before_rest.drop_last().push(ev));
        }
    }
    assert(snapshot_view(rest@) =~= Seq::<(Seq<Seq<char>>, i128)>::empty());
    assert(snapshot_view(pending@).reverse() =~= original);
    proof {
        snapshot_view(pending@).lemma_reverse_to_multiset();
        broadcast use vstd::multiset::group_multiset_axioms;
        assert(snapshot_view(out@) =~= Seq::<(Seq<Seq<char>>, i128)>::empty());
        vstd::seq_lib::to_multiset_len(snapshot_view(out@));
        assert(snapshot_view(out@).to_multiset() =~= vstd::multiset::Multiset::empty());
        assert(snapshot_view(out@).to_multiset().add(snapshot_view(pending@).to_multiset())
            =~= original.to_multiset());
    }
    while pending.len() > 0
        invariant
            in_path_order(snapshot_view(out@)),
            snapshot_view(out@).to_multiset().add(snapshot_view(pending@).to_multiset())
                == original.to_multiset(),
        decreases pending.len(),
    {
        let ghost before_pending = snapshot_view(pending@);
        let e = pending.pop().unwrap();
        let ghost ev = entry_view(e);
        proof {
            assert(snapshot_view(pending@) =~= before_pending.drop_last());
            assert(before_pending =~= snapshot_view(pending@).push(ev));
        }
        let ghost sv = snapshot_view(out@);
        let m = out.len();
        let mut k: usize = 0;
        while k < m && path_le_exec(&out[k].path, &e.path)
            invariant
                m == out@.len(),
                k <= m,
                sv == snapshot_view(out@),
                ev == entry_view(e),
                forall|j: int| 0 <= j < k ==> path_le(#[trigger] sv[j].0, ev.0),
            decreases m - k,
        {
            k = k + 1;
        }
        proof {
            assert forall|j: int| k <= j < m implies path_le(ev.0, #[trigger] sv[j].0) by {
                lemma_path_le_total(sv[k as int].0, ev.0);
                if j > k {
                    lemma_path_le_trans(ev.0, sv[k as int].0, sv[j].0);
                }
            }
        }
        out.insert(k, e);
        proof {
            let nv = snapshot_view(out@);
            assert(nv =~= sv.insert(k as int, ev));
            assert forall|i: int, j: int| 0 <= i < j < nv.len() implies path_le(
                nv[i].0,
                nv[j].0,
            ) by {
                if j < k {
                } else if j == k {
                } else if i < k {
                    lemma_path_le_trans(sv[i].0, ev.0, sv[j - 1].0);
                } else if i == k {
                } else {
                }
            }
            vstd::seq_lib::to_multiset_insert(sv, k as int, ev);
            vstd::seq_lib::to_multiset_build(snapshot_view(pending@), ev);
            broadcast use vstd::multiset::group_multiset_axioms;
            assert(nv.to_multiset() == sv.to_multiset().insert(ev));
            assert(before_pending.to_multiset() == snapshot_view(pending@).to_multiset().insert(ev));
            assert(nv.to_multiset().add(snapshot_view(pending@).to_multiset()) =~= sv.to_multiset().add(
                before_pending.to_multiset(),
            ));
        }
    }
    proof {
        broadcast use vstd::multiset::group_multiset_axioms;
        assert(snapshot_view(pending@) =~= Seq::<(Seq<Seq<char>>, i128)>::empty());
        vstd::seq_lib::to_multiset_len(snapshot_view(pending@));
        assert(snapshot_view(pending@).to_multiset() =~= vstd::multiset::Multiset::empty());
        assert(snapshot_view(out@).to_multiset().add(vstd::multiset::Multiset::empty()) =~= snapshot_view(
            out@,
        ).to_multiset());
    }
    out
}

/// No two entries of the snapshot share a path.
pub open spec fn distinct_paths(s: Seq<(Seq<Seq<char>>, i128)>) -> bool {
    forall|i: int, j: int| 0 <= i < j < s.len() ==> s[i].0 != s[j].0
}

proof fn lemma_chars_le_antisym(a: Seq<char>, b: Seq<char>)
    requires
        chars_le(a, b),
        chars_le(b, a),
    ensures
        a == b,
{
    lemma_chars_le_total(a, b);
}

proof fn lemma_path_le_antisym(a: Seq<Seq<char>>, b: Seq<Seq<char>>)
    requires
        path_le(a, b),
        path_le(b, a),
    ensures
        a == b,
    decreases a.len(),
{
    if a.len() > 0 && b.len() > 0 {
        if a[0] != b[0] {
            lemma_chars_le_antisym(a[0], b[0]);
        } else {
            lemma_path_le_antisym(a.drop_first(), b.drop_first());
            assert(a =~= seq![a[0]] + a.drop_first());
            assert(b =~= seq![b[0]] + b.drop_first());
        }
    } else if a.len() == 0 && b.len() == 0 {
        assert(a =~= b);
    }
}

proof fn lemma_sorted_unique(s: Seq<(Seq<Seq<char>>, i128)>, t: Seq<(Seq<Seq<char>>, i128)>)
    requires
        in_path_order(s),
        in_path_order(t),
        distinct_paths(s),
        s.to_multiset() == t.to_multiset(),
    ensures
        s == t,
    decreases s.len(),
{
    broadcast use vstd::multiset::group_multiset_axioms;
    vstd::seq_lib::to_multiset_len(s);
    vstd::seq_lib::to_multiset_len(t);
    if s.len() == 0 {
        assert(t.len() == 0);
        assert(s =~= t);
    } else {
        vstd::seq_lib::to_multiset_contains(s, t[0]);
        vstd::seq_lib::to_multiset_contains(t, s[0]);
        vstd::seq_lib::to_multiset_contains(t, t[0]);
        vstd::seq_lib::to_multiset_contains(s, s[0]);
        assert(t.contains(t[0]));
        assert(s.contains(s[0]));
        let i = choose|i: int| 0 <= i < s.len() && s[i] == t[0];
        let j = choose|j: int| 0 <= j < t.len() && t[j] == s[0];
        // s[0] <= s[i] == t[0] <= t[j] == s[0]
        if i > 0 {
            assert(path_le(s[0].0, s[i].0));
        }
        if j > 0 {
            assert(path_le(t[0].0, t[j].0));
        }
        lemma_path_le_total(s[0].0, s[0].0);
        lemma_path_le_total(t[0].0, t[0].0);
        assert(path_le(s[0].0, t[0].0));
        assert(path_le(t[0].0, s[0].0));
        lemma_path_le_antisym(s[0].0, t[0].0);
        if i > 0 {
            assert(s[0].0 != s[i].0);
            assert(false);
        }
        assert(s[0] == t[0]);
        vstd::seq_lib::to_multiset_remove(s, 0);
        vstd::seq_lib::to_multiset_remove(t, 0);
        assert(s.remove(0) =~= s.drop_first());
        assert(t.remove(0) =~= t.drop_first());
        let s1 = s.drop_first();
        let t1 = t.drop_first();
        assert(in_path_order(s1)) by {
            assert forall|a: int, b: int| 0 <= a < b < s1.len() implies path_le(s1[a].0, s1[b].0) by {
                assert(s1[a] == s[a + 1] && s1[b] == s[b + 1]);
            }
        }
        assert(in_path_order(t1)) by {
            assert forall|a: int, b: int| 0 <= a < b < t1.len() implies path_le(t1[a].0, t1[b].0) by {
                assert(t1[a] == t[a + 1] && t1[b] == t[b + 1]);
            }
        }
        assert(distinct_paths(s1)) by {
            assert forall|a: int, b: int| 0 <= a < b < s1.len() implies s1[a].0 != s1[b].0 by {
                assert(s1[a] == s[a + 1] && s1[b] == s[b + 1]);
            }
        }
        lemma_sorted_unique(s1, t1);
        assert(s =~= seq![s[0]] + s1);
        assert(t =~= seq![t[0]] + t1);
    }
}

/// Once put in path order, two snapshots of distinct files are equal exactly when they hold
/// the same entries, whatever order the files were listed in: so watch mode reruns exactly
/// when a file appeared, vanished or changed its time.
pub proof fn ordered_snapshots_compare_contents(
    s: Seq<(Seq<Seq<char>>, i128)>,
    t: Seq<(Seq<Seq<char>>, i128)>,
)
    requires
        in_path_order(s),
        in_path_order(t),
        distinct_paths(s),
    ensures
        (s == t) <==> (s.to_multiset() == t.to_multiset()),
{
    if s.to_multiset() == t.to_multiset() {
        lemma_sorted_unique(s, t);
    }
}

/// What watch mode does after taking a new snapshot.
#[derive(Clone, Copy, Debug, PartialEq, Eq, Structural)]
pub enum WatchAction {
    /// Something was added, removed or modified: run again and take a new baseline.
    Rerun,
    /// Nothing changed: wait and look again.
    Wait,
}

fn same_entries(a: &Vec<WatchEntry>, b: &Vec<WatchEntry>) -> (r: bool)
    ensures
        r == (snapshot_view(a@) == snapshot_view(b@)),
{
    if a.len() != b.len() {
        proof {
            assert(snapshot_view(a@).len() != snapshot_view(b@).len());
        }
        return false;
    }
    let n = a.len();
    let mut i: usize = 0;
    while i < n
        invariant
            n == a@.len(),
            n == b@.len(),
            i <= n,
            forall|j: int| 0 <= j < i ==> snapshot_view(a@)[j] == snapshot_view(b@)[j],
        decreases n - i,
    {
        if a[i].modified != b[i].modified || a[i].path.len() != b[i].path.len() {
            assert(snapshot_view(a@)[i as int] != snapshot_view(b@)[i as int]) by {
                if a[i as int].path@.len() != b[i as int].path@.len() {
                    assert(views(a@[i as int].path@).len() != views(b@[i as int].path@).len());
                }
            }
            return false;
        }
        let m = a[i].path.len();
        let mut k: usize = 0;
        while k < m
            invariant
                n == a@.len(),
                n == b@.len(),
                i < n,
                m == a@[i as int].path@.len(),
                m == b@[i as int].path@.len(),
                k <= m,
                forall|j: int| 0 <= j < k ==> a@[i as int].path@[j]@ == b@[i as int].path@[j]@,
            decreases m - k,
        {
            if !crate::text::str_eq(a[i].path[k].as_str(), b[i].path[k].as_str()) {
                assert(views(a@[i as int].path@)[k as int] != views(b@[i as int].path@)[k as int]);
                assert(snapshot_view(a@)[i as int] != snapshot_view(b@)[i as int]);
                return false;
            }
            k = k + 1;
        }
        assert(views(a@[i as int].path@) =~= views(b@[i as int].path@));
        i = i + 1;
    }
    assert(snapshot_view(a@) =~= snapshot_view(b@));
    true
}

/// Decide what watch mode does with a new snapshot taken after `baseline`: run again when
/// the snapshots differ in any path or modification time, else wait.
pub fn watch_step(baseline: &Vec<WatchEntry>, current: &Vec<WatchEntry>) -> (r: WatchAction)
    ensures
        r == if snapshot_view(baseline@) == snapshot_view(current@) {
            WatchAction::Wait
        } else {
            WatchAction::Rerun
        },
{
    if same_entries(baseline, current) {
        WatchAction::Wait
    } else {
        WatchAction::Rerun
    }
}

} // verus!
