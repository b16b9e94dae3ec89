//! The directive names of `#[account(...)]`: which names make which directive, and the
//! errors for directives that are not part of the language. The token grammar that reads
//! a field's attribute into directives is in `syntax`.

use vstd::prelude::*;
use crate::accounts::model::{bare_ident, BehaviorArg, ValueExpr};
use crate::text::{append_str, chars_eq_str, chars_of, str_eq, string_from};

verus! {

broadcast use vstd::string::group_string_axioms;

/// A directive path as written: its segments joined with `::`.
pub open spec fn path_text(segments: Seq<Seq<char>>) -> Seq<char>
    decreases segments.len(),
{
    if segments.len() == 0 {
        seq![]
    } else if segments.len() == 1 {
        segments[0]
    } else {
        path_text(segments.drop_last()) + "::"@ + segments.last()
    }
}

/// A directive path as written: its segments joined with `::`.
pub fn path_to_string(segments: &Vec<String>) -> (r: String)
    ensures
        r@ == path_text(segments@.map_values(|s: String| s@)),
{
    let ghost segs = segments@.map_values(|s: String| s@);
    let mut r = String::new();
    let n = segments.len();
    let mut i: usize = 0;
    while i < n
        invariant
            n == segments@.len(),
            segs == segments@.map_values(|s: String| s@),
            i <= n,
            r@ == path_text(segs.take(i as int)),
        decreases n - i,
    {
        if i > 0 {
            append_str(&mut r, "::");
        }
        append_str(&mut r, segments[i].as_str());
        proof {
            assert(segs.take(i + 1).drop_last() =~= segs.take(i as int));
            assert(segs.take(i + 1).last() == segments@[i as int]@);
        }
        i = i + 1;
    }
    assert(segs.take(n as int) =~= segs);
    r
}

/// What a `name = value` directive sets.
#[derive(Clone, Copy, Debug, PartialEq, Eq, Structural)]
pub enum KeyValueKind {
    /// `payer = field`.
    Payer,
    /// `address = expr`, optionally followed by `@ error`.
    Address,
    /// `realloc = expr`.
    Realloc,
}

/// The error for a `name = ...` directive with an unknown name.
pub open spec fn unknown_key_value_message(name: Seq<char>) -> Seq<char> {
    "unknown key-value directive `"@ + name + " = ...`"@
}

/// The directive a `name = value` sets, if the name is one.
pub open spec fn key_value_spec(name: Seq<char>) -> Option<KeyValueKind> {
    if name == "payer"@ {
        Some(KeyValueKind::Payer)
    } else if name == "address"@ {
        Some(KeyValueKind::Address)
    } else if name == "realloc"@ {
        Some(KeyValueKind::Realloc)
    } else {
        None
    }
}

/// What a `name = value` directive sets: `payer`, `address` and `realloc` are the only
/// names accepted.
pub fn key_value_directive(name: &str) -> (r: Result<KeyValueKind, String>)
    ensures
        match key_value_spec(name@) {
            Some(k) => r == Ok::<KeyValueKind, String>(k),
            None => r matches Err(e) && e@ == unknown_key_value_message(name@),
        },
{
    let c = chars_of(name);
    if chars_eq_str(&c, "payer") {
        Ok(KeyValueKind::Payer)
    } else if chars_eq_str(&c, "address") {
        Ok(KeyValueKind::Address)
    } else if chars_eq_str(&c, "realloc") {
        Ok(KeyValueKind::Realloc)
    } else {
        let mut e = string_from("unknown key-value directive `");
        append_str(&mut e, name);
        append_str(&mut e, " = ...`");
        Err(e)
    }
}

/// What a `name(...)` directive is.
#[derive(Clone, Copy, Debug, PartialEq, Eq, Structural)]
pub enum GroupKind {
    /// `init(...)`, whose content is the optional `idempotent` flag.
    Init,
    /// `allow(...)`, lint suppressions.
    Allow,
    /// `has_one(...)`, a structural check.
    HasOne,
    /// `constraints(...)`, a structural check.
    Constraints,
    /// `close(dest = field)`.
    Close,
    /// Any other name: an open behavior group.
    Behavior,
}

/// The kind of a `name(...)` directive.
pub open spec fn group_kind_spec(name: Seq<char>) -> GroupKind {
    if name == "init"@ {
        GroupKind::Init
    } else if name == "allow"@ {
        GroupKind::Allow
    } else if name == "has_one"@ {
        GroupKind::HasOne
    } else if name == "constraints"@ {
        GroupKind::Constraints
    } else if name == "close"@ {
        GroupKind::Close
    } else {
        GroupKind::Behavior
    }
}

/// The kind of a `name(...)` directive.
pub fn group_kind(name: &str) -> (r: GroupKind)
    ensures
        r == group_kind_spec(name@),
{
    let c = chars_of(name);
    if chars_eq_str(&c, "init") {
        GroupKind::Init
    } else if chars_eq_str(&c, "allow") {
        GroupKind::Allow
    } else if chars_eq_str(&c, "has_one") {
        GroupKind::HasOne
    } else if chars_eq_str(&c, "constraints") {
        GroupKind::Constraints
    } else if chars_eq_str(&c, "close") {
        GroupKind::Close
    } else {
        GroupKind::Behavior
    }
}

/// The error for an `init(...)` flag other than `idempotent`.
pub open spec fn unknown_init_flag_message(flag: Seq<char>) -> Seq<char> {
    "unknown init flag `"@ + flag + "`. Only `init` or `init(idempotent)` are valid."@
}

/// Whether an `init(...)` directive is idempotent, given the flag inside the parentheses
/// (none for `init()`) and whether more follows it: only `idempotent` is a flag, and
/// nothing may follow it.
pub fn init_idempotent(flag: Option<&str>, more: bool) -> (r: Result<bool, String>)
    ensures
        match flag {
            None => r == Ok::<bool, String>(false),
            Some(f) => if f@ != "idempotent"@ {
                r matches Err(e) && e@ == unknown_init_flag_message(f@)
            } else if more {
                r matches Err(e) && e@ == "`init(idempotent)` does not accept additional arguments"@
            } else {
                r == Ok::<bool, String>(true)
            },
        },
{
    match flag {
        None => Ok(false),
        Some(f) => {
            if !str_eq(f, "idempotent") {
                let mut e = string_from("unknown init flag `");
                append_str(&mut e, f);
                append_str(&mut e, "`. Only `init` or `init(idempotent)` are valid.");
                Err(e)
            } else if more {
                Err(string_from("`init(idempotent)` does not accept additional arguments"))
            } else {
                Ok(true)
            }
        },
    }
}

/// The error for a behavior arg written without a value.
pub open spec fn arg_without_value_message(key: Seq<char>) -> Seq<char> {
    "behavior arg `"@ + key + "` requires a value: `"@ + key
        + " = ...`. Bare flags are not supported in behavior groups"@
}

/// The error for a behavior arg given twice.
pub open spec fn duplicate_arg_message(key: Seq<char>) -> Seq<char> {
    "duplicate arg `"@ + key + "` — each arg may only appear once"@
}

/// The first problem among the keys of a group's args, read in order: a key written
/// without `= value`, or a key that an earlier arg already used.
pub open spec fn group_args_error(keys: Seq<(Seq<char>, bool)>) -> Option<Seq<char>>
    decreases keys.len(),
{
    if keys.len() == 0 {
        None
    } else {
        match group_args_error(keys.drop_last()) {
            Some(e) => Some(e),
            None => {
                let (k, has_value) = keys.last();
                if !has_value {
                    Some(arg_without_value_message(k))
                } else if exists|j: int| 0 <= j < keys.len() - 1 && (#[trigger] keys[j]).0 == k {
                    Some(duplicate_arg_message(k))
                } else {
                    None
                }
            },
        }
    }
}

/// Check the args of a group, each given by its key and whether `= value` follows it.
pub fn check_group_args(keys: &Vec<(String, bool)>) -> (r: Result<(), String>)
    ensures
        match group_args_error(keys@.map_values(|k: (String, bool)| (k.0@, k.1))) {
            Some(m) => r matches Err(e) && e@ == m,
            None => r is Ok,
        },
{
    let ghost ks = keys@.map_values(|k: (String, bool)| (k.0@, k.1));
    let n = keys.len();
    let mut i: usize = 0;
    while i < n
        invariant
            n == keys@.len(),
            ks == keys@.map_values(|k: (String, bool)| (k.0@, k.1)),
            i <= n,
            group_args_error(ks.take(i as int)) is None,
        decreases n - i,
    {
        let ghost prefix = ks.take(i + 1);
        proof {
            assert(prefix.drop_last() =~= ks.take(i as int));
            assert(prefix.last() == (keys@[i as int].0@, keys@[i as int].1));
        }
        let key = &keys[i].0;
        if !keys[i].1 {
            let mut e = string_from("behavior arg `");
            append_str(&mut e, key.as_str());
            append_str(&mut e, "` requires a value: `");
            append_str(&mut e, key.as_str());
            append_str(
                &mut e,
                " = ...`. Bare flags are not supported in behavior groups",
            );
            assert(group_args_error(ks.take(i + 1)) == Some(arg_without_value_message(key@)));
            proof {
                lemma_error_stays(ks, i + 1);
            }
            return Err(e);
        }
        let mut j: usize = 0;
        while j < i
            invariant
                n == keys@.len(),
                ks == keys@.map_values(|k: (String, bool)| (k.0@, k.1)),
                j <= i < n,
                prefix == ks.take(i + 1),
                key@ == keys@[i as int].0@,
                keys@[i as int].1,
                group_args_error(ks.take(i as int)) is None,
                forall|x: int| 0 <= x < j ==> keys@[x].0@ != keys@[i as int].0@,
            decreases i - j,
        {
            if str_eq(keys[j].0.as_str(), key.as_str()) {
                let mut e = string_from("duplicate arg `");
                append_str(&mut e, key.as_str());
                append_str(&mut e, "` — each arg may only appear once");
                proof {
                    assert(prefix.drop_last() =~= ks.take(i as int));
                    assert(prefix.last() == (key@, true));
                    assert(prefix[j as int] == ks[j as int]);
                    assert(prefix[j as int].0 == key@);
                    assert(0 <= j < prefix.len() - 1);
                    assert(group_args_error(ks.take(i + 1)) == Some(duplicate_arg_message(key@)));
                    lemma_error_stays(ks, i + 1);
                }
                return Err(e);
            }
            j = j + 1;
        }
        proof {
            assert forall|x: int| 0 <= x < prefix.len() - 1 implies (#[trigger] prefix[x]).0
                != key@ by {
                assert(prefix[x] == ks[x]);
            }
        }
        i = i + 1;
    }
    assert(ks.take(n as int) =~= ks);
    Ok(())
}

proof fn lemma_error_stays(ks: Seq<(Seq<char>, bool)>, k: int)
    requires
        0 <= k <= ks.len(),
        group_args_error(ks.take(k)) is Some,
    ensures
        group_args_error(ks) == group_args_error(ks.take(k)),
    decreases ks.len() - k,
{
    if k < ks.len() {
        assert(ks.take(k + 1).drop_last() =~= ks.take(k));
        lemma_error_stays(ks, k + 1);
    } else {
        assert(ks.take(k) =~= ks);
    }
}

/// The error for `close(...)` without `dest = field`.
pub open spec fn close_without_dest_message() -> Seq<char> {
    "`close(...)` requires `dest = field`"@
}

/// The error for a `close(dest = ...)` whose destination is not a field name.
pub open spec fn close_dest_not_field_message() -> Seq<char> {
    "`close(dest = ...)` must be a field name"@
}

/// The destination of `close(dest = field)`: the first `dest` arg, which must be a bare
/// field name.
pub open spec fn close_dest_spec(args: Seq<BehaviorArg>) -> Result<Seq<char>, Seq<char>>
    decreases args.len(),
{
    if args.len() == 0 {
        Err(close_without_dest_message())
    } else if args[0].key@ == "dest"@ {
        match bare_ident(args[0].value) {
            Some(n) => Ok(n@),
            None => Err(close_dest_not_field_message()),
        }
    } else {
        close_dest_spec(args.drop_first())
    }
}

/// The destination of `close(dest = field)`.
pub fn close_dest(args: &Vec<BehaviorArg>) -> (r: Result<String, String>)
    ensures
        match close_dest_spec(args@) {
            Ok(d) => r matches Ok(s) && s@ == d,
            Err(m) => r matches Err(e) && e@ == m,
        },
{
    let n = args.len();
    let mut i: usize = 0;
    assert(args@.skip(0) =~= args@);
    while i < n
        invariant
            n == args@.len(),
            i <= n,
            close_dest_spec(args@) == close_dest_spec(args@.skip(i as int)),
        decreases n - i,
    {
        proof {
            assert(args@.skip(i as int)[0] == args@[i as int]);
            assert(args@.skip(i as int).drop_first() =~= args@.skip(i + 1));
        }
        if str_eq(args[i].key.as_str(), "dest") {
            return match &args[i].value {
                ValueExpr::Path { qself, segments } => {
                    if !*qself && segments.len() == 1 {
                        Ok(segments[0].clone())
                    } else {
                        Err(string_from("`close(dest = ...)` must be a field name"))
                    }
                },
                _ => Err(string_from("`close(dest = ...)` must be a field name")),
            };
        }
        i = i + 1;
    }
    Err(string_from("`close(...)` requires `dest = field`"))
}

/// A directive written as a bare name.
#[derive(Clone, Copy, Debug, PartialEq, Eq, Structural)]
pub enum BareDirective {
    /// `init`: not idempotent.
    Init,
    /// `dup`.
    Dup,
}

/// The error for a bare name that is no directive.
pub open spec fn unknown_bare_message(name: Seq<char>) -> Seq<char> {
    "unknown bare directive `"@ + name + "`; did you mean `"@ + name + "(...)`?"@
}

/// The directive a bare name stands for, if it is one.
pub open spec fn bare_spec(name: Seq<char>) -> Option<BareDirective> {
    if name == "init"@ {
        Some(BareDirective::Init)
    } else if name == "dup"@ {
        Some(BareDirective::Dup)
    } else {
        None
    }
}

/// A directive written as a bare name: `init` and `dup` are the only ones (`mut` is read
/// as a keyword before any name).
pub fn bare_directive(name: &str) -> (r: Result<BareDirective, String>)
    ensures
        match bare_spec(name@) {
            Some(d) => r == Ok::<BareDirective, String>(d),
            None => r matches Err(e) && e@ == unknown_bare_message(name@),
        },
{
    let c = chars_of(name);
    if chars_eq_str(&c, "init") {
        Ok(BareDirective::Init)
    } else if chars_eq_str(&c, "dup") {
        Ok(BareDirective::Dup)
    } else {
        let mut e = string_from("unknown bare directive `");
        append_str(&mut e, name);
        append_str(&mut e, "`; did you mean `");
        append_str(&mut e, name);
        append_str(&mut e, "(...)`?");
        Err(e)
    }
}

} // verus!
