//! `quasar clean`: which generated client directories to remove.

use vstd::prelude::*;
use crate::text::{append_chars, append_str, chars_of, str_eq, string_from, trim_chars, trim_spec};
use crate::test_runner::views;

verus! {

broadcast use vstd::string::group_string_axioms;

/// The legacy clients directory, `target/client`, as path components.
pub open spec fn legacy_clients_dir() -> Seq<Seq<char>> {
    seq!["target"@, "client"@]
}

/// The warning shown when the configured clients path cannot be read.
pub open spec fn fallback_warning(err: Seq<char>) -> Seq<char> {
    "note: could not read clients.path from Quasar.toml ("@ + err
        + "); falling back to target/client"@
}

fn legacy_dir() -> (r: Vec<String>)
    ensures
        views(r@) == legacy_clients_dir(),
{
    let mut v: Vec<String> = Vec::new();
    v.push(string_from("target"));
    v.push(string_from("client"));
    assert(views(v@) =~= legacy_clients_dir());
    v
}

fn same_path(a: &Vec<String>, b: &Vec<String>) -> (r: bool)
    ensures
        r == (views(a@) == views(b@)),
{
    if a.len() != b.len() {
        return false;
    }
    let n = a.len();
    let mut i: usize = 0;
    while i < n
        invariant
            n == a@.len(),
            n == b@.len(),
            i <= n,
            forall|j: int| 0 <= j < i ==> a@[j]@ == b@[j]@,
        decreases n - i,
    {
        if !str_eq(a[i].as_str(), b[i].as_str()) {
            assert(views(a@)[i as int] != views(b@)[i as int]);
            return false;
        }
        i = i + 1;
    }
    assert(views(a@) =~= views(b@));
    true
}

/// The client directories to clean, given the configured clients path (as path
/// components) or the error met reading it: the legacy `target/client` always, after the
/// configured path when that is another one; on an error, the legacy directory alone and a
/// warning that names the error.
pub fn client_dirs_to_clean(clients_dir: Result<Vec<String>, String>) -> (r: (
    Vec<Vec<String>>,
    Option<String>,
))
    ensures
        match clients_dir {
            Ok(path) => {
                &&& r.1 is None
                &&& if views(path@) == legacy_clients_dir() {
                    r.0@.len() == 1 && views(r.0@[0]@) == legacy_clients_dir()
                } else {
                    r.0@.len() == 2 && views(r.0@[0]@) == views(path@) && views(r.0@[1]@)
                        == legacy_clients_dir()
                }
            },
            Err(e) => {
                &&& r.0@.len() == 1
                &&& views(r.0@[0]@) == legacy_clients_dir()
                &&& r.1 matches Some(w) && w@ == fallback_warning(e@)
            },
        },
{
    let legacy = legacy_dir();
    match clients_dir {
        Ok(path) => {
            let mut dirs: Vec<Vec<String>> = Vec::new();
            if same_path(&path, &legacy) {
                dirs.push(legacy);
            } else {
                dirs.push(path);
                dirs.push(legacy);
            }
            (dirs, None)
        },
        Err(err) => {
            let mut w = string_from("note: could not read clients.path from Quasar.toml (");
            append_str(&mut w, err.as_str());
            append_str(&mut w, "); falling back to target/client");
            let mut dirs: Vec<Vec<String>> = Vec::new();
            dirs.push(legacy);
            (dirs, Some(w))
        },
    }
}


/// The directories `quasar clean` looks at: the deploy, profile and IDL outputs, then the
/// client directories.
pub open spec fn clean_candidates_spec(client_dirs: Seq<Seq<char>>) -> Seq<Seq<char>> {
    seq!["target/deploy"@, "target/profile"@, "target/idl"@] + client_dirs
}

/// The directories `quasar clean` looks at, given the client directories as text.
pub fn clean_candidates(client_dirs: &Vec<String>) -> (r: Vec<String>)
    ensures
        views(r@) == clean_candidates_spec(views(client_dirs@)),
{
    let mut v: Vec<String> = Vec::new();
    v.push(string_from("target/deploy"));
    v.push(string_from("target/profile"));
    v.push(string_from("target/idl"));
    let ghost head = views(v@);
    let n = client_dirs.len();
    let mut i: usize = 0;
    while i < n
        invariant
            n == client_dirs@.len(),
            i <= n,
            views(v@) == head + views(client_dirs@).take(i as int),
        decreases n - i,
    {
        let ghost before = views(v@);
        v.push(client_dirs[i].clone());
        assert(views(v@) =~= before.push(client_dirs@[i as int]@));
        assert(views(client_dirs@).take(i + 1) =~= views(client_dirs@).take(i as int).push(
            client_dirs@[i as int]@,
        ));
        i = i + 1;
    }
    assert(views(client_dirs@).take(n as int) =~= views(client_dirs@));
    assert(head =~= seq!["target/deploy"@, "target/profile"@, "target/idl"@]);
    v
}

/// How one existing directory is cleaned.
pub enum CleanStep {
    /// Empty `target/deploy` but keep its keypair files: a lost keypair is a lost program
    /// address.
    ClearDeployKeepingKeypairs,
    /// Remove the directory and everything in it.
    RemoveDir(String),
}

/// The step for one existing directory.
pub open spec fn step_for(dir: Seq<char>) -> Option<Seq<char>> {
    if dir == "target/deploy"@ {
        None
    } else {
        Some(dir)
    }
}

/// What `quasar clean` does with the directories that exist: nothing when there are none
/// and no full clean was asked for; else one step per directory, in order.
pub fn clean_steps(existing: &Vec<String>, all: bool) -> (r: Option<Vec<CleanStep>>)
    ensures
        (existing@.len() == 0 && !all) <==> r is None,
        r matches Some(steps) ==> {
            &&& steps@.len() == existing@.len()
            &&& forall|i: int|
                0 <= i < steps@.len() ==> match step_for(#[trigger] existing@[i]@) {
                    None => steps@[i] is ClearDeployKeepingKeypairs,
                    Some(d) => steps@[i] matches CleanStep::RemoveDir(s) && s@ == d,
                }
        },
{
    if existing.len() == 0 && !all {
        return None;
    }
    let mut steps: Vec<CleanStep> = Vec::new();
    let n = existing.len();
    let mut i: usize = 0;
    while i < n
        invariant
            n == existing@.len(),
            i <= n,
            steps@.len() == i,
            forall|j: int|
                0 <= j < i ==> match step_for(#[trigger] existing@[j]@) {
                    None => steps@[j] is ClearDeployKeepingKeypairs,
                    Some(d) => steps@[j] matches CleanStep::RemoveDir(s) && s@ == d,
                },
        decreases n - i,
    {
        if str_eq(existing[i].as_str(), "target/deploy") {
            steps.push(CleanStep::ClearDeployKeepingKeypairs);
        } else {
            steps.push(CleanStep::RemoveDir(existing[i].clone()));
        }
        i = i + 1;
    }
    Some(steps)
}

/// An entry of `target/deploy` that cleaning keeps: a file whose name ends in
/// `-keypair.json` (an entry whose name is not text is removed).
pub open spec fn kept_in_deploy(name: Option<Seq<char>>) -> bool {
    match name {
        Some(n) => n.len() >= 13 && n.skip(n.len() - 13) == "-keypair.json"@,
        None => false,
    }
}

/// Whether cleaning keeps this entry of `target/deploy`.
pub fn keeps_deploy_entry(name: Option<&str>) -> (r: bool)
    ensures
        r == kept_in_deploy(
            match name {
                Some(n) => Some(n@),
                None => None,
            },
        ),
{
    match name {
        Some(n) => {
            let c = chars_of(n);
            let suffix = chars_of("-keypair.json");
            proof {
                reveal_strlit("-keypair.json");
            }
            let len = c.len();
            if len < 13 {
                return false;
            }
            let mut i: usize = 0;
            while i < 13
                invariant
                    len == c@.len(),
                    c@ == n@,
                    name == Some(n),
                    len >= 13,
                    suffix@ == "-keypair.json"@,
                    suffix@.len() == 13,
                    i <= 13,
                    forall|j: int| 0 <= j < i ==> c@[len - 13 + j] == suffix@[j],
                decreases 13 - i,
            {
                if c[len - 13 + i] != suffix[i] {
                    assert(c@.skip(len - 13)[i as int] != "-keypair.json"@[i as int]);
                    return false;
                }
                i = i + 1;
            }
            assert(c@.skip(len - 13) =~= "-keypair.json"@);
            true
        },
        None => false,
    }
}

/// The error of a failed `cargo clean`, with its trimmed stderr.
pub fn cargo_clean_failure(stderr: &str) -> (r: String)
    ensures
        r@ == "cargo clean failed: "@ + trim_spec(stderr@),
{
    let c = chars_of(stderr);
    let t = trim_chars(&c);
    let mut s = string_from("cargo clean failed: ");
    append_chars(&mut s, &t);
    s
}

} // verus!
