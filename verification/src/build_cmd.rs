//! `quasar build`: the cargo command each toolchain runs, where the built program lands and
//! where it is copied, and the lines reported when a build ends.

use vstd::prelude::*;
use crate::style::{bold, dim, human_size, human_size_spec, tagged, wrapped};
use crate::text::{append_char, append_str, string_from};
use crate::test_runner::views;

verus! {

broadcast use vstd::string::group_string_axioms;

/// The platform-tools release that `cargo build-sbf` is pinned to.
pub open spec fn platform_tools_version() -> Seq<char> {
    "v1.52"@
}

/// A cargo invocation: its arguments and the environment variables it sets.
pub struct BuildCommand {
    pub args: Vec<String>,
    pub env: Vec<(String, String)>,
}

/// The environment of a build command, as character sequences.
pub open spec fn env_views(env: Seq<(String, String)>) -> Seq<(Seq<char>, Seq<char>)> {
    env.map_values(|p: (String, String)| (p.0@, p.1@))
}

/// `--manifest-path <m>` when the build is scoped to one crate of a workspace.
pub open spec fn manifest_args(manifest: Option<Seq<char>>) -> Seq<Seq<char>> {
    match manifest {
        Some(m) => seq!["--manifest-path"@, m],
        None => seq![],
    }
}

/// `--features <f>` when features were asked for.
pub open spec fn feature_args(features: Option<Seq<char>>) -> Seq<Seq<char>> {
    match features {
        Some(f) => seq!["--features"@, f],
        None => seq![],
    }
}

/// The arguments of `cargo` for a build: `build-sbf` pinned to the platform tools (with
/// `--debug` for a debug build) on the Solana toolchain, `build-bpf` upstream; then the
/// manifest of a scoped build and the features.
pub open spec fn build_args_spec(
    solana: bool,
    manifest: Option<Seq<char>>,
    debug: bool,
    features: Option<Seq<char>>,
) -> Seq<Seq<char>> {
    if solana {
        seq!["build-sbf"@, "--tools-version"@, platform_tools_version()] + manifest_args(manifest) + (
        if debug {
            seq!["--debug"@]
        } else {
            seq![]
        }) + feature_args(features)
    } else {
        seq!["build-bpf"@] + manifest_args(manifest) + feature_args(features)
    }
}

/// The environment of a build: upstream debug builds emit BTF and full debug info.
pub open spec fn build_env_spec(solana: bool, debug: bool) -> Seq<(Seq<char>, Seq<char>)> {
    if !solana && debug {
        seq![("RUSTFLAGS"@, "-C link-arg=--btf -C debuginfo=2"@)]
    } else {
        seq![]
    }
}

fn push_str(v: &mut Vec<String>, s: &str)
    ensures
        views(final(v)@) == views(old(v)@).push(s@),
{
    let t = string_from(s);
    v.push(t);
    assert(views(v@) =~= views(old(v)@).push(s@));
}

fn push_manifest(v: &mut Vec<String>, manifest: Option<&str>)
    ensures
        views(final(v)@) == views(old(v)@) + manifest_args(
            match manifest {
                Some(m) => Some(m@),
                None => None,
            },
        ),
{
    match manifest {
        Some(m) => {
            push_str(v, "--manifest-path");
            push_str(v, m);
            assert(views(v@) =~= views(old(v)@) + seq!["--manifest-path"@, m@]);
        },
        None => {
            assert(views(v@) =~= views(old(v)@) + Seq::<Seq<char>>::empty());
        },
    }
}

fn push_features(v: &mut Vec<String>, features: Option<&str>)
    ensures
        views(final(v)@) == views(old(v)@) + feature_args(
            match features {
                Some(f) => Some(f@),
                None => None,
            },
        ),
{
    match features {
        Some(f) => {
            push_str(v, "--features");
            push_str(v, f);
            assert(views(v@) =~= views(old(v)@) + seq!["--features"@, f@]);
        },
        None => {
            assert(views(v@) =~= views(old(v)@) + Seq::<Seq<char>>::empty());
        },
    }
}

/// The cargo command of `quasar build`; `manifest` is the program crate's manifest when
/// the build is scoped to it.
pub fn build_command(solana: bool, manifest: Option<&str>, debug: bool, features: Option<&str>) -> (r:
    BuildCommand)
    ensures
        views(r.args@) == build_args_spec(
            solana,
            match manifest {
                Some(m) => Some(m@),
                None => None,
            },
            debug,
            match features {
                Some(f) => Some(f@),
                None => None,
            },
        ),
        env_views(r.env@) == build_env_spec(solana, debug),
{
    let mut args: Vec<String> = Vec::new();
    let mut env: Vec<(String, String)> = Vec::new();
    if solana {
        push_str(&mut args, "build-sbf");
        push_str(&mut args, "--tools-version");
        push_str(&mut args, "v1.52");
        let ghost head = views(args@);
        push_manifest(&mut args, manifest);
        let ghost mid = views(args@);
        if debug {
            push_str(&mut args, "--debug");
        }
        let ghost mid2 = views(args@);
        assert(mid2 == mid + if debug {
            seq!["--debug"@]
        } else {
            Seq::<Seq<char>>::empty()
        });
        push_features(&mut args, features);
    } else {
        if debug {
            env.push((string_from("RUSTFLAGS"), string_from("-C link-arg=--btf -C debuginfo=2")));
        }
        push_str(&mut args, "build-bpf");
        push_manifest(&mut args, manifest);
        push_features(&mut args, features);
    }
    assert(env_views(env@) =~= build_env_spec(solana, debug));
    BuildCommand { args, env }
}

/// `parts` joined with `sep` between neighbours.
pub open spec fn joined_with(parts: Seq<Seq<char>>, sep: char) -> Seq<char>
    decreases parts.len(),
{
    if parts.len() == 0 {
        seq![]
    } else if parts.len() == 1 {
        parts[0]
    } else {
        joined_with(parts.drop_last(), sep).push(sep) + parts.last()
    }
}

/// The debug flags a profile build adds to the target's own rustflags.
pub open spec fn profile_flags() -> Seq<Seq<char>> {
    seq!["-C"@, "link-arg=--btf"@, "-C"@, "debuginfo=2"@]
}

/// The arguments of `cargo` for a profile build: a debug `build-sbf` pinned to the platform
/// tools, or `build-bpf`; then the manifest of a scoped build.
pub open spec fn profile_args_spec(solana: bool, manifest: Option<Seq<char>>) -> Seq<Seq<char>> {
    if solana {
        seq!["build-sbf"@, "--tools-version"@, platform_tools_version(), "--debug"@]
            + manifest_args(manifest)
    } else {
        seq!["build-bpf"@] + manifest_args(manifest)
    }
}

/// The environment of a profile build: upstream, the target's rustflags plus the debug flags,
/// passed as `CARGO_ENCODED_RUSTFLAGS` (separated by `0x1f`).
pub open spec fn profile_env_spec(solana: bool, existing: Seq<Seq<char>>) -> Seq<
    (Seq<char>, Seq<char>),
> {
    if solana {
        seq![]
    } else {
        seq![("CARGO_ENCODED_RUSTFLAGS"@, joined_with(existing + profile_flags(), '\x1f'))]
    }
}

fn join_unit_separated(parts: &Vec<String>) -> (r: String)
    ensures
        r@ == joined_with(views(parts@), '\x1f'),
{
    let mut s = String::new();
    let n = parts.len();
    let mut i: usize = 0;
    while i < n
        invariant
            n == parts@.len(),
            i <= n,
            s@ == joined_with(views(parts@).take(i as int), '\x1f'),
        decreases n - i,
    {
        let ghost before = s@;
        if i > 0 {
            append_char(&mut s, '\x1f');
        }
        append_str(&mut s, parts[i].as_str());
        proof {
            let t = views(parts@).take(i + 1);
            assert(t.drop_last() =~= views(parts@).take(i as int));
            assert(t.last() == parts@[i as int]@);
            if i == 0 {
                assert(t.len() == 1);
                assert(s@ =~= t[0]);
            } else {
                assert(s@ =~= before.push('\x1f') + t.last());
            }
        }
        i = i + 1;
    }
    assert(views(parts@).take(n as int) =~= views(parts@));
    s
}

/// The cargo command of a profile build; `existing` are the rustflags the target already
/// has.
pub fn profile_build_command(solana: bool, manifest: Option<&str>, existing: &Vec<String>) -> (r:
    BuildCommand)
    ensures
        views(r.args@) == profile_args_spec(
            solana,
            match manifest {
                Some(m) => Some(m@),
                None => None,
            },
        ),
        env_views(r.env@) == profile_env_spec(solana, views(existing@)),
{
    let mut args: Vec<String> = Vec::new();
    let mut env: Vec<(String, String)> = Vec::new();
    if solana {
        push_str(&mut args, "build-sbf");
        push_str(&mut args, "--tools-version");
        push_str(&mut args, "v1.52");
        push_str(&mut args, "--debug");
        push_manifest(&mut args, manifest);
    } else {
        let mut flags: Vec<String> = Vec::new();
        let n = existing.len();
        let mut i: usize = 0;
        while i < n
            invariant
                n == existing@.len(),
                i <= n,
                views(flags@) == views(existing@).take(i as int),
            decreases n - i,
        {
            let ghost before = views(flags@);
            flags.push(existing[i].clone());
            assert(views(flags@) =~= before.push(existing@[i as int]@));
            assert(views(existing@).take(i + 1) =~= views(existing@).take(i as int).push(
                existing@[i as int]@,
            ));
            i = i + 1;
        }
        push_str(&mut flags, "-C");
        push_str(&mut flags, "link-arg=--btf");
        push_str(&mut flags, "-C");
        push_str(&mut flags, "debuginfo=2");
        assert(views(existing@).take(n as int) =~= views(existing@));
        assert(views(flags@) =~= views(existing@) + profile_flags());
        let encoded = join_unit_separated(&flags);
        env.push((string_from("CARGO_ENCODED_RUSTFLAGS"), encoded));
        push_str(&mut args, "build-bpf");
        push_manifest(&mut args, manifest);
    }
    assert(env_views(env@) =~= profile_env_spec(solana, views(existing@)));
    BuildCommand { args, env }
}

/// Where an upstream build leaves the program: `target/bpfel-unknown-none/release/lib<name>.so`.
pub open spec fn upstream_artifact_spec(program: Seq<char>) -> Seq<Seq<char>> {
    seq!["target"@, "bpfel-unknown-none"@, "release"@, "lib"@ + program + ".so"@]
}

/// Where an upstream build's program is copied for deployment: `target/deploy/lib<name>.so`.
pub open spec fn deploy_copy_spec(program: Seq<char>) -> Seq<Seq<char>> {
    seq!["target"@, "deploy"@, "lib"@ + program + ".so"@]
}

/// Where a Solana-toolchain profile build leaves the program when no built program is
/// found: `target/sbf-solana-solana/release/<name>.so`.
pub open spec fn sbf_release_artifact_spec(program: Seq<char>) -> Seq<Seq<char>> {
    seq!["target"@, "sbf-solana-solana"@, "release"@, program + ".so"@]
}

/// Where a profile build's program is copied: `target/profile/<name>.so`.
pub open spec fn profile_copy_spec(program: Seq<char>) -> Seq<Seq<char>> {
    seq!["target"@, "profile"@, program + ".so"@]
}

fn file_name(prefix: &str, program: &str) -> (r: String)
    ensures
        r@ == prefix@ + program@ + ".so"@,
{
    let mut s = string_from(prefix);
    append_str(&mut s, program);
    append_str(&mut s, ".so");
    s
}

fn path_of(a: &str, b: &str, c: Option<&str>, last: String) -> (r: Vec<String>)
    ensures
        views(r@) == match c {
            Some(c) => seq![a@, b@, c@, last@],
            None => seq![a@, b@, last@],
        },
{
    let mut v: Vec<String> = Vec::new();
    push_str(&mut v, a);
    push_str(&mut v, b);
    match c {
        Some(c) => push_str(&mut v, c),
        None => {},
    }
    let ghost before = views(v@);
    let ghost l = last@;
    v.push(last);
    assert(views(v@) =~= before.push(l));
    v
}

/// Where an upstream build leaves the program, as path components.
pub fn upstream_artifact(program: &str) -> (r: Vec<String>)
    ensures
        views(r@) == upstream_artifact_spec(program@),
{
    path_of("target", "bpfel-unknown-none", Some("release"), file_name("lib", program))
}

/// Where an upstream build's program is copied for deployment, as path components.
pub fn deploy_copy(program: &str) -> (r: Vec<String>)
    ensures
        views(r@) == deploy_copy_spec(program@),
{
    path_of("target", "deploy", None, file_name("lib", program))
}

/// The Solana-toolchain release artifact, as path components.
pub fn sbf_release_artifact(program: &str) -> (r: Vec<String>)
    ensures
        views(r@) == sbf_release_artifact_spec(program@),
{
    proof {
        reveal_strlit("");
        assert(""@ + program@ =~= program@);
    }
    path_of("target", "sbf-solana-solana", Some("release"), file_name("", program))
}

/// Where a profile build's program is copied, as path components.
pub fn profile_copy(program: &str) -> (r: Vec<String>)
    ensures
        views(r@) == profile_copy_spec(program@),
{
    proof {
        reveal_strlit("");
        assert(""@ + program@ =~= program@);
    }
    path_of("target", "profile", None, file_name("", program))
}

/// The size part of the build report: ` (<size dimmed><delta>)`.
pub open spec fn size_info_spec(size: u64, delta: Seq<char>, enabled: bool) -> Seq<char> {
    " ("@ + wrapped(enabled, "\x1b[2m"@, human_size_spec(size)) + delta + ")"@
}

/// The line reported after a successful build: the elapsed time in bold, then the size of
/// the program and its change when it was found.
pub open spec fn build_complete_spec(elapsed: Seq<char>, size_info: Seq<char>, enabled: bool) -> Seq<
    char,
> {
    tagged(
        enabled,
        "\x1b[38;5;83m\u{2714}"@,
        "[ok]"@,
        "Build complete in "@ + wrapped(enabled, "\x1b[1m"@, elapsed) + size_info,
    )
}

/// The size part of the build report for a program of `size` bytes whose size changed by
/// `delta` (already rendered).
pub fn size_info(size: u64, delta: &str, enabled: bool) -> (r: String)
    ensures
        r@ == size_info_spec(size, delta@, enabled),
{
    let mut s = string_from(" (");
    let h = human_size(size);
    append_str(&mut s, dim(h.as_str(), enabled).as_str());
    append_str(&mut s, delta);
    append_str(&mut s, ")");
    s
}

/// The line reported after a successful build; `size_info` is empty when no built program
/// was found.
pub fn build_complete_line(elapsed: &str, size_info: &str, enabled: bool) -> (r: String)
    ensures
        r@ == build_complete_spec(elapsed@, size_info@, enabled),
{
    let mut msg = string_from("Build complete in ");
    append_str(&mut msg, bold(elapsed, enabled).as_str());
    append_str(&mut msg, size_info);
    crate::style::success(msg.as_str(), enabled)
}

/// The line reported after a successful profile build.
pub open spec fn profile_complete_spec(elapsed: Seq<char>, size: u64, enabled: bool) -> Seq<char> {
    tagged(
        enabled,
        "\x1b[38;5;83m\u{2714}"@,
        "[ok]"@,
        "Profile build in "@ + wrapped(enabled, "\x1b[1m"@, elapsed) + " ("@ + wrapped(
            enabled,
            "\x1b[2m"@,
            human_size_spec(size),
        ) + ")"@,
    )
}

/// The line reported after a successful profile build.
pub fn profile_complete_line(elapsed: &str, size: u64, enabled: bool) -> (r: String)
    ensures
        r@ == profile_complete_spec(elapsed@, size, enabled),
{
    let mut msg = string_from("Profile build in ");
    append_str(&mut msg, bold(elapsed, enabled).as_str());
    append_str(&mut msg, " (");
    let h = human_size(size);
    append_str(&mut msg, dim(h.as_str(), enabled).as_str());
    append_str(&mut msg, ")");
    let r = crate::style::success(msg.as_str(), enabled);
    assert(msg@ =~= "Profile build in "@ + wrapped(enabled, "\x1b[1m"@, elapsed@) + " ("@ + wrapped(
        enabled,
        "\x1b[2m"@,
        human_size_spec(size),
    ) + ")"@);
    r
}

/// The error of a streamed build that failed.
pub fn streamed_failure_message(elapsed: &str) -> (r: String)
    ensures
        r@ == "build failed after "@ + elapsed@,
{
    let mut s = string_from("build failed after ");
    append_str(&mut s, elapsed);
    s
}

/// The shape of every build command's arguments: `build-sbf --tools-version v1.52` on the
/// Solana toolchain and `build-bpf` upstream come first; a scoped build's
/// `--manifest-path <m>` follows; `--debug` comes next for a Solana debug build only; and
/// asked-for features are always the last two arguments, `--features <f>`, for release
/// and debug builds alike. Nothing else is passed.
pub proof fn build_args_shape(
    solana: bool,
    manifest: Option<Seq<char>>,
    debug: bool,
    features: Option<Seq<char>>,
)
    ensures
        ({
            let a = build_args_spec(solana, manifest, debug, features);
            let h: int = if solana { 3 } else { 1 };
            let m: int = if manifest is Some { 2 } else { 0 };
            let d: int = if solana && debug { 1 } else { 0 };
            let f: int = if features is Some { 2 } else { 0 };
            &&& a.len() == h + m + d + f
            &&& (solana ==> a[0] == "build-sbf"@ && a[1] == "--tools-version"@ && a[2] == "v1.52"@)
            &&& (!solana ==> a[0] == "build-bpf"@)
            &&& (manifest matches Some(p) ==> a[h] == "--manifest-path"@ && a[h + 1] == p)
            &&& (solana && debug ==> a[h + m] == "--debug"@)
            &&& (features matches Some(x) ==> a[a.len() - 2] == "--features"@ && a[a.len() - 1]
                == x)
        }),
{
    reveal_strlit("v1.52");
}

/// Asking for features adds exactly `--features <f>` at the end of the arguments a build
/// would have without them, whatever the toolchain and whether or not it is a debug
/// build.
pub proof fn features_extend_build_args(
    solana: bool,
    manifest: Option<Seq<char>>,
    debug: bool,
    f: Seq<char>,
)
    ensures
        build_args_spec(solana, manifest, debug, Some(f)) == build_args_spec(
            solana,
            manifest,
            debug,
            None,
        ).push("--features"@).push(f),
{
    assert(build_args_spec(solana, manifest, debug, Some(f)) =~= build_args_spec(
        solana,
        manifest,
        debug,
        None,
    ).push("--features"@).push(f));
}

/// Only an upstream debug build sets environment variables: `RUSTFLAGS` with BTF and full
/// debug info. Solana builds and upstream release builds set none.
pub proof fn only_upstream_debug_sets_rustflags(solana: bool, debug: bool)
    ensures
        solana || !debug ==> build_env_spec(solana, debug).len() == 0,
        !solana && debug ==> build_env_spec(solana, debug).len() == 1 && build_env_spec(
            solana,
            debug,
        )[0].0 == "RUSTFLAGS"@,
{
}

} // verus!
