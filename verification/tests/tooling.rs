use quasar::build_cmd::{
    build_command, build_complete_line, deploy_copy, profile_build_command, profile_complete_line,
    profile_copy, sbf_release_artifact, size_info, streamed_failure_message, upstream_artifact,
};
use quasar::error::CliError;
use quasar::test_runner::{rust_test_command, test_suite, typescript_commands, CommandSpec, TestSuite};
use quasar::watch::{sort_snapshot, watch_roots, watch_step, WatchAction, WatchEntry};

fn strs(v: &[String]) -> Vec<&str> {
    v.iter().map(|s| s.as_str()).collect()
}

fn env(v: &[(String, String)]) -> Vec<(&str, &str)> {
    v.iter().map(|(a, b)| (a.as_str(), b.as_str())).collect()
}

#[test]
fn solana_build_pins_platform_tools() {
    let c = build_command(true, Some("programs/vault/Cargo.toml"), true, Some("idl-build"));
    assert_eq!(
        strs(&c.args),
        vec![
            "build-sbf",
            "--tools-version",
            "v1.52",
            "--manifest-path",
            "programs/vault/Cargo.toml",
            "--debug",
            "--features",
            "idl-build"
        ]
    );
    assert!(c.env.is_empty());
    let plain = build_command(true, None, false, None);
    assert_eq!(strs(&plain.args), vec!["build-sbf", "--tools-version", "v1.52"]);
}

#[test]
fn upstream_build_uses_build_bpf_and_debug_rustflags() {
    let c = build_command(false, None, true, Some("a,b"));
    assert_eq!(strs(&c.args), vec!["build-bpf", "--features", "a,b"]);
    assert_eq!(env(&c.env), vec![("RUSTFLAGS", "-C link-arg=--btf -C debuginfo=2")]);
    let release = build_command(false, Some("Cargo.toml"), false, None);
    assert_eq!(strs(&release.args), vec!["build-bpf", "--manifest-path", "Cargo.toml"]);
    assert!(release.env.is_empty());
}

#[test]
fn profile_build_encodes_rustflags() {
    let c = profile_build_command(true, None, &vec![]);
    assert_eq!(strs(&c.args), vec!["build-sbf", "--tools-version", "v1.52", "--debug"]);
    let existing = vec!["-C".to_string(), "target-cpu=v2".to_string()];
    let u = profile_build_command(false, Some("p/Cargo.toml"), &existing);
    assert_eq!(strs(&u.args), vec!["build-bpf", "--manifest-path", "p/Cargo.toml"]);
    assert_eq!(
        env(&u.env),
        vec![(
            "CARGO_ENCODED_RUSTFLAGS",
            "-C\u{1f}target-cpu=v2\u{1f}-C\u{1f}link-arg=--btf\u{1f}-C\u{1f}debuginfo=2"
        )]
    );
    let none = profile_build_command(false, None, &vec![]);
    assert_eq!(
        env(&none.env),
        vec![("CARGO_ENCODED_RUSTFLAGS", "-C\u{1f}link-arg=--btf\u{1f}-C\u{1f}debuginfo=2")]
    );
}

#[test]
fn artifact_paths() {
    assert_eq!(upstream_artifact("vault"), vec!["target", "bpfel-unknown-none", "release", "libvault.so"]);
    assert_eq!(deploy_copy("vault"), vec!["target", "deploy", "libvault.so"]);
    assert_eq!(sbf_release_artifact("vault"), vec!["target", "sbf-solana-solana", "release", "vault.so"]);
    assert_eq!(profile_copy("vault"), vec!["target", "profile", "vault.so"]);
}

#[test]
fn build_report_lines() {
    assert_eq!(size_info(2048, ", +5 B", false), " (2.0 KB, +5 B)");
    assert_eq!(
        build_complete_line("1.2s", " (2.0 KB)", false),
        "[ok] Build complete in 1.2s (2.0 KB)"
    );
    assert_eq!(build_complete_line("3m 2s", "", false), "[ok] Build complete in 3m 2s");
    assert_eq!(
        build_complete_line("1.2s", "", true),
        "\x1b[38;5;83m\u{2714}\x1b[0m Build complete in \x1b[1m1.2s\x1b[0m"
    );
    assert_eq!(profile_complete_line("800ms", 100, false), "[ok] Profile build in 800ms (100 B)");
    assert_eq!(streamed_failure_message("4.0s"), "build failed after 4.0s");
}

#[test]
fn cli_errors_render_and_exit() {
    let e = CliError::io_path("read", "Quasar.toml", "No such file or directory (os error 2)");
    assert_eq!(e.to_string(), "failed to read Quasar.toml: No such file or directory (os error 2)");
    assert_eq!(e.exit_code(), 1);
    let p = CliError::process_failure("cargo test failed", 101);
    assert_eq!(p.to_string(), "cargo test failed");
    assert_eq!(p.exit_code(), 101);
    assert_eq!(CliError::message("boom").to_string(), "boom");
    assert_eq!(CliError::json_parse("IDL", "eof").to_string(), "failed to parse IDL: eof");
    assert_eq!(
        CliError::json_serialize("IDL", "bad key").to_string(),
        "failed to serialize IDL: bad key"
    );
    assert_eq!(CliError::IoError("denied".to_string()).to_string(), "I/O error: denied");
    assert_eq!(CliError::TomlParseError("x".to_string()).to_string(), "failed to parse TOML: x");
    assert_eq!(CliError::TomlSerError("y".to_string()).to_string(), "failed to serialize TOML: y");
    assert_eq!(CliError::Prompt("io".to_string()).to_string(), "prompt failed: io");
}

#[test]
fn test_suite_and_default_commands() {
    assert_eq!(test_suite(true, true), TestSuite::TypeScript);
    assert_eq!(test_suite(false, true), TestSuite::Rust);
    assert_eq!(test_suite(false, false), TestSuite::NotConfigured);
    let (install, test) = typescript_commands(None);
    assert_eq!(install.program, "npm");
    assert_eq!(install.args, vec!["install"]);
    assert_eq!(test.program, "npx");
    assert_eq!(test.args, vec!["vitest", "run"]);
    let r = rust_test_command(None);
    assert_eq!(r.program, "cargo");
    assert_eq!(r.args, vec!["test", "tests::"]);
    let custom = rust_test_command(Some(CommandSpec::new("make", &["test"])));
    assert_eq!(custom.program, "make");
    let (i2, _) = typescript_commands(Some((CommandSpec::new("bun", &["i"]), CommandSpec::new("bun", &["test"]))));
    assert_eq!(i2.args, vec!["i"]);
}

fn entry(path: &[&str], t: i128) -> WatchEntry {
    WatchEntry { path: path.iter().map(|p| p.to_string()).collect(), modified: t }
}

fn paths(v: &[WatchEntry]) -> Vec<String> {
    v.iter().map(|e| e.path.join("/")).collect()
}

#[test]
fn watch_roots_are_manifests_then_sources() {
    let roots: Vec<String> = watch_roots().iter().map(|p| p.join("/")).collect();
    assert_eq!(roots, vec!["Cargo.toml", "Cargo.lock", "Quasar.toml", ".cargo/config.toml", "src", "tests"]);
}

#[test]
fn snapshots_sort_by_path_components() {
    let s = sort_snapshot(vec![
        entry(&["src", "lib.rs"], 5),
        entry(&["Cargo.toml"], 1),
        entry(&["src", "a", "b.rs"], 3),
        entry(&["src"], 9),
        entry(&[".cargo", "config.toml"], 2),
        entry(&["src-extra", "x.rs"], 4),
    ]);
    assert_eq!(
        paths(&s),
        vec![".cargo/config.toml", "Cargo.toml", "src", "src/a/b.rs", "src/lib.rs", "src-extra/x.rs"]
    );
    assert_eq!(s[1].modified, 1);
}

#[test]
fn watch_reruns_only_on_change() {
    let a = sort_snapshot(vec![entry(&["src", "lib.rs"], 5), entry(&["Cargo.toml"], 1)]);
    let b = sort_snapshot(vec![entry(&["Cargo.toml"], 1), entry(&["src", "lib.rs"], 5)]);
    assert_eq!(watch_step(&a, &b), WatchAction::Wait);
    let touched = sort_snapshot(vec![entry(&["Cargo.toml"], 1), entry(&["src", "lib.rs"], 6)]);
    assert_eq!(watch_step(&a, &touched), WatchAction::Rerun);
    let added = sort_snapshot(vec![
        entry(&["Cargo.toml"], 1),
        entry(&["src", "lib.rs"], 5),
        entry(&["src", "new.rs"], 7),
    ]);
    assert_eq!(watch_step(&a, &added), WatchAction::Rerun);
    let renamed = sort_snapshot(vec![entry(&["Cargo.toml"], 1), entry(&["src", "main.rs"], 5)]);
    assert_eq!(watch_step(&a, &renamed), WatchAction::Rerun);
}

#[test]
fn path_order_matches_std_paths() {
    let raw = vec![
        vec!["src", "é.rs"],
        vec!["src", "z.rs"],
        vec!["src", "Z.rs"],
        vec!["src", "a"],
        vec!["src", "a", "b"],
        vec!["src", "a.rs"],
        vec!["tests"],
    ];
    let mut expected: Vec<std::path::PathBuf> = raw.iter().map(|p| p.iter().collect()).collect();
    expected.sort();
    let sorted = sort_snapshot(raw.iter().map(|p| entry(p, 0)).collect());
    let got: Vec<std::path::PathBuf> = sorted.iter().map(|e| e.path.iter().collect()).collect();
    assert_eq!(got, expected);
}

use quasar::clean::{cargo_clean_failure, clean_candidates, clean_steps, keeps_deploy_entry, CleanStep};
use quasar::disasm::{
    disassembly_error, instruction_count, objdump_args, objdump_failure_message, summary_line,
};
use quasar::dump::{newest_version, parse_toolchain_version};
use quasar::init::git_marker;

#[test]
fn clean_looks_at_outputs_then_clients() {
    let dirs = clean_candidates(&vec!["generated/clients".to_string(), "target/client".to_string()]);
    assert_eq!(
        dirs,
        vec!["target/deploy", "target/profile", "target/idl", "generated/clients", "target/client"]
    );
}

#[test]
fn clean_keeps_keypairs_in_deploy() {
    assert!(clean_steps(&vec![], false).is_none());
    let none_but_all = clean_steps(&vec![], true).unwrap();
    assert!(none_but_all.is_empty());
    let steps = clean_steps(&vec!["target/deploy".to_string(), "target/idl".to_string()], false).unwrap();
    assert!(matches!(steps[0], CleanStep::ClearDeployKeepingKeypairs));
    assert!(matches!(&steps[1], CleanStep::RemoveDir(d) if d == "target/idl"));
    assert!(keeps_deploy_entry(Some("vault-keypair.json")));
    assert!(keeps_deploy_entry(Some("-keypair.json")));
    assert!(!keeps_deploy_entry(Some("vault.so")));
    assert!(!keeps_deploy_entry(Some("keypair.json")));
    assert!(!keeps_deploy_entry(None));
}

#[test]
fn cargo_clean_failure_trims_stderr() {
    assert_eq!(
        cargo_clean_failure("\n  error: could not remove\n\t "),
        "cargo clean failed: error: could not remove"
    );
    assert_eq!(cargo_clean_failure(" \u{a0}x\u{2003}"), "cargo clean failed: x");
    assert_eq!(cargo_clean_failure("   "), "cargo clean failed: ");
}

#[test]
fn objdump_invocation() {
    assert_eq!(
        objdump_args(true, Some("entrypoint"), "target/deploy/vault.so"),
        vec!["-d", "-C", "--no-show-raw-insn", "-S", "--disassemble-symbols=entrypoint", "target/deploy/vault.so"]
    );
    assert_eq!(objdump_args(false, None, "a.so"), vec!["-d", "-C", "--no-show-raw-insn", "a.so"]);
}

fn chars_lines(text: &str) -> Vec<Vec<char>> {
    text.lines().map(|l| l.chars().collect()).collect()
}

#[test]
fn instruction_lines_start_with_an_address() {
    let out = "\nvault.so:\tfile format elf64-bpf\n\nDisassembly of section .text:\n\n0000000000000120 <entrypoint>:\n      24:\tr1 = 0x0\n      25:\texit\n  beef\n  xyz: nope\n";
    let lines = chars_lines(out);
    assert_eq!(instruction_count(&lines), 3);
    let reference = out
        .lines()
        .filter(|l| {
            let trimmed = l.trim();
            trimmed.split(':').next().is_some_and(|addr| {
                !addr.is_empty() && addr.trim().chars().all(|c| c.is_ascii_hexdigit())
            })
        })
        .count();
    assert_eq!(instruction_count(&lines), reference);
    let tricky = " \u{2003}a0 : x\n:\n\u{a0}\nFF\n 12 34: y\n";
    let tricky_ref = tricky
        .lines()
        .filter(|l| {
            let trimmed = l.trim();
            trimmed.split(':').next().is_some_and(|addr| {
                !addr.is_empty() && addr.trim().chars().all(|c| c.is_ascii_hexdigit())
            })
        })
        .count();
    assert_eq!(instruction_count(&chars_lines(tricky)), tricky_ref);
    assert_eq!(instruction_count(&vec![]), 0);
}

#[test]
fn disassembly_results_and_messages() {
    assert_eq!(disassembly_error(0, None), Some("no disassembly output".to_string()));
    assert_eq!(
        disassembly_error(2, Some("foo")),
        Some("symbol not found: foo\n  Try a mangled or partial name, e.g. 'entrypoint'".to_string())
    );
    assert_eq!(disassembly_error(3, Some("foo")), None);
    assert_eq!(disassembly_error(1, None), None);
    assert_eq!(summary_line(42, "a.so", false), "\n  sBPF 42 instructions (a.so)");
    assert_eq!(objdump_failure_message("  \n"), "llvm-objdump failed");
    assert_eq!(objdump_failure_message(" bad elf \n"), "llvm-objdump failed\nbad elf");
}

#[test]
fn newest_platform_tools_wins() {
    let vs: Vec<_> = ["v1.41", "v1.52", "v1.9", "v1.52.0", "v1.43"]
        .iter()
        .map(|n| parse_toolchain_version(n).unwrap())
        .collect();
    assert_eq!(newest_version(&vs), Some(1));
    assert_eq!(newest_version(&vec![]), None);
}

#[test]
fn git_marker_inside_project() {
    assert_eq!(git_marker("."), ".git");
    assert_eq!(git_marker("demo"), "demo/.git");
    assert_eq!(git_marker("demo/"), "demo/.git");
    assert_eq!(std::path::Path::new("a/b").join(".git").to_string_lossy(), git_marker("a/b"));
}

#[test]
fn trimming_follows_unicode_white_space() {
    let samples = [
        "\u{3000} a b\u{a0}",
        "\u{85}x\u{2028}",
        "\u{200b}zero width stays\u{200b}",
        "\t\n\x0b\x0c\r mixed \u{1680}\u{2000}\u{200a}\u{202f}\u{205f}",
        "\u{1c}kept\u{1f}",
    ];
    for s in samples {
        let chars: Vec<char> = s.chars().collect();
        let trimmed: String = quasar::text::trim_chars(&chars).into_iter().collect();
        assert_eq!(trimmed, s.trim());
    }
    for c in '\0'..='\u{3100}' {
        let chars = vec![c, 'x'];
        let trimmed = quasar::text::trim_chars(&chars);
        assert_eq!(trimmed.len() == 1, c.is_whitespace(), "char {:?}", c);
    }
}
