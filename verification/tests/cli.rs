use quasar::cfg::{
    get_value, parse_bool, set_value, some_or_none, validate_value, GlobalConfig, GlobalDefaults,
    UiConfig,
};
use quasar::clean::client_dirs_to_clean;
use quasar::diagnostics::{extract_warnings, format_build_errors};
use quasar::dump::{parse_toolchain_version, ToolchainVersion};
use quasar::init::{
    default_client_languages, git_commands, should_initialize_git, test_language_at,
    test_language_index, toolchain_index, validate_init_flags, GitSetup, PackageManager,
    TestLanguage,
};
use quasar::style::{bold, color, dim, fail, human_size, step, success, warn};
use quasar::test_runner::{is_cargo_program, test_command_args, CommandSpec};
use std::time::Duration;

fn path(parts: &[&str]) -> Vec<String> {
    parts.iter().map(|p| p.to_string()).collect()
}

#[test]
fn uses_only_legacy_dir_when_config_matches_default() {
    let (dirs, warning) = client_dirs_to_clean(Ok(path(&["target", "client"])));

    assert_eq!(dirs, vec![path(&["target", "client"])]);
    assert!(warning.is_none());
}

#[test]
fn cleans_custom_and_legacy_dirs_when_config_moves_clients() {
    let (dirs, warning) = client_dirs_to_clean(Ok(path(&["generated", "clients"])));

    assert_eq!(
        dirs,
        vec![path(&["generated", "clients"]), path(&["target", "client"])]
    );
    assert!(warning.is_none());
}

#[test]
fn falls_back_to_legacy_dir_when_config_is_invalid() {
    let (dirs, warning) = client_dirs_to_clean(Err("invalid Quasar.toml".to_string()));

    assert_eq!(dirs, vec![path(&["target", "client"])]);
    assert!(
        warning.is_some_and(|msg| msg.contains("falling back to target/client")),
        "warning should explain legacy fallback"
    );
}

#[test]
fn fallback_warning_names_the_error() {
    let (_, warning) = client_dirs_to_clean(Err("bad".to_string()));
    assert_eq!(
        warning.unwrap(),
        "note: could not read clients.path from Quasar.toml (bad); falling back to target/client"
    );
}

#[test]
fn parses_semver_style_versions() {
    assert_eq!(
        parse_toolchain_version("v1.18.22"),
        Some(ToolchainVersion(vec![1, 18, 22]))
    );
    assert_eq!(
        parse_toolchain_version("v2.0"),
        Some(ToolchainVersion(vec![2, 0]))
    );
    assert_eq!(parse_toolchain_version("1.18.22"), None);
    assert_eq!(parse_toolchain_version("v1.18.beta"), None);
}

#[test]
fn compares_versions_numerically() {
    let mut versions = [
        parse_toolchain_version("v1.9.0").expect("parse v1.9.0"),
        parse_toolchain_version("v1.18.22").expect("parse v1.18.22"),
        parse_toolchain_version("v1.10.3").expect("parse v1.10.3"),
        parse_toolchain_version("v2.0.0").expect("parse v2.0.0"),
    ];

    versions.sort_by(|a, b| a.cmp(b));

    assert_eq!(
        versions,
        [
            ToolchainVersion(vec![1, 9, 0]),
            ToolchainVersion(vec![1, 10, 3]),
            ToolchainVersion(vec![1, 18, 22]),
            ToolchainVersion(vec![2, 0, 0]),
        ]
    );
}

#[test]
fn version_parts_follow_str_parse_rules() {
    assert_eq!(parse_toolchain_version("v+7.1"), Some(ToolchainVersion(vec![7, 1])));
    assert_eq!(parse_toolchain_version("v"), None);
    assert_eq!(parse_toolchain_version("v1..2"), None);
    assert_eq!(parse_toolchain_version("v1.-2"), None);
    assert_eq!(
        parse_toolchain_version("v18446744073709551615"),
        Some(ToolchainVersion(vec![u64::MAX]))
    );
    assert_eq!(parse_toolchain_version("v18446744073709551616"), None);
}

#[test]
fn trailing_zero_parts_compare_equal() {
    let a = ToolchainVersion(vec![2, 0]);
    let b = ToolchainVersion(vec![2, 0, 0]);
    assert_eq!(a.cmp(&b), std::cmp::Ordering::Equal);
    assert_eq!(
        ToolchainVersion(vec![1, 9]).cmp(&ToolchainVersion(vec![1, 10])),
        std::cmp::Ordering::Less
    );
    assert_eq!(
        ToolchainVersion(vec![3]).partial_cmp(&ToolchainVersion(vec![2, 99])),
        Some(std::cmp::Ordering::Greater)
    );
}

#[test]
fn cargo_filter_is_inserted_before_existing_separator() {
    let cmd = CommandSpec::new("cargo", &["test", "tests::", "--", "--nocapture"]);
    let args = test_command_args(&cmd, Some("my_test"), false);

    assert_eq!(
        args,
        vec!["test", "tests::", "my_test", "--", "--nocapture"]
    );
}

#[test]
fn cargo_show_output_reuses_existing_separator() {
    let cmd = CommandSpec::new("cargo", &["test", "tests::", "--", "--nocapture"]);
    let args = test_command_args(&cmd, None, true);

    assert_eq!(
        args,
        vec!["test", "tests::", "--", "--show-output", "--nocapture"]
    );
}

#[test]
fn cargo_filter_and_show_output_keep_test_binary_args_ordered() {
    let cmd = CommandSpec::new("cargo", &["test", "tests::", "--", "--nocapture"]);
    let args = test_command_args(&cmd, Some("my_test"), true);

    assert_eq!(
        args,
        vec![
            "test",
            "tests::",
            "my_test",
            "--",
            "--show-output",
            "--nocapture"
        ]
    );
}

#[test]
fn non_cargo_filter_uses_t_flag() {
    let cmd = CommandSpec::new("npx", &["vitest", "run"]);
    let args = test_command_args(&cmd, Some("my_test"), true);

    assert_eq!(args, vec!["vitest", "run", "-t", "my_test"]);
}

#[test]
fn cargo_executable_path_is_treated_like_cargo() {
    let cmd = CommandSpec::new("/usr/bin/cargo", &["test"]);
    let args = test_command_args(&cmd, None, true);

    assert_eq!(args, vec!["test", "--", "--show-output"]);
}

#[test]
fn cargo_without_separator_appends_filter() {
    let cmd = CommandSpec::new("cargo", &["test"]);
    let args = test_command_args(&cmd, Some("x"), true);
    assert_eq!(args, vec!["test", "x", "--", "--show-output"]);
    let args = test_command_args(&cmd, None, false);
    assert_eq!(args, vec!["test"]);
}

#[test]
fn cargo_program_detection_uses_file_name() {
    assert!(is_cargo_program("cargo"));
    assert!(is_cargo_program("cargo.exe"));
    assert!(is_cargo_program("/home/u/.cargo/bin/cargo"));
    assert!(is_cargo_program("./cargo/"));
    assert!(is_cargo_program("bin/cargo/."));
    assert!(!is_cargo_program("cargo/.."));
    assert!(!is_cargo_program("cargo-nextest"));
    assert!(!is_cargo_program("/usr/bin/cargo2"));
    assert!(!is_cargo_program(""));
}

fn sample_config() -> GlobalConfig {
    GlobalConfig {
        defaults: GlobalDefaults {
            toolchain: Some("solana".to_string()),
            test_language: None,
            rust_framework: None,
            ts_sdk: None,
            template: None,
            git: Some("init".to_string()),
            package_manager: Some("bun".to_string()),
        },
        ui: UiConfig {
            animation: true,
            color: false,
        },
    }
}

#[test]
fn config_get_shows_values() {
    let c = sample_config();
    assert_eq!(get_value(&c, "defaults.toolchain").as_deref(), Some("solana"));
    assert_eq!(get_value(&c, "defaults.template").as_deref(), Some("(not set)"));
    assert_eq!(get_value(&c, "ui.animation").as_deref(), Some("true"));
    assert_eq!(get_value(&c, "ui.color").as_deref(), Some("false"));
    assert_eq!(get_value(&c, "defaults.package_manager"), None);
    assert_eq!(get_value(&c, "nope"), None);
}

#[test]
fn config_set_then_get_reads_back() {
    let mut c = sample_config();
    assert!(set_value(&mut c, "defaults.template", "full"));
    assert_eq!(get_value(&c, "defaults.template").as_deref(), Some("full"));
    assert!(set_value(&mut c, "defaults.toolchain", "null"));
    assert_eq!(get_value(&c, "defaults.toolchain").as_deref(), Some("(not set)"));
    assert!(set_value(&mut c, "ui.color", "on"));
    assert_eq!(get_value(&c, "ui.color").as_deref(), Some("true"));
    assert!(set_value(&mut c, "ui.animation", "off"));
    assert_eq!(get_value(&c, "ui.animation").as_deref(), Some("false"));
    assert_eq!(get_value(&c, "defaults.git").as_deref(), Some("init"));
    assert!(!set_value(&mut c, "defaults.package_manager", "npm"));
    assert_eq!(c.defaults.package_manager.as_deref(), Some("bun"));
}

#[test]
fn config_validation_lists_options() {
    assert_eq!(validate_value("defaults.toolchain", "solana"), Ok(()));
    assert_eq!(validate_value("defaults.toolchain", ""), Ok(()));
    assert_eq!(
        validate_value("defaults.toolchain", "other"),
        Err("solana, upstream")
    );
    assert_eq!(validate_value("defaults.git", "skip"), Ok(()));
    assert_eq!(
        validate_value("defaults.git", "push"),
        Err("commit, init, skip")
    );
    assert_eq!(validate_value("ui.color", "yes"), Ok(()));
    assert_eq!(validate_value("ui.color", "none"), Err("true, false"));
    assert_eq!(validate_value("unknown.key", "anything"), Ok(()));
}

#[test]
fn config_value_normalization() {
    assert_eq!(some_or_none(""), None);
    assert_eq!(some_or_none("none"), None);
    assert_eq!(some_or_none("null"), None);
    assert_eq!(some_or_none("kit").as_deref(), Some("kit"));
    assert!(parse_bool("1"));
    assert!(parse_bool("yes"));
    assert!(!parse_bool("TRUE"));
    assert!(!parse_bool("off"));
}

#[test]
fn warnings_are_extracted_with_their_context() {
    let stderr = "   Compiling x v0.1.0\nwarning: unused variable: `a`\n --> src/lib.rs:1:5\n  |\n\nerror: other\nwarning: `x` (lib) generated 1 warning emitted\n";
    let w = extract_warnings(stderr);
    assert_eq!(
        w,
        vec![
            "warning: unused variable: `a`",
            " --> src/lib.rs:1:5",
            "  |",
            "",
        ]
    );
    assert!(extract_warnings("").is_empty());
}

#[test]
fn build_errors_are_summarized() {
    let stderr = "error[E0425]: cannot find value `x`\n --> src/lib.rs:2:1\nwarning: unused\nerror: aborting\nCaused by:\n  process didn't exit\nnoise\n";
    let msg = format_build_errors(stderr, "1.2s");
    assert_eq!(
        msg,
        "error[E0425]: cannot find value `x`\n --> src/lib.rs:2:1\nwarning: unused\nerror: aborting\nCaused by:\n  process didn't exit\n\nbuild failed in 1.2s (2 errors, 1 warning)"
    );
    assert_eq!(
        format_build_errors("something odd", "3ms"),
        "something odd\n\nbuild failed in 3ms"
    );
    assert_eq!(format_build_errors("", "3ms"), "build failed in 3ms");
    assert_eq!(
        format_build_errors("warning: a\r\n", "1s"),
        "warning: a\n\nbuild failed in 1s (1 warning)"
    );
}

#[test]
fn styles_with_and_without_color() {
    assert_eq!(success("done", false), "[ok] done");
    assert_eq!(fail("x", false), "[error] x");
    assert_eq!(step("x", false), "[..] x");
    assert_eq!(warn("x", false), "[warn] x");
    assert_eq!(bold("b", false), "b");
    assert_eq!(dim("d", false), "d");
    assert_eq!(color(83, "c", false), "c");
    assert_eq!(success("done", true), "\x1b[38;5;83m\u{2714}\x1b[0m done");
    assert_eq!(fail("x", true), "\x1b[38;5;196m\u{2718}\x1b[0m x");
    assert_eq!(step("x", true), "\x1b[38;5;45m\u{279c}\x1b[0m x");
    assert_eq!(warn("x", true), "\x1b[38;5;208m\u{26a0}\x1b[0m x");
    assert_eq!(bold("b", true), "\x1b[1mb\x1b[0m");
    assert_eq!(dim("d", true), "\x1b[2md\x1b[0m");
    assert_eq!(color(7, "c", true), "\x1b[38;5;7mc\x1b[0m");
    assert_eq!(color(255, "c", true), "\x1b[38;5;255mc\x1b[0m");
}

#[test]
fn git_setup_names_and_positions() {
    for g in [GitSetup::InitializeAndCommit, GitSetup::Initialize, GitSetup::Skip] {
        assert_eq!(GitSetup::from_index(g.index()), g);
        assert_eq!(GitSetup::from_config(Some(g.as_str())), g);
    }
    assert_eq!(GitSetup::from_config(None), GitSetup::InitializeAndCommit);
    assert_eq!(GitSetup::from_config(Some("other")), GitSetup::InitializeAndCommit);
    assert_eq!(GitSetup::from_index(9), GitSetup::InitializeAndCommit);
    assert_eq!(GitSetup::Initialize.prompt_label(), "Initialize");
    assert_eq!(GitSetup::InitializeAndCommit.summary_label(), "git: init + commit");
}

#[test]
fn git_commands_per_setup() {
    assert_eq!(
        git_commands(GitSetup::InitializeAndCommit),
        vec![
            vec!["init", "--quiet"],
            vec!["add", "."],
            vec!["commit", "-am", "chore: initial commit", "--quiet"],
        ]
    );
    assert_eq!(git_commands(GitSetup::Initialize), vec![vec!["init", "--quiet"]]);
    assert!(should_initialize_git(GitSetup::Initialize, false));
    assert!(!should_initialize_git(GitSetup::Skip, false));
    assert!(!should_initialize_git(GitSetup::InitializeAndCommit, true));
}

#[test]
fn package_manager_commands() {
    assert_eq!(PackageManager::Pnpm.install_cmd(), "pnpm install");
    assert_eq!(PackageManager::Yarn.test_cmd(), "yarn test");
    let other = PackageManager::Other {
        install: "make deps".to_string(),
        test: "make test".to_string(),
    };
    assert_eq!(other.install_cmd(), "make deps");
    assert_eq!(other.test_cmd(), "make test");
    assert_eq!(other.as_str(), "other");
    assert_eq!(PackageManager::from_config(Some("yarn")), 3);
    assert_eq!(PackageManager::from_config(Some("pnpm")), 0);
    assert_eq!(PackageManager::from_config(None), 0);
}

#[test]
fn init_flags_and_defaults() {
    assert_eq!(validate_init_flags(Some("rust"), None, None, Some("full"), None), Ok(()));
    assert_eq!(
        validate_init_flags(Some("go"), Some("bad"), None, None, None),
        Err("unknown test language: go\n  valid: none, rust, typescript".to_string())
    );
    assert_eq!(
        validate_init_flags(None, None, None, None, Some("x")),
        Err("unknown toolchain: x\n  valid: solana, upstream".to_string())
    );
    assert_eq!(toolchain_index(None, Some("upstream")), 1);
    assert_eq!(toolchain_index(Some("solana"), Some("upstream")), 0);
    assert_eq!(test_language_index(None, None), 1);
    assert_eq!(test_language_index(Some("typescript"), None), 2);
    assert_eq!(test_language_at(0), TestLanguage::NoTests);
    assert_eq!(default_client_languages(TestLanguage::TypeScript), vec!["rust", "typescript"]);
    assert_eq!(default_client_languages(TestLanguage::Rust), vec!["rust"]);
}

fn float_size(bytes: u64) -> String {
    if bytes < 1024 {
        format!("{bytes} B")
    } else if bytes < 1024 * 1024 {
        format!("{:.1} KB", bytes as f64 / 1024.0)
    } else {
        format!("{:.1} MB", bytes as f64 / (1024.0 * 1024.0))
    }
}

#[test]
fn human_size_picks_unit_and_one_decimal() {
    assert_eq!(human_size(0), "0 B");
    assert_eq!(human_size(1023), "1023 B");
    assert_eq!(human_size(1024), "1.0 KB");
    assert_eq!(human_size(1536), "1.5 KB");
    assert_eq!(human_size(1024 * 1024), "1.0 MB");
    assert_eq!(human_size(5 * 1024 * 1024 + 300 * 1024), "5.3 MB");
}

#[test]
fn human_size_rounds_ties_to_even() {
    // 1280 bytes is exactly 1.25 KiB.
    assert_eq!(human_size(1280), float_size(1280));
    assert_eq!(human_size(1280), "1.2 KB");
    // 1.75 KiB rounds up to the even 1.8.
    assert_eq!(human_size(1792), "1.8 KB");
}

#[test]
fn human_size_agrees_with_float_formatting() {
    let mut samples: Vec<u64> = Vec::new();
    for b in 0..5000u64 {
        samples.push(b);
    }
    for k in 0..2000u64 {
        samples.push(1024 * 1024 - 1000 + k);
        samples.push(1_000_000_000 + k * 104_857);
    }
    for shift in 50..64u32 {
        let base = 1u64 << shift;
        for d in 0..64u64 {
            samples.push(base + d);
            samples.push(base - d);
            samples.push(base.wrapping_add(d * 1023));
        }
    }
    samples.push(u64::MAX);
    samples.push(u64::MAX - 1);
    samples.push(u64::MAX - 4096);
    for b in samples {
        assert_eq!(human_size(b), float_size(b), "bytes = {b}");
    }
}

#[test]
fn shown_warnings_also_appear_in_failure_report() {
    let stderr = "warning: unused variable\n  --> src/lib.rs:3:9\nerror[E0308]: mismatched types\n  --> src/lib.rs:9:5\nCaused by:\n  boom\nwarning: 2 warnings emitted\n";
    let warnings = extract_warnings(stderr);
    let report = format_build_errors(stderr, "1.0s");
    let mut at = 0;
    for w in &warnings {
        let found = report[at..].find(w.as_str()).expect("warning line in report");
        at += found + w.len();
    }
    assert_eq!(warnings, vec!["warning: unused variable", "  --> src/lib.rs:3:9"]);
}

fn float_duration(d: Duration) -> String {
    let secs = d.as_secs_f64();
    if secs < 0.1 {
        format!("{:.0}ms", secs * 1000.0)
    } else if secs < 60.0 {
        format!("{secs:.1}s")
    } else {
        let mins = secs as u64 / 60;
        let rem = secs as u64 % 60;
        format!("{mins}m {rem}s")
    }
}

fn duration_text(d: Duration) -> String {
    quasar::style::human_duration(d.as_secs(), d.subsec_nanos())
}

#[test]
fn human_duration_picks_unit() {
    assert_eq!(duration_text(Duration::from_millis(42)), "42ms");
    assert_eq!(duration_text(Duration::from_millis(0)), "0ms");
    assert_eq!(duration_text(Duration::from_millis(3500)), "3.5s");
    assert_eq!(duration_text(Duration::from_secs(125)), "2m 5s");
    assert_eq!(duration_text(Duration::from_millis(100)), "0.1s");
    assert_eq!(duration_text(Duration::new(59, 999_999_999)), "60.0s");
    assert_eq!(duration_text(Duration::from_secs(60)), "1m 0s");
}

#[test]
fn human_duration_agrees_with_float_formatting() {
    let mut samples: Vec<Duration> = Vec::new();
    for ms in 0..3000u64 {
        samples.push(Duration::from_micros(ms * 37));
        samples.push(Duration::from_millis(ms * 23));
    }
    for n in 0..2000u32 {
        samples.push(Duration::new(0, 99_990_000 + n * 7));
        samples.push(Duration::new(0, 499_000 + n * 500));
        samples.push(Duration::new(59, 999_000_000 + n * 499_999));
        samples.push(Duration::new(0, n * 499_717));
        samples.push(Duration::new(0, 999_999_999 - n));
        samples.push(Duration::new(n as u64 * 3, 50_000_000 + n * 12_345));
    }
    for shift in 20..64u32 {
        let base = 1u64 << shift;
        for d in 0..40u64 {
            for nanos in [0u32, 1, 499_999_999, 500_000_000, 500_000_001, 999_999_999] {
                samples.push(Duration::new(base + d, nanos));
                samples.push(Duration::new(base - d, nanos));
            }
        }
    }
    samples.push(Duration::new(u64::MAX, 999_999_999));
    samples.push(Duration::new(u64::MAX - 1, 0));
    for d in samples {
        assert_eq!(duration_text(d), float_duration(d), "duration {:?}", d);
    }
}
