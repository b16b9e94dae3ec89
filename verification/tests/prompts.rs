use quasar::cfg::{get_value, GlobalConfig, GlobalDefaults, UiConfig};
use quasar::cfg_menu::{
    apply_menu_pick, invalid_value_message, listing, menu_entry, menu_lines, preselected,
    unknown_key_message,
};
use quasar::init::{
    chosen_client_languages, client_languages_prompt, crate_name_for, next_steps,
    optional_client_languages, remembered_config, test_setup_label, using_line, GitSetup,
    PackageManager, RustFramework, Template, TestLanguage, Toolchain, TypeScriptSdk,
};

fn config() -> GlobalConfig {
    GlobalConfig {
        defaults: GlobalDefaults {
            toolchain: Some("upstream".to_string()),
            test_language: None,
            rust_framework: None,
            ts_sdk: Some("web3.js".to_string()),
            template: None,
            git: Some("init".to_string()),
            package_manager: Some("bun".to_string()),
        },
        ui: UiConfig { animation: true, color: false },
    }
}

#[test]
fn init_remembers_choices_and_turns_animation_off() {
    let prev = config();
    let pm = PackageManager::Npm;
    let r = remembered_config(
        &prev,
        Toolchain::Solana,
        TestLanguage::TypeScript,
        None,
        Some(TypeScriptSdk::Kit),
        Template::Full,
        GitSetup::InitializeAndCommit,
        false,
        Some(&pm),
    );
    assert_eq!(r.defaults.toolchain.as_deref(), Some("solana"));
    assert_eq!(r.defaults.test_language.as_deref(), Some("typescript"));
    assert_eq!(r.defaults.rust_framework, None);
    assert_eq!(r.defaults.ts_sdk.as_deref(), Some("kit"));
    assert_eq!(r.defaults.template.as_deref(), Some("full"));
    assert_eq!(r.defaults.git.as_deref(), Some("commit"));
    assert_eq!(r.defaults.package_manager.as_deref(), Some("npm"));
    assert!(!r.ui.animation);
    assert!(!r.ui.color);
}

#[test]
fn init_with_no_git_keeps_saved_git_and_package_manager() {
    let prev = config();
    let r = remembered_config(
        &prev,
        Toolchain::Upstream,
        TestLanguage::Rust,
        Some(RustFramework::Mollusk),
        None,
        Template::Minimal,
        GitSetup::Skip,
        true,
        None,
    );
    assert_eq!(r.defaults.git.as_deref(), Some("init"));
    assert_eq!(r.defaults.package_manager.as_deref(), Some("bun"));
    assert_eq!(r.defaults.rust_framework.as_deref(), Some("mollusk"));
    assert_eq!(r.defaults.ts_sdk, None);
}

#[test]
fn optional_languages_skip_forced_typescript() {
    assert_eq!(
        optional_client_languages(false),
        vec![
            ("TypeScript", "typescript"),
            ("Golang (Experimental)", "golang"),
            ("Python (Experimental)", "python"),
        ]
    );
    assert_eq!(
        optional_client_languages(true),
        vec![("Golang (Experimental)", "golang"), ("Python (Experimental)", "python")]
    );
    assert_eq!(
        client_languages_prompt(true),
        "Additional client languages (Rust, TypeScript always included)"
    );
    assert_eq!(client_languages_prompt(false), "Additional client languages (Rust always included)");
}

#[test]
fn chosen_languages_follow_selection() {
    assert_eq!(chosen_client_languages(false, &vec![2, 0]), vec!["rust", "python", "typescript"]);
    assert_eq!(chosen_client_languages(true, &vec![0]), vec!["rust", "typescript", "golang"]);
    assert_eq!(chosen_client_languages(true, &vec![]), vec!["rust", "typescript"]);
}

#[test]
fn skipped_prompts_sum_up_the_setup() {
    assert_eq!(test_setup_label(TestLanguage::NoTests, None, None), "no tests");
    assert_eq!(
        test_setup_label(TestLanguage::Rust, Some(RustFramework::QuasarSVM), None),
        "rust/quasar-svm"
    );
    assert_eq!(
        test_setup_label(TestLanguage::TypeScript, None, Some(TypeScriptSdk::Web3js)),
        "typescript/web3.js"
    );
    assert_eq!(
        using_line(
            Toolchain::Solana,
            TestLanguage::Rust,
            Some(RustFramework::Mollusk),
            None,
            Template::Minimal,
            GitSetup::Initialize,
            false
        ),
        "  Using: solana + rust/mollusk minimal + git: init"
    );
    assert_eq!(
        using_line(
            Toolchain::Upstream,
            TestLanguage::NoTests,
            None,
            None,
            Template::Full,
            GitSetup::Skip,
            true
        ),
        "  \x1b[2mUsing:\x1b[0m \x1b[1mupstream\x1b[0m \x1b[2m+\x1b[0m \x1b[1mno tests\x1b[0m \x1b[1mfull\x1b[0m \x1b[2m+\x1b[0m \x1b[1mgit: skip\x1b[0m"
    );
}

#[test]
fn next_steps_after_init() {
    assert_eq!(next_steps("demo", TestLanguage::Rust), vec!["cd demo", "quasar build", "quasar test"]);
    assert_eq!(next_steps(".", TestLanguage::NoTests), vec!["quasar build"]);
    assert_eq!(crate_name_for(".", Some("vault")), "vault");
    assert_eq!(crate_name_for(".", None), "my-program");
    assert_eq!(crate_name_for("escrow", Some("vault")), "escrow");
}

#[test]
fn menu_lists_settings_with_current_values() {
    let c = config();
    let lines = menu_lines(&c, false);
    assert_eq!(lines.len(), 9);
    assert_eq!(lines[0], "Default toolchain        upstream");
    assert_eq!(lines[1], "Default test language    (not set)");
    assert_eq!(lines[7], "Colored output           false");
    assert_eq!(lines[8], "Exit");
    let colored = menu_lines(&c, true);
    assert_eq!(colored[3], "TypeScript SDK           \x1b[2mweb3.js\x1b[0m");
    let e = menu_entry(5);
    assert_eq!(e.key, "defaults.git");
    assert_eq!(e.options, vec!["commit", "init", "skip"]);
}

#[test]
fn menu_preselects_current_option() {
    let c = config();
    assert_eq!(preselected(&c, 0), 1);
    assert_eq!(preselected(&c, 1), 0);
    assert_eq!(preselected(&c, 3), 1);
    assert_eq!(preselected(&c, 5), 1);
    assert_eq!(preselected(&c, 6), 0);
    assert_eq!(preselected(&c, 7), 1);
}

#[test]
fn menu_pick_sets_only_changed_values() {
    let mut c = config();
    assert!(!apply_menu_pick(&mut c, 0, 1));
    assert!(apply_menu_pick(&mut c, 0, 0));
    assert_eq!(get_value(&c, "defaults.toolchain").as_deref(), Some("solana"));
    assert!(apply_menu_pick(&mut c, 7, 0));
    assert!(c.ui.color);
    assert!(!apply_menu_pick(&mut c, 7, 0));
    let p = preselected(&c, 4);
    assert!(apply_menu_pick(&mut c, 4, p));
    assert_eq!(c.defaults.template.as_deref(), Some("minimal"));
    let p = preselected(&c, 4);
    assert!(!apply_menu_pick(&mut c, 4, p));
}

#[test]
fn config_listing_and_messages() {
    let c = config();
    let l = listing(&c, "/home/u/.config/quasar/config.toml", false);
    assert_eq!(l[0], "  config: /home/u/.config/quasar/config.toml");
    assert_eq!(l[1], "");
    assert_eq!(l[3], "    toolchain  = upstream");
    assert_eq!(l[4], "    test_language    = (not set)");
    assert_eq!(l[8], "    git        = init");
    assert_eq!(l[11], "    animation  = true");
    assert_eq!(l[12], "    color      = false");
    assert_eq!(l.len(), 13);
    assert!(unknown_key_message("ui.x").starts_with("unknown config key: ui.x\n\n  Available keys:"));
    assert_eq!(
        invalid_value_message("defaults.git", "x", "commit, init, skip"),
        "invalid value for defaults.git: x\n  valid: commit, init, skip"
    );
}

use quasar::init::{
    rust_framework_at, rust_framework_index, template_at, template_index, toolchain_at, ts_sdk_at,
    ts_sdk_index,
};

#[test]
fn prompt_positions_map_to_choices() {
    assert_eq!(toolchain_at(0), Toolchain::Solana);
    assert_eq!(toolchain_at(1), Toolchain::Upstream);
    assert_eq!(rust_framework_at(1), RustFramework::Mollusk);
    assert_eq!(rust_framework_at(0), RustFramework::QuasarSVM);
    assert_eq!(ts_sdk_at(1), TypeScriptSdk::Web3js);
    assert_eq!(ts_sdk_at(0), TypeScriptSdk::Kit);
    assert_eq!(template_at(0), Template::Minimal);
    assert_eq!(template_at(1), Template::Full);
}

#[test]
fn flags_beat_saved_defaults_for_preselection() {
    assert_eq!(rust_framework_index(None, Some("mollusk")), 1);
    assert_eq!(rust_framework_index(Some("quasar-svm"), Some("mollusk")), 0);
    assert_eq!(ts_sdk_index(None, Some("web3.js")), 1);
    assert_eq!(ts_sdk_index(None, None), 0);
    assert_eq!(template_index(Some("full"), None), 1);
    assert_eq!(template_index(None, Some("other")), 0);
}
