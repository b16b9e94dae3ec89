//! `quasar config`: reading, writing and validating the global configuration by key.

use vstd::prelude::*;
use crate::text::{chars_eq_str, chars_of, string_from};

verus! {

broadcast use vstd::string::group_string_axioms;

/// Default answers for `quasar init`.
pub struct GlobalDefaults {
    pub toolchain: Option<String>,
    pub test_language: Option<String>,
    pub rust_framework: Option<String>,
    pub ts_sdk: Option<String>,
    pub template: Option<String>,
    pub git: Option<String>,
    pub package_manager: Option<String>,
}

/// Terminal output settings.
pub struct UiConfig {
    pub animation: bool,
    pub color: bool,
}

/// The global configuration.
pub struct GlobalConfig {
    pub defaults: GlobalDefaults,
    pub ui: UiConfig,
}

/// The characters of an optional string.
pub open spec fn opt_view(o: Option<String>) -> Option<Seq<char>> {
    match o {
        Some(s) => Some(s@),
        None => None,
    }
}

/// How an optional setting is shown: its value, or `(not set)`.
pub open spec fn shown(o: Option<Seq<char>>) -> Seq<char> {
    match o {
        Some(s) => s,
        None => "(not set)"@,
    }
}

/// How a boolean setting is shown.
pub open spec fn bool_text(b: bool) -> Seq<char> {
    if b {
        "true"@
    } else {
        "false"@
    }
}

/// The value a key shows in `config`, or none for an unknown key.
pub open spec fn get_spec(c: GlobalConfig, key: Seq<char>) -> Option<Seq<char>> {
    if key == "defaults.toolchain"@ {
        Some(shown(opt_view(c.defaults.toolchain)))
    } else if key == "defaults.test_language"@ {
        Some(shown(opt_view(c.defaults.test_language)))
    } else if key == "defaults.rust_framework"@ {
        Some(shown(opt_view(c.defaults.rust_framework)))
    } else if key == "defaults.ts_sdk"@ {
        Some(shown(opt_view(c.defaults.ts_sdk)))
    } else if key == "defaults.template"@ {
        Some(shown(opt_view(c.defaults.template)))
    } else if key == "defaults.git"@ {
        Some(shown(opt_view(c.defaults.git)))
    } else if key == "ui.animation"@ {
        Some(bool_text(c.ui.animation))
    } else if key == "ui.color"@ {
        Some(bool_text(c.ui.color))
    } else {
        None
    }
}

/// The key names a setting.
pub open spec fn is_known_key(key: Seq<char>) -> bool {
    key == "defaults.toolchain"@ || key == "defaults.test_language"@ || key
        == "defaults.rust_framework"@ || key == "defaults.ts_sdk"@ || key == "defaults.template"@
        || key == "defaults.git"@ || key == "ui.animation"@ || key == "ui.color"@
}

/// An empty value, `none` or `null` clears an optional setting.
pub open spec fn clears(s: Seq<char>) -> bool {
    s.len() == 0 || s == "none"@ || s == "null"@
}

/// What an optional setting holds after being set to `s`.
pub open spec fn some_or_none_spec(s: Seq<char>) -> Option<Seq<char>> {
    if clears(s) {
        None
    } else {
        Some(s)
    }
}

/// The words that turn a boolean setting on.
pub open spec fn parse_bool_spec(s: Seq<char>) -> bool {
    s == "true"@ || s == "1"@ || s == "yes"@ || s == "on"@
}

/// A clearing value gives none; any other value is kept.
pub fn some_or_none(s: &str) -> (r: Option<String>)
    ensures
        opt_view(r) == some_or_none_spec(s@),
{
    let c = chars_of(s);
    if c.len() == 0 || chars_eq_str(&c, "none") || chars_eq_str(&c, "null") {
        None
    } else {
        Some(string_from(s))
    }
}

/// `true`, `1`, `yes` and `on` are true; anything else is false.
pub fn parse_bool(s: &str) -> (r: bool)
    ensures
        r == parse_bool_spec(s@),
{
    let c = chars_of(s);
    chars_eq_str(&c, "true") || chars_eq_str(&c, "1") || chars_eq_str(&c, "yes") || chars_eq_str(
        &c,
        "on",
    )
}

fn show_opt(o: &Option<String>) -> (r: String)
    ensures
        r@ == shown(opt_view(*o)),
{
    match o {
        Some(s) => s.clone(),
        None => string_from("(not set)"),
    }
}

fn show_bool(b: bool) -> (r: String)
    ensures
        r@ == bool_text(b),
{
    if b {
        string_from("true")
    } else {
        string_from("false")
    }
}

/// The value a key shows, or none for an unknown key.
pub fn get_value(config: &GlobalConfig, key: &str) -> (r: Option<String>)
    ensures
        match get_spec(*config, key@) {
            Some(v) => r matches Some(s) && s@ == v,
            None => r is None,
        },
{
    let k = chars_of(key);
    if chars_eq_str(&k, "defaults.toolchain") {
        Some(show_opt(&config.defaults.toolchain))
    } else if chars_eq_str(&k, "defaults.test_language") {
        Some(show_opt(&config.defaults.test_language))
    } else if chars_eq_str(&k, "defaults.rust_framework") {
        Some(show_opt(&config.defaults.rust_framework))
    } else if chars_eq_str(&k, "defaults.ts_sdk") {
        Some(show_opt(&config.defaults.ts_sdk))
    } else if chars_eq_str(&k, "defaults.template") {
        Some(show_opt(&config.defaults.template))
    } else if chars_eq_str(&k, "defaults.git") {
        Some(show_opt(&config.defaults.git))
    } else if chars_eq_str(&k, "ui.animation") {
        Some(show_bool(config.ui.animation))
    } else if chars_eq_str(&k, "ui.color") {
        Some(show_bool(config.ui.color))
    } else {
        None
    }
}

/// `after` is `before` with the setting named `key` set from `value`, and nothing else
/// changed (`package_manager` has no key and never changes).
pub open spec fn set_spec(before: GlobalConfig, after: GlobalConfig, key: Seq<char>, value: Seq<
    char,
>) -> bool {
    let v = some_or_none_spec(value);
    &&& opt_view(after.defaults.toolchain) == if key == "defaults.toolchain"@ {
        v
    } else {
        opt_view(before.defaults.toolchain)
    }
    &&& opt_view(after.defaults.test_language) == if key == "defaults.test_language"@ {
        v
    } else {
        opt_view(before.defaults.test_language)
    }
    &&& opt_view(after.defaults.rust_framework) == if key == "defaults.rust_framework"@ {
        v
    } else {
        opt_view(before.defaults.rust_framework)
    }
    &&& opt_view(after.defaults.ts_sdk) == if key == "defaults.ts_sdk"@ {
        v
    } else {
        opt_view(before.defaults.ts_sdk)
    }
    &&& opt_view(after.defaults.template) == if key == "defaults.template"@ {
        v
    } else {
        opt_view(before.defaults.template)
    }
    &&& opt_view(after.defaults.git) == if key == "defaults.git"@ {
        v
    } else {
        opt_view(before.defaults.git)
    }
    &&& opt_view(after.defaults.package_manager) == opt_view(before.defaults.package_manager)
    &&& after.ui.animation == if key == "ui.animation"@ {
        parse_bool_spec(value)
    } else {
        before.ui.animation
    }
    &&& after.ui.color == if key == "ui.color"@ {
        parse_bool_spec(value)
    } else {
        before.ui.color
    }
}

/// The setting names, character by character.
proof fn reveal_keys()
    ensures
        "defaults.toolchain"@ != "defaults.test_language"@,
        "defaults.toolchain"@ != "defaults.rust_framework"@,
        "defaults.toolchain"@ != "defaults.ts_sdk"@,
        "defaults.toolchain"@ != "defaults.template"@,
        "defaults.toolchain"@ != "defaults.git"@,
        "defaults.toolchain"@ != "ui.animation"@,
        "defaults.toolchain"@ != "ui.color"@,
        "defaults.test_language"@ != "defaults.rust_framework"@,
        "defaults.test_language"@ != "defaults.ts_sdk"@,
        "defaults.test_language"@ != "defaults.template"@,
        "defaults.test_language"@ != "defaults.git"@,
        "defaults.test_language"@ != "ui.animation"@,
        "defaults.test_language"@ != "ui.color"@,
        "defaults.rust_framework"@ != "defaults.ts_sdk"@,
        "defaults.rust_framework"@ != "defaults.template"@,
        "defaults.rust_framework"@ != "defaults.git"@,
        "defaults.rust_framework"@ != "ui.animation"@,
        "defaults.rust_framework"@ != "ui.color"@,
        "defaults.ts_sdk"@ != "defaults.template"@,
        "defaults.ts_sdk"@ != "defaults.git"@,
        "defaults.ts_sdk"@ != "ui.animation"@,
        "defaults.ts_sdk"@ != "ui.color"@,
        "defaults.template"@ != "defaults.git"@,
        "defaults.template"@ != "ui.animation"@,
        "defaults.template"@ != "ui.color"@,
        "defaults.git"@ != "ui.animation"@,
        "defaults.git"@ != "ui.color"@,
        "ui.animation"@ != "ui.color"@,
{
    reveal_strlit("defaults.toolchain");
    reveal_strlit("defaults.test_language");
    reveal_strlit("defaults.rust_framework");
    reveal_strlit("defaults.ts_sdk");
    reveal_strlit("defaults.template");
    reveal_strlit("defaults.git");
    reveal_strlit("ui.animation");
    reveal_strlit("ui.color");
    assert("defaults.toolchain"@.len() != "defaults.test_language"@.len());
    assert("defaults.toolchain"@.len() != "defaults.rust_framework"@.len());
    assert("defaults.toolchain"@[10] != "defaults.ts_sdk"@[10]);
    assert("defaults.toolchain"@[10] != "defaults.template"@[10]);
    assert("defaults.toolchain"@.len() != "defaults.git"@.len());
    assert("defaults.toolchain"@.len() != "ui.animation"@.len());
    assert("defaults.toolchain"@.len() != "ui.color"@.len());
    assert("defaults.test_language"@[9] != "defaults.rust_framework"@[9]);
    assert("defaults.test_language"@.len() != "defaults.ts_sdk"@.len());
    assert("defaults.test_language"@.len() != "defaults.template"@.len());
    assert("defaults.test_language"@.len() != "defaults.git"@.len());
    assert("defaults.test_language"@.len() != "ui.animation"@.len());
    assert("defaults.test_language"@.len() != "ui.color"@.len());
    assert("defaults.rust_framework"@.len() != "defaults.ts_sdk"@.len());
    assert("defaults.rust_framework"@.len() != "defaults.template"@.len());
    assert("defaults.rust_framework"@.len() != "defaults.git"@.len());
    assert("defaults.rust_framework"@.len() != "ui.animation"@.len());
    assert("defaults.rust_framework"@.len() != "ui.color"@.len());
    assert("defaults.ts_sdk"@.len() != "defaults.template"@.len());
    assert("defaults.ts_sdk"@.len() != "defaults.git"@.len());
    assert("defaults.ts_sdk"@[0] != "ui.animation"@[0]);
    assert("defaults.ts_sdk"@[0] != "ui.color"@[0]);
    assert("defaults.template"@.len() != "defaults.git"@.len());
    assert("defaults.template"@.len() != "ui.animation"@.len());
    assert("defaults.template"@.len() != "ui.color"@.len());
    assert("defaults.git"@[0] != "ui.animation"@[0]);
    assert("defaults.git"@.len() != "ui.color"@.len());
    assert("ui.animation"@.len() != "ui.color"@.len());
}

/// Set the setting named `key` from `value`: optional settings are cleared by an empty
/// value, `none` or `null`; boolean settings take `true`, `1`, `yes` or `on` as true.
/// Returns whether the key names a setting; an unknown key changes nothing.
pub fn set_value(config: &mut GlobalConfig, key: &str, value: &str) -> (r: bool)
    ensures
        r == is_known_key(key@),
        set_spec(*old(config), *final(config), key@, value@),
{
    proof {
        reveal_keys();
    }
    let k = chars_of(key);
    if chars_eq_str(&k, "defaults.toolchain") {
        config.defaults.toolchain = some_or_none(value);
    } else if chars_eq_str(&k, "defaults.test_language") {
        config.defaults.test_language = some_or_none(value);
    } else if chars_eq_str(&k, "defaults.rust_framework") {
        config.defaults.rust_framework = some_or_none(value);
    } else if chars_eq_str(&k, "defaults.ts_sdk") {
        config.defaults.ts_sdk = some_or_none(value);
    } else if chars_eq_str(&k, "defaults.template") {
        config.defaults.template = some_or_none(value);
    } else if chars_eq_str(&k, "defaults.git") {
        config.defaults.git = some_or_none(value);
    } else if chars_eq_str(&k, "ui.animation") {
        config.ui.animation = parse_bool(value);
    } else if chars_eq_str(&k, "ui.color") {
        config.ui.color = parse_bool(value);
    } else {
        return false;
    }
    true
}

/// The value is accepted for an optional setting whose options are listed: one of them,
/// or a clearing value.
pub open spec fn choice_ok(value: Seq<char>, options: Seq<Seq<char>>) -> bool {
    options.contains(value) || value == "none"@ || value == "null"@ || value.len() == 0
}

/// The options listed when a value is refused, or none when it is accepted (unknown keys
/// are accepted here and refused by `set_value`).
pub open spec fn validate_spec(key: Seq<char>, value: Seq<char>) -> Option<Seq<char>> {
    if key == "defaults.toolchain"@ {
        if choice_ok(value, seq!["solana"@, "upstream"@]) {
            None
        } else {
            Some("solana, upstream"@)
        }
    } else if key == "defaults.test_language"@ {
        if choice_ok(value, seq!["none"@, "rust"@, "typescript"@]) {
            None
        } else {
            Some("none, rust, typescript"@)
        }
    } else if key == "defaults.rust_framework"@ {
        if choice_ok(value, seq!["quasar-svm"@, "mollusk"@]) {
            None
        } else {
            Some("quasar-svm, mollusk"@)
        }
    } else if key == "defaults.ts_sdk"@ {
        if choice_ok(value, seq!["kit"@, "web3.js"@]) {
            None
        } else {
            Some("kit, web3.js"@)
        }
    } else if key == "defaults.template"@ {
        if choice_ok(value, seq!["minimal"@, "full"@]) {
            None
        } else {
            Some("minimal, full"@)
        }
    } else if key == "defaults.git"@ {
        if choice_ok(value, seq!["commit"@, "init"@, "skip"@]) {
            None
        } else {
            Some("commit, init, skip"@)
        }
    } else if key == "ui.animation"@ || key == "ui.color"@ {
        if seq![
            "true"@,
            "false"@,
            "1"@,
            "0"@,
            "yes"@,
            "no"@,
            "on"@,
            "off"@,
        ].contains(value) {
            None
        } else {
            Some("true, false"@)
        }
    } else {
        None
    }
}

fn in_options(v: &Vec<char>, options: &[&str]) -> (r: bool)
    ensures
        r == options@.map_values(|o: &str| o@).contains(v@),
{
    let ghost os = options@.map_values(|o: &str| o@);
    let n = options.len();
    let mut i: usize = 0;
    while i < n
        invariant
            n == options@.len(),
            os == options@.map_values(|o: &str| o@),
            i <= n,
            forall|j: int| 0 <= j < i ==> os[j] != v@,
        decreases n - i,
    {
        if chars_eq_str(v, options[i]) {
            assert(os[i as int] == v@);
            return true;
        }
        i = i + 1;
    }
    false
}

fn choice_accepted(v: &Vec<char>, options: &[&str]) -> (r: bool)
    ensures
        r == choice_ok(v@, options@.map_values(|o: &str| o@)),
{
    in_options(v, options) || chars_eq_str(v, "none") || chars_eq_str(v, "null") || v.len() == 0
}

/// Check a value before setting it: `Ok` when accepted, else the valid options.
pub fn validate_value(key: &str, value: &str) -> (r: Result<(), &'static str>)
    ensures
        match validate_spec(key@, value@) {
            Some(m) => r matches Err(e) && e@ == m,
            None => r is Ok,
        },
{
    let k = chars_of(key);
    let v = chars_of(value);
    if chars_eq_str(&k, "defaults.toolchain") {
        let opts: [&str; 2] = ["solana", "upstream"];
        assert(opts@.map_values(|o: &str| o@) =~= seq!["solana"@, "upstream"@]);
        if choice_accepted(&v, &opts) {
            Ok(())
        } else {
            Err("solana, upstream")
        }
    } else if chars_eq_str(&k, "defaults.test_language") {
        let opts: [&str; 3] = ["none", "rust", "typescript"];
        assert(opts@.map_values(|o: &str| o@) =~= seq!["none"@, "rust"@, "typescript"@]);
        if choice_accepted(&v, &opts) {
            Ok(())
        } else {
            Err("none, rust, typescript")
        }
    } else if chars_eq_str(&k, "defaults.rust_framework") {
        let opts: [&str; 2] = ["quasar-svm", "mollusk"];
        assert(opts@.map_values(|o: &str| o@) =~= seq!["quasar-svm"@, "mollusk"@]);
        if choice_accepted(&v, &opts) {
            Ok(())
        } else {
            Err("quasar-svm, mollusk")
        }
    } else if chars_eq_str(&k, "defaults.ts_sdk") {
        let opts: [&str; 2] = ["kit", "web3.js"];
        assert(opts@.map_values(|o: &str| o@) =~= seq!["kit"@, "web3.js"@]);
        if choice_accepted(&v, &opts) {
            Ok(())
        } else {
            Err("kit, web3.js")
        }
    } else if chars_eq_str(&k, "defaults.template") {
        let opts: [&str; 2] = ["minimal", "full"];
        assert(opts@.map_values(|o: &str| o@) =~= seq!["minimal"@, "full"@]);
        if choice_accepted(&v, &opts) {
            Ok(())
        } else {
            Err("minimal, full")
        }
    } else if chars_eq_str(&k, "defaults.git") {
        let opts: [&str; 3] = ["commit", "init", "skip"];
        assert(opts@.map_values(|o: &str| o@) =~= seq!["commit"@, "init"@, "skip"@]);
        if choice_accepted(&v, &opts) {
            Ok(())
        } else {
            Err("commit, init, skip")
        }
    } else if chars_eq_str(&k, "ui.animation") || chars_eq_str(&k, "ui.color") {
        let opts: [&str; 8] = ["true", "false", "1", "0", "yes", "no", "on", "off"];
        assert(opts@.map_values(|o: &str| o@) =~= seq![
            "true"@,
            "false"@,
            "1"@,
            "0"@,
            "yes"@,
            "no"@,
            "on"@,
            "off"@,
        ]);
        if in_options(&v, &opts) {
            Ok(())
        } else {
            Err("true, false")
        }
    } else {
        Ok(())
    }
}


/// How the value `value` shows after it was set under `key`.
pub open spec fn normalized(key: Seq<char>, value: Seq<char>) -> Seq<char> {
    if key == "ui.animation"@ || key == "ui.color"@ {
        bool_text(parse_bool_spec(value))
    } else {
        shown(some_or_none_spec(value))
    }
}

/// Reading a key back right after setting it gives the value as set, normalized: a
/// clearing value reads as `(not set)`, a boolean setting reads as `true` or `false`.
pub proof fn get_after_set(before: GlobalConfig, after: GlobalConfig, key: Seq<char>, value: Seq<char>)
    requires
        set_spec(before, after, key, value),
        is_known_key(key),
    ensures
        get_spec(after, key) == Some(normalized(key, value)),
{
    reveal_keys();
}

/// Setting one key leaves the value of every other key as it was.
pub proof fn set_leaves_other_keys(
    before: GlobalConfig,
    after: GlobalConfig,
    key: Seq<char>,
    value: Seq<char>,
    other: Seq<char>,
)
    requires
        set_spec(before, after, key, value),
        other != key,
    ensures
        get_spec(after, other) == get_spec(before, other),
{
}

/// The keys that `set_value` accepts are exactly the keys that `get_value` reads.
pub proof fn set_and_get_know_the_same_keys(c: GlobalConfig, key: Seq<char>)
    ensures
        is_known_key(key) <==> get_spec(c, key) is Some,
{
}

/// The listed options of an optional setting, none for other keys.
pub open spec fn options_of(key: Seq<char>) -> Seq<Seq<char>> {
    if key == "defaults.toolchain"@ {
        seq!["solana"@, "upstream"@]
    } else if key == "defaults.test_language"@ {
        seq!["none"@, "rust"@, "typescript"@]
    } else if key == "defaults.rust_framework"@ {
        seq!["quasar-svm"@, "mollusk"@]
    } else if key == "defaults.ts_sdk"@ {
        seq!["kit"@, "web3.js"@]
    } else if key == "defaults.template"@ {
        seq!["minimal"@, "full"@]
    } else if key == "defaults.git"@ {
        seq!["commit"@, "init"@, "skip"@]
    } else {
        seq![]
    }
}

/// A value that passes validation for an optional setting, once set, reads back as one of
/// the listed options or as `(not set)`.
pub proof fn validated_choice_reads_back_listed(
    before: GlobalConfig,
    after: GlobalConfig,
    key: Seq<char>,
    value: Seq<char>,
)
    requires
        options_of(key).len() > 0,
        validate_spec(key, value) is None,
        set_spec(before, after, key, value),
    ensures
        get_spec(after, key) matches Some(v) && (options_of(key).contains(v) || v
            == "(not set)"@),
{
    reveal_keys();
    reveal_strlit("ui.animation");
    reveal_strlit("ui.color");
    reveal_strlit("defaults.git");
    assert(key != "ui.animation"@ && key != "ui.color"@);
}

} // verus!
