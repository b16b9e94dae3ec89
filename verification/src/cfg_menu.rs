//! `quasar config` on the terminal: the listing of every setting, the interactive menu of
//! settings with the option each one preselects, how a pick changes the config, and the
//! messages for refused keys and values.

use vstd::prelude::*;
use crate::cfg::{bool_text, get_spec, get_value, opt_view, set_spec, set_value, shown, GlobalConfig};
use crate::style::{dim, wrapped};
use crate::text::{append_str, str_eq, string_from};
use crate::test_runner::views;

verus! {

broadcast use vstd::string::group_string_axioms;

/// The settings of the interactive menu, in order: key, label, and the options offered
/// (`true` and `false` for a boolean setting).
pub open spec fn menu_table() -> Seq<(Seq<char>, Seq<char>, Seq<Seq<char>>)> {
    seq![
        ("defaults.toolchain"@, "Default toolchain"@, seq!["solana"@, "upstream"@]),
        ("defaults.test_language"@, "Default test language"@, seq!["none"@, "rust"@, "typescript"@]),
        ("defaults.rust_framework"@, "Rust test framework"@, seq!["quasar-svm"@, "mollusk"@]),
        ("defaults.ts_sdk"@, "TypeScript SDK"@, seq!["kit"@, "web3.js"@]),
        ("defaults.template"@, "Default template"@, seq!["minimal"@, "full"@]),
        ("defaults.git"@, "Default git setup"@, seq!["commit"@, "init"@, "skip"@]),
        ("ui.animation"@, "Show init animation"@, seq!["true"@, "false"@]),
        ("ui.color"@, "Colored output"@, seq!["true"@, "false"@]),
    ]
}

/// The number of settings in the menu.
pub open spec fn menu_len() -> nat {
    8
}

/// The menu entry at `i` is a boolean setting.
pub open spec fn menu_is_bool(i: int) -> bool {
    i >= 6
}

/// One menu entry: key, label and options.
pub struct MenuEntry {
    pub key: &'static str,
    pub label: &'static str,
    pub options: Vec<&'static str>,
}

/// The menu entry at `i`.
pub fn menu_entry(i: usize) -> (r: MenuEntry)
    requires
        i < menu_len(),
    ensures
        r.key@ == menu_table()[i as int].0,
        r.label@ == menu_table()[i as int].1,
        r.options@.map_values(|o: &'static str| o@) == menu_table()[i as int].2,
{
    let (key, label, options): (&'static str, &'static str, &[&'static str]) = if i == 0 {
        ("defaults.toolchain", "Default toolchain", &["solana", "upstream"])
    } else if i == 1 {
        ("defaults.test_language", "Default test language", &["none", "rust", "typescript"])
    } else if i == 2 {
        ("defaults.rust_framework", "Rust test framework", &["quasar-svm", "mollusk"])
    } else if i == 3 {
        ("defaults.ts_sdk", "TypeScript SDK", &["kit", "web3.js"])
    } else if i == 4 {
        ("defaults.template", "Default template", &["minimal", "full"])
    } else if i == 5 {
        ("defaults.git", "Default git setup", &["commit", "init", "skip"])
    } else if i == 6 {
        ("ui.animation", "Show init animation", &["true", "false"])
    } else {
        ("ui.color", "Colored output", &["true", "false"])
    };
    let mut v: Vec<&'static str> = Vec::new();
    let n = options.len();
    let mut k: usize = 0;
    while k < n
        invariant
            n == options@.len(),
            k <= n,
            v@ == options@.take(k as int),
        decreases n - k,
    {
        v.push(options[k]);
        k = k + 1;
    }
    assert(v@ == options@);
    assert(v@.map_values(|o: &'static str| o@) =~= menu_table()[i as int].2);
    MenuEntry { key, label, options: v }
}

/// `s` padded with spaces to `width` characters.
pub open spec fn padded(s: Seq<char>, width: nat) -> Seq<char> {
    if s.len() < width {
        s + Seq::new((width - s.len()) as nat, |j: int| ' ')
    } else {
        s
    }
}

/// The current value a setting shows, empty for an unknown key.
pub open spec fn current_text(c: GlobalConfig, key: Seq<char>) -> Seq<char> {
    match get_spec(c, key) {
        Some(v) => v,
        None => seq![],
    }
}

/// The lines of the interactive menu: each setting's label padded to 24 columns and its
/// current value dimmed, then `Exit`.
pub open spec fn menu_lines_spec(c: GlobalConfig, enabled: bool) -> Seq<Seq<char>> {
    Seq::new(
        menu_len(),
        |i: int|
            padded(menu_table()[i].1, 24) + " "@ + wrapped(
                enabled,
                "\x1b[2m"@,
                current_text(c, menu_table()[i].0),
            ),
    ).push("Exit"@)
}

fn current_of(config: &GlobalConfig, key: &str) -> (r: String)
    ensures
        r@ == current_text(*config, key@),
{
    match get_value(config, key) {
        Some(v) => v,
        None => String::new(),
    }
}

fn append_padded(s: &mut String, t: &str, width: usize)
    ensures
        final(s)@ == old(s)@ + padded(t@, width as nat),
{
    let c = crate::text::chars_of(t);
    crate::text::append_chars(s, &c);
    let n = c.len();
    if n < width {
        let ghost start = s@;
        let mut k: usize = 0;
        while k < width - n
            invariant
                n < width,
                k <= width - n,
                s@ == start + Seq::new(k as nat, |j: int| ' '),
            decreases width - n - k,
        {
            crate::text::append_char(s, ' ');
            assert(Seq::new((k + 1) as nat, |j: int| ' ') =~= Seq::new(k as nat, |j: int| ' ').push(
                ' ',
            ));
            k = k + 1;
        }
    } else {
        assert(padded(t@, width as nat) == t@);
    }
    assert(final(s)@ =~= old(s)@ + padded(t@, width as nat));
}

/// The lines of the interactive menu.
pub fn menu_lines(config: &GlobalConfig, enabled: bool) -> (r: Vec<String>)
    ensures
        views(r@) == menu_lines_spec(*config, enabled),
{
    let mut lines: Vec<String> = Vec::new();
    let mut i: usize = 0;
    while i < 8
        invariant
            i <= 8,
            views(lines@) == menu_lines_spec(*config, enabled).take(i as int),
        decreases 8 - i,
    {
        let e = menu_entry(i);
        let mut line = String::new();
        append_padded(&mut line, e.label, 24);
        append_str(&mut line, " ");
        let cur = current_of(config, e.key);
        let d = dim(cur.as_str(), enabled);
        append_str(&mut line, d.as_str());
        let ghost before = views(lines@);
        lines.push(line);
        assert(views(lines@) =~= before.push(line@));
        assert(menu_lines_spec(*config, enabled).take(i + 1) =~= menu_lines_spec(
            *config,
            enabled,
        ).take(i as int).push(menu_lines_spec(*config, enabled)[i as int]));
        i = i + 1;
    }
    let ghost before = views(lines@);
    lines.push(string_from("Exit"));
    assert(views(lines@) =~= before.push("Exit"@));
    assert(views(lines@) =~= menu_lines_spec(*config, enabled));
    lines
}

/// The first position of `v` in `options`, or 0 when it is not there.
pub open spec fn position_or_first(options: Seq<Seq<char>>, v: Seq<char>) -> nat
    decreases options.len(),
{
    if options.len() == 0 {
        0
    } else if options.last() == v && !options.drop_last().contains(v) {
        (options.len() - 1) as nat
    } else {
        position_or_first(options.drop_last(), v)
    }
}

/// The option preselected for menu entry `i`: for a boolean setting `true` (0) when it is
/// on and `false` (1) otherwise; for a choice, the current value's position, or the first.
pub open spec fn preselected_spec(c: GlobalConfig, i: int) -> nat {
    let cur = current_text(c, menu_table()[i].0);
    if menu_is_bool(i) {
        if cur == "true"@ {
            0
        } else {
            1
        }
    } else {
        position_or_first(menu_table()[i].2, cur)
    }
}

fn position_of(options: &Vec<&'static str>, v: &str) -> (r: usize)
    ensures
        r == position_or_first(options@.map_values(|o: &'static str| o@), v@),
{
    let ghost opts = options@.map_values(|o: &'static str| o@);
    let n = options.len();
    let mut k: usize = 0;
    while k < n
        invariant
            n == options@.len(),
            opts == options@.map_values(|o: &'static str| o@),
            k <= n,
            !opts.take(k as int).contains(v@),
        decreases n - k,
    {
        if str_eq(options[k], v) {
            proof {
                lemma_first_position(opts, v@, k as int);
            }
            return k;
        }
        assert(opts.take(k + 1) =~= opts.take(k as int).push(opts[k as int]));
        k = k + 1;
    }
    assert(opts.take(n as int) == opts);
    proof {
        lemma_absent_position(opts, v@);
    }
    0
}

proof fn lemma_first_position(opts: Seq<Seq<char>>, v: Seq<char>, k: int)
    requires
        0 <= k < opts.len(),
        opts[k] == v,
        !opts.take(k).contains(v),
    ensures
        position_or_first(opts, v) == k,
    decreases opts.len(),
{
    if k == opts.len() - 1 {
        assert(opts.drop_last() =~= opts.take(k));
    } else {
        assert(opts.drop_last().take(k) =~= opts.take(k));
        assert(opts.last() != v || opts.drop_last().contains(v)) by {
            assert(opts.drop_last()[k] == v);
        }
        lemma_first_position(opts.drop_last(), v, k);
    }
}

proof fn lemma_absent_position(opts: Seq<Seq<char>>, v: Seq<char>)
    requires
        !opts.contains(v),
    ensures
        position_or_first(opts, v) == 0,
    decreases opts.len(),
{
    if opts.len() > 0 {
        assert(opts.last() == opts[opts.len() - 1]);
        assert(!opts.drop_last().contains(v)) by {
            if opts.drop_last().contains(v) {
                let j = choose|j: int| 0 <= j < opts.drop_last().len() && opts.drop_last()[j] == v;
                assert(opts[j] == v);
            }
        }
        lemma_absent_position(opts.drop_last(), v);
    }
}

/// The option preselected for menu entry `i`.
pub fn preselected(config: &GlobalConfig, i: usize) -> (r: usize)
    requires
        i < menu_len(),
    ensures
        r == preselected_spec(*config, i as int),
{
    let e = menu_entry(i);
    let cur = current_of(config, e.key);
    if i >= 6 {
        if str_eq(cur.as_str(), "true") {
            0
        } else {
            1
        }
    } else {
        position_of(&e.options, cur.as_str())
    }
}

/// Apply the option picked for menu entry `i`: when it differs from the current value the
/// setting is set to it and the pick counts as a change; otherwise nothing changes.
pub fn apply_menu_pick(config: &mut GlobalConfig, i: usize, pick: usize) -> (changed: bool)
    requires
        i < menu_len(),
        pick < menu_table()[i as int].2.len(),
    ensures
        changed == (menu_table()[i as int].2[pick as int] != current_text(
            *old(config),
            menu_table()[i as int].0,
        )),
        changed ==> set_spec(
            *old(config),
            *final(config),
            menu_table()[i as int].0,
            menu_table()[i as int].2[pick as int],
        ),
        !changed ==> *final(config) == *old(config),
{
    let e = menu_entry(i);
    let cur = current_of(config, e.key);
    let new_val = e.options[pick];
    assert(new_val@ == menu_table()[i as int].2[pick as int]);
    if !str_eq(new_val, cur.as_str()) {
        set_value(config, e.key, new_val);
        true
    } else {
        false
    }
}

proof fn lemma_position_finds(opts: Seq<Seq<char>>, v: Seq<char>)
    requires
        opts.contains(v),
    ensures
        position_or_first(opts, v) < opts.len(),
        opts[position_or_first(opts, v) as int] == v,
    decreases opts.len(),
{
    if opts.last() == v && !opts.drop_last().contains(v) {
    } else {
        assert(opts.drop_last().contains(v)) by {
            let j = choose|j: int| 0 <= j < opts.len() && opts[j] == v;
            if j == opts.len() - 1 {
                assert(opts.last() == v);
            } else {
                assert(opts.drop_last()[j] == v);
            }
        }
        lemma_position_finds(opts.drop_last(), v);
        assert(opts[position_or_first(opts, v) as int] == opts.drop_last()[position_or_first(
            opts,
            v,
        ) as int]);
    }
}

/// Confirming the preselected option of a menu entry changes nothing: it is the current
/// value whenever the current value is one of the options.
pub proof fn preselected_pick_keeps_value(c: GlobalConfig, i: int)
    requires
        0 <= i < menu_len(),
        menu_table()[i].2.contains(current_text(c, menu_table()[i].0)),
    ensures
        preselected_spec(c, i) < menu_table()[i].2.len(),
        menu_table()[i].2[preselected_spec(c, i) as int] == current_text(c, menu_table()[i].0),
{
    let opts = menu_table()[i].2;
    let cur = current_text(c, menu_table()[i].0);
    if menu_is_bool(i) {
        assert(opts == seq!["true"@, "false"@]);
        if cur != "true"@ {
            let j = choose|j: int| 0 <= j < opts.len() && opts[j] == cur;
            assert(j == 1);
        }
    } else {
        lemma_position_finds(opts, cur);
    }
}

/// The listing printed by `quasar config list`: the config file's path dimmed, then every
/// default and UI setting with its value.
pub open spec fn listing_spec(c: GlobalConfig, path: Seq<char>, enabled: bool) -> Seq<Seq<char>> {
    seq![
        "  "@ + wrapped(enabled, "\x1b[2m"@, "config: "@ + path),
        seq![],
        "  [defaults]"@,
        "    toolchain  = "@ + shown(opt_view(c.defaults.toolchain)),
        "    test_language    = "@ + shown(opt_view(c.defaults.test_language)),
        "    rust_framework  = "@ + shown(opt_view(c.defaults.rust_framework)),
        "    ts_sdk          = "@ + shown(opt_view(c.defaults.ts_sdk)),
        "    template   = "@ + shown(opt_view(c.defaults.template)),
        "    git        = "@ + shown(opt_view(c.defaults.git)),
        seq![],
        "  [ui]"@,
        "    animation  = "@ + bool_text(c.ui.animation),
        "    color      = "@ + bool_text(c.ui.color),
    ]
}

fn line_with(prefix: &str, value: &str) -> (r: String)
    ensures
        r@ == prefix@ + value@,
{
    let mut s = string_from(prefix);
    append_str(&mut s, value);
    s
}

fn shown_of(o: &Option<String>) -> (r: String)
    ensures
        r@ == shown(opt_view(*o)),
{
    match o {
        Some(s) => s.clone(),
        None => string_from("(not set)"),
    }
}

fn bool_of(b: bool) -> (r: &'static str)
    ensures
        r@ == bool_text(b),
{
    if b {
        "true"
    } else {
        "false"
    }
}

/// The listing printed by `quasar config list`, one string per line.
pub fn listing(config: &GlobalConfig, path: &str, enabled: bool) -> (r: Vec<String>)
    ensures
        views(r@) == listing_spec(*config, path@, enabled),
{
    let mut v: Vec<String> = Vec::new();
    let head = line_with("config: ", path);
    let d = dim(head.as_str(), enabled);
    v.push(line_with("  ", d.as_str()));
    v.push(String::new());
    v.push(string_from("  [defaults]"));
    v.push(line_with("    toolchain  = ", shown_of(&config.defaults.toolchain).as_str()));
    v.push(line_with("    test_language    = ", shown_of(&config.defaults.test_language).as_str()));
    v.push(line_with("    rust_framework  = ", shown_of(&config.defaults.rust_framework).as_str()));
    v.push(line_with("    ts_sdk          = ", shown_of(&config.defaults.ts_sdk).as_str()));
    v.push(line_with("    template   = ", shown_of(&config.defaults.template).as_str()));
    v.push(line_with("    git        = ", shown_of(&config.defaults.git).as_str()));
    v.push(String::new());
    v.push(string_from("  [ui]"));
    v.push(line_with("    animation  = ", bool_of(config.ui.animation)));
    v.push(line_with("    color      = ", bool_of(config.ui.color)));
    assert(views(v@) =~= listing_spec(*config, path@, enabled));
    v
}

/// The message for a key that names no setting, listing the keys there are.
pub open spec fn unknown_key_spec(key: Seq<char>) -> Seq<char> {
    "unknown config key: "@ + key
        + "\n\n  Available keys:\n    defaults.toolchain, defaults.test_language, defaults.rust_framework,\n    defaults.ts_sdk, defaults.template, defaults.git\n    ui.animation, ui.color"@
}

/// The message for a key that names no setting.
pub fn unknown_key_message(key: &str) -> (r: String)
    ensures
        r@ == unknown_key_spec(key@),
{
    let mut s = string_from("unknown config key: ");
    append_str(&mut s, key);
    append_str(
        &mut s,
        "\n\n  Available keys:\n    defaults.toolchain, defaults.test_language, defaults.rust_framework,\n    defaults.ts_sdk, defaults.template, defaults.git\n    ui.animation, ui.color",
    );
    s
}

/// The message for a refused value, listing the valid ones.
pub open spec fn invalid_value_spec(key: Seq<char>, value: Seq<char>, valid: Seq<char>) -> Seq<char> {
    "invalid value for "@ + key + ": "@ + value + "\n  valid: "@ + valid
}

/// The message for a refused value.
pub fn invalid_value_message(key: &str, value: &str, valid: &str) -> (r: String)
    ensures
        r@ == invalid_value_spec(key@, value@, valid@),
{
    let mut s = string_from("invalid value for ");
    append_str(&mut s, key);
    append_str(&mut s, ": ");
    append_str(&mut s, value);
    append_str(&mut s, "\n  valid: ");
    append_str(&mut s, valid);
    s
}

} // verus!
