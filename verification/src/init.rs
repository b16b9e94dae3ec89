//! `quasar init`: the project choices, how they are named and numbered in prompts and in
//! the saved defaults, how explicit flags are checked, and the git setup steps.

use vstd::prelude::*;
use crate::cfg::{opt_view, GlobalConfig, GlobalDefaults, UiConfig};
use crate::style::{bold, dim, color, wrapped};
use crate::text::{append_str, chars_eq_str, chars_of, string_from};
use crate::test_runner::views;

verus! {

broadcast use vstd::string::group_string_axioms;

/// Which toolchain builds the program.
#[derive(Clone, Copy, Debug, PartialEq, Eq, Structural)]
pub enum Toolchain {
    Solana,
    Upstream,
}

/// The language of the project's tests.
#[derive(Clone, Copy, Debug, PartialEq, Eq, Structural)]
pub enum TestLanguage {
    NoTests,
    Rust,
    TypeScript,
}

/// The Rust test framework.
#[derive(Clone, Copy, Debug, PartialEq, Eq, Structural)]
pub enum RustFramework {
    QuasarSVM,
    Mollusk,
}

/// The TypeScript SDK.
#[derive(Clone, Copy, Debug, PartialEq, Eq, Structural)]
pub enum TypeScriptSdk {
    Kit,
    Web3js,
}

/// The project template.
#[derive(Clone, Copy, Debug, PartialEq, Eq, Structural)]
pub enum Template {
    Minimal,
    Full,
}

/// What to do with git after scaffolding.
#[derive(Clone, Copy, Debug, PartialEq, Eq, Structural)]
pub enum GitSetup {
    InitializeAndCommit,
    Initialize,
    Skip,
}

/// The JavaScript package manager of a TypeScript project.
#[derive(Clone, Debug)]
pub enum PackageManager {
    Pnpm,
    Bun,
    Npm,
    Yarn,
    Other { install: String, test: String },
}

impl Toolchain {
    /// The name saved in the global config.
    pub open spec fn spec_name(self) -> Seq<char> {
        match self {
            Toolchain::Solana => "solana"@,
            Toolchain::Upstream => "upstream"@,
        }
    }

    /// The name saved in the global config.
    pub fn as_str(&self) -> (r: &'static str)
        ensures
            r@ == self.spec_name(),
    {
        match self {
            Toolchain::Solana => "solana",
            Toolchain::Upstream => "upstream",
        }
    }
}

impl TestLanguage {
    /// The name saved in the global config.
    pub open spec fn spec_name(self) -> Seq<char> {
        match self {
            TestLanguage::NoTests => "none"@,
            TestLanguage::Rust => "rust"@,
            TestLanguage::TypeScript => "typescript"@,
        }
    }

    /// The name saved in the global config.
    pub fn as_str(&self) -> (r: &'static str)
        ensures
            r@ == self.spec_name(),
    {
        match self {
            TestLanguage::NoTests => "none",
            TestLanguage::Rust => "rust",
            TestLanguage::TypeScript => "typescript",
        }
    }
}

impl RustFramework {
    /// The name saved in the global config.
    pub open spec fn spec_name(self) -> Seq<char> {
        match self {
            RustFramework::QuasarSVM => "quasar-svm"@,
            RustFramework::Mollusk => "mollusk"@,
        }
    }

    /// The name saved in the global config.
    pub fn as_str(&self) -> (r: &'static str)
        ensures
            r@ == self.spec_name(),
    {
        match self {
            RustFramework::QuasarSVM => "quasar-svm",
            RustFramework::Mollusk => "mollusk",
        }
    }
}

impl TypeScriptSdk {
    /// The name saved in the global config.
    pub open spec fn spec_name(self) -> Seq<char> {
        match self {
            TypeScriptSdk::Kit => "kit"@,
            TypeScriptSdk::Web3js => "web3.js"@,
        }
    }

    /// The name saved in the global config.
    pub fn as_str(&self) -> (r: &'static str)
        ensures
            r@ == self.spec_name(),
    {
        match self {
            TypeScriptSdk::Kit => "kit",
            TypeScriptSdk::Web3js => "web3.js",
        }
    }
}

impl Template {
    /// The name saved in the global config.
    pub open spec fn spec_name(self) -> Seq<char> {
        match self {
            Template::Minimal => "minimal"@,
            Template::Full => "full"@,
        }
    }

    /// The name saved in the global config.
    pub fn as_str(&self) -> (r: &'static str)
        ensures
            r@ == self.spec_name(),
    {
        match self {
            Template::Minimal => "minimal",
            Template::Full => "full",
        }
    }
}

impl GitSetup {
    /// The saved default: `init` and `skip` name themselves; anything else, or nothing,
    /// means initialize and commit.
    pub open spec fn spec_from_config(value: Option<Seq<char>>) -> GitSetup {
        match value {
            Some(v) => if v == "init"@ {
                GitSetup::Initialize
            } else if v == "skip"@ {
                GitSetup::Skip
            } else {
                GitSetup::InitializeAndCommit
            },
            None => GitSetup::InitializeAndCommit,
        }
    }

    /// The git setup named by a saved default.
    pub fn from_config(value: Option<&str>) -> (r: GitSetup)
        ensures
            r == GitSetup::spec_from_config(
                match value {
                    Some(v) => Some(v@),
                    None => None,
                },
            ),
    {
        match value {
            Some(v) => {
                let c = chars_of(v);
                if chars_eq_str(&c, "init") {
                    GitSetup::Initialize
                } else if chars_eq_str(&c, "skip") {
                    GitSetup::Skip
                } else {
                    GitSetup::InitializeAndCommit
                }
            },
            None => GitSetup::InitializeAndCommit,
        }
    }

    /// The git setup at a prompt position: 1 and 2 name themselves, any other position
    /// means initialize and commit.
    pub open spec fn spec_from_index(idx: usize) -> GitSetup {
        if idx == 1 {
            GitSetup::Initialize
        } else if idx == 2 {
            GitSetup::Skip
        } else {
            GitSetup::InitializeAndCommit
        }
    }

    /// The git setup at a prompt position.
    pub fn from_index(idx: usize) -> (r: GitSetup)
        ensures
            r == GitSetup::spec_from_index(idx),
    {
        match idx {
            1 => GitSetup::Initialize,
            2 => GitSetup::Skip,
            _ => GitSetup::InitializeAndCommit,
        }
    }

    /// The prompt position of this setup.
    pub open spec fn spec_index(self) -> usize {
        match self {
            GitSetup::InitializeAndCommit => 0,
            GitSetup::Initialize => 1,
            GitSetup::Skip => 2,
        }
    }

    /// The prompt position of this setup.
    pub fn index(self) -> (r: usize)
        ensures
            r == self.spec_index(),
    {
        match self {
            GitSetup::InitializeAndCommit => 0,
            GitSetup::Initialize => 1,
            GitSetup::Skip => 2,
        }
    }

    /// The label in the git prompt.
    pub fn prompt_label(self) -> (r: &'static str)
        ensures
            r@ == match self {
                GitSetup::InitializeAndCommit => "Initialize + Commit"@,
                GitSetup::Initialize => "Initialize"@,
                GitSetup::Skip => "Skip"@,
            },
    {
        match self {
            GitSetup::InitializeAndCommit => "Initialize + Commit",
            GitSetup::Initialize => "Initialize",
            GitSetup::Skip => "Skip",
        }
    }

    /// The label in the summary printed with `--yes`.
    pub open spec fn spec_summary_label(self) -> Seq<char> {
        match self {
            GitSetup::InitializeAndCommit => "git: init + commit"@,
            GitSetup::Initialize => "git: init"@,
            GitSetup::Skip => "git: skip"@,
        }
    }

    /// The label in the summary printed with `--yes`.
    pub fn summary_label(self) -> (r: &'static str)
        ensures
            r@ == self.spec_summary_label(),
    {
        match self {
            GitSetup::InitializeAndCommit => "git: init + commit",
            GitSetup::Initialize => "git: init",
            GitSetup::Skip => "git: skip",
        }
    }

    /// The name saved in the global config.
    pub open spec fn spec_name(self) -> Seq<char> {
        match self {
            GitSetup::InitializeAndCommit => "commit"@,
            GitSetup::Initialize => "init"@,
            GitSetup::Skip => "skip"@,
        }
    }

    /// The name saved in the global config.
    pub fn as_str(self) -> (r: &'static str)
        ensures
            r@ == self.spec_name(),
    {
        match self {
            GitSetup::InitializeAndCommit => "commit",
            GitSetup::Initialize => "init",
            GitSetup::Skip => "skip",
        }
    }
}

impl PackageManager {
    /// The install command.
    pub open spec fn spec_install_cmd(&self) -> Seq<char> {
        match self {
            PackageManager::Pnpm => "pnpm install"@,
            PackageManager::Bun => "bun install"@,
            PackageManager::Npm => "npm install"@,
            PackageManager::Yarn => "yarn install"@,
            PackageManager::Other { install, test: _ } => install@,
        }
    }

    /// The test command.
    pub open spec fn spec_test_cmd(&self) -> Seq<char> {
        match self {
            PackageManager::Pnpm => "pnpm test"@,
            PackageManager::Bun => "bun test"@,
            PackageManager::Npm => "npm test"@,
            PackageManager::Yarn => "yarn test"@,
            PackageManager::Other { install: _, test } => test@,
        }
    }

    /// The install command.
    pub fn install_cmd(&self) -> (r: &str)
        ensures
            r@ == self.spec_install_cmd(),
    {
        match self {
            PackageManager::Pnpm => "pnpm install",
            PackageManager::Bun => "bun install",
            PackageManager::Npm => "npm install",
            PackageManager::Yarn => "yarn install",
            PackageManager::Other { install, test: _ } => install.as_str(),
        }
    }

    /// The test command.
    pub fn test_cmd(&self) -> (r: &str)
        ensures
            r@ == self.spec_test_cmd(),
    {
        match self {
            PackageManager::Pnpm => "pnpm test",
            PackageManager::Bun => "bun test",
            PackageManager::Npm => "npm test",
            PackageManager::Yarn => "yarn test",
            PackageManager::Other { install: _, test } => test.as_str(),
        }
    }

    /// The prompt position of a saved package manager: bun 1, npm 2, yarn 3, anything
    /// else (pnpm included) 0.
    pub open spec fn spec_from_config(value: Option<Seq<char>>) -> usize {
        match value {
            Some(v) => if v == "bun"@ {
                1
            } else if v == "npm"@ {
                2
            } else if v == "yarn"@ {
                3
            } else {
                0
            },
            None => 0,
        }
    }

    /// The prompt position of a saved package manager.
    pub fn from_config(value: Option<&str>) -> (r: usize)
        ensures
            r == PackageManager::spec_from_config(
                match value {
                    Some(v) => Some(v@),
                    None => None,
                },
            ),
    {
        match value {
            Some(v) => {
                let c = chars_of(v);
                if chars_eq_str(&c, "bun") {
                    1
                } else if chars_eq_str(&c, "npm") {
                    2
                } else if chars_eq_str(&c, "yarn") {
                    3
                } else {
                    0
                }
            },
            None => 0,
        }
    }

    /// The name saved in the global config.
    pub open spec fn spec_name(&self) -> Seq<char> {
        match self {
            PackageManager::Pnpm => "pnpm"@,
            PackageManager::Bun => "bun"@,
            PackageManager::Npm => "npm"@,
            PackageManager::Yarn => "yarn"@,
            PackageManager::Other { .. } => "other"@,
        }
    }

    /// The name saved in the global config.
    pub fn as_str(&self) -> (r: &'static str)
        ensures
            r@ == self.spec_name(),
    {
        match self {
            PackageManager::Pnpm => "pnpm",
            PackageManager::Bun => "bun",
            PackageManager::Npm => "npm",
            PackageManager::Yarn => "yarn",
            PackageManager::Other { .. } => "other",
        }
    }
}

/// The git commands that set a repository up, in the order they run; the run stops at the
/// first that fails. Every setup runs `git init --quiet`; only initialize-and-commit then
/// adds and commits everything.
pub open spec fn git_commands_spec(setup: GitSetup) -> Seq<Seq<Seq<char>>> {
    let init = seq!["init"@, "--quiet"@];
    match setup {
        GitSetup::InitializeAndCommit => seq![
            init,
            seq!["add"@, "."@],
            seq!["commit"@, "-am"@, "chore: initial commit"@, "--quiet"@],
        ],
        _ => seq![init],
    }
}

fn args_of(parts: &[&str]) -> (r: Vec<String>)
    ensures
        crate::test_runner::views(r@) == parts@.map_values(|p: &str| p@),
{
    let mut v: Vec<String> = Vec::new();
    let n = parts.len();
    let mut i: usize = 0;
    while i < n
        invariant
            n == parts@.len(),
            i <= n,
            crate::test_runner::views(v@) == parts@.map_values(|p: &str| p@).take(i as int),
        decreases n - i,
    {
        let ghost before = v@;
        let s = string_from(parts[i]);
        v.push(s);
        assert(crate::test_runner::views(v@) =~= crate::test_runner::views(before).push(s@));
        assert(parts@.map_values(|p: &str| p@).take(i + 1) =~= parts@.map_values(|p: &str| p@).take(
            i as int,
        ).push(parts@[i as int]@));
        i = i + 1;
    }
    assert(parts@.map_values(|p: &str| p@).take(n as int) == parts@.map_values(|p: &str| p@));
    v
}

/// The git commands that set a repository up (see [`git_commands_spec`]).
pub fn git_commands(setup: GitSetup) -> (r: Vec<Vec<String>>)
    ensures
        r@.map_values(|c: Vec<String>| crate::test_runner::views(c@)) == git_commands_spec(setup),
{
    let mut cmds: Vec<Vec<String>> = Vec::new();
    let a0: [&str; 2] = ["init", "--quiet"];
    let c0 = args_of(&a0);
    assert(crate::test_runner::views(c0@) =~= seq!["init"@, "--quiet"@]);
    cmds.push(c0);
    match setup {
        GitSetup::InitializeAndCommit => {
            let a1: [&str; 2] = ["add", "."];
            let c1 = args_of(&a1);
            assert(crate::test_runner::views(c1@) =~= seq!["add"@, "."@]);
            cmds.push(c1);
            let a2: [&str; 4] = ["commit", "-am", "chore: initial commit", "--quiet"];
            let c2 = args_of(&a2);
            assert(crate::test_runner::views(c2@) =~= seq![
                "commit"@,
                "-am"@,
                "chore: initial commit"@,
                "--quiet"@,
            ]);
            cmds.push(c2);
        },
        _ => {},
    }
    assert(cmds@.map_values(|c: Vec<String>| crate::test_runner::views(c@)) =~= git_commands_spec(
        setup,
    ));
    cmds
}

/// Whether scaffolding should set up git: not when skipped, nor inside an existing repo.
pub fn should_initialize_git(setup: GitSetup, already_git: bool) -> (r: bool)
    ensures
        r == (setup != GitSetup::Skip && !already_git),
{
    !matches!(setup, GitSetup::Skip) && !already_git
}


/// What setting the repository up does next.
#[derive(Debug)]
pub enum GitStep {
    /// Run git with these arguments in the project directory.
    Run(Vec<String>),
    /// Stop; whether every command succeeded.
    Finished(bool),
}

/// The next step of the git setup, after `done` commands have run and the last one
/// (if any) succeeded or not (`last_ok`; `true` before the first): a failure ends the
/// setup unsuccessfully; else the next of `git_commands_spec` runs, and after the last
/// the setup ends successfully.
pub fn git_step(setup: GitSetup, done: usize, last_ok: bool) -> (r: GitStep)
    ensures
        !last_ok ==> (r matches GitStep::Finished(b) && !b),
        last_ok && done >= git_commands_spec(setup).len() ==> (r matches GitStep::Finished(b) && b),
        last_ok && done < git_commands_spec(setup).len() ==> (r matches GitStep::Run(c) && views(c@)
            == git_commands_spec(setup)[done as int]),
{
    if !last_ok {
        return GitStep::Finished(false);
    }
    let mut cmds = git_commands(setup);
    proof {
        assert(cmds@.len() == git_commands_spec(setup).len());
    }
    if done >= cmds.len() {
        return GitStep::Finished(true);
    }
    let ghost before = cmds@;
    let c = cmds.remove(done);
    proof {
        assert(before.map_values(|x: Vec<String>| views(x@))[done as int] == views(c@));
    }
    GitStep::Run(c)
}

/// The message when `quasar init` gets flags but no project name.
pub open spec fn missing_name_message() -> Seq<char> {
    "a project name is required when using flags\n  usage: quasar init <name> [--test-language ...] [--template ...]"@
}

/// The project name when prompts are skipped (`--yes`): the one given, else an error.
/// With prompts, the given name is only the prompt's default.
pub fn required_project_name(name: Option<&str>) -> (r: Result<String, String>)
    ensures
        match name {
            Some(n) => r matches Ok(s) && s@ == n@,
            None => r matches Err(e) && e@ == missing_name_message(),
        },
{
    match name {
        Some(n) => Ok(string_from(n)),
        None => Err(string_from(
            "a project name is required when using flags\n  usage: quasar init <name> [--test-language ...] [--template ...]",
        )),
    }
}

/// The optional string's characters.
pub open spec fn opt_chars(v: Option<&str>) -> Option<Seq<char>> {
    match v {
        Some(s) => Some(s@),
        None => None,
    }
}

/// An explicit flag, else the saved default.
pub open spec fn first_of(flag: Option<Seq<char>>, saved: Option<Seq<char>>) -> Option<Seq<char>> {
    if flag.is_some() {
        flag
    } else {
        saved
    }
}

fn pick<'a>(flag: Option<&'a str>, saved: Option<&'a str>) -> (r: Option<&'a str>)
    ensures
        opt_chars(r) == first_of(opt_chars(flag), opt_chars(saved)),
{
    match flag {
        Some(f) => Some(f),
        None => saved,
    }
}

fn is(v: Option<&str>, name: &str) -> (r: bool)
    ensures
        r == (opt_chars(v) == Some(name@)),
{
    match v {
        Some(s) => {
            let c = chars_of(s);
            chars_eq_str(&c, name)
        },
        None => false,
    }
}

/// The preselected toolchain: upstream (1) when chosen, else solana (0).
pub open spec fn toolchain_index_spec(choice: Option<Seq<char>>) -> usize {
    if choice == Some("upstream"@) {
        1
    } else {
        0
    }
}

/// The preselected test language: none (0), typescript (2), else rust (1).
pub open spec fn test_language_index_spec(choice: Option<Seq<char>>) -> usize {
    if choice == Some("none"@) {
        0
    } else if choice == Some("typescript"@) {
        2
    } else {
        1
    }
}

/// The preselected Rust framework: mollusk (1), else quasar-svm (0).
pub open spec fn rust_framework_index_spec(choice: Option<Seq<char>>) -> usize {
    if choice == Some("mollusk"@) {
        1
    } else {
        0
    }
}

/// The preselected TypeScript SDK: web3.js (1), else kit (0).
pub open spec fn ts_sdk_index_spec(choice: Option<Seq<char>>) -> usize {
    if choice == Some("web3.js"@) {
        1
    } else {
        0
    }
}

/// The preselected template: full (1), else minimal (0).
pub open spec fn template_index_spec(choice: Option<Seq<char>>) -> usize {
    if choice == Some("full"@) {
        1
    } else {
        0
    }
}

/// The preselected toolchain, from the flag or else the saved default.
pub fn toolchain_index(flag: Option<&str>, saved: Option<&str>) -> (r: usize)
    ensures
        r == toolchain_index_spec(first_of(opt_chars(flag), opt_chars(saved))),
{
    if is(pick(flag, saved), "upstream") {
        1
    } else {
        0
    }
}

/// The preselected test language, from the flag or else the saved default.
pub fn test_language_index(flag: Option<&str>, saved: Option<&str>) -> (r: usize)
    ensures
        r == test_language_index_spec(first_of(opt_chars(flag), opt_chars(saved))),
{
    let c = pick(flag, saved);
    if is(c, "none") {
        0
    } else if is(c, "typescript") {
        2
    } else {
        1
    }
}

/// The preselected Rust framework, from the flag or else the saved default.
pub fn rust_framework_index(flag: Option<&str>, saved: Option<&str>) -> (r: usize)
    ensures
        r == rust_framework_index_spec(first_of(opt_chars(flag), opt_chars(saved))),
{
    if is(pick(flag, saved), "mollusk") {
        1
    } else {
        0
    }
}

/// The preselected TypeScript SDK, from the flag or else the saved default.
pub fn ts_sdk_index(flag: Option<&str>, saved: Option<&str>) -> (r: usize)
    ensures
        r == ts_sdk_index_spec(first_of(opt_chars(flag), opt_chars(saved))),
{
    if is(pick(flag, saved), "web3.js") {
        1
    } else {
        0
    }
}

/// The preselected template, from the flag or else the saved default.
pub fn template_index(flag: Option<&str>, saved: Option<&str>) -> (r: usize)
    ensures
        r == template_index_spec(first_of(opt_chars(flag), opt_chars(saved))),
{
    if is(pick(flag, saved), "full") {
        1
    } else {
        0
    }
}

/// The toolchain at a prompt position: 0 is solana, any other is upstream.
pub fn toolchain_at(idx: usize) -> (r: Toolchain)
    ensures
        r == if idx == 0 {
            Toolchain::Solana
        } else {
            Toolchain::Upstream
        },
{
    if idx == 0 {
        Toolchain::Solana
    } else {
        Toolchain::Upstream
    }
}

/// The test language at a prompt position: 1 rust, 2 typescript, any other none.
pub fn test_language_at(idx: usize) -> (r: TestLanguage)
    ensures
        r == if idx == 1 {
            TestLanguage::Rust
        } else if idx == 2 {
            TestLanguage::TypeScript
        } else {
            TestLanguage::NoTests
        },
{
    match idx {
        1 => TestLanguage::Rust,
        2 => TestLanguage::TypeScript,
        _ => TestLanguage::NoTests,
    }
}

/// The Rust framework at a prompt position: 1 mollusk, any other quasar-svm.
pub fn rust_framework_at(idx: usize) -> (r: RustFramework)
    ensures
        r == if idx == 1 {
            RustFramework::Mollusk
        } else {
            RustFramework::QuasarSVM
        },
{
    if idx == 1 {
        RustFramework::Mollusk
    } else {
        RustFramework::QuasarSVM
    }
}

/// The TypeScript SDK at a prompt position: 1 web3.js, any other kit.
pub fn ts_sdk_at(idx: usize) -> (r: TypeScriptSdk)
    ensures
        r == if idx == 1 {
            TypeScriptSdk::Web3js
        } else {
            TypeScriptSdk::Kit
        },
{
    if idx == 1 {
        TypeScriptSdk::Web3js
    } else {
        TypeScriptSdk::Kit
    }
}

/// The template at a prompt position: 0 minimal, any other full.
pub fn template_at(idx: usize) -> (r: Template)
    ensures
        r == if idx == 0 {
            Template::Minimal
        } else {
            Template::Full
        },
{
    if idx == 0 {
        Template::Minimal
    } else {
        Template::Full
    }
}

/// The message for an explicit flag value that names no option.
pub open spec fn unknown_flag_message(what: Seq<char>, value: Seq<char>, valid: Seq<char>) -> Seq<
    char,
> {
    "unknown "@ + what + ": "@ + value + "\n  valid: "@ + valid
}

/// The first explicit flag, in the order test language, rust framework, TypeScript SDK,
/// template, toolchain, whose value names no option, with its message.
pub open spec fn init_flags_error(
    test_language: Option<Seq<char>>,
    rust_framework: Option<Seq<char>>,
    ts_sdk: Option<Seq<char>>,
    template: Option<Seq<char>>,
    toolchain: Option<Seq<char>>,
) -> Option<Seq<char>> {
    if test_language is Some && !seq!["none"@, "rust"@, "typescript"@].contains(
        test_language.unwrap(),
    ) {
        Some(unknown_flag_message("test language"@, test_language.unwrap(), "none, rust, typescript"@))
    } else if rust_framework is Some && !seq!["quasar-svm"@, "mollusk"@].contains(
        rust_framework.unwrap(),
    ) {
        Some(unknown_flag_message("rust framework"@, rust_framework.unwrap(), "quasar-svm, mollusk"@))
    } else if ts_sdk is Some && !seq!["kit"@, "web3.js"@].contains(ts_sdk.unwrap()) {
        Some(unknown_flag_message("TypeScript SDK"@, ts_sdk.unwrap(), "kit, web3.js"@))
    } else if template is Some && !seq!["minimal"@, "full"@].contains(template.unwrap()) {
        Some(unknown_flag_message("template"@, template.unwrap(), "minimal, full"@))
    } else if toolchain is Some && !seq!["solana"@, "upstream"@].contains(toolchain.unwrap()) {
        Some(unknown_flag_message("toolchain"@, toolchain.unwrap(), "solana, upstream"@))
    } else {
        None
    }
}

fn one_of(v: &str, options: &[&str]) -> (r: bool)
    ensures
        r == options@.map_values(|o: &str| o@).contains(v@),
{
    let c = chars_of(v);
    let ghost os = options@.map_values(|o: &str| o@);
    let n = options.len();
    let mut i: usize = 0;
    while i < n
        invariant
            n == options@.len(),
            os == options@.map_values(|o: &str| o@),
            c@ == v@,
            i <= n,
            forall|j: int| 0 <= j < i ==> os[j] != v@,
        decreases n - i,
    {
        if chars_eq_str(&c, options[i]) {
            assert(os[i as int] == v@);
            return true;
        }
        i = i + 1;
    }
    false
}

fn unknown_flag(what: &str, value: &str, valid: &str) -> (r: String)
    ensures
        r@ == unknown_flag_message(what@, value@, valid@),
{
    let mut s = string_from("unknown ");
    append_str(&mut s, what);
    append_str(&mut s, ": ");
    append_str(&mut s, value);
    append_str(&mut s, "\n  valid: ");
    append_str(&mut s, valid);
    s
}

/// The package manager at a prompt position: pnpm, bun, npm, yarn; any later position is
/// "other", whose install and test commands are asked for next (`None`).
pub fn package_manager_at(idx: usize) -> (r: Option<PackageManager>)
    ensures
        idx == 0 ==> r == Some(PackageManager::Pnpm),
        idx == 1 ==> r == Some(PackageManager::Bun),
        idx == 2 ==> r == Some(PackageManager::Npm),
        idx == 3 ==> r == Some(PackageManager::Yarn),
        idx > 3 ==> r is None,
{
    if idx == 0 {
        Some(PackageManager::Pnpm)
    } else if idx == 1 {
        Some(PackageManager::Bun)
    } else if idx == 2 {
        Some(PackageManager::Npm)
    } else if idx == 3 {
        Some(PackageManager::Yarn)
    } else {
        None
    }
}

/// Check the explicit `quasar init` flags before anything is prompted or written.
pub fn validate_init_flags(
    test_language: Option<&str>,
    rust_framework: Option<&str>,
    ts_sdk: Option<&str>,
    template: Option<&str>,
    toolchain: Option<&str>,
) -> (r: Result<(), String>)
    ensures
        match init_flags_error(
            opt_chars(test_language),
            opt_chars(rust_framework),
            opt_chars(ts_sdk),
            opt_chars(template),
            opt_chars(toolchain),
        ) {
            Some(m) => r matches Err(e) && e@ == m,
            None => r is Ok,
        },
{
    match test_language {
        Some(t) => {
            let opts: [&str; 3] = ["none", "rust", "typescript"];
            assert(opts@.map_values(|o: &str| o@) =~= seq!["none"@, "rust"@, "typescript"@]);
            if !one_of(t, &opts) {
                return Err(unknown_flag("test language", t, "none, rust, typescript"));
            }
        },
        None => {},
    }
    match rust_framework {
        Some(f) => {
            let opts: [&str; 2] = ["quasar-svm", "mollusk"];
            assert(opts@.map_values(|o: &str| o@) =~= seq!["quasar-svm"@, "mollusk"@]);
            if !one_of(f, &opts) {
                return Err(unknown_flag("rust framework", f, "quasar-svm, mollusk"));
            }
        },
        None => {},
    }
    match ts_sdk {
        Some(s) => {
            let opts: [&str; 2] = ["kit", "web3.js"];
            assert(opts@.map_values(|o: &str| o@) =~= seq!["kit"@, "web3.js"@]);
            if !one_of(s, &opts) {
                return Err(unknown_flag("TypeScript SDK", s, "kit, web3.js"));
            }
        },
        None => {},
    }
    match template {
        Some(t) => {
            let opts: [&str; 2] = ["minimal", "full"];
            assert(opts@.map_values(|o: &str| o@) =~= seq!["minimal"@, "full"@]);
            if !one_of(t, &opts) {
                return Err(unknown_flag("template", t, "minimal, full"));
            }
        },
        None => {},
    }
    match toolchain {
        Some(t) => {
            let opts: [&str; 2] = ["solana", "upstream"];
            assert(opts@.map_values(|o: &str| o@) =~= seq!["solana"@, "upstream"@]);
            if !one_of(t, &opts) {
                return Err(unknown_flag("toolchain", t, "solana, upstream"));
            }
        },
        None => {},
    }
    Ok(())
}

/// The client languages when prompts are skipped: rust always, then typescript when the
/// tests are in TypeScript.
pub fn default_client_languages(test_language: TestLanguage) -> (r: Vec<String>)
    ensures
        crate::test_runner::views(r@) == if test_language == TestLanguage::TypeScript {
            seq!["rust"@, "typescript"@]
        } else {
            seq!["rust"@]
        },
{
    let mut langs: Vec<String> = Vec::new();
    langs.push(string_from("rust"));
    if test_language == TestLanguage::TypeScript {
        langs.push(string_from("typescript"));
    }
    assert(crate::test_runner::views(langs@) =~= if test_language == TestLanguage::TypeScript {
        seq!["rust"@, "typescript"@]
    } else {
        seq!["rust"@]
    });
    langs
}


fn clone_opt(o: &Option<String>) -> (r: Option<String>)
    ensures
        opt_view(r) == opt_view(*o),
{
    match o {
        Some(s) => Some(s.clone()),
        None => None,
    }
}

fn name_of(s: &'static str) -> (r: Option<String>)
    ensures
        opt_view(r) == Some(s@),
{
    Some(string_from(s))
}

/// The global config saved after `init`: every choice just made, the git setup unless
/// `--no-git` was given (then the saved one stays), the package manager when one was chosen
/// (else the saved one stays), and the intro animation off from now on.
pub fn remembered_config(
    prev: &GlobalConfig,
    toolchain: Toolchain,
    test_language: TestLanguage,
    rust_framework: Option<RustFramework>,
    ts_sdk: Option<TypeScriptSdk>,
    template: Template,
    git_setup: GitSetup,
    no_git: bool,
    package_manager: Option<&PackageManager>,
) -> (r: GlobalConfig)
    ensures
        opt_view(r.defaults.toolchain) == Some(toolchain.spec_name()),
        opt_view(r.defaults.test_language) == Some(test_language.spec_name()),
        opt_view(r.defaults.rust_framework) == match rust_framework {
            Some(f) => Some(f.spec_name()),
            None => None::<Seq<char>>,
        },
        opt_view(r.defaults.ts_sdk) == match ts_sdk {
            Some(t) => Some(t.spec_name()),
            None => None::<Seq<char>>,
        },
        opt_view(r.defaults.template) == Some(template.spec_name()),
        opt_view(r.defaults.git) == if no_git {
            opt_view(prev.defaults.git)
        } else {
            Some(git_setup.spec_name())
        },
        opt_view(r.defaults.package_manager) == match package_manager {
            Some(pm) => Some(pm.spec_name()),
            None => opt_view(prev.defaults.package_manager),
        },
        r.ui.animation == false,
        r.ui.color == prev.ui.color,
{
    let git = if no_git {
        clone_opt(&prev.defaults.git)
    } else {
        name_of(git_setup.as_str())
    };
    let pm = match package_manager {
        Some(p) => name_of(p.as_str()),
        None => clone_opt(&prev.defaults.package_manager),
    };
    let rf = match rust_framework {
        Some(f) => name_of(f.as_str()),
        None => None,
    };
    let ts = match ts_sdk {
        Some(t) => name_of(t.as_str()),
        None => None,
    };
    GlobalConfig {
        defaults: GlobalDefaults {
            toolchain: name_of(toolchain.as_str()),
            test_language: name_of(test_language.as_str()),
            rust_framework: rf,
            ts_sdk: ts,
            template: name_of(template.as_str()),
            git,
            package_manager: pm,
        },
        ui: UiConfig { animation: false, color: prev.ui.color },
    }
}

/// The optional client languages offered at `init`, as (label, id): TypeScript unless the
/// TypeScript tests already force it, then Golang and Python.
pub open spec fn optional_languages_spec(ts_tests: bool) -> Seq<(Seq<char>, Seq<char>)> {
    (if ts_tests {
        seq![]
    } else {
        seq![("TypeScript"@, "typescript"@)]
    }) + seq![("Golang (Experimental)"@, "golang"@), ("Python (Experimental)"@, "python"@)]
}

/// The optional client languages offered at `init`, as (label, id).
pub fn optional_client_languages(ts_tests: bool) -> (r: Vec<(&'static str, &'static str)>)
    ensures
        r@.map_values(|p: (&'static str, &'static str)| (p.0@, p.1@)) == optional_languages_spec(
            ts_tests,
        ),
{
    let mut v: Vec<(&'static str, &'static str)> = Vec::new();
    if !ts_tests {
        v.push(("TypeScript", "typescript"));
    }
    v.push(("Golang (Experimental)", "golang"));
    v.push(("Python (Experimental)", "python"));
    assert(v@.map_values(|p: (&'static str, &'static str)| (p.0@, p.1@)) =~= optional_languages_spec(
        ts_tests,
    ));
    v
}

/// The prompt for the optional client languages, naming the ones always included.
pub open spec fn languages_prompt_spec(ts_tests: bool) -> Seq<char> {
    "Additional client languages ("@ + (if ts_tests {
        "Rust, TypeScript"@
    } else {
        "Rust"@
    }) + " always included)"@
}

/// The prompt for the optional client languages.
pub fn client_languages_prompt(ts_tests: bool) -> (r: String)
    ensures
        r@ == languages_prompt_spec(ts_tests),
{
    let mut s = string_from("Additional client languages (");
    if ts_tests {
        append_str(&mut s, "Rust, TypeScript");
    } else {
        append_str(&mut s, "Rust");
    }
    append_str(&mut s, " always included)");
    s
}

/// The client languages generated: rust, typescript when the tests are in TypeScript, then
/// the ids of the selected optional languages in selection order.
pub fn chosen_client_languages(ts_tests: bool, selected: &Vec<usize>) -> (r: Vec<String>)
    requires
        forall|i: int| 0 <= i < selected@.len() ==> selected@[i] < optional_languages_spec(
            ts_tests,
        ).len(),
    ensures
        views(r@) == (if ts_tests {
            seq!["rust"@, "typescript"@]
        } else {
            seq!["rust"@]
        }) + selected@.map_values(|i: usize| optional_languages_spec(ts_tests)[i as int].1),
{
    let optional = optional_client_languages(ts_tests);
    let ghost opts = optional_languages_spec(ts_tests);
    let mut langs: Vec<String> = Vec::new();
    langs.push(string_from("rust"));
    if ts_tests {
        langs.push(string_from("typescript"));
    }
    let ghost base = views(langs@);
    let n = selected.len();
    let mut k: usize = 0;
    while k < n
        invariant
            n == selected@.len(),
            k <= n,
            optional@.map_values(|p: (&'static str, &'static str)| (p.0@, p.1@)) == opts,
            opts == optional_languages_spec(ts_tests),
            forall|i: int| 0 <= i < selected@.len() ==> selected@[i] < opts.len(),
            views(langs@) == base + selected@.take(k as int).map_values(
                |i: usize| opts[i as int].1,
            ),
        decreases n - k,
    {
        let idx = selected[k];
        assert(optional@.map_values(|p: (&'static str, &'static str)| (p.0@, p.1@))[idx as int]
            == (optional@[idx as int].0@, optional@[idx as int].1@));
        let ghost before = views(langs@);
        let item = string_from(optional[idx].1);
        assert(item@ == opts[idx as int].1);
        langs.push(item);
        assert(views(langs@) =~= before.push(opts[idx as int].1));
        assert(selected@.take(k + 1).map_values(|i: usize| opts[i as int].1) =~= selected@.take(
            k as int,
        ).map_values(|i: usize| opts[i as int].1).push(opts[idx as int].1));
        assert(views(langs@) =~= base + selected@.take(k + 1).map_values(
            |i: usize| opts[i as int].1,
        ));
        k = k + 1;
    }
    assert(selected@.take(n as int) == selected@);
    assert(base =~= (if ts_tests {
        seq!["rust"@, "typescript"@]
    } else {
        seq!["rust"@]
    }));
    langs
}

/// How the test setup is summed up when prompts are skipped.
pub open spec fn test_setup_label_spec(
    test_language: TestLanguage,
    rust_framework: Option<RustFramework>,
    ts_sdk: Option<TypeScriptSdk>,
) -> Seq<char> {
    match test_language {
        TestLanguage::NoTests => "no tests"@,
        TestLanguage::Rust => "rust/"@ + rust_framework.unwrap().spec_name(),
        TestLanguage::TypeScript => "typescript/"@ + ts_sdk.unwrap().spec_name(),
    }
}

/// How the test setup is summed up when prompts are skipped: `no tests`, `rust/<framework>`
/// or `typescript/<sdk>`.
pub fn test_setup_label(
    test_language: TestLanguage,
    rust_framework: Option<RustFramework>,
    ts_sdk: Option<TypeScriptSdk>,
) -> (r: String)
    requires
        test_language == TestLanguage::Rust ==> rust_framework is Some,
        test_language == TestLanguage::TypeScript ==> ts_sdk is Some,
    ensures
        r@ == test_setup_label_spec(test_language, rust_framework, ts_sdk),
{
    match test_language {
        TestLanguage::NoTests => string_from("no tests"),
        TestLanguage::Rust => {
            let mut s = string_from("rust/");
            append_str(&mut s, rust_framework.unwrap().as_str());
            s
        },
        TestLanguage::TypeScript => {
            let mut s = string_from("typescript/");
            append_str(&mut s, ts_sdk.unwrap().as_str());
            s
        },
    }
}

/// The line that sums up the choices taken when prompts are skipped.
pub open spec fn using_line_spec(
    toolchain: Toolchain,
    setup: Seq<char>,
    template: Template,
    git_setup: GitSetup,
    enabled: bool,
) -> Seq<char> {
    "  "@ + wrapped(enabled, "\x1b[2m"@, "Using:"@) + " "@ + wrapped(
        enabled,
        "\x1b[1m"@,
        toolchain.spec_name(),
    ) + " "@ + wrapped(enabled, "\x1b[2m"@, "+"@) + " "@ + wrapped(enabled, "\x1b[1m"@, setup)
        + " "@ + wrapped(enabled, "\x1b[1m"@, template.spec_name()) + " "@ + wrapped(
        enabled,
        "\x1b[2m"@,
        "+"@,
    ) + " "@ + wrapped(enabled, "\x1b[1m"@, git_setup.spec_summary_label())
}

/// The line that sums up the choices taken when prompts are skipped, such as
/// `  Using: solana + rust/quasar-svm minimal + git: init + commit`.
pub fn using_line(
    toolchain: Toolchain,
    test_language: TestLanguage,
    rust_framework: Option<RustFramework>,
    ts_sdk: Option<TypeScriptSdk>,
    template: Template,
    git_setup: GitSetup,
    enabled: bool,
) -> (r: String)
    requires
        test_language == TestLanguage::Rust ==> rust_framework is Some,
        test_language == TestLanguage::TypeScript ==> ts_sdk is Some,
    ensures
        r@ == using_line_spec(
            toolchain,
            test_setup_label_spec(test_language, rust_framework, ts_sdk),
            template,
            git_setup,
            enabled,
        ),
{
    let setup = test_setup_label(test_language, rust_framework, ts_sdk);
    let mut s = string_from("  ");
    append_str(&mut s, dim("Using:", enabled).as_str());
    append_str(&mut s, " ");
    append_str(&mut s, bold(toolchain.as_str(), enabled).as_str());
    append_str(&mut s, " ");
    append_str(&mut s, dim("+", enabled).as_str());
    append_str(&mut s, " ");
    append_str(&mut s, bold(setup.as_str(), enabled).as_str());
    append_str(&mut s, " ");
    append_str(&mut s, bold(template.as_str(), enabled).as_str());
    append_str(&mut s, " ");
    append_str(&mut s, dim("+", enabled).as_str());
    append_str(&mut s, " ");
    append_str(&mut s, bold(git_setup.summary_label(), enabled).as_str());
    s
}

/// The steps suggested after `init`: `cd <name>` unless the project is the current
/// directory, `quasar build`, and `quasar test` when the project has tests.
pub open spec fn next_steps_spec(name: Seq<char>, test_language: TestLanguage) -> Seq<Seq<char>> {
    (if name == "."@ {
        seq![]
    } else {
        seq!["cd "@ + name]
    }) + seq!["quasar build"@] + (if test_language == TestLanguage::NoTests {
        seq![]
    } else {
        seq!["quasar test"@]
    })
}

/// The commands suggested after `init`, in order.
pub fn next_steps(name: &str, test_language: TestLanguage) -> (r: Vec<String>)
    ensures
        views(r@) == next_steps_spec(name@, test_language),
{
    let mut v: Vec<String> = Vec::new();
    let c = chars_of(name);
    if !chars_eq_str(&c, ".") {
        let mut s = string_from("cd ");
        append_str(&mut s, name);
        v.push(s);
    }
    v.push(string_from("quasar build"));
    if test_language != TestLanguage::NoTests {
        v.push(string_from("quasar test"));
    }
    assert(views(v@) =~= next_steps_spec(name@, test_language));
    v
}

/// The crate name of a new project: the project name, or for `.` the name of the current
/// directory (`my-program` when it has none).
pub open spec fn crate_name_spec(name: Seq<char>, current_dir: Option<Seq<char>>) -> Seq<char> {
    if name == "."@ {
        match current_dir {
            Some(d) => d,
            None => "my-program"@,
        }
    } else {
        name
    }
}

/// The crate name of a new project, given the current directory's name if it has one.
pub fn crate_name_for(name: &str, current_dir: Option<&str>) -> (r: String)
    ensures
        r@ == crate_name_spec(
            name@,
            match current_dir {
                Some(d) => Some(d@),
                None => None,
            },
        ),
{
    let c = chars_of(name);
    if chars_eq_str(&c, ".") {
        match current_dir {
            Some(d) => string_from(d),
            None => string_from("my-program"),
        }
    } else {
        string_from(name)
    }
}


/// The `.git` entry that shows the project is already a repository: `.git` inside the
/// project directory (for `.`, in the current directory).
pub open spec fn git_marker_spec(name: Seq<char>) -> Seq<char> {
    if name == "."@ {
        ".git"@
    } else if name.len() == 0 || name.last() == '/' {
        name + ".git"@
    } else {
        name + "/.git"@
    }
}

/// The `.git` entry that shows the project is already a repository.
pub fn git_marker(name: &str) -> (r: String)
    ensures
        r@ == git_marker_spec(name@),
{
    let c = chars_of(name);
    if chars_eq_str(&c, ".") {
        string_from(".git")
    } else if c.len() == 0 || c[c.len() - 1] == '/' {
        let mut s = string_from(name);
        append_str(&mut s, ".git");
        s
    } else {
        let mut s = string_from(name);
        append_str(&mut s, "/.git");
        s
    }
}

/// A git setup's prompt position leads back to it.
pub proof fn git_setup_index_round_trip(g: GitSetup)
    ensures
        GitSetup::spec_from_index(g.spec_index()) == g,
{
}

/// A git setup's saved name leads back to it.
pub proof fn git_setup_name_round_trip(g: GitSetup)
    ensures
        GitSetup::spec_from_config(Some(g.spec_name())) == g,
{
    reveal_strlit("commit");
    reveal_strlit("init");
    reveal_strlit("skip");
    assert("commit"@ != "init"@ && "commit"@ != "skip"@ && "init"@ != "skip"@) by {
        assert("commit"@.len() != "init"@.len());
        assert("commit"@.len() != "skip"@.len());
        assert("init"@[0] != "skip"@[0]);
    }
}

/// The saved name of a named package manager leads back to its prompt position.
pub proof fn package_manager_name_round_trip(pm: PackageManager)
    requires
        !(pm is Other),
    ensures
        PackageManager::spec_from_config(Some(pm.spec_name())) == match pm {
            PackageManager::Pnpm => 0usize,
            PackageManager::Bun => 1usize,
            PackageManager::Npm => 2usize,
            _ => 3usize,
        },
{
    reveal_strlit("pnpm");
    reveal_strlit("bun");
    reveal_strlit("npm");
    reveal_strlit("yarn");
    assert("pnpm"@ != "bun"@ && "pnpm"@ != "npm"@ && "pnpm"@ != "yarn"@) by {
        assert("pnpm"@.len() != "bun"@.len());
        assert("pnpm"@.len() != "npm"@.len());
        assert("pnpm"@[0] != "yarn"@[0]);
    }
    assert("bun"@ != "npm"@ && "bun"@ != "yarn"@ && "npm"@ != "yarn"@) by {
        assert("bun"@[0] != "npm"@[0]);
        assert("bun"@.len() != "yarn"@.len());
        assert("npm"@.len() != "yarn"@.len());
    }
}

/// A choice saved as the default is the one preselected next time: mapping its
/// preselected position back gives it again.
pub proof fn saved_choices_are_preselected(
    t: Toolchain,
    l: TestLanguage,
    f: RustFramework,
    s: TypeScriptSdk,
    p: Template,
)
    ensures
        (if toolchain_index_spec(Some(t.spec_name())) == 0 {
            Toolchain::Solana
        } else {
            Toolchain::Upstream
        }) == t,
        (if test_language_index_spec(Some(l.spec_name())) == 1 {
            TestLanguage::Rust
        } else if test_language_index_spec(Some(l.spec_name())) == 2 {
            TestLanguage::TypeScript
        } else {
            TestLanguage::NoTests
        }) == l,
        (if rust_framework_index_spec(Some(f.spec_name())) == 1 {
            RustFramework::Mollusk
        } else {
            RustFramework::QuasarSVM
        }) == f,
        (if ts_sdk_index_spec(Some(s.spec_name())) == 1 {
            TypeScriptSdk::Web3js
        } else {
            TypeScriptSdk::Kit
        }) == s,
        (if template_index_spec(Some(p.spec_name())) == 0 {
            Template::Minimal
        } else {
            Template::Full
        }) == p,
{
    reveal_strlit("solana");
    reveal_strlit("upstream");
    reveal_strlit("none");
    reveal_strlit("rust");
    reveal_strlit("typescript");
    reveal_strlit("quasar-svm");
    reveal_strlit("mollusk");
    reveal_strlit("kit");
    reveal_strlit("web3.js");
    reveal_strlit("minimal");
    reveal_strlit("full");
    assert("solana"@ != "upstream"@) by {
        assert("solana"@.len() != "upstream"@.len());
    }
    assert("rust"@ != "none"@ && "rust"@ != "typescript"@ && "none"@ != "typescript"@) by {
        assert("rust"@[0] != "none"@[0]);
        assert("rust"@.len() != "typescript"@.len());
        assert("none"@.len() != "typescript"@.len());
    }
    assert("quasar-svm"@ != "mollusk"@) by {
        assert("quasar-svm"@.len() != "mollusk"@.len());
    }
    assert("kit"@ != "web3.js"@) by {
        assert("kit"@.len() != "web3.js"@.len());
    }
    assert("minimal"@ != "full"@) by {
        assert("minimal"@.len() != "full"@.len());
    }
}


/// What `init` remembers is what the next `init` without flags preselects: each saved
/// choice maps back to the same choice, and so does the saved git setup.
pub proof fn remembered_config_preselects(
    r: GlobalConfig,
    t: Toolchain,
    l: TestLanguage,
    p: Template,
    g: GitSetup,
)
    requires
        opt_view(r.defaults.toolchain) == Some(t.spec_name()),
        opt_view(r.defaults.test_language) == Some(l.spec_name()),
        opt_view(r.defaults.template) == Some(p.spec_name()),
        opt_view(r.defaults.git) == Some(g.spec_name()),
    ensures
        (if toolchain_index_spec(first_of(None, opt_view(r.defaults.toolchain))) == 0 {
            Toolchain::Solana
        } else {
            Toolchain::Upstream
        }) == t,
        (if test_language_index_spec(first_of(None, opt_view(r.defaults.test_language))) == 1 {
            TestLanguage::Rust
        } else if test_language_index_spec(first_of(None, opt_view(r.defaults.test_language)))
            == 2 {
            TestLanguage::TypeScript
        } else {
            TestLanguage::NoTests
        }) == l,
        (if template_index_spec(first_of(None, opt_view(r.defaults.template))) == 0 {
            Template::Minimal
        } else {
            Template::Full
        }) == p,
        GitSetup::spec_from_config(opt_view(r.defaults.git)) == g,
{
    saved_choices_are_preselected(t, l, RustFramework::QuasarSVM, TypeScriptSdk::Kit, p);
    git_setup_name_round_trip(g);
}

} // verus!
