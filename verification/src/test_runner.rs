//! How `quasar test` builds the argument list of the configured test command.

use vstd::prelude::*;
use crate::text::{chars_eq_str, chars_of, split_on, split_on_char, str_eq, string_from};

verus! {

broadcast use vstd::string::group_string_axioms;

/// A program and its arguments.
pub struct CommandSpec {
    pub program: String,
    pub args: Vec<String>,
}

/// The characters of each string.
pub open spec fn views(v: Seq<String>) -> Seq<Seq<char>> {
    v.map_values(|s: String| s@)
}

impl CommandSpec {
    /// A command from a program name and its arguments.
    pub fn new(program: &str, args: &[&str]) -> (r: CommandSpec)
        ensures
            r.program@ == program@,
            views(r.args@) == args@.map_values(|a: &str| a@),
    {
        let mut v: Vec<String> = Vec::new();
        let n = args.len();
        let mut i: usize = 0;
        while i < n
            invariant
                n == args@.len(),
                i <= n,
                views(v@) == args@.map_values(|a: &str| a@).take(i as int),
            decreases n - i,
        {
            let ghost before = v@;
            let s = string_from(args[i]);
            v.push(s);
            assert(v@ == before.push(s));
            assert(views(v@) =~= views(before).push(s@));
            assert(args@.map_values(|a: &str| a@).take(i + 1) =~= args@.map_values(
                |a: &str| a@,
            ).take(i as int).push(args@[i as int]@));
            i = i + 1;
        }
        assert(args@.map_values(|a: &str| a@).take(n as int) == args@.map_values(|a: &str| a@));
        CommandSpec { program: string_from(program), args: v }
    }
}

/// A path segment that names something: neither empty (repeated or trailing `/`) nor `.`.
pub open spec fn names_something(seg: Seq<char>) -> bool {
    seg.len() > 0 && seg != "."@
}

/// The last segment of `segs` that names something.
pub open spec fn last_named(segs: Seq<Seq<char>>) -> Option<Seq<char>>
    decreases segs.len(),
{
    if segs.len() == 0 {
        None
    } else if names_something(segs.last()) {
        Some(segs.last())
    } else {
        last_named(segs.drop_last())
    }
}

/// `Path::file_name` on a `/`-separated path: its last normal component, none when the path
/// ends in `..` or has no component.
pub open spec fn file_name_of(path: Seq<char>) -> Option<Seq<char>> {
    match last_named(split_on(path, '/')) {
        Some(n) => if n == ".."@ {
            None
        } else {
            Some(n)
        },
        None => None,
    }
}

/// The program is cargo, possibly given by a path.
pub open spec fn is_cargo(program: Seq<char>) -> bool {
    match file_name_of(program) {
        Some(n) => n == "cargo"@ || n == "cargo.exe"@,
        None => false,
    }
}

/// Whether `program` is cargo: its file name is `cargo` or `cargo.exe`.
pub fn is_cargo_program(program: &str) -> (r: bool)
    ensures
        r == is_cargo(program@),
{
    let chars = chars_of(program);
    let segs = split_on_char(&chars, '/');
    let ghost ss = segs@.map_values(|l: Vec<char>| l@);
    let mut k: usize = segs.len();
    assert(ss.take(k as int) == ss);
    while k > 0
        invariant
            k <= segs@.len(),
            ss == segs@.map_values(|l: Vec<char>| l@),
            ss == split_on(program@, '/'),
            last_named(ss) == last_named(ss.take(k as int)),
        decreases k,
    {
        let seg = &segs[k - 1];
        proof {
            assert(ss.take(k as int).last() == seg@);
            assert(ss.take(k as int).drop_last() == ss.take(k - 1));
        }
        if seg.len() > 0 && !chars_eq_str(seg, ".") {
            if chars_eq_str(seg, "..") {
                return false;
            }
            return chars_eq_str(seg, "cargo") || chars_eq_str(seg, "cargo.exe");
        }
        k = k - 1;
    }
    false
}

/// The index of the first `--` among `args`.
pub open spec fn separator_index(args: Seq<Seq<char>>) -> Option<int>
    decreases args.len(),
{
    if args.len() == 0 {
        None
    } else if args[0] == "--"@ {
        Some(0)
    } else {
        match separator_index(args.drop_first()) {
            Some(i) => Some(i + 1),
            None => None,
        }
    }
}

/// The arguments of a test run. For cargo, the filter goes before an existing `--`
/// (or at the end), and `--show-output` goes right after the `--` (adding one when there is
/// none), so that arguments meant for the test binary keep their order. Other runners get
/// the filter as `-t <filter>`.
pub open spec fn test_args_spec(
    program: Seq<char>,
    args: Seq<Seq<char>>,
    filter: Option<Seq<char>>,
    show_output: bool,
) -> Seq<Seq<char>> {
    if is_cargo(program) {
        let sep = separator_index(args);
        let (with_filter, sep2) = match filter {
            Some(p) => match sep {
                Some(i) => (args.insert(i, p), Some(i + 1)),
                None => (args.push(p), None),
            },
            None => (args, sep),
        };
        if show_output {
            match sep2 {
                Some(j) => with_filter.insert(j + 1, "--show-output"@),
                None => with_filter.push("--"@).push("--show-output"@),
            }
        } else {
            with_filter
        }
    } else {
        match filter {
            Some(p) => args.push("-t"@).push(p),
            None => args,
        }
    }
}

proof fn lemma_separator_index(args: Seq<Seq<char>>, k: int)
    requires
        0 <= k <= args.len(),
        forall|j: int| 0 <= j < k ==> args[j] != "--"@,
        k < args.len() ==> args[k] == "--"@,
    ensures
        separator_index(args) == if k < args.len() {
            Some(k)
        } else {
            None::<int>
        },
    decreases args.len(),
{
    if args.len() > 0 && k > 0 {
        assert forall|j: int| 0 <= j < k - 1 implies args.drop_first()[j] != "--"@ by {
            assert(args.drop_first()[j] == args[j + 1]);
        }
        lemma_separator_index(args.drop_first(), k - 1);
    }
}

fn find_separator(args: &Vec<String>) -> (r: Option<usize>)
    ensures
        match r {
            Some(i) => separator_index(views(args@)) == Some(i as int) && i < args@.len(),
            None => separator_index(views(args@)) is None,
        },
{
    let n = args.len();
    let mut i: usize = 0;
    while i < n
        invariant
            n == args@.len(),
            i <= n,
            forall|j: int| 0 <= j < i ==> views(args@)[j] != "--"@,
        decreases n - i,
    {
        if str_eq(args[i].as_str(), "--") {
            proof {
                lemma_separator_index(views(args@), i as int);
            }
            return Some(i);
        }
        i = i + 1;
    }
    proof {
        lemma_separator_index(views(args@), n as int);
    }
    None
}

fn clone_strings(v: &Vec<String>) -> (r: Vec<String>)
    ensures
        r@ == v@,
{
    let mut out: Vec<String> = Vec::new();
    let n = v.len();
    let mut i: usize = 0;
    while i < n
        invariant
            n == v@.len(),
            i <= n,
            out@ == v@.take(i as int),
        decreases n - i,
    {
        out.push(v[i].clone());
        assert(out@ == v@.take(i + 1));
        i = i + 1;
    }
    assert(v@.take(n as int) == v@);
    out
}

/// The arguments for running the configured test command, with an optional name filter
/// and `--show-output` (see [`test_args_spec`]).
pub fn test_command_args(test_cmd: &CommandSpec, filter: Option<&str>, show_output: bool) -> (r: Vec<
    String,
>)
    ensures
        views(r@) == test_args_spec(
            test_cmd.program@,
            views(test_cmd.args@),
            match filter {
                Some(p) => Some(p@),
                None => None,
            },
            show_output,
        ),
{
    let mut args = clone_strings(&test_cmd.args);
    if is_cargo_program(test_cmd.program.as_str()) {
        let mut separator = find_separator(&args);
        let len0 = args.len();
        match filter {
            Some(pattern) => {
                match separator {
                    Some(index) => {
                        assert(index < len0);
                        args.insert(index, string_from(pattern));
                        separator = Some(index + 1);
                    },
                    None => {
                        args.push(string_from(pattern));
                    },
                }
            },
            None => {},
        }
        assert(separator matches Some(j) ==> j < args@.len());
        if show_output {
            match separator {
                Some(index) => {
                    let len1 = args.len();
                    assert(index < len1);
                    args.insert(index + 1, string_from("--show-output"));
                },
                None => {
                    args.push(string_from("--"));
                    args.push(string_from("--show-output"));
                },
            }
        }
        proof {
            assert(views(args@) =~= test_args_spec(
                test_cmd.program@,
                views(test_cmd.args@),
                match filter {
                    Some(p) => Some(p@),
                    None => None,
                },
                show_output,
            ));
        }
    } else {
        match filter {
            Some(pattern) => {
                args.push(string_from("-t"));
                args.push(string_from(pattern));
            },
            None => {},
        }
        proof {
            assert(views(args@) =~= test_args_spec(
                test_cmd.program@,
                views(test_cmd.args@),
                match filter {
                    Some(p) => Some(p@),
                    None => None,
                },
                show_output,
            ));
        }
    }
    args
}


proof fn lemma_separator_found(args: Seq<Seq<char>>)
    ensures
        separator_index(args) matches Some(i) ==> 0 <= i < args.len() && args[i] == "--"@,
    decreases args.len(),
{
    if args.len() > 0 && args[0] != "--"@ {
        lemma_separator_found(args.drop_first());
        if let Some(i) = separator_index(args.drop_first()) {
            assert(args[i + 1] == args.drop_first()[i]);
        }
    }
}

/// With cargo and an existing `--`, the cargo arguments before it stay first and the
/// arguments after it reach the test binary unchanged and last; the filter lands just
/// before the `--` and `--show-output` just after it.
pub proof fn test_binary_args_kept(
    program: Seq<char>,
    args: Seq<Seq<char>>,
    filter: Option<Seq<char>>,
    show_output: bool,
    i: int,
)
    requires
        is_cargo(program),
        separator_index(args) == Some(i),
    ensures
        ({
            let r = test_args_spec(program, args, filter, show_output);
            let f: int = if filter is Some { 1 } else { 0 };
            let o: int = if show_output { 1 } else { 0 };
            &&& r.len() == args.len() + f + o
            &&& r.take(i) == args.take(i)
            &&& (filter matches Some(p) ==> r[i] == p)
            &&& r[i + f] == "--"@
            &&& (show_output ==> r[i + f + 1] == "--show-output"@)
            &&& r.skip(i + f + o + 1) == args.skip(i + 1)
        }),
{
    lemma_separator_found(args);
    let r = test_args_spec(program, args, filter, show_output);
    let f: int = if filter is Some { 1 } else { 0 };
    let o: int = if show_output { 1 } else { 0 };
    let w = match filter {
        Some(p) => args.insert(i, p),
        None => args,
    };
    assert(w.len() == args.len() + f);
    assert(w.take(i) =~= args.take(i));
    assert(w[i + f] == "--"@);
    assert(w.skip(i + f + 1) =~= args.skip(i + 1));
    if show_output {
        assert(r == w.insert(i + f + 1, "--show-output"@));
        assert(r.take(i) =~= w.take(i));
        assert(r.skip(i + f + o + 1) =~= w.skip(i + f + 1));
        if let Some(p) = filter {
            assert(r[i] == w[i]);
        }
    } else {
        assert(r == w);
    }
}

/// With cargo and no `--` among the arguments, a filter is appended to the arguments as
/// they are, whether or not output is shown, and showing output then appends
/// `-- --show-output`; other runners get `-t <filter>` appended and show no output flag.
pub proof fn filter_always_reaches_the_runner(
    program: Seq<char>,
    args: Seq<Seq<char>>,
    filter: Option<Seq<char>>,
    show_output: bool,
)
    requires
        forall|j: int| 0 <= j < args.len() ==> args[j] != "--"@,
    ensures
        is_cargo(program) ==> test_args_spec(program, args, filter, show_output) == args + (
        match filter {
            Some(p) => seq![p],
            None => seq![],
        }) + (if show_output {
            seq!["--"@, "--show-output"@]
        } else {
            seq![]
        }),
        !is_cargo(program) ==> test_args_spec(program, args, filter, show_output) == args + (
        match filter {
            Some(p) => seq!["-t"@, p],
            None => seq![],
        }),
{
    lemma_separator_index(args, args.len() as int);
    let r = test_args_spec(program, args, filter, show_output);
    if is_cargo(program) {
        assert(r =~= args + (match filter {
            Some(p) => seq![p],
            None => seq![],
        }) + (if show_output {
            seq!["--"@, "--show-output"@]
        } else {
            seq![]
        }));
    } else {
        assert(r =~= args + (match filter {
            Some(p) => seq!["-t"@, p],
            None => seq![],
        }));
    }
}

/// Which tests `quasar test` runs.
#[derive(Clone, Copy, Debug, PartialEq, Eq, Structural)]
pub enum TestSuite {
    TypeScript,
    Rust,
    NotConfigured,
}

/// The tests `quasar test` runs: TypeScript tests when configured, else Rust tests, else
/// none (and a warning).
pub fn test_suite(has_typescript: bool, has_rust: bool) -> (r: TestSuite)
    ensures
        r == if has_typescript {
            TestSuite::TypeScript
        } else if has_rust {
            TestSuite::Rust
        } else {
            TestSuite::NotConfigured
        },
{
    if has_typescript {
        TestSuite::TypeScript
    } else if has_rust {
        TestSuite::Rust
    } else {
        TestSuite::NotConfigured
    }
}

/// The install and test commands of TypeScript tests: the configured ones, else
/// `npm install` and `npx vitest run`.
pub fn typescript_commands(configured: Option<(CommandSpec, CommandSpec)>) -> (r: (
    CommandSpec,
    CommandSpec,
))
    ensures
        match configured {
            Some(c) => r == c,
            None => {
                &&& r.0.program@ == "npm"@
                &&& views(r.0.args@) == seq!["install"@]
                &&& r.1.program@ == "npx"@
                &&& views(r.1.args@) == seq!["vitest"@, "run"@]
            },
        },
{
    match configured {
        Some(c) => c,
        None => {
            let install = CommandSpec::new("npm", &["install"]);
            let test = CommandSpec::new("npx", &["vitest", "run"]);
            (install, test)
        },
    }
}

/// The test command of Rust tests: the configured one, else `cargo test tests::`.
pub fn rust_test_command(configured: Option<CommandSpec>) -> (r: CommandSpec)
    ensures
        match configured {
            Some(c) => r == c,
            None => r.program@ == "cargo"@ && views(r.args@) == seq!["test"@, "tests::"@],
        },
{
    match configured {
        Some(c) => c,
        None => CommandSpec::new("cargo", &["test", "tests::"]),
    }
}

} // verus!
