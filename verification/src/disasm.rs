//! `quasar dump`: the `llvm-objdump` invocation, how its output is judged and summed up,
//! and the messages it fails with.

use vstd::prelude::*;
use crate::style::{dim, wrapped};
use crate::text::{
    append_decimal, append_str, chars_of, decimal, sep_pos, string_from, trim_chars, trim_spec,
};
use crate::test_runner::views;

verus! {

broadcast use vstd::string::group_string_axioms;

/// The arguments of `llvm-objdump`: disassemble, demangle, no raw bytes; interleaved
/// source when asked; one symbol when asked; then the program.
pub open spec fn objdump_args_spec(source: bool, function: Option<Seq<char>>, so_path: Seq<char>) -> Seq<
    Seq<char>,
> {
    seq!["-d"@, "-C"@, "--no-show-raw-insn"@] + (if source {
        seq!["-S"@]
    } else {
        seq![]
    }) + (match function {
        Some(f) => seq!["--disassemble-symbols="@ + f],
        None => seq![],
    }) + seq![so_path]
}

fn push_str(v: &mut Vec<String>, s: String)
    ensures
        views(final(v)@) == views(old(v)@).push(s@),
{
    let ghost x = s@;
    v.push(s);
    assert(views(v@) =~= views(old(v)@).push(x));
}

/// The arguments of `llvm-objdump`.
pub fn objdump_args(source: bool, function: Option<&str>, so_path: &str) -> (r: Vec<String>)
    ensures
        views(r@) == objdump_args_spec(
            source,
            match function {
                Some(f) => Some(f@),
                None => None,
            },
            so_path@,
        ),
{
    let mut v: Vec<String> = Vec::new();
    push_str(&mut v, string_from("-d"));
    push_str(&mut v, string_from("-C"));
    push_str(&mut v, string_from("--no-show-raw-insn"));
    if source {
        push_str(&mut v, string_from("-S"));
    }
    match function {
        Some(f) => {
            let mut a = string_from("--disassemble-symbols=");
            append_str(&mut a, f);
            push_str(&mut v, a);
        },
        None => {},
    }
    push_str(&mut v, string_from(so_path));
    assert(views(v@) =~= objdump_args_spec(
        source,
        match function {
            Some(f) => Some(f@),
            None => None,
        },
        so_path@,
    ));
    v
}

/// The objdump arguments always start `-d -C --no-show-raw-insn` and end with the
/// program; `-S` comes right after those three exactly when source is asked for,
/// whether or not one function is picked; a picked function adds
/// `--disassemble-symbols=<f>` just before the program. Nothing else is passed.
pub proof fn objdump_args_shape(source: bool, function: Option<Seq<char>>, so_path: Seq<char>)
    ensures
        ({
            let a = objdump_args_spec(source, function, so_path);
            let s: int = if source { 1 } else { 0 };
            let f: int = if function is Some { 1 } else { 0 };
            &&& a.len() == 4 + s + f
            &&& a[0] == "-d"@ && a[1] == "-C"@ && a[2] == "--no-show-raw-insn"@
            &&& (source ==> a[3] == "-S"@)
            &&& (function matches Some(x) ==> a[3 + s] == "--disassemble-symbols="@ + x)
            &&& a[a.len() - 1] == so_path
        }),
{
}

/// An ASCII hexadecimal digit.
pub open spec fn is_hex(c: char) -> bool {
    ('0' <= c && c <= '9') || ('a' <= c && c <= 'f') || ('A' <= c && c <= 'F')
}

/// Every character is an ASCII hexadecimal digit.
pub open spec fn all_hex(s: Seq<char>) -> bool {
    forall|i: int| 0 <= i < s.len() ==> is_hex(#[trigger] s[i])
}

/// A line of the disassembly is an instruction when, once trimmed, the text before its
/// first `:` (all of it when there is none) is a non-empty run of hex digits, spaces
/// around it aside.
pub open spec fn is_instruction_line(line: Seq<char>) -> bool {
    let t = trim_spec(line);
    let addr = t.take(sep_pos(t, ':') as int);
    addr.len() > 0 && all_hex(trim_spec(addr))
}

/// The number of instruction lines.
pub open spec fn instruction_count_spec(lines: Seq<Seq<char>>) -> nat
    decreases lines.len(),
{
    if lines.len() == 0 {
        0
    } else {
        instruction_count_spec(lines.drop_last()) + if is_instruction_line(lines.last()) {
            1nat
        } else {
            0nat
        }
    }
}

/// Counting instruction lines adds up over a split of the output, and counts no more
/// lines than there are.
pub proof fn instruction_count_adds_up(a: Seq<Seq<char>>, b: Seq<Seq<char>>)
    ensures
        instruction_count_spec(a + b) == instruction_count_spec(a) + instruction_count_spec(b),
        instruction_count_spec(a) <= a.len(),
    decreases b.len(),
{
    if b.len() > 0 {
        instruction_count_adds_up(a, b.drop_last());
        assert((a + b).drop_last() =~= a + b.drop_last());
        assert((a + b).last() == b.last());
    } else {
        assert(a + b =~= a);
        lemma_count_bounded(a);
    }
}

proof fn lemma_count_bounded(a: Seq<Seq<char>>)
    ensures
        instruction_count_spec(a) <= a.len(),
    decreases a.len(),
{
    if a.len() > 0 {
        lemma_count_bounded(a.drop_last());
    }
}

fn is_instruction(line: &Vec<char>) -> (r: bool)
    ensures
        r == is_instruction_line(line@),
{
    let t = trim_chars(line);
    let n = t.len();
    let mut k: usize = 0;
    while k < n && t[k] != ':'
        invariant
            n == t@.len(),
            k <= n,
            forall|j: int| 0 <= j < k ==> t@[j] != ':',
        decreases n - k,
    {
        k = k + 1;
    }
    proof {
        crate::text::lemma_sep_pos_exact(t@, ':', k as int);
    }
    if k == 0 {
        return false;
    }
    let mut addr: Vec<char> = Vec::new();
    let mut i: usize = 0;
    while i < k
        invariant
            k <= n,
            n == t@.len(),
            i <= k,
            addr@ == t@.take(i as int),
        decreases k - i,
    {
        addr.push(t[i]);
        i = i + 1;
    }
    let a = trim_chars(&addr);
    assert(addr@ == t@.take(k as int));
    assert(addr@ == trim_spec(line@).take(sep_pos(trim_spec(line@), ':') as int));
    assert(a@ == trim_spec(addr@));
    let m = a.len();
    let mut j: usize = 0;
    while j < m
        invariant
            m == a@.len(),
            j <= m,
            forall|x: int| 0 <= x < j ==> is_hex(#[trigger] a@[x]),
            a@ == trim_spec(addr@),
            addr@ == trim_spec(line@).take(sep_pos(trim_spec(line@), ':') as int),
            addr@.len() > 0,
        decreases m - j,
    {
        let c = a[j];
        if !(('0' <= c && c <= '9') || ('a' <= c && c <= 'f') || ('A' <= c && c <= 'F')) {
            assert(!is_hex(a@[j as int]));
            return false;
        }
        j = j + 1;
    }
    true
}

/// The number of instruction lines in the disassembly.
pub fn instruction_count(lines: &Vec<Vec<char>>) -> (r: usize)
    ensures
        r == instruction_count_spec(lines@.map_values(|l: Vec<char>| l@)),
{
    let ghost ls = lines@.map_values(|l: Vec<char>| l@);
    let n = lines.len();
    let mut count: usize = 0;
    let mut i: usize = 0;
    while i < n
        invariant
            n == lines@.len(),
            ls == lines@.map_values(|l: Vec<char>| l@),
            i <= n,
            count == instruction_count_spec(ls.take(i as int)),
            count <= i,
        decreases n - i,
    {
        proof {
            assert(ls.take(i + 1).drop_last() =~= ls.take(i as int));
            assert(ls.take(i + 1).last() == lines@[i as int]@);
        }
        if is_instruction(&lines[i]) {
            count = count + 1;
        }
        i = i + 1;
    }
    assert(ls.take(n as int) =~= ls);
    count
}

/// Why the disassembly is refused, if it is: no line at all, or, for one symbol, at most
/// two lines (the symbol was not found).
pub open spec fn disassembly_error_spec(n_lines: nat, function: Option<Seq<char>>) -> Option<Seq<char>> {
    if n_lines == 0 || (function.is_some() && n_lines <= 2) {
        match function {
            Some(f) => Some(
                "symbol not found: "@ + f + "\n  Try a mangled or partial name, e.g. 'entrypoint'"@,
            ),
            None => Some("no disassembly output"@),
        }
    } else {
        None
    }
}

/// The whole program's disassembly is accepted whenever it has a line; one symbol's
/// only when it has more than two lines.
pub proof fn disassembly_accepted_when(n_lines: nat, function: Option<Seq<char>>)
    ensures
        function is None ==> (disassembly_error_spec(n_lines, function) is None <==> n_lines > 0),
        function is Some ==> (disassembly_error_spec(n_lines, function) is None <==> n_lines > 2),
{
}

/// Why the disassembly of `n_lines` lines is refused, if it is.
pub fn disassembly_error(n_lines: usize, function: Option<&str>) -> (r: Option<String>)
    ensures
        match disassembly_error_spec(
            n_lines as nat,
            match function {
                Some(f) => Some(f@),
                None => None,
            },
        ) {
            Some(m) => r matches Some(s) && s@ == m,
            None => r is None,
        },
{
    if n_lines == 0 || (function.is_some() && n_lines <= 2) {
        match function {
            Some(f) => {
                let mut s = string_from("symbol not found: ");
                append_str(&mut s, f);
                append_str(&mut s, "\n  Try a mangled or partial name, e.g. 'entrypoint'");
                Some(s)
            },
            None => Some(string_from("no disassembly output")),
        }
    } else {
        None
    }
}

/// The summary printed after the disassembly.
pub open spec fn summary_spec(count: nat, path: Seq<char>, enabled: bool) -> Seq<char> {
    "\n  "@ + wrapped(enabled, "\x1b[2m"@, "sBPF"@) + " "@ + decimal(count) + " instructions ("@
        + wrapped(enabled, "\x1b[2m"@, path) + ")"@
}

/// The summary printed after the disassembly.
pub fn summary_line(count: u64, path: &str, enabled: bool) -> (r: String)
    ensures
        r@ == summary_spec(count as nat, path@, enabled),
{
    let mut s = string_from("\n  ");
    append_str(&mut s, dim("sBPF", enabled).as_str());
    append_str(&mut s, " ");
    append_decimal(&mut s, count);
    append_str(&mut s, " instructions (");
    append_str(&mut s, dim(path, enabled).as_str());
    append_str(&mut s, ")");
    s
}

/// The error of a failed `llvm-objdump`: its trimmed stderr under a heading, or the heading
/// alone when stderr is blank.
pub open spec fn objdump_failure_spec(stderr: Seq<char>) -> Seq<char> {
    if trim_spec(stderr).len() == 0 {
        "llvm-objdump failed"@
    } else {
        "llvm-objdump failed\n"@ + trim_spec(stderr)
    }
}

/// The error of a failed `llvm-objdump`.
pub fn objdump_failure_message(stderr: &str) -> (r: String)
    ensures
        r@ == objdump_failure_spec(stderr@),
{
    let c = chars_of(stderr);
    let t = trim_chars(&c);
    if t.len() == 0 {
        string_from("llvm-objdump failed")
    } else {
        let mut s = string_from("llvm-objdump failed\n");
        crate::text::append_chars(&mut s, &t);
        s
    }
}

} // verus!
