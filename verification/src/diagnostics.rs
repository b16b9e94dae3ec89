use vstd::prelude::*;
use crate::text::{
    append_char, append_chars, append_decimal, append_str, chars_contain_str, chars_of,
    chars_start_with_str, decimal, has_infix, has_prefix, lines_of, lines_spec, string_from,
    string_of,
};

verus! {

broadcast use vstd::string::group_string_axioms;

/// Cargo's summary and alias chatter, which is never shown as a diagnostic.
pub open spec fn is_noise(line: Seq<char>) -> bool {
    has_infix(line, "warnings emitted"@) || has_infix(line, "warning emitted"@) || has_infix(
        line,
        "user-defined alias"@,
    ) || has_infix(line, "shadowing"@)
}

/// A line that opens a diagnostic: one starting with `warning`, or, when `errors` is set,
/// one starting with `error`.
pub open spec fn opens_diagnostic(line: Seq<char>, errors: bool) -> bool {
    has_prefix(line, "warning"@) || (errors && has_prefix(line, "error"@))
}

/// A line that continues the diagnostic before it: indented, a ` -->` location, a blank
/// line, or, when `errors` is set, a `Caused by:` line.
pub open spec fn continues_diagnostic(line: Seq<char>, errors: bool) -> bool {
    has_prefix(line, "  "@) || has_prefix(line, " -->"@) || (errors && has_prefix(
        line,
        "Caused by:"@,
    )) || line.len() == 0
}

/// One step of the scan over cargo's stderr: the kept lines so far, and whether the
/// current line belongs to a diagnostic being captured.
pub open spec fn scan_step(
    state: (Seq<Seq<char>>, bool),
    line: Seq<char>,
    errors: bool,
) -> (Seq<Seq<char>>, bool) {
    if opens_diagnostic(line, errors) {
        if is_noise(line) {
            state
        } else {
            (state.0.push(line), true)
        }
    } else if state.1 {
        if continues_diagnostic(line, errors) {
            (state.0.push(line), true)
        } else {
            (state.0, false)
        }
    } else {
        state
    }
}

/// The scan over all `lines`, from the first to the last.
pub open spec fn scan(lines: Seq<Seq<char>>, errors: bool) -> (Seq<Seq<char>>, bool)
    decreases lines.len(),
{
    if lines.len() == 0 {
        (seq![], false)
    } else {
        scan_step(scan(lines.drop_last(), errors), lines.last(), errors)
    }
}

/// The warning lines (with their continuation lines) of cargo's stderr.
pub open spec fn warnings_of(stderr: Seq<char>) -> Seq<Seq<char>> {
    scan(lines_spec(stderr), false).0
}

/// The error and warning lines (with their continuation lines) of cargo's stderr.
pub open spec fn diagnostics_of(stderr: Seq<char>) -> Seq<Seq<char>> {
    scan(lines_spec(stderr), true).0
}

/// Number of lines in `lines` that start with `p`.
pub open spec fn count_prefixed(lines: Seq<Seq<char>>, p: Seq<char>) -> nat
    decreases lines.len(),
{
    if lines.len() == 0 {
        0
    } else {
        count_prefixed(lines.drop_last(), p) + if has_prefix(lines.last(), p) {
            1nat
        } else {
            0nat
        }
    }
}

/// `"{n} {noun}"`, with an `s` added unless `n` is one.
pub open spec fn counted(n: nat, noun: Seq<char>) -> Seq<char> {
    decimal(n) + " "@ + noun + if n == 1 {
        ""@
    } else {
        "s"@
    }
}

/// The summary in parentheses after a failed build, such as `2 errors, 1 warning`.
pub open spec fn summary_of(errors: nat, warnings: nat) -> Seq<char> {
    let e = if errors > 0 {
        counted(errors, "error"@)
    } else {
        ""@
    };
    if warnings > 0 {
        if e.len() > 0 {
            e + ", "@ + counted(warnings, "warning"@)
        } else {
            counted(warnings, "warning"@)
        }
    } else {
        e
    }
}

/// `a` can be read out of `b` by dropping lines, without reordering.
pub open spec fn is_subsequence(a: Seq<Seq<char>>, b: Seq<Seq<char>>) -> bool
    decreases b.len(),
{
    if a.len() == 0 {
        true
    } else if b.len() == 0 {
        false
    } else {
        (a.last() == b.last() && is_subsequence(a.drop_last(), b.drop_last())) || is_subsequence(
            a,
            b.drop_last(),
        )
    }
}

proof fn lemma_subsequence_push(a: Seq<Seq<char>>, b: Seq<Seq<char>>, x: Seq<char>)
    requires
        is_subsequence(a, b),
    ensures
        is_subsequence(a, b.push(x)),
        is_subsequence(a.push(x), b.push(x)),
{
    assert(b.push(x).drop_last() =~= b);
    assert(a.push(x).drop_last() =~= a);
    if a.len() > 0 {
        assert(is_subsequence(a, b.push(x)));
    }
}

proof fn lemma_scan_warnings_within_diagnostics(lines: Seq<Seq<char>>)
    ensures
        scan(lines, false).1 ==> scan(lines, true).1,
        is_subsequence(scan(lines, false).0, scan(lines, true).0),
    decreases lines.len(),
{
    if lines.len() > 0 {
        let l = lines.last();
        lemma_scan_warnings_within_diagnostics(lines.drop_last());
        let w = scan(lines.drop_last(), false);
        let d = scan(lines.drop_last(), true);
        lemma_subsequence_push(w.0, d.0, l);
        if !opens_diagnostic(l, false) && opens_diagnostic(l, true) && w.1 {
            // An `error` line ends a captured warning.
            reveal_strlit("  ");
            reveal_strlit(" -->");
            reveal_strlit("error");
            assert(l.take(5)[0] == l[0]);
            assert("error"@[0] == 'e');
            if has_prefix(l, "  "@) {
                assert(l.take(2)[0] == l[0]);
                assert("  "@[0] == ' ');
            }
            if has_prefix(l, " -->"@) {
                assert(l.take(4)[0] == l[0]);
                assert(" -->"@[0] == ' ');
            }
            assert(!continues_diagnostic(l, false));
        }
    }
}

/// Every warning line shown after a successful build is also in the report of a failed
/// build, in the same order.
pub proof fn shown_warnings_are_reported(stderr: Seq<char>)
    ensures
        is_subsequence(warnings_of(stderr), diagnostics_of(stderr)),
{
    lemma_scan_warnings_within_diagnostics(lines_spec(stderr));
}

/// Each line followed by a line feed, all concatenated.
pub open spec fn joined_lines(lines: Seq<Seq<char>>) -> Seq<char>
    decreases lines.len(),
{
    if lines.len() == 0 {
        seq![]
    } else {
        joined_lines(lines.drop_last()) + lines.last() + "\n"@
    }
}

/// The message shown for a failed build, given cargo's stderr and the rendered elapsed time.
pub open spec fn build_failure_message(stderr: Seq<char>, elapsed: Seq<char>) -> Seq<char> {
    let diags = diagnostics_of(stderr);
    if diags.len() == 0 {
        if stderr.len() > 0 {
            stderr + "\n\nbuild failed in "@ + elapsed
        } else {
            "build failed in "@ + elapsed
        }
    } else {
        joined_lines(diags) + "\n"@ + "build failed in "@ + elapsed + " ("@ + summary_of(
            count_prefixed(diags, "error"@),
            count_prefixed(diags, "warning"@),
        ) + ")"@
    }
}

fn is_noise_line(line: &Vec<char>) -> (r: bool)
    ensures
        r == is_noise(line@),
{
    chars_contain_str(line, "warnings emitted") || chars_contain_str(line, "warning emitted")
        || chars_contain_str(line, "user-defined alias") || chars_contain_str(line, "shadowing")
}

/// Runs the scan over the lines of `stderr`, keeping error lines too when `errors` is set.
fn scan_lines(stderr: &str, errors: bool) -> (r: Vec<Vec<char>>)
    ensures
        r@.map_values(|l: Vec<char>| l@) == scan(lines_spec(stderr@), errors).0,
{
    let text = chars_of(stderr);
    let lines = lines_of(&text);
    let ghost ls = lines@.map_values(|l: Vec<char>| l@);
    let mut out: Vec<Vec<char>> = Vec::new();
    let mut capture = false;
    let n = lines.len();
    let mut i: usize = 0;
    while i < n
        invariant
            n == lines@.len(),
            ls == lines@.map_values(|l: Vec<char>| l@),
            i <= n,
            (out@.map_values(|l: Vec<char>| l@), capture) == scan(ls.take(i as int), errors),
        decreases n - i,
    {
        let line = &lines[i];
        let ghost before = out@.map_values(|l: Vec<char>| l@);
        proof {
            assert(ls.take(i + 1).drop_last() == ls.take(i as int));
            assert(ls.take(i + 1).last() == line@);
        }
        let opens = chars_start_with_str(line, "warning") || (errors && chars_start_with_str(
            line,
            "error",
        ));
        if opens {
            if !is_noise_line(line) {
                out.push(line.clone());
                assert(out@.map_values(|l: Vec<char>| l@) == before.push(line@));
                capture = true;
            }
        } else if capture {
            let cont = chars_start_with_str(line, "  ") || chars_start_with_str(line, " -->") || (
            errors && chars_start_with_str(line, "Caused by:")) || line.len() == 0;
            if cont {
                out.push(line.clone());
                assert(out@.map_values(|l: Vec<char>| l@) == before.push(line@));
            } else {
                capture = false;
            }
        }
        i = i + 1;
    }
    assert(ls.take(n as int) == ls);
    out
}

/// Extract the warning lines (with the lines that continue each warning) from cargo's
/// stderr, for display after a successful build.
pub fn extract_warnings(stderr: &str) -> (r: Vec<String>)
    ensures
        r@.map_values(|l: String| l@) == warnings_of(stderr@),
{
    let kept = scan_lines(stderr, false);
    let mut out: Vec<String> = Vec::new();
    let n = kept.len();
    let mut i: usize = 0;
    while i < n
        invariant
            n == kept@.len(),
            i <= n,
            out@.map_values(|l: String| l@) == kept@.map_values(|l: Vec<char>| l@).take(i as int),
        decreases n - i,
    {
        let ghost before = out@.map_values(|l: String| l@);
        let s = string_of(&kept[i]);
        out.push(s);
        assert(out@.map_values(|l: String| l@) == before.push(kept@[i as int]@));
        assert(kept@.map_values(|l: Vec<char>| l@).take(i + 1) == kept@.map_values(
            |l: Vec<char>| l@,
        ).take(i as int).push(kept@[i as int]@));
        i = i + 1;
    }
    assert(kept@.map_values(|l: Vec<char>| l@).take(n as int) == kept@.map_values(
        |l: Vec<char>| l@,
    ));
    out
}

fn count_lines_with_prefix(lines: &Vec<Vec<char>>, p: &str) -> (r: usize)
    ensures
        r == count_prefixed(lines@.map_values(|l: Vec<char>| l@), p@),
{
    let ghost ls = lines@.map_values(|l: Vec<char>| l@);
    let n = lines.len();
    let mut k: usize = 0;
    let mut i: usize = 0;
    while i < n
        invariant
            n == lines@.len(),
            ls == lines@.map_values(|l: Vec<char>| l@),
            i <= n,
            k <= i,
            k == count_prefixed(ls.take(i as int), p@),
        decreases n - i,
    {
        proof {
            assert(ls.take(i + 1).drop_last() == ls.take(i as int));
            assert(ls.take(i + 1).last() == lines@[i as int]@);
        }
        if chars_start_with_str(&lines[i], p) {
            k = k + 1;
        }
        i = i + 1;
    }
    assert(ls.take(n as int) == ls);
    k
}

fn append_counted(s: &mut String, n: usize, noun: &str)
    ensures
        final(s)@ == old(s)@ + counted(n as nat, noun@),
{
    append_decimal(s, n as u64);
    append_str(s, " ");
    append_str(s, noun);
    if n != 1 {
        append_str(s, "s");
    } else {
        proof {
            reveal_strlit("");
        }
        assert(s@ + ""@ =~= s@);
    }
}

/// Keep only the meaningful error and warning lines of cargo's stderr, and close with a
/// line that says how long the failed build took (`elapsed`, already rendered) and how
/// many errors and warnings it had.
pub fn format_build_errors(stderr: &str, elapsed: &str) -> (r: String)
    ensures
        r@ == build_failure_message(stderr@, elapsed@),
{
    let errors = scan_lines(stderr, true);
    let ghost ds = errors@.map_values(|l: Vec<char>| l@);
    if errors.len() == 0 {
        let stderr_chars = chars_of(stderr);
        if stderr_chars.len() > 0 {
            let mut msg = string_from(stderr);
            append_str(&mut msg, "\n\nbuild failed in ");
            append_str(&mut msg, elapsed);
            return msg;
        }
        let mut msg = string_from("build failed in ");
        append_str(&mut msg, elapsed);
        return msg;
    }
    let err_count = count_lines_with_prefix(&errors, "error");
    let warn_count = count_lines_with_prefix(&errors, "warning");

    proof {
        reveal_strlit("");
        reveal_strlit("\n");
    }
    let mut summary = String::new();
    if err_count > 0 {
        append_counted(&mut summary, err_count, "error");
    }
    if warn_count > 0 {
        let sc = chars_of(summary.as_str());
        if sc.len() > 0 {
            append_str(&mut summary, ", ");
        }
        append_counted(&mut summary, warn_count, "warning");
    }
    assert(summary@ == summary_of(err_count as nat, warn_count as nat));

    let mut message = String::new();
    let n = errors.len();
    let mut i: usize = 0;
    while i < n
        invariant
            n == errors@.len(),
            ds == errors@.map_values(|l: Vec<char>| l@),
            i <= n,
            message@ == joined_lines(ds.take(i as int)),
        decreases n - i,
    {
        proof {
            reveal_strlit("\n");
            assert(ds.take(i + 1).drop_last() == ds.take(i as int));
            assert(ds.take(i + 1).last() == errors@[i as int]@);
        }
        append_chars(&mut message, &errors[i]);
        append_char(&mut message, '\n');
        assert(message@ =~= joined_lines(ds.take(i as int)) + errors@[i as int]@ + "\n"@);
        i = i + 1;
    }
    assert(ds.take(n as int) == ds);
    append_char(&mut message, '\n');
    append_str(&mut message, "build failed in ");
    append_str(&mut message, elapsed);
    append_str(&mut message, " (");
    append_str(&mut message, summary.as_str());
    append_str(&mut message, ")");
    message
}

} // verus!
