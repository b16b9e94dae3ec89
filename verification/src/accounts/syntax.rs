//! The token grammar of a field's `#[account(...)]` attribute: a comma-separated list of
//! directives, each `mut`, a bare name (`init`, `dup`), `name = value` (`payer`,
//! `address` with an optional `@ error`, `realloc`), or `name(...)` (`init(idempotent)`,
//! `allow(..)`, `has_one(..)`, `constraints(..)`, `close(dest = ..)`, or a behavior group
//! `path(key = value, ..)`).
//!
//! An expression is the run of tokens up to the next `,` or `@` at its level; it is read
//! as a path, a call of a path, a literal, or some other expression. Paths with a leading
//! `::` or with generic arguments, and closures (whose `|a, b|` holds a comma), are not
//! part of this grammar.

use vstd::prelude::*;
use crate::attr_args::{ArgToken, Delim};
use crate::accounts::model::{BehaviorArg, BehaviorGroup, ValueExpr};
use crate::accounts::directives::{
    arg_without_value_message, close_dest_not_field_message, close_without_dest_message,
    duplicate_arg_message, path_text, path_to_string, unknown_bare_message,
    unknown_init_flag_message, unknown_key_value_message,
};
use crate::text::{append_str, str_eq, string_from};

verus! {

broadcast use vstd::string::group_string_axioms;

/// A value expression as plain values.
pub enum ExprV {
    Path { qself: bool, segments: Seq<Seq<char>> },
    Call { func: Box<ExprV>, args: Seq<ExprV> },
    Lit { text: Seq<char> },
    Other,
}

pub open spec fn expr_v(e: ValueExpr) -> ExprV
    decreases e,
{
    match e {
        ValueExpr::Path { qself, segments } => ExprV::Path {
            qself,
            segments: segments@.map_values(|s: String| s@),
        },
        ValueExpr::Call { func, args } => ExprV::Call {
            func: Box::new(expr_v(*func)),
            args: exprs_v(args@),
        },
        ValueExpr::Lit { text } => ExprV::Lit { text: text@ },
        ValueExpr::Other => ExprV::Other,
    }
}

pub open spec fn exprs_v(es: Seq<ValueExpr>) -> Seq<ExprV>
    decreases es,
{
    if es.len() == 0 {
        seq![]
    } else {
        seq![expr_v(es[0])] + exprs_v(es.drop_first())
    }
}

/// A parse failure: an error this grammar words itself, or one of the token parser's own
/// (its wording is not modelled).
pub enum DirErr {
    Rule(Seq<char>),
    Syntax,
}

/// A directive as plain values.
pub enum DirectiveV {
    Mut,
    Dup,
    Init(bool),
    Payer(Seq<char>),
    Address(ExprV, Option<ExprV>),
    Realloc(ExprV),
    Close(Seq<char>),
    Behavior(Seq<Seq<char>>, Seq<(Seq<char>, ExprV)>),
    HasOne(Seq<Seq<char>>, Option<ExprV>),
    Constraints(Seq<ExprV>, Option<ExprV>),
    Allow(Seq<Seq<char>>),
}

/// The text of an identifier token.
pub open spec fn ident_text(t: ArgToken) -> Seq<char> {
    match t {
        ArgToken::Ident(x) => x@,
        _ => seq![],
    }
}

/// Where a path starting with the identifier at `i` ends (`a`, `a::b`, ...); `None` when
/// a `::` is not followed by an identifier.
pub open spec fn path_end(s: Seq<ArgToken>, i: int) -> Option<int>
    decreases s.len() - i,
{
    if i < 0 || i >= s.len() {
        None
    } else if i + 1 < s.len() && s[i + 1] is PathSep {
        if i + 2 < s.len() && s[i + 2] is Ident {
            path_end(s, i + 2)
        } else {
            None
        }
    } else {
        Some(i + 1)
    }
}

/// The segments of the path in `i .. j`: the identifiers at `i`, `i + 2`, ...
pub open spec fn path_segs(s: Seq<ArgToken>, i: int, j: int) -> Seq<Seq<char>>
    decreases j - i,
{
    if j <= i {
        seq![]
    } else if j - 2 < i {
        seq![ident_text(s[j - 1])]
    } else {
        path_segs(s, i, j - 2).push(ident_text(s[j - 1]))
    }
}

/// The end of the expression starting at `i`: the first `,` or `@` from `i` on, or the
/// end of the tokens.
pub open spec fn expr_end(s: Seq<ArgToken>, i: int) -> int
    decreases s.len() - i,
{
    if i >= s.len() || s[i] is Comma || s[i] is At {
        i
    } else {
        expr_end(s, i + 1)
    }
}

pub proof fn lemma_expr_end(s: Seq<ArgToken>, i: int)
    requires
        0 <= i <= s.len(),
    ensures
        i <= expr_end(s, i) <= s.len(),
        expr_end(s, i) < s.len() ==> (s[expr_end(s, i)] is Comma || s[expr_end(s, i)] is At),
    decreases s.len() - i,
{
    if !(i >= s.len() || s[i] is Comma || s[i] is At) {
        lemma_expr_end(s, i + 1);
    }
}

pub proof fn lemma_path_end(s: Seq<ArgToken>, i: int)
    ensures
        path_end(s, i) matches Some(j) ==> i < j <= s.len(),
    decreases s.len() - i,
{
    if 0 <= i < s.len() && i + 2 < s.len() && s[i + 1] is PathSep && s[i + 2] is Ident {
        lemma_path_end(s, i + 2);
    }
}

/// The expression in `i .. j`: nothing is no expression; a lone integer, literal, `true`
/// or `false` is a literal; a path is a path; a path followed by a parenthesized argument
/// list is a call (its arguments read by `args_spec`); anything else is another kind of
/// expression.
pub open spec fn expr_spec(s: Seq<ArgToken>, i: int, j: int) -> Option<ExprV>
    decreases s, j - i, 0int,
{
    if j <= i || i < 0 || j > s.len() {
        None
    } else if j == i + 1 && s[i] is Int {
        Some(ExprV::Lit { text: match s[i] { ArgToken::Int(d) => d@, _ => seq![] } })
    } else if j == i + 1 && s[i] is Lit {
        Some(ExprV::Lit { text: match s[i] { ArgToken::Lit(t) => t@, _ => seq![] } })
    } else if j == i + 1 && s[i] is ByteStr {
        Some(ExprV::Lit { text: match s[i] { ArgToken::ByteStr { text, bytes: _ } => text@, _ => seq![] } })
    } else if j == i + 1 && (s[i] matches ArgToken::Keyword(k) && (k@ == "true"@ || k@
        == "false"@)) {
        Some(ExprV::Lit { text: match s[i] { ArgToken::Keyword(k) => k@, _ => seq![] } })
    } else if s[i] is Ident && path_end(s, i) == Some(j) {
        Some(ExprV::Path { qself: false, segments: path_segs(s, i, j) })
    } else if s[i] is Ident && path_end(s, i) == Some(j - 1) && (s[j - 1] matches ArgToken::Group(
        d,
        _,
    ) && d == Delim::Paren) {
        match s[j - 1] {
            ArgToken::Group(_, inner) => match args_spec(inner@, 0) {
                Some(a) => Some(
                    ExprV::Call {
                        func: Box::new(ExprV::Path { qself: false, segments: path_segs(s, i, j - 1) }),
                        args: a,
                    },
                ),
                None => None,
            },
            _ => None,
        }
    } else {
        Some(ExprV::Other)
    }
}

/// A comma-separated list of expressions from `i` to the end, a trailing comma allowed;
/// `None` where one is missing or something else follows one.
pub open spec fn args_spec(c: Seq<ArgToken>, i: int) -> Option<Seq<ExprV>>
    decreases c, c.len() - i, 1int,
{
    if i < 0 || i >= c.len() {
        Some(seq![])
    } else {
        let e = expr_end(c, i);
        proof {
            lemma_expr_end(c, i);
        }
        match expr_spec(c, i, e) {
            None => None,
            Some(x) => if e >= c.len() {
                Some(seq![x])
            } else if c[e] is Comma {
                match args_spec(c, e + 1) {
                    Some(r) => Some(seq![x] + r),
                    None => None,
                }
            } else {
                None
            },
        }
    }
}

/// A comma-separated list of identifiers from `i` on, a trailing comma allowed.
pub open spec fn idents_spec(c: Seq<ArgToken>, i: int) -> Option<Seq<Seq<char>>>
    decreases c.len() - i,
{
    if i < 0 || i >= c.len() {
        Some(seq![])
    } else if !(c[i] is Ident) {
        None
    } else if i + 1 >= c.len() {
        Some(seq![ident_text(c[i])])
    } else if c[i + 1] is Comma {
        match idents_spec(c, i + 2) {
            Some(r) => Some(seq![ident_text(c[i])] + r),
            None => None,
        }
    } else {
        None
    }
}

/// Some arg before already has this key.
pub open spec fn key_taken(acc: Seq<(Seq<char>, ExprV)>, k: Seq<char>) -> bool {
    exists|m: int| 0 <= m < acc.len() && acc[m].0 == k
}

/// A group's `key = value` args from `i` on, read in order after those in `acc`: a key
/// without `= value` and a repeated key are errors.
pub open spec fn group_args_spec(c: Seq<ArgToken>, i: int, acc: Seq<(Seq<char>, ExprV)>) -> Result<
    Seq<(Seq<char>, ExprV)>,
    DirErr,
>
    decreases c.len() - i,
{
    if i < 0 || i >= c.len() {
        Ok(acc)
    } else if !(c[i] is Ident) {
        Err(DirErr::Syntax)
    } else if !(i + 1 < c.len() && c[i + 1] is Eq) {
        Err(DirErr::Rule(arg_without_value_message(ident_text(c[i]))))
    } else {
        let e = expr_end(c, i + 2);
        proof {
            lemma_expr_end(c, i + 2);
        }
        match expr_spec(c, i + 2, e) {
            None => Err(DirErr::Syntax),
            Some(x) => if key_taken(acc, ident_text(c[i])) {
                Err(DirErr::Rule(duplicate_arg_message(ident_text(c[i]))))
            } else if e >= c.len() {
                Ok(acc.push((ident_text(c[i]), x)))
            } else if c[e] is Comma {
                group_args_spec(c, e + 1, acc.push((ident_text(c[i]), x)))
            } else {
                Err(DirErr::Syntax)
            },
        }
    }
}

/// The destination of `close(..)`: the first `dest` arg, which must be a bare name.
pub open spec fn close_spec(args: Seq<(Seq<char>, ExprV)>) -> Result<Seq<char>, DirErr>
    decreases args.len(),
{
    if args.len() == 0 {
        Err(DirErr::Rule(close_without_dest_message()))
    } else if args[0].0 == "dest"@ {
        match args[0].1 {
            ExprV::Path { qself, segments } => if !qself && segments.len() == 1 {
                Ok(segments[0])
            } else {
                Err(DirErr::Rule(close_dest_not_field_message()))
            },
            _ => Err(DirErr::Rule(close_dest_not_field_message())),
        }
    } else {
        close_spec(args.drop_first())
    }
}

/// An optional `@ error` at `k`: the error expression and where it ends.
pub open spec fn trailing_spec(s: Seq<ArgToken>, k: int) -> Option<(Option<ExprV>, int)> {
    if 0 <= k < s.len() && s[k] is At {
        match expr_spec(s, k + 1, expr_end(s, k + 1)) {
            Some(x) => Some((Some(x), expr_end(s, k + 1))),
            None => None,
        }
    } else {
        Some((None, k))
    }
}

/// `name(...)` with content `c`, the tokens after it starting at `next`.
pub open spec fn group_directive_spec(
    name: Seq<char>,
    segs: Seq<Seq<char>>,
    c: Seq<ArgToken>,
    s: Seq<ArgToken>,
    next: int,
) -> Result<(DirectiveV, int), DirErr> {
    if name == "init"@ {
        if c.len() == 0 {
            Ok((DirectiveV::Init(false), next))
        } else if !(c[0] is Ident) {
            Err(DirErr::Syntax)
        } else if ident_text(c[0]) != "idempotent"@ {
            Err(DirErr::Rule(unknown_init_flag_message(ident_text(c[0]))))
        } else if c.len() == 1 {
            Ok((DirectiveV::Init(true), next))
        } else if c[1] is Comma {
            Err(DirErr::Rule("`init(idempotent)` does not accept additional arguments"@))
        } else {
            Err(DirErr::Syntax)
        }
    } else if name == "allow"@ {
        match idents_spec(c, 0) {
            Some(ids) => Ok((DirectiveV::Allow(ids), next)),
            None => Err(DirErr::Syntax),
        }
    } else if name == "has_one"@ {
        match idents_spec(c, 0) {
            Some(ids) => match trailing_spec(s, next) {
                Some((err, k)) => Ok((DirectiveV::HasOne(ids, err), k)),
                None => Err(DirErr::Syntax),
            },
            None => Err(DirErr::Syntax),
        }
    } else if name == "constraints"@ {
        match args_spec(c, 0) {
            Some(es) => match trailing_spec(s, next) {
                Some((err, k)) => Ok((DirectiveV::Constraints(es, err), k)),
                None => Err(DirErr::Syntax),
            },
            None => Err(DirErr::Syntax),
        }
    } else {
        match group_args_spec(c, 0, seq![]) {
            Err(e) => Err(e),
            Ok(args) => if name == "close"@ {
                match close_spec(args) {
                    Ok(d) => Ok((DirectiveV::Close(d), next)),
                    Err(e) => Err(e),
                }
            } else {
                Ok((DirectiveV::Behavior(segs, args), next))
            },
        }
    }
}

/// The directive starting at token `i`, and where it ends.
pub open spec fn directive_spec(s: Seq<ArgToken>, i: int) -> Result<(DirectiveV, int), DirErr> {
    if i < 0 || i >= s.len() {
        Err(DirErr::Syntax)
    } else if s[i] matches ArgToken::Keyword(k) && k@ == "mut"@ {
        Ok((DirectiveV::Mut, i + 1))
    } else if !(s[i] is Ident) {
        Err(DirErr::Syntax)
    } else {
        match path_end(s, i) {
            None => Err(DirErr::Syntax),
            Some(j) => {
                let segs = path_segs(s, i, j);
                let name = path_text(segs);
                if j < s.len() && s[j] is Eq {
                    if name == "payer"@ {
                        if j + 1 < s.len() && s[j + 1] is Ident {
                            Ok((DirectiveV::Payer(ident_text(s[j + 1])), j + 2))
                        } else {
                            Err(DirErr::Syntax)
                        }
                    } else if name == "address"@ {
                        match expr_spec(s, j + 1, expr_end(s, j + 1)) {
                            Some(x) => match trailing_spec(s, expr_end(s, j + 1)) {
                                Some((err, k)) => Ok((DirectiveV::Address(x, err), k)),
                                None => Err(DirErr::Syntax),
                            },
                            None => Err(DirErr::Syntax),
                        }
                    } else if name == "realloc"@ {
                        match expr_spec(s, j + 1, expr_end(s, j + 1)) {
                            Some(x) => Ok((DirectiveV::Realloc(x), expr_end(s, j + 1))),
                            None => Err(DirErr::Syntax),
                        }
                    } else {
                        Err(DirErr::Rule(unknown_key_value_message(name)))
                    }
                } else if j < s.len() && (s[j] matches ArgToken::Group(d, _) && d == Delim::Paren) {
                    match s[j] {
                        ArgToken::Group(_, c) => group_directive_spec(name, segs, c@, s, j + 1),
                        _ => Err(DirErr::Syntax),
                    }
                } else if name == "init"@ {
                    Ok((DirectiveV::Init(false), j))
                } else if name == "dup"@ {
                    Ok((DirectiveV::Dup, j))
                } else {
                    Err(DirErr::Rule(unknown_bare_message(name)))
                }
            },
        }
    }
}

pub proof fn lemma_directive_progress(s: Seq<ArgToken>, i: int)
    ensures
        directive_spec(s, i) matches Ok((_, j)) ==> i < j <= s.len(),
{
    if 0 <= i < s.len() && s[i] is Ident {
        lemma_path_end(s, i);
        if let Some(j) = path_end(s, i) {
            if j < s.len() {
                lemma_expr_end(s, j + 1);
                let e = expr_end(s, j + 1);
                if e < s.len() && s[e] is At {
                    lemma_expr_end(s, e + 1);
                }
                if j + 1 < s.len() && s[j + 1] is At {
                    lemma_expr_end(s, j + 2);
                }
            }
        }
    }
}

/// The directives from token `i` on, after those in `acc`: each followed by `,` or the
/// end, a trailing comma allowed.
pub open spec fn directives_spec(s: Seq<ArgToken>, i: int, acc: Seq<DirectiveV>) -> Result<
    Seq<DirectiveV>,
    DirErr,
>
    decreases s.len() - i,
{
    if i < 0 || i >= s.len() {
        Ok(acc)
    } else {
        proof {
            lemma_directive_progress(s, i);
        }
        match directive_spec(s, i) {
            Err(e) => Err(e),
            Ok((d, j)) => if j >= s.len() {
                Ok(acc.push(d))
            } else if s[j] is Comma {
                directives_spec(s, j + 1, acc.push(d))
            } else {
                Err(DirErr::Syntax)
            },
        }
    }
}

/// A parsed directive.
pub enum Directive {
    Mut,
    Dup,
    Init { idempotent: bool },
    Payer(String),
    Address(ValueExpr, Option<ValueExpr>),
    Realloc(ValueExpr),
    Close(String),
    Behavior(BehaviorGroup),
    HasOne(Vec<String>, Option<ValueExpr>),
    Constraints(Vec<ValueExpr>, Option<ValueExpr>),
    Allow(Vec<String>),
}

/// Why a directive was refused: an error this grammar words itself, or one of the token
/// parser's own.
#[derive(Debug)]
pub enum DirectiveError {
    Rule(String),
    Syntax,
}

pub open spec fn strings_v(v: Seq<String>) -> Seq<Seq<char>> {
    v.map_values(|x: String| x@)
}

pub open spec fn opt_expr_v(o: Option<ValueExpr>) -> Option<ExprV> {
    match o {
        Some(e) => Some(expr_v(e)),
        None => None,
    }
}

pub open spec fn args_v(a: Seq<BehaviorArg>) -> Seq<(Seq<char>, ExprV)> {
    a.map_values(|x: BehaviorArg| (x.key@, expr_v(x.value)))
}

pub open spec fn directive_v(d: Directive) -> DirectiveV {
    match d {
        Directive::Mut => DirectiveV::Mut,
        Directive::Dup => DirectiveV::Dup,
        Directive::Init { idempotent } => DirectiveV::Init(idempotent),
        Directive::Payer(x) => DirectiveV::Payer(x@),
        Directive::Address(e, err) => DirectiveV::Address(expr_v(e), opt_expr_v(err)),
        Directive::Realloc(e) => DirectiveV::Realloc(expr_v(e)),
        Directive::Close(x) => DirectiveV::Close(x@),
        Directive::Behavior(g) => DirectiveV::Behavior(strings_v(g.path@), args_v(g.args@)),
        Directive::HasOne(ids, err) => DirectiveV::HasOne(strings_v(ids@), opt_expr_v(err)),
        Directive::Constraints(es, err) => DirectiveV::Constraints(exprs_v(es@), opt_expr_v(err)),
        Directive::Allow(ids) => DirectiveV::Allow(strings_v(ids@)),
    }
}

pub open spec fn err_v(e: DirectiveError) -> DirErr {
    match e {
        DirectiveError::Rule(m) => DirErr::Rule(m@),
        DirectiveError::Syntax => DirErr::Syntax,
    }
}

fn is_comma(t: &ArgToken) -> (r: bool)
    ensures
        r == (*t is Comma),
{
    match t {
        ArgToken::Comma => true,
        _ => false,
    }
}

fn is_at(t: &ArgToken) -> (r: bool)
    ensures
        r == (*t is At),
{
    match t {
        ArgToken::At => true,
        _ => false,
    }
}

fn is_ident(t: &ArgToken) -> (r: bool)
    ensures
        r == (*t is Ident),
{
    match t {
        ArgToken::Ident(_) => true,
        _ => false,
    }
}

fn is_path_sep(t: &ArgToken) -> (r: bool)
    ensures
        r == (*t is PathSep),
{
    match t {
        ArgToken::PathSep => true,
        _ => false,
    }
}

fn ident_string(t: &ArgToken) -> (r: String)
    ensures
        r@ == ident_text(*t),
{
    match t {
        ArgToken::Ident(x) => x.clone(),
        _ => String::new(),
    }
}

fn expr_end_at(ts: &Vec<ArgToken>, i: usize) -> (r: usize)
    requires
        i <= ts@.len(),
    ensures
        r == expr_end(ts@, i as int),
{
    let mut k = i;
    while k < ts.len() && !is_comma(&ts[k]) && !is_at(&ts[k])
        invariant
            i <= k <= ts@.len(),
            expr_end(ts@, i as int) == expr_end(ts@, k as int),
        decreases ts@.len() - k,
    {
        k = k + 1;
    }
    k
}

/// The path starting with the identifier at `i`: where it ends and its segments.
fn path_at(ts: &Vec<ArgToken>, i: usize) -> (r: Option<(usize, Vec<String>)>)
    requires
        i < ts@.len(),
        ts@[i as int] is Ident,
    ensures
        match path_end(ts@, i as int) {
            Some(j) => r matches Some((e, segs)) && e == j && strings_v(segs@) == path_segs(
                ts@,
                i as int,
                j,
            ),
            None => r is None,
        },
{
    let n = ts.len();
    let mut segs: Vec<String> = Vec::new();
    segs.push(ident_string(&ts[i]));
    let mut k = i;
    proof {
        assert(strings_v(segs@) =~= path_segs(ts@, i as int, i + 1));
    }
    while k + 1 < n && is_path_sep(&ts[k + 1])
        invariant
            n == ts@.len(),
            i <= k < n,
            ts@[k as int] is Ident,
            path_end(ts@, i as int) == path_end(ts@, k as int),
            strings_v(segs@) == path_segs(ts@, i as int, k + 1),
        decreases n - k,
    {
        if k + 2 < n && is_ident(&ts[k + 2]) {
            let ghost before = segs@;
            segs.push(ident_string(&ts[k + 2]));
            proof {
                assert(strings_v(segs@) =~= strings_v(before).push(ident_text(ts@[k + 2])));
            }
            k = k + 2;
        } else {
            return None;
        }
    }
    Some((k + 1, segs))
}

/// The expression in `i .. j`.
fn expr_at(ts: &Vec<ArgToken>, i: usize, j: usize) -> (r: Option<ValueExpr>)
    requires
        i <= j <= ts@.len(),
    ensures
        match expr_spec(ts@, i as int, j as int) {
            Some(x) => r matches Some(e) && expr_v(e) == x,
            None => r is None,
        },
    decreases ts@, j - i, 0int,
{
    if j <= i {
        return None;
    }
    if j == i + 1 {
        match &ts[i] {
            ArgToken::Int(d) => return Some(ValueExpr::Lit { text: d.clone() }),
            ArgToken::Lit(t) => return Some(ValueExpr::Lit { text: t.clone() }),
            ArgToken::ByteStr { text, bytes: _ } => return Some(ValueExpr::Lit { text: text.clone() }),
            ArgToken::Keyword(k) => {
                if str_eq(k.as_str(), "true") || str_eq(k.as_str(), "false") {
                    return Some(ValueExpr::Lit { text: k.clone() });
                }
            },
            _ => {},
        }
    }
    if !is_ident(&ts[i]) {
        return Some(ValueExpr::Other);
    }
    proof {
        lemma_path_end(ts@, i as int);
    }
    let (e, segs) = match path_at(ts, i) {
        Some(p) => p,
        None => return Some(ValueExpr::Other),
    };
    if e == j {
        return Some(ValueExpr::Path { qself: false, segments: segs });
    }
    if e < j && e == j - 1 {
        match &ts[j - 1] {
            ArgToken::Group(Delim::Paren, inner) => {
                let args = args_at(inner, 0);
                return match args {
                    Some(a) => {
                        let ghost sv = strings_v(segs@);
                        let ghost av = exprs_v(a@);
                        let f = ValueExpr::Path { qself: false, segments: segs };
                        assert(expr_v(f) == ExprV::Path { qself: false, segments: sv });
                        let call = ValueExpr::Call { func: Box::new(f), args: a };
                        assert(expr_v(call) == ExprV::Call {
                            func: Box::new(ExprV::Path { qself: false, segments: sv }),
                            args: av,
                        });
                        Some(call)
                    },
                    None => None,
                };
            },
            _ => {},
        }
    }
    Some(ValueExpr::Other)
}

/// A comma-separated list of expressions from `i` on.
fn args_at(c: &Vec<ArgToken>, i: usize) -> (r: Option<Vec<ValueExpr>>)
    requires
        i <= c@.len(),
    ensures
        match args_spec(c@, i as int) {
            Some(x) => r matches Some(v) && exprs_v(v@) == x,
            None => r is None,
        },
    decreases c@, c@.len() - i, 1int,
{
    if i >= c.len() {
        let v: Vec<ValueExpr> = Vec::new();
        assert(exprs_v(v@) =~= seq![]);
        return Some(v);
    }
    let e = expr_end_at(c, i);
    proof {
        lemma_expr_end(c@, i as int);
    }
    let x = match expr_at(c, i, e) {
        Some(x) => x,
        None => return None,
    };
    if e >= c.len() {
        let mut v: Vec<ValueExpr> = Vec::new();
        v.push(x);
        proof {
            assert(v@.drop_first() =~= Seq::<ValueExpr>::empty());
            assert(exprs_v(v@.drop_first()) =~= seq![]);
        }
        return Some(v);
    }
    if !is_comma(&c[e]) {
        return None;
    }
    match args_at(c, e + 1) {
        Some(rest) => {
            let mut v: Vec<ValueExpr> = Vec::new();
            v.push(x);
            let ghost rv = rest@;
            let mut rest = rest;
            v.append(&mut rest);
            proof {
                assert(v@.drop_first() =~= rv);
                assert(v@[0] == x);
            }
            Some(v)
        },
        None => None,
    }
}

fn idents_at(c: &Vec<ArgToken>) -> (r: Option<Vec<String>>)
    ensures
        match idents_spec(c@, 0) {
            Some(x) => r matches Some(v) && strings_v(v@) == x,
            None => r is None,
        },
{
    let n = c.len();
    let mut out: Vec<String> = Vec::new();
    let mut i: usize = 0;
    while i < n
        invariant
            n == c@.len(),
            i <= n,
            match idents_spec(c@, i as int) {
                Some(rest) => idents_spec(c@, 0) == Some(strings_v(out@) + rest),
                None => idents_spec(c@, 0) is None,
            },
        decreases n - i,
    {
        if !is_ident(&c[i]) {
            return None;
        }
        let ghost before = out@;
        out.push(ident_string(&c[i]));
        proof {
            assert(strings_v(out@) =~= strings_v(before).push(ident_text(c@[i as int])));
        }
        if i + 1 >= n {
            proof {
                assert(strings_v(out@) =~= strings_v(before) + seq![ident_text(c@[i as int])]);
                assert(idents_spec(c@, n as int) == Some(Seq::<Seq<char>>::empty()));
                assert(strings_v(out@) + Seq::<Seq<char>>::empty() =~= strings_v(out@));
            }
            i = n;
        } else if is_comma(&c[i + 1]) {
            proof {
                if let Some(r2) = idents_spec(c@, i + 2) {
                    assert(strings_v(before) + (seq![ident_text(c@[i as int])] + r2)
                        =~= strings_v(out@) + r2);
                }
            }
            i = i + 2;
        } else {
            return None;
        }
    }
    proof {
        assert(strings_v(out@) + Seq::<Seq<char>>::empty() =~= strings_v(out@));
    }
    Some(out)
}

fn group_args_at(c: &Vec<ArgToken>) -> (r: Result<Vec<BehaviorArg>, DirectiveError>)
    ensures
        match group_args_spec(c@, 0, seq![]) {
            Ok(x) => r matches Ok(v) && args_v(v@) == x,
            Err(e) => r matches Err(f) && err_v(f) == e,
        },
{
    let n = c.len();
    let mut out: Vec<BehaviorArg> = Vec::new();
    let mut i: usize = 0;
    assert(args_v(out@) =~= seq![]);
    while i < n
        invariant
            n == c@.len(),
            i <= n,
            group_args_spec(c@, 0, seq![]) == group_args_spec(c@, i as int, args_v(out@)),
        decreases n - i,
    {
        if !is_ident(&c[i]) {
            return Err(DirectiveError::Syntax);
        }
        let key = ident_string(&c[i]);
        let has_eq = i + 1 < n && match &c[i + 1] {
            ArgToken::Eq => true,
            _ => false,
        };
        if !has_eq {
            let mut m = string_from("behavior arg `");
            append_str(&mut m, key.as_str());
            append_str(&mut m, "` requires a value: `");
            append_str(&mut m, key.as_str());
            append_str(&mut m, " = ...`. Bare flags are not supported in behavior groups");
            assert(m@ =~= arg_without_value_message(key@));
            return Err(DirectiveError::Rule(m));
        }
        let e = expr_end_at(c, i + 2);
        proof {
            lemma_expr_end(c@, i + 2);
        }
        let value = match expr_at(c, i + 2, e) {
            Some(x) => x,
            None => return Err(DirectiveError::Syntax),
        };
        let ghost acc = args_v(out@);
        let mut taken = false;
        let mut m: usize = 0;
        while m < out.len()
            invariant
                acc == args_v(out@),
                m <= out@.len(),
                taken == exists|q: int| 0 <= q < m && acc[q].0 == key@,
            decreases out@.len() - m,
        {
            if str_eq(out[m].key.as_str(), key.as_str()) {
                taken = true;
            }
            proof {
                assert(acc[m as int].0 == out@[m as int].key@);
                if taken {
                    if out@[m as int].key@ == key@ {
                        assert(acc[m as int].0 == key@);
                    }
                }
            }
            m = m + 1;
        }
        proof {
            assert(taken == key_taken(acc, key@));
        }
        if taken {
            let mut d = string_from("duplicate arg `");
            append_str(&mut d, key.as_str());
            append_str(&mut d, "` — each arg may only appear once");
            assert(d@ =~= duplicate_arg_message(key@));
            return Err(DirectiveError::Rule(d));
        }
        out.push(BehaviorArg { key, value });
        proof {
            assert(args_v(out@) =~= acc.push((ident_text(c@[i as int]), expr_v(value))));
        }
        if e >= n {
            return Ok(out);
        }
        if !is_comma(&c[e]) {
            return Err(DirectiveError::Syntax);
        }
        i = e + 1;
    }
    Ok(out)
}

fn close_at(args: &Vec<BehaviorArg>) -> (r: Result<String, DirectiveError>)
    ensures
        match close_spec(args_v(args@)) {
            Ok(x) => r matches Ok(v) && v@ == x,
            Err(e) => r matches Err(f) && err_v(f) == e,
        },
{
    let ghost all = args_v(args@);
    let n = args.len();
    let mut k: usize = 0;
    assert(all.skip(0) =~= all);
    while k < n
        invariant
            n == args@.len(),
            all == args_v(args@),
            k <= n,
            close_spec(all) == close_spec(all.skip(k as int)),
        decreases n - k,
    {
        proof {
            assert(all.skip(k as int)[0] == (args@[k as int].key@, expr_v(args@[k as int].value)));
            assert(all.skip(k as int).drop_first() =~= all.skip(k + 1));
        }
        if str_eq(args[k].key.as_str(), "dest") {
            match &args[k].value {
                ValueExpr::Path { qself, segments } => {
                    if !*qself && segments.len() == 1 {
                        proof {
                            assert(expr_v(args@[k as int].value) == ExprV::Path {
                                qself: false,
                                segments: strings_v(segments@),
                            });
                        }
                        return Ok(segments[0].clone());
                    }
                },
                _ => {},
            }
            return Err(DirectiveError::Rule(string_from("`close(dest = ...)` must be a field name")));
        }
        k = k + 1;
    }
    Err(DirectiveError::Rule(string_from("`close(...)` requires `dest = field`")))
}

fn trailing_at(ts: &Vec<ArgToken>, k: usize) -> (r: Option<(Option<ValueExpr>, usize)>)
    requires
        k <= ts@.len(),
    ensures
        match trailing_spec(ts@, k as int) {
            Some((err, end)) => r matches Some((e, m)) && opt_expr_v(e) == err && m == end,
            None => r is None,
        },
{
    if k < ts.len() && is_at(&ts[k]) {
        let e = expr_end_at(ts, k + 1);
        proof {
            lemma_expr_end(ts@, k + 1);
        }
        match expr_at(ts, k + 1, e) {
            Some(x) => Some((Some(x), e)),
            None => None,
        }
    } else {
        Some((None, k))
    }
}

pub open spec fn result_v(r: Result<(Directive, usize), DirectiveError>) -> Result<(DirectiveV, int), DirErr> {
    match r {
        Ok((d, j)) => Ok((directive_v(d), j as int)),
        Err(e) => Err(err_v(e)),
    }
}

fn group_directive_at(
    name: &String,
    segs: Vec<String>,
    c: &Vec<ArgToken>,
    ts: &Vec<ArgToken>,
    next: usize,
) -> (r: Result<(Directive, usize), DirectiveError>)
    requires
        next <= ts@.len(),
    ensures
        result_v(r) == group_directive_spec(name@, strings_v(segs@), c@, ts@, next as int),
{
    if str_eq(name.as_str(), "init") {
        if c.len() == 0 {
            return Ok((Directive::Init { idempotent: false }, next));
        }
        if !is_ident(&c[0]) {
            return Err(DirectiveError::Syntax);
        }
        let f = ident_string(&c[0]);
        if !str_eq(f.as_str(), "idempotent") {
            let mut m = string_from("unknown init flag `");
            append_str(&mut m, f.as_str());
            append_str(&mut m, "`. Only `init` or `init(idempotent)` are valid.");
            assert(m@ =~= unknown_init_flag_message(f@));
            return Err(DirectiveError::Rule(m));
        }
        if c.len() == 1 {
            return Ok((Directive::Init { idempotent: true }, next));
        }
        if is_comma(&c[1]) {
            return Err(DirectiveError::Rule(
                string_from("`init(idempotent)` does not accept additional arguments"),
            ));
        }
        return Err(DirectiveError::Syntax);
    }
    if str_eq(name.as_str(), "allow") {
        return match idents_at(c) {
            Some(ids) => Ok((Directive::Allow(ids), next)),
            None => Err(DirectiveError::Syntax),
        };
    }
    if str_eq(name.as_str(), "has_one") {
        return match idents_at(c) {
            Some(ids) => match trailing_at(ts, next) {
                Some((err, k)) => Ok((Directive::HasOne(ids, err), k)),
                None => Err(DirectiveError::Syntax),
            },
            None => Err(DirectiveError::Syntax),
        };
    }
    if str_eq(name.as_str(), "constraints") {
        return match args_at(c, 0) {
            Some(es) => match trailing_at(ts, next) {
                Some((err, k)) => Ok((Directive::Constraints(es, err), k)),
                None => Err(DirectiveError::Syntax),
            },
            None => Err(DirectiveError::Syntax),
        };
    }
    let args = match group_args_at(c) {
        Ok(a) => a,
        Err(e) => return Err(e),
    };
    if str_eq(name.as_str(), "close") {
        return match close_at(&args) {
            Ok(d) => Ok((Directive::Close(d), next)),
            Err(e) => Err(e),
        };
    }
    Ok((Directive::Behavior(BehaviorGroup { path: segs, args }), next))
}

/// Parse the directive that starts at token `i`; returns it and where it ends.
pub fn directive_at(ts: &Vec<ArgToken>, i: usize) -> (r: Result<(Directive, usize), DirectiveError>)
    ensures
        result_v(r) == directive_spec(ts@, i as int),
{
    if i >= ts.len() {
        return Err(DirectiveError::Syntax);
    }
    match &ts[i] {
        ArgToken::Keyword(k) => {
            if str_eq(k.as_str(), "mut") {
                return Ok((Directive::Mut, i + 1));
            }
            return Err(DirectiveError::Syntax);
        },
        ArgToken::Ident(_) => {},
        _ => return Err(DirectiveError::Syntax),
    }
    proof {
        lemma_path_end(ts@, i as int);
    }
    let (j, segs) = match path_at(ts, i) {
        Some(p) => p,
        None => return Err(DirectiveError::Syntax),
    };
    let name = path_to_string(&segs);
    let n = ts.len();
    let eq = j < n && match &ts[j] {
        ArgToken::Eq => true,
        _ => false,
    };
    if eq {
        if str_eq(name.as_str(), "payer") {
            if j + 1 < n && is_ident(&ts[j + 1]) {
                return Ok((Directive::Payer(ident_string(&ts[j + 1])), j + 2));
            }
            return Err(DirectiveError::Syntax);
        }
        if str_eq(name.as_str(), "address") || str_eq(name.as_str(), "realloc") {
            let e = expr_end_at(ts, j + 1);
            proof {
                lemma_expr_end(ts@, j + 1);
            }
            let x = match expr_at(ts, j + 1, e) {
                Some(x) => x,
                None => return Err(DirectiveError::Syntax),
            };
            if str_eq(name.as_str(), "realloc") {
                proof {
                    reveal_strlit("realloc");
                    reveal_strlit("address");
                    assert("realloc"@[0] != "address"@[0]);
                }
                return Ok((Directive::Realloc(x), e));
            }
            return match trailing_at(ts, e) {
                Some((err, k)) => Ok((Directive::Address(x, err), k)),
                None => Err(DirectiveError::Syntax),
            };
        }
        let mut m = string_from("unknown key-value directive `");
        append_str(&mut m, name.as_str());
        append_str(&mut m, " = ...`");
        assert(m@ =~= unknown_key_value_message(name@));
        return Err(DirectiveError::Rule(m));
    }
    if j < n {
        match &ts[j] {
            ArgToken::Group(Delim::Paren, c) => {
                return group_directive_at(&name, segs, c, ts, j + 1);
            },
            _ => {},
        }
    }
    if str_eq(name.as_str(), "init") {
        return Ok((Directive::Init { idempotent: false }, j));
    }
    if str_eq(name.as_str(), "dup") {
        return Ok((Directive::Dup, j));
    }
    let mut m = string_from("unknown bare directive `");
    append_str(&mut m, name.as_str());
    append_str(&mut m, "`; did you mean `");
    append_str(&mut m, name.as_str());
    append_str(&mut m, "(...)`?");
    assert(m@ =~= unknown_bare_message(name@));
    Err(DirectiveError::Rule(m))
}

/// The result of parsing a whole directive list, as plain values.
pub open spec fn list_v(r: Result<Vec<Directive>, DirectiveError>) -> Result<Seq<DirectiveV>, DirErr> {
    match r {
        Ok(v) => Ok(v@.map_values(|d: Directive| directive_v(d))),
        Err(e) => Err(err_v(e)),
    }
}

/// Parse the tokens of a field's `#[account(...)]`: directives separated by commas, a
/// trailing comma allowed.
pub fn parse_field_attrs(ts: &Vec<ArgToken>) -> (r: Result<Vec<Directive>, DirectiveError>)
    ensures
        list_v(r) == directives_spec(ts@, 0, seq![]),
{
    let n = ts.len();
    let mut out: Vec<Directive> = Vec::new();
    let mut i: usize = 0;
    assert(out@.map_values(|d: Directive| directive_v(d)) =~= seq![]);
    while i < n
        invariant
            n == ts@.len(),
            i <= n,
            directives_spec(ts@, 0, seq![]) == directives_spec(
                ts@,
                i as int,
                out@.map_values(|d: Directive| directive_v(d)),
            ),
        decreases n - i,
    {
        proof {
            lemma_directive_progress(ts@, i as int);
        }
        let (d, j) = match directive_at(ts, i) {
            Ok(p) => p,
            Err(e) => return Err(e),
        };
        let ghost before = out@.map_values(|d: Directive| directive_v(d));
        out.push(d);
        proof {
            assert(out@.map_values(|d: Directive| directive_v(d)) =~= before.push(directive_v(d)));
        }
        if j >= n {
            return Ok(out);
        }
        if !is_comma(&ts[j]) {
            return Err(DirectiveError::Syntax);
        }
        i = j + 1;
    }
    Ok(out)
}

/// Parse tokens that hold exactly one directive.
pub fn parse_directive(ts: &Vec<ArgToken>) -> (r: Result<Directive, DirectiveError>)
    ensures
        match directive_spec(ts@, 0) {
            Ok((d, j)) => if j == ts@.len() {
                r matches Ok(x) && directive_v(x) == d
            } else {
                r matches Err(DirectiveError::Syntax)
            },
            Err(e) => r matches Err(f) && err_v(f) == e,
        },
{
    match directive_at(ts, 0) {
        Ok((d, j)) => if j == ts.len() {
            Ok(d)
        } else {
            Err(DirectiveError::Syntax)
        },
        Err(e) => Err(e),
    }
}

} // verus!
