//! The argument grammars of two attributes, over the tokens inside their parentheses:
//! `#[max(N)]` / `#[max(N, pfx = P)]` on a borrowed argument or field, and
//! `#[program(no_entrypoint)]`.

use vstd::prelude::*;
use crate::dump::{parse_u64, parse_u64_spec};
use crate::text::{chars_of, str_eq};

verus! {

broadcast use vstd::string::group_string_axioms;

/// The brackets of a delimited group.
#[derive(Clone, Copy, Debug, PartialEq, Eq, Structural)]
pub enum Delim {
    Paren,
    Bracket,
    Brace,
}

/// One token tree between an attribute's parentheses: an identifier (not a keyword), a
/// keyword (`mut`, `true`, ...), an integer literal given by its decimal digits, a byte
/// string literal as written with the bytes it denotes, any other literal as written, the
/// punctuation the grammars use, a delimited group with its own tokens, or any other
/// punctuation as written.
pub enum ArgToken {
    Ident(String),
    Keyword(String),
    Int(String),
    ByteStr { text: String, bytes: Vec<u8> },
    Lit(String),
    Comma,
    Eq,
    Colon,
    PathSep,
    At,
    Group(Delim, Vec<ArgToken>),
    Other(String),
}

/// Why an attribute's arguments were refused.
#[derive(Clone, Copy, Debug, PartialEq, Eq, Structural)]
pub enum ArgError {
    /// The key after `N,` is not `pfx`.
    ExpectedPfx,
    /// A `#[program]` argument is not `no_entrypoint`.
    ExpectedNoEntrypoint,
    /// The tokens do not follow the grammar, or a number does not fit in a `usize`; the
    /// parser reports these in its own words.
    Syntax,
}

impl ArgError {
    /// The message of the errors this crate words itself.
    pub fn message(&self) -> (r: Option<&'static str>)
        ensures
            r matches Some(m) ==> m@ == (match self {
                ArgError::ExpectedPfx => "expected `pfx`"@,
                _ => "expected `no_entrypoint`"@,
            }),
            r is None <==> *self == ArgError::Syntax,
    {
        match self {
            ArgError::ExpectedPfx => Some("expected `pfx`"),
            ArgError::ExpectedNoEntrypoint => Some("expected `no_entrypoint`"),
            ArgError::Syntax => None,
        }
    }
}

/// The value of an integer literal as a `usize`, if it fits.
pub open spec fn int_value(t: ArgToken) -> Option<nat> {
    match t {
        ArgToken::Int(d) => match parse_u64_spec(d@) {
            Some(v) => if v <= usize::MAX {
                Some(v as nat)
            } else {
                None
            },
            None => None,
        },
        _ => None,
    }
}

/// `N` or `N, pfx = P`, nothing after: the max length and the length prefix width (0
/// when not given).
pub open spec fn max_args_spec(ts: Seq<ArgToken>) -> Result<(nat, nat), ArgError> {
    if ts.len() == 0 || int_value(ts[0]) is None {
        Err(ArgError::Syntax)
    } else if ts.len() == 1 {
        Ok((int_value(ts[0]).unwrap(), 0))
    } else if !(ts[1] is Comma) || ts.len() < 3 {
        Err(ArgError::Syntax)
    } else {
        match ts[2] {
            ArgToken::Ident(k) => if k@ != "pfx"@ {
                Err(ArgError::ExpectedPfx)
            } else if ts.len() < 5 || !(ts[3] is Eq) || int_value(ts[4]) is None || ts.len()
                > 5 {
                Err(ArgError::Syntax)
            } else {
                Ok((int_value(ts[0]).unwrap(), int_value(ts[4]).unwrap()))
            },
            _ => Err(ArgError::Syntax),
        }
    }
}

fn int_of(t: &ArgToken) -> (r: Option<usize>)
    ensures
        match int_value(*t) {
            Some(v) => r == Some(v as usize),
            None => r is None,
        },
{
    match t {
        ArgToken::Int(d) => {
            let chars = chars_of(d.as_str());
            match parse_u64(&chars) {
                Some(v) => if v <= usize::MAX as u64 {
                    Some(v as usize)
                } else {
                    None
                },
                None => None,
            }
        },
        _ => None,
    }
}

/// Parse the arguments of `#[max(...)]`.
pub fn parse_max_args(ts: &Vec<ArgToken>) -> (r: Result<(usize, usize), ArgError>)
    ensures
        match max_args_spec(ts@) {
            Ok((n, p)) => r == Ok::<(usize, usize), ArgError>((n as usize, p as usize)),
            Err(e) => r == Err::<(usize, usize), ArgError>(e),
        },
{
    if ts.len() == 0 {
        return Err(ArgError::Syntax);
    }
    let n = match int_of(&ts[0]) {
        Some(n) => n,
        None => return Err(ArgError::Syntax),
    };
    if ts.len() == 1 {
        return Ok((n, 0));
    }
    let comma = match &ts[1] {
        ArgToken::Comma => true,
        _ => false,
    };
    if !comma || ts.len() < 3 {
        return Err(ArgError::Syntax);
    }
    match &ts[2] {
        ArgToken::Ident(k) => {
            if !str_eq(k.as_str(), "pfx") {
                return Err(ArgError::ExpectedPfx);
            }
        },
        _ => return Err(ArgError::Syntax),
    }
    if ts.len() < 5 {
        return Err(ArgError::Syntax);
    }
    let eq = match &ts[3] {
        ArgToken::Eq => true,
        _ => false,
    };
    if !eq {
        return Err(ArgError::Syntax);
    }
    let p = match int_of(&ts[4]) {
        Some(p) => p,
        None => return Err(ArgError::Syntax),
    };
    if ts.len() > 5 {
        return Err(ArgError::Syntax);
    }
    Ok((n, p))
}

/// An outer attribute: its path's segments and the tokens between its parentheses.
pub struct AttrModel {
    pub path: Vec<String>,
    pub args: Vec<ArgToken>,
}

/// The path is the single identifier `max`.
pub open spec fn is_max(a: AttrModel) -> bool {
    a.path@.len() == 1 && a.path@[0]@ == "max"@
}

/// The first `#[max(...)]` among the first `n` attributes.
pub open spec fn first_max(attrs: Seq<AttrModel>, n: int) -> Option<int>
    decreases n,
{
    if n <= 0 {
        None
    } else {
        match first_max(attrs, n - 1) {
            Some(i) => Some(i),
            None => if is_max(attrs[n - 1]) {
                Some(n - 1)
            } else {
                None
            },
        }
    }
}

proof fn lemma_first_max_stays(attrs: Seq<AttrModel>, k: int, n: int)
    requires
        0 <= k <= n,
        first_max(attrs, k) is Some,
    ensures
        first_max(attrs, n) == first_max(attrs, k),
    decreases n - k,
{
    if k < n {
        lemma_first_max_stays(attrs, k, n - 1);
    }
}

proof fn lemma_first_max_range(attrs: Seq<AttrModel>, n: int)
    ensures
        first_max(attrs, n) matches Some(i) ==> 0 <= i < n,
    decreases n,
{
    if n > 0 {
        lemma_first_max_range(attrs, n - 1);
    }
}

fn find_max(attrs: &Vec<AttrModel>) -> (r: Option<usize>)
    ensures
        match first_max(attrs@, attrs@.len() as int) {
            Some(i) => r == Some(i as usize),
            None => r is None,
        },
        r matches Some(i) ==> i < attrs@.len(),
{
    let n = attrs.len();
    let mut i: usize = 0;
    while i < n
        invariant
            n == attrs@.len(),
            i <= n,
            first_max(attrs@, i as int) is None,
        decreases n - i,
    {
        let a = &attrs[i];
        let hit = a.path.len() == 1 && str_eq(a.path[0].as_str(), "max");
        if hit {
            proof {
                assert(first_max(attrs@, i + 1) == Some(i as int));
                lemma_first_max_stays(attrs@, i + 1, n as int);
            }
            return Some(i);
        }
        i = i + 1;
    }
    None
}

/// `#[max(...)]` on a struct field: the first attribute named `max` decides; `None`
/// without one.
pub fn parse_max_attr(attrs: &Vec<AttrModel>) -> (r: Option<Result<(usize, usize), ArgError>>)
    ensures
        match first_max(attrs@, attrs@.len() as int) {
            Some(i) => match max_args_spec(attrs@[i].args@) {
                Ok((n, p)) => r == Some(Ok::<(usize, usize), ArgError>((n as usize, p as usize))),
                Err(e) => r == Some(Err::<(usize, usize), ArgError>(e)),
            },
            None => r is None,
        },
{
    proof {
        lemma_first_max_range(attrs@, attrs@.len() as int);
    }
    let len = attrs.len();
    match find_max(attrs) {
        Some(i) => {
            let res = parse_max_args(&attrs[i].args);
            proof {
                let j = first_max(attrs@, attrs@.len() as int).unwrap();
                assert(0 <= j < len);
                assert(j == i as int);
                assert(attrs@[j].args@ == attrs[i as int].args@);
            }
            Some(res)
        },
        None => None,
    }
}

/// `#[max(...)]` on an instruction handler's argument: as on a field, with a malformed
/// one counted as absent.
pub fn parse_max_attr_from_program_arg(attrs: &Vec<AttrModel>) -> (r: Option<(usize, usize)>)
    ensures
        match first_max(attrs@, attrs@.len() as int) {
            Some(i) => match max_args_spec(attrs@[i].args@) {
                Ok((n, p)) => r == Some((n as usize, p as usize)),
                Err(_) => r is None,
            },
            None => r is None,
        },
{
    match parse_max_attr(attrs) {
        Some(Ok(v)) => Some(v),
        _ => None,
    }
}

/// The arguments of `#[program(...)]`: identifiers, each optionally followed by a comma,
/// where `no_entrypoint` is the only one known. Returns whether it was given.
pub open spec fn program_args_spec(ts: Seq<ArgToken>) -> Result<bool, ArgError>
    decreases ts.len(),
{
    if ts.len() == 0 {
        Ok(false)
    } else {
        match ts[0] {
            ArgToken::Ident(k) => if k@ != "no_entrypoint"@ {
                Err(ArgError::ExpectedNoEntrypoint)
            } else {
                let rest = if ts.len() > 1 && ts[1] is Comma {
                    ts.skip(2)
                } else {
                    ts.skip(1)
                };
                match program_args_spec(rest) {
                    Ok(_) => Ok(true),
                    Err(e) => Err(e),
                }
            },
            _ => Err(ArgError::Syntax),
        }
    }
}

/// Parse the arguments of `#[program(...)]`.
pub fn program_args(ts: &Vec<ArgToken>) -> (r: Result<bool, ArgError>)
    ensures
        r == program_args_spec(ts@),
{
    let n = ts.len();
    let mut i: usize = 0;
    let mut seen = false;
    assert(ts@.skip(0) =~= ts@);
    while i < n
        invariant
            n == ts@.len(),
            i <= n,
            program_args_spec(ts@) == (match program_args_spec(ts@.skip(i as int)) {
                Ok(b) => Ok::<bool, ArgError>(b || seen),
                Err(e) => Err(e),
            }),
        decreases n - i,
    {
        let ghost rest = ts@.skip(i as int);
        proof {
            assert(rest[0] == ts@[i as int]);
        }
        match &ts[i] {
            ArgToken::Ident(k) => {
                if !str_eq(k.as_str(), "no_entrypoint") {
                    return Err(ArgError::ExpectedNoEntrypoint);
                }
            },
            _ => return Err(ArgError::Syntax),
        }
        seen = true;
        let comma = i + 1 < n && match &ts[i + 1] {
            ArgToken::Comma => true,
            _ => false,
        };
        if comma {
            proof {
                assert(rest[1] == ts@[i + 1]);
                assert(rest.skip(2) =~= ts@.skip(i + 2));
            }
            i = i + 2;
        } else {
            proof {
                assert(rest.skip(1) =~= ts@.skip(i + 1));
            }
            i = i + 1;
        }
    }
    proof {
        assert(ts@.skip(i as int).len() == 0);
    }
    Ok(seen)
}

} // verus!
