//! Facts read from a project's `Quasar.toml`: its toolchain, module name, client
//! directory and test language.

use vstd::prelude::*;
use crate::text::{chars_of, str_eq, string_from};

verus! {

broadcast use vstd::string::group_string_axioms;

/// Every toolchain but `upstream` builds with the Solana tools.
pub fn is_solana_toolchain(toolchain_type: &str) -> (r: bool)
    ensures
        r == (toolchain_type@ != "upstream"@),
{
    !str_eq(toolchain_type, "upstream")
}

/// The crate's module name: the project name with `-` written as `_`.
pub open spec fn module_name_spec(name: Seq<char>) -> Seq<char> {
    name.map_values(|c: char| if c == '-' { '_' } else { c })
}

/// The crate's module name: the project name with `-` written as `_`.
pub fn module_name(name: &str) -> (r: String)
    ensures
        r@ == module_name_spec(name@),
{
    let cs = chars_of(name);
    let mut out = String::new();
    let mut i: usize = 0;
    while i < cs.len()
        invariant
            cs@ == name@,
            i <= cs@.len(),
            out@ == module_name_spec(name@.take(i as int)),
        decreases cs@.len() - i,
    {
        let c = cs[i];
        crate::text::append_char(&mut out, if c == '-' { '_' } else { c });
        assert(module_name_spec(name@.take(i + 1)) =~= module_name_spec(name@.take(i as int)).push(
            if c == '-' { '_' } else { c },
        ));
        i = i + 1;
    }
    assert(name@.take(cs@.len() as int) =~= name@);
    out
}

/// The directory generated clients go to, as path components: the configured path, else
/// `target/client`.
pub fn client_path(configured: Option<&str>) -> (r: Vec<String>)
    ensures
        match configured {
            Some(p) => r@.len() == 1 && r@[0]@ == p@,
            None => r@.len() == 2 && r@[0]@ == "target"@ && r@[1]@ == "client"@,
        },
{
    let mut v: Vec<String> = Vec::new();
    match configured {
        Some(p) => v.push(string_from(p)),
        None => {
            v.push(string_from("target"));
            v.push(string_from("client"));
        },
    }
    v
}

/// The project's tests are TypeScript.
pub fn has_typescript_tests(language: &str) -> (r: bool)
    ensures
        r == (language@ == "typescript"@),
{
    str_eq(language, "typescript")
}

/// The project's tests are Rust.
pub fn has_rust_tests(language: &str) -> (r: bool)
    ensures
        r == (language@ == "rust"@),
{
    str_eq(language, "rust")
}

} // verus!
