//! The logic of the Quasar framework, verified: what its procedural macros decide about
//! the items they are given (the macros themselves turn token streams into generated
//! code, which is done by `quote!` and is not part of this library), the Borsh and CPI
//! helpers, and the CLI's commands.

use vstd::prelude::*;

pub mod account_attr;
pub mod accounts;
pub mod attr_args;
pub mod borsh;
pub mod build_cmd;
pub mod clean;
pub mod cfg;
pub mod cfg_menu;
pub mod cpi;
pub mod diagnostics;
pub mod disasm;
pub mod dispatch;
pub mod dump;
pub mod dump_order;
pub mod error;
pub mod init;
pub mod project;
pub mod seeds;
pub mod serialize;
pub mod size_record;
pub mod style;
pub mod test_runner;
pub mod text;
pub mod watch;

verus! {

} // verus!
