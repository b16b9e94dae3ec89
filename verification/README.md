# quasar

Quasar is a framework for Solana programs: a derive layer that plans how an instruction's
accounts are checked and initialised, Borsh and CPI helpers for programs, and a CLI that
builds, tests, cleans, disassembles and configures projects.

This crate holds the logic of all three as a library verified with Verus:

- `accounts/` — the model of an `#[derive(Accounts)]` struct, the token grammar of its
  `#[account(...)]` directives (`syntax`), their lowering into each field's facts
  (`lower`), the structural rules on each field, the phase plan (pre-load, post-load, epilogue) and the
  account header check, with laws on what every plan keeps.
- `dispatch`, `serialize` — `#[program]`'s checks on instruction discriminators and the
  routing of instruction data (including the table for raw instructions), and
  `#[derive(QuasarSerialize)]`'s code paths, enum checks and enum repr mapping;
  `attr_args`, the argument grammars of `#[max(...)]` and `#[program(...)]`;
  `account_attr`, the item and field-layout checks of `#[account]`.
- `borsh`, `cpi`, `seeds` — Borsh framing written in place, the System program
  instructions, and typed PDA seed sets with the `#[seeds(...)]` grammar.
- `build_cmd`, `diagnostics`, `size_record`, `watch` — `quasar build`: the cargo command,
  cargo's diagnostics, the size record kept between builds, and watch mode.
- `test_runner`, `clean`, `disasm`, `dump`, `dump_order` — `quasar test`, `quasar clean`
  and `quasar dump`.
- `cfg`, `cfg_menu`, `init` — the global configuration, its menu, and `quasar init`
  (its choices, the remembered preferences and the git setup steps).
- `style`, `text`, `error` — terminal styling, text helpers and the CLI's errors.

`app/` is the command-line program around the library: argument handling, files,
processes, prompts and spinners. It does not generate IDLs or clients. `tests/` exercises the library on concrete values.
