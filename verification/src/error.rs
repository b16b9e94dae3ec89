//! The errors of the CLI, their messages and the exit code each one ends the process with.
//! The underlying I/O, TOML, JSON and prompt errors are held as their rendered text.

use vstd::prelude::*;
use crate::text::{append_str, string_from};

verus! {

broadcast use vstd::string::group_string_axioms;

/// Why a CLI command failed.
#[derive(Debug)]
pub enum CliError {
    /// A file-system action on a path failed.
    IoPath { action: String, path: String, source: String },
    /// An I/O operation failed.
    IoError(String),
    /// A TOML document did not parse.
    TomlParseError(String),
    /// A value did not serialize to TOML.
    TomlSerError(String),
    /// A JSON document did not parse.
    JsonParse { context: String, source: String },
    /// A value did not serialize to JSON.
    JsonSerialize { context: String, source: String },
    /// An interactive prompt failed.
    Prompt(String),
    /// A plain message.
    Message(String),
    /// A child process failed with an exit code.
    ProcessFailure { message: String, code: i32 },
}

impl CliError {
    /// The error's message, as the CLI prints it.
    pub open spec fn spec_text(&self) -> Seq<char> {
        match self {
            CliError::IoPath { action, path, source } => "failed to "@ + action@ + " "@ + path@
                + ": "@ + source@,
            CliError::IoError(e) => "I/O error: "@ + e@,
            CliError::TomlParseError(e) => "failed to parse TOML: "@ + e@,
            CliError::TomlSerError(e) => "failed to serialize TOML: "@ + e@,
            CliError::JsonParse { context, source } => "failed to parse "@ + context@ + ": "@
                + source@,
            CliError::JsonSerialize { context, source } => "failed to serialize "@ + context@
                + ": "@ + source@,
            CliError::Prompt(e) => "prompt failed: "@ + e@,
            CliError::Message(m) => m@,
            CliError::ProcessFailure { message, code: _ } => message@,
        }
    }

    /// A plain message.
    pub fn message(message: &str) -> (r: CliError)
        ensures
            r matches CliError::Message(m) && m@ == message@,
    {
        CliError::Message(string_from(message))
    }

    /// A file-system action on a path that failed.
    pub fn io_path(action: &str, path: &str, source: &str) -> (r: CliError)
        ensures
            r matches CliError::IoPath { action: a, path: p, source: s } && a@ == action@ && p@
                == path@ && s@ == source@,
    {
        CliError::IoPath {
            action: string_from(action),
            path: string_from(path),
            source: string_from(source),
        }
    }

    /// A JSON document, described by `context`, that did not parse.
    pub fn json_parse(context: &str, source: &str) -> (r: CliError)
        ensures
            r matches CliError::JsonParse { context: c, source: s } && c@ == context@ && s@
                == source@,
    {
        CliError::JsonParse { context: string_from(context), source: string_from(source) }
    }

    /// A value, described by `context`, that did not serialize to JSON.
    pub fn json_serialize(context: &str, source: &str) -> (r: CliError)
        ensures
            r matches CliError::JsonSerialize { context: c, source: s } && c@ == context@ && s@
                == source@,
    {
        CliError::JsonSerialize { context: string_from(context), source: string_from(source) }
    }

    /// A child process that failed with `code`.
    pub fn process_failure(message: &str, code: i32) -> (r: CliError)
        ensures
            r matches CliError::ProcessFailure { message: m, code: c } && m@ == message@ && c
                == code,
    {
        CliError::ProcessFailure { message: string_from(message), code }
    }

    /// The exit code: the child's for a failed process, 1 for every other error.
    pub fn exit_code(&self) -> (r: i32)
        ensures
            r == match self {
                CliError::ProcessFailure { message: _, code } => *code,
                _ => 1i32,
            },
    {
        match self {
            CliError::ProcessFailure { message: _, code } => *code,
            _ => 1,
        }
    }

    /// The error's message, as the CLI prints it.
    pub fn to_string(&self) -> (r: String)
        ensures
            r@ == self.spec_text(),
    {
        match self {
            CliError::IoPath { action, path, source } => {
                let mut s = string_from("failed to ");
                append_str(&mut s, action.as_str());
                append_str(&mut s, " ");
                append_str(&mut s, path.as_str());
                append_str(&mut s, ": ");
                append_str(&mut s, source.as_str());
                s
            },
            CliError::IoError(e) => {
                let mut s = string_from("I/O error: ");
                append_str(&mut s, e.as_str());
                s
            },
            CliError::TomlParseError(e) => {
                let mut s = string_from("failed to parse TOML: ");
                append_str(&mut s, e.as_str());
                s
            },
            CliError::TomlSerError(e) => {
                let mut s = string_from("failed to serialize TOML: ");
                append_str(&mut s, e.as_str());
                s
            },
            CliError::JsonParse { context, source } => {
                let mut s = string_from("failed to parse ");
                append_str(&mut s, context.as_str());
                append_str(&mut s, ": ");
                append_str(&mut s, source.as_str());
                s
            },
            CliError::JsonSerialize { context, source } => {
                let mut s = string_from("failed to serialize ");
                append_str(&mut s, context.as_str());
                append_str(&mut s, ": ");
                append_str(&mut s, source.as_str());
                s
            },
            CliError::Prompt(e) => {
                let mut s = string_from("prompt failed: ");
                append_str(&mut s, e.as_str());
                s
            },
            CliError::Message(m) => m.clone(),
            CliError::ProcessFailure { message, code: _ } => message.clone(),
        }
    }
}

} // verus!
