//! The exit codes every verb answers with.
use vstd::prelude::*;
use crate::text;

verus! {

/// The verb did what it was asked.
pub const OK: i32 = 0;
/// Nothing is coming: the agent failed, or the verb could not do its work.
pub const FAILURE: i32 = 1;
/// The agent is stopped on something only a person can answer.
pub const BLOCKED: i32 = 2;
/// The caller's own deadline ran out.
pub const TIMEOUT: i32 = 3;
/// What was typed is not something the verb can act on.
pub const USAGE: i32 = 64;

/// What a verb has to say: the exit code, what goes to stdout, and what goes
/// to stderr.
#[derive(Debug, Clone, PartialEq, Eq)]
pub struct Outcome {
    pub code: i32,
    pub out: String,
    pub err: String,
}


/// A warning as amx says it on stderr: painted yellow on a terminal — a
/// refusal is amx working as it should, so it is not red — and plain down a
/// pipe, where the paint would be bytes a reader has to take back out.
pub open spec fn warned_spec(line: Seq<char>, to_terminal: bool) -> Seq<char> {
    if to_terminal {
        "\u{1b}[33m"@ + line + "\u{1b}[39m"@
    } else {
        line
    }
}

pub fn warned(line: &str, to_terminal: bool) -> (s: String)
    ensures
        s@ == warned_spec(line@, to_terminal),
{
    if to_terminal {
        let mut s = text::joined("\u{1b}[33m", line);
        s.append("\u{1b}[39m");
        s
    } else {
        line.to_string()
    }
}

} // verus!
