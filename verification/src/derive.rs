//! A reading of one agent: its record, and what amx makes of it.
use vstd::prelude::*;
use crate::store::{Kind, Meta, Phase, State, terminal};

verus! {

/// The event a reading of the pane writes when it saw a prompt taken: the
/// start of a turn no hook announced.
pub const READ_PROMPT: &'static str = "read_prompt";

/// The event a reading of the pane writes when it saw a turn end, for a
/// vendor with no word of its own for that moment.
pub const READ_TURN_END: &'static str = "read_turn_end";

/// What a reading went on.
#[derive(Debug, Clone, Copy, PartialEq, Eq, Structural)]
pub enum Evidence {
    /// The record says how it ended.
    Record,
    /// Its pane is gone.
    Gone,
    /// The vendor's hooks.
    Hooks,
    /// A rule matched the screen.
    Screen,
    /// Nothing amx knows.
    Unknown,
    /// amx let the pane go and the record stands for it.
    LetGo,
}

/// The phase a reading settled on, and what it went on.
#[derive(Debug, Clone, PartialEq, Eq)]
pub struct Verdict {
    pub phase: Phase,
    pub evidence: Evidence,
    /// The rule that claimed the screen, when one did.
    pub rule: Option<String>,
    /// How old the reading's own number is, in seconds.
    pub age: u64,
}

/// One agent as a reader hands it over.
#[derive(Debug, Clone, PartialEq, Eq)]
pub struct Reading {
    pub meta: Meta,
    pub state: State,
    pub verdict: Verdict,
}

/// `a - b`, or nothing where `b` is later.
pub open spec fn since_then(a: u64, b: u64) -> nat {
    if a >= b {
        (a - b) as nat
    } else {
        0
    }
}

/// The reading's own number: how long a finished run took, how long a
/// waiting agent has waited, and how long since anything was heard from one
/// still going.
pub open spec fn age_spec(s: State, created: u64, now: u64) -> nat {
    if terminal(s.state) {
        since_then(s.ended, created)
    } else if s.state == Phase::Waiting {
        since_then(now, s.since)
    } else {
        since_then(now, s.last_event)
    }
}

pub fn age(s: &State, created: u64, now: u64) -> (n: u64)
    ensures
        n == age_spec(*s, created, now),
{
    if s.state.is_terminal() {
        s.ended.saturating_sub(created)
    } else if s.state == Phase::Waiting {
        now.saturating_sub(s.since)
    } else {
        now.saturating_sub(s.last_event)
    }
}

/// What a row says it is doing: the question it is stopped on, else its own
/// summary of what it is about.
pub open spec fn line_of(s: State) -> Option<String> {
    match s.question {
        Some(q) => Some(q),
        None => s.summary,
    }
}

impl Reading {
    pub fn line(&self) -> (l: Option<&str>)
        ensures
            l matches Some(t) ==> line_of(self.state) matches Some(x) && t@ == x@,
            l is None ==> line_of(self.state) is None,
    {
        match &self.state.question {
            Some(q) => Some(q.as_str()),
            None => match &self.state.summary {
                Some(s) => Some(s.as_str()),
                None => None,
            },
        }
    }

    pub fn phase(&self) -> (p: Phase)
        ensures
            p == self.verdict.phase,
    {
        self.verdict.phase
    }

    pub fn kind(&self) -> (k: Option<Kind>)
        ensures
            k == self.state.kind,
    {
        self.state.kind
    }

    pub fn id(&self) -> (s: &str)
        ensures
            s@ == self.meta.id@,
    {
        self.meta.id.as_str()
    }
}

} // verus!
