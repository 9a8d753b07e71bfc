//! `amx fork` — start an agent on a copy of another one's conversation. The
//! vendor does the copying: `--resume` names the session and
//! `--fork-session` says to branch it, so the recorded session is the whole
//! of what a fork needs, and an agent that never announced one cannot be
//! forked at all.
use vstd::prelude::*;
use crate::store::Meta;
use crate::text;
use crate::vendor::{Capability, Vendor, flags};
use crate::verbs::resume::{Handoff, at_capacity, at_capacity_spec, is_session_id, is_session_id_spec, kept,
    kept_words};

verus! {

/// What amx records when it copies a conversation.
pub const FORKED: &'static str = "fork";

/// The vendor's flag for the session to open.
pub const RESUME: &'static str = "--resume";

/// The vendor's flag for copying that session rather than continuing it.
pub const FORK: &'static str = "--fork-session";

/// Every way of writing a flag that decides which session the vendor opens.
pub open spec fn names_a_session_flags() -> Seq<Seq<char>> {
    seq!["--session-id"@, RESUME@, "-r"@]
}

/// The vendor's argv for a copy of a session it already has: what the
/// original was launched with, less its task, every flag naming a session and
/// any earlier `--fork-session`; then the session, the fork, and the copy's
/// own task where it was given one.
pub open spec fn copying_spec(h: Handoff, session: Seq<char>, prompt: Option<Seq<char>>) -> Seq<
    Seq<char>,
> {
    kept(flags(h.command), h.task@, names_a_session_flags(), Some(FORK@), 0) + seq![
        RESUME@ + "="@ + session,
        FORK@,
    ] + match prompt {
        Some(p) => seq![p],
        None => Seq::empty(),
    }
}

pub fn copying(h: &Handoff, session: &str, prompt: Option<&str>) -> (r: Vec<String>)
    ensures
        flags(r) == copying_spec(
            *h,
            session@,
            match prompt {
                Some(p) => Some(p@),
                None => None,
            },
        ),
{
    let fs = vec!["--session-id".to_string(), RESUME.to_string(), "-r".to_string()];
    assert(flags(fs) =~= names_a_session_flags());
    let mut r = kept_words(&h.command, h.task.as_str(), &fs, Some(FORK));
    let ghost body = flags(r);
    let mut resume = text::joined(RESUME, "=");
    resume.append(session);
    r.push(resume);
    r.push(FORK.to_string());
    let ghost with_fork = flags(r);
    assert(with_fork =~= body + seq![RESUME@ + "="@ + session@, FORK@]);
    match prompt {
        Some(p) => {
            r.push(p.to_string());
            assert(flags(r) =~= with_fork + seq![p@]);
        },
        None => {
            assert(flags(r) =~= with_fork + Seq::<Seq<char>>::empty());
        },
    }
    r
}

/// Why this vendor cannot be asked for a copy of a conversation, when it
/// cannot. A command amx has no entry for is not refused.
pub open spec fn cannot_branch_spec(v: Option<Vendor>, id: Seq<char>) -> Option<Seq<char>> {
    match v {
        None => None,
        Some(v) => if v.capabilities@.contains(Capability::Fork) {
            None
        } else {
            Some(
                id + " runs "@ + v.name@
                    + ", which cannot branch a conversation, so there is no copy to ask it for. carry this one on with `amx resume "@
                    + id + "`, or start a fresh agent with `amx new`"@,
            )
        },
    }
}

pub fn cannot_branch(v: Option<&Vendor>, id: &str) -> (r: Option<String>)
    ensures
        r matches Some(s) ==> cannot_branch_spec(
            match v {
                Some(x) => Some(*x),
                None => None,
            },
            id@,
        ) == Some(s@),
        r is None ==> cannot_branch_spec(
            match v {
                Some(x) => Some(*x),
                None => None,
            },
            id@,
        ) is None,
{
    match v {
        None => None,
        Some(v) => {
            if v.can(Capability::Fork) {
                None
            } else {
                let mut s = text::joined(id, " runs ");
                s.append(v.name.as_str());
                s.append(
                    ", which cannot branch a conversation, so there is no copy to ask it for. carry this one on with `amx resume ",
                );
                s.append(id);
                s.append("`, or start a fresh agent with `amx new`");
                Some(s)
            }
        },
    }
}

/// The session a copy is made from, or why there is none to copy.
pub open spec fn copied_session_spec(m: Meta) -> Result<Seq<char>, Seq<char>> {
    match m.session {
        None => Err(
            "no session was ever recorded for "@ + m.id@
                + ", so there is no conversation to copy. start a fresh agent with `amx new`"@,
        ),
        Some(s) => if is_session_id_spec(s@) {
            Ok(s@)
        } else {
            Err(
                "the session recorded for "@ + m.id@
                    + " is not a session id, so it will not be handed on"@,
            )
        },
    }
}

pub fn copied_session(m: &Meta) -> (r: Result<String, String>)
    ensures
        r matches Ok(s) ==> copied_session_spec(*m) == Ok::<Seq<char>, Seq<char>>(s@),
        r matches Err(e) ==> copied_session_spec(*m) == Err::<Seq<char>, Seq<char>>(e@),
{
    match &m.session {
        None => {
            let mut e = text::joined("no session was ever recorded for ", m.id.as_str());
            e.append(", so there is no conversation to copy. start a fresh agent with `amx new`");
            Err(e)
        },
        Some(s) => {
            if is_session_id(s.as_str()) {
                Ok(s.clone())
            } else {
                let mut e = text::joined("the session recorded for ", m.id.as_str());
                e.append(" is not a session id, so it will not be handed on");
                Err(e)
            }
        },
    }
}


/// What the verb makes of an agent asked to be copied, before anything is
/// made: a refusal, the cap, or the copy's session, task and argv.
#[derive(Debug, Clone, PartialEq, Eq)]
pub enum Fork {
    /// Nothing to copy, nowhere to copy it, or a vendor that cannot branch.
    Refused(String),
    /// As many agents going as the cap allows: the verb exits `BLOCKED`.
    Full(String),
    Copy { session: String, task: String, command: Vec<String> },
}

pub open spec fn fork_view(f: Fork) -> Result<(Seq<char>, Seq<char>, Seq<Seq<char>>), (bool, Seq<char>)> {
    match f {
        Fork::Refused(s) => Err((false, s@)),
        Fork::Full(s) => Err((true, s@)),
        Fork::Copy { session, task, command } => Ok((session@, task@, flags(command))),
    }
}

/// The questions in the order they are asked: the session there is to copy,
/// the directory to copy it in, whether the vendor the recorded words name can
/// be asked for a copy, and whether the cap has room for another agent. The
/// copy's task is what it was given, else the task of the agent it came from.
pub open spec fn run_spec(
    m: Meta,
    dir_exists: bool,
    h: Handoff,
    v: Option<Vendor>,
    live: nat,
    max: nat,
    prompt: Option<Seq<char>>,
) -> Result<(Seq<char>, Seq<char>, Seq<Seq<char>>), (bool, Seq<char>)> {
    match copied_session_spec(m) {
        Err(e) => Err((false, e)),
        Ok(session) => if !dir_exists {
            Err((false, m.dir@ + " is gone, and it is where "@ + m.id@ + " ran"@))
        } else {
            match cannot_branch_spec(v, m.id@) {
                Some(e) => Err((false, e)),
                None => match at_capacity_spec(live, max) {
                    Some(full) => Err((true, "amx fork: "@ + full)),
                    None => Ok((
                        session,
                        match prompt {
                            Some(p) => p,
                            None => m.task@,
                        },
                        copying_spec(h, session, prompt),
                    )),
                },
            }
        },
    }
}

pub fn run(
    m: &Meta,
    dir_exists: bool,
    h: &Handoff,
    v: Option<&Vendor>,
    live: u64,
    max: u64,
    prompt: Option<&str>,
) -> (f: Fork)
    ensures
        fork_view(f) == run_spec(
            *m,
            dir_exists,
            *h,
            match v {
                Some(x) => Some(*x),
                None => None,
            },
            live as nat,
            max as nat,
            match prompt {
                Some(p) => Some(p@),
                None => None,
            },
        ),
{
    let session = match copied_session(m) {
        Err(e) => {
            return Fork::Refused(e);
        },
        Ok(s) => s,
    };
    if !dir_exists {
        let mut e = text::joined(m.dir.as_str(), " is gone, and it is where ");
        e.append(m.id.as_str());
        e.append(" ran");
        return Fork::Refused(e);
    }
    match cannot_branch(v, m.id.as_str()) {
        Some(e) => {
            return Fork::Refused(e);
        },
        None => {},
    }
    match at_capacity(live, max) {
        Some(full) => {
            return Fork::Full(text::joined("amx fork: ", full.as_str()));
        },
        None => {},
    }
    let task = match prompt {
        Some(p) => p.to_string(),
        None => m.task.clone(),
    };
    let command = copying(h, session.as_str(), prompt);
    Fork::Copy { session, task, command }
}

} // verus!
