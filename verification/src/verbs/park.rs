//! `amx _park` — let an idle agent's pane go, and keep everything else.
//!
//! The pane goes and the agent stays: the record, the event log, the
//! transcript and the vendor's session are where they were. A tmux server
//! runs the verb once, some seconds after the hook that left the record idle,
//! so every reason to leave the pane where it is is asked again from scratch,
//! and any one of them ends the verb having done nothing at all.
use vstd::prelude::*;
use crate::store::{Phase, State};

verus! {

/// What amx records when it lets a pane go.
pub const PARKED: &'static str = "park";

/// The moment `park_after` seconds after `since`, held at the top of a `u64`.
pub open spec fn due(since: u64, park_after: u64) -> int {
    if since + park_after > u64::MAX {
        u64::MAX as int
    } else {
        since + park_after
    }
}

/// Whether the record says this agent has sat idle long enough for its pane
/// to be worth more than what it is doing with it. A key of zero parks
/// nothing.
pub open spec fn ripe_spec(state: State, park_after: u64, now: u64) -> bool {
    &&& park_after > 0
    &&& state.state == Phase::Idle
    &&& now >= due(state.since, park_after)
}

pub fn ripe(state: &State, park_after: u64, now: u64) -> (b: bool)
    ensures
        b == ripe_spec(*state, park_after, now),
{
    park_after > 0 && state.state == Phase::Idle && now >= state.since.saturating_add(park_after)
}

/// The pane, as it stands when the timer fires: whether it is still there,
/// whether a client is showing it, and whether the view has it pinned.
#[derive(Debug, Clone, Copy, PartialEq, Eq, Structural)]
pub struct Pane {
    pub alive: bool,
    pub watched: bool,
    pub pinned: bool,
}

/// What the verb does about one agent.
#[derive(Debug, Clone, Copy, PartialEq, Eq, Structural)]
pub enum Parking {
    /// Nothing: one of the reasons to keep the pane holds.
    Leave,
    /// Let the pane go, after the agent had sat idle this many seconds.
    LetGo { idle: u64 },
}

/// The decision. A pane already gone is an agent that ended, and is not
/// stamped; a pane on somebody's screen, or pinned in the view, stays.
pub open spec fn consider_spec(state: State, park_after: u64, now: u64, pane: Pane) -> Parking {
    if ripe_spec(state, park_after, now) && pane.alive && !pane.watched && !pane.pinned {
        Parking::LetGo { idle: (now - state.since) as u64 }
    } else {
        Parking::Leave
    }
}

pub fn consider(state: &State, park_after: u64, now: u64, pane: Pane) -> (p: Parking)
    ensures
        p == consider_spec(*state, park_after, now, pane),
{
    if !ripe(state, park_after, now) {
        return Parking::Leave;
    }
    if !pane.alive {
        return Parking::Leave;
    }
    if pane.watched || pane.pinned {
        return Parking::Leave;
    }
    Parking::LetGo { idle: now - state.since }
}

/// The stamp a pane that was let go leaves on the record, and nothing else:
/// this is something amx did rather than something the agent said, so the
/// phase, the question and the moment anything was last heard stay put.
pub fn stamp(state: &mut State, now: u64)
    ensures
        *final(state) == (State { parked_at: now, ..*old(state) }),
{
    state.parked_at = now;
}

/// A timer that fires late finds an agent that was ripe still ripe.
pub proof fn ripe_stays_ripe(state: State, park_after: u64, now: u64, later: u64)
    requires
        ripe_spec(state, park_after, now),
        now <= later,
    ensures
        ripe_spec(state, park_after, later),
{
}

/// Every reason to keep a pane keeps it: an agent that is not idle, a key of
/// zero, a moment short of the key, a pane already gone, one on somebody's
/// screen and one somebody pinned each end the verb having done nothing.
pub proof fn any_reason_to_stay_keeps_the_pane(state: State, park_after: u64, now: u64, pane: Pane)
    requires
        state.state != Phase::Idle || park_after == 0 || now < due(state.since, park_after)
            || !pane.alive || pane.watched || pane.pinned,
    ensures
        consider_spec(state, park_after, now, pane) == Parking::Leave,
{
}

/// And an agent that meets none of them has its pane let go, with how long
/// it had sat there.
pub proof fn an_idle_agent_nobody_holds_is_parked(state: State, park_after: u64, now: u64, pane: Pane)
    requires
        ripe_spec(state, park_after, now),
        pane.alive,
        !pane.watched,
        !pane.pinned,
    ensures
        consider_spec(state, park_after, now, pane) == (Parking::LetGo { idle: (now - state.since) as u64 }),
        now >= state.since,
{
}

} // verus!
