//! `amx wait` — one clock over several agents: name them, and it says which
//! of them is ready as each becomes ready.
//!
//! The library holds the decisions; whoever runs the clock reads the agents,
//! hands their readings to [`sweep`], prints what it says, and sleeps as long
//! as it says until it says the wait has ended.
use vstd::prelude::*;
use crate::derive::Evidence;
use crate::exit;
use crate::store::{Phase, phase_name};
use crate::text;

verus! {

/// How often the records are read while waiting, in milliseconds.
pub const POLL: u64 = 200;

/// How often a pane is read, once a reading needs one, in milliseconds.
pub const LOOK: u64 = 1000;

/// The ids with every one after its first naming left out.
pub open spec fn first_namings(ids: Seq<Seq<char>>) -> Seq<Seq<char>>
    decreases ids.len(),
{
    if ids.len() == 0 {
        Seq::empty()
    } else {
        let before = first_namings(ids.drop_last());
        if before.contains(ids.last()) {
            before
        } else {
            before.push(ids.last())
        }
    }
}

/// The agents to wait on, in the order they were named, each one once.
pub fn taken(ids: &Vec<String>) -> (r: Vec<String>)
    ensures
        r@.map_values(|s: String| s@) == first_namings(ids@.map_values(|s: String| s@)),
{
    let ghost all = ids@.map_values(|s: String| s@);
    let mut r: Vec<String> = Vec::new();
    let mut i: usize = 0;
    while i < ids.len()
        invariant
            i <= ids.len(),
            all == ids@.map_values(|s: String| s@),
            r@.map_values(|s: String| s@) == first_namings(all.take(i as int)),
        decreases ids.len() - i,
    {
        let ghost before = r@.map_values(|s: String| s@);
        assert(all.take(i + 1).drop_last() =~= all.take(i as int));
        assert(all.take(i + 1).last() == ids@[i as int]@);
        let mut seen = false;
        let mut j: usize = 0;
        while j < r.len()
            invariant
                j <= r.len(),
                i < ids.len(),
                before == r@.map_values(|s: String| s@),
                seen == exists|k: int| 0 <= k < j && before[k] == ids@[i as int]@,
            decreases r.len() - j,
        {
            assert(before[j as int] == r@[j as int]@);
            if text::same_text(r[j].as_str(), ids[i].as_str()) {
                seen = true;
            }
            j += 1;
        }
        proof {
            if seen {
                let k = choose|k: int| 0 <= k < r.len() && before[k] == ids@[i as int]@;
                assert(before.contains(ids@[i as int]@));
            } else {
                assert(!before.contains(ids@[i as int]@));
            }
        }
        if !seen {
            let id = ids[i].clone();
            r.push(id);
            assert(r@.map_values(|s: String| s@) =~= before.push(ids@[i as int]@));
        }
        i += 1;
    }
    assert(all.take(ids.len() as int) =~= all);
    r
}

/// Whether a reading is what the wait was for: the named phase, or, with
/// none named, a turn that is over or a question.
pub open spec fn settled_spec(phase: Phase, wanted: Option<Phase>) -> bool {
    match wanted {
        Some(w) => phase == w,
        None => phase == Phase::Waiting || phase == Phase::Idle || phase == Phase::Done
            || phase == Phase::Failed || phase == Phase::Stopped,
    }
}

pub fn settled(phase: Phase, wanted: Option<Phase>) -> (b: bool)
    ensures
        b == settled_spec(phase, wanted),
{
    match wanted {
        Some(w) => phase == w,
        None => matches!(
            phase,
            Phase::Waiting | Phase::Idle | Phase::Done | Phase::Failed | Phase::Stopped
        ),
    }
}

/// How long to wait before reading again, given what the last reading cost:
/// a screen is not free, a record is.
pub open spec fn pace_spec(e: Evidence) -> u64 {
    match e {
        Evidence::Screen | Evidence::Unknown => LOOK,
        _ => POLL,
    }
}

pub fn pace(e: Evidence) -> (ms: u64)
    ensures
        ms == pace_spec(e),
{
    match e {
        Evidence::Screen | Evidence::Unknown => LOOK,
        Evidence::Record | Evidence::Gone | Evidence::LetGo | Evidence::Hooks => POLL,
    }
}

/// One sweep over the first `k` agents still waited on: what it printed,
/// who is still waited on, whether `--any` has its agent, and the slowest
/// pace among the ones still going.
pub open spec fn swept(
    pending: Seq<Seq<char>>,
    seen: Seq<(Phase, Evidence)>,
    any: bool,
    wanted: Option<Phase>,
    k: int,
) -> (Seq<char>, Seq<Seq<char>>, bool, u64)
    decreases k,
{
    if k <= 0 {
        (Seq::empty(), Seq::empty(), false, POLL)
    } else {
        let prev = swept(pending, seen, any, wanted, k - 1);
        if prev.2 {
            prev
        } else {
            let id = pending[k - 1];
            let (phase, evidence) = seen[k - 1];
            if settled_spec(phase, wanted) {
                (prev.0 + id + " "@ + phase_name(phase) + "\n"@, prev.1, any, prev.3)
            } else {
                (
                    prev.0,
                    prev.1.push(id),
                    false,
                    if pace_spec(evidence) > prev.3 {
                        pace_spec(evidence)
                    } else {
                        prev.3
                    },
                )
            }
        }
    }
}

/// What one sweep comes to.
pub struct Sweep {
    /// A line for each agent that settled, `id phase`, in the order named.
    pub printed: String,
    /// The agents still waited on.
    pub pending: Vec<String>,
    /// The wait's exit code, once it has ended.
    pub ended: Option<i32>,
    /// How long to sleep before the next sweep, in milliseconds.
    pub pause: u64,
}

/// How a wait ends after this sweep: at once when `--any` has its agent or
/// nobody is left, with `TIMEOUT` when the caller's patience ran out before
/// that, and not yet otherwise. What was printed stands either way.
pub open spec fn ended_spec(hit: bool, left: nat, out_of_time: bool) -> Option<i32> {
    if hit || left == 0 {
        Some(exit::OK)
    } else if out_of_time {
        Some(exit::TIMEOUT)
    } else {
        None
    }
}

/// One sweep of the wait: `seen[i]` is the phase and evidence the reading of
/// `pending[i]` settled on; `out_of_time` is whether the caller's patience
/// ran out by the time the readings were taken.
pub fn sweep(
    pending: &Vec<String>,
    seen: &Vec<(Phase, Evidence)>,
    any: bool,
    wanted: Option<Phase>,
    out_of_time: bool,
) -> (s: Sweep)
    requires
        seen.len() == pending.len(),
    ensures
        ({
            let r = swept(
                pending@.map_values(|p: String| p@),
                seen@,
                any,
                wanted,
                pending.len() as int,
            );
            &&& s.printed@ == r.0
            &&& s.pending@.map_values(|p: String| p@) == r.1
            &&& s.ended == ended_spec(r.2, r.1.len(), out_of_time)
            &&& s.pause == r.3
        }),
{
    let ghost ids = pending@.map_values(|p: String| p@);
    let mut printed = String::new();
    let mut left: Vec<String> = Vec::new();
    let mut hit = false;
    let mut pause: u64 = POLL;
    let mut i: usize = 0;
    while i < pending.len()
        invariant
            i <= pending.len() == seen.len(),
            ids == pending@.map_values(|p: String| p@),
            (printed@, left@.map_values(|p: String| p@), hit, pause) == swept(
                ids,
                seen@,
                any,
                wanted,
                i as int,
            ),
        decreases pending.len() - i,
    {
        if !hit {
            let (phase, evidence) = seen[i];
            if settled(phase, wanted) {
                printed.append(pending[i].as_str());
                printed.append(" ");
                printed.append(phase.as_str());
                printed.append("\n");
                hit = any;
            } else {
                let ghost before = left@.map_values(|p: String| p@);
                left.push(pending[i].clone());
                assert(left@.map_values(|p: String| p@) =~= before.push(ids[i as int]));
                let p = pace(evidence);
                if p > pause {
                    pause = p;
                }
            }
        }
        i += 1;
    }
    let ended = if hit || left.len() == 0 {
        Some(exit::OK)
    } else if out_of_time {
        Some(exit::TIMEOUT)
    } else {
        None
    };
    Sweep { printed, pending: left, ended, pause }
}

/// Naming an agent twice waits on it once: taking the named agents a second
/// time takes the same ones in the same order.
pub proof fn naming_again_changes_nothing(ids: Seq<Seq<char>>)
    ensures
        first_namings(first_namings(ids)) == first_namings(ids),
        forall|i: int, j: int|
            0 <= i < j < first_namings(ids).len() ==> first_namings(ids)[i]
                != first_namings(ids)[j],
        forall|x: Seq<char>| ids.contains(x) <==> first_namings(ids).contains(x),
    decreases ids.len(),
{
    lemma_first_namings(ids);
    lemma_distinct_fixed(first_namings(ids));
}

/// What `first_namings` keeps: each id once, and every id it was given.
proof fn lemma_first_namings(ids: Seq<Seq<char>>)
    ensures
        forall|i: int, j: int|
            0 <= i < j < first_namings(ids).len() ==> first_namings(ids)[i]
                != first_namings(ids)[j],
        forall|x: Seq<char>| ids.contains(x) <==> first_namings(ids).contains(x),
    decreases ids.len(),
{
    if ids.len() > 0 {
        let rest = ids.drop_last();
        lemma_first_namings(rest);
        let before = first_namings(rest);
        assert forall|x: Seq<char>| ids.contains(x) <==> first_namings(ids).contains(x) by {
            if ids.contains(x) {
                let k = choose|k: int| 0 <= k < ids.len() && ids[k] == x;
                if k < ids.len() - 1 {
                    assert(rest[k] == x);
                    assert(rest.contains(x));
                    let m = choose|m: int| 0 <= m < before.len() && before[m] == x;
                    if !before.contains(ids.last()) {
                        assert(before.push(ids.last())[m] == x);
                    }
                } else if !before.contains(ids.last()) {
                    assert(before.push(ids.last())[before.len() as int] == x);
                }
            }
            if first_namings(ids).contains(x) {
                let m = choose|m: int|
                    0 <= m < first_namings(ids).len() && first_namings(ids)[m] == x;
                if m < before.len() {
                    if !before.contains(ids.last()) {
                        assert(before.push(ids.last())[m] == before[m]);
                    }
                    assert(before.contains(x));
                    assert(rest.contains(x));
                    let k = choose|k: int| 0 <= k < rest.len() && rest[k] == x;
                    assert(ids[k] == x);
                } else {
                    assert(ids[ids.len() - 1] == x);
                }
            }
        }
    }
}

/// A sequence with nothing in it twice is its own first namings.
proof fn lemma_distinct_fixed(s: Seq<Seq<char>>)
    requires
        forall|i: int, j: int| 0 <= i < j < s.len() ==> s[i] != s[j],
    ensures
        first_namings(s) == s,
    decreases s.len(),
{
    if s.len() > 0 {
        let rest = s.drop_last();
        assert forall|i: int, j: int| 0 <= i < j < rest.len() implies rest[i] != rest[j] by {
            assert(rest[i] == s[i] && rest[j] == s[j]);
        }
        lemma_distinct_fixed(rest);
        assert(!rest.contains(s.last())) by {
            if rest.contains(s.last()) {
                let k = choose|k: int| 0 <= k < rest.len() && rest[k] == s.last();
                assert(s[k] == s[s.len() - 1]);
            }
        }
        assert(rest.push(s.last()) =~= s);
    }
}

/// `--any` ends at the first agent to settle: over any prefix of the agents
/// named, a sweep with `any` set prints nothing and has not ended while none
/// of them has settled, and once one has it prints exactly the line of the
/// first in the order named to settle, and nothing of any after it.
pub proof fn any_ends_at_the_first_agent_to_settle(
    pending: Seq<Seq<char>>,
    seen: Seq<(Phase, Evidence)>,
    wanted: Option<Phase>,
    k: int,
)
    requires
        pending.len() == seen.len(),
        0 <= k <= pending.len(),
    ensures
        (forall|j: int| 0 <= j < k ==> !settled_spec((#[trigger] seen[j]).0, wanted)) ==> swept(
            pending,
            seen,
            true,
            wanted,
            k,
        ).0.len() == 0 && !swept(pending, seen, true, wanted, k).2,
        forall|f: int|
            0 <= f < k && settled_spec((#[trigger] seen[f]).0, wanted) && (forall|j: int|
                0 <= j < f ==> !settled_spec(seen[j].0, wanted)) ==> swept(
                pending,
                seen,
                true,
                wanted,
                k,
            ).0 == pending[f] + " "@ + phase_name(seen[f].0) + "\n"@ && swept(
                pending,
                seen,
                true,
                wanted,
                k,
            ).2,
    decreases k,
{
    if k > 0 {
        any_ends_at_the_first_agent_to_settle(pending, seen, wanted, k - 1);
        assert forall|f: int|
            0 <= f < k && settled_spec((#[trigger] seen[f]).0, wanted) && (forall|j: int|
                0 <= j < f ==> !settled_spec(seen[j].0, wanted)) implies swept(
            pending,
            seen,
            true,
            wanted,
            k,
        ).0 == pending[f] + " "@ + phase_name(seen[f].0) + "\n"@ && swept(
            pending,
            seen,
            true,
            wanted,
            k,
        ).2 by {
            if f == k - 1 {
                assert(forall|j: int| 0 <= j < k - 1 ==> !settled_spec((#[trigger] seen[j]).0, wanted));
                assert(swept(pending, seen, true, wanted, k - 1).0 =~= Seq::<char>::empty());
                assert(Seq::<char>::empty() + pending[f] + " "@ + phase_name(seen[f].0) + "\n"@
                    =~= pending[f] + " "@ + phase_name(seen[f].0) + "\n"@);
            }
        }
    }
}

/// Without `--any` a sweep never ends early: every agent named is either
/// reported, when it has settled, or still waited on, in the order named,
/// so no agent is dropped or reported twice.
pub proof fn without_any_every_agent_is_reported_or_still_waited_on(
    pending: Seq<Seq<char>>,
    seen: Seq<(Phase, Evidence)>,
    wanted: Option<Phase>,
    k: int,
)
    requires
        pending.len() == seen.len(),
        0 <= k <= pending.len(),
    ensures
        !swept(pending, seen, false, wanted, k).2,
        swept(pending, seen, false, wanted, k).1.len() <= k,
        (forall|j: int| 0 <= j < k ==> !settled_spec((#[trigger] seen[j]).0, wanted)) ==> swept(
            pending,
            seen,
            false,
            wanted,
            k,
        ).1 == pending.take(k),
        (forall|j: int| 0 <= j < k ==> settled_spec((#[trigger] seen[j]).0, wanted)) ==> swept(
            pending,
            seen,
            false,
            wanted,
            k,
        ).1.len() == 0,
    decreases k,
{
    if k > 0 {
        without_any_every_agent_is_reported_or_still_waited_on(pending, seen, wanted, k - 1);
        if forall|j: int| 0 <= j < k ==> !settled_spec((#[trigger] seen[j]).0, wanted) {
            assert(!settled_spec(seen[k - 1].0, wanted));
            assert(pending.take(k - 1).push(pending[k - 1]) =~= pending.take(k));
        }
        if forall|j: int| 0 <= j < k ==> settled_spec((#[trigger] seen[j]).0, wanted) {
            assert(settled_spec(seen[k - 1].0, wanted));
        }
    }
}

} // verus!
