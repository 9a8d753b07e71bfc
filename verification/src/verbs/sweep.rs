//! `amx sweep` — forget the agents whose work is in. What makes an agent a
//! candidate is never amx's own opinion of the work: it is the forge saying
//! the request is over, git saying the branch is in the main line, or the
//! origin no longer having the branch. Nothing is swept without being listed
//! first, and nothing is taken until that list has been agreed to.
use vstd::prelude::*;
use crate::derive::Reading;
use crate::store::{Phase, terminal};
use crate::text::{self, decimal, lower, trim};

verus! {

/// Where a request on the forge stands.
#[derive(Debug, Clone, Copy, PartialEq, Eq, Structural)]
pub enum Standing {
    Draft,
    Open,
    Failing,
    Ready,
    Merged,
    Closed,
}

/// A request on the forge, by its number.
#[derive(Debug, Clone, Copy, PartialEq, Eq, Structural)]
pub struct Pr {
    pub number: u64,
    pub standing: Standing,
}

/// Whether a request is over: merged, or closed without it.
pub open spec fn over(s: Standing) -> bool {
    s == Standing::Merged || s == Standing::Closed
}

/// How a row says where a request stands.
pub open spec fn says_spec(s: Standing) -> Seq<char> {
    match s {
        Standing::Draft => "draft"@,
        Standing::Open => "open"@,
        Standing::Failing => "failing"@,
        Standing::Ready => "ready"@,
        Standing::Merged => "merged"@,
        Standing::Closed => "closed"@,
    }
}

impl Standing {
    pub fn settled(&self) -> (b: bool)
        ensures
            b == over(*self),
    {
        matches!(self, Standing::Merged | Standing::Closed)
    }

    pub fn says(&self) -> (s: &'static str)
        ensures
            s@ == says_spec(*self),
    {
        match self {
            Standing::Draft => "draft",
            Standing::Open => "open",
            Standing::Failing => "failing",
            Standing::Ready => "ready",
            Standing::Merged => "merged",
            Standing::Closed => "closed",
        }
    }
}

/// Whether the agent is done being an agent: its turn ended, or it is sitting
/// there with nothing to do.
pub open spec fn finished_spec(p: Phase) -> bool {
    terminal(p) || p == Phase::Idle
}

pub fn finished(p: Phase) -> (b: bool)
    ensures
        b == finished_spec(p),
{
    p.is_terminal() || p == Phase::Idle
}

/// The first request on the branch that is over, from the `i`th on.
pub open spec fn first_over(prs: Seq<Pr>, i: int) -> Option<int>
    decreases prs.len() - i,
{
    if i < 0 || i >= prs.len() {
        None
    } else if over(prs[i].standing) {
        Some(i)
    } else {
        first_over(prs, i + 1)
    }
}

/// The first request on the branch that is over, said the way a row says it.
pub open spec fn settled_spec(prs: Seq<Pr>) -> Option<Seq<char>> {
    match first_over(prs, 0) {
        Some(i) => Some("#"@ + decimal(prs[i].number as nat) + " "@ + says_spec(prs[i].standing)),
        None => None,
    }
}

pub fn settled(prs: &Vec<Pr>) -> (r: Option<String>)
    ensures
        r matches Some(s) ==> settled_spec(prs@) == Some(s@),
        r is None ==> settled_spec(prs@) is None,
{
    let mut i: usize = 0;
    while i < prs.len()
        invariant
            i <= prs.len(),
            first_over(prs@, 0) == first_over(prs@, i as int),
        decreases prs.len() - i,
    {
        if prs[i].standing.settled() {
            let n = text::number(prs[i].number);
            let mut s = text::joined("#", n.as_str());
            s.append(" ");
            s.append(prs[i].standing.says());
            return Some(s);
        }
        i += 1;
    }
    None
}

/// What is known of a branch's work, gathered by whoever can ask git and the
/// forge: the requests on it, the main branch where git says the branch is
/// merged into it, and whether the origin no longer has the branch.
#[derive(Debug, Clone, PartialEq, Eq)]
pub struct Landing {
    pub requests: Vec<Pr>,
    pub merged_into: Option<String>,
    pub gone_from_origin: bool,
}

/// Why this agent is on the list, or nothing at all: a finished agent on a
/// branch of amx's cutting whose work has landed — by a request that is over,
/// by its branch being in the main line, or by its branch being gone from the
/// origin, asked in that order.
pub open spec fn landed_spec(v: Reading, facts: Landing) -> Option<Seq<char>> {
    if !finished_spec(v.verdict.phase) {
        None
    } else {
        match v.meta.branch {
            None => None,
            Some(b) => match settled_spec(facts.requests@) {
                Some(s) => Some(s),
                None => match facts.merged_into {
                    Some(main) => Some(b@ + " merged into "@ + main@),
                    None => if facts.gone_from_origin {
                        Some(b@ + " gone from origin"@)
                    } else {
                        None
                    },
                },
            },
        }
    }
}

/// Why this agent is on the list, from what is known of its branch.
pub fn why_landed(v: &Reading, facts: &Landing) -> (r: Option<String>)
    ensures
        r matches Some(s) ==> landed_spec(*v, *facts) == Some(s@),
        r is None ==> landed_spec(*v, *facts) is None,
{
    if !finished(v.phase()) {
        return None;
    }
    match &v.meta.branch {
        None => None,
        Some(b) => match settled(&facts.requests) {
            Some(s) => Some(s),
            None => match &facts.merged_into {
                Some(main) => {
                    let mut s = text::joined(b.as_str(), " merged into ");
                    s.append(main.as_str());
                    Some(s)
                },
                None => {
                    if facts.gone_from_origin {
                        Some(text::joined(b.as_str(), " gone from origin"))
                    } else {
                        None
                    }
                },
            },
        },
    }
}

/// The same, for the verb at a shell, whose `facts` carry the requests as the
/// forge answers now rather than as the last look wrote them down: the view
/// cannot wait on a network, and a sweep that prints a list and waits for an
/// answer can. The reasons are read off the facts the same way.
pub fn why_landed_asking(v: &Reading, facts: &Landing) -> (r: Option<String>)
    ensures
        r matches Some(s) ==> landed_spec(*v, *facts) == Some(s@),
        r is None ==> landed_spec(*v, *facts) is None,
{
    why_landed(v, facts)
}

/// The one question, asked once for a whole list (`verb` is what would be
/// done to it): anything that is not plainly yes — a shrug, a typo, nobody
/// there at all (`None`) — is a no.
pub open spec fn asked_once_spec(verb: Seq<char>, count: nat, typed: Option<Seq<char>>) -> (
    bool,
    Seq<char>,
) {
    let asked = verb + " "@ + decimal(count) + "? [y/N] "@;
    match typed {
        None => (false, asked + "\n"@),
        Some(t) => {
            let w = lower(trim(t));
            (w == "y"@ || w == "yes"@, asked)
        },
    }
}

pub fn asked_once(verb: &str, count: u64, typed: Option<&str>) -> (r: (bool, String))
    ensures
        ({
            let want = asked_once_spec(
                verb@,
                count as nat,
                match typed {
                    Some(t) => Some(t@),
                    None => None,
                },
            );
            r.0 == want.0 && r.1@ == want.1
        }),
{
    let n = text::number(count);
    let mut asked = text::joined(verb, " ");
    asked.append(n.as_str());
    asked.append("? [y/N] ");
    match typed {
        None => {
            asked.append("\n");
            (false, asked)
        },
        Some(t) => {
            let trimmed = text::trimmed(t);
            let w = text::lowered(trimmed.as_str());
            let yes = text::same_text(w.as_str(), "y") || text::same_text(w.as_str(), "yes");
            (yes, asked)
        },
    }
}

/// Whether the sweep of `count` candidates was agreed to.
pub fn agreed(count: u64, typed: Option<&str>) -> (r: (bool, String))
    ensures
        ({
            let want = asked_once_spec(
                "sweep"@,
                count as nat,
                match typed {
                    Some(t) => Some(t@),
                    None => None,
                },
            );
            r.0 == want.0 && r.1@ == want.1
        }),
{
    asked_once("sweep", count, typed)
}

/// What the sweep lists: each candidate and why it is one, or that there is
/// nothing to sweep.
pub open spec fn listed_spec(candidates: Seq<(Seq<char>, Seq<char>)>) -> Seq<char>
    decreases candidates.len(),
{
    if candidates.len() == 0 {
        Seq::empty()
    } else {
        listed_spec(candidates.drop_last()) + candidates.last().0 + "  "@ + candidates.last().1
            + "\n"@
    }
}

/// The list a sweep puts in front of somebody before anything is taken.
pub fn listed(candidates: &Vec<(String, String)>) -> (s: String)
    ensures
        s@ == if candidates@.len() == 0 {
            "nothing to sweep\n"@
        } else {
            listed_spec(candidates@.map_values(|c: (String, String)| (c.0@, c.1@)))
        },
{
    if candidates.len() == 0 {
        return "nothing to sweep\n".to_string();
    }
    let ghost all = candidates@.map_values(|c: (String, String)| (c.0@, c.1@));
    let mut s = String::new();
    let mut i: usize = 0;
    while i < candidates.len()
        invariant
            i <= candidates.len(),
            all == candidates@.map_values(|c: (String, String)| (c.0@, c.1@)),
            s@ == listed_spec(all.take(i as int)),
        decreases candidates.len() - i,
    {
        s.append(candidates[i].0.as_str());
        s.append("  ");
        s.append(candidates[i].1.as_str());
        s.append("\n");
        assert(all.take(i + 1).drop_last() =~= all.take(i as int));
        i += 1;
    }
    assert(all.take(candidates.len() as int) =~= all);
    s
}

/// The law `stop` keeps, answered before the ladder starts: a tree that is
/// there and holds work no commit has (or that git cannot vouch for) keeps its
/// record too, and this is the line that says so. `None` is go ahead.
pub open spec fn kept_spec(id: Seq<char>, tree: Option<Seq<char>>, exists: bool, dirty: Option<bool>) -> Option<
    Seq<char>,
> {
    match tree {
        Some(t) => if exists && dirty != Some(false) {
            Some("kept "@ + id + ": "@ + t + " holds work no commit has"@)
        } else {
            None
        },
        None => None,
    }
}

pub fn kept(id: &str, tree: Option<&str>, exists: bool, dirty: Option<bool>) -> (r: Option<String>)
    ensures
        r matches Some(s) ==> kept_spec(
            id@,
            match tree {
                Some(t) => Some(t@),
                None => None,
            },
            exists,
            dirty,
        ) == Some(s@),
        r is None ==> kept_spec(
            id@,
            match tree {
                Some(t) => Some(t@),
                None => None,
            },
            exists,
            dirty,
        ) is None,
{
    match tree {
        Some(t) => {
            let unsure_or_dirty = match dirty {
                Some(d) => d,
                None => true,
            };
            if exists && unsure_or_dirty {
                let mut s = text::joined("kept ", id);
                s.append(": ");
                s.append(t);
                s.append(" holds work no commit has");
                Some(s)
            } else {
                None
            }
        },
        None => None,
    }
}

/// The ids of a list of candidates, in its order.
pub open spec fn ids_spec(candidates: Seq<(Seq<char>, Seq<char>)>) -> Seq<Seq<char>> {
    candidates.map_values(|c: (Seq<char>, Seq<char>)| c.0)
}

/// A round over a list of candidates (each an id and why it is one), for a
/// verb (`sweep`, `clear`) and the word for what it did (`swept`, `cleared`):
/// what it says and which agents it takes, in that order. An empty list says
/// there is nothing to do; otherwise the list comes first, then the one
/// question unless `force`, and a no takes nothing. `typed` is the line
/// answered, `None` where nobody was there to answer.
pub open spec fn round_spec(
    verb: Seq<char>,
    done: Seq<char>,
    candidates: Seq<(Seq<char>, Seq<char>)>,
    force: bool,
    typed: Option<Seq<char>>,
) -> (Seq<char>, Seq<Seq<char>>) {
    if candidates.len() == 0 {
        ("nothing to "@ + verb + "\n"@, Seq::empty())
    } else if force {
        (listed_spec(candidates), ids_spec(candidates))
    } else {
        let asked = asked_once_spec(verb, candidates.len(), typed);
        if asked.0 {
            (listed_spec(candidates) + asked.1, ids_spec(candidates))
        } else {
            (listed_spec(candidates) + asked.1 + "nothing "@ + done + "\n"@, Seq::empty())
        }
    }
}

/// The round's decisions: what it prints before it takes anything, and the
/// ids it takes, in the order listed. Taking each is the caller's.
pub fn round(
    verb: &str,
    done: &str,
    candidates: &Vec<(String, String)>,
    force: bool,
    typed: Option<&str>,
) -> (r: (String, Vec<String>))
    ensures
        ({
            let want = round_spec(
                verb@,
                done@,
                candidates@.map_values(|c: (String, String)| (c.0@, c.1@)),
                force,
                match typed {
                    Some(t) => Some(t@),
                    None => None,
                },
            );
            r.0@ == want.0 && r.1@.map_values(|t: String| t@) == want.1
        }),
{
    let ghost all = candidates@.map_values(|c: (String, String)| (c.0@, c.1@));
    if candidates.len() == 0 {
        let mut said = text::joined("nothing to ", verb);
        said.append("\n");
        assert(Seq::<String>::empty().map_values(|t: String| t@) =~= Seq::<Seq<char>>::empty());
        return (said, Vec::new());
    }
    let said = listed(candidates);
    let mut ids: Vec<String> = Vec::new();
    let mut i: usize = 0;
    while i < candidates.len()
        invariant
            i <= candidates.len(),
            all == candidates@.map_values(|c: (String, String)| (c.0@, c.1@)),
            ids@.len() == i,
            all.len() == candidates@.len(),
            ids@.map_values(|t: String| t@) == ids_spec(all).take(i as int),
        decreases candidates.len() - i,
    {
        let id = candidates[i].0.clone();
        proof {
            assert(all[i as int] == (candidates@[i as int].0@, candidates@[i as int].1@));
            assert(ids_spec(all)[i as int] == id@);
        }
        let ghost before = ids@;
        ids.push(id);
        proof {
            assert forall|j: int| 0 <= j < i + 1 implies (#[trigger] ids@[j])@ == ids_spec(all).take(
                i + 1,
            )[j] by {
                if j < i {
                    assert(ids@[j] == before[j]);
                    assert(before.map_values(|t: String| t@)[j] == ids_spec(all).take(i as int)[j]);
                }
            }
        }
        assert(ids@.map_values(|t: String| t@) =~= ids_spec(all).take(i + 1));
        i += 1;
    }
    assert(ids_spec(all).take(candidates.len() as int) =~= ids_spec(all));
    if force {
        return (said, ids);
    }
    let (yes, asked) = asked_once(verb, candidates.len() as u64, typed);
    let mut said = said;
    said.append(asked.as_str());
    if yes {
        (said, ids)
    } else {
        said.append("nothing ");
        said.append(done);
        said.append("\n");
        assert(Seq::<String>::empty().map_values(|t: String| t@) =~= Seq::<Seq<char>>::empty());
        (said, Vec::new())
    }
}

/// A whole sweep over the agents whose work landed.
pub open spec fn sweep_spec(
    candidates: Seq<(Seq<char>, Seq<char>)>,
    force: bool,
    typed: Option<Seq<char>>,
) -> (Seq<char>, Seq<Seq<char>>) {
    round_spec("sweep"@, "swept"@, candidates, force, typed)
}

pub fn sweep(candidates: &Vec<(String, String)>, force: bool, typed: Option<&str>) -> (r: (
    String,
    Vec<String>,
))
    ensures
        ({
            let want = sweep_spec(
                candidates@.map_values(|c: (String, String)| (c.0@, c.1@)),
                force,
                match typed {
                    Some(t) => Some(t@),
                    None => None,
                },
            );
            r.0@ == want.0 && r.1@.map_values(|t: String| t@) == want.1
        }),
{
    round("sweep", "swept", candidates, force, typed)
}

/// Nothing is taken that was not listed, nor before the list was agreed to:
/// a round (a sweep, a clear) takes either nothing or every candidate in the
/// order listed, without `force` only on a plain yes, and what it prints
/// starts with the list.
pub proof fn nothing_is_taken_unless_listed_and_agreed(
    verb: Seq<char>,
    done: Seq<char>,
    candidates: Seq<(Seq<char>, Seq<char>)>,
    force: bool,
    typed: Option<Seq<char>>,
)
    ensures
        round_spec(verb, done, candidates, force, typed).1.len() == 0 || round_spec(
            verb,
            done,
            candidates,
            force,
            typed,
        ).1 == ids_spec(candidates),
        round_spec(verb, done, candidates, force, typed).1.len() > 0 ==> candidates.len() > 0 && (
        force || asked_once_spec(verb, candidates.len(), typed).0),
        candidates.len() > 0 ==> round_spec(verb, done, candidates, force, typed).0.take(
            listed_spec(candidates).len() as int,
        ) == listed_spec(candidates),
        candidates.len() > 0 && !force && !asked_once_spec(verb, candidates.len(), typed).0
            ==> round_spec(verb, done, candidates, force, typed) == (
            listed_spec(candidates) + asked_once_spec(verb, candidates.len(), typed).1 + "nothing "@
                + done + "\n"@,
            Seq::<Seq<char>>::empty(),
        ),
        candidates.len() == 0 ==> round_spec(verb, done, candidates, force, typed) == (
            "nothing to "@ + verb + "\n"@,
            Seq::<Seq<char>>::empty(),
        ),
{
    if candidates.len() > 0 {
        let l = listed_spec(candidates);
        let asked = asked_once_spec(verb, candidates.len(), typed);
        assert((l + asked.1).take(l.len() as int) =~= l);
        assert((l + asked.1 + "nothing "@ + done + "\n"@).take(l.len() as int) =~= l);
        assert(l.take(l.len() as int) =~= l);
    }
}

/// A tree that is there and holds work no commit has, or that git cannot
/// vouch for, is kept with its record whatever was answered and with
/// `force`: the guard reads neither.
pub proof fn a_dirty_tree_is_kept_whatever_was_answered(id: Seq<char>, tree: Seq<char>, dirty: Option<bool>)
    ensures
        dirty != Some(false) ==> kept_spec(id, Some(tree), true, dirty) == Some(
            "kept "@ + id + ": "@ + tree + " holds work no commit has"@,
        ),
        kept_spec(id, Some(tree), true, Some(false)) is None,
{
}

/// Only an agent that is finished with its branch is ever a candidate.
pub proof fn only_a_finished_agent_is_swept(v: Reading, facts: Landing)
    ensures
        landed_spec(v, facts) is Some ==> finished_spec(v.verdict.phase) && v.meta.branch is Some,
{
}

} // verus!
