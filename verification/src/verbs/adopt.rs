//! `amx adopt` — an agent that was already there.
//!
//! Somebody's own agent, in their own tmux, in a pane amx did not open.
//! Adopting writes the record that was missing and changes nothing else. It
//! is typed inside the agent being adopted: the pane is `$TMUX_PANE`, and the
//! conversation is whichever variable the vendor names its session in. Which
//! vendor that is comes from the environment too, and not from the config.
//!
//! What amx did not do for this agent it does not claim: no worktree, no
//! branch, no commit to measure a diff from.
use vstd::prelude::*;
use crate::store::Phase;
use crate::text::{self, joined_with};
use crate::verbs::stop::{lemma_lex_asymmetric, lemma_lex_total, lex_lt, sorts_before};

verus! {

/// What amx records when it takes over an agent it did not start.
pub const ADOPTED: &'static str = "adopt";

/// Where tmux says which pane a process is running in.
pub const PANE_ENV: &'static str = "TMUX_PANE";

/// One vendor, as far as adopting reads it: its name, whether amx can take
/// one of its agents over, and the variable it names its session in.
#[derive(Debug, Clone, PartialEq, Eq)]
pub struct Taker {
    pub name: String,
    pub adopts: bool,
    pub session_env: Option<String>,
}

/// The value of `key` in an environment given as its pairs.
pub open spec fn lookup(env: Seq<(String, String)>, key: Seq<char>) -> Option<Seq<char>>
    decreases env.len(),
{
    if env.len() == 0 {
        None
    } else if env[0].0@ == key {
        Some(env[0].1@)
    } else {
        lookup(env.drop_first(), key)
    }
}

fn get(env: &Vec<(String, String)>, key: &str) -> (r: Option<String>)
    ensures
        r matches Some(v) ==> lookup(env@, key@) == Some(v@),
        r is None ==> lookup(env@, key@) is None,
{
    let mut i: usize = 0;
    assert(env@.skip(0) =~= env@);
    while i < env.len()
        invariant
            i <= env.len(),
            lookup(env@, key@) == lookup(env@.skip(i as int), key@),
        decreases env.len() - i,
    {
        assert(env@.skip(i as int).drop_first() =~= env@.skip(i + 1));
        if text::same_text(env[i].0.as_str(), key) {
            return Some(env[i].1.clone());
        }
        i += 1;
    }
    None
}

/// The session this vendor's variable names here, where it names one.
pub open spec fn named(v: Taker, env: Seq<(String, String)>) -> Option<Seq<char>> {
    match v.session_env {
        None => None,
        Some(k) => match lookup(env, k@) {
            Some(s) => if s.len() > 0 {
                Some(s)
            } else {
                None
            },
            None => None,
        },
    }
}

/// The first vendor at or after `i` whose variable is here.
pub open spec fn first_named(vs: Seq<Taker>, env: Seq<(String, String)>, i: int) -> Option<int>
    decreases vs.len() - i,
{
    if i < 0 || i >= vs.len() {
        None
    } else if named(vs[i], env) is Some {
        Some(i)
    } else {
        first_named(vs, env, i + 1)
    }
}

/// The names of the vendors amx can take one of over, in the table's order.
pub open spec fn adoptable_names(vs: Seq<Taker>) -> Seq<Seq<char>>
    decreases vs.len(),
{
    if vs.len() == 0 {
        seq![]
    } else if vs.last().adopts {
        adoptable_names(vs.drop_last()).push(vs.last().name@)
    } else {
        adoptable_names(vs.drop_last())
    }
}

/// The variables those vendors name a session in, each as `$NAME`.
pub open spec fn looked_for(vs: Seq<Taker>) -> Seq<Seq<char>>
    decreases vs.len(),
{
    if vs.len() == 0 {
        seq![]
    } else if vs.last().adopts && vs.last().session_env is Some {
        looked_for(vs.drop_last()).push("$"@ + vs.last().session_env->0@)
    } else {
        looked_for(vs.drop_last())
    }
}

/// A list of things to name in a sentence: `a`, or `a or b`, or `a, b or c`.
pub open spec fn either_spec(each: Seq<Seq<char>>) -> Seq<char> {
    if each.len() == 0 {
        "nothing"@
    } else if each.len() == 1 {
        each[0]
    } else {
        joined_with(each.drop_last(), ", "@) + " or "@ + each.last()
    }
}

pub fn either(each: &Vec<String>) -> (s: String)
    ensures
        s@ == either_spec(each@.map_values(|e: String| e@)),
{
    let ghost all = each@.map_values(|e: String| e@);
    if each.len() == 0 {
        return "nothing".to_string();
    }
    if each.len() == 1 {
        return each[0].clone();
    }
    let mut before: Vec<String> = Vec::new();
    let mut i: usize = 0;
    while i + 1 < each.len()
        invariant
            i + 1 <= each.len(),
            all == each@.map_values(|e: String| e@),
            before@.map_values(|e: String| e@) == all.take(i as int),
        decreases each.len() - i,
    {
        let ghost b = before@.map_values(|e: String| e@);
        before.push(each[i].clone());
        assert(before@.map_values(|e: String| e@) =~= b.push(all[i as int]));
        assert(all.take(i + 1) =~= all.take(i as int).push(all[i as int]));
        i += 1;
    }
    assert(all.take(i as int) =~= all.drop_last());
    let mut s = text::join(&before, ", ");
    s.append(" or ");
    s.append(each[each.len() - 1].as_str());
    s
}

pub open spec fn cannot_spec(v: Taker) -> Seq<char> {
    "$"@ + v.session_env->0@ + " says this is a "@ + v.name@ + " session, and a "@ + v.name@
        + " cannot be taken over: amx would have a record here and no way to hear from it"@
}

pub open spec fn none_adoptable() -> Seq<char> {
    "amx has an entry for no vendor it can take over, so there is nothing here for `amx adopt` to write a record about"@
}

pub open spec fn no_session_spec(vs: Seq<Taker>) -> Seq<char> {
    "no "@ + either_spec(looked_for(vs)) + " here, so no "@ + either_spec(adoptable_names(vs))
        + " started this command. `amx adopt` is run inside the agent it adopts, and that session id is how its events are recognised afterwards"@
}

/// The vendor this command was typed inside, and the conversation it names:
/// the first vendor whose variable is here, refused where it is one amx
/// cannot take over; else the refusal naming what was looked for.
pub open spec fn session_spec(vs: Seq<Taker>, env: Seq<(String, String)>) -> Result<(int, Seq<char>), Seq<char>> {
    match first_named(vs, env, 0) {
        Some(i) => if vs[i].adopts {
            Ok((i, named(vs[i], env)->0))
        } else {
            Err(cannot_spec(vs[i]))
        },
        None => if adoptable_names(vs).len() == 0 {
            Err(none_adoptable())
        } else {
            Err(no_session_spec(vs))
        },
    }
}

fn lists(vs: &Vec<Taker>) -> (r: (Vec<String>, Vec<String>))
    ensures
        r.0@.map_values(|e: String| e@) == adoptable_names(vs@),
        r.1@.map_values(|e: String| e@) == looked_for(vs@),
{
    let mut names: Vec<String> = Vec::new();
    let mut vars: Vec<String> = Vec::new();
    let mut i: usize = 0;
    while i < vs.len()
        invariant
            i <= vs.len(),
            names@.map_values(|e: String| e@) == adoptable_names(vs@.take(i as int)),
            vars@.map_values(|e: String| e@) == looked_for(vs@.take(i as int)),
        decreases vs.len() - i,
    {
        assert(vs@.take(i + 1).drop_last() =~= vs@.take(i as int));
        let ghost n = names@.map_values(|e: String| e@);
        let ghost w = vars@.map_values(|e: String| e@);
        if vs[i].adopts {
            names.push(vs[i].name.clone());
            assert(names@.map_values(|e: String| e@) =~= n.push(vs@[i as int].name@));
            match &vs[i].session_env {
                Some(k) => {
                    let var = text::joined("$", k.as_str());
                    let ghost kv = var@;
                    vars.push(var);
                    assert(vars@.map_values(|e: String| e@) =~= w.push(kv));
                },
                None => {},
            }
        }
        i += 1;
    }
    assert(vs@.take(vs.len() as int) =~= vs@);
    (names, vars)
}

pub fn session_in(vs: &Vec<Taker>, env: &Vec<(String, String)>) -> (r: Result<(usize, String), String>)
    ensures
        r matches Ok((i, s)) ==> session_spec(vs@, env@) == Ok::<(int, Seq<char>), Seq<char>>((i as int, s@)),
        r matches Err(e) ==> session_spec(vs@, env@) == Err::<(int, Seq<char>), Seq<char>>(e@),
{
    let mut i: usize = 0;
    while i < vs.len()
        invariant
            i <= vs.len(),
            first_named(vs@, env@, 0) == first_named(vs@, env@, i as int),
        decreases vs.len() - i,
    {
        match &vs[i].session_env {
            Some(k) => match get(env, k.as_str()) {
                Some(session) => {
                    if !session.as_str().is_empty() {
                        assert(first_named(vs@, env@, i as int) == Some(i as int));
                        if !vs[i].adopts {
                            let mut s = text::joined("$", k.as_str());
                            s.append(" says this is a ");
                            s.append(vs[i].name.as_str());
                            s.append(" session, and a ");
                            s.append(vs[i].name.as_str());
                            s.append(
                                " cannot be taken over: amx would have a record here and no way to hear from it",
                            );
                            return Err(s);
                        }
                        return Ok((i, session));
                    }
                },
                None => {},
            },
            None => {},
        }
        i += 1;
    }
    let (names, vars) = lists(vs);
    if names.len() == 0 {
        return Err(
            "amx has an entry for no vendor it can take over, so there is nothing here for `amx adopt` to write a record about".to_string(),
        );
    }
    let mut s = text::joined("no ", either(&vars).as_str());
    s.append(" here, so no ");
    s.append(either(&names).as_str());
    s.append(
        " started this command. `amx adopt` is run inside the agent it adopts, and that session id is how its events are recognised afterwards",
    );
    Err(s)
}

/// An agent amx already has, as far as a new adoption can stand on its toes.
#[derive(Debug, Clone, PartialEq, Eq)]
pub struct Standing {
    pub id: String,
    pub socket: String,
    pub pane: String,
    pub session: Option<String>,
    /// Whether its record has ended: history, which nothing stands behind.
    pub ended: bool,
}

/// Why this record is in the way of adopting this pane and conversation.
pub open spec fn clash(r: Standing, socket: Seq<char>, pane: Seq<char>, session: Seq<char>) -> Option<Seq<char>> {
    if r.ended {
        None
    } else if r.pane@ == pane && r.socket@ == socket {
        Some(pane + " is agent `"@ + r.id@ + "` already"@)
    } else if r.session matches Some(s) && s@ == session {
        Some("this conversation is agent `"@ + r.id@ + "` already"@)
    } else {
        None
    }
}

/// Ids are the names of the records' own directories, so no two are alike.
pub open spec fn distinct_ids(rs: Seq<Standing>) -> bool {
    forall|i: int, j: int| 0 <= i < rs.len() && 0 <= j < rs.len() && i != j ==> rs[i].id@ != rs[j].id@
}

fn clash_of(r: &Standing, socket: &str, pane: &str, session: &str) -> (c: Option<String>)
    ensures
        c matches Some(s) ==> clash(*r, socket@, pane@, session@) == Some(s@),
        c is None ==> clash(*r, socket@, pane@, session@) is None,
{
    if r.ended {
        return None;
    }
    if text::same_text(r.pane.as_str(), pane) && text::same_text(r.socket.as_str(), socket) {
        let mut s = text::joined(pane, " is agent `");
        s.append(r.id.as_str());
        s.append("` already");
        return Some(s);
    }
    match &r.session {
        Some(s0) => {
            if text::same_text(s0.as_str(), session) {
                let mut s = text::joined("this conversation is agent `", r.id.as_str());
                s.append("` already");
                return Some(s);
            }
        },
        None => {},
    }
    None
}

/// Why amx will not adopt: of the records still going that have this pane
/// or this conversation, the first in the order of their ids, and why.
pub fn spoken_for(records: &Vec<Standing>, socket: &str, pane: &str, session: &str) -> (r: Option<String>)
    requires
        distinct_ids(records@),
    ensures
        r is None ==> forall|i: int| 0 <= i < records@.len() ==> clash(#[trigger] records@[i], socket@, pane@, session@) is None,
        r matches Some(m) ==> exists|i: int|
            0 <= i < records@.len() && clash(records@[i], socket@, pane@, session@) == Some(m@)
                && forall|j: int|
                0 <= j < records@.len() && (#[trigger] clash(records@[j], socket@, pane@, session@)) is Some ==> j == i
                    || lex_lt(records@[i].id@, records@[j].id@),
{
    let mut best: Option<(usize, String)> = None;
    let mut i: usize = 0;
    while i < records.len()
        invariant
            i <= records.len(),
            distinct_ids(records@),
            best is None ==> forall|j: int| 0 <= j < i ==> clash(#[trigger] records@[j], socket@, pane@, session@) is None,
            best matches Some((b, m)) ==> b < i && clash(records@[b as int], socket@, pane@, session@) == Some(m@)
                && forall|j: int|
                0 <= j < i && (#[trigger] clash(records@[j], socket@, pane@, session@)) is Some ==> j == b
                    || lex_lt(records@[b as int].id@, records@[j].id@),
        decreases records.len() - i,
    {
        match clash_of(&records[i], socket, pane, session) {
            Some(m) => {
                let take = match &best {
                    None => true,
                    Some((b, _)) => sorts_before(records[i].id.as_str(), records[*b].id.as_str()),
                };
                if take {
                    proof {
                        match best {
                            Some((b, _)) => {
                                assert forall|j: int|
                                    0 <= j < i + 1 && (#[trigger] clash(records@[j], socket@, pane@, session@)) is Some
                                        implies j == i || lex_lt(records@[i as int].id@, records@[j].id@) by {
                                    if j != i && j != b {
                                        crate::verbs::stop::lemma_lex_transitive(
                                            records@[i as int].id@,
                                            records@[b as int].id@,
                                            records@[j].id@,
                                        );
                                    }
                                }
                            },
                            None => {},
                        }
                    }
                    best = Some((i, m));
                } else {
                    proof {
                        let b = (best->0).0;
                        lemma_lex_total(records@[i as int].id@, records@[b as int].id@);
                        assert(records@[i as int].id@ != records@[b as int].id@);
                    }
                }
            },
            None => {},
        }
        i += 1;
    }
    match best {
        Some((_, m)) => Some(m),
        None => None,
    }
}

/// What the row says an adopted agent is for, when nobody has said: the
/// directory it works in, or where that has no name, the vendor.
pub open spec fn label_spec(dir_name: Option<Seq<char>>, vendor: Seq<char>) -> Seq<char> {
    match dir_name {
        Some(n) => "adopted "@ + n,
        None => "adopted "@ + vendor,
    }
}

pub fn label(dir_name: Option<&str>, vendor: &str) -> (s: String)
    ensures
        s@ == label_spec(
            match dir_name {
                Some(n) => Some(n@),
                None => None,
            },
            vendor@,
        ),
{
    match dir_name {
        Some(n) => text::joined("adopted ", n),
        None => text::joined("adopted ", vendor),
    }
}

/// What the record first says an adopted agent is doing: what the screen's
/// rule says, where one accounts for it; otherwise `unknown`, which is what
/// a screen nothing accounts for reads as everywhere else.
pub fn seeded(ruled: Option<Phase>) -> (p: Phase)
    ensures
        p == match ruled {
            Some(q) => q,
            None => Phase::Unknown,
        },
{
    match ruled {
        Some(q) => q,
        None => Phase::Unknown,
    }
}

/// The vendor in this pane is the first in the table whose variable is here:
/// where it can be taken over its session is the answer, and where it cannot
/// the refusal names it, whatever a later vendor's variable says.
pub proof fn the_first_vendor_named_here_is_the_one_here(vs: Seq<Taker>, env: Seq<(String, String)>, k: int)
    requires
        0 <= k < vs.len(),
        named(vs[k], env) is Some,
        forall|j: int| 0 <= j < k ==> named(#[trigger] vs[j], env) is None,
    ensures
        session_spec(vs, env) == if vs[k].adopts {
            Ok::<(int, Seq<char>), Seq<char>>((k, named(vs[k], env)->0))
        } else {
            Err::<(int, Seq<char>), Seq<char>>(cannot_spec(vs[k]))
        },
{
    assert forall|i: int| 0 <= i <= k implies first_named(vs, env, i) == Some(k) by {
        lemma_first_named(vs, env, i, k);
    }
}

proof fn lemma_first_named(vs: Seq<Taker>, env: Seq<(String, String)>, i: int, k: int)
    requires
        0 <= i <= k < vs.len(),
        named(vs[k], env) is Some,
        forall|j: int| 0 <= j < k ==> named(#[trigger] vs[j], env) is None,
    ensures
        first_named(vs, env, i) == Some(k),
    decreases k - i,
{
    if i < k {
        lemma_first_named(vs, env, i + 1, k);
    }
}

} // verus!
