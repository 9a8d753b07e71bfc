//! `amx attach` — hand this terminal to an agent's pane, or to the agent a
//! key asks the wall for: the next one, the one before, the first one with
//! something for somebody to do, or the one this terminal was in before.
//!
//! Which agent that is, where the key was pressed, and whether the client
//! already here can be asked to switch are decided here; asking tmux and
//! becoming its client is the caller's.
use vstd::prelude::*;
use crate::store::Meta;
use crate::text;
use crate::vendor::Vendor;
use crate::verbs::resume::{again, again_spec, opt_vendor, Comeback};

verus! {

/// The prefix of every tmux session amx places a pane in; the rest of the
/// session's name is the agent it holds.
pub const SESSION_PREFIX: &'static str = "amx-";

/// What a wall with nobody on it says to a key asking for the next agent.
pub const EMPTY: &'static str = "nothing on the wall to attach to";

/// What a key asking for a question says when nobody is asking one.
pub const NOBODY_WAITING: &'static str = "nothing on the wall is waiting on you";

/// What a key asking to go back says with nowhere to go back to.
pub const NOWHERE_BACK: &'static str = "no agent to go back to";

/// How far back the trail goes.
pub const TRAIL: usize = 20;

/// Where a row stands on the wall.
#[derive(Debug, Clone, Copy, PartialEq, Eq, Structural)]
pub enum Group {
    Pinned,
    NeedsInput,
    Working,
    Review,
    Completed,
    Asleep,
}

/// Which agent the terminal was asked for.
#[derive(Debug, Clone, PartialEq, Eq)]
pub enum Aim {
    /// The one somebody named.
    Id(String),
    /// The one after this on the wall.
    Next,
    /// The one before it.
    Prev,
    /// The first one with something for somebody to do.
    Waiting,
    /// The one this terminal was in before this one.
    Last,
}

/// The ids on a wall, in its order.
pub open spec fn ids_of(order: Seq<(Group, String)>) -> Seq<Seq<char>> {
    order.map_values(|r: (Group, String)| r.1@)
}

/// Where `id` first stands on the wall, from index `i` on.
pub open spec fn position_from(ids: Seq<Seq<char>>, id: Seq<char>, i: int) -> Option<int>
    decreases ids.len() - i,
{
    if i < 0 || i >= ids.len() {
        None
    } else if ids[i] == id {
        Some(i)
    } else {
        position_from(ids, id, i + 1)
    }
}

/// The first row of this group, from index `i` on.
pub open spec fn first_in(order: Seq<(Group, String)>, g: Group, i: int) -> Option<int>
    decreases order.len() - i,
{
    if i < 0 || i >= order.len() {
        None
    } else if order[i].0 == g {
        Some(i)
    } else {
        first_in(order, g, i + 1)
    }
}

/// Which agent is waiting on somebody: a question nobody has answered, else
/// work set aside to be looked over, else the turn that ended most
/// recently, which the wall puts at the head of its group.
pub open spec fn needing_spec(order: Seq<(Group, String)>) -> Option<Seq<char>> {
    match first_in(order, Group::NeedsInput, 0) {
        Some(i) => Some(order[i].1@),
        None => match first_in(order, Group::Review, 0) {
            Some(i) => Some(order[i].1@),
            None => match first_in(order, Group::Completed, 0) {
                Some(i) => Some(order[i].1@),
                None => None,
            },
        },
    }
}

/// The first agent on the trail, newest first, that is not the one the key
/// was pressed in and that the wall still holds.
pub open spec fn back_from(
    visited: Seq<Seq<char>>,
    current: Option<Seq<char>>,
    ids: Seq<Seq<char>>,
    k: int,
) -> Option<Seq<char>>
    decreases visited.len() - k,
{
    if k < 0 || k >= visited.len() {
        None
    } else if Some(visited[k]) != current && ids.contains(visited[k]) {
        Some(visited[k])
    } else {
        back_from(visited, current, ids, k + 1)
    }
}

/// Which agent the aim lands on. Stepping wraps; with nowhere to step from,
/// a step starts at the end it is heading away from.
pub open spec fn pick_spec(
    order: Seq<(Group, String)>,
    current: Option<Seq<char>>,
    visited: Seq<Seq<char>>,
    aim: Aim,
) -> Result<Seq<char>, Seq<char>> {
    let ids = ids_of(order);
    let at = match current {
        Some(c) => position_from(ids, c, 0),
        None => None,
    };
    match aim {
        Aim::Id(id) => Ok(id@),
        Aim::Next => if at matches Some(a) && a + 1 < ids.len() {
            Ok(ids[at->0 + 1])
        } else if ids.len() > 0 {
            Ok(ids[0])
        } else {
            Err(EMPTY@)
        },
        Aim::Prev => if at matches Some(a) && a >= 1 {
            Ok(ids[at->0 - 1])
        } else if ids.len() > 0 {
            Ok(ids.last())
        } else {
            Err(EMPTY@)
        },
        Aim::Waiting => match needing_spec(order) {
            Some(id) => Ok(id),
            None => Err(NOBODY_WAITING@),
        },
        Aim::Last => match back_from(visited, current, ids, 0) {
            Some(id) => Ok(id),
            None => Err(NOWHERE_BACK@),
        },
    }
}

/// Where `id` stands on the wall.
fn position(order: &Vec<(Group, String)>, id: &str) -> (r: Option<usize>)
    ensures
        r matches Some(i) ==> position_from(ids_of(order@), id@, 0) == Some(i as int) && i
            < order.len(),
        r is None ==> position_from(ids_of(order@), id@, 0) is None,
{
    let ghost ids = ids_of(order@);
    let mut i: usize = 0;
    while i < order.len()
        invariant
            i <= order.len(),
            ids == ids_of(order@),
            position_from(ids, id@, 0) == position_from(ids, id@, i as int),
        decreases order.len() - i,
    {
        assert(ids[i as int] == order@[i as int].1@);
        if text::same_text(order[i].1.as_str(), id) {
            return Some(i);
        }
        i += 1;
    }
    None
}

/// The first row of this group.
fn first_of(order: &Vec<(Group, String)>, g: Group) -> (r: Option<usize>)
    ensures
        r matches Some(i) ==> first_in(order@, g, 0) == Some(i as int) && i < order.len(),
        r is None ==> first_in(order@, g, 0) is None,
{
    let mut i: usize = 0;
    while i < order.len()
        invariant
            i <= order.len(),
            first_in(order@, g, 0) == first_in(order@, g, i as int),
        decreases order.len() - i,
    {
        if order[i].0 == g {
            return Some(i);
        }
        i += 1;
    }
    None
}

/// Which agent on the wall is waiting on somebody, if any is.
pub fn needing_you(order: &Vec<(Group, String)>) -> (r: Option<String>)
    ensures
        r matches Some(id) ==> needing_spec(order@) == Some(id@),
        r is None ==> needing_spec(order@) is None,
{
    match first_of(order, Group::NeedsInput) {
        Some(i) => Some(order[i].1.clone()),
        None => match first_of(order, Group::Review) {
            Some(i) => Some(order[i].1.clone()),
            None => match first_of(order, Group::Completed) {
                Some(i) => Some(order[i].1.clone()),
                None => None,
            },
        },
    }
}

/// Whether the wall holds this id.
fn on_wall(order: &Vec<(Group, String)>, id: &str) -> (b: bool)
    ensures
        b == ids_of(order@).contains(id@),
{
    let ghost ids = ids_of(order@);
    let mut i: usize = 0;
    while i < order.len()
        invariant
            i <= order.len(),
            ids == ids_of(order@),
            forall|j: int| 0 <= j < i ==> ids[j] != id@,
        decreases order.len() - i,
    {
        assert(ids[i as int] == order@[i as int].1@);
        if text::same_text(order[i].1.as_str(), id) {
            return true;
        }
        i += 1;
    }
    false
}

/// The agent to go back to along the trail.
fn going_back(order: &Vec<(Group, String)>, current: Option<&str>, visited: &Vec<String>) -> (r:
    Option<String>)
    ensures
        ({
            let c = match current {
                Some(c) => Some(c@),
                None => None,
            };
            let v = visited@.map_values(|s: String| s@);
            &&& r matches Some(id) ==> back_from(v, c, ids_of(order@), 0) == Some(id@)
            &&& r is None ==> back_from(v, c, ids_of(order@), 0) is None
        }),
{
    let ghost c = match current {
        Some(c) => Some(c@),
        None => None,
    };
    let ghost v = visited@.map_values(|s: String| s@);
    let mut k: usize = 0;
    while k < visited.len()
        invariant
            k <= visited.len(),
            v == visited@.map_values(|s: String| s@),
            c == match current {
                Some(c) => Some(c@),
                None => None::<Seq<char>>,
            },
            back_from(v, c, ids_of(order@), 0) == back_from(v, c, ids_of(order@), k as int),
        decreases visited.len() - k,
    {
        let candidate = visited[k].as_str();
        assert(v[k as int] == candidate@);
        let here = match current {
            Some(cur) => text::same_text(cur, candidate),
            None => false,
        };
        if !here && on_wall(order, candidate) {
            return Some(visited[k].clone());
        }
        k += 1;
    }
    None
}

/// Which agent on the wall the aim lands on, from where the key was pressed
/// (`current`), with `visited` the trail, newest first.
pub fn pick(
    order: &Vec<(Group, String)>,
    current: Option<&str>,
    visited: &Vec<String>,
    aim: &Aim,
) -> (r: Result<String, String>)
    ensures
        ({
            let want = pick_spec(
                order@,
                match current {
                    Some(c) => Some(c@),
                    None => None,
                },
                visited@.map_values(|s: String| s@),
                *aim,
            );
            &&& r matches Ok(id) ==> want == Ok::<Seq<char>, Seq<char>>(id@)
            &&& r matches Err(e) ==> want == Err::<Seq<char>, Seq<char>>(e@)
        }),
{
    let ghost ids = ids_of(order@);
    let at = match current {
        Some(c) => position(order, c),
        None => None,
    };
    match aim {
        Aim::Id(id) => Ok(id.clone()),
        Aim::Next => {
            match at {
                Some(a) => {
                    if a + 1 < order.len() {
                        assert(ids[a + 1] == order@[a + 1].1@);
                        return Ok(order[a + 1].1.clone());
                    }
                },
                None => {},
            }
            if order.len() > 0 {
                assert(ids[0] == order@[0].1@);
                Ok(order[0].1.clone())
            } else {
                Err(EMPTY.to_string())
            }
        },
        Aim::Prev => {
            match at {
                Some(a) => {
                    if a >= 1 {
                        assert(ids[a - 1] == order@[a - 1].1@);
                        return Ok(order[a - 1].1.clone());
                    }
                },
                None => {},
            }
            if order.len() > 0 {
                let last = order.len() - 1;
                assert(ids.last() == order@[last as int].1@);
                Ok(order[last].1.clone())
            } else {
                Err(EMPTY.to_string())
            }
        },
        Aim::Waiting => match needing_you(order) {
            Some(id) => Ok(id),
            None => Err(NOBODY_WAITING.to_string()),
        },
        Aim::Last => match going_back(order, current, visited) {
            Some(id) => Ok(id),
            None => Err(NOWHERE_BACK.to_string()),
        },
    }
}

/// The agent a tmux session's name says it holds, if it says so: the name,
/// trimmed, after amx's prefix, and not empty.
pub open spec fn agent_in_spec(name: Seq<char>) -> Option<Seq<char>> {
    let t = text::trim(name);
    if text::starts_with(t, SESSION_PREFIX@) && t.len() > SESSION_PREFIX@.len() {
        Some(t.skip(SESSION_PREFIX@.len() as int))
    } else {
        None
    }
}

pub fn agent_in(session_name: &str) -> (r: Option<String>)
    ensures
        r matches Some(id) ==> agent_in_spec(session_name@) == Some(id@),
        r is None ==> agent_in_spec(session_name@) is None,
{
    let t = text::trimmed(session_name);
    let ts = t.as_str();
    if text::starts_with_text(ts, SESSION_PREFIX) {
        let v = text::chars_of(ts);
        let n = SESSION_PREFIX.unicode_len();
        if v.len() > n {
            let id = text::from_range(&v, n, v.len());
            assert(v@.subrange(n as int, v.len() as int) =~= t@.skip(n as int));
            return Some(id);
        }
    }
    None
}

/// The agent whose session the key was pressed in, given the name of that
/// session as tmux gives it, if it is one the wall is holding.
pub open spec fn current_spec(order: Seq<(Group, String)>, session_name: Option<Seq<char>>) -> Option<
    Seq<char>,
> {
    match session_name {
        None => None,
        Some(name) => match agent_in_spec(name) {
            Some(id) => if ids_of(order).contains(id) {
                Some(id)
            } else {
                None
            },
            None => None,
        },
    }
}

pub fn current(order: &Vec<(Group, String)>, session_name: Option<&str>) -> (r: Option<String>)
    ensures
        ({
            let want = current_spec(
                order@,
                match session_name {
                    Some(n) => Some(n@),
                    None => None,
                },
            );
            &&& r matches Some(id) ==> want == Some(id@)
            &&& r is None ==> want is None
        }),
{
    match session_name {
        None => None,
        Some(name) => match agent_in(name) {
            Some(id) => if on_wall(order, id.as_str()) {
                Some(id)
            } else {
                None
            },
            None => None,
        },
    }
}

/// The trail with `id` taken off it.
pub open spec fn without(trail: Seq<Seq<char>>, id: Seq<char>) -> Seq<Seq<char>> {
    trail.filter(|on: Seq<char>| on != id)
}

/// The trail once `id` has been visited: at the front, once, and no longer
/// than `TRAIL`.
pub open spec fn noted_spec(trail: Seq<Seq<char>>, id: Seq<char>) -> Seq<Seq<char>> {
    let kept = seq![id] + without(trail, id);
    if kept.len() > TRAIL {
        kept.take(TRAIL as int)
    } else {
        kept
    }
}

/// The trail with `id` taken off it.
pub fn without_text(trail: &Vec<String>, id: &str) -> (r: Vec<String>)
    ensures
        r@.map_values(|s: String| s@) == without(trail@.map_values(|s: String| s@), id@),
{
    let ghost t = trail@.map_values(|s: String| s@);
    let mut r: Vec<String> = Vec::new();
    let mut i: usize = 0;
    while i < trail.len()
        invariant
            i <= trail.len(),
            t == trail@.map_values(|s: String| s@),
            r@.map_values(|s: String| s@) == without(t.take(i as int), id@),
        decreases trail.len() - i,
    {
        let ghost before = r@.map_values(|s: String| s@);
        assert(t.take(i + 1).drop_last() =~= t.take(i as int));
        assert(t.take(i + 1).last() == trail@[i as int]@);
        if !text::same_text(trail[i].as_str(), id) {
            r.push(trail[i].clone());
            assert(r@.map_values(|s: String| s@) =~= before.push(trail@[i as int]@));
        }
        proof {
            reveal(Seq::filter);
            assert(without(t.take(i + 1), id@) == if t.take(i + 1).last() != id@ {
                without(t.take(i + 1).drop_last(), id@).push(t.take(i + 1).last())
            } else {
                without(t.take(i + 1).drop_last(), id@)
            });
        }
        i += 1;
    }
    assert(t.take(trail.len() as int) =~= t);
    r
}

pub fn noted(trail: &Vec<String>, id: &str) -> (r: Vec<String>)
    ensures
        r@.map_values(|s: String| s@) == noted_spec(trail@.map_values(|s: String| s@), id@),
{
    let ghost t = trail@.map_values(|s: String| s@);
    let rest = without_text(trail, id);
    let mut r: Vec<String> = Vec::new();
    r.push(id.to_string());
    let mut i: usize = 0;
    while i < rest.len()
        invariant
            i <= rest.len(),
            r@.map_values(|s: String| s@) == seq![id@] + rest@.map_values(|s: String| s@).take(
                i as int,
            ),
        decreases rest.len() - i,
    {
        let ghost before = r@.map_values(|s: String| s@);
        r.push(rest[i].clone());
        assert(r@.map_values(|s: String| s@) =~= before.push(rest@[i as int]@));
        assert(rest@.map_values(|s: String| s@).take(i + 1) =~= rest@.map_values(|s: String| s@).take(
            i as int,
        ).push(rest@[i as int]@));
        assert(r@.map_values(|s: String| s@) =~= seq![id@] + rest@.map_values(|s: String| s@).take(
            i + 1,
        ));
        i += 1;
    }
    assert(rest@.map_values(|s: String| s@).take(rest.len() as int) =~= rest@.map_values(
        |s: String| s@,
    ));
    if r.len() > TRAIL {
        r.truncate(TRAIL);
        assert(r@.map_values(|s: String| s@) =~= (seq![id@] + without(t, id@)).take(TRAIL as int));
    }
    r
}
/// A tmux server, as a record or `$TMUX` writes it down.
#[derive(Debug, Clone, PartialEq, Eq)]
pub enum Socket {
    /// `-L name`.
    Name(String),
    /// `-S path`.
    Path(String),
}

/// The server `$TMUX` names: the socket path before its first comma.
pub open spec fn from_tmux_env_spec(inside: Seq<char>) -> Option<Seq<char>> {
    let path = inside.take(text::upto(inside, ',', 0));
    if path.len() > 0 {
        Some(path)
    } else {
        None
    }
}

pub fn from_tmux_env(inside: &str) -> (r: Option<Socket>)
    ensures
        r matches Some(s) ==> (s matches Socket::Path(p) && from_tmux_env_spec(inside@) == Some(
            p@,
        )),
        r is None ==> from_tmux_env_spec(inside@) is None,
{
    let v = text::chars_of(inside);
    let mut k: usize = 0;
    while k < v.len() && v[k] != ','
        invariant
            k <= v.len(),
            v@ == inside@,
            text::upto(inside@, ',', 0) == text::upto(inside@, ',', k as int),
        decreases v.len() - k,
    {
        k += 1;
    }
    if k == 0 {
        return None;
    }
    let p = text::from_range(&v, 0, k);
    assert(v@.subrange(0, k as int) =~= inside@.take(k as int));
    Some(Socket::Path(p))
}

/// Whether two ways of writing a server address the same one: written the
/// same way they do; written differently, only when tmux gave both a path
/// and the paths are one (`here_path`, `there_path`: what tmux answered for
/// each socket's path, `None` where nothing answered).
pub open spec fn same_server_spec(
    here: (bool, Seq<char>),
    there: (bool, Seq<char>),
    here_path: Option<Seq<char>>,
    there_path: Option<Seq<char>>,
) -> bool {
    ||| here == there
    ||| (here_path matches Some(a) && there_path matches Some(b) && a.len() > 0 && a == b)
}

/// A socket as plain values: which way it is written, and the text.
pub open spec fn socket_view(s: Socket) -> (bool, Seq<char>) {
    match s {
        Socket::Name(n) => (true, n@),
        Socket::Path(p) => (false, p@),
    }
}

pub fn same_server(
    here: &Socket,
    there: &Socket,
    here_path: Option<&str>,
    there_path: Option<&str>,
) -> (b: bool)
    ensures
        b == same_server_spec(
            socket_view(*here),
            socket_view(*there),
            match here_path {
                Some(p) => Some(p@),
                None => None,
            },
            match there_path {
                Some(p) => Some(p@),
                None => None,
            },
        ),
{
    let same = match (here, there) {
        (Socket::Name(a), Socket::Name(b)) => text::same_text(a.as_str(), b.as_str()),
        (Socket::Path(a), Socket::Path(b)) => text::same_text(a.as_str(), b.as_str()),
        _ => false,
    };
    if same {
        return true;
    }
    match (here_path, there_path) {
        (Some(a), Some(b)) => a.unicode_len() > 0 && text::same_text(a, b),
        _ => false,
    }
}

/// Whether the client already on this terminal can be asked to switch,
/// rather than a second one being started inside it: only inside tmux
/// (`inside` is `$TMUX`), on the server the agent is on.
pub open spec fn switches_spec(
    inside: Option<Seq<char>>,
    there: Socket,
    here_path: Option<Seq<char>>,
    there_path: Option<Seq<char>>,
) -> bool {
    match inside {
        None => false,
        Some(i) => match from_tmux_env_spec(i) {
            None => false,
            Some(p) => same_server_spec((false, p), socket_view(there), here_path, there_path),
        },
    }
}

pub fn switches(
    inside: Option<&str>,
    there: &Socket,
    here_path: Option<&str>,
    there_path: Option<&str>,
) -> (b: bool)
    ensures
        b == switches_spec(
            match inside {
                Some(i) => Some(i@),
                None => None,
            },
            *there,
            match here_path {
                Some(p) => Some(p@),
                None => None,
            },
            match there_path {
                Some(p) => Some(p@),
                None => None,
            },
        ),
{
    match inside {
        None => false,
        Some(i) => match from_tmux_env(i) {
            None => false,
            Some(here) => same_server(&here, there, here_path, there_path),
        },
    }
}

/// What becomes of a terminal handed to an agent once its pane has been
/// looked at.
#[derive(Debug, Clone, PartialEq, Eq)]
pub enum Handover {
    /// The pane answers for the agent: hand the terminal to it now.
    Now,
    /// The pane is gone or another agent's: bring the agent back into a pane
    /// on the session it had, read the record again, and hand that one over.
    AfterComeback,
    /// Nothing to continue, in the words that say which half is missing.
    Refused(String),
}

/// A pane that answers is handed over as it is; one that does not sends the
/// agent through `resume`'s door (`again_spec`) first, and only a refusal
/// there refuses the attach, with the door's own words.
pub open spec fn handover_spec(
    answers: bool,
    m: Meta,
    present: bool,
    v: Option<Vendor>,
    live: nat,
    max: nat,
) -> Result<bool, Seq<char>> {
    if answers {
        Ok(false)
    } else {
        match again_spec(m, present, v, live, max) {
            Ok(_) => Ok(true),
            Err(why) => Err(why),
        }
    }
}

/// `answers` is whether the record's pane answers for the agent; the rest is
/// what `resume::again` reads.
pub fn handover(
    answers: bool,
    m: &Meta,
    present: bool,
    v: Option<&Vendor>,
    live: u64,
    max: u64,
) -> (r: Handover)
    ensures
        r == Handover::Now <==> handover_spec(answers, *m, present, opt_vendor(v), live as nat, max as nat)
            == Ok::<bool, Seq<char>>(false),
        r == Handover::AfterComeback <==> handover_spec(
            answers,
            *m,
            present,
            opt_vendor(v),
            live as nat,
            max as nat,
        ) == Ok::<bool, Seq<char>>(true),
        r matches Handover::Refused(why) ==> handover_spec(
            answers,
            *m,
            present,
            opt_vendor(v),
            live as nat,
            max as nat,
        ) == Err::<bool, Seq<char>>(why@),
{
    if answers {
        return Handover::Now;
    }
    match again(m, present, v, live, max) {
        Comeback::Back => Handover::AfterComeback,
        Comeback::No(why) => Handover::Refused(why),
    }
}

/// A pane that is gone is not the end of the verb: a lost agent is refused
/// only where it has nothing to continue, in `resume`'s own words, and a live
/// pane is never refused.
pub proof fn only_an_agent_with_nothing_to_continue_is_refused(
    answers: bool,
    m: Meta,
    present: bool,
    v: Option<Vendor>,
    live: nat,
    max: nat,
)
    ensures
        answers ==> handover_spec(answers, m, present, v, live, max) is Ok,
        !answers ==> (handover_spec(answers, m, present, v, live, max) is Err <==> again_spec(
            m,
            present,
            v,
            live,
            max,
        ) is Err),
        !answers && again_spec(m, present, v, live, max) is Err ==> handover_spec(
            answers,
            m,
            present,
            v,
            live,
            max,
        )->Err_0 == again_spec(m, present, v, live, max)->Err_0,
{
}

// ---- the trail on disk ----

/// What `serde_json::from_slice` makes of bytes as a list of strings, where
/// they are one.
pub uninterp spec fn json_string_list(bytes: Seq<u8>) -> Option<Seq<Seq<char>>>;

/// The bytes `serde_json::to_vec_pretty` writes for a list of strings.
pub uninterp spec fn json_pretty_list(trail: Seq<Seq<char>>) -> Seq<u8>;

/// `serde_json::from_slice` into a list of strings: the result is
/// `json_string_list` of the bytes, and nothing more is claimed.
#[verifier::external_body]
fn trail_from(bytes: &[u8]) -> (r: Option<Vec<String>>)
    ensures
        r matches Some(v) ==> json_string_list(bytes@) == Some(v@.map_values(|s: String| s@)),
        r is None ==> json_string_list(bytes@) is None,
{
    serde_json::from_slice::<Vec<String>>(bytes).ok()
}

/// `serde_json::to_vec_pretty` of a list of strings, which cannot fail for
/// one: the result is `json_pretty_list` of the list.
#[verifier::external_body]
fn trail_bytes(trail: &Vec<String>) -> (r: Vec<u8>)
    ensures
        r@ == json_pretty_list(trail@.map_values(|s: String| s@)),
{
    serde_json::to_vec_pretty(trail).unwrap_or_default()
}

/// The trail a file holds: what it parses to, and nothing where nothing was
/// read or it will not parse — a trail somebody's editor half wrote is a
/// trail nobody has left yet.
pub open spec fn trail_spec(read: Option<Seq<u8>>) -> Seq<Seq<char>> {
    match read {
        Some(b) => match json_string_list(b) {
            Some(t) => t,
            None => Seq::empty(),
        },
        None => Seq::empty(),
    }
}

/// The agents this machine's terminals have been handed to, newest first,
/// from the bytes of the trail file where it could be read.
pub fn visited(read: Option<&[u8]>) -> (r: Vec<String>)
    ensures
        r@.map_values(|s: String| s@) == trail_spec(
            match read {
                Some(b) => Some(b@),
                None => None,
            },
        ),
{
    match read {
        Some(b) => match trail_from(b) {
            Some(t) => t,
            None => {
                let r: Vec<String> = Vec::new();
                assert(r@.map_values(|s: String| s@) =~= Seq::<Seq<char>>::empty());
                r
            },
        },
        None => {
            let r: Vec<String> = Vec::new();
            assert(r@.map_values(|s: String| s@) =~= Seq::<Seq<char>>::empty());
            r
        },
    }
}

/// The bytes the trail file is written with once `id` has been visited: the
/// trail read (`trail_spec`) with `id` noted on it, pretty JSON and a
/// newline.
pub fn visit(read: Option<&[u8]>, id: &str) -> (r: Vec<u8>)
    ensures
        r@ == json_pretty_list(
            noted_spec(
                trail_spec(
                    match read {
                        Some(b) => Some(b@),
                        None => None,
                    },
                ),
                id@,
            ),
        ).push(10u8),
{
    let trail = visited(read);
    let next = noted(&trail, id);
    let mut bytes = trail_bytes(&next);
    bytes.push(10u8);
    bytes
}

/// Stepping back undoes stepping on: on a wall where no agent stands twice,
/// `--prev` from wherever `--next` landed is where the key was pressed.
pub proof fn prev_undoes_next(
    order: Seq<(Group, String)>,
    id: Seq<char>,
    visited: Seq<Seq<char>>,
)
    requires
        ids_of(order).contains(id),
        forall|i: int, j: int|
            0 <= i < j < order.len() ==> #[trigger] ids_of(order)[i] != #[trigger] ids_of(order)[j],
    ensures
        pick_spec(order, Some(id), visited, Aim::Next) matches Ok(next) && pick_spec(
            order,
            Some(next),
            visited,
            Aim::Prev,
        ) == Ok::<Seq<char>, Seq<char>>(id),
        pick_spec(order, Some(id), visited, Aim::Prev) matches Ok(prev) && pick_spec(
            order,
            Some(prev),
            visited,
            Aim::Next,
        ) == Ok::<Seq<char>, Seq<char>>(id),
{
    let ids = ids_of(order);
    let a = choose|a: int| 0 <= a < ids.len() && ids[a] == id;
    lemma_position_of_distinct(ids, a);
    let n = ids.len() as int;
    let after = if a + 1 < n { a + 1 } else { 0 };
    let before = if a >= 1 { a - 1 } else { n - 1 };
    lemma_position_of_distinct(ids, after);
    lemma_position_of_distinct(ids, before);
}

/// On a wall where no id stands twice, an id is found where it stands.
proof fn lemma_position_of_distinct(ids: Seq<Seq<char>>, a: int)
    requires
        0 <= a < ids.len(),
        forall|i: int, j: int| 0 <= i < j < ids.len() ==> #[trigger] ids[i] != #[trigger] ids[j],
    ensures
        position_from(ids, ids[a], 0) == Some(a),
{
    lemma_position_from(ids, ids[a], 0, a);
}

proof fn lemma_position_from(ids: Seq<Seq<char>>, id: Seq<char>, i: int, a: int)
    requires
        0 <= i <= a < ids.len(),
        ids[a] == id,
        forall|k: int| i <= k < a ==> ids[k] != id,
    ensures
        position_from(ids, id, i) == Some(a),
    decreases a - i,
{
    if i < a {
        lemma_position_from(ids, id, i + 1, a);
    }
}

/// The trail keeps the agent just visited at its front, every other agent
/// once at most where each was once at most, and never more than `TRAIL`.
pub proof fn the_trail_is_newest_first_and_one_place_each(trail: Seq<Seq<char>>, id: Seq<char>)
    requires
        forall|i: int, j: int| 0 <= i < j < trail.len() ==> trail[i] != trail[j],
    ensures
        noted_spec(trail, id).len() <= TRAIL,
        noted_spec(trail, id)[0] == id,
        forall|i: int, j: int|
            0 <= i < j < noted_spec(trail, id).len() ==> noted_spec(trail, id)[i] != noted_spec(
                trail,
                id,
            )[j],
{
    let rest = without(trail, id);
    lemma_without_distinct(trail, id);
    let kept = seq![id] + rest;
    assert forall|i: int, j: int| 0 <= i < j < kept.len() implies kept[i] != kept[j] by {
        if i == 0 {
            assert(kept[j] == rest[j - 1]);
        } else {
            assert(kept[i] == rest[i - 1] && kept[j] == rest[j - 1]);
        }
    }
    let out = noted_spec(trail, id);
    assert forall|i: int, j: int| 0 <= i < j < out.len() implies out[i] != out[j] by {
        assert(out[i] == kept[i] && out[j] == kept[j]);
    }
}

/// Taking an id off a trail with nothing on it twice leaves nothing on it
/// twice, and nothing that is that id.
proof fn lemma_without_distinct(s: Seq<Seq<char>>, id: Seq<char>)
    requires
        forall|i: int, j: int| 0 <= i < j < s.len() ==> s[i] != s[j],
    ensures
        forall|i: int, j: int|
            0 <= i < j < without(s, id).len() ==> without(s, id)[i] != without(s, id)[j],
        forall|i: int| 0 <= i < without(s, id).len() ==> #[trigger] without(s, id)[i] != id,
        forall|i: int| 0 <= i < without(s, id).len() ==> s.contains(#[trigger] without(s, id)[i]),
    decreases s.len(),
{
    reveal(Seq::filter);
    if s.len() > 0 {
        let rest = s.drop_last();
        assert forall|i: int, j: int| 0 <= i < j < rest.len() implies rest[i] != rest[j] by {
            assert(rest[i] == s[i] && rest[j] == s[j]);
        }
        lemma_without_distinct(rest, id);
        let f = without(rest, id);
        assert forall|i: int| 0 <= i < f.len() implies s.contains(#[trigger] f[i]) by {
            let k = choose|k: int| 0 <= k < rest.len() && rest[k] == f[i];
            assert(s[k] == f[i]);
        }
        if s.last() != id {
            assert(without(s, id) == f.push(s.last()));
            assert(!f.contains(s.last())) by {
                if f.contains(s.last()) {
                    let m = choose|m: int| 0 <= m < f.len() && f[m] == s.last();
                    let k = choose|k: int| 0 <= k < rest.len() && rest[k] == f[m];
                    assert(s[k] == s[s.len() - 1]);
                }
            }
            assert forall|i: int| 0 <= i < without(s, id).len() implies s.contains(
                #[trigger] without(s, id)[i],
            ) by {
                if i == f.len() {
                    assert(s[s.len() - 1] == without(s, id)[i]);
                }
            }
        } else {
            assert(without(s, id) == f);
        }
    }
}

proof fn lemma_first_in(order: Seq<(Group, String)>, g: Group, i: int, k: int)
    requires
        0 <= i <= k < order.len(),
        order[k].0 == g,
        forall|j: int| i <= j < k ==> (#[trigger] order[j]).0 != g,
    ensures
        first_in(order, g, i) == Some(k),
    decreases k - i,
{
    if i < k {
        lemma_first_in(order, g, i + 1, k);
    }
}

proof fn lemma_first_in_none(order: Seq<(Group, String)>, g: Group, i: int)
    requires
        0 <= i <= order.len(),
        forall|j: int| i <= j < order.len() ==> (#[trigger] order[j]).0 != g,
    ensures
        first_in(order, g, i) is None,
    decreases order.len() - i,
{
    if i < order.len() {
        lemma_first_in_none(order, g, i + 1);
    }
}

/// A question nobody has answered is what is holding somebody up: wherever
/// the wall holds a row asking for input, the key for whoever is waiting on
/// you lands on the first such row, whatever rows awaiting review or turns
/// that ended the wall also holds. Only with nothing asking does it land on
/// the first row awaiting review, and only with neither on the first turn
/// that ended.
pub proof fn a_question_is_answered_before_anything_is_reviewed(
    order: Seq<(Group, String)>,
    current: Option<Seq<char>>,
    visited: Seq<Seq<char>>,
    k: int,
    g: Group,
)
    requires
        0 <= k < order.len(),
        order[k].0 == g,
        forall|j: int| 0 <= j < k ==> (#[trigger] order[j]).0 != g,
    ensures
        g == Group::NeedsInput ==> pick_spec(order, current, visited, Aim::Waiting) == Ok::<
            Seq<char>,
            Seq<char>,
        >(order[k].1@),
        g == Group::Review && (forall|j: int| 0 <= j < order.len() ==> (#[trigger] order[j]).0
            != Group::NeedsInput) ==> pick_spec(order, current, visited, Aim::Waiting) == Ok::<
            Seq<char>,
            Seq<char>,
        >(order[k].1@),
        g == Group::Completed && (forall|j: int| 0 <= j < order.len() ==> (#[trigger] order[j]).0
            != Group::NeedsInput && order[j].0 != Group::Review) ==> pick_spec(
            order,
            current,
            visited,
            Aim::Waiting,
        ) == Ok::<Seq<char>, Seq<char>>(order[k].1@),
{
    lemma_first_in(order, g, 0, k);
    if g == Group::Review && (forall|j: int| 0 <= j < order.len() ==> (#[trigger] order[j]).0
        != Group::NeedsInput) {
        lemma_first_in_none(order, Group::NeedsInput, 0);
    }
    if g == Group::Completed && (forall|j: int| 0 <= j < order.len() ==> (#[trigger] order[j]).0
        != Group::NeedsInput && order[j].0 != Group::Review) {
        lemma_first_in_none(order, Group::NeedsInput, 0);
        lemma_first_in_none(order, Group::Review, 0);
    }
}

} // verus!
