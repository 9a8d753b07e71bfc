//! `amx clear` — forget the rows that are over: everything finished is
//! listed with the reason it is finished, one question covers the list, and
//! then each row is taken the way its own evidence says to. A tree holding
//! work no commit has is never removed, and neither is the record that names
//! it.
use vstd::prelude::*;
use crate::derive::Reading;
use crate::store::{phase_name, terminal};
use crate::text;
use crate::verbs::sweep::{Landing, landed_spec, round, round_spec, why_landed};

verus! {

/// What taking one row came to.
#[derive(Debug, Clone, PartialEq, Eq)]
pub enum Taken {
    /// The record is gone, and the tree amx cut with it.
    Gone,
    /// Both are still here, because this tree holds work no commit has.
    Holding(String),
}

/// How one finished row is taken: kept where its tree holds work no commit
/// has; the sweep's way — tree, branch and record — where its work landed;
/// and otherwise the record and the tree, with the branch left standing.
#[derive(Debug, Clone, PartialEq, Eq)]
pub enum Take {
    Hold(String),
    Land,
    Forget,
}

/// A way of taking a row, as plain values.
pub open spec fn take_view(t: Take) -> (u8, Seq<char>) {
    match t {
        Take::Hold(tree) => (0, tree@),
        Take::Land => (1, Seq::empty()),
        Take::Forget => (2, Seq::empty()),
    }
}

/// `holding` is the row's tree where it is there and holds work no commit
/// has (or git cannot vouch for it).
pub open spec fn take_spec(landed: bool, holding: Option<Seq<char>>) -> (u8, Seq<char>) {
    match holding {
        Some(tree) => (0, tree),
        None => if landed {
            (1, Seq::empty())
        } else {
            (2, Seq::empty())
        },
    }
}

pub fn take_row(landed: bool, holding: Option<&str>) -> (t: Take)
    ensures
        take_view(t) == take_spec(
            landed,
            match holding {
                Some(h) => Some(h@),
                None => None,
            },
        ),
{
    match holding {
        Some(tree) => Take::Hold(tree.to_string()),
        None => if landed {
            Take::Land
        } else {
            Take::Forget
        },
    }
}

/// Which rows are finished, by their place on the wall, and why each is on
/// the list: the sweep's reason where the work landed, and otherwise the
/// phase. An agent sitting at its prompt is not finished.
pub open spec fn rows_spec(vs: Seq<Reading>, facts: Seq<Landing>, n: int) -> Seq<(int, Seq<char>)>
    decreases n,
{
    if n <= 0 {
        Seq::empty()
    } else {
        let v = vs[n - 1];
        rows_spec(vs, facts, n - 1) + if terminal(v.verdict.phase) {
            seq![
                (
                    n - 1,
                    match landed_spec(v, facts[n - 1]) {
                        Some(why) => why,
                        None => phase_name(v.verdict.phase),
                    },
                ),
            ]
        } else {
            Seq::empty()
        }
    }
}

/// `facts[i]` is what is known of `views[i]`'s branch.
pub fn finished_rows(views: &Vec<Reading>, facts: &Vec<Landing>) -> (r: Vec<(usize, String)>)
    requires
        facts.len() == views.len(),
    ensures
        r@.map_values(|x: (usize, String)| (x.0 as int, x.1@)) == rows_spec(
            views@,
            facts@,
            views@.len() as int,
        ),
{
    let mut r: Vec<(usize, String)> = Vec::new();
    let mut i: usize = 0;
    while i < views.len()
        invariant
            i <= views.len() == facts.len(),
            r@.map_values(|x: (usize, String)| (x.0 as int, x.1@)) == rows_spec(
                views@,
                facts@,
                i as int,
            ),
        decreases views.len() - i,
    {
        let ghost before = r@.map_values(|x: (usize, String)| (x.0 as int, x.1@));
        if views[i].phase().is_terminal() {
            let why = match why_landed(&views[i], &facts[i]) {
                Some(w) => w,
                None => views[i].phase().as_str().to_string(),
            };
            r.push((i, why));
            assert(r@.map_values(|x: (usize, String)| (x.0 as int, x.1@)) =~= before.push(
                rows_spec(views@, facts@, i + 1).last(),
            ));
        } else {
            assert(rows_spec(views@, facts@, i + 1) =~= rows_spec(views@, facts@, i as int));
        }
        i += 1;
    }
    r
}


/// The finished rows are exactly the wall's ended agents, in the wall's
/// order, each once: an agent sitting idle is never among them.
pub proof fn the_finished_rows_are_the_ended_ones_in_order(vs: Seq<Reading>, facts: Seq<Landing>, n: int)
    requires
        0 <= n <= vs.len(),
    ensures
        forall|a: int, b: int|
            0 <= a < b < rows_spec(vs, facts, n).len() ==> #[trigger] rows_spec(vs, facts, n)[a].0
                < #[trigger] rows_spec(vs, facts, n)[b].0,
        forall|k: int|
            0 <= k < rows_spec(vs, facts, n).len() ==> 0 <= #[trigger] rows_spec(vs, facts, n)[k].0 < n
                && terminal(vs[rows_spec(vs, facts, n)[k].0].verdict.phase),
        forall|i: int|
            0 <= i < n && terminal(#[trigger] vs[i].verdict.phase) ==> exists|k: int|
                0 <= k < rows_spec(vs, facts, n).len() && rows_spec(vs, facts, n)[k].0 == i,
    decreases n,
{
    if n > 0 {
        the_finished_rows_are_the_ended_ones_in_order(vs, facts, n - 1);
        let front = rows_spec(vs, facts, n - 1);
        let all = rows_spec(vs, facts, n);
        if terminal(vs[n - 1].verdict.phase) {
            assert(all.len() == front.len() + 1);
            assert forall|k: int| 0 <= k < front.len() implies all[k] == front[k] by {}
            assert(all[front.len() as int].0 == n - 1);
            assert forall|i: int| 0 <= i < n && terminal(#[trigger] vs[i].verdict.phase) implies exists|k: int|
                0 <= k < all.len() && all[k].0 == i by {
                if i == n - 1 {
                    assert(all[front.len() as int].0 == i);
                } else {
                    let k = choose|k: int| 0 <= k < front.len() && front[k].0 == i;
                    assert(all[k].0 == i);
                }
            }
        } else {
            assert(all =~= front);
        }
    }
}

/// What the verb says of a row it kept.
pub open spec fn held_line(id: Seq<char>, tree: Seq<char>) -> Seq<char> {
    "kept "@ + id + ": "@ + tree + " holds work no commit has"@ + "\n"@
}

pub fn held(id: &str, tree: &str) -> (s: String)
    ensures
        s@ == held_line(id@, tree@),
{
    let mut s = text::joined("kept ", id);
    s.append(": ");
    s.append(tree);
    s.append(" holds work no commit has");
    s.append("\n");
    s
}

/// Work no commit has is never taken, landed or not.
pub proof fn a_tree_holding_work_is_never_taken(landed: bool, tree: Seq<char>)
    ensures
        take_spec(landed, Some(tree)).0 == 0,
{
}

/// A whole clear over the finished rows (each an id and why it is over).
pub open spec fn clear_spec(
    rows: Seq<(Seq<char>, Seq<char>)>,
    force: bool,
    typed: Option<Seq<char>>,
) -> (Seq<char>, Seq<Seq<char>>) {
    round_spec("clear"@, "cleared"@, rows, force, typed)
}

/// The clear's decisions: what it prints before it takes anything, and the
/// rows it takes, by id, in the order listed.
pub fn clearing(rows: &Vec<(String, String)>, force: bool, typed: Option<&str>) -> (r: (
    String,
    Vec<String>,
))
    ensures
        ({
            let want = clear_spec(
                rows@.map_values(|c: (String, String)| (c.0@, c.1@)),
                force,
                match typed {
                    Some(t) => Some(t@),
                    None => None,
                },
            );
            r.0@ == want.0 && r.1@.map_values(|t: String| t@) == want.1
        }),
{
    round("clear", "cleared", rows, force, typed)
}

} // verus!
