//! `amx uninstall` — take out every vendor's wiring and every record.
//!
//! Refused while any agent is still running: their answers would go with
//! the records. Every wire a vendor carries goes, the reporting one and any a
//! person opted into, each said as it goes.
use vstd::prelude::*;
use crate::exit;
use crate::text::{self, joined_with};
use crate::verbs::doctor::WireKind;

verus! {

/// The refusal while agents are still running, naming each of them.
pub open spec fn still_running_spec(ids: Seq<Seq<char>>) -> Option<Seq<char>> {
    if ids.len() == 0 {
        None
    } else {
        Some(
            "still running: "@ + joined_with(ids, ", "@)
                + ". stop them first, or their answers go with the records."@,
        )
    }
}

/// What the verb exits with when it refuses.
pub const REFUSED: i32 = exit::FAILURE;

pub fn still_running(ids: &Vec<String>) -> (r: Option<String>)
    ensures
        r matches Some(s) ==> still_running_spec(ids@.map_values(|i: String| i@)) == Some(s@),
        r is None ==> still_running_spec(ids@.map_values(|i: String| i@)) is None,
{
    if ids.len() == 0 {
        return None;
    }
    let mut s = text::joined("still running: ", text::join(ids, ", ").as_str());
    s.append(". stop them first, or their answers go with the records.");
    Some(s)
}

/// The line for one wire taken out, or found not to be amx's.
pub open spec fn took_out_spec(kind: WireKind, changed: bool, path: Seq<char>) -> Seq<char> {
    match (kind, changed) {
        (WireKind::File, true) => "removed "@ + path,
        (WireKind::File, false) => "no extension of amx's at "@ + path,
        (WireKind::Plugin, true) => "removed the plugin at "@ + path,
        (WireKind::Plugin, false) => "no plugin of amx's at "@ + path,
    }
}

pub fn took_out(kind: WireKind, changed: bool, path: &str) -> (s: String)
    ensures
        s@ == took_out_spec(kind, changed, path@),
{
    match (kind, changed) {
        (WireKind::File, true) => text::joined("removed ", path),
        (WireKind::File, false) => text::joined("no extension of amx's at ", path),
        (WireKind::Plugin, true) => text::joined("removed the plugin at ", path),
        (WireKind::Plugin, false) => text::joined("no plugin of amx's at ", path),
    }
}

/// An agent still running is never uninstalled out from under: every one of
/// them is named, and nothing is taken.
pub proof fn a_running_agent_stops_the_uninstall(ids: Seq<Seq<char>>, k: int)
    requires
        0 <= k < ids.len(),
    ensures
        still_running_spec(ids) is Some,
        text::contains(still_running_spec(ids)->0, ids[k]),
{
    lemma_named_in_the_list(ids, k);
    let at = "still running: "@.len() as int + place(ids, k);
    let line = still_running_spec(ids)->0;
    let j = joined_with(ids, ", "@);
    let p = place(ids, k);
    assert(line =~= "still running: "@ + j + ". stop them first, or their answers go with the records."@);
    assert(line.subrange(at, at + ids[k].len()) =~= j.subrange(p, p + ids[k].len()));
    assert(text::holds_at(line, ids[k], at));
}

/// Where the `k`th word starts in the words joined with `", "`.
pub open spec fn place(ids: Seq<Seq<char>>, k: int) -> int
    decreases ids.len(),
{
    if ids.len() <= 1 || k >= ids.len() - 1 {
        if ids.len() <= 1 {
            0
        } else {
            (joined_with(ids.drop_last(), ", "@).len() + ", "@.len()) as int
        }
    } else {
        place(ids.drop_last(), k)
    }
}

proof fn lemma_named_in_the_list(ids: Seq<Seq<char>>, k: int)
    requires
        0 <= k < ids.len(),
    ensures
        0 <= place(ids, k),
        place(ids, k) + ids[k].len() <= joined_with(ids, ", "@).len(),
        joined_with(ids, ", "@).subrange(place(ids, k), place(ids, k) + ids[k].len()) == ids[k],
    decreases ids.len(),
{
    let j = joined_with(ids, ", "@);
    if ids.len() == 1 {
        assert(j =~= ids[0]);
        assert(j.subrange(0, ids[0].len() as int) =~= ids[0]);
    } else if k == ids.len() - 1 {
        let front = joined_with(ids.drop_last(), ", "@);
        assert(j =~= front + ", "@ + ids.last());
        let at = (front.len() + ", "@.len()) as int;
        assert(j.subrange(at, at + ids[k].len()) =~= ids[k]);
    } else {
        lemma_named_in_the_list(ids.drop_last(), k);
        let front = joined_with(ids.drop_last(), ", "@);
        assert(j =~= front + ", "@ + ids.last());
        let p = place(ids, k);
        assert(j.subrange(p, p + ids[k].len()) =~= front.subrange(p, p + ids[k].len()));
    }
}

} // verus!
