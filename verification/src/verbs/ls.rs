//! `amx ls` — every agent, and what it is doing, as a short table a person
//! takes in at a glance: one row to one line, whatever the agent wrote.
use vstd::prelude::*;
use crate::derive::{Reading, line_of};
use crate::exit::{self, Outcome};
use crate::store::phase_name;
use crate::text::{self, decimal, first_line, pad_left, pad_right, sanitized, trim};
use crate::verbs::send::{numbered, numbered_spec};

verus! {

/// One line of some text, without the blank at its edges.
pub open spec fn first_of(t: Seq<char>) -> Seq<char> {
    trim(first_line(t))
}

/// A string amx did not author, on one line and unable to drive the terminal
/// it prints into.
pub open spec fn inert(t: Seq<char>) -> Seq<char> {
    trim(sanitized(first_of(t)))
}

/// The age, in the shortest form that says it: seconds, minutes, hours or
/// days, counted down.
pub open spec fn age_text(seconds: nat) -> Seq<char> {
    if seconds < 60 {
        decimal(seconds) + "s"@
    } else if seconds < 3600 {
        decimal(seconds / 60) + "m"@
    } else if seconds < 86400 {
        decimal(seconds / 3600) + "h"@
    } else {
        decimal(seconds / 86400) + "d"@
    }
}

/// The choices, each after two spaces, each on the row's own one line.
pub open spec fn choices_text(cs: Seq<Seq<char>>) -> Seq<char>
    decreases cs.len(),
{
    if cs.len() == 0 {
        Seq::empty()
    } else {
        choices_text(cs.drop_last()) + "  "@ + inert(cs.last())
    }
}

/// What this agent is up to, as a row can carry it: what it is waiting to be
/// told, with the numbered choices it is waiting to be told from, else what
/// it is doing.
pub open spec fn doing_spec(v: Reading) -> Seq<char> {
    inert(first_of(
        match line_of(v.state) {
            Some(l) => l@,
            None => Seq::empty(),
        },
    )) + choices_text(numbered_spec(v.state.options@.map_values(|l: String| l@)))
}

/// The widest id among these rows.
pub open spec fn widest(vs: Seq<Reading>) -> nat
    decreases vs.len(),
{
    if vs.len() == 0 {
        0
    } else {
        let w = widest(vs.drop_last());
        let n = vs.last().meta.id@.len();
        if n > w {
            n
        } else {
            w
        }
    }
}

/// One row: the phase, the id in a column as wide as the widest, the age
/// right-aligned in five, and what it is doing.
pub open spec fn row(v: Reading, width: nat) -> Seq<char> {
    pad_right(phase_name(v.verdict.phase), 8) + " "@ + pad_right(v.meta.id@, width) + "  "@
        + pad_left(age_text(v.verdict.age as nat), 5) + "  "@ + doing_spec(v) + "\n"@
}

/// The rows of these readings, in order.
pub open spec fn rows(vs: Seq<Reading>, width: nat) -> Seq<char>
    decreases vs.len(),
{
    if vs.len() == 0 {
        Seq::empty()
    } else {
        rows(vs.drop_last(), width) + row(vs.last(), width)
    }
}

/// The table a person reads.
pub open spec fn table_spec(vs: Seq<Reading>) -> Seq<char> {
    if vs.len() == 0 {
        "no agents\n"@
    } else {
        rows(vs, widest(vs))
    }
}

/// The age of a reading, as a row says it.
pub fn age(v: &Reading) -> (s: String)
    ensures
        s@ == age_text(v.verdict.age as nat),
{
    let seconds = v.verdict.age;
    if seconds < 60 {
        let n = text::number(seconds);
        text::joined(n.as_str(), "s")
    } else if seconds < 3600 {
        let n = text::number(seconds / 60);
        text::joined(n.as_str(), "m")
    } else if seconds < 86400 {
        let n = text::number(seconds / 3600);
        text::joined(n.as_str(), "h")
    } else {
        let n = text::number(seconds / 86400);
        text::joined(n.as_str(), "d")
    }
}

/// One line of it, trimmed.
fn first_of_text(t: &str) -> (s: String)
    ensures
        s@ == first_of(t@),
{
    let l = text::first_line_of(t);
    text::trimmed(l.as_str())
}

/// A string amx did not author, as a row carries it.
fn inert_text(t: &str) -> (s: String)
    ensures
        s@ == inert(t@),
{
    let l = first_of_text(t);
    let clean = text::sanitize(l.as_str());
    text::trimmed(clean.as_str())
}

/// What this agent is up to, as its row says it.
pub fn doing(v: &Reading) -> (s: String)
    ensures
        s@ == doing_spec(*v),
{
    let l = match v.line() {
        Some(t) => first_of_text(t),
        None => {
            proof {
                reveal_strlit("");
            }
            first_of_text("")
        },
    };
    let mut said = inert_text(l.as_str());
    let ghost head = said@;
    let choices = numbered(&v.state.options);
    let ghost all = choices@.map_values(|c: String| c@);
    let mut i: usize = 0;
    while i < choices.len()
        invariant
            i <= choices.len(),
            all == choices@.map_values(|c: String| c@),
            said@ == head + choices_text(all.take(i as int)),
        decreases choices.len() - i,
    {
        said.append("  ");
        let c = inert_text(choices[i].as_str());
        said.append(c.as_str());
        proof {
            assert(all.take(i + 1).drop_last() =~= all.take(i as int));
            assert(all[i as int] == choices@[i as int]@);
            assert(said@ =~= head + choices_text(all.take(i + 1)));
        }
        i += 1;
    }
    assert(all.take(choices.len() as int) =~= all);
    proof {
        reveal_strlit("");
        assert(""@ =~= Seq::<char>::empty());
    }
    said
}

/// The widest id among these rows, in characters.
fn widest_id(vs: &Vec<Reading>) -> (w: usize)
    ensures
        w == widest(vs@),
{
    let mut w: usize = 0;
    let mut i: usize = 0;
    while i < vs.len()
        invariant
            i <= vs.len(),
            w == widest(vs@.take(i as int)),
        decreases vs.len() - i,
    {
        assert(vs@.take(i + 1).drop_last() =~= vs@.take(i as int));
        let n = vs[i].meta.id.as_str().unicode_len();
        if n > w {
            w = n;
        }
        i += 1;
    }
    assert(vs@.take(vs.len() as int) =~= vs@);
    w
}

/// One row of the table.
fn put_row(out: &mut String, v: &Reading, width: usize)
    ensures
        final(out)@ == old(out)@ + row(*v, width as nat),
{
    let phase = text::padded(v.verdict.phase.as_str(), 8);
    out.append(phase.as_str());
    out.append(" ");
    let id = text::padded(v.id(), width);
    out.append(id.as_str());
    out.append("  ");
    let a = age(v);
    let aged = text::padded_left(a.as_str(), 5);
    out.append(aged.as_str());
    out.append("  ");
    let d = doing(v);
    out.append(d.as_str());
    out.append("\n");
}

/// The table a person reads.
pub fn table(vs: &Vec<Reading>) -> (s: String)
    ensures
        s@ == table_spec(vs@),
{
    if vs.len() == 0 {
        return "no agents\n".to_string();
    }
    let width = widest_id(vs);
    let mut out = String::new();
    let mut i: usize = 0;
    while i < vs.len()
        invariant
            i <= vs.len(),
            width == widest(vs@),
            out@ == rows(vs@.take(i as int), width as nat),
        decreases vs.len() - i,
    {
        put_row(&mut out, &vs[i], width);
        assert(vs@.take(i + 1).drop_last() =~= vs@.take(i as int));
        i += 1;
    }
    assert(vs@.take(vs.len() as int) =~= vs@);
    out
}

/// The verb, over the readings of every agent.
pub fn run(vs: &Vec<Reading>) -> (o: Outcome)
    ensures
        o.code == exit::OK,
        o.out@ == table_spec(vs@),
        o.err@.len() == 0,
{
    Outcome { code: exit::OK, out: table(vs), err: String::new() }
}

} // verus!
