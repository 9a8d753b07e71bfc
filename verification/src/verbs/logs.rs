//! `amx logs` — the pane, without taking this terminal for it: the last of
//! what the pane has drawn, printed and done with. Once the pane is gone the
//! record is what is left, so what the agent answered with is printed then.
use vstd::prelude::*;
use crate::exit::{self, Outcome};
use crate::text::{self, joined_with, lines, sanitized, trim};
use crate::verbs::interrupt::complaint;
use crate::verbs::send::{self, line_spec, rendered_spec};

verus! {

/// How much of the pane a reading shows when nobody says otherwise.
pub const LINES: u32 = 100;

/// The lines with the blank rows a screen is padded out with taken off the
/// end; blank lines inside the output are the pane's own and stay.
pub open spec fn unpadded(ls: Seq<Seq<char>>) -> Seq<Seq<char>>
    decreases ls.len(),
{
    if ls.len() > 0 && trim(ls.last()).len() == 0 {
        unpadded(ls.drop_last())
    } else {
        ls
    }
}

/// The last `n` lines of a capture with anything on them, made inert.
pub open spec fn tail_spec(capture: Seq<char>, n: nat) -> Seq<char> {
    let kept = unpadded(lines(sanitized(capture)));
    joined_with(
        if kept.len() > n {
            kept.skip(kept.len() - n)
        } else {
            kept
        },
        "\n"@,
    )
}

/// Whether the last line has nothing on it.
fn ends_blank(ls: &Vec<String>) -> (b: bool)
    ensures
        b == (ls@.len() > 0 && trim(ls@.last()@).len() == 0),
{
    if ls.len() == 0 {
        return false;
    }
    let last = text::trimmed(ls[ls.len() - 1].as_str());
    last.unicode_len() == 0
}

pub fn tail_of(capture: &str, n: usize) -> (s: String)
    ensures
        s@ == tail_spec(capture@, n as nat),
{
    let clean = text::sanitize(capture);
    let mut kept = text::lines_of(clean.as_str());
    let ghost all = kept@.map_values(|l: String| l@);
    while ends_blank(&kept)
        invariant
            unpadded(all) == unpadded(kept@.map_values(|l: String| l@)),
        decreases kept.len(),
    {
        let ghost before = kept@.map_values(|l: String| l@);
        assert(before.last() == kept@.last()@);
        kept.pop();
        assert(kept@.map_values(|l: String| l@) =~= before.drop_last());
    }
    let ghost k = kept@.map_values(|l: String| l@);
    assert(unpadded(k) == k);
    let start = if kept.len() > n {
        kept.len() - n
    } else {
        0
    };
    let mut last: Vec<String> = Vec::new();
    let mut i = start;
    while i < kept.len()
        invariant
            start <= i <= kept.len(),
            k == kept@.map_values(|l: String| l@),
            last@.map_values(|l: String| l@) == k.subrange(start as int, i as int),
        decreases kept.len() - i,
    {
        let ghost before = last@.map_values(|l: String| l@);
        last.push(kept[i].clone());
        assert(last@.map_values(|l: String| l@) =~= before.push(k[i as int]));
        assert(k.subrange(start as int, i + 1) =~= k.subrange(start as int, i as int).push(
            k[i as int],
        ));
        i += 1;
    }
    assert(k.subrange(start as int, kept.len() as int) =~= if k.len() > n {
        k.skip(k.len() - n)
    } else {
        k
    });
    text::join(&last, "\n")
}

/// What the verb says: the tail of a live pane (a pane with nothing on it is
/// an answer too, said on stderr), or, once the pane is gone, the answer on
/// the record, the way `result` hands one back.
pub open spec fn run_spec(
    id: Seq<char>,
    alive: bool,
    capture: Seq<char>,
    answer: Option<Seq<char>>,
    n: nat,
    to_terminal: bool,
) -> (i32, Seq<char>, Seq<char>) {
    if alive {
        let tail = tail_spec(capture, n);
        if tail.len() == 0 {
            (exit::OK, Seq::empty(), complaint(id + " has a pane, and it has printed nothing yet"@))
        } else {
            (exit::OK, line_spec(tail), Seq::empty())
        }
    } else {
        match answer {
            Some(a) => (exit::OK, line_spec(rendered_spec(a, to_terminal)), Seq::empty()),
            None => (
                exit::FAILURE,
                Seq::empty(),
                complaint(id + " has no pane any more, and amx captured no answer from it"@),
            ),
        }
    }
}

/// The verb, given whether the pane is alive, what it showed, and the answer
/// on the record.
pub fn run(
    id: &str,
    alive: bool,
    capture: &str,
    answer: Option<&str>,
    n: u32,
    to_terminal: bool,
) -> (o: Outcome)
    ensures
        ({
            let want = run_spec(
                id@,
                alive,
                capture@,
                match answer {
                    Some(a) => Some(a@),
                    None => None,
                },
                n as nat,
                to_terminal,
            );
            &&& o.code == want.0
            &&& o.out@ == want.1
            &&& o.err@ == want.2
        }),
{
    if alive {
        let tail = tail_of(capture, n as usize);
        if tail.unicode_len() == 0 {
            let mut err = text::joined("amx: ", id);
            err.append(" has a pane, and it has printed nothing yet");
            err.append("\n");
            Outcome { code: exit::OK, out: String::new(), err }
        } else {
            Outcome { code: exit::OK, out: send::line(tail.as_str()), err: String::new() }
        }
    } else {
        match answer {
            Some(a) => {
                let r = send::rendered(a, to_terminal);
                Outcome { code: exit::OK, out: send::line(r.as_str()), err: String::new() }
            },
            None => {
                let mut err = text::joined("amx: ", id);
                err.append(" has no pane any more, and amx captured no answer from it");
                err.append("\n");
                Outcome { code: exit::FAILURE, out: String::new(), err }
            },
        }
    }
}

} // verus!
