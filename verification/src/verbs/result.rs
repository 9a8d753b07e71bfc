//! `amx result` — wait for the turn to end, and say how it ended. The exit
//! code is which ending happened: `0` the answer is on stdout, `1` nothing is
//! coming, `2` it is asking a question (a wait never goes through one), `3`
//! the caller's own deadline.
//!
//! The turn it waits for is the one after the last message: an answer from
//! before it belongs to the turn before it.
use vstd::prelude::*;
use crate::derive::{READ_TURN_END, Reading};
use crate::exit::{self, Outcome};
use crate::store::{Event, Phase};
use crate::text;
use crate::verbs::interrupt::{complaint, INTERRUPT};
use crate::verbs::send::{self, SEND, line_spec, nothing_more_spec, question_lines, rendered_spec};

verus! {

/// The vendor's own word for a turn that ended.
pub const TURN_END: &'static str = "Stop";

/// What one reading means to a caller waiting on an answer.
#[derive(Debug, Clone, Copy, PartialEq, Eq, Structural)]
pub enum Settled {
    /// The turn is over; whatever was captured is the answer.
    Answer,
    /// It is asking, and the wait ends here rather than behind the question.
    Question,
    /// The command ended before the last message was answered.
    Unanswered,
    /// The turn was cut short: there is no answer to it and never will be.
    Interrupted,
    /// It failed or was stopped: no answer is coming.
    Nothing,
    /// Still going.
    NotYet,
}

/// Whether the turn amx is waiting for has ended, and what ended it.
#[derive(Debug, Clone, Copy, PartialEq, Eq, Structural)]
pub enum Ended {
    /// Nothing since the last message says a turn is over.
    NotYet,
    /// A turn of the agent's own ended, and whatever it left is its answer.
    Turn,
    /// `amx interrupt` ended it, and the answer on the record is the turn
    /// before the message's.
    Interrupted,
}

/// Weigh one reading, given how the turn after the last message ended.
pub open spec fn settled_spec(phase: Phase, ended: Ended) -> Settled {
    match phase {
        Phase::Waiting => Settled::Question,
        Phase::Idle | Phase::Done => match ended {
            Ended::Interrupted => Settled::Interrupted,
            Ended::Turn => Settled::Answer,
            Ended::NotYet => if phase == Phase::Idle {
                Settled::NotYet
            } else {
                Settled::Unanswered
            },
        },
        Phase::Failed | Phase::Stopped => Settled::Nothing,
        _ => Settled::NotYet,
    }
}

pub fn settled(phase: Phase, ended: Ended) -> (s: Settled)
    ensures
        s == settled_spec(phase, ended),
{
    match (phase, ended) {
        (Phase::Waiting, _) => Settled::Question,
        (Phase::Idle, Ended::Interrupted) | (Phase::Done, Ended::Interrupted) => Settled::Interrupted,
        (Phase::Idle, Ended::Turn) | (Phase::Done, Ended::Turn) => Settled::Answer,
        (Phase::Idle, Ended::NotYet) => Settled::NotYet,
        (Phase::Done, Ended::NotYet) => Settled::Unanswered,
        (Phase::Failed, _) | (Phase::Stopped, _) => Settled::Nothing,
        (Phase::Starting, _) | (Phase::Working, _) | (Phase::Unknown, _) => Settled::NotYet,
    }
}

/// Whether this event is amx cutting the turn short.
pub open spec fn cut_short_spec(e: Event) -> bool {
    e.kind@ == INTERRUPT@
}

/// Whether this event says a turn of the agent's own ended: the vendor's
/// word, a reading's word, or an interrupt. A subagent's events ride the same
/// log and are not the agent's turn.
pub open spec fn a_turn_ended_spec(e: Event) -> bool {
    (e.kind@ == TURN_END@ || e.kind@ == READ_TURN_END@ || cut_short_spec(e)) && e.agent_id is None
}

pub fn a_turn_ended(e: &Event) -> (b: bool)
    ensures
        b == a_turn_ended_spec(*e),
{
    let k = e.kind.as_str();
    (text::same_text(k, TURN_END) || text::same_text(k, READ_TURN_END) || text::same_text(
        k,
        INTERRUPT,
    )) && e.agent_id.is_none()
}

/// Where the last message amx sent is on the log, if it sent one.
pub open spec fn last_send(events: Seq<Event>, n: int) -> Option<int>
    decreases n,
{
    if n <= 0 || n > events.len() {
        None
    } else if events[n - 1].kind@ == SEND@ {
        Some(n - 1)
    } else {
        last_send(events, n - 1)
    }
}

/// The first ending at or after `i`.
pub open spec fn first_end(events: Seq<Event>, i: int) -> Option<int>
    decreases events.len() - i,
{
    if i < 0 || i >= events.len() {
        None
    } else if a_turn_ended_spec(events[i]) {
        Some(i)
    } else {
        first_end(events, i + 1)
    }
}

/// How the turn after the last message ended, asked of the log: by order,
/// not by clock. An agent nobody sent anything answers with its last turn;
/// the first ending after the message is the one that counts.
pub open spec fn ended_spec(events: Seq<Event>) -> Ended {
    match last_send(events, events.len() as int) {
        None => Ended::Turn,
        Some(sent) => match first_end(events, sent) {
            None => Ended::NotYet,
            Some(k) => if cut_short_spec(events[k]) {
                Ended::Interrupted
            } else {
                Ended::Turn
            },
        },
    }
}

pub fn ended_past_the_last_message(events: &Vec<Event>) -> (e: Ended)
    ensures
        e == ended_spec(events@),
{
    let mut n = events.len();
    while n > 0 && !text::same_text(events[n - 1].kind.as_str(), SEND)
        invariant
            n <= events.len(),
            last_send(events@, events.len() as int) == last_send(events@, n as int),
        decreases n,
    {
        n -= 1;
    }
    if n == 0 {
        return Ended::Turn;
    }
    let sent = n - 1;
    let mut k = sent;
    while k < events.len() && !a_turn_ended(&events[k])
        invariant
            sent <= k <= events.len(),
            first_end(events@, sent as int) == first_end(events@, k as int),
        decreases events.len() - k,
    {
        k += 1;
    }
    if k == events.len() {
        Ended::NotYet
    } else if text::same_text(events[k].kind.as_str(), INTERRUPT) {
        Ended::Interrupted
    } else {
        Ended::Turn
    }
}

/// The answer on the record, as stdout receives it, or the honest absence of
/// one: a turn that ended with nothing captured is a failure to answer, never
/// an empty success.
pub open spec fn answer_spec(v: Reading, to_terminal: bool) -> (i32, Seq<char>, Seq<char>) {
    match v.state.result {
        Some(a) => (exit::OK, line_spec(rendered_spec(a@, to_terminal)), Seq::empty()),
        None => (
            exit::FAILURE,
            Seq::empty(),
            complaint(v.meta.id@ + " ended its turn, but amx captured no answer"@),
        ),
    }
}

pub fn answer(v: &Reading, to_terminal: bool) -> (o: Outcome)
    ensures
        o.code == answer_spec(*v, to_terminal).0,
        o.out@ == answer_spec(*v, to_terminal).1,
        o.err@ == answer_spec(*v, to_terminal).2,
{
    match &v.state.result {
        Some(a) => {
            let r = send::rendered(a.as_str(), to_terminal);
            Outcome { code: exit::OK, out: send::line(r.as_str()), err: String::new() }
        },
        None => {
            let mut err = text::joined("amx: ", v.id());
            err.append(" ended its turn, but amx captured no answer");
            err.append("\n");
            Outcome { code: exit::FAILURE, out: String::new(), err }
        },
    }
}

/// What a wait comes to after one reading: `None` while the turn is still
/// to come, and otherwise how it ends.
pub open spec fn step_spec(v: Reading, events: Seq<Event>, to_terminal: bool) -> Option<
    (i32, Seq<char>, Seq<char>),
> {
    let phase = v.verdict.phase;
    let ended = if phase == Phase::Idle || phase == Phase::Done {
        ended_spec(events)
    } else {
        Ended::NotYet
    };
    match settled_spec(phase, ended) {
        Settled::Answer => Some(answer_spec(v, to_terminal)),
        Settled::Question => Some(
            (
                exit::BLOCKED,
                question_lines(
                    match v.state.question {
                        Some(q) => Some(q@),
                        None => None,
                    },
                    v.state.options@.map_values(|l: String| l@),
                    to_terminal,
                ),
                "amx: "@ + v.meta.id@ + " is waiting on a question. answer it with `"@
                    + send::how_to_answer_spec(v.meta.id@, v.state.kind) + "`\n"@,
            ),
        ),
        Settled::Unanswered => Some(
            (exit::FAILURE, Seq::empty(), complaint(v.meta.id@ + " ended without answering"@)),
        ),
        Settled::Interrupted => Some(
            (
                exit::FAILURE,
                Seq::empty(),
                complaint(v.meta.id@ + " was interrupted; the turn ended with no answer"@),
            ),
        ),
        Settled::Nothing => Some(
            (exit::FAILURE, Seq::empty(), nothing_more_spec(v.meta.id@, phase)),
        ),
        Settled::NotYet => None,
    }
}

/// One reading of the wait: the agent as a reader hands it over, and its
/// event log. `None` is "read again after the pace the reading's evidence
/// sets"; a caller whose own deadline has passed then exits `TIMEOUT`.
pub fn step(v: &Reading, events: &Vec<Event>, to_terminal: bool) -> (o: Option<Outcome>)
    ensures
        match step_spec(*v, events@, to_terminal) {
            None => o is None,
            Some(r) => o matches Some(out) && out.code == r.0 && out.out@ == r.1 && out.err@
                == r.2,
        },
{
    let phase = v.phase();
    let ended = if phase == Phase::Idle || phase == Phase::Done {
        ended_past_the_last_message(events)
    } else {
        Ended::NotYet
    };
    match settled(phase, ended) {
        Settled::Answer => Some(answer(v, to_terminal)),
        Settled::Question => Some(send::waiting_on_a_question(v, to_terminal)),
        Settled::Unanswered => {
            let mut err = text::joined("amx: ", v.id());
            err.append(" ended without answering");
            err.append("\n");
            Some(Outcome { code: exit::FAILURE, out: String::new(), err })
        },
        Settled::Interrupted => {
            let mut err = text::joined("amx: ", v.id());
            err.append(" was interrupted; the turn ended with no answer");
            err.append("\n");
            Some(Outcome { code: exit::FAILURE, out: String::new(), err })
        },
        Settled::Nothing => Some(send::nothing_more_is_coming(v.id(), phase)),
        Settled::NotYet => None,
    }
}

/// A wait never goes through a question: whatever the log says, an agent
/// stopped on one ends the wait with `BLOCKED`.
pub proof fn a_question_always_ends_the_wait(v: Reading, events: Seq<Event>, to_terminal: bool)
    requires
        v.verdict.phase == Phase::Waiting,
    ensures
        step_spec(v, events, to_terminal) matches Some(r) && r.0 == exit::BLOCKED,
{
}

/// Exit `0` is only ever an answer on stdout: a wait that ends `OK` printed
/// the record's answer, never an empty success.
pub proof fn ok_means_an_answer(v: Reading, events: Seq<Event>, to_terminal: bool)
    requires
        step_spec(v, events, to_terminal) matches Some(r) && r.0 == exit::OK,
    ensures
        v.state.result matches Some(a) && step_spec(v, events, to_terminal) == Some(
            (exit::OK, line_spec(rendered_spec(a@, to_terminal)), Seq::<char>::empty()),
        ),
{
}

/// Only the log after the last message decides: whatever came before it is
/// the turn before it, and adding to that history changes nothing.
pub proof fn history_before_the_message_does_not_count(
    before: Seq<Event>,
    after: Seq<Event>,
    sent: Event,
)
    requires
        sent.kind@ == SEND@,
        forall|i: int| 0 <= i < after.len() ==> (#[trigger] after[i]).kind@ != SEND@,
    ensures
        ended_spec(before + seq![sent] + after) == ended_spec(seq![sent] + after),
{
    let whole = before + seq![sent] + after;
    let tail = seq![sent] + after;
    assert(whole =~= before + tail);
    assert forall|i: int| before.len() < i < whole.len() implies (#[trigger] whole[i]).kind@
        != SEND@ by {
        assert(whole[i] == after[i - before.len() - 1]);
    }
    assert forall|i: int| 0 < i < tail.len() implies (#[trigger] tail[i]).kind@ != SEND@ by {
        assert(tail[i] == after[i - 1]);
    }
    lemma_last_send_at(whole, before.len() as int, whole.len() as int);
    lemma_last_send_at(tail, 0, tail.len() as int);
    lemma_first_end_shift(before, tail, 0);
    lemma_first_end_range(tail, 0);
    if let Some(k) = first_end(tail, 0) {
        assert(whole[k + before.len()] == tail[k]);
    }
}

/// An ending found is an ending in range.
proof fn lemma_first_end_range(events: Seq<Event>, i: int)
    requires
        0 <= i,
    ensures
        first_end(events, i) matches Some(k) ==> i <= k < events.len(),
    decreases events.len() - i,
{
    if i < events.len() && !a_turn_ended_spec(events[i]) {
        lemma_first_end_range(events, i + 1);
    }
}

/// With nothing sent after index `at`, the last message among the first `n`
/// events is the one there.
proof fn lemma_last_send_at(events: Seq<Event>, at: int, n: int)
    requires
        0 <= at < n <= events.len(),
        events[at].kind@ == SEND@,
        forall|i: int| at < i < events.len() ==> (#[trigger] events[i]).kind@ != SEND@,
    ensures
        last_send(events, n) == Some(at),
    decreases n,
{
    if n - 1 > at {
        assert(events[n - 1].kind@ != SEND@);
        lemma_last_send_at(events, at, n - 1);
    }
}

/// Where the first ending is, read from a later start in a longer log.
proof fn lemma_first_end_shift(before: Seq<Event>, tail: Seq<Event>, i: int)
    requires
        0 <= i <= tail.len(),
    ensures
        first_end(before + tail, before.len() + i) == match first_end(tail, i) {
            Some(k) => Some(k + before.len()),
            None => None,
        },
    decreases tail.len() - i,
{
    let whole = before + tail;
    if i < tail.len() {
        assert(whole[before.len() + i] == tail[i]);
        lemma_first_end_shift(before, tail, i + 1);
    }
}

} // verus!
