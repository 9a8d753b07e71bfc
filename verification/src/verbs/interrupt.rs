//! `amx interrupt` — stop the turn an agent is in the middle of, with the one
//! key a vendor at work reads as "drop what you are doing". A question is not
//! a turn, a command is not an agent, and nothing running is nothing to
//! interrupt: each of those is refused with what to do instead.
use vstd::prelude::*;
use crate::derive::{Evidence, Reading};
use crate::exit::{self, Outcome};
use crate::store::{Phase, State, phase_name};
use crate::text;
use crate::verbs::send::{question_lines, question_out};

verus! {

/// The event amx records for a turn it cut short.
pub const INTERRUPT: &'static str = "interrupt";

/// The key that ends the turn a vendor is in the middle of.
pub const CANCELS: &'static str = "Escape";

/// What is in this agent's pane, as far as a key is concerned.
#[derive(Debug, Clone, Copy, PartialEq, Eq, Structural)]
pub enum Cut {
    /// A turn, which is the one thing the key ends.
    Turn,
    /// A question: the key there answers it rather than ends anything.
    Question,
    /// A command somebody ran, with no vendor in it to read a key at all.
    Command,
    /// Nothing: there is no turn for a key to cut short.
    Nothing,
}

/// Whether this row is a command somebody ran rather than an agent: no
/// vendor on the record, and a record still at the phase the spawn wrote.
pub open spec fn runs_a_command_spec(v: Reading) -> bool {
    v.meta.agent is None && v.state.state == Phase::Starting
}

pub fn runs_a_command(v: &Reading) -> (b: bool)
    ensures
        b == runs_a_command_spec(*v),
{
    v.meta.agent.is_none() && v.state.state == Phase::Starting
}

/// Weigh one reading. A pane amx let go is asked about before the phase is:
/// letting a pane go is no ending, and there is no pane left to type at.
pub open spec fn cut_spec(v: Reading) -> Cut {
    if v.verdict.evidence == Evidence::LetGo {
        Cut::Nothing
    } else {
        match v.verdict.phase {
            Phase::Waiting => Cut::Question,
            Phase::Working => if runs_a_command_spec(v) {
                Cut::Command
            } else {
                Cut::Turn
            },
            _ => Cut::Nothing,
        }
    }
}

pub fn what_is_running(v: &Reading) -> (c: Cut)
    ensures
        c == cut_spec(*v),
{
    if v.verdict.evidence == Evidence::LetGo {
        return Cut::Nothing;
    }
    match v.phase() {
        Phase::Waiting => Cut::Question,
        Phase::Working => if runs_a_command(v) {
            Cut::Command
        } else {
            Cut::Turn
        },
        _ => Cut::Nothing,
    }
}

/// What this agent is doing, for a refusal to name it by: `parked` where amx
/// let its pane go, and its phase otherwise.
pub open spec fn doing_spec(v: Reading) -> Seq<char> {
    if v.verdict.evidence == Evidence::LetGo {
        "parked"@
    } else {
        phase_name(v.verdict.phase)
    }
}

pub fn doing(v: &Reading) -> (s: &'static str)
    ensures
        s@ == doing_spec(*v),
{
    if v.verdict.evidence == Evidence::LetGo {
        "parked"
    } else {
        v.phase().as_str()
    }
}

/// What sends the key at a question, which is the other verb.
pub open spec fn answer_it_instead_spec(id: Seq<char>) -> Seq<char> {
    id + " is waiting on a question, not working. dismiss it with `amx answer "@ + id + " esc`"@
}

pub fn answer_it_instead(id: &str) -> (s: String)
    ensures
        s@ == answer_it_instead_spec(id@),
{
    let mut s = text::joined(id, " is waiting on a question, not working. dismiss it with `amx answer ");
    s.append(id);
    s.append(" esc`");
    s
}

/// What ends a command, which is not a key at its pane.
pub open spec fn end_the_command_spec(id: Seq<char>) -> Seq<char> {
    id + " is a command rather than an agent; there is no turn in it. run: amx stop "@ + id
}

pub fn end_the_command(id: &str) -> (s: String)
    ensures
        s@ == end_the_command_spec(id@),
{
    let mut s = text::joined(id, " is a command rather than an agent; there is no turn in it. run: amx stop ");
    s.append(id);
    s
}

/// What a pane with no turn in it has to say for itself.
pub open spec fn nothing_is_running_spec(id: Seq<char>, doing: Seq<char>) -> Seq<char> {
    id + " is "@ + doing + "; nothing is running to interrupt"@
}

pub fn nothing_is_running(id: &str, doing: &str) -> (s: String)
    ensures
        s@ == nothing_is_running_spec(id@, doing@),
{
    let mut s = text::joined(id, " is ");
    s.append(doing);
    s.append("; nothing is running to interrupt");
    s
}

/// A line of complaint, as stderr receives it.
pub open spec fn complaint(msg: Seq<char>) -> Seq<char> {
    "amx: "@ + msg + "\n"@
}

/// Exit `BLOCKED`, with the question this agent is stopped on where the
/// answer would have gone and the verb that dismisses it on stderr.
pub fn a_question_is_answered(v: &Reading, to_terminal: bool) -> (o: Outcome)
    ensures
        o.code == exit::BLOCKED,
        o.out@ == question_lines(
            match v.state.question {
                Some(q) => Some(q@),
                None => None,
            },
            v.state.options@.map_values(|l: String| l@),
            to_terminal,
        ),
        o.err@ == complaint(answer_it_instead_spec(v.meta.id@)),
{
    let out = question_out(&v.state, to_terminal);
    let said = answer_it_instead(v.id());
    let mut err = text::joined("amx: ", said.as_str());
    err.append("\n");
    Outcome { code: exit::BLOCKED, out, err }
}

/// What the verb comes to for this reading: the outcome, and whether the
/// key is to be sent — after `INTERRUPT` is on the record, so a `result`
/// reading the log never hands back the last turn's answer as this one's.
pub open spec fn run_spec(v: Reading, to_terminal: bool) -> (i32, Seq<char>, Seq<char>, bool) {
    match cut_spec(v) {
        Cut::Turn => (exit::OK, Seq::empty(), Seq::empty(), true),
        Cut::Question => (
            exit::BLOCKED,
            question_lines(
                match v.state.question {
                    Some(q) => Some(q@),
                    None => None,
                },
                v.state.options@.map_values(|l: String| l@),
                to_terminal,
            ),
            complaint(answer_it_instead_spec(v.meta.id@)),
            false,
        ),
        Cut::Command => (
            exit::FAILURE,
            Seq::empty(),
            complaint(end_the_command_spec(v.meta.id@)),
            false,
        ),
        Cut::Nothing => (
            exit::FAILURE,
            Seq::empty(),
            complaint(nothing_is_running_spec(v.meta.id@, doing_spec(v))),
            false,
        ),
    }
}

/// The verb, over the reading of the agent it was asked about.
pub fn run(v: &Reading, to_terminal: bool) -> (r: (Outcome, bool))
    ensures
        r.0.code == run_spec(*v, to_terminal).0,
        r.0.out@ == run_spec(*v, to_terminal).1,
        r.0.err@ == run_spec(*v, to_terminal).2,
        r.1 == run_spec(*v, to_terminal).3,
{
    match what_is_running(v) {
        Cut::Turn => (Outcome { code: exit::OK, out: String::new(), err: String::new() }, true),
        Cut::Question => (a_question_is_answered(v, to_terminal), false),
        Cut::Command => {
            let said = end_the_command(v.id());
            let mut err = text::joined("amx: ", said.as_str());
            err.append("\n");
            (Outcome { code: exit::FAILURE, out: String::new(), err }, false)
        },
        Cut::Nothing => {
            let said = nothing_is_running(v.id(), doing(v));
            let mut err = text::joined("amx: ", said.as_str());
            err.append("\n");
            (Outcome { code: exit::FAILURE, out: String::new(), err }, false)
        },
    }
}

/// The key is only ever sent at a turn: never at a question, a command, or a
/// pane amx has let go.
pub proof fn the_key_only_lands_in_a_turn(v: Reading, to_terminal: bool)
    ensures
        run_spec(v, to_terminal).3 ==> v.verdict.phase == Phase::Working
            && v.verdict.evidence != Evidence::LetGo && !runs_a_command_spec(v),
        run_spec(v, to_terminal).3 <==> run_spec(v, to_terminal).0 == exit::OK,
{
}


/// What the record keeps of a key pressed: the moment, and nothing else. It
/// is something amx did rather than something the agent said, so the phase
/// and the moment anything was last heard stay where they were.
pub fn stamp(state: &mut State, at: u64)
    ensures
        *final(state) == (State { interrupted_at: at, ..*old(state) }),
{
    state.interrupted_at = at;
}

/// What an interrupt leaves on the record is the moment and nothing else:
/// the phase and the moment the agent was last heard from stay as they were.
pub proof fn an_interrupt_keeps_the_phase_and_the_last_word(state: State, at: u64)
    ensures
        (State { interrupted_at: at, ..state }).state == state.state,
        (State { interrupted_at: at, ..state }).last_event == state.last_event,
        (State { interrupted_at: at, ..state }).interrupted_at == at,
{
}

} // verus!
