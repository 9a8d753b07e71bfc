//! `amx send` — put a message in front of a running agent, and the sentences
//! `result` and `answer` share with it.
use vstd::prelude::*;
use crate::derive::Reading;
use crate::exit::{self, Outcome};
use crate::store::{Event, Kind, Phase, State, phase_name, terminal};
use crate::text::{self, contains, decimal, sanitized};

verus! {

/// The event amx records for a message it sent.
pub const SEND: &'static str = "send";

/// The vendor's hook that says a message was taken.
pub const SUBMITTED: &'static str = "UserPromptSubmit";

/// Whether the message carries the brackets of the paste it travels in:
/// `ESC [ 200 ~` or `ESC [ 201 ~`, with `ESC [` written either as two
/// characters or as the one an 8-bit terminal takes in its place.
pub open spec fn ends_paste(text: Seq<char>) -> bool {
    ||| contains(text, "\u{1b}[200~"@)
    ||| contains(text, "\u{1b}[201~"@)
    ||| contains(text, "\u{9b}200~"@)
    ||| contains(text, "\u{9b}201~"@)
}

/// Whether the message ends its own paste, or opens one of its own.
pub fn ends_its_own_paste(text: &str) -> (b: bool)
    ensures
        b == ends_paste(text@),
{
    text::contains_text(text, "\u{1b}[200~") || text::contains_text(text, "\u{1b}[201~")
        || text::contains_text(text, "\u{9b}200~") || text::contains_text(text, "\u{9b}201~")
}

/// Whether this event is a prompt the agent itself submitted.
pub open spec fn submitted(e: Event) -> bool {
    e.kind@ == SUBMITTED@ && e.agent_id is None
}

/// How many of the first `n` events are prompts the agent itself submitted.
pub open spec fn submitted_count(events: Seq<Event>, n: int) -> nat
    decreases n,
{
    if n <= 0 || n > events.len() {
        0
    } else {
        submitted_count(events, n - 1) + if submitted(events[n - 1]) {
            1nat
        } else {
            0nat
        }
    }
}

/// How many prompts this agent has submitted. A subagent's ride the same log
/// and confirm nobody's send.
pub fn submissions(events: &Vec<Event>) -> (n: usize)
    ensures
        n == submitted_count(events@, events@.len() as int),
{
    let mut n: usize = 0;
    let mut i: usize = 0;
    while i < events.len()
        invariant
            i <= events.len(),
            n == submitted_count(events@, i as int),
            n <= i,
        decreases events.len() - i,
    {
        if text::same_text(events[i].kind.as_str(), SUBMITTED) && events[i].agent_id.is_none() {
            n += 1;
        }
        i += 1;
    }
    n
}

/// The choices under a question, numbered the way the screen numbers them:
/// `1. label`, counting from one.
pub open spec fn numbered_spec(options: Seq<Seq<char>>) -> Seq<Seq<char>> {
    Seq::new(options.len(), |i: int| decimal((i + 1) as nat) + ". "@ + options[i])
}

/// The choices under a question, numbered the way the screen numbers them.
pub fn numbered(options: &Vec<String>) -> (r: Vec<String>)
    ensures
        r@.map_values(|l: String| l@) == numbered_spec(options@.map_values(|l: String| l@)),
{
    let ghost want = numbered_spec(options@.map_values(|l: String| l@));
    let mut r: Vec<String> = Vec::new();
    let mut i: usize = 0;
    while i < options.len()
        invariant
            i <= options.len(),
            want == numbered_spec(options@.map_values(|l: String| l@)),
            r@.map_values(|l: String| l@) == want.take(i as int),
        decreases options.len() - i,
    {
        let mut said = text::number((i + 1) as u64);
        said.append(". ");
        said.append(options[i].as_str());
        let ghost before = r@.map_values(|l: String| l@);
        r.push(said);
        assert(r@.map_values(|l: String| l@) =~= before.push(said@));
        assert(want.take(i + 1) =~= want.take(i as int).push(want[i as int]));
        i += 1;
    }
    assert(want.take(options.len() as int) =~= want);
    r
}

/// The command that answers a question of this kind, with the grammar it
/// takes.
pub open spec fn how_to_answer_spec(id: Seq<char>, kind: Option<Kind>) -> Seq<char> {
    if kind == Some(Kind::Question) {
        "amx answer "@ + id + " <1-9|\"words of your own\">"@
    } else {
        "amx answer "@ + id + " <y|n|1-9|enter|esc>"@
    }
}

/// The command that answers this question, with the grammar it will take.
pub fn how_to_answer(id: &str, kind: Option<Kind>) -> (s: String)
    ensures
        s@ == how_to_answer_spec(id@, kind),
{
    let mut s = "amx answer ".to_string();
    s.append(id);
    match kind {
        Some(Kind::Question) => s.append(" <1-9|\"words of your own\">"),
        _ => s.append(" <y|n|1-9|enter|esc>"),
    }
    s
}

/// What to do about an agent in this state.
pub open spec fn remedy_spec(id: Seq<char>, phase: Phase) -> Seq<char> {
    match phase {
        Phase::Stopped => "run: amx resume "@ + id,
        Phase::Failed => "it ended badly; run: amx status "@ + id,
        Phase::Done => "its command has ended"@,
        _ => "run: amx status "@ + id,
    }
}

pub fn remedy(id: &str, phase: Phase) -> (s: String)
    ensures
        s@ == remedy_spec(id@, phase),
{
    match phase {
        Phase::Stopped => text::joined("run: amx resume ", id),
        Phase::Failed => text::joined("it ended badly; run: amx status ", id),
        Phase::Done => "its command has ended".to_string(),
        _ => text::joined("run: amx status ", id),
    }
}

/// `FAILURE`, and the sentence that says this agent is not going to answer
/// anybody.
pub open spec fn nothing_more_spec(id: Seq<char>, phase: Phase) -> Seq<char> {
    "amx: "@ + id + " is "@ + phase_name(phase) + ". "@ + remedy_spec(id, phase) + "\n"@
}

/// Exit `FAILURE`: this agent is not going to answer anybody.
pub fn nothing_more_is_coming(id: &str, phase: Phase) -> (o: Outcome)
    ensures
        o.code == exit::FAILURE,
        o.out@.len() == 0,
        o.err@ == nothing_more_spec(id@, phase),
{
    let mut err = text::joined("amx: ", id);
    err.append(" is ");
    err.append(phase.as_str());
    err.append(". ");
    let r = remedy(id, phase);
    err.append(r.as_str());
    err.append("\n");
    Outcome { code: exit::FAILURE, out: String::new(), err }
}

/// Text with the one newline a terminal expects at its end.
pub open spec fn line_spec(t: Seq<char>) -> Seq<char> {
    if text::ends_with_char(t, '\n') {
        t
    } else {
        t.push('\n')
    }
}

/// Text amx did not author, as it is written out: with the newline a terminal
/// expects, and never a second one.
pub fn line(t: &str) -> (s: String)
    ensures
        s@ == line_spec(t@),
{
    let mut s = t.to_string();
    if !text::ends_with_char_of(t, '\n') {
        text::push_char(&mut s, '\n');
    }
    s
}

/// The vendor's own words, as this stdout should receive them.
pub open spec fn rendered_spec(t: Seq<char>, to_terminal: bool) -> Seq<char> {
    if to_terminal {
        sanitized(t)
    } else {
        t
    }
}

/// The vendor's own words, as this stdout should receive them: verbatim down
/// a pipe, and inert on a terminal.
pub fn rendered(t: &str, to_terminal: bool) -> (s: String)
    ensures
        s@ == rendered_spec(t@, to_terminal),
{
    if to_terminal {
        text::sanitize(t)
    } else {
        t.to_string()
    }
}

/// The lines of a question and its choices, as they go to stdout.
pub open spec fn question_lines(
    question: Option<Seq<char>>,
    options: Seq<Seq<char>>,
    to_terminal: bool,
) -> Seq<char> {
    match question {
        None => Seq::empty(),
        Some(q) => line_spec(rendered_spec(q, to_terminal)) + each_line(
            numbered_spec(options),
            to_terminal,
        ),
    }
}

/// Each of these as a line of its own, in order.
pub open spec fn each_line(ls: Seq<Seq<char>>, to_terminal: bool) -> Seq<char>
    decreases ls.len(),
{
    if ls.len() == 0 {
        Seq::empty()
    } else {
        each_line(ls.drop_last(), to_terminal) + line_spec(rendered_spec(ls.last(), to_terminal))
    }
}

/// The question this reading is stopped on and the choices under it, as
/// stdout receives them.
pub fn question_out(state: &State, to_terminal: bool) -> (s: String)
    ensures
        s@ == question_lines(
            match state.question {
                Some(q) => Some(q@),
                None => None,
            },
            state.options@.map_values(|l: String| l@),
            to_terminal,
        ),
{
    match &state.question {
        None => String::new(),
        Some(q) => {
            let r = rendered(q.as_str(), to_terminal);
            let mut s = line(r.as_str());
            let ghost head = s@;
            let choices = numbered(&state.options);
            let ghost all = choices@.map_values(|l: String| l@);
            let mut i: usize = 0;
            while i < choices.len()
                invariant
                    i <= choices.len(),
                    all == choices@.map_values(|l: String| l@),
                    s@ == head + each_line(all.take(i as int), to_terminal),
                decreases choices.len() - i,
            {
                let r = rendered(choices[i].as_str(), to_terminal);
                let l = line(r.as_str());
                s.append(l.as_str());
                proof {
                    assert(all.take(i + 1).drop_last() =~= all.take(i as int));
                    assert(s@ =~= head + each_line(all.take(i + 1), to_terminal));
                }
                i += 1;
            }
            assert(all.take(choices.len() as int) =~= all);
            s
        },
    }
}

/// The sentence beside a question that blocks a verb.
pub open spec fn waiting_spec(id: Seq<char>, kind: Option<Kind>) -> Seq<char> {
    "amx: "@ + id + " is waiting on a question. answer it with `"@ + how_to_answer_spec(id, kind)
        + "`\n"@
}

/// Exit `BLOCKED`, with the pending question — and the choices under it —
/// where the answer would have gone, and the verb that answers it on stderr.
pub fn waiting_on_a_question(view: &Reading, to_terminal: bool) -> (o: Outcome)
    ensures
        o.code == exit::BLOCKED,
        o.out@ == question_lines(
            match view.state.question {
                Some(q) => Some(q@),
                None => None,
            },
            view.state.options@.map_values(|l: String| l@),
            to_terminal,
        ),
        o.err@ == waiting_spec(view.meta.id@, view.state.kind),
{
    let out = question_out(&view.state, to_terminal);
    let id = view.id();
    let mut err = text::joined("amx: ", id);
    err.append(" is waiting on a question. answer it with `");
    let how = how_to_answer(id, view.kind());
    err.append(how.as_str());
    err.append("`\n");
    Outcome { code: exit::BLOCKED, out, err }
}

/// The sentence that refuses a message carrying the end of its own paste.
pub open spec fn paste_refusal(id: Seq<char>) -> Seq<char> {
    "that message carries the end of a bracketed paste; what follows it would be typed at `"@
        + id + "` rather than pasted into it"@
}

/// The record once a message has been put on it: one more message sent.
/// A message that ends its own paste is refused before anything is recorded.
pub fn deliver(state: &State, id: &str, message: &str) -> (r: Result<u64, String>)
    ensures
        ends_paste(message@) ==> (r matches Err(e) && e@ == paste_refusal(id@)),
        !ends_paste(message@) ==> r == Ok::<u64, String>(
            if state.seq < u64::MAX {
                (state.seq + 1) as u64
            } else {
                state.seq
            },
        ),
{
    if ends_its_own_paste(message) {
        let mut e =
            "that message carries the end of a bracketed paste; what follows it would be typed at `".to_string();
        e.append(id);
        e.append("` rather than pasted into it");
        return Err(e);
    }
    Ok(state.seq.saturating_add(1))
}

/// How long a message is given to be taken before `send` says it may not
/// have arrived, in seconds.
pub const CONFIRM_SECS: u64 = 5;

/// What `send` answers before anything is typed: an agent on a question has
/// it shown instead, one that has ended is not going to take a message, and
/// any other is sent to (`None`).
pub fn before(view: &Reading, to_terminal: bool) -> (r: Option<Outcome>)
    ensures
        view.verdict.phase == Phase::Waiting ==> (r matches Some(o) && o.code == exit::BLOCKED
            && o.err@ == waiting_spec(view.meta.id@, view.state.kind) && o.out@ == question_lines(
            match view.state.question {
                Some(q) => Some(q@),
                None => None,
            },
            view.state.options@.map_values(|l: String| l@),
            to_terminal,
        )),
        view.verdict.phase != Phase::Waiting && terminal(view.verdict.phase) ==> (r matches Some(o)
            && o.code == exit::FAILURE && o.out@.len() == 0 && o.err@ == nothing_more_spec(
            view.meta.id@,
            view.verdict.phase,
        )),
        view.verdict.phase != Phase::Waiting && !terminal(view.verdict.phase) ==> r is None,
{
    let phase = view.phase();
    if phase == Phase::Waiting {
        return Some(waiting_on_a_question(view, to_terminal));
    }
    if phase.is_terminal() {
        return Some(nothing_more_is_coming(view.id(), phase));
    }
    None
}

/// The sentence for a message that waits behind the turn the agent is on.
pub open spec fn queued_spec(id: Seq<char>) -> Seq<char> {
    "amx: "@ + id + " is working; the message is queued behind the turn it is on\n"@
}

/// The sentence for a message nothing took in time.
pub open spec fn unconfirmed_spec(id: Seq<char>) -> Seq<char> {
    "amx: "@ + id + " did not start working within "@ + decimal(CONFIRM_SECS as nat)
        + "s; the message may not have reached it\n"@
}

/// How `send` ends once the message is typed: a mid-turn agent takes it when
/// its turn ends, which is no failure; otherwise only a new submission within
/// the patience (`took`) confirms it.
pub fn after(id: &str, phase: Phase, took: bool) -> (o: Outcome)
    ensures
        phase == Phase::Working ==> o.code == exit::OK && o.out@.len() == 0 && o.err@
            == queued_spec(id@),
        phase != Phase::Working && took ==> o.code == exit::OK && o.out@.len() == 0 && o.err@.len()
            == 0,
        phase != Phase::Working && !took ==> o.code == exit::FAILURE && o.out@.len() == 0 && o.err@
            == unconfirmed_spec(id@),
{
    if phase == Phase::Working {
        let mut err = text::joined("amx: ", id);
        err.append(" is working; the message is queued behind the turn it is on\n");
        return Outcome { code: exit::OK, out: String::new(), err };
    }
    if took {
        return Outcome { code: exit::OK, out: String::new(), err: String::new() };
    }
    let mut err = text::joined("amx: ", id);
    err.append(" did not start working within ");
    let n = text::number(CONFIRM_SECS);
    err.append(n.as_str());
    err.append("s; the message may not have reached it\n");
    Outcome { code: exit::FAILURE, out: String::new(), err }
}

} // verus!
