//! What an agent's record holds, as plain values: the phase it is in, the
//! question it is stopped on, and the events its log carries.
use vstd::prelude::*;
use crate::text;

verus! {

/// Where an agent is.
#[derive(Debug, Clone, Copy, PartialEq, Eq, Structural)]
pub enum Phase {
    Starting,
    Working,
    Waiting,
    Idle,
    Done,
    Failed,
    Stopped,
    Unknown,
}

/// The word each phase is printed as.
pub open spec fn phase_name(p: Phase) -> Seq<char> {
    match p {
        Phase::Starting => "starting"@,
        Phase::Working => "working"@,
        Phase::Waiting => "waiting"@,
        Phase::Idle => "idle"@,
        Phase::Done => "done"@,
        Phase::Failed => "failed"@,
        Phase::Stopped => "stopped"@,
        Phase::Unknown => "unknown"@,
    }
}

/// An ending: nothing more is coming from an agent in one of these.
pub open spec fn terminal(p: Phase) -> bool {
    p == Phase::Done || p == Phase::Failed || p == Phase::Stopped
}

impl Phase {
    pub fn as_str(&self) -> (s: &'static str)
        ensures
            s@ == phase_name(*self),
    {
        match self {
            Phase::Starting => "starting",
            Phase::Working => "working",
            Phase::Waiting => "waiting",
            Phase::Idle => "idle",
            Phase::Done => "done",
            Phase::Failed => "failed",
            Phase::Stopped => "stopped",
            Phase::Unknown => "unknown",
        }
    }

    pub fn is_terminal(&self) -> (b: bool)
        ensures
            b == terminal(*self),
    {
        matches!(self, Phase::Done | Phase::Failed | Phase::Stopped)
    }
}

/// What kind of question an agent is stopped on.
#[derive(Debug, Clone, Copy, PartialEq, Eq, Structural)]
pub enum Kind {
    /// A permission box: one key answers it.
    Permission,
    /// A question the vendor asked itself, with choices and a field for words.
    Question,
    /// The folder-trust screen.
    Trust,
}

/// One choice under a question.
#[derive(Debug, Clone, PartialEq, Eq)]
pub struct Choice {
    pub label: String,
    pub description: Option<String>,
    pub preview: Option<String>,
}

/// One question of a call the vendor made, and its answer once it has one.
#[derive(Debug, Clone, PartialEq, Eq)]
pub struct Ask {
    pub header: Option<String>,
    pub text: String,
    pub options: Vec<Choice>,
    pub multi: bool,
    pub answer: Option<String>,
}

/// Whether some choice of this question carries a preview, which is the
/// shape the vendor draws a notes field for.
pub open spec fn notes_taken(ask: Ask) -> bool {
    exists|i: int| 0 <= i < ask.options@.len() && (#[trigger] ask.options@[i]).preview is Some
}

/// The labels of a question's choices, in order.
pub open spec fn labels(ask: Ask) -> Seq<Seq<char>> {
    ask.options@.map_values(|c: Choice| c.label@)
}

impl Ask {
    pub fn takes_notes(&self) -> (b: bool)
        ensures
            b == notes_taken(*self),
    {
        let mut i: usize = 0;
        while i < self.options.len()
            invariant
                i <= self.options.len(),
                forall|j: int| 0 <= j < i ==> (#[trigger] self.options@[j]).preview is None,
            decreases self.options.len() - i,
        {
            if self.options[i].preview.is_some() {
                return true;
            }
            i += 1;
        }
        false
    }

    /// The labels of its choices, as the screen prints them.
    pub fn labels(&self) -> (r: Vec<String>)
        ensures
            r@.map_values(|l: String| l@) == labels(*self),
    {
        let mut r: Vec<String> = Vec::new();
        let mut i: usize = 0;
        while i < self.options.len()
            invariant
                i <= self.options.len(),
                r@.map_values(|l: String| l@) == labels(*self).take(i as int),
            decreases self.options.len() - i,
        {
            let label = self.options[i].label.clone();
            r.push(label);
            assert(labels(*self).take(i + 1) =~= labels(*self).take(i as int).push(
                self.options@[i as int].label@,
            ));
            assert(r@.map_values(|l: String| l@) =~= labels(*self).take(i + 1));
            i += 1;
        }
        assert(labels(*self).take(self.options.len() as int) =~= labels(*self));
        r
    }
}

/// The first question at or after `i` that has no answer yet.
pub open spec fn open_from(asks: Seq<Ask>, i: int) -> Option<int>
    decreases asks.len() - i,
{
    if i < 0 || i >= asks.len() {
        None
    } else if asks[i].answer is None {
        Some(i)
    } else {
        open_from(asks, i + 1)
    }
}

pub proof fn lemma_open_from(asks: Seq<Ask>, i: int)
    requires
        0 <= i,
    ensures
        open_from(asks, i) matches Some(k) ==> i <= k < asks.len() && asks[k].answer is None
            && forall|j: int| i <= j < k ==> (#[trigger] asks[j]).answer is Some,
        open_from(asks, i) is None ==> forall|j: int|
            i <= j < asks.len() ==> (#[trigger] asks[j]).answer is Some,
    decreases asks.len() - i,
{
    if i < asks.len() && asks[i].answer is Some {
        lemma_open_from(asks, i + 1);
    }
}

/// What an agent's record says it is doing and asking.
#[derive(Debug, Clone, PartialEq, Eq)]
pub struct State {
    pub state: Phase,
    /// The question it is stopped on, as the screen or a hook put it.
    pub question: Option<String>,
    /// The choices under that question.
    pub options: Vec<String>,
    pub kind: Option<Kind>,
    /// The questions of the vendor's own call, where a hook carried them.
    pub asking: Vec<Ask>,
    /// What it is doing, in a phrase.
    pub summary: Option<String>,
    /// The answer the last turn left.
    pub result: Option<String>,
    pub exit: Option<i64>,
    /// How many messages amx has sent it.
    pub seq: u64,
    /// When it came into the phase it is in, in seconds since the epoch.
    pub since: u64,
    /// When anything was last heard from it.
    pub last_event: u64,
    /// When it ended, for an agent that has.
    pub ended: u64,
    /// When amx last let its pane go while it sat idle, or 0.
    pub parked_at: u64,
    /// When amx last pressed the key that interrupts a turn, or 0.
    pub interrupted_at: u64,
}

/// The index of the question showing: the first one still unanswered.
pub open spec fn pending_index(s: State) -> Option<int> {
    open_from(s.asking@, 0)
}

/// The question showing, as the record has it.
pub open spec fn pending_of(s: State) -> Option<Ask> {
    match pending_index(s) {
        Some(i) => Some(s.asking@[i]),
        None => None,
    }
}

/// Whether the question showing takes more than one choice.
pub open spec fn multi_of(s: State) -> bool {
    pending_of(s) matches Some(ask) && ask.multi
}

/// The state as it stands before anything has been heard.
pub open spec fn fresh(s: State) -> bool {
    &&& s.state == Phase::Starting
    &&& s.question is None
    &&& s.options@.len() == 0
    &&& s.kind is None
    &&& s.asking@.len() == 0
    &&& s.summary is None
    &&& s.result is None
    &&& s.exit is None
    &&& s.seq == 0
    &&& s.since == 0
    &&& s.last_event == 0
    &&& s.ended == 0
    &&& s.parked_at == 0
    &&& s.interrupted_at == 0
}

/// The question and its choices, once they are made to say what the call's
/// own pending question says: the text of it, and the labels of its choices.
/// With nothing left pending there is no question on the record.
pub open spec fn shows_pending(s: State) -> bool {
    match pending_of(s) {
        Some(ask) => {
            &&& s.question matches Some(q) && q@ == ask.text@
            &&& s.options@.map_values(|l: String| l@) == labels(ask)
        },
        None => s.question is None && s.options@.len() == 0,
    }
}

impl Default for State {
    fn default() -> (s: State)
        ensures
            fresh(s),
    {
        State {
            state: Phase::Starting,
            question: None,
            options: Vec::new(),
            kind: None,
            asking: Vec::new(),
            summary: None,
            result: None,
            exit: None,
            seq: 0,
            since: 0,
            last_event: 0,
            ended: 0,
            parked_at: 0,
            interrupted_at: 0,
        }
    }
}

impl State {
    /// Where the question showing is in the call.
    pub fn pending_at(&self) -> (r: Option<usize>)
        ensures
            r matches Some(i) ==> pending_index(*self) == Some(i as int) && i < self.asking@.len(),
            r is None ==> pending_index(*self) is None,
    {
        let mut i: usize = 0;
        while i < self.asking.len()
            invariant
                i <= self.asking.len(),
                open_from(self.asking@, 0) == open_from(self.asking@, i as int),
            decreases self.asking.len() - i,
        {
            if self.asking[i].answer.is_none() {
                return Some(i);
            }
            i += 1;
        }
        None
    }

    /// The question showing, as the record has it.
    pub fn pending(&self) -> (r: Option<&Ask>)
        ensures
            r matches Some(a) ==> pending_of(*self) == Some(*a),
            r is None ==> pending_of(*self) is None,
    {
        match self.pending_at() {
            Some(i) => Some(&self.asking[i]),
            None => None,
        }
    }

    /// Whether the question showing takes more than one choice.
    pub fn multi(&self) -> (b: bool)
        ensures
            b == multi_of(*self),
    {
        match self.pending() {
            Some(ask) => ask.multi,
            None => false,
        }
    }

    /// Put the pending question of the call on the record's own fields.
    fn show_pending(&mut self)
        ensures
            final(self).asking == old(self).asking,
            final(self).state == old(self).state,
            final(self).kind == old(self).kind,
            final(self).summary == old(self).summary,
            final(self).result == old(self).result,
            final(self).exit == old(self).exit,
            final(self).seq == old(self).seq,
            shows_pending(*final(self)),
    {
        match self.pending_at() {
            Some(i) => {
                let text = self.asking[i].text.clone();
                let options = self.asking[i].labels();
                self.question = Some(text);
                self.options = options;
            },
            None => {
                self.question = None;
                self.options = Vec::new();
            },
        }
    }

    /// Record a call of questions, with the first unanswered one showing.
    pub fn asks_all(&mut self, questions: Vec<Ask>)
        ensures
            final(self).asking@ == questions@,
            final(self).state == old(self).state,
            final(self).kind == old(self).kind,
            final(self).seq == old(self).seq,
            shows_pending(*final(self)),
    {
        self.asking = questions;
        self.show_pending();
    }

    /// Write this answer on the question showing, and put up the one after it.
    pub fn answered(&mut self, said: String)
        ensures
            match pending_index(*old(self)) {
                Some(i) => final(self).asking@ == old(self).asking@.update(
                    i,
                    Ask { answer: Some(said), ..old(self).asking@[i] },
                ),
                None => final(self).asking@ == old(self).asking@,
            },
            final(self).state == old(self).state,
            final(self).kind == old(self).kind,
            final(self).seq == old(self).seq,
            final(self).summary == old(self).summary,
            final(self).result == old(self).result,
            final(self).exit == old(self).exit,
            shows_pending(*final(self)),
    {
        match self.pending_at() {
            Some(i) => {
                self.asking[i].answer = Some(said);
            },
            None => {},
        }
        self.show_pending();
    }

    /// Stop claiming to know what question is on the screen.
    pub fn forget_question(&mut self)
        ensures
            final(self).question is None,
            final(self).options@.len() == 0,
            final(self).kind is None,
            final(self).asking@.len() == 0,
            final(self).state == old(self).state,
            final(self).seq == old(self).seq,
            final(self).summary == old(self).summary,
            final(self).result == old(self).result,
    {
        self.question = None;
        self.options = Vec::new();
        self.kind = None;
        self.asking = Vec::new();
    }
}

/// One field of an event's payload, as far as a verb reads it.
#[derive(Debug, Clone, PartialEq, Eq)]
pub enum Value {
    Text(String),
    Int(i64),
    /// Anything else: a number with a point, a list, an object, `null`.
    Other,
}

/// One line of an agent's event log, as far as the verbs read it.
#[derive(Debug, Clone, PartialEq, Eq)]
pub struct Event {
    /// When it was written, in seconds since the epoch.
    pub at: u64,
    /// What happened, under the name the log carries it by.
    pub kind: String,
    /// The subagent whose doing it was, for an event that was not the agent's.
    pub agent_id: Option<String>,
    /// The payload's top-level fields, in the order they were written.
    pub payload: Vec<(String, Value)>,
}

/// What amx wrote down when it started an agent.
#[derive(Debug, Clone, PartialEq, Eq)]
pub struct Meta {
    pub id: String,
    pub task: String,
    /// The vendor the agent runs, where amx knows it.
    pub agent: Option<String>,
    pub dir: String,
    pub worktree: Option<String>,
    pub branch: Option<String>,
    /// The commit the tree was cut from, recorded when it was cut.
    pub base: Option<String>,
    pub pane: String,
    /// The vendor's own session, once a hook announced one.
    pub session: Option<String>,
    /// The agent whose pane this one was started from.
    pub parent: Option<String>,
}

} // verus!
