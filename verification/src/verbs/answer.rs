//! `amx answer` — give the agent's question what it is waiting for.
//!
//! The verb is a grammar and a refusal, and the grammar is the question's
//! rather than amx's. A permission box and the folder-trust screen read one
//! key; a question the vendor asked itself offers choices and a field for
//! words of your own, so words are an answer to it and to nothing else.
//! Nothing is typed until the line is something the question can take.
use vstd::prelude::*;
use crate::derive::Reading;
use crate::exit::{self, Outcome};
use crate::store::{
    Ask, Kind, Phase, State, labels, multi_of, notes_taken, open_from, pending_index, pending_of,
    shows_pending, terminal,
};
use crate::text::{self, blank, decimal, joined_with, lower, trim, words};
use crate::verbs::send;

verus! {

/// The key that moves a menu's cursor onto the vendor's own free-text row.
pub const TO_THE_FIELD: &'static str = "Up";

/// The key that leaves the choices of a question that takes more than one.
pub const OFF_THE_CHOICES: &'static str = "Right";

/// The key that leaves the free-text row for the `Submit` row under it.
pub const OFF_THE_FIELD: &'static str = "Down";

/// The key that takes what is highlighted.
pub const TAKE_IT: &'static str = "Enter";

/// The key that puts the cursor in the notes field.
pub const TO_THE_NOTES: &'static str = "n";

/// The key that comes back out of the notes field with the note kept.
pub const OFF_THE_NOTES: &'static str = "Escape";

/// What was typed at `amx answer`.
#[derive(Debug, Clone, Default, PartialEq, Eq)]
pub struct AnswerArgs {
    /// The answer, in the grammar the question takes.
    pub key: Option<String>,
    /// Words for the row a question offers for words.
    pub text: Option<String>,
    /// A note to ride beside the choice, where the question draws a field for one.
    pub note: Option<String>,
}

/// What was typed at amx, once it is something this question can take.
#[derive(Debug, Clone, PartialEq, Eq)]
pub enum Answer {
    /// One key of the grammar, under the name tmux knows it by.
    Key(String),
    /// The boxes to check on a question that takes more than one choice, in
    /// the order they were named and counting from one.
    Toggle(Vec<usize>),
    /// Words of the caller's own, for the question that offers a field.
    Words(String),
    /// The cursor moves that reach the row a caller means, and the take.
    Walk(Vec<String>),
}

/// An answer, as characters and numbers.
pub enum AnswerView {
    Key(Seq<char>),
    Toggle(Seq<usize>),
    Words(Seq<char>),
    Walk(Seq<Seq<char>>),
}

impl View for Answer {
    type V = AnswerView;

    open spec fn view(&self) -> AnswerView {
        match self {
            Answer::Key(k) => AnswerView::Key(k@),
            Answer::Toggle(c) => AnswerView::Toggle(c@),
            Answer::Words(w) => AnswerView::Words(w@),
            Answer::Walk(ks) => AnswerView::Walk(ks@.map_values(|k: String| k@)),
        }
    }
}

/// What the screen does with an answer to the question showing.
#[derive(Debug, Clone, Copy, Default, PartialEq, Eq)]
pub struct Shape {
    /// The question showing takes more than one choice.
    pub multi: bool,
    /// This answer leaves nothing of the call unanswered, and the call is one
    /// the vendor draws its own Submit tab for.
    pub confirms: bool,
}

/// One step of the sequence that answers a question.
#[derive(Debug, Clone, PartialEq, Eq)]
pub enum Step {
    /// A key, under the name tmux knows it by.
    Key(String),
    /// Text, into whatever field has the cursor.
    Type(String),
}

pub enum StepView {
    Key(Seq<char>),
    Type(Seq<char>),
}

impl View for Step {
    type V = StepView;

    open spec fn view(&self) -> StepView {
        match self {
            Step::Key(k) => StepView::Key(k@),
            Step::Type(t) => StepView::Type(t@),
        }
    }
}

/// One call at the pane.
#[derive(Debug, Clone, PartialEq, Eq)]
pub enum Call {
    /// One `send-keys` call, carrying these keys in this order.
    Keys(Vec<String>),
    /// Text, pasted into whatever field has the cursor.
    Paste(String),
    /// The vendor's moment to redraw before the next key.
    Settle,
}

pub enum CallView {
    Keys(Seq<Seq<char>>),
    Paste(Seq<char>),
    Settle,
}

impl View for Call {
    type V = CallView;

    open spec fn view(&self) -> CallView {
        match self {
            Call::Keys(ks) => CallView::Keys(ks@.map_values(|k: String| k@)),
            Call::Paste(t) => CallView::Paste(t@),
            Call::Settle => CallView::Settle,
        }
    }
}

/// What answering came to.
#[derive(Debug, Clone, PartialEq, Eq)]
pub enum Answered {
    /// It reached the pane, and the record says what was answered.
    Yes,
    /// Nothing was typed at the agent, and this says why.
    No(String),
}

// ---------------------------------------------------------------------------
// The grammar.

/// Whether this is one of the nine digits that choose.
pub open spec fn digit_key(k: Seq<char>) -> bool {
    k.len() == 1 && '1' <= k[0] && k[0] <= '9'
}

/// One key of the grammar, under the name tmux knows it by: `y`, `n`, a digit
/// from one to nine, and `enter`, `esc`, `up` and `down`, whatever their case
/// and whatever space surrounds them.
pub open spec fn key_name(typed: Seq<char>) -> Option<Seq<char>> {
    let k = lower(trim(typed));
    if k == "y"@ || k == "n"@ {
        Some(k)
    } else if k == "enter"@ {
        Some(TAKE_IT@)
    } else if k == "esc"@ {
        Some(OFF_THE_NOTES@)
    } else if k == "up"@ {
        Some(TO_THE_FIELD@)
    } else if k == "down"@ {
        Some(OFF_THE_FIELD@)
    } else if digit_key(k) {
        Some(k)
    } else {
        None
    }
}

/// A key is named the same whatever spaces surround it and whatever its
/// ASCII case: ` Enter `, `ENTER` and `enter` are one key.
pub proof fn a_key_is_named_whatever_its_case_and_spaces(typed: Seq<char>)
    ensures
        key_name(trim(typed)) == key_name(typed),
        key_name(lower(typed)) == key_name(typed),
        key_name(text::upper(typed)) == key_name(typed),
{
    text::lemma_trim_trim(typed);
    text::lemma_trim_lower(typed);
    text::lemma_trim_lower(trim(typed));
    text::lemma_trim_lower(text::upper(typed));
    text::lemma_trim_lower(lower(typed));
    assert(lower(trim(text::upper(typed))) == trim(lower(text::upper(typed))));
    assert(lower(text::upper(typed)) == lower(typed));
}

/// One key of the grammar, under the name tmux knows it by.
pub fn named(key: &str) -> (r: Option<String>)
    ensures
        r matches Some(k) ==> key_name(key@) == Some(k@),
        r is None ==> key_name(key@) is None,
{
    let t = text::trimmed(key);
    let k = text::lowered(t.as_str());
    let ks = k.as_str();
    if text::same_text(ks, "y") || text::same_text(ks, "n") {
        Some(k.clone())
    } else if text::same_text(ks, "enter") {
        Some(TAKE_IT.to_string())
    } else if text::same_text(ks, "esc") {
        Some(OFF_THE_NOTES.to_string())
    } else if text::same_text(ks, "up") {
        Some(TO_THE_FIELD.to_string())
    } else if text::same_text(ks, "down") {
        Some(OFF_THE_FIELD.to_string())
    } else if is_digit_key(ks) {
        Some(k.clone())
    } else {
        None
    }
}

fn is_digit_key(k: &str) -> (b: bool)
    ensures
        b == digit_key(k@),
{
    let v = text::chars_of(k);
    v.len() == 1 && '1' <= v[0] && v[0] <= '9'
}

/// The choice a key makes, counting from one, for the keys that make one.
pub open spec fn choice_of(k: Seq<char>) -> Option<nat> {
    if digit_key(k) {
        Some((k[0] as nat - 48) as nat)
    } else {
        None
    }
}

pub fn one_choice(key: &str) -> (r: Option<usize>)
    ensures
        r matches Some(at) ==> choice_of(key@) == Some(at as nat) && 1 <= at <= 9,
        r is None ==> choice_of(key@) is None,
{
    let v = text::chars_of(key);
    if v.len() == 1 && '1' <= v[0] && v[0] <= '9' {
        let d = v[0] as u32;
        Some((d - 48) as usize)
    } else {
        None
    }
}

/// Whether this key moves a cursor rather than answering anything.
pub open spec fn walks(k: Seq<char>) -> bool {
    k == TO_THE_FIELD@ || k == OFF_THE_FIELD@
}

fn is_walk_key(k: &str) -> (b: bool)
    ensures
        b == walks(k@),
{
    text::same_text(k, TO_THE_FIELD) || text::same_text(k, OFF_THE_FIELD)
}

/// How many choices the question showing offers, as the record has them.
pub open spec fn offered_by(pending: Option<Ask>) -> nat {
    match pending {
        Some(ask) => ask.options@.len(),
        None => 0,
    }
}

/// Whether the vendor draws this question with a preview beside its choices.
pub open spec fn previewed(pending: Option<Ask>) -> bool {
    pending matches Some(ask) && notes_taken(ask)
}

fn is_previewed(pending: Option<&Ask>) -> (b: bool)
    ensures
        b == previewed(
            match pending {
                Some(a) => Some(*a),
                None => None,
            },
        ),
{
    match pending {
        Some(ask) => ask.takes_notes(),
        None => false,
    }
}

/// Whether the screen showing is a list the vendor puts no numbers on.
pub open spec fn unnumbered(kind: Option<Kind>, state: State) -> bool {
    kind == Some(Kind::Trust) && state.options@.len() == 0
}

fn is_unnumbered(kind: Option<Kind>, state: &State) -> (b: bool)
    ensures
        b == unnumbered(kind, *state),
{
    kind == Some(Kind::Trust) && state.options.len() == 0
}

/// The refusal of a digit past the question's own choices.
pub open spec fn past_the_choices(at: nat, ask: Ask) -> Option<Seq<char>> {
    let offered = ask.options@.len();
    if at <= offered {
        None
    } else if at == offered + 1 && !notes_taken(ask) {
        Some(
            "`"@ + decimal(at)
                + "` is the row the vendor draws for words of your own, and pressing it answers nothing: give words with --text"@,
        )
    } else {
        Some(
            "this question offers "@ + decimal(offered) + " choices, and `"@ + decimal(at)
                + "` is not one of them"@,
        )
    }
}

/// Whether the row this digit lands on is one of the question's own choices.
pub fn a_choice_of(at: usize, pending: &Ask) -> (r: Result<(), String>)
    requires
        at <= 9,
    ensures
        r matches Err(e) ==> past_the_choices(at as nat, *pending) == Some(e@),
        r is Ok ==> past_the_choices(at as nat, *pending) is None,
{
    let offered = pending.options.len();
    if at <= offered {
        return Ok(());
    }
    if at == offered + 1 && !pending.takes_notes() {
        let mut e = text::joined("`", text::number(at as u64).as_str());
        e.append(
            "` is the row the vendor draws for words of your own, and pressing it answers nothing: give words with --text",
        );
        return Err(e);
    }
    let mut e = text::joined("this question offers ", text::number(offered as u64).as_str());
    e.append(" choices, and `");
    e.append(text::number(at as u64).as_str());
    e.append("` is not one of them");
    Err(e)
}

/// The digits a question takes, as the grammar offers them.
pub open spec fn digit_run(offered: nat) -> Seq<char> {
    if offered == 0 {
        "1-9"@
    } else if offered == 1 {
        "1"@
    } else {
        "1-"@ + decimal(offered)
    }
}

/// The keys a question takes besides the digits.
pub open spec fn and_words(pending: Option<Ask>) -> Seq<char> {
    if previewed(pending) {
        "enter or esc"@
    } else {
        "enter, esc, or words of your own"@
    }
}

/// What this question would have taken, for the caller who typed something
/// else.
pub open spec fn grammar_spec(kind: Option<Kind>, state: State) -> Seq<char> {
    let pending = pending_of(state);
    let offered = offered_by(pending);
    if kind == Some(Kind::Question) && multi_of(state) && offered > 1 {
        "use "@ + digit_run(offered) + ", 1,"@ + decimal(offered) + " for several, "@ + and_words(
            pending,
        )
    } else if kind == Some(Kind::Question) {
        "use "@ + digit_run(offered) + ", "@ + and_words(pending)
    } else if unnumbered(kind, state) {
        "use down enter, up enter, or esc"@
    } else {
        "use y, n, 1-9, enter or esc"@
    }
}

fn offered_of(pending: Option<&Ask>) -> (n: usize)
    ensures
        n == offered_by(
            match pending {
                Some(a) => Some(*a),
                None => None,
            },
        ),
{
    match pending {
        Some(ask) => ask.options.len(),
        None => 0,
    }
}

/// What this question would have taken.
pub fn grammar(kind: Option<Kind>, state: &State) -> (s: String)
    ensures
        s@ == grammar_spec(kind, *state),
{
    let pending = state.pending();
    let offered = offered_of(pending);
    let run = if offered == 0 {
        "1-9".to_string()
    } else if offered == 1 {
        "1".to_string()
    } else {
        text::joined("1-", text::number(offered as u64).as_str())
    };
    let and_words = if is_previewed(pending) {
        "enter or esc"
    } else {
        "enter, esc, or words of your own"
    };
    let question = kind == Some(Kind::Question);
    if question && state.multi() && offered > 1 {
        let mut s = text::joined("use ", run.as_str());
        s.append(", 1,");
        s.append(text::number(offered as u64).as_str());
        s.append(" for several, ");
        s.append(and_words);
        s
    } else if question {
        let mut s = text::joined("use ", run.as_str());
        s.append(", ");
        s.append(and_words);
        s
    } else if is_unnumbered(kind, state) {
        "use down enter, up enter, or esc".to_string()
    } else {
        "use y, n, 1-9, enter or esc".to_string()
    }
}

// ---------------------------------------------------------------------------
// Reading the command line.

/// Whether what was typed is a list of choices rather than a sentence with a
/// comma in it: every part between the commas is a single key.
pub open spec fn a_list_spec(typed: Seq<char>) -> bool {
    let parts = text::split_on(typed, ',');
    &&& typed.contains(',')
    &&& forall|i: int| 0 <= i < parts.len() ==> (#[trigger] trim(parts[i])).len() <= 1
}

pub fn a_list(typed: &str) -> (b: bool)
    ensures
        b == a_list_spec(typed@),
{
    let v = text::chars_of(typed);
    let mut comma = false;
    let mut i: usize = 0;
    while i < v.len()
        invariant
            i <= v.len(),
            v@ == typed@,
            comma == exists|j: int| 0 <= j < i && v@[j] == ',',
        decreases v.len() - i,
    {
        if v[i] == ',' {
            comma = true;
        }
        i += 1;
    }
    if !comma {
        assert(!typed@.contains(',')) by {
            if typed@.contains(',') {
                let j = choose|j: int| 0 <= j < typed@.len() && typed@[j] == ',';
                assert(v@[j] == ',');
            }
        }
        return false;
    }
    assert(typed@.contains(',')) by {
        let j = choose|j: int| 0 <= j < i && v@[j] == ',';
        assert(typed@[j] == ',');
    }
    let parts = text::split_text(typed, ',');
    let ghost ps = parts@.map_values(|p: String| p@);
    let mut k: usize = 0;
    while k < parts.len()
        invariant
            k <= parts.len(),
            ps == parts@.map_values(|p: String| p@),
            ps == text::split_on(typed@, ','),
            forall|j: int| 0 <= j < k ==> (#[trigger] trim(ps[j])).len() <= 1,
        decreases parts.len() - k,
    {
        let t = text::trimmed(parts[k].as_str());
        assert(ps[k as int] == parts@[k as int]@);
        if t.unicode_len() > 1 {
            assert(trim(ps[k as int]).len() > 1);
            return false;
        }
        k += 1;
    }
    true
}

/// The boxes to check, read part by part from `i` on with `checked` already
/// taken: the first part that is not a box the question offers, or that was
/// named already, is the refusal.
pub open spec fn boxes_from(
    typed: Seq<char>,
    parts: Seq<Seq<char>>,
    i: int,
    checked: Seq<usize>,
    pending: Option<Ask>,
) -> Result<Seq<usize>, Seq<char>>
    decreases parts.len() - i,
{
    if i < 0 || i >= parts.len() {
        Ok(checked)
    } else {
        let part = trim(parts[i]);
        if part.len() == 0 {
            Err("`"@ + typed + "` has a choice missing between its commas"@)
        } else {
            match choice_of(part) {
                None => Err("`"@ + part + "` is not one of this question's choices"@),
                Some(at) => {
                    let refused = match pending {
                        Some(ask) => past_the_choices(at, ask),
                        None => None,
                    };
                    match refused {
                        Some(why) => Err(why),
                        None => if checked.contains(at as usize) {
                            Err("`"@ + part + "` is checked twice, which leaves it as it was"@)
                        } else {
                            boxes_from(typed, parts, i + 1, checked.push(at as usize), pending)
                        },
                    }
                },
            }
        }
    }
}


proof fn lemma_boxes_from(typed: Seq<char>, parts: Seq<Seq<char>>, i: int, checked: Seq<usize>, pending: Option<Ask>)
    requires
        0 <= i <= parts.len(),
    ensures
        boxes_from(typed, parts, i, checked, pending) matches Ok(r) ==> {
            &&& r.len() == checked.len() + parts.len() - i
            &&& r.take(checked.len() as int) == checked
            &&& forall|k: int| i <= k < parts.len() ==> choice_of(#[trigger] trim(parts[k])) == Some(
                r[checked.len() + k - i] as nat,
            )
        },
    decreases parts.len() - i,
{
    if i < parts.len() {
        let part = trim(parts[i]);
        if part.len() > 0 {
            match choice_of(part) {
                Some(at) => {
                    lemma_boxes_from(typed, parts, i + 1, checked.push(at as usize), pending);
                    match boxes_from(typed, parts, i, checked, pending) {
                        Ok(r) => {
                            assert(r.take(checked.len() + 1int) == checked.push(at as usize));
                            assert(r.take(checked.len() as int) =~= checked.push(at as usize).take(
                                checked.len() as int,
                            ));
                            assert(r[checked.len() as int] == checked.push(at as usize)[checked.len() as int]);
                            assert(1 <= at <= 9);
                        },
                        Err(_) => {},
                    }
                },
                None => {},
            }
        }
    } else {
        assert(checked.take(checked.len() as int) =~= checked);
    }
}

proof fn lemma_boxes_sound(typed: Seq<char>, parts: Seq<Seq<char>>, i: int, checked: Seq<usize>, pending: Option<Ask>)
    requires
        0 <= i <= parts.len(),
        boxes_are_sound(checked, pending),
    ensures
        boxes_from(typed, parts, i, checked, pending) matches Ok(r) ==> boxes_are_sound(r, pending),
    decreases parts.len() - i,
{
    if i < parts.len() {
        let part = trim(parts[i]);
        if part.len() > 0 {
            match choice_of(part) {
                Some(at) => {
                    let refused = match pending {
                        Some(ask) => past_the_choices(at, ask),
                        None => None,
                    };
                    if refused is None && !checked.contains(at as usize) {
                        let next = checked.push(at as usize);
                        assert(1 <= at <= 9);
                        assert forall|a: int, b: int| 0 <= a < b < next.len() implies #[trigger] next[a]
                            != #[trigger] next[b] by {
                            if b == checked.len() {
                                assert(next[a] == checked[a]);
                                assert(checked.contains(checked[a]));
                            }
                        }
                        lemma_boxes_sound(typed, parts, i + 1, next, pending);
                    }
                },
                None => {},
            }
        }
    }
}

/// Checked boxes come one per comma-separated part of what was typed, in the
/// order they were typed, each the number its part names; only a question
/// that takes several has boxes at all, and each box is one the question
/// offers, counting from one to nine, named once.
pub proof fn one_box_per_part_in_the_order_typed(typed: Seq<char>, multi: bool, pending: Option<Ask>)
    ensures
        boxes_spec(typed, multi, pending) matches Ok(AnswerView::Toggle(c)) ==> {
            &&& multi
            &&& c.len() == text::split_on(typed, ',').len()
            &&& forall|k: int| 0 <= k < c.len() ==> choice_of(#[trigger] trim(text::split_on(typed, ',')[k]))
                == Some(c[k] as nat)
            &&& boxes_are_sound(c, pending)
        },
{
    lemma_boxes_from(typed, text::split_on(typed, ','), 0, Seq::empty(), pending);
    lemma_boxes_sound(typed, text::split_on(typed, ','), 0, Seq::empty(), pending);
}

/// What a list of boxes comes to at this question.
pub open spec fn boxes_spec(typed: Seq<char>, multi: bool, pending: Option<Ask>) -> Result<
    AnswerView,
    Seq<char>,
> {
    if !multi {
        Err(
            "`"@ + typed
                + "` checks the boxes of a question that takes several, and this one takes one choice"@,
        )
    } else {
        match boxes_from(typed, text::split_on(typed, ','), 0, Seq::empty(), pending) {
            Ok(checked) => Ok(AnswerView::Toggle(checked)),
            Err(why) => Err(why),
        }
    }
}

/// Whether a result of the exec side is the one its spec names.
pub open spec fn agrees(r: Result<Answer, String>, s: Result<AnswerView, Seq<char>>) -> bool {
    match (r, s) {
        (Ok(a), Ok(v)) => a@ == v,
        (Err(e), Err(w)) => e@ == w,
        _ => false,
    }
}

/// Whether each box is one of the question's, named once, counting from one.
pub open spec fn boxes_are_sound(checked: Seq<usize>, pending: Option<Ask>) -> bool {
    &&& forall|i: int| 0 <= i < checked.len() ==> 1 <= #[trigger] checked[i] <= 9
    &&& forall|i: int, j: int|
        0 <= i < j < checked.len() ==> #[trigger] checked[i] != #[trigger] checked[j]
    &&& pending matches Some(ask) ==> forall|i: int|
        0 <= i < checked.len() ==> #[trigger] checked[i] <= ask.options@.len()
}

/// Read the boxes to check, for the question that has boxes to check.
pub fn boxes(typed: &str, multi: bool, pending: Option<&Ask>) -> (r: Result<Answer, String>)
    ensures
        agrees(
            r,
            boxes_spec(
                typed@,
                multi,
                match pending {
                    Some(a) => Some(*a),
                    None => None,
                },
            ),
        ),
        r matches Ok(Answer::Toggle(c)) ==> boxes_are_sound(
            c@,
            match pending {
                Some(a) => Some(*a),
                None => None,
            },
        ),
        r matches Ok(a) ==> a is Toggle,
{
    let ghost p = match pending {
        Some(a) => Some(*a),
        None => None,
    };
    if !multi {
        let mut e = text::joined("`", typed);
        e.append(
            "` checks the boxes of a question that takes several, and this one takes one choice",
        );
        return Err(e);
    }
    let parts = text::split_text(typed, ',');
    let ghost ps = parts@.map_values(|q: String| q@);
    let mut checked: Vec<usize> = Vec::new();
    let mut k: usize = 0;
    while k < parts.len()
        invariant
            k <= parts.len(),
            ps == parts@.map_values(|q: String| q@),
            ps == text::split_on(typed@, ','),
            boxes_from(typed@, ps, 0, Seq::empty(), p) == boxes_from(
                typed@,
                ps,
                k as int,
                checked@,
                p,
            ),
            boxes_are_sound(checked@, p),
            multi,
            p == match pending {
                Some(a) => Some(*a),
                None => None,
            },
        decreases parts.len() - k,
    {
        let part = text::trimmed(parts[k].as_str());
        assert(ps[k as int] == parts@[k as int]@);
        if part.unicode_len() == 0 {
            let mut e = text::joined("`", typed);
            e.append("` has a choice missing between its commas");
            return Err(e);
        }
        let at = match one_choice(part.as_str()) {
            Some(at) => at,
            None => {
                let mut e = text::joined("`", part.as_str());
                e.append("` is not one of this question's choices");
                return Err(e);
            },
        };
        match pending {
            Some(ask) => {
                match a_choice_of(at, ask) {
                    Ok(()) => {},
                    Err(e) => return Err(e),
                }
            },
            None => {},
        }
        let mut twice = false;
        let mut j: usize = 0;
        while j < checked.len()
            invariant
                j <= checked.len(),
                twice == exists|m: int| 0 <= m < j && checked@[m] == at,
            decreases checked.len() - j,
        {
            if checked[j] == at {
                twice = true;
            }
            j += 1;
        }
        if twice {
            assert(checked@.contains(at)) by {
                let m = choose|m: int| 0 <= m < checked.len() && checked@[m] == at;
            }
            let mut e = text::joined("`", part.as_str());
            e.append("` is checked twice, which leaves it as it was");
            return Err(e);
        }
        assert(!checked@.contains(at)) by {
            if checked@.contains(at) {
                let m = choose|m: int| 0 <= m < checked@.len() && checked@[m] == at;
                assert(checked@[m] == at);
            }
        }
        checked.push(at);
        k += 1;
    }
    Ok(Answer::Toggle(checked))
}

/// The keys of a walk, for the line that is one: one or more cursor moves
/// and at most one take, in that order, and every word a key of the grammar.
pub open spec fn walk_keys(typed: Seq<char>) -> Option<Seq<Seq<char>>> {
    let ws = words(typed);
    if ws.len() > 0 && forall|i: int| 0 <= i < ws.len() ==> (#[trigger] key_name(ws[i])) is Some {
        let keys = ws.map_values(|w: Seq<char>| key_name(w)->0);
        let moves = keys.drop_last();
        let last = keys.last();
        if (forall|i: int| 0 <= i < moves.len() ==> walks(#[trigger] moves[i])) && (walks(last) || (
        moves.len() > 0 && last == TAKE_IT@)) {
            Some(keys)
        } else {
            None
        }
    } else {
        None
    }
}

/// The keys of a walk, for the line that is one.
pub fn a_walk(typed: &str) -> (r: Option<Vec<String>>)
    ensures
        r matches Some(ks) ==> walk_keys(typed@) == Some(ks@.map_values(|k: String| k@)),
        r is None ==> walk_keys(typed@) is None,
{
    let ws = text::words_of(typed);
    let ghost wv = ws@.map_values(|w: String| w@);
    let mut keys: Vec<String> = Vec::new();
    let mut i: usize = 0;
    while i < ws.len()
        invariant
            i <= ws.len(),
            wv == ws@.map_values(|w: String| w@),
            wv == words(typed@),
            keys@.len() == i,
            forall|j: int| 0 <= j < i ==> (#[trigger] key_name(wv[j])) == Some(keys@[j]@),
        decreases ws.len() - i,
    {
        match named(ws[i].as_str()) {
            Some(k) => keys.push(k),
            None => {
                assert(key_name(wv[i as int]) is None);
                return None;
            },
        }
        i += 1;
    }
    let ghost kv = keys@.map_values(|k: String| k@);
    proof {
        if wv.len() > 0 {
            assert(wv.map_values(|w: Seq<char>| key_name(w)->0) =~= kv);
        }
    }
    if keys.len() == 0 {
        return None;
    }
    let last = keys.len() - 1;
    let mut all_moves = true;
    let mut j: usize = 0;
    while j < last
        invariant
            j <= last < keys.len(),
            kv == keys@.map_values(|k: String| k@),
            all_moves == forall|m: int| 0 <= m < j ==> walks(#[trigger] kv[m]),
        decreases last - j,
    {
        assert(kv[j as int] == keys@[j as int]@);
        if !is_walk_key(keys[j].as_str()) {
            all_moves = false;
        }
        j += 1;
    }
    let ending = is_walk_key(keys[last].as_str()) || (last > 0 && text::same_text(
        keys[last].as_str(),
        TAKE_IT,
    ));
    proof {
        let moves = kv.drop_last();
        assert(all_moves == forall|m: int| 0 <= m < moves.len() ==> walks(#[trigger] moves[m])) by {
            if all_moves {
                assert forall|m: int| 0 <= m < moves.len() implies walks(#[trigger] moves[m]) by {
                    assert(moves[m] == kv[m]);
                }
            } else {
                let m = choose|m: int| 0 <= m < j && !walks(#[trigger] kv[m]);
                assert(moves[m] == kv[m]);
            }
        }
        assert(kv.last() == keys@[last as int]@);
    }
    if all_moves && ending {
        Some(keys)
    } else {
        None
    }
}

/// The refusal of a walk with no take at the end of it.
pub open spec fn walk_refusal() -> Seq<char> {
    "a walk moves the cursor and answers nothing on its own: say what to do at the end of it, as `down enter`"@
}

/// A walk, once it says what to do at the end of itself.
pub open spec fn walk_spec(keys: Seq<Seq<char>>) -> Result<AnswerView, Seq<char>> {
    if keys.len() > 0 && keys.last() == TAKE_IT@ {
        Ok(AnswerView::Walk(keys))
    } else {
        Err(walk_refusal())
    }
}

pub fn walk(keys: Vec<String>) -> (r: Result<Answer, String>)
    ensures
        agrees(r, walk_spec(keys@.map_values(|k: String| k@))),
{
    let ends = keys.len() > 0 && text::same_text(keys[keys.len() - 1].as_str(), TAKE_IT);
    if ends {
        Ok(Answer::Walk(keys))
    } else {
        Err(
            "a walk moves the cursor and answers nothing on its own: say what to do at the end of it, as `down enter`".to_string(),
        )
    }
}

/// Words for the row a question offers for words.
pub open spec fn field_spec(t: Seq<char>, kind: Option<Kind>, state: State) -> Result<
    AnswerView,
    Seq<char>,
> {
    if kind != Some(Kind::Question) {
        Err("this prompt has no row for words of your own. "@ + grammar_spec(kind, state))
    } else if previewed(pending_of(state)) {
        Err(
            "this question draws a preview beside its choices, and that shape has no row for words of your own: answer it with a choice"@,
        )
    } else if blank(t) {
        Err(
            "words with nothing in them are not an answer: the vendor reads a blank submission as a cancel"@,
        )
    } else {
        Ok(AnswerView::Words(trim(t)))
    }
}

pub fn field(t: &str, kind: Option<Kind>, state: &State) -> (r: Result<Answer, String>)
    ensures
        agrees(r, field_spec(t@, kind, *state)),
{
    if kind != Some(Kind::Question) {
        let g = grammar(kind, state);
        return Err(text::joined("this prompt has no row for words of your own. ", g.as_str()));
    }
    if is_previewed(state.pending()) {
        return Err(
            "this question draws a preview beside its choices, and that shape has no row for words of your own: answer it with a choice".to_string(),
        );
    }
    let words = text::trimmed(t);
    proof {
        text::lemma_trim_empty_iff_blank(t@);
    }
    if words.unicode_len() == 0 {
        return Err(
            "words with nothing in them are not an answer: the vendor reads a blank submission as a cancel".to_string(),
        );
    }
    Ok(Answer::Words(words))
}

/// What was typed as the answer, or nothing.
pub open spec fn typed_of(args: AnswerArgs) -> Seq<char> {
    match args.key {
        Some(k) => k@,
        None => Seq::empty(),
    }
}

/// The refusal of the key that takes a row amx cannot see.
pub open spec fn take_refusal(typed: Seq<char>) -> Seq<char> {
    "`"@ + typed
        + "` takes the row the cursor is on, and this screen numbers none of its rows for amx to see which that is: walk to the one you mean, as `down enter`"@
}

/// Read the command line as an answer to this question.
///
/// `--text` first, because it says which of the two a thing that reads as
/// both is. Then a list of boxes, then a walk, then one key of the grammar —
/// weighed against the question it would answer — and last, words, where the
/// question has a row for them.
pub open spec fn answer_spec(args: AnswerArgs, kind: Option<Kind>, state: State) -> Result<
    AnswerView,
    Seq<char>,
> {
    let pending = pending_of(state);
    let multi = multi_of(state);
    let typed = typed_of(args);
    match args.text {
        Some(t) => field_spec(t@, kind, state),
        None => if a_list_spec(typed) {
            boxes_spec(typed, multi, pending)
        } else if walk_keys(typed) is Some {
            walk_spec(walk_keys(typed)->0)
        } else {
            match key_name(typed) {
                Some(key) => if key == TAKE_IT@ && unnumbered(kind, state) {
                    Err(take_refusal(typed))
                } else {
                    match choice_of(key) {
                        Some(at) => if multi {
                            boxes_spec(key, multi, pending)
                        } else {
                            match pending {
                                Some(ask) => match past_the_choices(at, ask) {
                                    Some(why) => Err(why),
                                    None => Ok(AnswerView::Key(key)),
                                },
                                None => Ok(AnswerView::Key(key)),
                            }
                        },
                        None => Ok(AnswerView::Key(key)),
                    }
                },
                None => if kind == Some(Kind::Question) && !blank(typed) && !previewed(pending) {
                    Ok(AnswerView::Words(trim(typed)))
                } else {
                    Err("`"@ + typed + "` is not an answer. "@ + grammar_spec(kind, state))
                },
            }
        },
    }
}

/// Read the command line as an answer to this question.
pub fn answer(args: &AnswerArgs, kind: Option<Kind>, state: &State) -> (r: Result<Answer, String>)
    ensures
        agrees(r, answer_spec(*args, kind, *state)),
        r matches Ok(Answer::Toggle(c)) ==> boxes_are_sound(c@, pending_of(*state)),
{
    let pending = state.pending();
    let multi = state.multi();
    match &args.text {
        Some(t) => {
            return field(t.as_str(), kind, state);
        },
        None => {},
    }
    let typed: &str = match &args.key {
        Some(k) => k.as_str(),
        None => "",
    };
    proof {
        reveal_strlit("");
        assert(typed@ == typed_of(*args));
    }
    if a_list(typed) {
        return boxes(typed, multi, pending);
    }
    match a_walk(typed) {
        Some(walked) => {
            return walk(walked);
        },
        None => {},
    }
    match named(typed) {
        Some(key) => {
            if text::same_text(key.as_str(), TAKE_IT) && is_unnumbered(kind, state) {
                let mut e = text::joined("`", typed);
                e.append(
                    "` takes the row the cursor is on, and this screen numbers none of its rows for amx to see which that is: walk to the one you mean, as `down enter`",
                );
                return Err(e);
            }
            match one_choice(key.as_str()) {
                Some(at) => {
                    if multi {
                        return boxes(key.as_str(), multi, pending);
                    }
                    match pending {
                        Some(ask) => {
                            match a_choice_of(at, ask) {
                                Ok(()) => {},
                                Err(e) => return Err(e),
                            }
                        },
                        None => {},
                    }
                    Ok(Answer::Key(key))
                },
                None => Ok(Answer::Key(key)),
            }
        },
        None => {
            let words = text::trimmed(typed);
            proof {
                text::lemma_trim_empty_iff_blank(typed@);
            }
            if kind == Some(Kind::Question) && words.unicode_len() > 0 && !is_previewed(pending) {
                Ok(Answer::Words(words))
            } else {
                let g = grammar(kind, state);
                let mut e = text::joined("`", typed);
                e.append("` is not an answer. ");
                e.append(g.as_str());
                Err(e)
            }
        },
    }
}

/// The refusal of a note where the question draws no field for one.
pub open spec fn no_notes_field() -> Seq<char> {
    "this question draws no notes field: the vendor draws one where a choice carries a preview, and none of these do"@
}

/// The note to send beside the answer, once the question draws a field for it.
pub open spec fn note_spec(args: AnswerArgs, pending: Option<Ask>) -> Result<
    Option<Seq<char>>,
    Seq<char>,
> {
    match args.note {
        None => Ok(None),
        Some(n) => if !previewed(pending) {
            Err(no_notes_field())
        } else if blank(n@) {
            Err("a note with nothing in it is not a note"@)
        } else {
            Ok(Some(trim(n@)))
        },
    }
}

pub fn note(args: &AnswerArgs, pending: Option<&Ask>) -> (r: Result<Option<String>, String>)
    ensures
        note_spec(
            *args,
            match pending {
                Some(a) => Some(*a),
                None => None,
            },
        ) == match r {
            Ok(Some(n)) => Ok::<Option<Seq<char>>, Seq<char>>(Some(n@)),
            Ok(None) => Ok(None),
            Err(e) => Err(e@),
        },
{
    let n = match &args.note {
        None => return Ok(None),
        Some(n) => n,
    };
    if !is_previewed(pending) {
        return Err(
            "this question draws no notes field: the vendor draws one where a choice carries a preview, and none of these do".to_string(),
        );
    }
    let t = text::trimmed(n.as_str());
    proof {
        text::lemma_trim_empty_iff_blank(n@);
    }
    if t.unicode_len() == 0 {
        return Err("a note with nothing in it is not a note".to_string());
    }
    Ok(Some(t))
}

/// The line read as an answer and its note, or the refusal: the note's
/// refusal first, then the answer's.
pub open spec fn read_spec(args: AnswerArgs, kind: Option<Kind>, state: State) -> Result<(AnswerView, Option<Seq<char>>), Seq<char>> {
    match note_spec(args, pending_of(state)) {
        Err(why) => Err(why),
        Ok(n) => match answer_spec(args, kind, state) {
            Err(why) => Err(why),
            Ok(a) => Ok((a, n)),
        },
    }
}

/// Read the command line as an answer to this question, and the note the
/// vendor lets one ride beside. The note is read first.
pub fn read(args: &AnswerArgs, kind: Option<Kind>, state: &State) -> (r: Result<
    (Answer, Option<String>),
    String,
>)
    ensures
        match r {
            Ok((a, n)) => {
                &&& note_spec(*args, pending_of(*state)) == Ok::<Option<Seq<char>>, Seq<char>>(
                    match n {
                        Some(n) => Some(n@),
                        None => None,
                    },
                )
                &&& answer_spec(*args, kind, *state) == Ok::<AnswerView, Seq<char>>(a@)
            },
            Err(e) => match note_spec(*args, pending_of(*state)) {
                Err(why) => e@ == why,
                Ok(_) => answer_spec(*args, kind, *state) == Err::<AnswerView, Seq<char>>(e@),
            },
        },
        r matches Ok((Answer::Toggle(c), _)) ==> boxes_are_sound(c@, pending_of(*state)),
{
    let n = note(args, state.pending())?;
    let a = answer(args, kind, state)?;
    Ok((a, n))
}

// ---------------------------------------------------------------------------
// What an answer does at the screen.

/// The number of questions among the first `n` that are still unanswered.
pub open spec fn open_count(asks: Seq<Ask>, n: int) -> nat
    decreases n,
{
    if n <= 0 || n > asks.len() {
        0
    } else {
        open_count(asks, n - 1) + if asks[n - 1].answer is None {
            1nat
        } else {
            0nat
        }
    }
}

/// What the screen does with an answer to the question showing.
pub open spec fn shape_of(state: State) -> Shape {
    let outstanding = open_count(state.asking@, state.asking@.len() as int);
    Shape {
        multi: multi_of(state),
        confirms: outstanding == 1 && (state.asking@.len() > 1 || multi_of(state)),
    }
}

impl Shape {
    pub fn of(state: &State) -> (s: Shape)
        ensures
            s == shape_of(*state),
    {
        let mut outstanding: usize = 0;
        let mut i: usize = 0;
        while i < state.asking.len()
            invariant
                i <= state.asking.len(),
                outstanding == open_count(state.asking@, i as int),
                outstanding <= i,
            decreases state.asking.len() - i,
        {
            if state.asking[i].answer.is_none() {
                outstanding += 1;
            }
            i += 1;
        }
        let multi = state.multi();
        Shape { multi, confirms: outstanding == 1 && (state.asking.len() > 1 || multi) }
    }
}

/// Whether this answer names the choice it is making.
pub open spec fn chose_spec(a: AnswerView) -> bool {
    match a {
        AnswerView::Key(k) => choice_of(k) is Some,
        AnswerView::Walk(_) => false,
        _ => true,
    }
}

impl Answer {
    /// Whether this answer names the choice it is making.
    pub fn chose(&self) -> (b: bool)
        ensures
            b == chose_spec(self@),
    {
        match self {
            Answer::Key(key) => one_choice(key.as_str()).is_some(),
            Answer::Walk(_) => false,
            _ => true,
        }
    }
}

/// The keys of a toggle, one per box.
pub open spec fn box_keys(checked: Seq<usize>) -> Seq<StepView> {
    checked.map_values(|at: usize| StepView::Key(decimal(at as nat)))
}

/// The keystrokes that put this answer on that question's screen, in order:
/// the note first and out of its field again, then the answer, then the
/// vendor's confirm where this answer is the last of a call that has one.
pub open spec fn steps_spec(a: AnswerView, note: Option<Seq<char>>, shape: Shape) -> Seq<StepView> {
    let before = match note {
        Some(n) => seq![
            StepView::Key(TO_THE_NOTES@),
            StepView::Type(n),
            StepView::Key(OFF_THE_NOTES@),
        ],
        None => Seq::empty(),
    };
    let body = match a {
        AnswerView::Key(k) => seq![StepView::Key(k)],
        AnswerView::Toggle(c) => box_keys(c).push(StepView::Key(OFF_THE_CHOICES@)),
        AnswerView::Walk(ks) => ks.map_values(|k: Seq<char>| StepView::Key(k)),
        AnswerView::Words(w) => seq![StepView::Key(TO_THE_FIELD@), StepView::Type(w)] + (if shape.multi {
            seq![StepView::Key(OFF_THE_FIELD@)]
        } else {
            Seq::empty()
        }) + seq![StepView::Key(TAKE_IT@)],
    };
    let after = if shape.confirms && chose_spec(a) {
        seq![StepView::Key(TAKE_IT@)]
    } else {
        Seq::empty()
    };
    before + body + after
}

/// The keystrokes that put this answer on that question's screen, in order.
pub fn steps(a: &Answer, note: Option<&str>, shape: Shape) -> (r: Vec<Step>)
    ensures
        r@.map_values(|s: Step| s@) == steps_spec(
            a@,
            match note {
                Some(n) => Some(n@),
                None => None,
            },
            shape,
        ),
{
    let ghost want = steps_spec(
        a@,
        match note {
            Some(n) => Some(n@),
            None => None,
        },
        shape,
    );
    let mut r: Vec<Step> = Vec::new();
    match note {
        Some(n) => {
            r.push(Step::Key(TO_THE_NOTES.to_string()));
            r.push(Step::Type(n.to_string()));
            r.push(Step::Key(OFF_THE_NOTES.to_string()));
        },
        None => {},
    }
    let ghost before = r@.map_values(|s: Step| s@);
    proof {
        match note {
            Some(n) => {
                assert(before =~= seq![
                    StepView::Key(TO_THE_NOTES@),
                    StepView::Type(n@),
                    StepView::Key(OFF_THE_NOTES@),
                ]);
            },
            None => {
                assert(before =~= Seq::<StepView>::empty());
            },
        }
    }
    match a {
        Answer::Key(pressed) => {
            r.push(Step::Key(pressed.clone()));
            assert(r@.map_values(|s: Step| s@) =~= before + seq![StepView::Key(pressed@)]);
        },
        Answer::Toggle(checked) => {
            let mut i: usize = 0;
            while i < checked.len()
                invariant
                    i <= checked.len(),
                    r@.map_values(|s: Step| s@) == before + box_keys(checked@).take(i as int),
                decreases checked.len() - i,
            {
                let ghost prev = r@.map_values(|s: Step| s@);
                let key = text::number(checked[i] as u64);
                let ghost kv = key@;
                r.push(Step::Key(key));
                assert(r@.map_values(|s: Step| s@) =~= prev.push(StepView::Key(kv)));
                assert(box_keys(checked@).take(i + 1) =~= box_keys(checked@).take(i as int).push(
                    StepView::Key(decimal(checked@[i as int] as nat)),
                ));
                assert(r@.map_values(|s: Step| s@) =~= before + box_keys(checked@).take(i + 1));
                i += 1;
            }
            let ghost prev = r@.map_values(|s: Step| s@);
            r.push(Step::Key(OFF_THE_CHOICES.to_string()));
            assert(r@.map_values(|s: Step| s@) =~= prev.push(StepView::Key(OFF_THE_CHOICES@)));
            assert(box_keys(checked@).take(checked.len() as int) =~= box_keys(checked@));
            assert(r@.map_values(|s: Step| s@) =~= before + box_keys(checked@).push(
                StepView::Key(OFF_THE_CHOICES@),
            ));
        },
        Answer::Walk(walked) => {
            let ghost ks = walked@.map_values(|k: String| k@);
            let mut i: usize = 0;
            while i < walked.len()
                invariant
                    i <= walked.len(),
                    ks == walked@.map_values(|k: String| k@),
                    r@.map_values(|s: Step| s@) == before + ks.map_values(
                        |k: Seq<char>| StepView::Key(k),
                    ).take(i as int),
                decreases walked.len() - i,
            {
                let ghost prev = r@.map_values(|s: Step| s@);
                let key = walked[i].clone();
                r.push(Step::Key(key));
                assert(r@.map_values(|s: Step| s@) =~= prev.push(StepView::Key(ks[i as int])));
                assert(ks.map_values(|k: Seq<char>| StepView::Key(k)).take(i + 1) =~= ks.map_values(
                    |k: Seq<char>| StepView::Key(k),
                ).take(i as int).push(StepView::Key(ks[i as int])));
                assert(r@.map_values(|s: Step| s@) =~= before + ks.map_values(
                    |k: Seq<char>| StepView::Key(k),
                ).take(i + 1));
                i += 1;
            }
            assert(ks.map_values(|k: Seq<char>| StepView::Key(k)).take(walked.len() as int)
                =~= ks.map_values(|k: Seq<char>| StepView::Key(k)));
        },
        Answer::Words(w) => {
            r.push(Step::Key(TO_THE_FIELD.to_string()));
            r.push(Step::Type(w.clone()));
            if shape.multi {
                r.push(Step::Key(OFF_THE_FIELD.to_string()));
            }
            r.push(Step::Key(TAKE_IT.to_string()));
            assert(r@.map_values(|s: Step| s@) =~= before + (seq![
                StepView::Key(TO_THE_FIELD@),
                StepView::Type(w@),
            ] + (if shape.multi {
                seq![StepView::Key(OFF_THE_FIELD@)]
            } else {
                Seq::empty()
            }) + seq![StepView::Key(TAKE_IT@)]));
        },
    }
    let ghost middle = r@.map_values(|s: Step| s@);
    if shape.confirms && a.chose() {
        r.push(Step::Key(TAKE_IT.to_string()));
        assert(r@.map_values(|s: Step| s@) =~= middle + seq![StepView::Key(TAKE_IT@)]);
    } else {
        assert(r@.map_values(|s: Step| s@) =~= middle + Seq::<StepView>::empty());
    }
    proof {
        assert(r@.map_values(|s: Step| s@) =~= want);
    }
    r
}

/// The call that types one step.
pub open spec fn call_of(s: StepView) -> CallView {
    match s {
        StepView::Key(k) => CallView::Keys(seq![k]),
        StepView::Type(t) => CallView::Paste(t),
    }
}

/// The calls that type a sequence at the pane: a call of its own for every
/// step, and the vendor's moment to redraw between each two.
pub open spec fn calls_spec(steps: Seq<StepView>) -> Seq<CallView>
    decreases steps.len(),
{
    if steps.len() == 0 {
        Seq::empty()
    } else if steps.len() == 1 {
        seq![call_of(steps[0])]
    } else {
        calls_spec(steps.drop_last()) + seq![CallView::Settle, call_of(steps.last())]
    }
}


/// Each step of an answer is a call of its own, in order, with one settle
/// between each two and none before the first or after the last.
pub proof fn one_settle_between_each_two_calls(steps: Seq<StepView>)
    ensures
        steps.len() == 0 ==> calls_spec(steps).len() == 0,
        steps.len() > 0 ==> calls_spec(steps).len() == 2 * steps.len() - 1,
        forall|k: int| 0 <= k < steps.len() ==> #[trigger] calls_spec(steps)[2 * k] == call_of(steps[k]),
        forall|k: int| 0 <= k < steps.len() - 1 ==> #[trigger] calls_spec(steps)[2 * k + 1] == CallView::Settle,
    decreases steps.len(),
{
    if steps.len() > 1 {
        let front = steps.drop_last();
        one_settle_between_each_two_calls(front);
        let c = calls_spec(steps);
        assert(c == calls_spec(front) + seq![CallView::Settle, call_of(steps.last())]);
        assert forall|k: int| 0 <= k < steps.len() implies #[trigger] calls_spec(steps)[2 * k] == call_of(steps[k]) by {
            if k < steps.len() - 1 {
                assert(calls_spec(front)[2 * k] == call_of(front[k]));
            }
        }
        assert forall|k: int| 0 <= k < steps.len() - 1 implies #[trigger] calls_spec(steps)[2 * k + 1] == CallView::Settle by {
            if k < steps.len() - 2 {
                assert(calls_spec(front)[2 * k + 1] == CallView::Settle);
            }
        }
    }
}

/// Type one sequence at the pane: a call for each key, and a settle between
/// them.
pub fn drive(steps: &Vec<Step>) -> (r: Vec<Call>)
    ensures
        r@.map_values(|c: Call| c@) == calls_spec(steps@.map_values(|s: Step| s@)),
{
    let ghost sv = steps@.map_values(|s: Step| s@);
    let mut r: Vec<Call> = Vec::new();
    let mut i: usize = 0;
    while i < steps.len()
        invariant
            i <= steps.len(),
            sv == steps@.map_values(|s: Step| s@),
            r@.map_values(|c: Call| c@) == calls_spec(sv.take(i as int)),
        decreases steps.len() - i,
    {
        let ghost before = r@.map_values(|c: Call| c@);
        if i > 0 {
            r.push(Call::Settle);
        }
        let call = match &steps[i] {
            Step::Key(key) => {
                let mut ks: Vec<String> = Vec::new();
                ks.push(key.clone());
                assert(ks@.map_values(|k: String| k@) =~= seq![key@]);
                Call::Keys(ks)
            },
            Step::Type(t) => Call::Paste(t.clone()),
        };
        r.push(call);
        proof {
            assert(sv.take(i + 1).drop_last() =~= sv.take(i as int));
            if i == 0 {
                assert(r@.map_values(|c: Call| c@) =~= seq![call_of(sv[0])]);
            } else {
                assert(r@.map_values(|c: Call| c@) =~= before + seq![
                    CallView::Settle,
                    call_of(sv[i as int]),
                ]);
            }
        }
        i += 1;
    }
    assert(sv.take(steps.len() as int) =~= sv);
    r
}

// ---------------------------------------------------------------------------
// What the record keeps of it.

/// The label of the choice at `at`, counting from one, or the number itself
/// where the record holds no such choice.
pub open spec fn label_at(at: nat, pending: Option<Ask>) -> Seq<char> {
    match pending {
        Some(ask) => if 1 <= at <= ask.options@.len() {
            ask.options@[at - 1].label@
        } else {
            decimal(at)
        },
        None => decimal(at),
    }
}

/// The answer as the vendor itself would write it down.
pub open spec fn said_spec(a: AnswerView, pending: Option<Ask>) -> Seq<char> {
    match a {
        AnswerView::Key(k) => match choice_of(k) {
            Some(at) => label_at(at, pending),
            None => k,
        },
        AnswerView::Toggle(c) => joined_with(
            c.map_values(|at: usize| label_at(at as nat, pending)),
            ", "@,
        ),
        AnswerView::Words(w) => w,
        AnswerView::Walk(ks) => joined_with(ks, " "@),
    }
}

fn label(at: usize, pending: Option<&Ask>) -> (s: String)
    ensures
        s@ == label_at(
            at as nat,
            match pending {
                Some(a) => Some(*a),
                None => None,
            },
        ),
{
    match pending {
        Some(ask) => {
            if 1 <= at && at <= ask.options.len() {
                ask.options[at - 1].label.clone()
            } else {
                text::number(at as u64)
            }
        },
        None => text::number(at as u64),
    }
}

impl Answer {
    /// The answer as the vendor itself would write it down: the label that
    /// was chosen, the labels that were checked, or the words that were typed.
    pub fn said(&self, pending: Option<&Ask>) -> (s: String)
        ensures
            s@ == said_spec(
                self@,
                match pending {
                    Some(a) => Some(*a),
                    None => None,
                },
            ),
    {
        let ghost p = match pending {
            Some(a) => Some(*a),
            None => None,
        };
        match self {
            Answer::Key(key) => match one_choice(key.as_str()) {
                Some(at) => label(at, pending),
                None => key.clone(),
            },
            Answer::Toggle(checked) => {
                let mut names: Vec<String> = Vec::new();
                let mut i: usize = 0;
                while i < checked.len()
                    invariant
                        i <= checked.len(),
                        p == match pending {
                            Some(a) => Some(*a),
                            None => None,
                        },
                        names@.map_values(|n: String| n@) == checked@.map_values(
                            |at: usize| label_at(at as nat, p),
                        ).take(i as int),
                    decreases checked.len() - i,
                {
                    let ghost before = names@.map_values(|n: String| n@);
                    let name = label(checked[i], pending);
                    let ghost nv = name@;
                    names.push(name);
                    assert(names@.map_values(|n: String| n@) =~= before.push(nv));
                    assert(names@.map_values(|n: String| n@) =~= checked@.map_values(
                        |at: usize| label_at(at as nat, p),
                    ).take(i + 1));
                    i += 1;
                }
                assert(checked@.map_values(|at: usize| label_at(at as nat, p)).take(
                    checked.len() as int,
                ) =~= checked@.map_values(|at: usize| label_at(at as nat, p)));
                text::join(&names, ", ")
            },
            Answer::Words(words) => words.clone(),
            Answer::Walk(keys) => text::join(keys, " "),
        }
    }
}

/// What the log keeps of an answer: what was typed, under the name the event
/// stream prints, what it came to, and the note beside it.
pub open spec fn record_spec(a: AnswerView, said: Seq<char>, note: Option<Seq<char>>) -> Seq<
    (Seq<char>, Seq<char>),
> {
    let fields = match a {
        AnswerView::Key(k) => seq![("key"@, k)],
        AnswerView::Toggle(c) => seq![
            ("key"@, joined_with(c.map_values(|at: usize| decimal(at as nat)), ","@)),
            ("answer"@, said),
        ],
        AnswerView::Words(w) => seq![("text"@, w)],
        AnswerView::Walk(ks) => seq![("key"@, joined_with(ks, " "@))],
    };
    match note {
        Some(n) => fields.push(("note"@, n)),
        None => fields,
    }
}

impl Answer {
    /// What the log keeps of it, field by field.
    pub fn event(&self, said: &str, note: Option<&str>) -> (r: Vec<(String, String)>)
        ensures
            r@.map_values(|f: (String, String)| (f.0@, f.1@)) == record_spec(
                self@,
                said@,
                match note {
                    Some(n) => Some(n@),
                    None => None,
                },
            ),
    {
        let mut r: Vec<(String, String)> = Vec::new();
        match self {
            Answer::Key(key) => {
                r.push(("key".to_string(), key.clone()));
            },
            Answer::Toggle(checked) => {
                let mut names: Vec<String> = Vec::new();
                let mut i: usize = 0;
                while i < checked.len()
                    invariant
                        i <= checked.len(),
                        names@.map_values(|n: String| n@) == checked@.map_values(
                            |at: usize| decimal(at as nat),
                        ).take(i as int),
                    decreases checked.len() - i,
                {
                    let ghost before = names@.map_values(|n: String| n@);
                    let name = text::number(checked[i] as u64);
                    let ghost nv = name@;
                    names.push(name);
                    assert(names@.map_values(|n: String| n@) =~= before.push(nv));
                    assert(names@.map_values(|n: String| n@) =~= checked@.map_values(
                        |at: usize| decimal(at as nat),
                    ).take(i + 1));
                    i += 1;
                }
                assert(checked@.map_values(|at: usize| decimal(at as nat)).take(
                    checked.len() as int,
                ) =~= checked@.map_values(|at: usize| decimal(at as nat)));
                r.push(("key".to_string(), text::join(&names, ",")));
                r.push(("answer".to_string(), said.to_string()));
            },
            Answer::Words(words) => {
                r.push(("text".to_string(), words.clone()));
            },
            Answer::Walk(keys) => {
                r.push(("key".to_string(), text::join(keys, " ")));
            },
        }
        let ghost fields = r@.map_values(|f: (String, String)| (f.0@, f.1@));
        match note {
            Some(n) => {
                r.push(("note".to_string(), n.to_string()));
                assert(r@.map_values(|f: (String, String)| (f.0@, f.1@)) =~= fields.push(
                    ("note"@, n@),
                ));
            },
            None => {},
        }
        assert(r@.map_values(|f: (String, String)| (f.0@, f.1@)) =~= record_spec(
            self@,
            said@,
            match note {
                Some(n) => Some(n@),
                None => None,
            },
        ));
        r
    }
}

/// Whether `after` is `before` with the question at `i` answered with `said`
/// and nothing else about the call changed.
pub open spec fn answered_at(before: Seq<Ask>, after: Seq<Ask>, i: int, said: Seq<char>) -> bool {
    &&& 0 <= i < before.len()
    &&& after.len() == before.len()
    &&& after[i].answer matches Some(s) && s@ == said
    &&& after == before.update(i, Ask { answer: after[i].answer, ..before[i] })
}

/// Whether some question of the call other than the one at `i` is still
/// unanswered.
pub open spec fn still_open(asks: Seq<Ask>, i: int) -> bool {
    exists|j: int| 0 <= j < asks.len() && j != i && (#[trigger] asks[j]).answer is None
}

/// The record of an agent that is getting on with it: working, and stopped on
/// nothing.
pub open spec fn back_at_work(s: State) -> bool {
    &&& s.state == Phase::Working
    &&& s.question is None
    &&& s.options@.len() == 0
    &&& s.asking@.len() == 0
    &&& s.kind is None
}

/// What answering does to the record, as a spec: an answer amx can name goes
/// on the question it answered while the call has another question still
/// open; anything else leaves the agent back at work.
pub open spec fn answered_spec(before: State, after: State, a: AnswerView) -> bool {
    let said = said_spec(a, pending_of(before));
    let named = chose_spec(a) && before.asking@.len() > 0;
    &&& after.seq == before.seq
    &&& after.summary == before.summary
    &&& after.result == before.result
    &&& match pending_index(before) {
        Some(i) => if named && still_open(before.asking@, i) {
            &&& answered_at(before.asking@, after.asking@, i, said)
            &&& after.state == before.state
            &&& after.kind == before.kind
            &&& shows_pending(after)
        } else {
            back_at_work(after)
        },
        None => back_at_work(after),
    }
}

proof fn lemma_open_none_iff_all_answered(asks: Seq<Ask>)
    ensures
        open_from(asks, 0) is None <==> forall|j: int|
            0 <= j < asks.len() ==> (#[trigger] asks[j]).answer is Some,
{
    crate::store::lemma_open_from(asks, 0);
}

/// The record once a question is answered: an answer amx can name goes on the
/// question it answered and the next one takes the screen; any other key
/// leaves amx claiming to know nothing of the screen; and a call with nothing
/// left outstanding leaves the agent working again with no question on it.
pub fn answered(state: &mut State, a: &Answer)
    ensures
        answered_spec(*old(state), *final(state), a@),
{
    let said = a.said(state.pending());
    let ghost before = *state;
    let ghost sv = said@;
    let named = a.chose() && state.asking.len() > 0;
    if named {
        state.answered(said);
    } else {
        state.forget_question();
    }
    let ghost middle = *state;
    proof {
        lemma_open_none_iff_all_answered(middle.asking@);
        lemma_open_none_iff_all_answered(before.asking@);
        crate::store::lemma_open_from(before.asking@, 0);
        if named {
            match pending_index(before) {
                Some(i) => {
                    assert(middle.asking@[i].answer == Some(said));
                    assert forall|j: int| 0 <= j < middle.asking@.len() && j != i implies #[trigger] middle.asking@[j] == before.asking@[j] by {}
                    if still_open(before.asking@, i) {
                        let j = choose|j: int| 0 <= j < before.asking@.len() && j != i && (#[trigger] before.asking@[j]).answer is None;
                        assert(middle.asking@[j].answer is None);
                    } else {
                        assert forall|j: int| 0 <= j < middle.asking@.len() implies (#[trigger] middle.asking@[j]).answer is Some by {
                            if j != i {
                                assert(before.asking@[j].answer is Some);
                            }
                        }
                    }
                },
                None => {},
            }
        }
    }
    if state.pending().is_none() {
        state.state = Phase::Working;
        state.forget_question();
    }
    proof {
        if named {
            match pending_index(before) {
                Some(i) => {
                    assert(middle.asking@ == before.asking@.update(
                        i,
                        Ask { answer: Some(said), ..before.asking@[i] },
                    ));
                },
                None => {},
            }
        }
    }
}

// ---------------------------------------------------------------------------
// The verb.

/// What typing an answer at the pane comes to.
#[derive(Debug, Clone, PartialEq, Eq)]
pub struct Typing {
    pub answer: Answer,
    pub note: Option<String>,
    /// The calls at the pane, in order.
    pub calls: Vec<Call>,
}

/// A text that may be absent, as plain values.
pub open spec fn opt_text(t: Option<String>) -> Option<Seq<char>> {
    match t {
        Some(n) => Some(n@),
        None => None,
    }
}

/// Answer the question this agent has stopped on: the calls to make at its
/// pane, or the sentence that refuses the line and types nothing.
pub fn given(view: &Reading, typed: &AnswerArgs) -> (r: (Answered, Option<Typing>))
    ensures
        (r.0 is Yes) <==> read_spec(*typed, view.state.kind, view.state) is Ok,
        match r.0 {
            Answered::Yes => r.1 matches Some(t) && {
                &&& read_spec(*typed, view.state.kind, view.state) == Ok::<
                    (AnswerView, Option<Seq<char>>),
                    Seq<char>,
                >((t.answer@, opt_text(t.note)))
                &&& t.calls@.map_values(|c: Call| c@) == calls_spec(
                    steps_spec(t.answer@, opt_text(t.note), shape_of(view.state)),
                )
            },
            Answered::No(why) => r.1 is None && read_spec(*typed, view.state.kind, view.state)
                == Err::<(AnswerView, Option<Seq<char>>), Seq<char>>(why@),
        },
{
    match read(typed, view.kind(), &view.state) {
        Err(refused) => (Answered::No(refused), None),
        Ok((a, n)) => {
            let shape = Shape::of(&view.state);
            let ks = match &n {
                Some(n) => steps(&a, Some(n.as_str()), shape),
                None => steps(&a, None, shape),
            };
            let calls = drive(&ks);
            (Answered::Yes, Some(Typing { answer: a, note: n, calls }))
        },
    }
}

/// The sentence for an agent with no question to answer.
pub open spec fn nothing_pending(id: Seq<char>) -> Seq<char> {
    "amx: "@ + id + " has no pending question; nothing to answer\n"@
}

/// The verb, once the reading is in: an agent that has ended is not going to
/// answer anybody, one that is not waiting has nothing to answer, and a line
/// the question cannot take is refused before anything reaches the pane.
pub fn run(view: &Reading, typed: &AnswerArgs) -> (r: (Outcome, Option<Typing>))
    ensures
        terminal(view.verdict.phase) ==> r.1 is None && r.0.code == exit::FAILURE
            && r.0.out@.len() == 0 && r.0.err@ == send::nothing_more_spec(
            view.meta.id@,
            view.verdict.phase,
        ),
        !terminal(view.verdict.phase) && view.verdict.phase != Phase::Waiting ==> r.1 is None
            && r.0.code == exit::BLOCKED && r.0.out@.len() == 0 && r.0.err@ == nothing_pending(
            view.meta.id@,
        ),
        view.verdict.phase == Phase::Waiting ==> match read_spec(*typed, view.state.kind, view.state) {
            Ok((a, n)) => {
                &&& r.0.code == exit::OK
                &&& r.0.out@.len() == 0
                &&& r.0.err@.len() == 0
                &&& r.1 matches Some(t) && t.answer@ == a && opt_text(t.note) == n
                    && t.calls@.map_values(|c: Call| c@) == calls_spec(steps_spec(a, n, shape_of(view.state)))
            },
            Err(why) => {
                &&& r.0.code == exit::USAGE
                &&& r.0.out@.len() == 0
                &&& r.0.err@ == "amx: "@ + why + "\n"@
                &&& r.1 is None
            },
        },
        r.1 is Some ==> view.verdict.phase == Phase::Waiting,
{
    let phase = view.phase();
    if phase.is_terminal() {
        return (send::nothing_more_is_coming(view.id(), phase), None);
    }
    if phase != Phase::Waiting {
        let mut err = text::joined("amx: ", view.id());
        err.append(" has no pending question; nothing to answer\n");
        return (Outcome { code: exit::BLOCKED, out: String::new(), err }, None);
    }
    match given(view, typed) {
        (Answered::Yes, typing) => (Outcome { code: exit::OK, out: String::new(), err: String::new() }, typing),
        (Answered::No(refused), _) => {
            let mut err = text::joined("amx: ", refused.as_str());
            err.append("\n");
            (Outcome { code: exit::USAGE, out: String::new(), err }, None)
        },
    }
}

proof fn lemma_open_count_none(asks: Seq<Ask>, n: int)
    requires
        0 <= n <= asks.len(),
        forall|j: int| 0 <= j < n ==> (#[trigger] asks[j]).answer is Some,
    ensures
        open_count(asks, n) == 0,
    decreases n,
{
    if n > 0 {
        lemma_open_count_none(asks, n - 1);
    }
}

proof fn lemma_open_count_one(asks: Seq<Ask>, n: int, i: int)
    requires
        0 <= i < n <= asks.len(),
        asks[i].answer is None,
        forall|j: int| 0 <= j < n && j != i ==> (#[trigger] asks[j]).answer is Some,
    ensures
        open_count(asks, n) == 1,
    decreases n,
{
    if n - 1 == i {
        lemma_open_count_none(asks, n - 1);
    } else {
        lemma_open_count_one(asks, n - 1, i);
    }
}

/// The last question of a call is submitted: where a call holds more than
/// one question and exactly one of them is still unanswered, answering it
/// confirms, and an answer that names its choice ends on the key that takes
/// the vendor's Submit tab — whether that last question takes one choice or
/// several.
pub proof fn the_last_open_question_of_a_call_is_submitted(state: State, i: int, a: AnswerView, note: Option<Seq<char>>)
    requires
        state.asking@.len() > 1,
        0 <= i < state.asking@.len(),
        state.asking@[i].answer is None,
        forall|j: int| 0 <= j < state.asking@.len() && j != i ==> (#[trigger] state.asking@[j]).answer is Some,
    ensures
        shape_of(state).confirms,
        chose_spec(a) ==> steps_spec(a, note, shape_of(state)).last() == StepView::Key(TAKE_IT@),
        forall|k: Seq<char>| k.len() == 1 && '1' <= k[0] <= '9' ==> #[trigger] steps_spec(
            AnswerView::Key(k),
            note,
            shape_of(state),
        ) =~= (match note {
            Some(n) => seq![StepView::Key(TO_THE_NOTES@), StepView::Type(n), StepView::Key(OFF_THE_NOTES@)],
            None => Seq::<StepView>::empty(),
        }) + seq![StepView::Key(k), StepView::Key(TAKE_IT@)],
{
    lemma_open_count_one(state.asking@, state.asking@.len() as int, i);
    assert forall|k: Seq<char>| k.len() == 1 && '1' <= k[0] <= '9' implies #[trigger] steps_spec(
        AnswerView::Key(k),
        note,
        shape_of(state),
    ) =~= (match note {
        Some(n) => seq![StepView::Key(TO_THE_NOTES@), StepView::Type(n), StepView::Key(OFF_THE_NOTES@)],
        None => Seq::<StepView>::empty(),
    }) + seq![StepView::Key(k), StepView::Key(TAKE_IT@)] by {
        assert(digit_key(k));
        assert(chose_spec(AnswerView::Key(k)));
    }
}

proof fn lemma_open_count_two(asks: Seq<Ask>, n: int, i1: int, i2: int)
    requires
        0 <= i1 < i2 < n <= asks.len(),
        asks[i1].answer is None,
        asks[i2].answer is None,
    ensures
        open_count(asks, n) >= 2,
    decreases n,
{
    if n - 1 == i2 {
        lemma_open_count_some(asks, n - 1, i1);
    } else {
        lemma_open_count_two(asks, n - 1, i1, i2);
    }
}

proof fn lemma_open_count_some(asks: Seq<Ask>, n: int, i: int)
    requires
        0 <= i < n <= asks.len(),
        asks[i].answer is None,
    ensures
        open_count(asks, n) >= 1,
    decreases n,
{
    if n - 1 != i {
        lemma_open_count_some(asks, n - 1, i);
    }
}

/// Only the last open question of a call is confirmed: a call with nothing
/// open, or with two or more questions still open, is not submitted by an
/// answer, and neither is a lone question that takes one choice.
pub proof fn only_the_last_open_question_confirms(state: State, i1: int, i2: int)
    ensures
        (forall|j: int| 0 <= j < state.asking@.len() ==> (#[trigger] state.asking@[j]).answer is Some)
            ==> !shape_of(state).confirms,
        0 <= i1 < i2 < state.asking@.len() && state.asking@[i1].answer is None
            && state.asking@[i2].answer is None ==> !shape_of(state).confirms,
        state.asking@.len() <= 1 && !multi_of(state) ==> !shape_of(state).confirms,
{
    if forall|j: int| 0 <= j < state.asking@.len() ==> (#[trigger] state.asking@[j]).answer is Some {
        lemma_open_count_none(state.asking@, state.asking@.len() as int);
    }
    if 0 <= i1 < i2 < state.asking@.len() && state.asking@[i1].answer is None
        && state.asking@[i2].answer is None {
        lemma_open_count_two(state.asking@, state.asking@.len() as int, i1, i2);
    }
}

} // verus!
