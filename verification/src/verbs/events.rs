//! `amx events` — every agent's log, merged into one stream: one line per
//! event, in the order they happened, each saying whose it is.
//!
//! Reading the logs is the caller's; the merge, and the line a person reads,
//! are here.
use vstd::prelude::*;
use crate::store::{Event, Value};
use crate::text::{self, decimal, first_line, pad_right, sanitized, trim, trim_end, two_digits};
use crate::verbs::send::SEND;
use crate::verbs::status::signed_decimal;

verus! {

/// The width of the kind column: the longest of the vendor's own event names.
pub const KIND: usize = 16;

/// The time of day an event was recorded, as UTC: `HH:MM:SSZ`, the day
/// dropped.
pub open spec fn clock_spec(at: nat) -> Seq<char> {
    let day = at % 86400;
    two_digits(day / 3600) + ":"@ + two_digits(day % 3600 / 60) + ":"@ + two_digits(day % 60)
        + "Z"@
}

pub fn clock(at: u64) -> (s: String)
    ensures
        s@ == clock_spec(at as nat),
{
    let day = at % 86400;
    let h = text::padded_number(day / 3600);
    let mut s = text::joined(h.as_str(), ":");
    let m = text::padded_number(day % 3600 / 60);
    s.append(m.as_str());
    s.append(":");
    let sec = text::padded_number(day % 60);
    s.append(sec.as_str());
    s.append("Z");
    s
}

/// The clock is the time of day: an event a day later reads the same.
pub proof fn the_clock_forgets_the_day(at: nat)
    ensures
        clock_spec(at + 86400) == clock_spec(at),
{
    assert((at + 86400) % 86400 == at % 86400) by (nonlinear_arith);
}

/// A string amx did not author, made safe to print on one line of a stream:
/// its first line, with nothing in it that can drive a terminal.
pub open spec fn inert(t: Seq<char>) -> Seq<char> {
    trim(sanitized(first_line(t)))
}

fn inert_text(t: &str) -> (s: String)
    ensures
        s@ == inert(t@),
{
    let l = text::first_line_of(t);
    let clean = text::sanitize(l.as_str());
    text::trimmed(clean.as_str())
}

/// The payload's field of this name, the first written.
pub open spec fn field(payload: Seq<(String, Value)>, key: Seq<char>, i: int) -> Option<Value>
    decreases payload.len() - i,
{
    if i < 0 || i >= payload.len() {
        None
    } else if payload[i].0@ == key {
        Some(payload[i].1)
    } else {
        field(payload, key, i + 1)
    }
}

fn field_of<'a>(payload: &'a Vec<(String, Value)>, key: &str) -> (r: Option<&'a Value>)
    ensures
        r matches Some(v) ==> field(payload@, key@, 0) == Some(*v),
        r is None ==> field(payload@, key@, 0) is None,
{
    let mut i: usize = 0;
    while i < payload.len()
        invariant
            i <= payload.len(),
            field(payload@, key@, 0) == field(payload@, key@, i as int),
        decreases payload.len() - i,
    {
        if text::same_text(payload[i].0.as_str(), key) {
            return Some(&payload[i].1);
        }
        i += 1;
    }
    None
}

/// A field as a line of a stream can hold it: its text made inert, and
/// nothing for anything that is not text.
pub open spec fn text_of(v: Option<Value>) -> Seq<char> {
    match v {
        Some(Value::Text(s)) => inert(s@),
        _ => Seq::empty(),
    }
}

fn text_field(payload: &Vec<(String, Value)>, key: &str) -> (s: String)
    ensures
        s@ == text_of(field(payload@, key@, 0)),
{
    match field_of(payload, key) {
        Some(Value::Text(t)) => inert_text(t.as_str()),
        _ => String::new(),
    }
}

/// The field each kind of event keeps what it is about in.
pub open spec fn about_key(kind: Seq<char>) -> Option<Seq<char>> {
    if kind == "SessionStart"@ {
        Some("source"@)
    } else if kind == "UserPromptSubmit"@ {
        Some("prompt"@)
    } else if kind == "PreToolUse"@ {
        Some("tool_name"@)
    } else if kind == "Notification"@ {
        Some("message"@)
    } else if kind == "Stop"@ {
        Some("last_assistant_message"@)
    } else if kind == SEND@ {
        Some("text"@)
    } else if kind == "answer"@ {
        Some("key"@)
    } else {
        None
    }
}

/// The one thing worth knowing about an event, in a phrase; a subagent's
/// says whose it is.
pub open spec fn detail_spec(e: Event) -> Seq<char> {
    let about = if e.kind@ == "exit"@ {
        match field(e.payload@, "code"@, 0) {
            Some(Value::Int(c)) => "code "@ + signed_decimal(c as int),
            _ => Seq::empty(),
        }
    } else {
        match about_key(e.kind@) {
            Some(k) => text_of(field(e.payload@, k, 0)),
            None => Seq::empty(),
        }
    };
    match e.agent_id {
        None => about,
        Some(_) => trim_end("subagent "@ + about),
    }
}

pub fn detail(e: &Event) -> (s: String)
    ensures
        s@ == detail_spec(*e),
{
    let k = e.kind.as_str();
    let about = if text::same_text(k, "exit") {
        match field_of(&e.payload, "code") {
            Some(Value::Int(c)) => {
                let n = crate::verbs::status::signed_number(*c);
                text::joined("code ", n.as_str())
            },
            _ => String::new(),
        }
    } else if text::same_text(k, "SessionStart") {
        text_field(&e.payload, "source")
    } else if text::same_text(k, "UserPromptSubmit") {
        text_field(&e.payload, "prompt")
    } else if text::same_text(k, "PreToolUse") {
        text_field(&e.payload, "tool_name")
    } else if text::same_text(k, "Notification") {
        text_field(&e.payload, "message")
    } else if text::same_text(k, "Stop") {
        text_field(&e.payload, "last_assistant_message")
    } else if text::same_text(k, SEND) {
        text_field(&e.payload, "text")
    } else if text::same_text(k, "answer") {
        text_field(&e.payload, "key")
    } else {
        String::new()
    };
    proof {
        reveal_strlit("exit");
        reveal_strlit("SessionStart");
        reveal_strlit("UserPromptSubmit");
        reveal_strlit("PreToolUse");
        reveal_strlit("Notification");
        reveal_strlit("Stop");
        reveal_strlit("send");
        reveal_strlit("answer");
    }
    match e.agent_id {
        None => about,
        Some(_) => {
            let said = text::joined("subagent ", about.as_str());
            text::trimmed_end(said.as_str())
        },
    }
}

/// One event as a person reads it: when, whose, what, and the one thing
/// worth knowing about it, with the id in a column `widest` wide.
pub open spec fn line_spec(id: Seq<char>, e: Event, widest: nat) -> Seq<char> {
    trim_end(
        clock_spec(e.at as nat) + "  "@ + pad_right(id, widest) + "  "@ + pad_right(
            inert(e.kind@),
            KIND as nat,
        ) + "  "@ + detail_spec(e),
    )
}

pub fn line(id: &str, e: &Event, widest: usize) -> (s: String)
    ensures
        s@ == line_spec(id@, *e, widest as nat),
{
    let mut s = clock(e.at);
    s.append("  ");
    let who = text::padded(id, widest);
    s.append(who.as_str());
    s.append("  ");
    let kind = inert_text(e.kind.as_str());
    let k = text::padded(kind.as_str(), KIND);
    s.append(k.as_str());
    s.append("  ");
    let d = detail(e);
    s.append(d.as_str());
    text::trimmed_end(s.as_str())
}

/// One entry of a merge: whose log it is from, and the event.
pub type Entry = (String, Event);

/// `sorted` with `x` put after every entry no later than it, counting back
/// from the end: where a stable sort by time puts the next one.
pub open spec fn insert_after(sorted: Seq<Entry>, x: Entry) -> Seq<Entry>
    decreases sorted.len(),
{
    if sorted.len() == 0 {
        seq![x]
    } else if sorted.last().1.at <= x.1.at {
        sorted.push(x)
    } else {
        insert_after(sorted.drop_last(), x).push(sorted.last())
    }
}

/// The first `n` entries of a batch, merged by time, ties in the order they
/// came: the agents are read in name order, so a tie leaves each log in the
/// order it was written.
pub open spec fn merged_spec(batch: Seq<Entry>, n: int) -> Seq<Entry>
    decreases n,
{
    if n <= 0 || n > batch.len() {
        Seq::empty()
    } else {
        insert_after(merged_spec(batch, n - 1), batch[n - 1])
    }
}

/// Where `insert_after` puts an entry at time `at`: after the last of the
/// first `n` that is no later.
pub open spec fn back_slot(s: Seq<Entry>, at: u64, n: int) -> int
    decreases n,
{
    if n <= 0 {
        0
    } else if s[n - 1].1.at <= at {
        n
    } else {
        back_slot(s, at, n - 1)
    }
}

proof fn lemma_insert_after_is_insert(s: Seq<Entry>, x: Entry)
    ensures
        0 <= back_slot(s, x.1.at, s.len() as int) <= s.len(),
        insert_after(s, x) == s.insert(back_slot(s, x.1.at, s.len() as int), x),
    decreases s.len(),
{
    if s.len() > 0 && s.last().1.at > x.1.at {
        let t = s.drop_last();
        lemma_insert_after_is_insert(t, x);
        assert(back_slot(s, x.1.at, s.len() as int) == back_slot(t, x.1.at, t.len() as int)) by {
            lemma_back_slot_prefix(s, x.1.at, t.len() as int);
        }
        assert(insert_after(s, x) =~= s.insert(back_slot(s, x.1.at, s.len() as int), x));
    } else if s.len() > 0 {
        assert(s.push(x) =~= s.insert(s.len() as int, x));
    } else {
        assert(seq![x] =~= s.insert(0, x));
    }
}

/// The slot read off a longer sequence is the slot of the part it reads.
proof fn lemma_back_slot_prefix(s: Seq<Entry>, at: u64, n: int)
    requires
        0 <= n < s.len(),
    ensures
        back_slot(s, at, n) == back_slot(s.take(s.len() - 1), at, n),
    decreases n,
{
    if n > 0 {
        assert(s.take(s.len() - 1)[n - 1] == s[n - 1]);
        lemma_back_slot_prefix(s, at, n - 1);
    }
}

/// Where a stable sort by time puts an entry at `at`.
fn slot(sorted: &Vec<Entry>, at: u64) -> (k: usize)
    ensures
        k == back_slot(sorted@, at, sorted@.len() as int),
{
    let mut k = sorted.len();
    while k > 0 && sorted[k - 1].1.at > at
        invariant
            k <= sorted.len(),
            back_slot(sorted@, at, sorted@.len() as int) == back_slot(sorted@, at, k as int),
        decreases k,
    {
        k -= 1;
    }
    k
}

/// Everything read from the logs, merged by time, each log left in the order
/// it was written where times tie.
pub fn merged(batch: Vec<Entry>) -> (r: Vec<Entry>)
    ensures
        r@ == merged_spec(batch@, batch@.len() as int),
{
    let ghost all = batch@;
    let n = batch.len();
    let mut rest = batch;
    let mut out: Vec<Entry> = Vec::new();
    let mut i: usize = 0;
    while i < n
        invariant
            i <= n == all.len(),
            rest@ == all.skip(i as int),
            out@ == merged_spec(all, i as int),
        decreases n - i,
    {
        let e = rest.remove(0);
        assert(e == all[i as int]);
        assert(rest@ =~= all.skip(i + 1));
        let k = slot(&out, e.1.at);
        proof {
            lemma_insert_after_is_insert(out@, e);
        }
        out.insert(k, e);
        i += 1;
    }
    out
}

/// Entries sorted by time.
pub open spec fn by_time(s: Seq<Entry>) -> bool {
    forall|a: int, b: int| 0 <= a < b < s.len() ==> s[a].1.at <= s[b].1.at
}

proof fn lemma_insert_after_sorted(s: Seq<Entry>, x: Entry)
    requires
        by_time(s),
    ensures
        by_time(insert_after(s, x)),
        insert_after(s, x).to_multiset() == s.to_multiset().insert(x),
    decreases s.len(),
{
    broadcast use vstd::seq_lib::group_to_multiset_ensures;
    if s.len() == 0 {
        assert(seq![x] =~= Seq::<Entry>::empty().push(x));
    } else if s.last().1.at <= x.1.at {
    } else {
        let t = s.drop_last();
        assert(by_time(t));
        lemma_insert_after_sorted(t, x);
        let u = insert_after(t, x);
        lemma_insert_after_members(t, x);
        assert forall|a: int, b: int| 0 <= a < b < u.push(s.last()).len() implies u.push(
            s.last(),
        )[a].1.at <= u.push(s.last())[b].1.at by {
            if b == u.len() {
                if u[a] == x {
                } else {
                    let k = choose|k: int| 0 <= k < t.len() && t[k] == u[a];
                    assert(s[k] == t[k]);
                }
            }
        }
        assert(s =~= t.push(s.last()));
    }
}

/// What `insert_after` holds is what it was given and the entry.
proof fn lemma_insert_after_members(t: Seq<Entry>, x: Entry)
    ensures
        forall|a: int|
            0 <= a < insert_after(t, x).len() ==> insert_after(t, x)[a] == x || exists|k: int|
                0 <= k < t.len() && t[k] == #[trigger] insert_after(t, x)[a],
    decreases t.len(),
{
    if t.len() > 0 && t.last().1.at > x.1.at {
        let r = t.drop_last();
        lemma_insert_after_members(r, x);
        let u = insert_after(r, x);
        assert forall|a: int| 0 <= a < insert_after(t, x).len() implies insert_after(t, x)[a] == x
            || exists|k: int| 0 <= k < t.len() && t[k] == #[trigger] insert_after(t, x)[a] by {
            if a < u.len() {
                if u[a] != x {
                    let k = choose|k: int| 0 <= k < r.len() && r[k] == u[a];
                    assert(t[k] == r[k]);
                }
            } else {
                assert(insert_after(t, x)[a] == t[t.len() - 1]);
            }
        }
    } else if t.len() > 0 {
        assert forall|a: int| 0 <= a < insert_after(t, x).len() implies insert_after(t, x)[a] == x
            || exists|k: int| 0 <= k < t.len() && t[k] == #[trigger] insert_after(t, x)[a] by {
            if a < t.len() {
                assert(t[a] == insert_after(t, x)[a]);
            }
        }
    }
}

/// The merge is in time order, and holds every event read, each as often
/// as it was read: nothing is lost or made up on the way.
pub proof fn the_merge_is_in_time_order_and_loses_nothing(batch: Seq<Entry>, n: int)
    requires
        0 <= n <= batch.len(),
    ensures
        by_time(merged_spec(batch, n)),
        merged_spec(batch, n).to_multiset() == batch.take(n).to_multiset(),
    decreases n,
{
    broadcast use vstd::seq_lib::group_to_multiset_ensures;
    if n > 0 {
        the_merge_is_in_time_order_and_loses_nothing(batch, n - 1);
        lemma_insert_after_sorted(merged_spec(batch, n - 1), batch[n - 1]);
        assert(batch.take(n) =~= batch.take(n - 1).push(batch[n - 1]));
    } else {
        assert(batch.take(0) =~= Seq::<Entry>::empty());
    }
}

} // verus!
