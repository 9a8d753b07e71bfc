//! `amx status` — one agent, and which signal amx is trusting: the state on
//! its own is half an answer, so the report says what the reading went on and
//! how old that is. A waiting agent gets the question, its choices, and the
//! command that answers it.
use vstd::prelude::*;
use crate::derive::{Evidence, Reading, Verdict};
use crate::exit::{self, Outcome};
use crate::store::{Phase, phase_name};
use crate::text::{self, decimal, lines, pad_right, sanitized, trim};
use crate::verbs::send::{how_to_answer_spec, numbered, numbered_spec};

verus! {

/// Text amx did not author, as a person should receive it: inert, and with
/// the blank edges taken off.
pub open spec fn inert(t: Seq<char>) -> Seq<char> {
    trim(sanitized(t))
}

/// One row of the report: a label in a column eight wide, then the text.
pub open spec fn row(label: Seq<char>, line: Seq<char>) -> Seq<char> {
    "  "@ + pad_right(label, 8) + "  "@ + line + "\n"@
}

/// The first `n` lines of a field, the label on the first of them only: a
/// question the vendor wrapped across a screen is one thing being asked.
pub open spec fn said_upto(label: Seq<char>, ls: Seq<Seq<char>>, n: int) -> Seq<char>
    decreases n,
{
    if n <= 0 || n > ls.len() {
        Seq::empty()
    } else {
        said_upto(label, ls, n - 1) + row(
            if n - 1 == 0 {
                label
            } else {
                Seq::empty()
            },
            ls[n - 1],
        )
    }
}

/// One field of the report, in words amx did not author.
pub open spec fn said(label: Seq<char>, t: Seq<char>) -> Seq<char> {
    said_upto(label, lines(inert(t)), lines(inert(t)).len() as int)
}

/// Each of these under a blank label, one after another.
pub open spec fn each_said(ts: Seq<Seq<char>>) -> Seq<char>
    decreases ts.len(),
{
    if ts.len() == 0 {
        Seq::empty()
    } else {
        each_said(ts.drop_last()) + said(Seq::empty(), ts.last())
    }
}

/// A signed number in decimal.
pub open spec fn signed_decimal(n: int) -> Seq<char> {
    if n < 0 {
        "-"@ + decimal((-n) as nat)
    } else {
        decimal(n as nat)
    }
}

/// The sentence that says what a reading went on, and how old it is.
pub open spec fn evidence_spec(v: Verdict) -> Seq<char> {
    let age = decimal(v.age as nat);
    match v.evidence {
        Evidence::Record => "the record says how it ended"@,
        Evidence::Gone => "its pane is gone"@,
        Evidence::Hooks => match v.rule {
            Some(rule) => "the vendor's hooks, "@ + age + "s ago; the screen looks like `"@ + rule@
                + "` but has not held still"@,
            None => "the vendor's hooks, "@ + age + "s ago"@,
        },
        Evidence::Screen => "the screen, matching `"@ + match v.rule {
            Some(rule) => rule@,
            None => "a rule"@,
        } + "`, with nothing heard for "@ + age + "s"@,
        Evidence::Unknown => "nothing amx knows: no hooks for "@ + age
            + "s, and no rule claims the screen"@,
        Evidence::LetGo => "amx let its pane go; the record stands for it"@,
    }
}

/// The first two lines: who it is, where it is, and what that went on.
pub open spec fn head_part(v: Reading) -> Seq<char> {
    v.meta.id@ + "  "@ + phase_name(v.verdict.phase) + "\n"@ + "  evidence  "@ + evidence_spec(
        v.verdict,
    ) + "\n"@
}

/// The question it is stopped on and the choices under it, if any.
pub open spec fn asking_part(v: Reading) -> Seq<char> {
    match v.state.question {
        Some(q) => said("asking"@, q@) + each_said(
            numbered_spec(v.state.options@.map_values(|l: String| l@)),
        ),
        None => Seq::empty(),
    }
}

/// The command that answers a waiting agent.
pub open spec fn answer_part(v: Reading) -> Seq<char> {
    if v.verdict.phase == Phase::Waiting {
        "  answer    "@ + how_to_answer_spec(v.meta.id@, v.state.kind) + "\n"@
    } else {
        Seq::empty()
    }
}

/// What it is doing, and how it exited, where the record says.
pub open spec fn doing_part(v: Reading) -> Seq<char> {
    let doing = match v.state.summary {
        Some(s) => said("doing"@, s@),
        None => Seq::empty(),
    };
    let exited = match v.state.exit {
        Some(e) => "  exit      "@ + signed_decimal(e as int) + "\n"@,
        None => Seq::empty(),
    };
    doing + exited
}

/// The task, and where it works.
pub open spec fn place_part(v: Reading) -> Seq<char> {
    said("task"@, v.meta.task@) + "  dir       "@ + v.meta.dir@ + "\n"@ + match v.meta.branch {
        Some(b) => "  branch    "@ + b@ + "\n"@,
        None => Seq::empty(),
    } + "  pane      "@ + v.meta.pane@ + "\n"@
}

/// The report a person reads.
pub open spec fn report_spec(v: Reading) -> Seq<char> {
    head_part(v) + asking_part(v) + answer_part(v) + doing_part(v) + place_part(v)
}

/// A signed number, written out in decimal.
pub fn signed_number(n: i64) -> (s: String)
    ensures
        s@ == signed_decimal(n as int),
{
    if n < 0 {
        let m: u64 = ((-(n + 1)) as u64) + 1;
        let digits = text::number(m);
        text::joined("-", digits.as_str())
    } else {
        text::number(n as u64)
    }
}

/// The sentence that says what a reading went on.
pub fn evidence(v: &Verdict) -> (s: String)
    ensures
        s@ == evidence_spec(*v),
{
    let age = text::number(v.age);
    match v.evidence {
        Evidence::Record => "the record says how it ended".to_string(),
        Evidence::Gone => "its pane is gone".to_string(),
        Evidence::Hooks => {
            let mut s = text::joined("the vendor's hooks, ", age.as_str());
            match &v.rule {
                Some(rule) => {
                    s.append("s ago; the screen looks like `");
                    s.append(rule.as_str());
                    s.append("` but has not held still");
                },
                None => {
                    s.append("s ago");
                },
            }
            s
        },
        Evidence::Screen => {
            let mut s = "the screen, matching `".to_string();
            match &v.rule {
                Some(rule) => s.append(rule.as_str()),
                None => s.append("a rule"),
            }
            s.append("`, with nothing heard for ");
            s.append(age.as_str());
            s.append("s");
            s
        },
        Evidence::Unknown => {
            let mut s = text::joined("nothing amx knows: no hooks for ", age.as_str());
            s.append("s, and no rule claims the screen");
            s
        },
        Evidence::LetGo => "amx let its pane go; the record stands for it".to_string(),
    }
}

/// Write one field of the report onto `out`.
fn say(out: &mut String, label: &str, t: &str)
    ensures
        final(out)@ == old(out)@ + said(label@, t@),
{
    let clean = text::sanitize(t);
    let inner = text::trimmed(clean.as_str());
    let ls = text::lines_of(inner.as_str());
    let ghost all = ls@.map_values(|l: String| l@);
    let ghost start = out@;
    let mut i: usize = 0;
    while i < ls.len()
        invariant
            i <= ls.len(),
            all == ls@.map_values(|l: String| l@),
            all == lines(inert(t@)),
            out@ == start + said_upto(label@, all, i as int),
        decreases ls.len() - i,
    {
        out.append("  ");
        if i == 0 {
            let p = text::padded(label, 8);
            out.append(p.as_str());
        } else {
            let p = text::padded("", 8);
            out.append(p.as_str());
        }
        out.append("  ");
        out.append(ls[i].as_str());
        out.append("\n");
        proof {
            reveal_strlit("");
        }
        i += 1;
    }
}

fn put_head(out: &mut String, v: &Reading)
    ensures
        final(out)@ == old(out)@ + head_part(*v),
{
    out.append(v.id());
    out.append("  ");
    out.append(v.verdict.phase.as_str());
    out.append("\n");
    out.append("  evidence  ");
    let e = evidence(&v.verdict);
    out.append(e.as_str());
    out.append("\n");
}

fn put_asking(out: &mut String, v: &Reading)
    ensures
        final(out)@ == old(out)@ + asking_part(*v),
{
    match &v.state.question {
        Some(q) => {
            say(out, "asking", q.as_str());
            let choices = numbered(&v.state.options);
            let ghost all = choices@.map_values(|l: String| l@);
            let ghost mid = out@;
            let mut i: usize = 0;
            while i < choices.len()
                invariant
                    i <= choices.len(),
                    all == choices@.map_values(|l: String| l@),
                    out@ == mid + each_said(all.take(i as int)),
                decreases choices.len() - i,
            {
                say(out, "", choices[i].as_str());
                proof {
                    reveal_strlit("");
                    assert(all.take(i + 1).drop_last() =~= all.take(i as int));
                    assert(each_said(all.take(i + 1)) == each_said(all.take(i as int)) + said(
                        Seq::empty(),
                        all[i as int],
                    ));
                    assert(all[i as int] == choices@[i as int]@);
                    assert(""@ =~= Seq::<char>::empty());
                    assert(said(""@, all[i as int]) == said(Seq::empty(), all[i as int]));
                    assert(out@ =~= mid + each_said(all.take(i + 1)));
                }
                i += 1;
            }
            assert(all.take(choices.len() as int) =~= all);
        },
        None => {},
    }
}

fn put_answer(out: &mut String, v: &Reading)
    ensures
        final(out)@ == old(out)@ + answer_part(*v),
{
    if v.verdict.phase == Phase::Waiting {
        out.append("  answer    ");
        let how = crate::verbs::send::how_to_answer(v.id(), v.kind());
        out.append(how.as_str());
        out.append("\n");
    }
}

fn put_doing(out: &mut String, v: &Reading)
    ensures
        final(out)@ == old(out)@ + doing_part(*v),
{
    let ghost start = out@;
    match &v.state.summary {
        Some(s) => say(out, "doing", s.as_str()),
        None => {},
    }
    let ghost mid = out@;
    match v.state.exit {
        Some(code) => {
            out.append("  exit      ");
            let n = signed_number(code);
            out.append(n.as_str());
            out.append("\n");
        },
        None => {},
    }
    assert(out@ =~= start + doing_part(*v));
}

fn put_place(out: &mut String, v: &Reading)
    ensures
        final(out)@ == old(out)@ + place_part(*v),
{
    let ghost start = out@;
    say(out, "task", v.meta.task.as_str());
    out.append("  dir       ");
    out.append(v.meta.dir.as_str());
    out.append("\n");
    match &v.meta.branch {
        Some(b) => {
            out.append("  branch    ");
            out.append(b.as_str());
            out.append("\n");
        },
        None => {},
    }
    out.append("  pane      ");
    out.append(v.meta.pane.as_str());
    out.append("\n");
    assert(out@ =~= start + place_part(*v));
}

/// The report a person reads, for one reading.
pub fn report(v: &Reading) -> (s: String)
    ensures
        s@ == report_spec(*v),
{
    let mut out = String::new();
    put_head(&mut out, v);
    put_asking(&mut out, v);
    put_answer(&mut out, v);
    put_doing(&mut out, v);
    put_place(&mut out, v);
    assert(out@ =~= report_spec(*v));
    out
}

/// The verb, over the reading of the agent it was asked about.
pub fn run(v: &Reading) -> (o: Outcome)
    ensures
        o.code == exit::OK,
        o.out@ == report_spec(*v),
        o.err@.len() == 0,
{
    Outcome { code: exit::OK, out: report(v), err: String::new() }
}

} // verus!
