//! `amx statusline` — the two numbers a status line has room for: how many
//! agents are moving, and how many have stopped for a person. Nothing at all
//! when there is nothing to say.
use vstd::prelude::*;
use crate::derive::Reading;
use crate::exit::{self, Outcome};
use crate::store::Phase;
use crate::text::{self, decimal, joined_with};

verus! {

/// The sign for agents getting on with it.
pub const PULSE: char = '✽';

/// The sign for agents that cannot get any further alone.
pub const WARNING: char = '⚠';

/// Which sign an agent counts under, if any: starting and working are
/// moving, waiting and unknown are stuck, and the rest have finished.
pub open spec fn glyph_of(p: Phase) -> Option<char> {
    match p {
        Phase::Starting | Phase::Working => Some(PULSE),
        Phase::Waiting | Phase::Unknown => Some(WARNING),
        _ => None,
    }
}

pub fn glyph(phase: Phase) -> (g: Option<char>)
    ensures
        g == glyph_of(phase),
{
    match phase {
        Phase::Starting | Phase::Working => Some(PULSE),
        Phase::Waiting | Phase::Unknown => Some(WARNING),
        Phase::Idle | Phase::Done | Phase::Failed | Phase::Stopped => None,
    }
}

/// How many of these phases count under `sign` (`None`: under neither).
pub open spec fn under(phases: Seq<Phase>, sign: Option<char>) -> nat
    decreases phases.len(),
{
    if phases.len() == 0 {
        0
    } else {
        under(phases.drop_last(), sign) + if glyph_of(phases.last()) == sign {
            1nat
        } else {
            0nat
        }
    }
}

/// A sign and its count, or nothing for a count of nobody.
pub open spec fn part(sign: char, n: nat) -> Seq<Seq<char>> {
    if n > 0 {
        seq![seq![sign] + decimal(n)]
    } else {
        Seq::empty()
    }
}

/// The counts in the order they are read, what is moving and then what is
/// stuck, a space between them.
pub open spec fn summary_spec(phases: Seq<Phase>) -> Seq<char> {
    joined_with(
        part(PULSE, under(phases, Some(PULSE))) + part(WARNING, under(phases, Some(WARNING))),
        " "@,
    )
}

/// How many of the phases count under `sign`.
fn counted(phases: &Vec<Phase>, sign: char) -> (n: usize)
    ensures
        n == under(phases@, Some(sign)),
{
    let mut n: usize = 0;
    let mut i: usize = 0;
    while i < phases.len()
        invariant
            i <= phases.len(),
            n <= i,
            n == under(phases@.take(i as int), Some(sign)),
        decreases phases.len() - i,
    {
        assert(phases@.take(i + 1).drop_last() =~= phases@.take(i as int));
        if glyph(phases[i]) == Some(sign) {
            n += 1;
        }
        i += 1;
    }
    assert(phases@.take(phases.len() as int) =~= phases@);
    n
}

/// The sign and its count as one piece of the line.
fn piece(sign: char, n: usize) -> (s: String)
    ensures
        s@ == seq![sign] + decimal(n as nat),
{
    let mut s = String::new();
    text::push_char(&mut s, sign);
    let digits = text::number(n as u64);
    s.append(digits.as_str());
    s
}

/// The line, as the phases of the agents on the wall give it.
pub fn summary(phases: &Vec<Phase>) -> (s: String)
    ensures
        s@ == summary_spec(phases@),
{
    let pulses = counted(phases, PULSE);
    let warnings = counted(phases, WARNING);
    let mut parts: Vec<String> = Vec::new();
    if pulses > 0 {
        parts.push(piece(PULSE, pulses));
    }
    if warnings > 0 {
        parts.push(piece(WARNING, warnings));
    }
    let s = text::join(&parts, " ");
    assert(parts@.map_values(|p: String| p@) =~= part(PULSE, pulses as nat) + part(
        WARNING,
        warnings as nat,
    ));
    s
}

/// What the status line prints: its line and a newline, or no bytes at all
/// where there is nothing to say. It always exits `OK`.
pub open spec fn printed(phases: Seq<Phase>) -> Seq<char> {
    if summary_spec(phases).len() == 0 {
        Seq::empty()
    } else {
        summary_spec(phases).push('\n')
    }
}

/// The verb, over the readings of the agents on the wall.
pub fn run(views: &Vec<Reading>) -> (o: Outcome)
    ensures
        o.code == exit::OK,
        o.out@ == printed(views@.map_values(|v: Reading| v.verdict.phase)),
        o.err@.len() == 0,
{
    let mut phases: Vec<Phase> = Vec::new();
    let mut i: usize = 0;
    while i < views.len()
        invariant
            i <= views.len(),
            phases@ == views@.map_values(|v: Reading| v.verdict.phase).take(i as int),
        decreases views.len() - i,
    {
        phases.push(views[i].phase());
        assert(views@.map_values(|v: Reading| v.verdict.phase).take(i + 1) =~= views@.map_values(
            |v: Reading| v.verdict.phase,
        ).take(i as int).push(views@[i as int].verdict.phase));
        i += 1;
    }
    assert(views@.map_values(|v: Reading| v.verdict.phase).take(views.len() as int)
        =~= views@.map_values(|v: Reading| v.verdict.phase));
    let mut out = summary(&phases);
    if out.unicode_len() > 0 {
        text::push_char(&mut out, '\n');
    }
    Outcome { code: exit::OK, out, err: String::new() }
}

/// A count is zero exactly when no phase counts under that sign.
pub proof fn lemma_under_zero(phases: Seq<Phase>, sign: Option<char>)
    ensures
        under(phases, sign) == 0 <==> forall|i: int|
            0 <= i < phases.len() ==> glyph_of(#[trigger] phases[i]) != sign,
    decreases phases.len(),
{
    if phases.len() > 0 {
        lemma_under_zero(phases.drop_last(), sign);
        assert forall|i: int| 0 <= i < phases.len() - 1 implies phases.drop_last()[i]
            == #[trigger] phases[i] by {}
    }
}

/// Every agent counts under exactly one of: the pulse, the warning, neither.
/// So the two numbers never add up to more agents than there are.
pub proof fn every_agent_is_counted_once(phases: Seq<Phase>)
    ensures
        under(phases, Some(PULSE)) + under(phases, Some(WARNING)) + under(phases, None)
            == phases.len(),
    decreases phases.len(),
{
    if phases.len() > 0 {
        every_agent_is_counted_once(phases.drop_last());
    }
}

/// Nothing is printed exactly when no agent is moving or stuck.
pub proof fn silence_means_nothing_to_report(phases: Seq<Phase>)
    ensures
        printed(phases).len() == 0 <==> forall|i: int|
            0 <= i < phases.len() ==> glyph_of(#[trigger] phases[i]) is None,
{
    lemma_under_zero(phases, Some(PULSE));
    lemma_under_zero(phases, Some(WARNING));
    let p = under(phases, Some(PULSE));
    let w = under(phases, Some(WARNING));
    let parts = part(PULSE, p) + part(WARNING, w);
    if p > 0 || w > 0 {
        assert(parts.len() >= 1);
        if parts.len() == 1 {
            assert(joined_with(parts, " "@) == parts[0]);
        } else {
            assert(parts.drop_last().len() == 1);
            assert(joined_with(parts.drop_last(), " "@) == parts.drop_last()[0]);
        }
        let i = if p > 0 {
            choose|i: int| 0 <= i < phases.len() && glyph_of(#[trigger] phases[i]) == Some(PULSE)
        } else {
            choose|i: int| 0 <= i < phases.len() && glyph_of(#[trigger] phases[i]) == Some(WARNING)
        };
        assert(glyph_of(phases[i]) is Some);
    } else {
        assert(parts =~= Seq::<Seq<char>>::empty());
        assert forall|i: int| 0 <= i < phases.len() implies glyph_of(#[trigger] phases[i])
            is None by {
            assert(glyph_of(phases[i]) != Some(PULSE));
            assert(glyph_of(phases[i]) != Some(WARNING));
        }
    }
}

/// The line is plain: the two signs, decimal digits and a space, and nothing
/// a terminal or a status line would act on, not even a line break.
pub proof fn the_line_is_plain(phases: Seq<Phase>)
    ensures
        forall|i: int|
            0 <= i < summary_spec(phases).len() ==> {
                let c = #[trigger] summary_spec(phases)[i];
                c == PULSE || c == WARNING || c == ' ' || ('0' <= c && c <= '9')
            },
{
    let p = under(phases, Some(PULSE));
    let w = under(phases, Some(WARNING));
    text::lemma_decimal_digits(p);
    text::lemma_decimal_digits(w);
    let a = seq![PULSE] + decimal(p);
    let b = seq![WARNING] + decimal(w);
    let parts = part(PULSE, p) + part(WARNING, w);
    let s = summary_spec(phases);
    if p > 0 && w > 0 {
        assert(parts =~= seq![a, b]);
        assert(parts.drop_last() =~= seq![a]);
        assert(joined_with(parts.drop_last(), " "@) == a);
        assert(parts.last() == b);
        assert(s =~= a + " "@ + b);
    } else if p > 0 {
        assert(parts =~= seq![a]);
        assert(s == a);
    } else if w > 0 {
        assert(parts =~= seq![b]);
        assert(s == b);
    } else {
        assert(parts =~= Seq::<Seq<char>>::empty());
    }
    assert forall|i: int| 0 <= i < s.len() implies {
        let c = #[trigger] s[i];
        c == PULSE || c == WARNING || c == ' ' || ('0' <= c && c <= '9')
    } by {
        reveal_strlit(" ");
        if p > 0 && w > 0 {
            if i < a.len() {
                assert(s[i] == a[i]);
                if i > 0 {
                    assert(a[i] == decimal(p)[i - 1]);
                }
            } else if i == a.len() {
                assert(s[i] == ' ');
            } else {
                assert(s[i] == b[i - a.len() - 1]);
                if i - a.len() - 1 > 0 {
                    assert(b[i - a.len() - 1] == decimal(w)[i - a.len() - 2]);
                }
            }
        } else if p > 0 {
            if i > 0 {
                assert(a[i] == decimal(p)[i - 1]);
            }
        } else if w > 0 {
            if i > 0 {
                assert(b[i] == decimal(w)[i - 1]);
            }
        }
    }
}

} // verus!
