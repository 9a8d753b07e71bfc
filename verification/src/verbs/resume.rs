//! `amx resume` — start an agent's command again, on the session it had.
//!
//! A resume is a continuation, not a second agent: the vendor is launched
//! with what it was launched with the first time, minus the task (already put
//! to the session) and minus every flag that names a session, plus the one
//! that carries this session on. Without a recorded session, or without the
//! command it was started with, there is nothing to pick up, and the refusal
//! says which half is missing.
use vstd::prelude::*;
use crate::derive::Reading;
use crate::exit::{self, Outcome};
use crate::store::{fresh, Meta, Phase, State, phase_name, terminal};
use crate::text::{self, decimal};
use crate::vendor::{self, Capability, ForkSpec, SessionSpec, Vendor, first_session, flags,
    is_first, is_pi, pi_session, session_view};

verus! {

/// What amx records when it brings an agent back.
pub const RESUMED: &'static str = "resume";

/// What an agent was started with: its task, and the command that started
/// it, the task its last word.
#[derive(Debug, Clone, PartialEq, Eq)]
pub struct Handoff {
    pub task: String,
    pub command: Vec<String>,
}

/// What bringing an agent back came to, for the doors that reach an agent
/// rather than start one.
#[derive(Debug, Clone, PartialEq, Eq)]
pub enum Comeback {
    /// Go ahead: it can be put in a pane again, on the session it had.
    Back,
    /// Nothing is to be started, and this says why.
    No(String),
}

/// The characters a session id is made of.
pub open spec fn id_char(c: char) -> bool {
    ('a' <= c && c <= 'z') || ('A' <= c && c <= 'Z') || ('0' <= c && c <= '9') || c == '-' || c
        == '_'
}

/// Whether a recorded session id is one: a word, no longer than 64, that
/// cannot read as a flag and holds nothing but the characters ids are made of.
pub open spec fn is_session_id_spec(s: Seq<char>) -> bool {
    &&& s.len() > 0
    &&& s.len() <= 64
    &&& s[0] != '-'
    &&& forall|i: int| 0 <= i < s.len() ==> id_char(#[trigger] s[i])
}

pub fn is_session_id(value: &str) -> (b: bool)
    ensures
        b == is_session_id_spec(value@),
{
    let v = text::chars_of(value);
    if v.len() == 0 || v.len() > 64 || v[0] == '-' {
        return false;
    }
    let mut i: usize = 0;
    while i < v.len()
        invariant
            i <= v.len(),
            v@ == value@,
            forall|j: int| 0 <= j < i ==> id_char(#[trigger] v@[j]),
        decreases v.len() - i,
    {
        let c = v[i];
        if !(('a' <= c && c <= 'z') || ('A' <= c && c <= 'Z') || ('0' <= c && c <= '9') || c == '-'
            || c == '_') {
            return false;
        }
        i += 1;
    }
    true
}

/// Whether `word` is `flag`, or `flag=` and a value: `Some(true)` where the
/// value is the word after it, `Some(false)` where it is joined on.
pub open spec fn flag_match(word: Seq<char>, flag: Seq<char>) -> Option<bool> {
    if word == flag {
        Some(true)
    } else if word.len() > flag.len() && word.take(flag.len() as int) == flag && word[flag.len() as int]
        == '=' {
        Some(false)
    } else {
        None
    }
}

/// The first of these flags the word is, from the `k`th on.
pub open spec fn names_from(word: Seq<char>, fs: Seq<Seq<char>>, k: int) -> Option<bool>
    decreases fs.len() - k,
{
    if k < 0 || k >= fs.len() {
        None
    } else {
        match flag_match(word, fs[k]) {
            Some(b) => Some(b),
            None => names_from(word, fs, k + 1),
        }
    }
}

/// Whether a word could be a flag in its own right.
pub open spec fn flag_like(word: Seq<char>) -> bool {
    word.len() > 0 && word[0] == '-'
}

/// The words of a recorded command from the `i`th on, once the task (the last
/// word, where `new` put it), any `marker`, and every flag naming a session
/// with its value are taken out. A value is the next word only where it could
/// be one: a word that begins with `-` never is.
pub open spec fn kept(
    words: Seq<Seq<char>>,
    task: Seq<char>,
    fs: Seq<Seq<char>>,
    marker: Option<Seq<char>>,
    i: int,
) -> Seq<Seq<char>>
    decreases words.len() - i,
{
    if i < 0 || i >= words.len() {
        Seq::empty()
    } else if i == words.len() - 1 && words[i] == task {
        Seq::empty()
    } else if marker == Some(words[i]) {
        kept(words, task, fs, marker, i + 1)
    } else {
        match names_from(words[i], fs, 0) {
            None => seq![words[i]] + kept(words, task, fs, marker, i + 1),
            Some(own) => if own && i + 1 < words.len() && !flag_like(words[i + 1]) {
                kept(words, task, fs, marker, i + 2)
            } else {
                kept(words, task, fs, marker, i + 1)
            },
        }
    }
}

/// Whether `word` is `flag` or `flag=`something.
fn flag_matches(word: &Vec<char>, flag: &str) -> (r: Option<bool>)
    ensures
        r == flag_match(word@, flag@),
{
    let f = text::chars_of(flag);
    if word.len() == f.len() {
        let mut i: usize = 0;
        while i < f.len()
            invariant
                i <= f.len() == word.len(),
                f@ == flag@,
                forall|j: int| 0 <= j < i ==> word@[j] == f@[j],
            decreases f.len() - i,
        {
            if word[i] != f[i] {
                assert(word@[i as int] != flag@[i as int]);
                return None;
            }
            i += 1;
        }
        assert(word@ =~= flag@);
        return Some(true);
    }
    if word.len() > f.len() && word[f.len()] == '=' {
        let mut i: usize = 0;
        while i < f.len()
            invariant
                i <= f.len() < word.len(),
                f@ == flag@,
                forall|j: int| 0 <= j < i ==> word@[j] == f@[j],
            decreases f.len() - i,
        {
            if word[i] != f[i] {
                assert(word@.take(f.len() as int)[i as int] != flag@[i as int]);
                return None;
            }
            i += 1;
        }
        assert(word@.take(f.len() as int) =~= flag@);
        return Some(false);
    }
    proof {
        if word@.len() > flag@.len() && word@.take(flag@.len() as int) == flag@ {
            assert(word@[flag@.len() as int] != '=');
        }
    }
    None
}

/// Which of these flags the word names, if any, and how its value is given.
pub fn names_a_session(word: &str, fs: &Vec<String>) -> (r: Option<bool>)
    ensures
        r == names_from(word@, flags(*fs), 0),
{
    let w = text::chars_of(word);
    let mut k: usize = 0;
    while k < fs.len()
        invariant
            k <= fs.len(),
            w@ == word@,
            names_from(word@, flags(*fs), 0) == names_from(word@, flags(*fs), k as int),
        decreases fs.len() - k,
    {
        assert(flags(*fs)[k as int] == fs@[k as int]@);
        match flag_matches(&w, fs[k].as_str()) {
            Some(b) => {
                return Some(b);
            },
            None => {},
        }
        k += 1;
    }
    None
}

/// The words of a recorded command that a new launch carries over.
pub fn kept_words(command: &Vec<String>, task: &str, fs: &Vec<String>, marker: Option<&str>) -> (r:
    Vec<String>)
    ensures
        flags(r) == kept(
            flags(*command),
            task@,
            flags(*fs),
            match marker {
                Some(m) => Some(m@),
                None => None,
            },
            0,
        ),
{
    let ghost words = flags(*command);
    let ghost mk = match marker {
        Some(m) => Some(m@),
        None => None::<Seq<char>>,
    };
    let mut r: Vec<String> = Vec::new();
    let n = command.len();
    let mut i: usize = 0;
    while i < n
        invariant
            i <= n == command.len(),
            words == flags(*command),
            mk == match marker {
                Some(m) => Some(m@),
                None => None::<Seq<char>>,
            },
            flags(r) + kept(words, task@, flags(*fs), mk, i as int) == kept(
                words,
                task@,
                flags(*fs),
                mk,
                0,
            ),
        decreases n - i,
    {
        let word = command[i].as_str();
        assert(words[i as int] == word@);
        let ghost before = flags(r);
        if i + 1 == n && text::same_text(word, task) {
            assert(kept(words, task@, flags(*fs), mk, i as int) =~= Seq::<Seq<char>>::empty());
            assert(kept(words, task@, flags(*fs), mk, n as int) =~= Seq::<Seq<char>>::empty());
            i = n;
        } else {
            let marked = match marker {
                Some(m) => text::same_text(m, word),
                None => false,
            };
            if marked {
                i += 1;
            } else {
                match names_a_session(word, fs) {
                    None => {
                        r.push(command[i].clone());
                        assert(flags(r) =~= before.push(word@));
                        assert(before.push(word@) + kept(words, task@, flags(*fs), mk, i + 1)
                            =~= before + (seq![word@] + kept(words, task@, flags(*fs), mk, i + 1)));
                        i += 1;
                    },
                    Some(own) => {
                        if own && i + 1 < n {
                            let next = command[i + 1].as_str();
                            assert(words[i + 1] == next@);
                            let nv = text::chars_of(next);
                            if !(nv.len() > 0 && nv[0] == '-') {
                                i += 2;
                            } else {
                                i += 1;
                            }
                        } else {
                            i += 1;
                        }
                    },
                }
            }
        }
    }
    assert(kept(words, task@, flags(*fs), mk, n as int) =~= Seq::<Seq<char>>::empty());
    assert(flags(r) + Seq::<Seq<char>>::empty() =~= flags(r));
    r
}

/// The flags that decide which session a vendor opens, in its own spelling:
/// the ones it lists, the resume flag, and the flag naming the origin of a
/// copy for a vendor that branches that way.
pub open spec fn session_flags(
    sv: (Seq<char>, bool, Seq<Seq<char>>, Option<(bool, Seq<char>)>),
) -> Seq<Seq<char>> {
    sv.2 + seq![sv.0] + match sv.3 {
        Some((true, o)) => seq![o],
        _ => Seq::empty(),
    }
}

/// The vendor's argv for a session it already has.
pub open spec fn continuation_spec(
    h: Handoff,
    session: Seq<char>,
    sv: (Seq<char>, bool, Seq<Seq<char>>, Option<(bool, Seq<char>)>),
) -> Seq<Seq<char>> {
    continue_words(flags(h.command), h.task@, session, sv)
}

/// The same, over the words of the command and its task.
pub open spec fn continue_words(
    words: Seq<Seq<char>>,
    task: Seq<char>,
    session: Seq<char>,
    sv: (Seq<char>, bool, Seq<Seq<char>>, Option<(bool, Seq<char>)>),
) -> Seq<Seq<char>> {
    kept(words, task, session_flags(sv), None, 0) + resume_words(session, sv)
}

/// The words that carry this session on, in this spelling.
pub open spec fn resume_words(
    session: Seq<char>,
    sv: (Seq<char>, bool, Seq<Seq<char>>, Option<(bool, Seq<char>)>),
) -> Seq<Seq<char>> {
    if sv.1 {
        seq![sv.0 + "="@ + session]
    } else {
        seq![sv.0, session]
    }
}

/// The flags of a session vocabulary that decide which session opens.
fn spec_flags(spec: &SessionSpec) -> (r: Vec<String>)
    ensures
        flags(r) == session_flags(session_view(*spec)),
{
    let mut r: Vec<String> = Vec::new();
    let mut i: usize = 0;
    while i < spec.conflicts.len()
        invariant
            i <= spec.conflicts.len(),
            flags(r) == flags(spec.conflicts).take(i as int),
        decreases spec.conflicts.len() - i,
    {
        r.push(spec.conflicts[i].clone());
        assert(flags(spec.conflicts).take(i + 1) =~= flags(spec.conflicts).take(i as int).push(
            spec.conflicts@[i as int]@,
        ));
        assert(flags(r) =~= flags(spec.conflicts).take(i + 1));
        i += 1;
    }
    assert(flags(spec.conflicts).take(spec.conflicts.len() as int) =~= flags(spec.conflicts));
    let ghost before = flags(r);
    r.push(spec.resume.clone());
    assert(flags(r) =~= before + seq![spec.resume@]);
    match &spec.fork {
        Some(ForkSpec::Origin(o)) => {
            let ghost mid = flags(r);
            r.push(o.clone());
            assert(flags(r) =~= mid + seq![o@]);
        },
        _ => {
            assert(flags(r) =~= flags(r) + Seq::<Seq<char>>::empty());
        },
    }
    r
}

/// The vendor's argv for a session it already has, in the spelling given.
pub fn build_continuation(h: &Handoff, session: &str, spec: &SessionSpec) -> (r: Vec<String>)
    ensures
        flags(r) == continuation_spec(*h, session@, session_view(*spec)),
{
    let fs = spec_flags(spec);
    let mut r = kept_words(&h.command, h.task.as_str(), &fs, None);
    let ghost body = flags(r);
    if spec.joined {
        let mut flag = text::joined(spec.resume.as_str(), "=");
        flag.append(session);
        r.push(flag);
        assert(flags(r) =~= body + seq![spec.resume@ + "="@ + session@]);
    } else {
        r.push(spec.resume.clone());
        r.push(session.to_string());
        assert(flags(r) =~= body + seq![spec.resume@, session@]);
    }
    r
}

/// The name a command runs: its first word after the last `/`.
pub open spec fn program_of(command: Seq<Seq<char>>) -> Seq<char> {
    if command.len() == 0 {
        Seq::empty()
    } else {
        command[0].skip(last_slash(command[0], command[0].len() as int))
    }
}

/// Where the name after the last `/` among the first `n` characters starts.
pub open spec fn last_slash(w: Seq<char>, n: int) -> int
    decreases n,
{
    if n <= 0 || n > w.len() {
        0
    } else if w[n - 1] == '/' {
        n
    } else {
        last_slash(w, n - 1)
    }
}

/// The program a recorded command runs.
pub fn program(command: &Vec<String>) -> (s: String)
    ensures
        s@ == program_of(flags(*command)),
{
    if command.len() == 0 {
        return String::new();
    }
    let w = text::chars_of(command[0].as_str());
    assert(flags(*command)[0] == command@[0]@);
    let mut n = w.len();
    while n > 0 && w[n - 1] != '/'
        invariant
            n <= w.len(),
            last_slash(w@, w@.len() as int) == last_slash(w@, n as int),
        decreases n,
    {
        n -= 1;
    }
    assert(w@.subrange(n as int, w.len() as int) =~= w@.skip(n as int));
    text::from_range(&w, n, w.len())
}

/// The table's entry for the program a recorded command runs.
pub fn vendor_of(h: &Handoff) -> (r: Option<Vendor>)
    ensures
        program_of(flags(h.command)) == "first"@ ==> (r matches Some(v) && is_first(v)),
        program_of(flags(h.command)) == "pi"@ ==> (r matches Some(v) && is_pi(v)),
        program_of(flags(h.command)) != "first"@ && program_of(flags(h.command)) != "pi"@ ==> r
            is None,
{
    let p = program(&h.command);
    vendor::entry(p.as_str())
}

/// The session vocabulary for a recorded command: its vendor's, or first's
/// for a command amx has measured nothing about.
pub open spec fn spelling_spec(h: Handoff) -> (Seq<char>, bool, Seq<Seq<char>>, Option<(bool, Seq<char>)>) {
    if program_of(flags(h.command)) == "pi"@ {
        pi_session()
    } else {
        first_session()
    }
}

pub fn spelling(h: &Handoff) -> (s: SessionSpec)
    ensures
        session_view(s) == spelling_spec(*h),
{
    proof {
        reveal_strlit("pi");
        reveal_strlit("first");
        assert("pi"@.len() != "first"@.len());
    }
    match vendor_of(h) {
        Some(v) => match v.session {
            Some(s) => s,
            None => vendor::first().session.unwrap(),
        },
        None => vendor::first().session.unwrap(),
    }
}

/// The vendor's argv for a session it already has, in its own spelling.
pub fn continuing(h: &Handoff, session: &str) -> (r: Vec<String>)
    ensures
        flags(r) == continuation_spec(*h, session@, spelling_spec(*h)),
{
    let spec = spelling(h);
    build_continuation(h, session, &spec)
}

/// The sentence for an agent with no session recorded.
pub open spec fn no_session(id: Seq<char>) -> Seq<char> {
    "no session was ever recorded for "@ + id
        + ", so there is nothing to continue. start a fresh agent with `amx new`"@
}

/// The sentence for a recorded session that is not a session id.
pub open spec fn not_an_id(id: Seq<char>) -> Seq<char> {
    "the session recorded for "@ + id + " is not a session id, so it will not be handed on"@
}

/// The session this agent is carried on by, or the sentence saying why there
/// is none to carry it.
pub open spec fn to_continue_spec(m: Meta) -> Result<Seq<char>, Seq<char>> {
    match m.session {
        None => Err(no_session(m.id@)),
        Some(s) => if is_session_id_spec(s@) {
            Ok(s@)
        } else {
            Err(not_an_id(m.id@))
        },
    }
}

pub fn to_continue(m: &Meta) -> (r: Result<String, String>)
    ensures
        r matches Ok(s) ==> to_continue_spec(*m) == Ok::<Seq<char>, Seq<char>>(s@),
        r matches Err(e) ==> to_continue_spec(*m) == Err::<Seq<char>, Seq<char>>(e@),
{
    match &m.session {
        None => {
            let mut e = text::joined("no session was ever recorded for ", m.id.as_str());
            e.append(", so there is nothing to continue. start a fresh agent with `amx new`");
            Err(e)
        },
        Some(s) => {
            if is_session_id(s.as_str()) {
                Ok(s.clone())
            } else {
                let mut e = text::joined("the session recorded for ", m.id.as_str());
                e.append(" is not a session id, so it will not be handed on");
                Err(e)
            }
        },
    }
}

/// Why this vendor cannot be told to carry a session on, when it cannot: it
/// lacks the capability, or names no spelling for it. A command amx has no
/// entry for is not refused.
pub open spec fn cannot_continue_spec(v: Option<Vendor>, id: Seq<char>) -> Option<Seq<char>> {
    match v {
        None => None,
        Some(v) => if !v.capabilities@.contains(Capability::Resume) {
            Some(
                id + " runs "@ + v.name@
                    + ", which cannot be told to carry a session on, so there is nothing to pick up. start a fresh agent with `amx new`"@,
            )
        } else if v.session is None {
            Some(
                id + " runs "@ + v.name@
                    + ", which names no session vocabulary, so there is nothing to pick up. start a fresh agent with `amx new`"@,
            )
        } else {
            None
        },
    }
}

pub fn cannot_continue(v: Option<&Vendor>, id: &str) -> (r: Option<String>)
    ensures
        r matches Some(s) ==> cannot_continue_spec(
            match v {
                Some(x) => Some(*x),
                None => None,
            },
            id@,
        ) == Some(s@),
        r is None ==> cannot_continue_spec(
            match v {
                Some(x) => Some(*x),
                None => None,
            },
            id@,
        ) is None,
{
    match v {
        None => None,
        Some(v) => {
            if !v.can(Capability::Resume) {
                let mut s = text::joined(id, " runs ");
                s.append(v.name.as_str());
                s.append(
                    ", which cannot be told to carry a session on, so there is nothing to pick up. start a fresh agent with `amx new`",
                );
                Some(s)
            } else if v.session.is_none() {
                let mut s = text::joined(id, " runs ");
                s.append(v.name.as_str());
                s.append(
                    ", which names no session vocabulary, so there is nothing to pick up. start a fresh agent with `amx new`",
                );
                Some(s)
            } else {
                None
            }
        },
    }
}

/// Whether there is a command to start again, or the sentence saying why
/// there is not. `present` is whether one was written down beside the
/// record, which an adopted agent never has; `recorded` is that command,
/// where it reads. Every vendor the table holds can carry a session on, and
/// a command amx has no entry for is not refused, so a command written down
/// is always one to start again.
pub open spec fn to_start_spec(present: bool, v: Option<Vendor>, id: Seq<char>) -> Option<Seq<char>> {
    if !present {
        Some(id + " was started by hand rather than by amx, so there is no command to start again"@)
    } else {
        cannot_continue_spec(v, id)
    }
}

/// `present` is whether the handoff is there; `v` is the table's entry for
/// the program its recorded command runs (`vendor_of`), where it reads and
/// amx has one.
pub fn to_start(present: bool, v: Option<&Vendor>, id: &str) -> (r: Option<String>)
    ensures
        r matches Some(s) ==> to_start_spec(present, opt_vendor(v), id@) == Some(s@),
        r is None ==> to_start_spec(present, opt_vendor(v), id@) is None,
{
    if !present {
        return Some(
            text::joined(
                id,
                " was started by hand rather than by amx, so there is no command to start again",
            ),
        );
    }
    cannot_continue(v, id)
}

pub open spec fn opt_vendor(v: Option<&Vendor>) -> Option<Vendor> {
    match v {
        Some(x) => Some(*x),
        None => None,
    }
}

/// Whether the machine is already running as many agents as it will.
pub open spec fn at_capacity_spec(live: nat, max: nat) -> Option<Seq<char>> {
    if live >= max {
        Some(decimal(live) + " agents already running, and max_agents is "@ + decimal(max))
    } else {
        None
    }
}

pub fn at_capacity(live: u64, max: u64) -> (r: Option<String>)
    ensures
        r matches Some(s) ==> at_capacity_spec(live as nat, max as nat) == Some(s@),
        r is None ==> at_capacity_spec(live as nat, max as nat) is None,
{
    if live >= max {
        let l = text::number(live);
        let mut s = text::joined(l.as_str(), " agents already running, and max_agents is ");
        let m = text::number(max);
        s.append(m.as_str());
        Some(s)
    } else {
        None
    }
}

/// Whether an agent whose pane is gone can be brought back, for the doors
/// that reach one rather than start one: a session to continue, a command to
/// start again, and room on the machine, asked in that order.
pub open spec fn again_spec(m: Meta, present: bool, v: Option<Vendor>, live: nat, max: nat) -> Result<(), Seq<char>> {
    match to_continue_spec(m) {
        Err(e) => Err(e),
        Ok(_) => match to_start_spec(present, v, m.id@) {
            Some(e) => Err(e),
            None => match at_capacity_spec(live, max) {
                Some(f) => Err(f),
                None => Ok(()),
            },
        },
    }
}

pub fn again(m: &Meta, present: bool, v: Option<&Vendor>, live: u64, max: u64) -> (r:
    Comeback)
    ensures
        r == Comeback::Back <==> again_spec(*m, present, opt_vendor(v), live as nat, max as nat) is Ok,
        r matches Comeback::No(why) ==> again_spec(*m, present, opt_vendor(v), live as nat, max as nat)
            == Err::<(), Seq<char>>(why@),
{
    match to_continue(m) {
        Err(e) => {
            return Comeback::No(e);
        },
        Ok(_) => {},
    }
    match to_start(present, v, m.id.as_str()) {
        Some(e) => {
            return Comeback::No(e);
        },
        None => {},
    }
    match at_capacity(live, max) {
        Some(f) => Comeback::No(f),
        None => Comeback::Back,
    }
}

/// What `amx resume <id>` refuses before it starts anything: an agent that
/// has not ended is already doing what a resume would start, and a full
/// machine has no room. `None` is go ahead.
pub open spec fn refusal_spec(phase: Phase, id: Seq<char>, live: nat, max: nat) -> Option<
    Seq<char>,
> {
    if !terminal(phase) {
        Some("amx resume: "@ + id + " is "@ + phase_name(phase) + ". stop it before starting it again"@ + "\n"@)
    } else {
        match at_capacity_spec(live, max) {
            Some(f) => Some("amx resume: "@ + f + "\n"@),
            None => None,
        }
    }
}

/// Exit `BLOCKED` with the refusal on stderr, or `None` to go ahead.
pub fn refusal(phase: Phase, id: &str, live: u64, max: u64) -> (r: Option<Outcome>)
    ensures
        r matches Some(o) ==> o.code == exit::BLOCKED && o.out@.len() == 0 && refusal_spec(
            phase,
            id@,
            live as nat,
            max as nat,
        ) == Some(o.err@),
        r is None ==> refusal_spec(phase, id@, live as nat, max as nat) is None,
{
    if !phase.is_terminal() {
        let mut err = text::joined("amx resume: ", id);
        err.append(" is ");
        err.append(phase.as_str());
        err.append(". stop it before starting it again");
        err.append("\n");
        return Some(Outcome { code: exit::BLOCKED, out: String::new(), err });
    }
    match at_capacity(live, max) {
        Some(f) => {
            let mut err = text::joined("amx resume: ", f.as_str());
            err.append("\n");
            Some(Outcome { code: exit::BLOCKED, out: String::new(), err })
        },
        None => None,
    }
}

/// Resuming twice asks for one session, not two: each resume records what it
/// launched, and carrying that command on again under a new session names
/// only the new one, whatever session the last resume named, in either
/// spelling the table holds.
pub proof fn resuming_twice_asks_for_one_session(
    words: Seq<Seq<char>>,
    task: Seq<char>,
    first: Seq<char>,
    second: Seq<char>,
)
    requires
        is_session_id_spec(first),
    ensures
        continue_words(continue_words(words, task, first, first_session()), task, second,
            first_session()) == continue_words(words, task, second, first_session()),
        continue_words(continue_words(words, task, first, pi_session()), task, second, pi_session())
            == continue_words(words, task, second, pi_session()),
{
    reveal_strlit("--resume");
    reveal_strlit("-r");
    reveal_strlit("--session-id");
    let cs = first_session();
    let ps = pi_session();
    assert(session_flags(cs) =~= seq!["--session-id"@, "-r"@, "--resume"@]);
    assert(session_flags(ps) =~= seq!["--session-id"@, "--fork"@]);
    assert(names_from("--session-id"@, session_flags(ps), 0) == Some(true));
    assert(!flag_like(first));
    reveal_strlit("=");
    let w = "--resume"@ + "="@ + first;
    assert(w.take(8) =~= "--resume"@);
    assert(w[8] == '=');
    assert(flag_match(w, session_flags(cs)[2]) == Some(false));
    assert(names_from(w, session_flags(cs), 2) is Some);
    assert(names_from(w, session_flags(cs), 1) is Some);
    assert(names_from(w, session_flags(cs), 0) is Some);
    lemma_rekept(words, task, first, cs);
    lemma_rekept(words, task, first, ps);
}

/// Keeping the words of a continuation again keeps the words it kept, and
/// drops the ones that carried the session on.
proof fn lemma_rekept(
    words: Seq<Seq<char>>,
    task: Seq<char>,
    first: Seq<char>,
    sv: (Seq<char>, bool, Seq<Seq<char>>, Option<(bool, Seq<char>)>),
)
    requires
        sv.1 || (names_from(sv.0, session_flags(sv), 0) == Some(true) && !flag_like(first)),
        names_from(sv.0 + "="@ + first, session_flags(sv), 0) is Some || !sv.1,
    ensures
        kept(continue_words(words, task, first, sv), task, session_flags(sv), None, 0) == kept(
            words,
            task,
            session_flags(sv),
            None,
            0,
        ),
{
    let fs = session_flags(sv);
    let k = kept(words, task, fs, None, 0);
    let t = resume_words(first, sv);
    let all = k + t;
    lemma_kept_names_nothing(words, task, fs, 0);
    assert(all.take(k.len() as int) =~= k);
    lemma_kept_prefix(all, k, task, fs, 0);
    let n = k.len() as int;
    if sv.1 {
        assert(all[n] == t[0]);
        assert(kept(all, task, fs, None, n + 1) =~= Seq::<Seq<char>>::empty());
    } else {
        assert(all[n] == sv.0);
        assert(all[n + 1] == first);
        assert(kept(all, task, fs, None, n + 2) =~= Seq::<Seq<char>>::empty());
    }
    assert(kept(all, task, fs, None, n) =~= Seq::<Seq<char>>::empty());
    assert(k.skip(0) =~= k);
    assert(k + Seq::<Seq<char>>::empty() =~= k);
}

/// What is kept names no session.
proof fn lemma_kept_names_nothing(words: Seq<Seq<char>>, task: Seq<char>, fs: Seq<Seq<char>>, i: int)
    ensures
        forall|j: int|
            0 <= j < kept(words, task, fs, None, i).len() ==> names_from(
                #[trigger] kept(words, task, fs, None, i)[j],
                fs,
                0,
            ) is None,
    decreases words.len() - i,
{
    if 0 <= i < words.len() {
        lemma_kept_names_nothing(words, task, fs, i + 1);
        if i + 1 < words.len() {
            lemma_kept_names_nothing(words, task, fs, i + 2);
        }
        let here = kept(words, task, fs, None, i);
        if !(i == words.len() - 1 && words[i] == task) && names_from(words[i], fs, 0) is None {
            let rest = kept(words, task, fs, None, i + 1);
            assert forall|j: int| 0 <= j < here.len() implies names_from(#[trigger] here[j], fs, 0)
                is None by {
                if j > 0 {
                    assert(here[j] == rest[j - 1]);
                }
            }
        }
    }
}

/// Over a command whose first words all name no session and whose end
/// follows them, keeping from any of those words keeps the rest of them, then
/// whatever the end keeps.
proof fn lemma_kept_prefix(
    all: Seq<Seq<char>>,
    k: Seq<Seq<char>>,
    task: Seq<char>,
    fs: Seq<Seq<char>>,
    i: int,
)
    requires
        0 <= i <= k.len() < all.len(),
        all.take(k.len() as int) == k,
        forall|j: int| 0 <= j < k.len() ==> names_from(#[trigger] k[j], fs, 0) is None,
    ensures
        kept(all, task, fs, None, i) == k.skip(i) + kept(all, task, fs, None, k.len() as int),
    decreases k.len() - i,
{
    if i < k.len() {
        lemma_kept_prefix(all, k, task, fs, i + 1);
        assert(all[i] == k[i]);
        assert(k.skip(i) =~= seq![k[i]] + k.skip(i + 1));
    } else {
        assert(k.skip(i) =~= Seq::<Seq<char>>::empty());
    }
}


/// The refusal for an agent that is going already: its record has not ended
/// and the pane it names is still there. Asked under the record's own lock,
/// so of two resumes racing the second reads what the first wrote.
pub open spec fn still_going_spec(phase: Phase, pane_alive: bool, id: Seq<char>) -> Option<Seq<char>> {
    if !terminal(phase) && pane_alive {
        Some(id + " is already going again"@)
    } else {
        None
    }
}

pub fn still_going(phase: Phase, pane_alive: bool, id: &str) -> (r: Option<String>)
    ensures
        r matches Some(s) ==> still_going_spec(phase, pane_alive, id@) == Some(s@),
        r is None ==> still_going_spec(phase, pane_alive, id@) is None,
{
    if !phase.is_terminal() && pane_alive {
        Some(text::joined(id, " is already going again"))
    } else {
        None
    }
}

/// The record of an agent brought back: everything the last turn left behind
/// goes with it — an answer from before it stopped is not this session's
/// answer, and an exit code is not how a running command ended — and the
/// count of messages sent stays, because the log it counts is still its own.
pub fn fresh_turn(state: &mut State)
    ensures
        fresh(State { seq: 0, ..*final(state) }),
        final(state).seq == old(state).seq,
{
    let seq = state.seq;
    *state = State { seq, ..State::default() };
}


/// What a resume of everything says where there is nothing to do.
pub const NOTHING_BACK: &'static str = "nothing to bring back";

/// The agents a resume of everything brings back, in the order they were
/// read: the stopped ones only. An agent that ran to the end of its command
/// has nothing outstanding.
pub open spec fn stopped_among(vs: Seq<Reading>, n: int) -> Seq<int>
    decreases n,
{
    if n <= 0 || n > vs.len() {
        seq![]
    } else if vs[n - 1].verdict.phase == Phase::Stopped {
        stopped_among(vs, n - 1).push(n - 1)
    } else {
        stopped_among(vs, n - 1)
    }
}

pub fn to_bring_back(vs: &Vec<Reading>) -> (r: Vec<usize>)
    ensures
        r@.map_values(|i: usize| i as int) == stopped_among(vs@, vs@.len() as int),
{
    let mut r: Vec<usize> = Vec::new();
    let mut i: usize = 0;
    while i < vs.len()
        invariant
            i <= vs.len(),
            r@.map_values(|k: usize| k as int) == stopped_among(vs@, i as int),
        decreases vs.len() - i,
    {
        if vs[i].verdict.phase == Phase::Stopped {
            let ghost before = r@.map_values(|k: usize| k as int);
            r.push(i);
            assert(r@.map_values(|k: usize| k as int) =~= before.push(i as int));
        }
        i += 1;
    }
    r
}

/// The door back is open only when every half is there: a session recorded
/// and in the shape of one, a handoff to start again from, a vendor that can
/// carry a session on, and room on the machine. Any one missing is a
/// refusal, and the first missing in that order is the one said.
pub proof fn only_an_agent_with_every_half_comes_back(
    m: Meta,
    present: bool,
    v: Option<Vendor>,
    live: nat,
    max: nat,
)
    ensures
        again_spec(m, present, v, live, max) is Ok <==> (to_continue_spec(m) is Ok && present
            && cannot_continue_spec(v, m.id@) is None && live < max),
        to_continue_spec(m) matches Err(e) ==> again_spec(m, present, v, live, max) == Err::<
            (),
            Seq<char>,
        >(e),
        to_continue_spec(m) is Ok && !present ==> again_spec(m, present, v, live, max) == Err::<
            (),
            Seq<char>,
        >(to_start_spec(present, v, m.id@)->0),
{
}

/// Anything that has not ended is already doing what a resume would start:
/// a resume of an agent that is starting, working, waiting on a question,
/// idle in its pane or in a phase nobody can read is refused with `BLOCKED`,
/// naming it and its phase, whatever room the machine has. Only an ended
/// agent can be refused for want of room, and an ended one on a machine with
/// room goes ahead.
pub proof fn only_an_ended_agent_is_resumed(phase: Phase, id: Seq<char>, live: nat, max: nat)
    ensures
        phase != Phase::Done && phase != Phase::Failed && phase != Phase::Stopped ==> refusal_spec(
            phase,
            id,
            live,
            max,
        ) == Some(
            "amx resume: "@ + id + " is "@ + phase_name(phase) + ". stop it before starting it again\n"@,
        ),
        refusal_spec(Phase::Idle, id, live, max) is Some,
        (phase == Phase::Done || phase == Phase::Failed || phase == Phase::Stopped) && live < max
            ==> refusal_spec(phase, id, live, max) is None,
        (phase == Phase::Done || phase == Phase::Failed || phase == Phase::Stopped) && live >= max
            ==> refusal_spec(phase, id, live, max) is Some,
{
    assert(("amx resume: "@ + id + " is "@ + phase_name(phase) + ". stop it before starting it again"@)
        + "\n"@ =~= "amx resume: "@ + id + " is "@ + phase_name(phase) + ". stop it before starting it again\n"@) by {
        reveal_strlit(". stop it before starting it again");
        reveal_strlit(". stop it before starting it again\n");
        reveal_strlit("\n");
    }
}

} // verus!
