//! `amx new` — start an agent on a task.
//!
//! Which vendor runs and where its dials are pointed is settled before
//! anything is made: a dial the vendor would not take is a malformed command
//! line, refused while the person who typed it is still there. A typed value
//! beats the config's, which beats the vendor's own behaviour, dial by dial;
//! a typed model picks the harness that lists it, asked in a fixed order.
use vstd::prelude::*;
use crate::exit;
use crate::store::Meta;
use crate::text::{self, debug_quoted, decimal, joined_with, words};
use crate::vendor::flags;
use crate::verbs::resume::{program, program_of};

verus! {

/// The word for passing no value at all: the dial is left where the vendor's
/// own configuration puts it.
pub const DEFAULT: &'static str = "default";

/// One dial a vendor takes: the flag that turns it, the values it cycles
/// through, and whether it takes values the cycle never names.
#[derive(Debug, Clone, PartialEq, Eq)]
pub struct Dial {
    pub flag: String,
    pub cycle: Vec<String>,
    pub open: bool,
}

/// Whether the vendor takes this value on this dial: an open dial takes any,
/// and a closed one its cycle.
pub open spec fn accepts(d: Dial, v: Seq<char>) -> bool {
    d.open || flags(d.cycle).contains(v)
}

fn accepting(d: &Dial, v: &str) -> (b: bool)
    ensures
        b == accepts(*d, v@),
{
    if d.open {
        return true;
    }
    let mut i: usize = 0;
    while i < d.cycle.len()
        invariant
            i <= d.cycle.len(),
            forall|j: int| 0 <= j < i ==> flags(d.cycle)[j] != v@,
        decreases d.cycle.len() - i,
    {
        if text::same_text(d.cycle[i].as_str(), v) {
            assert(flags(d.cycle)[i as int] == v@);
            return true;
        }
        i += 1;
    }
    false
}

/// Where a harness's list of models comes from: a list the table holds, or
/// the argv that has the vendor print one.
#[derive(Debug, Clone, PartialEq, Eq)]
pub enum Listing {
    Held(Vec<String>),
    Printed(Vec<String>),
}

/// One harness amx has an entry for, as starting an agent reads it.
#[derive(Debug, Clone, PartialEq, Eq)]
pub struct Harness {
    pub name: String,
    pub model: Option<Dial>,
    pub permission: Option<Dial>,
    pub effort: Option<Dial>,
    pub listing: Listing,
    /// The flag that has the vendor open a session under an id amx mints.
    pub start: Option<String>,
    /// The flag that answers the folder-trust question on the argv.
    pub trust_flag: Option<String>,
}

/// What the config says about one harness: the models it lists for it and
/// the arguments every agent on it carries.
#[derive(Debug, Clone, PartialEq, Eq)]
pub struct HarnessKeys {
    pub name: String,
    pub models: Vec<String>,
    pub args: Vec<String>,
}

/// The config keys a spawn is resolved against.
#[derive(Debug, Clone, PartialEq, Eq)]
pub struct Config {
    /// The command the configured agent runs.
    pub agent: String,
    pub model: Option<String>,
    pub permission: Option<String>,
    pub effort: Option<String>,
    pub harnesses: Vec<HarnessKeys>,
}

/// What the caller typed about the agent: `--agent`, and the three dials.
#[derive(Debug, Clone, PartialEq, Eq)]
pub struct Named {
    pub command: Option<String>,
    pub model: Option<String>,
    pub permission: Option<String>,
    pub effort: Option<String>,
}

/// Where the three dials are pointed for one agent.
#[derive(Debug, Clone, PartialEq, Eq)]
pub struct Dials {
    pub model: String,
    pub permission: String,
    pub effort: String,
}

pub open spec fn dials_view(d: Dials) -> (Seq<char>, Seq<char>, Seq<char>) {
    (d.model@, d.permission@, d.effort@)
}

impl Default for Dials {
    /// Every dial left to the vendor.
    fn default() -> (d: Dials)
        ensures
            dials_view(d) == (DEFAULT@, DEFAULT@, DEFAULT@),
    {
        Dials { model: DEFAULT.to_string(), permission: DEFAULT.to_string(), effort: DEFAULT.to_string() }
    }
}

/// What a spawn launches: the vendor's command, and its dials.
#[derive(Debug, Clone, PartialEq, Eq)]
pub struct Launch {
    pub agent: String,
    pub dials: Dials,
}

/// One step of settling a launch: done, refused, or a harness whose printed
/// list of models has to be read before the answer can be given. A listing
/// is asked for only when the harnesses asked before it have not answered.
#[derive(Debug, Clone, PartialEq, Eq)]
pub enum Step<T> {
    Done(T),
    Refused(String),
    List(usize),
}

// ---- the program a command runs, and the table's entry for it ----

/// The name a command line runs: its first word after the last `/`.
pub open spec fn program_spec(agent: Seq<char>) -> Seq<char> {
    program_of(words(agent))
}

pub fn program_name(agent: &str) -> (s: String)
    ensures
        s@ == program_spec(agent@),
{
    let w = text::words_of(agent);
    program(&w)
}

/// The first entry at or after `i` under `name`.
pub open spec fn entry_of(table: Seq<Harness>, name: Seq<char>, i: int) -> Option<int>
    decreases table.len() - i,
{
    if i < 0 || i >= table.len() {
        None
    } else if table[i].name@ == name {
        Some(i)
    } else {
        entry_of(table, name, i + 1)
    }
}

/// The table's entry for the program a command runs.
pub open spec fn entry_spec(table: Seq<Harness>, agent: Seq<char>) -> Option<int> {
    entry_of(table, program_spec(agent), 0)
}

fn find_entry(table: &Vec<Harness>, name: &str) -> (r: Option<usize>)
    ensures
        r matches Some(i) ==> entry_of(table@, name@, 0) == Some(i as int) && i < table.len(),
        r is None ==> entry_of(table@, name@, 0) is None,
{
    let mut i: usize = 0;
    while i < table.len()
        invariant
            i <= table.len(),
            entry_of(table@, name@, 0) == entry_of(table@, name@, i as int),
        decreases table.len() - i,
    {
        if text::same_text(table[i].name.as_str(), name) {
            return Some(i);
        }
        i += 1;
    }
    None
}

pub fn entry(table: &Vec<Harness>, agent: &str) -> (r: Option<usize>)
    ensures
        r matches Some(i) ==> entry_spec(table@, agent@) == Some(i as int) && i < table.len(),
        r is None ==> entry_spec(table@, agent@) is None,
{
    let p = program_name(agent);
    find_entry(table, p.as_str())
}

// ---- what the config says about a harness ----

pub open spec fn keys_of(cs: Seq<HarnessKeys>, name: Seq<char>, i: int) -> Option<int>
    decreases cs.len() - i,
{
    if i < 0 || i >= cs.len() {
        None
    } else if cs[i].name@ == name {
        Some(i)
    } else {
        keys_of(cs, name, i + 1)
    }
}

/// The models the config lists for a harness, none where it says nothing.
pub open spec fn conf_models(c: Config, name: Seq<char>) -> Seq<Seq<char>> {
    match keys_of(c.harnesses@, name, 0) {
        Some(i) => flags(c.harnesses@[i].models),
        None => seq![],
    }
}

/// The arguments the config has every agent on a harness carry.
pub open spec fn conf_args(c: Config, name: Seq<char>) -> Seq<Seq<char>> {
    match keys_of(c.harnesses@, name, 0) {
        Some(i) => flags(c.harnesses@[i].args),
        None => seq![],
    }
}

fn find_keys(cs: &Vec<HarnessKeys>, name: &str) -> (r: Option<usize>)
    ensures
        r matches Some(i) ==> keys_of(cs@, name@, 0) == Some(i as int) && i < cs.len(),
        r is None ==> keys_of(cs@, name@, 0) is None,
{
    let mut i: usize = 0;
    while i < cs.len()
        invariant
            i <= cs.len(),
            keys_of(cs@, name@, 0) == keys_of(cs@, name@, i as int),
        decreases cs.len() - i,
    {
        if text::same_text(cs[i].name.as_str(), name) {
            return Some(i);
        }
        i += 1;
    }
    None
}

// ---- the arguments a harness carries ----

/// The arguments not already among the command's own words, in order.
pub open spec fn not_carried(args: Seq<Seq<char>>, carried: Seq<Seq<char>>) -> Seq<Seq<char>>
    decreases args.len(),
{
    if args.len() == 0 {
        seq![]
    } else if carried.contains(args.last()) {
        not_carried(args.drop_last(), carried)
    } else {
        not_carried(args.drop_last(), carried).push(args.last())
    }
}

/// The command with whatever the config says its harness always carries, a
/// word the command already carries not written twice.
pub open spec fn carrying_spec(c: Config, agent: Seq<char>) -> Seq<char> {
    let extra = not_carried(conf_args(c, program_spec(agent)), words(agent));
    if extra.len() == 0 {
        agent
    } else {
        agent + " "@ + joined_with(extra, " "@)
    }
}

fn contains_word(ws: &Vec<String>, w: &String) -> (b: bool)
    ensures
        b == flags(*ws).contains(w@),
{
    let mut i: usize = 0;
    while i < ws.len()
        invariant
            i <= ws.len(),
            forall|j: int| 0 <= j < i ==> flags(*ws)[j] != w@,
        decreases ws.len() - i,
    {
        if text::same_text(ws[i].as_str(), w.as_str()) {
            assert(flags(*ws)[i as int] == w@);
            return true;
        }
        i += 1;
    }
    false
}

pub fn carrying(c: &Config, agent: &str) -> (r: String)
    ensures
        r@ == carrying_spec(*c, agent@),
{
    let p = program_name(agent);
    let carried = text::words_of(agent);
    let mut extra: Vec<String> = Vec::new();
    match find_keys(&c.harnesses, p.as_str()) {
        Some(k) => {
            let args = &c.harnesses[k].args;
            let mut i: usize = 0;
            while i < args.len()
                invariant
                    i <= args.len(),
                    args == c.harnesses@[k as int].args,
                    flags(carried) == words(agent@),
                    flags(extra) == not_carried(flags(*args).take(i as int), words(agent@)),
                decreases args.len() - i,
            {
                assert(flags(*args).take(i + 1).drop_last() =~= flags(*args).take(i as int));
                let ghost before = flags(extra);
                if !contains_word(&carried, &args[i]) {
                    extra.push(args[i].clone());
                    assert(flags(extra) =~= before.push(flags(*args)[i as int]));
                }
                i += 1;
            }
            assert(flags(*args).take(args.len() as int) =~= flags(*args));
        },
        None => {
            assert(flags(extra) =~= Seq::<Seq<char>>::empty());
        },
    }
    if extra.len() == 0 {
        agent.to_string()
    } else {
        let mut s = text::joined(agent, " ");
        let tail = text::join(&extra, " ");
        s.append(tail.as_str());
        s
    }
}

// ---- the harnesses a typed model is asked of ----

/// Every entry from `i` on whose name is not the configured one's.
pub open spec fn others(table: Seq<Harness>, skip: Option<Seq<char>>, i: int) -> Seq<int>
    decreases table.len() - i,
{
    if i < 0 || i >= table.len() {
        seq![]
    } else if skip == Some(table[i].name@) {
        others(table, skip, i + 1)
    } else {
        seq![i] + others(table, skip, i + 1)
    }
}

/// Every harness there is, the configured one first and the rest in the
/// order the table holds them.
pub open spec fn asked_spec(table: Seq<Harness>, agent: Seq<char>) -> Seq<int> {
    match entry_spec(table, agent) {
        Some(c) => seq![c] + others(table, Some(table[c].name@), 0),
        None => others(table, None, 0),
    }
}

pub fn asked(table: &Vec<Harness>, agent: &str) -> (r: Vec<usize>)
    ensures
        r@.map_values(|i: usize| i as int) == asked_spec(table@, agent@),
        forall|k: int| 0 <= k < r@.len() ==> r@[k] < table.len(),
{
    let configured = entry(table, agent);
    let mut r: Vec<usize> = Vec::new();
    let ghost skip: Option<Seq<char>> = match configured {
        Some(c) => Some(table@[c as int].name@),
        None => None,
    };
    match configured {
        Some(c) => {
            r.push(c);
        },
        None => {},
    }
    let ghost head = r@.map_values(|i: usize| i as int);
    let mut i: usize = table.len();
    proof {
        assert(others(table@, skip, table.len() as int) =~= Seq::<int>::empty());
    }
    let mut tail: Vec<usize> = Vec::new();
    while i > 0
        invariant
            i <= table.len(),
            skip == match configured {
                Some(c) => Some(table@[c as int].name@),
                None => None,
            },
            configured matches Some(c) ==> c < table.len(),
            tail@.map_values(|k: usize| k as int) == others(table@, skip, i as int),
            forall|k: int| 0 <= k < tail@.len() ==> tail@[k] < table.len(),
        decreases i,
    {
        i -= 1;
        let same = match configured {
            Some(c) => text::same_text(table[c].name.as_str(), table[i].name.as_str()),
            None => false,
        };
        if !same {
            let ghost t = tail@.map_values(|k: usize| k as int);
            tail.insert(0, i);
            assert(tail@.map_values(|k: usize| k as int) =~= seq![i as int] + t);
        }
    }
    let mut k: usize = 0;
    while k < tail.len()
        invariant
            k <= tail.len(),
            r@.map_values(|x: usize| x as int) == head + tail@.map_values(|x: usize| x as int).take(k as int),
            forall|j: int| 0 <= j < r@.len() ==> r@[j] < table.len(),
            forall|j: int| 0 <= j < tail@.len() ==> tail@[j] < table.len(),
        decreases tail.len() - k,
    {
        let ghost before = r@.map_values(|x: usize| x as int);
        r.push(tail[k]);
        assert(r@.map_values(|x: usize| x as int) =~= before.push(tail@[k as int] as int));
        assert(tail@.map_values(|x: usize| x as int).take(k + 1) =~= tail@.map_values(
            |x: usize| x as int,
        ).take(k as int).push(tail@[k as int] as int));
        k += 1;
    }
    assert(tail@.map_values(|x: usize| x as int).take(tail.len() as int) =~= tail@.map_values(
        |x: usize| x as int,
    ));
    r
}


// ---- the harness a typed model belongs to ----

/// Whether an entry of a list names the model: it is the word, or the word
/// is what follows a provider's `/` in it.
pub open spec fn names_model(e: Seq<char>, model: Seq<char>) -> bool {
    e == model || (e.len() > model.len() && e[e.len() - model.len() - 1] == '/' && e.skip(
        e.len() - model.len(),
    ) == model)
}

pub open spec fn lists_model(list: Seq<Seq<char>>, model: Seq<char>) -> bool {
    exists|k: int| 0 <= k < list.len() && names_model(#[trigger] list[k], model)
}

fn naming(e: &str, model: &str) -> (b: bool)
    ensures
        b == names_model(e@, model@),
{
    if text::same_text(e, model) {
        return true;
    }
    let v = text::chars_of(e);
    let m = text::chars_of(model);
    if v.len() <= m.len() {
        return false;
    }
    let at = v.len() - m.len();
    if v[at - 1] != '/' {
        return false;
    }
    let mut k: usize = 0;
    while k < m.len()
        invariant
            at + m.len() == v.len(),
            1 <= at,
            k <= m.len(),
            v@ == e@,
            m@ == model@,
            forall|j: int| 0 <= j < k ==> v@[at + j] == m@[j],
        decreases m.len() - k,
    {
        if v[at + k] != m[k] {
            assert(e@.skip(at as int)[k as int] != model@[k as int]);
            return false;
        }
        k += 1;
    }
    assert(e@.skip(at as int) =~= model@);
    true
}

fn listing_names(list: &Vec<String>, model: &str) -> (b: bool)
    ensures
        b == lists_model(flags(*list), model@),
{
    let mut k: usize = 0;
    while k < list.len()
        invariant
            k <= list.len(),
            forall|j: int| 0 <= j < k ==> !names_model(#[trigger] flags(*list)[j], model@),
        decreases list.len() - k,
    {
        if naming(list[k].as_str(), model) {
            assert(names_model(flags(*list)[k as int], model@));
            return true;
        }
        k += 1;
    }
    false
}

/// The list a harness is asked with: the config's where it lists models for
/// it, else the table's own, else what the vendor printed where it has been
/// run — and nothing yet where it has not.
pub open spec fn listing_of(h: Harness, cm: Seq<Seq<char>>, got: Option<Vec<String>>) -> Option<Seq<Seq<char>>> {
    if cm.len() > 0 {
        Some(cm)
    } else {
        match h.listing {
            Listing::Held(l) => Some(flags(l)),
            Listing::Printed(_) => match got {
                Some(l) => Some(flags(l)),
                None => None,
            },
        }
    }
}

/// What a harness takes, for a refusal to name: the words where amx holds
/// the list, and how many and what prints them where the vendor holds it.
pub open spec fn takes_spec(h: Harness, cm_empty: bool, list: Seq<Seq<char>>) -> Seq<char> {
    match h.listing {
        Listing::Printed(argv) => if cm_empty {
            h.name@ + " takes "@ + decimal(list.len()) + " models ("@ + h.name@ + " "@ + joined_with(
                flags(argv),
                " "@,
            ) + ")"@
        } else {
            h.name@ + " takes "@ + joined_with(list, ", "@)
        },
        Listing::Held(_) => h.name@ + " takes "@ + joined_with(list, ", "@),
    }
}

pub fn takes(h: &Harness, cm_empty: bool, list: &Vec<String>) -> (s: String)
    ensures
        s@ == takes_spec(*h, cm_empty, flags(*list)),
{
    let mut s = text::joined(h.name.as_str(), " takes ");
    match &h.listing {
        Listing::Printed(argv) => {
            if cm_empty {
                let n = text::number(list.len() as u64);
                s.append(n.as_str());
                s.append(" models (");
                s.append(h.name.as_str());
                s.append(" ");
                let a = text::join(argv, " ");
                s.append(a.as_str());
                s.append(")");
                return s;
            }
        },
        Listing::Held(_) => {},
    }
    let l = text::join(list, ", ");
    s.append(l.as_str());
    s
}

/// Asking the harnesses in `order` from position `k`: the first whose list
/// names the model (`Ok((true, i))`), the first whose list is still to be
/// read (`Ok((false, i))`), or what each of them takes.
pub open spec fn hunt(
    table: Seq<Harness>,
    c: Config,
    got: Seq<Option<Vec<String>>>,
    model: Seq<char>,
    order: Seq<int>,
    k: int,
) -> Result<(bool, int), Seq<Seq<char>>>
    decreases order.len() - k,
{
    if k < 0 || k >= order.len() {
        Err(seq![])
    } else {
        let i = order[k];
        let cm = conf_models(c, table[i].name@);
        match listing_of(table[i], cm, got[i]) {
            None => Ok((false, i)),
            Some(l) => if lists_model(l, model) {
                Ok((true, i))
            } else {
                match hunt(table, c, got, model, order, k + 1) {
                    Err(rest) => Err(seq![takes_spec(table[i], cm.len() == 0, l)] + rest),
                    Ok(found) => Ok(found),
                }
            },
        }
    }
}

/// The harness a typed model belongs to, asked configured first and then in
/// the table's order; refused naming what each of them takes.
pub open spec fn harness_for_spec(
    table: Seq<Harness>,
    c: Config,
    got: Seq<Option<Vec<String>>>,
    model: Seq<char>,
) -> Result<(bool, int), Seq<char>> {
    match hunt(table, c, got, model, asked_spec(table, c.agent@), 0) {
        Ok(found) => Ok(found),
        Err(said) => Err("--model "@ + debug_quoted(model) + ": "@ + joined_with(said, "; "@)),
    }
}

fn models_for(c: &Config, name: &str) -> (r: Vec<String>)
    ensures
        flags(r) == conf_models(*c, name@),
{
    match find_keys(&c.harnesses, name) {
        Some(k) => c.harnesses[k].models.clone(),
        None => {
            let r: Vec<String> = Vec::new();
            assert(flags(r) =~= Seq::<Seq<char>>::empty());
            r
        },
    }
}

pub fn harness_for(table: &Vec<Harness>, c: &Config, got: &Vec<Option<Vec<String>>>, model: &str) -> (r: Result<(bool, usize), String>)
    requires
        got.len() == table.len(),
    ensures
        r matches Ok((f, i)) ==> harness_for_spec(table@, *c, got@, model@) == Ok::<(bool, int), Seq<char>>((f, i as int)) && i < table.len(),
        r matches Err(e) ==> harness_for_spec(table@, *c, got@, model@) == Err::<(bool, int), Seq<char>>(e@),
{
    let order = asked(table, c.agent.as_str());
    let ghost ord = order@.map_values(|i: usize| i as int);
    let mut said: Vec<String> = Vec::new();
    let mut k: usize = 0;
    while k < order.len()
        invariant
            k <= order.len(),
            got.len() == table.len(),
            ord == order@.map_values(|i: usize| i as int),
            ord == asked_spec(table@, c.agent@),
            forall|j: int| 0 <= j < order@.len() ==> order@[j] < table.len(),
            hunt(table@, *c, got@, model@, ord, 0) == match hunt(table@, *c, got@, model@, ord, k as int) {
                Err(rest) => Err(flags(said) + rest),
                Ok(found) => Ok(found),
            },
        decreases order.len() - k,
    {
        let i = order[k];
        let cm = models_for(c, table[i].name.as_str());
        let list: Vec<String> = if cm.len() > 0 {
            cm.clone()
        } else {
            match &table[i].listing {
                Listing::Held(l) => l.clone(),
                Listing::Printed(_) => match &got[i] {
                    Some(l) => l.clone(),
                    None => {
                        return Ok((false, i));
                    },
                },
            }
        };
        assert(listing_of(table@[i as int], flags(cm), got@[i as int]) == Some(flags(list)));
        if listing_names(&list, model) {
            return Ok((true, i));
        }
        let t = takes(&table[i], cm.len() == 0, &list);
        let ghost before = flags(said);
        said.push(t);
        proof {
            assert(flags(said) =~= before.push(t@));
            assert forall|rest: Seq<Seq<char>>| #![trigger before.push(t@) + rest]
                before.push(t@) + rest =~= before + (seq![t@] + rest) by {}
        }
        k += 1;
    }
    let shown = text::quoted(model);
    assert(flags(said) + Seq::<Seq<char>>::empty() =~= flags(said));
    Err(refused_model(shown.as_str(), &said))
}


// ---- the launch ----

pub open spec fn opt(v: Option<String>) -> Option<Seq<char>> {
    match v {
        Some(s) => Some(s@),
        None => None,
    }
}

/// The command a spawn that named no agent runs: the harness the typed
/// model belongs to, else the configured agent as it stands. The sentinel is
/// nobody's model, and an agent amx has no entry for offers nothing to
/// compare against, so neither asks any harness. The configured command
/// stands where the harness is the one it runs, because it is how somebody
/// said how that one is run here; another harness is run by its bare name.
pub open spec fn picked_spec(
    table: Seq<Harness>,
    c: Config,
    got: Seq<Option<Vec<String>>>,
    model: Option<Seq<char>>,
) -> Result<Result<Seq<char>, int>, Seq<char>> {
    match model {
        None => Ok(Ok(c.agent@)),
        Some(m) => if m == DEFAULT@ || entry_spec(table, c.agent@) is None {
            Ok(Ok(c.agent@))
        } else {
            match harness_for_spec(table, c, got, m) {
                Err(e) => Err(e),
                Ok((found, i)) => if !found {
                    Ok(Err(i))
                } else if program_spec(c.agent@) == table[i].name@ {
                    Ok(Ok(c.agent@))
                } else {
                    Ok(Ok(table[i].name@))
                },
            }
        },
    }
}

pub fn picked(table: &Vec<Harness>, c: &Config, got: &Vec<Option<Vec<String>>>, model: Option<&str>) -> (r: Step<String>)
    requires
        got.len() == table.len(),
    ensures
        step_view(r) == picked_spec(
            table@,
            *c,
            got@,
            match model {
                Some(m) => Some(m@),
                None => None,
            },
        ),
{
    let m = match model {
        None => {
            return Step::Done(c.agent.clone());
        },
        Some(m) => m,
    };
    if text::same_text(m, DEFAULT) {
        return Step::Done(c.agent.clone());
    }
    if entry(table, c.agent.as_str()).is_none() {
        return Step::Done(c.agent.clone());
    }
    match harness_for(table, c, got, m) {
        Err(e) => Step::Refused(e),
        Ok((found, i)) => {
            if !found {
                Step::List(i)
            } else {
                let p = program_name(c.agent.as_str());
                if text::same_text(p.as_str(), table[i].name.as_str()) {
                    Step::Done(c.agent.clone())
                } else {
                    Step::Done(table[i].name.clone())
                }
            }
        },
    }
}

pub open spec fn step_view(s: Step<String>) -> Result<Result<Seq<char>, int>, Seq<char>> {
    match s {
        Step::Done(a) => Ok(Ok(a@)),
        Step::List(i) => Ok(Err(i as int)),
        Step::Refused(e) => Err(e@),
    }
}

/// One dial: what was typed, where the vendor takes it, else refused in the
/// words of what it does take; else what the config holds, where the vendor
/// takes that, and dropped quietly where it does not — a file outlives the
/// versions that wrote it; else the vendor's own.
pub open spec fn dial_spec(
    key: Seq<char>,
    d: Option<Dial>,
    typed: Option<Seq<char>>,
    held: Option<Seq<char>>,
    prog: Seq<char>,
) -> Result<Seq<char>, Seq<char>> {
    match typed {
        Some(v) => match d {
            Some(dial) => if accepts(dial, v) {
                Ok(v)
            } else {
                Err(
                    "--"@ + key + " "@ + debug_quoted(v) + ": "@ + prog + " takes "@ + joined_with(
                        flags(dial.cycle),
                        ", "@,
                    ),
                )
            },
            None => Err("--"@ + key + " "@ + debug_quoted(v) + ": "@ + "amx knows no "@ + key + " dial for "@ + prog),
        },
        None => match (held, d) {
            (Some(v), Some(dial)) => if accepts(dial, v) {
                Ok(v)
            } else {
                Ok(DEFAULT@)
            },
            _ => Ok(DEFAULT@),
        },
    }
}

/// The refusal of a typed dial value, with the value as `{:?}` shows it
/// (`shown`): what the vendor takes on that dial where it has one, and that
/// amx knows no such dial for the program where it does not.
pub open spec fn refused_dial_spec(key: Seq<char>, shown: Seq<char>, prog: Seq<char>, cycle: Option<Seq<Seq<char>>>) -> Seq<char> {
    match cycle {
        Some(all) => "--"@ + key + " "@ + shown + ": "@ + prog + " takes "@ + joined_with(all, ", "@),
        None => "--"@ + key + " "@ + shown + ": "@ + "amx knows no "@ + key + " dial for "@ + prog,
    }
}

pub fn refused_dial(key: &str, shown: &str, prog: &str, cycle: Option<&Vec<String>>) -> (e: String)
    ensures
        e@ == refused_dial_spec(
            key@,
            shown@,
            prog@,
            match cycle {
                Some(c) => Some(flags(*c)),
                None => None,
            },
        ),
{
    let mut e = text::joined("--", key);
    e.append(" ");
    e.append(shown);
    e.append(": ");
    match cycle {
        Some(all) => {
            e.append(prog);
            e.append(" takes ");
            let j = text::join(all, ", ");
            e.append(j.as_str());
        },
        None => {
            e.append("amx knows no ");
            e.append(key);
            e.append(" dial for ");
            e.append(prog);
        },
    }
    e
}

/// The refusal of a typed model no harness lists, with the model as `{:?}`
/// shows it and what each harness takes.
pub open spec fn refused_model_spec(shown: Seq<char>, said: Seq<Seq<char>>) -> Seq<char> {
    "--model "@ + shown + ": "@ + joined_with(said, "; "@)
}

pub fn refused_model(shown: &str, said: &Vec<String>) -> (e: String)
    ensures
        e@ == refused_model_spec(shown@, flags(*said)),
{
    let mut e = text::joined("--model ", shown);
    e.append(": ");
    let j = text::join(said, "; ");
    e.append(j.as_str());
    e
}

fn dial(key: &str, d: &Option<Dial>, typed: &Option<String>, held: &Option<String>, prog: &str) -> (r: Result<String, String>)
    ensures
        r matches Ok(v) ==> dial_spec(key@, *d, opt(*typed), opt(*held), prog@) == Ok::<Seq<char>, Seq<char>>(v@),
        r matches Err(e) ==> dial_spec(key@, *d, opt(*typed), opt(*held), prog@) == Err::<Seq<char>, Seq<char>>(e@),
{
    match typed {
        Some(v) => {
            let q = text::quoted(v.as_str());
            match d {
                Some(spec) => {
                    if accepting(spec, v.as_str()) {
                        return Ok(v.clone());
                    }
                    Err(refused_dial(key, q.as_str(), prog, Some(&spec.cycle)))
                },
                None => Err(refused_dial(key, q.as_str(), prog, None)),
            }
        },
        None => match (held, d) {
            (Some(v), Some(spec)) => {
                if accepting(spec, v.as_str()) {
                    Ok(v.clone())
                } else {
                    Ok(DEFAULT.to_string())
                }
            },
            _ => Ok(DEFAULT.to_string()),
        },
    }
}

pub open spec fn model_dial(table: Seq<Harness>, e: Option<int>) -> Option<Dial> {
    match e {
        Some(i) => table[i].model,
        None => None,
    }
}

pub open spec fn permission_dial(table: Seq<Harness>, e: Option<int>) -> Option<Dial> {
    match e {
        Some(i) => table[i].permission,
        None => None,
    }
}

pub open spec fn effort_dial(table: Seq<Harness>, e: Option<int>) -> Option<Dial> {
    match e {
        Some(i) => table[i].effort,
        None => None,
    }
}

/// What this spawn launches: the vendor settled first — what was typed,
/// else the harness the typed model picks, else the configured agent — with
/// the arguments its harness always carries; then each dial against that
/// vendor's entry, model, permission and effort in turn, the first refusal
/// being the answer.
pub open spec fn resolve_spec(
    table: Seq<Harness>,
    c: Config,
    got: Seq<Option<Vec<String>>>,
    n: Named,
) -> Result<Result<(Seq<char>, (Seq<char>, Seq<char>, Seq<char>)), int>, Seq<char>> {
    let chosen = match n.command {
        Some(cmd) => Ok(Ok(cmd@)),
        None => picked_spec(table, c, got, opt(n.model)),
    };
    match chosen {
        Err(e) => Err(e),
        Ok(Err(i)) => Ok(Err(i)),
        Ok(Ok(a0)) => {
            let agent = carrying_spec(c, a0);
            let e = entry_spec(table, agent);
            let prog = program_spec(agent);
            match dial_spec("model"@, model_dial(table, e), opt(n.model), opt(c.model), prog) {
                Err(x) => Err(x),
                Ok(m) => match dial_spec(
                    "permission"@,
                    permission_dial(table, e),
                    opt(n.permission),
                    opt(c.permission),
                    prog,
                ) {
                    Err(x) => Err(x),
                    Ok(p) => match dial_spec("effort"@, effort_dial(table, e), opt(n.effort), opt(c.effort), prog) {
                        Err(x) => Err(x),
                        Ok(f) => Ok(Ok((agent, (m, p, f)))),
                    },
                },
            }
        },
    }
}

pub open spec fn launch_view(s: Step<Launch>) -> Result<Result<(Seq<char>, (Seq<char>, Seq<char>, Seq<char>)), int>, Seq<char>> {
    match s {
        Step::Done(l) => Ok(Ok((l.agent@, dials_view(l.dials)))),
        Step::List(i) => Ok(Err(i as int)),
        Step::Refused(e) => Err(e@),
    }
}

pub fn resolve(table: &Vec<Harness>, c: &Config, got: &Vec<Option<Vec<String>>>, n: &Named) -> (r: Step<Launch>)
    requires
        got.len() == table.len(),
    ensures
        launch_view(r) == resolve_spec(table@, *c, got@, *n),
{
    let a0 = match &n.command {
        Some(cmd) => cmd.clone(),
        None => {
            let model = match &n.model {
                Some(m) => Some(m.as_str()),
                None => None,
            };
            match picked(table, c, got, model) {
                Step::Done(a) => a,
                Step::Refused(e) => {
                    return Step::Refused(e);
                },
                Step::List(i) => {
                    return Step::List(i);
                },
            }
        },
    };
    let agent = carrying(c, a0.as_str());
    let e = entry(table, agent.as_str());
    let prog = program_name(agent.as_str());
    let none: Option<Dial> = None;
    let (md, pd, ed) = match e {
        Some(i) => (&table[i].model, &table[i].permission, &table[i].effort),
        None => (&none, &none, &none),
    };
    let m = match dial("model", md, &n.model, &c.model, prog.as_str()) {
        Err(x) => {
            return Step::Refused(x);
        },
        Ok(v) => v,
    };
    let p = match dial("permission", pd, &n.permission, &c.permission, prog.as_str()) {
        Err(x) => {
            return Step::Refused(x);
        },
        Ok(v) => v,
    };
    let f = match dial("effort", ed, &n.effort, &c.effort, prog.as_str()) {
        Err(x) => {
            return Step::Refused(x);
        },
        Ok(v) => v,
    };
    Step::Done(Launch { agent, dials: Dials { model: m, permission: p, effort: f } })
}


// ---- what the record says about the launch ----

/// The vendor the record names: the command this spawn resolved, and none
/// for a command spawn, which runs no vendor.
pub fn vendor_written(exec: bool, agent: &str) -> (r: Option<String>)
    ensures
        r matches Some(a) ==> !exec && a@ == agent@,
        r is None ==> exec,
{
    if exec {
        None
    } else {
        Some(agent.to_string())
    }
}

/// The session the record names from the start: the id amx minted, where a
/// vendor that declares a start flag opens under it.
pub fn session_written(exec: bool, opens_under_id: bool, id: &str) -> (r: Option<String>)
    ensures
        r matches Some(s) ==> !exec && opens_under_id && s@ == id@,
        r is None ==> exec || !opens_under_id,
{
    if !exec && opens_under_id {
        Some(id.to_string())
    } else {
        None
    }
}

/// A dial as the record keeps it: the value it was turned to, and none for a
/// dial left to the vendor, whose value only the vendor knows.
pub fn dial_written(exec: bool, dial: &str) -> (r: Option<String>)
    ensures
        r matches Some(d) ==> !exec && d@ == dial@ && dial@ != DEFAULT@,
        r is None ==> exec || dial@ == DEFAULT@,
{
    if !exec && !text::same_text(dial, DEFAULT) {
        Some(dial.to_string())
    } else {
        None
    }
}

// ---- the tree ----

/// What the tree is cut from: the ref this spawn was given, else the one the
/// config holds, else nothing, which is the commit checked out where `new`
/// was typed.
pub fn cut_from<'a>(flag: Option<&'a str>, key: Option<&'a str>) -> (r: Option<&'a str>)
    ensures
        r == match flag {
            Some(f) => Some(f),
            None => key,
        },
{
    match flag {
        Some(f) => Some(f),
        None => key,
    }
}

/// How a tree is cut for this spawn.
#[derive(Debug, Clone, PartialEq, Eq)]
pub enum Cut {
    /// On the head of a request, fetched from the origin.
    Request(u64),
    /// On a branch this checkout or the origin already has.
    Branch(String),
    /// A new branch from this ref, or from what is checked out.
    Base(Option<String>),
}

/// Whether this spawn gets a tree of its own at all: never for a command,
/// never where nobody wants one, and whatever the key says where a request
/// or a branch was named, which there is no working on without a checkout.
pub open spec fn wants_tree_spec(exec: bool, no_worktree: bool, worktrees: bool, pr: Option<u64>, branch: Option<Seq<char>>) -> bool {
    !(exec || no_worktree || (!worktrees && pr is None && branch is None))
}

pub fn wants_tree(exec: bool, no_worktree: bool, worktrees: bool, pr: Option<u64>, branch: Option<&str>) -> (b: bool)
    ensures
        b == wants_tree_spec(
            exec,
            no_worktree,
            worktrees,
            pr,
            match branch {
                Some(x) => Some(x@),
                None => None,
            },
        ),
{
    !(exec || no_worktree || (!worktrees && pr.is_none() && branch.is_none()))
}

/// The tree a spawn that wants one gets: refused where `dir` is no directory,
/// and where a request or a branch was named outside a repository; nothing
/// where there is no repository and nothing was named; else the request, the
/// branch, or a new branch from the base, in that order.
pub open spec fn cut_spec(
    pr: Option<u64>,
    branch: Option<Seq<char>>,
    base: Option<Seq<char>>,
    dir: Seq<char>,
    is_dir: bool,
    in_repo: bool,
) -> Result<Option<(u8, Seq<char>)>, Seq<char>> {
    if !is_dir {
        Err(dir + " is not a directory to run in"@)
    } else if !in_repo {
        match (pr, branch) {
            (Some(n), _) => Err("--pr "@ + decimal(n as nat) + ": "@ + dir + " is in no repository"@),
            (None, Some(b)) => Err("--branch "@ + b + ": "@ + dir + " is in no repository"@),
            _ => Ok(None),
        }
    } else {
        match (pr, branch) {
            (Some(n), _) => Ok(Some((0, decimal(n as nat)))),
            (None, Some(b)) => Ok(Some((1, b))),
            _ => Ok(Some((
                2,
                match base {
                    Some(x) => x,
                    None => seq![],
                },
            ))),
        }
    }
}

pub open spec fn cut_view(c: Cut) -> (u8, Seq<char>) {
    match c {
        Cut::Request(n) => (0, decimal(n as nat)),
        Cut::Branch(b) => (1, b@),
        Cut::Base(x) => (2, match x {
            Some(r) => r@,
            None => seq![],
        }),
    }
}

pub fn cut_plan(pr: Option<u64>, branch: Option<&str>, base: Option<&str>, dir: &str, is_dir: bool, in_repo: bool) -> (r: Result<Option<Cut>, String>)
    ensures
        r matches Ok(Some(c)) ==> cut_spec(
            pr,
            match branch {
                Some(x) => Some(x@),
                None => None,
            },
            match base {
                Some(x) => Some(x@),
                None => None,
            },
            dir@,
            is_dir,
            in_repo,
        ) == Ok::<Option<(u8, Seq<char>)>, Seq<char>>(Some(cut_view(c))),
        r matches Ok(None) ==> cut_spec(
            pr,
            match branch {
                Some(x) => Some(x@),
                None => None,
            },
            match base {
                Some(x) => Some(x@),
                None => None,
            },
            dir@,
            is_dir,
            in_repo,
        ) == Ok::<Option<(u8, Seq<char>)>, Seq<char>>(None),
        r matches Err(e) ==> cut_spec(
            pr,
            match branch {
                Some(x) => Some(x@),
                None => None,
            },
            match base {
                Some(x) => Some(x@),
                None => None,
            },
            dir@,
            is_dir,
            in_repo,
        ) == Err::<Option<(u8, Seq<char>)>, Seq<char>>(e@),
{
    if !is_dir {
        return Err(text::joined(dir, " is not a directory to run in"));
    }
    if !in_repo {
        return match (pr, branch) {
            (Some(n), _) => {
                let mut e = text::joined("--pr ", text::number(n).as_str());
                e.append(": ");
                e.append(dir);
                e.append(" is in no repository");
                Err(e)
            },
            (None, Some(b)) => {
                let mut e = text::joined("--branch ", b);
                e.append(": ");
                e.append(dir);
                e.append(" is in no repository");
                Err(e)
            },
            _ => Ok(None),
        };
    }
    match (pr, branch) {
        (Some(n), _) => Ok(Some(Cut::Request(n))),
        (None, Some(b)) => Ok(Some(Cut::Branch(b.to_string()))),
        _ => Ok(Some(Cut::Base(
            match base {
                Some(x) => Some(x.to_string()),
                None => None,
            },
        ))),
    }
}

/// The branch a typed name means: `origin/x` is how a branch on the forge is
/// usually read out, and the tree goes on `x` either way.
pub open spec fn branch_name_spec(typed: Seq<char>) -> Seq<char> {
    if text::starts_with(typed, "origin/"@) {
        typed.skip("origin/"@.len() as int)
    } else {
        typed
    }
}

pub fn branch_name(typed: &str) -> (r: String)
    ensures
        r@ == branch_name_spec(typed@),
{
    if text::starts_with_text(typed, "origin/") {
        let v = text::chars_of(typed);
        let p = text::chars_of("origin/");
        assert(v@.subrange(p.len() as int, v.len() as int) =~= typed@.skip("origin/"@.len() as int));
        text::from_range(&v, p.len(), v.len())
    } else {
        typed.to_string()
    }
}

/// The refusals a branch can meet: git keeps one tree to a branch, and a name
/// in neither this checkout nor the origin is no branch at all.
pub fn held_elsewhere(name: &str) -> (s: String)
    ensures
        s@ == name@ + " is checked out in another tree already"@,
{
    text::joined(name, " is checked out in another tree already")
}

pub fn nowhere(name: &str) -> (s: String)
    ensures
        s@ == name@ + " is no branch here or on origin"@,
{
    text::joined(name, " is no branch here or on origin")
}

/// The branch a tree on a request goes on: the head's own name, unless the
/// work is in somebody's fork or a tree here holds that name already.
pub open spec fn request_branch_spec(n: u64, head: Seq<char>, cross: bool, checked_out: bool) -> Seq<char> {
    if cross || checked_out {
        "pr-"@ + decimal(n as nat)
    } else {
        head
    }
}

pub fn request_branch(n: u64, head: &str, cross: bool, checked_out: bool) -> (r: String)
    ensures
        r@ == request_branch_spec(n, head@, cross, checked_out),
{
    if cross || checked_out {
        text::joined("pr-", text::number(n).as_str())
    } else {
        head.to_string()
    }
}

/// The ref a request's head is fetched under.
pub fn request_ref(n: u64) -> (r: String)
    ensures
        r@ == "refs/pull/"@ + decimal(n as nat) + "/head"@,
{
    let mut s = text::joined("refs/pull/", text::number(n).as_str());
    s.append("/head");
    s
}

/// The tree whose folder-trust screen is amx's to answer: the one it cut, or
/// the linked worktree it was pointed at when it cut none. A checkout is the
/// person's own, a plain directory is derived from nothing, and a command asks
/// no vendor anything.
pub fn tree_to_trust(cut: Option<&str>, dir: &str, linked: bool, exec: bool) -> (r: Option<String>)
    ensures
        r matches Some(t) ==> !exec && match cut {
            Some(c) => t@ == c@,
            None => linked && t@ == dir@,
        },
        r is None ==> exec || (cut is None && !linked),
{
    if exec {
        return None;
    }
    match cut {
        Some(c) => Some(c.to_string()),
        None => {
            if linked {
                Some(dir.to_string())
            } else {
                None
            }
        },
    }
}

// ---- where a spawn stands in a family ----

/// The parent a spawn records and the depth that puts it at: none where it
/// was asked for none, where nothing in its environment names an agent, or
/// where the agent named has no record here; else that agent, one deeper.
pub fn lineage(no_parent: bool, named: Option<&str>, parent_depth: Option<u32>) -> (r: (Option<String>, u32))
    requires
        parent_depth matches Some(d) ==> d < u32::MAX,
    ensures
        (no_parent || named is None || parent_depth is None) ==> r.0 is None && r.1 == 0,
        (!no_parent && named is Some && parent_depth is Some) ==> (r.0 matches Some(p) && p@ == named->0@)
            && r.1 == parent_depth->0 + 1,
{
    if no_parent {
        return (None, 0);
    }
    match (named, parent_depth) {
        (Some(p), Some(d)) => (Some(p.to_string()), d + 1),
        _ => (None, 0),
    }
}

/// The refusal for a spawn deeper than the config allows, asked before any
/// tree is cut or id claimed; the verb exits `BLOCKED` with it.
pub open spec fn too_deep_spec(limit: u64, depth: u32) -> Option<Seq<char>> {
    if depth > limit {
        Some(
            "amx new: subagent_depth is "@ + decimal(limit as nat) + " and this spawn would be at depth "@
                + decimal(depth as nat),
        )
    } else {
        None
    }
}

pub fn too_deep(limit: u64, depth: u32) -> (r: Option<String>)
    ensures
        r matches Some(s) ==> too_deep_spec(limit, depth) == Some(s@),
        r is None ==> too_deep_spec(limit, depth) is None,
{
    if depth as u64 > limit {
        let mut s = text::joined("amx new: subagent_depth is ", text::number(limit).as_str());
        s.append(" and this spawn would be at depth ");
        s.append(text::number(depth as u64).as_str());
        Some(s)
    } else {
        None
    }
}



// ---- what the pane runs ----

/// A dial's words on the argv: its flag and value, for a dial turned to
/// something and a flag the command does not already carry — a flag written
/// in the command wins by the dial saying nothing.
pub open spec fn dial_words(carried: Seq<Seq<char>>, d: Option<Dial>, value: Seq<char>) -> Seq<Seq<char>> {
    match d {
        Some(dial) => if value != DEFAULT@ && !carried.contains(dial.flag@) {
            seq![dial.flag@, value]
        } else {
            seq![]
        },
        None => seq![],
    }
}

/// The vendor's argv: the command's words, each dial turned, the caller's
/// own arguments, the session amx minted where the vendor opens one under
/// an id, the trust flag where the config has said yes and the vendor answers
/// that way, and the task last.
pub open spec fn vendor_command_spec(
    h: Option<Harness>,
    agent: Seq<char>,
    d: (Seq<char>, Seq<char>, Seq<char>),
    extra: Seq<Seq<char>>,
    task: Seq<char>,
    id: Seq<char>,
    trust: bool,
) -> Seq<Seq<char>> {
    let w = words(agent);
    let dials = match h {
        Some(x) => dial_words(w, x.model, d.0) + dial_words(w, x.permission, d.1) + dial_words(
            w,
            x.effort,
            d.2,
        ),
        None => seq![],
    };
    let start = match h {
        Some(x) => match x.start {
            Some(f) => seq![f@, id],
            None => seq![],
        },
        None => seq![],
    };
    let trusted = match h {
        Some(x) => match x.trust_flag {
            Some(f) => if trust {
                seq![f@]
            } else {
                seq![]
            },
            None => seq![],
        },
        None => seq![],
    };
    w + dials + extra + start + trusted + seq![task]
}

/// What the pane runs: a shell command when that is what was asked for —
/// no vendor, no dials, no task after it — else the vendor with the task.
pub open spec fn launched_spec(
    exec: bool,
    task: Seq<char>,
    table: Seq<Harness>,
    agent: Seq<char>,
    d: (Seq<char>, Seq<char>, Seq<char>),
    extra: Seq<Seq<char>>,
    id: Seq<char>,
    trust: bool,
) -> Seq<Seq<char>> {
    if exec {
        seq!["sh"@, "-c"@, task]
    } else {
        vendor_command_spec(
            match entry_spec(table, agent) {
                Some(i) => Some(table[i]),
                None => None,
            },
            agent,
            d,
            extra,
            task,
            id,
            trust,
        )
    }
}

fn push_dial(v: &mut Vec<String>, carried: &Vec<String>, d: &Option<Dial>, value: &String)
    ensures
        flags(*final(v)) == flags(*old(v)) + dial_words(flags(*carried), *d, value@),
{
    match d {
        Some(dial) => {
            if !text::same_text(value.as_str(), DEFAULT) && !contains_word(carried, &dial.flag) {
                let ghost before = flags(*v);
                v.push(dial.flag.clone());
                v.push(value.clone());
                assert(flags(*v) =~= before + seq![dial.flag@, value@]);
                return;
            }
        },
        None => {},
    }
    assert(flags(*v) =~= flags(*old(v)) + Seq::<Seq<char>>::empty());
}

fn push_all(v: &mut Vec<String>, more: &Vec<String>)
    ensures
        flags(*final(v)) == flags(*old(v)) + flags(*more),
{
    let ghost start = flags(*v);
    let mut i: usize = 0;
    while i < more.len()
        invariant
            i <= more.len(),
            flags(*v) == start + flags(*more).take(i as int),
        decreases more.len() - i,
    {
        let ghost before = flags(*v);
        v.push(more[i].clone());
        assert(flags(*v) =~= before.push(more@[i as int]@));
        assert(flags(*more).take(i + 1) =~= flags(*more).take(i as int).push(more@[i as int]@));
        assert(flags(*v) =~= start + flags(*more).take(i + 1));
        i += 1;
    }
    assert(flags(*more).take(more.len() as int) =~= flags(*more));
}

pub fn launched(
    exec: bool,
    task: &str,
    table: &Vec<Harness>,
    launch: &Launch,
    extra: &Vec<String>,
    id: &str,
    trust: bool,
) -> (r: Vec<String>)
    ensures
        flags(r) == launched_spec(
            exec,
            task@,
            table@,
            launch.agent@,
            dials_view(launch.dials),
            flags(*extra),
            id@,
            trust,
        ),
{
    let mut v: Vec<String> = Vec::new();
    if exec {
        v.push("sh".to_string());
        v.push("-c".to_string());
        v.push(task.to_string());
        assert(flags(v) =~= seq!["sh"@, "-c"@, task@]);
        return v;
    }
    let w = text::words_of(launch.agent.as_str());
    push_all(&mut v, &w);
    let ghost at_dials = flags(v);
    let e = entry(table, launch.agent.as_str());
    match e {
        Some(i) => {
            push_dial(&mut v, &w, &table[i].model, &launch.dials.model);
            push_dial(&mut v, &w, &table[i].permission, &launch.dials.permission);
            push_dial(&mut v, &w, &table[i].effort, &launch.dials.effort);
        },
        None => {},
    }
    let ghost at_extra = flags(v);
    push_all(&mut v, extra);
    let ghost at_start = flags(v);
    match e {
        Some(i) => {
            match &table[i].start {
                Some(f) => {
                    v.push(f.clone());
                    v.push(id.to_string());
                },
                None => {},
            }
        },
        None => {},
    }
    let ghost at_trust = flags(v);
    if trust {
        match e {
            Some(i) => {
                match &table[i].trust_flag {
                    Some(f) => {
                        v.push(f.clone());
                    },
                    None => {},
                }
            },
            None => {},
        }
    }
    let ghost at_task = flags(v);
    v.push(task.to_string());
    proof {
        let h = match entry_spec(table@, launch.agent@) {
            Some(i) => Some(table@[i]),
            None => None,
        };
        let d = dials_view(launch.dials);
        let wv = words(launch.agent@);
        let dials = match h {
            Some(x) => dial_words(wv, x.model, d.0) + dial_words(wv, x.permission, d.1)
                + dial_words(wv, x.effort, d.2),
            None => seq![],
        };
        assert(at_extra =~= wv + dials);
        let start = match h {
            Some(x) => match x.start {
                Some(f) => seq![f@, id@],
                None => seq![],
            },
            None => seq![],
        };
        assert(at_trust =~= at_start + start);
        let trusted = match h {
            Some(x) => match x.trust_flag {
                Some(f) => if trust {
                    seq![f@]
                } else {
                    seq![]
                },
                None => seq![],
            },
            None => seq![],
        };
        assert(at_task =~= at_trust + trusted);
        assert(flags(v) =~= wv + dials + flags(*extra) + start + trusted + seq![task@]);
    }
    v
}


// ---- the verb ----

/// The work a spawn does once nothing has refused it, in the order it is
/// done: claim the id, cut the tree, carry the uncommitted work into it where
/// `--with-changes` asked, write the handoff, place the pane, and write the
/// record last — the pane waits for the record before it starts the vendor,
/// so the vendor's first hook always has somewhere to go.
#[derive(Debug, Clone, Copy, PartialEq, Eq, Structural)]
pub enum Act {
    Claim,
    Cut,
    Carry,
    Handoff,
    Pane,
    Record,
}

pub open spec fn order(with_changes: bool) -> Seq<Act> {
    if with_changes {
        seq![Act::Claim, Act::Cut, Act::Carry, Act::Handoff, Act::Pane, Act::Record]
    } else {
        seq![Act::Claim, Act::Cut, Act::Handoff, Act::Pane, Act::Record]
    }
}

/// The refusal of a `--with-changes` with nothing in `dir` to move.
pub open spec fn nothing_to_move_spec(dir: Seq<char>) -> Seq<char> {
    "amx: --with-changes: nothing in "@ + dir + " to move"@
}

/// What the verb does next.
#[derive(Debug, Clone, PartialEq, Eq)]
pub enum NewStep {
    /// Refused before anything is made: the code and the line for stderr.
    Refused { code: i32, said: String },
    /// A harness's printed list of models has to be read first.
    List(usize),
    /// Start the agent: the launch, and the work in the order it is done.
    Go { launch: Launch, acts: Vec<Act> },
}

pub open spec fn new_step_view(s: NewStep) -> Result<Result<((Seq<char>, (Seq<char>, Seq<char>, Seq<char>)), Seq<Act>), int>, (i32, Seq<char>)> {
    match s {
        NewStep::Refused { code, said } => Err((code, said@)),
        NewStep::List(i) => Ok(Err(i as int)),
        NewStep::Go { launch, acts } => Ok(Ok(((launch.agent@, dials_view(launch.dials)), acts@))),
    }
}

/// Everything that can refuse a spawn is asked before anything is made: a
/// dial or a model the vendor would not take is a malformed command line
/// (`USAGE`); a spawn deeper than the config allows, or one more agent than
/// the cap has room for, is `BLOCKED`. Each of those is said on stderr with
/// `amx new: ` in front, yellow on a terminal. Between the two, a
/// `--with-changes` (`moving`, with whether `dir` has uncommitted work to
/// carry) with nothing to move fails the spawn outright. `full` is the cap's
/// own sentence where the cap is reached.
pub open spec fn launch_step_spec(
    table: Seq<Harness>,
    c: Config,
    got: Seq<Option<Vec<String>>>,
    n: Named,
    depth: u32,
    limit: u64,
    moving: Option<bool>,
    dir: Seq<char>,
    full: Option<Seq<char>>,
    to_terminal: bool,
) -> Result<Result<((Seq<char>, (Seq<char>, Seq<char>, Seq<char>)), Seq<Act>), int>, (i32, Seq<char>)> {
    match resolve_spec(table, c, got, n) {
        Err(why) => Err((exit::USAGE, exit::warned_spec("amx new: "@ + why, to_terminal))),
        Ok(Err(i)) => Ok(Err(i)),
        Ok(Ok(l)) => match too_deep_spec(limit, depth) {
            Some(m) => Err((exit::BLOCKED, exit::warned_spec(m, to_terminal))),
            None => if moving == Some(false) {
                Err((exit::FAILURE, nothing_to_move_spec(dir)))
            } else {
                match full {
                    Some(f) => Err((exit::BLOCKED, exit::warned_spec("amx new: "@ + f, to_terminal))),
                    None => Ok(Ok((l, order(moving is Some)))),
                }
            },
        },
    }
}

pub fn launch_step(
    table: &Vec<Harness>,
    c: &Config,
    got: &Vec<Option<Vec<String>>>,
    n: &Named,
    depth: u32,
    limit: u64,
    moving: Option<bool>,
    dir: &str,
    full: Option<&str>,
    to_terminal: bool,
) -> (r: NewStep)
    requires
        got.len() == table.len(),
    ensures
        new_step_view(r) == launch_step_spec(
            table@,
            *c,
            got@,
            *n,
            depth,
            limit,
            moving,
            dir@,
            match full {
                Some(f) => Some(f@),
                None => None,
            },
            to_terminal,
        ),
{
    let launch = match resolve(table, c, got, n) {
        Step::Refused(why) => {
            let line = text::joined("amx new: ", why.as_str());
            return NewStep::Refused { code: exit::USAGE, said: exit::warned(line.as_str(), to_terminal) };
        },
        Step::List(i) => {
            return NewStep::List(i);
        },
        Step::Done(l) => l,
    };
    match too_deep(limit, depth) {
        Some(m) => {
            return NewStep::Refused { code: exit::BLOCKED, said: exit::warned(m.as_str(), to_terminal) };
        },
        None => {},
    }
    if moving == Some(false) {
        let mut said = text::joined("amx: --with-changes: nothing in ", dir);
        said.append(" to move");
        return NewStep::Refused { code: exit::FAILURE, said };
    }
    match full {
        Some(f) => {
            let line = text::joined("amx new: ", f);
            return NewStep::Refused { code: exit::BLOCKED, said: exit::warned(line.as_str(), to_terminal) };
        },
        None => {},
    }
    let acts = if moving.is_some() {
        vec![Act::Claim, Act::Cut, Act::Carry, Act::Handoff, Act::Pane, Act::Record]
    } else {
        vec![Act::Claim, Act::Cut, Act::Handoff, Act::Pane, Act::Record]
    };
    assert(acts@ =~= order(moving is Some));
    NewStep::Go { launch, acts }
}

/// What the verb prints once the agent is started: its id, and nothing else,
/// so that a caller reads it straight into its next command.
pub fn printed(id: &str) -> (s: String)
    ensures
        s@ == id@ + "\n"@,
{
    text::joined(id, "\n")
}

/// The tree a spawn was cut, as the record keeps it.
#[derive(Debug, Clone, PartialEq, Eq)]
pub struct Tree {
    pub path: String,
    pub branch: String,
    pub base: String,
}

/// The record of a started agent: what it was started on and with, where it
/// runs — the tree amx cut, else the directory it was sent to — and what amx
/// did for it. A command spawn names no vendor and no session.
pub fn meta_of(
    id: &str,
    task: &str,
    exec: bool,
    launch: &Launch,
    dir: &str,
    tree: Option<&Tree>,
    pane: &str,
    opens_under_id: bool,
    parent: Option<&str>,
) -> (m: Meta)
    ensures
        m.id@ == id@,
        m.task@ == task@,
        opt(m.agent) == (if exec {
            None
        } else {
            Some(launch.agent@)
        }),
        m.dir@ == match tree {
            Some(t) => t.path@,
            None => dir@,
        },
        opt(m.worktree) == match tree {
            Some(t) => Some(t.path@),
            None => None,
        },
        opt(m.branch) == match tree {
            Some(t) => Some(t.branch@),
            None => None,
        },
        opt(m.base) == match tree {
            Some(t) => Some(t.base@),
            None => None,
        },
        m.pane@ == pane@,
        opt(m.session) == (if !exec && opens_under_id {
            Some(id@)
        } else {
            None
        }),
        opt(m.parent) == match parent {
            Some(p) => Some(p@),
            None => None,
        },
{
    let (at, worktree, branch, base) = match tree {
        Some(t) => (t.path.clone(), Some(t.path.clone()), Some(t.branch.clone()), Some(t.base.clone())),
        None => (dir.to_string(), None, None, None),
    };
    Meta {
        id: id.to_string(),
        task: task.to_string(),
        agent: vendor_written(exec, launch.agent.as_str()),
        dir: at,
        worktree,
        branch,
        base,
        pane: pane.to_string(),
        session: session_written(exec, opens_under_id, id),
        parent: match parent {
            Some(p) => Some(p.to_string()),
            None => None,
        },
    }
}

/// What a furnished tree says of each path the config asked to copy or link
/// that the repository does not have: one warned line each, in order.
pub open spec fn unfurnished_spec(missing: Seq<Seq<char>>, to_terminal: bool) -> Seq<char>
    decreases missing.len(),
{
    if missing.len() == 0 {
        Seq::empty()
    } else {
        unfurnished_spec(missing.drop_last(), to_terminal) + exit::warned_spec(
            "amx new: "@ + missing.last(),
            to_terminal,
        ) + "\n"@
    }
}

pub fn unfurnished(missing: &Vec<String>, to_terminal: bool) -> (s: String)
    ensures
        s@ == unfurnished_spec(missing@.map_values(|m: String| m@), to_terminal),
{
    let ghost all = missing@.map_values(|m: String| m@);
    let mut s = String::new();
    let mut i: usize = 0;
    while i < missing.len()
        invariant
            i <= missing.len(),
            all == missing@.map_values(|m: String| m@),
            s@ == unfurnished_spec(all.take(i as int), to_terminal),
        decreases missing.len() - i,
    {
        let line = text::joined("amx new: ", missing[i].as_str());
        let painted = exit::warned(line.as_str(), to_terminal);
        s.append(painted.as_str());
        s.append("\n");
        assert(all.take(i + 1).drop_last() =~= all.take(i as int));
        i += 1;
    }
    assert(all.take(missing.len() as int) =~= all);
    s
}

// ---- the harnesses amx has entries for ----

/// A dial as plain values: its flag, its cycle, and whether it is open.
pub open spec fn dial_of(d: Option<Dial>) -> Option<(Seq<char>, Seq<Seq<char>>, bool)> {
    match d {
        Some(d) => Some((d.flag@, flags(d.cycle), d.open)),
        None => None,
    }
}

/// Where a harness's models are read: held in its entry (`false`), or
/// printed by running it with these words (`true`).
pub open spec fn listing_view(l: Listing) -> (bool, Seq<Seq<char>>) {
    match l {
        Listing::Held(ws) => (false, flags(ws)),
        Listing::Printed(ws) => (true, flags(ws)),
    }
}

/// A harness entry as plain values.
pub open spec fn harness_of(h: Harness) -> (
    Seq<char>,
    Option<(Seq<char>, Seq<Seq<char>>, bool)>,
    Option<(Seq<char>, Seq<Seq<char>>, bool)>,
    Option<(Seq<char>, Seq<Seq<char>>, bool)>,
    (bool, Seq<Seq<char>>),
    Option<Seq<char>>,
    Option<Seq<char>>,
) {
    (
        h.name@,
        dial_of(h.model),
        dial_of(h.permission),
        dial_of(h.effort),
        listing_view(h.listing),
        opt(h.start),
        opt(h.trust_flag),
    )
}

/// The table: first, with the models it holds and dials that refuse what it
/// would refuse; and pi, whose models it prints, which opens a session under
/// an id it is given and takes the folder-trust answer as a flag.
pub open spec fn harness_table() -> Seq<
    (
        Seq<char>,
        Option<(Seq<char>, Seq<Seq<char>>, bool)>,
        Option<(Seq<char>, Seq<Seq<char>>, bool)>,
        Option<(Seq<char>, Seq<Seq<char>>, bool)>,
        (bool, Seq<Seq<char>>),
        Option<Seq<char>>,
        Option<Seq<char>>,
    ),
> {
    seq![
        (
            "first"@,
            Some(("--model"@, seq![DEFAULT@, "fable"@, "opus"@, "sonnet"@, "haiku"@], true)),
            Some(
                (
                    "--permission-mode"@,
                    seq![DEFAULT@, "acceptEdits"@, "plan"@, "bypassPermissions"@],
                    false,
                ),
            ),
            Some(("--effort"@, seq![DEFAULT@, "low"@, "medium"@, "high"@, "xhigh"@, "max"@], false)),
            (false, seq!["fable"@, "opus"@, "sonnet"@, "haiku"@]),
            None,
            None,
        ),
        (
            "pi"@,
            Some(("--model"@, seq![DEFAULT@], true)),
            None,
            None,
            (true, seq!["--list-models"@]),
            Some("--session-id"@),
            Some("--approve"@),
        ),
    ]
}

fn texts_of(ws: &[&str]) -> (r: Vec<String>)
    ensures
        flags(r) == ws@.map_values(|w: &str| w@),
{
    let mut r: Vec<String> = Vec::new();
    let mut i: usize = 0;
    while i < ws.len()
        invariant
            i <= ws.len(),
            r@.len() == i,
            flags(r) == ws@.map_values(|w: &str| w@).take(i as int),
        decreases ws.len() - i,
    {
        let w = ws[i].to_string();
        let ghost before = r@;
        r.push(w);
        proof {
            assert forall|j: int| 0 <= j < i + 1 implies (#[trigger] r@[j])@ == ws@.map_values(
                |w: &str| w@,
            ).take(i + 1)[j] by {
                if j < i {
                    assert(r@[j] == before[j]);
                    assert(before.map_values(|t: String| t@)[j] == ws@.map_values(|w: &str| w@).take(
                        i as int,
                    )[j]);
                }
            }
        }
        assert(flags(r) =~= ws@.map_values(|w: &str| w@).take(i + 1));
        i += 1;
    }
    assert(ws@.map_values(|w: &str| w@).take(ws.len() as int) =~= ws@.map_values(|w: &str| w@));
    r
}

/// The harnesses amx has entries for, in table order.
pub fn harnesses() -> (t: Vec<Harness>)
    ensures
        t@.map_values(|h: Harness| harness_of(h)) == harness_table(),
{
    let first_models = ["default", "fable", "opus", "sonnet", "haiku"];
    let first_modes = ["default", "acceptEdits", "plan", "bypassPermissions"];
    let first_efforts = ["default", "low", "medium", "high", "xhigh", "max"];
    let first_held = ["fable", "opus", "sonnet", "haiku"];
    let pi_models = ["default"];
    let pi_list = ["--list-models"];
    let first = Harness {
        name: "first".to_string(),
        model: Some(Dial { flag: "--model".to_string(), cycle: texts_of(&first_models), open: true }),
        permission: Some(
            Dial { flag: "--permission-mode".to_string(), cycle: texts_of(&first_modes), open: false },
        ),
        effort: Some(Dial { flag: "--effort".to_string(), cycle: texts_of(&first_efforts), open: false }),
        listing: Listing::Held(texts_of(&first_held)),
        start: None,
        trust_flag: None,
    };
    let pi = Harness {
        name: "pi".to_string(),
        model: Some(Dial { flag: "--model".to_string(), cycle: texts_of(&pi_models), open: true }),
        permission: None,
        effort: None,
        listing: Listing::Printed(texts_of(&pi_list)),
        start: Some("--session-id".to_string()),
        trust_flag: Some("--approve".to_string()),
    };
    proof {
        reveal_strlit("default");
        assert(first_models@.map_values(|w: &str| w@) =~= seq![DEFAULT@, "fable"@, "opus"@, "sonnet"@, "haiku"@]);
        assert(first_modes@.map_values(|w: &str| w@) =~= seq![DEFAULT@, "acceptEdits"@, "plan"@, "bypassPermissions"@]);
        assert(first_efforts@.map_values(|w: &str| w@) =~= seq![DEFAULT@, "low"@, "medium"@, "high"@, "xhigh"@, "max"@]);
        assert(first_held@.map_values(|w: &str| w@) =~= seq!["fable"@, "opus"@, "sonnet"@, "haiku"@]);
        assert(pi_models@.map_values(|w: &str| w@) =~= seq![DEFAULT@]);
        assert(pi_list@.map_values(|w: &str| w@) =~= seq!["--list-models"@]);
    }
    let t = vec![first, pi];
    assert(t@.map_values(|h: Harness| harness_of(h)) =~= harness_table());
    t
}

/// A spawn that is refused has made nothing: every refusal comes before the
/// first act, and a spawn that goes ahead does every act in order, claiming
/// the id first. `--with-changes` adds the carry and changes nothing else.
pub proof fn nothing_is_made_before_a_refusal(
    table: Seq<Harness>,
    c: Config,
    got: Seq<Option<Vec<String>>>,
    n: Named,
    depth: u32,
    limit: u64,
    moving: Option<bool>,
    dir: Seq<char>,
    full: Option<Seq<char>>,
    to_terminal: bool,
)
    ensures
        launch_step_spec(table, c, got, n, depth, limit, moving, dir, full, to_terminal) matches Ok(
            Ok((_, acts)),
        ) ==> acts == order(moving is Some) && acts[0] == Act::Claim,
        resolve_spec(table, c, got, n) is Err ==> (launch_step_spec(
            table,
            c,
            got,
            n,
            depth,
            limit,
            moving,
            dir,
            full,
            to_terminal,
        ) matches Err((code, _)) && code == exit::USAGE),
        launch_step_spec(table, c, got, n, depth, limit, Some(true), dir, full, to_terminal) matches Ok(
            Ok((l, _)),
        ) ==> launch_step_spec(table, c, got, n, depth, limit, None, dir, full, to_terminal) == Ok::<
            Result<((Seq<char>, (Seq<char>, Seq<char>, Seq<char>)), Seq<Act>), int>,
            (i32, Seq<char>),
        >(Ok((l, order(false)))),
{
}

// ---- laws ----

/// A value typed for a dial the vendor takes it on is the value launched,
/// whatever the config holds.
pub proof fn a_typed_value_beats_the_config(key: Seq<char>, d: Dial, v: Seq<char>, held: Option<Seq<char>>, prog: Seq<char>)
    requires
        accepts(d, v),
    ensures
        dial_spec(key, Some(d), Some(v), held, prog) == Ok::<Seq<char>, Seq<char>>(v),
{
}

/// The config never stops a spawn the way a flag can: a spawn that names its
/// agent and types no dial is always launched, with the config's values
/// where the vendor takes them and the vendor's own everywhere else.
pub proof fn the_config_cannot_stop_a_spawn(table: Seq<Harness>, c: Config, got: Seq<Option<Vec<String>>>, command: String)
    ensures
        resolve_spec(table, c, got, Named { command: Some(command), model: None, permission: None, effort: None }) is Ok,
        resolve_spec(table, c, got, Named { command: Some(command), model: None, permission: None, effort: None })->Ok_0 is Ok,
{
}

/// What a harness carries is written after the command's own words, and no
/// word of it is one the command already carries.
pub proof fn a_carried_word_is_written_once(args: Seq<Seq<char>>, carried: Seq<Seq<char>>)
    ensures
        forall|k: int| 0 <= k < not_carried(args, carried).len() ==> !carried.contains(#[trigger] not_carried(args, carried)[k]),
    decreases args.len(),
{
    if args.len() > 0 {
        a_carried_word_is_written_once(args.drop_last(), carried);
        let rest = not_carried(args.drop_last(), carried);
        if !carried.contains(args.last()) {
            assert forall|k: int| 0 <= k < rest.push(args.last()).len() implies !carried.contains(
                #[trigger] rest.push(args.last())[k],
            ) by {
                if k < rest.len() {
                    assert(rest.push(args.last())[k] == rest[k]);
                }
            }
        }
    }
}

/// The configured harness is the first one a typed model is asked of.
pub proof fn the_configured_harness_is_asked_first(table: Seq<Harness>, agent: Seq<char>)
    requires
        entry_spec(table, agent) is Some,
    ensures
        asked_spec(table, agent).len() > 0,
        asked_spec(table, agent)[0] == entry_spec(table, agent)->0,
{
}

/// A request or a branch that was named gets a tree whatever the worktrees
/// key says, unless the spawn is a command or was told to take none; and a
/// command, or a spawn told to take none, never gets one.
pub proof fn a_named_branch_is_a_tree_whatever_the_key_says(
    exec: bool,
    no_worktree: bool,
    worktrees: bool,
    pr: Option<u64>,
    branch: Option<Seq<char>>,
)
    ensures
        !exec && !no_worktree && (pr is Some || branch is Some) ==> wants_tree_spec(
            exec,
            no_worktree,
            worktrees,
            pr,
            branch,
        ),
        !exec && !no_worktree && worktrees ==> wants_tree_spec(exec, no_worktree, worktrees, pr, branch),
        exec || no_worktree ==> !wants_tree_spec(exec, no_worktree, worktrees, pr, branch),
        !worktrees && pr is None && branch is None ==> !wants_tree_spec(
            exec,
            no_worktree,
            worktrees,
            pr,
            branch,
        ),
{
}

} // verus!
