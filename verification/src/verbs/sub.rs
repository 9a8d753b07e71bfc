//! `amx sub` — start a subagent and wait for its answer.
//!
//! A subagent is an ordinary agent whose record names a parent: a parent asks
//! a question and is handed the answer. What this adds over starting one and
//! waiting on it is what makes a child a child: the parent's directory is
//! where it runs unless the caller named one, a parent with as many live
//! children as its key allows is refused another, and a `--context digest`
//! child is handed a short read of its parent.
use vstd::prelude::*;
use crate::exit;
use crate::store::{terminal, Phase};
use crate::text::{self, debug_quoted, decimal, trim, trim_end};
use crate::verbs::new::{self, Config, Harness, Named, Step, opt, program_name, program_spec, resolve_spec};

verus! {

/// One record, as far as counting a parent's children reads it: the parent
/// it names, and the phase it is in.
#[derive(Debug, Clone, PartialEq, Eq)]
pub struct Child {
    pub parent: Option<String>,
    pub phase: Phase,
}

/// How many of these records are children of `parent` that have not ended.
pub open spec fn live_count(cs: Seq<Child>, parent: Seq<char>) -> nat
    decreases cs.len(),
{
    if cs.len() == 0 {
        0
    } else {
        let c = cs.last();
        live_count(cs.drop_last(), parent) + if (c.parent matches Some(p) && p@ == parent) && !terminal(
            c.phase,
        ) {
            1nat
        } else {
            0nat
        }
    }
}

pub proof fn lemma_live_count_bound(cs: Seq<Child>, parent: Seq<char>)
    ensures
        live_count(cs, parent) <= cs.len(),
    decreases cs.len(),
{
    if cs.len() > 0 {
        lemma_live_count_bound(cs.drop_last(), parent);
    }
}

pub fn live_children(children: &Vec<Child>, parent: &str) -> (n: usize)
    ensures
        n == live_count(children@, parent@),
{
    let mut n: usize = 0;
    let mut i: usize = 0;
    while i < children.len()
        invariant
            i <= children.len(),
            n == live_count(children@.take(i as int), parent@),
        decreases children.len() - i,
    {
        assert(children@.take(i + 1).drop_last() =~= children@.take(i as int));
        proof {
            lemma_live_count_bound(children@.take(i as int), parent@);
        }
        let counts = match &children[i].parent {
            Some(p) => text::same_text(p.as_str(), parent) && !children[i].phase.is_terminal(),
            None => false,
        };
        if counts {
            n = n + 1;
        }
        i += 1;
    }
    assert(children@.take(children.len() as int) =~= children@);
    n
}

/// The refusal for a parent that already has as many live children as its
/// key allows; a key of zero allows any number.
pub open spec fn crowded_spec(max_children: u64, live: nat, parent: Seq<char>) -> Option<Seq<char>> {
    if max_children != 0 && live >= max_children {
        Some(
            "amx sub: max_children is "@ + decimal(max_children as nat) + " and "@ + parent
                + " already has that many"@,
        )
    } else {
        None
    }
}

pub fn crowded(max_children: u64, live: u64, parent: &str) -> (r: Option<String>)
    ensures
        r matches Some(s) ==> crowded_spec(max_children, live as nat, parent@) == Some(s@),
        r is None ==> crowded_spec(max_children, live as nat, parent@) is None,
{
    if max_children != 0 && live >= max_children {
        let mut s = text::joined("amx sub: max_children is ", text::number(max_children).as_str());
        s.append(" and ");
        s.append(parent);
        s.append(" already has that many");
        Some(s)
    } else {
        None
    }
}

/// A refusal is an answer rather than a failure.
pub const CROWDED: i32 = exit::BLOCKED;

/// The refusal for a digest asked for where there is no parent to digest.
pub open spec fn orphan_digest() -> Seq<char> {
    "amx sub: --context digest needs a parent, and there is none here"@
}

pub fn needs_a_parent(digest: bool, has_parent: bool) -> (r: Option<String>)
    ensures
        r matches Some(s) ==> digest && !has_parent && s@ == orphan_digest(),
        r is None ==> !digest || has_parent,
{
    if digest && !has_parent {
        Some("amx sub: --context digest needs a parent, and there is none here".to_string())
    } else {
        None
    }
}

/// Where a child runs: the directory the caller named, else the parent's,
/// else where the command was typed.
pub open spec fn dir_spec(named: Option<Seq<char>>, parents: Option<Seq<char>>, here: Seq<char>) -> Seq<char> {
    match named {
        Some(d) => d,
        None => match parents {
            Some(d) => d,
            None => here,
        },
    }
}

pub fn dir_of(named: Option<&str>, parents: Option<&str>, here: &str) -> (d: String)
    ensures
        d@ == dir_spec(
            match named {
                Some(x) => Some(x@),
                None => None,
            },
            match parents {
                Some(x) => Some(x@),
                None => None,
            },
            here@,
        ),
{
    match named {
        Some(d) => d.to_string(),
        None => match parents {
            Some(d) => d.to_string(),
            None => here.to_string(),
        },
    }
}

/// The short read of a parent a `--context digest` child is handed: its
/// task, and its latest word where the transcript has one.
pub open spec fn digest_spec(id: Seq<char>, task: Seq<char>, latest: Option<Seq<char>>) -> Seq<char> {
    let head = "Your parent agent, "@ + id + ", is working on the task:\n\n"@ + task;
    match latest {
        Some(w) => head + "\n\nIts latest word on it:\n\n"@ + w,
        None => head,
    }
}

pub fn digest_of(id: &str, task: &str, latest: Option<&str>) -> (s: String)
    ensures
        s@ == digest_spec(
            id@,
            task@,
            match latest {
                Some(w) => Some(w@),
                None => None,
            },
        ),
{
    let mut s = text::joined("Your parent agent, ", id);
    s.append(", is working on the task:\n\n");
    s.append(task);
    match latest {
        Some(w) => {
            s.append("\n\nIts latest word on it:\n\n");
            s.append(w);
        },
        None => {},
    }
    s
}

/// The answer `--json` carries: what the wait printed, without the line's
/// end, where the wait ended on an answer, and nothing otherwise.
pub open spec fn answer_spec(code: i32, printed: Seq<char>) -> Option<Seq<char>> {
    if code == exit::OK {
        Some(trim_end(printed))
    } else {
        None
    }
}

pub fn answer_of(code: i32, printed: &str) -> (r: Option<String>)
    ensures
        r matches Some(s) ==> answer_spec(code, printed@) == Some(s@),
        r is None ==> answer_spec(code, printed@) is None,
{
    if code == exit::OK {
        Some(text::trimmed_end(printed))
    } else {
        None
    }
}

/// What `amx sub` does once `new` has been run for the child, from the code
/// `new` ended with and what it printed.
#[derive(Debug, Clone, PartialEq, Eq)]
pub enum Launched {
    /// `new` did not start it: its code is the verb's.
    Ended(i32),
    /// `--bg`: report the child (its id, or the object) and end with OK.
    Report(String),
    /// Wait for the child's answer through `result`, saying its id on stderr
    /// first unless `--json` says it in the object.
    Wait { id: String, say_id: bool },
}

pub fn launched(new_code: i32, printed: &str, bg: bool, json: bool) -> (r: Launched)
    ensures
        new_code != exit::OK <==> r == Launched::Ended(new_code),
        new_code == exit::OK && bg ==> (r matches Launched::Report(id) && id@ == trim(printed@)),
        new_code == exit::OK && !bg ==> (r matches Launched::Wait { id, say_id } && id@ == trim(
            printed@,
        ) && say_id == !json),
{
    if new_code != exit::OK {
        return Launched::Ended(new_code);
    }
    let id = text::trimmed(printed);
    if bg {
        Launched::Report(id)
    } else {
        Launched::Wait { id, say_id: !json }
    }
}

/// How a waited-for child ends the verb: `result`'s code is the verb's own;
/// without `--json` what `result` printed is printed as it is, and with it
/// nothing is, and the answer that goes in the object is `answer_spec`'s.
pub fn waited(result_code: i32, printed: &str, json: bool) -> (r: (i32, String, Option<String>))
    ensures
        r.0 == result_code,
        !json ==> r.1@ == printed@ && r.2 is None,
        json ==> r.1@ == Seq::<char>::empty() && (match r.2 {
            Some(a) => answer_spec(result_code, printed@) == Some(a@),
            None => answer_spec(result_code, printed@) is None,
        }),
{
    if json {
        (result_code, String::new(), answer_of(result_code, printed))
    } else {
        (result_code, printed.to_string(), None)
    }
}

/// A child that has ended is never counted against its parent, and no more
/// children are counted than there are records.
pub proof fn an_ended_child_frees_its_place(cs: Seq<Child>, parent: Seq<char>, c: Child)
    requires
        terminal(c.phase),
    ensures
        live_count(cs.push(c), parent) == live_count(cs, parent),
        live_count(cs, parent) <= cs.len(),
{
    assert(cs.push(c).drop_last() =~= cs);
    lemma_live_count_bound(cs, parent);
}


// ---- what a child inherits ----

/// The parent a child is typed under, as far as starting the child reads it.
#[derive(Debug, Clone, PartialEq, Eq)]
pub struct Parent {
    pub id: String,
    pub task: String,
    pub dir: String,
    /// The command the parent runs, and the model and effort it was given.
    pub agent: Option<String>,
    pub model: Option<String>,
    pub effort: Option<String>,
}

pub open spec fn named_view(n: Named) -> (Option<Seq<char>>, Option<Seq<char>>, Option<Seq<char>>, Option<Seq<char>>) {
    (opt(n.command), opt(n.model), opt(n.permission), opt(n.effort))
}

/// The parent's command stands in for a child that named neither an agent
/// nor a model: a child of a pi agent is pi, and the parent's whole command
/// rides, flags and all.
pub open spec fn defaulted(p: Parent, n: Named) -> Named {
    if n.command is None && n.model is None && (p.agent matches Some(a) && a@.len() > 0) {
        Named { command: p.agent, model: None, permission: None, effort: None }
    } else {
        n
    }
}

/// What a child is launched with once its parent is weighed: the parent's
/// command where the child named no agent and no model; then, where the
/// child would run the parent's own program, pinned to the command already
/// resolved and given the parent's model and effort wherever it typed none.
/// A child on another vendor inherits no dial: a model name means nothing to
/// a different vendor. `--permission` is never inherited.
pub open spec fn inherit_spec(
    table: Seq<Harness>,
    c: Config,
    got: Seq<Option<Vec<String>>>,
    parent: Option<Parent>,
    n: Named,
) -> Result<Result<(Option<Seq<char>>, Option<Seq<char>>, Option<Seq<char>>, Option<Seq<char>>), int>, Seq<char>> {
    match parent {
        None => Ok(Ok(named_view(n))),
        Some(p) => {
            let n1 = defaulted(p, n);
            match resolve_spec(table, c, got, n1) {
                Err(why) => Err(why),
                Ok(Err(i)) => Ok(Err(i)),
                Ok(Ok((agent, _))) => {
                    let theirs = program_spec(
                        match p.agent {
                            Some(a) => a@,
                            None => ""@,
                        },
                    );
                    if program_spec(agent) != theirs {
                        Ok(Ok(named_view(n1)))
                    } else {
                        Ok(Ok((
                            Some(agent),
                            match n1.model {
                                Some(m) => Some(m@),
                                None => opt(p.model),
                            },
                            opt(n1.permission),
                            match n1.effort {
                                Some(e) => Some(e@),
                                None => opt(p.effort),
                            },
                        )))
                    }
                },
            }
        },
    }
}

pub open spec fn inherit_view(r: Step<Named>) -> Result<Result<(Option<Seq<char>>, Option<Seq<char>>, Option<Seq<char>>, Option<Seq<char>>), int>, Seq<char>> {
    match r {
        Step::Done(n) => Ok(Ok(named_view(n))),
        Step::List(i) => Ok(Err(i as int)),
        Step::Refused(e) => Err(e@),
    }
}

fn clone_opt(o: &Option<String>) -> (r: Option<String>)
    ensures
        opt(r) == opt(*o),
{
    match o {
        Some(s) => Some(s.clone()),
        None => None,
    }
}

pub fn inherit(
    table: &Vec<Harness>,
    c: &Config,
    got: &Vec<Option<Vec<String>>>,
    parent: Option<&Parent>,
    named: &Named,
) -> (r: Step<Named>)
    requires
        got.len() == table.len(),
    ensures
        inherit_view(r) == inherit_spec(
            table@,
            *c,
            got@,
            match parent {
                Some(p) => Some(*p),
                None => None,
            },
            *named,
        ),
{
    let n0 = Named {
        command: clone_opt(&named.command),
        model: clone_opt(&named.model),
        permission: clone_opt(&named.permission),
        effort: clone_opt(&named.effort),
    };
    let p = match parent {
        None => {
            return Step::Done(n0);
        },
        Some(p) => p,
    };
    let takes_parents = named.command.is_none() && named.model.is_none() && match &p.agent {
        Some(a) => !a.as_str().is_empty(),
        None => false,
    };
    let n1 = if takes_parents {
        Named { command: clone_opt(&p.agent), model: None, permission: None, effort: None }
    } else {
        n0
    };
    let ghost d = defaulted(*p, *named);
    assert(named_view(n1) == named_view(d));
    let launch = match new::resolve(table, c, got, &n1) {
        Step::Done(l) => l,
        Step::Refused(e) => {
            proof { lemma_resolve_views(table@, *c, got@, n1, d); }
            return Step::Refused(e);
        },
        Step::List(i) => {
            proof { lemma_resolve_views(table@, *c, got@, n1, d); }
            return Step::List(i);
        },
    };
    proof { lemma_resolve_views(table@, *c, got@, n1, d); }
    let theirs = match &p.agent {
        Some(a) => program_name(a.as_str()),
        None => program_name(""),
    };
    let mine = program_name(launch.agent.as_str());
    if !text::same_text(mine.as_str(), theirs.as_str()) {
        return Step::Done(n1);
    }
    let model = match &n1.model {
        Some(m) => Some(m.clone()),
        None => clone_opt(&p.model),
    };
    let effort = match &n1.effort {
        Some(e) => Some(e.clone()),
        None => clone_opt(&p.effort),
    };
    Step::Done(Named { command: Some(launch.agent), model, permission: n1.permission, effort })
}

/// Two namings with the same text resolve the same way.
proof fn lemma_resolve_views(table: Seq<Harness>, c: Config, got: Seq<Option<Vec<String>>>, a: Named, b: Named)
    requires
        named_view(a) == named_view(b),
    ensures
        resolve_spec(table, c, got, a) == resolve_spec(table, c, got, b),
{
}

/// The refusal of a child's `--permission` where the config has not allowed
/// subagents to widen what they may do: an escalation is a decision, never
/// an inheritance.
pub fn escalation_refused(may_escalate: bool, permission: Option<&str>) -> (r: Option<String>)
    ensures
        (r is Some) <==> (permission is Some && !may_escalate),
        r matches Some(s) ==> s@ == "amx sub: subagents_may_escalate is false, so --permission "@
            + debug_quoted(permission->0@) + " is refused"@,
{
    match permission {
        Some(p) => {
            if may_escalate {
                None
            } else {
                let mut s = text::joined(
                    "amx sub: subagents_may_escalate is false, so --permission ",
                    text::quoted(p).as_str(),
                );
                s.append(" is refused");
                Some(s)
            }
        },
        None => None,
    }
}

// ---- the verb's decisions, in order ----

/// What the verb does next.
#[derive(Debug, Clone, PartialEq, Eq)]
pub enum SubStep {
    /// Refused: the code to exit with and the line for stderr.
    Refused { code: i32, said: String },
    /// A harness's printed list of models has to be read first.
    List(usize),
    /// Start the child with this naming, and the brief a digest hands it.
    Start { named: Named, brief: Option<String> },
}

/// The facts the verb weighs, gathered before anything is started.
#[derive(Debug, Clone, PartialEq, Eq)]
pub struct Asked {
    /// Whether `--context digest` was asked for.
    pub digest: bool,
    pub may_escalate: bool,
    pub max_children: u64,
    /// How many children of the parent have not ended.
    pub live: u64,
    /// The parent's latest word, where its transcript has one.
    pub latest: Option<String>,
    /// Whether stderr is a terminal, for the paint.
    pub colours: bool,
}

pub open spec fn step_view(s: SubStep) -> Result<Result<((Option<Seq<char>>, Option<Seq<char>>, Option<Seq<char>>, Option<Seq<char>>), Option<Seq<char>>), int>, (i32, Seq<char>)> {
    match s {
        SubStep::Refused { code, said } => Err((code, said@)),
        SubStep::List(i) => Ok(Err(i as int)),
        SubStep::Start { named, brief } => Ok(Ok((named_view(named), opt(brief)))),
    }
}

/// The refusals in the order they are asked: a digest with no parent to
/// digest (`USAGE`), a `--permission` the config does not allow (`BLOCKED`),
/// a launch the inheritance cannot resolve (`USAGE`), a parent with as many
/// live children as its key allows (`BLOCKED`); else the child is started,
/// with its parent's digest where one was asked for.
pub open spec fn sub_step_spec(
    table: Seq<Harness>,
    c: Config,
    got: Seq<Option<Vec<String>>>,
    parent: Option<Parent>,
    n: Named,
    a: Asked,
) -> Result<Result<((Option<Seq<char>>, Option<Seq<char>>, Option<Seq<char>>, Option<Seq<char>>), Option<Seq<char>>), int>, (i32, Seq<char>)> {
    if a.digest && parent is None {
        Err((exit::USAGE, exit::warned_spec(orphan_digest(), a.colours)))
    } else if n.permission is Some && !a.may_escalate {
        Err((
            exit::BLOCKED,
            exit::warned_spec(
                "amx sub: subagents_may_escalate is false, so --permission "@ + debug_quoted(n.permission->0@)
                    + " is refused"@,
                a.colours,
            ),
        ))
    } else {
        match inherit_spec(table, c, got, parent, n) {
            Err(why) => Err((exit::USAGE, exit::warned_spec("amx sub: "@ + why, a.colours))),
            Ok(Err(i)) => Ok(Err(i)),
            Ok(Ok(v)) => match (parent, crowded_spec(a.max_children, a.live as nat, match parent {
                Some(p) => p.id@,
                None => seq![],
            })) {
                (Some(_), Some(full)) => Err((exit::BLOCKED, exit::warned_spec(full, a.colours))),
                _ => Ok(Ok((v, if a.digest {
                    match parent {
                        Some(p) => Some(digest_spec(p.id@, p.task@, opt(a.latest))),
                        None => None,
                    }
                } else {
                    None
                }))),
            },
        }
    }
}

pub fn step(
    table: &Vec<Harness>,
    c: &Config,
    got: &Vec<Option<Vec<String>>>,
    parent: Option<&Parent>,
    named: &Named,
    a: &Asked,
) -> (r: SubStep)
    requires
        got.len() == table.len(),
    ensures
        step_view(r) == sub_step_spec(
            table@,
            *c,
            got@,
            match parent {
                Some(p) => Some(*p),
                None => None,
            },
            *named,
            *a,
        ),
{
    match needs_a_parent(a.digest, parent.is_some()) {
        Some(why) => {
            return SubStep::Refused { code: exit::USAGE, said: exit::warned(why.as_str(), a.colours) };
        },
        None => {},
    }
    let typed = match &named.permission {
        Some(p) => Some(p.as_str()),
        None => None,
    };
    match escalation_refused(a.may_escalate, typed) {
        Some(why) => {
            return SubStep::Refused { code: exit::BLOCKED, said: exit::warned(why.as_str(), a.colours) };
        },
        None => {},
    }
    let n = match inherit(table, c, got, parent, named) {
        Step::Refused(why) => {
            let line = text::joined("amx sub: ", why.as_str());
            return SubStep::Refused { code: exit::USAGE, said: exit::warned(line.as_str(), a.colours) };
        },
        Step::List(i) => {
            return SubStep::List(i);
        },
        Step::Done(n) => n,
    };
    match parent {
        Some(p) => {
            match crowded(a.max_children, a.live, p.id.as_str()) {
                Some(full) => {
                    return SubStep::Refused { code: exit::BLOCKED, said: exit::warned(full.as_str(), a.colours) };
                },
                None => {},
            }
        },
        None => {},
    }
    let brief = if a.digest {
        match parent {
            Some(p) => {
                let latest = match &a.latest {
                    Some(w) => Some(w.as_str()),
                    None => None,
                };
                Some(digest_of(p.id.as_str(), p.task.as_str(), latest))
            },
            None => None,
        }
    } else {
        None
    };
    SubStep::Start { named: n, brief }
}

/// A child on its parent's own program carries the parent's model and
/// effort wherever it typed none, and never a permission it did not type.
pub proof fn a_child_on_its_parents_vendor_inherits_its_dials(
    table: Seq<Harness>,
    c: Config,
    got: Seq<Option<Vec<String>>>,
    p: Parent,
    n: Named,
)
    requires
        resolve_spec(table, c, got, defaulted(p, n)) matches Ok(Ok((agent, _))) && program_spec(agent)
            == program_spec(
            match p.agent {
                Some(a) => a@,
                None => ""@,
            },
        ),
    ensures
        inherit_spec(table, c, got, Some(p), n) matches Ok(Ok(m)) && m.1 == (match defaulted(p, n).model {
            Some(x) => Some(x@),
            None => opt(p.model),
        }) && m.3 == (match defaulted(p, n).effort {
            Some(x) => Some(x@),
            None => opt(p.effort),
        }) && m.2 == opt(defaulted(p, n).permission),
{
}

/// A refusal comes before anything is started, and the first in the order
/// is the one given: a digest with no parent is refused whatever else is
/// wrong with the line.
pub proof fn a_digest_without_a_parent_is_refused_first(
    table: Seq<Harness>,
    c: Config,
    got: Seq<Option<Vec<String>>>,
    n: Named,
    a: Asked,
)
    requires
        a.digest,
    ensures
        sub_step_spec(table, c, got, None, n, a) == Err::<
            Result<((Option<Seq<char>>, Option<Seq<char>>, Option<Seq<char>>, Option<Seq<char>>), Option<Seq<char>>), int>,
            (i32, Seq<char>),
        >((exit::USAGE, exit::warned_spec(orphan_digest(), a.colours))),
{
}

} // verus!
