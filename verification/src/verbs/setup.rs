//! `amx setup <vendor>` — wire one agent's reporting into this machine.
//!
//! The name is not optional and is never guessed: a bare `amx setup` prints
//! the agents amx knows and writes nothing. Nor does it ask: naming the agent
//! on the command line is the consent. The file being written is named before
//! it is written, and copied aside first.
use vstd::prelude::*;
use crate::exit;
use crate::text::{self, joined_with};

verus! {

/// How an entry's reports are wired: into a settings file the vendor reads,
/// or as a file of amx's own that the vendor loads.
#[derive(Debug, Clone, Copy, PartialEq, Eq, Structural)]
pub enum Wire {
    Settings,
    File,
}

/// One agent amx has an entry for, and how it reports, if it does.
#[derive(Debug, Clone, PartialEq, Eq)]
pub struct Entry {
    pub name: String,
    pub wire: Option<Wire>,
}

/// The table's agents in its order, with how each reports: first's hooks go
/// into the settings file it reads, and pi loads an extension amx writes.
pub open spec fn known(es: Seq<Entry>) -> bool {
    &&& es.len() == 2
    &&& es[0].name@ == "first"@ && es[0].wire == Some(Wire::Settings)
    &&& es[1].name@ == "pi"@ && es[1].wire == Some(Wire::File)
}

pub fn entries() -> (r: Vec<Entry>)
    ensures
        known(r@),
{
    vec![
        Entry { name: "first".to_string(), wire: Some(Wire::Settings) },
        Entry { name: "pi".to_string(), wire: Some(Wire::File) },
    ]
}

/// Every agent amx has an entry for, as a sentence names them.
pub open spec fn every_agent(es: Seq<Entry>) -> Seq<char> {
    joined_with(es.map_values(|e: Entry| e.name@), ", "@)
}

/// The first entry at or after `i` under `name`.
pub open spec fn entry_from(es: Seq<Entry>, name: Seq<char>, i: int) -> Option<int>
    decreases es.len() - i,
{
    if i < 0 || i >= es.len() {
        None
    } else if es[i].name@ == name {
        Some(i)
    } else {
        entry_from(es, name, i + 1)
    }
}

/// What the verb makes of the name it was given: a line and a code where it
/// is done, or the agent and how its wiring goes where there is a file to
/// write.
#[derive(Debug, Clone, PartialEq, Eq)]
pub enum Plan {
    Said(i32, String),
    Wire(String, Wire),
}

pub open spec fn plan_view(p: Plan) -> Result<(i32, Seq<char>), (Seq<char>, Wire)> {
    match p {
        Plan::Said(code, line) => Ok((code, line@)),
        Plan::Wire(name, wire) => Err((name@, wire)),
    }
}

pub open spec fn run_spec(vendor: Option<Seq<char>>, es: Seq<Entry>) -> Result<(i32, Seq<char>), (Seq<char>, Wire)> {
    match vendor {
        None => Ok((exit::USAGE, "name an agent to set up: "@ + every_agent(es))),
        Some(name) => match entry_from(es, name, 0) {
            None => Ok((exit::USAGE, "amx has no entry for `"@ + name + "`: "@ + every_agent(es))),
            Some(i) => match es[i].wire {
                None => Ok((
                    exit::OK,
                    es[i].name@ + " reports nothing amx can wire, so its pane is what amx reads"@,
                )),
                Some(w) => Err((es[i].name@, w)),
            },
        },
    }
}

fn names(es: &Vec<Entry>) -> (s: String)
    ensures
        s@ == every_agent(es@),
{
    let mut parts: Vec<String> = Vec::new();
    let mut i: usize = 0;
    while i < es.len()
        invariant
            i <= es.len(),
            parts@.map_values(|p: String| p@) == es@.map_values(|e: Entry| e.name@).take(i as int),
        decreases es.len() - i,
    {
        let name = es[i].name.clone();
        let ghost before = parts@.map_values(|p: String| p@);
        parts.push(name);
        assert(parts@.map_values(|p: String| p@) =~= before.push(es@[i as int].name@));
        assert(es@.map_values(|e: Entry| e.name@).take(i + 1) =~= es@.map_values(
            |e: Entry| e.name@,
        ).take(i as int).push(es@[i as int].name@));
        i += 1;
    }
    assert(es@.map_values(|e: Entry| e.name@).take(es.len() as int) =~= es@.map_values(
        |e: Entry| e.name@,
    ));
    text::join(&parts, ", ")
}

/// The verb, up to the file: a refusal naming every agent where no agent, or
/// an agent amx has no entry for, was named; a line where the agent reports
/// nothing to wire; else which agent to wire, and how.
pub fn run(vendor: Option<&str>, entries: &Vec<Entry>) -> (p: Plan)
    ensures
        plan_view(p) == run_spec(
            match vendor {
                Some(v) => Some(v@),
                None => None,
            },
            entries@,
        ),
{
    let name = match vendor {
        None => {
            let s = text::joined("name an agent to set up: ", names(entries).as_str());
            return Plan::Said(exit::USAGE, s);
        },
        Some(name) => name,
    };
    let mut i: usize = 0;
    while i < entries.len()
        invariant
            i <= entries.len(),
            vendor matches Some(v) && v@ == name@,
            entry_from(entries@, name@, 0) == entry_from(entries@, name@, i as int),
        decreases entries.len() - i,
    {
        if text::same_text(entries[i].name.as_str(), name) {
            assert(entry_from(entries@, name@, i as int) == Some(i as int));
            return match entries[i].wire {
                None => {
                    let s = text::joined(
                        entries[i].name.as_str(),
                        " reports nothing amx can wire, so its pane is what amx reads",
                    );
                    Plan::Said(exit::OK, s)
                },
                Some(w) => Plan::Wire(entries[i].name.clone(), w),
            };
        }
        i += 1;
    }
    let mut s = text::joined("amx has no entry for `", name);
    s.append("`: ");
    let all = names(entries);
    s.append(all.as_str());
    Plan::Said(exit::USAGE, s)
}

/// What is said once the wiring has been written: nothing to do where the
/// file already was that, else what was written where, and where the file as
/// it was has been copied to.
pub open spec fn wrote_spec(wire: Wire, path: Seq<char>, changed: bool, backup: Option<Seq<char>>) -> Seq<Seq<char>> {
    if !changed {
        seq!["nothing to do: "@ + path + " is already that"@]
    } else {
        let first = match wire {
            Wire::Settings => "wired the hooks into "@ + path,
            Wire::File => "wrote the extension to "@ + path,
        };
        match backup {
            Some(b) => seq![first, "the file as it was is at "@ + b],
            None => seq![first],
        }
    }
}

pub fn wrote(wire: Wire, path: &str, changed: bool, backup: Option<&str>) -> (r: Vec<String>)
    ensures
        r@.map_values(|l: String| l@) == wrote_spec(
            wire,
            path@,
            changed,
            match backup {
                Some(b) => Some(b@),
                None => None,
            },
        ),
{
    let mut r: Vec<String> = Vec::new();
    if !changed {
        let mut s = text::joined("nothing to do: ", path);
        s.append(" is already that");
        r.push(s);
        assert(r@.map_values(|l: String| l@) =~= seq![s@]);
        return r;
    }
    let first = match wire {
        Wire::Settings => text::joined("wired the hooks into ", path),
        Wire::File => text::joined("wrote the extension to ", path),
    };
    let ghost f = first@;
    r.push(first);
    match backup {
        Some(b) => {
            let second = text::joined("the file as it was is at ", b);
            let ghost g = second@;
            r.push(second);
            assert(r@.map_values(|l: String| l@) =~= seq![f, g]);
        },
        None => {
            assert(r@.map_values(|l: String| l@) =~= seq![f]);
        },
    }
    r
}

/// A refusal names every agent amx has an entry for, and writes nothing:
/// neither no name nor a name amx has no entry for ever comes to wiring.
pub proof fn a_refusal_names_every_agent(vendor: Option<Seq<char>>, es: Seq<Entry>)
    requires
        vendor is None || entry_from(es, vendor->0, 0) is None,
    ensures
        run_spec(vendor, es) matches Ok((code, line)) && code == exit::USAGE
            && text::contains(line, every_agent(es)),
{
    let line = run_spec(vendor, es)->Ok_0.1;
    match vendor {
        None => {
            let at = "name an agent to set up: "@.len() as int;
            assert(text::holds_at(line, every_agent(es), at)) by {
                assert(line.subrange(at, at + every_agent(es).len()) =~= every_agent(es));
            }
        },
        Some(name) => {
            let at = ("amx has no entry for `"@ + name + "`: "@).len() as int;
            assert(text::holds_at(line, every_agent(es), at)) by {
                assert(line.subrange(at, at + every_agent(es).len()) =~= every_agent(es));
            }
        },
    }
}

} // verus!
