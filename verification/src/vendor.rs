//! The vendors amx knows by name: what each can be asked to do, and how each
//! spells the session it carries a conversation on. What a verb asks of a
//! vendor is a capability, never a name.
use vstd::prelude::*;
use crate::text;

verus! {

/// Something a vendor can be asked to do.
#[derive(Debug, Clone, Copy, PartialEq, Eq, Structural)]
pub enum Capability {
    /// Take over a conversation somebody started by hand.
    Adopt,
    /// Carry a session on in a new process.
    Resume,
    /// Branch a conversation into a copy.
    Fork,
}

/// How a vendor that branches a conversation is told to.
#[derive(Debug, Clone, PartialEq, Eq)]
pub enum ForkSpec {
    /// A flag naming the session branched from.
    Origin(String),
    /// A bare flag beside the resume flag, which names the session.
    Marker(String),
}

/// A vendor's own session vocabulary.
#[derive(Debug, Clone, PartialEq, Eq)]
pub struct SessionSpec {
    /// The flag that carries a session on.
    pub resume: String,
    /// Whether its value is joined on with `=` rather than a word of its own.
    pub joined: bool,
    /// Other flags that decide which session the vendor opens.
    pub conflicts: Vec<String>,
    /// How it branches, if it does.
    pub fork: Option<ForkSpec>,
}

/// One vendor, as the table has it.
#[derive(Debug, Clone, PartialEq, Eq)]
pub struct Vendor {
    pub name: String,
    pub capabilities: Vec<Capability>,
    pub session: Option<SessionSpec>,
}

impl Vendor {
    /// Whether this vendor can be asked for this.
    pub fn can(&self, c: Capability) -> (b: bool)
        ensures
            b == self.capabilities@.contains(c),
    {
        let mut i: usize = 0;
        while i < self.capabilities.len()
            invariant
                i <= self.capabilities.len(),
                forall|j: int| 0 <= j < i ==> self.capabilities@[j] != c,
            decreases self.capabilities.len() - i,
        {
            if self.capabilities[i] == c {
                assert(self.capabilities@[i as int] == c);
                return true;
            }
            i += 1;
        }
        false
    }
}

/// first's entry: it adopts, resumes and forks; `--resume=<id>` carries a
/// session on, `--session-id` and `-r` also pick one, and `--fork-session`
/// beside the resume flag branches it.
pub open spec fn is_first(v: Vendor) -> bool {
    &&& v.name@ == "first"@
    &&& v.capabilities@ == seq![Capability::Adopt, Capability::Resume, Capability::Fork]
    &&& v.session is Some
    &&& session_view(v.session->0) == first_session()
}

/// A session vocabulary as plain values: the resume flag, whether its value
/// is joined on, the other flags that pick a session, and how it branches.
pub open spec fn session_view(s: SessionSpec) -> (Seq<char>, bool, Seq<Seq<char>>, Option<(bool, Seq<char>)>) {
    (s.resume@, s.joined, flags(s.conflicts), fork_flag(s.fork))
}

/// first's session vocabulary.
pub open spec fn first_session() -> (Seq<char>, bool, Seq<Seq<char>>, Option<(bool, Seq<char>)>) {
    ("--resume"@, true, seq!["--session-id"@, "-r"@], Some((false, "--fork-session"@)))
}

/// pi's session vocabulary.
pub open spec fn pi_session() -> (Seq<char>, bool, Seq<Seq<char>>, Option<(bool, Seq<char>)>) {
    ("--session-id"@, false, Seq::empty(), Some((true, "--fork"@)))
}

/// Flags, as text.
pub open spec fn flags(fs: Vec<String>) -> Seq<Seq<char>> {
    fs@.map_values(|f: String| f@)
}

/// How a vendor branches, as plain values: whether the flag names the
/// origin, and the flag.
pub open spec fn fork_flag(f: Option<ForkSpec>) -> Option<(bool, Seq<char>)> {
    match f {
        Some(ForkSpec::Origin(o)) => Some((true, o@)),
        Some(ForkSpec::Marker(m)) => Some((false, m@)),
        None => None,
    }
}

/// pi's entry: it resumes and forks; `--session-id <id>` names the session,
/// and `--fork <id>` names the one a copy branches from.
pub open spec fn is_pi(v: Vendor) -> bool {
    &&& v.name@ == "pi"@
    &&& v.capabilities@ == seq![Capability::Resume, Capability::Fork]
    &&& v.session is Some
    &&& session_view(v.session->0) == pi_session()
}

/// first: the vendor amx was written against.
pub fn first() -> (v: Vendor)
    ensures
        is_first(v),
{
    let conflicts = vec!["--session-id".to_string(), "-r".to_string()];
    assert(flags(conflicts) =~= seq!["--session-id"@, "-r"@]);
    Vendor {
        name: "first".to_string(),
        capabilities: vec![Capability::Adopt, Capability::Resume, Capability::Fork],
        session: Some(
            SessionSpec {
                resume: "--resume".to_string(),
                joined: true,
                conflicts,
                fork: Some(ForkSpec::Marker("--fork-session".to_string())),
            },
        ),
    }
}

/// pi: a session is named by `--session-id`, and a copy by naming the
/// session it branches from.
pub fn pi() -> (v: Vendor)
    ensures
        is_pi(v),
{
    let v = Vendor {
        name: "pi".to_string(),
        capabilities: vec![Capability::Resume, Capability::Fork],
        session: Some(
            SessionSpec {
                resume: "--session-id".to_string(),
                joined: false,
                conflicts: Vec::new(),
                fork: Some(ForkSpec::Origin("--fork".to_string())),
            },
        ),
    };
    assert(flags(v.session->0.conflicts) =~= Seq::<Seq<char>>::empty());
    v
}

/// The table's entry for a program name.
pub fn entry(name: &str) -> (r: Option<Vendor>)
    ensures
        name@ == "first"@ ==> (r matches Some(v) && is_first(v)),
        name@ == "pi"@ ==> (r matches Some(v) && is_pi(v)),
        name@ != "first"@ && name@ != "pi"@ ==> r is None,
{
    proof {
        reveal_strlit("first");
        reveal_strlit("pi");
        assert("pi"@.len() != "first"@.len());
    }
    if text::same_text(name, "first") {
        Some(first())
    } else if text::same_text(name, "pi") {
        Some(pi())
    } else {
        None
    }
}

} // verus!
