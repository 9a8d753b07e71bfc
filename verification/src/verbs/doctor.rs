//! `amx doctor` — what amx needs from this machine, and what is missing.
//!
//! Looking at the machine is the caller's: it gathers [`Findings`] as plain
//! values. Judging them is here, one [`Check`] per thing amx needs, each that
//! fails saying what to do about it, and the exit code is zero exactly when
//! every check is fine.
use vstd::prelude::*;
use crate::exit;
use crate::store::Phase;
use crate::text::{self, decimal, joined_with};
use crate::verbs::attach::{Socket, without};

verus! {

/// The oldest tmux that addresses panes by id.
pub const MINIMUM_MAJOR: u32 = 3;
pub const MINIMUM_MINOR: u32 = 2;

/// One thing amx looked at.
#[derive(Debug, Clone, PartialEq, Eq)]
pub struct Check {
    pub name: String,
    /// What amx found, said plainly.
    pub found: String,
    /// What to do about it, when there is something to do.
    pub remedy: Option<String>,
}

/// A check as plain values.
pub open spec fn check_view(c: Check) -> (Seq<char>, Seq<char>, Option<Seq<char>>) {
    (
        c.name@,
        c.found@,
        match c.remedy {
            Some(r) => Some(r@),
            None => None,
        },
    )
}

impl Check {
    pub fn is_ok(&self) -> (b: bool)
        ensures
            b == (self.remedy is None),
    {
        self.remedy.is_none()
    }
}

fn ok(name: &str, found: String) -> (c: Check)
    ensures
        check_view(c) == (name@, found@, None::<Seq<char>>),
{
    Check { name: name.to_string(), found, remedy: None }
}

fn wrong(name: &str, found: String, remedy: String) -> (c: Check)
    ensures
        check_view(c) == (name@, found@, Some(remedy@)),
{
    Check { name: name.to_string(), found, remedy: Some(remedy) }
}

/// How a vendor's wiring is loaded.
#[derive(Debug, Clone, Copy, PartialEq, Eq, Structural)]
pub enum WireKind {
    /// A file the vendor loads: an extension.
    File,
    /// A plugin the vendor loads.
    Plugin,
}

/// What is on disk where a wire goes.
#[derive(Debug, Clone, Copy, PartialEq, Eq, Structural)]
pub enum Wired {
    /// A file, whether it is there, and whether it is the one this amx ships.
    File { present: bool, current: bool },
    /// Nothing at all.
    Nothing,
}

/// One agent's wiring, read off the disk.
#[derive(Debug, Clone, PartialEq, Eq)]
pub struct VendorWiring {
    pub vendor: String,
    /// How its reports are wired, or `None` for a vendor that reports nothing.
    pub hooks: Option<WireKind>,
    /// Where this agent's wiring goes, under the home.
    pub wire: String,
    pub wired: Wired,
    /// The wires a person opts into, each with where it would go and what is
    /// there now.
    pub opt_in: Vec<(String, Wired)>,
}

/// Where a tmux server's own process is standing.
#[derive(Debug, Clone, PartialEq, Eq)]
pub struct ServerCwd {
    pub pid: u32,
    pub path: String,
    /// Whether that directory is gone.
    pub stale: bool,
}

/// The server amx would use, and where its own process is standing.
#[derive(Debug, Clone, PartialEq, Eq)]
pub struct StandingServer {
    pub socket: Socket,
    pub cwd: ServerCwd,
}

/// What is in the way of an agent that never got past its vendor's setup.
#[derive(Debug, Clone, PartialEq, Eq)]
pub enum Setup {
    /// A screen its own vendor draws in front of the work, under that
    /// vendor's name for it, and whether it is the folder-trust question on a
    /// vendor amx answers that question for.
    Gate { screen: String, trust: bool },
    /// A screen no rule claims, under a record that has never left `starting`.
    Unread,
}

/// An agent stopped at a screen the vendor puts in front of the work.
#[derive(Debug, Clone, PartialEq, Eq)]
pub struct Parked {
    pub id: String,
    pub screen: Setup,
}

/// A directory an agent would be started in, and whether its vendor would
/// draw the folder-trust screen there.
#[derive(Debug, Clone, PartialEq, Eq)]
pub struct Folder {
    pub dir: String,
    /// The repository this is a linked worktree of, when it is one.
    pub repo: Option<String>,
    /// Whether the store already lets an agent in; `None` for a vendor that
    /// keeps no store amx reads.
    pub covered: Option<bool>,
    /// The config's `trust` key.
    pub trust: bool,
}

/// What amx found on the machine, gathered before anything is judged.
#[derive(Debug, Clone, PartialEq, Eq)]
pub struct Findings {
    /// The installed tmux, or `None` when there is none.
    pub tmux: Option<(u32, u32)>,
    /// The configured vendor command, and where it resolved to.
    pub vendor: String,
    pub vendor_path: Option<String>,
    /// The config file, and anything amx had to say about reading it.
    pub config: String,
    pub config_warnings: Vec<String>,
    pub home: String,
    /// One per agent this machine has, in table order.
    pub wirings: Vec<VendorWiring>,
    /// This amx, and every amx the PATH finds in the order it looks.
    pub exe: String,
    pub on_path: Vec<String>,
    /// Where every agent's record is kept, and why amx cannot use it.
    pub state_root: String,
    pub state_error: Option<String>,
    /// Handoffs still carrying the spawner's environment inline.
    pub dirty_handoffs: Vec<String>,
    /// The agents that never got past the vendor's own setup.
    pub parked: Vec<Parked>,
    /// The tmux server amx would put an agent on, when one is running.
    pub server: Option<StandingServer>,
    /// The vendor's own trust store, and the trees it names that are gone.
    pub store: Option<String>,
    pub stale: Vec<String>,
    /// The directory doctor was pointed at, when it was.
    pub folder: Option<Folder>,
}

/// Text as plain values.
pub open spec fn texts(v: Vec<String>) -> Seq<Seq<char>> {
    v@.map_values(|s: String| s@)
}

/// The tmux check: new enough to address panes by id, or not there at all.
pub open spec fn tmux_spec(t: Option<(u32, u32)>) -> (Seq<char>, Seq<char>, Option<Seq<char>>) {
    let floor = decimal(MINIMUM_MAJOR as nat) + "."@ + decimal(MINIMUM_MINOR as nat);
    match t {
        Some((major, minor)) => {
            let have = decimal(major as nat) + "."@ + decimal(minor as nat);
            if major > MINIMUM_MAJOR || (major == MINIMUM_MAJOR && minor >= MINIMUM_MINOR) {
                ("tmux"@, have, None)
            } else {
                (
                    "tmux"@,
                    have,
                    Some("amx addresses panes by id, which needs tmux "@ + floor + " or newer"@),
                )
            }
        },
        None => ("tmux"@, "not installed"@, Some("install tmux "@ + floor + " or newer"@)),
    }
}

/// `major.minor`.
fn version(major: u32, minor: u32) -> (s: String)
    ensures
        s@ == decimal(major as nat) + "."@ + decimal(minor as nat),
{
    let a = text::number(major as u64);
    let mut s = text::joined(a.as_str(), ".");
    let b = text::number(minor as u64);
    s.append(b.as_str());
    s
}

pub fn tmux_check(t: Option<(u32, u32)>) -> (c: Check)
    ensures
        check_view(c) == tmux_spec(t),
{
    let floor = version(MINIMUM_MAJOR, MINIMUM_MINOR);
    match t {
        Some((major, minor)) => {
            let have = version(major, minor);
            if major > MINIMUM_MAJOR || (major == MINIMUM_MAJOR && minor >= MINIMUM_MINOR) {
                ok("tmux", have)
            } else {
                let mut r = text::joined(
                    "amx addresses panes by id, which needs tmux ",
                    floor.as_str(),
                );
                r.append(" or newer");
                wrong("tmux", have, r)
            }
        },
        None => {
            let mut r = text::joined("install tmux ", floor.as_str());
            r.append(" or newer");
            wrong("tmux", "not installed".to_string(), r)
        },
    }
}

/// The program a configured command runs, without its arguments.
pub open spec fn program_spec(command: Seq<char>) -> Seq<char> {
    if text::words(command).len() > 0 {
        text::words(command)[0]
    } else {
        command
    }
}

pub fn program(command: &str) -> (s: String)
    ensures
        s@ == program_spec(command@),
{
    let ws = text::words_of(command);
    if ws.len() > 0 {
        assert(texts(ws)[0] == ws@[0]@);
        ws[0].clone()
    } else {
        command.to_string()
    }
}

/// The vendor check: the configured command is on the PATH.
pub open spec fn vendor_spec(f: Findings) -> (Seq<char>, Seq<char>, Option<Seq<char>>) {
    match f.vendor_path {
        Some(p) => ("agent"@, f.vendor@ + " at "@ + p@, None),
        None => (
            "agent"@,
            "`"@ + program_spec(f.vendor@) + "` is not on the PATH"@,
            Some("install it, or set `agent` in "@ + f.config@ + " to a command that is"@),
        ),
    }
}

pub fn vendor_check(f: &Findings) -> (c: Check)
    ensures
        check_view(c) == vendor_spec(*f),
{
    match &f.vendor_path {
        Some(p) => {
            let mut s = text::joined(f.vendor.as_str(), " at ");
            s.append(p.as_str());
            ok("agent", s)
        },
        None => {
            let prog = program(f.vendor.as_str());
            let mut s = text::joined("`", prog.as_str());
            s.append("` is not on the PATH");
            let mut r = text::joined("install it, or set `agent` in ", f.config.as_str());
            r.append(" to a command that is");
            wrong("agent", s, r)
        },
    }
}

/// The config check: what amx had to say about reading it, if anything.
pub open spec fn config_spec(f: Findings) -> (Seq<char>, Seq<char>, Option<Seq<char>>) {
    if f.config_warnings@.len() == 0 {
        ("config"@, f.config@, None)
    } else {
        ("config"@, joined_with(texts(f.config_warnings), "; "@), Some("edit "@ + f.config@))
    }
}

pub fn config_check(f: &Findings) -> (c: Check)
    ensures
        check_view(c) == config_spec(*f),
{
    if f.config_warnings.len() == 0 {
        return ok("config", f.config.clone());
    }
    let said = text::join(&f.config_warnings, "; ");
    wrong("config", said, text::joined("edit ", f.config.as_str()))
}

/// The line that wires this agent.
pub open spec fn setup_with(who: Seq<char>) -> Seq<char> {
    "run `amx setup "@ + who + "`"@
}

/// The vendor's own word for what amx wires there.
pub open spec fn what_spec(k: WireKind) -> Seq<char> {
    match k {
        WireKind::File => "extension"@,
        WireKind::Plugin => "plugin"@,
    }
}

/// Whether amx's hooks are where this vendor's reports would come from. A
/// vendor that reports nothing has nothing to be missing.
pub open spec fn wiring_spec(w: VendorWiring) -> (Seq<char>, Seq<char>, Option<Seq<char>>) {
    let who = w.vendor@;
    match w.hooks {
        None => (
            "hooks"@,
            who + " reports nothing amx can wire, so its pane is what amx reads"@,
            None,
        ),
        Some(k) => match w.wired {
            Wired::File { present: true, current: true } => (
                "hooks"@,
                who + ": the "@ + what_spec(k) + " at "@ + w.wire@,
                None,
            ),
            Wired::File { present: true, current: false } => (
                "hooks"@,
                who + ": "@ + w.wire@ + " is not the "@ + what_spec(k) + " this amx ships"@,
                Some(setup_with(who)),
            ),
            _ => (
                "hooks"@,
                who + ": no "@ + what_spec(k) + " at "@ + w.wire@,
                Some(setup_with(who)),
            ),
        },
    }
}

fn setup_line(who: &str) -> (s: String)
    ensures
        s@ == setup_with(who@),
{
    let mut s = text::joined("run `amx setup ", who);
    s.append("`");
    s
}

pub fn wiring_check(w: &VendorWiring) -> (c: Check)
    ensures
        check_view(c) == wiring_spec(*w),
{
    let who = w.vendor.as_str();
    match w.hooks {
        None => ok("hooks", text::joined(who, " reports nothing amx can wire, so its pane is what amx reads")),
        Some(k) => {
            let what = match k {
                WireKind::File => "extension",
                WireKind::Plugin => "plugin",
            };
            match w.wired {
                Wired::File { present: true, current: true } => {
                    let mut s = text::joined(who, ": the ");
                    s.append(what);
                    s.append(" at ");
                    s.append(w.wire.as_str());
                    ok("hooks", s)
                },
                Wired::File { present: true, current: false } => {
                    let mut s = text::joined(who, ": ");
                    s.append(w.wire.as_str());
                    s.append(" is not the ");
                    s.append(what);
                    s.append(" this amx ships");
                    wrong("hooks", s, setup_line(who))
                },
                _ => {
                    let mut s = text::joined(who, ": no ");
                    s.append(what);
                    s.append(" at ");
                    s.append(w.wire.as_str());
                    wrong("hooks", s, setup_line(who))
                },
            }
        },
    }
}

/// The line about one wire a person opted into: none for one never asked
/// for, fine for the current one, and wrong for one an older amx wrote.
pub open spec fn opt_in_spec(who: Seq<char>, at: Seq<char>, wired: Wired) -> Option<
    (Seq<char>, Seq<char>, Option<Seq<char>>),
> {
    match wired {
        Wired::Nothing => None,
        Wired::File { present: false, .. } => None,
        Wired::File { present: true, current: true } => Some(
            ("hooks"@, who + ": the extension at "@ + at, None),
        ),
        Wired::File { present: true, current: false } => Some(
            (
                "hooks"@,
                who + ": "@ + at + " is not the extension this amx ships"@,
                Some("run `amx setup "@ + who + " --subagent`"@),
            ),
        ),
    }
}

/// The opt-in lines of one agent, in order.
pub open spec fn opt_ins_spec(who: Seq<char>, ws: Seq<(String, Wired)>) -> Seq<
    (Seq<char>, Seq<char>, Option<Seq<char>>),
>
    decreases ws.len(),
{
    if ws.len() == 0 {
        Seq::empty()
    } else {
        opt_ins_spec(who, ws.drop_last()) + match opt_in_spec(who, ws.last().0@, ws.last().1) {
            Some(c) => seq![c],
            None => Seq::empty(),
        }
    }
}

pub fn opt_in_checks(w: &VendorWiring) -> (r: Vec<Check>)
    ensures
        r@.map_values(|c: Check| check_view(c)) == opt_ins_spec(w.vendor@, w.opt_in@),
{
    let who = w.vendor.as_str();
    let mut r: Vec<Check> = Vec::new();
    let mut i: usize = 0;
    while i < w.opt_in.len()
        invariant
            i <= w.opt_in.len(),
            who@ == w.vendor@,
            r@.map_values(|c: Check| check_view(c)) == opt_ins_spec(w.vendor@, w.opt_in@.take(
                i as int,
            )),
        decreases w.opt_in.len() - i,
    {
        assert(w.opt_in@.take(i + 1).drop_last() =~= w.opt_in@.take(i as int));
        let ghost before = r@.map_values(|c: Check| check_view(c));
        let at = w.opt_in[i].0.as_str();
        match w.opt_in[i].1 {
            Wired::File { present: true, current: true } => {
                let mut s = text::joined(who, ": the extension at ");
                s.append(at);
                r.push(ok("hooks", s));
                assert(r@.map_values(|c: Check| check_view(c)) =~= before.push(
                    opt_in_spec(w.vendor@, at@, w.opt_in@[i as int].1)->0,
                ));
            },
            Wired::File { present: true, current: false } => {
                let mut s = text::joined(who, ": ");
                s.append(at);
                s.append(" is not the extension this amx ships");
                let mut m = text::joined("run `amx setup ", who);
                m.append(" --subagent`");
                r.push(wrong("hooks", s, m));
                assert(r@.map_values(|c: Check| check_view(c)) =~= before.push(
                    opt_in_spec(w.vendor@, at@, w.opt_in@[i as int].1)->0,
                ));
            },
            _ => {
                assert(before + Seq::<(Seq<char>, Seq<char>, Option<Seq<char>>)>::empty() =~= before);
            },
        }
        i += 1;
    }
    assert(w.opt_in@.take(w.opt_in.len() as int) =~= w.opt_in@);
    r
}

/// The directory a path is in, as `Path::parent` gives it for a path with
/// no trailing `/`: everything before the last `/` (`/` itself for a file at
/// the root, nothing for a bare name), or the path itself when it is `/`.
pub open spec fn parent_spec(p: Seq<char>) -> Seq<char> {
    let k = text::last_of(p, '/');
    if k < 0 {
        Seq::empty()
    } else if k == 0 {
        if p.len() > 1 {
            "/"@
        } else {
            p
        }
    } else {
        p.take(k)
    }
}

pub fn parent(p: &str) -> (s: String)
    ensures
        s@ == parent_spec(p@),
{
    let v = text::chars_of(p);
    let k = text::last_index_of(&v, '/');
    match k {
        None => String::new(),
        Some(k) => {
            if k == 0 {
                if v.len() > 1 {
                    "/".to_string()
                } else {
                    p.to_string()
                }
            } else {
                assert(v@.subrange(0, k as int) =~= p@.take(k as int));
                text::from_range(&v, 0, k)
            }
        },
    }
}

/// What the hooks line says when there are two amx on the PATH.
pub open spec fn two_amx() -> Seq<char> {
    "the hooks report to the amx the PATH finds, and each amx judges its own wiring; install once, and make the other a symlink to it or take it off the PATH"@
}


// ---- paths compared the way `Path` compares them ----

/// Whether the `k`th `/`-separated segment of a path is one of its
/// components: empty segments (doubled or trailing slashes) never are, and
/// `.` is one only at the very start of a relative path.
pub open spec fn kept_segment(seg: Seq<char>, k: int, absolute: bool) -> bool {
    seg.len() > 0 && (seg != "."@ || (k == 0 && !absolute))
}

pub open spec fn parts_from(segs: Seq<Seq<char>>, n: int, absolute: bool) -> Seq<Seq<char>>
    decreases n,
{
    if n <= 0 || n > segs.len() {
        seq![]
    } else if kept_segment(segs[n - 1], n - 1, absolute) {
        parts_from(segs, n - 1, absolute).push(segs[n - 1])
    } else {
        parts_from(segs, n - 1, absolute)
    }
}

/// A path's components, as `Path::components` reads them on Unix.
pub open spec fn parts(p: Seq<char>) -> Seq<Seq<char>> {
    let segs = text::split_on(p, '/');
    parts_from(segs, segs.len() as int, text::starts_with(p, "/"@))
}

/// `Path`'s `==`: rooted alike, with the same components.
pub open spec fn same_path(a: Seq<char>, b: Seq<char>) -> bool {
    text::starts_with(a, "/"@) == text::starts_with(b, "/"@) && parts(a) == parts(b)
}

fn parts_of(p: &str) -> (r: Vec<String>)
    ensures
        texts(r) == parts(p@),
{
    let segs = text::split_text(p, '/');
    let absolute = text::starts_with_text(p, "/");
    let ghost sv = texts(segs);
    let mut r: Vec<String> = Vec::new();
    let mut k: usize = 0;
    while k < segs.len()
        invariant
            k <= segs.len(),
            sv == texts(segs),
            sv == text::split_on(p@, '/'),
            absolute == text::starts_with(p@, "/"@),
            texts(r) == parts_from(sv, k as int, absolute),
        decreases segs.len() - k,
    {
        let seg = segs[k].as_str();
        let keep = !seg.is_empty() && (!text::same_text(seg, ".") || (k == 0 && !absolute));
        if keep {
            let ghost before = texts(r);
            r.push(segs[k].clone());
            assert(texts(r) =~= before.push(sv[k as int]));
        }
        k += 1;
    }
    r
}

pub fn same_file_path(a: &str, b: &str) -> (r: bool)
    ensures
        r == same_path(a@, b@),
{
    if text::starts_with_text(a, "/") != text::starts_with_text(b, "/") {
        return false;
    }
    let x = parts_of(a);
    let y = parts_of(b);
    if x.len() != y.len() {
        assert(texts(x).len() != texts(y).len());
        return false;
    }
    let mut i: usize = 0;
    while i < x.len()
        invariant
            i <= x.len(),
            x.len() == y.len(),
            texts(x) == parts(a@),
            texts(y) == parts(b@),
            forall|j: int| 0 <= j < i ==> texts(x)[j] == texts(y)[j],
        decreases x.len() - i,
    {
        if !text::same_text(x[i].as_str(), y[i].as_str()) {
            assert(texts(x)[i as int] != texts(y)[i as int]);
            return false;
        }
        i += 1;
    }
    assert(texts(x) =~= texts(y));
    true
}

/// The entries that are not the same path as `exe`, in order.
pub open spec fn other_paths(on: Seq<Seq<char>>, exe: Seq<char>) -> Seq<Seq<char>> {
    on.filter(|p: Seq<char>| !same_path(p, exe))
}

fn others_than(on: &Vec<String>, exe: &str) -> (r: Vec<String>)
    ensures
        texts(r) == other_paths(texts(*on), exe@),
{
    let ghost all = texts(*on);
    let mut r: Vec<String> = Vec::new();
    let mut i: usize = 0;
    while i < on.len()
        invariant
            i <= on.len(),
            all == texts(*on),
            texts(r) == other_paths(all.take(i as int), exe@),
        decreases on.len() - i,
    {
        assert(all.take(i + 1).drop_last() =~= all.take(i as int));
        let ghost before = texts(r);
        if !same_file_path(on[i].as_str(), exe) {
            r.push(on[i].clone());
            assert(texts(r) =~= before.push(all[i as int]));
        }
        assert(all.take(i + 1).last() == all[i as int]);
        proof {
            reveal(Seq::filter);
            assert(other_paths(all.take(i + 1), exe@) == if !same_path(all.take(i + 1).last(), exe@) {
                other_paths(all.take(i + 1).drop_last(), exe@).push(all.take(i + 1).last())
            } else {
                other_paths(all.take(i + 1).drop_last(), exe@)
            });
        }
        i += 1;
    }
    assert(all.take(on.len() as int) =~= all);
    r
}

/// Whether the amx the PATH finds is this one, and the only one.
pub open spec fn amx_spec(f: Findings) -> (Seq<char>, Seq<char>, Option<Seq<char>>) {
    let exe = f.exe@;
    let on = texts(f.on_path);
    let others = other_paths(on, exe);
    if on.len() == 0 {
        (
            "amx"@,
            exe + " is not on the PATH"@,
            Some(
                "a pi started by hand reports to the amx the PATH finds; put "@ + parent_spec(exe)
                    + " on it"@,
            ),
        )
    } else if others.len() == 0 {
        ("amx"@, exe + ", the only amx on the PATH"@, None)
    } else if same_path(on[0], exe) {
        (
            "amx"@,
            exe + " is first on the PATH, which also finds "@ + joined_with(others, ", "@),
            Some(two_amx()),
        )
    } else {
        ("amx"@, "this amx is "@ + exe + ", but the PATH finds "@ + on[0] + " first"@, Some(two_amx()))
    }
}

pub fn amx_check(f: &Findings) -> (c: Check)
    ensures
        check_view(c) == amx_spec(*f),
{
    let exe = f.exe.as_str();
    if f.on_path.len() == 0 {
        let dir = parent(exe);
        let mut r = text::joined("a pi started by hand reports to the amx the PATH finds; put ", dir.as_str());
        r.append(" on it");
        return wrong("amx", text::joined(exe, " is not on the PATH"), r);
    }
    let others = others_than(&f.on_path, exe);
    if others.len() == 0 {
        return ok("amx", text::joined(exe, ", the only amx on the PATH"));
    }
    let first = f.on_path[0].as_str();
    assert(texts(f.on_path)[0] == first@);
    let what = if same_file_path(first, exe) {
        let mut s = text::joined(exe, " is first on the PATH, which also finds ");
        let all = text::join(&others, ", ");
        s.append(all.as_str());
        s
    } else {
        let mut s = text::joined("this amx is ", exe);
        s.append(", but the PATH finds ");
        s.append(first);
        s.append(" first");
        s
    };
    wrong(
        "amx",
        what,
        "the hooks report to the amx the PATH finds, and each amx judges its own wiring; install once, and make the other a symlink to it or take it off the PATH".to_string(),
    )
}

/// How a tmux command line names this socket.
pub open spec fn address_spec(s: Socket) -> Seq<char> {
    match s {
        Socket::Name(n) => "-L "@ + n@,
        Socket::Path(p) => "-S "@ + p@,
    }
}

pub fn address(s: &Socket) -> (r: String)
    ensures
        r@ == address_spec(*s),
{
    match s {
        Socket::Name(n) => text::joined("-L ", n.as_str()),
        Socket::Path(p) => text::joined("-S ", p.as_str()),
    }
}

/// Whether the server amx would use is still standing somewhere that
/// exists; nothing at all where there is no server to ask about.
pub open spec fn server_spec(f: Findings) -> Option<(Seq<char>, Seq<char>, Option<Seq<char>>)> {
    match f.server {
        None => None,
        Some(st) => {
            let pid = decimal(st.cwd.pid as nat);
            if st.cwd.stale {
                Some(
                    (
                        "server"@,
                        "tmux server "@ + pid + "'s directory is gone: "@ + st.cwd.path@,
                        Some(
                            "every pane it starts inherits that and dies at once; restart it: tmux "@
                                + address_spec(st.socket) + " kill-server"@,
                        ),
                    ),
                )
            } else {
                Some(("server"@, "tmux server "@ + pid + " in "@ + st.cwd.path@, None))
            }
        },
    }
}

pub fn server_check(f: &Findings) -> (r: Option<Check>)
    ensures
        match server_spec(*f) {
            None => r is None,
            Some(c) => r matches Some(x) && check_view(x) == c,
        },
{
    match &f.server {
        None => None,
        Some(st) => {
            let pid = text::number(st.cwd.pid as u64);
            if st.cwd.stale {
                let mut s = text::joined("tmux server ", pid.as_str());
                s.append("'s directory is gone: ");
                s.append(st.cwd.path.as_str());
                let mut r = "every pane it starts inherits that and dies at once; restart it: tmux ".to_string();
                let a = address(&st.socket);
                r.append(a.as_str());
                r.append(" kill-server");
                Some(wrong("server", s, r))
            } else {
                let mut s = text::joined("tmux server ", pid.as_str());
                s.append(" in ");
                s.append(st.cwd.path.as_str());
                Some(ok("server", s))
            }
        },
    }
}

/// Whether amx can keep an agent in its state root.
pub open spec fn state_spec(f: Findings) -> (Seq<char>, Seq<char>, Option<Seq<char>>) {
    match f.state_error {
        None => ("state"@, f.state_root@, None),
        Some(why) => (
            "state"@,
            why@,
            Some("amx keeps every agent there, so until that is fixed it has nowhere to put one"@),
        ),
    }
}

pub fn state_check(f: &Findings) -> (c: Check)
    ensures
        check_view(c) == state_spec(*f),
{
    match &f.state_error {
        None => ok("state", f.state_root.clone()),
        Some(why) => wrong(
            "state",
            why.clone(),
            "amx keeps every agent there, so until that is fixed it has nowhere to put one".to_string(),
        ),
    }
}

/// Whether any handoff still carries the spawner's environment inline.
pub open spec fn env_spec(n: nat) -> (Seq<char>, Seq<char>, Option<Seq<char>>) {
    if n == 0 {
        ("env"@, "no handoff.json still carries the environment inline"@, None)
    } else if n == 1 {
        (
            "env"@,
            "one handoff.json still carries the environment inline"@,
            Some("run `amx doctor --fix`"@),
        )
    } else {
        (
            "env"@,
            decimal(n) + " handoff.json files still carry the environment inline"@,
            Some("run `amx doctor --fix`"@),
        )
    }
}

/// `dirty` is how many handoffs still carry the environment.
pub fn env_check(dirty: usize) -> (c: Check)
    ensures
        check_view(c) == env_spec(dirty as nat),
{
    let n = dirty;
    if n == 0 {
        return ok("env", "no handoff.json still carries the environment inline".to_string());
    }
    let what = if n == 1 {
        "one handoff.json still carries the environment inline".to_string()
    } else {
        let d = text::number(n as u64);
        text::joined(d.as_str(), " handoff.json files still carry the environment inline")
    };
    wrong("env", what, "run `amx doctor --fix`".to_string())
}

/// What is in the way, worded for the line that names the agent it stopped.
pub open spec fn says_spec(s: Setup) -> Seq<char> {
    match s {
        Setup::Gate { screen, .. } => "its vendor's "@ + screen@ + " screen"@,
        Setup::Unread => "an opening screen amx has no rule for"@,
    }
}

/// Each parked agent, named with what it is stopped at.
pub open spec fn each_parked(ps: Seq<Parked>) -> Seq<Seq<char>> {
    ps.map_values(|p: Parked| p.id@ + " at "@ + says_spec(p.screen))
}

/// Whether any agent is stopped at a screen its vendor puts first, every one
/// of them named, and the first offered as the one to start with.
pub open spec fn setup_spec(f: Findings) -> (Seq<char>, Seq<char>, Option<Seq<char>>) {
    let ps = f.parked@;
    if ps.len() == 0 {
        ("gate"@, "no agent is stopped at a screen its vendor puts first"@, None)
    } else {
        let each = each_parked(ps);
        let what = if ps.len() == 1 {
            each[0]
        } else {
            decimal(ps.len()) + " agents are stopped: "@ + joined_with(each, ", "@)
        };
        let remedy = match ps[0].screen {
            Setup::Gate { trust: true, .. } => "answer it yourself: amx attach "@ + ps[0].id@
                + ", or set trust = true in the config and amx answers it for any linked worktree"@,
            _ => "answer it yourself: amx attach "@ + ps[0].id@,
        };
        ("gate"@, what, Some(remedy))
    }
}

fn says(s: &Setup) -> (r: String)
    ensures
        r@ == says_spec(*s),
{
    match s {
        Setup::Gate { screen, .. } => {
            let mut r = text::joined("its vendor's ", screen.as_str());
            r.append(" screen");
            r
        },
        Setup::Unread => "an opening screen amx has no rule for".to_string(),
    }
}

pub fn setup_check(f: &Findings) -> (c: Check)
    ensures
        check_view(c) == setup_spec(*f),
{
    if f.parked.len() == 0 {
        return ok("gate", "no agent is stopped at a screen its vendor puts first".to_string());
    }
    let ghost want = each_parked(f.parked@);
    let mut each: Vec<String> = Vec::new();
    let mut i: usize = 0;
    while i < f.parked.len()
        invariant
            i <= f.parked.len(),
            want == each_parked(f.parked@),
            texts(each) == want.take(i as int),
        decreases f.parked.len() - i,
    {
        let mut s = text::joined(f.parked[i].id.as_str(), " at ");
        let w = says(&f.parked[i].screen);
        s.append(w.as_str());
        let ghost before = texts(each);
        each.push(s);
        assert(texts(each) =~= before.push(s@));
        assert(want[i as int] == s@);
        assert(want.take(i + 1) =~= want.take(i as int).push(want[i as int]));
        assert(texts(each) =~= want.take(i + 1));
        i += 1;
    }
    assert(want.take(f.parked.len() as int) =~= want);
    let what = if f.parked.len() == 1 {
        assert(texts(each)[0] == each@[0]@);
        each[0].clone()
    } else {
        let n = text::number(f.parked.len() as u64);
        let mut s = text::joined(n.as_str(), " agents are stopped: ");
        let all = text::join(&each, ", ");
        s.append(all.as_str());
        s
    };
    let first = &f.parked[0];
    let remedy = match &first.screen {
        Setup::Gate { trust: true, .. } => {
            let mut r = text::joined("answer it yourself: amx attach ", first.id.as_str());
            r.append(", or set trust = true in the config and amx answers it for any linked worktree");
            r
        },
        _ => text::joined("answer it yourself: amx attach ", first.id.as_str()),
    };
    wrong("gate", what, remedy)
}

/// Whether the vendor's own trust store still names trees amx cut and
/// removed; nothing to ask of a vendor that keeps no such store.
pub open spec fn store_spec(f: Findings, n: nat) -> (Seq<char>, Seq<char>, Option<Seq<char>>) {
    match f.store {
        None => ("store"@, program_spec(f.vendor@) + " keeps no store amx writes trees into"@, None),
        Some(st) => {
            if n == 0 {
                ("store"@, "no tree amx cut is left in "@ + st@, None)
            } else if n == 1 {
                (
                    "store"@,
                    "one tree amx cut is gone and still in "@ + st@,
                    Some("run `amx doctor --fix`"@),
                )
            } else {
                (
                    "store"@,
                    decimal(n) + " trees amx cut are gone and still in "@ + st@,
                    Some("run `amx doctor --fix`"@),
                )
            }
        },
    }
}

/// `stale` is how many trees the store still names that are gone.
pub fn store_check(f: &Findings, stale: usize) -> (c: Check)
    ensures
        check_view(c) == store_spec(*f, stale as nat),
{
    match &f.store {
        None => {
            let p = program(f.vendor.as_str());
            ok("store", text::joined(p.as_str(), " keeps no store amx writes trees into"))
        },
        Some(st) => {
            let n = stale;
            if n == 0 {
                return ok("store", text::joined("no tree amx cut is left in ", st.as_str()));
            }
            let what = if n == 1 {
                text::joined("one tree amx cut is gone and still in ", st.as_str())
            } else {
                let d = text::number(n as u64);
                let mut s = text::joined(d.as_str(), " trees amx cut are gone and still in ");
                s.append(st.as_str());
                s
            };
            wrong("store", what, "run `amx doctor --fix`".to_string())
        },
    }
}

/// Whether an agent started in the directory doctor was pointed at would
/// meet its vendor's folder-trust screen, when it was pointed at one.
pub open spec fn folder_spec(f: Findings) -> Option<(Seq<char>, Seq<char>, Option<Seq<char>>)> {
    match f.folder {
        None => None,
        Some(fo) => {
            let who = program_spec(f.vendor@);
            let dir = fo.dir@;
            Some(
                match fo.covered {
                    None => ("trust"@, who + " keeps no store amx reads a folder's answer from"@, None),
                    Some(true) => (
                        "trust"@,
                        who + " starts in "@ + dir + " without its folder-trust screen"@,
                        None,
                    ),
                    Some(false) => if fo.trust && fo.repo is Some {
                        (
                            "trust"@,
                            who + " would ask about "@ + dir
                                + ", and amx answers for a linked worktree at the spawn"@,
                            None,
                        )
                    } else {
                        (
                            "trust"@,
                            who + " would stop at its folder-trust screen in "@ + dir,
                            Some(
                                match fo.repo {
                                    Some(r) => "start "@ + who + " in "@ + r@
                                        + " once and answer it yourself, or set trust = true in the config and amx answers it for any linked worktree"@,
                                    None => "start "@ + who + " in "@ + dir
                                        + " once and answer it yourself"@,
                                },
                            ),
                        )
                    },
                },
            )
        },
    }
}

pub fn folder_check(f: &Findings) -> (r: Option<Check>)
    ensures
        match folder_spec(*f) {
            None => r is None,
            Some(c) => r matches Some(x) && check_view(x) == c,
        },
{
    match &f.folder {
        None => None,
        Some(fo) => {
            let who = program(f.vendor.as_str());
            let w = who.as_str();
            let dir = fo.dir.as_str();
            Some(
                match fo.covered {
                    None => ok("trust", text::joined(w, " keeps no store amx reads a folder's answer from")),
                    Some(true) => {
                        let mut s = text::joined(w, " starts in ");
                        s.append(dir);
                        s.append(" without its folder-trust screen");
                        ok("trust", s)
                    },
                    Some(false) => {
                        if fo.trust && fo.repo.is_some() {
                            let mut s = text::joined(w, " would ask about ");
                            s.append(dir);
                            s.append(", and amx answers for a linked worktree at the spawn");
                            ok("trust", s)
                        } else {
                            let mut s = text::joined(w, " would stop at its folder-trust screen in ");
                            s.append(dir);
                            let r = match &fo.repo {
                                Some(repo) => {
                                    let mut r = text::joined("start ", w);
                                    r.append(" in ");
                                    r.append(repo.as_str());
                                    r.append(" once and answer it yourself, or set trust = true in the config and amx answers it for any linked worktree");
                                    r
                                },
                                None => {
                                    let mut r = text::joined("start ", w);
                                    r.append(" in ");
                                    r.append(dir);
                                    r.append(" once and answer it yourself");
                                    r
                                },
                            };
                            wrong("trust", s, r)
                        }
                    },
                },
            )
        },
    }
}

/// A check as plain values.
pub type CheckView = (Seq<char>, Seq<char>, Option<Seq<char>>);

/// Every agent's opt-in lines, agent by agent.
pub open spec fn all_opt_ins(ws: Seq<VendorWiring>) -> Seq<CheckView>
    decreases ws.len(),
{
    if ws.len() == 0 {
        Seq::empty()
    } else {
        all_opt_ins(ws.drop_last()) + opt_ins_spec(ws.last().vendor@, ws.last().opt_in@)
    }
}

/// The check that is there, or none.
pub open spec fn maybe(c: Option<CheckView>) -> Seq<CheckView> {
    match c {
        Some(c) => seq![c],
        None => Seq::empty(),
    }
}

/// Every check, in the order they are printed, with `dirty` handoffs still
/// carrying the environment and `stale` trees still named in the store.
pub open spec fn report_with(f: Findings, dirty: nat, stale: nat) -> Seq<CheckView> {
    seq![tmux_spec(f.tmux), vendor_spec(f), config_spec(f)] + f.wirings@.map_values(
        |w: VendorWiring| wiring_spec(w),
    ) + all_opt_ins(f.wirings@) + seq![amx_spec(f), state_spec(f), env_spec(dirty)] + maybe(
        server_spec(f),
    ) + seq![setup_spec(f), store_spec(f, stale)] + maybe(folder_spec(f))
}

/// Every check of what was found.
pub open spec fn report_spec(f: Findings) -> Seq<CheckView> {
    report_with(f, f.dirty_handoffs@.len(), f.stale@.len())
}

/// The checks as plain values.
pub open spec fn views_of(cs: Seq<Check>) -> Seq<CheckView> {
    cs.map_values(|c: Check| check_view(c))
}

/// Append these checks.
fn put_all(r: &mut Vec<Check>, more: Vec<Check>)
    ensures
        views_of(final(r)@) == views_of(old(r)@) + views_of(more@),
{
    let ghost start = views_of(r@);
    let ghost add = views_of(more@);
    let mut i: usize = 0;
    let n = more.len();
    while i < n
        invariant
            i <= n == more.len(),
            add == views_of(more@),
            views_of(r@) == start + add.take(i as int),
        decreases n - i,
    {
        let c = more[i].clone_check();
        let ghost before = views_of(r@);
        r.push(c);
        assert(views_of(r@) =~= before.push(add[i as int]));
        assert(add.take(i + 1) =~= add.take(i as int).push(add[i as int]));
        i += 1;
    }
    assert(add.take(n as int) =~= add);
}

impl Check {
    /// A copy of this check, field for field.
    pub fn clone_check(&self) -> (c: Check)
        ensures
            check_view(c) == check_view(*self),
    {
        Check {
            name: self.name.clone(),
            found: self.found.clone(),
            remedy: match &self.remedy {
                Some(r) => Some(r.clone()),
                None => None,
            },
        }
    }
}

/// Every check, with the counts given.
pub fn report_counted(f: &Findings, dirty: usize, stale: usize) -> (r: Vec<Check>)
    ensures
        views_of(r@) == report_with(*f, dirty as nat, stale as nat),
{
    let mut r: Vec<Check> = Vec::new();
    r.push(tmux_check(f.tmux));
    r.push(vendor_check(f));
    r.push(config_check(f));
    assert(views_of(r@) =~= seq![tmux_spec(f.tmux), vendor_spec(*f), config_spec(*f)]);
    let ghost head = views_of(r@);
    let ghost wired = f.wirings@.map_values(|w: VendorWiring| wiring_spec(w));
    let mut i: usize = 0;
    while i < f.wirings.len()
        invariant
            i <= f.wirings.len(),
            wired == f.wirings@.map_values(|w: VendorWiring| wiring_spec(w)),
            views_of(r@) == head + wired.take(i as int),
        decreases f.wirings.len() - i,
    {
        let ghost before = views_of(r@);
        r.push(wiring_check(&f.wirings[i]));
        assert(views_of(r@) =~= before.push(wired[i as int]));
        assert(wired.take(i + 1) =~= wired.take(i as int).push(wired[i as int]));
        i += 1;
    }
    assert(wired.take(f.wirings.len() as int) =~= wired);
    let ghost mid = views_of(r@);
    let mut j: usize = 0;
    while j < f.wirings.len()
        invariant
            j <= f.wirings.len(),
            views_of(r@) == mid + all_opt_ins(f.wirings@.take(j as int)),
        decreases f.wirings.len() - j,
    {
        let more = opt_in_checks(&f.wirings[j]);
        put_all(&mut r, more);
        assert(f.wirings@.take(j + 1).drop_last() =~= f.wirings@.take(j as int));
        assert(views_of(r@) =~= mid + all_opt_ins(f.wirings@.take(j + 1)));
        j += 1;
    }
    assert(f.wirings@.take(f.wirings.len() as int) =~= f.wirings@);
    let ghost before_amx = views_of(r@);
    r.push(amx_check(f));
    r.push(state_check(f));
    r.push(env_check(dirty));
    assert(views_of(r@) =~= before_amx + seq![amx_spec(*f), state_spec(*f), env_spec(dirty as nat)]);
    let ghost before_server = views_of(r@);
    match server_check(f) {
        Some(c) => {
            r.push(c);
        },
        None => {},
    }
    assert(views_of(r@) =~= before_server + maybe(server_spec(*f)));
    let ghost before_setup = views_of(r@);
    r.push(setup_check(f));
    r.push(store_check(f, stale));
    assert(views_of(r@) =~= before_setup + seq![setup_spec(*f), store_spec(*f, stale as nat)]);
    let ghost before_folder = views_of(r@);
    match folder_check(f) {
        Some(c) => {
            r.push(c);
        },
        None => {},
    }
    assert(views_of(r@) =~= before_folder + maybe(folder_spec(*f)));
    assert(views_of(r@) =~= report_with(*f, dirty as nat, stale as nat));
    r
}

/// Judge what was found.
pub fn report(f: &Findings) -> (r: Vec<Check>)
    ensures
        views_of(r@) == report_spec(*f),
{
    report_counted(f, f.dirty_handoffs.len(), f.stale.len())
}

/// Whether every one of these checks is fine.
pub open spec fn all_ok(cs: Seq<CheckView>) -> bool {
    forall|i: int| 0 <= i < cs.len() ==> (#[trigger] cs[i]).2 is None
}

/// One check as it is printed: `ok` or `no`, the name in a column seven
/// wide, what was found, and under a failing one what to do about it.
pub open spec fn line_of(c: CheckView) -> Seq<char> {
    match c.2 {
        None => "  ok  "@ + text::pad_right(c.0, 7) + " "@ + c.1 + "\n"@,
        Some(r) => "  no  "@ + text::pad_right(c.0, 7) + " "@ + c.1 + "\n         "@ + r + "\n"@,
    }
}

/// The checks as they are printed, one after another.
pub open spec fn printed(cs: Seq<CheckView>) -> Seq<char>
    decreases cs.len(),
{
    if cs.len() == 0 {
        Seq::empty()
    } else {
        printed(cs.drop_last()) + line_of(cs.last())
    }
}

/// Whether a run with `fix` cleans handoffs: only where there are some.
pub open spec fn cleans(f: Findings, fix: bool) -> bool {
    fix && f.dirty_handoffs@.len() > 0
}

/// Whether a run with `fix` forgets trees: only where the store names some.
pub open spec fn forgets(f: Findings, fix: bool) -> bool {
    fix && f.stale@.len() > 0 && f.store is Some
}

/// What a run says of the repairs it made.
pub open spec fn repairs_text(f: Findings, fix: bool, cleaned: nat, forgotten: nat) -> Seq<char> {
    (if cleans(f, fix) {
        "\ncleaned the environment out of "@ + decimal(cleaned) + " handoff.json "@ + (if cleaned
            == 1 {
            "file"@
        } else {
            "files"@
        }) + "\n"@
    } else {
        Seq::empty()
    }) + (if forgets(f, fix) {
        "\nforgot "@ + decimal(forgotten) + " "@ + (if forgotten == 1 {
            "tree"@
        } else {
            "trees"@
        }) + " from "@ + f.store->0@ + "\n"@
    } else {
        Seq::empty()
    })
}

/// The checks once the repairs a run made are made.
pub open spec fn after_spec(f: Findings, fix: bool) -> Seq<CheckView> {
    report_with(
        f,
        if cleans(f, fix) {
            0
        } else {
            f.dirty_handoffs@.len()
        },
        if forgets(f, fix) {
            0
        } else {
            f.stale@.len()
        },
    )
}

/// What a run prints and answers. With `fix`, the handoffs still carrying
/// the environment are cleaned (`cleaned` is how many needed it) and the
/// stale trees forgotten from the store (`forgotten` is how many had a key
/// to take out); the exit code is the report's once those repairs are made.
pub open spec fn run_spec(f: Findings, fix: bool, cleaned: nat, forgotten: nat) -> (i32, Seq<char>) {
    (
        if all_ok(after_spec(f, fix)) {
            exit::OK
        } else {
            exit::FAILURE
        },
        printed(report_spec(f)) + repairs_text(f, fix, cleaned, forgotten),
    )
}

#[verifier::rlimit(40)]
fn put_repairs(out: &mut String, f: &Findings, fix: bool, cleaned: usize, forgotten: usize)
    ensures
        final(out)@ == old(out)@ + repairs_text(*f, fix, cleaned as nat, forgotten as nat),
{
    let ghost start = out@;
    if fix && f.dirty_handoffs.len() > 0 {
        out.append("\ncleaned the environment out of ");
        let n = text::number(cleaned as u64);
        out.append(n.as_str());
        out.append(" handoff.json ");
        if cleaned == 1 {
            out.append("file");
        } else {
            out.append("files");
        }
        out.append("\n");
    }
    let ghost mid = out@;
    if fix && f.stale.len() > 0 && f.store.is_some() {
        out.append("\nforgot ");
        let n = text::number(forgotten as u64);
        out.append(n.as_str());
        out.append(" ");
        if forgotten == 1 {
            out.append("tree");
        } else {
            out.append("trees");
        }
        out.append(" from ");
        match &f.store {
            Some(st) => out.append(st.as_str()),
            None => {},
        }
        out.append("\n");
    }
    assert(out@ =~= start + repairs_text(*f, fix, cleaned as nat, forgotten as nat));
}

fn put_line(out: &mut String, c: &Check)
    ensures
        final(out)@ == old(out)@ + line_of(check_view(*c)),
{
    match &c.remedy {
        None => {
            out.append("  ok  ");
            let n = text::padded(c.name.as_str(), 7);
            out.append(n.as_str());
            out.append(" ");
            out.append(c.found.as_str());
            out.append("\n");
        },
        Some(r) => {
            out.append("  no  ");
            let n = text::padded(c.name.as_str(), 7);
            out.append(n.as_str());
            out.append(" ");
            out.append(c.found.as_str());
            out.append("\n         ");
            out.append(r.as_str());
            out.append("\n");
        },
    }
}

/// Whether every check is fine.
fn every_ok(cs: &Vec<Check>) -> (b: bool)
    ensures
        b == all_ok(views_of(cs@)),
{
    let mut i: usize = 0;
    while i < cs.len()
        invariant
            i <= cs.len(),
            forall|j: int| 0 <= j < i ==> (#[trigger] views_of(cs@)[j]).2 is None,
        decreases cs.len() - i,
    {
        assert(views_of(cs@)[i as int] == check_view(cs@[i as int]));
        if !cs[i].is_ok() {
            return false;
        }
        i += 1;
    }
    true
}

/// Print the checks, say what the repairs came to, and answer with an exit
/// code: zero when there is nothing left to do.
pub fn run(f: &Findings, fix: bool, cleaned: usize, forgotten: usize) -> (r: (i32, String))
    ensures
        r.0 == run_spec(*f, fix, cleaned as nat, forgotten as nat).0,
        r.1@ == run_spec(*f, fix, cleaned as nat, forgotten as nat).1,
{
    let checks = report(f);
    let ghost all = views_of(checks@);
    let mut out = String::new();
    let mut i: usize = 0;
    while i < checks.len()
        invariant
            i <= checks.len(),
            all == views_of(checks@),
            out@ == printed(all.take(i as int)),
        decreases checks.len() - i,
    {
        put_line(&mut out, &checks[i]);
        assert(all.take(i + 1).drop_last() =~= all.take(i as int));
        i += 1;
    }
    assert(all.take(checks.len() as int) =~= all);
    put_repairs(&mut out, f, fix, cleaned, forgotten);
    let cleaning = fix && f.dirty_handoffs.len() > 0;
    let forgetting = fix && f.stale.len() > 0 && f.store.is_some();
    let after = report_counted(
        f,
        if cleaning {
            0
        } else {
            f.dirty_handoffs.len()
        },
        if forgetting {
            0
        } else {
            f.stale.len()
        },
    );
    let code = if every_ok(&after) {
        exit::OK
    } else {
        exit::FAILURE
    };
    (code, out)
}

/// The exit code is zero exactly when every check is fine, once what `fix`
/// repairs is repaired; without `fix`, exactly when every check of the
/// report is fine.
pub proof fn the_exit_code_is_every_check(f: Findings, cleaned: nat, forgotten: nat)
    ensures
        (run_spec(f, false, cleaned, forgotten).0 == exit::OK) == all_ok(report_spec(f)),
        run_spec(f, false, cleaned, forgotten).0 == exit::OK || run_spec(
            f,
            false,
            cleaned,
            forgotten,
        ).0 == exit::FAILURE,
{
}

/// A report has one check for each of the things every machine is asked,
/// one hooks line per agent and one per opt-in it has on disk, one for the
/// server exactly when one is running and one for a folder exactly when one
/// was named; the server's comes straight after `env`, and the folder's is
/// the last.
pub proof fn a_report_has_a_line_for_everything_asked(f: Findings)
    ensures
        report_spec(f).len() == 8 + f.wirings@.len() + all_opt_ins(f.wirings@).len() + (if f.server
            is Some {
            1int
        } else {
            0int
        }) + (if f.folder is Some {
            1int
        } else {
            0int
        }),
        f.server is Some ==> report_spec(f)[(6 + f.wirings@.len() + all_opt_ins(f.wirings@).len()) as int].0
            == "server"@,
        f.folder is Some ==> report_spec(f).last().0 == "trust"@,
{
    let head = seq![tmux_spec(f.tmux), vendor_spec(f), config_spec(f)] + f.wirings@.map_values(
        |w: VendorWiring| wiring_spec(w),
    ) + all_opt_ins(f.wirings@) + seq![amx_spec(f), state_spec(f), env_spec(f.dirty_handoffs@.len())];
    assert(head.len() == 6 + f.wirings@.len() + all_opt_ins(f.wirings@).len());
    let r = report_spec(f);
    assert(r == head + maybe(server_spec(f)) + seq![setup_spec(f), store_spec(f, f.stale@.len())]
        + maybe(folder_spec(f)));
    if f.server is Some {
        assert(server_spec(f) is Some);
        assert(r[head.len() as int] == server_spec(f)->0);
    }
    if f.folder is Some {
        assert(folder_spec(f) is Some);
        assert(r.last() == folder_spec(f)->0);
    }
}

/// What `fix` mends it mends: after a fix, the handoffs and the store are
/// judged as clean, whatever they were.
pub proof fn fix_leaves_nothing_of_its_own_to_fix(f: Findings, cleaned: nat, forgotten: nat)
    requires
        f.store is Some,
    ensures
        run_spec(f, true, cleaned, forgotten).0 == exit::OK <==> all_ok(report_with(f, 0, 0)),
{
    if f.dirty_handoffs@.len() == 0 && f.stale@.len() == 0 {
        assert(report_with(f, 0, 0) == report_spec(f));
    } else if f.dirty_handoffs@.len() == 0 {
        assert(report_with(f, 0, 0) == report_with(f, f.dirty_handoffs@.len(), 0));
    } else if f.stale@.len() == 0 {
        assert(report_with(f, 0, 0) == report_with(f, 0, f.stale@.len()));
    }
}



/// Each check is said in its own entry, in order: `  ok  ` for one that
/// passes and `  no  ` with its remedy under it for one that does not.
pub proof fn one_entry_per_check_in_order(cs: Seq<CheckView>, k: int)
    requires
        0 <= k <= cs.len(),
    ensures
        printed(cs) == printed(cs.take(k)) + printed(cs.skip(k)),
        k < cs.len() ==> printed(cs.skip(k)) == line_of(cs[k]) + printed(cs.skip(k + 1)),
        k < cs.len() ==> text::starts_with(line_of(cs[k]), if cs[k].2 is None {
            "  ok  "@
        } else {
            "  no  "@
        }),
{
    if cs.len() > 0 {
        lemma_printed_split(cs, k);
        if k < cs.len() {
            lemma_printed_split(cs.skip(k), 1);
            assert(cs.skip(k).take(1) =~= seq![cs[k]]);
            assert(cs.skip(k).skip(1) =~= cs.skip(k + 1));
            assert(printed(seq![cs[k]]) == printed(seq![cs[k]].drop_last()) + line_of(cs[k]));
            assert(seq![cs[k]].drop_last() =~= Seq::<CheckView>::empty());
            let line = line_of(cs[k]);
            match cs[k].2 {
                None => {
                    assert(line.take("  ok  "@.len() as int) =~= "  ok  "@);
                },
                Some(r) => {
                    assert(line.take("  no  "@.len() as int) =~= "  no  "@);
                },
            }
        }
    } else {
        assert(cs.take(k) =~= cs);
        assert(cs.skip(k) =~= cs);
    }
}

proof fn lemma_printed_split(cs: Seq<CheckView>, k: int)
    requires
        0 <= k <= cs.len(),
    ensures
        printed(cs) == printed(cs.take(k)) + printed(cs.skip(k)),
    decreases cs.len() - k,
{
    if k == cs.len() {
        assert(cs.take(k) =~= cs);
        assert(cs.skip(k) =~= Seq::<CheckView>::empty());
        assert(printed(cs) + Seq::<char>::empty() =~= printed(cs));
    } else {
        lemma_printed_split(cs, k + 1);
        lemma_printed_tail(cs.skip(k));
        assert(cs.take(k + 1) =~= cs.take(k).push(cs[k]));
        assert(cs.take(k + 1).drop_last() =~= cs.take(k));
        assert(cs.skip(k).skip(1) =~= cs.skip(k + 1));
        assert(printed(cs.take(k + 1)) == printed(cs.take(k)) + line_of(cs[k]));
    }
}

proof fn lemma_printed_tail(cs: Seq<CheckView>)
    requires
        cs.len() > 0,
    ensures
        printed(cs) == line_of(cs[0]) + printed(cs.skip(1)),
    decreases cs.len(),
{
    if cs.len() == 1 {
        assert(cs.drop_last() =~= Seq::<CheckView>::empty());
        assert(cs.skip(1) =~= Seq::<CheckView>::empty());
    } else {
        lemma_printed_tail(cs.drop_last());
        assert(cs.drop_last().skip(1) =~= cs.skip(1).drop_last());
        assert(cs.skip(1).last() == cs.last());
    }
}

/// `--fix` over handoffs that carry the environment says how many it
/// cleaned, after every check, and answers by the checks as they stand once
/// the handoffs are clean.
pub proof fn fix_says_how_many_handoffs_it_cleaned(f: Findings, cleaned: nat, forgotten: nat)
    requires
        f.dirty_handoffs@.len() > 0,
        !(f.stale@.len() > 0 && f.store is Some),
    ensures
        run_spec(f, true, cleaned, forgotten).1 == printed(report_spec(f))
            + "\ncleaned the environment out of "@ + decimal(cleaned) + " handoff.json "@ + (if cleaned == 1 {
            "file"@
        } else {
            "files"@
        }) + "\n"@,
        (run_spec(f, true, cleaned, forgotten).0 == exit::OK) == all_ok(report_with(f, 0, f.stale@.len())),
{
    let t = "\ncleaned the environment out of "@ + decimal(cleaned) + " handoff.json "@ + (if cleaned == 1 {
        "file"@
    } else {
        "files"@
    }) + "\n"@;
    assert(repairs_text(f, true, cleaned, forgotten) =~= t);
}

/// Why the state root is no place to keep records: the root itself where it
/// exists and cannot be read and written, else the nearest directory above
/// it that does exist, where it would be made, and cannot be written. `why`
/// is what the operating system said.
pub open spec fn unusable_spec(root: Seq<char>, dir: Seq<char>, why: Seq<char>) -> Seq<char> {
    if dir == root {
        dir + " is not readable and writable: "@ + why
    } else {
        root + " would be made in "@ + dir + ", which is not writable: "@ + why
    }
}

pub fn unusable(root: &str, dir: &str, why: &str) -> (s: String)
    ensures
        s@ == unusable_spec(root@, dir@, why@),
{
    if text::same_text(dir, root) {
        let mut s = text::joined(dir, " is not readable and writable: ");
        s.append(why);
        s
    } else {
        let mut s = text::joined(root, " would be made in ");
        s.append(dir);
        s.append(", which is not writable: ");
        s.append(why);
        s
    }
}

/// One agent among the ones that never got past the vendor's own setup: one
/// waiting on a screen a setup rule of its vendor's claims, under that
/// rule's name; or one whose record never left `starting` and whose screen
/// nothing accounts for. `gate` is the claiming rule's name, and whether it is
/// the folder-trust screen of a vendor amx answers that for.
pub open spec fn parked_spec(id: Seq<char>, read: Phase, recorded: Phase, gate: Option<(Seq<char>, bool)>) -> Option<(Seq<char>, Option<(Seq<char>, bool)>)> {
    match gate {
        Some(g) => if read == Phase::Waiting {
            Some((id, Some(g)))
        } else if recorded == Phase::Starting && read == Phase::Unknown {
            Some((id, None))
        } else {
            None
        },
        None => if recorded == Phase::Starting && read == Phase::Unknown {
            Some((id, None))
        } else {
            None
        },
    }
}

pub open spec fn parked_view(p: Parked) -> (Seq<char>, Option<(Seq<char>, bool)>) {
    (p.id@, match p.screen {
        Setup::Gate { screen, trust } => Some((screen@, trust)),
        Setup::Unread => None,
    })
}

pub fn parked_of(id: &str, read: Phase, recorded: Phase, gate: Option<(&str, bool)>) -> (r: Option<Parked>)
    ensures
        r matches Some(p) ==> parked_spec(
            id@,
            read,
            recorded,
            match gate {
                Some((n, t)) => Some((n@, t)),
                None => None,
            },
        ) == Some(parked_view(p)),
        r is None ==> parked_spec(
            id@,
            read,
            recorded,
            match gate {
                Some((n, t)) => Some((n@, t)),
                None => None,
            },
        ) is None,
{
    match gate {
        Some((name, trust)) => {
            if read == Phase::Waiting {
                return Some(Parked { id: id.to_string(), screen: Setup::Gate { screen: name.to_string(), trust } });
            }
        },
        None => {},
    }
    if recorded == Phase::Starting && read == Phase::Unknown {
        Some(Parked { id: id.to_string(), screen: Setup::Unread })
    } else {
        None
    }
}

/// Each program the PATH finds, once, in the order it looks: a directory on
/// the PATH twice, or two links to one file, find the same program.
pub open spec fn first_seen(found: Seq<Seq<char>>, n: int) -> Seq<Seq<char>>
    decreases n,
{
    if n <= 0 || n > found.len() {
        seq![]
    } else if first_seen(found, n - 1).contains(found[n - 1]) {
        first_seen(found, n - 1)
    } else {
        first_seen(found, n - 1).push(found[n - 1])
    }
}

pub fn once_each(found: &Vec<String>) -> (r: Vec<String>)
    ensures
        texts(r) == first_seen(texts(*found), found.len() as int),
{
    let mut r: Vec<String> = Vec::new();
    let mut i: usize = 0;
    while i < found.len()
        invariant
            i <= found.len(),
            texts(r) == first_seen(texts(*found), i as int),
        decreases found.len() - i,
    {
        let mut seen = false;
        let mut k: usize = 0;
        while k < r.len()
            invariant
                k <= r.len(),
                i < found.len(),
                !seen ==> forall|j: int| 0 <= j < k ==> texts(r)[j] != texts(*found)[i as int],
                seen ==> texts(r).contains(texts(*found)[i as int]),
            decreases r.len() - k,
        {
            if text::same_text(r[k].as_str(), found[i].as_str()) {
                assert(texts(r)[k as int] == texts(*found)[i as int]);
                seen = true;
            }
            k += 1;
        }
        let ghost before = texts(r);
        assert(seen == before.contains(texts(*found)[i as int]));
        if !seen {
            r.push(found[i].clone());
            assert(texts(r) =~= before.push(texts(*found)[i as int]));
        }
        i += 1;
    }
    r
}


// ---- handoffs that still carry the spawner's environment ----

/// What a JSON text parses to, as far as its top level goes: `None` where
/// it is not JSON at all, `Some(None)` where it is JSON but not an object,
/// and otherwise the object's keys.
pub uninterp spec fn json_top_keys(text: Seq<char>) -> Option<Option<Seq<Seq<char>>>>;

/// The same JSON text with one top-level key taken out, written the way
/// `serde_json::to_string_pretty` writes it, where the text parses as an
/// object holding that key.
pub uninterp spec fn json_without_key(text: Seq<char>, key: Seq<char>) -> Option<Seq<char>>;

/// `serde_json::from_str` into a `Value`, then the keys of its object: the
/// result is `json_top_keys` of the text, and nothing more is claimed.
#[verifier::external_body]
pub(crate) fn top_keys(text: &str) -> (r: Option<Option<Vec<String>>>)
    ensures
        r matches Some(Some(v)) ==> json_top_keys(text@) == Some(Some(texts(v))),
        r matches Some(None) ==> json_top_keys(text@) == Some(None::<Seq<Seq<char>>>),
        r is None ==> json_top_keys(text@) is None,
{
    let doc: serde_json::Value = serde_json::from_str(text).ok()?;
    Some(doc.as_object().map(|object| object.keys().cloned().collect()))
}

/// `serde_json::from_str`, `Map::remove` of the key, then
/// `serde_json::to_string_pretty`: the result is `json_without_key` of the
/// text and the key. And what is written is an object again, one that no
/// longer holds the key: the map the writer is handed has lost it.
#[verifier::external_body]
pub(crate) fn without_key(text: &str, key: &str) -> (r: Option<String>)
    ensures
        r matches Some(s) ==> json_without_key(text@, key@) == Some(s@),
        r matches Some(s) ==> (json_top_keys(s@) matches Some(Some(ks)) && !ks.contains(key@)),
        r is None ==> json_without_key(text@, key@) is None,
{
    let mut doc: serde_json::Value = serde_json::from_str(text).ok()?;
    doc.as_object_mut()?.remove(key)?;
    serde_json::to_string_pretty(&doc).ok()
}

/// Whether a handoff's text still carries the spawner's environment inline:
/// it parses as an object, and `env` is one of its keys.
pub open spec fn carries_env_spec(text: Seq<char>) -> bool {
    json_top_keys(text) matches Some(Some(keys)) && keys.contains("env"@)
}

/// Whether a handoff's text is not JSON at all.
pub open spec fn unparsed(text: Seq<char>) -> bool {
    json_top_keys(text) is None
}

fn keys_hold(keys: &Vec<String>, key: &str) -> (b: bool)
    ensures
        b == texts(*keys).contains(key@),
{
    let mut i: usize = 0;
    while i < keys.len()
        invariant
            i <= keys.len(),
            forall|j: int| 0 <= j < i ==> texts(*keys)[j] != key@,
        decreases keys.len() - i,
    {
        if text::same_text(keys[i].as_str(), key) {
            assert(texts(*keys)[i as int] == key@);
            return true;
        }
        i += 1;
    }
    false
}

pub fn carries_env(text: &str) -> (b: bool)
    ensures
        b == carries_env_spec(text@),
{
    match top_keys(text) {
        Some(Some(keys)) => keys_hold(&keys, "env"),
        _ => false,
    }
}

/// A handoff with the environment taken out, ending in a newline, where
/// there was an environment to take out.
pub open spec fn cleaned_spec(text: Seq<char>) -> Option<Seq<char>> {
    match json_without_key(text, "env"@) {
        Some(s) => Some(s + "\n"@),
        None => None,
    }
}

/// A rewritten handoff carries no environment any more.
pub fn cleaned(text: &str) -> (r: Option<String>)
    ensures
        r matches Some(s) ==> cleaned_spec(text@) == Some(s@),
        r is None ==> cleaned_spec(text@) is None,
        r matches Some(s) ==> (json_without_key(text@, "env"@) matches Some(w) && !carries_env_spec(w)),
{
    match without_key(text, "env") {
        Some(s) => Some(text::joined(s.as_str(), "\n")),
        None => None,
    }
}

/// How many of these handoffs a clean rewrites: one for each text that was
/// read and had an environment to take out.
pub open spec fn cleans_count(read: Seq<Option<String>>) -> nat
    decreases read.len(),
{
    if read.len() == 0 {
        0
    } else {
        cleans_count(read.drop_last()) + match read.last() {
            Some(t) => if cleaned_spec(t@) is Some {
                1nat
            } else {
                0nat
            },
            None => 0nat,
        }
    }
}

proof fn lemma_cleans_count_bound(read: Seq<Option<String>>)
    ensures
        cleans_count(read) <= read.len(),
    decreases read.len(),
{
    if read.len() > 0 {
        lemma_cleans_count_bound(read.drop_last());
    }
}

/// A handoff read whose text is not JSON at all.
pub open spec fn unreadable(t: Option<String>) -> bool {
    t matches Some(s) && unparsed(s@)
}

/// A clean over the handoffs read (`None` for one gone before the clean got
/// to it): the rewrite of each (`None` where there was nothing to take out)
/// up to the first that is not JSON at all, how many of those are
/// rewritten, and where the clean stopped, if it did. The rewrites before
/// the stop stand; the stop is the clean's failure.
pub fn clean_handoffs(read: &Vec<Option<String>>) -> (r: (Vec<Option<String>>, usize, Option<usize>))
    ensures
        r.2 matches Some(k) ==> k < read.len() && unreadable(read@[k as int]) && forall|j: int|
            0 <= j < k ==> !unreadable(#[trigger] read@[j]),
        r.2 is None ==> forall|j: int| 0 <= j < read.len() ==> !unreadable(#[trigger] read@[j]),
        r.0.len() == match r.2 {
            Some(k) => k as int,
            None => read.len() as int,
        },
        forall|i: int| 0 <= i < r.0.len() ==> opt_texts(#[trigger] r.0@[i]) == match read@[i] {
            Some(t) => cleaned_spec(t@),
            None => None,
        },
        r.1 == cleans_count(read@.take(r.0.len() as int)),
        forall|i: int|
            0 <= i < r.0.len() ==> (#[trigger] r.0@[i] matches Some(c) ==> (read@[i] matches Some(t)
                && json_without_key(t@, "env"@) matches Some(w) && c@ == w + "\n"@
                && !carries_env_spec(w))),
{
    let mut out: Vec<Option<String>> = Vec::new();
    let mut n: usize = 0;
    let mut i: usize = 0;
    while i < read.len()
        invariant
            i <= read.len(),
            out.len() == i,
            forall|k: int| 0 <= k < i ==> opt_texts(#[trigger] out@[k]) == match read@[k] {
                Some(t) => cleaned_spec(t@),
                None => None,
            },
            forall|k: int|
                0 <= k < i ==> (#[trigger] out@[k] matches Some(c) ==> (read@[k] matches Some(t)
                    && json_without_key(t@, "env"@) matches Some(w) && c@ == w + "\n"@
                    && !carries_env_spec(w))),
            forall|j: int| 0 <= j < i ==> !unreadable(#[trigger] read@[j]),
            n == cleans_count(read@.take(i as int)),
        decreases read.len() - i,
    {
        assert(read@.take(i + 1).drop_last() =~= read@.take(i as int));
        proof {
            lemma_cleans_count_bound(read@.take(i as int));
        }
        let c = match &read[i] {
            Some(t) => {
                if top_keys(t.as_str()).is_none() {
                    assert(unreadable(read@[i as int]));
                    return (out, n, Some(i));
                }
                cleaned(t.as_str())
            },
            None => None,
        };
        if c.is_some() {
            n = n + 1;
        }
        out.push(c);
        i += 1;
    }
    assert(read@.take(read.len() as int) =~= read@);
    (out, n, None)
}

pub open spec fn opt_texts(t: Option<String>) -> Option<Seq<char>> {
    match t {
        Some(s) => Some(s@),
        None => None,
    }
}

/// A clean never counts more files than it was handed.
pub proof fn a_clean_counts_no_more_than_it_read(read: Seq<Option<String>>)
    ensures
        cleans_count(read) <= read.len(),
{
    lemma_cleans_count_bound(read);
}

} // verus!
