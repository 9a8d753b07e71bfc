//! `amx diff` — what an agent has done to its tree, measured from the commit
//! the tree was cut from.
//!
//! An agent working directly in a directory has nothing to compare, and a
//! tree somebody has removed is not there to read. Both are ordinary answers
//! to an ordinary question, so both say what happened rather than failing at
//! git. A patch on a terminal goes to the viewer the config names; down a
//! pipe, and under `--stat`, it is git's own.
use vstd::prelude::*;
use crate::exit;
use crate::store::Meta;
use crate::text;
use crate::verbs::status::{signed_decimal, signed_number};

verus! {

/// Where the patch is shown: through the viewer the config names, or as git
/// writes it.
#[derive(Debug, Clone, PartialEq, Eq)]
pub enum Shown {
    Viewer(String),
    Git,
}

/// A viewer is for a patch somebody reads: never for `--stat`, and never down
/// a pipe.
pub open spec fn shown_spec(stat: bool, terminal: bool, viewer: Option<Seq<char>>) -> Option<Seq<char>> {
    if !stat && terminal {
        viewer
    } else {
        None
    }
}

pub fn shown(stat: bool, terminal: bool, viewer: Option<&str>) -> (s: Shown)
    ensures
        s matches Shown::Viewer(v) ==> shown_spec(stat, terminal, match viewer {
            Some(x) => Some(x@),
            None => None,
        }) == Some(v@),
        s is Git ==> shown_spec(stat, terminal, match viewer {
            Some(x) => Some(x@),
            None => None,
        }) is None,
{
    if !stat && terminal {
        match viewer {
            Some(v) => Shown::Viewer(v.to_string()),
            None => Shown::Git,
        }
    } else {
        Shown::Git
    }
}

/// The refusal for an agent that works in a directory of its own choosing.
pub open spec fn no_tree(id: Seq<char>, dir: Seq<char>) -> Seq<char> {
    "`"@ + id + "` has no worktree of its own; it works in "@ + dir
        + ", so there is nothing to compare it against"@
}

/// The refusal for a tree that has been removed, with where its work went
/// where the record knows.
pub open spec fn gone(id: Seq<char>, tree: Seq<char>, branch: Option<Seq<char>>) -> Seq<char> {
    match branch {
        Some(b) => tree + " is gone; what `"@ + id + "` did is on "@ + b,
        None => tree + " is gone"@,
    }
}

/// The tree an agent's work is in and the commit it is measured from, or the
/// ordinary answer to why there is neither. `tree_exists` is whether the tree
/// the record names is still on disk.
pub open spec fn run_spec(meta: Meta, id: Seq<char>, tree_exists: bool) -> Result<(Seq<char>, Seq<char>), Seq<char>> {
    match (meta.worktree, meta.base) {
        (Some(tree), Some(base)) => if tree_exists {
            Ok((tree@, base@))
        } else {
            Err(gone(id, tree@, match meta.branch {
                Some(b) => Some(b@),
                None => None,
            }))
        },
        _ => Err(no_tree(id, meta.dir@)),
    }
}

/// The verb, up to git: what to measure, or why there is nothing to.
pub fn run(meta: &Meta, id: &str, tree_exists: bool) -> (r: Result<(String, String), String>)
    ensures
        r matches Ok((t, b)) ==> run_spec(*meta, id@, tree_exists) == Ok::<(Seq<char>, Seq<char>), Seq<char>>((t@, b@)),
        r matches Err(e) ==> run_spec(*meta, id@, tree_exists) == Err::<(Seq<char>, Seq<char>), Seq<char>>(e@),
{
    match (&meta.worktree, &meta.base) {
        (Some(tree), Some(base)) => {
            if tree_exists {
                Ok((tree.clone(), base.clone()))
            } else {
                let mut s = tree.clone();
                match &meta.branch {
                    Some(b) => {
                        s.append(" is gone; what `");
                        s.append(id);
                        s.append("` did is on ");
                        s.append(b.as_str());
                    },
                    None => {
                        s.append(" is gone");
                    },
                }
                Err(s)
            }
        },
        _ => {
            let mut s = text::joined("`", id);
            s.append("` has no worktree of its own; it works in ");
            s.append(meta.dir.as_str());
            s.append(", so there is nothing to compare it against");
            Err(s)
        },
    }
}

/// What a viewer's exit comes to: the verb's code, and a line for stderr.
/// What went wrong the viewer has already said on its own terminal, so what
/// is left is which command it was; a signal is no code to report as one.
pub open spec fn viewer_ended_spec(viewer: Seq<char>, code: Option<i32>) -> (i32, Option<Seq<char>>) {
    match code {
        Some(c) => if c == exit::OK {
            (exit::OK, None)
        } else {
            (exit::FAILURE, Some("amx diff: "@ + viewer + " exited "@ + signed_decimal(c as int)))
        },
        None => (exit::FAILURE, None),
    }
}

pub fn viewer_ended(viewer: &str, code: Option<i32>) -> (r: (i32, Option<String>))
    ensures
        r.0 == viewer_ended_spec(viewer@, code).0,
        r.1 matches Some(s) ==> viewer_ended_spec(viewer@, code).1 == Some(s@),
        r.1 is None ==> viewer_ended_spec(viewer@, code).1 is None,
{
    match code {
        Some(c) => {
            if c == exit::OK {
                (exit::OK, None)
            } else {
                let mut s = text::joined("amx diff: ", viewer);
                s.append(" exited ");
                let n = signed_number(c as i64);
                s.append(n.as_str());
                (exit::FAILURE, Some(s))
            }
        },
        None => (exit::FAILURE, None),
    }
}

} // verus!
