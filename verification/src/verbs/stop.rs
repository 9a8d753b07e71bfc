//! `amx stop` — end an agent, its family with it, and decide what it leaves
//! behind. The defaults are the ones that lose nothing: the worktree goes,
//! the branch stays, the record stays.
use vstd::prelude::*;
use crate::store::Meta;
use crate::text::{self, lower, trim};

verus! {

/// What becomes of a worktree or a branch.
#[derive(Debug, Clone, Copy, PartialEq, Eq, Structural)]
pub enum Disposition {
    Keep,
    Delete,
}

impl Disposition {
    pub fn is_keep(&self) -> (b: bool)
        ensures
            b == (*self == Disposition::Keep),
    {
        matches!(self, Disposition::Keep)
    }
}

/// Whether a person has to be asked: nobody is, when a flag already answered
/// or `--force` takes every default.
pub open spec fn must_ask_spec(told: Option<Disposition>, force: bool) -> bool {
    told is None && !force
}

pub fn must_ask(told: Option<Disposition>, force: bool) -> (b: bool)
    ensures
        b == must_ask_spec(told, force),
{
    told.is_none() && !force
}

/// The question as it is put: which way Enter goes is the capital letter.
pub open spec fn prompt_spec(question: Seq<char>, fallback: Disposition) -> Seq<char> {
    question + " "@ + match fallback {
        Disposition::Delete => "[Y/n]"@,
        Disposition::Keep => "[y/N]"@,
    } + " "@
}

pub fn prompt(question: &str, fallback: Disposition) -> (s: String)
    ensures
        s@ == prompt_spec(question@, fallback),
{
    let mut s = text::joined(question, " ");
    match fallback {
        Disposition::Delete => s.append("[Y/n]"),
        Disposition::Keep => s.append("[y/N]"),
    }
    s.append(" ");
    s
}

/// What a typed line answers: yes deletes, no keeps, and anything else, or
/// nobody there at all (`None`), is the default.
pub open spec fn reply_spec(typed: Option<Seq<char>>, fallback: Disposition) -> Disposition {
    match typed {
        None => fallback,
        Some(t) => {
            let w = lower(trim(t));
            if w == "y"@ || w == "yes"@ {
                Disposition::Delete
            } else if w == "n"@ || w == "no"@ {
                Disposition::Keep
            } else {
                fallback
            }
        },
    }
}

pub fn reply(typed: Option<&str>, fallback: Disposition) -> (d: Disposition)
    ensures
        d == reply_spec(
            match typed {
                Some(t) => Some(t@),
                None => None,
            },
            fallback,
        ),
{
    match typed {
        None => fallback,
        Some(t) => {
            let trimmed = text::trimmed(t);
            let w = text::lowered(trimmed.as_str());
            let ws = w.as_str();
            if text::same_text(ws, "y") || text::same_text(ws, "yes") {
                Disposition::Delete
            } else if text::same_text(ws, "n") || text::same_text(ws, "no") {
                Disposition::Keep
            } else {
                fallback
            }
        },
    }
}

/// The answer to one disposition and what was printed getting it: the flag
/// if there was one, the default if nobody is to be asked, and otherwise the
/// person, who is shown the question first. `typed` is the line they typed,
/// `None` where there was nobody to type one; that gets a line break of its
/// own so the next line does not run on from the question.
pub open spec fn asked_spec(
    told: Option<Disposition>,
    force: bool,
    fallback: Disposition,
    question: Seq<char>,
    typed: Option<Seq<char>>,
) -> (Disposition, Seq<char>) {
    match told {
        Some(d) => (d, Seq::empty()),
        None => if force {
            (fallback, Seq::empty())
        } else {
            (
                reply_spec(typed, fallback),
                prompt_spec(question, fallback) + if typed is None {
                    "\n"@
                } else {
                    Seq::empty()
                },
            )
        },
    }
}

pub fn asked(
    told: Option<Disposition>,
    force: bool,
    fallback: Disposition,
    question: &str,
    typed: Option<&str>,
) -> (r: (Disposition, String))
    ensures
        r.0 == asked_spec(
            told,
            force,
            fallback,
            question@,
            match typed {
                Some(t) => Some(t@),
                None => None,
            },
        ).0,
        r.1@ == asked_spec(
            told,
            force,
            fallback,
            question@,
            match typed {
                Some(t) => Some(t@),
                None => None,
            },
        ).1,
{
    match told {
        Some(d) => (d, String::new()),
        None => {
            if force {
                (fallback, String::new())
            } else {
                let mut said = prompt(question, fallback);
                if typed.is_none() {
                    said.append("\n");
                }
                (reply(typed, fallback), said)
            }
        },
    }
}

/// Where the record for `x` is: the first one with that id.
pub open spec fn find(ms: Seq<Meta>, x: Seq<char>, i: int) -> Option<int>
    decreases ms.len() - i,
{
    if i < 0 || i >= ms.len() {
        None
    } else if ms[i].id@ == x {
        Some(i)
    } else {
        find(ms, x, i + 1)
    }
}

/// How many parent links lead from `x` up to `top`, walking at most `fuel`
/// of them.
pub open spec fn climb(ms: Seq<Meta>, x: Seq<char>, top: Seq<char>, fuel: nat) -> Option<nat>
    decreases fuel,
{
    if fuel == 0 {
        None
    } else {
        match find(ms, x, 0) {
            None => None,
            Some(i) => match ms[i].parent {
                None => None,
                Some(p) => if p@ == top {
                    Some(1nat)
                } else {
                    match climb(ms, p@, top, (fuel - 1) as nat) {
                        Some(d) => Some(d + 1),
                        None => None,
                    }
                },
            },
        }
    }
}

/// How deep below `top` the agent `x` is, if its record names its way back
/// to `top` at all. A chain of parents that reaches `top` passes each record
/// once, so as many steps as there are records is enough to find it; one
/// that goes round in a circle never gets there.
pub open spec fn depth_of(ms: Seq<Meta>, x: Seq<char>, top: Seq<char>) -> Option<nat> {
    if x == top {
        None
    } else {
        climb(ms, x, top, ms.len())
    }
}

/// Whether `a` sorts before `b`, as strings compare.
pub open spec fn lex_lt(a: Seq<char>, b: Seq<char>) -> bool
    decreases a.len(),
{
    if b.len() == 0 {
        false
    } else if a.len() == 0 {
        true
    } else if a[0] != b[0] {
        a[0] < b[0]
    } else {
        lex_lt(a.drop_first(), b.drop_first())
    }
}

/// The order the family is ended in: deepest first, and by id among equals.
pub open spec fn before(a: (nat, Seq<char>), b: (nat, Seq<char>)) -> bool {
    a.0 > b.0 || (a.0 == b.0 && lex_lt(a.1, b.1))
}

pub proof fn lemma_lex_irreflexive(a: Seq<char>)
    ensures
        !lex_lt(a, a),
    decreases a.len(),
{
    if a.len() > 0 {
        lemma_lex_irreflexive(a.drop_first());
    }
}

pub proof fn lemma_lex_total(a: Seq<char>, b: Seq<char>)
    ensures
        a == b || lex_lt(a, b) || lex_lt(b, a),
    decreases a.len(),
{
    if a.len() > 0 && b.len() > 0 && a[0] == b[0] {
        lemma_lex_total(a.drop_first(), b.drop_first());
        if a.drop_first() == b.drop_first() {
            assert(a =~= seq![a[0]] + a.drop_first());
            assert(b =~= seq![b[0]] + b.drop_first());
        }
    } else if a.len() == 0 && b.len() == 0 {
        assert(a =~= b);
    }
}

pub proof fn lemma_lex_asymmetric(a: Seq<char>, b: Seq<char>)
    ensures
        !(lex_lt(a, b) && lex_lt(b, a)),
    decreases a.len(),
{
    if a.len() > 0 && b.len() > 0 && a[0] == b[0] {
        lemma_lex_asymmetric(a.drop_first(), b.drop_first());
    }
}

pub proof fn lemma_lex_transitive(a: Seq<char>, b: Seq<char>, c: Seq<char>)
    requires
        lex_lt(a, b),
        lex_lt(b, c),
    ensures
        lex_lt(a, c),
    decreases a.len(),
{
    if a.len() > 0 && b.len() > 0 && c.len() > 0 && a[0] == b[0] && b[0] == c[0] {
        lemma_lex_transitive(a.drop_first(), b.drop_first(), c.drop_first());
    }
}

pub proof fn lemma_before_transitive(a: (nat, Seq<char>), b: (nat, Seq<char>), c: (nat, Seq<char>))
    requires
        before(a, b),
        before(b, c),
    ensures
        before(a, c),
{
    if a.0 == b.0 && b.0 == c.0 {
        lemma_lex_transitive(a.1, b.1, c.1);
    }
}

/// Whether `a` sorts before `b`, as strings compare.
pub fn sorts_before(a: &str, b: &str) -> (r: bool)
    ensures
        r == lex_lt(a@, b@),
{
    let v = text::chars_of(a);
    let w = text::chars_of(b);
    let mut i: usize = 0;
    assert(v@.skip(0) =~= v@);
    assert(w@.skip(0) =~= w@);
    while i < v.len() && i < w.len() && v[i] == w[i]
        invariant
            i <= v.len(),
            i <= w.len(),
            v@ == a@,
            w@ == b@,
            lex_lt(a@, b@) == lex_lt(v@.skip(i as int), w@.skip(i as int)),
        decreases v.len() - i,
    {
        assert(v@.skip(i as int).drop_first() =~= v@.skip(i + 1));
        assert(w@.skip(i as int).drop_first() =~= w@.skip(i + 1));
        i += 1;
    }
    if i == w.len() {
        false
    } else if i == v.len() {
        true
    } else {
        assert(v@.skip(i as int)[0] == v@[i as int]);
        assert(w@.skip(i as int)[0] == w@[i as int]);
        v[i] < w[i]
    }
}

/// Where the record for `x` is.
fn find_record(ms: &Vec<Meta>, x: &str) -> (r: Option<usize>)
    ensures
        r matches Some(i) ==> find(ms@, x@, 0) == Some(i as int) && i < ms.len(),
        r is None ==> find(ms@, x@, 0) is None,
{
    let mut i: usize = 0;
    while i < ms.len()
        invariant
            i <= ms.len(),
            find(ms@, x@, 0) == find(ms@, x@, i as int),
        decreases ms.len() - i,
    {
        if text::same_text(ms[i].id.as_str(), x) {
            return Some(i);
        }
        i += 1;
    }
    None
}

/// `d` steps further on.
pub open spec fn shift(o: Option<nat>, s: nat) -> Option<nat> {
    match o {
        Some(d) => Some(d + s),
        None => None,
    }
}

/// How deep below `top` the agent `x` is, walking up its parents.
fn depth(ms: &Vec<Meta>, x: &str, top: &str) -> (r: Option<u64>)
    requires
        ms.len() < u64::MAX,
    ensures
        r matches Some(d) ==> depth_of(ms@, x@, top@) == Some(d as nat),
        r is None ==> depth_of(ms@, x@, top@) is None,
{
    if text::same_text(x, top) {
        return None;
    }
    let n = ms.len();
    let mut cur = x.to_string();
    let mut steps: u64 = 0;
    let mut fuel: usize = n;
    while fuel > 0
        invariant
            steps + fuel == n,
            n == ms.len(),
            x@ != top@,
            n < u64::MAX,
            climb(ms@, x@, top@, n as nat) == shift(climb(ms@, cur@, top@, fuel as nat), steps as nat),
        decreases fuel,
    {
        match find_record(ms, cur.as_str()) {
            None => {
                return None;
            },
            Some(i) => match &ms[i].parent {
                None => {
                    return None;
                },
                Some(p) => {
                    if text::same_text(p.as_str(), top) {
                        assert(ms@[i as int].parent == Some(*p));
                        assert(climb(ms@, cur@, top@, fuel as nat) == Some(1nat));
                        return Some(steps + 1);
                    }
                    cur = p.clone();
                    steps += 1;
                    fuel -= 1;
                },
            },
        }
    }
    None
}

/// The family below `top` as (depth, id), in the order it is ended.
pub open spec fn sorted(found: Seq<(nat, Seq<char>)>) -> bool {
    forall|a: int, b: int| 0 <= a < b < found.len() ==> before(found[a], found[b])
}

/// Where a new member goes: in front of the first it sorts before.
fn place(found: &Vec<(u64, String)>, d: u64, x: &str) -> (k: usize)
    ensures
        k <= found.len(),
        forall|a: int| 0 <= a < k ==> !before((d as nat, x@), pair(found@[a])),
        k < found.len() ==> before((d as nat, x@), pair(found@[k as int])),
{
    let mut k: usize = 0;
    while k < found.len()
        invariant
            k <= found.len(),
            forall|a: int| 0 <= a < k ==> !before((d as nat, x@), pair(found@[a])),
        decreases found.len() - k,
    {
        let (fd, fx) = (found[k].0, found[k].1.as_str());
        if d > fd || (d == fd && sorts_before(x, fx)) {
            return k;
        }
        k += 1;
    }
    k
}

/// A member as plain values.
pub open spec fn pair(m: (u64, String)) -> (nat, Seq<char>) {
    (m.0 as nat, m.1@)
}

/// `r` is the family below `top` in the order it is ended: every agent whose
/// record names its way back to `top`, each once, deepest first and by id
/// among those as deep.
pub open spec fn family_order(ms: Seq<Meta>, top: Seq<char>, r: Seq<Seq<char>>) -> bool {
    &&& forall|k: int|
        0 <= k < r.len() ==> (#[trigger] find(ms, r[k], 0)) is Some && depth_of(ms, r[k], top)
            is Some
    &&& forall|i: int|
        0 <= i < ms.len() && (#[trigger] depth_of(ms, ms[i].id@, top)) is Some ==> exists|k: int|
            0 <= k < r.len() && r[k] == ms[i].id@
    &&& forall|a: int, b: int|
        0 <= a < b < r.len() ==> before(
            (depth_of(ms, r[a], top)->0, r[a]),
            (depth_of(ms, r[b], top)->0, r[b]),
        )
}

/// Every agent whose record names its way back to `top`, deepest first and by
/// id among those as deep: each one once, and no other. A record naming
/// itself its own parent, or two naming each other, is walked once and no
/// further.
pub fn descendants(ms: &Vec<Meta>, top: &str) -> (r: Vec<String>)
    requires
        ms.len() < u64::MAX,
    ensures
        family_order(ms@, top@, r@.map_values(|s: String| s@)),
{
    let mut found: Vec<(u64, String)> = Vec::new();
    let mut i: usize = 0;
    while i < ms.len()
        invariant
            i <= ms.len() < u64::MAX,
            sorted(found@.map_values(|m: (u64, String)| pair(m))),
            forall|k: int|
                0 <= k < found@.len() ==> ((#[trigger] find(ms@, found@[k].1@, 0)) matches Some(
                    j,
                ) && j < i && depth_of(ms@, found@[k].1@, top@) == Some(found@[k].0 as nat)),
            forall|j: int|
                0 <= j < i && (#[trigger] depth_of(ms@, ms@[j].id@, top@)) is Some ==> exists|
                    k: int,
                |
                    0 <= k < found@.len() && found@[k].1@ == ms@[j].id@,
        decreases ms.len() - i,
    {
        let x = ms[i].id.as_str();
        let first = find_record(ms, x);
        if first == Some(i) {
            match depth(ms, x, top) {
                Some(d) => {
                    let k = place(&found, d, x);
                    let ghost old_found = found@;
                    proof {
                        lemma_place_keeps_order(
                            old_found.map_values(|m: (u64, String)| pair(m)),
                            k as int,
                            (d as nat, x@),
                        );
                    }
                    found.insert(k, (d, x.to_string()));
                    proof {
                        assert(found@.map_values(|m: (u64, String)| pair(m)) =~= old_found.map_values(
                            |m: (u64, String)| pair(m),
                        ).insert(k as int, (d as nat, x@)));
                        assert forall|kk: int| 0 <= kk < found@.len() implies ((#[trigger] find(
                            ms@,
                            found@[kk].1@,
                            0,
                        )) matches Some(j) && j < i + 1 && depth_of(ms@, found@[kk].1@, top@)
                            == Some(found@[kk].0 as nat)) by {
                            if kk < k {
                                assert(found@[kk] == old_found[kk]);
                            } else if kk > k {
                                assert(found@[kk] == old_found[kk - 1]);
                            }
                        }
                        assert forall|j: int|
                            0 <= j < i + 1 && (#[trigger] depth_of(ms@, ms@[j].id@, top@))
                                is Some implies exists|kk: int|
                            0 <= kk < found@.len() && found@[kk].1@ == ms@[j].id@ by {
                            if j < i {
                                let kk = choose|kk: int|
                                    0 <= kk < old_found.len() && old_found[kk].1@ == ms@[j].id@;
                                if kk < k {
                                    assert(found@[kk] == old_found[kk]);
                                } else {
                                    assert(found@[kk + 1] == old_found[kk]);
                                }
                            } else {
                                assert(found@[k as int].1@ == ms@[j].id@);
                            }
                        }
                    }
                },
                None => {
                    proof {
                        assert forall|j: int|
                            0 <= j < i + 1 && (#[trigger] depth_of(ms@, ms@[j].id@, top@))
                                is Some implies exists|kk: int|
                            0 <= kk < found@.len() && found@[kk].1@ == ms@[j].id@ by {
                            if j == i {
                                assert(false);
                            }
                        }
                    }
                },
            }
        } else {
            proof {
                // An id seen before is the family member it already was.
                lemma_find_le(ms@, x@, 0, i as int);
                let j0 = find(ms@, x@, 0)->0;
                lemma_find_first(ms@, x@, 0);
                assert forall|j: int|
                    0 <= j < i + 1 && (#[trigger] depth_of(ms@, ms@[j].id@, top@)) is Some implies exists|
                    kk: int,
                |
                    0 <= kk < found@.len() && found@[kk].1@ == ms@[j].id@ by {
                    if j == i {
                        assert(ms@[j0].id@ == ms@[i as int].id@);
                        assert(depth_of(ms@, ms@[j0].id@, top@) is Some);
                    }
                }
            }
        }
        i += 1;
    }
    let mut r: Vec<String> = Vec::new();
    let mut k: usize = 0;
    while k < found.len()
        invariant
            k <= found.len(),
            r@.len() == k,
            forall|a: int| 0 <= a < k ==> r@[a]@ == found@[a].1@,
        decreases found.len() - k,
    {
        r.push(found[k].1.clone());
        k += 1;
    }
    proof {
        let rs = r@.map_values(|s: String| s@);
        assert forall|kk: int| 0 <= kk < rs.len() implies rs[kk] == r@[kk]@ by {}
        assert forall|a: int, b: int| 0 <= a < b < r@.len() implies before(
            (depth_of(ms@, r@[a]@, top@)->0, r@[a]@),
            (depth_of(ms@, r@[b]@, top@)->0, r@[b]@),
        ) by {
            assert(found@.map_values(|m: (u64, String)| pair(m))[a] == pair(found@[a]));
            assert(found@.map_values(|m: (u64, String)| pair(m))[b] == pair(found@[b]));
            assert(find(ms@, found@[a].1@, 0) is Some);
            assert(find(ms@, found@[b].1@, 0) is Some);
        }
        assert forall|kk: int| 0 <= kk < r@.len() implies (#[trigger] find(ms@, r@[kk]@, 0)) is Some
            && depth_of(ms@, r@[kk]@, top@) is Some by {
            assert(find(ms@, found@[kk].1@, 0) is Some);
        }
        assert forall|j: int|
            0 <= j < ms@.len() && (#[trigger] depth_of(ms@, ms@[j].id@, top@)) is Some implies exists|
            kk: int,
        |
            0 <= kk < rs.len() && rs[kk] == ms@[j].id@ by {
            let kk = choose|kk: int| 0 <= kk < found@.len() && found@[kk].1@ == ms@[j].id@;
            assert(rs[kk] == ms@[j].id@);
        }
    }
    r
}

/// A record with this id at `i` is found at or before `i`.
proof fn lemma_find_le(ms: Seq<Meta>, x: Seq<char>, i0: int, i: int)
    requires
        0 <= i0 <= i < ms.len(),
        ms[i].id@ == x,
    ensures
        find(ms, x, i0) matches Some(j) && j <= i,
    decreases i - i0,
{
    if i0 < i && ms[i0].id@ != x {
        lemma_find_le(ms, x, i0 + 1, i);
    }
}

/// The first record with an id is the first: nothing before it has that id.
proof fn lemma_find_first(ms: Seq<Meta>, x: Seq<char>, i: int)
    requires
        0 <= i,
    ensures
        find(ms, x, i) matches Some(j) ==> i <= j < ms.len() && ms[j].id@ == x,
    decreases ms.len() - i,
{
    if 0 <= i < ms.len() && ms[i].id@ != x {
        lemma_find_first(ms, x, i + 1);
    }
}

/// Putting a member in front of the first it sorts before keeps the family
/// in order, so long as it is not already there.
proof fn lemma_place_keeps_order(s: Seq<(nat, Seq<char>)>, k: int, m: (nat, Seq<char>))
    requires
        sorted(s),
        0 <= k <= s.len(),
        forall|a: int| 0 <= a < k ==> !before(m, #[trigger] s[a]),
        k < s.len() ==> before(m, s[k]),
        forall|a: int| 0 <= a < s.len() ==> (#[trigger] s[a]).1 != m.1,
    ensures
        sorted(s.insert(k, m)),
{
    let t = s.insert(k, m);
    assert forall|a: int, b: int| 0 <= a < b < t.len() implies before(t[a], t[b]) by {
        if b < k {
            assert(t[a] == s[a] && t[b] == s[b]);
        } else if b == k {
            assert(t[a] == s[a]);
            lemma_lex_total(s[a].1, m.1);
        } else if a == k {
            assert(t[b] == s[b - 1]);
            if b - 1 > k {
                lemma_before_transitive(m, s[k], s[b - 1]);
            }
        } else if a < k {
            assert(t[a] == s[a] && t[b] == s[b - 1]);
        } else {
            assert(t[a] == s[a - 1] && t[b] == s[b - 1]);
        }
    }
}

/// More steps find what fewer found, at the same depth.
proof fn lemma_climb_more_fuel(ms: Seq<Meta>, x: Seq<char>, top: Seq<char>, f: nat)
    ensures
        climb(ms, x, top, f) matches Some(d) ==> climb(ms, x, top, f + 1) == Some(d),
    decreases f,
{
    if f > 0 {
        if let Some(i) = find(ms, x, 0) {
            if let Some(p) = ms[i].parent {
                if p@ != top {
                    lemma_climb_more_fuel(ms, p@, top, (f - 1) as nat);
                }
            }
        }
    }
}

/// A child is ended before its parent: an agent of the family whose record
/// names a parent other than the agent being stopped is one deeper than that
/// parent, which is of the family too — and the family is ended deepest
/// first.
pub proof fn a_child_is_deeper_than_its_parent(ms: Seq<Meta>, top: Seq<char>, i: int)
    requires
        0 <= i < ms.len(),
        find(ms, ms[i].id@, 0) == Some(i),
        ms[i].parent matches Some(p) && p@ != top,
        depth_of(ms, ms[i].id@, top) is Some,
    ensures
        depth_of(ms, ms[i].parent->0@, top) is Some,
        depth_of(ms, ms[i].parent->0@, top)->0 + 1 == depth_of(ms, ms[i].id@, top)->0,
{
    let p = ms[i].parent->0@;
    let n = ms.len();
    lemma_climb_more_fuel(ms, p, top, (n - 1) as nat);
}

/// The agents `amx stop <id>` ends, in the order it ends them: the one
/// named, then its family deepest first — unless somebody asked for the
/// family to stand.
pub fn run(ms: &Vec<Meta>, id: &str, keep_children: bool) -> (r: Vec<String>)
    requires
        ms.len() < u64::MAX,
    ensures
        r@.len() >= 1,
        r@[0]@ == id@,
        keep_children ==> r@.len() == 1,
        !keep_children ==> family_order(ms@, id@, r@.map_values(|s: String| s@).drop_first()),
{
    let mut r: Vec<String> = Vec::new();
    r.push(id.to_string());
    if keep_children {
        return r;
    }
    let family = descendants(ms, id);
    let ghost fam = family@.map_values(|s: String| s@);
    let mut k: usize = 0;
    while k < family.len()
        invariant
            k <= family.len(),
            fam == family@.map_values(|s: String| s@),
            r@.len() == k + 1,
            r@[0]@ == id@,
            r@.map_values(|s: String| s@).drop_first() == fam.take(k as int),
        decreases family.len() - k,
    {
        let ghost before = r@.map_values(|s: String| s@);
        r.push(family[k].clone());
        assert(r@.map_values(|s: String| s@) =~= before.push(fam[k as int]));
        assert(r@.map_values(|s: String| s@).drop_first() =~= fam.take(k + 1));
        k += 1;
    }
    assert(fam.take(family.len() as int) =~= fam);
    r
}

/// What becomes of a worktree before anybody is asked: nothing where the
/// agent has no tree and branch; kept, and said so, where the tree holds work
/// no commit has (or git cannot say that it does not); and otherwise the
/// question whether to delete it.
#[derive(Debug, Clone, PartialEq, Eq)]
pub enum TreeStep {
    Nothing,
    Keep(String),
    Ask(String),
}

pub open spec fn tree_step_spec(
    tree: Option<Seq<char>>,
    branch: Option<Seq<char>>,
    exists: bool,
    dirty: Option<bool>,
) -> (u8, Seq<char>) {
    match (tree, branch) {
        (Some(t), Some(_)) => if exists && dirty != Some(false) {
            (1, "keeping "@ + t + ": it holds work no commit has"@)
        } else {
            (2, "delete the worktree "@ + t + "?"@)
        },
        _ => (0, Seq::empty()),
    }
}

/// A step as plain values: which kind, and its text.
pub open spec fn tree_step_view(s: TreeStep) -> (u8, Seq<char>) {
    match s {
        TreeStep::Nothing => (0, Seq::empty()),
        TreeStep::Keep(l) => (1, l@),
        TreeStep::Ask(q) => (2, q@),
    }
}

/// `dirty` is whether git says the tree holds uncommitted work, `None` where
/// it could not say.
pub fn tree_step(tree: Option<&str>, branch: Option<&str>, exists: bool, dirty: Option<bool>) -> (s:
    TreeStep)
    ensures
        tree_step_view(s) == tree_step_spec(
            match tree {
                Some(t) => Some(t@),
                None => None,
            },
            match branch {
                Some(b) => Some(b@),
                None => None,
            },
            exists,
            dirty,
        ),
{
    match (tree, branch) {
        (Some(t), Some(_)) => {
            let unsure_or_dirty = match dirty {
                Some(d) => d,
                None => true,
            };
            if exists && unsure_or_dirty {
                let mut l = text::joined("keeping ", t);
                l.append(": it holds work no commit has");
                TreeStep::Keep(l)
            } else {
                let mut q = text::joined("delete the worktree ", t);
                q.append("?");
                TreeStep::Ask(q)
            }
        },
        _ => TreeStep::Nothing,
    }
}

/// What the branch comes to once the tree is settled: a tree still there
/// still has the branch checked out, so it is kept and said so (`Some`);
/// otherwise the question whether to delete it (`None`).
pub open spec fn branch_kept_spec(tree: Seq<char>, branch: Seq<char>, tree_still_there: bool) -> Option<
    Seq<char>,
> {
    if tree_still_there {
        Some("kept "@ + branch + ": "@ + tree + " still has it checked out"@)
    } else {
        None
    }
}

pub fn branch_kept(tree: &str, branch: &str, tree_still_there: bool) -> (r: Option<String>)
    ensures
        r matches Some(l) ==> branch_kept_spec(tree@, branch@, tree_still_there) == Some(l@),
        r is None ==> branch_kept_spec(tree@, branch@, tree_still_there) is None,
{
    if tree_still_there {
        let mut l = text::joined("kept ", branch);
        l.append(": ");
        l.append(tree);
        l.append(" still has it checked out");
        Some(l)
    } else {
        None
    }
}

/// The question about the branch, whose default is to keep it.
pub open spec fn branch_question(branch: Seq<char>) -> Seq<char> {
    "delete the branch "@ + branch + "?"@
}

pub fn branch_asks(branch: &str) -> (q: String)
    ensures
        q@ == branch_question(branch@),
{
    let mut q = text::joined("delete the branch ", branch);
    q.append("?");
    q
}

/// Work no commit has is never deleted, whatever anybody says: a tree that
/// is there and holds such work, or that git cannot vouch for, is kept before
/// any flag, `--force` or answer is read.
pub proof fn uncommitted_work_is_never_asked_about(t: Seq<char>, b: Seq<char>, dirty: Option<bool>)
    requires
        dirty != Some(false),
    ensures
        tree_step_spec(Some(t), Some(b), true, dirty).0 == 1,
{
}

} // verus!
