//! `amx rename` — call an agent something else: the word on the row and
//! nothing more. The id is untouched. A name a row cannot carry is refused
//! rather than cut down, as a usage error.
use vstd::prelude::*;
use crate::exit::{self, Outcome};
use crate::text::{self, decimal, joined_with, words};
use crate::verbs::interrupt::complaint;

verus! {

/// The longest name a row will carry.
pub const NAME: usize = 24;

/// What a rename came to.
#[derive(Debug, Clone, PartialEq, Eq)]
pub enum Renamed {
    /// The wall calls it something else now, and this says what.
    Yes(String),
    /// It is called what it was called, and this says why.
    No(String),
}

/// The characters `char::is_control` names: the C0 and C1 controls and `DEL`.
pub open spec fn control(c: char) -> bool {
    (c as u32) < 0x20 || (0x7f <= (c as u32) && (c as u32) < 0xa0)
}

/// A name as it is written down: each control character the space it stands
/// in for, then the words of it with one space between each two.
pub open spec fn name_of(typed: Seq<char>) -> Seq<char> {
    joined_with(words(typed.map_values(|c: char| if control(c) { ' ' } else { c })), " "@)
}

/// The refusals a name can meet.
pub open spec fn empty_name() -> Seq<char> {
    "a name is a word, not nothing"@
}

pub open spec fn long_name() -> Seq<char> {
    "a name is "@ + decimal(NAME as nat) + " characters at most, so that a row can carry it"@
}

/// What renaming `id` to what was typed comes to: the sentence, and where it
/// is taken, the name the record holds from now on — none at all where the
/// name is the id, since that is the name it already had.
pub open spec fn rename_spec(id: Seq<char>, typed: Seq<char>) -> (bool, Seq<char>, Option<Seq<char>>) {
    let name = name_of(typed);
    if name.len() == 0 {
        (false, empty_name(), None)
    } else if name.len() > NAME {
        (false, long_name(), None)
    } else {
        (true, id + " is "@ + name, if name == id { None } else { Some(name) })
    }
}

/// A rename as plain values.
pub open spec fn renamed_view(r: Renamed, kept: Option<String>) -> (bool, Seq<char>, Option<Seq<char>>) {
    match r {
        Renamed::Yes(s) => (
            true,
            s@,
            match kept {
                Some(n) => Some(n@),
                None => None,
            },
        ),
        Renamed::No(s) => (false, s@, None),
    }
}

/// Each control character made a space.
fn spaced(typed: &str) -> (s: String)
    ensures
        s@ == typed@.map_values(|c: char| if control(c) { ' ' } else { c }),
{
    let v = text::chars_of(typed);
    let mut s = String::new();
    let mut i: usize = 0;
    while i < v.len()
        invariant
            i <= v.len(),
            v@ == typed@,
            s@ == v@.take(i as int).map_values(|c: char| if control(c) { ' ' } else { c }),
        decreases v.len() - i,
    {
        let c = v[i];
        let n = c as u32;
        if n < 0x20 || (0x7f <= n && n < 0xa0) {
            text::push_char(&mut s, ' ');
        } else {
            text::push_char(&mut s, c);
        }
        assert(v@.take(i + 1).map_values(|c: char| if control(c) { ' ' } else { c }) =~= v@.take(
            i as int,
        ).map_values(|c: char| if control(c) { ' ' } else { c }).push(
            if control(c) {
                ' '
            } else {
                c
            },
        ));
        i += 1;
    }
    assert(v@.take(v.len() as int) =~= v@);
    s
}

/// Call the agent something else. The second half is the name the record
/// holds from now on, for a rename that was taken.
pub fn rename(id: &str, typed: &str) -> (r: (Renamed, Option<String>))
    ensures
        renamed_view(r.0, r.1) == rename_spec(id@, typed@),
        r.0 is No ==> r.1 is None,
{
    let s = spaced(typed);
    let ws = text::words_of(s.as_str());
    let name = text::join(&ws, " ");
    let count = name.unicode_len();
    if count == 0 {
        return (Renamed::No("a name is a word, not nothing".to_string()), None);
    }
    if count > NAME {
        let n = text::number(NAME as u64);
        let mut why = text::joined("a name is ", n.as_str());
        why.append(" characters at most, so that a row can carry it");
        return (Renamed::No(why), None);
    }
    let mut said = text::joined(id, " is ");
    said.append(name.as_str());
    if text::same_text(name.as_str(), id) {
        (Renamed::Yes(said), None)
    } else {
        (Renamed::Yes(said), Some(name))
    }
}

/// The verb: the sentence on stdout where the name is taken, a refusal on
/// stderr with `USAGE` behind it where it is not. The second half is what the
/// record's name becomes, where it is written at all.
pub fn run(id: &str, typed: &str) -> (r: (Outcome, Option<Option<String>>))
    ensures
        ({
            let want = rename_spec(id@, typed@);
            if want.0 {
                &&& r.0.code == exit::OK
                &&& r.0.out@ == want.1 + "\n"@
                &&& r.0.err@.len() == 0
                &&& r.1 matches Some(n) && (match n {
                    Some(x) => want.2 == Some(x@),
                    None => want.2 is None,
                })
            } else {
                &&& r.0.code == exit::USAGE
                &&& r.0.out@.len() == 0
                &&& r.0.err@ == complaint(want.1)
                &&& r.1 is None
            }
        }),
{
    let (done, kept) = rename(id, typed);
    match done {
        Renamed::Yes(said) => {
            let out = text::joined(said.as_str(), "\n");
            (Outcome { code: exit::OK, out, err: String::new() }, Some(kept))
        },
        Renamed::No(why) => {
            let mut err = text::joined("amx: ", why.as_str());
            err.append("\n");
            (Outcome { code: exit::USAGE, out: String::new(), err }, None)
        },
    }
}

/// A name the record holds is never empty and never longer than a row
/// carries.
pub proof fn a_name_fits_a_row(id: Seq<char>, typed: Seq<char>)
    ensures
        rename_spec(id, typed).2 matches Some(n) ==> n.len() <= NAME && n.len() > 0,
{
}

} // verus!
