//! Text as the verbs handle it: characters in, characters out.
//!
//! Everything here is stated over the string's characters (`s@`), which is
//! what a person reads; byte offsets never reach a contract.
use vstd::prelude::*;

verus! {

/// `String::push`: the string, one character longer.
#[verifier::external_body]
pub fn push_char(s: &mut String, c: char)
    ensures
        final(s)@ == old(s)@.push(c),
{
    s.push(c);
}

/// What `{:?}` writes for a string: the text between double quotes, with each
/// character that would not print as itself escaped by the tables of std's
/// `Debug` for `str`.
pub uninterp spec fn debug_quoted(s: Seq<char>) -> Seq<char>;

/// `format!("{:?}", s)`, which is `<str as Debug>::fmt`: the result is
/// `debug_quoted` of the text, and nothing more about it is claimed here.
#[verifier::external_body]
pub fn quoted(s: &str) -> (r: String)
    ensures
        r@ == debug_quoted(s@),
{
    format!("{:?}", s)
}

/// The characters of a string, in order.
pub fn chars_of(s: &str) -> (v: Vec<char>)
    ensures
        v@ == s@,
{
    broadcast use vstd::string::group_string_axioms;

    let mut v: Vec<char> = Vec::new();
    for c in it: s.chars()
        invariant
            v@ == it.seq().take(it.index() as int),
            it.seq() == s@,
    {
        v.push(c);
    }
    v
}

/// A string made of the characters of `v` from `lo` up to `hi`.
pub fn from_range(v: &Vec<char>, lo: usize, hi: usize) -> (s: String)
    requires
        lo <= hi <= v.len(),
    ensures
        s@ == v@.subrange(lo as int, hi as int),
{
    let mut s = String::new();
    let mut i: usize = lo;
    while i < hi
        invariant
            lo <= i <= hi <= v.len(),
            s@ == v@.subrange(lo as int, i as int),
        decreases hi - i,
    {
        push_char(&mut s, v[i]);
        assert(v@.subrange(lo as int, i as int).push(v@[i as int]) =~= v@.subrange(
            lo as int,
            i + 1,
        ));
        i += 1;
    }
    s
}

/// Two pieces of text, one after the other.
pub fn joined(a: &str, b: &str) -> (s: String)
    ensures
        s@ == a@ + b@,
{
    let mut s = a.to_string();
    s.append(b);
    s
}

/// The Unicode `White_Space` characters, which is what `str::trim` and
/// `str::split_whitespace` take away.
pub open spec fn is_space(c: char) -> bool {
    let n = c as u32;
    ||| 9 <= n <= 13
    ||| n == 32
    ||| n == 0x85
    ||| n == 0xa0
    ||| n == 0x1680
    ||| 0x2000 <= n <= 0x200a
    ||| n == 0x2028
    ||| n == 0x2029
    ||| n == 0x202f
    ||| n == 0x205f
    ||| n == 0x3000
}

pub fn space(c: char) -> (b: bool)
    ensures
        b == is_space(c),
{
    let n = c as u32;
    (9 <= n && n <= 13) || n == 32 || n == 0x85 || n == 0xa0 || n == 0x1680 || (0x2000 <= n
        && n <= 0x200a) || n == 0x2028 || n == 0x2029 || n == 0x202f || n == 0x205f || n
        == 0x3000
}

/// The first index at or after `i` that does not hold a space.
pub open spec fn lead_from(s: Seq<char>, i: int) -> int
    decreases s.len() - i,
{
    if 0 <= i < s.len() && is_space(s[i]) {
        lead_from(s, i + 1)
    } else {
        i
    }
}

/// The end of `s` once the spaces before index `j` are taken away.
pub open spec fn end_from(s: Seq<char>, j: int) -> int
    decreases j,
{
    if 0 < j <= s.len() && is_space(s[j - 1]) {
        end_from(s, j - 1)
    } else {
        j
    }
}

/// `s` without the spaces at its start.
pub open spec fn trim_start(s: Seq<char>) -> Seq<char> {
    s.skip(lead_from(s, 0))
}

/// `s` without the spaces at its end.
pub open spec fn trim_end(s: Seq<char>) -> Seq<char> {
    s.take(end_from(s, s.len() as int))
}

/// `s` without the spaces at either end: what `str::trim` hands back.
pub open spec fn trim(s: Seq<char>) -> Seq<char> {
    trim_end(trim_start(s))
}

pub proof fn lemma_lead_from_bounds(s: Seq<char>, i: int)
    requires
        0 <= i <= s.len(),
    ensures
        i <= lead_from(s, i) <= s.len(),
        lead_from(s, i) < s.len() ==> !is_space(s[lead_from(s, i)]),
        forall|k: int| i <= k < lead_from(s, i) ==> is_space(s[k]),
    decreases s.len() - i,
{
    if i < s.len() && is_space(s[i]) {
        lemma_lead_from_bounds(s, i + 1);
    }
}

pub proof fn lemma_end_from_bounds(s: Seq<char>, j: int)
    requires
        0 <= j <= s.len(),
    ensures
        0 <= end_from(s, j) <= j,
        end_from(s, j) > 0 ==> !is_space(s[end_from(s, j) - 1]),
        forall|k: int| end_from(s, j) <= k < j ==> is_space(s[k]),
    decreases j,
{
    if j > 0 && is_space(s[j - 1]) {
        lemma_end_from_bounds(s, j - 1);
    }
}

/// The first non-space position of `v` at or after `i`.
fn skip_spaces(v: &Vec<char>, i: usize) -> (r: usize)
    requires
        i <= v.len(),
    ensures
        r == lead_from(v@, i as int),
        i <= r <= v.len(),
{
    let mut k = i;
    while k < v.len() && space(v[k])
        invariant
            i <= k <= v.len(),
            lead_from(v@, k as int) == lead_from(v@, i as int),
        decreases v.len() - k,
    {
        k += 1;
    }
    k
}

/// The end of `v` before `j` once trailing spaces are taken away.
fn back_over_spaces(v: &Vec<char>, j: usize) -> (r: usize)
    requires
        j <= v.len(),
    ensures
        r == end_from(v@, j as int),
        r <= j,
{
    let mut k = j;
    while k > 0 && space(v[k - 1])
        invariant
            k <= j <= v.len(),
            end_from(v@, k as int) == end_from(v@, j as int),
        decreases k,
    {
        k -= 1;
    }
    k
}

/// The bounds `trim` keeps, inside `v`.
pub fn trim_bounds(v: &Vec<char>) -> (r: (usize, usize))
    ensures
        r.0 <= r.1 <= v.len(),
        v@.subrange(r.0 as int, r.1 as int) == trim(v@),
{
    let lo = skip_spaces(v, 0);
    let ghost t = v@.skip(lo as int);
    let mut k = v.len();
    while k > lo && space(v[k - 1])
        invariant
            lo <= k <= v.len(),
            t == v@.skip(lo as int),
            end_from(t, k - lo) == end_from(t, t.len() as int),
        decreases k,
    {
        assert(t[k - lo - 1] == v@[k - 1]);
        k -= 1;
    }
    proof {
        if k > lo {
            assert(t[k - lo - 1] == v@[k - 1]);
        }
        assert(end_from(t, k - lo) == k - lo);
        assert(t.take(k - lo) =~= v@.subrange(lo as int, k as int));
    }
    (lo, k)
}

/// `str::trim_end`, written out over characters.
pub fn trimmed_end(s: &str) -> (r: String)
    ensures
        r@ == trim_end(s@),
{
    let v = chars_of(s);
    let k = back_over_spaces(&v, v.len());
    assert(v@.subrange(0, k as int) =~= s@.take(k as int));
    from_range(&v, 0, k)
}

/// `str::trim`, written out over characters.
pub fn trimmed(s: &str) -> (r: String)
    ensures
        r@ == trim(s@),
{
    let v = chars_of(s);
    let (lo, hi) = trim_bounds(&v);
    from_range(&v, lo, hi)
}

/// Whether this is nothing but spaces.
pub open spec fn blank(s: Seq<char>) -> bool {
    forall|i: int| 0 <= i < s.len() ==> is_space(#[trigger] s[i])
}

pub proof fn lemma_trim_empty_iff_blank(s: Seq<char>)
    ensures
        trim(s).len() == 0 <==> blank(s),
{
    lemma_lead_from_bounds(s, 0);
    let lo = lead_from(s, 0);
    let t = s.skip(lo);
    lemma_end_from_bounds(t, t.len() as int);
    if lo < s.len() {
        assert(t[0] == s[lo]);
        if end_from(t, t.len() as int) == 0 {
            assert(is_space(t[0]));
        }
    }
    if lo == s.len() {
        assert forall|i: int| 0 <= i < s.len() implies is_space(#[trigger] s[i]) by {}
    }
}

/// `c` with an ASCII capital made small, and everything else left alone.
pub open spec fn lower_char(c: char) -> char {
    if 'A' <= c && c <= 'Z' {
        ((c as u32) + 32) as char
    } else {
        c
    }
}

/// `str::to_ascii_lowercase`.
pub open spec fn lower(s: Seq<char>) -> Seq<char> {
    s.map_values(|c: char| lower_char(c))
}

pub fn lowered_char(c: char) -> (r: char)
    ensures
        r == lower_char(c),
{
    if 'A' <= c && c <= 'Z' {
        let b = c as u8;
        assert(b == c as u32);
        ((b + 32) as u8) as char
    } else {
        c
    }
}

pub fn lowered(s: &str) -> (r: String)
    ensures
        r@ == lower(s@),
{
    let v = chars_of(s);
    let mut r = String::new();
    let mut i: usize = 0;
    while i < v.len()
        invariant
            i <= v.len(),
            v@ == s@,
            r@ == lower(v@.take(i as int)),
        decreases v.len() - i,
    {
        push_char(&mut r, lowered_char(v[i]));
        assert(lower(v@.take(i + 1)) =~= lower(v@.take(i as int)).push(lower_char(v@[i as int])));
        i += 1;
    }
    assert(v@.take(v.len() as int) =~= v@);
    r
}

/// The character for a decimal digit.
pub open spec fn digit(d: nat) -> char {
    (d + 48) as char
}

/// A number as it is written in decimal, with no leading zeroes.
pub open spec fn decimal(n: nat) -> Seq<char>
    decreases n,
{
    if n < 10 {
        seq![digit(n)]
    } else {
        decimal(n / 10).push(digit(n % 10))
    }
}

/// A number written in decimal is decimal digits, at least one of them.
pub proof fn lemma_decimal_digits(n: nat)
    ensures
        decimal(n).len() >= 1,
        forall|i: int|
            0 <= i < decimal(n).len() ==> '0' <= #[trigger] decimal(n)[i] && decimal(n)[i]
                <= '9',
    decreases n,
{
    if n >= 10 {
        lemma_decimal_digits(n / 10);
        assert forall|i: int| 0 <= i < decimal(n).len() implies '0' <= #[trigger] decimal(n)[i]
            && decimal(n)[i] <= '9' by {
            if i < decimal(n / 10).len() {
                assert(decimal(n)[i] == decimal(n / 10)[i]);
            }
        }
    }
}

/// A number, written out in decimal.
pub fn number(n: u64) -> (s: String)
    ensures
        s@ == decimal(n as nat),
    decreases n,
{
    let d = (n % 10) as u8;
    let c = (d + 48) as char;
    assert(c == digit((n % 10) as nat));
    if n < 10 {
        let mut s = String::new();
        push_char(&mut s, c);
        assert(s@ =~= seq![digit(n as nat)]);
        s
    } else {
        let mut s = number(n / 10);
        push_char(&mut s, c);
        s
    }
}

/// A number at least two digits wide, with a zero in front where it needs one.
pub open spec fn two_digits(n: nat) -> Seq<char> {
    if n < 10 {
        seq!['0'].add(decimal(n))
    } else {
        decimal(n)
    }
}

pub fn padded_number(n: u64) -> (s: String)
    ensures
        s@ == two_digits(n as nat),
{
    let digits = number(n);
    proof {
        reveal_strlit("0");
    }
    if n < 10 {
        joined("0", digits.as_str())
    } else {
        digits
    }
}

/// `text` left-aligned in a field `width` characters wide: what `{:<width$}`
/// does with it.
pub open spec fn pad_right(text: Seq<char>, width: nat) -> Seq<char> {
    if text.len() >= width {
        text
    } else {
        text + Seq::new((width - text.len()) as nat, |_i: int| ' ')
    }
}

pub fn padded(text: &str, width: usize) -> (s: String)
    ensures
        s@ == pad_right(text@, width as nat),
{
    let mut s = text.to_string();
    let n = text.unicode_len();
    if n < width {
        let mut k = n;
        while k < width
            invariant
                n <= k <= width,
                n == text@.len(),
                s@ == text@ + Seq::new((k - n) as nat, |_i: int| ' '),
            decreases width - k,
        {
            push_char(&mut s, ' ');
            assert(text@ + Seq::new((k + 1 - n) as nat, |_i: int| ' ') =~= text@ + Seq::new(
                (k - n) as nat,
                |_i: int| ' ',
            ).push(' '));
            k += 1;
        }
    }
    s
}

/// `text` right-aligned in a field `width` characters wide: what `{:>width$}`
/// does with it.
pub open spec fn pad_left(text: Seq<char>, width: nat) -> Seq<char> {
    if text.len() >= width {
        text
    } else {
        Seq::new((width - text.len()) as nat, |_i: int| ' ') + text
    }
}

pub fn padded_left(text: &str, width: usize) -> (s: String)
    ensures
        s@ == pad_left(text@, width as nat),
{
    let n = text.unicode_len();
    if n >= width {
        return text.to_string();
    }
    let mut s = String::new();
    let mut k: usize = n;
    while k < width
        invariant
            n <= k <= width,
            n == text@.len(),
            s@ == Seq::new((k - n) as nat, |_i: int| ' '),
        decreases width - k,
    {
        push_char(&mut s, ' ');
        assert(Seq::new((k + 1 - n) as nat, |_i: int| ' ') =~= Seq::new(
            (k - n) as nat,
            |_i: int| ' ',
        ).push(' '));
        k += 1;
    }
    s.append(text);
    s
}

/// The characters that drive a terminal rather than being drawn by one: the
/// C0 and C1 controls and `DEL`, and the invisible characters that let one
/// spelling pass for another.
pub open spec fn drives_a_terminal(c: char) -> bool {
    let n = c as u32;
    ||| n < 0x20
    ||| 0x7f <= n < 0xa0
    ||| 0x200b <= n <= 0x200f
    ||| 0x2028 <= n <= 0x202e
    ||| 0x2060 <= n <= 0x2064
    ||| n == 0xfeff
}

/// What one character becomes on the way to a terminal: a line break stays a
/// line break, anything that would drive the terminal becomes a space, and
/// the rest is itself.
pub open spec fn inert_char(c: char) -> char {
    if c == '\n' {
        c
    } else if drives_a_terminal(c) {
        ' '
    } else {
        c
    }
}

/// Text somebody else wrote, made unable to drive the terminal it is printed
/// into. Replaced, never deleted, so the halves of a spelling cannot close up.
pub open spec fn sanitized(s: Seq<char>) -> Seq<char> {
    s.map_values(|c: char| inert_char(c))
}

pub fn inert_of(c: char) -> (r: char)
    ensures
        r == inert_char(c),
{
    let n = c as u32;
    if c == '\n' {
        c
    } else if n < 0x20 || (0x7f <= n && n < 0xa0) || (0x200b <= n && n <= 0x200f) || (0x2028
        <= n && n <= 0x202e) || (0x2060 <= n && n <= 0x2064) || n == 0xfeff {
        ' '
    } else {
        c
    }
}

pub fn sanitize(s: &str) -> (r: String)
    ensures
        r@ == sanitized(s@),
        r@.len() == s@.len(),
        forall|i: int|
            0 <= i < r@.len() ==> (#[trigger] r@[i] == '\n' || !drives_a_terminal(r@[i])),
{
    let v = chars_of(s);
    let mut r = String::new();
    let mut i: usize = 0;
    while i < v.len()
        invariant
            i <= v.len(),
            v@ == s@,
            r@ == sanitized(v@.take(i as int)),
        decreases v.len() - i,
    {
        push_char(&mut r, inert_of(v[i]));
        assert(sanitized(v@.take(i + 1)) =~= sanitized(v@.take(i as int)).push(
            inert_char(v@[i as int]),
        ));
        i += 1;
    }
    assert(v@.take(v.len() as int) =~= v@);
    r
}

/// Where the first line of `s` ends: the first line break, or the end.
pub open spec fn line_end(s: Seq<char>, i: int) -> int
    decreases s.len() - i,
{
    if 0 <= i < s.len() && s[i] != '\n' {
        line_end(s, i + 1)
    } else {
        i
    }
}

pub proof fn lemma_line_end_bounds(s: Seq<char>, i: int)
    requires
        0 <= i <= s.len(),
    ensures
        i <= line_end(s, i) <= s.len(),
        line_end(s, i) < s.len() ==> s[line_end(s, i)] == '\n',
        forall|k: int| i <= k < line_end(s, i) ==> s[k] != '\n',
    decreases s.len() - i,
{
    if i < s.len() && s[i] != '\n' {
        lemma_line_end_bounds(s, i + 1);
    }
}

/// A line as `str::lines` hands it back: a `\r` before the break is the
/// break's, not the line's.
pub open spec fn without_cr(line: Seq<char>) -> Seq<char> {
    if line.len() > 0 && line.last() == '\r' {
        line.drop_last()
    } else {
        line
    }
}

/// The first line of `s`, as `s.lines().next().unwrap_or("")` reads it.
pub open spec fn first_line(s: Seq<char>) -> Seq<char> {
    without_cr(s.take(line_end(s, 0)))
}

/// Where the line that starts at `i` ends.
pub fn end_of_line(v: &Vec<char>, i: usize) -> (r: usize)
    requires
        i <= v.len(),
    ensures
        r == line_end(v@, i as int),
        i <= r <= v.len(),
{
    let mut k = i;
    while k < v.len() && v[k] != '\n'
        invariant
            i <= k <= v.len(),
            line_end(v@, k as int) == line_end(v@, i as int),
        decreases v.len() - k,
    {
        k += 1;
    }
    k
}

/// The first line of some text.
pub fn first_line_of(s: &str) -> (r: String)
    ensures
        r@ == first_line(s@),
{
    let v = chars_of(s);
    let e = end_of_line(&v, 0);
    let mut hi = e;
    if e > 0 && v[e - 1] == '\r' {
        hi = e - 1;
    }
    proof {
        assert(v@.take(e as int).len() == e);
        if e > 0 {
            assert(v@.take(e as int).last() == v@[e - 1]);
            assert(v@.take(e as int).drop_last() =~= v@.subrange(0, e - 1));
        }
        assert(v@.take(e as int) =~= v@.subrange(0, e as int));
    }
    from_range(&v, 0, hi)
}

/// The lines of `s`, from index `i` on, as `str::lines` splits them.
pub open spec fn lines_from(s: Seq<char>, i: int) -> Seq<Seq<char>>
    decreases s.len() - i,
{
    if i < 0 || i >= s.len() {
        Seq::empty()
    } else {
        let e = line_end(s, i);
        if e < i || e >= s.len() {
            seq![without_cr(s.subrange(i, e))]
        } else {
            seq![without_cr(s.subrange(i, e))] + lines_from(s, e + 1)
        }
    }
}

/// The lines of `s`, as `str::lines` splits them.
pub open spec fn lines(s: Seq<char>) -> Seq<Seq<char>> {
    lines_from(s, 0)
}

/// `str::lines`.
pub fn lines_of(s: &str) -> (r: Vec<String>)
    ensures
        r@.map_values(|l: String| l@) == lines(s@),
{
    let v = chars_of(s);
    let mut r: Vec<String> = Vec::new();
    let mut i: usize = 0;
    while i < v.len()
        invariant
            i <= v.len(),
            v@ == s@,
            r@.map_values(|l: String| l@) + lines_from(v@, i as int) == lines(v@),
        decreases v.len() - i,
    {
        let e = end_of_line(&v, i);
        let mut hi = e;
        if e > i && v[e - 1] == '\r' {
            hi = e - 1;
        }
        let line = from_range(&v, i, hi);
        proof {
            let whole = v@.subrange(i as int, e as int);
            if e > i {
                assert(whole.last() == v@[e - 1]);
                assert(whole.drop_last() =~= v@.subrange(i as int, e - 1));
            }
            assert(line@ == without_cr(whole));
            assert(lines_from(v@, i as int) == seq![without_cr(whole)] + lines_from(
                v@,
                e + 1,
            ));
        }
        let ghost before = r@.map_values(|l: String| l@);
        r.push(line);
        proof {
            assert(r@.map_values(|l: String| l@) =~= before.push(line@));
            assert(before.push(line@) + lines_from(v@, e + 1) =~= before + (seq![line@]
                + lines_from(v@, e + 1)));
        }
        if e == v.len() {
            i = e;
        } else {
            i = e + 1;
        }
    }
    proof {
        assert(lines_from(v@, i as int) =~= Seq::<Seq<char>>::empty());
        assert(r@.map_values(|l: String| l@) + Seq::<Seq<char>>::empty() =~= r@.map_values(
            |l: String| l@,
        ));
    }
    r
}

/// Whether `s` holds `part` starting at `at`.
pub open spec fn holds_at(s: Seq<char>, part: Seq<char>, at: int) -> bool {
    0 <= at && at + part.len() <= s.len() && s.subrange(at, at + part.len()) == part
}

/// `str::contains`.
pub open spec fn contains(s: Seq<char>, part: Seq<char>) -> bool {
    exists|at: int| holds_at(s, part, at)
}

/// Whether `v` holds `part` at `at`.
pub fn matches_at(v: &Vec<char>, part: &Vec<char>, at: usize) -> (b: bool)
    requires
        at <= v.len(),
    ensures
        b == holds_at(v@, part@, at as int),
{
    if part.len() > v.len() - at {
        return false;
    }
    let mut k: usize = 0;
    while k < part.len()
        invariant
            k <= part.len(),
            at + part.len() <= v.len(),
            forall|j: int| 0 <= j < k ==> v@[at + j] == part@[j],
        decreases part.len() - k,
    {
        if v[at + k] != part[k] {
            assert(v@.subrange(at as int, at + part.len())[k as int] != part@[k as int]);
            return false;
        }
        k += 1;
    }
    assert(v@.subrange(at as int, at + part.len()) =~= part@);
    true
}

/// `str::contains`, written out over characters.
pub fn contains_text(s: &str, part: &str) -> (b: bool)
    ensures
        b == contains(s@, part@),
{
    let v = chars_of(s);
    let p = chars_of(part);
    let mut at: usize = 0;
    while at < v.len()
        invariant
            v@ == s@,
            p@ == part@,
            at <= v.len(),
            forall|j: int| 0 <= j < at ==> !holds_at(v@, p@, j),
        decreases v.len() - at,
    {
        if matches_at(&v, &p, at) {
            return true;
        }
        at += 1;
    }
    if matches_at(&v, &p, at) {
        return true;
    }
    assert forall|j: int| !holds_at(v@, p@, j) by {
        if 0 <= j <= at {
        }
    }
    false
}

/// `str::starts_with`.
pub open spec fn starts_with(s: Seq<char>, part: Seq<char>) -> bool {
    part.len() <= s.len() && s.take(part.len() as int) == part
}

pub fn starts_with_text(s: &str, part: &str) -> (b: bool)
    ensures
        b == starts_with(s@, part@),
{
    let v = chars_of(s);
    let p = chars_of(part);
    let b = matches_at(&v, &p, 0);
    proof {
        if p@.len() <= v@.len() {
            assert(v@.subrange(0, p@.len() as int) =~= v@.take(p@.len() as int));
        }
    }
    b
}

/// `str::ends_with` for one character.
pub open spec fn ends_with_char(s: Seq<char>, c: char) -> bool {
    s.len() > 0 && s.last() == c
}

pub fn ends_with_char_of(s: &str, c: char) -> (b: bool)
    ensures
        b == ends_with_char(s@, c),
{
    let v = chars_of(s);
    v.len() > 0 && v[v.len() - 1] == c
}

/// Whether two strings are the same text.
pub fn same_text(a: &str, b: &str) -> (r: bool)
    ensures
        r == (a@ == b@),
{
    let v = chars_of(a);
    let w = chars_of(b);
    if v.len() != w.len() {
        return false;
    }
    let mut i: usize = 0;
    while i < v.len()
        invariant
            i <= v.len() == w.len(),
            v@ == a@,
            w@ == b@,
            forall|j: int| 0 <= j < i ==> v@[j] == w@[j],
        decreases v.len() - i,
    {
        if v[i] != w[i] {
            return false;
        }
        i += 1;
    }
    assert(v@ =~= w@);
    true
}

/// A copy of the string, with the same characters.
pub fn copied(s: &String) -> (r: String)
    ensures
        r@ == s@,
{
    s.clone()
}


/// The first index at or after `i` that holds `c`, or the end.
pub open spec fn upto(s: Seq<char>, c: char, i: int) -> int
    decreases s.len() - i,
{
    if 0 <= i < s.len() && s[i] != c {
        upto(s, c, i + 1)
    } else {
        i
    }
}

pub proof fn lemma_upto_bounds(s: Seq<char>, c: char, i: int)
    requires
        0 <= i <= s.len(),
    ensures
        i <= upto(s, c, i) <= s.len(),
        upto(s, c, i) < s.len() ==> s[upto(s, c, i)] == c,
        forall|k: int| i <= k < upto(s, c, i) ==> s[k] != c,
    decreases s.len() - i,
{
    if i < s.len() && s[i] != c {
        lemma_upto_bounds(s, c, i + 1);
    }
}

/// The pieces of `s` from `i` on, between each `c` and the next:
/// `str::split` with one character.
pub open spec fn split_from(s: Seq<char>, c: char, i: int) -> Seq<Seq<char>>
    decreases s.len() - i,
{
    let e = upto(s, c, i);
    if i < 0 || i > s.len() || e < i || e >= s.len() {
        seq![s.subrange(i, s.len() as int)]
    } else {
        seq![s.subrange(i, e)] + split_from(s, c, e + 1)
    }
}

/// `str::split` with one character.
pub open spec fn split_on(s: Seq<char>, c: char) -> Seq<Seq<char>> {
    split_from(s, c, 0)
}

fn find_char(v: &Vec<char>, c: char, i: usize) -> (r: usize)
    requires
        i <= v.len(),
    ensures
        r == upto(v@, c, i as int),
        i <= r <= v.len(),
{
    let mut k = i;
    while k < v.len() && v[k] != c
        invariant
            i <= k <= v.len(),
            upto(v@, c, k as int) == upto(v@, c, i as int),
        decreases v.len() - k,
    {
        k += 1;
    }
    k
}

/// `str::split` with one character.
pub fn split_text(s: &str, c: char) -> (r: Vec<String>)
    ensures
        r@.map_values(|p: String| p@) == split_on(s@, c),
        r@.len() >= 1,
{
    let v = chars_of(s);
    let mut r: Vec<String> = Vec::new();
    let mut i: usize = 0;
    loop
        invariant
            i <= v.len(),
            v@ == s@,
            r@.map_values(|p: String| p@) + split_from(v@, c, i as int) == split_on(v@, c),
        decreases v.len() - i,
    {
        let e = find_char(&v, c, i);
        let piece = from_range(&v, i, e);
        let ghost before = r@.map_values(|p: String| p@);
        r.push(piece);
        assert(r@.map_values(|p: String| p@) =~= before.push(piece@));
        if e == v.len() {
            assert(split_from(v@, c, i as int) == seq![piece@]);
            assert(before.push(piece@) =~= before + seq![piece@]);
            return r;
        }
        assert(split_from(v@, c, i as int) == seq![piece@] + split_from(v@, c, e + 1));
        assert(before.push(piece@) + split_from(v@, c, e + 1) =~= before + (seq![piece@]
            + split_from(v@, c, e + 1)));
        i = e + 1;
    }
}

/// The first index at or after `i` that holds a space, or the end.
pub open spec fn word_end(s: Seq<char>, i: int) -> int
    decreases s.len() - i,
{
    if 0 <= i < s.len() && !is_space(s[i]) {
        word_end(s, i + 1)
    } else {
        i
    }
}

pub proof fn lemma_word_end_bounds(s: Seq<char>, i: int)
    requires
        0 <= i <= s.len(),
    ensures
        i <= word_end(s, i) <= s.len(),
        word_end(s, i) < s.len() ==> is_space(s[word_end(s, i)]),
        forall|k: int| i <= k < word_end(s, i) ==> !is_space(s[k]),
    decreases s.len() - i,
{
    if i < s.len() && !is_space(s[i]) {
        lemma_word_end_bounds(s, i + 1);
    }
}

/// The words of `s` from `i` on: `str::split_whitespace`.
pub open spec fn words_from(s: Seq<char>, i: int) -> Seq<Seq<char>>
    decreases s.len() - i,
{
    let a = lead_from(s, i);
    let b = word_end(s, a);
    if i < 0 || a < i || a >= s.len() || b <= a || b > s.len() {
        Seq::empty()
    } else {
        seq![s.subrange(a, b)] + words_from(s, b)
    }
}

/// `str::split_whitespace`.
pub open spec fn words(s: Seq<char>) -> Seq<Seq<char>> {
    words_from(s, 0)
}

fn word_end_of(v: &Vec<char>, i: usize) -> (r: usize)
    requires
        i <= v.len(),
    ensures
        r == word_end(v@, i as int),
        i <= r <= v.len(),
{
    let mut k = i;
    while k < v.len() && !space(v[k])
        invariant
            i <= k <= v.len(),
            word_end(v@, k as int) == word_end(v@, i as int),
        decreases v.len() - k,
    {
        k += 1;
    }
    k
}

/// `str::split_whitespace`.
pub fn words_of(s: &str) -> (r: Vec<String>)
    ensures
        r@.map_values(|p: String| p@) == words(s@),
{
    let v = chars_of(s);
    let mut r: Vec<String> = Vec::new();
    let mut i: usize = 0;
    loop
        invariant
            i <= v.len(),
            v@ == s@,
            r@.map_values(|p: String| p@) + words_from(v@, i as int) == words(v@),
        decreases v.len() - i,
    {
        let a = skip_spaces(&v, i);
        if a >= v.len() {
            assert(words_from(v@, i as int) =~= Seq::<Seq<char>>::empty());
            assert(r@.map_values(|p: String| p@) + Seq::<Seq<char>>::empty() =~= r@.map_values(
                |p: String| p@,
            ));
            return r;
        }
        let b = word_end_of(&v, a);
        proof {
            lemma_lead_from_bounds(v@, i as int);
            assert(!is_space(v@[a as int]));
            lemma_word_end_bounds(v@, a as int);
        }
        let piece = from_range(&v, a, b);
        let ghost before = r@.map_values(|p: String| p@);
        r.push(piece);
        assert(r@.map_values(|p: String| p@) =~= before.push(piece@));
        assert(words_from(v@, i as int) == seq![piece@] + words_from(v@, b as int));
        assert(before.push(piece@) + words_from(v@, b as int) =~= before + (seq![piece@]
            + words_from(v@, b as int)));
        i = b;
    }
}


/// The parts one after another with `sep` between each two: `slice::join`.
pub open spec fn joined_with(parts: Seq<Seq<char>>, sep: Seq<char>) -> Seq<char>
    decreases parts.len(),
{
    if parts.len() == 0 {
        Seq::empty()
    } else if parts.len() == 1 {
        parts[0]
    } else {
        joined_with(parts.drop_last(), sep) + sep + parts.last()
    }
}

/// `slice::join` over strings.
pub fn join(parts: &Vec<String>, sep: &str) -> (s: String)
    ensures
        s@ == joined_with(parts@.map_values(|p: String| p@), sep@),
{
    let ghost all = parts@.map_values(|p: String| p@);
    let mut s = String::new();
    let mut i: usize = 0;
    while i < parts.len()
        invariant
            i <= parts.len(),
            all == parts@.map_values(|p: String| p@),
            s@ == joined_with(all.take(i as int), sep@),
        decreases parts.len() - i,
    {
        if i > 0 {
            s.append(sep);
        }
        s.append(parts[i].as_str());
        proof {
            assert(all.take(i + 1).drop_last() =~= all.take(i as int));
            if i == 0 {
                assert(all.take(1) =~= seq![all[0]]);
            }
        }
        i += 1;
    }
    assert(all.take(parts.len() as int) =~= all);
    s
}

/// Where `c` last stands in `s`, or -1 where it does not.
pub open spec fn last_of(s: Seq<char>, c: char) -> int {
    last_before(s, c, s.len() as int)
}

/// Where `c` last stands among the first `n` characters of `s`.
pub open spec fn last_before(s: Seq<char>, c: char, n: int) -> int
    decreases n,
{
    if n <= 0 || n > s.len() {
        -1
    } else if s[n - 1] == c {
        n - 1
    } else {
        last_before(s, c, n - 1)
    }
}

/// Where `c` last stands in `v`.
pub fn last_index_of(v: &Vec<char>, c: char) -> (r: Option<usize>)
    ensures
        r matches Some(k) ==> last_of(v@, c) == k && k < v.len(),
        r is None ==> last_of(v@, c) == -1,
{
    let mut n = v.len();
    while n > 0
        invariant
            n <= v.len(),
            last_of(v@, c) == last_before(v@, c, n as int),
        decreases n,
    {
        if v[n - 1] == c {
            return Some(n - 1);
        }
        n -= 1;
    }
    None
}


/// `c` with an ASCII small letter made capital, and everything else left
/// alone: `char::to_ascii_uppercase`.
pub open spec fn upper_char(c: char) -> char {
    if 'a' <= c && c <= 'z' {
        ((c as u32) - 32) as char
    } else {
        c
    }
}

/// `str::to_ascii_uppercase`.
pub open spec fn upper(s: Seq<char>) -> Seq<char> {
    s.map_values(|c: char| upper_char(c))
}

proof fn lemma_lead_same(s: Seq<char>, t: Seq<char>, i: int)
    requires
        s.len() == t.len(),
        forall|k: int| 0 <= k < s.len() ==> is_space(#[trigger] s[k]) == is_space(t[k]),
    ensures
        lead_from(s, i) == lead_from(t, i),
    decreases s.len() - i,
{
    if 0 <= i < s.len() && is_space(s[i]) {
        lemma_lead_same(s, t, i + 1);
    }
}

proof fn lemma_end_same(s: Seq<char>, t: Seq<char>, j: int)
    requires
        s.len() == t.len(),
        forall|k: int| 0 <= k < s.len() ==> is_space(#[trigger] s[k]) == is_space(t[k]),
    ensures
        end_from(s, j) == end_from(t, j),
    decreases j,
{
    if 0 < j <= s.len() && is_space(s[j - 1]) {
        lemma_end_same(s, t, j - 1);
    }
}

/// Trimming, then making ASCII small, is making small, then trimming: no
/// letter is a space and no space a letter.
pub proof fn lemma_trim_lower(s: Seq<char>)
    ensures
        trim(lower(s)) == lower(trim(s)),
        lower(lower(s)) == lower(s),
        lower(upper(s)) == lower(s),
{
    let l = lower(s);
    assert forall|k: int| 0 <= k < s.len() implies is_space(#[trigger] s[k]) == is_space(l[k]) by {}
    lemma_lead_same(s, l, 0);
    lemma_lead_from_bounds(s, 0);
    let a = lead_from(s, 0);
    let ts = s.skip(a);
    let tl = l.skip(a);
    assert(tl =~= lower(ts));
    assert forall|k: int| 0 <= k < ts.len() implies is_space(#[trigger] ts[k]) == is_space(tl[k]) by {}
    lemma_end_same(ts, tl, ts.len() as int);
    lemma_end_from_bounds(ts, ts.len() as int);
    let e = end_from(ts, ts.len() as int);
    assert(tl.take(e) =~= lower(ts.take(e)));
    assert(lower(lower(s)) =~= lower(s));
    assert(lower(upper(s)) =~= lower(s));
}

/// Trimming what is trimmed changes nothing.
pub proof fn lemma_trim_trim(s: Seq<char>)
    ensures
        trim(trim(s)) == trim(s),
{
    lemma_lead_from_bounds(s, 0);
    let a = lead_from(s, 0);
    let ts = s.skip(a);
    lemma_end_from_bounds(ts, ts.len() as int);
    let e = end_from(ts, ts.len() as int);
    let t = ts.take(e);
    lemma_lead_from_bounds(t, 0);
    if t.len() > 0 {
        assert(t[0] == s[a]);
        assert(!is_space(t[0]));
        assert(lead_from(t, 0) == 0);
        assert(!is_space(t[t.len() - 1]));
        assert(end_from(t, t.len() as int) == t.len());
    }
    assert(t.skip(lead_from(t, 0)) =~= t);
    let u = t.skip(lead_from(t, 0));
    assert(u.take(end_from(u, u.len() as int)) =~= t);
}

} // verus!
