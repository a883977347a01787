//! Small text tools that the other modules share.

use vstd::prelude::*;
use vstd::string::StringExecFns;

verus! {

/// A text of `n` blanks.
pub open spec fn blanks(n: nat) -> Seq<char> {
    Seq::new(n, |i: int| ' ')
}

/// The texts of a list of strings, in order.
pub open spec fn texts(list: Seq<String>) -> Seq<Seq<char>> {
    Seq::new(list.len(), |i: int| list[i]@)
}

/// The text of an optional string.
pub open spec fn opt_text(s: Option<String>) -> Option<Seq<char>> {
    match s {
        Some(s) => Some(s@),
        None => None,
    }
}

/// `c` with the letters `a` to `z` turned into `A` to `Z`, and every other
/// character left as it is.
pub open spec fn ascii_upper(c: char) -> char {
    if 'a' <= c && c <= 'z' {
        ((c as u8) - 32) as char
    } else {
        c
    }
}

/// The texts of `parts` in order, with `sep` between neighbours.
pub open spec fn joined(parts: Seq<Seq<char>>, sep: Seq<char>) -> Seq<char>
    decreases parts.len(),
{
    if parts.len() == 0 {
        Seq::empty()
    } else if parts.len() == 1 {
        parts[0]
    } else {
        joined(parts.drop_last(), sep) + sep + parts.last()
    }
}

/// Whether `needle` occurs in `hay` as a run of neighbouring characters.
pub open spec fn occurs_in(needle: Seq<char>, hay: Seq<char>) -> bool {
    exists|i: int|
        0 <= i && i + needle.len() <= hay.len() && #[trigger] hay.subrange(
            i,
            i + needle.len(),
        ) == needle
}

/// The text that `char::to_uppercase` makes of `c`: `c` in upper case, which
/// may take more than one character.
pub uninterp spec fn uppercased(c: char) -> Seq<char>;

/// The text that `str::trim` leaves of `s`: `s` without the white space at
/// its start and at its end.
pub uninterp spec fn trimmed(s: Seq<char>) -> Seq<char>;

/// The text that `str::to_lowercase` makes of `s`: `s` in lower case.
pub uninterp spec fn lowercased(s: Seq<char>) -> Seq<char>;

/// Strips white space from both ends through `str::trim`. What counts as
/// white space is Unicode's business; the result is only given its name.
#[verifier::external_body]
pub(crate) fn trim_text(s: &str) -> (r: String)
    ensures
        r@ == trimmed(s@),
{
    s.trim().to_string()
}

/// Turns a text to lower case through `str::to_lowercase`. The mapping is
/// Unicode's; the result is only given its name.
#[verifier::external_body]
pub(crate) fn lowercase_text(s: &str) -> (r: String)
    ensures
        r@ == lowercased(s@),
{
    s.to_lowercase()
}

/// Puts a character in upper case through `char::to_uppercase`. The mapping
/// is Unicode's, so the result is given its name; of the letters `a` to `z`
/// it is the one letter `A` to `Z`.
#[verifier::external_body]
pub(crate) fn uppercase_text(c: char) -> (r: String)
    ensures
        r@ == uppercased(c),
        'a' <= c && c <= 'z' ==> r@ == seq![ascii_upper(c)],
{
    c.to_uppercase().to_string()
}

/// A copy of an optional string.
pub(crate) fn copy_opt(s: &Option<String>) -> (copy: Option<String>)
    ensures
        opt_text(copy) == opt_text(*s),
{
    match s {
        Some(s) => Some(s.clone()),
        None => None,
    }
}

/// The characters of a text, in order.
pub fn chars_of(s: &str) -> (v: Vec<char>)
    ensures
        v@ == s@,
{
    let mut v: Vec<char> = Vec::new();
    for c in it: s.chars()
        invariant
            it.seq() == s@,
            v@ == s@.take(it.index() as int),
    {
        v.push(c);
    }
    v
}

/// Whether `needle` stands in `hay` at the position `at`.
fn occurs_at(needle: &Vec<char>, hay: &Vec<char>, at: usize) -> (r: bool)
    requires
        at + needle.len() <= hay.len(),
    ensures
        r == (hay@.subrange(at as int, at + needle.len()) == needle@),
{
    let mut k: usize = 0;
    while k < needle.len()
        invariant
            k <= needle.len(),
            at + needle.len() <= hay.len(),
            hay@.subrange(at as int, at + k) == needle@.take(k as int),
        decreases needle.len() - k,
    {
        if hay[at + k] != needle[k] {
            assert(hay@.subrange(at as int, at + needle.len())[k as int] != needle@[k as int]);
            return false;
        }
        k = k + 1;
        assert(hay@.subrange(at as int, at + k) == hay@.subrange(at as int, at + k - 1).push(
            hay@[at + k - 1],
        ));
        assert(needle@.take(k as int) == needle@.take(k - 1).push(needle@[k - 1]));
    }
    assert(needle@.take(needle.len() as int) == needle@);
    true
}

/// Whether `needle` occurs in `hay`.
pub fn str_contains(hay: &str, needle: &str) -> (r: bool)
    ensures
        r == occurs_in(needle@, hay@),
{
    let hay_chars = chars_of(hay);
    let needle_chars = chars_of(needle);
    if needle_chars.len() > hay_chars.len() {
        return false;
    }
    let last = hay_chars.len() - needle_chars.len();
    let mut at: usize = 0;
    while at < last
        invariant
            at <= last,
            last + needle_chars.len() == hay_chars.len(),
            hay_chars@ == hay@,
            needle_chars@ == needle@,
            forall|i: int|
                0 <= i < at ==> #[trigger] hay@.subrange(i, i + needle@.len()) != needle@,
        decreases last - at,
    {
        if occurs_at(&needle_chars, &hay_chars, at) {
            return true;
        }
        at = at + 1;
    }
    occurs_at(&needle_chars, &hay_chars, last)
}

/// Whether two texts are the same.
pub fn same_text(a: &str, b: &str) -> (r: bool)
    ensures
        r == (a@ == b@),
{
    let x = String::from_str(a);
    let y = String::from_str(b);
    x == y
}

/// A string of `n` blanks.
pub fn blank_string(n: usize) -> (s: String)
    ensures
        s@ == blanks(n as nat),
{
    let mut s = String::new();
    let mut i: usize = 0;
    while i < n
        invariant
            i <= n,
            s@ == blanks(i as nat),
        decreases n - i,
    {
        proof {
            reveal_strlit(" ");
        }
        s.append(" ");
        i = i + 1;
    }
    s
}

/// The strings of `parts` in order, with `sep` between neighbours.
pub fn join(parts: &Vec<String>, sep: &str) -> (s: String)
    ensures
        s@ == joined(texts(parts@), sep@),
{
    let mut s = String::new();
    let mut i: usize = 0;
    while i < parts.len()
        invariant
            i <= parts.len(),
            s@ == joined(texts(parts@).take(i as int), sep@),
        decreases parts.len() - i,
    {
        proof {
            let t = texts(parts@);
            assert(t.take(i + 1).drop_last() == t.take(i as int));
        }
        if i > 0 {
            s.append(sep);
        }
        s.append(parts[i].as_str());
        i = i + 1;
    }
    proof {
        assert(texts(parts@).take(parts.len() as int) == texts(parts@));
    }
    s
}

/// Where two texts start with parts of the same length and are equal as a
/// whole, the parts and the rests are equal.
pub proof fn lemma_split_equal(a: Seq<char>, x: Seq<char>, b: Seq<char>, y: Seq<char>)
    requires
        a.len() == b.len(),
        a + x == b + y,
    ensures
        a == b,
        x == y,
{
    assert((a + x).subrange(0, a.len() as int) == a);
    assert((a + x).subrange(a.len() as int, (a + x).len() as int) == x);
}

} // verus!
