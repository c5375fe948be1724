//! Character-level helpers over the `Seq<char>` view of strings.

use vstd::prelude::*;

verus! {

/// The character that separates a version from a description in a name.
pub const SEPARATOR: char = '_';

/// Whether `s` holds the separator character anywhere.
pub open spec fn has_separator(s: Seq<char>) -> bool {
    s.contains(SEPARATOR)
}

/// What `char::is_numeric` of the standard library answers for a
/// character outside ASCII: whether Unicode classes it as a number.
pub uninterp spec fn unicode_numeric(c: char) -> bool;

/// Whether `c` is a numeric character: within ASCII exactly the ten decimal
/// digits, beyond ASCII whatever Unicode classes as a number.
pub open spec fn is_numeric_char(c: char) -> bool {
    if c <= '\x7f' {
        '0' <= c && c <= '9'
    } else {
        unicode_numeric(c)
    }
}

/// Whether every character of `s` is numeric. The empty text qualifies.
pub open spec fn all_numeric(s: Seq<char>) -> bool {
    forall|i: int| 0 <= i < s.len() ==> is_numeric_char(#[trigger] s[i])
}

/// The contents of a list of strings.
pub open spec fn texts(list: Seq<String>) -> Seq<Seq<char>> {
    list.map_values(|s: String| s@)
}

/// The characters of `s`, in order.
pub fn chars_of(s: &str) -> (v: Vec<char>)
    ensures
        v@ == s@,
{
    let mut v: Vec<char> = Vec::new();
    for c in it: s.chars()
        invariant
            v@ == it.seq().take(it.index() as int),
            it.seq() == s@,
    {
        v.push(c);
    }
    v
}

/// `char::is_numeric` of the standard library, which reports whether a
/// character belongs to one of Unicode's number categories. Assumed: the
/// answer depends on the character alone, and among ASCII characters it is
/// `true` for the digits `0` to `9` and for nothing else.
#[verifier::external_body]
fn char_is_numeric(c: char) -> (r: bool)
    ensures
        r == (if c <= '\x7f' {
            '0' <= c && c <= '9'
        } else {
            unicode_numeric(c)
        }),
{
    c.is_numeric()
}

/// Tests whether the separator occurs in `s`.
pub fn contains_separator(s: &Vec<char>) -> (r: bool)
    ensures
        r == has_separator(s@),
{
    let mut i: usize = 0;
    while i < s.len()
        invariant
            i <= s.len(),
            forall|j: int| 0 <= j < i ==> s@[j] != SEPARATOR,
        decreases s.len() - i,
    {
        if s[i] == SEPARATOR {
            return true;
        }
        i += 1;
    }
    false
}

/// Tests whether `s` consists of numeric characters only.
pub fn is_all_numeric(s: &Vec<char>) -> (r: bool)
    ensures
        r == all_numeric(s@),
{
    let mut i: usize = 0;
    while i < s.len()
        invariant
            i <= s.len(),
            forall|j: int| 0 <= j < i ==> is_numeric_char(#[trigger] s@[j]),
        decreases s.len() - i,
    {
        if !char_is_numeric(s[i]) {
            return false;
        }
        i += 1;
    }
    true
}

/// Tests whether `s` begins with `prefix`.
pub fn starts_with(s: &Vec<char>, prefix: &Vec<char>) -> (r: bool)
    ensures
        r == prefix@.is_prefix_of(s@),
{
    if prefix.len() > s.len() {
        return false;
    }
    let mut i: usize = 0;
    while i < prefix.len()
        invariant
            i <= prefix.len() <= s.len(),
            forall|j: int| 0 <= j < i ==> s@[j] == prefix@[j],
        decreases prefix.len() - i,
    {
        if s[i] != prefix[i] {
            assert(s@.subrange(0, prefix@.len() as int)[i as int] != prefix@[i as int]);
            return false;
        }
        i += 1;
    }
    assert(prefix@ =~= s@.subrange(0, prefix@.len() as int));
    true
}

/// Tests whether `s` ends with `suffix`.
pub fn ends_with(s: &Vec<char>, suffix: &Vec<char>) -> (r: bool)
    ensures
        r == suffix@.is_suffix_of(s@),
{
    if suffix.len() > s.len() {
        return false;
    }
    let offset: usize = s.len() - suffix.len();
    let mut i: usize = 0;
    while i < suffix.len()
        invariant
            i <= suffix.len() <= s.len(),
            offset == s.len() - suffix.len(),
            forall|j: int| 0 <= j < i ==> s@[offset + j] == suffix@[j],
        decreases suffix.len() - i,
    {
        if s[offset + i] != suffix[i] {
            assert(s@.subrange(offset as int, s@.len() as int)[i as int] != suffix@[i as int]);
            return false;
        }
        i += 1;
    }
    assert(suffix@ =~= s@.subrange(offset as int, s@.len() as int));
    true
}

/// Tests whether two texts hold the same characters.
pub fn same_text(a: &Vec<char>, b: &Vec<char>) -> (r: bool)
    ensures
        r == (a@ == b@),
{
    if a.len() != b.len() {
        return false;
    }
    let r = starts_with(a, b);
    assert(a@.subrange(0, b@.len() as int) =~= a@);
    r
}

} // verus!
