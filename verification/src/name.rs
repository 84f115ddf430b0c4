//! Domain names as text: how a name is brought to the one form under which
//! it is looked up, and how a block-list line is turned into a name.

use vstd::prelude::*;
use vstd::string::*;

verus! {

/// `s` without every `c` at its end.
pub open spec fn strip_trailing(s: Seq<char>, c: char) -> Seq<char>
    decreases s.len(),
{
    if s.len() > 0 && s.last() == c {
        strip_trailing(s.drop_last(), c)
    } else {
        s
    }
}

/// `s` without every leading pair of vertical bars.
pub open spec fn strip_leading_bars(s: Seq<char>) -> Seq<char>
    decreases s.len(),
{
    if s.len() >= 2 && s[0] == '|' && s[1] == '|' {
        strip_leading_bars(s.skip(2))
    } else {
        s
    }
}

/// The lower-case form of an ASCII capital; every other character is itself.
pub open spec fn lower_char(c: char) -> char {
    if 'A' <= c && c <= 'Z' {
        ((c as u8) + 32) as char
    } else {
        c
    }
}

/// `s` with each character replaced by its `lower_char`.
pub open spec fn lowered(s: Seq<char>) -> Seq<char> {
    Seq::new(s.len(), |i: int| lower_char(s[i]))
}

/// The form under which a domain name is stored and looked up: without the
/// dots that end it, and in lower case.
pub open spec fn normalized_name(s: Seq<char>) -> Seq<char> {
    lowered(strip_trailing(s, '.'))
}

/// The domain name that a block-list line holds: the line without its
/// leading `||` and trailing `^`, normalized.
pub open spec fn line_name(line: Seq<char>) -> Seq<char> {
    normalized_name(strip_trailing(strip_leading_bars(line), '^'))
}

/// What a block-list line contributes: its name, unless nothing is left of it.
pub open spec fn line_entry(line: Seq<char>) -> Option<Seq<char>> {
    if line_name(line).len() == 0 {
        None
    } else {
        Some(line_name(line))
    }
}

/// What `strip_trailing` leaves is the front of `s` and does not end in `c`.
pub proof fn lemma_strip_trailing(s: Seq<char>, c: char)
    ensures
        strip_trailing(s, c).len() <= s.len(),
        strip_trailing(s, c) == s.take(strip_trailing(s, c).len() as int),
        strip_trailing(s, c).len() == 0 || strip_trailing(s, c).last() != c,
    decreases s.len(),
{
    if s.len() > 0 && s.last() == c {
        lemma_strip_trailing(s.drop_last(), c);
        let n = strip_trailing(s, c).len() as int;
        assert(s.drop_last().take(n) =~= s.take(n));
    } else {
        assert(s.take(s.len() as int) =~= s);
    }
}

/// Normalizing a name that is normalized changes nothing: a name may be
/// looked up in the spelling under which it is stored.
pub proof fn law_normalized_is_fixed(s: Seq<char>)
    ensures
        normalized_name(normalized_name(s)) == normalized_name(s),
{
    let stripped = strip_trailing(s, '.');
    let once = lowered(stripped);
    lemma_strip_trailing(s, '.');
    assert(forall|c: char| lower_char(c) == '.' <==> c == '.');
    assert(forall|c: char| lower_char(lower_char(c)) == #[trigger] lower_char(c));
    if once.len() > 0 {
        assert(once.last() == lower_char(stripped.last()));
    }
    assert(strip_trailing(once, '.') == once);
    assert(lowered(once) =~= once);
}

/// `str::to_ascii_lowercase` of std: the returned string has the characters
/// of `s` in order, with each of `A` to `Z` replaced by its lower-case letter
/// and every other character, ASCII or not, unchanged.
#[verifier::external_body]
fn ascii_lowercase(s: &str) -> (out: String)
    ensures
        out@ == lowered(s@),
{
    s.to_ascii_lowercase()
}

/// The end of `s[start..end]` once every trailing `c` is left out.
fn trailing_end(s: &str, start: usize, end: usize, c: char) -> (out: usize)
    requires
        start <= end <= s@.len(),
    ensures
        start <= out <= end,
        s@.subrange(start as int, out as int) == strip_trailing(
            s@.subrange(start as int, end as int),
            c,
        ),
{
    let mut e: usize = end;
    while e > start && s.get_char(e - 1) == c
        invariant
            start <= e <= end <= s@.len(),
            strip_trailing(s@.subrange(start as int, e as int), c) == strip_trailing(
                s@.subrange(start as int, end as int),
                c,
            ),
        decreases e,
    {
        assert(s@.subrange(start as int, e as int).drop_last() =~= s@.subrange(
            start as int,
            e - 1,
        ));
        e = e - 1;
    }
    e
}

/// The start of `s[..end]` once every leading `||` is left out.
fn leading_start(s: &str, end: usize) -> (out: usize)
    requires
        end == s@.len(),
    ensures
        out <= end,
        s@.subrange(out as int, end as int) == strip_leading_bars(s@),
{
    let mut b: usize = 0;
    assert(s@.subrange(0, end as int) =~= s@);
    while end - b >= 2 && s.get_char(b) == '|' && s.get_char(b + 1) == '|'
        invariant
            b <= end == s@.len(),
            strip_leading_bars(s@.subrange(b as int, end as int)) == strip_leading_bars(s@),
        decreases end - b,
    {
        assert(s@.subrange(b as int, end as int).skip(2) =~= s@.subrange(b + 2, end as int));
        b = b + 2;
    }
    b
}

/// Brings a domain name to the form under which it is stored and looked up.
pub fn normalize_domain(name: &str) -> (out: String)
    ensures
        out@ == normalized_name(name@),
{
    let n = name.unicode_len();
    let end = trailing_end(name, 0, n, '.');
    assert(name@.subrange(0, n as int) =~= name@);
    ascii_lowercase(name.substring_char(0, end))
}

/// Reads one line of a block list. A line may wrap its domain as `||domain^`;
/// a line of which nothing is left once the wrapping and the final dots are
/// taken off names no domain.
pub fn parse_denylist_line(line: &str) -> (out: Option<String>)
    ensures
        out is Some <==> line_entry(line@) is Some,
        out matches Some(name) ==> Some(name@) == line_entry(line@),
{
    let n = line.unicode_len();
    let begin = leading_start(line, n);
    let caret_end = trailing_end(line, begin, n, '^');
    let end = trailing_end(line, begin, caret_end, '.');
    if end == begin {
        None
    } else {
        Some(ascii_lowercase(line.substring_char(begin, end)))
    }
}

} // verus!
