//! The denylist: a fixed set of domain names that are refused. It is built
//! once from the lines of a block list and only read afterwards. A name is
//! on it when it equals a listed name exactly; there is no matching of
//! suffixes or wildcards.

use vstd::prelude::*;
use vstd::hash_set::StringHashSet;
use crate::name::{
    law_normalized_is_fixed, line_entry, normalized_name, parse_denylist_line,
    strip_leading_bars, strip_trailing,
};

verus! {

/// The names that the first `n` of `lines` list.
pub open spec fn listed_upto(lines: Seq<String>, n: int) -> Set<Seq<char>> {
    Set::new(
        |name: Seq<char>|
            exists|i: int| 0 <= i < n && i < lines.len() && #[trigger] line_entry(lines[i]@) == Some(name),
    )
}

/// The names that `lines` list.
pub open spec fn listed_names(lines: Seq<String>) -> Set<Seq<char>> {
    listed_upto(lines, lines.len() as int)
}

/// A set of blocked domain names, each in normalized form.
pub struct Denylist {
    names: StringHashSet,
}

impl View for Denylist {
    type V = Set<Seq<char>>;

    closed spec fn view(&self) -> Set<Seq<char>> {
        self.names@
    }
}

impl Denylist {
    /// The denylist that blocks nothing.
    pub fn new() -> (out: Self)
        ensures
            out@ == Set::<Seq<char>>::empty(),
    {
        Denylist { names: StringHashSet::new() }
    }

    /// Whether `domain`, taken as it is written, is a blocked name.
    pub fn contains(&self, domain: &str) -> (out: bool)
        ensures
            out == self@.contains(domain@),
    {
        self.names.contains(domain)
    }

    /// The number of blocked names.
    pub fn len(&self) -> (out: usize)
        ensures
            out == self@.len(),
    {
        self.names.len()
    }
}

/// Every name that a block list lists is in normalized form, so a query
/// that spells a listed name as it is listed, or in any spelling with the
/// same normalized form, is blocked.
pub proof fn law_listed_names_are_normalized(lines: Seq<String>, name: Seq<char>)
    requires
        listed_names(lines).contains(name),
    ensures
        normalized_name(name) == name,
        name.len() > 0,
{
    let i = choose|i: int|
        0 <= i < lines.len() && i < lines.len() && #[trigger] line_entry(lines[i]@) == Some(name);
    law_normalized_is_fixed(strip_trailing(strip_leading_bars(lines[i]@), '^'));
}

/// Builds the denylist from the lines of a block list, in order. Each line
/// that names a domain adds it; the others are passed over.
pub fn parse_denylist(lines: &Vec<String>) -> (out: Denylist)
    ensures
        out@ == listed_names(lines@),
{
    let mut names = StringHashSet::new();
    let mut i: usize = 0;
    assert(names@ =~= listed_upto(lines@, 0));
    while i < lines.len()
        invariant
            i <= lines.len(),
            names@ == listed_upto(lines@, i as int),
        decreases lines.len() - i,
    {
        let ghost before = names@;
        match parse_denylist_line(lines[i].as_str()) {
            Some(name) => {
                names.insert(name);
                assert(line_entry(lines@[i as int]@) == Some(name@));
            },
            None => {},
        }
        assert(names@ =~= listed_upto(lines@, i + 1)) by {
            assert forall|n: Seq<char>| listed_upto(lines@, i + 1).contains(n) implies names@.contains(n) by {
                let j = choose|j: int| 0 <= j < i + 1 && j < lines@.len() && #[trigger] line_entry(lines@[j]@) == Some(n);
                if j < i {
                    assert(listed_upto(lines@, i as int).contains(n));
                }
            }
            assert forall|n: Seq<char>| names@.contains(n) implies listed_upto(lines@, i + 1).contains(n) by {
                if before.contains(n) {
                    let j = choose|j: int| 0 <= j < i && j < lines@.len() && #[trigger] line_entry(lines@[j]@) == Some(n);
                    assert(0 <= j < i + 1 && line_entry(lines@[j]@) == Some(n));
                } else {
                    assert(line_entry(lines@[i as int]@) == Some(n));
                }
            }
        }
        i = i + 1;
    }
    Denylist { names }
}

} // verus!
