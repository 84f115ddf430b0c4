//! The query cache: answers kept under the pair of domain and record type,
//! each until its expiry. A lookup never hands out an answer whose expiry
//! has been reached, whether or not a sweep has removed it yet.
//!
//! Time is a count of seconds that the caller supplies with each call.

use vstd::prelude::*;
use crate::record::{copy_records, records_view, AnswerRecord, RecordView};
use crate::table::{Slot, Table};

verus! {

/// The seconds for which an answer without records is kept.
pub const EMPTY_ANSWER_TTL: u32 = 60;

/// What an answer is kept under: a normalized domain and a record type's
/// code. Answers differ by type, so the type is part of the key.
#[derive(Debug, Clone, PartialEq, Eq)]
pub struct CacheKey {
    pub domain: String,
    pub record_type: u16,
}

impl View for CacheKey {
    type V = (Seq<char>, u16);

    open spec fn view(&self) -> (Seq<char>, u16) {
        (self.domain@, self.record_type)
    }
}

/// A kept answer: its records in order, and the second at which it stops
/// being served.
pub ghost struct EntryView {
    pub records: Seq<RecordView>,
    pub expires: u64,
}

/// The expiry of an answer stored at `now` for `ttl` seconds. It stops at
/// the largest second that can be counted.
pub open spec fn expiry(now: u64, ttl: u32) -> u64 {
    if now + ttl > u64::MAX {
        u64::MAX
    } else {
        (now + ttl) as u64
    }
}

/// The seconds for which `records` are kept when the caller asks for
/// `ttl_seconds`: an answer without records is kept for `EMPTY_ANSWER_TTL`.
pub open spec fn stored_ttl(records: Seq<RecordView>, ttl_seconds: u32) -> u32 {
    if records.len() == 0 {
        EMPTY_ANSWER_TTL
    } else {
        ttl_seconds
    }
}

/// The entry that `put` stores.
pub open spec fn stored_entry(records: Seq<RecordView>, ttl_seconds: u32, now: u64) -> EntryView {
    EntryView { records, expires: expiry(now, stored_ttl(records, ttl_seconds)) }
}

/// What a lookup of `key` at `now` returns: the records kept under `key` if
/// their expiry lies strictly after `now`.
pub open spec fn fresh_records(
    entries: Map<(Seq<char>, u16), EntryView>,
    key: (Seq<char>, u16),
    now: u64,
) -> Option<Seq<RecordView>> {
    if entries.contains_key(key) && now < entries[key].expires {
        Some(entries[key].records)
    } else {
        None
    }
}

/// `entries` without every entry whose expiry is `now` or earlier.
pub open spec fn swept(entries: Map<(Seq<char>, u16), EntryView>, now: u64) -> Map<
    (Seq<char>, u16),
    EntryView,
> {
    Map::new(
        |key: (Seq<char>, u16)| entries.contains_key(key) && entries[key].expires > now,
        |key: (Seq<char>, u16)| entries[key],
    )
}

/// A lookup returns records only from an entry that is stored under the key
/// and whose expiry lies strictly after the time of the lookup.
pub proof fn law_no_stale_answer(
    entries: Map<(Seq<char>, u16), EntryView>,
    key: (Seq<char>, u16),
    now: u64,
)
    ensures
        fresh_records(entries, key, now) is Some ==> entries.contains_key(key) && now
            < entries[key].expires && fresh_records(entries, key, now) == Some(
            entries[key].records,
        ),
        entries.contains_key(key) && entries[key].expires <= now ==> fresh_records(
            entries,
            key,
            now,
        ) is None,
{
}

/// Records that were stored at `now` are returned by every lookup from then
/// until their expiry, and by none at their expiry or later.
pub proof fn law_stored_until_expiry(
    entries: Map<(Seq<char>, u16), EntryView>,
    key: (Seq<char>, u16),
    records: Seq<RecordView>,
    ttl_seconds: u32,
    now: u64,
    later: u64,
)
    ensures
        ({
            let entry = stored_entry(records, ttl_seconds, now);
            let after = entries.insert(key, entry);
            &&& later < entry.expires ==> fresh_records(after, key, later) == Some(records)
            &&& later >= entry.expires ==> fresh_records(after, key, later) is None
            &&& records.len() == 0 ==> entry.expires <= now + EMPTY_ANSWER_TTL
        }),
{
}

/// A sweep at `now` removes each entry whose expiry is `now` or earlier, so
/// that it is no longer stored at all, and the count of stored entries falls
/// by at least one where there was such an entry.
pub proof fn law_sweep_removes_expired(
    entries: Map<(Seq<char>, u16), EntryView>,
    key: (Seq<char>, u16),
    now: u64,
)
    requires
        entries.dom().finite(),
        entries.contains_key(key),
        entries[key].expires <= now,
    ensures
        !swept(entries, now).contains_key(key),
        swept(entries, now).dom().finite(),
        swept(entries, now).len() < entries.len(),
{
    let rest = entries.dom().remove(key);
    assert(swept(entries, now).dom().subset_of(rest));
    vstd::set_lib::lemma_len_subset(swept(entries, now).dom(), rest);
}

/// A sweep at `now` changes no lookup at `now` or later: what it removes
/// would not have been returned.
pub proof fn law_sweep_is_invisible(
    entries: Map<(Seq<char>, u16), EntryView>,
    key: (Seq<char>, u16),
    now: u64,
    later: u64,
)
    requires
        now <= later,
    ensures
        fresh_records(swept(entries, now), key, later) == fresh_records(entries, key, later),
{
}

/// Computes the expiry of an answer stored at `now` for `ttl` seconds.
fn expiry_at(now: u64, ttl: u32) -> (out: u64)
    ensures
        out == expiry(now, ttl),
{
    if now > u64::MAX - (ttl as u64) {
        u64::MAX
    } else {
        now + (ttl as u64)
    }
}

/// The cache of answers. Its view is the map from key to kept entry.
pub struct QueryCache {
    table: Table,
}

impl View for QueryCache {
    type V = Map<(Seq<char>, u16), EntryView>;

    closed spec fn view(&self) -> Map<(Seq<char>, u16), EntryView> {
        self.table.entries()
    }
}

impl QueryCache {
    /// The storage is well formed at all times.
    #[verifier::type_invariant]
    spec fn well_formed(self) -> bool {
        self.table.well_formed()
    }

    /// The cache that holds nothing.
    pub fn new() -> (out: Self)
        ensures
            out@ == Map::<(Seq<char>, u16), EntryView>::empty(),
    {
        QueryCache { table: Table::new() }
    }

    /// The number of entries that are stored, expired ones included.
    pub fn len(&self) -> (out: usize)
        ensures
            self@.dom().finite(),
            out == self@.len(),
    {
        proof {
            use_type_invariant(self);
        }
        self.table.len()
    }

    /// Whether an entry is stored under `key`, expired or not.
    pub fn contains_key(&self, key: &CacheKey) -> (out: bool)
        ensures
            out == self@.contains_key(key@),
    {
        proof {
            use_type_invariant(self);
        }
        self.table.find(key).is_some()
    }

    /// The second at which the entry under `key` expires, if one is stored.
    pub fn expiry_of(&self, key: &CacheKey) -> (out: Option<u64>)
        ensures
            out is Some <==> self@.contains_key(key@),
            out matches Some(at) ==> at == self@[key@].expires,
    {
        proof {
            use_type_invariant(self);
        }
        match self.table.find(key) {
            Some(slot) => Some(slot.expires),
            None => None,
        }
    }

    /// Looks `key` up at the second `now`. The records stored under `key`
    /// are returned only while `now` lies strictly before their expiry;
    /// otherwise the lookup is a miss. The cache is left as it is.
    pub fn get(&self, key: &CacheKey, now: u64) -> (out: Option<Vec<AnswerRecord>>)
        ensures
            out is Some <==> fresh_records(self@, key@, now) is Some,
            out matches Some(records) ==> Some(records_view(records@)) == fresh_records(
                self@,
                key@,
                now,
            ),
    {
        proof {
            use_type_invariant(self);
        }
        match self.table.find(key) {
            Some(slot) => {
                if now < slot.expires {
                    Some(copy_records(&slot.records))
                } else {
                    None
                }
            },
            None => None,
        }
    }

    /// Stores `records` under `key` at the second `now`, in place of what
    /// was stored there. They expire `ttl_seconds` after `now`; an answer
    /// without records expires `EMPTY_ANSWER_TTL` seconds after `now`,
    /// whatever `ttl_seconds` is.
    pub fn put(&mut self, key: CacheKey, records: Vec<AnswerRecord>, ttl_seconds: u32, now: u64)
        ensures
            final(self)@ == old(self)@.insert(
                key@,
                stored_entry(records_view(records@), ttl_seconds, now),
            ),
    {
        proof {
            use_type_invariant(&*self);
        }
        let ttl = if records.len() == 0 {
            EMPTY_ANSWER_TTL
        } else {
            ttl_seconds
        };
        let slot = Slot { key, records, expires: expiry_at(now, ttl) };
        let mut table = Table::new();
        std::mem::swap(&mut table, &mut self.table);
        table.store(slot);
        self.table = table;
    }

    /// Removes every entry whose expiry is `now` or earlier, and no other.
    pub fn sweep(&mut self, now: u64)
        ensures
            final(self)@ == swept(old(self)@, now),
    {
        proof {
            use_type_invariant(&*self);
        }
        let mut table = Table::new();
        std::mem::swap(&mut table, &mut self.table);
        table.sweep(now);
        self.table = table;
    }
}

} // verus!
