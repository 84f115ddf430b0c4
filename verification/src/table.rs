//! The storage of the query cache: the entries in one list, with no key
//! twice, and beside it an index from a hash of the key to the places in the
//! list, so that a lookup reads only the entries whose keys share the hash.
//! The index is rebuilt with twice as many buckets when the list outgrows
//! it, and after every sweep.

use vstd::prelude::*;
use crate::cache::{swept, CacheKey, EntryView};
use crate::record::{records_view, AnswerRecord};

verus! {

/// One stored entry with its key.
pub(crate) struct Slot {
    pub(crate) key: CacheKey,
    pub(crate) records: Vec<AnswerRecord>,
    pub(crate) expires: u64,
}

impl Slot {
    /// The entry that the slot holds.
    pub(crate) open spec fn entry(self) -> EntryView {
        EntryView { records: records_view(self.records@), expires: self.expires }
    }
}

/// Whether no two of `slots` have the same key.
spec fn distinct_keys(slots: Seq<Slot>) -> bool {
    forall|i: int, j: int|
        0 <= i < j < slots.len() ==> (#[trigger] slots[i]).key@ != (#[trigger] slots[j]).key@
}

/// Whether one of `slots` has `key`.
spec fn holds_key(slots: Seq<Slot>, key: (Seq<char>, u16)) -> bool {
    exists|i: int| 0 <= i < slots.len() && (#[trigger] slots[i]).key@ == key
}

/// The place of a slot that has `key`.
spec fn slot_of(slots: Seq<Slot>, key: (Seq<char>, u16)) -> int {
    choose|i: int| 0 <= i < slots.len() && (#[trigger] slots[i]).key@ == key
}

/// The map from each key among `slots` to the entry of its slot.
spec fn slots_map(slots: Seq<Slot>) -> Map<(Seq<char>, u16), EntryView> {
    Map::new(
        |key: (Seq<char>, u16)| holds_key(slots, key),
        |key: (Seq<char>, u16)| slots[slot_of(slots, key)].entry(),
    )
}

/// Where no key stands twice, the map holds each slot's entry under its key.
proof fn lemma_slot_lookup(slots: Seq<Slot>, i: int)
    requires
        distinct_keys(slots),
        0 <= i < slots.len(),
    ensures
        slots_map(slots).contains_key(slots[i].key@),
        slots_map(slots)[slots[i].key@] == slots[i].entry(),
{
    let key = slots[i].key@;
    assert(holds_key(slots, key));
    let j = slot_of(slots, key);
    assert(0 <= j < slots.len() && slots[j].key@ == key);
    if j < i {
        assert(slots[j].key@ != slots[i].key@);
    } else if i < j {
        assert(slots[i].key@ != slots[j].key@);
    }
}

/// Where no key stands twice, the map has as many keys as there are slots.
proof fn lemma_slots_count(slots: Seq<Slot>)
    requires
        distinct_keys(slots),
    ensures
        slots_map(slots).dom().finite(),
        slots_map(slots).dom().len() == slots.len(),
    decreases slots.len(),
{
    if slots.len() == 0 {
        assert(slots_map(slots).dom() =~= Set::<(Seq<char>, u16)>::empty());
    } else {
        let front = slots.drop_last();
        let last = slots.last();
        assert(distinct_keys(front)) by {
            assert forall|i: int, j: int| 0 <= i < j < front.len() implies (#[trigger] front[i]).key@
                != (#[trigger] front[j]).key@ by {
                assert(front[i] == slots[i] && front[j] == slots[j]);
            }
        }
        lemma_slots_count(front);
        assert(!slots_map(front).dom().contains(last.key@)) by {
            if holds_key(front, last.key@) {
                let i = slot_of(front, last.key@);
                assert(front[i] == slots[i]);
                assert(slots[i].key@ != slots[slots.len() - 1].key@);
            }
        }
        assert(slots_map(slots).dom() =~= slots_map(front).dom().insert(last.key@)) by {
            assert forall|key: (Seq<char>, u16)| holds_key(slots, key) implies holds_key(front, key)
                || key == last.key@ by {
                let i = slot_of(slots, key);
                if i < front.len() {
                    assert(front[i] == slots[i]);
                }
            }
            assert forall|key: (Seq<char>, u16)| holds_key(front, key) implies holds_key(slots, key) by {
                let i = slot_of(front, key);
                assert(front[i] == slots[i]);
            }
            assert(slots[slots.len() - 1].key@ == last.key@);
            assert(holds_key(slots, last.key@));
        }
    }
}

/// Whether two keys are the same.
fn same_key(a: &CacheKey, b: &CacheKey) -> (out: bool)
    ensures
        out == (a@ == b@),
{
    a.record_type == b.record_type && a.domain == b.domain
}

/// The modulus of the key hash: the largest prime below 2^32.
const HASH_MODULUS: u64 = 4294967291;

/// The number of index buckets of a cache that holds its first entries.
const INITIAL_BUCKETS: usize = 16;

/// The number of entries per bucket beyond which the index is rebuilt with
/// twice as many buckets.
const BUCKET_LOAD: usize = 4;

/// A polynomial hash of `bytes`.
spec fn hash_bytes(bytes: Seq<u8>) -> u64
    decreases bytes.len(),
{
    if bytes.len() == 0 {
        0
    } else {
        ((hash_bytes(bytes.drop_last()) * 31 + bytes.last()) % (HASH_MODULUS as int)) as u64
    }
}

/// The hash of a key: that of the domain's bytes, extended by the type.
spec fn key_hash(key: (Seq<char>, u16)) -> u64 {
    ((hash_bytes(vstd::utf8::encode_utf8(key.0)) * 31 + key.1) % (HASH_MODULUS as int)) as u64
}

/// The bucket of a key in an index of `buckets` buckets.
spec fn bucket_of(key: (Seq<char>, u16), buckets: int) -> int {
    key_hash(key) as int % buckets
}

/// Computes the hash of a key.
fn hash_key(key: &CacheKey) -> (out: u64)
    ensures
        out == key_hash(key@),
{
    let bytes = key.domain.as_str().as_bytes();
    let mut hash: u64 = 0;
    let mut i: usize = 0;
    assert(bytes@.take(0) =~= Seq::<u8>::empty());
    while i < bytes.len()
        invariant
            i <= bytes.len(),
            hash == hash_bytes(bytes@.take(i as int)),
            hash < HASH_MODULUS,
        decreases bytes.len() - i,
    {
        assert(bytes@.take(i + 1).drop_last() =~= bytes@.take(i as int));
        hash = (hash * 31 + (bytes[i] as u64)) % HASH_MODULUS;
        i = i + 1;
    }
    assert(bytes@.take(bytes.len() as int) =~= bytes@);
    (hash * 31 + (key.record_type as u64)) % HASH_MODULUS
}

/// Computes the bucket of a key.
fn bucket_index(key: &CacheKey, buckets: usize) -> (out: usize)
    requires
        buckets > 0,
    ensures
        out == bucket_of(key@, buckets as int),
        out < buckets,
{
    (hash_key(key) % (buckets as u64)) as usize
}

/// Whether the place `i` is listed in `bucket`.
spec fn listed(bucket: Seq<usize>, i: int) -> bool {
    exists|j: int| 0 <= j < bucket.len() && #[trigger] bucket[j] == i
}

/// Whether `buckets` index `slots`: every listed place exists, and the place
/// of each slot is listed in the bucket of its key.
spec fn indexes(buckets: Seq<Vec<usize>>, slots: Seq<Slot>) -> bool {
    &&& slots.len() > 0 ==> buckets.len() > 0
    &&& forall|b: int, j: int|
        0 <= b < buckets.len() && 0 <= j < buckets[b]@.len() ==> (#[trigger] buckets[b]@[j])
            < slots.len()
    &&& forall|i: int|
        0 <= i < slots.len() ==> listed(
            buckets[bucket_of((#[trigger] slots[i]).key@, buckets.len() as int)]@,
            i,
        )
}

/// The index of `slots` with `count` buckets.
fn build_index(slots: &Vec<Slot>, count: usize) -> (out: Vec<Vec<usize>>)
    requires
        count > 0,
    ensures
        out@.len() == count,
        indexes(out@, slots@),
{
    let mut buckets: Vec<Vec<usize>> = Vec::with_capacity(count);
    while buckets.len() < count
        invariant
            buckets@.len() <= count,
            forall|b: int| 0 <= b < buckets@.len() ==> (#[trigger] buckets@[b])@.len() == 0,
        decreases count - buckets.len(),
    {
        buckets.push(Vec::new());
    }
    let mut i: usize = 0;
    while i < slots.len()
        invariant
            i <= slots.len(),
            count > 0,
            buckets@.len() == count,
            forall|b: int, j: int|
                0 <= b < buckets@.len() && 0 <= j < buckets@[b]@.len() ==> (
                #[trigger] buckets@[b]@[j]) < i,
            forall|k: int|
                0 <= k < i ==> listed(
                    buckets@[bucket_of((#[trigger] slots@[k]).key@, count as int)]@,
                    k,
                ),
        decreases slots.len() - i,
    {
        let b = bucket_index(&slots[i].key, count);
        let ghost before = buckets@;
        buckets[b].push(i);
        proof {
            lemma_listed_after_push(before, buckets@, b as int, i as int);
            assert forall|k: int| 0 <= k < i + 1 implies listed(
                buckets@[bucket_of((#[trigger] slots@[k]).key@, count as int)]@,
                k,
            ) by {
                let c = bucket_of(slots@[k].key@, count as int);
                if k < i {
                    assert(listed(before[c]@, k));
                }
            }
            assert forall|c: int, j: int|
                0 <= c < buckets@.len() && 0 <= j < buckets@[c]@.len() implies (
            #[trigger] buckets@[c]@[j]) < i + 1 by {
                if c == b && j == before[c]@.len() {
                } else {
                    assert(buckets@[c]@[j] == before[c]@[j]);
                }
            }
        }
        i = i + 1;
    }
    buckets
}

/// Pushing the place `i` onto the bucket `b` lists `i` there and keeps
/// everything listed that was.
proof fn lemma_listed_after_push(before: Seq<Vec<usize>>, after: Seq<Vec<usize>>, b: int, i: int)
    requires
        0 <= b < before.len(),
        0 <= i <= usize::MAX,
        after.len() == before.len(),
        after[b]@ == before[b]@.push(i as usize),
        forall|c: int| 0 <= c < before.len() && c != b ==> after[c] == before[c],
    ensures
        listed(after[b]@, i),
        forall|c: int, k: int| 0 <= c < before.len() && listed(before[c]@, k) ==> listed(after[c]@, k),
{
    assert(after[b]@[before[b]@.len() as int] == i);
    assert forall|c: int, k: int| 0 <= c < before.len() && listed(before[c]@, k) implies listed(
        after[c]@,
        k,
    ) by {
        let j = choose|j: int| 0 <= j < before[c]@.len() && #[trigger] before[c]@[j] == k;
        assert(after[c]@[j] == k);
    }
}

/// The place of the slot that has `key`, found through the index.
fn find_slot(slots: &Vec<Slot>, buckets: &Vec<Vec<usize>>, key: &CacheKey) -> (out: Option<usize>)
    requires
        indexes(buckets@, slots@),
    ensures
        match out {
            Some(i) => i < slots.len() && slots@[i as int].key@ == key@,
            None => !holds_key(slots@, key@),
        },
{
    if buckets.len() == 0 {
        return None;
    }
    let b = bucket_index(key, buckets.len());
    let bucket = &buckets[b];
    let mut j: usize = 0;
    while j < bucket.len()
        invariant
            j <= bucket@.len(),
            b < buckets@.len(),
            bucket@ == buckets@[b as int]@,
            indexes(buckets@, slots@),
            forall|m: int| 0 <= m < j ==> slots@[(#[trigger] bucket@[m]) as int].key@ != key@,
        decreases bucket.len() - j,
    {
        let i = bucket[j];
        assert(buckets@[b as int]@[j as int] < slots@.len());
        if same_key(&slots[i].key, key) {
            return Some(i);
        }
        j = j + 1;
    }
    proof {
        if holds_key(slots@, key@) {
            let i = slot_of(slots@, key@);
            assert(listed(buckets@[bucket_of(slots@[i].key@, buckets@.len() as int)]@, i));
            let m = choose|m: int| 0 <= m < bucket@.len() && #[trigger] bucket@[m] == i;
            assert(slots@[bucket@[m] as int].key@ != key@);
        }
    }
    None
}

/// The entries and their index.
pub(crate) struct Table {
    slots: Vec<Slot>,
    buckets: Vec<Vec<usize>>,
}

impl Table {
    /// No key stands twice, and the index covers every slot.
    pub(crate) closed spec fn well_formed(self) -> bool {
        &&& distinct_keys(self.slots@)
        &&& indexes(self.buckets@, self.slots@)
    }

    /// The map from key to stored entry.
    pub(crate) closed spec fn entries(self) -> Map<(Seq<char>, u16), EntryView> {
        slots_map(self.slots@)
    }

    /// The table that holds nothing.
    pub(crate) fn new() -> (out: Self)
        ensures
            out.well_formed(),
            out.entries() == Map::<(Seq<char>, u16), EntryView>::empty(),
    {
        let out = Table { slots: Vec::new(), buckets: Vec::new() };
        assert(out.entries() =~= Map::<(Seq<char>, u16), EntryView>::empty());
        out
    }

    /// The number of stored entries.
    pub(crate) fn len(&self) -> (out: usize)
        requires
            self.well_formed(),
        ensures
            self.entries().dom().finite(),
            out == self.entries().dom().len(),
    {
        proof {
            lemma_slots_count(self.slots@);
        }
        self.slots.len()
    }

    /// The slot that is stored under `key`, if there is one.
    pub(crate) fn find(&self, key: &CacheKey) -> (out: Option<&Slot>)
        requires
            self.well_formed(),
        ensures
            match out {
                Some(slot) => self.entries().contains_key(key@) && self.entries()[key@]
                    == slot.entry(),
                None => !self.entries().contains_key(key@),
            },
    {
        match find_slot(&self.slots, &self.buckets, key) {
            Some(i) => {
                proof {
                    lemma_slot_lookup(self.slots@, i as int);
                }
                Some(&self.slots[i])
            },
            None => None,
        }
    }

    /// Stores `slot` in place of what was stored under its key.
    pub(crate) fn store(&mut self, slot: Slot)
        requires
            old(self).well_formed(),
        ensures
            final(self).well_formed(),
            final(self).entries() == old(self).entries().insert(slot.key@, slot.entry()),
    {
        let ghost before = self.slots@;
        let ghost index = self.buckets@;
        match find_slot(&self.slots, &self.buckets, &slot.key) {
            Some(i) => {
                self.slots.set(i, slot);
                proof {
                    lemma_replaced(before, self.slots@, i as int);
                    assert forall|k: int| 0 <= k < self.slots@.len() implies listed(
                        index[bucket_of((#[trigger] self.slots@[k]).key@, index.len() as int)]@,
                        k,
                    ) by {
                        assert(self.slots@[k].key@ == before[k].key@);
                    }
                }
            },
            None => {
                let place = self.slots.len();
                let count = self.buckets.len();
                if count == 0 {
                    self.slots.push(slot);
                    self.buckets = build_index(&self.slots, INITIAL_BUCKETS);
                } else if place / BUCKET_LOAD >= count && count <= usize::MAX / 2 {
                    self.slots.push(slot);
                    self.buckets = build_index(&self.slots, 2 * count);
                } else {
                    let b = bucket_index(&slot.key, count);
                    self.slots.push(slot);
                    self.buckets[b].push(place);
                    proof {
                        lemma_listed_after_push(index, self.buckets@, b as int, place as int);
                        assert forall|k: int| 0 <= k < self.slots@.len() implies listed(
                            self.buckets@[bucket_of(
                                (#[trigger] self.slots@[k]).key@,
                                count as int,
                            )]@,
                            k,
                        ) by {
                            if k < place {
                                assert(self.slots@[k] == before[k]);
                                assert(listed(index[bucket_of(before[k].key@, count as int)]@, k));
                            }
                        }
                        assert forall|c: int, j: int|
                            0 <= c < self.buckets@.len() && 0 <= j < self.buckets@[c]@.len() implies (
                        #[trigger] self.buckets@[c]@[j]) < self.slots@.len() by {
                            if c == b && j == index[c]@.len() {
                            } else {
                                assert(self.buckets@[c]@[j] == index[c]@[j]);
                            }
                        }
                    }
                }
                proof {
                    lemma_appended(before, self.slots@);
                }
            },
        }
    }

    /// Removes every entry whose expiry is `now` or earlier.
    pub(crate) fn sweep(&mut self, now: u64)
        requires
            old(self).well_formed(),
        ensures
            final(self).well_formed(),
            final(self).entries() == swept(old(self).entries(), now),
    {
        let mut rest: Vec<Slot> = Vec::new();
        std::mem::swap(&mut rest, &mut self.slots);
        let ghost before = rest@;
        let mut kept: Vec<Slot> = Vec::new();
        while rest.len() > 0
            invariant
                rest@.len() <= before.len(),
                rest@ == before.take(rest@.len() as int),
                distinct_keys(before),
                distinct_keys(kept@),
                forall|i: int|
                    0 <= i < kept@.len() ==> (#[trigger] kept@[i]).expires > now && taken_from(
                        before,
                        rest@.len() as int,
                        kept@[i],
                    ),
                forall|j: int|
                    rest@.len() <= j < before.len() && (#[trigger] before[j]).expires > now
                        ==> taken_from(kept@, 0, before[j]),
            decreases rest.len(),
        {
            let ghost kept_before = kept@;
            let ghost r = rest@.len() - 1;
            let slot = rest.pop().unwrap();
            assert(slot == before[r]);
            assert(rest@ =~= before.take(r));
            if slot.expires > now {
                kept.push(slot);
                assert(distinct_keys(kept@)) by {
                    assert forall|i: int, j: int| 0 <= i < j < kept@.len() implies (
                    #[trigger] kept@[i]).key@ != (#[trigger] kept@[j]).key@ by {
                        if j == kept_before.len() {
                            assert(kept@[i] == kept_before[i]);
                            let m = origin(before, r + 1, kept_before[i]);
                            assert(before[r].key@ != before[m].key@);
                        } else {
                            assert(kept@[i] == kept_before[i] && kept@[j] == kept_before[j]);
                        }
                    }
                }
            }
            assert forall|i: int| 0 <= i < kept@.len() implies (#[trigger] kept@[i]).expires > now
                && taken_from(before, r, kept@[i]) by {
                if i < kept_before.len() {
                    assert(kept@[i] == kept_before[i]);
                    let m = origin(before, r + 1, kept_before[i]);
                    assert(r <= m < before.len() && before[m] == kept@[i]);
                } else {
                    assert(r <= r < before.len() && before[r] == kept@[i]);
                }
            }
            assert forall|j: int|
                r <= j < before.len() && (#[trigger] before[j]).expires > now implies taken_from(
                kept@,
                0,
                before[j],
            ) by {
                if j == r {
                    let last = kept@.len() - 1;
                    assert(0 <= last < kept@.len() && kept@[last] == before[j]);
                } else {
                    let m = origin(kept_before, 0, before[j]);
                    assert(0 <= m < kept@.len() && kept@[m] == before[j]);
                }
            }
        }
        proof {
            lemma_swept(before, kept@, now);
        }
        let count = if self.buckets.len() == 0 {
            INITIAL_BUCKETS
        } else {
            self.buckets.len()
        };
        self.buckets = build_index(&kept, count);
        self.slots = kept;
    }
}

/// Whether `slot` stands in `slots` at `from` or later.
spec fn taken_from(slots: Seq<Slot>, from: int, slot: Slot) -> bool {
    exists|j: int| from <= j < slots.len() && 0 <= j && #[trigger] slots[j] == slot
}

/// A place at `from` or later at which `slot` stands in `slots`.
spec fn origin(slots: Seq<Slot>, from: int, slot: Slot) -> int {
    choose|j: int| from <= j < slots.len() && 0 <= j && #[trigger] slots[j] == slot
}

/// Replacing a slot by one of the same key is an insertion into the map.
proof fn lemma_replaced(before: Seq<Slot>, after: Seq<Slot>, i: int)
    requires
        distinct_keys(before),
        0 <= i < before.len(),
        after.len() == before.len(),
        after == before.update(i, after[i]),
        after[i].key@ == before[i].key@,
    ensures
        distinct_keys(after),
        slots_map(after) == slots_map(before).insert(after[i].key@, after[i].entry()),
{
    assert(distinct_keys(after)) by {
        assert forall|a: int, b: int| 0 <= a < b < after.len() implies (#[trigger] after[a]).key@ != (
        #[trigger] after[b]).key@ by {
            assert(after[a].key@ == before[a].key@ && after[b].key@ == before[b].key@);
        }
    }
    let key = after[i].key@;
    let target = slots_map(before).insert(key, after[i].entry());
    assert forall|k: (Seq<char>, u16)| slots_map(after).contains_key(k) implies target.contains_key(
        k,
    ) && slots_map(after)[k] == target[k] by {
        let j = slot_of(after, k);
        lemma_slot_lookup(after, j);
        if j != i {
            assert(before[j] == after[j]);
            lemma_slot_lookup(before, j);
        }
    }
    assert forall|k: (Seq<char>, u16)| target.contains_key(k) implies slots_map(after).contains_key(
        k,
    ) by {
        if k == key {
            lemma_slot_lookup(after, i);
        } else {
            let j = slot_of(before, k);
            assert(after[j] == before[j]);
            lemma_slot_lookup(after, j);
        }
    }
    assert(slots_map(after) =~= target);
}

/// Appending a slot with a new key is an insertion into the map.
proof fn lemma_appended(before: Seq<Slot>, after: Seq<Slot>)
    requires
        distinct_keys(before),
        after.len() == before.len() + 1,
        after == before.push(after.last()),
        !holds_key(before, after.last().key@),
    ensures
        distinct_keys(after),
        slots_map(after) == slots_map(before).insert(after.last().key@, after.last().entry()),
{
    let n = before.len() as int;
    assert(distinct_keys(after)) by {
        assert forall|a: int, b: int| 0 <= a < b < after.len() implies (#[trigger] after[a]).key@ != (
        #[trigger] after[b]).key@ by {
            assert(after[a] == before[a]);
            if b < n {
                assert(after[b] == before[b]);
            } else {
                assert(0 <= a < before.len() && before[a].key@ == after[a].key@);
            }
        }
    }
    let key = after[n].key@;
    let target = slots_map(before).insert(key, after[n].entry());
    assert forall|k: (Seq<char>, u16)| slots_map(after).contains_key(k) implies target.contains_key(
        k,
    ) && slots_map(after)[k] == target[k] by {
        let j = slot_of(after, k);
        lemma_slot_lookup(after, j);
        if j != n {
            assert(before[j] == after[j]);
            lemma_slot_lookup(before, j);
        }
    }
    assert forall|k: (Seq<char>, u16)| target.contains_key(k) implies slots_map(after).contains_key(
        k,
    ) by {
        if k == key {
            lemma_slot_lookup(after, n);
        } else {
            let j = slot_of(before, k);
            assert(after[j] == before[j]);
            lemma_slot_lookup(after, j);
        }
    }
    assert(slots_map(after) =~= target);
}

/// Keeping exactly the slots that expire after `now` sweeps the map.
proof fn lemma_swept(before: Seq<Slot>, kept: Seq<Slot>, now: u64)
    requires
        distinct_keys(before),
        distinct_keys(kept),
        forall|i: int|
            0 <= i < kept.len() ==> (#[trigger] kept[i]).expires > now && taken_from(
                before,
                0,
                kept[i],
            ),
        forall|j: int|
            0 <= j < before.len() && (#[trigger] before[j]).expires > now ==> taken_from(
                kept,
                0,
                before[j],
            ),
    ensures
        slots_map(kept) == swept(slots_map(before), now),
{
    let target = swept(slots_map(before), now);
    assert forall|k: (Seq<char>, u16)| slots_map(kept).contains_key(k) implies target.contains_key(
        k,
    ) && slots_map(kept)[k] == target[k] by {
        let i = slot_of(kept, k);
        lemma_slot_lookup(kept, i);
        let j = origin(before, 0, kept[i]);
        lemma_slot_lookup(before, j);
    }
    assert forall|k: (Seq<char>, u16)| target.contains_key(k) implies slots_map(kept).contains_key(
        k,
    ) by {
        let j = slot_of(before, k);
        lemma_slot_lookup(before, j);
        let i = origin(kept, 0, before[j]);
        lemma_slot_lookup(kept, i);
    }
    assert(slots_map(kept) =~= target);
}

} // verus!
