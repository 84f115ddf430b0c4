//! Answer records as the pipeline holds them: the owner name, the type's
//! code, the time to live in seconds, and the record's data as the bytes
//! that go on the wire. All records are of the Internet class. Only the time
//! to live is ever read here; the rest is carried from the upstream answer
//! to the client's response.

use vstd::prelude::*;

verus! {

/// One resource record of an answer.
#[derive(Debug, Clone, PartialEq, Eq)]
pub struct AnswerRecord {
    /// The owner name, in ASCII form.
    pub name: String,
    /// The record type's code.
    pub record_type: u16,
    /// The seconds for which the record may be reused.
    pub ttl: u32,
    /// The record's data in wire form, with no compressed names in it.
    pub rdata: Vec<u8>,
}

/// What an `AnswerRecord` holds.
pub ghost struct RecordView {
    pub name: Seq<char>,
    pub record_type: u16,
    pub ttl: u32,
    pub rdata: Seq<u8>,
}

impl View for AnswerRecord {
    type V = RecordView;

    open spec fn view(&self) -> RecordView {
        RecordView {
            name: self.name@,
            record_type: self.record_type,
            ttl: self.ttl,
            rdata: self.rdata@,
        }
    }
}

/// What a sequence of records holds, record by record.
pub open spec fn records_view(records: Seq<AnswerRecord>) -> Seq<RecordView> {
    Seq::new(records.len(), |i: int| records[i]@)
}

/// The lowest time to live among `records`; `u32::MAX` where there is none.
pub open spec fn min_ttl(records: Seq<RecordView>) -> u32
    decreases records.len(),
{
    if records.len() == 0 {
        u32::MAX
    } else {
        let rest = min_ttl(records.drop_last());
        if records.last().ttl < rest {
            records.last().ttl
        } else {
            rest
        }
    }
}

/// `min_ttl` is a lower bound of every record's time to live, and is the
/// time to live of one of the records where there is any.
pub proof fn law_min_ttl_is_lowest(records: Seq<RecordView>)
    ensures
        forall|i: int| 0 <= i < records.len() ==> min_ttl(records) <= (#[trigger] records[i]).ttl,
        records.len() > 0 ==> exists|i: int|
            0 <= i < records.len() && (#[trigger] records[i]).ttl == min_ttl(records),
    decreases records.len(),
{
    if records.len() > 0 {
        let front = records.drop_last();
        law_min_ttl_is_lowest(front);
        assert forall|i: int| 0 <= i < records.len() implies min_ttl(records) <= (#[trigger] records[i]).ttl by {
            if i < front.len() {
                assert(front[i] == records[i]);
            }
        }
        if records.last().ttl < min_ttl(front) || front.len() == 0 {
            assert(records[records.len() - 1].ttl == min_ttl(records));
        } else {
            let j = choose|j: int| 0 <= j < front.len() && (#[trigger] front[j]).ttl == min_ttl(front);
            assert(records[j] == front[j]);
        }
    }
}

impl AnswerRecord {
    /// A second record that holds the same.
    pub fn duplicate(&self) -> (out: Self)
        ensures
            out@ == self@,
    {
        AnswerRecord {
            name: self.name.clone(),
            record_type: self.record_type,
            ttl: self.ttl,
            rdata: copy_bytes(&self.rdata),
        }
    }
}

/// A second vector of the same bytes.
pub fn copy_bytes(bytes: &Vec<u8>) -> (out: Vec<u8>)
    ensures
        out@ == bytes@,
{
    let mut out: Vec<u8> = Vec::with_capacity(bytes.len());
    let mut i: usize = 0;
    while i < bytes.len()
        invariant
            i <= bytes.len(),
            out@ == bytes@.take(i as int),
        decreases bytes.len() - i,
    {
        out.push(bytes[i]);
        assert(bytes@.take(i + 1) =~= bytes@.take(i as int).push(bytes@[i as int]));
        i = i + 1;
    }
    assert(bytes@.take(bytes.len() as int) =~= bytes@);
    out
}

/// A second vector of records that hold the same, in the same order.
pub fn copy_records(records: &Vec<AnswerRecord>) -> (out: Vec<AnswerRecord>)
    ensures
        records_view(out@) == records_view(records@),
{
    let mut out: Vec<AnswerRecord> = Vec::with_capacity(records.len());
    let mut i: usize = 0;
    while i < records.len()
        invariant
            i <= records.len(),
            out@.len() == i,
            forall|j: int| 0 <= j < i ==> (#[trigger] out@[j])@ == records@[j]@,
        decreases records.len() - i,
    {
        out.push(records[i].duplicate());
        i = i + 1;
    }
    assert(records_view(out@) =~= records_view(records@));
    out
}

/// The lowest time to live among `records`.
pub fn lowest_ttl(records: &Vec<AnswerRecord>) -> (out: u32)
    ensures
        out == min_ttl(records_view(records@)),
{
    let mut lowest: u32 = u32::MAX;
    let mut i: usize = 0;
    assert(records_view(records@).take(0) =~= Seq::<RecordView>::empty());
    while i < records.len()
        invariant
            i <= records.len(),
            lowest == min_ttl(records_view(records@).take(i as int)),
        decreases records.len() - i,
    {
        assert(records_view(records@).take(i + 1).drop_last() =~= records_view(records@).take(
            i as int,
        ));
        if records[i].ttl < lowest {
            lowest = records[i].ttl;
        }
        i = i + 1;
    }
    assert(records_view(records@).take(records.len() as int) =~= records_view(records@));
    lowest
}

} // verus!
