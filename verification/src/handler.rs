//! The handling of one request, as decisions between the outside steps.
//!
//! A datagram is decoded and its query is tested against the denylist and
//! then looked up in the cache. Either this ends the request with a response
//! to send, or the query has to be resolved upstream. The caller performs
//! the resolution and hands its outcome back; the answer is then stored and
//! the response built. Receiving, resolving and sending are the caller's.

use vstd::prelude::*;
use crate::cache::{
    expiry, fresh_records, stored_entry, stored_ttl, CacheKey, EntryView, QueryCache,
};
use crate::denylist::Denylist;
use crate::message::{
    first_query, first_query_of, respond, response_for, Disposition, DispositionView, Query,
    QueryView, Request, RequestView, ResponseCode,
};
use crate::name::{normalize_domain, normalized_name};
use crate::record::{copy_records, lowest_ttl, min_ttl, records_view, AnswerRecord, RecordView};
use crate::wire::{encode_response, encoded, read_request, wire_decoding, HEADER_LEN};

verus! {

/// The response code of an upstream reply that carries an answer.
pub const UPSTREAM_NO_ERROR: u16 = 0;

/// The seconds between two sweeps of the cache.
pub const SWEEP_INTERVAL_SECS: u64 = 60;

/// Why an upstream resolution gave no answer.
#[derive(Debug, Clone, Copy, PartialEq, Eq, Structural)]
pub enum ResolutionError {
    /// No reply came in time.
    Timeout,
    /// The query could not be sent, or the reply could not be read.
    Transport,
    /// The upstream resolver replied with this error code.
    Upstream(u16),
}

/// What came of one attempt to resolve a query upstream.
#[derive(Debug, Clone, PartialEq, Eq)]
pub enum UpstreamEvent {
    /// A reply arrived, with this response code and these answer records.
    Replied(u16, Vec<AnswerRecord>),
    /// No reply came in time.
    TimedOut,
    /// The transport failed.
    Failed,
}

/// What an `UpstreamEvent` holds.
pub ghost enum UpstreamEventView {
    Replied(u16, Seq<RecordView>),
    TimedOut,
    Failed,
}

impl View for UpstreamEvent {
    type V = UpstreamEventView;

    open spec fn view(&self) -> UpstreamEventView {
        match self {
            UpstreamEvent::Replied(code, answers) => UpstreamEventView::Replied(
                *code,
                records_view(answers@),
            ),
            UpstreamEvent::TimedOut => UpstreamEventView::TimedOut,
            UpstreamEvent::Failed => UpstreamEventView::Failed,
        }
    }
}

/// What a resolution attempt yields: the answer records of a reply without
/// an error code, and an error for everything else.
pub open spec fn resolution_of(event: UpstreamEventView) -> Result<Seq<RecordView>, ResolutionError> {
    match event {
        UpstreamEventView::Replied(code, answers) => if code == UPSTREAM_NO_ERROR {
            Ok(answers)
        } else {
            Err(ResolutionError::Upstream(code))
        },
        UpstreamEventView::TimedOut => Err(ResolutionError::Timeout),
        UpstreamEventView::Failed => Err(ResolutionError::Transport),
    }
}

/// Turns what came of a resolution attempt into its records or its error.
pub fn resolution(event: UpstreamEvent) -> (out: Result<Vec<AnswerRecord>, ResolutionError>)
    ensures
        match out {
            Ok(records) => resolution_of(event@) == Ok::<Seq<RecordView>, ResolutionError>(
                records_view(records@),
            ),
            Err(error) => resolution_of(event@) == Err::<Seq<RecordView>, ResolutionError>(error),
        },
{
    match event {
        UpstreamEvent::Replied(code, answers) => {
            if code == UPSTREAM_NO_ERROR {
                Ok(answers)
            } else {
                Err(ResolutionError::Upstream(code))
            }
        },
        UpstreamEvent::TimedOut => Err(ResolutionError::Timeout),
        UpstreamEvent::Failed => Err(ResolutionError::Transport),
    }
}

/// The cache key of a query: its name in normalized form, and its type.
pub open spec fn key_of(query: QueryView) -> (Seq<char>, u16) {
    (normalized_name(query.question.name), query.question.record_type)
}

/// The cache key of a query.
pub fn cache_key(query: &Query) -> (out: CacheKey)
    ensures
        out@ == key_of(query@),
{
    CacheKey {
        domain: normalize_domain(query.question.name.as_str()),
        record_type: query.question.record_type,
    }
}

/// How far a query gets without the upstream resolver.
#[derive(Debug, Clone, PartialEq, Eq)]
pub enum Lookup {
    /// The request ends here, with this disposition.
    Settled(Disposition),
    /// Nothing fresh is cached under this key: the query must be resolved.
    Miss(CacheKey),
}

/// What a `Lookup` holds.
pub ghost enum LookupView {
    Settled(DispositionView),
    Miss((Seq<char>, u16)),
}

impl View for Lookup {
    type V = LookupView;

    open spec fn view(&self) -> LookupView {
        match self {
            Lookup::Settled(disposition) => LookupView::Settled(disposition@),
            Lookup::Miss(key) => LookupView::Miss(key@),
        }
    }
}

/// The outcome of filtering and cache lookup. A query for a blocked domain
/// is blocked, whatever the cache holds. Any other query is served from the
/// cache where a fresh answer is stored under its key, and is a miss
/// otherwise.
pub open spec fn lookup_of(
    query: QueryView,
    blocked: Set<Seq<char>>,
    entries: Map<(Seq<char>, u16), EntryView>,
    now: u64,
) -> LookupView {
    if blocked.contains(key_of(query).0) {
        LookupView::Settled(DispositionView::Blocked)
    } else {
        match fresh_records(entries, key_of(query), now) {
            Some(records) => LookupView::Settled(DispositionView::Served(records)),
            None => LookupView::Miss(key_of(query)),
        }
    }
}

/// Tests `query` against the denylist and looks it up in the cache at the
/// second `now`.
pub fn look_up(query: &Query, denylist: &Denylist, cache: &QueryCache, now: u64) -> (out: Lookup)
    ensures
        out@ == lookup_of(query@, denylist@, cache@, now),
{
    let key = cache_key(query);
    if denylist.contains(key.domain.as_str()) {
        Lookup::Settled(Disposition::Blocked)
    } else {
        match cache.get(&key, now) {
            Some(records) => Lookup::Settled(Disposition::Served(records)),
            None => Lookup::Miss(key),
        }
    }
}

/// The cache after a resolution: records that were resolved are stored
/// under the key for the lowest time to live among them; a failure leaves
/// the cache as it was.
pub open spec fn cache_after(
    entries: Map<(Seq<char>, u16), EntryView>,
    key: (Seq<char>, u16),
    outcome: Result<Seq<RecordView>, ResolutionError>,
    now: u64,
) -> Map<(Seq<char>, u16), EntryView> {
    match outcome {
        Ok(records) => entries.insert(key, stored_entry(records, min_ttl(records), now)),
        Err(_) => entries,
    }
}

/// The disposition after a resolution.
pub open spec fn disposition_after(
    outcome: Result<Seq<RecordView>, ResolutionError>,
) -> DispositionView {
    match outcome {
        Ok(records) => DispositionView::Served(records),
        Err(_) => DispositionView::ResolutionFailed,
    }
}

/// What an outcome of a resolution holds.
pub open spec fn outcome_view(outcome: Result<Vec<AnswerRecord>, ResolutionError>) -> Result<
    Seq<RecordView>,
    ResolutionError,
> {
    match outcome {
        Ok(records) => Ok(records_view(records@)),
        Err(error) => Err(error),
    }
}

/// Ends a cache miss with the outcome of the upstream resolution, at the
/// second `now`: stores what was resolved and says how the request ends.
pub fn settle(
    key: CacheKey,
    outcome: Result<Vec<AnswerRecord>, ResolutionError>,
    cache: &mut QueryCache,
    now: u64,
) -> (out: Disposition)
    ensures
        final(cache)@ == cache_after(old(cache)@, key@, outcome_view(outcome), now),
        out@ == disposition_after(outcome_view(outcome)),
{
    match outcome {
        Ok(records) => {
            let ttl = lowest_ttl(&records);
            let stored = copy_records(&records);
            cache.put(key, stored, ttl, now);
            Disposition::Served(records)
        },
        Err(_) => Disposition::ResolutionFailed,
    }
}

/// Why nothing is sent for a request.
#[derive(Debug, Clone, Copy, PartialEq, Eq, Structural)]
pub enum DropReason {
    /// The datagram did not decode to a message.
    Undecodable,
    /// The message holds no question.
    NoQuestion,
    /// The response could not be encoded.
    Unencodable,
}

/// What the caller is to do next for a request.
#[derive(Debug, Clone, PartialEq, Eq)]
pub enum Action {
    /// Send nothing: the request is dropped, for this reason.
    Drop(DropReason),
    /// Send these bytes to the client.
    Send(Vec<u8>),
    /// Resolve this query upstream, then complete the request with what
    /// came of it.
    Resolve(Query),
}

/// What an `Action` holds.
pub ghost enum ActionView {
    Drop(DropReason),
    Send(Seq<u8>),
    Resolve(QueryView),
}

impl View for Action {
    type V = ActionView;

    open spec fn view(&self) -> ActionView {
        match self {
            Action::Drop(reason) => ActionView::Drop(*reason),
            Action::Send(bytes) => ActionView::Send(bytes@),
            Action::Resolve(query) => ActionView::Resolve(query@),
        }
    }
}

/// What becomes of an encoded response: it is sent, and a response that
/// could not be encoded is dropped.
pub open spec fn outbound_of(bytes: Option<Seq<u8>>) -> ActionView {
    match bytes {
        Some(bytes) => ActionView::Send(bytes),
        None => ActionView::Drop(DropReason::Unencodable),
    }
}

/// Decides what becomes of an encoded response.
pub fn outbound(bytes: Option<Vec<u8>>) -> (out: Action)
    ensures
        out@ == outbound_of(
            match bytes {
                Some(bytes) => Some(bytes@),
                None => None,
            },
        ),
{
    match bytes {
        Some(bytes) => Action::Send(bytes),
        None => Action::Drop(DropReason::Unencodable),
    }
}

/// Builds and encodes the response that ends the handling of `query` with
/// `disposition`. A response that cannot be encoded gives `None`.
pub fn reply(query: &Query, disposition: Disposition) -> (out: Option<Vec<u8>>)
    ensures
        match out {
            Some(bytes) => encoded(response_for(query@, disposition@)) == Some(bytes@),
            None => encoded(response_for(query@, disposition@)) is None,
        },
{
    let response = respond(query, disposition);
    encode_response(&response)
}

/// What is done for a decoded request: nothing where the datagram did not
/// decode or holds no question; else the reply where the query is blocked or
/// cached, and a resolution where it is neither.
pub open spec fn handled(
    decoded: Option<RequestView>,
    blocked: Set<Seq<char>>,
    entries: Map<(Seq<char>, u16), EntryView>,
    now: u64,
) -> ActionView {
    match decoded {
        None => ActionView::Drop(DropReason::Undecodable),
        Some(request) => match first_query_of(request) {
            None => ActionView::Drop(DropReason::NoQuestion),
            Some(query) => match lookup_of(query, blocked, entries, now) {
                LookupView::Settled(disposition) => outbound_of(
                    encoded(response_for(query, disposition)),
                ),
                LookupView::Miss(_) => ActionView::Resolve(query),
            },
        },
    }
}

/// The bytes that complete a request once its resolution has ended: the
/// encoding of the response that serves the resolved records, or that
/// reports the failure.
pub open spec fn completed(query: QueryView, event: UpstreamEventView) -> Option<Seq<u8>> {
    encoded(response_for(query, disposition_after(resolution_of(event))))
}

/// Handles what a datagram decoded to, at the second `now`.
pub fn handle_decoded(
    decoded: Option<Request>,
    denylist: &Denylist,
    cache: &QueryCache,
    now: u64,
) -> (out: Action)
    ensures
        out@ == handled(
            match decoded {
                Some(request) => Some(request@),
                None => None,
            },
            denylist@,
            cache@,
            now,
        ),
{
    match decoded {
        None => Action::Drop(DropReason::Undecodable),
        Some(request) => match first_query(&request) {
            None => Action::Drop(DropReason::NoQuestion),
            Some(query) => match look_up(&query, denylist, cache, now) {
                Lookup::Settled(disposition) => outbound(reply(&query, disposition)),
                Lookup::Miss(_) => Action::Resolve(query),
            },
        },
    }
}

/// Handles one inbound datagram at the second `now`: decodes it and decides
/// what to do for it. A datagram that does not decode is dropped: nothing is
/// sent for it, and neither the denylist nor the cache is touched. A
/// datagram that is cut off within the header never decodes.
pub fn handle_request(
    datagram: &[u8],
    denylist: &Denylist,
    cache: &QueryCache,
    now: u64,
) -> (out: Action)
    ensures
        out@ == handled(wire_decoding(datagram@), denylist@, cache@, now),
        datagram@.len() < HEADER_LEN ==> out@ == ActionView::Drop(DropReason::Undecodable),
{
    handle_decoded(read_request(datagram), denylist, cache, now)
}

/// Completes the request for `query` with what came of its resolution, at
/// the second `now`: stores what was resolved under the query's key and
/// gives the bytes of the response to send, a server failure where the
/// resolution failed. Where the response cannot be encoded there is nothing
/// to send.
pub fn complete_request(
    query: &Query,
    event: UpstreamEvent,
    cache: &mut QueryCache,
    now: u64,
) -> (out: Option<Vec<u8>>)
    ensures
        final(cache)@ == cache_after(old(cache)@, key_of(query@), resolution_of(event@), now),
        match out {
            Some(bytes) => completed(query@, event@) == Some(bytes@),
            None => completed(query@, event@) is None,
        },
{
    let outcome = resolution(event);
    let disposition = settle(cache_key(query), outcome, cache, now);
    reply(query, disposition)
}

/// A query for a blocked domain is answered that the name does not exist,
/// with authority and without answer records, whatever the cache holds and
/// whatever the time is.
pub proof fn law_blocked_whatever_cached(
    query: QueryView,
    blocked: Set<Seq<char>>,
    entries: Map<(Seq<char>, u16), EntryView>,
    now: u64,
)
    requires
        blocked.contains(normalized_name(query.question.name)),
    ensures
        lookup_of(query, blocked, entries, now) == LookupView::Settled(DispositionView::Blocked),
        response_for(query, DispositionView::Blocked).code == ResponseCode::NxDomain,
        response_for(query, DispositionView::Blocked).authoritative,
        response_for(query, DispositionView::Blocked).answers.len() == 0,
        response_for(query, DispositionView::Blocked).id == query.id,
{
}

/// Once a query for a domain that is not blocked has been resolved at `now`,
/// the same query at any time before the stored answer's expiry is served
/// the same records from the cache, and is no miss: the upstream resolver is
/// not asked again. From the expiry on it is a miss again.
pub proof fn law_resolved_then_served(
    query: QueryView,
    blocked: Set<Seq<char>>,
    entries: Map<(Seq<char>, u16), EntryView>,
    records: Seq<RecordView>,
    now: u64,
    later: u64,
)
    requires
        !blocked.contains(normalized_name(query.question.name)),
    ensures
        ({
            let after = cache_after(
                entries,
                key_of(query),
                Ok::<Seq<RecordView>, ResolutionError>(records),
                now,
            );
            let expires = expiry(now, stored_ttl(records, min_ttl(records)));
            &&& later < expires ==> lookup_of(query, blocked, after, later) == LookupView::Settled(
                DispositionView::Served(records),
            )
            &&& later >= expires ==> lookup_of(query, blocked, after, later) == LookupView::Miss(
                key_of(query),
            )
        }),
{
}

/// Two queries for the same domain and type that both missed and were both
/// resolved to the same records end alike: each is served those records,
/// and the cache holds what the later of the two stored, as if the earlier
/// had not been resolved at all.
pub proof fn law_repeated_resolution(
    first: QueryView,
    second: QueryView,
    entries: Map<(Seq<char>, u16), EntryView>,
    records: Seq<RecordView>,
    earlier: u64,
    later: u64,
)
    requires
        key_of(first) == key_of(second),
    ensures
        ({
            let outcome = Ok::<Seq<RecordView>, ResolutionError>(records);
            let once = cache_after(entries, key_of(first), outcome, earlier);
            let twice = cache_after(once, key_of(second), outcome, later);
            &&& disposition_after(outcome) == DispositionView::Served(records)
            &&& response_for(first, disposition_after(outcome)).answers == records
            &&& response_for(second, disposition_after(outcome)).answers == records
            &&& twice == cache_after(entries, key_of(second), outcome, later)
        }),
{
    let outcome = Ok::<Seq<RecordView>, ResolutionError>(records);
    let once = cache_after(entries, key_of(first), outcome, earlier);
    let twice = cache_after(once, key_of(second), outcome, later);
    assert(twice =~= cache_after(entries, key_of(second), outcome, later));
}

/// A failed resolution is answered with a server failure that carries no
/// records, and stores nothing.
pub proof fn law_failure_is_answered(
    query: QueryView,
    entries: Map<(Seq<char>, u16), EntryView>,
    error: ResolutionError,
    now: u64,
)
    ensures
        ({
            let outcome = Err::<Seq<RecordView>, ResolutionError>(error);
            let response = response_for(query, disposition_after(outcome));
            &&& cache_after(entries, key_of(query), outcome, now) == entries
            &&& response.code == ResponseCode::ServFail
            &&& response.answers.len() == 0
            &&& response.id == query.id
            &&& !response.authoritative
        }),
{
}

/// A datagram that does not decode is dropped: nothing is sent for it and
/// nothing is resolved, whatever the denylist and the cache hold.
pub proof fn law_undecodable_is_dropped(
    blocked: Set<Seq<char>>,
    entries: Map<(Seq<char>, u16), EntryView>,
    now: u64,
)
    ensures
        handled(None, blocked, entries, now) == ActionView::Drop(DropReason::Undecodable),
{
}

} // verus!
