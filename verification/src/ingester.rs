//! Inbound ingestion: one commit event of the record stream, applied to the
//! store of statuses. Ingestion touches the store and nothing else; it
//! notifies no subscriber, so that a write made elsewhere and read back
//! from the stream is not announced a second time.

use crate::db::models::{
    copy_opt, holds, lemma_remove, lemma_upsert_absorbs, lemma_upsert_one_row, position, removed,
    stored, unique_uris, upserted, StatusFromDb, StatusRowView, StatusStore, StatusView,
};
use crate::time::{now, parse_rfc3339, rfc3339_point, Timestamp};
use crate::text::opt_view;
use vstd::prelude::*;

verus! {

/// The record collection that holds statuses.
pub const STATUS_COLLECTION: &'static str = "io.zzstoatzz.status.record";

/// What a commit did to a record.
#[derive(Debug, Clone, Copy, PartialEq, Eq, Structural)]
pub enum Operation {
    Create,
    Update,
    Delete,
}

/// The body of a status record, as it is on the wire.
#[derive(Debug, Clone)]
pub struct RecordData {
    /// When the record says it was created, as RFC 3339 text.
    pub created_at: String,
    pub emoji: String,
    pub text: Option<String>,
    /// When the status expires, as RFC 3339 text.
    pub expires: Option<String>,
}

/// The mathematical value of a [`RecordData`].
pub struct RecordDataView {
    pub created_at: Seq<char>,
    pub emoji: Seq<char>,
    pub text: Option<Seq<char>>,
    pub expires: Option<Seq<char>>,
}

impl View for RecordData {
    type V = RecordDataView;

    open spec fn view(&self) -> RecordDataView {
        RecordDataView {
            created_at: self.created_at@,
            emoji: self.emoji@,
            text: opt_view(self.text),
            expires: opt_view(self.expires),
        }
    }
}

/// What decoding the body of a commit gave.
#[derive(Debug, Clone)]
pub enum Record {
    /// The body is a status record.
    Status(RecordData),
    /// The body is not a status record; the cause is given.
    Malformed(String),
}

/// The mathematical value of a [`Record`].
pub enum RecordView {
    Status(RecordDataView),
    Malformed(Seq<char>),
}

impl View for Record {
    type V = RecordView;

    open spec fn view(&self) -> RecordView {
        match self {
            Record::Status(d) => RecordView::Status(d@),
            Record::Malformed(cause) => RecordView::Malformed(cause@),
        }
    }
}

/// The commit section of an event.
#[derive(Debug, Clone)]
pub struct Commit {
    pub operation: Operation,
    pub collection: String,
    pub rkey: String,
    pub record: Option<Record>,
    /// The content hash of the record.
    pub cid: Option<String>,
}

/// The mathematical value of a [`Commit`].
pub struct CommitView {
    pub operation: Operation,
    pub collection: Seq<char>,
    pub rkey: Seq<char>,
    pub record: Option<RecordView>,
    pub cid: Option<Seq<char>>,
}

impl View for Commit {
    type V = CommitView;

    open spec fn view(&self) -> CommitView {
        CommitView {
            operation: self.operation,
            collection: self.collection@,
            rkey: self.rkey@,
            record: match self.record {
                Some(r) => Some(r@),
                None => None,
            },
            cid: opt_view(self.cid),
        }
    }
}

/// One event of the record stream.
#[derive(Debug, Clone)]
pub struct Event {
    /// The author's identifier.
    pub did: String,
    pub commit: Option<Commit>,
}

/// The mathematical value of an [`Event`].
pub struct EventView {
    pub did: Seq<char>,
    pub commit: Option<CommitView>,
}

impl View for Event {
    type V = EventView;

    open spec fn view(&self) -> EventView {
        EventView {
            did: self.did@,
            commit: match self.commit {
                Some(c) => Some(c@),
                None => None,
            },
        }
    }
}

/// Why an event was not ingested.
#[derive(Debug, Clone)]
pub enum IngestError {
    /// The event has no commit section.
    NoCommit,
    /// The body of the commit is not a status record; the cause is given.
    Decode(String),
}

/// The mathematical value of an [`IngestError`].
pub enum IngestErrorView {
    NoCommit,
    Decode(Seq<char>),
}

impl View for IngestError {
    type V = IngestErrorView;

    open spec fn view(&self) -> IngestErrorView {
        match self {
            IngestError::NoCommit => IngestErrorView::NoCommit,
            IngestError::Decode(cause) => IngestErrorView::Decode(cause@),
        }
    }
}

impl IngestError {
    /// The error in words.
    pub fn message(&self) -> (m: String)
        ensures
            m@ == match self@ {
                IngestErrorView::NoCommit => "Message has no commit"@,
                IngestErrorView::Decode(cause) => cause,
            },
    {
        match self {
            IngestError::NoCommit => "Message has no commit".to_owned(),
            IngestError::Decode(cause) => cause.clone(),
        }
    }
}

/// The URI of a record: `at://`, the author, the collection and the record
/// key, separated by slashes.
pub open spec fn uri_of(did: Seq<char>, collection: Seq<char>, rkey: Seq<char>) -> Seq<char> {
    "at://"@ + did + "/"@ + collection + "/"@ + rkey
}

/// Builds the URI of a record from its three parts.
pub fn record_uri(did: &str, collection: &str, rkey: &str) -> (uri: String)
    ensures
        uri@ == uri_of(did@, collection@, rkey@),
{
    let mut uri = String::new();
    uri.push_str("at://");
    uri.push_str(did);
    uri.push_str("/");
    uri.push_str(collection);
    uri.push_str("/");
    uri.push_str(rkey);
    uri
}

/// The cause given for a record whose creation time cannot be read.
pub const BAD_CREATED_AT: &'static str = "createdAt is not an RFC 3339 date and time";

/// The cause given for a record whose expiry cannot be read.
pub const BAD_EXPIRES: &'static str = "expires is not an RFC 3339 date and time";

/// The point in time that an RFC 3339 text names, where it names one.
pub open spec fn point_of(text: Seq<char>) -> Option<Timestamp> {
    match rfc3339_point(text) {
        Some((secs, nanos)) => Some(Timestamp { secs, nanos }),
        None => None,
    }
}

/// The times of a record: when it says it was created and, where it says
/// so, when it expires. A record whose creation time or expiry names no
/// point in time is not decoded; the cause is given.
pub open spec fn times_of(data: RecordDataView) -> Result<(Timestamp, Option<Timestamp>), Seq<char>> {
    match (point_of(data.created_at), data.expires) {
        (None, _) => Err(BAD_CREATED_AT@),
        (Some(created), None) => Ok((created, None)),
        (Some(created), Some(text)) => match point_of(text) {
            Some(expires) => Ok((created, Some(expires))),
            None => Err(BAD_EXPIRES@),
        },
    }
}

/// The status that a record with the given times stands for, indexed at
/// `now`.
pub open spec fn status_of(
    uri: Seq<char>,
    did: Seq<char>,
    data: RecordDataView,
    times: (Timestamp, Option<Timestamp>),
    now: Timestamp,
) -> StatusView {
    StatusView {
        uri,
        author_did: did,
        status: data.emoji,
        text: data.text,
        started_at: times.0,
        expires_at: times.1,
        indexed_at: now,
        handle: None,
    }
}

/// The rows of the store after an event was ingested at `now`.
///
/// A create or update whose body is a status record with readable times,
/// and that carries a content hash, saves the record's status under the
/// record's URI. A delete removes the status with that
/// URI. Every other event leaves the rows as they are.
pub open spec fn ingested(rows: Seq<StatusRowView>, m: EventView, now: Timestamp) -> Seq<
    StatusRowView,
> {
    match m.commit {
        Some(c) => {
            let uri = uri_of(m.did, c.collection, c.rkey);
            match c.operation {
                Operation::Delete => removed(rows, uri),
                _ => match (c.record, c.cid) {
                    (Some(RecordView::Status(data)), Some(_)) => match times_of(data) {
                        Ok(times) => upserted(rows, status_of(uri, m.did, data, times, now)),
                        Err(_) => rows,
                    },
                    _ => rows,
                },
            }
        },
        None => rows,
    }
}

/// What ingesting an event reports: an error for an event without commit
/// and for a create or update whose body is malformed or whose times
/// cannot be read, success otherwise.
pub open spec fn ingest_outcome(m: EventView) -> Result<(), IngestErrorView> {
    match m.commit {
        Some(c) => match (c.operation, c.record) {
            (Operation::Delete, _) => Ok(()),
            (_, Some(RecordView::Malformed(cause))) => Err(IngestErrorView::Decode(cause)),
            (_, Some(RecordView::Status(data))) => match times_of(data) {
                Ok(_) => Ok(()),
                Err(cause) => Err(IngestErrorView::Decode(cause)),
            },
            _ => Ok(()),
        },
        None => Err(IngestErrorView::NoCommit),
    }
}

/// The view of a result of ingestion.
pub open spec fn outcome_view(r: Result<(), IngestError>) -> Result<(), IngestErrorView> {
    match r {
        Ok(()) => Ok(()),
        Err(e) => Err(e@),
    }
}

/// The view of what reading the times of a record gave.
pub open spec fn times_view(r: Result<(Timestamp, Option<Timestamp>), IngestError>) -> Result<
    (Timestamp, Option<Timestamp>),
    Seq<char>,
> {
    match r {
        Ok(times) => Ok(times),
        Err(IngestError::Decode(cause)) => Err(cause@),
        Err(IngestError::NoCommit) => Err(Seq::empty()),
    }
}

/// Reads the times of a record.
pub fn read_times(data: &RecordData) -> (r: Result<(Timestamp, Option<Timestamp>), IngestError>)
    ensures
        times_view(r) == times_of(data@),
        r matches Err(e) ==> e is Decode,
{
    let created = match parse_rfc3339(data.created_at.as_str()) {
        Some(t) => t,
        None => {
            return Err(IngestError::Decode(BAD_CREATED_AT.to_owned()));
        },
    };
    match &data.expires {
        Some(text) => match parse_rfc3339(text.as_str()) {
            Some(expires) => Ok((created, Some(expires))),
            None => Err(IngestError::Decode(BAD_EXPIRES.to_owned())),
        },
        None => Ok((created, None)),
    }
}

/// The consumer of status records: it owns the store that it writes to.
pub struct StatusSphereIngester {
    pub store: StatusStore,
}

impl StatusSphereIngester {
    /// An ingester that writes to `store`.
    pub fn new(store: StatusStore) -> (ingester: Self)
        ensures
            ingester.store == store,
    {
        StatusSphereIngester { store }
    }

    /// Applies one event to the store, as of `now`.
    pub fn ingest_at(&mut self, message: &Event, now: Timestamp) -> (r: Result<(), IngestError>)
        requires
            old(self).store.wf(),
        ensures
            final(self).store.wf(),
            final(self).store@ == ingested(old(self).store@, message@, now),
            outcome_view(r) == ingest_outcome(message@),
    {
        match &message.commit {
            Some(commit) => {
                let uri = record_uri(
                    message.did.as_str(),
                    commit.collection.as_str(),
                    commit.rkey.as_str(),
                );
                match commit.operation {
                    Operation::Delete => {
                        StatusFromDb::delete_by_uri(&mut self.store, uri);
                        Ok(())
                    },
                    _ => match &commit.record {
                        Some(Record::Status(data)) => {
                            let times = match read_times(data) {
                                Ok(times) => times,
                                Err(e) => {
                                    return Err(e);
                                },
                            };
                            match &commit.cid {
                                Some(_) => {
                                    let status = StatusFromDb {
                                        uri,
                                        author_did: message.did.clone(),
                                        status: data.emoji.clone(),
                                        text: copy_opt(&data.text),
                                        started_at: times.0,
                                        expires_at: times.1,
                                        indexed_at: now,
                                        handle: None,
                                    };
                                    status.save_or_update(&mut self.store);
                                },
                                None => {},
                            }
                            Ok(())
                        },
                        Some(Record::Malformed(cause)) => Err(IngestError::Decode(cause.clone())),
                        None => Ok(()),
                    },
                }
            },
            None => Err(IngestError::NoCommit),
        }
    }

    /// Applies one event to the store, as of the current time.
    pub fn ingest(&mut self, message: &Event) -> (r: Result<(), IngestError>)
        requires
            old(self).store.wf(),
        ensures
            final(self).store.wf(),
            outcome_view(r) == ingest_outcome(message@),
            exists|now: Timestamp| final(self).store@ == ingested(old(self).store@, message@, now),
    {
        let t = now();
        let r = self.ingest_at(message, t);
        r
    }
}

/// Ingestion keeps the URIs of the store unique.
pub proof fn lemma_ingest_keeps_unique(rows: Seq<StatusRowView>, m: EventView, now: Timestamp)
    requires
        unique_uris(rows),
    ensures
        unique_uris(ingested(rows, m, now)),
{
    match m.commit {
        Some(c) => {
            let uri = uri_of(m.did, c.collection, c.rkey);
            match c.operation {
                Operation::Delete => {
                    lemma_remove(rows, uri);
                },
                _ => match (c.record, c.cid) {
                    (Some(RecordView::Status(data)), Some(_)) => {
                        if times_of(data) is Ok {
                            lemma_upsert_one_row(
                                rows,
                                status_of(uri, m.did, data, times_of(data)->Ok_0, now),
                            );
                        }
                    },
                    _ => {},
                },
            }
        },
        None => {},
    }
}

/// Redelivery converges: ingesting an event and then the same event again
/// leaves the store as ingesting it once, at the time of the second
/// delivery, does. This holds of every event, whatever it carries.
pub proof fn lemma_ingest_replay(
    rows: Seq<StatusRowView>,
    m: EventView,
    first: Timestamp,
    second: Timestamp,
)
    requires
        unique_uris(rows),
    ensures
        ingested(ingested(rows, m, first), m, second) == ingested(rows, m, second),
{
    match m.commit {
        Some(c) => {
            let uri = uri_of(m.did, c.collection, c.rkey);
            match c.operation {
                Operation::Delete => {
                    lemma_remove(rows, uri);
                },
                _ => match (c.record, c.cid) {
                    (Some(RecordView::Status(data)), Some(_)) => {
                        if times_of(data) is Ok {
                            lemma_upsert_absorbs(
                                rows,
                                status_of(uri, m.did, data, times_of(data)->Ok_0, first),
                                status_of(uri, m.did, data, times_of(data)->Ok_0, second),
                            );
                        }
                    },
                    _ => {},
                },
            }
        },
        None => {},
    }
}

/// Ingesting the same create event twice at the same time is ingesting it
/// once, and leaves exactly one row for the record's URI.
pub proof fn lemma_ingest_create_twice(
    rows: Seq<StatusRowView>,
    m: EventView,
    data: RecordDataView,
    now: Timestamp,
)
    requires
        unique_uris(rows),
        m.commit matches Some(c) && c.operation != Operation::Delete && c.record == Some(
            RecordView::Status(data),
        ) && c.cid is Some,
        times_of(data) is Ok,
    ensures
        ({
            let uri = uri_of(m.did, m.commit->0.collection, m.commit->0.rkey);
            let once = ingested(rows, m, now);
            let twice = ingested(once, m, now);
            &&& twice == once
            &&& ingest_outcome(m) is Ok
            &&& position(twice, uri) matches Some(i) && twice[i].status == stored(
                status_of(uri, m.did, data, times_of(data)->Ok_0, now),
            )
            &&& forall|i: int, j: int| holds(twice, i, uri) && holds(twice, j, uri) ==> i == j
        }),
{
    let c = m.commit->0;
    let uri = uri_of(m.did, c.collection, c.rkey);
    lemma_ingest_replay(rows, m, now, now);
    lemma_upsert_one_row(rows, status_of(uri, m.did, data, times_of(data)->Ok_0, now));
}

/// Ingesting a delete for a URI that the store does not hold succeeds and
/// changes nothing.
pub proof fn lemma_ingest_delete_absent(rows: Seq<StatusRowView>, m: EventView, now: Timestamp)
    requires
        unique_uris(rows),
        m.commit matches Some(c) && c.operation == Operation::Delete && position(
            rows,
            uri_of(m.did, c.collection, c.rkey),
        ) is None,
    ensures
        ingested(rows, m, now) == rows,
        ingest_outcome(m) is Ok,
{
}

/// A malformed record is skipped: a create or update whose body is
/// malformed, or whose times cannot be read, is reported with its cause
/// and leaves the store as it is.
pub proof fn lemma_ingest_skips_malformed(rows: Seq<StatusRowView>, m: EventView, now: Timestamp)
    requires
        m.commit matches Some(c) && c.operation != Operation::Delete && (c.record matches Some(
            r,
        ) && match r {
            RecordView::Malformed(_) => true,
            RecordView::Status(data) => times_of(data) is Err,
        }),
    ensures
        ingested(rows, m, now) == rows,
        ingest_outcome(m) is Err,
{
}

} // verus!
