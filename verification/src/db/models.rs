//! Status records and the materialized view that holds one record per URI.

use crate::text::{
    chars_of, has_prefix, opt_str, opt_view, starts_with, str_eq, string_of, trim, trim_chars,
};
use crate::time::{now, Timestamp};
use vstd::prelude::*;

verus! {

/// A copy of an optional string.
pub fn copy_opt(o: &Option<String>) -> (r: Option<String>)
    ensures
        opt_view(r) == opt_view(*o),
{
    match o {
        Some(s) => Some(s.clone()),
        None => None,
    }
}

/// One status record.
#[derive(Debug, Clone)]
pub struct StatusFromDb {
    pub uri: String,
    pub author_did: String,
    /// The emoji or tag of the status.
    pub status: String,
    pub text: Option<String>,
    pub started_at: Timestamp,
    pub expires_at: Option<Timestamp>,
    pub indexed_at: Timestamp,
    pub handle: Option<String>,
}

/// The mathematical value of a [`StatusFromDb`].
pub struct StatusView {
    pub uri: Seq<char>,
    pub author_did: Seq<char>,
    pub status: Seq<char>,
    pub text: Option<Seq<char>>,
    pub started_at: Timestamp,
    pub expires_at: Option<Timestamp>,
    pub indexed_at: Timestamp,
    pub handle: Option<Seq<char>>,
}

impl View for StatusFromDb {
    type V = StatusView;

    open spec fn view(&self) -> StatusView {
        StatusView {
            uri: self.uri@,
            author_did: self.author_did@,
            status: self.status@,
            text: opt_view(self.text),
            started_at: self.started_at,
            expires_at: self.expires_at,
            indexed_at: self.indexed_at,
            handle: opt_view(self.handle),
        }
    }
}

/// A status that starts at `now`, without text, expiry or handle.
pub open spec fn fresh_status(
    uri: Seq<char>,
    author_did: Seq<char>,
    status: Seq<char>,
    now: Timestamp,
) -> StatusView {
    StatusView {
        uri,
        author_did,
        status,
        text: None,
        started_at: now,
        expires_at: None,
        indexed_at: now,
        handle: None,
    }
}

/// Whether a status with this expiry has expired at `now`.
pub open spec fn expired(expires_at: Option<Timestamp>, now: Timestamp) -> bool {
    match expires_at {
        Some(t) => now.later_than(t),
        None => false,
    }
}

impl StatusFromDb {
    /// A status that starts at `now`.
    pub fn new_at(uri: String, author_did: String, status: String, now: Timestamp) -> (s: Self)
        ensures
            s@ == fresh_status(uri@, author_did@, status@, now),
    {
        StatusFromDb {
            uri,
            author_did,
            status,
            text: None,
            started_at: now,
            expires_at: None,
            indexed_at: now,
            handle: None,
        }
    }

    /// A status that starts at the current time.
    pub fn new(uri: String, author_did: String, status: String) -> (s: Self)
        ensures
            s@ == fresh_status(uri@, author_did@, status@, s.started_at),
    {
        Self::new_at(uri, author_did, status, now())
    }

    /// Whether the status has expired at `now`.
    pub fn is_expired_at(&self, now: Timestamp) -> (b: bool)
        ensures
            b == expired(self.expires_at, now),
    {
        match self.expires_at {
            Some(t) => now.is_after(&t),
            None => false,
        }
    }

    /// Whether the status has expired by the current time. A status
    /// without expiry never has.
    pub fn is_expired(&self) -> (b: bool)
        ensures
            self.expires_at is None ==> !b,
            exists|t: Timestamp| b == expired(self.expires_at, t),
    {
        let t = now();
        let b = self.is_expired_at(t);
        b
    }

    /// A copy of this status.
    pub fn duplicate(&self) -> (s: StatusFromDb)
        ensures
            s@ == self@,
    {
        StatusFromDb {
            uri: self.uri.clone(),
            author_did: self.author_did.clone(),
            status: self.status.clone(),
            text: copy_opt(&self.text),
            started_at: self.started_at,
            expires_at: self.expires_at,
            indexed_at: self.indexed_at,
            handle: copy_opt(&self.handle),
        }
    }
}

/// The start of the second that `t` lies in.
pub open spec fn whole_second(t: Timestamp) -> Timestamp {
    Timestamp { secs: t.secs, nanos: 0 }
}

/// What the store keeps of a status: times to the second, and no handle.
pub open spec fn stored(s: StatusView) -> StatusView {
    StatusView {
        started_at: whole_second(s.started_at),
        expires_at: match s.expires_at {
            Some(t) => Some(whole_second(t)),
            None => None,
        },
        indexed_at: whole_second(s.indexed_at),
        handle: None,
        ..s
    }
}

/// A row of the store: a status and its moderation flag.
pub struct StatusRow {
    pub status: StatusFromDb,
    pub hidden: bool,
}

/// The mathematical value of a [`StatusRow`].
pub struct StatusRowView {
    pub status: StatusView,
    pub hidden: bool,
}

impl View for StatusRow {
    type V = StatusRowView;

    open spec fn view(&self) -> StatusRowView {
        StatusRowView { status: self.status@, hidden: self.hidden }
    }
}

/// The views of a sequence of rows.
pub open spec fn status_views(rows: Seq<StatusRow>) -> Seq<StatusRowView> {
    Seq::new(rows.len(), |i: int| rows[i]@)
}

/// No two rows have the same URI.
pub open spec fn unique_uris(rows: Seq<StatusRowView>) -> bool {
    forall|i: int, j: int|
        0 <= i < rows.len() && 0 <= j < rows.len() && i != j ==> (#[trigger] rows[i]).status.uri != (
        #[trigger] rows[j]).status.uri
}

/// Row `i` holds the status with URI `uri`.
pub open spec fn holds(rows: Seq<StatusRowView>, i: int, uri: Seq<char>) -> bool {
    0 <= i < rows.len() && rows[i].status.uri == uri
}

/// The position of the row with URI `uri`.
pub open spec fn position(rows: Seq<StatusRowView>, uri: Seq<char>) -> Option<int> {
    if exists|i: int| holds(rows, i, uri) {
        Some(choose|i: int| holds(rows, i, uri))
    } else {
        None
    }
}

/// The rows after `s` was saved: the row with its URI replaced in full,
/// keeping its moderation flag, or a new visible row where there was none.
pub open spec fn upserted(rows: Seq<StatusRowView>, s: StatusView) -> Seq<StatusRowView> {
    match position(rows, s.uri) {
        Some(i) => rows.update(i, StatusRowView { status: stored(s), hidden: rows[i].hidden }),
        None => rows.push(StatusRowView { status: stored(s), hidden: false }),
    }
}

/// The rows after the status with URI `uri` was removed, if there was one.
pub open spec fn removed(rows: Seq<StatusRowView>, uri: Seq<char>) -> Seq<StatusRowView> {
    match position(rows, uri) {
        Some(i) => rows.remove(i),
        None => rows,
    }
}

/// The rows after the moderation flag of the status with URI `uri` was set.
pub open spec fn flagged(rows: Seq<StatusRowView>, uri: Seq<char>, hidden: bool) -> Seq<
    StatusRowView,
> {
    match position(rows, uri) {
        Some(i) => rows.update(i, StatusRowView { hidden, ..rows[i] }),
        None => rows,
    }
}

/// Row `i` is a latest status of `did`: none of `did` started later.
pub open spec fn latest_of(rows: Seq<StatusRowView>, i: int, did: Seq<char>) -> bool {
    &&& 0 <= i < rows.len()
    &&& rows[i].status.author_did == did
    &&& forall|j: int|
        0 <= j < rows.len() && (#[trigger] rows[j]).status.author_did == did
            ==> !rows[j].status.started_at.later_than(rows[i].status.started_at)
}

/// Where URIs are unique, a row is found at the one place where it is.
pub proof fn lemma_position_at(rows: Seq<StatusRowView>, uri: Seq<char>, k: int)
    requires
        unique_uris(rows),
        holds(rows, k, uri),
    ensures
        position(rows, uri) == Some(k),
{
    let i = choose|i: int| holds(rows, i, uri);
    if i != k {
    }
}

/// The materialized view: at most one status per URI.
pub struct StatusStore {
    rows: Vec<StatusRow>,
}

impl View for StatusStore {
    type V = Seq<StatusRowView>;

    closed spec fn view(&self) -> Seq<StatusRowView> {
        status_views(self.rows@)
    }
}

impl StatusStore {
    /// The store's invariant: no two rows have the same URI.
    pub open spec fn wf(&self) -> bool {
        unique_uris(self@)
    }

    /// A store without statuses.
    pub fn new() -> (store: StatusStore)
        ensures
            store@ == Seq::<StatusRowView>::empty(),
            store.wf(),
    {
        let store = StatusStore { rows: Vec::new() };
        store
    }

    /// The number of statuses.
    pub fn len(&self) -> (n: usize)
        ensures
            n == self@.len(),
    {
        self.rows.len()
    }

    /// The position of the row with URI `uri`.
    fn locate(&self, uri: &str) -> (r: Option<usize>)
        requires
            self.wf(),
        ensures
            match r {
                Some(k) => holds(self@, k as int, uri@) && position(self@, uri@) == Some(k as int),
                None => position(self@, uri@) is None,
            },
    {
        let mut i: usize = 0;
        while i < self.rows.len()
            invariant
                self.wf(),
                i <= self.rows@.len(),
                forall|k: int| 0 <= k < i ==> !holds(self@, k, uri@),
            decreases self.rows@.len() - i,
        {
            if str_eq(self.rows[i].status.uri.as_str(), uri) {
                proof {
                    lemma_position_at(self@, uri@, i as int);
                }
                return Some(i);
            }
            i += 1;
        }
        None
    }

    /// Whether the status with URI `uri` is hidden; `None` where there is
    /// no such status.
    pub fn is_hidden(&self, uri: &str) -> (r: Option<bool>)
        requires
            self.wf(),
        ensures
            match position(self@, uri@) {
                Some(i) => r == Some(self@[i].hidden),
                None => r is None,
            },
    {
        match self.locate(uri) {
            Some(k) => Some(self.rows[k].hidden),
            None => None,
        }
    }

    /// Sets the moderation flag of the status with URI `uri`, and says
    /// whether there is such a status.
    pub fn set_hidden(&mut self, uri: &str, hidden: bool) -> (found: bool)
        requires
            old(self).wf(),
        ensures
            final(self).wf(),
            final(self)@ == flagged(old(self)@, uri@, hidden),
            found == position(old(self)@, uri@) is Some,
    {
        match self.locate(uri) {
            Some(k) => {
                let ghost before = self@;
                let row = StatusRow { status: self.rows[k].status.duplicate(), hidden };
                self.rows.set(k, row);
                proof {
                    assert(self@ =~= before.update(
                        k as int,
                        StatusRowView { hidden, ..before[k as int] },
                    ));
                }
                true
            },
            None => false,
        }
    }
}

/// Why a status could not be saved.
#[derive(Debug, Clone, Copy, PartialEq, Eq, Structural)]
pub enum StoreError {
    /// A status with the same URI is in the store already.
    Duplicate,
}

/// A copy of `s` as the store keeps it.
fn to_stored(s: &StatusFromDb) -> (r: StatusFromDb)
    ensures
        r@ == stored(s@),
{
    StatusFromDb {
        uri: s.uri.clone(),
        author_did: s.author_did.clone(),
        status: s.status.clone(),
        text: copy_opt(&s.text),
        started_at: Timestamp { secs: s.started_at.secs, nanos: 0 },
        expires_at: match s.expires_at {
            Some(t) => Some(Timestamp { secs: t.secs, nanos: 0 }),
            None => None,
        },
        indexed_at: Timestamp { secs: s.indexed_at.secs, nanos: 0 },
        handle: None,
    }
}

impl StatusFromDb {
    /// The status with URI `uri`, as the store keeps it.
    pub fn load_by_uri(store: &StatusStore, uri: &str) -> (r: Option<Self>)
        requires
            store.wf(),
        ensures
            match position(store@, uri@) {
                Some(i) => r matches Some(s) && s@ == store@[i].status,
                None => r is None,
            },
    {
        match store.locate(uri) {
            Some(k) => Some(store.rows[k].status.duplicate()),
            None => None,
        }
    }

    /// Adds this status as a new visible row. A status whose URI is in the
    /// store already is refused, and the store stays as it is.
    pub fn save(&self, store: &mut StatusStore) -> (r: Result<(), StoreError>)
        requires
            old(store).wf(),
        ensures
            final(store).wf(),
            match position(old(store)@, self@.uri) {
                Some(_) => r == Err::<(), StoreError>(StoreError::Duplicate) && final(store)@ == old(
                    store,
                )@,
                None => r is Ok && final(store)@ == upserted(old(store)@, self@),
            },
    {
        match store.locate(self.uri.as_str()) {
            Some(_) => Err(StoreError::Duplicate),
            None => {
                let ghost before = store@;
                let row = StatusRow { status: to_stored(self), hidden: false };
                store.rows.push(row);
                proof {
                    assert forall|i: int, j: int|
                        0 <= i < store@.len() && 0 <= j < store@.len() && i != j implies (
                    #[trigger] store@[i]).status.uri != (#[trigger] store@[j]).status.uri by {
                        if i < before.len() && j < before.len() {
                            assert(before[i].status.uri != before[j].status.uri);
                        } else if i < before.len() {
                            assert(!holds(before, i, self@.uri));
                        } else {
                            assert(!holds(before, j, self@.uri));
                        }
                    }
                }
                Ok(())
            },
        }
    }

    /// Saves this status under its URI: a new visible row where the URI is
    /// not in the store, else the row with that URI replaced in full.
    pub fn save_or_update(&self, store: &mut StatusStore)
        requires
            old(store).wf(),
        ensures
            final(store).wf(),
            final(store)@ == upserted(old(store)@, self@),
    {
        match store.locate(self.uri.as_str()) {
            Some(k) => {
                let ghost before = store@;
                let row = StatusRow { status: to_stored(self), hidden: store.rows[k].hidden };
                store.rows.set(k, row);
                proof {
                    assert forall|i: int, j: int|
                        0 <= i < store@.len() && 0 <= j < store@.len() && i != j implies (
                    #[trigger] store@[i]).status.uri != (#[trigger] store@[j]).status.uri by {
                        assert(before[i].status.uri != before[j].status.uri);
                    }
                }
            },
            None => {
                let r = self.save(store);
            },
        }
    }

    /// Removes the status with URI `uri`. Where there is none, nothing changes.
    pub fn delete_by_uri(store: &mut StatusStore, uri: String)
        requires
            old(store).wf(),
        ensures
            final(store).wf(),
            final(store)@ == removed(old(store)@, uri@),
    {
        match store.locate(uri.as_str()) {
            Some(k) => {
                let ghost before = store@;
                store.rows.remove(k);
                proof {
                    assert forall|i: int, j: int|
                        0 <= i < store@.len() && 0 <= j < store@.len() && i != j implies (
                    #[trigger] store@[i]).status.uri != (#[trigger] store@[j]).status.uri by {
                        let a = if i < k { i } else { i + 1 };
                        let b = if j < k { j } else { j + 1 };
                        assert(before[a].status.uri != before[b].status.uri);
                    }
                }
            },
            None => {},
        }
    }

    /// A latest status of `did`: one that no other status of `did` started
    /// after. `None` exactly where `did` has no status.
    pub fn my_status(store: &StatusStore, did: &str) -> (r: Option<Self>)
        requires
            store.wf(),
        ensures
            match r {
                Some(s) => exists|i: int| latest_of(store@, i, did@) && s@ == store@[i].status,
                None => forall|i: int|
                    0 <= i < store@.len() ==> (#[trigger] store@[i]).status.author_did != did@,
            },
    {
        let n = store.rows.len();
        let mut best: Option<usize> = None;
        let mut i: usize = 0;
        while i < n
            invariant
                i <= n == store.rows@.len(),
                match best {
                    Some(b) => b < i && store@[b as int].status.author_did == did@ && forall|j: int|
                        0 <= j < i && (#[trigger] store@[j]).status.author_did == did@
                            ==> !store@[j].status.started_at.later_than(
                            store@[b as int].status.started_at,
                        ),
                    None => forall|j: int|
                        0 <= j < i ==> (#[trigger] store@[j]).status.author_did != did@,
                },
            decreases n - i,
        {
            if str_eq(store.rows[i].status.author_did.as_str(), did) {
                match best {
                    Some(b) => {
                        if store.rows[i].status.started_at.is_after(&store.rows[b].status.started_at) {
                            best = Some(i);
                        }
                    },
                    None => {
                        best = Some(i);
                    },
                }
            }
            i += 1;
        }
        match best {
            Some(b) => {
                assert(latest_of(store@, b as int, did@));
                Some(store.rows[b].status.duplicate())
            },
            None => None,
        }
    }
}

/// Saving a status keeps URIs unique and leaves exactly one row with the
/// status's URI: the row that holds the status as the store keeps it.
pub proof fn lemma_upsert_one_row(rows: Seq<StatusRowView>, s: StatusView)
    requires
        unique_uris(rows),
    ensures
        unique_uris(upserted(rows, s)),
        position(upserted(rows, s), s.uri) matches Some(i) && upserted(rows, s)[i].status == stored(
            s,
        ),
        forall|i: int, j: int|
            holds(upserted(rows, s), i, s.uri) && holds(upserted(rows, s), j, s.uri) ==> i == j,
{
    let after = upserted(rows, s);
    match position(rows, s.uri) {
        Some(k) => {
            lemma_position_at(after, s.uri, k);
        },
        None => {
            let k = rows.len() as int;
            assert forall|i: int, j: int|
                0 <= i < after.len() && 0 <= j < after.len() && i != j implies (
            #[trigger] after[i]).status.uri != (#[trigger] after[j]).status.uri by {
                if i < k && j < k {
                } else if i < k {
                    assert(!holds(rows, i, s.uri));
                } else {
                    assert(!holds(rows, j, s.uri));
                }
            }
            lemma_position_at(after, s.uri, k);
        },
    }
}

/// The last save under a URI wins: saving `a` and then `b` under the same
/// URI leaves the store as saving `b` alone does.
pub proof fn lemma_upsert_absorbs(rows: Seq<StatusRowView>, a: StatusView, b: StatusView)
    requires
        unique_uris(rows),
        a.uri == b.uri,
    ensures
        upserted(upserted(rows, a), b) == upserted(rows, b),
{
    let first = upserted(rows, a);
    lemma_upsert_one_row(rows, a);
    match position(rows, a.uri) {
        Some(k) => {
            lemma_position_at(first, b.uri, k);
        },
        None => {
            let k = rows.len() as int;
            lemma_position_at(first, b.uri, k);
        },
    }
}

/// Saving the same status again changes nothing.
pub proof fn lemma_upsert_idempotent(rows: Seq<StatusRowView>, s: StatusView)
    requires
        unique_uris(rows),
    ensures
        upserted(upserted(rows, s), s) == upserted(rows, s),
{
    lemma_upsert_absorbs(rows, s, s);
}

/// Removing keeps URIs unique and leaves no row with the URI. Removing a
/// status that is not in the store changes nothing, and so does removing
/// it a second time.
pub proof fn lemma_remove(rows: Seq<StatusRowView>, uri: Seq<char>)
    requires
        unique_uris(rows),
    ensures
        unique_uris(removed(rows, uri)),
        position(removed(rows, uri), uri) is None,
        position(rows, uri) is None ==> removed(rows, uri) == rows,
        removed(removed(rows, uri), uri) == removed(rows, uri),
{
    match position(rows, uri) {
        Some(k) => {
        },
        None => {
        },
    }
}

/// The name shown for the author of a status: the handle where it is
/// known, else the identifier.
pub open spec fn display_name(s: StatusView) -> Seq<char> {
    match s.handle {
        Some(h) => h,
        None => s.author_did,
    }
}

/// The emoji of a status in words: a custom emoji `custom:name` reads
/// `:name:`, any other emoji reads as it is.
pub open spec fn emoji_label(status: Seq<char>) -> Seq<char> {
    if has_prefix(status, "custom:"@) {
        ":"@ + status.skip("custom:"@.len() as int) + ":"@
    } else {
        status
    }
}

/// The text of a status without white space around it, where anything is
/// left of it.
pub open spec fn caption(s: StatusView) -> Option<Seq<char>> {
    match s.text {
        Some(t) => if trim(t).len() > 0 {
            Some(trim(t))
        } else {
            None
        },
        None => None,
    }
}

/// The title of a shared status: its emoji and its author.
pub open spec fn title(s: StatusView) -> Seq<char> {
    emoji_label(s.status) + " @"@ + display_name(s)
}

/// The description of a shared status: its caption, or a line that names
/// the author.
pub open spec fn description(s: StatusView) -> Seq<char> {
    match caption(s) {
        Some(c) => c,
        None => display_name(s) + " shared a status"@,
    }
}

/// The text of a shared status: its title, and its caption after a dash.
pub open spec fn shared_text(s: StatusView) -> Seq<char> {
    match caption(s) {
        Some(c) => title(s) + " — "@ + c,
        None => title(s),
    }
}

/// The position of the last `sep` in `s`, or `-1` where there is none.
pub open spec fn last_sep(s: Seq<char>, sep: char) -> int
    decreases s.len(),
{
    if s.len() == 0 {
        -1
    } else if s.last() == sep {
        s.len() - 1
    } else {
        last_sep(s.drop_last(), sep)
    }
}

/// The record key of a URI: what follows its last slash.
pub open spec fn key_of(uri: Seq<char>) -> Option<Seq<char>> {
    if last_sep(uri, '/') >= 0 {
        Some(uri.skip(last_sep(uri, '/') + 1))
    } else {
        None
    }
}

/// The path under which a status is shared.
pub open spec fn path_of(s: StatusView) -> Seq<char> {
    "/s/"@ + s.author_did + "/"@ + match key_of(s.uri) {
        Some(k) => k,
        None => Seq::empty(),
    }
}

impl StatusFromDb {
    /// The name shown for the author: the handle where it is known, else
    /// the identifier.
    pub fn author_display_name(&self) -> (name: String)
        ensures
            name@ == display_name(self@),
    {
        match &self.handle {
            Some(handle) => handle.clone(),
            None => self.author_did.clone(),
        }
    }

    /// The emoji in words, for contexts that show text only.
    pub fn share_emoji_label(&self) -> (label: String)
        ensures
            label@ == emoji_label(self@.status),
    {
        let status = chars_of(self.status.as_str());
        let prefix = chars_of("custom:");
        if starts_with(&status, &prefix) {
            let mut label = String::new();
            label.push_str(":");
            let name = string_of(&status, prefix.len(), status.len());
            label.push_str(name.as_str());
            label.push_str(":");
            label
        } else {
            self.status.clone()
        }
    }

    /// The text without white space around it, where anything is left.
    pub fn share_caption(&self) -> (c: Option<String>)
        ensures
            opt_view(c) == caption(self@),
    {
        match &self.text {
            Some(t) => {
                let trimmed = trim_chars(&chars_of(t.as_str()));
                if trimmed.len() > 0 {
                    let c = string_of(&trimmed, 0, trimmed.len());
                    Some(c)
                } else {
                    None
                }
            },
            None => None,
        }
    }

    /// The title for link previews: emoji and author.
    pub fn share_title(&self) -> (t: String)
        ensures
            t@ == title(self@),
    {
        let mut t = self.share_emoji_label();
        t.push_str(" @");
        t.push_str(self.author_display_name().as_str());
        t
    }

    /// The description for link previews: the caption where there is one.
    pub fn share_description(&self) -> (d: String)
        ensures
            d@ == description(self@),
    {
        match self.share_caption() {
            Some(c) => c,
            None => {
                let mut d = self.author_display_name();
                d.push_str(" shared a status");
                d
            },
        }
    }

    /// The text for copying and sharing: title, and caption where there is
    /// one.
    pub fn share_text(&self) -> (t: String)
        ensures
            t@ == shared_text(self@),
    {
        let mut t = self.share_title();
        match self.share_caption() {
            Some(c) => {
                t.push_str(" — ");
                t.push_str(c.as_str());
            },
            None => {},
        }
        t
    }

    /// The record key of the status: what follows the last slash of its
    /// URI. `None` where the URI has no slash.
    pub fn record_key(&self) -> (k: Option<String>)
        ensures
            opt_view(k) == key_of(self@.uri),
    {
        let uri = chars_of(self.uri.as_str());
        let mut i: usize = uri.len();
        assert(uri@.take(i as int) =~= uri@);
        while i > 0
            invariant
                i <= uri@.len(),
                uri@ == self@.uri,
                last_sep(uri@, '/') == last_sep(uri@.take(i as int), '/'),
            decreases i,
        {
            assert(uri@.take(i as int).drop_last() =~= uri@.take(i - 1));
            if uri[i - 1] == '/' {
                let k = string_of(&uri, i, uri.len());
                return Some(k);
            }
            i -= 1;
        }
        None
    }

    /// The path under which the status is shared.
    pub fn share_path(&self) -> (p: String)
        ensures
            p@ == path_of(self@),
    {
        let mut p = String::new();
        p.push_str("/s/");
        p.push_str(self.author_did.as_str());
        p.push_str("/");
        match self.record_key() {
            Some(k) => {
                p.push_str(k.as_str());
            },
            None => {
            },
        }
        p
    }
}

/// Whether a query for the statuses of `did`, or of everyone where no
/// author is asked for, keeps row `r`. A query for visible statuses keeps
/// no hidden row.
pub open spec fn kept(r: StatusRowView, did: Option<Seq<char>>, visible_only: bool) -> bool {
    &&& did matches Some(d) ==> r.status.author_did == d
    &&& visible_only ==> !r.hidden
}

/// `order` lists the positions of all kept rows, each once, latest start
/// first. Rows that started at the same time may come in any order.
pub open spec fn ranked(
    rows: Seq<StatusRowView>,
    did: Option<Seq<char>>,
    visible_only: bool,
    order: Seq<int>,
) -> bool {
    &&& forall|k: int|
        0 <= k < order.len() ==> 0 <= #[trigger] order[k] < rows.len() && kept(
            rows[order[k]],
            did,
            visible_only,
        )
    &&& forall|a: int, b: int|
        0 <= a < b < order.len() ==> #[trigger] order[a] != #[trigger] order[b]
    &&& forall|i: int|
        0 <= i < rows.len() && kept(#[trigger] rows[i], did, visible_only) ==> order.contains(i)
    &&& forall|a: int, b: int|
        0 <= a < b < order.len() ==> !rows[#[trigger] order[b]].status.started_at.later_than(
            rows[#[trigger] order[a]].status.started_at,
        )
}

/// The statuses at the positions `order[from..to]`, with the bounds cut to
/// the length of `order`.
pub open spec fn page_of(rows: Seq<StatusRowView>, order: Seq<int>, from: int, to: int) -> Seq<
    StatusView,
> {
    let lo = if from < order.len() { from } else { order.len() as int };
    let hi = if to < lo { lo } else if to < order.len() { to } else { order.len() as int };
    Seq::new((hi - lo) as nat, |k: int| rows[order[lo + k]].status)
}

/// The views of a sequence of statuses.
pub open spec fn status_list(list: Seq<StatusFromDb>) -> Seq<StatusView> {
    Seq::new(list.len(), |i: int| list[i]@)
}

/// The positions of a vector as integers.
pub open spec fn positions(order: Seq<usize>) -> Seq<int> {
    Seq::new(order.len(), |k: int| order[k] as int)
}

impl StatusStore {
    /// The positions of the kept rows, latest start first.
    fn rank(&self, did: Option<&str>, visible_only: bool) -> (order: Vec<usize>)
        ensures
            ranked(self@, opt_str(did), visible_only, positions(order@)),
            forall|k: int| 0 <= k < order@.len() ==> #[trigger] order@[k] < self@.len(),
    {
        let ghost who = opt_str(did);
        let n = self.rows.len();
        let mut order: Vec<usize> = Vec::new();
        let mut i: usize = 0;
        while i < n
            invariant
                i <= n == self.rows@.len(),
                who == opt_str(did),
                forall|k: int|
                    0 <= k < order@.len() ==> 0 <= #[trigger] order@[k] < i && kept(
                        self@[order@[k] as int],
                        who,
                        visible_only,
                    ),
                forall|a: int, b: int|
                    0 <= a < b < order@.len() ==> #[trigger] order@[a] < #[trigger] order@[b],
                forall|r: int|
                    0 <= r < i && kept(#[trigger] self@[r], who, visible_only) ==> exists|k: int|
                        0 <= k < order@.len() && order@[k] == r,
            decreases n - i,
        {
            let row = &self.rows[i];
            let of_author = match did {
                Some(d) => str_eq(row.status.author_did.as_str(), d),
                None => true,
            };
            if of_author && (!visible_only || !row.hidden) {
                let ghost before = order@;
                order.push(i);
                proof {
                    assert forall|r: int|
                        0 <= r < i + 1 && kept(
                            #[trigger] self@[r],
                            who,
                            visible_only,
                        ) implies exists|k: int| 0 <= k < order@.len() && order@[k] == r by {
                        if r < i {
                            let k = choose|k: int| 0 <= k < before.len() && before[k] == r;
                            assert(order@[k] == r);
                        } else {
                            assert(order@[before.len() as int] == r);
                        }
                    }
                }
            }
            i += 1;
        }
        let m = order.len();
        let mut i: usize = 1;
        while i < m
            invariant
                m == order@.len(),
                n == self.rows@.len(),
                1 <= i,
                forall|k: int|
                    0 <= k < m ==> 0 <= #[trigger] order@[k] < n && kept(
                        self@[order@[k] as int],
                        who,
                        visible_only,
                    ),
                forall|a: int, b: int|
                    0 <= a < b < m ==> #[trigger] order@[a] != #[trigger] order@[b],
                forall|r: int|
                    0 <= r < n && kept(#[trigger] self@[r], who, visible_only) ==> exists|k: int|
                        0 <= k < m && order@[k] == r,
                forall|a: int, b: int|
                    0 <= a < b < i && b < m ==> !self@[#[trigger] order@[b] as int].status.started_at.later_than(
                        self@[#[trigger] order@[a] as int].status.started_at,
                    ),
            decreases m - i,
        {
            let mut j: usize = i;
            while j > 0 && self.rows[order[j]].status.started_at.is_after(
                &self.rows[order[j - 1]].status.started_at,
            )
                invariant
                    m == order@.len(),
                    n == self.rows@.len(),
                    j <= i < m,
                    forall|k: int|
                        0 <= k < m ==> 0 <= #[trigger] order@[k] < n && kept(
                            self@[order@[k] as int],
                            who,
                            visible_only,
                        ),
                    forall|a: int, b: int|
                        0 <= a < b < m ==> #[trigger] order@[a] != #[trigger] order@[b],
                    forall|r: int|
                        0 <= r < n && kept(
                            #[trigger] self@[r],
                            who,
                            visible_only,
                        ) ==> exists|k: int| 0 <= k < m && order@[k] == r,
                    forall|a: int, b: int|
                        0 <= a < b <= i && a != j && b != j ==> !self@[#[trigger] order@[b] as int].status.started_at.later_than(
                            self@[#[trigger] order@[a] as int].status.started_at,
                        ),
                    forall|b: int|
                        j < b <= i ==> self@[order@[j as int] as int].status.started_at.later_than(
                            self@[#[trigger] order@[b] as int].status.started_at,
                        ),
                decreases j,
            {
                let ghost before = order@;
                let moved = order[j];
                let passed = order[j - 1];
                order.set(j - 1, moved);
                order.set(j, passed);
                proof {
                    assert forall|r: int|
                        0 <= r < n && kept(
                            #[trigger] self@[r],
                            who,
                            visible_only,
                        ) implies exists|k: int| 0 <= k < m && order@[k] == r by {
                        let k = choose|k: int| 0 <= k < m && before[k] == r;
                        if k == j {
                        } else if k == j - 1 {
                            assert(order@[j as int] == r);
                        } else {
                            assert(order@[k] == r);
                        }
                    }
                    assert forall|b: int| j - 1 < b <= i implies self@[order@[j - 1] as int].status.started_at.later_than(
                        self@[#[trigger] order@[b] as int].status.started_at,
                    ) by {
                        if b > j {
                        }
                    }
                }
                j -= 1;
            }
            i += 1;
        }
        proof {
            let list = positions(order@);
            assert forall|r: int|
                0 <= r < n && kept(#[trigger] self@[r], who, visible_only) implies list.contains(
                r,
            ) by {
                let k = choose|k: int| 0 <= k < m && order@[k] == r;
                assert(list[k] == r);
            }
        }
        order
    }

    /// Copies of the statuses at the positions `order[from..to]`.
    fn page(&self, order: &Vec<usize>, from: usize, to: usize) -> (list: Vec<StatusFromDb>)
        requires
            forall|k: int| 0 <= k < order@.len() ==> #[trigger] order@[k] < self@.len(),
        ensures
            status_list(list@) == page_of(self@, positions(order@), from as int, to as int),
    {
        let len = order.len();
        let lo = if from < len { from } else { len };
        let hi = if to < lo { lo } else if to < len { to } else { len };
        let mut list: Vec<StatusFromDb> = Vec::new();
        let mut k: usize = lo;
        while k < hi
            invariant
                lo <= k <= hi <= len == order@.len(),
                forall|x: int| 0 <= x < order@.len() ==> #[trigger] order@[x] < self@.len(),
                list@.len() == k - lo,
                forall|x: int|
                    0 <= x < k - lo ==> (#[trigger] list@[x])@ == self@[order@[lo + x] as int].status,
            decreases hi - k,
        {
            list.push(self.rows[order[k]].status.duplicate());
            k += 1;
        }
        list
    }
}

impl StatusFromDb {
    /// The statuses of `did`, latest start first, at most `limit`.
    pub fn load_user_statuses(store: &StatusStore, did: &str, limit: usize) -> (list: Vec<Self>)
        ensures
            exists|order: Seq<int>|
                ranked(store@, Some(did@), false, order) && status_list(list@) == page_of(
                    store@,
                    order,
                    0,
                    limit as int,
                ),
    {
        let order = store.rank(Some(did), false);
        let list = store.page(&order, 0, limit);
        list
    }

    /// The ten visible statuses that started last, latest first.
    pub fn load_latest_statuses(store: &StatusStore) -> (list: Vec<Self>)
        ensures
            exists|order: Seq<int>|
                ranked(store@, None, true, order) && status_list(list@) == page_of(
                    store@,
                    order,
                    0,
                    10,
                ),
    {
        let order = store.rank(None, true);
        let list = store.page(&order, 0, 10);
        list
    }

    /// A page of the visible statuses, latest start first: `limit`
    /// statuses after the first `offset`. A negative offset counts as
    /// zero; a negative limit is no limit.
    pub fn load_statuses_paginated(store: &StatusStore, offset: i32, limit: i32) -> (list: Vec<
        Self,
    >)
        ensures
            exists|order: Seq<int>|
                ranked(store@, None, true, order) && status_list(list@) == page_of(
                    store@,
                    order,
                    if offset < 0 { 0 } else { offset as int },
                    if limit < 0 {
                        order.len() as int
                    } else {
                        (if offset < 0 { 0 } else { offset as int }) + limit
                    },
                ),
    {
        let order = store.rank(None, true);
        let from: usize = if offset < 0 { 0 } else { offset as usize };
        let to: usize = if limit < 0 {
            order.len()
        } else if limit as usize > usize::MAX - from {
            usize::MAX
        } else {
            from + limit as usize
        };
        let list = store.page(&order, from, to);
        list
    }
}

} // verus!
