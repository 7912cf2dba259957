//! Webhook subscriptions and the owner-scoped registry that holds them.

use crate::text::{chars_of, opt_str, str_eq, string_of};
use crate::time::now;
use rand::Rng;
use vstd::prelude::*;

verus! {

/// One webhook subscription.
#[derive(Debug, Clone)]
pub struct Webhook {
    pub id: i64,
    pub did: String,
    pub url: String,
    pub secret: String,
    /// Comma-separated event types, or `*` for all of them.
    pub events: String,
    pub active: bool,
    pub created_at: i64,
    pub updated_at: i64,
}

/// The mathematical value of a [`Webhook`].
pub struct WebhookView {
    pub id: i64,
    pub did: Seq<char>,
    pub url: Seq<char>,
    pub secret: Seq<char>,
    pub events: Seq<char>,
    pub active: bool,
    pub created_at: i64,
    pub updated_at: i64,
}

impl View for Webhook {
    type V = WebhookView;

    open spec fn view(&self) -> WebhookView {
        WebhookView {
            id: self.id,
            did: self.did@,
            url: self.url@,
            secret: self.secret@,
            events: self.events@,
            active: self.active,
            created_at: self.created_at,
            updated_at: self.updated_at,
        }
    }
}

/// The four asterisks that stand for the hidden part of a secret.
pub open spec fn mask() -> Seq<char> {
    seq!['*', '*', '*', '*']
}

/// The masked form of a secret: the mask, followed by the last four
/// characters of a secret that has more than four.
pub open spec fn masked(secret: Seq<char>) -> Seq<char> {
    if secret.len() <= 4 {
        mask()
    } else {
        mask() + secret.skip(secret.len() - 4)
    }
}

/// Whether `c` is an ASCII letter or digit.
pub open spec fn is_alphanumeric(c: char) -> bool {
    ('a' <= c && c <= 'z') || ('A' <= c && c <= 'Z') || ('0' <= c && c <= '9')
}

/// Whether `s` is a string of `len` ASCII letters and digits.
pub open spec fn is_token(s: Seq<char>, len: int) -> bool {
    s.len() == len && forall|i: int| 0 <= i < s.len() ==> is_alphanumeric(#[trigger] s[i])
}

/// Length of a generated secret.
pub const SECRET_LEN: usize = 40;

impl Webhook {
    /// The current time in whole seconds since the Unix epoch.
    pub fn now() -> i64 {
        now().secs
    }

    /// The secret with all but its last four characters hidden.
    pub fn masked_secret(&self) -> (m: String)
        ensures
            m@ == masked(self.secret@),
    {
        let secret = chars_of(self.secret.as_str());
        let stars = chars_of("****");
        proof {
            reveal_strlit("****");
        }
        let len = secret.len();
        let mut m = string_of(&stars, 0, 4);
        if len > 4 {
            let mut i: usize = len - 4;
            while i < len
                invariant
                    4 < len == secret.len(),
                    len - 4 <= i <= len,
                    m@ == mask() + secret@.subrange(len - 4, i as int),
                decreases len - i,
            {
                m.push(secret[i]);
                i += 1;
            }
        }
        m
    }

    /// A copy of this subscription.
    pub fn duplicate(&self) -> (h: Webhook)
        ensures
            h@ == self@,
    {
        Webhook {
            id: self.id,
            did: self.did.clone(),
            url: self.url.clone(),
            secret: self.secret.clone(),
            events: self.events.clone(),
            active: self.active,
            created_at: self.created_at,
            updated_at: self.updated_at,
        }
    }
}

/// Draws `len` characters with `rand`'s `Alphanumeric` distribution from the
/// thread-local generator. Whatever is drawn, the string has `len`
/// characters, each an ASCII letter or digit.
#[verifier::external_body]
pub(crate) fn random_alphanumeric(len: usize) -> (s: String)
    ensures
        is_token(s@, len as int),
{
    rand::thread_rng().sample_iter(&rand::distributions::Alphanumeric).take(len).map(
        char::from,
    ).collect()
}

/// A fresh random secret of forty ASCII letters and digits.
pub fn generate_secret() -> (s: String)
    ensures
        is_token(s@, SECRET_LEN as int),
{
    random_alphanumeric(SECRET_LEN)
}

/// A registry row: a subscription and the time of its last delivery attempt.
#[derive(Debug, Clone)]
pub struct Subscription {
    pub hook: Webhook,
    pub last_delivery_at: Option<i64>,
}

/// The mathematical value of a [`Subscription`].
pub struct SubscriptionView {
    pub hook: WebhookView,
    pub last_delivery_at: Option<i64>,
}

impl View for Subscription {
    type V = SubscriptionView;

    open spec fn view(&self) -> SubscriptionView {
        SubscriptionView { hook: self.hook@, last_delivery_at: self.last_delivery_at }
    }
}

impl Subscription {
    /// A copy of this row.
    pub fn duplicate(&self) -> (s: Subscription)
        ensures
            s@ == self@,
    {
        Subscription { hook: self.hook.duplicate(), last_delivery_at: self.last_delivery_at }
    }
}

/// Why a registry operation was refused.
#[derive(Debug, Clone, Copy, PartialEq, Eq, Structural)]
pub enum RegistryError {
    /// No subscription with that id belongs to the caller. The same answer
    /// is given whether the id is unknown or belongs to someone else.
    NotFound,
    /// No identifier is left for a new subscription.
    Full,
}

/// The mathematical value of a [`WebhookRegistry`]: its rows in order of
/// creation, and the identifier that the next new row gets.
pub struct RegistryView {
    pub rows: Seq<SubscriptionView>,
    pub next_id: i64,
}

/// The views of a sequence of rows.
pub open spec fn row_views(rows: Seq<Subscription>) -> Seq<SubscriptionView> {
    Seq::new(rows.len(), |i: int| rows[i]@)
}

/// The views of a sequence of subscriptions.
pub open spec fn hook_views(hooks: Seq<Webhook>) -> Seq<WebhookView> {
    Seq::new(hooks.len(), |i: int| hooks[i]@)
}

/// Identifiers are positive, below `next_id`, and grow along the rows.
pub open spec fn well_formed(m: RegistryView) -> bool {
    &&& 1 <= m.next_id
    &&& forall|i: int| 0 <= i < m.rows.len() ==> 1 <= (#[trigger] m.rows[i]).hook.id < m.next_id
    &&& forall|i: int, j: int|
        0 <= i < j < m.rows.len() ==> (#[trigger] m.rows[i]).hook.id < (
        #[trigger] m.rows[j]).hook.id
}

/// Row `i` has identifier `id` and belongs to `did`.
pub open spec fn owns(rows: Seq<SubscriptionView>, i: int, did: Seq<char>, id: i64) -> bool {
    0 <= i < rows.len() && rows[i].hook.id == id && rows[i].hook.did == did
}

/// The position of the row with identifier `id` that belongs to `did`.
pub open spec fn find(rows: Seq<SubscriptionView>, did: Seq<char>, id: i64) -> Option<int> {
    if exists|i: int| owns(rows, i, did, id) {
        Some(choose|i: int| owns(rows, i, did, id))
    } else {
        None
    }
}

/// The subscriptions of `did`, newest first.
pub open spec fn owned_by(rows: Seq<SubscriptionView>, did: Seq<char>) -> Seq<WebhookView> {
    rows.filter(|r: SubscriptionView| r.hook.did == did).map_values(
        |r: SubscriptionView| r.hook,
    ).reverse()
}

/// The row that a new subscription starts as.
pub open spec fn new_row(
    id: i64,
    did: Seq<char>,
    url: Seq<char>,
    secret: Seq<char>,
    events: Seq<char>,
    now: i64,
) -> SubscriptionView {
    SubscriptionView {
        hook: WebhookView {
            id,
            did,
            url,
            secret,
            events,
            active: true,
            created_at: now,
            updated_at: now,
        },
        last_delivery_at: None,
    }
}

/// The registry after a subscription was added, where an identifier is left.
pub open spec fn inserted(
    m: RegistryView,
    did: Seq<char>,
    url: Seq<char>,
    secret: Seq<char>,
    events: Seq<char>,
    now: i64,
) -> RegistryView {
    if m.next_id < i64::MAX {
        RegistryView {
            rows: m.rows.push(new_row(m.next_id, did, url, secret, events, now)),
            next_id: (m.next_id + 1) as i64,
        }
    } else {
        m
    }
}

/// A row with the supplied fields replaced and its update time set.
pub open spec fn patched(
    row: SubscriptionView,
    url: Option<Seq<char>>,
    events: Option<Seq<char>>,
    active: Option<bool>,
    now: i64,
) -> SubscriptionView {
    SubscriptionView {
        hook: WebhookView {
            url: match url {
                Some(u) => u,
                None => row.hook.url,
            },
            events: match events {
                Some(e) => e,
                None => row.hook.events,
            },
            active: match active {
                Some(a) => a,
                None => row.hook.active,
            },
            updated_at: now,
            ..row.hook
        },
        ..row
    }
}

/// The registry after `did` changed its subscription `id`; unchanged where
/// `did` owns no such subscription.
pub open spec fn updated(
    m: RegistryView,
    did: Seq<char>,
    id: i64,
    url: Option<Seq<char>>,
    events: Option<Seq<char>>,
    active: Option<bool>,
    now: i64,
) -> RegistryView {
    match find(m.rows, did, id) {
        Some(i) => RegistryView {
            rows: m.rows.update(i, patched(m.rows[i], url, events, active, now)),
            ..m
        },
        None => m,
    }
}

/// A row with a new secret and its update time set.
pub open spec fn resecured(row: SubscriptionView, secret: Seq<char>, now: i64) -> SubscriptionView {
    SubscriptionView { hook: WebhookView { secret, updated_at: now, ..row.hook }, ..row }
}

/// The registry after `did` replaced the secret of its subscription `id`;
/// unchanged where `did` owns no such subscription.
pub open spec fn rotated(
    m: RegistryView,
    did: Seq<char>,
    id: i64,
    secret: Seq<char>,
    now: i64,
) -> RegistryView {
    match find(m.rows, did, id) {
        Some(i) => RegistryView { rows: m.rows.update(i, resecured(m.rows[i], secret, now)), ..m },
        None => m,
    }
}

/// The registry after `did` removed its subscription `id`; unchanged where
/// `did` owns no such subscription.
pub open spec fn deleted(m: RegistryView, did: Seq<char>, id: i64) -> RegistryView {
    match find(m.rows, did, id) {
        Some(i) => RegistryView { rows: m.rows.remove(i), ..m },
        None => m,
    }
}

/// When subscription `id` of `did` was last changed; zero where `did` owns
/// no such subscription.
pub open spec fn update_time(m: RegistryView, did: Seq<char>, id: i64) -> i64 {
    match find(m.rows, did, id) {
        Some(i) => m.rows[i].hook.updated_at,
        None => 0,
    }
}

/// The position of the row with identifier `id`, whoever owns it.
pub open spec fn find_id(rows: Seq<SubscriptionView>, id: i64) -> Option<int> {
    if exists|i: int| 0 <= i < rows.len() && rows[i].hook.id == id {
        Some(choose|i: int| 0 <= i < rows.len() && rows[i].hook.id == id)
    } else {
        None
    }
}

/// The registry after a delivery to subscription `id` was attempted at
/// `at`; unchanged where there is no such subscription.
pub open spec fn marked(m: RegistryView, id: i64, at: i64) -> RegistryView {
    match find_id(m.rows, id) {
        Some(i) => RegistryView {
            rows: m.rows.update(
                i,
                SubscriptionView { last_delivery_at: Some(at), ..m.rows[i] },
            ),
            ..m
        },
        None => m,
    }
}

/// In a well-formed registry a row is found at the one place where it is.
pub proof fn lemma_find_at(rows: Seq<SubscriptionView>, next_id: i64, did: Seq<char>, id: i64, k: int)
    requires
        well_formed(RegistryView { rows, next_id }),
        owns(rows, k, did, id),
    ensures
        find(rows, did, id) == Some(k),
        find_id(rows, id) == Some(k),
{
    let i = choose|i: int| owns(rows, i, did, id);
    if i < k {
    } else if k < i {
    }
    let j = choose|j: int| 0 <= j < rows.len() && rows[j].hook.id == id;
    if j < k {
    } else if k < j {
    }
}

/// The webhook subscriptions of all owners.
pub struct WebhookRegistry {
    rows: Vec<Subscription>,
    next_id: i64,
}

impl View for WebhookRegistry {
    type V = RegistryView;

    closed spec fn view(&self) -> RegistryView {
        RegistryView { rows: row_views(self.rows@), next_id: self.next_id }
    }
}

impl WebhookRegistry {
    /// The registry's invariant: see [`well_formed`].
    pub open spec fn wf(&self) -> bool {
        well_formed(self@)
    }

    /// A registry without subscriptions.
    pub fn new() -> (reg: WebhookRegistry)
        ensures
            reg@ == (RegistryView { rows: Seq::empty(), next_id: 1 }),
            reg.wf(),
    {
        let reg = WebhookRegistry { rows: Vec::new(), next_id: 1 };
        assert(row_views(reg.rows@) =~= Seq::empty());
        reg
    }

    /// The number of subscriptions.
    pub fn len(&self) -> (n: usize)
        ensures
            n == self@.rows.len(),
    {
        self.rows.len()
    }

    /// A copy of row `i`.
    pub fn row(&self, i: usize) -> (r: Option<Subscription>)
        ensures
            match r {
                Some(s) => i < self@.rows.len() && s@ == self@.rows[i as int],
                None => i >= self@.rows.len(),
            },
    {
        if i < self.rows.len() {
            Some(self.rows[i].duplicate())
        } else {
            None
        }
    }

    /// The position of the row with identifier `id`, whoever owns it.
    fn position(&self, id: i64) -> (r: Option<usize>)
        ensures
            match r {
                Some(k) => k < self.rows@.len() && self.rows@[k as int].hook.id == id,
                None => forall|i: int| 0 <= i < self.rows@.len() ==> self.rows@[i].hook.id != id,
            },
    {
        let mut i: usize = 0;
        while i < self.rows.len()
            invariant
                i <= self.rows@.len(),
                forall|k: int| 0 <= k < i ==> self.rows@[k].hook.id != id,
            decreases self.rows@.len() - i,
        {
            if self.rows[i].hook.id == id {
                return Some(i);
            }
            i += 1;
        }
        None
    }

    /// The position of the row with identifier `id` that belongs to `did`.
    fn locate(&self, did: &str, id: i64) -> (r: Option<usize>)
        requires
            self.wf(),
        ensures
            match r {
                Some(k) => owns(self@.rows, k as int, did@, id) && find(self@.rows, did@, id)
                    == Some(k as int) && find_id(self@.rows, id) == Some(k as int),
                None => find(self@.rows, did@, id) is None,
            },
    {
        match self.position(id) {
            Some(k) => {
                if str_eq(self.rows[k].hook.did.as_str(), did) {
                    proof {
                        lemma_find_at(self@.rows, self@.next_id, did@, id, k as int);
                    }
                    Some(k)
                } else {
                    proof {
                        if exists|i: int| owns(self@.rows, i, did@, id) {
                            let i = choose|i: int| owns(self@.rows, i, did@, id);
                            lemma_find_at(self@.rows, self@.next_id, did@, id, i);
                            lemma_find_at(
                                self@.rows,
                                self@.next_id,
                                self@.rows[k as int].hook.did,
                                id,
                                k as int,
                            );
                        }
                    }
                    None
                }
            },
            None => None,
        }
    }
}

impl WebhookRegistry {
    /// A registry holding the given rows, which must come with positive,
    /// strictly growing identifiers.
    pub fn load(rows: Vec<Subscription>) -> (r: Option<WebhookRegistry>)
        ensures
            match r {
                Some(reg) => reg@.rows == row_views(rows@) && reg.wf() && (rows@.len() == 0
                    ==> reg@.next_id == 1) && (rows@.len() > 0 ==> reg@.next_id == rows@.last().hook.id
                    + 1),
                None => !exists|next_id: i64|
                    well_formed(RegistryView { rows: row_views(rows@), next_id }),
            },
    {
        let n = rows.len();
        let mut last: i64 = 0;
        let mut i: usize = 0;
        let ghost views = row_views(rows@);
        while i < n
            invariant
                i <= n == rows@.len(),
                views == row_views(rows@),
                0 <= last,
                i == 0 ==> last == 0,
                i > 0 ==> last == views[i - 1].hook.id,
                forall|k: int| 0 <= k < i ==> 1 <= (#[trigger] views[k]).hook.id <= last,
                forall|k: int, l: int|
                    0 <= k < l < i ==> (#[trigger] views[k]).hook.id < (#[trigger] views[l]).hook.id,
            decreases n - i,
        {
            let id = rows[i].hook.id;
            if id <= last {
                proof {
                    assert forall|next_id: i64|
                        !well_formed(RegistryView { rows: views, next_id }) by {
                        let m = RegistryView { rows: views, next_id };
                        if well_formed(m) {
                            if i > 0 {
                                assert(m.rows[i - 1].hook.id < m.rows[i as int].hook.id);
                            }
                        }
                    }
                }
                return None;
            }
            last = id;
            i += 1;
        }
        if last == i64::MAX {
            return None;
        }
        Some(WebhookRegistry { rows, next_id: last + 1 })
    }

    /// Records that a delivery to subscription `id` was attempted at `at`.
    pub fn mark_delivery(&mut self, id: i64, at: i64)
        requires
            old(self).wf(),
        ensures
            final(self).wf(),
            final(self)@ == marked(old(self)@, id, at),
    {
        match self.position(id) {
            Some(k) => {
                let ghost before = self@;
                proof {
                    lemma_find_at(before.rows, before.next_id, before.rows[k as int].hook.did, id, k as int);
                }
                let mut row = self.rows[k].duplicate();
                row.last_delivery_at = Some(at);
                self.rows.set(k, row);
                proof {
                    assert(self@.rows =~= before.rows.update(
                        k as int,
                        SubscriptionView { last_delivery_at: Some(at), ..before.rows[k as int] },
                    ));
                }
            },
            None => {},
        }
    }
}

/// The subscriptions of `did`, newest first.
pub fn get_user_webhooks(reg: &WebhookRegistry, did: &str) -> (hooks: Vec<Webhook>)
    requires
        reg.wf(),
    ensures
        hook_views(hooks@) == owned_by(reg@.rows, did@),
{
    let ghost rows = reg@.rows;
    let ghost mine = |r: SubscriptionView| r.hook.did == did@;
    let ghost hook_of = |r: SubscriptionView| r.hook;
    let n = reg.rows.len();
    let mut found: Vec<Webhook> = Vec::new();
    let mut i: usize = 0;
    proof {
        rows.take(0).lemma_filter_len(mine);
    }
    while i < n
        invariant
            i <= n == reg.rows@.len(),
            rows == reg@.rows,
            mine == |r: SubscriptionView| r.hook.did == did@,
            hook_of == |r: SubscriptionView| r.hook,
            hook_views(found@) == rows.take(i as int).filter(mine).map_values(hook_of),
        decreases n - i,
    {
        proof {
            assert(rows.take(i + 1) =~= rows.take(i as int).push(rows[i as int]));
            rows.take(i as int).lemma_filter_push(rows[i as int], mine);
        }
        if str_eq(reg.rows[i].hook.did.as_str(), did) {
            let h = reg.rows[i].hook.duplicate();
            proof {
                let kept = rows.take(i as int).filter(mine);
                assert(kept.push(rows[i as int]).map_values(hook_of) =~= kept.map_values(
                    hook_of,
                ).push(hook_of(rows[i as int])));
            }
            found.push(h);
        }
        i += 1;
    }
    assert(rows.take(n as int) =~= rows);
    let m = found.len();
    let mut hooks: Vec<Webhook> = Vec::new();
    let mut j: usize = m;
    while j > 0
        invariant
            j <= m == found@.len(),
            hooks@.len() == m - j,
            forall|k: int| 0 <= k < hooks@.len() ==> hooks@[k]@ == found@[m - 1 - k]@,
        decreases j,
    {
        j -= 1;
        hooks.push(found[j].duplicate());
    }
    hooks
}

/// Adds a subscription of `did` with the given secret, created at `now`.
pub fn insert_webhook(
    reg: &mut WebhookRegistry,
    did: &str,
    url: &str,
    secret: &str,
    events: &str,
    now: i64,
) -> (r: Result<i64, RegistryError>)
    requires
        old(reg).wf(),
    ensures
        final(reg).wf(),
        final(reg)@ == inserted(old(reg)@, did@, url@, secret@, events@, now),
        match r {
            Ok(id) => old(reg)@.next_id < i64::MAX && id == old(reg)@.next_id,
            Err(e) => old(reg)@.next_id == i64::MAX && e == RegistryError::Full,
        },
{
    if reg.next_id == i64::MAX {
        return Err(RegistryError::Full);
    }
    let id = reg.next_id;
    let row = Subscription {
        hook: Webhook {
            id,
            did: did.to_owned(),
            url: url.to_owned(),
            secret: secret.to_owned(),
            events: events.to_owned(),
            active: true,
            created_at: now,
            updated_at: now,
        },
        last_delivery_at: None,
    };
    let ghost before = reg@;
    reg.rows.push(row);
    reg.next_id = id + 1;
    proof {
        assert(reg@.rows =~= before.rows.push(new_row(id, did@, url@, secret@, events@, now)));
    }
    Ok(id)
}

/// The event filter of a new subscription: the one given, or `*`.
pub open spec fn events_or_all(events: Option<Seq<char>>) -> Seq<char> {
    match events {
        Some(e) => e,
        None => seq!['*'],
    }
}

/// Adds a subscription of `did`. Without a secret a fresh one is generated.
/// Returns the new identifier and the secret in plain text.
pub fn create_webhook(
    reg: &mut WebhookRegistry,
    did: &str,
    url: &str,
    secret_opt: Option<&str>,
    events: Option<&str>,
) -> (r: Result<(i64, String), RegistryError>)
    requires
        old(reg).wf(),
    ensures
        final(reg).wf(),
        match r {
            Ok((id, secret)) => {
                &&& old(reg)@.next_id < i64::MAX
                &&& id == old(reg)@.next_id
                &&& match secret_opt {
                    Some(s) => secret@ == s@,
                    None => is_token(secret@, SECRET_LEN as int),
                }
                &&& final(reg)@ == inserted(
                    old(reg)@,
                    did@,
                    url@,
                    secret@,
                    events_or_all(opt_str(events)),
                    final(reg)@.rows.last().hook.created_at,
                )
            },
            Err(e) => old(reg)@.next_id == i64::MAX && e == RegistryError::Full && final(reg)@
                == old(reg)@,
        },
{
    let secret = match secret_opt {
        Some(s) => s.to_owned(),
        None => generate_secret(),
    };
    let now = Webhook::now();
    let filter = match events {
        Some(e) => e,
        None => {
            proof {
                reveal_strlit("*");
                assert("*"@ =~= seq!['*']);
            }
            "*"
        },
    };
    match insert_webhook(reg, did, url, secret.as_str(), filter, now) {
        Ok(id) => Ok((id, secret)),
        Err(e) => Err(e),
    }
}

/// Changes the supplied fields of subscription `id` of `did` at `now`.
pub fn update_webhook_at(
    reg: &mut WebhookRegistry,
    did: &str,
    id: i64,
    url: Option<&str>,
    events: Option<&str>,
    active: Option<bool>,
    now: i64,
) -> (r: Result<(), RegistryError>)
    requires
        old(reg).wf(),
    ensures
        final(reg).wf(),
        final(reg)@ == updated(old(reg)@, did@, id, opt_str(url), opt_str(events), active, now),
        r is Ok <==> find(old(reg)@.rows, did@, id) is Some,
        r matches Err(e) ==> e == RegistryError::NotFound,
{
    match reg.locate(did, id) {
        Some(k) => {
            let ghost before = reg@;
            let mut row = reg.rows[k].duplicate();
            match url {
                Some(u) => {
                    row.hook.url = u.to_owned();
                },
                None => {},
            }
            match events {
                Some(e) => {
                    row.hook.events = e.to_owned();
                },
                None => {},
            }
            match active {
                Some(a) => {
                    row.hook.active = a;
                },
                None => {},
            }
            row.hook.updated_at = now;
            reg.rows.set(k, row);
            proof {
                assert(reg@.rows =~= before.rows.update(
                    k as int,
                    patched(before.rows[k as int], opt_str(url), opt_str(events), active, now),
                ));
            }
            Ok(())
        },
        None => Err(RegistryError::NotFound),
    }
}

/// Changes the supplied fields of subscription `id` of `did`, and sets its
/// update time to the current time. A subscription that `did` does not own
/// is reported as not found, whether or not it exists.
pub fn update_webhook(
    reg: &mut WebhookRegistry,
    did: &str,
    id: i64,
    url: Option<&str>,
    events: Option<&str>,
    active: Option<bool>,
) -> (r: Result<(), RegistryError>)
    requires
        old(reg).wf(),
    ensures
        final(reg).wf(),
        r is Ok <==> find(old(reg)@.rows, did@, id) is Some,
        r matches Err(e) ==> e == RegistryError::NotFound && final(reg)@ == old(reg)@,
        final(reg)@ == updated(
            old(reg)@,
            did@,
            id,
            opt_str(url),
            opt_str(events),
            active,
            update_time(final(reg)@, did@, id),
        ),
{
    let now = Webhook::now();
    let r = update_webhook_at(reg, did, id, url, events, active, now);
    proof {
        if r is Ok {
            let k = find(old(reg)@.rows, did@, id)->0;
            lemma_find_at(old(reg)@.rows, old(reg)@.next_id, did@, id, k);
            lemma_find_at(reg@.rows, reg@.next_id, did@, id, k);
        }
    }
    r
}

/// Replaces the secret of subscription `id` of `did` at `now`.
pub fn replace_secret(reg: &mut WebhookRegistry, did: &str, id: i64, secret: &str, now: i64) -> (r:
    Result<(), RegistryError>)
    requires
        old(reg).wf(),
    ensures
        final(reg).wf(),
        final(reg)@ == rotated(old(reg)@, did@, id, secret@, now),
        r is Ok <==> find(old(reg)@.rows, did@, id) is Some,
        r matches Err(e) ==> e == RegistryError::NotFound,
{
    match reg.locate(did, id) {
        Some(k) => {
            let ghost before = reg@;
            let mut row = reg.rows[k].duplicate();
            row.hook.secret = secret.to_owned();
            row.hook.updated_at = now;
            reg.rows.set(k, row);
            proof {
                assert(reg@.rows =~= before.rows.update(
                    k as int,
                    resecured(before.rows[k as int], secret@, now),
                ));
            }
            Ok(())
        },
        None => Err(RegistryError::NotFound),
    }
}

/// Gives subscription `id` of `did` a fresh secret and returns it. From then
/// on the subscription holds the new secret only. A subscription that `did`
/// does not own is reported as not found, whether or not it exists.
pub fn rotate_webhook_secret(reg: &mut WebhookRegistry, did: &str, id: i64) -> (r: Result<
    String,
    RegistryError,
>)
    requires
        old(reg).wf(),
    ensures
        final(reg).wf(),
        r is Ok <==> find(old(reg)@.rows, did@, id) is Some,
        r matches Err(e) ==> e == RegistryError::NotFound && final(reg)@ == old(reg)@,
        r matches Ok(secret) ==> is_token(secret@, SECRET_LEN as int),
        r matches Ok(secret) ==> final(reg)@ == rotated(
            old(reg)@,
            did@,
            id,
            secret@,
            update_time(final(reg)@, did@, id),
        ),
{
    let secret = generate_secret();
    let now = Webhook::now();
    match replace_secret(reg, did, id, secret.as_str(), now) {
        Ok(()) => {
            proof {
                let k = find(old(reg)@.rows, did@, id)->0;
                lemma_find_at(old(reg)@.rows, old(reg)@.next_id, did@, id, k);
                lemma_find_at(reg@.rows, reg@.next_id, did@, id, k);
            }
            Ok(secret)
        },
        Err(e) => Err(e),
    }
}

/// Removes subscription `id` of `did`, and says whether there was one.
/// Removing what is not there, or what belongs to someone else, changes
/// nothing.
pub fn delete_webhook(reg: &mut WebhookRegistry, did: &str, id: i64) -> (removed: bool)
    requires
        old(reg).wf(),
    ensures
        final(reg).wf(),
        final(reg)@ == deleted(old(reg)@, did@, id),
        removed == find(old(reg)@.rows, did@, id) is Some,
{
    match reg.locate(did, id) {
        Some(k) => {
            let ghost before = reg@;
            reg.rows.remove(k);
            proof {
                assert(reg@.rows =~= before.rows.remove(k as int));
            }
            true
        },
        None => false,
    }
}

/// The masked form of a secret shows nothing but the last four characters:
/// two secrets of more than four characters that end alike are masked
/// alike, and so are any two secrets of at most four characters. The
/// masked form never has more than eight characters.
pub proof fn lemma_mask_hides_secret(a: Seq<char>, b: Seq<char>)
    ensures
        a.len() <= 4 && b.len() <= 4 ==> masked(a) == masked(b),
        a.len() > 4 && b.len() > 4 && a.skip(a.len() - 4) == b.skip(b.len() - 4) ==> masked(a)
            == masked(b),
        masked(a).len() <= 8,
        masked(a).take(4) == mask(),
        a.len() > 4 ==> masked(a).skip(4) == a.skip(a.len() - 4),
{
    if a.len() > 4 {
    }
}

/// A change, a rotation or a removal asked for by someone who does not own
/// the subscription leaves the registry as it is, whether the subscription
/// exists or not: the two cases cannot be told apart.
pub proof fn lemma_not_owner_changes_nothing(
    m: RegistryView,
    did: Seq<char>,
    id: i64,
    url: Option<Seq<char>>,
    events: Option<Seq<char>>,
    active: Option<bool>,
    secret: Seq<char>,
    now: i64,
)
    requires
        forall|i: int| 0 <= i < m.rows.len() && m.rows[i].hook.id == id ==> m.rows[i].hook.did != did,
    ensures
        find(m.rows, did, id) is None,
        updated(m, did, id, url, events, active, now) == m,
        rotated(m, did, id, secret, now) == m,
        deleted(m, did, id) == m,
{
}

/// Removal is idempotent: removing a subscription a second time changes
/// nothing. Removal touches no other subscription.
pub proof fn lemma_delete_idempotent(m: RegistryView, did: Seq<char>, id: i64)
    requires
        well_formed(m),
    ensures
        well_formed(deleted(m, did, id)),
        find(deleted(m, did, id).rows, did, id) is None,
        deleted(deleted(m, did, id), did, id) == deleted(m, did, id),
{
    match find(m.rows, did, id) {
        Some(k) => {
        },
        None => {
        },
    }
}

/// After a rotation the subscription holds the new secret and no other: the
/// secret it had before is gone from the registry row.
pub proof fn lemma_rotation_replaces_secret(
    m: RegistryView,
    did: Seq<char>,
    id: i64,
    secret: Seq<char>,
    now: i64,
)
    requires
        well_formed(m),
        find(m.rows, did, id) is Some,
    ensures
        well_formed(rotated(m, did, id, secret, now)),
        find(rotated(m, did, id, secret, now).rows, did, id) == find(m.rows, did, id),
        rotated(m, did, id, secret, now).rows[find(m.rows, did, id)->0].hook.secret == secret,
        forall|i: int|
            0 <= i < m.rows.len() && i != find(m.rows, did, id)->0 ==> rotated(
                m,
                did,
                id,
                secret,
                now,
            ).rows[i] == m.rows[i],
{
    let k = find(m.rows, did, id)->0;
    let after = rotated(m, did, id, secret, now);
    lemma_find_at(after.rows, after.next_id, did, id, k);
}

/// Whether `did` owns subscription `id`.
pub fn owns_subscription(reg: &WebhookRegistry, did: &str, id: i64) -> (b: bool)
    requires
        reg.wf(),
    ensures
        b == find(reg@.rows, did@, id) is Some,
{
    reg.locate(did, id).is_some()
}

} // verus!
