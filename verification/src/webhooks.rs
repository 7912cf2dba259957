//! Outbound notification: which subscriptions an event goes to, how a
//! delivery is signed, and what is sent.

use crate::db::models::{StatusFromDb, StatusView};
use crate::db::webhooks::{
    get_user_webhooks, hook_views, is_token, marked, owned_by, random_alphanumeric, Webhook,
    WebhookRegistry, WebhookView,
};
use crate::ledger::{
    pending, recorded, AttemptView, DeliveryLedger, DeliveryOutcome, DeliveryState, LedgerError,
};
use crate::text::{
    chars_eq_ignore_case, chars_of, decimal, eq_ignore_case, i64_to_decimal, opt_ref, opt_str,
    split, split_chars, trim, trim_chars, views,
};
use crate::time::{format_rfc3339, now, rfc3339_text, Timestamp};
use hmac::Mac;
use vstd::prelude::*;
use vstd::string::StringSliceAdditionalSpecFns;
use vstd::utf8::encode_utf8;

verus! {

/// What happened to a status, as told to subscribers.
#[derive(Debug, Clone, Copy)]
pub struct StatusEvent<'a> {
    /// The event type: `status.created` or `status.deleted`.
    pub event: &'a str,
    pub did: &'a str,
    pub handle: Option<&'a str>,
    pub status: Option<&'a str>,
    pub text: Option<&'a str>,
    pub uri: Option<&'a str>,
    pub since: Option<&'a str>,
    pub expires: Option<&'a str>,
}

/// The mathematical value of a [`StatusEvent`].
pub struct StatusEventView {
    pub event: Seq<char>,
    pub did: Seq<char>,
    pub handle: Option<Seq<char>>,
    pub status: Option<Seq<char>>,
    pub text: Option<Seq<char>>,
    pub uri: Option<Seq<char>>,
    pub since: Option<Seq<char>>,
    pub expires: Option<Seq<char>>,
}

impl<'a> View for StatusEvent<'a> {
    type V = StatusEventView;

    open spec fn view(&self) -> StatusEventView {
        StatusEventView {
            event: self.event@,
            did: self.did@,
            handle: opt_str(self.handle),
            status: opt_str(self.status),
            text: opt_str(self.text),
            uri: opt_str(self.uri),
            since: opt_str(self.since),
            expires: opt_str(self.expires),
        }
    }
}

/// Whether an event filter lets events of type `event` through: the
/// wildcard lets every type through, any other filter is a comma-separated
/// list and lets through the types that it names, whatever the case of
/// their ASCII letters. A blank filter names no event type.
pub open spec fn filter_matches(events: Seq<char>, event: Seq<char>) -> bool {
    let filter = trim(events);
    let tokens = split(filter, ',');
    ||| filter == seq!['*']
    ||| exists|i: int| 0 <= i < tokens.len() && eq_ignore_case(trim(#[trigger] tokens[i]), event)
}

/// Whether subscription `h` is to be told of events of type `event`.
pub open spec fn wants(h: WebhookView, event: Seq<char>) -> bool {
    h.active && filter_matches(h.events, event)
}

/// Decides whether subscription `h` is to be told of events of type `event`.
pub fn should_send(h: &Webhook, event: &str) -> (b: bool)
    ensures
        b == wants(h@, event@),
{
    if !h.active {
        return false;
    }
    let raw = chars_of(h.events.as_str());
    let filter = trim_chars(&raw);
    if filter.len() == 1 && filter[0] == '*' {
        assert(filter@ =~= seq!['*']);
        return true;
    }
    let wanted = chars_of(event);
    let tokens = split_chars(&filter, ',');
    let ghost pieces = split(filter@, ',');
    let mut i: usize = 0;
    while i < tokens.len()
        invariant
            i <= tokens@.len(),
            h.active,
            wanted@ == event@,
            filter@ == trim(h@.events),
            pieces == split(filter@, ','),
            views(tokens@) == pieces,
            forall|k: int| 0 <= k < i ==> !eq_ignore_case(trim(#[trigger] pieces[k]), wanted@),
        decreases tokens@.len() - i,
    {
        let token = trim_chars(&tokens[i]);
        if chars_eq_ignore_case(&token, &wanted) {
            assert(eq_ignore_case(trim(pieces[i as int]), wanted@));
            return true;
        }
        i += 1;
    }
    false
}

/// The HMAC-SHA256 tag of `message` under `key`, as the `hmac` and `sha2`
/// crates compute it.
pub uninterp spec fn hmac_sha256(key: Seq<u8>, message: Seq<u8>) -> Seq<u8>;

/// The lower-case hexadecimal digit for a value below sixteen.
pub open spec fn hex_digit(n: int) -> char {
    if n < 10 {
        ((48 + n) as u8) as char
    } else {
        ((87 + n) as u8) as char
    }
}

/// Two lower-case hexadecimal digits for each byte, high digit first.
pub open spec fn hex_lower(bytes: Seq<u8>) -> Seq<char> {
    Seq::new(
        2 * bytes.len(),
        |i: int|
            if i % 2 == 0 {
                hex_digit(bytes[i / 2] as int / 16)
            } else {
                hex_digit(bytes[i / 2] as int % 16)
            },
    )
}

/// The bytes that are signed: the timestamp, a full stop, and the payload.
pub open spec fn signing_input(ts: Seq<u8>, payload: Seq<u8>) -> Seq<u8> {
    ts + seq![0x2eu8] + payload
}

/// The signature of `payload` sent at `ts` under `secret`: the HMAC-SHA256
/// tag of the signing input, keyed with the secret's bytes, in hexadecimal.
pub open spec fn signature(secret: Seq<char>, ts: Seq<char>, payload: Seq<u8>) -> Seq<char> {
    hex_lower(hmac_sha256(encode_utf8(secret), signing_input(encode_utf8(ts), payload)))
}

/// Computes an HMAC-SHA256 tag: `Hmac::<Sha256>::new_from_slice` with the
/// key, one `update` with the whole message, then `finalize`. The tag is a
/// function of key and message, and has thirty-two bytes. A key of any
/// length is accepted.
#[verifier::external_body]
fn hmac_sha256_tag(key: &[u8], message: &[u8]) -> (tag: Vec<u8>)
    ensures
        tag@ == hmac_sha256(key@, message@),
        tag@.len() == 32,
{
    let mut mac = hmac::Hmac::<sha2::Sha256>::new_from_slice(key).expect(
        "HMAC can take key of any size",
    );
    mac.update(message);
    mac.finalize().into_bytes().to_vec()
}

/// Calls `hex::encode`, which writes each byte as two lower-case
/// hexadecimal digits.
#[verifier::external_body]
fn hex_encode(bytes: &[u8]) -> (s: String)
    ensures
        s@ == hex_lower(bytes@),
{
    hex::encode(bytes)
}

/// The hexadecimal HMAC-SHA256 signature of `payload` sent at `ts`, keyed
/// with `secret`.
pub fn hmac_sig_hex(secret: &str, ts: &str, payload: &[u8]) -> (sig: String)
    ensures
        sig@ == signature(secret@, ts@, payload@),
        sig@.len() == 64,
{
    let mut message: Vec<u8> = Vec::new();
    message.extend_from_slice(ts.as_bytes());
    message.push(0x2eu8);
    message.extend_from_slice(payload);
    assert(message@ =~= signing_input(ts.spec_bytes(), payload@));
    let tag = hmac_sha256_tag(secret.as_bytes(), message.as_slice());
    hex_encode(tag.as_slice())
}

/// How one character stands inside a JSON string literal: the quote, the
/// backslash and the control characters below U+0020 are escaped, every
/// other character stands for itself.
pub open spec fn json_escape(c: char) -> Seq<char> {
    if c == '"' {
        seq!['\\', '"']
    } else if c == '\\' {
        seq!['\\', '\\']
    } else if c == '\u{8}' {
        seq!['\\', 'b']
    } else if c == '\t' {
        seq!['\\', 't']
    } else if c == '\n' {
        seq!['\\', 'n']
    } else if c == '\u{c}' {
        seq!['\\', 'f']
    } else if c == '\r' {
        seq!['\\', 'r']
    } else if (c as u32) < 0x20 {
        seq![
            '\\',
            'u',
            '0',
            '0',
            hex_digit(c as u32 as int / 16),
            hex_digit(c as u32 as int % 16),
        ]
    } else {
        seq![c]
    }
}

/// The characters of a string as they stand inside a JSON string literal.
pub open spec fn json_escaped(s: Seq<char>) -> Seq<char>
    decreases s.len(),
{
    if s.len() == 0 {
        Seq::empty()
    } else {
        json_escaped(s.drop_last()) + json_escape(s.last())
    }
}

/// The JSON string literal for a string: its escaped characters between
/// two quotes.
pub open spec fn json_string(s: Seq<char>) -> Seq<char> {
    seq!['"'] + json_escaped(s) + seq!['"']
}

/// Calls `serde_json::to_string` on a string slice, which writes a quote,
/// the characters with the quote, the backslash and the control characters
/// below U+0020 escaped, and a quote.
#[verifier::external_body]
fn json_quote(s: &str) -> (r: String)
    ensures
        r@ == json_string(s@),
{
    serde_json::to_string(s).unwrap_or_default()
}

/// The JSON value of an optional string: its literal, or `null`.
pub open spec fn json_opt(o: Option<Seq<char>>) -> Seq<char> {
    match o {
        Some(s) => json_string(s),
        None => "null"@,
    }
}

/// The version tag that every payload carries.
pub const SCHEMA_VERSION: &'static str = "1";

/// The time of an event sent at `ts` seconds after the Unix epoch, as
/// RFC 3339 text; absent where that second has no date.
pub open spec fn event_time(ts: i64) -> Option<Seq<char>> {
    rfc3339_text(ts, 0)
}

/// The wire form of an event sent at `ts`: a JSON object with the event's
/// fields in a fixed order, followed by the time of the event, the event's
/// identifier and the version tag.
pub open spec fn payload_text(e: StatusEventView, event_id: Seq<char>, ts: i64) -> Seq<char> {
    "{\"event\":"@ + json_string(e.event) + ",\"did\":"@ + json_string(e.did) + ",\"handle\":"@
        + json_opt(e.handle) + ",\"status\":"@ + json_opt(e.status) + ",\"text\":"@ + json_opt(
        e.text,
    ) + ",\"uri\":"@ + json_opt(e.uri) + ",\"since\":"@ + json_opt(e.since) + ",\"expires\":"@
        + json_opt(e.expires) + ",\"timestamp\":"@ + json_opt(event_time(ts)) + ",\"id\":"@
        + json_string(event_id) + ",\"version\":"@ + json_string(SCHEMA_VERSION@) + "}"@
}

/// Appends the JSON value of an optional string.
fn push_json_opt(out: &mut String, o: Option<&str>)
    ensures
        final(out)@ == old(out)@ + json_opt(opt_str(o)),
{
    match o {
        Some(s) => {
            let q = json_quote(s);
            out.push_str(q.as_str());
        },
        None => {
            out.push_str("null");
        },
    }
}

/// Writes the wire form of an event sent at `ts`.
pub fn event_payload(event: &StatusEvent, event_id: &str, ts: i64) -> (p: String)
    ensures
        p@ == payload_text(event@, event_id@, ts),
{
    let sent_at = format_rfc3339(Timestamp { secs: ts, nanos: 0 });
    let mut p = String::new();
    assert(p@ + "{\"event\":"@ =~= "{\"event\":"@);
    p.push_str("{\"event\":");
    p.push_str(json_quote(event.event).as_str());
    p.push_str(",\"did\":");
    p.push_str(json_quote(event.did).as_str());
    p.push_str(",\"handle\":");
    push_json_opt(&mut p, event.handle);
    p.push_str(",\"status\":");
    push_json_opt(&mut p, event.status);
    p.push_str(",\"text\":");
    push_json_opt(&mut p, event.text);
    p.push_str(",\"uri\":");
    push_json_opt(&mut p, event.uri);
    p.push_str(",\"since\":");
    push_json_opt(&mut p, event.since);
    p.push_str(",\"expires\":");
    push_json_opt(&mut p, event.expires);
    p.push_str(",\"timestamp\":");
    push_json_opt(&mut p, opt_ref(&sent_at));
    p.push_str(",\"id\":");
    p.push_str(json_quote(event_id).as_str());
    p.push_str(",\"version\":");
    p.push_str(json_quote(SCHEMA_VERSION).as_str());
    p.push_str("}");
    p
}

/// Seconds after which a delivery is given up.
pub const DELIVERY_TIMEOUT_SECS: u64 = 5;

/// Length of an event identifier.
pub const EVENT_ID_LEN: usize = 32;

/// Header that carries the Unix time of the delivery.
pub const TIMESTAMP_HEADER: &'static str = "X-Status-Webhook-Timestamp";

/// Header that carries the event identifier, the receiver's idempotency key.
pub const EVENT_ID_HEADER: &'static str = "X-Status-Webhook-Id";

/// Header that carries the versioned signature.
pub const SIGNATURE_HEADER: &'static str = "X-Signature";

/// One HTTP POST to make: where to, with which headers and body.
#[derive(Debug, Clone)]
pub struct DeliveryRequest {
    /// The ledger row that takes the outcome.
    pub attempt_id: usize,
    pub subscription_id: i64,
    pub url: String,
    /// Value of the timestamp header: Unix seconds in decimal.
    pub timestamp: String,
    /// Value of the event identifier header.
    pub event_id: String,
    /// Value of the signature header: `v1=` and the hexadecimal signature.
    pub signature: String,
    /// The JSON payload.
    pub body: String,
    pub timeout_secs: u64,
}

/// The mathematical value of a [`DeliveryRequest`].
pub struct RequestView {
    pub attempt_id: usize,
    pub subscription_id: i64,
    pub url: Seq<char>,
    pub timestamp: Seq<char>,
    pub event_id: Seq<char>,
    pub signature: Seq<char>,
    pub body: Seq<char>,
    pub timeout_secs: u64,
}

impl View for DeliveryRequest {
    type V = RequestView;

    open spec fn view(&self) -> RequestView {
        RequestView {
            attempt_id: self.attempt_id,
            subscription_id: self.subscription_id,
            url: self.url@,
            timestamp: self.timestamp@,
            event_id: self.event_id@,
            signature: self.signature@,
            body: self.body@,
            timeout_secs: self.timeout_secs,
        }
    }
}

/// The views of a sequence of requests.
pub open spec fn request_views(requests: Seq<DeliveryRequest>) -> Seq<RequestView> {
    Seq::new(requests.len(), |i: int| requests[i]@)
}

/// The request that delivers `payload` to subscription `h` at `ts`, signed
/// with the subscription's own secret.
pub open spec fn request_for(
    h: WebhookView,
    attempt_id: usize,
    event_id: Seq<char>,
    payload: Seq<char>,
    ts: i64,
) -> RequestView {
    RequestView {
        attempt_id,
        subscription_id: h.id,
        url: h.url,
        timestamp: decimal(ts as int),
        event_id,
        signature: "v1="@ + signature(h.secret, decimal(ts as int), encode_utf8(payload)),
        body: payload,
        timeout_secs: DELIVERY_TIMEOUT_SECS,
    }
}

/// Those of `hooks` that are told of events of type `event`, in order.
pub open spec fn recipients(hooks: Seq<WebhookView>, event: Seq<char>) -> Seq<WebhookView> {
    hooks.filter(|h: WebhookView| wants(h, event))
}

/// The requests of one dispatch: one for each recipient, in order, with
/// attempt identifiers counting up from `first_id`.
pub open spec fn planned(
    hooks: Seq<WebhookView>,
    e: StatusEventView,
    event_id: Seq<char>,
    ts: i64,
    first_id: usize,
) -> Seq<RequestView> {
    let to = recipients(hooks, e.event);
    Seq::new(
        to.len(),
        |k: int|
            request_for(
                to[k],
                (first_id + k) as usize,
                event_id,
                payload_text(e, event_id, ts),
                ts,
            ),
    )
}

/// The ledger rows of one dispatch: one pending row for each recipient.
pub open spec fn opened(
    hooks: Seq<WebhookView>,
    e: StatusEventView,
    event_id: Seq<char>,
    ts: i64,
    first_id: usize,
) -> Seq<AttemptView> {
    let to = recipients(hooks, e.event);
    Seq::new(
        to.len(),
        |k: int|
            pending(
                (first_id + k) as usize,
                to[k].id,
                event_id,
                e.event,
                payload_text(e, event_id, ts),
                ts,
            ),
    )
}

/// Plans the deliveries of `event` to those of `hooks` that want it: for
/// each, in order, one pending ledger row and one signed request. The
/// deliveries themselves are the caller's to make; none depends on another.
pub fn dispatch(
    hooks: &Vec<Webhook>,
    event: &StatusEvent,
    event_id: &str,
    ts: i64,
    ledger: &mut DeliveryLedger,
) -> (requests: Vec<DeliveryRequest>)
    requires
        old(ledger).wf(),
    ensures
        final(ledger).wf(),
        request_views(requests@) == planned(
            hook_views(hooks@),
            event@,
            event_id@,
            ts,
            old(ledger)@.len() as usize,
        ),
        final(ledger)@ == old(ledger)@ + opened(
            hook_views(hooks@),
            event@,
            event_id@,
            ts,
            old(ledger)@.len() as usize,
        ),
{
    let payload = event_payload(event, event_id, ts);
    let ts_text = i64_to_decimal(ts);
    let first: usize = ledger.len();
    let ghost all = hook_views(hooks@);
    let ghost pred = |h: WebhookView| wants(h, event@.event);
    let ghost before = old(ledger)@;
    let mut requests: Vec<DeliveryRequest> = Vec::new();
    let n = hooks.len();
    let mut i: usize = 0;
    proof {
        all.take(0).lemma_filter_len(pred);
    }
    while i < n
        invariant
            i <= n == hooks@.len(),
            ledger.wf(),
            all == hook_views(hooks@),
            pred == |h: WebhookView| wants(h, event@.event),
            payload@ == payload_text(event@, event_id@, ts),
            ts_text@ == decimal(ts as int),
            first == before.len(),
            first + all.take(i as int).filter(pred).len() == ledger@.len(),
            request_views(requests@) == planned(all.take(i as int), event@, event_id@, ts, first),
            ledger@ == before + opened(all.take(i as int), event@, event_id@, ts, first),
        decreases n - i,
    {
        let h = &hooks[i];
        proof {
            assert(all.take(i + 1) =~= all.take(i as int).push(all[i as int]));
            all.take(i as int).lemma_filter_push(all[i as int], pred);
        }
        if should_send(h, event.event) {
            let ghost planned_so_far = request_views(requests@);
            let attempt_id = ledger.record_attempt(
                h.id,
                event_id,
                event.event,
                payload.as_str(),
                ts,
            );
            let sig = hmac_sig_hex(h.secret.as_str(), ts_text.as_str(), payload.as_str().as_bytes());
            let mut header = String::new();
            header.push_str("v1=");
            header.push_str(sig.as_str());
            let request = DeliveryRequest {
                attempt_id,
                subscription_id: h.id,
                url: h.url.clone(),
                timestamp: ts_text.clone(),
                event_id: event_id.to_owned(),
                signature: header,
                body: payload.clone(),
                timeout_secs: DELIVERY_TIMEOUT_SECS,
            };
            proof {
                assert(planned_so_far.push(request@) =~= planned(
                    all.take(i + 1),
                    event@,
                    event_id@,
                    ts,
                    first,
                ));
            }
            requests.push(request);
        }
        i += 1;
    }
    assert(all.take(n as int) =~= all);
    requests
}

/// What one dispatch decided: the event's identifier, the time it was
/// stamped with, and the requests to make.
#[derive(Debug, Clone)]
pub struct Dispatch {
    pub event_id: String,
    pub timestamp: i64,
    pub requests: Vec<DeliveryRequest>,
}

/// A fresh random event identifier of thirty-two ASCII letters and digits.
pub fn generate_event_id() -> (id: String)
    ensures
        is_token(id@, EVENT_ID_LEN as int),
{
    random_alphanumeric(EVENT_ID_LEN)
}

/// Plans the deliveries of `event` to the subscriptions of `did` that want
/// it, newest subscription first, under a fresh event identifier and the
/// current time. Each recipient gets one pending ledger row and one request
/// signed with its own secret. Nothing is reported to the caller as an
/// error: what becomes of each delivery is recorded in the ledger alone.
pub fn send_status_event(
    reg: &WebhookRegistry,
    ledger: &mut DeliveryLedger,
    did: &str,
    event: StatusEvent<'_>,
) -> (d: Dispatch)
    requires
        reg.wf(),
        old(ledger).wf(),
    ensures
        final(ledger).wf(),
        is_token(d.event_id@, EVENT_ID_LEN as int),
        request_views(d.requests@) == planned(
            owned_by(reg@.rows, did@),
            event@,
            d.event_id@,
            d.timestamp,
            old(ledger)@.len() as usize,
        ),
        final(ledger)@ == old(ledger)@ + opened(
            owned_by(reg@.rows, did@),
            event@,
            d.event_id@,
            d.timestamp,
            old(ledger)@.len() as usize,
        ),
{
    let hooks = get_user_webhooks(reg, did);
    let event_id = generate_event_id();
    let timestamp = now().secs;
    let requests = dispatch(&hooks, &event, event_id.as_str(), timestamp, ledger);
    Dispatch { event_id, timestamp, requests }
}

/// Records how the delivery of attempt `attempt_id` ended, and notes the
/// attempt on its subscription, whether it succeeded or failed. Only this
/// attempt's row and this subscription's marker change. An attempt that is
/// unknown or settled already changes nothing.
pub fn complete_delivery(
    reg: &mut WebhookRegistry,
    ledger: &mut DeliveryLedger,
    attempt_id: usize,
    outcome: &DeliveryOutcome,
) -> (r: Result<(), LedgerError>)
    requires
        old(reg).wf(),
        old(ledger).wf(),
    ensures
        final(reg).wf(),
        final(ledger).wf(),
        final(ledger)@ == recorded(old(ledger)@, attempt_id, outcome@),
        r == if attempt_id >= old(ledger)@.len() {
            Err::<(), LedgerError>(LedgerError::NotFound)
        } else if old(ledger)@[attempt_id as int].state != DeliveryState::Pending {
            Err::<(), LedgerError>(LedgerError::AlreadySettled)
        } else {
            Ok::<(), LedgerError>(())
        },
        final(reg)@ == if r is Ok {
            marked(
                old(reg)@,
                old(ledger)@[attempt_id as int].subscription_id,
                old(ledger)@[attempt_id as int].attempted_at,
            )
        } else {
            old(reg)@
        },
{
    match ledger.record_outcome(attempt_id, outcome) {
        Ok(()) => {
            match ledger.attempt(attempt_id) {
                Some(a) => {
                    reg.mark_delivery(a.subscription_id, a.attempted_at);
                },
                None => {},
            }
            Ok(())
        },
        Err(e) => Err(e),
    }
}

/// The RFC 3339 text of a point in time, where it has one.
pub open spec fn rfc3339_of(t: Timestamp) -> Option<Seq<char>> {
    rfc3339_text(t.secs, t.nanos)
}

/// The event that tells of a new status.
pub open spec fn created_event(s: StatusView) -> StatusEventView {
    StatusEventView {
        event: "status.created"@,
        did: s.author_did,
        handle: None,
        status: Some(s.status),
        text: s.text,
        uri: Some(s.uri),
        since: rfc3339_of(s.started_at),
        expires: match s.expires_at {
            Some(t) => rfc3339_of(t),
            None => None,
        },
    }
}

/// The event that tells of a removed status.
pub open spec fn deleted_event(did: Seq<char>, uri: Seq<char>) -> StatusEventView {
    StatusEventView {
        event: "status.deleted"@,
        did,
        handle: None,
        status: None,
        text: None,
        uri: Some(uri),
        since: None,
        expires: None,
    }
}

/// Tells the author's subscribers of a new status: see [`send_status_event`].
pub fn emit_created(reg: &WebhookRegistry, ledger: &mut DeliveryLedger, s: &StatusFromDb) -> (d:
    Dispatch)
    requires
        reg.wf(),
        old(ledger).wf(),
    ensures
        final(ledger).wf(),
        is_token(d.event_id@, EVENT_ID_LEN as int),
        request_views(d.requests@) == planned(
            owned_by(reg@.rows, s@.author_did),
            created_event(s@),
            d.event_id@,
            d.timestamp,
            old(ledger)@.len() as usize,
        ),
        final(ledger)@ == old(ledger)@ + opened(
            owned_by(reg@.rows, s@.author_did),
            created_event(s@),
            d.event_id@,
            d.timestamp,
            old(ledger)@.len() as usize,
        ),
{
    let since = format_rfc3339(s.started_at);
    let expires = match s.expires_at {
        Some(t) => format_rfc3339(t),
        None => None,
    };
    let event = StatusEvent {
        event: "status.created",
        did: s.author_did.as_str(),
        handle: None,
        status: Some(s.status.as_str()),
        text: opt_ref(&s.text),
        uri: Some(s.uri.as_str()),
        since: opt_ref(&since),
        expires: opt_ref(&expires),
    };
    send_status_event(reg, ledger, s.author_did.as_str(), event)
}

/// Tells the subscribers of `did` that the status `uri` was removed: see
/// [`send_status_event`].
pub fn emit_deleted(reg: &WebhookRegistry, ledger: &mut DeliveryLedger, did: &str, uri: &str) -> (d:
    Dispatch)
    requires
        reg.wf(),
        old(ledger).wf(),
    ensures
        final(ledger).wf(),
        is_token(d.event_id@, EVENT_ID_LEN as int),
        request_views(d.requests@) == planned(
            owned_by(reg@.rows, did@),
            deleted_event(did@, uri@),
            d.event_id@,
            d.timestamp,
            old(ledger)@.len() as usize,
        ),
        final(ledger)@ == old(ledger)@ + opened(
            owned_by(reg@.rows, did@),
            deleted_event(did@, uri@),
            d.event_id@,
            d.timestamp,
            old(ledger)@.len() as usize,
        ),
{
    let event = StatusEvent {
        event: "status.deleted",
        did,
        handle: None,
        status: None,
        text: None,
        uri: Some(uri),
        since: None,
        expires: None,
    };
    send_status_event(reg, ledger, did, event)
}

/// The wildcard lets every event type through, with or without white space
/// around it.
pub proof fn lemma_wildcard_matches_all(events: Seq<char>, event: Seq<char>)
    requires
        trim(events) == seq!['*'],
    ensures
        filter_matches(events, event),
{
}

/// A blank filter is no wildcard: it lets no event type through that has a
/// name.
pub proof fn lemma_blank_filter_matches_nothing(events: Seq<char>, event: Seq<char>)
    requires
        trim(events).len() == 0,
        event.len() > 0,
    ensures
        !filter_matches(events, event),
{
    let filter = trim(events);
    let tokens = split(filter, ',');
    assert(tokens =~= seq![filter]);
    assert forall|i: int| 0 <= i < tokens.len() implies !eq_ignore_case(
        trim(#[trigger] tokens[i]),
        event,
    ) by {
        assert(trim(tokens[i]) =~= Seq::<char>::empty());
        assert(crate::text::lower(trim(tokens[i])).len() != crate::text::lower(event).len());
    }
}

/// Matching ignores the case of ASCII letters in the event type: two event
/// types that differ in case alone pass the same filters.
pub proof fn lemma_match_ignores_case(events: Seq<char>, a: Seq<char>, b: Seq<char>)
    requires
        eq_ignore_case(a, b),
    ensures
        filter_matches(events, a) == filter_matches(events, b),
{
    let tokens = split(trim(events), ',');
}

/// Matching ignores the case of ASCII letters in the filter: a filter that
/// names an event type in any case lets that type through.
pub proof fn lemma_single_filter(filter: Seq<char>, event: Seq<char>)
    requires
        trim(filter) == filter,
        filter != seq!['*'],
        forall|i: int| 0 <= i < filter.len() ==> filter[i] != ',',
    ensures
        filter_matches(filter, event) == eq_ignore_case(filter, event),
{
    lemma_no_separator(filter, ',');
    let tokens = split(filter, ',');
    if eq_ignore_case(filter, event) {
        assert(eq_ignore_case(trim(tokens[0]), event));
    }
}

/// A string without the separator is one piece.
pub proof fn lemma_no_separator(s: Seq<char>, sep: char)
    requires
        forall|i: int| 0 <= i < s.len() ==> s[i] != sep,
    ensures
        crate::text::first_sep(s, sep) == s.len(),
        split(s, sep) == seq![s],
    decreases s.len(),
{
    if s.len() > 0 {
        let rest = s.drop_first();
        lemma_no_separator(rest, sep);
    }
}

/// The signature is a function of secret, timestamp and payload: the same
/// three always give the same signature.
pub proof fn lemma_signature_deterministic(
    secret_a: Seq<char>,
    ts_a: Seq<char>,
    payload_a: Seq<u8>,
    secret_b: Seq<char>,
    ts_b: Seq<char>,
    payload_b: Seq<u8>,
)
    requires
        secret_a == secret_b,
        ts_a == ts_b,
        payload_a == payload_b,
    ensures
        signature(secret_a, ts_a, payload_a) == signature(secret_b, ts_b, payload_b),
{
}

/// Under one timestamp, different payloads are signed as different inputs:
/// no change of the payload leaves the signed bytes as they were.
pub proof fn lemma_signing_input_injective(ts: Seq<u8>, a: Seq<u8>, b: Seq<u8>)
    requires
        a != b,
    ensures
        signing_input(ts, a) != signing_input(ts, b),
{
    let x = signing_input(ts, a);
    let y = signing_input(ts, b);
    if x == y {
        assert(y.len() == ts.len() + 1 + b.len());
        assert forall|i: int| 0 <= i < a.len() implies a[i] == b[i] by {
            assert(y[ts.len() + 1 + i] == b[i]);
        }
        assert(a =~= b);
    }
}

/// Hexadecimal text tells tags apart: different tags of equal length give
/// different text. So two signatures are equal exactly when the two tags
/// are.
pub proof fn lemma_hex_injective(a: Seq<u8>, b: Seq<u8>)
    requires
        hex_lower(a) == hex_lower(b),
    ensures
        a == b,
{
    assert(hex_lower(a).len() == 2 * a.len());
    assert(hex_lower(b).len() == 2 * b.len());
    assert forall|i: int| 0 <= i < a.len() implies a[i] == b[i] by {
        let hi_a = hex_lower(a)[2 * i];
        let lo_a = hex_lower(a)[2 * i + 1];
        let hi_b = hex_lower(b)[2 * i];
        let lo_b = hex_lower(b)[2 * i + 1];
        assert(hi_a == hex_digit(a[i] as int / 16));
        assert(lo_a == hex_digit(a[i] as int % 16));
        assert(hi_b == hex_digit(b[i] as int / 16));
        assert(lo_b == hex_digit(b[i] as int % 16));
        lemma_hex_digit_injective(a[i] as int / 16, b[i] as int / 16);
        lemma_hex_digit_injective(a[i] as int % 16, b[i] as int % 16);
    }
    assert(a =~= b);
}

/// Different values below sixteen have different digits.
pub proof fn lemma_hex_digit_injective(m: int, n: int)
    requires
        0 <= m < 16,
        0 <= n < 16,
        hex_digit(m) == hex_digit(n),
    ensures
        m == n,
{
    let x = if m < 10 { 48 + m } else { 87 + m };
    let y = if n < 10 { 48 + n } else { 87 + n };
    assert((x as u8) as char == (y as u8) as char);
    assert(((x as u8) as char) as u8 == x as u8);
    assert(((y as u8) as char) as u8 == y as u8);
}

/// Each recipient's request is signed with that recipient's secret alone,
/// and each request has its own ledger row: the `k`-th request and the
/// `k`-th new row belong to the `k`-th recipient.
pub proof fn lemma_one_attempt_per_recipient(
    hooks: Seq<WebhookView>,
    e: StatusEventView,
    event_id: Seq<char>,
    ts: i64,
    first_id: usize,
)
    ensures
        planned(hooks, e, event_id, ts, first_id).len() == recipients(hooks, e.event).len(),
        opened(hooks, e, event_id, ts, first_id).len() == recipients(hooks, e.event).len(),
        forall|k: int|
            0 <= k < recipients(hooks, e.event).len() ==> {
                let h = recipients(hooks, e.event)[k];
                let request = #[trigger] planned(hooks, e, event_id, ts, first_id)[k];
                let row = opened(hooks, e, event_id, ts, first_id)[k];
                &&& wants(h, e.event)
                &&& hooks.contains(h)
                &&& request.subscription_id == h.id
                &&& request.url == h.url
                &&& request.body == payload_text(e, event_id, ts)
                &&& request.event_id == event_id
                &&& request.timestamp == decimal(ts as int)
                &&& row.payload == payload_text(e, event_id, ts)
                &&& row.attempted_at == ts
                &&& request.attempt_id == row.id
                &&& row.subscription_id == h.id
                &&& row.state == DeliveryState::Pending
                &&& row.event_id == event_id
            },
        forall|h: WebhookView|
            hooks.contains(h) && wants(h, e.event) ==> recipients(hooks, e.event).contains(h),
{
    let pred = |h: WebhookView| wants(h, e.event);
    let to = recipients(hooks, e.event);
    assert forall|k: int| 0 <= k < to.len() implies wants(#[trigger] to[k], e.event)
        && hooks.contains(to[k]) by {
        hooks.lemma_filter_pred(pred, k);
        hooks.lemma_filter_contains_rev(pred, to[k]);
    }
}

/// A string without quote, backslash and control characters stands in its
/// JSON literal as it is, between two quotes.
pub proof fn lemma_json_plain(s: Seq<char>)
    requires
        forall|i: int|
            0 <= i < s.len() ==> (#[trigger] s[i]) != '"' && s[i] != '\\' && s[i] as u32 >= 0x20,
    ensures
        json_escaped(s) == s,
        json_string(s) == seq!['"'] + s + seq!['"'],
    decreases s.len(),
{
    if s.len() > 0 {
        let head = s.drop_last();
        assert forall|i: int| 0 <= i < head.len() implies (#[trigger] head[i]) != '"' && head[i]
            != '\\' && head[i] as u32 >= 0x20 by {
            assert(head[i] == s[i]);
        }
        lemma_json_plain(head);
        assert(json_escape(s.last()) =~= seq![s.last()]);
        assert(head + seq![s.last()] =~= s);
    } else {
        assert(json_escaped(s) =~= s);
    }
}

/// The event for a new status carries the status: its type is
/// `status.created`, and author, emoji, text and URI are those of the
/// status. A status without expiry gives an event without expiry.
pub proof fn lemma_created_event_carries_status(s: StatusView)
    ensures
        created_event(s).event == "status.created"@,
        created_event(s).did == s.author_did,
        created_event(s).status == Some(s.status),
        created_event(s).text == s.text,
        created_event(s).uri == Some(s.uri),
        s.expires_at is None ==> created_event(s).expires is None,
{
}

/// The payload of an event names its type, its identifier and the version
/// tag, each as a JSON string literal: it begins with the event type and
/// ends with the identifier and the version.
pub proof fn lemma_payload_frame(e: StatusEventView, event_id: Seq<char>, ts: i64)
    ensures
        crate::text::has_prefix(
            payload_text(e, event_id, ts),
            "{\"event\":"@ + json_string(e.event),
        ),
        ({
            let tail = ",\"id\":"@ + json_string(event_id) + ",\"version\":"@ + json_string(
                SCHEMA_VERSION@,
            ) + "}"@;
            let p = payload_text(e, event_id, ts);
            tail.len() <= p.len() && p.skip(p.len() - tail.len()) == tail
        }),
{
    let p = payload_text(e, event_id, ts);
    let head = "{\"event\":"@ + json_string(e.event);
    assert(p.take(head.len() as int) =~= head);
    let tail = ",\"id\":"@ + json_string(event_id) + ",\"version\":"@ + json_string(
        SCHEMA_VERSION@,
    ) + "}"@;
    assert(p.skip(p.len() - tail.len()) =~= tail);
}

} // verus!
