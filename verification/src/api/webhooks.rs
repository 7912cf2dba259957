//! Management of webhook subscriptions: validation of what a caller asks
//! for, and the owner-scoped operations behind each request.

use crate::config::{production, Config};
use crate::db::webhooks::{
    deleted, events_or_all, find, get_user_webhooks, hook_views, inserted, is_token, masked,
    owned_by, rotated, update_time, updated, WebhookRegistry, WebhookView, SECRET_LEN,
};
use crate::ledger::{attempt_views, recent_of, DeliveryAttempt, DeliveryLedger};
use crate::text::{
    chars_eq, chars_of, lower, opt_ref, opt_str, opt_view, split, split_chars, to_lower, trim,
    trim_chars, views,
};
use vstd::prelude::*;

verus! {

/// The request to create a subscription.
#[derive(Debug, Clone)]
pub struct CreateWebhookRequest {
    pub url: String,
    pub secret: Option<String>,
    pub events: Option<String>,
}

/// The request to change a subscription. Absent fields stay as they are.
#[derive(Debug, Clone)]
pub struct UpdateWebhookRequest {
    pub url: Option<String>,
    pub events: Option<String>,
    pub active: Option<bool>,
}

/// Why a URL or an event filter was refused.
#[derive(Debug, Clone, Copy, PartialEq, Eq, Structural)]
pub enum ValidationError {
    InvalidUrl,
    MissingHost,
    HttpsRequired,
    PrivateHost,
    UnsupportedEvent,
}

impl ValidationError {
    /// The stable reason string of this error.
    pub open spec fn reason_text(self) -> Seq<char> {
        match self {
            ValidationError::InvalidUrl => "Invalid URL"@,
            ValidationError::MissingHost => "Missing host"@,
            ValidationError::HttpsRequired => "HTTPS required in production"@,
            ValidationError::PrivateHost => "Private/local hosts not allowed"@,
            ValidationError::UnsupportedEvent => "Unsupported event type"@,
        }
    }

    /// The stable reason string of this error.
    pub fn reason(&self) -> (r: &'static str)
        ensures
            r@ == self.reason_text(),
    {
        match self {
            ValidationError::InvalidUrl => "Invalid URL",
            ValidationError::MissingHost => "Missing host",
            ValidationError::HttpsRequired => "HTTPS required in production",
            ValidationError::PrivateHost => "Private/local hosts not allowed",
            ValidationError::UnsupportedEvent => "Unsupported event type",
        }
    }
}

/// The host of a parsed URL.
#[derive(Debug, Clone)]
pub enum UrlHost {
    /// The URL has no host.
    Missing,
    /// A domain name.
    Domain(String),
    /// An IPv4 address, by its four octets.
    Ipv4(u8, u8, u8, u8),
    /// An IPv6 address, by its eight segments.
    Ipv6(u16, u16, u16, u16, u16, u16, u16, u16),
}

/// The mathematical value of a [`UrlHost`].
pub enum UrlHostView {
    Missing,
    Domain(Seq<char>),
    Ipv4(u8, u8, u8, u8),
    Ipv6(u16, u16, u16, u16, u16, u16, u16, u16),
}

impl View for UrlHost {
    type V = UrlHostView;

    open spec fn view(&self) -> UrlHostView {
        match self {
            UrlHost::Missing => UrlHostView::Missing,
            UrlHost::Domain(d) => UrlHostView::Domain(d@),
            UrlHost::Ipv4(a, b, c, d) => UrlHostView::Ipv4(*a, *b, *c, *d),
            UrlHost::Ipv6(a, b, c, d, e, f, g, h) => UrlHostView::Ipv6(
                *a,
                *b,
                *c,
                *d,
                *e,
                *f,
                *g,
                *h,
            ),
        }
    }
}

/// What validation reads of a parsed URL: its scheme and its host.
#[derive(Debug, Clone)]
pub struct UrlParts {
    pub scheme: String,
    pub host: UrlHost,
}

/// The mathematical value of a [`UrlParts`].
pub struct UrlPartsView {
    pub scheme: Seq<char>,
    pub host: UrlHostView,
}

impl View for UrlParts {
    type V = UrlPartsView;

    open spec fn view(&self) -> UrlPartsView {
        UrlPartsView { scheme: self.scheme@, host: self.host@ }
    }
}

/// The view of an optional [`UrlParts`].
pub open spec fn parts_view(p: Option<UrlParts>) -> Option<UrlPartsView> {
    match p {
        Some(parts) => Some(parts@),
        None => None,
    }
}

/// Scheme and host of `raw` as the `url` crate parses it as an absolute
/// URL, or `None` where it does not parse.
pub uninterp spec fn url_parts(raw: Seq<char>) -> Option<UrlPartsView>;

/// Calls `url::Url::parse`, and reads `scheme` and `host` of the result.
/// The outcome is a function of the text. An IPv4 host is given by its
/// octets, an IPv6 host by its segments.
#[verifier::external_body]
pub(crate) fn parse_url(raw: &str) -> (p: Option<UrlParts>)
    ensures
        parts_view(p) == url_parts(raw@),
{
    let url = url::Url::parse(raw).ok()?;
    let host = match url.host() {
        None => UrlHost::Missing,
        Some(url::Host::Domain(d)) => UrlHost::Domain(d.to_string()),
        Some(url::Host::Ipv4(a)) => UrlHost::Ipv4(a.octets()[0], a.octets()[1], a.octets()[2], a.octets()[3]),
        Some(url::Host::Ipv6(a)) => {
            let s = a.segments();
            UrlHost::Ipv6(s[0], s[1], s[2], s[3], s[4], s[5], s[6], s[7])
        },
    };
    Some(UrlParts { scheme: url.scheme().to_string(), host })
}

/// Whether an IPv4 address is private, loopback, link-local, multicast
/// or unspecified.
pub open spec fn blocked_v4(a: u8, b: u8, c: u8, d: u8) -> bool {
    ||| a == 10
    ||| (a == 172 && 16 <= b <= 31)
    ||| (a == 192 && b == 168)
    ||| a == 127
    ||| (a == 169 && b == 254)
    ||| 224 <= a <= 239
    ||| (a == 0 && b == 0 && c == 0 && d == 0)
}

/// Whether an IPv6 address is unique local, loopback, link-local,
/// multicast or unspecified.
pub open spec fn blocked_v6(
    a: u16,
    b: u16,
    c: u16,
    d: u16,
    e: u16,
    f: u16,
    g: u16,
    h: u16,
) -> bool {
    ||| 0xfc00 <= a <= 0xfdff
    ||| 0xfe80 <= a <= 0xfebf
    ||| 0xff00 <= a
    ||| (a == 0 && b == 0 && c == 0 && d == 0 && e == 0 && f == 0 && g == 0 && (h == 0 || h == 1))
}

/// Whether a host is the name `localhost`, in any case, or an address that
/// is not to be reached from a public service.
pub open spec fn private_host(host: UrlHostView) -> bool {
    match host {
        UrlHostView::Missing => false,
        UrlHostView::Domain(d) => lower(d) == "localhost"@,
        UrlHostView::Ipv4(a, b, c, d) => blocked_v4(a, b, c, d),
        UrlHostView::Ipv6(a, b, c, d, e, f, g, h) => blocked_v6(a, b, c, d, e, f, g, h),
    }
}

/// The verdict on a webhook URL, given what parsing it gave. Outside
/// production any URL with a host passes; in production the scheme must be
/// `https` and the host must not be private.
pub open spec fn url_verdict(parts: Option<UrlPartsView>, production: bool) -> Result<
    (),
    ValidationError,
> {
    match parts {
        None => Err(ValidationError::InvalidUrl),
        Some(p) => if p.host is Missing {
            Err(ValidationError::MissingHost)
        } else if production && p.scheme != "https"@ {
            Err(ValidationError::HttpsRequired)
        } else if production && private_host(p.host) {
            Err(ValidationError::PrivateHost)
        } else {
            Ok(())
        },
    }
}

/// Decides whether a host is private.
pub fn is_private_host(host: &UrlHost) -> (b: bool)
    ensures
        b == private_host(host@),
{
    match host {
        UrlHost::Missing => false,
        UrlHost::Domain(d) => {
            let name = to_lower(&chars_of(d.as_str()));
            let local = chars_of("localhost");
            chars_eq(&name, &local)
        },
        UrlHost::Ipv4(a, b, c, d) => {
            *a == 10 || (*a == 172 && 16 <= *b && *b <= 31) || (*a == 192 && *b == 168) || *a
                == 127 || (*a == 169 && *b == 254) || (224 <= *a && *a <= 239) || (*a == 0 && *b
                == 0 && *c == 0 && *d == 0)
        },
        UrlHost::Ipv6(a, b, c, d, e, f, g, h) => {
            (0xfc00 <= *a && *a <= 0xfdff) || (0xfe80 <= *a && *a <= 0xfebf) || 0xff00 <= *a || (*a
                == 0 && *b == 0 && *c == 0 && *d == 0 && *e == 0 && *f == 0 && *g == 0 && (*h == 0
                || *h == 1))
        },
    }
}

/// Judges a webhook URL by what parsing it gave.
pub fn judge_url(parts: &Option<UrlParts>, production: bool) -> (r: Result<(), ValidationError>)
    ensures
        r == url_verdict(parts_view(*parts), production),
{
    match parts {
        None => Err(ValidationError::InvalidUrl),
        Some(p) => {
            match p.host {
                UrlHost::Missing => {
                    return Err(ValidationError::MissingHost);
                },
                _ => {},
            }
            if production {
                let scheme = chars_of(p.scheme.as_str());
                let https = chars_of("https");
                if !chars_eq(&scheme, &https) {
                    return Err(ValidationError::HttpsRequired);
                }
                if is_private_host(&p.host) {
                    return Err(ValidationError::PrivateHost);
                }
            }
            Ok(())
        },
    }
}

/// Validates a webhook URL: it must parse as an absolute URL with a host,
/// and in production it must use HTTPS and name no private host.
pub fn validate_url(raw: &str, cfg: &Config) -> (r: Result<(), ValidationError>)
    ensures
        r == url_verdict(url_parts(raw@), production(cfg.oauth_redirect_base@)),
{
    let parts = parse_url(raw);
    judge_url(&parts, cfg.is_production())
}

/// Whether `token` is one of the event types that subscribers can ask for.
pub open spec fn supported(token: Seq<char>) -> bool {
    token == "status.created"@ || token == "status.deleted"@
}

/// Whether an event filter is valid: the wildcard, or a comma-separated
/// list of supported event types. A blank filter names no event type and
/// is not valid.
pub open spec fn valid_events(s: Seq<char>) -> bool {
    let filter = trim(s);
    let tokens = split(s, ',');
    ||| filter == seq!['*']
    ||| forall|i: int| 0 <= i < tokens.len() ==> supported(trim(#[trigger] tokens[i]))
}

/// Validates an event filter.
pub fn validate_events(s: &str) -> (r: Result<(), ValidationError>)
    ensures
        r is Ok <==> valid_events(s@),
        r matches Err(e) ==> e == ValidationError::UnsupportedEvent,
{
    let raw = chars_of(s);
    let filter = trim_chars(&raw);
    if filter.len() == 1 && filter[0] == '*' {
        assert(filter@ =~= seq!['*']);
        return Ok(());
    }
    let created = chars_of("status.created");
    let removed = chars_of("status.deleted");
    let tokens = split_chars(&raw, ',');
    let ghost pieces = split(raw@, ',');
    let mut i: usize = 0;
    while i < tokens.len()
        invariant
            i <= tokens@.len(),
            created@ == "status.created"@,
            removed@ == "status.deleted"@,
            raw@ == s@,
            filter@ == trim(s@),
            filter@ != seq!['*'],
            pieces == split(raw@, ','),
            views(tokens@) == pieces,
            forall|k: int| 0 <= k < i ==> supported(trim(#[trigger] pieces[k])),
        decreases tokens@.len() - i,
    {
        let token = trim_chars(&tokens[i]);
        if !chars_eq(&token, &created) && !chars_eq(&token, &removed) {
            assert(!supported(trim(pieces[i as int])));
            return Err(ValidationError::UnsupportedEvent);
        }
        i += 1;
    }
    Ok(())
}

/// Why a management request was refused.
#[derive(Debug, Clone, Copy, PartialEq, Eq, Structural)]
pub enum ApiError {
    /// The caller is not signed in.
    NotAuthenticated,
    /// What the caller asked for is not valid.
    Invalid(ValidationError),
    /// The caller owns no subscription with that identifier. The same
    /// answer is given whether the subscription exists or not.
    NotFound,
    /// No identifier is left for a new subscription.
    Full,
}

impl ApiError {
    /// The HTTP status code that the refusal is answered with.
    pub fn status_code(&self) -> (code: u16)
        ensures
            code == match self {
                ApiError::NotAuthenticated => 401u16,
                ApiError::Invalid(_) => 400u16,
                ApiError::NotFound => 404u16,
                ApiError::Full => 500u16,
            },
    {
        match self {
            ApiError::NotAuthenticated => 401,
            ApiError::Invalid(_) => 400,
            ApiError::NotFound => 404,
            ApiError::Full => 500,
        }
    }

    /// The refusal in words. An invalid request is answered with the
    /// stable reason string of what is wrong with it.
    pub fn message(&self) -> (m: &'static str)
        ensures
            m@ == match self {
                ApiError::NotAuthenticated => "Not authenticated"@,
                ApiError::Invalid(e) => e.reason_text(),
                ApiError::NotFound => "Not found"@,
                ApiError::Full => "No identifier left"@,
            },
    {
        match self {
            ApiError::NotAuthenticated => "Not authenticated",
            ApiError::Invalid(e) => e.reason(),
            ApiError::NotFound => "Not found",
            ApiError::Full => "No identifier left",
        }
    }
}

/// A subscription as it is listed: with its secret masked.
#[derive(Debug, Clone)]
pub struct WebhookSummary {
    pub id: i64,
    pub url: String,
    pub events: String,
    pub active: bool,
    pub created_at: i64,
    pub updated_at: i64,
    pub secret_masked: String,
}

/// The mathematical value of a [`WebhookSummary`].
pub struct SummaryView {
    pub id: i64,
    pub url: Seq<char>,
    pub events: Seq<char>,
    pub active: bool,
    pub created_at: i64,
    pub updated_at: i64,
    pub secret_masked: Seq<char>,
}

impl View for WebhookSummary {
    type V = SummaryView;

    open spec fn view(&self) -> SummaryView {
        SummaryView {
            id: self.id,
            url: self.url@,
            events: self.events@,
            active: self.active,
            created_at: self.created_at,
            updated_at: self.updated_at,
            secret_masked: self.secret_masked@,
        }
    }
}

/// What is listed of a subscription.
pub open spec fn summary_of(h: WebhookView) -> SummaryView {
    SummaryView {
        id: h.id,
        url: h.url,
        events: h.events,
        active: h.active,
        created_at: h.created_at,
        updated_at: h.updated_at,
        secret_masked: masked(h.secret),
    }
}

/// The views of a sequence of summaries.
pub open spec fn summary_views(list: Seq<WebhookSummary>) -> Seq<SummaryView> {
    Seq::new(list.len(), |i: int| list[i]@)
}

/// The subscriptions of the caller, newest first, each with its secret
/// masked.
pub fn list_webhooks(reg: &WebhookRegistry, did: Option<&str>) -> (r: Result<
    Vec<WebhookSummary>,
    ApiError,
>)
    requires
        reg.wf(),
    ensures
        match did {
            Some(d) => r matches Ok(list) && summary_views(list@) == owned_by(
                reg@.rows,
                d@,
            ).map_values(|h: WebhookView| summary_of(h)),
            None => r matches Err(e) && e == ApiError::NotAuthenticated,
        },
{
    match did {
        Some(d) => {
            let hooks = get_user_webhooks(reg, d);
            let mut list: Vec<WebhookSummary> = Vec::new();
            let mut i: usize = 0;
            while i < hooks.len()
                invariant
                    i <= hooks@.len(),
                    list@.len() == i,
                    forall|k: int| 0 <= k < i ==> list@[k]@ == summary_of(hooks@[k]@),
                decreases hooks@.len() - i,
            {
                let h = &hooks[i];
                list.push(
                    WebhookSummary {
                        id: h.id,
                        url: h.url.clone(),
                        events: h.events.clone(),
                        active: h.active,
                        created_at: h.created_at,
                        updated_at: h.updated_at,
                        secret_masked: h.masked_secret(),
                    },
                );
                i += 1;
            }
            Ok(list)
        },
        None => Err(ApiError::NotAuthenticated),
    }
}

/// The first reason, if any, to refuse the creation or change of a
/// subscription: the caller is not signed in, the URL is refused, or the
/// event filter is.
pub open spec fn refusal(
    did: Option<Seq<char>>,
    url: Option<Seq<char>>,
    events: Option<Seq<char>>,
    production: bool,
) -> Option<ApiError> {
    if did is None {
        Some(ApiError::NotAuthenticated)
    } else if url is Some && url_verdict(url_parts(url->0), production) is Err {
        Some(ApiError::Invalid(url_verdict(url_parts(url->0), production)->Err_0))
    } else if events is Some && !valid_events(events->0) {
        Some(ApiError::Invalid(ValidationError::UnsupportedEvent))
    } else {
        None
    }
}

/// Checks the caller, the URL and the event filter of a request.
fn check_request(did: Option<&str>, url: Option<&str>, events: Option<&str>, cfg: &Config) -> (r:
    Option<ApiError>)
    ensures
        r == refusal(
            opt_str(did),
            opt_str(url),
            opt_str(events),
            production(cfg.oauth_redirect_base@),
        ),
{
    if did.is_none() {
        return Some(ApiError::NotAuthenticated);
    }
    match url {
        Some(u) => match validate_url(u, cfg) {
            Err(e) => {
                return Some(ApiError::Invalid(e));
            },
            Ok(()) => {},
        },
        None => {},
    }
    match events {
        Some(e) => match validate_events(e) {
            Err(_) => {
                return Some(ApiError::Invalid(ValidationError::UnsupportedEvent));
            },
            Ok(()) => {},
        },
        None => {},
    }
    None
}

/// Creates a subscription for the caller, after validating URL and event
/// filter. Returns the new identifier and the secret in plain text; the
/// secret is not shown in plain text again.
pub fn create_webhook(
    reg: &mut WebhookRegistry,
    cfg: &Config,
    did: Option<&str>,
    payload: &CreateWebhookRequest,
) -> (r: Result<(i64, String), ApiError>)
    requires
        old(reg).wf(),
    ensures
        final(reg).wf(),
        match refusal(
            opt_str(did),
            Some(payload.url@),
            opt_view(payload.events),
            production(cfg.oauth_redirect_base@),
        ) {
            Some(e) => r == Err::<(i64, String), ApiError>(e) && final(reg)@ == old(reg)@,
            None => match r {
                Ok((id, secret)) => {
                    &&& old(reg)@.next_id < i64::MAX
                    &&& id == old(reg)@.next_id
                    &&& match payload.secret {
                        Some(s) => secret@ == s@,
                        None => is_token(secret@, SECRET_LEN as int),
                    }
                    &&& final(reg)@ == inserted(
                        old(reg)@,
                        did->0@,
                        payload.url@,
                        secret@,
                        events_or_all(opt_view(payload.events)),
                        final(reg)@.rows.last().hook.created_at,
                    )
                },
                Err(e) => old(reg)@.next_id == i64::MAX && e == ApiError::Full && final(reg)@
                    == old(reg)@,
            },
        },
{
    let events = opt_ref(&payload.events);
    match check_request(did, Some(payload.url.as_str()), events, cfg) {
        Some(e) => Err(e),
        None => {
            let owner = did.unwrap();
            match crate::db::webhooks::create_webhook(
                reg,
                owner,
                payload.url.as_str(),
                opt_ref(&payload.secret),
                events,
            ) {
                Ok(created) => Ok(created),
                Err(_) => Err(ApiError::Full),
            }
        },
    }
}

/// Changes the supplied fields of the caller's subscription `id`, after
/// validating those that are present.
pub fn update_webhook(
    reg: &mut WebhookRegistry,
    cfg: &Config,
    did: Option<&str>,
    id: i64,
    payload: &UpdateWebhookRequest,
) -> (r: Result<(), ApiError>)
    requires
        old(reg).wf(),
    ensures
        final(reg).wf(),
        match refusal(
            opt_str(did),
            opt_view(payload.url),
            opt_view(payload.events),
            production(cfg.oauth_redirect_base@),
        ) {
            Some(e) => r == Err::<(), ApiError>(e) && final(reg)@ == old(reg)@,
            None => {
                &&& r == if find(old(reg)@.rows, did->0@, id) is Some {
                    Ok::<(), ApiError>(())
                } else {
                    Err::<(), ApiError>(ApiError::NotFound)
                }
                &&& final(reg)@ == updated(
                    old(reg)@,
                    did->0@,
                    id,
                    opt_view(payload.url),
                    opt_view(payload.events),
                    payload.active,
                    update_time(final(reg)@, did->0@, id),
                )
            },
        },
{
    let url = opt_ref(&payload.url);
    let events = opt_ref(&payload.events);
    match check_request(did, url, events, cfg) {
        Some(e) => Err(e),
        None => {
            let owner = did.unwrap();
            match crate::db::webhooks::update_webhook(reg, owner, id, url, events, payload.active) {
                Ok(()) => Ok(()),
                Err(_) => Err(ApiError::NotFound),
            }
        },
    }
}

/// Gives the caller's subscription `id` a fresh secret and returns it in
/// plain text, once.
pub fn rotate_secret(reg: &mut WebhookRegistry, did: Option<&str>, id: i64) -> (r: Result<
    String,
    ApiError,
>)
    requires
        old(reg).wf(),
    ensures
        final(reg).wf(),
        match did {
            None => r matches Err(e) && e == ApiError::NotAuthenticated && final(reg)@ == old(reg)@,
            Some(d) => match r {
                Ok(secret) => {
                    &&& find(old(reg)@.rows, d@, id) is Some
                    &&& is_token(secret@, SECRET_LEN as int)
                    &&& final(reg)@ == rotated(
                        old(reg)@,
                        d@,
                        id,
                        secret@,
                        update_time(final(reg)@, d@, id),
                    )
                },
                Err(e) => find(old(reg)@.rows, d@, id) is None && e == ApiError::NotFound
                    && final(reg)@ == old(reg)@,
            },
        },
{
    match did {
        None => Err(ApiError::NotAuthenticated),
        Some(d) => match crate::db::webhooks::rotate_webhook_secret(reg, d, id) {
            Ok(secret) => Ok(secret),
            Err(_) => Err(ApiError::NotFound),
        },
    }
}

/// Removes the caller's subscription `id`. The answer does not tell whether
/// there was one.
pub fn delete_webhook(reg: &mut WebhookRegistry, did: Option<&str>, id: i64) -> (r: Result<
    (),
    ApiError,
>)
    requires
        old(reg).wf(),
    ensures
        final(reg).wf(),
        match did {
            None => r == Err::<(), ApiError>(ApiError::NotAuthenticated) && final(reg)@ == old(
                reg,
            )@,
            Some(d) => r is Ok && final(reg)@ == deleted(old(reg)@, d@, id),
        },
{
    match did {
        None => Err(ApiError::NotAuthenticated),
        Some(d) => {
            let removed = crate::db::webhooks::delete_webhook(reg, d, id);
            Ok(())
        },
    }
}

/// The number of delivery attempts that one page shows.
pub const DELIVERY_PAGE_SIZE: usize = 20;

/// The latest delivery attempts for the caller's subscription `id`, latest
/// first, one page of them. A subscription that the caller does not own is
/// answered as not found, whether or not it exists.
pub fn list_deliveries(
    reg: &WebhookRegistry,
    ledger: &DeliveryLedger,
    did: Option<&str>,
    id: i64,
) -> (r: Result<Vec<DeliveryAttempt>, ApiError>)
    requires
        reg.wf(),
    ensures
        match did {
            None => r matches Err(e) && e == ApiError::NotAuthenticated,
            Some(d) => if find(reg@.rows, d@, id) is Some {
                r matches Ok(page) && attempt_views(page@) == recent_of(
                    ledger@,
                    id,
                    DELIVERY_PAGE_SIZE as nat,
                )
            } else {
                r matches Err(e) && e == ApiError::NotFound
            },
        },
{
    match did {
        None => Err(ApiError::NotAuthenticated),
        Some(d) => if crate::db::webhooks::owns_subscription(reg, d, id) {
            Ok(ledger.recent(id, DELIVERY_PAGE_SIZE))
        } else {
            Err(ApiError::NotFound)
        },
    }
}

} // verus!
