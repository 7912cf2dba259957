//! A token bucket per client. A bucket starts full; time fills it again
//! at the rate of a full bucket per refill period; each admitted request
//! takes one token.

use std::time::{Duration, Instant};
use vstd::hash_map::StringHashMap;
use vstd::prelude::*;

verus! {

#[verifier::external_type_specification]
#[verifier::external_body]
pub struct ExInstant(std::time::Instant);

/// The length of a duration in nanoseconds.
pub uninterp spec fn duration_nanos(d: Duration) -> nat;

/// `Instant::now` reads the monotonic clock. Nothing is claimed of the value.
pub assume_specification[ std::time::Instant::now ]() -> std::time::Instant;

/// `Instant::elapsed` is the time since the instant. Nothing is claimed of
/// the value.
pub assume_specification[ std::time::Instant::elapsed ](
    start: &std::time::Instant,
) -> std::time::Duration;

/// `Duration::as_nanos` is the length of the duration in nanoseconds.
pub assume_specification[ std::time::Duration::as_nanos ](d: &std::time::Duration) -> (n: u128)
    ensures
        n == duration_nanos(*d),
;

/// The bucket of one client.
#[derive(Debug, Clone, Copy, PartialEq, Eq, Structural)]
pub struct TokenBucket {
    pub tokens: u32,
    /// When tokens were last added, in nanoseconds on the limiter's clock.
    pub last_refill: u64,
}

/// The mathematical value of a [`RateLimiter`]: the bucket of each client
/// seen so far, the tokens of a full bucket and the refill period.
pub struct LimiterView {
    pub buckets: Map<Seq<char>, TokenBucket>,
    pub max_tokens: u32,
    pub refill_nanos: nat,
}

/// The number of tokens that `elapsed` nanoseconds add: the share of a full
/// bucket that the elapsed time is of the refill period, rounded down.
/// With a refill period of zero any time at all fills the bucket.
pub open spec fn tokens_to_add(elapsed: nat, refill: nat, max: u32) -> nat {
    if refill > 0 {
        ((elapsed * max) as int / refill as int) as nat
    } else if elapsed > 0 {
        max as nat
    } else {
        0
    }
}

/// A bucket after the time up to `now` was credited to it. Time that adds
/// no whole token is not credited yet. A clock that went back adds nothing.
pub open spec fn refilled(b: TokenBucket, now: u64, max: u32, refill: nat) -> TokenBucket {
    let elapsed = if now >= b.last_refill {
        (now - b.last_refill) as nat
    } else {
        0
    };
    let add = tokens_to_add(elapsed, refill, max);
    if add > 0 {
        TokenBucket {
            tokens: if b.tokens + add >= max {
                max
            } else {
                (b.tokens + add) as u32
            },
            last_refill: now,
        }
    } else {
        b
    }
}

/// A bucket after one request: a token less, where it had one.
pub open spec fn spent(b: TokenBucket) -> TokenBucket {
    if b.tokens > 0 {
        TokenBucket { tokens: (b.tokens - 1) as u32, ..b }
    } else {
        b
    }
}

/// The bucket of client `key` as a request at `now` finds it: the client's
/// bucket with the time credited, or a full one for a client not seen yet.
pub open spec fn bucket_at(m: LimiterView, key: Seq<char>, now: u64) -> TokenBucket {
    let found = if m.buckets.contains_key(key) {
        m.buckets[key]
    } else {
        TokenBucket { tokens: m.max_tokens, last_refill: now }
    };
    refilled(found, now, m.max_tokens, m.refill_nanos)
}

/// Whether a request of client `key` at `now` is admitted.
pub open spec fn admits(m: LimiterView, key: Seq<char>, now: u64) -> bool {
    bucket_at(m, key, now).tokens > 0
}

/// The limiter after a request of client `key` at `now`: the client's
/// bucket is the one that the request found, less the token that it took.
/// No other client's bucket changes.
pub open spec fn after_request(m: LimiterView, key: Seq<char>, now: u64) -> LimiterView {
    LimiterView { buckets: m.buckets.insert(key, spent(bucket_at(m, key, now))), ..m }
}

/// No bucket holds more tokens than a full bucket does.
pub open spec fn within_capacity(m: LimiterView) -> bool {
    forall|key: Seq<char>|
        m.buckets.contains_key(key) ==> (#[trigger] m.buckets[key]).tokens <= m.max_tokens
}

/// A client's first request finds a full bucket, and is admitted exactly
/// where the limiter gives tokens at all.
pub proof fn lemma_first_request(m: LimiterView, key: Seq<char>, now: u64)
    requires
        !m.buckets.contains_key(key),
    ensures
        admits(m, key, now) == (m.max_tokens > 0),
        bucket_at(m, key, now).tokens == m.max_tokens,
{
    assert(tokens_to_add(0, m.refill_nanos, m.max_tokens) == 0) by {
        if m.refill_nanos > 0 {
            assert(0 * (m.max_tokens as nat) == 0);
            assert(0int / (m.refill_nanos as int) == 0);
        }
    }
}

/// A bucket never holds more than a full bucket: the bucket that a request
/// finds, with the time credited, is within capacity, and the request
/// leaves every bucket within capacity.
pub proof fn lemma_request_keeps_capacity(m: LimiterView, key: Seq<char>, now: u64)
    requires
        within_capacity(m),
    ensures
        bucket_at(m, key, now).tokens <= m.max_tokens,
        within_capacity(after_request(m, key, now)),
        after_request(m, key, now).max_tokens == m.max_tokens,
{
    let after = after_request(m, key, now);
    if m.buckets.contains_key(key) {
        assert(m.buckets[key].tokens <= m.max_tokens);
    }
    assert forall|k: Seq<char>| after.buckets.contains_key(k) implies (
    #[trigger] after.buckets[k]).tokens <= after.max_tokens by {
        if k != key {
            assert(m.buckets.contains_key(k));
            assert(m.buckets[k].tokens <= m.max_tokens);
        }
    }
}

/// Clients are limited apart: a request of one client leaves the bucket of
/// every other client as it was.
pub proof fn lemma_clients_are_apart(m: LimiterView, key: Seq<char>, other: Seq<char>, now: u64)
    requires
        key != other,
    ensures
        after_request(m, key, now).buckets.contains_key(other) == m.buckets.contains_key(other),
        m.buckets.contains_key(other) ==> after_request(m, key, now).buckets[other]
            == m.buckets[other],
{
}

/// A rate limiter with one token bucket per client.
pub struct RateLimiter {
    buckets: StringHashMap<TokenBucket>,
    max_tokens: u32,
    refill_nanos: u128,
    /// Where the limiter's clock starts.
    started: Instant,
}

impl View for RateLimiter {
    type V = LimiterView;

    closed spec fn view(&self) -> LimiterView {
        LimiterView {
            buckets: self.buckets@,
            max_tokens: self.max_tokens,
            refill_nanos: self.refill_nanos as nat,
        }
    }
}

/// The share of a full bucket that `elapsed` is of the refill period.
fn share(elapsed: u64, refill: u128, max: u32) -> (add: u128)
    ensures
        add == tokens_to_add(elapsed as nat, refill as nat, max),
{
    if refill > 0 {
        assert(elapsed as nat * max as nat <= 0xffff_ffff_ffff_ffff * 0xffff_ffff) by (nonlinear_arith)
            requires
                elapsed <= 0xffff_ffff_ffff_ffff,
                max <= 0xffff_ffff,
        ;
        let product: u128 = elapsed as u128 * max as u128;
        product / refill
    } else if elapsed > 0 {
        max as u128
    } else {
        0
    }
}

impl RateLimiter {
    /// The limiter's invariant: no bucket holds more tokens than a full
    /// bucket does.
    pub open spec fn wf(&self) -> bool {
        within_capacity(self@)
    }

    /// A limiter whose buckets hold `max_tokens` and fill up again within
    /// `refill_rate`.
    pub fn new(max_tokens: u32, refill_rate: Duration) -> (limiter: Self)
        ensures
            limiter.wf(),
            limiter@ == (LimiterView {
                buckets: Map::empty(),
                max_tokens,
                refill_nanos: duration_nanos(refill_rate),
            }),
    {
        RateLimiter {
            buckets: StringHashMap::new(),
            max_tokens,
            refill_nanos: refill_rate.as_nanos(),
            started: Instant::now(),
        }
    }

    /// Decides on a request of client `key` made at `now` nanoseconds on
    /// the limiter's clock, and takes a token where the request is admitted.
    pub fn check_at(&mut self, key: &str, now: u64) -> (allowed: bool)
        requires
            old(self).wf(),
        ensures
            final(self).wf(),
            allowed == admits(old(self)@, key@, now),
            final(self)@ == after_request(old(self)@, key@, now),
    {
        let (tokens, last_refill) = match self.buckets.get(key) {
            Some(bucket) => (bucket.tokens, bucket.last_refill),
            None => (self.max_tokens, now),
        };
        let elapsed: u64 = if now >= last_refill {
            now - last_refill
        } else {
            0
        };
        let add = share(elapsed, self.refill_nanos, self.max_tokens);
        let mut bucket = TokenBucket { tokens, last_refill };
        if add > 0 {
            bucket.tokens = if add >= self.max_tokens as u128 || tokens as u128 + add
                >= self.max_tokens as u128 {
                self.max_tokens
            } else {
                (tokens as u128 + add) as u32
            };
            bucket.last_refill = now;
        }
        let allowed = bucket.tokens > 0;
        if allowed {
            bucket.tokens = bucket.tokens - 1;
        }
        proof {
            lemma_request_keeps_capacity(self@, key@, now);
        }
        self.buckets.insert(key.to_owned(), bucket);
        allowed
    }

    /// Decides on a request of client `key` made now.
    pub fn check_rate_limit(&mut self, key: &str) -> (allowed: bool)
        requires
            old(self).wf(),
        ensures
            final(self).wf(),
            exists|now: u64|
                allowed == admits(old(self)@, key@, now) && final(self)@ == after_request(
                    old(self)@,
                    key@,
                    now,
                ),
    {
        let nanos = self.started.elapsed().as_nanos();
        let now: u64 = if nanos > u64::MAX as u128 {
            u64::MAX
        } else {
            nanos as u64
        };
        let allowed = self.check_at(key, now);
        assert(allowed == admits(old(self)@, key@, now) && self@ == after_request(
            old(self)@,
            key@,
            now,
        ));
        allowed
    }
}

} // verus!
