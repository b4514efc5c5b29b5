//! Model routing: failover classification, provider cooldowns, and the
//! candidate-by-candidate failover run that the LLM router drives.
//!
//! Time is measured in milliseconds of a clock that the caller reads.
use vstd::prelude::*;

use crate::text::{contains_string, all_ascii, ascii_lower, ascii_upper, lemma_ascii_lower_of_upper, concat3, contains_seq, copy_string, has_char, join_strings, owned, seq_join, str_contains, str_eq, to_lowercase, lower_text, views, chars_of, slice_chars, string_from_chars};

verus! {

// ───────────────────────────── Failover classification ─────────────────────────────

/// Default cooldown after a failure, in seconds.
pub const DEFAULT_COOLDOWN_SECS: u64 = 60;

/// Cooldown after a billing failure, in seconds.
pub const BILLING_COOLDOWN_SECS: u64 = 300;

/// Error classification for failover decisions.
#[derive(Debug, Clone, Copy, PartialEq, Eq, Structural)]
pub enum FailoverReason {
    RateLimit,
    Billing,
    Timeout,
    ServerError,
    ContextOverflow,
    AuthError,
    Unknown,
}

pub open spec fn reason_name(r: FailoverReason) -> Seq<char> {
    match r {
        FailoverReason::RateLimit => "rate_limit"@,
        FailoverReason::Billing => "billing"@,
        FailoverReason::Timeout => "timeout"@,
        FailoverReason::ServerError => "server_error"@,
        FailoverReason::ContextOverflow => "context_overflow"@,
        FailoverReason::AuthError => "auth_error"@,
        FailoverReason::Unknown => "unknown"@,
    }
}

impl FailoverReason {
    /// Stable snake_case name of the reason.
    pub fn as_str(&self) -> (r: &'static str)
        ensures
            r@ == reason_name(*self),
    {
        match self {
            FailoverReason::RateLimit => "rate_limit",
            FailoverReason::Billing => "billing",
            FailoverReason::Timeout => "timeout",
            FailoverReason::ServerError => "server_error",
            FailoverReason::ContextOverflow => "context_overflow",
            FailoverReason::AuthError => "auth_error",
            FailoverReason::Unknown => "unknown",
        }
    }
}

/// Classification of an already lowercased error text.
pub open spec fn classify_lower(l: Seq<char>) -> Option<FailoverReason> {
    if contains_seq(l, "429"@) || contains_seq(l, "rate limit"@) || contains_seq(l, "rate_limit"@) {
        Some(FailoverReason::RateLimit)
    } else if contains_seq(l, "insufficient"@) || contains_seq(l, "billing"@) || contains_seq(
        l,
        "credits"@,
    ) || contains_seq(l, "quota"@) || contains_seq(l, "payment"@) {
        Some(FailoverReason::Billing)
    } else if contains_seq(l, "timeout"@) || contains_seq(l, "timed out"@) || contains_seq(
        l,
        "deadline"@,
    ) {
        Some(FailoverReason::Timeout)
    } else if contains_seq(l, "500"@) || contains_seq(l, "502"@) || contains_seq(l, "503"@)
        || contains_seq(l, "504"@) || contains_seq(l, "internal server error"@) || contains_seq(
        l,
        "service unavailable"@,
    ) || contains_seq(l, "bad gateway"@) {
        Some(FailoverReason::ServerError)
    } else if contains_seq(l, "context"@) && (contains_seq(l, "overflow"@) || contains_seq(
        l,
        "too long"@,
    ) || contains_seq(l, "too large"@) || contains_seq(l, "exceed"@)) {
        Some(FailoverReason::ContextOverflow)
    } else if contains_seq(l, "401"@) || contains_seq(l, "403"@) || contains_seq(
        l,
        "unauthorized"@,
    ) || contains_seq(l, "forbidden"@) || contains_seq(l, "authentication"@) {
        Some(FailoverReason::AuthError)
    } else if contains_seq(l, "[retryable]"@) {
        Some(FailoverReason::Unknown)
    } else {
        None
    }
}

/// Classify a lowercased error text; the first matching class wins.
pub fn classify_lowered(lower: &str) -> (r: Option<FailoverReason>)
    ensures
        r == classify_lower(lower@),
{
    if str_contains(lower, "429") || str_contains(lower, "rate limit") || str_contains(
        lower,
        "rate_limit",
    ) {
        Some(FailoverReason::RateLimit)
    } else if str_contains(lower, "insufficient") || str_contains(lower, "billing")
        || str_contains(lower, "credits") || str_contains(lower, "quota") || str_contains(
        lower,
        "payment",
    ) {
        Some(FailoverReason::Billing)
    } else if str_contains(lower, "timeout") || str_contains(lower, "timed out") || str_contains(
        lower,
        "deadline",
    ) {
        Some(FailoverReason::Timeout)
    } else if str_contains(lower, "500") || str_contains(lower, "502") || str_contains(lower, "503")
        || str_contains(lower, "504") || str_contains(lower, "internal server error")
        || str_contains(lower, "service unavailable") || str_contains(lower, "bad gateway") {
        Some(FailoverReason::ServerError)
    } else if str_contains(lower, "context") && (str_contains(lower, "overflow") || str_contains(
        lower,
        "too long",
    ) || str_contains(lower, "too large") || str_contains(lower, "exceed")) {
        Some(FailoverReason::ContextOverflow)
    } else if str_contains(lower, "401") || str_contains(lower, "403") || str_contains(
        lower,
        "unauthorized",
    ) || str_contains(lower, "forbidden") || str_contains(lower, "authentication") {
        Some(FailoverReason::AuthError)
    } else if str_contains(lower, "[retryable]") {
        Some(FailoverReason::Unknown)
    } else {
        None
    }
}

/// The text names a rate limit.
pub open spec fn names_rate_limit(l: Seq<char>) -> bool {
    contains_seq(l, "429"@) || contains_seq(l, "rate limit"@) || contains_seq(l, "rate_limit"@)
}

/// The text names a billing problem.
pub open spec fn names_billing(l: Seq<char>) -> bool {
    contains_seq(l, "insufficient"@) || contains_seq(l, "billing"@) || contains_seq(l, "credits"@)
        || contains_seq(l, "quota"@) || contains_seq(l, "payment"@)
}

/// The text names a time-out.
pub open spec fn names_timeout(l: Seq<char>) -> bool {
    contains_seq(l, "timeout"@) || contains_seq(l, "timed out"@) || contains_seq(l, "deadline"@)
}

/// The text names a server error.
pub open spec fn names_server_error(l: Seq<char>) -> bool {
    contains_seq(l, "500"@) || contains_seq(l, "502"@) || contains_seq(l, "503"@) || contains_seq(l, "504"@)
        || contains_seq(l, "internal server error"@) || contains_seq(l, "service unavailable"@)
        || contains_seq(l, "bad gateway"@)
}

/// The text names a context that grew too large.
pub open spec fn names_context_overflow(l: Seq<char>) -> bool {
    contains_seq(l, "context"@) && (contains_seq(l, "overflow"@) || contains_seq(l, "too long"@)
        || contains_seq(l, "too large"@) || contains_seq(l, "exceed"@))
}

/// The text names an authentication failure.
pub open spec fn names_auth_error(l: Seq<char>) -> bool {
    contains_seq(l, "401"@) || contains_seq(l, "403"@) || contains_seq(l, "unauthorized"@)
        || contains_seq(l, "forbidden"@) || contains_seq(l, "authentication"@)
}

/// A failure is classified by the keywords of its lowercase text, in a fixed
/// order of precedence: rate limit, billing, time-out, server error, context
/// overflow, authentication, then a failure marked `[retryable]`; a text that
/// names none of them is not a failover error.
pub proof fn law_classification_by_keywords(l: Seq<char>)
    ensures
        names_rate_limit(l) ==> classify_lower(l) == Some(FailoverReason::RateLimit),
        !names_rate_limit(l) && names_billing(l) ==> classify_lower(l) == Some(FailoverReason::Billing),
        !names_rate_limit(l) && !names_billing(l) && names_timeout(l) ==> classify_lower(l) == Some(
            FailoverReason::Timeout,
        ),
        !names_rate_limit(l) && !names_billing(l) && !names_timeout(l) && names_server_error(l)
            ==> classify_lower(l) == Some(FailoverReason::ServerError),
        !names_rate_limit(l) && !names_billing(l) && !names_timeout(l) && !names_server_error(l)
            && names_context_overflow(l) ==> classify_lower(l) == Some(FailoverReason::ContextOverflow),
        !names_rate_limit(l) && !names_billing(l) && !names_timeout(l) && !names_server_error(l)
            && !names_context_overflow(l) && names_auth_error(l) ==> classify_lower(l) == Some(
            FailoverReason::AuthError,
        ),
        !names_rate_limit(l) && !names_billing(l) && !names_timeout(l) && !names_server_error(l)
            && !names_context_overflow(l) && !names_auth_error(l) ==> (classify_lower(l) == (if contains_seq(
            l,
            "[retryable]"@,
        ) {
            Some(FailoverReason::Unknown)
        } else {
            None
        })),
{
}

/// An error that says it timed out, and names no rate limit or billing
/// problem, is a time-out: the request fails over and the provider cools
/// down.
pub proof fn law_timed_out_is_timeout(l: Seq<char>)
    requires
        contains_seq(l, "timed out"@),
        !names_rate_limit(l),
        !names_billing(l),
    ensures
        classify_lower(l) == Some(FailoverReason::Timeout),
{
    law_classification_by_keywords(l);
}

/// For ASCII error texts the classification ignores letter case: texts equal
/// up to ASCII case, an error text and its uppercase form among them, are
/// classified alike (as `classify_failover_reason` classifies ASCII text).
pub proof fn law_classification_ignores_ascii_case(s: Seq<char>, t: Seq<char>)
    requires
        all_ascii(s),
    ensures
        all_ascii(t) && ascii_lower(t) == ascii_lower(s) ==> classify_lower(ascii_lower(t)) == classify_lower(
            ascii_lower(s),
        ),
        all_ascii(ascii_upper(s)),
        classify_lower(ascii_lower(ascii_upper(s))) == classify_lower(ascii_lower(s)),
{
    lemma_ascii_lower_of_upper(s);
}

/// Classify an error message to decide whether and how to fail over.
pub fn classify_failover_reason(err_str: &str) -> (r: Option<FailoverReason>)
    ensures
        r == classify_lower(lower_text(err_str@)),
        all_ascii(err_str@) ==> r == classify_lower(ascii_lower(err_str@)),
{
    let lower = to_lowercase(err_str);
    classify_lowered(lower.as_str())
}

/// Whether an error should trigger failover.
pub fn is_failover_error(err_str: &str) -> (r: bool)
    ensures
        r == classify_lower(lower_text(err_str@)).is_some(),
        all_ascii(err_str@) ==> r == classify_lower(ascii_lower(err_str@)).is_some(),
{
    classify_failover_reason(err_str).is_some()
}

pub open spec fn cooldown_secs(reason: FailoverReason) -> u64 {
    match reason {
        FailoverReason::Billing => BILLING_COOLDOWN_SECS,
        FailoverReason::RateLimit => DEFAULT_COOLDOWN_SECS,
        FailoverReason::Timeout => 30,
        FailoverReason::ServerError => 30,
        FailoverReason::ContextOverflow => 0,
        FailoverReason::AuthError => 3600,
        FailoverReason::Unknown => DEFAULT_COOLDOWN_SECS,
    }
}

/// Cooldown duration for a failure class, in milliseconds.
pub fn get_cooldown_duration(reason: FailoverReason) -> (ms: u64)
    ensures
        ms == cooldown_secs(reason) * 1000,
{
    let secs: u64 = match reason {
        FailoverReason::Billing => BILLING_COOLDOWN_SECS,
        FailoverReason::RateLimit => DEFAULT_COOLDOWN_SECS,
        FailoverReason::Timeout => 30,
        FailoverReason::ServerError => 30,
        FailoverReason::ContextOverflow => 0,
        FailoverReason::AuthError => 3600,
        FailoverReason::Unknown => DEFAULT_COOLDOWN_SECS,
    };
    secs * 1000
}

// ───────────────────────────── Cooldown state ─────────────────────────────

/// Cooldown state of one provider.
#[derive(Debug, Clone)]
pub struct ProviderCooldownStats {
    /// End of the cooldown, in clock milliseconds.
    pub cooldown_until: Option<u64>,
    pub failure_count: u32,
    pub last_failure_reason: Option<String>,
}

pub open spec fn saturating_add_u64(a: u64, b: u64) -> u64 {
    if a + b > u64::MAX {
        u64::MAX
    } else {
        (a + b) as u64
    }
}

pub open spec fn saturating_inc_u32(a: u32) -> u32 {
    if a == u32::MAX {
        u32::MAX
    } else {
        (a + 1) as u32
    }
}

impl ProviderCooldownStats {
    pub open spec fn in_cooldown_at(&self, now: u64) -> bool {
        match self.cooldown_until {
            Some(until) => now < until,
            None => false,
        }
    }

    /// Fresh state: no cooldown, no failures.
    pub fn new() -> (r: Self)
        ensures
            r.cooldown_until is None,
            r.failure_count == 0,
            r.last_failure_reason is None,
    {
        ProviderCooldownStats { cooldown_until: None, failure_count: 0, last_failure_reason: None }
    }

    /// Time left in the cooldown at `now`, when it is still running.
    pub open spec fn remaining_at(&self, now: u64) -> Option<u64> {
        match self.cooldown_until {
            Some(until) => if now < until {
                Some((until - now) as u64)
            } else {
                None
            },
            None => None,
        }
    }

    /// Whether the provider is cooling down at clock time `now`.
    pub fn is_in_cooldown_at(&self, now: u64) -> (r: bool)
        ensures
            r == self.in_cooldown_at(now),
    {
        match self.cooldown_until {
            Some(until) => now < until,
            None => false,
        }
    }

    /// Whether the provider is cooling down now: the answer at the instant the
    /// clock is read.
    pub fn is_in_cooldown(&self) -> (r: bool)
        ensures
            exists|now: u64| r == self.in_cooldown_at(now),
            r ==> self.cooldown_until is Some,
    {
        let now = clock_millis();
        self.is_in_cooldown_at(now)
    }

    /// Time left in the cooldown at clock time `now`, in milliseconds.
    pub fn remaining_cooldown_at(&self, now: u64) -> (r: Option<u64>)
        ensures
            match self.cooldown_until {
                Some(until) => if now < until {
                    r == Some((until - now) as u64)
                } else {
                    r is None
                },
                None => r is None,
            },
    {
        match self.cooldown_until {
            Some(until) => if now < until {
                Some(until - now)
            } else {
                None
            },
            None => None,
        }
    }

    /// Time left in the cooldown now, in milliseconds: the time left at the
    /// instant the clock is read.
    pub fn remaining_cooldown(&self) -> (r: Option<u64>)
        ensures
            exists|now: u64| r == self.remaining_at(now),
            r is Some ==> self.cooldown_until is Some,
    {
        let now = clock_millis();
        let r = self.remaining_cooldown_at(now);
        assert(r == self.remaining_at(now));
        r
    }

    /// Start a cooldown of `duration_ms` at clock time `now` and record the failure.
    pub fn set_cooldown_at(&mut self, now: u64, duration_ms: u64, reason: &str)
        ensures
            final(self).cooldown_until == Some(saturating_add_u64(now, duration_ms)),
            final(self).failure_count == saturating_inc_u32(old(self).failure_count),
            final(self).last_failure_reason matches Some(s) && s@ == reason@,
    {
        self.cooldown_until = Some(now.saturating_add(duration_ms));
        self.failure_count = self.failure_count.saturating_add(1);
        self.last_failure_reason = Some(owned(reason));
    }

    /// Start a cooldown of `duration_ms` from now and record the failure.
    pub fn set_cooldown(&mut self, duration_ms: u64, reason: &str)
        ensures
            exists|now: u64| final(self).cooldown_until == Some(saturating_add_u64(now, duration_ms)),
            final(self).failure_count == saturating_inc_u32(old(self).failure_count),
            final(self).last_failure_reason matches Some(s) && s@ == reason@,
    {
        let now = clock_millis();
        self.set_cooldown_at(now, duration_ms, reason);
    }

    /// End the cooldown; failure history is kept.
    pub fn clear_cooldown(&mut self)
        ensures
            final(self).cooldown_until is None,
            final(self).failure_count == old(self).failure_count,
            final(self).last_failure_reason == old(self).last_failure_reason,
    {
        self.cooldown_until = None;
    }
}

/// Milliseconds of the clock since the Unix epoch (0 for a clock set before
/// it): a reading of `chrono`'s `i64` millisecond clock, so never above
/// `i64::MAX`. Which value it is depends on the time at which it is read.
pub(crate) fn clock_millis() -> (r: u64)
    ensures
        r <= i64::MAX,
{
    let t = crate::clock::utc_now_millis();
    if t < 0 {
        0
    } else {
        t as u64
    }
}

/// Cooldown state of all providers, keyed by provider id. No id occurs twice.
pub struct CooldownStore {
    entries: Vec<(String, ProviderCooldownStats)>,
}

impl CooldownStore {
    /// No provider id occurs twice.
    pub closed spec fn wf(&self) -> bool {
        forall|i: int, j: int|
            0 <= i < j < self.entries@.len() ==> self.entries@[i].0@ != self.entries@[j].0@
    }

    /// The provider has an entry.
    pub closed spec fn has(&self, key: Seq<char>) -> bool {
        exists|i: int| 0 <= i < self.entries@.len() && self.entries@[i].0@ == key
    }

    /// The entry of a provider (meaningful when `has(key)`).
    pub closed spec fn get(&self, key: Seq<char>) -> ProviderCooldownStats {
        self.entries@[choose|i: int| 0 <= i < self.entries@.len() && self.entries@[i].0@ == key].1
    }

    /// The provider is cooling down at clock time `now`.
    pub open spec fn cooling(&self, key: Seq<char>, now: u64) -> bool {
        self.has(key) && self.get(key).in_cooldown_at(now)
    }

    /// Number of providers with an entry.
    pub closed spec fn count(&self) -> nat {
        self.entries@.len()
    }

    proof fn lemma_get_at(&self, i: int)
        requires
            self.wf(),
            0 <= i < self.entries@.len(),
        ensures
            self.has(self.entries@[i].0@),
            self.get(self.entries@[i].0@) == self.entries@[i].1,
    {
        let key = self.entries@[i].0@;
        let j = choose|j: int| 0 <= j < self.entries@.len() && self.entries@[j].0@ == key;
        if j != i {
            if j < i {
                assert(self.entries@[j].0@ != self.entries@[i].0@);
            } else {
                assert(self.entries@[i].0@ != self.entries@[j].0@);
            }
        }
    }

    /// An empty store.
    pub fn new() -> (r: Self)
        ensures
            r.wf(),
            forall|k: Seq<char>| !r.has(k),
            r.count() == 0,
    {
        CooldownStore { entries: Vec::new() }
    }

    fn index_of(&self, provider_id: &str) -> (r: Option<usize>)
        requires
            self.wf(),
        ensures
            match r {
                Some(i) => i < self.entries@.len() && self.entries@[i as int].0@ == provider_id@
                    && self.has(provider_id@) && self.get(provider_id@) == self.entries@[i as int].1,
                None => !self.has(provider_id@),
            },
    {
        let n = self.entries.len();
        for i in 0..n
            invariant
                n == self.entries@.len(),
                self.wf(),
                forall|j: int| 0 <= j < i ==> self.entries@[j].0@ != provider_id@,
        {
            if str_eq(self.entries[i].0.as_str(), provider_id) {
                proof {
                    self.lemma_get_at(i as int);
                }
                return Some(i);
            }
        }
        None
    }

    /// A copy of the provider's state, or fresh state when it has none.
    pub fn get_stats(&self, provider_id: &str) -> (r: ProviderCooldownStats)
        requires
            self.wf(),
        ensures
            self.has(provider_id@) ==> r.cooldown_until == self.get(provider_id@).cooldown_until
                && r.failure_count == self.get(provider_id@).failure_count
                && r.last_failure_reason == self.get(provider_id@).last_failure_reason,
            !self.has(provider_id@) ==> r.cooldown_until is None && r.failure_count == 0
                && r.last_failure_reason is None,
    {
        match self.index_of(provider_id) {
            Some(i) => {
                let s = &self.entries[i].1;
                let reason = match &s.last_failure_reason {
                    Some(x) => Some(x.clone()),
                    None => None,
                };
                ProviderCooldownStats {
                    cooldown_until: s.cooldown_until,
                    failure_count: s.failure_count,
                    last_failure_reason: reason,
                }
            },
            None => ProviderCooldownStats::new(),
        }
    }

    /// Whether the provider is cooling down at clock time `now`.
    pub fn is_cooling_at(&self, provider_id: &str, now: u64) -> (r: bool)
        requires
            self.wf(),
        ensures
            r == self.cooling(provider_id@, now),
    {
        match self.index_of(provider_id) {
            Some(i) => self.entries[i].1.is_in_cooldown_at(now),
            None => false,
        }
    }

    /// Start a cooldown for the provider at clock time `now` (creating its entry).
    pub fn set_cooldown_at(&mut self, provider_id: &str, now: u64, duration_ms: u64, reason: &str)
        requires
            old(self).wf(),
        ensures
            final(self).wf(),
            final(self).has(provider_id@),
            final(self).get(provider_id@).cooldown_until == Some(
                saturating_add_u64(now, duration_ms),
            ),
            final(self).get(provider_id@).failure_count == (if old(self).has(provider_id@) {
                saturating_inc_u32(old(self).get(provider_id@).failure_count)
            } else {
                1u32
            }),
            final(self).get(provider_id@).last_failure_reason matches Some(s) && s@ == reason@,
            forall|k: Seq<char>|
                k != provider_id@ ==> (final(self).has(k) == old(self).has(k) && (old(self).has(k)
                    ==> final(self).get(k) == old(self).get(k))),
    {
        let ghost old_store = *self;
        match self.index_of(provider_id) {
            Some(i) => {
                let key = self.entries[i].0.clone();
                let mut st = ProviderCooldownStats {
                    cooldown_until: self.entries[i].1.cooldown_until,
                    failure_count: self.entries[i].1.failure_count,
                    last_failure_reason: None,
                };
                st.set_cooldown_at(now, duration_ms, reason);
                self.entries.set(i, (key, st));
                proof {
                    assert(self.wf());
                    self.lemma_get_at(i as int);
                    assert forall|k: Seq<char>| k != provider_id@ implies (self.has(k)
                        == old_store.has(k) && (old_store.has(k) ==> self.get(k) == old_store.get(
                        k,
                    ))) by {
                        if old_store.has(k) {
                            let j = choose|j: int|
                                0 <= j < old_store.entries@.len() && old_store.entries@[j].0@ == k;
                            old_store.lemma_get_at(j);
                            self.lemma_get_at(j);
                        }
                        if self.has(k) {
                            let j = choose|j: int|
                                0 <= j < self.entries@.len() && self.entries@[j].0@ == k;
                            assert(old_store.entries@[j].0@ == k);
                        }
                    }
                }
            },
            None => {
                let mut st = ProviderCooldownStats::new();
                st.set_cooldown_at(now, duration_ms, reason);
                self.entries.push((owned(provider_id), st));
                proof {
                    let n = old_store.entries@.len() as int;
                    assert(self.wf());
                    self.lemma_get_at(n);
                    assert forall|k: Seq<char>| k != provider_id@ implies (self.has(k)
                        == old_store.has(k) && (old_store.has(k) ==> self.get(k) == old_store.get(
                        k,
                    ))) by {
                        if old_store.has(k) {
                            let j = choose|j: int|
                                0 <= j < old_store.entries@.len() && old_store.entries@[j].0@ == k;
                            old_store.lemma_get_at(j);
                            self.lemma_get_at(j);
                        }
                        if self.has(k) {
                            let j = choose|j: int|
                                0 <= j < self.entries@.len() && self.entries@[j].0@ == k;
                            assert(j < n);
                            assert(old_store.entries@[j].0@ == k);
                        }
                    }
                }
            },
        }
    }

    /// Start a cooldown for the provider from now.
    pub fn set_cooldown(&mut self, provider_id: &str, duration_ms: u64, reason: &str)
        requires
            old(self).wf(),
        ensures
            final(self).wf(),
            final(self).has(provider_id@),
            exists|now: u64| final(self).get(provider_id@).cooldown_until == Some(saturating_add_u64(now, duration_ms)),
            final(self).get(provider_id@).failure_count == (if old(self).has(provider_id@) {
                saturating_inc_u32(old(self).get(provider_id@).failure_count)
            } else {
                1u32
            }),
            final(self).get(provider_id@).last_failure_reason matches Some(s) && s@ == reason@,
            forall|k: Seq<char>|
                k != provider_id@ ==> (final(self).has(k) == old(self).has(k) && (old(self).has(k)
                    ==> final(self).get(k) == old(self).get(k))),
    {
        let now = clock_millis();
        self.set_cooldown_at(provider_id, now, duration_ms, reason);
    }

    /// End the provider's cooldown, if it has an entry.
    pub fn clear_cooldown(&mut self, provider_id: &str)
        requires
            old(self).wf(),
        ensures
            final(self).wf(),
            forall|k: Seq<char>| final(self).has(k) == old(self).has(k),
            old(self).has(provider_id@) ==> final(self).get(provider_id@).cooldown_until is None
                && final(self).get(provider_id@).failure_count == old(self).get(
                provider_id@,
            ).failure_count && final(self).get(provider_id@).last_failure_reason == old(
                self,
            ).get(provider_id@).last_failure_reason,
            forall|k: Seq<char>|
                k != provider_id@ && old(self).has(k) ==> final(self).get(k) == old(self).get(k),
    {
        let ghost old_store = *self;
        match self.index_of(provider_id) {
            Some(i) => {
                let key = self.entries[i].0.clone();
                let reason = match &self.entries[i].1.last_failure_reason {
                    Some(x) => Some(x.clone()),
                    None => None,
                };
                let st = ProviderCooldownStats {
                    cooldown_until: None,
                    failure_count: self.entries[i].1.failure_count,
                    last_failure_reason: reason,
                };
                self.entries.set(i, (key, st));
                proof {
                    assert(self.wf());
                    self.lemma_get_at(i as int);
                    assert forall|k: Seq<char>| self.has(k) == old_store.has(k) by {
                        if old_store.has(k) {
                            let j = choose|j: int|
                                0 <= j < old_store.entries@.len() && old_store.entries@[j].0@ == k;
                            assert(self.entries@[j].0@ == k);
                        }
                        if self.has(k) {
                            let j = choose|j: int|
                                0 <= j < self.entries@.len() && self.entries@[j].0@ == k;
                            assert(old_store.entries@[j].0@ == k);
                        }
                    }
                    assert forall|k: Seq<char>|
                        k != provider_id@ && old_store.has(k) implies self.get(k)
                        == old_store.get(k) by {
                        let j = choose|j: int|
                            0 <= j < old_store.entries@.len() && old_store.entries@[j].0@ == k;
                        old_store.lemma_get_at(j);
                        self.lemma_get_at(j);
                    }
                }
            },
            None => {},
        }
    }
}


pub open spec fn expire(st: ProviderCooldownStats, now: u64) -> ProviderCooldownStats {
    match st.cooldown_until {
        Some(until) => if now >= until {
            ProviderCooldownStats { cooldown_until: None, ..st }
        } else {
            st
        },
        None => st,
    }
}

/// `after` is `before` with every cooldown that is over at `now` ended.
pub open spec fn expired_at(before: CooldownStore, after: CooldownStore, now: u64) -> bool {
    forall|k: Seq<char>| before.has(k) ==> after.get(k) == expire(before.get(k), now)
}

impl CooldownStore {
    /// End every cooldown that is over at clock time `now`.
    pub fn clear_expired_cooldowns_at(&mut self, now: u64)
        requires
            old(self).wf(),
        ensures
            final(self).wf(),
            forall|k: Seq<char>| final(self).has(k) == old(self).has(k),
            forall|k: Seq<char>| old(self).has(k) ==> final(self).get(k) == expire(old(self).get(k), now),
    {
        let ghost old_store = *self;
        let n = self.entries.len();
        for i in 0..n
            invariant
                n == self.entries@.len(),
                n == old_store.entries@.len(),
                old_store.wf(),
                forall|j: int| 0 <= j < n ==> self.entries@[j].0 == old_store.entries@[j].0,
                forall|j: int| 0 <= j < i ==> self.entries@[j].1 == expire(old_store.entries@[j].1, now),
                forall|j: int| i <= j < n ==> self.entries@[j].1 == old_store.entries@[j].1,
        {
            let expired = match self.entries[i].1.cooldown_until {
                Some(until) => now >= until,
                None => false,
            };
            if expired {
                let key = self.entries[i].0.clone();
                let reason = match &self.entries[i].1.last_failure_reason {
                    Some(x) => Some(x.clone()),
                    None => None,
                };
                let st = ProviderCooldownStats {
                    cooldown_until: None,
                    failure_count: self.entries[i].1.failure_count,
                    last_failure_reason: reason,
                };
                self.entries.set(i, (key, st));
            }
        }
        proof {
            assert(self.wf());
            assert forall|k: Seq<char>| self.has(k) == old_store.has(k) by {
                if old_store.has(k) {
                    let j = choose|j: int| 0 <= j < old_store.entries@.len() && old_store.entries@[j].0@ == k;
                    assert(self.entries@[j].0@ == k);
                }
                if self.has(k) {
                    let j = choose|j: int| 0 <= j < self.entries@.len() && self.entries@[j].0@ == k;
                    assert(old_store.entries@[j].0@ == k);
                }
            }
            assert forall|k: Seq<char>| old_store.has(k) implies self.get(k) == expire(old_store.get(k), now) by {
                let j = choose|j: int| 0 <= j < old_store.entries@.len() && old_store.entries@[j].0@ == k;
                old_store.lemma_get_at(j);
                self.lemma_get_at(j);
            }
        }
    }

    /// End every cooldown that is over now.
    pub fn clear_expired_cooldowns(&mut self)
        requires
            old(self).wf(),
        ensures
            final(self).wf(),
            forall|k: Seq<char>| final(self).has(k) == old(self).has(k),
            exists|now: u64| #[trigger] expired_at(*old(self), *final(self), now),
    {
        let now = clock_millis();
        let ghost before = *self;
        self.clear_expired_cooldowns_at(now);
        assert(expired_at(before, *self, now));
    }
}


// ───────────────────────────── Candidate chain ─────────────────────────────

/// Retries within one provider for errors marked retryable.
pub const MAX_RETRIES: usize = 2;

/// Backoff before the first retry, in milliseconds; it doubles per retry.
pub const BASE_BACKOFF_MS: u64 = 1000;

/// Elements of `s` in order, keeping only the first occurrence of each.
pub open spec fn dedup(s: Seq<Seq<char>>) -> Seq<Seq<char>>
    decreases s.len(),
{
    if s.len() == 0 {
        seq![]
    } else {
        let d = dedup(s.drop_last());
        if d.contains(s.last()) {
            d
        } else {
            d.push(s.last())
        }
    }
}

/// The ordered candidate list: primary, then the model's fallbacks, then the global ones.
pub open spec fn chain(primary: Seq<char>, fallbacks: Seq<Seq<char>>, global: Seq<Seq<char>>) -> Seq<Seq<char>> {
    seq![primary] + fallbacks + global
}

fn push_unique(out: &mut Vec<String>, item: &String, ghost_prefix: Ghost<Seq<Seq<char>>>)
    requires
        views(old(out)@) == dedup(ghost_prefix@),
    ensures
        views(final(out)@) == dedup(ghost_prefix@.push(item@)),
{
    let ghost p = ghost_prefix@;
    assert(p.push(item@).drop_last() =~= p);
    if !contains_string(out, item.as_str()) {
        let ghost before = views(out@);
        out.push(item.clone());
        assert(views(out@) =~= before.push(item@));
    }
}

/// Deduplicated candidate list, first occurrences kept in order.
pub fn candidate_chain(primary: &str, fallbacks: &Vec<String>, global: &Vec<String>) -> (r: Vec<String>)
    ensures
        views(r@) == dedup(chain(primary@, views(fallbacks@), views(global@))),
{
    let ghost all = chain(primary@, views(fallbacks@), views(global@));
    let mut out: Vec<String> = Vec::new();
    let p = owned(primary);
    assert(seq![primary@] =~= Seq::<Seq<char>>::empty().push(primary@));
    assert(dedup(Seq::<Seq<char>>::empty()) == Seq::<Seq<char>>::empty());
    assert(views(out@) =~= Seq::<Seq<char>>::empty());
    push_unique(&mut out, &p, Ghost(Seq::empty()));
    assert(all.take(1) =~= seq![primary@]);
    let nf = fallbacks.len();
    for i in 0..nf
        invariant
            nf == fallbacks@.len(),
            all == chain(primary@, views(fallbacks@), views(global@)),
            views(out@) == dedup(all.take(1 + i)),
    {
        assert(all.take(1 + i + 1) =~= all.take(1 + i).push(fallbacks@[i as int]@));
        push_unique(&mut out, &fallbacks[i], Ghost(all.take(1 + i)));
    }
    let ng = global.len();
    for i in 0..ng
        invariant
            nf == fallbacks@.len(),
            ng == global@.len(),
            all == chain(primary@, views(fallbacks@), views(global@)),
            views(out@) == dedup(all.take(1 + nf + i)),
    {
        assert(all.take(1 + nf + i + 1) =~= all.take(1 + nf + i).push(global@[i as int]@));
        push_unique(&mut out, &global[i], Ghost(all.take(1 + nf + i)));
    }
    assert(all.take(1 + nf + ng) =~= all);
    out
}

// ───────────────────────────── Model resolution ─────────────────────────────

/// Target of the first alias whose name is `raw`.
pub open spec fn alias_lookup(aliases: Seq<(String, String)>, raw: Seq<char>) -> Option<Seq<char>>
    decreases aliases.len(),
{
    if aliases.len() == 0 {
        None
    } else if aliases[0].0@ == raw {
        Some(aliases[0].1@)
    } else {
        alias_lookup(aliases.drop_first(), raw)
    }
}

/// A model reference with a `/` is used as it is; otherwise it names an alias.
pub open spec fn resolve_spec(aliases: Seq<(String, String)>, raw: Seq<char>) -> Option<Seq<char>> {
    if has_char(raw, '/') {
        Some(raw)
    } else {
        alias_lookup(aliases, raw)
    }
}

/// `i` is the first index of `c` in `s`.
pub open spec fn first_index(s: Seq<char>, c: char, i: int) -> bool {
    0 <= i < s.len() && s[i] == c && forall|j: int| 0 <= j < i ==> s[j] != c
}

/// `provider/model`, split at the first `/`.
pub open spec fn split_model(s: Seq<char>) -> Option<(Seq<char>, Seq<char>)> {
    if has_char(s, '/') {
        let i = choose|i: int| first_index(s, '/', i);
        Some((s.take(i), s.skip(i + 1)))
    } else {
        None
    }
}

/// Errors of model resolution.
#[derive(Debug, PartialEq, Eq)]
pub enum RouteError {
    UnknownAlias(String),
    InvalidModelFormat(String),
}

impl RouteError {
    /// Human-readable message of the error.
    pub fn message(&self) -> (r: String)
        ensures
            match self {
                RouteError::UnknownAlias(a) => r@ == "unknown model alias: "@ + a@,
                RouteError::InvalidModelFormat(m) => r@ == "invalid model format: "@ + m@,
            },
    {
        match self {
            RouteError::UnknownAlias(a) => crate::text::concat2("unknown model alias: ", a.as_str()),
            RouteError::InvalidModelFormat(m) => crate::text::concat2("invalid model format: ", m.as_str()),
        }
    }
}

/// Resolve a model reference through the alias table.
pub fn resolve_model(aliases: &Vec<(String, String)>, raw: &str) -> (r: Result<String, RouteError>)
    ensures
        match r {
            Ok(m) => resolve_spec(aliases@, raw@) == Some(m@),
            Err(e) => resolve_spec(aliases@, raw@) is None && (e matches RouteError::UnknownAlias(a) && a@ == raw@),
        },
{
    let raw_chars = chars_of(raw);
    if crate::text::has_char_exec(raw_chars.as_slice(), '/') {
        return Ok(owned(raw));
    }
    let n = aliases.len();
    assert(aliases@.skip(0) =~= aliases@);
    for i in 0..n
        invariant
            n == aliases@.len(),
            !has_char(raw@, '/'),
            alias_lookup(aliases@, raw@) == alias_lookup(aliases@.skip(i as int), raw@),
    {
        assert(aliases@.skip(i as int)[0] == aliases@[i as int]);
        assert(aliases@.skip(i as int).drop_first() =~= aliases@.skip(i + 1));
        if str_eq(aliases[i].0.as_str(), raw) {
            assert(alias_lookup(aliases@.skip(i as int), raw@) == Some(aliases@[i as int].1@));
            let target = copy_string(&aliases[i].1);
            return Ok(target);
        }
    }
    assert(aliases@.skip(n as int) =~= Seq::<(String, String)>::empty());
    Err(RouteError::UnknownAlias(owned(raw)))
}

/// Split `provider/model` at the first `/`.
pub fn parse_provider_model(input: &str) -> (r: Result<(String, String), RouteError>)
    ensures
        match r {
            Ok((p, m)) => split_model(input@) == Some((p@, m@)),
            Err(e) => split_model(input@) is None && (e matches RouteError::InvalidModelFormat(x) && x@ == input@),
        },
{
    let v = chars_of(input);
    let n = v.len();
    for i in 0..n
        invariant
            n == v@.len(),
            v@ == input@,
            forall|j: int| 0 <= j < i ==> v@[j] != '/',
    {
        if v[i] == '/' {
            let provider = slice_chars(v.as_slice(), 0, i);
            let model = slice_chars(v.as_slice(), i + 1, n);
            proof {
                assert(first_index(input@, '/', i as int));
                assert(has_char(input@, '/'));
                let k = choose|k: int| first_index(input@, '/', k);
                assert(k == i) by {
                    if k < i {
                    } else if k > i {
                        assert(input@[i as int] == '/');
                    }
                }
                assert(provider@ =~= input@.take(i as int));
                assert(model@ =~= input@.skip(i + 1));
            }
            return Ok((string_from_chars(provider.as_slice()), string_from_chars(model.as_slice())));
        }
    }
    Err(RouteError::InvalidModelFormat(owned(input)))
}

// ───────────────────────────── Laws of the candidate chain ─────────────────────────────

/// The deduplicated list holds no element twice.
pub proof fn law_dedup_distinct(s: Seq<Seq<char>>)
    ensures
        forall|i: int, j: int|
            0 <= i < j < dedup(s).len() ==> #[trigger] dedup(s)[i] != #[trigger] dedup(s)[j],
    decreases s.len(),
{
    if s.len() > 0 {
        law_dedup_distinct(s.drop_last());
        let d = dedup(s.drop_last());
        if !d.contains(s.last()) {
            assert forall|i: int, j: int|
                0 <= i < j < dedup(s).len() implies #[trigger] dedup(s)[i] != #[trigger] dedup(s)[j] by {
                if j == d.len() {
                    if dedup(s)[i] == dedup(s)[j] {
                        assert(d[i] == s.last());
                        assert(d.contains(s.last()));
                    }
                }
            }
        }
    }
}

/// An element is in the deduplicated list exactly when it is in the list.
pub proof fn law_dedup_same_elements(s: Seq<Seq<char>>)
    ensures
        forall|x: Seq<char>| #[trigger] dedup(s).contains(x) <==> s.contains(x),
    decreases s.len(),
{
    if s.len() > 0 {
        law_dedup_same_elements(s.drop_last());
        let d = dedup(s.drop_last());
        assert(dedup(s) == if d.contains(s.last()) {
            d
        } else {
            d.push(s.last())
        });
        assert forall|x: Seq<char>| #[trigger] dedup(s).contains(x) <==> s.contains(x) by {
            if s.contains(x) {
                let k = choose|k: int| 0 <= k < s.len() && s[k] == x;
                if k < s.len() - 1 {
                    assert(s.drop_last()[k] == x);
                    assert(s.drop_last().contains(x));
                    assert(d.contains(x));
                    let m = choose|m: int| 0 <= m < d.len() && d[m] == x;
                    assert(dedup(s)[m] == x);
                    assert(dedup(s).contains(x));
                } else {
                    if !d.contains(x) {
                        assert(dedup(s)[d.len() as int] == x);
                        assert(dedup(s).contains(x));
                    } else {
                        let m = choose|m: int| 0 <= m < d.len() && d[m] == x;
                        assert(dedup(s)[m] == x);
                        assert(dedup(s).contains(x));
                    }
                }
            }
            if dedup(s).contains(x) {
                let m = choose|m: int| 0 <= m < dedup(s).len() && dedup(s)[m] == x;
                if m < d.len() {
                    assert(d[m] == x);
                    assert(d.contains(x));
                    assert(s.drop_last().contains(x));
                    let k = choose|k: int| 0 <= k < s.drop_last().len() && s.drop_last()[k] == x;
                    assert(s[k] == x);
                    assert(s.contains(x));
                } else {
                    assert(s[s.len() - 1] == x);
                    assert(s.contains(x));
                }
            }
        }
    }
}

proof fn lemma_dedup_first(s: Seq<Seq<char>>)
    requires
        s.len() > 0,
    ensures
        dedup(s).len() > 0,
        dedup(s)[0] == s[0],
    decreases s.len(),
{
    if s.len() == 1 {
        assert(s.drop_last().len() == 0);
    } else {
        lemma_dedup_first(s.drop_last());
        assert(s.drop_last()[0] == s[0]);
    }
}

/// The candidate chain starts with the primary model, holds no candidate
/// twice, and holds exactly the primary, fallback and global fallback models.
pub proof fn law_candidate_chain(primary: Seq<char>, fallbacks: Seq<Seq<char>>, global: Seq<Seq<char>>)
    ensures
        dedup(chain(primary, fallbacks, global)).len() > 0,
        dedup(chain(primary, fallbacks, global))[0] == primary,
        forall|i: int, j: int|
            0 <= i < j < dedup(chain(primary, fallbacks, global)).len() ==> #[trigger] dedup(
                chain(primary, fallbacks, global),
            )[i] != #[trigger] dedup(chain(primary, fallbacks, global))[j],
        forall|x: Seq<char>|
            #[trigger] dedup(chain(primary, fallbacks, global)).contains(x) <==> (x == primary
                || fallbacks.contains(x) || global.contains(x)),
{
    let c = chain(primary, fallbacks, global);
    assert(c[0] == primary);
    lemma_dedup_first(c);
    law_dedup_distinct(c);
    law_dedup_same_elements(c);
    assert forall|x: Seq<char>| c.contains(x) <==> (x == primary || fallbacks.contains(x) || global.contains(x)) by {
        if c.contains(x) {
            let k = choose|k: int| 0 <= k < c.len() && c[k] == x;
            if k == 0 {
            } else if k < 1 + fallbacks.len() {
                assert(fallbacks[k - 1] == x);
            } else {
                assert(global[k - 1 - fallbacks.len()] == x);
            }
        }
        if x == primary {
            assert(c[0] == x);
        }
        if fallbacks.contains(x) {
            let k = choose|k: int| 0 <= k < fallbacks.len() && fallbacks[k] == x;
            assert(c[k + 1] == x);
        }
        if global.contains(x) {
            let k = choose|k: int| 0 <= k < global.len() && global[k] == x;
            assert(c[k + 1 + fallbacks.len()] == x);
        }
    }
}

// ───────────────────────────── Laws of cooldowns ─────────────────────────────

/// A cooldown set at `now` for `duration_ms` holds at every time from `now` up to
/// the deadline and ends there (the deadline saturates at the largest time).
pub proof fn law_cooldown_window(st: ProviderCooldownStats, now: u64, duration_ms: u64, t: u64)
    requires
        st.cooldown_until == Some(saturating_add_u64(now, duration_ms)),
    ensures
        st.in_cooldown_at(t) <==> t < saturating_add_u64(now, duration_ms),
        now + duration_ms <= u64::MAX && now <= t && t < now + duration_ms ==> st.in_cooldown_at(t),
        now + duration_ms <= t ==> !st.in_cooldown_at(t),
{
}

/// Once expired cooldowns are cleared at `now`, nothing is cooling down at `now`
/// that was not before, and a cooldown still running is kept.
pub proof fn law_expire_keeps_running_cooldowns(st: ProviderCooldownStats, now: u64)
    ensures
        expire(st, now).in_cooldown_at(now) == st.in_cooldown_at(now),
        st.in_cooldown_at(now) ==> expire(st, now) == st,
        expire(st, now).failure_count == st.failure_count,
{
}

// ───────────────────────────── Failover run ─────────────────────────────

/// `p` is one of the registered providers.
pub open spec fn listed(available: Seq<String>, p: Seq<char>) -> bool {
    views(available).contains(p)
}

/// The provider and model a candidate stands for, if it resolves.
pub open spec fn candidate_target(aliases: Seq<(String, String)>, cand: Seq<char>) -> Option<(Seq<char>, Seq<char>)> {
    match resolve_spec(aliases, cand) {
        Some(r) => split_model(r),
        None => None,
    }
}

/// A candidate that resolves to a registered provider that is not cooling down.
pub open spec fn viable(
    aliases: Seq<(String, String)>,
    store: CooldownStore,
    now: u64,
    available: Seq<String>,
    cand: Seq<char>,
) -> bool {
    match candidate_target(aliases, cand) {
        Some((p, m)) => !store.cooling(p, now) && listed(available, p),
        None => false,
    }
}

/// The error reported when no candidate could serve the request.
pub open spec fn exhausted_message(streaming: bool, last_error: Option<Seq<char>>, tried: Seq<Seq<char>>) -> Seq<char> {
    match last_error {
        Some(e) => e,
        None => if streaming {
            "no model candidate available for streaming"@
        } else {
            "all model candidates failed or in cooldown (tried: "@ + seq_join(tried, " -> "@) + ")"@
        },
    }
}

/// What the caller does next.
#[derive(Debug, PartialEq, Eq)]
pub enum RouterAction {
    /// Send the request to this provider with this model.
    Call { provider_id: String, model_id: String },
    /// Every candidate failed, was skipped or is cooling down.
    Exhausted { message: String },
}

/// What follows a failed call.
#[derive(Debug, PartialEq, Eq)]
pub enum FailureStep {
    /// Wait this many milliseconds, then call the same provider again.
    Retry { backoff_ms: u64 },
    /// Go on with the next candidate.
    MoveOn,
}

/// One request's walk through the candidate chain, with retries and cooldowns.
pub struct FailoverRun {
    pub candidates: Vec<String>,
    /// Index of the next candidate to consider.
    pub next: usize,
    /// Index of the candidate being called.
    pub current_index: usize,
    pub current: Option<(String, String)>,
    /// Retries made with the current provider.
    pub attempts: usize,
    /// `provider/model` of every provider called so far.
    pub tried: Vec<String>,
    pub last_error: Option<String>,
    /// Streaming requests are not retried within a provider.
    pub streaming: bool,
}

pub open spec fn opt_view(o: Option<String>) -> Option<Seq<char>> {
    match o {
        Some(s) => Some(s@),
        None => None,
    }
}

pub open spec fn pow2(n: nat) -> nat
    decreases n,
{
    if n == 0 {
        1
    } else {
        2 * pow2((n - 1) as nat)
    }
}

/// A walk calls candidates in chain order, each in one run of calls: along the
/// states after the `advance` steps that chose a candidate (each chose at or
/// after the position it started from and moved past its choice, and the
/// position only grows in between), the chosen positions strictly increase.
pub proof fn law_walk_follows_chain(states: Seq<FailoverRun>)
    requires
        forall|i: int| 0 <= i < states.len() ==> #[trigger] states[i].next == states[i].current_index + 1,
        forall|i: int|
            0 <= i < states.len() - 1 ==> #[trigger] states[i + 1].current_index >= states[i].next,
    ensures
        forall|i: int, j: int|
            0 <= i < j < states.len() ==> states[i].current_index < states[j].current_index,
{
    assert forall|i: int, j: int| 0 <= i < j < states.len() implies states[i].current_index
        < states[j].current_index by {
        lemma_walk_step(states, i, j);
    }
}

proof fn lemma_walk_step(states: Seq<FailoverRun>, i: int, j: int)
    requires
        0 <= i < j < states.len(),
        forall|k: int| 0 <= k < states.len() ==> #[trigger] states[k].next == states[k].current_index + 1,
        forall|k: int|
            0 <= k < states.len() - 1 ==> #[trigger] states[k + 1].current_index >= states[k].next,
    ensures
        states[i].current_index < states[j].current_index,
    decreases j - i,
{
    assert(states[i + 1].current_index >= states[i].next);
    assert(states[i].next == states[i].current_index + 1);
    if j > i + 1 {
        lemma_walk_step(states, i + 1, j);
    }
}

proof fn lemma_retry_counts(states: Seq<FailoverRun>, n: int)
    requires
        0 <= n < states.len(),
        states[0].attempts == 0,
        forall|i: int|
            0 <= i < states.len() - 1 ==> #[trigger] states[i + 1].attempts == states[i].attempts + 1,
    ensures
        states[n].attempts == n,
    decreases n,
{
    if n > 0 {
        lemma_retry_counts(states, n - 1);
        assert(states[(n - 1) + 1].attempts == states[n - 1].attempts + 1);
    }
}

/// A candidate is called at most `1 + MAX_RETRIES` times: a call starts with
/// no retries (`advance`), and a retry is owed only while fewer than
/// `MAX_RETRIES` were made, each raising the count by one (`on_failure`). Along
/// the states of the retries of one call there are at most `MAX_RETRIES` of them.
pub proof fn law_retries_bounded(states: Seq<FailoverRun>)
    requires
        states.len() >= 1,
        states[0].attempts == 0,
        forall|i: int| 0 <= i < states.len() - 1 ==> #[trigger] states[i].attempts < MAX_RETRIES,
        forall|i: int|
            0 <= i < states.len() - 1 ==> #[trigger] states[i + 1].attempts == states[i].attempts + 1,
    ensures
        states.len() - 1 <= MAX_RETRIES,
{
    let n = states.len() - 1;
    if n > 0 {
        lemma_retry_counts(states, n - 1);
        assert(states[n - 1].attempts < MAX_RETRIES);
    }
}

impl FailoverRun {
    /// A run over the deduplicated chain of primary, fallbacks and global fallbacks.
    pub fn new(primary: &str, fallbacks: &Vec<String>, global: &Vec<String>, streaming: bool) -> (r: Self)
        ensures
            views(r.candidates@) == dedup(chain(primary@, views(fallbacks@), views(global@))),
            r.next == 0,
            r.current is None,
            r.attempts == 0,
            r.tried@.len() == 0,
            r.last_error is None,
            r.streaming == streaming,
    {
        FailoverRun {
            candidates: candidate_chain(primary, fallbacks, global),
            next: 0,
            current_index: 0,
            current: None,
            attempts: 0,
            tried: Vec::new(),
            last_error: None,
            streaming,
        }
    }

    /// Pick the next viable candidate, or report exhaustion.
    pub fn advance(
        &mut self,
        aliases: &Vec<(String, String)>,
        store: &CooldownStore,
        now: u64,
        available: &Vec<String>,
    ) -> (action: RouterAction)
        requires
            store.wf(),
            old(self).next <= old(self).candidates@.len(),
        ensures
            final(self).candidates == old(self).candidates,
            final(self).last_error == old(self).last_error,
            final(self).streaming == old(self).streaming,
            final(self).next <= final(self).candidates@.len(),
            match action {
                RouterAction::Call { provider_id, model_id } => {
                    let ci = final(self).current_index as int;
                    &&& old(self).next <= ci < old(self).candidates@.len()
                    &&& final(self).next == ci + 1
                    &&& viable(aliases@, *store, now, available@, old(self).candidates@[ci]@)
                    &&& forall|j: int| old(self).next <= j < ci ==> !viable(aliases@, *store, now, available@, old(self).candidates@[j]@)
                    &&& candidate_target(aliases@, old(self).candidates@[ci]@) == Some((provider_id@, model_id@))
                    &&& final(self).current matches Some((p, m)) && p@ == provider_id@ && m@ == model_id@
                    &&& final(self).attempts == 0
                    &&& views(final(self).tried@) == views(old(self).tried@).push(provider_id@ + "/"@ + model_id@)
                },
                RouterAction::Exhausted { message } => {
                    &&& forall|j: int| old(self).next <= j < old(self).candidates@.len() ==> !viable(aliases@, *store, now, available@, old(self).candidates@[j]@)
                    &&& message@ == exhausted_message(old(self).streaming, opt_view(old(self).last_error), views(old(self).tried@))
                    &&& final(self).next == final(self).candidates@.len()
                },
            },
    {
        let n = self.candidates.len();
        while self.next < n
            invariant
                n == self.candidates@.len(),
                self.candidates == old(self).candidates,
                self.last_error == old(self).last_error,
                self.streaming == old(self).streaming,
                self.tried == old(self).tried,
                old(self).next <= self.next <= n,
                store.wf(),
                forall|j: int| old(self).next <= j < self.next ==> !viable(aliases@, *store, now, available@, self.candidates@[j]@),
            decreases n - self.next,
        {
            let i = self.next;
            self.next = i + 1;
            let cand = self.candidates[i].as_str();
            let resolved = match resolve_model(aliases, cand) {
                Ok(r) => r,
                Err(_) => continue,
            };
            let (provider_id, model_id) = match parse_provider_model(resolved.as_str()) {
                Ok(pm) => pm,
                Err(_) => continue,
            };
            if store.is_cooling_at(provider_id.as_str(), now) {
                continue;
            }
            if !contains_string(available, provider_id.as_str()) {
                continue;
            }
            let label = concat3(provider_id.as_str(), "/", model_id.as_str());
            let ghost before = views(self.tried@);
            self.tried.push(label);
            assert(views(self.tried@) =~= before.push(provider_id@ + "/"@ + model_id@));
            self.current_index = i;
            self.current = Some((provider_id, model_id));
            self.attempts = 0;
            return RouterAction::Call {
                provider_id: copy_string(&self.current.as_ref().unwrap().0),
                model_id: copy_string(&self.current.as_ref().unwrap().1),
            };
        }
        let message = match &self.last_error {
            Some(e) => e.clone(),
            None => if self.streaming {
                owned("no model candidate available for streaming")
            } else {
                let joined = join_strings(&self.tried, " -> ");
                concat3("all model candidates failed or in cooldown (tried: ", joined.as_str(), ")")
            },
        };
        RouterAction::Exhausted { message }
    }

    /// The call to repeat after a retry backoff.
    pub fn retry_call(&self) -> (action: RouterAction)
        requires
            self.current is Some,
        ensures
            action matches RouterAction::Call { provider_id, model_id } && self.current matches Some((p, m))
                && p@ == provider_id@ && m@ == model_id@,
    {
        let (p, m) = self.current.as_ref().unwrap();
        RouterAction::Call { provider_id: copy_string(p), model_id: copy_string(m) }
    }

    /// Record a failed call: retry a retryable error while retries remain,
    /// otherwise put the provider in cooldown for the error's class and move on.
    pub fn on_failure(&mut self, error: &str, store: &mut CooldownStore, now: u64) -> (step: FailureStep)
        requires
            old(self).current is Some,
            old(store).wf(),
        ensures
            final(store).wf(),
            final(self).candidates == old(self).candidates,
            final(self).next == old(self).next,
            final(self).current == old(self).current,
            final(self).current_index == old(self).current_index,
            final(self).tried == old(self).tried,
            final(self).streaming == old(self).streaming,
            ({
                let retryable = contains_seq(error@, "[retryable]"@);
                if !old(self).streaming && retryable && old(self).attempts < MAX_RETRIES {
                    &&& step == FailureStep::Retry { backoff_ms: (BASE_BACKOFF_MS * pow2(old(self).attempts as nat)) as u64 }
                    &&& final(self).attempts == old(self).attempts + 1
                    &&& final(self).last_error == old(self).last_error
                    &&& *final(store) == *old(store)
                } else {
                    &&& step == FailureStep::MoveOn
                    &&& final(self).attempts == old(self).attempts
                    &&& opt_view(final(self).last_error) == Some(error@)
                    &&& match classify_lower(lower_text(error@)) {
                        Some(reason) => {
                            let p = old(self).current.unwrap().0@;
                            &&& final(store).has(p)
                            &&& final(store).get(p).cooldown_until == Some(saturating_add_u64(now, (cooldown_secs(reason) * 1000) as u64))
                            &&& final(store).get(p).failure_count == (if old(store).has(p) {
                                saturating_inc_u32(old(store).get(p).failure_count)
                            } else {
                                1u32
                            })
                            &&& final(store).get(p).last_failure_reason matches Some(r) && r@ == reason_name(reason)
                            &&& forall|k: Seq<char>| k != p ==> (final(store).has(k) == old(store).has(k)
                                && (old(store).has(k) ==> final(store).get(k) == old(store).get(k)))
                        },
                        None => *final(store) == *old(store),
                    }
                }
            }),
    {
        let retryable = str_contains(error, "[retryable]");
        if !self.streaming && retryable && self.attempts < MAX_RETRIES {
            let backoff: u64 = if self.attempts == 0 { BASE_BACKOFF_MS } else { BASE_BACKOFF_MS * 2 };
            assert(pow2(0) == 1);
            assert(pow2(1) == 2);
            self.attempts = self.attempts + 1;
            return FailureStep::Retry { backoff_ms: backoff };
        }
        let reason = classify_failover_reason(error);
        match reason {
            Some(r) => {
                let duration = get_cooldown_duration(r);
                let pid = copy_string(&self.current.as_ref().unwrap().0);
                store.set_cooldown_at(pid.as_str(), now, duration, r.as_str());
            },
            None => {},
        }
        self.last_error = Some(owned(error));
        FailureStep::MoveOn
    }

    /// Record a successful call: the provider's cooldown ends. Returns whether a
    /// fallback candidate (not the primary) served the request.
    pub fn on_success(&self, store: &mut CooldownStore) -> (fallback_used: bool)
        requires
            self.current is Some,
            old(store).wf(),
        ensures
            final(store).wf(),
            fallback_used == (self.current_index > 0),
            old(store).has(self.current.unwrap().0@) ==> final(store).get(self.current.unwrap().0@).cooldown_until is None
                && final(store).get(self.current.unwrap().0@).failure_count == old(store).get(self.current.unwrap().0@).failure_count
                && final(store).get(self.current.unwrap().0@).last_failure_reason == old(store).get(self.current.unwrap().0@).last_failure_reason,
            forall|k: Seq<char>| final(store).has(k) == old(store).has(k),
            forall|k: Seq<char>| k != self.current.unwrap().0@ && old(store).has(k) ==> final(store).get(k) == old(store).get(k),
    {
        let pid = self.current.as_ref().unwrap().0.as_str();
        store.clear_cooldown(pid);
        self.current_index > 0
    }
}

} // verus!
