//! Backing off from model providers that limit the rate of requests.
use vstd::prelude::*;

use crate::constants;
use crate::text;
use crate::text::{trim, trims_to_empty};
use crate::text_search::{contains, to_ascii_lowercase};

verus! {

/// How the service gets on with one provider and model.
#[derive(Debug, Clone, Copy, PartialEq, Eq, Structural)]
pub struct GovernorState {
    pub throttled_until_ms: u64,
    pub backoff_ms: u64,
    pub recent_errors: u32,
    pub inflight_count: u32,
}

impl Default for GovernorState {
    fn default() -> (r: Self)
        ensures
            r == (GovernorState {
                throttled_until_ms: 0,
                backoff_ms: 0,
                recent_errors: 0,
                inflight_count: 0,
            }),
    {
        GovernorState { throttled_until_ms: 0, backoff_ms: 0, recent_errors: 0, inflight_count: 0 }
    }
}

/// A sum held at the bound of `u64`.
pub open spec fn capped_sum(a: int, b: int) -> u64 {
    if a + b <= u64::MAX {
        (a + b) as u64
    } else {
        u64::MAX
    }
}

/// One more, held at the bound of `u32`.
pub open spec fn one_more(n: u32) -> u32 {
    if n < u32::MAX {
        (n + 1) as u32
    } else {
        n
    }
}

/// One less, but not below zero.
pub open spec fn one_less(n: u32) -> u32 {
    if n > 0 {
        (n - 1) as u32
    } else {
        0
    }
}

/// The backoff after one more rate limit: the first one, or twice the last, up to a bound.
pub open spec fn next_backoff(backoff_ms: u64) -> u64 {
    if backoff_ms == 0 {
        constants::GOVERNOR_BACKOFF_INITIAL_MS
    } else if 2 * backoff_ms < constants::GOVERNOR_BACKOFF_MAX_MS {
        (2 * backoff_ms) as u64
    } else {
        constants::GOVERNOR_BACKOFF_MAX_MS
    }
}

/// How much is added to a backoff at a time: less than a fifth of it and one, spread by the
/// clock.
pub open spec fn jitter(backoff_ms: u64, now_ms: u64) -> u64 {
    let window = if backoff_ms / 5 < 25 {
        25
    } else {
        backoff_ms / 5
    };
    now_ms % ((window + 1) as u64)
}

/// The state after a rate limit.
pub open spec fn after_rate_limit(s: GovernorState, now_ms: u64) -> GovernorState {
    let backoff = next_backoff(s.backoff_ms);
    GovernorState {
        inflight_count: one_less(s.inflight_count),
        recent_errors: one_more(s.recent_errors),
        backoff_ms: backoff,
        throttled_until_ms: capped_sum(now_ms as int, backoff + jitter(backoff, now_ms)),
    }
}

/// The state after a success: half the backoff, none once the errors are made good.
pub open spec fn after_success(s: GovernorState, now_ms: u64) -> GovernorState {
    let errors = one_less(s.recent_errors);
    let half = s.backoff_ms / 2;
    if half == 0 || errors == 0 {
        GovernorState {
            recent_errors: errors,
            backoff_ms: 0,
            throttled_until_ms: if s.throttled_until_ms <= now_ms {
                0
            } else {
                s.throttled_until_ms
            },
            ..s
        }
    } else {
        GovernorState { recent_errors: errors, backoff_ms: half, ..s }
    }
}

/// The name of a provider and a model, where there is a provider.
pub open spec fn key_of(provider: Option<Seq<char>>, model: Option<Seq<char>>) -> Option<
    Seq<char>,
> {
    match provider {
        Some(p) => if text::is_blank(p) {
            None
        } else {
            match model {
                Some(m) => if text::is_blank(m) {
                    Some(text::trimmed(p))
                } else {
                    Some(text::trimmed(p) + "/"@ + text::trimmed(m))
                },
                None => Some(text::trimmed(p)),
            }
        },
        None => None,
    }
}

/// The text behind an optional reference.
pub open spec fn opt_str(s: Option<&str>) -> Option<Seq<char>> {
    match s {
        Some(s) => Some(s@),
        None => None,
    }
}

/// The text behind a reference.
pub fn opt_ref(t: &Option<String>) -> (r: Option<&str>)
    ensures
        opt_str(r) == text::opt_text(*t),
{
    match t {
        Some(s) => Some(s.as_str()),
        None => None,
    }
}

/// The name under which the requests to a provider and a model are governed.
pub fn governor_key(provider: Option<&str>, model: Option<&str>) -> (r: Option<String>)
    ensures
        text::opt_text(r) == key_of(opt_str(provider), opt_str(model)),
{
    let p = match provider {
        Some(p) => p,
        None => {
            return None;
        },
    };
    if trims_to_empty(p) {
        return None;
    }
    let mut key = trim(p);
    if let Some(m) = model {
        if !trims_to_empty(m) {
            key.append("/");
            key.append(trim(m).as_str());
        }
    }
    Some(key)
}

/// Whether an error tells of a rate limit.
pub open spec fn tells_of_rate_limit(error: Seq<char>) -> bool {
    let e = text::ascii_lower(error);
    text::has_text(e, "rate limit"@) || text::has_text(e, "429"@) || text::has_text(
        e,
        "too many requests"@,
    ) || text::has_text(e, "throttle"@) || text::has_text(e, "quota"@)
}

/// Whether an error tells of a rate limit.
pub fn is_rate_limit_error(error: &str) -> (r: bool)
    ensures
        r == tells_of_rate_limit(error@),
{
    let e = to_ascii_lowercase(error);
    contains(e.as_str(), "rate limit") || contains(e.as_str(), "429") || contains(
        e.as_str(),
        "too many requests",
    ) || contains(e.as_str(), "throttle") || contains(e.as_str(), "quota")
}

/// Takes note of a rate limit. Says until when requests have to wait.
pub fn governor_apply_rate_limit(state: &mut GovernorState, now_ms: u64) -> (r: u64)
    ensures
        *final(state) == after_rate_limit(*old(state), now_ms),
        r == final(state).throttled_until_ms,
{
    state.inflight_count = state.inflight_count.saturating_sub(1);
    state.recent_errors = state.recent_errors.saturating_add(1);
    let backoff: u64 = if state.backoff_ms == 0 {
        constants::GOVERNOR_BACKOFF_INITIAL_MS
    } else if state.backoff_ms < constants::GOVERNOR_BACKOFF_MAX_MS && 2 * state.backoff_ms
        < constants::GOVERNOR_BACKOFF_MAX_MS {
        2 * state.backoff_ms
    } else {
        constants::GOVERNOR_BACKOFF_MAX_MS
    };
    let window: u64 = if backoff / 5 < 25 {
        25
    } else {
        backoff / 5
    };
    let spread: u64 = now_ms % (window + 1);
    state.backoff_ms = backoff;
    state.throttled_until_ms = now_ms.saturating_add(backoff.saturating_add(spread));
    state.throttled_until_ms
}

/// Takes note of a success.
pub fn governor_apply_success(state: &mut GovernorState, now_ms: u64)
    ensures
        *final(state) == after_success(*old(state), now_ms),
{
    state.recent_errors = state.recent_errors.saturating_sub(1);
    state.backoff_ms = state.backoff_ms / 2;
    if state.backoff_ms == 0 || state.recent_errors == 0 {
        state.backoff_ms = 0;
        if state.throttled_until_ms <= now_ms {
            state.throttled_until_ms = 0;
        }
    }
}

/// Whether a request may start at a time.
pub open spec fn may_start(s: GovernorState, now_ms: u64) -> bool {
    s.throttled_until_ms <= now_ms
}

/// The backoff after a rate limit lies between the first one and the longest, and does not
/// shrink from one within those bounds.
pub proof fn law_backoff_is_bounded_and_grows(s: GovernorState, now_ms: u64)
    ensures
        s.backoff_ms == 0 || s.backoff_ms >= constants::GOVERNOR_BACKOFF_INITIAL_MS
            ==> constants::GOVERNOR_BACKOFF_INITIAL_MS <= after_rate_limit(s, now_ms).backoff_ms
            <= constants::GOVERNOR_BACKOFF_MAX_MS,
        s.backoff_ms <= constants::GOVERNOR_BACKOFF_MAX_MS ==> s.backoff_ms <= after_rate_limit(
            s,
            now_ms,
        ).backoff_ms <= constants::GOVERNOR_BACKOFF_MAX_MS,
{
}

/// After a rate limit no request may start before the backoff has passed, and one may start
/// once the backoff, a fifth of it and 25 milliseconds have.
pub proof fn law_rate_limit_makes_requests_wait(s: GovernorState, now_ms: u64, later_ms: u64)
    requires
        s.backoff_ms <= constants::GOVERNOR_BACKOFF_MAX_MS,
        now_ms + 2 * constants::GOVERNOR_BACKOFF_MAX_MS <= u64::MAX,
    ensures
        ({
            let after = after_rate_limit(s, now_ms);
            &&& later_ms < now_ms + after.backoff_ms ==> !may_start(after, later_ms)
            &&& later_ms >= now_ms + after.backoff_ms + after.backoff_ms / 5 + 25 ==> may_start(
                after,
                later_ms,
            )
        }),
{
}

/// A success never lengthens the backoff, and never makes a request wait longer.
pub proof fn law_success_relaxes(s: GovernorState, now_ms: u64)
    ensures
        after_success(s, now_ms).backoff_ms <= s.backoff_ms / 2,
        after_success(s, now_ms).throttled_until_ms <= s.throttled_until_ms,
        after_success(s, now_ms).inflight_count == s.inflight_count,
        s.recent_errors <= 1 ==> after_success(s, now_ms).backoff_ms == 0,
{
}

/// The first rate limit makes requests wait for a first while, each further one twice as long as
/// the one before, and none longer than a bound. Each is counted and ends the request.
pub proof fn law_backoff_doubles_up_to_its_bound(s: GovernorState, now_ms: u64)
    ensures
        ({
            let t = after_rate_limit(s, now_ms);
            &&& s.backoff_ms == 0 ==> t.backoff_ms == constants::GOVERNOR_BACKOFF_INITIAL_MS
            &&& 0 < s.backoff_ms && 2 * s.backoff_ms <= constants::GOVERNOR_BACKOFF_MAX_MS
                ==> t.backoff_ms == 2 * s.backoff_ms
            &&& 2 * s.backoff_ms > constants::GOVERNOR_BACKOFF_MAX_MS ==> t.backoff_ms
                == constants::GOVERNOR_BACKOFF_MAX_MS
            &&& s.recent_errors < u32::MAX ==> t.recent_errors == s.recent_errors + 1
            &&& s.inflight_count > 0 ==> t.inflight_count == s.inflight_count - 1
            &&& s.inflight_count == 0 ==> t.inflight_count == 0
            &&& t.throttled_until_ms >= now_ms
        }),
{
}

/// As many successes as there were errors make them good: each takes one error away and half of
/// the backoff, until neither is left. A wait that has passed is forgotten then, one that has not
/// is kept.
pub proof fn law_successes_make_errors_good(s: GovernorState, now_ms: u64)
    ensures
        ({
            let t = after_success(s, now_ms);
            &&& s.recent_errors > 0 ==> t.recent_errors == s.recent_errors - 1
            &&& s.recent_errors == 0 ==> t.recent_errors == 0
            &&& s.recent_errors > 1 && s.backoff_ms > 1 ==> t.backoff_ms == s.backoff_ms / 2
                && t.throttled_until_ms == s.throttled_until_ms
            &&& s.recent_errors <= 1 || s.backoff_ms <= 1 ==> t.backoff_ms == 0
            &&& t.backoff_ms == 0 && s.throttled_until_ms <= now_ms ==> t.throttled_until_ms == 0
            &&& s.throttled_until_ms > now_ms ==> t.throttled_until_ms == s.throttled_until_ms
        }),
{
}

/// Requests are held together by provider and model. Without a provider they are not held at all;
/// without a model by the provider alone.
pub proof fn law_provider_and_model_make_the_key(provider: Seq<char>, model: Seq<char>)
    ensures
        key_of(None, Some(model)) is None,
        key_of(None, None) is None,
        text::is_blank(provider) ==> key_of(Some(provider), Some(model)) is None && key_of(
            Some(provider),
            None,
        ) is None,
        !text::is_blank(provider) ==> key_of(Some(provider), None) == Some(text::trimmed(provider)),
        !text::is_blank(provider) && text::is_blank(model) ==> key_of(Some(provider), Some(model))
            == Some(text::trimmed(provider)),
        !text::is_blank(provider) && !text::is_blank(model) ==> key_of(Some(provider), Some(model))
            == Some(text::trimmed(provider) + "/"@ + text::trimmed(model)),
{
}

/// An error tells of a rate limit exactly where it says one of the things that providers say then,
/// in large or small letters.
pub proof fn law_rate_limits_are_known_by_their_words(error: Seq<char>)
    ensures
        text::has_text(text::ascii_lower(error), "rate limit"@) ==> tells_of_rate_limit(error),
        text::has_text(text::ascii_lower(error), "429"@) ==> tells_of_rate_limit(error),
        text::has_text(text::ascii_lower(error), "too many requests"@) ==> tells_of_rate_limit(
            error,
        ),
        text::has_text(text::ascii_lower(error), "throttle"@) ==> tells_of_rate_limit(error),
        text::has_text(text::ascii_lower(error), "quota"@) ==> tells_of_rate_limit(error),
        tells_of_rate_limit(error) ==> text::has_text(text::ascii_lower(error), "rate limit"@)
            || text::has_text(text::ascii_lower(error), "429"@) || text::has_text(
            text::ascii_lower(error),
            "too many requests"@,
        ) || text::has_text(text::ascii_lower(error), "throttle"@) || text::has_text(
            text::ascii_lower(error),
            "quota"@,
        ),
{
}

} // verus!
