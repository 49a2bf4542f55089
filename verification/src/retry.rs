//! The retry state machine for the rate-limited release-feed API.
//!
//! One logical request is a loop: issue the request, look at the
//! response, and either use it, surface a failure, or wait and try
//! again. This module makes every decision of that loop; the caller
//! only performs the request and the waiting. A throttled response with
//! an explicit timing hint (`Retry-After`, or an exhausted request
//! count with a reset instant) is obeyed without touching the fallback
//! backoff; only a throttled response without any hint consumes the
//! exponential fallback, which starts at one minute, doubles after
//! every such wait, and gives up instead of waiting an hour or more.

use vstd::prelude::*;
use vstd::arithmetic::power2::{lemma2_to64, lemma_pow2_unfold, pow2};
use crate::numeric::{parse_u64, spec_parse_u64};

verus! {

/// The first fallback wait, in seconds.
pub const INITIAL_BACKOFF_SECS: u64 = 60;

/// A fallback wait never reaches this many seconds: once the next wait
/// would, the request is surfaced as a hard failure instead.
pub const BACKOFF_CEILING_SECS: u64 = 3600;

/// The throttling-related headers of one response, as plain strings.
#[derive(Clone, Debug)]
pub struct ThrottleHeaders {
    /// The `Retry-After` header, in seconds.
    pub retry_after: Option<String>,
    /// The rate-limit-remaining header.
    pub ratelimit_remaining: Option<String>,
    /// The rate-limit-reset header, in epoch seconds.
    pub ratelimit_reset: Option<String>,
}

impl ThrottleHeaders {
    /// A response that carried none of the throttling headers.
    pub fn none() -> (h: ThrottleHeaders)
        ensures
            h.retry_after is None,
            h.ratelimit_remaining is None,
            h.ratelimit_reset is None,
    {
        ThrottleHeaders { retry_after: None, ratelimit_remaining: None, ratelimit_reset: None }
    }
}

/// Why a throttled response could not be handled.
#[derive(Clone, Copy, Debug, PartialEq, Eq, Structural)]
pub enum HeaderError {
    /// A wait hint carried a value that is not a number of seconds.
    HeaderParse,
    /// The remaining-request count was exhausted, but no reset instant
    /// was given.
    MissingResetHeader,
}

/// What to do after one response from the rate-limited endpoint.
#[derive(Clone, Copy, Debug, PartialEq, Eq, Structural)]
pub enum ResponseAction {
    /// A successful response: use it.
    Proceed,
    /// A failure not worth retrying, or throttling past the backoff
    /// ceiling: surface the response as a hard failure.
    Fail,
    /// Wait this many seconds, then re-issue the request.
    Wait { seconds: u64 },
    /// A throttled response whose headers cannot be used.
    Abort(HeaderError),
}

/// A status in the successful range.
pub open spec fn is_success_status(status: u16) -> bool {
    200 <= status < 300
}

/// A status that signals throttling: forbidden, or too many requests.
pub open spec fn is_throttle_status(status: u16) -> bool {
    status == 403 || status == 429
}

/// The decision for one response, and the fallback backoff after it:
/// success proceeds; a non-throttling failure fails; a `Retry-After`
/// hint is obeyed as given; an exhausted request count waits until the
/// reset instant (not at all when it already passed); and only a
/// throttled response without any hint consumes the fallback backoff,
/// doubling it, or fails once it has reached the ceiling.
pub open spec fn spec_on_response(
    backoff: u64,
    status: u16,
    retry_after: Option<Seq<char>>,
    remaining: Option<Seq<char>>,
    reset: Option<Seq<char>>,
    now_epoch: u64,
) -> (ResponseAction, u64) {
    if is_success_status(status) {
        (ResponseAction::Proceed, backoff)
    } else if !is_throttle_status(status) {
        (ResponseAction::Fail, backoff)
    } else {
        match retry_after {
            Some(h) => match spec_parse_u64(h) {
                Some(n) => (ResponseAction::Wait { seconds: n }, backoff),
                None => (ResponseAction::Abort(HeaderError::HeaderParse), backoff),
            },
            None => {
                if remaining matches Some(rem) && rem == "0"@ {
                    match reset {
                        None => (ResponseAction::Abort(HeaderError::MissingResetHeader), backoff),
                        Some(t) => match spec_parse_u64(t) {
                            None => (ResponseAction::Abort(HeaderError::HeaderParse), backoff),
                            Some(at) => (
                                ResponseAction::Wait {
                                    seconds: if at > now_epoch {
                                        (at - now_epoch) as u64
                                    } else {
                                        0
                                    },
                                },
                                backoff,
                            ),
                        },
                    }
                } else if backoff >= BACKOFF_CEILING_SECS {
                    (ResponseAction::Fail, backoff)
                } else {
                    (ResponseAction::Wait { seconds: backoff }, (backoff * 2) as u64)
                }
            },
        }
    }
}

/// The state of one retry loop: the next fallback wait.
#[derive(Clone, Copy, Debug, PartialEq, Eq, Structural)]
pub struct RetryState {
    pub backoff_secs: u64,
}

impl RetryState {
    /// The backoff values the loop can reach: the initial minute,
    /// doubled at most six times.
    pub open spec fn wf(self) -> bool {
        exists|k: nat| k <= 6 && self.backoff_secs == INITIAL_BACKOFF_SECS * pow2(k)
    }

    /// A fresh retry loop: the first fallback wait is one minute.
    pub fn new() -> (s: RetryState)
        ensures
            s.backoff_secs == INITIAL_BACKOFF_SECS,
            s.wf(),
    {
        let s = RetryState { backoff_secs: INITIAL_BACKOFF_SECS };
        proof {
            lemma2_to64();
            assert(s.backoff_secs == INITIAL_BACKOFF_SECS * pow2(0));
        }
        s
    }

    /// Decides what to do after one response of the rate-limited
    /// endpoint, advancing the fallback backoff exactly when the
    /// response was throttled and carried no timing hint.
    pub fn on_response(
        &mut self,
        status: u16,
        headers: &ThrottleHeaders,
        now_epoch: u64,
    ) -> (a: ResponseAction)
        ensures
            (a, final(self).backoff_secs) == spec_on_response(
                old(self).backoff_secs,
                status,
                headers.retry_after.deep_view(),
                headers.ratelimit_remaining.deep_view(),
                headers.ratelimit_reset.deep_view(),
                now_epoch,
            ),
            old(self).wf() ==> final(self).wf(),
    {
        if 200 <= status && status < 300 {
            return ResponseAction::Proceed;
        }
        if !(status == 403 || status == 429) {
            return ResponseAction::Fail;
        }
        if let Some(h) = &headers.retry_after {
            return match parse_u64(h.as_str()) {
                Some(n) => ResponseAction::Wait { seconds: n },
                None => ResponseAction::Abort(HeaderError::HeaderParse),
            };
        }
        let rem_is_zero = match &headers.ratelimit_remaining {
            Some(r) => is_zero_str(r.as_str()),
            None => false,
        };
        if rem_is_zero {
            return match &headers.ratelimit_reset {
                None => ResponseAction::Abort(HeaderError::MissingResetHeader),
                Some(t) => match parse_u64(t.as_str()) {
                    None => ResponseAction::Abort(HeaderError::HeaderParse),
                    Some(at) => {
                        let seconds: u64 = if at > now_epoch {
                            at - now_epoch
                        } else {
                            0
                        };
                        ResponseAction::Wait { seconds }
                    },
                },
            };
        }
        if self.backoff_secs >= BACKOFF_CEILING_SECS {
            return ResponseAction::Fail;
        }
        let w: u64 = self.backoff_secs;
        self.backoff_secs = w * 2;
        proof {
            if old(self).wf() {
                let k = choose|k: nat| k <= 6 && w == INITIAL_BACKOFF_SECS * pow2(k);
                lemma2_to64();
                assert(k < 6) by {
                    if k == 6 {
                        assert(w == 60 * 64);
                    }
                }
                lemma_pow2_unfold((k + 1) as nat);
                assert(self.backoff_secs == INITIAL_BACKOFF_SECS * pow2((k + 1) as nat));
            }
        }
        ResponseAction::Wait { seconds: w }
    }
}

/// A fallback wait (one decided without any timing hint from the
/// server) is always shorter than the ceiling.
pub proof fn lemma_fallback_wait_bounded(backoff: u64, status: u16, now_epoch: u64)
    ensures
        ({
            let (a, next) = spec_on_response(backoff, status, None, None, None, now_epoch);
            a matches ResponseAction::Wait { seconds } ==> seconds < BACKOFF_CEILING_SECS
        }),
{
}

/// An explicit `Retry-After` hint never advances the fallback backoff.
pub proof fn lemma_hint_keeps_backoff(
    backoff: u64,
    status: u16,
    retry_after: Seq<char>,
    remaining: Option<Seq<char>>,
    reset: Option<Seq<char>>,
    now_epoch: u64,
)
    ensures
        spec_on_response(backoff, status, Some(retry_after), remaining, reset, now_epoch).1
            == backoff,
{
}

/// The fallback schedule: with only hintless throttling, the loop
/// waits 60, 120, 240, ... seconds — the n-th such wait is 60·2ⁿ
/// seconds and stays below the ceiling — until the seventh decision,
/// whose would-be wait of 3840 seconds has reached the ceiling, so the
/// loop fails instead of sleeping.
pub proof fn lemma_fallback_schedule(n: nat, status: u16, now_epoch: u64)
    requires
        n <= 6,
        is_throttle_status(status),
    ensures
        INITIAL_BACKOFF_SECS * pow2(n) <= 3840,
        n < 6 ==> spec_on_response(
            (INITIAL_BACKOFF_SECS * pow2(n)) as u64,
            status,
            None,
            None,
            None,
            now_epoch,
        ) == (
            ResponseAction::Wait { seconds: (INITIAL_BACKOFF_SECS * pow2(n)) as u64 },
            (INITIAL_BACKOFF_SECS * pow2((n + 1) as nat)) as u64,
        ) && INITIAL_BACKOFF_SECS * pow2(n) < BACKOFF_CEILING_SECS,
        n == 6 ==> spec_on_response(
            (INITIAL_BACKOFF_SECS * pow2(n)) as u64,
            status,
            None,
            None,
            None,
            now_epoch,
        ) == (ResponseAction::Fail, (INITIAL_BACKOFF_SECS * pow2(n)) as u64),
{
    lemma2_to64();
    if n < 6 {
        lemma_pow2_unfold((n + 1) as nat);
        assert(pow2(n) < 60) by {
            if n == 0 {
            } else if n == 1 {
            } else if n == 2 {
            } else if n == 3 {
            } else if n == 4 {
            } else {
                assert(n == 5);
            }
        }
    }
}

/// Whether the string is exactly `"0"`.
fn is_zero_str(s: &str) -> (r: bool)
    ensures
        r == (s@ == "0"@),
{
    proof {
        reveal_strlit("0");
    }
    let len: usize = s.unicode_len();
    if len == 1 && s.get_char(0) == '0' {
        proof {
            assert(s@ =~= "0"@);
        }
        true
    } else {
        false
    }
}

} // verus!
