//! The decisions of the fetch layer: what to do with the answer to a
//! request, and how long to back off when the remote side throttles.
//!
//! The layer keeps one escalation level, the bounce, for all requests of the
//! process. The caller owns the counter, sends the requests and sleeps; this
//! module decides.

use crate::failure::Failure;
use crate::links::{host, url_host};
use vstd::prelude::*;

verus! {

/// Highest escalation level at which a throttled request is still retried.
pub const MAX_BOUNCE: u8 = 10;

/// How many requests a second go to one host in the long run.
pub const REQUESTS_PER_SECOND: u32 = 2;

/// How many requests may go to one host at once.
pub const BURST: u32 = 1;

/// The status with which a server says that it is asked too often.
pub const TOO_MANY_REQUESTS: u16 = 429;

/// Seconds to wait after a throttling answer received at the level `bounce`:
/// eight seconds, doubled once for every level.
pub open spec fn backoff_secs(bounce: nat) -> nat
    decreases bounce,
{
    if bounce == 0 {
        8
    } else {
        2 * backoff_secs((bounce - 1) as nat)
    }
}

/// What the fetch layer does next.
#[derive(Debug)]
pub enum Action {
    /// Sleep for this many seconds, then send the same request again.
    Retry { wait_secs: u64 },
    /// Hand the body of the answer to the caller.
    Deliver,
    /// Give the request up.
    Fail(Failure),
}

/// The outcome of a decision: the level to store in the shared counter, and
/// what to do.
#[derive(Debug)]
pub struct Decision {
    pub bounce: u8,
    pub action: Action,
}

/// The status lies in the 2xx range.
pub open spec fn is_success(status: u16) -> bool {
    200 <= status < 300
}

/// The level after an answer with `status` arrived at the level `bounce`: one
/// higher after a throttling answer that is retried, zero after anything else.
pub open spec fn next_bounce(bounce: u8, status: u16) -> u8 {
    if status == TOO_MANY_REQUESTS && bounce <= MAX_BOUNCE {
        (bounce + 1) as u8
    } else {
        0
    }
}

/// A throttling answer at the level `bounce` is answered by another attempt.
pub open spec fn retries(bounce: u8, status: u16) -> bool {
    status == TOO_MANY_REQUESTS && bounce <= MAX_BOUNCE
}

/// The waiting times at the levels that are retried.
pub proof fn lemma_backoff_values()
    ensures
        backoff_secs(0) == 8,
        backoff_secs(1) == 16,
        backoff_secs(2) == 32,
        backoff_secs(3) == 64,
        backoff_secs(4) == 128,
        backoff_secs(5) == 256,
        backoff_secs(6) == 512,
        backoff_secs(7) == 1024,
        backoff_secs(8) == 2048,
        backoff_secs(9) == 4096,
        backoff_secs(10) == 8192,
{
    reveal_with_fuel(backoff_secs, 12);
}

/// Seconds to wait after a throttling answer received at the level `bounce`.
pub fn wait_seconds(bounce: u8) -> (r: u64)
    requires
        bounce <= MAX_BOUNCE,
    ensures
        r == backoff_secs(bounce as nat),
        r <= 8192,
{
    let mut secs: u64 = 8;
    let mut level: u8 = 0;
    proof {
        lemma_backoff_values();
    }
    while level < bounce
        invariant
            level <= bounce <= MAX_BOUNCE,
            secs == backoff_secs(level as nat),
            backoff_secs(bounce as nat) <= 8192,
            secs <= backoff_secs(bounce as nat),
        decreases bounce - level,
    {
        proof {
            lemma_backoff_grows(level as nat + 1, bounce as nat);
        }
        secs = secs * 2;
        level = level + 1;
    }
    secs
}

/// Waiting times grow with the level.
pub proof fn lemma_backoff_grows(low: nat, high: nat)
    requires
        low <= high,
    ensures
        backoff_secs(low) <= backoff_secs(high),
    decreases high - low,
{
    if low < high {
        lemma_backoff_grows(low, (high - 1) as nat);
    }
}

/// Decides what to do with an answer that carries `status`, received for
/// `url` while the shared level stood at `bounce`.
///
/// A throttling answer is retried after `backoff_secs(bounce)` seconds and
/// raises the level by one, as long as the level is at most `MAX_BOUNCE`;
/// above it the request fails with `RateLimitExhausted`. Any other answer
/// resets the level to zero; it is delivered where its status is in the 2xx
/// range and fails with `Network` where it is not.
pub fn on_response(bounce: u8, status: u16, url: &str) -> (r: Decision)
    ensures
        r.bounce == next_bounce(bounce, status),
        retries(bounce, status) <==> r.action is Retry,
        r.action matches Action::Retry { wait_secs } ==> wait_secs == backoff_secs(bounce as nat),
        r.action is Deliver <==> is_success(status),
        r.action matches Action::Fail(e) ==> {
            if status == TOO_MANY_REQUESTS {
                e matches Failure::RateLimitExhausted { url: u } && u@ == url@
            } else {
                e matches Failure::Network { url: u, .. } && u@ == url@
            }
        },
{
    if status == TOO_MANY_REQUESTS {
        if bounce <= MAX_BOUNCE {
            Decision { bounce: bounce + 1, action: Action::Retry { wait_secs: wait_seconds(bounce) } }
        } else {
            Decision {
                bounce: 0,
                action: Action::Fail(Failure::RateLimitExhausted { url: url.to_owned() }),
            }
        }
    } else if 200 <= status && status < 300 {
        Decision { bounce: 0, action: Action::Deliver }
    } else {
        Decision {
            bounce: 0,
            action: Action::Fail(
                Failure::Network {
                    url: url.to_owned(),
                    reason: "the server answered with an error status".to_owned(),
                },
            ),
        }
    }
}

/// The failure for a request to `url` that got no answer at all. The shared
/// level stays as it is.
pub fn on_transport_error(url: &str, reason: &str) -> (r: Failure)
    ensures
        r matches Failure::Network { url: u, reason: why } && u@ == url@ && why@ == reason@,
{
    Failure::Network { url: url.to_owned(), reason: reason.to_owned() }
}

/// The level after `count` throttling answers in a row, the first of them
/// received at the level `bounce`.
pub open spec fn bounce_after(bounce: u8, count: nat) -> u8
    decreases count,
{
    if count == 0 {
        bounce
    } else {
        next_bounce(bounce_after(bounce, (count - 1) as nat), TOO_MANY_REQUESTS)
    }
}

/// All of the first `count` throttling answers in a row were retried.
pub open spec fn all_retried(bounce: u8, count: nat) -> bool
    decreases count,
{
    count == 0 || (all_retried(bounce, (count - 1) as nat) && retries(
        bounce_after(bounce, (count - 1) as nat),
        TOO_MANY_REQUESTS,
    ))
}

/// Throttling never leads to endless retries: from the level zero the first
/// eleven throttling answers in a row are retried and the twelfth is not, and
/// from no level are more than eleven answers in a row retried.
pub proof fn lemma_throttling_ends(bounce: u8, count: nat)
    ensures
        all_retried(0, 11),
        !all_retried(0, 12),
        count > 11 ==> !all_retried(bounce, count),
        all_retried(bounce, count) ==> bounce_after(bounce, count) == bounce + count,
    decreases count,
{
    reveal_with_fuel(all_retried, 13);
    reveal_with_fuel(bounce_after, 13);
    if count > 0 {
        lemma_throttling_ends(bounce, (count - 1) as nat);
    }
}

/// Any answer that is no throttling answer sets the level back to zero,
/// however high it stood.
pub proof fn lemma_other_answers_reset(bounce: u8, status: u16)
    requires
        status != TOO_MANY_REQUESTS,
    ensures
        next_bounce(bounce, status) == 0,
        next_bounce(next_bounce(0, TOO_MANY_REQUESTS), status) == 0,
{
}

/// The key under which requests to `url` share a rate limit: the host of the
/// URL, or the empty text where it has none.
pub open spec fn limit_key(url: Seq<char>) -> Option<Seq<char>> {
    match url_host(url) {
        Some(Some(h)) => Some(h),
        Some(None) => Some(Seq::empty()),
        None => None,
    }
}

/// The key under which requests to `url` share a rate limit. Fails with
/// `InvalidUrl` where `url` is no URL.
pub fn rate_limit_key(url: &str) -> (r: Result<String, Failure>)
    ensures
        match r {
            Ok(key) => limit_key(url@) == Some(key@),
            Err(e) => limit_key(url@) is None && (e matches Failure::InvalidUrl { url: u } && u@
                == url@),
        },
{
    match host(url) {
        Some(Some(h)) => Ok(h),
        Some(None) => Ok(String::new()),
        None => Err(
            Failure::InvalidUrl { url: url.to_owned() },
        ),
    }
}

} // verus!
