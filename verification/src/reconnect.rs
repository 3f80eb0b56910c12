use vstd::prelude::*;
use vstd::arithmetic::power2::pow2;

verus! {

/// Consecutive failed connections after which the price feed gives up.
pub const MAX_RETRIES: u32 = 5;

/// Wait before the first reconnection, in seconds.
pub const INITIAL_BACKOFF_SECS: u64 = 1;

/// Longest wait between two reconnections, in seconds.
pub const MAX_BACKOFF_SECS: u64 = 32;

/// What to do after a connection to the price feed failed.
pub enum ReconnectAction {
    /// Wait this many seconds, then connect again.
    Wait { secs: u64 },
    /// Stop: too many connections in a row have failed.
    GiveUp,
}

/// The reconnection state as numbers: failures in a row, and the wait that
/// the next failure will ask for.
pub struct ReconnectView {
    pub retry_count: nat,
    pub backoff_secs: nat,
}

/// The state before any failure, and after every successful connection.
pub open spec fn fresh() -> ReconnectView {
    ReconnectView { retry_count: 0, backoff_secs: INITIAL_BACKOFF_SECS as nat }
}

/// The bounds that every reachable state keeps.
pub open spec fn within_bounds(s: ReconnectView) -> bool {
    &&& s.retry_count <= MAX_RETRIES
    &&& 1 <= s.backoff_secs <= MAX_BACKOFF_SECS
}

/// The next state and the action after one more failed connection: count it;
/// give up once the count reaches the limit; otherwise wait the current
/// backoff and double it, up to the longest wait.
pub open spec fn after_error(s: ReconnectView) -> (ReconnectView, ReconnectAction) {
    let retries = s.retry_count + 1;
    if retries >= MAX_RETRIES {
        (ReconnectView { retry_count: retries, backoff_secs: s.backoff_secs }, ReconnectAction::GiveUp)
    } else {
        let doubled = 2 * s.backoff_secs;
        let next = if doubled <= MAX_BACKOFF_SECS { doubled } else { MAX_BACKOFF_SECS as nat };
        (
            ReconnectView { retry_count: retries, backoff_secs: next },
            ReconnectAction::Wait { secs: s.backoff_secs as u64 },
        )
    }
}

/// The state after `k` failed connections in a row, starting fresh.
pub open spec fn after_errors_from_fresh(k: nat) -> ReconnectView
    decreases k,
{
    if k == 0 {
        fresh()
    } else {
        after_error(after_errors_from_fresh((k - 1) as nat)).0
    }
}

/// Counts failed connections to the price feed in a row and spaces out the
/// attempts to reconnect.
pub struct Reconnect {
    retry_count: u32,
    backoff_secs: u64,
}

impl View for Reconnect {
    type V = ReconnectView;

    closed spec fn view(&self) -> ReconnectView {
        ReconnectView { retry_count: self.retry_count as nat, backoff_secs: self.backoff_secs as nat }
    }
}

impl Reconnect {
    #[verifier::type_invariant]
    closed spec fn inv(self) -> bool {
        within_bounds(self@)
    }

    /// The state before the first connection.
    pub fn new() -> (r: Self)
        ensures
            r@ == fresh(),
    {
        Reconnect { retry_count: 0, backoff_secs: INITIAL_BACKOFF_SECS }
    }

    /// Failed connections in a row so far.
    pub fn retry_count(&self) -> (n: u32)
        ensures
            n == self@.retry_count,
            within_bounds(self@),
    {
        proof {
            use_type_invariant(self);
        }
        self.retry_count
    }

    /// The wait that the next failure will ask for, in seconds.
    pub fn backoff_secs(&self) -> (n: u64)
        ensures
            n == self@.backoff_secs,
            within_bounds(self@),
    {
        proof {
            use_type_invariant(self);
        }
        self.backoff_secs
    }

    /// Whether the feed has given up.
    pub fn has_given_up(&self) -> (b: bool)
        ensures
            b == (self@.retry_count >= MAX_RETRIES),
    {
        self.retry_count >= MAX_RETRIES
    }

    /// A connection ended without error: start counting afresh.
    pub fn on_success(&mut self)
        ensures
            final(self)@ == fresh(),
    {
        *self = Reconnect { retry_count: 0, backoff_secs: INITIAL_BACKOFF_SECS };
    }

    /// A connection failed: says whether to wait and retry, or to give up.
    pub fn on_error(&mut self) -> (action: ReconnectAction)
        requires
            old(self)@.retry_count < MAX_RETRIES,
        ensures
            (final(self)@, action) == after_error(old(self)@),
            within_bounds(final(self)@),
    {
        proof {
            use_type_invariant(&*self);
        }
        let retries = self.retry_count + 1;
        if retries >= MAX_RETRIES {
            *self = Reconnect { retry_count: retries, backoff_secs: self.backoff_secs };
            ReconnectAction::GiveUp
        } else {
            let wait = self.backoff_secs;
            let doubled = 2 * wait;
            let next = if doubled <= MAX_BACKOFF_SECS { doubled } else { MAX_BACKOFF_SECS };
            *self = Reconnect { retry_count: retries, backoff_secs: next };
            ReconnectAction::Wait { secs: wait }
        }
    }
}

/// Every state reached by failures and successes keeps its bounds.
pub proof fn lemma_bounds_kept(s: ReconnectView)
    requires
        within_bounds(s),
        s.retry_count < MAX_RETRIES,
    ensures
        within_bounds(after_error(s).0),
        within_bounds(fresh()),
{
}

/// After `k` failures in a row from a fresh start (fewer than the limit),
/// `k` failures are counted and the next wait is `2^k` seconds, capped at
/// the longest wait.
pub proof fn lemma_backoff_doubles(k: nat)
    requires
        k < MAX_RETRIES,
    ensures
        after_errors_from_fresh(k).retry_count == k,
        after_errors_from_fresh(k).backoff_secs == if pow2(k) <= MAX_BACKOFF_SECS {
            pow2(k)
        } else {
            MAX_BACKOFF_SECS as nat
        },
    decreases k,
{
    vstd::arithmetic::power2::lemma2_to64();
    if k > 0 {
        lemma_backoff_doubles((k - 1) as nat);
        vstd::arithmetic::power2::lemma_pow2_unfold(k);
    }
}

/// From a fresh start, the first failures ask to wait and the failure that
/// brings the count to the limit gives up.
pub proof fn lemma_gives_up_at_limit(k: nat)
    requires
        k < MAX_RETRIES,
    ensures
        (k + 1 < MAX_RETRIES) ==> after_error(after_errors_from_fresh(k)).1 is Wait,
        (k + 1 == MAX_RETRIES) ==> after_error(after_errors_from_fresh(k)).1 is GiveUp,
{
    lemma_backoff_doubles(k);
}

} // verus!
