use vstd::prelude::*;

verus! {

/// A moment on the wall clock: whole seconds since the Unix epoch and the
/// nanoseconds within that second.
#[derive(Clone, Copy, Debug, PartialEq, Eq)]
pub struct Timestamp {
    pub secs: i64,
    pub nanos: u32,
}

impl Timestamp {
    /// The moment counted in nanoseconds since the Unix epoch.
    pub open spec fn total_nanos(self) -> int {
        self.secs * 1_000_000_000 + self.nanos
    }
}

/// Signed time from `earlier` to `later`, in nanoseconds.
pub open spec fn nanos_between(later: Timestamp, earlier: Timestamp) -> int {
    later.total_nanos() - earlier.total_nanos()
}

/// How long a session token stays valid after it was minted: seven days.
pub const SESSION_LIFETIME_NANOS: i128 = 604_800_000_000_000;

/// Minimum time between a refused login and the next attempt that is
/// considered at all: half a second.
pub const RATE_LIMIT_WINDOW_NANOS: u64 = 500_000_000;

/// A token minted at `minted` has expired at `now` when more than
/// [`SESSION_LIFETIME_NANOS`] have passed.
pub open spec fn spec_session_expired(minted: Timestamp, now: Timestamp) -> bool {
    nanos_between(now, minted) > SESSION_LIFETIME_NANOS
}

/// Whether more than the session lifetime lies between `minted` and `now`.
pub fn session_expired(minted: Timestamp, now: Timestamp) -> (expired: bool)
    ensures
        expired == spec_session_expired(minted, now),
{
    let now_nanos: i128 = now.secs as i128 * 1_000_000_000i128 + now.nanos as i128;
    let minted_nanos: i128 = minted.secs as i128 * 1_000_000_000i128 + minted.nanos as i128;
    now_nanos - minted_nanos > SESSION_LIFETIME_NANOS
}

/// Reads the wall clock with `chrono::Utc::now` and hands back its Unix
/// timestamp and sub-second nanoseconds. The value depends on the time of the
/// call; the contract states only what chrono's source guarantees of every
/// reading: `now` builds the time from `SystemTime` since the epoch (it
/// panics before the epoch), so the seconds are not negative and the
/// nanoseconds are below one second.
#[verifier::external_body]
pub(crate) fn utc_now() -> (now: Timestamp)
    ensures
        0 <= now.secs,
        now.nanos < 1_000_000_000,
{
    let now = chrono::Utc::now();
    Timestamp { secs: now.timestamp(), nanos: now.timestamp_subsec_nanos() }
}

} // verus!
