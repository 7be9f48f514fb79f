//! The wall clock and the monotonic clock.

use std::time::{Duration, Instant, SystemTime, SystemTimeError};
use vstd::prelude::*;

verus! {

/// A point on the wall clock.
#[verifier::external_type_specification]
#[verifier::external_body]
pub struct ExSystemTime(SystemTime);

/// The error of a span that would be negative.
#[verifier::external_type_specification]
#[verifier::external_body]
pub struct ExSystemTimeError(SystemTimeError);

/// A point on the monotonic clock.
#[verifier::external_type_specification]
#[verifier::external_body]
pub struct ExInstant(Instant);

/// `SystemTime::now` reads the wall clock. Nothing is claimed of the reading.
pub assume_specification[ SystemTime::now ]() -> SystemTime;

/// Calls `SystemTime::duration_since` with the Unix epoch: the span from the epoch
/// to `t`, or an error where `t` lies before it. Nothing is claimed of the span.
#[verifier::external_body]
fn since_epoch(t: &SystemTime) -> Result<Duration, SystemTimeError> {
    t.duration_since(SystemTime::UNIX_EPOCH)
}

/// `Duration::as_secs` gives the whole seconds of a span. A span is opaque here, so
/// nothing is claimed of the number.
pub assume_specification[ Duration::as_secs ](d: &Duration) -> u64;

/// `Instant::now` reads the monotonic clock. Nothing is claimed of the reading.
pub assume_specification[ Instant::now ]() -> Instant;

/// `Instant::duration_since` gives the span from `earlier` to `later`. Both are
/// opaque here, so nothing is claimed of the span.
pub assume_specification[ Instant::duration_since ](later: &Instant, earlier: Instant) -> Duration;

/// `Duration::as_nanos` gives a span in nanoseconds. A span is opaque here, so
/// nothing is claimed of the number.
pub assume_specification[ Duration::as_nanos ](d: &Duration) -> u128;

/// An unsigned number read as a signed one of the same width.
pub open spec fn signed(n: u64) -> int {
    if n <= i64::MAX {
        n as int
    } else {
        n - 0x1_0000_0000_0000_0000
    }
}

/// Reads an unsigned number as a signed one of the same width.
pub fn to_signed(n: u64) -> (out: i64)
    ensures
        out == signed(n),
{
    assert(n <= 0x7fff_ffff_ffff_ffffu64 ==> n as i64 == n) by (bit_vector);
    assert(n > 0x7fff_ffff_ffff_ffffu64 ==> n as i64 == n - 0x1_0000_0000_0000_0000) by (bit_vector);
    n as i64
}

/// Unix seconds from the seconds since the epoch; a clock before the epoch reads
/// zero.
pub open spec fn unix_time(since_epoch: Option<u64>) -> int {
    match since_epoch {
        Some(secs) => signed(secs),
        None => 0,
    }
}

/// Unix seconds from the seconds since the epoch, `None` if the clock predates it.
pub fn unix_seconds(since_epoch: Option<u64>) -> (t: i64)
    ensures
        t == unix_time(since_epoch),
{
    match since_epoch {
        Some(secs) => to_signed(secs),
        None => 0,
    }
}

/// Whether the wall clock may be found at this many whole seconds after the epoch,
/// or before it for `None`: a reading of the clock, its span from the epoch and the
/// seconds of that span lead there.
pub closed spec fn wall_reading(since: Option<u64>) -> bool {
    exists|now: SystemTime, span: Result<Duration, SystemTimeError>|
        {
            &&& #[trigger] call_ensures(SystemTime::now, (), now)
            &&& #[trigger] call_ensures(since_epoch, (&now,), span)
            &&& match since {
                Some(secs) => span is Ok && call_ensures(Duration::as_secs, (&span->Ok_0,), secs),
                None => span is Err,
            }
        }
}

/// Whether this is a time that the wall clock may show, in Unix seconds.
pub open spec fn is_reading(t: i64) -> bool {
    exists|since: Option<u64>| #[trigger] wall_reading(since) && t == unix_time(since)
}

/// Current time as Unix seconds; clamps to 0 if the clock predates the epoch. Any
/// time may be read.
pub fn now_unix() -> (t: i64)
    ensures
        is_reading(t),
{
    let now = SystemTime::now();
    let span = since_epoch(&now);
    match span {
        Ok(d) => {
            let secs: u64 = d.as_secs();
            assert(wall_reading(Some(secs)));
            unix_seconds(Some(secs))
        },
        Err(_) => {
            assert(wall_reading(None));
            unix_seconds(None)
        },
    }
}

/// Whether the monotonic clock may show this many nanoseconds since `start`: a
/// reading of the clock, its span from `start` and the nanoseconds of that span lead
/// there.
pub open spec fn is_span_since(start: Instant, nanos: u128) -> bool {
    exists|now: Instant, span: Duration|
        {
            &&& #[trigger] call_ensures(Instant::now, (), now)
            &&& #[trigger] call_ensures(Instant::duration_since, (&now, start), span)
            &&& call_ensures(Duration::as_nanos, (&span,), nanos)
        }
}

/// Nanoseconds on the monotonic clock since `start`. Any number may be read.
pub fn nanos_since(start: Instant) -> (nanos: u128)
    ensures
        is_span_since(start, nanos),
{
    let now = Instant::now();
    let span = now.duration_since(start);
    span.as_nanos()
}

/// When something with this time to live expires: that many seconds after its
/// creation, and at the end of the range of times at the latest.
pub open spec fn expiry(created_at: i64, ttl: u64) -> int {
    if created_at + ttl > i64::MAX {
        i64::MAX as int
    } else {
        created_at + ttl
    }
}

/// Computes when something with an optional time to live expires.
pub fn expires_at(created_at: i64, ttl: Option<u64>) -> (out: Option<i64>)
    ensures
        ttl is None ==> out is None,
        ttl matches Some(t) ==> out is Some && out->0 == expiry(created_at, t),
{
    match ttl {
        Some(t) => {
            let at: i128 = created_at as i128 + t as i128;
            Some(
                if at > i64::MAX as i128 {
                    i64::MAX
                } else {
                    at as i64
                },
            )
        },
        None => None,
    }
}

/// Whether an expiry has come.
pub open spec fn expired(expires_at: Option<i64>, now: i64) -> bool {
    expires_at matches Some(exp) && now >= exp
}

/// Tests whether an expiry has come; nothing that never expires has expired.
pub fn has_expired(expires_at: Option<i64>, now: i64) -> (yes: bool)
    ensures
        yes == expired(expires_at, now),
{
    match expires_at {
        Some(exp) => now >= exp,
        None => false,
    }
}

/// Upper bound on how long anything is cached, in seconds.
pub const MAX_CACHE_TTL_SECS: u64 = 300;

/// How long something may be cached: no longer than the bound, and never beyond
/// its own expiry.
pub open spec fn cache_ttl(expires_at: Option<i64>, now: i64) -> int {
    match expires_at {
        None => MAX_CACHE_TTL_SECS as int,
        Some(exp) => if exp <= now {
            0
        } else if exp - now < MAX_CACHE_TTL_SECS {
            exp - now
        } else {
            MAX_CACHE_TTL_SECS as int
        },
    }
}

/// Computes how long something may be cached; 0 if it has expired already.
pub fn cache_ttl_at(expires_at: Option<i64>, now: i64) -> (secs: u64)
    ensures
        secs == cache_ttl(expires_at, now),
{
    match expires_at {
        None => MAX_CACHE_TTL_SECS,
        Some(exp) => {
            let remaining: i128 = exp as i128 - now as i128;
            if remaining <= 0 {
                0
            } else if remaining < MAX_CACHE_TTL_SECS as i128 {
                remaining as u64
            } else {
                MAX_CACHE_TTL_SECS
            }
        },
    }
}

/// What is cached is gone from the cache by the time it expires, and something
/// that has expired is not cached at all.
pub proof fn cache_never_outlives_expiry(expires_at: Option<i64>, now: i64)
    ensures
        0 <= cache_ttl(expires_at, now) <= MAX_CACHE_TTL_SECS,
        cache_ttl(expires_at, now) == 0 <==> expired(expires_at, now),
        expires_at matches Some(exp) ==> !expired(expires_at, now) ==> now + cache_ttl(
            expires_at,
            now,
        ) <= exp,
{
}

/// A time to live, however long, never puts the expiry before the creation, and a
/// longer one never puts it earlier.
pub proof fn expiry_follows_creation(created_at: i64, ttl: u64, longer: u64)
    requires
        ttl <= longer,
    ensures
        created_at <= expiry(created_at, ttl) <= expiry(created_at, longer) <= i64::MAX,
{
}

/// Something that has expired stays expired.
pub proof fn expiry_is_final(expires_at: Option<i64>, now: i64, later: i64)
    requires
        expired(expires_at, now),
        now <= later,
    ensures
        expired(expires_at, later),
{
}

/// A time to live of zero has run out when it starts.
pub proof fn zero_ttl_has_expired(created_at: i64, now: i64)
    requires
        created_at <= now,
    ensures
        now >= expiry(created_at, 0),
{
}

/// What has a time to live expires exactly that many seconds after its creation, and
/// at the end of the range of times where that lies beyond it; what has none never
/// expires.
pub proof fn expiry_is_ttl_after_creation(
    created_at: i64,
    ttl: u64,
    out: Option<i64>,
    without: Option<i64>,
)
    requires
        call_ensures(expires_at, (created_at, Some(ttl)), out),
        call_ensures(expires_at, (created_at, None), without),
    ensures
        out is Some,
        created_at + ttl <= i64::MAX ==> out->0 - created_at == ttl,
        created_at + ttl > i64::MAX ==> out->0 == i64::MAX,
        without is None,
{
}

/// One more second to live is one more second until the expiry.
pub proof fn longer_life_expires_later(
    created_at: i64,
    ttl: u64,
    out: Option<i64>,
    longer: Option<i64>,
)
    requires
        ttl < u64::MAX,
        created_at + ttl < i64::MAX,
        call_ensures(expires_at, (created_at, Some(ttl)), out),
        call_ensures(expires_at, (created_at, Some((ttl + 1) as u64)), longer),
    ensures
        out is Some && longer is Some && longer->0 - out->0 == 1,
{
}

/// Something has expired from its expiry on and not before; what has no expiry never
/// has.
pub proof fn expired_from_its_expiry_on(exp: i64, now: i64, yes: bool, never: bool)
    requires
        call_ensures(has_expired, (Some(exp), now), yes),
        call_ensures(has_expired, (None, now), never),
    ensures
        yes <==> exp <= now,
        !never,
        expired(Some(exp), now) <==> exp <= now,
        !expired(None, now),
{
}

/// Something is cached for as long as it has left to live, for five minutes at most;
/// what does not expire, for five minutes.
pub proof fn cache_life_is_what_is_left(exp: i64, now: i64, secs: u64, free: u64)
    requires
        call_ensures(cache_ttl_at, (Some(exp), now), secs),
        call_ensures(cache_ttl_at, (None, now), free),
    ensures
        exp <= now ==> secs == 0,
        now < exp && exp - now <= 300 ==> secs == exp - now,
        exp - now > 300 ==> secs == 300,
        free == 300,
{
}

/// A clock that shows a time after the epoch is read to the second; one that shows a
/// time before it reads zero.
pub proof fn unix_seconds_are_seconds_since_the_epoch(secs: u64, t: i64, before: i64)
    requires
        secs <= i64::MAX,
        call_ensures(unix_seconds, (Some(secs),), t),
        call_ensures(unix_seconds, (None,), before),
    ensures
        t == secs,
        before == 0,
{
}

/// A number that fits keeps its value.
pub proof fn small_numbers_keep_their_value(n: u64, out: i64)
    requires
        call_ensures(to_signed, (n,), out),
    ensures
        n <= i64::MAX ==> out == n,
        n > i64::MAX ==> out < 0,
{
}

} // verus!
