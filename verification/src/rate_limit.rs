//! A small in-process, per-IP token-bucket rate limiter.
//!
//! Each client IP gets a bucket of `burst` tokens that refills at `rps` tokens per
//! second; a request consumes one token, and is rejected when the bucket is empty.
//! `rps == 0` disables limiting entirely.
//!
//! Tokens are counted in billionths, so that a nanosecond refills a whole number
//! of them and no arithmetic is rounded. The limiter counts for one process; the
//! bucket map grows with distinct IPs.

use std::collections::HashMap;
use std::time::Instant;
use vstd::prelude::*;

use crate::clock;
use crate::net::ClientIp;

verus! {

/// One token, in billionths.
pub const TOKEN: u64 = 1_000_000_000;

/// The bucket of one client: its tokens in billionths, and when they were counted,
/// in nanoseconds.
#[derive(Debug, Clone, Copy, PartialEq, Eq, Structural)]
pub struct Bucket {
    pub tokens: u64,
    pub last: u128,
}

/// What a limiter was made with.
#[derive(Debug, Clone, Copy, PartialEq, Eq, Structural)]
pub struct Rate {
    /// Tokens that a full bucket holds.
    pub capacity: u32,
    /// Tokens refilled per second.
    pub rps: u32,
}

impl Rate {
    /// A full bucket, in billionths of a token.
    pub open spec fn full(self) -> int {
        self.capacity * TOKEN
    }
}

/// The nanoseconds from `last` to `now`; a clock that runs back has not moved.
pub open spec fn elapsed(last: u128, now: u128) -> int {
    if now >= last {
        now - last
    } else {
        0
    }
}

/// The tokens of a bucket after its refill up to `now`.
pub open spec fn refilled(rate: Rate, b: Bucket, now: u128) -> int {
    let tokens = b.tokens + elapsed(b.last, now) * rate.rps;
    if tokens > rate.full() {
        rate.full()
    } else {
        tokens
    }
}

/// The bucket after a request at `now`, and whether the request is allowed.
pub open spec fn request(rate: Rate, b: Bucket, now: u128) -> (Bucket, bool) {
    let tokens = refilled(rate, b, now);
    if tokens >= TOKEN {
        (Bucket { tokens: (tokens - TOKEN) as u64, last: now }, true)
    } else {
        (Bucket { tokens: tokens as u64, last: now }, false)
    }
}

/// The bucket of a client, which is full if the client is new.
pub open spec fn bucket_of(
    rate: Rate,
    buckets: Map<ClientIp, Bucket>,
    ip: ClientIp,
    now: u128,
) -> Bucket {
    if buckets.contains_key(ip) {
        buckets[ip]
    } else {
        Bucket { tokens: rate.full() as u64, last: now }
    }
}

/// The buckets after a check of `ip` at `now`, and whether it is allowed. Without a
/// rate, everything is allowed and nothing is counted.
pub open spec fn checked(
    rate: Rate,
    buckets: Map<ClientIp, Bucket>,
    ip: ClientIp,
    now: u128,
) -> (Map<ClientIp, Bucket>, bool) {
    if rate.rps == 0 {
        (buckets, true)
    } else {
        let (after, yes) = request(rate, bucket_of(rate, buckets, ip, now), now);
        (buckets.insert(ip, after), yes)
    }
}

/// Per-IP token-bucket limiter.
#[derive(Debug)]
pub struct RateLimiter {
    capacity: u32,
    rps: u32,
    start: Instant,
    v4: HashMap<u32, Bucket>,
    v6: HashMap<u128, Bucket>,
}

/// Refills a bucket and takes a token from it if there is one.
fn take(rate: Rate, b: Bucket, now: u128) -> (out: (Bucket, bool))
    requires
        rate.rps > 0,
    ensures
        out == request(rate, b, now),
{
    let full: u128 = rate.capacity as u128 * TOKEN as u128;
    let span: u128 = if now >= b.last {
        now - b.last
    } else {
        0
    };
    assert(full == rate.full());
    assert(full <= 0xffff_ffff * 1_000_000_000) by (nonlinear_arith)
        requires
            full == rate.capacity * 1_000_000_000,
            rate.capacity <= 0xffff_ffff,
    ;
    assert(span == elapsed(b.last, now));
    let tokens: u128 = if span >= full {
        assert(span * rate.rps >= full) by (nonlinear_arith)
            requires
                span >= full,
                rate.rps > 0,
        ;
        full
    } else {
        assert(span * rate.rps <= 0x3fff_ffff_ffff_ffff * 0xffff_ffff) by (nonlinear_arith)
            requires
                span < full,
                full <= 0xffff_ffff * 1_000_000_000,
                rate.rps <= 0xffff_ffff,
        ;
        let sum: u128 = b.tokens as u128 + span * rate.rps as u128;
        if sum > full {
            full
        } else {
            sum
        }
    };
    if tokens >= TOKEN as u128 {
        (Bucket { tokens: (tokens - TOKEN as u128) as u64, last: now }, true)
    } else {
        (Bucket { tokens: tokens as u64, last: now }, false)
    }
}

impl RateLimiter {
    /// What the limiter was made with.
    pub closed spec fn rate(&self) -> Rate {
        Rate { capacity: self.capacity, rps: self.rps }
    }

    /// When the limiter was built; its times are counted from there.
    pub closed spec fn start(&self) -> Instant {
        self.start
    }

    /// The buckets of the clients seen so far.
    pub closed spec fn buckets(&self) -> Map<ClientIp, Bucket> {
        Map::new(
            |ip: ClientIp|
                match ip {
                    ClientIp::V4(a) => self.v4@.contains_key(a),
                    ClientIp::V6(a) => self.v6@.contains_key(a),
                },
            |ip: ClientIp|
                match ip {
                    ClientIp::V4(a) => self.v4@[a],
                    ClientIp::V6(a) => self.v6@[a],
                },
        )
    }

    /// Builds a limiter. `rps == 0` disables limiting. When `burst == 0` but
    /// `rps > 0`, the burst defaults to `rps`.
    pub fn new(rps: u32, burst: u32) -> (l: Self)
        ensures
            l.rate() == (Rate {
                capacity: if burst == 0 {
                    rps
                } else {
                    burst
                },
                rps,
            }),
            l.buckets() == Map::<ClientIp, Bucket>::empty(),
            call_ensures(Instant::now, (), l.start()),
    {
        let capacity: u32 = if burst == 0 {
            rps
        } else {
            burst
        };
        let l = RateLimiter {
            capacity,
            rps,
            start: Instant::now(),
            v4: HashMap::new(),
            v6: HashMap::new(),
        };
        assert(l.buckets() =~= Map::<ClientIp, Bucket>::empty());
        l
    }

    /// Decides on a request at a given time, in nanoseconds: true if it is allowed
    /// (and consumes a token).
    pub fn check_at(&mut self, ip: ClientIp, now: u128) -> (allowed: bool)
        ensures
            final(self).rate() == old(self).rate(),
            final(self).start() == old(self).start(),
            (final(self).buckets(), allowed) == checked(
                old(self).rate(),
                old(self).buckets(),
                ip,
                now,
            ),
    {
        if self.rps == 0 {
            return true;
        }
        let rate = Rate { capacity: self.capacity, rps: self.rps };
        let fresh = Bucket { tokens: self.capacity as u64 * TOKEN, last: now };
        let known: Option<&Bucket> = match ip {
            ClientIp::V4(a) => self.v4.get(&a),
            ClientIp::V6(a) => self.v6.get(&a),
        };
        let b: Bucket = match known {
            Some(b) => *b,
            None => fresh,
        };
        let (after, allowed) = take(rate, b, now);
        match ip {
            ClientIp::V4(a) => {
                self.v4.insert(a, after);
            },
            ClientIp::V6(a) => {
                self.v6.insert(a, after);
            },
        }
        assert(self.buckets() =~= old(self).buckets().insert(ip, after));
        allowed
    }

    /// Decides on a request now: true if it is allowed (and consumes a token).
    /// The decision is that of [`RateLimiter::check_at`] at the time that the
    /// monotonic clock shows since the limiter was built.
    pub fn check(&mut self, ip: ClientIp) -> (allowed: bool)
        ensures
            final(self).rate() == old(self).rate(),
            final(self).start() == old(self).start(),
            exists|now: u128|
                {
                    &&& #[trigger] clock::is_span_since(old(self).start(), now)
                    &&& (final(self).buckets(), allowed) == checked(
                        old(self).rate(),
                        old(self).buckets(),
                        ip,
                        now,
                    )
                },
    {
        let now: u128 = clock::nanos_since(self.start);
        self.check_at(ip, now)
    }
}

/// The answers of a bucket to requests at these times, in turn.
pub open spec fn answers(rate: Rate, b: Bucket, times: Seq<u128>) -> Seq<bool>
    decreases times.len(),
{
    if times.len() == 0 {
        Seq::empty()
    } else {
        let (after, yes) = request(rate, b, times[0]);
        seq![yes] + answers(rate, after, times.drop_first())
    }
}

/// How many answers allow a request.
pub open spec fn allowed_in(answers: Seq<bool>) -> nat
    decreases answers.len(),
{
    if answers.len() == 0 {
        0
    } else {
        (if answers[0] {
            1nat
        } else {
            0nat
        }) + allowed_in(answers.drop_first())
    }
}

/// How many of the requests at `times` a bucket allows.
pub open spec fn allowed_count(rate: Rate, b: Bucket, times: Seq<u128>) -> nat {
    allowed_in(answers(rate, b, times))
}

/// The times do not run back.
pub open spec fn ordered(times: Seq<u128>) -> bool {
    forall|i: int, j: int| 0 <= i <= j < times.len() ==> times[i] <= times[j]
}

/// Requests of clients, with their times, as a limiter gets them.
pub type Calls = Seq<(ClientIp, u128)>;

/// The buckets after these calls.
pub open spec fn run(rate: Rate, buckets: Map<ClientIp, Bucket>, calls: Calls) -> Map<
    ClientIp,
    Bucket,
>
    decreases calls.len(),
{
    if calls.len() == 0 {
        buckets
    } else {
        run(rate, checked(rate, buckets, calls[0].0, calls[0].1).0, calls.drop_first())
    }
}

/// What a client is answered in the course of these calls of many clients.
pub open spec fn answers_to(
    rate: Rate,
    buckets: Map<ClientIp, Bucket>,
    calls: Calls,
    ip: ClientIp,
) -> Seq<bool>
    decreases calls.len(),
{
    if calls.len() == 0 {
        Seq::empty()
    } else {
        let (after, yes) = checked(rate, buckets, calls[0].0, calls[0].1);
        let rest = answers_to(rate, after, calls.drop_first(), ip);
        if calls[0].0 == ip {
            seq![yes] + rest
        } else {
            rest
        }
    }
}

/// When a client calls.
pub open spec fn times_of(calls: Calls, ip: ClientIp) -> Seq<u128>
    decreases calls.len(),
{
    if calls.len() == 0 {
        Seq::empty()
    } else {
        let rest = times_of(calls.drop_first(), ip);
        if calls[0].0 == ip {
            seq![calls[0].1] + rest
        } else {
            rest
        }
    }
}

/// The times of the calls do not run back.
pub open spec fn calls_ordered(calls: Calls) -> bool {
    forall|i: int, j: int| 0 <= i <= j < calls.len() ==> (#[trigger] calls[i]).1 <= (#[trigger]
    calls[j]).1
}

/// No bucket holds more than it can.
pub open spec fn within(rate: Rate, buckets: Map<ClientIp, Bucket>) -> bool {
    forall|ip: ClientIp| #[trigger]
        buckets.contains_key(ip) ==> buckets[ip].tokens <= rate.full()
}

proof fn lemma_refilled(rate: Rate, b: Bucket, now: u128)
    ensures
        0 <= refilled(rate, b, now) <= rate.full() <= u64::MAX,
        b.tokens <= rate.full() ==> b.tokens <= refilled(rate, b, now),
        refilled(rate, b, now) <= b.tokens + elapsed(b.last, now) * rate.rps,
{
    assert(elapsed(b.last, now) * rate.rps >= 0) by (nonlinear_arith)
        requires
            elapsed(b.last, now) >= 0,
            rate.rps >= 0,
    ;
}

proof fn lemma_answers(rate: Rate, b: Bucket, times: Seq<u128>)
    requires
        times.len() > 0,
    ensures
        answers(rate, b, times).len() == times.len(),
        answers(rate, b, times)[0] == request(rate, b, times[0]).1,
        answers(rate, b, times).drop_first() == answers(
            rate,
            request(rate, b, times[0]).0,
            times.drop_first(),
        ),
    decreases times.len(),
{
    let after = request(rate, b, times[0]).0;
    let rest = answers(rate, after, times.drop_first());
    if times.len() > 1 {
        lemma_answers(rate, after, times.drop_first());
    }
    assert(answers(rate, b, times).drop_first() =~= rest);
}

/// What a bucket allows comes out of what it holds at the first request and what is
/// refilled until the last.
proof fn lemma_budget(rate: Rate, b: Bucket, times: Seq<u128>)
    requires
        ordered(times),
        times.len() > 0,
    ensures
        allowed_count(rate, b, times) * TOKEN <= refilled(rate, b, times[0]) + (times.last()
            - times[0]) * rate.rps,
    decreases times.len(),
{
    let (after, yes) = request(rate, b, times[0]);
    let rest = times.drop_first();
    lemma_answers(rate, b, times);
    lemma_refilled(rate, b, times[0]);
    if rest.len() == 0 {
        assert(answers(rate, after, rest) =~= Seq::<bool>::empty());
        assert(allowed_in(answers(rate, after, rest)) == 0);
        assert(times.last() - times[0] == 0);
    } else {
        assert(rest[0] == times[1]);
        assert(ordered(rest));
        lemma_budget(rate, after, rest);
        lemma_refilled(rate, after, rest[0]);
        assert(rest.last() == times.last());
        let first = rest[0] - times[0];
        let more = times.last() - rest[0];
        assert(first * rate.rps + more * rate.rps == (times.last() - times[0]) * rate.rps)
            by (nonlinear_arith)
            requires
                first + more == times.last() - times[0],
        ;
    }
}

/// Over any span of time, however long the client was idle before, a bucket allows at
/// most what it holds when full and what is refilled within the span:
/// `capacity + rps * seconds` requests.
pub proof fn allowance_is_bounded(rate: Rate, b: Bucket, times: Seq<u128>)
    requires
        ordered(times),
        times.len() > 0,
    ensures
        allowed_count(rate, b, times) * TOKEN <= rate.full() + (times.last() - times[0])
            * rate.rps,
{
    lemma_budget(rate, b, times);
    lemma_refilled(rate, b, times[0]);
}

/// A bucket that holds so many tokens allows as many requests, whenever they come.
proof fn lemma_allows_what_it_holds(rate: Rate, b: Bucket, times: Seq<u128>, i: int)
    requires
        b.tokens <= rate.full(),
        0 <= i < times.len(),
        (i + 1) * TOKEN <= b.tokens,
    ensures
        answers(rate, b, times).len() == times.len(),
        answers(rate, b, times)[i],
    decreases i,
{
    lemma_answers(rate, b, times);
    lemma_refilled(rate, b, times[0]);
    if i > 0 {
        let after = request(rate, b, times[0]).0;
        lemma_allows_what_it_holds(rate, after, times.drop_first(), i - 1);
        assert(answers(rate, b, times).drop_first()[i - 1] == answers(rate, b, times)[i]);
    }
}

/// A request that is refused consumes no token: it leaves what the refill gave.
pub proof fn refusal_is_free(rate: Rate, b: Bucket, now: u128)
    requires
        !request(rate, b, now).1,
    ensures
        request(rate, b, now).0.tokens == refilled(rate, b, now),
        b.tokens <= rate.full() ==> request(rate, b, now).0.tokens >= b.tokens,
{
    lemma_refilled(rate, b, now);
}

/// A client that waits for `1 / rps` seconds between requests is never refused.
pub proof fn patient_client_is_allowed(rate: Rate, b: Bucket, now: u128)
    requires
        rate.capacity > 0,
        elapsed(b.last, now) * rate.rps >= TOKEN,
    ensures
        request(rate, b, now).1,
{
}

/// Whatever is called, no bucket ever holds more than it can.
pub proof fn bucket_never_overflows(rate: Rate, buckets: Map<ClientIp, Bucket>, calls: Calls)
    requires
        within(rate, buckets),
    ensures
        within(rate, run(rate, buckets, calls)),
    decreases calls.len(),
{
    if calls.len() > 0 {
        let (ip, now) = calls[0];
        lemma_refilled(rate, bucket_of(rate, buckets, ip, now), now);
        bucket_never_overflows(rate, checked(rate, buckets, ip, now).0, calls.drop_first());
    }
}

/// What one client does leaves the buckets of the others alone.
pub proof fn clients_are_independent(
    rate: Rate,
    buckets: Map<ClientIp, Bucket>,
    a: ClientIp,
    b: ClientIp,
    now: u128,
    later: u128,
)
    requires
        a != b,
    ensures
        bucket_of(rate, checked(rate, buckets, a, now).0, b, later) == bucket_of(
            rate,
            buckets,
            b,
            later,
        ),
{
}

/// What a client is answered is what its own bucket answers to its own requests,
/// whatever other clients do in between.
pub proof fn others_do_not_matter(
    rate: Rate,
    buckets: Map<ClientIp, Bucket>,
    calls: Calls,
    ip: ClientIp,
)
    requires
        rate.rps > 0,
        times_of(calls, ip).len() > 0,
    ensures
        answers_to(rate, buckets, calls, ip) == answers(
            rate,
            bucket_of(rate, buckets, ip, times_of(calls, ip)[0]),
            times_of(calls, ip),
        ),
    decreases calls.len(),
{
    let rest = calls.drop_first();
    let (caller, now) = calls[0];
    let after = checked(rate, buckets, caller, now).0;
    let times = times_of(calls, ip);
    if caller == ip {
        assert(times.drop_first() =~= times_of(rest, ip));
        if times_of(rest, ip).len() > 0 {
            others_do_not_matter(rate, after, rest, ip);
        } else {
            lemma_not_called(rate, after, rest, ip);
        }
    } else {
        others_do_not_matter(rate, after, rest, ip);
    }
}

proof fn lemma_not_called(
    rate: Rate,
    buckets: Map<ClientIp, Bucket>,
    calls: Calls,
    ip: ClientIp,
)
    requires
        times_of(calls, ip).len() == 0,
    ensures
        answers_to(rate, buckets, calls, ip) == Seq::<bool>::empty(),
    decreases calls.len(),
{
    if calls.len() > 0 {
        assert(calls[0].0 != ip);
        lemma_not_called(
            rate,
            checked(rate, buckets, calls[0].0, calls[0].1).0,
            calls.drop_first(),
            ip,
        );
    }
}

proof fn lemma_times_of(calls: Calls, ip: ClientIp)
    requires
        calls_ordered(calls),
    ensures
        ordered(times_of(calls, ip)),
        forall|i: int|
            0 <= i < times_of(calls, ip).len() ==> calls.first().1 <= #[trigger] times_of(
                calls,
                ip,
            )[i] <= calls.last().1,
    decreases calls.len(),
{
    if calls.len() > 0 {
        let rest = calls.drop_first();
        assert(calls_ordered(rest)) by {
            assert forall|i: int, j: int| 0 <= i <= j < rest.len() implies (#[trigger] rest[i]).1
                <= (#[trigger] rest[j]).1 by {
                assert(calls[i + 1].1 <= calls[j + 1].1);
            }
        }
        lemma_times_of(rest, ip);
        let later = times_of(rest, ip);
        let times = times_of(calls, ip);
        if rest.len() > 0 {
            assert(calls[0].1 <= calls[1].1);
            assert(rest.first() == calls[1]);
            assert(rest.last() == calls.last());
        }
        assert(calls[0].1 <= calls[calls.len() - 1].1);
        assert forall|i: int| 0 <= i < times.len() implies calls.first().1 <= #[trigger] times[i]
            <= calls.last().1 by {
            if calls[0].0 == ip {
                if i > 0 {
                    assert(times[i] == later[i - 1]);
                }
            } else {
                assert(times[i] == later[i]);
            }
        }
        assert forall|i: int, j: int| 0 <= i <= j < times.len() implies times[i] <= times[j] by {
            if calls[0].0 == ip {
                if i > 0 {
                    assert(times[i] == later[i - 1]);
                    assert(times[j] == later[j - 1]);
                }
            }
        }
    }
}

/// Over any span of calls, with other clients between and however long it was idle
/// before, a client is allowed at most `capacity + rps * seconds` requests.
pub proof fn client_is_bounded(
    rate: Rate,
    buckets: Map<ClientIp, Bucket>,
    calls: Calls,
    ip: ClientIp,
)
    requires
        rate.rps > 0,
        calls_ordered(calls),
        calls.len() > 0,
    ensures
        allowed_in(answers_to(rate, buckets, calls, ip)) * TOKEN <= rate.full() + (calls.last().1
            - calls.first().1) * rate.rps,
{
    let times = times_of(calls, ip);
    let span = calls.last().1 - calls.first().1;
    assert(calls[0].1 <= calls[calls.len() - 1].1);
    lemma_times_of(calls, ip);
    if times.len() == 0 {
        lemma_not_called(rate, buckets, calls, ip);
        assert(span * rate.rps >= 0) by (nonlinear_arith)
            requires
                span >= 0,
                rate.rps >= 0,
        ;
        assert(rate.full() >= 0);
    } else {
        others_do_not_matter(rate, buckets, calls, ip);
        allowance_is_bounded(rate, bucket_of(rate, buckets, ip, times[0]), times);
        let own = times.last() - times[0];
        assert(own * rate.rps <= span * rate.rps) by (nonlinear_arith)
            requires
                own <= span,
                rate.rps >= 0,
        ;
    }
}

/// The first requests of a new client are allowed, as many as the capacity, whenever
/// they come and whatever other clients do in between.
pub proof fn new_client_gets_its_burst(
    rate: Rate,
    buckets: Map<ClientIp, Bucket>,
    calls: Calls,
    ip: ClientIp,
    i: int,
)
    requires
        rate.rps > 0,
        !buckets.contains_key(ip),
        0 <= i < rate.capacity,
        i < times_of(calls, ip).len(),
    ensures
        answers_to(rate, buckets, calls, ip).len() == times_of(calls, ip).len(),
        answers_to(rate, buckets, calls, ip)[i],
{
    let times = times_of(calls, ip);
    let b = bucket_of(rate, buckets, ip, times[0]);
    others_do_not_matter(rate, buckets, calls, ip);
    lemma_refilled(rate, b, times[0]);
    lemma_allows_what_it_holds(rate, b, times, i);
}

/// A request that is refused does not slow the refill: at any later time the bucket
/// holds what it would hold without that request.
pub proof fn refused_requests_do_not_slow_the_refill(rate: Rate, b: Bucket, now: u128, later: u128)
    requires
        !request(rate, b, now).1,
        b.last <= now <= later,
        rate.capacity > 0,
    ensures
        refilled(rate, request(rate, b, now).0, later) == refilled(rate, b, later),
        request(rate, request(rate, b, now).0, later).1 == request(rate, b, later).1,
{
    let first = now - b.last;
    let more = later - now;
    lemma_refilled(rate, b, now);
    assert(rate.full() >= TOKEN) by (nonlinear_arith)
        requires
            rate.capacity > 0,
            rate.full() == rate.capacity * TOKEN,
    ;
    assert(first * rate.rps + more * rate.rps == (later - b.last) * rate.rps) by (nonlinear_arith)
        requires
            first + more == later - b.last,
    ;
    assert(more * rate.rps >= 0) by (nonlinear_arith)
        requires
            more >= 0,
            rate.rps >= 0,
    ;
}

/// A client that rests long enough has its whole burst again, and one that has spent its
/// tokens gets exactly what is refilled: a bucket grows by `rps` billionths of a token in
/// each nanosecond until it is full.
pub proof fn buckets_fill_at_the_rate(rate: Rate, b: Bucket, now: u128)
    requires
        b.last <= now,
    ensures
        b.tokens + (now - b.last) * rate.rps <= rate.capacity * 1_000_000_000 ==> refilled(
            rate,
            b,
            now,
        ) == b.tokens + (now - b.last) * rate.rps,
        b.tokens + (now - b.last) * rate.rps >= rate.capacity * 1_000_000_000 ==> refilled(
            rate,
            b,
            now,
        ) == rate.capacity * 1_000_000_000,
        request(rate, b, now).1 <==> refilled(rate, b, now) >= 1_000_000_000,
        request(rate, b, now).1 ==> request(rate, b, now).0.tokens == refilled(rate, b, now)
            - 1_000_000_000,
        request(rate, b, now).0.last == now,
{
    lemma_refilled(rate, b, now);
}

/// Without a rate every request is allowed; with one, the burst is the rate where none
/// is given.
pub proof fn limits_are_as_configured(rps: u32, burst: u32, l: RateLimiter)
    requires
        call_ensures(RateLimiter::new, (rps, burst), l),
    ensures
        l.rate().rps == rps,
        burst > 0 ==> l.rate().capacity == burst,
        burst == 0 ==> l.rate().capacity == rps,
        forall|ip: ClientIp| !#[trigger] l.buckets().contains_key(ip),
        rps == 0 ==> forall|buckets: Map<ClientIp, Bucket>, ip: ClientIp, now: u128|
            (#[trigger] checked(l.rate(), buckets, ip, now)).1,
{
}

/// Each client spends from a bucket of its own, in billionths of a token. A client that
/// is new has a full bucket. Between two requests a bucket gains the rate for each
/// nanosecond, up to its capacity, and nothing where the clock runs back. A request is
/// allowed exactly if the bucket then holds a whole token, and takes it. Without a rate
/// every request is allowed, and nothing is counted.
pub proof fn requests_spend_tokens(l: &mut RateLimiter, ip: ClientIp, now: u128, allowed: bool)
    requires
        call_ensures(RateLimiter::check_at, (l, ip, now), allowed),
    ensures
        final(l).rate() == old(l).rate(),
        old(l).rate().rps == 0 ==> allowed && final(l).buckets() == old(l).buckets(),
        old(l).rate().rps > 0 ==> {
            let full = old(l).rate().capacity * 1_000_000_000;
            let known = old(l).buckets().contains_key(ip);
            let b = old(l).buckets()[ip];
            let gain = if known && b.last <= now {
                (now - b.last) * old(l).rate().rps
            } else {
                0
            };
            let held = if !known || b.tokens + gain > full {
                full
            } else {
                b.tokens + gain
            };
            let after = final(l).buckets()[ip];
            &&& allowed <==> held >= 1_000_000_000
            &&& final(l).buckets().contains_key(ip)
            &&& after.last == now
            &&& allowed ==> after.tokens == held - 1_000_000_000
            &&& !allowed ==> after.tokens == held
            &&& final(l).buckets().remove(ip) =~= old(l).buckets().remove(ip)
        },
{
    let rate = old(l).rate();
    if rate.rps > 0 {
        let b = bucket_of(rate, old(l).buckets(), ip, now);
        lemma_refilled(rate, b, now);
        assert(rate.capacity * 1_000_000_000 <= 0xffff_ffff * 1_000_000_000) by (nonlinear_arith)
            requires
                rate.capacity <= 0xffff_ffff,
        ;
        assert(rate.full() == rate.capacity * 1_000_000_000);
        assert(elapsed(now, now) * rate.rps == 0);
        if b.last > now {
            assert(elapsed(b.last, now) * rate.rps == 0);
        }
    }
}

} // verus!
