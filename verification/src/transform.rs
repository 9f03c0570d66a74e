//! Transforms of event streams: idle compression and speed scaling.

use vstd::arithmetic::div_mod::{
    lemma_div_is_ordered, lemma_div_pos_is_pos, lemma_fundamental_div_mod,
    lemma_fundamental_div_mod_converse, lemma_mod_bound,
};
use vstd::prelude::*;
use crate::event::{non_decreasing, replayed_bytes, times, views, Event, EventView};

verus! {

/// How far `time` lies after `prev`; zero when it does not.
pub open spec fn gap(prev: int, time: int) -> int {
    if time >= prev {
        time - prev
    } else {
        0
    }
}

/// The smaller of two integers.
pub open spec fn min_int(a: int, b: int) -> int {
    if a <= b {
        a
    } else {
        b
    }
}

/// The last of `times`, or zero where there is none: the time that the next
/// event's gap is measured from.
pub open spec fn last_time(times: Seq<u64>) -> int {
    if times.len() == 0 {
        0
    } else {
        times.last() as int
    }
}

/// The idle-compressed time of the last of `times`, before it is fitted
/// into 64 bits: the sum of all gaps up to it, each cut down to `limit`.
pub open spec fn compressed_sum(times: Seq<u64>, limit: u64) -> int
    decreases times.len(),
{
    if times.len() == 0 {
        0
    } else {
        compressed_sum(times.drop_last(), limit) + min_int(
            gap(last_time(times.drop_last()), times.last() as int),
            limit as int,
        )
    }
}

/// `value` held to the range of `u64` from above.
pub open spec fn saturated(value: int) -> int {
    min_int(value, u64::MAX as int)
}

/// The idle-compressed time of the last of `times`.
pub open spec fn compressed_time(times: Seq<u64>, limit: u64) -> int {
    saturated(compressed_sum(times, limit))
}

/// Running state of idle compression over a stream of event times.
pub struct IdleLimiter {
    limit: u64,
    prev_time: u64,
    prev_out: u64,
    seen: Ghost<Seq<u64>>,
}

impl IdleLimiter {
    #[verifier::type_invariant]
    spec fn consistent(self) -> bool {
        &&& self.prev_time == last_time(self.seen@)
        &&& self.prev_out == compressed_time(self.seen@, self.limit)
    }

    /// The largest gap, in microseconds, that this limiter lets through.
    pub closed spec fn limit(self) -> u64 {
        self.limit
    }

    /// The recorded times handed to this limiter so far, in order.
    pub closed spec fn seen(self) -> Seq<u64> {
        self.seen@
    }

    /// A limiter that has seen no event yet.
    pub fn new(limit: u64) -> (limiter: IdleLimiter)
        ensures
            limiter.limit() == limit,
            limiter.seen() == Seq::<u64>::empty(),
    {
        IdleLimiter { limit, prev_time: 0, prev_out: 0, seen: Ghost(Seq::empty()) }
    }

    /// Takes the recorded time of the next event and returns the time it is
    /// emitted at.
    pub fn apply(&mut self, time: u64) -> (out: u64)
        ensures
            final(self).limit() == old(self).limit(),
            final(self).seen() == old(self).seen().push(time),
            out == compressed_time(final(self).seen(), final(self).limit()),
    {
        proof {
            use_type_invariant(&*self);
        }
        let gap: u64 = if time >= self.prev_time {
            time - self.prev_time
        } else {
            0
        };
        let step: u64 = if gap <= self.limit {
            gap
        } else {
            self.limit
        };
        let out: u64 = self.prev_out.saturating_add(step);
        let ghost seen = self.seen@.push(time);
        proof {
            assert(seen.drop_last() =~= self.seen@);
        }
        *self = IdleLimiter { limit: self.limit, prev_time: time, prev_out: out, seen: Ghost(seen) };
        out
    }
}


/// `a / b` rounded to the nearest integer, a half upwards.
pub open spec fn rounded_quotient(a: int, b: int) -> int {
    (2 * a + b) / (2 * b)
}

/// The time at which an event recorded at `time` is emitted when playback
/// runs `numer / denom` times as fast: `time * denom / numer`, rounded to
/// the nearest microsecond and held to the range of `u64`.
pub open spec fn scaled_time(time: u64, numer: u64, denom: u64) -> int {
    saturated(rounded_quotient(time * denom, numer as int))
}

/// A playback speed, as the positive ratio `numer / denom`.
#[derive(Clone, Copy, Debug)]
pub struct Speed {
    numer: u64,
    denom: u64,
}

/// Rounding a quotient to the nearest integer is taking its floor and
/// adding one where twice the remainder reaches the divisor.
proof fn lemma_rounded_quotient(a: int, b: int)
    requires
        0 <= a,
        0 < b,
    ensures
        rounded_quotient(a, b) == a / b + if 2 * (a % b) >= b {
            1int
        } else {
            0int
        },
{
    let q = a / b;
    let r = a % b;
    lemma_fundamental_div_mod(a, b);
    lemma_mod_bound(a, b);
    let c = if 2 * r >= b {
        1int
    } else {
        0int
    };
    let rest = 2 * r + b - c * (2 * b);
    assert(2 * a + b == (q + c) * (2 * b) + rest) by (nonlinear_arith)
        requires
            a == b * q + r,
            rest == 2 * r + b - c * (2 * b),
    ;
    lemma_fundamental_div_mod_converse(2 * a + b, 2 * b, q + c, rest);
}

impl Speed {
    #[verifier::type_invariant]
    spec fn positive(self) -> bool {
        self.numer > 0 && self.denom > 0
    }

    /// The numerator of the ratio.
    pub closed spec fn numer(self) -> u64 {
        self.numer
    }

    /// The denominator of the ratio.
    pub closed spec fn denom(self) -> u64 {
        self.denom
    }

    /// The speed `numer / denom`, where both are positive.
    pub fn new(numer: u64, denom: u64) -> (speed: Option<Speed>)
        ensures
            speed is Some <==> numer > 0 && denom > 0,
            speed matches Some(s) ==> s.numer() == numer && s.denom() == denom,
    {
        if numer > 0 && denom > 0 {
            Some(Speed { numer, denom })
        } else {
            None
        }
    }

    /// The time at which an event recorded at `time` is emitted at this
    /// speed.
    pub fn scale(&self, time: u64) -> (out: u64)
        ensures
            out == scaled_time(time, self.numer(), self.denom()),
    {
        proof {
            use_type_invariant(self);
            lemma_rounded_quotient(time * self.denom, self.numer as int);
            assert(0 <= time * self.denom <= u64::MAX * u64::MAX) by (nonlinear_arith)
                requires
                    0 <= time <= u64::MAX,
                    0 <= self.denom <= u64::MAX,
            ;
        }
        let product: u128 = time as u128 * self.denom as u128;
        let numer: u128 = self.numer as u128;
        let floor: u128 = product / numer;
        let rest: u128 = product % numer;
        proof {
            lemma_fundamental_div_mod(product as int, numer as int);
            lemma_mod_bound(product as int, numer as int);
            assert(floor <= product) by (nonlinear_arith)
                requires
                    product == numer * floor + rest,
                    numer >= 1,
                    rest >= 0,
                    floor >= 0,
            ;
        }
        let rounded: u128 = if 2 * rest >= numer {
            floor + 1
        } else {
            floor
        };
        if rounded > u64::MAX as u128 {
            u64::MAX
        } else {
            rounded as u64
        }
    }
}

/// What idle compression with `limit` makes of `events`: each event keeps
/// its payload and is emitted at its idle-compressed time.
pub open spec fn limit_idle_time_spec(events: Seq<EventView>, limit: u64) -> Seq<EventView> {
    Seq::new(
        events.len(),
        |i: int|
            EventView {
                time: compressed_time(times(events).take(i + 1), limit) as u64,
                payload: events[i].payload,
            },
    )
}

/// Caps every gap between adjacent events of a stream at `limit`
/// microseconds.
pub fn limit_idle_time(events: Vec<Event>, limit: u64) -> (out: Vec<Event>)
    ensures
        views(out@) == limit_idle_time_spec(views(events@), limit),
{
    let mut limiter = IdleLimiter::new(limit);
    let mut out: Vec<Event> = Vec::new();
    let ghost all = times(views(events@));
    for event in it: events
        invariant
            it.seq() == events@,
            all == times(views(events@)),
            limiter.limit() == limit,
            limiter.seen() == all.take(it.index() as int),
            out@.len() == it.index(),
            forall|k: int|
                0 <= k < out@.len() ==> (#[trigger] out@[k])@ == limit_idle_time_spec(
                    views(events@),
                    limit,
                )[k],
    {
        let ghost i = it.index() as int;
        let time: u64 = limiter.apply(event.time);
        proof {
            assert(all.take(i).push(event.time) =~= all.take(i + 1));
        }
        out.push(Event { time, payload: event.payload });
    }
    assert(views(out@) =~= limit_idle_time_spec(views(events@), limit));
    out
}

/// What playback at the speed `numer / denom` makes of `events`: each event
/// keeps its payload and is emitted at its scaled time.
pub open spec fn accelerate_spec(events: Seq<EventView>, numer: u64, denom: u64) -> Seq<
    EventView,
> {
    Seq::new(
        events.len(),
        |i: int|
            EventView {
                time: scaled_time(events[i].time, numer, denom) as u64,
                payload: events[i].payload,
            },
    )
}

/// Rescales the time of every event of a stream to the given speed.
pub fn accelerate(events: Vec<Event>, speed: Speed) -> (out: Vec<Event>)
    ensures
        views(out@) == accelerate_spec(views(events@), speed.numer(), speed.denom()),
{
    let mut out: Vec<Event> = Vec::new();
    for event in it: events
        invariant
            it.seq() == events@,
            out@.len() == it.index(),
            forall|k: int|
                0 <= k < out@.len() ==> (#[trigger] out@[k])@ == accelerate_spec(
                    views(events@),
                    speed.numer(),
                    speed.denom(),
                )[k],
    {
        let time: u64 = speed.scale(event.time);
        out.push(Event { time, payload: event.payload });
    }
    assert(views(out@) =~= accelerate_spec(views(events@), speed.numer(), speed.denom()));
    out
}

/// What a player makes of the times of a recording before it replays it:
/// idle compression with `limit`, then scaling to the speed `numer / denom`.
pub open spec fn playback_spec(events: Seq<EventView>, limit: u64, numer: u64, denom: u64) -> Seq<
    EventView,
> {
    accelerate_spec(limit_idle_time_spec(events, limit), numer, denom)
}

/// The idle time limit, in microseconds, that playback works with: the
/// caller's where there is one, else the recording's own, else none at all,
/// which is the largest limit there is.
pub fn effective_idle_time_limit(caller: Option<u64>, recorded: Option<u64>) -> (limit: u64)
    ensures
        limit == match (caller, recorded) {
            (Some(l), _) => l,
            (None, Some(l)) => l,
            (None, None) => u64::MAX,
        },
{
    match caller {
        Some(l) => l,
        None => match recorded {
            Some(l) => l,
            None => u64::MAX,
        },
    }
}

/// Running state of the player's transform chain over a stream of events:
/// idle compression followed by speed scaling.
pub struct Retimer {
    idle: IdleLimiter,
    speed: Speed,
}

impl Retimer {
    /// The idle time limit of the chain, in microseconds.
    pub closed spec fn limit(self) -> u64 {
        self.idle.limit()
    }

    /// The speed of the chain.
    pub closed spec fn speed(self) -> Speed {
        self.speed
    }

    /// The recorded times of the events handed to this chain so far.
    pub closed spec fn seen(self) -> Seq<u64> {
        self.idle.seen()
    }

    /// A chain that has seen no event yet.
    pub fn new(limit: u64, speed: Speed) -> (retimer: Retimer)
        ensures
            retimer.limit() == limit,
            retimer.speed() == speed,
            retimer.seen() == Seq::<u64>::empty(),
    {
        Retimer { idle: IdleLimiter::new(limit), speed }
    }

    /// Takes the next event of the recording and returns it as the player
    /// replays it: same payload, idle-compressed and scaled time.
    pub fn apply(&mut self, event: Event) -> (out: Event)
        ensures
            final(self).limit() == old(self).limit(),
            final(self).speed() == old(self).speed(),
            final(self).seen() == old(self).seen().push(event.time),
            out.payload == event.payload,
            out.time == scaled_time(
                compressed_time(final(self).seen(), final(self).limit()) as u64,
                final(self).speed().numer(),
                final(self).speed().denom(),
            ),
    {
        let compressed: u64 = self.idle.apply(event.time);
        let time: u64 = self.speed.scale(compressed);
        Event { time, payload: event.payload }
    }
}

/// Runs a whole recording through the player's transform chain.
pub fn retime(events: Vec<Event>, limit: u64, speed: Speed) -> (out: Vec<Event>)
    ensures
        views(out@) == playback_spec(views(events@), limit, speed.numer(), speed.denom()),
{
    accelerate(limit_idle_time(events, limit), speed)
}

/// The sum of capped gaps grows with every event, by at most `limit`.
proof fn lemma_compressed_sum_step(times: Seq<u64>, limit: u64, i: int)
    requires
        0 <= i < times.len(),
    ensures
        0 <= compressed_sum(times.take(i), limit) <= compressed_sum(times.take(i + 1), limit),
        compressed_sum(times.take(i + 1), limit) == compressed_sum(times.take(i), limit) + min_int(
            gap(last_time(times.take(i)), times[i] as int),
            limit as int,
        ),
    decreases i,
{
    assert(times.take(i + 1).drop_last() =~= times.take(i));
    if i > 0 {
        lemma_compressed_sum_step(times, limit, i - 1);
    }
}

/// The sum of capped gaps never shrinks as the stream goes on.
proof fn lemma_compressed_sum_grows(times: Seq<u64>, limit: u64, i: int, j: int)
    requires
        0 <= i <= j <= times.len(),
    ensures
        0 <= compressed_sum(times.take(i), limit) <= compressed_sum(times.take(j), limit),
    decreases j - i,
{
    if i < j {
        lemma_compressed_sum_step(times, limit, j - 1);
        lemma_compressed_sum_grows(times, limit, i, j - 1);
    } else if i > 0 {
        lemma_compressed_sum_step(times, limit, i - 1);
    }
}

/// On a stream whose times never step backwards, the sum of capped gaps
/// stays at or below the last recorded time.
proof fn lemma_compressed_sum_below_time(times: Seq<u64>, limit: u64)
    requires
        non_decreasing(times),
    ensures
        0 <= compressed_sum(times, limit) <= last_time(times),
        limit == u64::MAX ==> compressed_sum(times, limit) == last_time(times),
    decreases times.len(),
{
    if times.len() > 0 {
        let front = times.drop_last();
        assert(non_decreasing(front));
        lemma_compressed_sum_below_time(front, limit);
        if front.len() > 0 {
            assert(front.last() == times[times.len() - 2]);
        }
    }
}

/// Idle compression never lets two adjacent emitted events, nor the start of
/// the stream and its first event, lie further apart than the limit, and it
/// never makes time step backwards, whatever the recorded times were.
pub proof fn lemma_idle_gaps_bounded(events: Seq<EventView>, limit: u64, i: int)
    requires
        0 <= i < events.len(),
    ensures
        ({
            let out = limit_idle_time_spec(events, limit);
            let before = if i == 0 {
                0int
            } else {
                out[i - 1].time as int
            };
            0 <= out[i].time - before <= limit
        }),
{
    let all = times(events);
    lemma_compressed_sum_step(all, limit, i);
    if i > 0 {
        lemma_compressed_sum_step(all, limit, i - 1);
    } else {
        assert(all.take(0) =~= Seq::<u64>::empty());
    }
}

/// On a stream whose times never step backwards, idle compression follows
/// the recurrence `out = prev_out + min(time - prev_time, limit)` exactly,
/// with both predecessors zero at the start, and no event is emitted later
/// than it was recorded; without a limit, which is the limit `u64::MAX`,
/// every time is kept as it is.
pub proof fn lemma_idle_compression_recurrence(events: Seq<EventView>, limit: u64, i: int)
    requires
        non_decreasing(times(events)),
        0 <= i < events.len(),
    ensures
        ({
            let out = limit_idle_time_spec(events, limit);
            let prev_out = if i == 0 {
                0int
            } else {
                out[i - 1].time as int
            };
            let prev_time = if i == 0 {
                0int
            } else {
                events[i - 1].time as int
            };
            &&& out[i].time == prev_out + min_int(events[i].time - prev_time, limit as int)
            &&& out[i].time <= events[i].time
            &&& limit == u64::MAX ==> out[i].time == events[i].time
        }),
{
    let all = times(events);
    lemma_compressed_sum_step(all, limit, i);
    assert(non_decreasing(all.take(i + 1)));
    lemma_compressed_sum_below_time(all.take(i + 1), limit);
    assert(non_decreasing(all.take(i)));
    lemma_compressed_sum_below_time(all.take(i), limit);
    if i == 0 {
        assert(all.take(0) =~= Seq::<u64>::empty());
    }
}

/// A later time is never scaled to an earlier one.
pub proof fn lemma_scaled_time_monotonic(earlier: u64, later: u64, numer: u64, denom: u64)
    requires
        numer > 0,
        earlier <= later,
    ensures
        0 <= scaled_time(earlier, numer, denom) <= scaled_time(later, numer, denom) <= u64::MAX,
{
    let a = 2 * (earlier * denom) + numer;
    let b = 2 * (later * denom) + numer;
    assert(0 <= a <= b) by (nonlinear_arith)
        requires
            0 <= earlier <= later,
            0 <= denom,
            0 < numer,
            a == 2 * (earlier * denom) + numer,
            b == 2 * (later * denom) + numer,
    ;
    lemma_div_is_ordered(a, b, 2 * numer);
    lemma_div_pos_is_pos(a, 2 * numer);
}

/// The times that the player's transform chain emits never step backwards,
/// whatever the recording, the idle time limit and the speed.
pub proof fn lemma_playback_non_decreasing(
    events: Seq<EventView>,
    limit: u64,
    numer: u64,
    denom: u64,
)
    requires
        numer > 0,
    ensures
        non_decreasing(times(limit_idle_time_spec(events, limit))),
        non_decreasing(times(playback_spec(events, limit, numer, denom))),
{
    let all = times(events);
    let idle = limit_idle_time_spec(events, limit);
    let out = playback_spec(events, limit, numer, denom);
    assert forall|i: int, j: int| 0 <= i <= j < idle.len() implies times(idle)[i] <= times(
        idle,
    )[j] && times(out)[i] <= times(out)[j] by {
        lemma_compressed_sum_grows(all, limit, i + 1, j + 1);
        lemma_scaled_time_monotonic(idle[i].time, idle[j].time, numer, denom);
    }
}

/// Speed scaling keeps the order of a stream whose times never step
/// backwards.
pub proof fn lemma_accelerate_non_decreasing(events: Seq<EventView>, numer: u64, denom: u64)
    requires
        numer > 0,
        non_decreasing(times(events)),
    ensures
        non_decreasing(times(accelerate_spec(events, numer, denom))),
{
    let out = accelerate_spec(events, numer, denom);
    assert forall|i: int, j: int| 0 <= i <= j < out.len() implies times(out)[i] <= times(
        out,
    )[j] by {
        assert(times(events)[i] <= times(events)[j]);
        lemma_scaled_time_monotonic(events[i].time, events[j].time, numer, denom);
    }
}

/// Scaling to the speed `numer / denom` turns the gap between any two events
/// into that gap divided by the speed, to within less than one microsecond,
/// wherever both scaled times fit into 64 bits.
pub proof fn lemma_speed_scales_gaps(
    events: Seq<EventView>,
    numer: u64,
    denom: u64,
    i: int,
    j: int,
)
    requires
        numer > 0,
        0 <= i < events.len(),
        0 <= j < events.len(),
        rounded_quotient(events[i].time * denom, numer as int) <= u64::MAX,
        rounded_quotient(events[j].time * denom, numer as int) <= u64::MAX,
    ensures
        ({
            let out = accelerate_spec(events, numer, denom);
            let scaled_gap = out[j].time - out[i].time;
            let gap = events[j].time - events[i].time;
            -numer < numer * scaled_gap - denom * gap < numer
        }),
{
    let out = accelerate_spec(events, numer, denom);
    lemma_rounding_error(events[i].time, numer, denom);
    lemma_rounding_error(events[j].time, numer, denom);
    let si = out[i].time as int;
    let sj = out[j].time as int;
    let ti = events[i].time as int;
    let tj = events[j].time as int;
    let n = numer as int;
    let d = denom as int;
    assert(-n < n * (sj - si) - d * (tj - ti) < n) by (nonlinear_arith)
        requires
            -n < 2 * (n * si) - 2 * (ti * d) <= n,
            -n < 2 * (n * sj) - 2 * (tj * d) <= n,
    ;
}

/// A rounded quotient lies within half a unit of the exact one.
proof fn lemma_rounding_error(time: u64, numer: u64, denom: u64)
    requires
        numer > 0,
    ensures
        ({
            let q = rounded_quotient(time * denom, numer as int);
            &&& 0 <= q
            &&& -numer < 2 * (numer * q) - 2 * (time * denom) <= numer
        }),
{
    let a = time * denom;
    let n = numer as int;
    assert(0 <= a) by (nonlinear_arith)
        requires
            a == time * denom,
            0 <= time,
            0 <= denom,
    ;
    let q = (2 * a + n) / (2 * n);
    let r = (2 * a + n) % (2 * n);
    lemma_fundamental_div_mod(2 * a + n, 2 * n);
    lemma_mod_bound(2 * a + n, 2 * n);
    lemma_div_pos_is_pos(2 * a + n, 2 * n);
    assert(2 * (n * q) == (2 * n) * q) by (nonlinear_arith);
}

/// The player's transform chain changes when events are replayed, never
/// what a terminal receives: the bytes and their order stay as recorded.
pub proof fn lemma_playback_keeps_bytes(events: Seq<EventView>, limit: u64, numer: u64, denom: u64)
    ensures
        replayed_bytes(limit_idle_time_spec(events, limit)) == replayed_bytes(events),
        replayed_bytes(accelerate_spec(events, numer, denom)) == replayed_bytes(events),
        replayed_bytes(playback_spec(events, limit, numer, denom)) == replayed_bytes(events),
    decreases events.len(),
{
    if events.len() > 0 {
        let front = events.drop_last();
        lemma_playback_keeps_bytes(front, limit, numer, denom);
        assert(limit_idle_time_spec(events, limit).drop_last() =~= limit_idle_time_spec(
            front,
            limit,
        )) by {
            assert forall|k: int| 1 <= k <= front.len() implies #[trigger] times(events).take(k)
                == times(front).take(k) by {
                assert(times(events).take(k) =~= times(front).take(k));
            }
        }
        assert(accelerate_spec(events, numer, denom).drop_last() =~= accelerate_spec(
            front,
            numer,
            denom,
        ));
        assert(playback_spec(events, limit, numer, denom).drop_last() =~= playback_spec(
            front,
            limit,
            numer,
            denom,
        ));
    }
}

} // verus!
