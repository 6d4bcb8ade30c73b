//! Moments in time and amounts of it.
pub mod monotonic;
pub mod posix;
pub mod windows;

use vstd::prelude::*;

verus! {

/// The number of nanoseconds in a second.
pub const NANOS_PER_SEC: u64 = 1_000_000_000;

/// The number of nanoseconds in a millisecond.
pub const NANOS_PER_MILLI: u32 = 1_000_000;

/// A fixed amount of time: whole seconds and the nanoseconds that are left.
#[derive(Clone, Copy, PartialEq, Eq, Debug, Structural)]
pub struct OsDuration {
    pub secs: u64,
    pub nanos: u32,
}

impl OsDuration {
    /// The nanoseconds make up less than a second.
    pub open spec fn wf(self) -> bool {
        self.nanos < NANOS_PER_SEC
    }

    /// All of it in nanoseconds.
    pub open spec fn total(self) -> nat {
        (self.secs * NANOS_PER_SEC + self.nanos) as nat
    }

    /// No time at all.
    pub fn zero() -> (duration: Self)
        ensures
            duration.wf(),
            duration.total() == 0,
    {
        OsDuration { secs: 0, nanos: 0 }
    }

    /// This number of nanoseconds.
    pub fn from_nanos(nanos: u64) -> (duration: Self)
        ensures
            duration.wf(),
            duration.total() == nanos,
    {
        OsDuration { secs: nanos / NANOS_PER_SEC, nanos: (nanos % NANOS_PER_SEC) as u32 }
    }

    /// All of it in nanoseconds.
    pub fn as_nanos(&self) -> (nanos: u128)
        ensures
            nanos == self.total(),
    {
        assert(self.secs * NANOS_PER_SEC <= u64::MAX * NANOS_PER_SEC) by (nonlinear_arith)
            requires
                self.secs <= u64::MAX,
        ;
        self.secs as u128 * NANOS_PER_SEC as u128 + self.nanos as u128
    }

    /// The whole milliseconds of it.
    pub fn as_millis(&self) -> (millis: u128)
        requires
            self.wf(),
        ensures
            millis == self.total() / NANOS_PER_MILLI as nat,
    {
        assert(self.total() / NANOS_PER_MILLI as nat == self.secs * 1000 + self.nanos
            / NANOS_PER_MILLI) by {
            assert(self.total() == (self.secs * 1000) * NANOS_PER_MILLI + self.nanos);
        }
        self.secs as u128 * 1000 + (self.nanos / NANOS_PER_MILLI) as u128
    }
}

impl OsDuration {
    /// The sum of two amounts of time, or `None` if that is too much.
    pub fn checked_add(self, other: OsDuration) -> (sum: Option<OsDuration>)
        requires
            self.wf(),
            other.wf(),
        ensures
            sum is None <==> self.total() + other.total() > u64::MAX * NANOS_PER_SEC + (NANOS_PER_SEC
                - 1),
            sum matches Some(sum) ==> sum.wf() && sum.total() == self.total() + other.total(),
    {
        let mut secs: u64 = match self.secs.checked_add(other.secs) {
            Some(secs) => secs,
            None => {
                return None;
            },
        };
        let mut nanos: u32 = self.nanos + other.nanos;
        if nanos >= 1_000_000_000 {
            nanos = nanos - 1_000_000_000;
            secs = match secs.checked_add(1) {
                Some(secs) => secs,
                None => {
                    return None;
                },
            };
        }
        Some(OsDuration { secs, nanos })
    }

    /// What is left when `other` is taken away, or `None` if that is more.
    pub fn checked_sub(self, other: OsDuration) -> (rest: Option<OsDuration>)
        requires
            self.wf(),
            other.wf(),
        ensures
            rest is None <==> self.total() < other.total(),
            rest matches Some(rest) ==> rest.wf() && rest.total() == self.total() - other.total(),
    {
        let mut secs: u64 = match self.secs.checked_sub(other.secs) {
            Some(secs) => secs,
            None => {
                return None;
            },
        };
        if self.nanos >= other.nanos {
            return Some(OsDuration { secs, nanos: self.nanos - other.nanos });
        }
        secs = match secs.checked_sub(1) {
            Some(secs) => secs,
            None => {
                return None;
            },
        };
        Some(OsDuration { secs, nanos: 1_000_000_000 - other.nanos + self.nanos })
    }
}

/// Two amounts of time are the same if and only if they are as many
/// nanoseconds.
pub proof fn total_tells_duration(a: OsDuration, b: OsDuration)
    requires
        a.wf(),
        b.wf(),
    ensures
        a == b <==> a.total() == b.total(),
{
}

/// A moment in time, in nanoseconds. Moments that are measured never go back.
#[derive(Clone, Copy, PartialEq, Eq, PartialOrd, Ord, Hash, Debug, Structural)]
pub struct OsInstant {
    pub timestamp: u64,
}

impl OsInstant {
    /// The current moment, given what the system reports.
    pub fn now(clock: &mut Monotonic, reported: u64) -> (now: Self)
        ensures
            now.timestamp == old(clock).adjusted(reported),
            final(clock).is_actually_monotonic == old(clock).is_actually_monotonic,
            final(clock).current == old(clock).seen(reported),
    {
        OsInstant { timestamp: clock.timestamp(reported) }
    }

    /// Returns the amount of time elapsed from another instant to this one,
    /// which must not be earlier.
    pub fn duration_since(&self, earlier: Self) -> (duration: OsDuration)
        requires
            earlier.timestamp <= self.timestamp,
        ensures
            duration.wf(),
            duration.total() == self.timestamp - earlier.timestamp,
    {
        OsDuration::from_nanos(self.timestamp - earlier.timestamp)
    }

    /// Returns the amount of time elapsed from another instant to this one, or
    /// `None` if that instant is later than this one.
    pub fn checked_duration_since(&self, earlier: Self) -> (duration: Option<OsDuration>)
        ensures
            duration is None <==> earlier.timestamp > self.timestamp,
            duration matches Some(d) ==> d.wf() && d.total() == self.timestamp - earlier.timestamp,
    {
        if earlier.timestamp <= self.timestamp {
            Some(self.duration_since(earlier))
        } else {
            None
        }
    }

    /// Returns the amount of time elapsed from another instant to this one, or
    /// no time at all if that instant is later than this one.
    pub fn saturating_duration_since(&self, earlier: Self) -> (duration: OsDuration)
        ensures
            duration.wf(),
            duration.total() == (if earlier.timestamp <= self.timestamp {
                self.timestamp - earlier.timestamp
            } else {
                0
            }),
    {
        match self.checked_duration_since(earlier) {
            Some(duration) => duration,
            None => OsDuration::zero(),
        }
    }

    /// Returns the amount of time elapsed since this instant, which must not lie
    /// after the current moment.
    pub fn elapsed(&self, clock: &mut Monotonic, reported: u64) -> (duration: OsDuration)
        requires
            self.timestamp <= old(clock).adjusted(reported),
        ensures
            duration.wf(),
            duration.total() == old(clock).adjusted(reported) - self.timestamp,
            final(clock).is_actually_monotonic == old(clock).is_actually_monotonic,
            final(clock).current == old(clock).seen(reported),
    {
        OsInstant::now(clock, reported).duration_since(*self)
    }

    /// Returns the instant that is later by `duration`, or `None` if there is no
    /// such instant.
    pub fn checked_add(&self, duration: OsDuration) -> (later: Option<Self>)
        ensures
            later is None <==> self.timestamp + duration.total() > u64::MAX,
            later matches Some(t) ==> t.timestamp == self.timestamp + duration.total(),
    {
        let nanos: u128 = duration.as_nanos();
        if nanos > u64::MAX as u128 {
            return None;
        }
        match self.timestamp.checked_add(nanos as u64) {
            Some(timestamp) => Some(OsInstant { timestamp }),
            None => None,
        }
    }

    /// Returns the instant that is earlier by `duration`, or `None` if there is
    /// no such instant.
    pub fn checked_sub(&self, duration: OsDuration) -> (earlier: Option<Self>)
        ensures
            earlier is None <==> self.timestamp < duration.total(),
            earlier matches Some(t) ==> t.timestamp == self.timestamp - duration.total(),
    {
        let nanos: u128 = duration.as_nanos();
        if nanos > u64::MAX as u128 {
            return None;
        }
        match self.timestamp.checked_sub(nanos as u64) {
            Some(timestamp) => Some(OsInstant { timestamp }),
            None => None,
        }
    }

    /// Moves the instant later by `duration`, where there is such an instant.
    pub fn add_assign(&mut self, duration: OsDuration)
        requires
            old(self).timestamp + duration.total() <= u64::MAX,
        ensures
            final(self).timestamp == old(self).timestamp + duration.total(),
    {
        *self = *self + duration;
    }

    /// Moves the instant earlier by `duration`, where there is such an instant.
    pub fn sub_assign(&mut self, duration: OsDuration)
        requires
            duration.total() <= old(self).timestamp,
        ensures
            final(self).timestamp == old(self).timestamp - duration.total(),
    {
        *self = *self - duration;
    }
}

impl core::ops::Add<OsDuration> for OsInstant {
    type Output = OsInstant;

    fn add(self, duration: OsDuration) -> (later: OsInstant) {
        match self.checked_add(duration) {
            Some(later) => later,
            None => vstd::pervasive::unreached(),
        }
    }
}

impl vstd::std_specs::ops::AddSpecImpl<OsDuration> for OsInstant {
    open spec fn obeys_add_spec() -> bool {
        true
    }

    open spec fn add_req(self, duration: OsDuration) -> bool {
        self.timestamp + duration.total() <= u64::MAX
    }

    open spec fn add_spec(self, duration: OsDuration) -> OsInstant {
        OsInstant { timestamp: (self.timestamp + duration.total()) as u64 }
    }
}

impl core::ops::Sub<OsDuration> for OsInstant {
    type Output = OsInstant;

    fn sub(self, duration: OsDuration) -> (earlier: OsInstant) {
        match self.checked_sub(duration) {
            Some(earlier) => earlier,
            None => vstd::pervasive::unreached(),
        }
    }
}

impl vstd::std_specs::ops::SubSpecImpl<OsDuration> for OsInstant {
    open spec fn obeys_sub_spec() -> bool {
        true
    }

    open spec fn sub_req(self, duration: OsDuration) -> bool {
        duration.total() <= self.timestamp
    }

    open spec fn sub_spec(self, duration: OsDuration) -> OsInstant {
        OsInstant { timestamp: (self.timestamp - duration.total()) as u64 }
    }
}

impl core::ops::Sub<OsInstant> for OsInstant {
    type Output = OsDuration;

    fn sub(self, earlier: OsInstant) -> (duration: OsDuration) {
        let duration = self.duration_since(earlier);
        proof {
            total_tells_duration(duration, lasting((self.timestamp - earlier.timestamp) as u64));
        }
        duration
    }
}

impl vstd::std_specs::ops::SubSpecImpl<OsInstant> for OsInstant {
    open spec fn obeys_sub_spec() -> bool {
        true
    }

    open spec fn sub_req(self, earlier: OsInstant) -> bool {
        earlier.timestamp <= self.timestamp
    }

    open spec fn sub_spec(self, earlier: OsInstant) -> OsDuration {
        lasting((self.timestamp - earlier.timestamp) as u64)
    }
}

/// The duration of a number of nanoseconds.
pub open spec fn lasting(nanos: u64) -> OsDuration {
    OsDuration {
        secs: (nanos as nat / NANOS_PER_SEC as nat) as u64,
        nanos: (nanos as nat % NANOS_PER_SEC as nat) as u32,
    }
}

/// The latest timestamp, where the system's clock is known to go back.
#[derive(Clone, Copy, PartialEq, Eq, Debug, Structural)]
pub struct Monotonic {
    /// The system's clock never goes back.
    pub is_actually_monotonic: bool,
    /// The latest timestamp that was given out, unless the system's clock never
    /// goes back.
    pub current: u64,
}

impl Monotonic {
    /// No timestamp was given out yet.
    pub fn new(is_actually_monotonic: bool) -> (clock: Self)
        ensures
            clock == (Monotonic { is_actually_monotonic, current: 0 }),
    {
        Monotonic { is_actually_monotonic, current: 0 }
    }

    /// The timestamp that is given out when the system reports `now`.
    pub open spec fn adjusted(self, now: u64) -> u64 {
        if !self.is_actually_monotonic && self.current >= now {
            self.current
        } else {
            now
        }
    }

    /// The latest timestamp once that was given out.
    pub open spec fn seen(self, now: u64) -> u64 {
        if self.is_actually_monotonic {
            self.current
        } else {
            self.adjusted(now)
        }
    }

    /// The timestamp that is given out when the system reports `now`. It is what
    /// a thread does while it holds the lock of the latest timestamp.
    pub fn timestamp(&mut self, now: u64) -> (timestamp: u64)
        ensures
            timestamp == old(self).adjusted(now),
            final(self).is_actually_monotonic == old(self).is_actually_monotonic,
            final(self).current == old(self).seen(now),
    {
        if self.is_actually_monotonic {
            return now;
        }
        if self.current >= now {
            self.current
        } else {
            self.current = now;
            now
        }
    }
}

/// A thread that wants a timestamp without a lock.
#[derive(Clone, Copy, PartialEq, Eq, Debug, Structural)]
pub struct TimestampAttempt {
    /// The latest timestamp as the thread has seen it, or `None` if it must look.
    pub current: Option<u64>,
    /// What the system has reported.
    pub now: u64,
}

/// One step of `before` on the latest timestamp. A result ends the attempt.
pub open spec fn timestamp_steps(
    before: TimestampAttempt,
    after: TimestampAttempt,
    current: u64,
    new_current: u64,
    result: Option<u64>,
) -> bool {
    match before.current {
        None => {
            &&& result is None
            &&& after == (TimestampAttempt { current: Some(current), ..before })
            &&& new_current == current
        },
        Some(seen) => if seen >= before.now {
            &&& result == Some(seen)
            &&& after == before
            &&& new_current == current
        } else if current == seen {
            &&& result == Some(before.now)
            &&& after == before
            &&& new_current == before.now
        } else {
            &&& result is None
            &&& after == (TimestampAttempt { current: Some(current), ..before })
            &&& new_current == current
        },
    }
}

impl TimestampAttempt {
    /// Takes one step on the latest timestamp.
    pub fn step(&mut self, current: &mut u64) -> (result: Option<u64>)
        ensures
            timestamp_steps(*old(self), *final(self), *old(current), *final(current), result),
    {
        match self.current {
            None => {
                self.current = Some(*current);
                None
            },
            Some(seen) => {
                if seen >= self.now {
                    Some(seen)
                } else if *current == seen {
                    *current = self.now;
                    Some(self.now)
                } else {
                    self.current = Some(*current);
                    None
                }
            },
        }
    }
}

/// A thread that wants a timestamp.
pub struct Call {
    /// The highest timestamp that any thread had got when it began.
    pub floor: u64,
    /// What it does about that, once it has read the clock.
    pub attempt: Option<TimestampAttempt>,
}

/// What the system's clock has told last, the latest timestamp, the highest one that
/// any thread has got, and the threads that want one.
pub struct World {
    pub reported: u64,
    pub clock: Monotonic,
    pub highest: u64,
    pub calls: Map<int, Call>,
}

/// A thread begins to want a timestamp.
pub open spec fn begins(w: World, v: World, t: int) -> bool {
    &&& !w.calls.contains_key(t)
    &&& v == (World { calls: w.calls.insert(t, Call { floor: w.highest, attempt: None }), ..w })
}

/// A thread reads the system's clock, which tells any time, but none before the last
/// one where it never goes back.
pub open spec fn reads(w: World, v: World, t: int, now: u64) -> bool {
    &&& w.calls.contains_key(t)
    &&& w.calls[t].attempt is None
    &&& w.clock.is_actually_monotonic ==> w.reported <= now
    &&& v == (World {
        reported: now,
        calls: w.calls.insert(
            t,
            Call {
                attempt: Some(TimestampAttempt { current: None, now }),
                ..w.calls[t]
            },
        ),
        ..w
    })
}

/// A thread that has read the clock takes a step, or does it all while it holds the
/// lock of the latest timestamp.
pub open spec fn goes_on(w: World, v: World, t: int, after: TimestampAttempt, result: Option<u64>) -> bool {
    &&& w.calls.contains_key(t)
    &&& w.calls[t].attempt matches Some(before) && {
        ||| result == Some(w.clock.adjusted(before.now)) && v.clock.current == w.clock.seen(before.now)
        ||| !w.clock.is_actually_monotonic && timestamp_steps(
            before,
            after,
            w.clock.current,
            v.clock.current,
            result,
        )
    }
    &&& v.clock.is_actually_monotonic == w.clock.is_actually_monotonic
    &&& v.reported == w.reported
    &&& match result {
        None => v.highest == w.highest && v.calls == w.calls.insert(
            t,
            Call { attempt: Some(after), ..w.calls[t] },
        ),
        Some(r) => v.highest == (if r > w.highest {
            r
        } else {
            w.highest
        }) && v.calls == w.calls.remove(t),
    }
}

/// What holds of a thread that wants a timestamp: what it may get is no less than what
/// any thread had got when it began.
pub open spec fn floored(w: World, call: Call) -> bool {
    &&& call.floor <= w.highest
    &&& call.attempt matches Some(attempt) ==> if w.clock.is_actually_monotonic {
        call.floor <= attempt.now <= w.reported
    } else {
        attempt.current matches Some(seen) ==> call.floor <= seen <= w.clock.current
    }
}

/// No thread has got more than the latest timestamp, or than what the system's clock
/// has told if that never goes back.
pub open spec fn sound(w: World) -> bool {
    &&& w.highest <= (if w.clock.is_actually_monotonic {
        w.reported
    } else {
        w.clock.current
    })
    &&& forall|t: int| #[trigger] w.calls.contains_key(t) ==> floored(w, w.calls[t])
}

/// Some thread leads from `w` to `v`.
pub open spec fn follows(w: World, v: World) -> bool {
    ||| exists|t: int| begins(w, v, t)
    ||| exists|t: int, now: u64| reads(w, v, t, now)
    ||| exists|t: int, after: TimestampAttempt, result: Option<u64>| goes_on(w, v, t, after, result)
}

/// A run of the threads: worlds, each of which follows from the one before by a step
/// of some thread, while at first no thread wants a timestamp or has got one.
pub open spec fn is_run(run: Seq<World>) -> bool {
    &&& run.len() > 0
    &&& run[0].clock.current == 0
    &&& run[0].highest == 0
    &&& run[0].calls == Map::<int, Call>::empty()
    &&& forall|i: int| 0 <= i < run.len() - 1 ==> #[trigger] step_at(run, i)
}

/// Some thread leads from the world at position `i` to the next.
pub open spec fn step_at(run: Seq<World>, i: int) -> bool {
    follows(run[i], run[i + 1])
}

/// Every step of every thread keeps a world sound.
pub proof fn step_is_sound(w: World, v: World)
    requires
        sound(w),
        follows(w, v),
    ensures
        sound(v),
        w.highest <= v.highest,
        v.clock.is_actually_monotonic == w.clock.is_actually_monotonic,
{
    if exists|t: int| begins(w, v, t) {
        let t = choose|t: int| begins(w, v, t);
        assert forall|u: int| #[trigger] v.calls.contains_key(u) implies floored(v, v.calls[u]) by {
            if u != t {
                assert(w.calls.contains_key(u));
            }
        }
    } else if exists|t: int, now: u64| reads(w, v, t, now) {
        let (t, now) = choose|t: int, now: u64| reads(w, v, t, now);
        assert forall|u: int| #[trigger] v.calls.contains_key(u) implies floored(v, v.calls[u]) by {
            assert(w.calls.contains_key(u));
            assert(floored(w, w.calls[u]));
        }
    } else {
        let (t, after, result) = choose|t: int, after: TimestampAttempt, result: Option<u64>|
            goes_on(w, v, t, after, result);
        assert(floored(w, w.calls[t]));
        assert forall|u: int| #[trigger] v.calls.contains_key(u) implies floored(v, v.calls[u]) by {
            assert(w.calls.contains_key(u));
            assert(floored(w, w.calls[u]));
        }
    }
}

proof fn run_is_sound(run: Seq<World>, i: int)
    requires
        is_run(run),
        0 <= i < run.len(),
    ensures
        sound(run[i]),
    decreases i,
{
    if i > 0 {
        run_is_sound(run, i - 1);
        assert(step_at(run, i - 1));
        step_is_sound(run[i - 1], run[i]);
    }
}

/// A thread that begins at position `j` or later has as its floor all that threads
/// had got by then.
proof fn floors_rise(run: Seq<World>, j: int, k: int, u: int)
    requires
        is_run(run),
        0 <= j <= k < run.len(),
        !run[j].calls.contains_key(u),
    ensures
        run[k].calls.contains_key(u) ==> run[j].highest <= run[k].calls[u].floor,
    decreases k,
{
    if j < k {
        floors_rise(run, j, k - 1, u);
        highest_rises(run, j, k - 1);
        run_is_sound(run, k - 1);
        assert(step_at(run, k - 1));
        step_is_sound(run[k - 1], run[k]);
    }
}

proof fn highest_rises(run: Seq<World>, j: int, k: int)
    requires
        is_run(run),
        0 <= j <= k < run.len(),
    ensures
        run[j].highest <= run[k].highest,
    decreases k,
{
    if j < k {
        highest_rises(run, j, k - 1);
        run_is_sound(run, k - 1);
        assert(step_at(run, k - 1));
        step_is_sound(run[k - 1], run[k]);
    }
}

/// A thread gets a timestamp that is no less than any that some thread had got when
/// it began to want one, and no less than what the system told it.
pub proof fn timestamps_never_decrease(
    run: Seq<World>,
    i: int,
    v: World,
    t: int,
    after: TimestampAttempt,
    result: u64,
)
    requires
        is_run(run),
        0 <= i < run.len(),
        goes_on(run[i], v, t, after, Some(result)),
    ensures
        result >= run[i].calls[t].floor,
        result >= run[i].calls[t].attempt->0.now,
        v.highest >= result,
{
    run_is_sound(run, i);
    assert(floored(run[i], run[i].calls[t]));
}

/// Time never goes back: however the threads take their steps, where a thread has got
/// a timestamp before another one, or the same, begins to want one, the later
/// timestamp is no less.
pub proof fn instants_never_go_back(
    run: Seq<World>,
    i: int,
    j: int,
    k: int,
    v: World,
    t: int,
    u: int,
    first_after: TimestampAttempt,
    first: u64,
    after: TimestampAttempt,
    second: u64,
)
    requires
        is_run(run),
        0 <= i < j < k < run.len(),
        goes_on(run[i], run[i + 1], t, first_after, Some(first)),
        begins(run[j], run[j + 1], u),
        goes_on(run[k], v, u, after, Some(second)),
    ensures
        second >= first,
{
    highest_rises(run, i + 1, j);
    floors_rise(run, j, k, u);
    timestamps_never_decrease(run, k, v, u, after, second);
}

/// Going forth and back by the same amount of time leads to the same instant, and
/// the amount of time between an instant and a later one is what separates them.
pub proof fn instants_add_up(instant: OsInstant, duration: OsDuration)
    requires
        duration.wf(),
        instant.timestamp + duration.total() <= u64::MAX,
    ensures
        ({
            let later = vstd::std_specs::ops::AddSpec::add_spec(instant, duration);
            &&& later.timestamp >= instant.timestamp
            &&& later.timestamp - instant.timestamp == duration.total()
            &&& vstd::std_specs::ops::SubSpec::sub_req(later, duration)
            &&& vstd::std_specs::ops::SubSpec::sub_spec(later, duration) == instant
        }),
{
}

} // verus!
