//! Laws of durations, instants and clocks.
use crate::event::time;
use crate::event::time::monotonic;
use crate::event::time::monotonic::{Clock, KeysAttempt, KeysStep, ThreadLocalStorage, TlsKeys};
use crate::event::time::posix::{Remembered, Timebase, Timer};
use crate::event::time::{Monotonic, OsDuration, OsInstant, TimestampAttempt, World};
use crate::parker;
use vstd::prelude::*;

verus! {

/// A duration is as many nanoseconds as it was made of, in whole seconds and less than a
/// second.
pub proof fn durations_keep_their_nanoseconds(
    nanos: u64,
    d: OsDuration,
    zero: OsDuration,
    all: u128,
    millis: u128,
)
    ensures
        call_ensures(OsDuration::from_nanos, (nanos,), d) ==> d.secs * 1_000_000_000 + d.nanos == nanos
            && d.nanos < 1_000_000_000,
        call_ensures(OsDuration::zero, (), zero) ==> zero.secs == 0 && zero.nanos == 0,
        call_ensures(OsDuration::as_nanos, (&d,), all) ==> all == d.secs * 1_000_000_000 + d.nanos,
        d.nanos < 1_000_000_000 && call_ensures(OsDuration::as_millis, (&d,), millis) ==> millis * 1_000_000
            <= d.secs * 1_000_000_000 + d.nanos < (millis + 1) * 1_000_000,
{
}

/// The sum of two durations has the nanoseconds of both, unless its seconds are too many.
/// Taking one of them away again leaves the other.
pub proof fn durations_add_up(
    a: OsDuration,
    b: OsDuration,
    sum: Option<OsDuration>,
    rest: Option<OsDuration>,
)
    requires
        a.nanos < 1_000_000_000,
        b.nanos < 1_000_000_000,
        call_ensures(OsDuration::checked_add, (a, b), sum),
    ensures
        ({
            let both = a.secs * 1_000_000_000 + a.nanos + b.secs * 1_000_000_000 + b.nanos;
            &&& sum is Some <==> both / 1_000_000_000 <= u64::MAX
            &&& sum matches Some(s) ==> s.secs * 1_000_000_000 + s.nanos == both && s.nanos < 1_000_000_000
        }),
        sum is Some && call_ensures(OsDuration::checked_sub, (sum->0, b), rest) ==> rest == Some(a),
{
}

/// What is left of a duration has the nanoseconds by which it is longer. There is nothing
/// to tell where it is shorter.
pub proof fn durations_are_taken_away(a: OsDuration, b: OsDuration, rest: Option<OsDuration>)
    requires
        a.nanos < 1_000_000_000,
        b.nanos < 1_000_000_000,
        call_ensures(OsDuration::checked_sub, (a, b), rest),
    ensures
        ({
            let longer = a.secs * 1_000_000_000 + a.nanos - (b.secs * 1_000_000_000 + b.nanos);
            &&& rest is Some <==> longer >= 0
            &&& rest matches Some(r) ==> r.secs * 1_000_000_000 + r.nanos == longer && r.nanos < 1_000_000_000
        }),
{
}

/// The time between two instants is by how much the later one is later, and there is none
/// where it is not.
pub proof fn instants_lie_apart(
    a: OsInstant,
    b: OsInstant,
    d: OsDuration,
    checked: Option<OsDuration>,
    saturated: OsDuration,
)
    ensures
        b.timestamp <= a.timestamp && call_ensures(OsInstant::duration_since, (&a, b), d) ==> d.secs
            * 1_000_000_000 + d.nanos == a.timestamp - b.timestamp && d.nanos < 1_000_000_000,
        call_ensures(OsInstant::checked_duration_since, (&a, b), checked) ==> (checked is Some
            <==> b.timestamp <= a.timestamp) && (checked matches Some(c) ==> c.secs * 1_000_000_000 + c.nanos
            == a.timestamp - b.timestamp && c.nanos < 1_000_000_000),
        call_ensures(OsInstant::saturating_duration_since, (&a, b), saturated) ==> saturated.secs
            * 1_000_000_000 + saturated.nanos == (if b.timestamp <= a.timestamp {
            a.timestamp - b.timestamp
        } else {
            0
        }) && saturated.nanos < 1_000_000_000,
{
}

/// An instant that is moved by a duration is later or earlier by its nanoseconds, unless
/// there is no such instant.
pub proof fn instants_are_moved(
    a: OsInstant,
    d: OsDuration,
    later: Option<OsInstant>,
    earlier: Option<OsInstant>,
    moved: &mut OsInstant,
)
    ensures
        ({
            let nanos = d.secs * 1_000_000_000 + d.nanos;
            &&& call_ensures(OsInstant::checked_add, (&a, d), later) ==> (later is Some <==> a.timestamp
                + nanos <= u64::MAX) && (later matches Some(l) ==> l.timestamp == a.timestamp + nanos)
            &&& call_ensures(OsInstant::checked_sub, (&a, d), earlier) ==> (earlier is Some <==> nanos
                <= a.timestamp) && (earlier matches Some(e) ==> e.timestamp == a.timestamp - nanos)
            &&& old(moved).timestamp + nanos <= u64::MAX && call_ensures(
                OsInstant::add_assign,
                (moved, d),
                (),
            ) ==> final(moved).timestamp == old(moved).timestamp + nanos
            &&& nanos <= old(moved).timestamp && call_ensures(OsInstant::sub_assign, (moved, d), ())
                ==> final(moved).timestamp == old(moved).timestamp - nanos
        }),
{
}

/// The operators move instants and tell the time between them in the same way.
pub proof fn operators_move_instants(a: OsInstant, b: OsInstant, d: OsDuration)
    ensures
        ({
            let nanos = d.secs * 1_000_000_000 + d.nanos;
            &&& vstd::std_specs::ops::AddSpec::add_req(a, d) <==> a.timestamp + nanos <= u64::MAX
            &&& a.timestamp + nanos <= u64::MAX ==> vstd::std_specs::ops::AddSpec::add_spec(a, d).timestamp
                == a.timestamp + nanos
            &&& vstd::std_specs::ops::SubSpec::sub_req(a, d) <==> nanos <= a.timestamp
            &&& nanos <= a.timestamp ==> vstd::std_specs::ops::SubSpec::sub_spec(a, d).timestamp
                == a.timestamp - nanos
            &&& vstd::std_specs::ops::SubSpec::sub_req(a, b) <==> b.timestamp <= a.timestamp
            &&& b.timestamp <= a.timestamp ==> {
                let apart: OsDuration = vstd::std_specs::ops::SubSpec::sub_spec(a, b);
                apart.secs * 1_000_000_000 + apart.nanos == a.timestamp - b.timestamp && apart.nanos
                    < 1_000_000_000
            }
        }),
{
}

/// A timestamp is what the system tells or the latest one before, whichever is later,
/// where the system's clock may go back. Elsewhere it is what the system tells. The latest
/// timestamp is remembered where it is needed.
pub proof fn timestamp_is_the_later_one(clock: &mut Monotonic, told: u64, timestamp: u64)
    requires
        call_ensures(Monotonic::timestamp, (clock, told), timestamp),
    ensures
        old(clock).is_actually_monotonic ==> timestamp == told && *final(clock) == *old(clock),
        !old(clock).is_actually_monotonic ==> {
            &&& timestamp >= told
            &&& timestamp >= old(clock).current
            &&& timestamp == told || timestamp == old(clock).current
            &&& final(clock).current == timestamp
            &&& !final(clock).is_actually_monotonic
        },
{
}

/// The current instant is such a timestamp, and the time since an instant is by how much
/// the current one is later.
pub proof fn now_is_the_later_one(
    clock: &mut Monotonic,
    told: u64,
    now: OsInstant,
    instant: OsInstant,
    d: OsDuration,
)
    ensures
        call_ensures(OsInstant::now, (clock, told), now) ==> {
            &&& old(clock).is_actually_monotonic ==> now.timestamp == told && *final(clock) == *old(clock)
            &&& !old(clock).is_actually_monotonic ==> now.timestamp >= told && now.timestamp >= old(clock).current && (now.timestamp == told || now.timestamp == old(clock).current)
                && final(clock).current == now.timestamp
        },
        call_ensures(OsInstant::elapsed, (&instant, clock, told), d) && instant.timestamp <= told && (old(clock).current <= told || old(clock).is_actually_monotonic) ==> d.secs * 1_000_000_000 + d.nanos == told
            - instant.timestamp && d.nanos < 1_000_000_000,
        call_ensures(OsInstant::elapsed, (&instant, clock, told), d) && !old(clock).is_actually_monotonic
            && told <= old(clock).current && instant.timestamp <= old(clock).current ==> d.secs * 1_000_000_000
            + d.nanos == old(clock).current - instant.timestamp,
        call_ensures(OsInstant::elapsed, (&instant, clock, told), d) ==> final(clock).is_actually_monotonic == old(clock).is_actually_monotonic
            && (old(clock).is_actually_monotonic ==> *final(clock) == *old(clock)) && (!old(clock).is_actually_monotonic
            ==> final(clock).current >= told && final(clock).current >= old(clock).current && (final(clock).current
            == told || final(clock).current == old(clock).current)),
{
}

/// Without a lock the same timestamp is had step by step: a thread that has read the
/// latest timestamp gets it if it is no earlier than what the system told, and else what
/// the system told, which then is the latest. Only where another thread was faster it
/// looks again.
pub proof fn timestamp_is_had_without_a_lock(
    attempt: &mut TimestampAttempt,
    current: &mut u64,
    result: Option<u64>,
    seen: u64,
)
    requires
        call_ensures(TimestampAttempt::step, (attempt, current), result),
    ensures
        final(attempt).now == old(attempt).now,
        old(attempt).current is None ==> result is None && final(attempt).current == Some(*old(current))
            && *final(current) == *old(current),
        old(attempt).current == Some(seen) && seen >= old(attempt).now ==> result == Some(seen) && *final(current)
            == *old(current),
        old(attempt).current == Some(seen) && seen < old(attempt).now && *old(current) == seen ==> result
            == Some(old(attempt).now) && *final(current) == old(attempt).now,
        old(attempt).current == Some(seen) && seen < old(attempt).now && *old(current) != seen
            ==> result is None && final(attempt).current == Some(*old(current)) && *final(current) == *old(current),
{
}

/// What the system's clock has told by position `i` of a run.
pub open spec fn was_told(run: Seq<World>, i: int, told: u64) -> bool {
    exists|j: int, t: int| 0 <= j < i && #[trigger] time::reads(run[j], run[j + 1], t, told)
}

proof fn latest_was_told(run: Seq<World>, i: int)
    requires
        time::is_run(run),
        0 <= i < run.len(),
    ensures
        run[i].clock.current == 0 || was_told(run, i, run[i].clock.current),
        forall|t: int| #[trigger]
            run[i].calls.contains_key(t) ==> (run[i].calls[t].attempt matches Some(attempt) ==> was_told(
                run,
                i,
                attempt.now,
            ) && (attempt.current matches Some(seen) ==> seen == 0 || was_told(run, i, seen))),
    decreases i,
{
    if i > 0 {
        latest_was_told(run, i - 1);
        let w = run[i - 1];
        let v = run[i];
        assert(time::step_at(run, i - 1));
        assert forall|told: u64| was_told(run, i - 1, told) implies #[trigger] was_told(run, i, told) by {
            let (j, t) = choose|j: int, t: int|
                0 <= j < i - 1 && #[trigger] time::reads(run[j], run[j + 1], t, told);
            assert(time::reads(run[j], run[j + 1], t, told));
        }
        if exists|t: int, now: u64| time::reads(w, v, t, now) {
            let (t, now) = choose|t: int, now: u64| time::reads(w, v, t, now);
            assert(time::reads(run[i - 1], run[i - 1 + 1], t, now));
            assert(was_told(run, i, now));
            assert forall|u: int| #[trigger] v.calls.contains_key(u) implies (v.calls[u].attempt matches Some(
                attempt,
            ) ==> was_told(run, i, attempt.now) && (attempt.current matches Some(seen) ==> seen == 0
                || was_told(run, i, seen))) by {
                if u != t {
                    assert(w.calls.contains_key(u));
                }
            }
        } else if exists|t: int| time::begins(w, v, t) {
            let t = choose|t: int| time::begins(w, v, t);
            assert forall|u: int| #[trigger] v.calls.contains_key(u) implies (v.calls[u].attempt matches Some(
                attempt,
            ) ==> was_told(run, i, attempt.now) && (attempt.current matches Some(seen) ==> seen == 0
                || was_told(run, i, seen))) by {
                if u != t {
                    assert(w.calls.contains_key(u));
                }
            }
        } else {
            let (t, after, result) = choose|t: int, after: TimestampAttempt, result: Option<u64>|
                time::goes_on(w, v, t, after, result);
            assert(w.calls.contains_key(t));
            assert forall|u: int| #[trigger] v.calls.contains_key(u) implies (v.calls[u].attempt matches Some(
                attempt,
            ) ==> was_told(run, i, attempt.now) && (attempt.current matches Some(seen) ==> seen == 0
                || was_told(run, i, seen))) by {
                assert(w.calls.contains_key(u));
            }
        }
    }
}

/// Whatever the threads do, a timestamp that one of them gets is one that the system's
/// clock has told to some thread, or zero if that is all it has told.
pub proof fn timestamps_were_told(
    run: Seq<World>,
    i: int,
    v: World,
    t: int,
    after: TimestampAttempt,
    result: u64,
)
    requires
        time::is_run(run),
        0 <= i < run.len(),
        time::goes_on(run[i], v, t, after, Some(result)),
    ensures
        result == 0 || was_told(run, i, result),
{
    latest_was_told(run, i);
    assert(run[i].calls.contains_key(t));
}

/// The clocks of the systems tell nanoseconds.
pub proof fn clocks_tell_nanoseconds(
    secs: u64,
    nsecs: u64,
    ticks: u64,
    info: Timebase,
    counter: i64,
    frequency: i64,
    nanos: u64,
    at: OsDuration,
)
    ensures
        call_ensures(Timer::timestamp, (secs, nsecs), nanos) ==> nanos == secs * 1_000_000_000 + nsecs,
        info.denom > 0 && ticks * info.numer <= u64::MAX && call_ensures(
            Timer::timestamp_of_ticks,
            (ticks, info),
            nanos,
        ) ==> nanos * info.denom <= ticks * info.numer < (nanos + 1) * info.denom,
        counter >= 0 && frequency > 0 && call_ensures(
            time::windows::Timer::timestamp,
            (counter, frequency),
            nanos,
        ) ==> nanos * frequency <= counter * 1_000_000_000 < (nanos + 1) * frequency,
        counter >= 0 && frequency > 0 && call_ensures(
            parker::event::windows::timestamp,
            (counter, frequency),
            at,
        ) ==> (at.secs * 1_000_000_000 + at.nanos) * frequency <= counter * 1_000_000_000 < (at.secs
            * 1_000_000_000 + at.nanos + 1) * frequency && at.nanos < 1_000_000_000,
{
    if info.denom > 0 && ticks * info.numer <= u64::MAX {
        divided(ticks * info.numer, info.denom as int);
    }
    if frequency > 0 {
        divided(counter * 1_000_000_000, frequency as int);
    }
}

proof fn divided(x: int, d: int)
    requires
        d > 0,
    ensures
        (x / d) * d <= x < (x / d + 1) * d,
{
    vstd::arithmetic::div_mod::lemma_fundamental_div_mod(x, d);
    vstd::arithmetic::div_mod::lemma_mod_bound(x, d);
    assert((x / d) * d == d * (x / d)) by (nonlinear_arith);
    assert((x / d + 1) * d == d * (x / d) + d) by (nonlinear_arith);
}

/// A value that is asked of the system is remembered once: one thread claims it, and once
/// that thread has written it down, everybody reads what it wrote.
pub proof fn remembered_value_is_read(
    r: &mut Remembered<u64>,
    claimed: bool,
    value: u64,
    read: Option<u64>,
)
    ensures
        call_ensures(Remembered::<u64>::claim, (r,), claimed) ==> (claimed <==> old(r).state == 0) && final(r).state == (if old(r).state == 0 {
            1
        } else {
            old(r).state
        }) && final(r).value == old(r).value,
        call_ensures(Remembered::<u64>::publish, (r, value), ()) && call_ensures(
            Remembered::<u64>::get,
            (&*final(r),),
            read,
        ) ==> read == Some(value),
        call_ensures(Remembered::<u64>::get, (&*old(r),), read) ==> (read is Some <==> old(r).state == 2) && (
        read matches Some(v) ==> v == old(r).value),
{
}

/// On one thread a timestamp is what the clock tells or what the thread has stored,
/// whichever is later, where the clock may go back. It is then stored. Elsewhere it is
/// what the clock tells.
pub proof fn thread_timestamp_is_the_later_one<S: Clock + ThreadLocalStorage>(
    system: &mut S,
    keys: Vec<usize>,
    told: u64,
    timestamp: OsDuration,
    stored: u64,
    now_stored: u64,
)
    requires
        call_ensures(monotonic::timestamp_at::<S>, (system, &keys, told), timestamp),
        call_ensures(monotonic::load_tls::<S>, (&*old(system), &keys), stored),
        call_ensures(monotonic::load_tls::<S>, (&*final(system), &keys), now_stored),
    ensures
        timestamp.nanos < 1_000_000_000,
        S::IS_ALWAYS_MONOTONIC ==> timestamp.secs * 1_000_000_000 + timestamp.nanos == told,
        !S::IS_ALWAYS_MONOTONIC ==> {
            let nanos = timestamp.secs * 1_000_000_000 + timestamp.nanos;
            &&& nanos >= told
            &&& nanos >= stored
            &&& nanos == told || nanos == stored
            &&& now_stored == nanos
        },
{
}

/// The timestamp of a thread is such a timestamp of what the clock tells.
pub proof fn thread_timestamp_reads_the_clock<S: Clock + ThreadLocalStorage>(
    system: &mut S,
    keys: Vec<usize>,
    timestamp: OsDuration,
    stored: u64,
)
    requires
        call_ensures(monotonic::timestamp::<S>, (system, &keys), timestamp),
        call_ensures(monotonic::load_tls::<S>, (&*old(system), &keys), stored),
    ensures
        S::IS_ALWAYS_MONOTONIC ==> *final(system) == *old(system),
        !S::IS_ALWAYS_MONOTONIC ==> monotonic::joined(monotonic::stored(final(system), keys@))
            == timestamp.secs * 1_000_000_000 + timestamp.nanos,
        exists|told: u64| #[trigger]
            call_ensures(S::nanotime, (&*old(system),), told) && {
                let nanos = timestamp.secs * 1_000_000_000 + timestamp.nanos;
                if S::IS_ALWAYS_MONOTONIC {
                    nanos == told
                } else {
                    nanos >= told && nanos >= stored && (nanos == told || nanos == stored)
                }
            },
{
    let told = choose|told: u64| #[trigger]
        call_ensures(S::nanotime, (&*old(system),), told) && timestamp.total() == (
        if S::IS_ALWAYS_MONOTONIC {
            told
        } else {
            monotonic::held(monotonic::joined(monotonic::stored(old(system), keys@)), told)
        });
    assert(call_ensures(S::nanotime, (&*old(system),), told));
}

/// A timestamp that a thread stores is the one that it reads afterwards, and what others
/// have stored is untouched.
pub proof fn stored_timestamp_is_read<S: ThreadLocalStorage>(
    system: &mut S,
    keys: Vec<usize>,
    nanos: u64,
    read: u64,
    other: usize,
)
    requires
        call_ensures(monotonic::store_tls::<S>, (system, &keys, nanos), ()),
        call_ensures(monotonic::load_tls::<S>, (&*final(system), &keys), read),
    ensures
        read == nanos,
        !keys@.contains(other) ==> final(system).values()[other] == old(system).values()[other],
{
}

/// The keys are created once, by the thread that finds that nobody has asked for them.
/// Others spin meanwhile, and look again each time.
pub proof fn keys_are_created_once(keys: &mut TlsKeys, attempt: &mut KeysAttempt, step: KeysStep)
    requires
        call_ensures(TlsKeys::get_tls_keys, (keys, attempt), step),
    ensures
        final(keys).keys == old(keys).keys,
        old(attempt).state is None ==> step == KeysStep::Continue && final(attempt).state == Some(
            old(keys).state,
        ) && final(keys).state == old(keys).state,
        old(attempt).state == Some(0usize) && old(keys).state == 0 ==> step == KeysStep::Create && final(keys).state == 1 && final(attempt).state is None,
        old(attempt).state == Some(0usize) && old(keys).state != 0 ==> step == KeysStep::Continue && final(attempt).state == Some(old(keys).state) && final(keys).state == old(keys).state,
        old(attempt).state == Some(1usize) && old(attempt).spin < usize::MAX ==> step == KeysStep::Spin(
            ((old(attempt).spin + 1) % 64) as usize,
        ) && final(attempt).spin == old(attempt).spin + 1 && final(attempt).state is None && final(keys).state
            == old(keys).state,
        old(attempt).state == Some(2usize) ==> step == KeysStep::Ready && final(keys).state == old(keys).state,
        old(attempt).state == Some(3usize) ==> step == KeysStep::Failed && final(keys).state == old(keys).state,
{
}

/// Creating the keys succeeds exactly where the system has as many left as a timestamp has
/// machine words, and otherwise leaves it as it was.
pub proof fn keys_are_created_if_there_are_enough<S: ThreadLocalStorage>(keys: &mut TlsKeys, system: &mut S)
    requires
        call_ensures(TlsKeys::create::<S>, (keys, system), ()),
    ensures
        ({
            let words = if usize::BITS == 64 {
                1nat
            } else {
                2nat
            };
            &&& final(keys).state == (if old(system).keys_left() >= words {
                2int
            } else {
                3
            })
            &&& final(keys).state == 2 ==> final(keys).keys@.len() == words && final(system).keys_left()
                + words == old(system).keys_left()
            &&& final(keys).state == 3 ==> final(system).values() == old(system).values()
        }),
{
}

} // verus!
