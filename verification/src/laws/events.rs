//! Laws of the events and signals.
use crate::event::linux;
use crate::event::linux::{Notify, NotifyStep, Wait, WaitStep};
use crate::event::posix;
use crate::event::posix::{KeyAttempt, KeyStep, LocalKey, ThreadSignal, ThreadStep};
use crate::event::time::{OsDuration, OsInstant};
use crate::event::{yield_hints, OsAutoResetEvent, YieldContext};
use crate::future;
use crate::parker;
use crate::queue;
use crate::queue::{Memory, Node};
use crate::shared;
use crate::shared::event::{EventStep, EventWait};
use crate::signal;
use crate::sync;
use crate::thread_event;
use crate::thread_event::ThreadEvent;
use crate::sync::thread_parker::ThreadParker;
use vstd::arithmetic::power2::pow2;
use vstd::prelude::*;

verus! {

/// A thread that waits no longer than until a moment sleeps for exactly the time that is
/// left, where the system can tell that time. Where the system cannot, or where there is
/// no such moment, it sleeps without end. Once the moment has come it no longer sleeps.
pub proof fn sleeping_lasts_as_long_as_is_left(
    before: Wait,
    after: Wait,
    state: usize,
    new_state: usize,
    timeout: Option<OsInstant>,
    now: OsInstant,
    max_secs: u64,
    step: WaitStep,
    until: OsInstant,
)
    requires
        linux::wait_steps(before, after, state, new_state, timeout, now, max_secs, step),
        before == Wait::Block,
        state == 1,
    ensures
        new_state == state,
        timeout is None ==> step == WaitStep::Block(None) && after == Wait::Block,
        timeout == Some(until) && until.timestamp <= now.timestamp ==> step == WaitStep::Continue && after
            == Wait::TimeOut,
        timeout == Some(until) && until.timestamp > now.timestamp ==> {
            let left = until.timestamp - now.timestamp;
            &&& after == Wait::Block
            &&& left / 1_000_000_000 <= max_secs ==> (step matches WaitStep::Block(Some(time)) && time.secs
                * 1_000_000_000 + time.nanos == left && time.nanos < 1_000_000_000)
            &&& left / 1_000_000_000 > max_secs ==> step == WaitStep::Block(None)
        },
{
}

/// A thread that sleeps goes on once it was released, and one whose time is over is told
/// so unless it was released just then. It leaves nothing behind.
pub proof fn sleeping_ends(
    before: Wait,
    after: Wait,
    state: usize,
    new_state: usize,
    timeout: Option<OsInstant>,
    now: OsInstant,
    max_secs: u64,
    step: WaitStep,
)
    requires
        linux::wait_steps(before, after, state, new_state, timeout, now, max_secs, step),
    ensures
        before == Wait::Block && state != 1 ==> step == WaitStep::Notified && new_state == state,
        before == Wait::TimeOut && state == 1 ==> step == WaitStep::TimedOut && new_state == 0,
        before == Wait::TimeOut && state != 1 ==> step == WaitStep::Notified && new_state == state,
        step is TimedOut ==> before == Wait::TimeOut,
{
}

/// A notification that is there is received with two steps and then is gone. Without one
/// the thread tells with two steps that it waits.
pub proof fn waiting_takes_what_is_there(
    b: Wait,
    c: Wait,
    state: usize,
    looked: usize,
    new_state: usize,
    timeout: Option<OsInstant>,
    now: OsInstant,
    max_secs: u64,
    first: WaitStep,
    second: WaitStep,
)
    requires
        linux::wait_steps(Wait::Load, b, state, looked, timeout, now, max_secs, first),
        linux::wait_steps(b, c, looked, new_state, timeout, now, max_secs, second),
    ensures
        looked == state,
        state == 0 ==> new_state == 1 && c == Wait::Block && second == WaitStep::Continue,
        state != 0 ==> new_state == 0 && second == WaitStep::Notified,
{
}

/// A thread that tells that it waits is outrun only by a notification, which it then
/// receives.
pub proof fn late_notification_is_received(
    b: Wait,
    c: Wait,
    state: usize,
    mid_state: usize,
    new_state: usize,
    timeout: Option<OsInstant>,
    now: OsInstant,
    max_secs: u64,
    first: WaitStep,
    second: WaitStep,
)
    requires
        state == 2,
        linux::wait_steps(Wait::Exchange, b, state, mid_state, timeout, now, max_secs, first),
        linux::wait_steps(b, c, mid_state, new_state, timeout, now, max_secs, second),
    ensures
        mid_state == state,
        second == WaitStep::Notified,
        new_state == 0,
{
}

/// Nobody else in the way, a thread that notifies has done so with two steps: it stores a
/// notification where nobody waits, releases and wakes a thread that waits, and leaves a
/// notification that is stored already.
pub proof fn notifying_stores_or_wakes(
    b: Notify,
    c: Notify,
    state: usize,
    looked: usize,
    new_state: usize,
    first: NotifyStep,
    second: NotifyStep,
)
    requires
        linux::notify_steps(Notify::Load, b, state, looked, first),
        first is Continue ==> linux::notify_steps(b, c, looked, new_state, second),
    ensures
        looked == state,
        state == 0 ==> first is Continue && second == NotifyStep::Done && new_state == 2,
        state == 1 ==> first is Continue && second == NotifyStep::Wake && new_state == 0,
        state != 0 && state != 1 ==> first == NotifyStep::Done,
{
}

/// A thread that notifies ends only once there is a notification or a thread was
/// released, and wakes a thread only where it has released one.
pub proof fn notifying_ends_with_a_notification(
    before: Notify,
    after: Notify,
    state: usize,
    new_state: usize,
    step: NotifyStep,
)
    requires
        state == 0 || state == 1 || state == 2,
        linux::notify_steps(before, after, state, new_state, step),
    ensures
        step == NotifyStep::Done ==> new_state == 2,
        step == NotifyStep::Wake ==> state == 1 && new_state == 0,
        step == NotifyStep::Continue ==> new_state == state && after == (if state == 0 {
            Notify::Exchange
        } else {
            Notify::Release
        }),
{
}

/// The events take such steps.
pub proof fn events_take_these_steps(
    signal: &mut linux::Signal,
    event: &mut OsAutoResetEvent,
    lot: &mut parker::event::OsAutoResetEvent,
    notify: &mut Notify,
    wait: &mut Wait,
    timeout: OsInstant,
    until: Option<OsInstant>,
    now: OsInstant,
    max_secs: u64,
    told: NotifyStep,
    step: WaitStep,
)
    ensures
        call_ensures(linux::Signal::notify, (signal, notify), told) ==> linux::notify_steps(
            *old(notify),
            *final(notify),
            old(signal).state,
            final(signal).state,
            told,
        ),
        call_ensures(OsAutoResetEvent::set, (event, notify), told) ==> linux::notify_steps(
            *old(notify),
            *final(notify),
            old(event).signal.state,
            final(event).signal.state,
            told,
        ),
        call_ensures(parker::event::OsAutoResetEvent::set, (lot, notify), told) ==> linux::notify_steps(
            *old(notify),
            *final(notify),
            old(lot).inner.state,
            final(lot).inner.state,
            told,
        ),
        call_ensures(linux::Signal::try_wait, (signal, wait, until, now, max_secs), step)
            ==> linux::wait_steps(
            *old(wait),
            *final(wait),
            old(signal).state,
            final(signal).state,
            until,
            now,
            max_secs,
            step,
        ),
        call_ensures(OsAutoResetEvent::wait, (event, wait), step) ==> !(step is TimedOut)
            && linux::wait_steps(
            *old(wait),
            *final(wait),
            old(event).signal.state,
            final(event).signal.state,
            None,
            OsInstant { timestamp: 0 },
            0,
            step,
        ),
        call_ensures(OsAutoResetEvent::try_wait_until, (event, wait, timeout, now, max_secs), step)
            ==> linux::wait_steps(
            *old(wait),
            *final(wait),
            old(event).signal.state,
            final(event).signal.state,
            Some(timeout),
            now,
            max_secs,
            step,
        ),
        call_ensures(
            parker::event::OsAutoResetEvent::try_wait,
            (lot, wait, until, now, max_secs),
            step,
        ) ==> linux::wait_steps(
            *old(wait),
            *final(wait),
            old(lot).inner.state,
            final(lot).inner.state,
            until,
            now,
            max_secs,
            step,
        ),
{
}

/// Waiting for a time is waiting until the moment that is as far off, and what is left of
/// the time afterwards is what has not passed of it.
pub proof fn time_left_is_what_has_not_passed(
    start: OsInstant,
    timeout: OsDuration,
    until: OsInstant,
    now: OsInstant,
    left: OsDuration,
)
    requires
        timeout.nanos < 1_000_000_000,
        start.timestamp + timeout.secs * 1_000_000_000 + timeout.nanos <= u64::MAX,
        start.timestamp <= now.timestamp,
        call_ensures(OsAutoResetEvent::try_wait_for, (start, timeout), until),
        call_ensures(OsAutoResetEvent::time_left, (until, now), left),
    ensures
        until.timestamp == start.timestamp + timeout.secs * 1_000_000_000 + timeout.nanos,
        ({
            let all = timeout.secs * 1_000_000_000 + timeout.nanos;
            let passed = now.timestamp - start.timestamp;
            left.secs * 1_000_000_000 + left.nanos == (if passed <= all {
                all - passed
            } else {
                0
            })
        }),
        left.nanos < 1_000_000_000,
{
}

/// A thread yields twenty times while the resource is not contended, twice as long each
/// time up to the tenth and then longer by the same amount each time. Otherwise it blocks.
pub proof fn yielding_grows_and_ends(
    context: YieldContext,
    hints: Option<usize>,
    allowed: bool,
    iteration: usize,
    spins: bool,
)
    ensures
        call_ensures(yield_hints, (context,), hints) ==> {
            &&& hints is Some <==> !context.contended && context.iteration < 20
            &&& hints matches Some(n) ==> n == (if context.iteration < 10 {
                pow2(context.iteration as nat) as int
            } else {
                1024 * (context.iteration - 9)
            })
        },
        call_ensures(OsAutoResetEvent::yield_now, (context,), allowed) ==> (allowed <==> !context.contended
            && context.iteration < 20),
        call_ensures(parker::event::OsAutoResetEvent::yield_now, (iteration,), spins) ==> (spins <==> iteration
            < 40),
        call_ensures(parker::event::windows::yield_now, (iteration,), spins) ==> (spins <==> iteration < 40),
{
}

/// The signal of a thread on a condition variable: a notification that nobody waits for is
/// stored, once, and received by the next wait. One that comes to a thread that waits
/// releases it.
pub proof fn thread_signal_keeps_a_notification(
    signal: &mut ThreadSignal,
    timeout: Option<OsInstant>,
    until: OsInstant,
    now: OsInstant,
    wake: bool,
    step: ThreadStep,
)
    ensures
        call_ensures(ThreadSignal::notify, (signal,), wake) ==> {
            &&& wake <==> old(signal).state == 1
            &&& final(signal).state == (if old(signal).state == 1 {
                0int
            } else {
                2
            })
        },
        call_ensures(ThreadSignal::try_wait, (signal, timeout, now), step) && old(signal).state == 2
            ==> step == ThreadStep::Notified && final(signal).state == 0,
        call_ensures(ThreadSignal::wait_again, (signal, timeout, now), step) && old(signal).state != 1
            ==> step == ThreadStep::Notified && final(signal).state == old(signal).state,
        (call_ensures(ThreadSignal::try_wait, (signal, timeout, now), step) && old(signal).state != 2
            || call_ensures(ThreadSignal::wait_again, (signal, timeout, now), step) && old(signal).state
            == 1) ==> {
            &&& timeout is None ==> step == ThreadStep::Block(None) && final(signal).state == 1
            &&& timeout == Some(until) && until.timestamp <= now.timestamp ==> step == ThreadStep::TimedOut
                && final(signal).state == 0
            &&& timeout == Some(until) && until.timestamp > now.timestamp ==> final(signal).state == 1 && (
            step matches ThreadStep::Block(Some(time)) && time.secs * 1_000_000_000 + time.nanos
                == until.timestamp - now.timestamp && time.nanos < 1_000_000_000)
        },
{
}

/// A signal that points to the waiting thread: it holds a notification, the thread that
/// waits, or nothing. Whoever comes second deals with what the first has left.
pub proof fn pointing_signal_holds_one_thing(
    signal: &mut posix::Signal,
    address: usize,
    notify: posix::NotifyStep,
    wait: posix::WaitStep,
)
    requires
        address != 0,
        address != 2,
    ensures
        call_ensures(posix::Signal::notify, (&*old(signal),), notify) ==> match old(signal).state {
            0 => notify == posix::NotifyStep::Exchange,
            2 => notify == posix::NotifyStep::Done,
            thread => notify == posix::NotifyStep::Thread(thread),
        },
        call_ensures(posix::Signal::notify_exchange, (signal,), notify) ==> match old(signal).state {
            0 => notify == posix::NotifyStep::Done && final(signal).state == 2,
            2 => notify == posix::NotifyStep::Done && final(signal).state == 2,
            thread => notify == posix::NotifyStep::Thread(thread) && final(signal).state == thread,
        },
        call_ensures(posix::Signal::try_wait, (&*old(signal),), wait) ==> match old(signal).state {
            0 => wait == posix::WaitStep::Exchange,
            2 => wait == posix::WaitStep::Take,
            thread => wait == posix::WaitStep::Thread(thread),
        },
        call_ensures(posix::Signal::wait_exchange, (signal, address), wait) ==> match old(signal).state {
            0 => wait == posix::WaitStep::Thread(address) && final(signal).state == address,
            2 => wait == posix::WaitStep::Take && final(signal).state == 2,
            thread => wait == posix::WaitStep::Thread(thread) && final(signal).state == thread,
        },
        call_ensures(posix::Signal::take, (signal,), ()) ==> final(signal).state == 0,
{
}

/// The moment until which a thread blocks is as far off as it is to block, with less than
/// a second in nanoseconds. There is none only where its seconds are too many to tell.
pub proof fn deadline_is_as_far_off(timeout: OsDuration, now_sec: i64, now_nsec: i64, ts: Option<(i64, i64)>)
    requires
        timeout.nanos < 1_000_000_000,
        0 <= now_nsec < 1_000_000_000,
        now_sec >= 0,
        call_ensures(ThreadSignal::timeout_to_ts, (timeout, now_sec, now_nsec), ts),
    ensures
        ({
            let at = now_sec * 1_000_000_000 + now_nsec + timeout.secs * 1_000_000_000 + timeout.nanos;
            &&& ts is Some <==> at / 1_000_000_000 <= i64::MAX
            &&& ts matches Some((sec, nsec)) ==> sec * 1_000_000_000 + nsec == at && 0 <= nsec < 1_000_000_000
        }),
{
}

/// One thread creates the key. Whoever finds it ready uses it, whoever finds it being
/// created spins and looks again, and whoever finds that it could not be created fails.
pub proof fn one_thread_creates_the_key(
    key: &mut LocalKey,
    attempt: &mut KeyAttempt,
    step: KeyStep,
    ready: bool,
    status: i32,
)
    ensures
        call_ensures(LocalKey::get, (&*old(key),), ready) ==> (ready <==> old(key).state == 2),
        call_ensures(LocalKey::create_key, (key, attempt), step) ==> {
            &&& old(attempt).state is None ==> step == KeyStep::Continue && final(attempt).state == Some(
                old(key).state,
            ) && final(attempt).spin == old(attempt).spin && final(key).state == old(key).state
            &&& old(attempt).state == Some(0usize) && old(key).state == 0 ==> step == KeyStep::Create && final(key).state == 1
            &&& old(attempt).state == Some(0usize) && old(key).state != 0 ==> step == KeyStep::Continue
                && final(attempt).state == Some(old(key).state) && final(key).state == old(key).state
            &&& old(attempt).state == Some(1usize) ==> final(attempt).state is None && final(key).state == old(key).state
            &&& old(attempt).state == Some(1usize) && old(attempt).spin < 20 ==> final(attempt).spin == old(attempt).spin + 1 && (step matches KeyStep::Spin(n) && n == (if old(attempt).spin < 10 {
                pow2(old(attempt).spin as nat) as int
            } else {
                1024 * (old(attempt).spin - 9)
            }))
            &&& old(attempt).state == Some(1usize) && old(attempt).spin >= 20 ==> final(attempt).spin == 0
                && step == KeyStep::Continue
            &&& old(attempt).state == Some(2usize) ==> step == KeyStep::Ready && final(key).state == old(key).state
            &&& old(attempt).state == Some(3usize) ==> step == KeyStep::Failed && final(key).state == old(key).state
        },
        call_ensures(LocalKey::created, (key, attempt, status), ()) ==> {
            &&& final(key).state == (if status == 0 {
                2int
            } else {
                3
            })
            &&& final(attempt).state == Some(final(key).state)
            &&& final(attempt).spin == old(attempt).spin
        },
{
}

/// A manual reset event stays set until it is reset. While it is set nobody blocks on it,
/// and while it is not, everybody who waits blocks and is known to wait. Setting it wakes
/// those that wait, and resetting it forgets none of them.
pub proof fn manual_reset_event_stays_set(
    event: &mut thread_event::linux::Event,
    wait: &mut thread_event::linux::Wait,
    set: bool,
    wake: bool,
    step: thread_event::linux::WaitStep,
)
    ensures
        call_ensures(thread_event::linux::Event::is_set, (&*old(event),), set) ==> (set <==> old(event).state == 2),
        call_ensures(thread_event::linux::Event::set, (event,), wake) ==> final(event).state == 2 && (
        wake <==> old(event).state == 1),
        call_ensures(thread_event::linux::Event::reset, (event,), ()) ==> final(event).state == (if old(event).state == 2 {
            0
        } else {
            old(event).state
        }),
        call_ensures(thread_event::linux::Event::wait, (event, wait), step) ==> {
            &&& step is Done <==> old(event).state == 2
            &&& old(event).state == 2 ==> final(event).state == 2
            &&& old(event).state != 2 ==> final(event).state == 1
            &&& old(event).state != 2 && *old(wait) == thread_event::linux::Wait::Announce ==> *final(wait)
                == thread_event::linux::Wait::Block && step is Continue
            &&& old(event).state != 2 && *old(wait) == thread_event::linux::Wait::Block ==> *final(wait)
                == thread_event::linux::Wait::Block && step is Block
        },
{
}

/// The event of a thread and the thread parker are such events.
pub proof fn thread_events_stay_set(
    event: &mut thread_event::OsThreadEvent,
    parker: &mut sync::thread_parker::OsThreadParker,
    wait: &mut thread_event::linux::Wait,
    set: bool,
    wake: bool,
    step: thread_event::linux::WaitStep,
)
    ensures
        call_ensures(thread_event::OsThreadEvent::is_set, (&*old(event),), set) ==> (set <==> old(event).0.state == 2),
        call_ensures(thread_event::OsThreadEvent::notify, (event,), wake) ==> final(event).0.state == 2 && (
        wake <==> old(event).0.state == 1),
        call_ensures(thread_event::OsThreadEvent::reset, (event,), ()) ==> final(event).0.state == (if old(event).0.state == 2 {
            0
        } else {
            old(event).0.state
        }),
        call_ensures(thread_event::OsThreadEvent::wait, (event, wait), step) ==> {
            &&& step is Done <==> old(event).0.state == 2
            &&& final(event).0.state == (if old(event).0.state == 2 {
                2int
            } else {
                1
            })
            &&& step is Block <==> old(event).0.state != 2 && *old(wait) == thread_event::linux::Wait::Block
        },
        call_ensures(sync::thread_parker::OsThreadParker::unpark, (parker,), wake) ==> final(parker).0.state
            == 2 && (wake <==> old(parker).0.state == 1),
        call_ensures(sync::thread_parker::OsThreadParker::reset, (parker,), ()) ==> final(parker).0.state
            == (if old(parker).0.state == 2 {
            0
        } else {
            old(parker).0.state
        }),
        call_ensures(sync::thread_parker::OsThreadParker::park, (parker, wait), step) ==> {
            &&& step is Done <==> old(parker).0.state == 2
            &&& final(parker).0.state == (if old(parker).0.state == 2 {
                2int
            } else {
                1
            })
            &&& step is Block <==> old(parker).0.state != 2 && *old(wait) == thread_event::linux::Wait::Block
        },
{
}

/// A signal holds at most one permit: a notification that nobody waits for is received by
/// the next wait, and only by that. A thread that waits is released by a notification, or
/// leaves once its time is over.
pub proof fn signal_holds_one_permit(
    signal: &mut signal::linux::SystemSignal,
    start: OsInstant,
    duration: OsDuration,
    now: OsInstant,
    wake: bool,
    step: signal::linux::WaitStep,
    released: Option<bool>,
)
    ensures
        call_ensures(signal::linux::SystemSignal::notify, (signal,), wake) ==> {
            &&& wake <==> old(signal).state == 2
            &&& final(signal).state == (if old(signal).state == 2 {
                0int
            } else {
                1
            })
        },
        call_ensures(signal::linux::SystemSignal::notify_all, (signal,), wake) ==> {
            &&& wake <==> old(signal).state == 2
            &&& final(signal).state == (if old(signal).state == 0 {
                1int
            } else {
                0
            })
        },
        call_ensures(signal::linux::SystemSignal::wait, (signal,), step) ==> {
            &&& step is Done <==> old(signal).state == 1
            &&& final(signal).state == (if old(signal).state == 1 {
                0int
            } else {
                2
            })
        },
        start.timestamp <= now.timestamp && call_ensures(
            signal::linux::SystemSignal::wait_timeout,
            (signal, start, duration, now),
            released,
        ) ==> {
            let over = start.timestamp + duration.secs * 1_000_000_000 + duration.nanos <= now.timestamp;
            &&& old(signal).state != 2 ==> released == Some(true) && final(signal).state == old(signal).state
            &&& old(signal).state == 2 && over ==> released == Some(false) && final(signal).state == 0
            &&& old(signal).state == 2 && !over ==> released is None && final(signal).state == 2
        },
{
}

/// The signal on keyed events: a notification releases a thread that waits, and otherwise
/// is received by the next wait, whose thread then does not block.
pub proof fn keyed_signal_keeps_a_notification(
    signal: &mut signal::windows::SystemSignal,
    wait: &mut signal::windows::Wait,
    wake: bool,
    step: signal::windows::WaitStep,
)
    ensures
        call_ensures(signal::windows::SystemSignal::notify, (signal,), wake) ==> final(signal).state == 2 && (
        wake <==> old(signal).state == 1),
        call_ensures(signal::windows::SystemSignal::wait, (signal, wait), step) ==> match *old(wait) {
            signal::windows::Wait::Load => {
                &&& step is Continue
                &&& final(signal).state == old(signal).state
                &&& *final(wait) == (if old(signal).state == 0 {
                    signal::windows::Wait::Exchange
                } else {
                    signal::windows::Wait::Take
                })
            },
            signal::windows::Wait::Exchange => {
                &&& *final(wait) == signal::windows::Wait::Take
                &&& step is Block <==> old(signal).state == 0
                &&& !(step is Done)
                &&& final(signal).state == (if old(signal).state == 0 {
                    1
                } else {
                    old(signal).state
                })
            },
            signal::windows::Wait::Take => step is Done && final(signal).state == 0,
        },
{
}

/// A mutex on a signal is free exactly as long as the permit is stored. Who takes the
/// permit holds it, who finds none waits, and who releases it while a task waits passes it
/// on.
pub proof fn permit_is_the_mutex<T>(mutex: &mut future::mutex::GenericMutex<T>, acquired: bool, wake: bool)
    ensures
        call_ensures(future::mutex::GenericMutex::<T>::try_lock, (mutex,), acquired) ==> {
            &&& acquired <==> old(mutex).signal.state == 1
            &&& final(mutex).signal.state == (if old(mutex).signal.state == 1 {
                0
            } else {
                old(mutex).signal.state
            })
            &&& final(mutex).value == old(mutex).value
        },
        call_ensures(future::mutex::GenericMutex::<T>::lock, (mutex,), acquired) ==> {
            &&& acquired <==> old(mutex).signal.state == 1
            &&& final(mutex).signal.state == (if old(mutex).signal.state == 1 {
                0int
            } else {
                2
            })
            &&& final(mutex).value == old(mutex).value
        },
        call_ensures(future::mutex::GenericMutex::<T>::force_unlock, (mutex,), wake) ==> {
            &&& wake <==> old(mutex).signal.state == 2
            &&& final(mutex).signal.state == (if old(mutex).signal.state == 2 {
                0int
            } else {
                1
            })
            &&& final(mutex).value == old(mutex).value
        },
{
}

/// An even number has no lowest bit.
#[verifier::rlimit(60)]
proof fn even_words(w: usize)
    by (bit_vector)
    ensures
        w & 1 == w % 2,
        w & !1 == w - w % 2,
{
}

/// An event of one word is one if it is set, and else the newest node that waits. A
/// thread that waits for it is through if it has seen it set, and else puts its node in
/// front of the newest, if the word is what it has seen.
pub proof fn waiting_for_a_word_event(
    before: EventWait,
    after: EventWait,
    word: usize,
    new_word: usize,
    nodes: Map<usize, Node>,
    new_nodes: Map<usize, Node>,
    step: EventStep,
    seen: usize,
)
    requires
        shared::event::wait_steps(before, after, word, new_word, nodes, new_nodes, step),
    ensures
        after.node == before.node,
        before.state is None ==> step is Continue && after.state == Some(word) && new_word == word
            && new_nodes == nodes,
        before.state == Some(1usize) ==> step is IsSet && new_word == word && new_nodes == nodes,
        before.state == Some(seen) && seen != 1 && word == seen ==> {
            &&& step is Wait
            &&& new_word == before.node
            &&& new_nodes[before.node].next == seen - seen % 2
            &&& new_nodes[before.node].tail == (if seen < 2 {
                before.node
            } else {
                0
            })
            &&& forall|a: usize| a != before.node ==> #[trigger] new_nodes[a] == nodes[a]
        },
        before.state == Some(seen) && seen != 1 && word != seen ==> step is Continue && after.state
            == Some(word) && new_word == word,
{
    even_words(seen);
}

/// Setting an event of one word hands out all who wait, and they are woken in the order in
/// which they came. Resetting it forgets none of them.
pub proof fn setting_hands_out_all_who_wait<M: Memory<Node>>(
    event: &mut shared::event::WordEvent,
    reset_event: &mut sync::reset_event::WordEvent,
    memory: &mut M,
    newest: usize,
    some_newest: Option<usize>,
    set: bool,
    order: Vec<usize>,
)
    ensures
        call_ensures(shared::event::WordEvent::set, (event,), newest) ==> final(event).state == 1 && newest
            == old(event).state - old(event).state % 2,
        call_ensures(sync::reset_event::WordEvent::set, (reset_event,), some_newest) ==> final(reset_event).event.state == 1 && (some_newest is Some <==> old(reset_event).event.state >= 2) && (some_newest
            matches Some(n) ==> n == old(reset_event).event.state - old(reset_event).event.state % 2),
        call_ensures(shared::event::WordEvent::reset, (event,), ()) ==> final(event).state == (if old(event).state == 1 {
            0
        } else {
            old(event).state
        }),
        call_ensures(sync::reset_event::WordEvent::reset, (reset_event,), ()) ==> final(reset_event).event.state == (if old(reset_event).event.state == 1 {
            0
        } else {
            old(reset_event).event.state
        }),
        call_ensures(shared::event::WordEvent::is_set, (&*old(event),), set) ==> (set <==> old(event).state
            == 1),
        call_ensures(sync::reset_event::WordEvent::is_set, (&*old(reset_event),), set) ==> (set <==> old(reset_event).event.state == 1),
        call_ensures(shared::event::wake_order::<M>, (memory, newest), order) || call_ensures(
            sync::reset_event::WordEvent::wake_slow::<M>,
            (memory, newest),
            order,
        ) ==> {
            let queue = queue::waiters(old(memory).nodes(), newest);
            &&& order@.len() == queue.len()
            &&& forall|i: int| 0 <= i < order@.len() ==> #[trigger] order@[i] == queue[queue.len() - 1 - i]
        },
{
    even_words(old(event).state);
    even_words(old(reset_event).event.state);
}

/// A thread that begins to wait for an event of one word is through if it is set, and else
/// goes on with its node, which has no back link.
pub proof fn waiting_begins<M: Memory<Node>>(
    event: shared::event::WordEvent,
    reset_event: sync::reset_event::WordEvent,
    memory: &mut M,
    address: usize,
    wait: Option<EventWait>,
)
    ensures
        call_ensures(shared::event::WordEvent::wait::<M>, (&event, memory, address), wait) ==> {
            &&& wait is None <==> event.state == 1
            &&& wait is None ==> final(memory).nodes() == old(memory).nodes()
            &&& forall|a: usize| a != address ==> #[trigger] final(memory).nodes()[a] == old(memory).nodes()[a]
            &&& wait matches Some(w) ==> w.state is None && w.node == address && final(memory).nodes()[address].prev
                == 0 && final(memory).nodes()[address].flags == 1
        },
        call_ensures(sync::reset_event::WordEvent::wait::<M>, (&reset_event, memory, address), wait) ==> {
            &&& wait is None <==> reset_event.event.state == 1
            &&& wait is None ==> final(memory).nodes() == old(memory).nodes()
            &&& forall|a: usize| a != address ==> #[trigger] final(memory).nodes()[a] == old(memory).nodes()[a]
            &&& wait matches Some(w) ==> w.state is None && w.node == address && final(memory).nodes()[address].prev
                == 0 && final(memory).nodes()[address].flags == 1
        },
{
}

} // verus!
