//! A signal on the condition variable of a thread.
use super::time::{OsDuration, OsInstant, NANOS_PER_SEC};
use super::{yield_hints, YieldContext};
use vstd::prelude::*;

verus! {

/// There is neither a waiting thread nor a notification.
pub const EMPTY: usize = 0;

/// A thread waits.
pub const WAITING: usize = 1;

/// There is a notification.
pub const NOTIFIED: usize = 2;

/// The state of a signal that has been waited for: the address of the thread's
/// own signal, which is none of the others.
pub open spec fn is_thread(state: usize) -> bool {
    state != EMPTY && state != NOTIFIED
}

/// What a thread that notifies has to do next.
#[derive(Clone, Copy, PartialEq, Eq, Debug, Structural)]
pub enum NotifyStep {
    /// It has seen nothing and leaves a notification with `notify_exchange`.
    Exchange,
    /// The notification is there.
    Done,
    /// It notifies the thread's own signal at this address.
    Thread(usize),
}

/// What a thread that waits has to do next.
#[derive(Clone, Copy, PartialEq, Eq, Debug, Structural)]
pub enum WaitStep {
    /// It has seen nothing and goes on with `wait_exchange`.
    Exchange,
    /// It takes the notification with `take`.
    Take,
    /// It waits for the thread's own signal at this address.
    Thread(usize),
}

/// What a thread that notifies has to do when it sees this state.
pub open spec fn notify_step(state: usize) -> NotifyStep {
    if state == EMPTY {
        NotifyStep::Exchange
    } else if state == NOTIFIED {
        NotifyStep::Done
    } else {
        NotifyStep::Thread(state)
    }
}

/// The state with a notification where there was nothing.
pub open spec fn with_notification(state: usize) -> usize {
    if state == EMPTY {
        NOTIFIED
    } else {
        state
    }
}

/// What a thread that waits has to do when it sees this state.
pub open spec fn wait_step(state: usize) -> WaitStep {
    if state == EMPTY {
        WaitStep::Exchange
    } else if state == NOTIFIED {
        WaitStep::Take
    } else {
        WaitStep::Thread(state)
    }
}

/// The state with a thread that waits where there was nothing.
pub open spec fn with_thread(state: usize, address: usize) -> usize {
    if state == EMPTY {
        address
    } else {
        state
    }
}

/// A signal by which one thread notifies another. Each method is one atomic step
/// on the state.
#[derive(Clone, Copy, PartialEq, Eq, Debug, Structural)]
pub struct Signal {
    pub state: usize,
}

impl Signal {
    /// A signal without a notification.
    pub fn new() -> (signal: Self)
        ensures
            signal.state == EMPTY,
    {
        Signal { state: EMPTY }
    }

    /// Begins to notify.
    pub fn notify(&self) -> (step: NotifyStep)
        ensures
            step == notify_step(self.state),
    {
        if self.state == EMPTY {
            NotifyStep::Exchange
        } else if self.state == NOTIFIED {
            NotifyStep::Done
        } else {
            NotifyStep::Thread(self.state)
        }
    }

    /// Leaves a notification if there still is nothing.
    pub fn notify_exchange(&mut self) -> (step: NotifyStep)
        ensures
            final(self).state == with_notification(old(self).state),
            step == notify_step(final(self).state),
    {
        if self.state == EMPTY {
            self.state = NOTIFIED;
            NotifyStep::Done
        } else if self.state == NOTIFIED {
            NotifyStep::Done
        } else {
            NotifyStep::Thread(self.state)
        }
    }

    /// Begins to wait.
    pub fn try_wait(&self) -> (step: WaitStep)
        ensures
            step == wait_step(self.state),
    {
        if self.state == EMPTY {
            WaitStep::Exchange
        } else if self.state == NOTIFIED {
            WaitStep::Take
        } else {
            WaitStep::Thread(self.state)
        }
    }

    /// Tells, if there still is nothing, that the thread with its own signal at
    /// `address` waits.
    pub fn wait_exchange(&mut self, address: usize) -> (step: WaitStep)
        requires
            is_thread(address),
        ensures
            final(self).state == with_thread(old(self).state, address),
            step == wait_step(final(self).state),
    {
        if self.state == EMPTY {
            self.state = address;
        }
        if self.state == NOTIFIED {
            WaitStep::Take
        } else {
            WaitStep::Thread(self.state)
        }
    }

    /// Takes the notification.
    pub fn take(&mut self)
        ensures
            final(self).state == EMPTY,
    {
        self.state = EMPTY;
    }
}

/// What a thread that waits for its own signal has to do next.
#[derive(Clone, Copy, PartialEq, Eq, Debug, Structural)]
pub enum ThreadStep {
    /// It was notified.
    Notified,
    /// It was not notified in time.
    TimedOut,
    /// It blocks on the condition variable for no longer than this time, if
    /// there is one, and goes on with `wait_again`.
    Block(Option<OsDuration>),
}

/// The signal of a thread. Each method is what a thread does while it holds the
/// lock of the state.
#[derive(Clone, Copy, PartialEq, Eq, Debug, Structural)]
pub struct ThreadSignal {
    pub state: usize,
}

/// What becomes of a thread that waits while the state is `WAITING`.
pub open spec fn waits_on(timeout: Option<OsInstant>, now: OsInstant, step: ThreadStep) -> bool {
    match timeout {
        None => step == ThreadStep::Block(None),
        Some(timeout) => if timeout.timestamp <= now.timestamp {
            step == ThreadStep::TimedOut
        } else {
            step matches ThreadStep::Block(Some(time)) && time.wf() && time.total()
                == timeout.timestamp - now.timestamp
        },
    }
}

/// The state of a thread's signal after a notification: a thread that waits is
/// released, and otherwise the notification is stored.
pub open spec fn thread_notified(state: usize) -> usize {
    if state == WAITING {
        EMPTY
    } else {
        NOTIFIED
    }
}

/// A thread begins to wait for its own signal.
pub open spec fn thread_begins(
    state: usize,
    new_state: usize,
    timeout: Option<OsInstant>,
    now: OsInstant,
    step: ThreadStep,
) -> bool {
    if state == NOTIFIED {
        step == ThreadStep::Notified && new_state == EMPTY
    } else {
        waits_on(timeout, now, step) && new_state == (if step is TimedOut {
            EMPTY
        } else {
            WAITING
        })
    }
}

/// A thread goes on after it has blocked.
pub open spec fn thread_goes_on(
    state: usize,
    new_state: usize,
    timeout: Option<OsInstant>,
    now: OsInstant,
    step: ThreadStep,
) -> bool {
    if state != WAITING {
        step == ThreadStep::Notified && new_state == state
    } else {
        waits_on(timeout, now, step) && new_state == (if step is TimedOut {
            EMPTY
        } else {
            WAITING
        })
    }
}

impl ThreadSignal {
    /// A signal without a notification.
    pub fn new() -> (signal: Self)
        ensures
            signal.state == EMPTY,
    {
        ThreadSignal { state: EMPTY }
    }

    /// The state is one of the three.
    pub open spec fn wf(self) -> bool {
        self.state == EMPTY || self.state == WAITING || self.state == NOTIFIED
    }

    /// The name of the state.
    pub fn state(&self) -> (name: &'static str)
        requires
            self.wf(),
        ensures
            name@ == (if self.state == EMPTY {
                "empty"@
            } else if self.state == WAITING {
                "has_waiter"@
            } else {
                "notified"@
            }),
    {
        if self.state == EMPTY {
            "empty"
        } else if self.state == WAITING {
            "has_waiter"
        } else {
            "notified"
        }
    }

    /// Notifies the thread. Tells whether it is to be woken because it waits. At
    /// most one notification is stored.
    pub fn notify(&mut self) -> (wake: bool)
        requires
            old(self).wf(),
        ensures
            final(self).wf(),
            wake == (old(self).state == WAITING),
            final(self).state == thread_notified(old(self).state),
    {
        if self.state == WAITING {
            self.state = EMPTY;
            true
        } else {
            self.state = NOTIFIED;
            false
        }
    }

    /// Begins to wait at the moment `now`.
    pub fn try_wait(&mut self, timeout: Option<OsInstant>, now: OsInstant) -> (step: ThreadStep)
        requires
            old(self).wf(),
        ensures
            final(self).wf(),
            thread_begins(old(self).state, final(self).state, timeout, now, step),
    {
        if self.state == NOTIFIED {
            self.state = EMPTY;
            return ThreadStep::Notified;
        }
        self.state = WAITING;
        self.wait_again(timeout, now)
    }

    /// Goes on at the moment `now`, after the thread has blocked.
    pub fn wait_again(&mut self, timeout: Option<OsInstant>, now: OsInstant) -> (step: ThreadStep)
        requires
            old(self).wf(),
        ensures
            final(self).wf(),
            thread_goes_on(old(self).state, final(self).state, timeout, now, step),
    {
        if self.state != WAITING {
            return ThreadStep::Notified;
        }
        match timeout {
            None => ThreadStep::Block(None),
            Some(timeout) => {
                if timeout.timestamp <= now.timestamp {
                    self.state = EMPTY;
                    ThreadStep::TimedOut
                } else {
                    ThreadStep::Block(Some(timeout.duration_since(now)))
                }
            },
        }
    }

    /// The moment, in seconds and nanoseconds, until which a thread blocks that
    /// blocks for this time from the moment `now_sec`, `now_nsec` on, or `None` if
    /// the system cannot tell that moment.
    pub fn timeout_to_ts(timeout: OsDuration, now_sec: i64, now_nsec: i64) -> (ts: Option<(i64, i64)>)
        requires
            timeout.wf(),
            0 <= now_nsec < NANOS_PER_SEC,
        ensures
            ts is None <==> timeout.secs > i64::MAX || now_sec + timeout.secs + carry(
                timeout,
                now_nsec,
            ) > i64::MAX,
            ts matches Some((sec, nsec)) ==> is_deadline(timeout, now_sec, now_nsec, sec, nsec),
    {
        if timeout.secs > i64::MAX as u64 {
            return None;
        }
        let secs: i64 = timeout.secs as i64;
        let mut sec: i64 = match now_sec.checked_add(secs) {
            Some(sec) => sec,
            None => {
                return None;
            },
        };
        let mut nsec: i64 = now_nsec + timeout.nanos as i64;
        if nsec >= 1_000_000_000 {
            sec = match sec.checked_add(nsec / 1_000_000_000) {
                Some(sec) => sec,
                None => {
                    return None;
                },
            };
            nsec = nsec % 1_000_000_000;
        }
        Some((sec, nsec))
    }
}

/// The second that the nanoseconds make up together, if they do.
pub open spec fn carry(timeout: OsDuration, now_nsec: i64) -> int {
    if now_nsec + timeout.nanos >= NANOS_PER_SEC {
        1
    } else {
        0
    }
}

/// The moment `sec`, `nsec` is later than `now_sec`, `now_nsec` by `timeout`.
pub open spec fn is_deadline(timeout: OsDuration, now_sec: i64, now_nsec: i64, sec: i64, nsec: i64) -> bool {
    &&& sec == now_sec + timeout.secs + carry(timeout, now_nsec)
    &&& nsec == now_nsec + timeout.nanos - carry(timeout, now_nsec) * NANOS_PER_SEC
    &&& 0 <= nsec < NANOS_PER_SEC
}

/// A moment that a thread blocks until lies as far off, in nanoseconds, as the
/// time for which it is to block.
pub proof fn deadlines_are_exact(timeout: OsDuration, now_sec: i64, now_nsec: i64, sec: i64, nsec: i64)
    requires
        is_deadline(timeout, now_sec, now_nsec, sec, nsec),
    ensures
        (sec * NANOS_PER_SEC + nsec) - (now_sec * NANOS_PER_SEC + now_nsec) == timeout.total(),
{
    let carry = carry(timeout, now_nsec);
    assert(sec * NANOS_PER_SEC == now_sec * NANOS_PER_SEC + timeout.secs * NANOS_PER_SEC + carry
        * NANOS_PER_SEC) by (nonlinear_arith)
        requires
            sec == now_sec + timeout.secs + carry,
    ;
}

/// No thread has asked for the key.
pub const UNINIT: usize = 0;

/// A thread creates the key.
pub const CREATING: usize = 1;

/// The key may be used.
pub const READY: usize = 2;

/// The key could not be created.
pub const ERROR: usize = 3;

/// The key under which each thread has a value of its own.
#[derive(Clone, Copy, PartialEq, Eq, Debug, Structural)]
pub struct LocalKey {
    pub state: usize,
}

/// A thread that needs the key.
#[derive(Clone, Copy, PartialEq, Eq, Debug, Structural)]
pub struct KeyAttempt {
    /// The state as the thread has seen it last, or `None` if it must look.
    pub state: Option<usize>,
    pub spin: usize,
}

/// What came of one step towards the key.
#[derive(Clone, Copy, PartialEq, Eq, Debug, Structural)]
pub enum KeyStep {
    /// There is more to do.
    Continue,
    /// The thread is to give this number of spin hints before it goes on.
    Spin(usize),
    /// The thread is to create the key and then to call `created`.
    Create,
    /// The key may be used.
    Ready,
    /// The key could not be created.
    Failed,
}

/// One step of `before` on the state of the key.
pub open spec fn key_steps(before: KeyAttempt, after: KeyAttempt, state: usize, new_state: usize, step: KeyStep) -> bool {
    match before.state {
        None => {
            &&& step == KeyStep::Continue
            &&& after == (KeyAttempt { state: Some(state), ..before })
            &&& new_state == state
        },
        Some(seen) => if seen == UNINIT {
            if state == UNINIT {
                step == KeyStep::Create && after == before && new_state == CREATING
            } else {
                step == KeyStep::Continue && after == (KeyAttempt { state: Some(state), ..before })
                    && new_state == state
            }
        } else if seen == CREATING {
            let context = YieldContext { contended: false, iteration: before.spin };
            &&& new_state == state
            &&& after.state is None
            &&& match super::spec_yield_hints(context) {
                Some(hints) => after.spin == before.spin + 1 && (step matches KeyStep::Spin(n) && n
                    == hints),
                None => after.spin == 0 && step == KeyStep::Continue,
            }
        } else {
            &&& step == (if seen == READY {
                KeyStep::Ready
            } else {
                KeyStep::Failed
            })
            &&& after == before
            &&& new_state == state
        },
    }
}

impl LocalKey {
    /// A key that no thread has asked for.
    pub fn new() -> (key: Self)
        ensures
            key.state == UNINIT,
    {
        LocalKey { state: UNINIT }
    }

    /// Tells whether the key may be used. Otherwise the thread goes on with
    /// `create_key`.
    pub fn get(&self) -> (ready: bool)
        ensures
            ready == (self.state == READY),
    {
        self.state == READY
    }

    /// Takes one step towards the key. Only one thread creates it.
    pub fn create_key(&mut self, attempt: &mut KeyAttempt) -> (step: KeyStep)
        ensures
            key_steps(*old(attempt), *final(attempt), old(self).state, final(self).state, step),
    {
        let seen: usize = match attempt.state {
            None => {
                attempt.state = Some(self.state);
                return KeyStep::Continue;
            },
            Some(seen) => seen,
        };
        if seen == UNINIT {
            if self.state == UNINIT {
                self.state = CREATING;
                KeyStep::Create
            } else {
                attempt.state = Some(self.state);
                KeyStep::Continue
            }
        } else if seen == CREATING {
            attempt.state = None;
            let context = YieldContext { contended: false, iteration: attempt.spin };
            match yield_hints(context) {
                Some(hints) => {
                    attempt.spin = attempt.spin.wrapping_add(1);
                    KeyStep::Spin(hints)
                },
                None => {
                    attempt.spin = 0;
                    KeyStep::Continue
                },
            }
        } else if seen == READY {
            KeyStep::Ready
        } else {
            KeyStep::Failed
        }
    }

    /// Tells what came of creating the key.
    pub fn created(&mut self, attempt: &mut KeyAttempt, status: i32)
        requires
            old(self).state == CREATING,
        ensures
            final(self).state == (if status == 0 {
                READY
            } else {
                ERROR
            }),
            *final(attempt) == (KeyAttempt { state: Some(final(self).state), ..*old(attempt) }),
    {
        let state: usize = if status == 0 {
            READY
        } else {
            ERROR
        };
        self.state = state;
        attempt.state = Some(state);
    }
}

/// How far a thread is that waits for a signal.
pub enum Waiting {
    /// It has yet to look at the signal.
    Load,
    /// It goes on as it was told.
    Told(WaitStep),
    /// It has begun to wait for its own signal.
    Blocked,
}

/// A signal, what the threads that notify have to do next, the thread that waits, if
/// one does, its own signal with the address, and the number of notifications that were
/// not yet received.
pub struct World {
    pub state: usize,
    pub thread: usize,
    pub address: usize,
    pub setters: Map<int, NotifyStep>,
    pub waiter: Option<Waiting>,
    pub permits: nat,
}

impl World {
    /// The waiting thread was released and has not yet noticed.
    pub open spec fn is_released(self) -> bool {
        self.waiter == Some(Waiting::Blocked) && self.thread != WAITING
    }

    /// The waiting thread blocks.
    pub open spec fn is_blocked(self) -> bool {
        self.waiter == Some(Waiting::Blocked) && self.thread == WAITING
    }
}

/// The threads that notify, once the thread `t` was told what to do next.
pub open spec fn told(setters: Map<int, NotifyStep>, t: int, step: NotifyStep) -> Map<int, NotifyStep> {
    if step == NotifyStep::Done {
        setters.remove(t)
    } else {
        setters.insert(t, step)
    }
}

/// A step of the thread `t`, which notifies. A notification is one more to be received
/// unless there is one already.
pub open spec fn setter_steps(w: World, v: World, t: int) -> bool {
    &&& v.waiter == w.waiter
    &&& v.address == w.address
    &&& if !w.setters.contains_key(t) {
        // It looks at the signal.
        &&& v.state == w.state
        &&& v.thread == w.thread
        &&& v.permits == w.permits
        &&& v.setters == told(w.setters, t, notify_step(w.state))
    } else {
        match w.setters[t] {
            NotifyStep::Exchange => {
                &&& v.state == with_notification(w.state)
                &&& v.thread == w.thread
                &&& v.permits == w.permits + (if w.state == EMPTY {
                    1int
                } else {
                    0
                })
                &&& v.setters == told(w.setters, t, notify_step(v.state))
            },
            NotifyStep::Thread(_) => {
                &&& v.state == w.state
                &&& v.thread == thread_notified(w.thread)
                &&& v.permits == w.permits + (if w.thread == NOTIFIED {
                    0int
                } else {
                    1
                })
                &&& v.setters == told(w.setters, t, NotifyStep::Done)
            },
            NotifyStep::Done => false,
        }
    }
}

/// A step of the thread that waits, until an instant in time if there is one. It
/// receives a notification when it goes on, unless its time was over.
pub open spec fn waiter_steps(
    w: World,
    v: World,
    timeout: Option<OsInstant>,
    now: OsInstant,
    step: ThreadStep,
) -> bool {
    &&& v.setters == w.setters
    &&& v.address == w.address
    &&& match w.waiter {
        None => v.state == w.state && v.thread == w.thread && v.permits == w.permits && v.waiter
            == Some(Waiting::Load),
        Some(Waiting::Load) => {
            &&& v.state == w.state
            &&& v.thread == w.thread
            &&& v.permits == w.permits
            &&& v.waiter == Some(Waiting::Told(wait_step(w.state)))
        },
        Some(Waiting::Told(WaitStep::Exchange)) => {
            &&& v.state == with_thread(w.state, w.address)
            &&& v.thread == w.thread
            &&& v.permits == w.permits
            &&& v.waiter == Some(Waiting::Told(wait_step(v.state)))
        },
        Some(Waiting::Told(WaitStep::Take)) => {
            &&& v.state == EMPTY
            &&& v.thread == w.thread
            &&& v.permits == w.permits - 1
            &&& v.waiter is None
        },
        Some(Waiting::Told(WaitStep::Thread(_))) => {
            &&& v.state == w.state
            &&& thread_begins(w.thread, v.thread, timeout, now, step)
            &&& left_to_wait(w, v, step)
        },
        Some(Waiting::Blocked) => {
            &&& v.state == w.state
            &&& thread_goes_on(w.thread, v.thread, timeout, now, step)
            &&& left_to_wait(w, v, step)
        },
    }
}

/// What is left to do for a thread that waits for its own signal.
pub open spec fn left_to_wait(w: World, v: World, step: ThreadStep) -> bool {
    match step {
        ThreadStep::Notified => v.waiter is None && v.permits == w.permits - 1,
        ThreadStep::TimedOut => v.waiter is None && v.permits == w.permits,
        ThreadStep::Block(_) => v.waiter == Some(Waiting::Blocked) && v.permits == w.permits,
    }
}

/// The notifications that were not received are exactly those that are stored and the
/// one for which the waiting thread was released.
pub open spec fn sound(w: World) -> bool {
    &&& is_thread(w.address)
    &&& w.state == EMPTY || w.state == NOTIFIED || w.state == w.address
    &&& w.thread == EMPTY || w.thread == NOTIFIED || w.thread == WAITING
    &&& w.state != w.address ==> w.thread == EMPTY
    &&& w.permits == (if w.state == NOTIFIED || w.thread == NOTIFIED {
        1int
    } else {
        0
    }) + (if w.is_released() {
        1int
    } else {
        0
    })
    &&& w.thread == WAITING ==> w.waiter == Some(Waiting::Blocked)
    &&& w.waiter == Some(Waiting::Blocked) ==> w.state == w.address
    &&& w.waiter matches Some(Waiting::Told(WaitStep::Thread(_))) ==> w.state == w.address
    &&& w.waiter == Some(Waiting::Told(WaitStep::Take)) ==> w.state == NOTIFIED
    &&& forall|t: int| #[trigger]
        w.setters.contains_key(t) ==> w.setters[t] != NotifyStep::Done && (w.setters[t] is Thread
            ==> w.state == w.address)
}

/// Some thread leads from `w` to `v`.
pub open spec fn follows(w: World, v: World) -> bool {
    ||| exists|t: int| setter_steps(w, v, t)
    ||| exists|timeout: Option<OsInstant>, now: OsInstant, step: ThreadStep|
        waiter_steps(w, v, timeout, now, step)
}

/// A run of the threads: worlds, each of which follows from the one before by a step
/// of some thread, from signals that nobody has touched on.
pub open spec fn is_run(run: Seq<World>) -> bool {
    &&& run.len() > 0
    &&& is_thread(run[0].address)
    &&& run[0] == (World {
        state: EMPTY,
        thread: EMPTY,
        address: run[0].address,
        setters: Map::empty(),
        waiter: None,
        permits: 0,
    })
    &&& forall|i: int| 0 <= i < run.len() - 1 ==> #[trigger] step_at(run, i)
}

/// Some thread leads from the world at position `i` to the next.
pub open spec fn step_at(run: Seq<World>, i: int) -> bool {
    follows(run[i], run[i + 1])
}

/// Every step of every thread keeps a world sound.
pub proof fn step_is_sound(w: World, v: World)
    requires
        sound(w),
        follows(w, v),
    ensures
        sound(v),
{
}

/// No notification is lost and none is received twice: those that were not received
/// are exactly those that are stored and the one for which the waiting thread was
/// released.
pub proof fn no_permit_is_lost(run: Seq<World>, i: int)
    requires
        is_run(run),
        0 <= i < run.len(),
    ensures
        sound(run[i]),
    decreases i,
{
    if i > 0 {
        no_permit_is_lost(run, i - 1);
        assert(step_at(run, i - 1));
        step_is_sound(run[i - 1], run[i]);
    }
}

/// A thread never blocks while there is a notification for it, a thread whose time is
/// over misses none, and at most one is stored.
pub proof fn blocked_means_no_permit(
    run: Seq<World>,
    i: int,
    v: World,
    timeout: Option<OsInstant>,
    now: OsInstant,
    step: ThreadStep,
)
    requires
        is_run(run),
        0 <= i < run.len(),
    ensures
        run[i].is_blocked() ==> run[i].permits == 0,
        run[i].waiter is None ==> run[i].permits <= 1,
        run[i].waiter == Some(Waiting::Blocked) && waiter_steps(run[i], v, timeout, now, step)
            && step is TimedOut ==> run[i].permits == 0,
{
    no_permit_is_lost(run, i);
}

} // verus!
