//! A signal on a futex.
use super::time::{OsDuration, OsInstant};
use vstd::prelude::*;

verus! {

/// There is neither a waiting thread nor a notification.
pub const EMPTY: usize = 0;

/// A thread waits.
pub const WAITING: usize = 1;

/// There is a notification.
pub const NOTIFIED: usize = 2;

/// How far a thread is that notifies.
#[derive(Clone, Copy, PartialEq, Eq, Debug, Structural)]
pub enum Notify {
    /// It has yet to look at the state.
    Load,
    /// It has seen nothing and leaves a notification.
    Exchange,
    /// It has seen a waiting thread, which it releases.
    Release,
}

/// What came of one step of a thread that notifies.
#[derive(Clone, Copy, PartialEq, Eq, Debug, Structural)]
pub enum NotifyStep {
    /// There is more to do.
    Continue,
    /// The notification is there.
    Done,
    /// The waiting thread is to be woken.
    Wake,
}

/// How far a thread is that waits.
#[derive(Clone, Copy, PartialEq, Eq, Debug, Structural)]
pub enum Wait {
    /// It has yet to look at the state.
    Load,
    /// It has seen nothing and tells that it waits.
    Exchange,
    /// It blocks until it is released.
    Block,
    /// Its time is over.
    TimeOut,
    /// It takes the notification.
    Take,
}

/// What came of one step of a thread that waits.
#[derive(Clone, Copy, PartialEq, Eq, Debug, Structural)]
pub enum WaitStep {
    /// There is more to do.
    Continue,
    /// The thread was notified.
    Notified,
    /// The thread was not notified in time.
    TimedOut,
    /// The thread is to block while the state is `WAITING`, for no longer than
    /// this time, if there is one.
    Block(Option<OsDuration>),
}

/// One step of a thread that notifies.
pub open spec fn notify_steps(before: Notify, after: Notify, state: usize, new_state: usize, step: NotifyStep) -> bool {
    match before {
        Notify::Load => {
            &&& new_state == state
            &&& if state == EMPTY {
                step == NotifyStep::Continue && after == Notify::Exchange
            } else if state == WAITING {
                step == NotifyStep::Continue && after == Notify::Release
            } else {
                step == NotifyStep::Done && after == before
            }
        },
        Notify::Exchange => if state == EMPTY {
            step == NotifyStep::Done && after == before && new_state == NOTIFIED
        } else if state == WAITING {
            step == NotifyStep::Continue && after == Notify::Release && new_state == state
        } else {
            step == NotifyStep::Done && after == before && new_state == state
        },
        Notify::Release => if state == WAITING {
            step == NotifyStep::Wake && after == before && new_state == EMPTY
        } else if state == EMPTY {
            // The waiting thread gave up meanwhile.
            step == NotifyStep::Continue && after == Notify::Exchange && new_state == state
        } else {
            step == NotifyStep::Done && after == before && new_state == state
        },
    }
}

/// The time for which a thread blocks that waits no longer than until `timeout`,
/// or `None` where that is more than the system can tell.
pub open spec fn is_block_time(block: Option<OsDuration>, timeout: OsInstant, now: OsInstant, max_secs: u64) -> bool {
    match block {
        None => (timeout.timestamp - now.timestamp) / 1_000_000_000 > max_secs,
        Some(time) => {
            &&& time.wf()
            &&& time.total() == timeout.timestamp - now.timestamp
            &&& time.secs <= max_secs
        },
    }
}

/// One step of a thread that waits.
pub open spec fn wait_steps(
    before: Wait,
    after: Wait,
    state: usize,
    new_state: usize,
    timeout: Option<OsInstant>,
    now: OsInstant,
    max_secs: u64,
    step: WaitStep,
) -> bool {
    match before {
        Wait::Load => {
            &&& new_state == state
            &&& step == WaitStep::Continue
            &&& after == (if state == EMPTY {
                Wait::Exchange
            } else {
                Wait::Take
            })
        },
        Wait::Exchange => {
            &&& step == WaitStep::Continue
            &&& if state == EMPTY {
                after == Wait::Block && new_state == WAITING
            } else {
                after == Wait::Take && new_state == state
            }
        },
        Wait::Block => {
            &&& new_state == state
            &&& if state != WAITING {
                step == WaitStep::Notified && after == before
            } else {
                match timeout {
                    None => step == WaitStep::Block(None) && after == before,
                    Some(timeout) => if timeout.timestamp <= now.timestamp {
                        step == WaitStep::Continue && after == Wait::TimeOut
                    } else {
                        after == before && (step matches WaitStep::Block(block) && is_block_time(
                            block,
                            timeout,
                            now,
                            max_secs,
                        ))
                    },
                }
            }
        },
        Wait::TimeOut => {
            &&& after == before
            &&& if state == WAITING {
                step == WaitStep::TimedOut && new_state == EMPTY
            } else {
                step == WaitStep::Notified && new_state == state
            }
        },
        Wait::Take => step == WaitStep::Notified && after == before && new_state == EMPTY,
    }
}

/// A signal by which one thread notifies another. Each method is one atomic step
/// on the state.
#[derive(Clone, Copy, PartialEq, Eq, Debug, Structural)]
pub struct Signal {
    pub state: usize,
}

impl Signal {
    /// A signal without a notification.
    pub fn new() -> (signal: Self)
        ensures
            signal.state == EMPTY,
    {
        Signal { state: EMPTY }
    }

    /// The state is one of the three.
    pub open spec fn wf(self) -> bool {
        self.state == EMPTY || self.state == WAITING || self.state == NOTIFIED
    }

    /// The name of the state.
    pub fn name(&self) -> (name: &'static str)
        requires
            self.wf(),
        ensures
            name@ == (if self.state == EMPTY {
                "empty"@
            } else if self.state == WAITING {
                "has_waiter"@
            } else {
                "notified"@
            }),
    {
        if self.state == EMPTY {
            "empty"
        } else if self.state == WAITING {
            "has_waiter"
        } else {
            "notified"
        }
    }

    /// Takes one step of a thread that notifies.
    pub fn notify(&mut self, notify: &mut Notify) -> (step: NotifyStep)
        requires
            old(self).wf(),
        ensures
            final(self).wf(),
            notify_steps(*old(notify), *final(notify), old(self).state, final(self).state, step),
    {
        match *notify {
            Notify::Load => {
                if self.state == EMPTY {
                    *notify = Notify::Exchange;
                    NotifyStep::Continue
                } else if self.state == WAITING {
                    *notify = Notify::Release;
                    NotifyStep::Continue
                } else {
                    NotifyStep::Done
                }
            },
            Notify::Exchange => {
                if self.state == EMPTY {
                    self.state = NOTIFIED;
                    NotifyStep::Done
                } else if self.state == WAITING {
                    *notify = Notify::Release;
                    NotifyStep::Continue
                } else {
                    NotifyStep::Done
                }
            },
            Notify::Release => {
                if self.state == WAITING {
                    self.state = EMPTY;
                    NotifyStep::Wake
                } else if self.state == EMPTY {
                    *notify = Notify::Exchange;
                    NotifyStep::Continue
                } else {
                    NotifyStep::Done
                }
            },
        }
    }

    /// Takes one step of a thread that waits, at the moment `now`, where the
    /// system can tell times of no more than `max_secs` seconds. Only one thread
    /// at a time may wait.
    pub fn try_wait(
        &mut self,
        wait: &mut Wait,
        timeout: Option<OsInstant>,
        now: OsInstant,
        max_secs: u64,
    ) -> (step: WaitStep)
        requires
            old(self).wf(),
            *old(wait) == Wait::Load || *old(wait) == Wait::Exchange ==> old(self).state != WAITING,
        ensures
            final(self).wf(),
            wait_steps(
                *old(wait),
                *final(wait),
                old(self).state,
                final(self).state,
                timeout,
                now,
                max_secs,
                step,
            ),
    {
        match *wait {
            Wait::Load => {
                *wait = if self.state == EMPTY {
                    Wait::Exchange
                } else {
                    Wait::Take
                };
                WaitStep::Continue
            },
            Wait::Exchange => {
                if self.state == EMPTY {
                    self.state = WAITING;
                    *wait = Wait::Block;
                } else {
                    *wait = Wait::Take;
                }
                WaitStep::Continue
            },
            Wait::Block => self.futex_wait(wait, timeout, now, max_secs),
            Wait::TimeOut => {
                if self.state == WAITING {
                    self.state = EMPTY;
                    WaitStep::TimedOut
                } else {
                    WaitStep::Notified
                }
            },
            Wait::Take => {
                self.state = EMPTY;
                WaitStep::Notified
            },
        }
    }

    /// Takes one step of a thread that blocks.
    fn futex_wait(
        &self,
        wait: &mut Wait,
        timeout: Option<OsInstant>,
        now: OsInstant,
        max_secs: u64,
    ) -> (step: WaitStep)
        requires
            *old(wait) == Wait::Block,
        ensures
            wait_steps(
                *old(wait),
                *final(wait),
                self.state,
                self.state,
                timeout,
                now,
                max_secs,
                step,
            ),
    {
        if self.state != WAITING {
            return WaitStep::Notified;
        }
        match timeout {
            None => WaitStep::Block(None),
            Some(timeout) => {
                if timeout.timestamp <= now.timestamp {
                    *wait = Wait::TimeOut;
                    return WaitStep::Continue;
                }
                let time = timeout.duration_since(now);
                if time.secs > max_secs {
                    WaitStep::Block(None)
                } else {
                    WaitStep::Block(Some(time))
                }
            },
        }
    }
}

/// A signal, the threads that notify, the thread that waits, if one does, and the
/// number of notifications that were not yet received.
pub struct World {
    pub state: usize,
    pub setters: Map<int, Notify>,
    pub waiter: Option<Wait>,
    pub permits: nat,
}

impl World {
    /// The waiting thread has told that it waits and has not gone on.
    pub open spec fn has_waiter(self) -> bool {
        self.waiter == Some(Wait::Block) || self.waiter == Some(Wait::TimeOut)
    }

    /// The waiting thread was released and has not yet noticed.
    pub open spec fn is_released(self) -> bool {
        self.has_waiter() && self.state != WAITING
    }

    /// The waiting thread waits to be released.
    pub open spec fn is_blocked(self) -> bool {
        self.has_waiter() && self.state == WAITING
    }
}

/// A step of a thread that notifies. A notification is one more to be received unless
/// there is one already.
pub open spec fn setter_steps(w: World, v: World, t: int, after: Notify, step: NotifyStep) -> bool {
    &&& v.waiter == w.waiter
    &&& if !w.setters.contains_key(t) {
        &&& v.setters == w.setters.insert(t, Notify::Load)
        &&& v.state == w.state
        &&& v.permits == w.permits
    } else {
        &&& notify_steps(w.setters[t], after, w.state, v.state, step)
        &&& v.setters == (if step is Continue {
            w.setters.insert(t, after)
        } else {
            w.setters.remove(t)
        })
        &&& v.permits == w.permits + (if !(step is Continue) && w.state != NOTIFIED {
            1int
        } else {
            0
        })
    }
}

/// A step of the thread that waits, until an instant in time if there is one. It
/// receives a notification when it goes on, unless its time was over.
pub open spec fn waiter_steps(
    w: World,
    v: World,
    timeout: Option<OsInstant>,
    now: OsInstant,
    max_secs: u64,
    after: Wait,
    step: WaitStep,
) -> bool {
    &&& v.setters == w.setters
    &&& match w.waiter {
        None => v.waiter == Some(Wait::Load) && v.state == w.state && v.permits == w.permits,
        Some(before) => {
            &&& wait_steps(before, after, w.state, v.state, timeout, now, max_secs, step)
            &&& v.waiter == (if step is Notified || step is TimedOut {
                None
            } else {
                Some(after)
            })
            &&& v.permits == w.permits - (if step is Notified {
                1int
            } else {
                0
            })
        },
    }
}

/// The notifications that were not received are exactly the one that is stored and
/// the one for which the waiting thread was released.
pub open spec fn sound(w: World) -> bool {
    &&& w.state == EMPTY || w.state == WAITING || w.state == NOTIFIED
    &&& w.permits == (if w.state == NOTIFIED {
        1int
    } else {
        0
    }) + (if w.is_released() {
        1int
    } else {
        0
    })
    &&& w.state == WAITING ==> w.has_waiter()
    &&& w.waiter == Some(Wait::Take) ==> w.state == NOTIFIED
}

/// Some thread leads from `w` to `v`.
pub open spec fn follows(w: World, v: World) -> bool {
    ||| exists|t: int, after: Notify, step: NotifyStep| setter_steps(w, v, t, after, step)
    ||| exists|timeout: Option<OsInstant>, now: OsInstant, max_secs: u64, after: Wait, step: WaitStep|
        waiter_steps(w, v, timeout, now, max_secs, after, step)
}

/// A run of the threads: worlds, each of which follows from the one before by a step
/// of some thread, from a signal that nobody has touched on.
pub open spec fn is_run(run: Seq<World>) -> bool {
    &&& run.len() > 0
    &&& run[0] == (World { state: EMPTY, setters: Map::empty(), waiter: None, permits: 0 })
    &&& forall|i: int| 0 <= i < run.len() - 1 ==> #[trigger] step_at(run, i)
}

/// Some thread leads from the world at position `i` to the next.
pub open spec fn step_at(run: Seq<World>, i: int) -> bool {
    follows(run[i], run[i + 1])
}

/// Every step of every thread keeps a world sound.
pub proof fn step_is_sound(w: World, v: World)
    requires
        sound(w),
        follows(w, v),
    ensures
        sound(v),
{
}

/// No notification is lost and none is received twice: those that were not received
/// are exactly the one that is stored and the one for which the waiting thread was
/// released.
pub proof fn no_permit_is_lost(run: Seq<World>, i: int)
    requires
        is_run(run),
        0 <= i < run.len(),
    ensures
        sound(run[i]),
    decreases i,
{
    if i > 0 {
        no_permit_is_lost(run, i - 1);
        assert(step_at(run, i - 1));
        step_is_sound(run[i - 1], run[i]);
    }
}

/// A thread goes on before its time is over only once it was notified: there is a
/// notification that it receives. A thread whose time is over misses none.
pub proof fn wait_consumes_a_permit(
    run: Seq<World>,
    i: int,
    v: World,
    timeout: Option<OsInstant>,
    now: OsInstant,
    max_secs: u64,
    after: Wait,
    step: WaitStep,
)
    requires
        is_run(run),
        0 <= i < run.len(),
        run[i].waiter is Some,
        waiter_steps(run[i], v, timeout, now, max_secs, after, step),
    ensures
        step is Notified ==> run[i].permits > 0 && v.permits == run[i].permits - 1,
        step is TimedOut ==> run[i].permits == 0 && v.permits == 0,
{
    no_permit_is_lost(run, i);
}

/// A thread never waits to be released while there is a notification for it, and at
/// most one notification is stored.
pub proof fn blocked_means_no_permit(run: Seq<World>, i: int)
    requires
        is_run(run),
        0 <= i < run.len(),
    ensures
        run[i].is_blocked() ==> run[i].permits == 0,
        run[i].waiter is None ==> run[i].permits <= 1,
{
    no_permit_is_lost(run, i);
}

} // verus!
