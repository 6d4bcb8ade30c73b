//! A signal on a keyed event.
use crate::windows_api::{KeyedEvents, Search};
use vstd::prelude::*;

verus! {

/// There is neither a notification nor a waiting thread.
pub const EMPTY: u32 = 0;

/// A thread waits.
pub const WAITING: u32 = 1;

/// There is a notification.
pub const NOTIFIED: u32 = 2;

/// How far a thread is that waits.
#[derive(Clone, Copy, PartialEq, Eq, Debug, Structural)]
pub enum Wait {
    /// It has yet to look at the state.
    Load,
    /// It has seen nothing and tells that it waits.
    Exchange,
    /// It was notified and consumes that.
    Take,
}

/// What a thread that waits has to do next.
#[derive(Clone, Copy, PartialEq, Eq, Debug, Structural)]
pub enum WaitStep {
    /// There is more to do.
    Continue,
    /// It is to wait for the keyed event with `invoke_nt_event`.
    Block,
    /// It was notified.
    Done,
}

/// One step of a thread that waits.
pub open spec fn wait_steps(before: Wait, after: Wait, state: u32, new_state: u32, step: WaitStep) -> bool {
    match before {
        Wait::Load => {
            &&& step == WaitStep::Continue
            &&& after == (if state == EMPTY {
                Wait::Exchange
            } else {
                Wait::Take
            })
            &&& new_state == state
        },
        Wait::Exchange => {
            &&& after == Wait::Take
            &&& if state == EMPTY {
                step == WaitStep::Block && new_state == WAITING
            } else {
                step == WaitStep::Continue && new_state == state
            }
        },
        Wait::Take => step == WaitStep::Done && after == before && new_state == EMPTY,
    }
}

/// What is done with a keyed event.
#[derive(Clone, Copy, PartialEq, Eq, Debug, Structural)]
pub enum Action {
    Wait,
    Notify,
}

/// What a thread that uses the keyed event has to do next.
#[derive(Clone, Copy, PartialEq, Eq, Debug, Structural)]
pub enum InvokeStep {
    /// It is to call the function at this address once, with the keyed event, the
    /// key, whether it may be interrupted, and the time that it may take.
    Call { function: usize, handle: usize, key: usize, alertable: bool, timeout: Option<i64> },
    /// It is to look for the functions first, from the library on, with this
    /// search, and then to begin again.
    Load(Search),
}

/// A signal by which one thread notifies another. Each method is one atomic step
/// on the state.
#[derive(Clone, Copy, PartialEq, Eq, Debug, Structural)]
pub struct SystemSignal {
    pub state: u32,
}

impl SystemSignal {
    /// A signal without a notification.
    pub fn new() -> (signal: Self)
        ensures
            signal.state == EMPTY,
    {
        SystemSignal { state: EMPTY }
    }

    /// The state is one of the three.
    pub open spec fn wf(self) -> bool {
        self.state == EMPTY || self.state == WAITING || self.state == NOTIFIED
    }

    /// Notifies. Tells whether a thread waits and is to be released with
    /// `invoke_nt_event`.
    pub fn notify(&mut self) -> (wake: bool)
        ensures
            final(self).state == NOTIFIED,
            wake == (old(self).state == WAITING),
    {
        let state: u32 = self.state;
        self.state = NOTIFIED;
        state == WAITING
    }

    /// Takes one step of a thread that waits. Once it has blocked it goes on only
    /// after it was notified.
    pub fn wait(&mut self, wait: &mut Wait) -> (step: WaitStep)
        requires
            *old(wait) == Wait::Take ==> old(self).state == NOTIFIED,
        ensures
            wait_steps(*old(wait), *final(wait), old(self).state, final(self).state, step),
    {
        match *wait {
            Wait::Load => {
                *wait = if self.state == EMPTY {
                    Wait::Exchange
                } else {
                    Wait::Take
                };
                WaitStep::Continue
            },
            Wait::Exchange => {
                *wait = Wait::Take;
                if self.state == EMPTY {
                    self.state = WAITING;
                    WaitStep::Block
                } else {
                    WaitStep::Continue
                }
            },
            Wait::Take => {
                self.state = EMPTY;
                WaitStep::Done
            },
        }
    }

    /// What a thread has to do to wait for the keyed event or to release another
    /// that waits for it, where the signal is at `address`. That is the key by which
    /// the two threads meet. Where no keyed event was found before, the thread looks
    /// for one first.
    pub fn invoke_nt_event(found: &KeyedEvents, action: Action, address: usize) -> (step: InvokeStep)
        ensures
            step == (if found.handle == 0 {
                InvokeStep::Load(Search::Module)
            } else {
                InvokeStep::Call {
                    function: match action {
                        Action::Wait => found.wait_for_keyed_event,
                        Action::Notify => found.release_keyed_event,
                    },
                    handle: found.handle,
                    key: address,
                    alertable: false,
                    timeout: None,
                }
            }),
    {
        if found.handle == 0 {
            return InvokeStep::Load(Search::Module);
        }
        let function = match action {
            Action::Wait => found.wait_for_keyed_event,
            Action::Notify => found.release_keyed_event,
        };
        InvokeStep::Call { function, handle: found.handle, key: address, alertable: false, timeout: None }
    }
}

/// A signal, the thread that waits, where it does, and whether the keyed event
/// was released for it.
pub struct World {
    pub state: u32,
    pub waiter: Option<Wait>,
    /// The thread waits for the keyed event.
    pub blocked: bool,
    /// The keyed event was released for it.
    pub released: bool,
}

/// The other thread notifies.
pub open spec fn notifies(w: World, v: World) -> bool {
    &&& v.state == NOTIFIED
    &&& v.waiter == w.waiter
    &&& v.blocked == w.blocked
    &&& v.released == (w.released || w.state == WAITING)
}

/// The waiting thread takes a step, or comes back from the keyed event.
pub open spec fn waits(w: World, v: World, after: Wait, step: WaitStep) -> bool {
    if w.blocked {
        &&& w.released
        &&& v == (World { blocked: false, released: false, ..w })
    } else {
        match w.waiter {
            None => v == (World { waiter: Some(Wait::Load), ..w }),
            Some(before) => {
                &&& wait_steps(before, after, w.state, v.state, step)
                &&& v.waiter == (if step is Done {
                    None
                } else {
                    Some(after)
                })
                &&& v.blocked == (step is Block)
                &&& v.released == w.released
            },
        }
    }
}

/// A thread that blocks is released exactly when there is a notification.
pub open spec fn sound(w: World) -> bool {
    &&& w.state == EMPTY || w.state == WAITING || w.state == NOTIFIED
    &&& w.blocked ==> w.waiter == Some(Wait::Take) && w.state != EMPTY
    &&& w.blocked ==> w.released == (w.state == NOTIFIED)
    &&& w.state == WAITING ==> w.blocked
    &&& w.released ==> w.blocked
    &&& w.waiter == Some(Wait::Take) && !w.blocked ==> w.state == NOTIFIED
}

/// One of the two threads leads from `w` to `v`.
pub open spec fn follows(w: World, v: World) -> bool {
    notifies(w, v) || exists|after: Wait, step: WaitStep| waits(w, v, after, step)
}

/// A run of the two threads: worlds, each of which follows from the one before by a
/// step of one of them, from a signal that nobody has touched on.
pub open spec fn is_run(run: Seq<World>) -> bool {
    &&& run.len() > 0
    &&& run[0] == (World { state: EMPTY, waiter: None, blocked: false, released: false })
    &&& forall|i: int| 0 <= i < run.len() - 1 ==> #[trigger] step_at(run, i)
}

/// One of the two threads leads from the world at position `i` to the next.
pub open spec fn step_at(run: Seq<World>, i: int) -> bool {
    follows(run[i], run[i + 1])
}

proof fn run_is_sound(run: Seq<World>, i: int)
    requires
        is_run(run),
        0 <= i < run.len(),
    ensures
        sound(run[i]),
    decreases i,
{
    if i > 0 {
        run_is_sound(run, i - 1);
        assert(step_at(run, i - 1));
    }
}

/// No notification is lost: a thread that blocks is released exactly when there is a
/// notification, and a thread that goes on to take one finds it.
pub proof fn no_notification_is_lost(run: Seq<World>, i: int)
    requires
        is_run(run),
        0 <= i < run.len(),
    ensures
        run[i].blocked ==> (run[i].released <==> run[i].state == NOTIFIED),
        run[i].waiter == Some(Wait::Take) && !run[i].blocked ==> run[i].state == NOTIFIED,
{
    run_is_sound(run, i);
}

} // verus!
