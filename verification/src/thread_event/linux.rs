//! A manual reset event on a futex.
use vstd::prelude::*;

verus! {

/// The event is not set and no thread waits.
pub const IS_RESET: i32 = 0;

/// The event is not set and threads may wait.
pub const IS_WAITING: i32 = 1;

/// The event is set.
pub const IS_SET: i32 = 2;

/// How far a thread is that waits.
#[derive(Clone, Copy, PartialEq, Eq, Debug, Structural)]
pub enum Wait {
    /// The thread has yet to tell that it waits.
    Announce,
    /// The thread blocks until the event is set.
    Block,
}

/// What came of one step of a thread that waits.
#[derive(Clone, Copy, PartialEq, Eq, Debug, Structural)]
pub enum WaitStep {
    /// The event is set.
    Done,
    /// There is more to do.
    Continue,
    /// The thread is to block while the state is `IS_WAITING`.
    Block,
}

/// One step of a thread that waits.
pub open spec fn wait_steps(before: Wait, after: Wait, state: i32, new_state: i32, step: WaitStep) -> bool {
    if state == IS_SET {
        &&& step == WaitStep::Done
        &&& after == before
        &&& new_state == state
    } else {
        match before {
            Wait::Announce => {
                &&& step == WaitStep::Continue
                &&& after == Wait::Block
                &&& new_state == IS_WAITING
            },
            // Where the event was set and reset meanwhile, the thread tells again that
            // it waits.
            Wait::Block => {
                &&& step == WaitStep::Block
                &&& after == before
                &&& new_state == IS_WAITING
            },
        }
    }
}

/// The event of a thread. Each method is one atomic step on the state.
#[derive(Clone, Copy, PartialEq, Eq, Debug, Structural)]
pub struct Event {
    pub state: i32,
}

impl Default for Event {
    fn default() -> (event: Self)
        ensures
            event.state == IS_RESET,
    {
        Event::new()
    }
}

impl Event {
    /// An event that is not set.
    pub fn new() -> (event: Self)
        ensures
            event.state == IS_RESET,
    {
        Event { state: IS_RESET }
    }

    /// The state is one of the three.
    pub open spec fn wf(self) -> bool {
        self.state == IS_RESET || self.state == IS_WAITING || self.state == IS_SET
    }

    /// The event is set.
    pub open spec fn spec_is_set(self) -> bool {
        self.state == IS_SET
    }

    /// Tells whether the event is set.
    pub fn is_set(&self) -> (set: bool)
        ensures
            set == self.spec_is_set(),
    {
        self.state == IS_SET
    }

    /// Makes the event one that is not set. Nothing changes where it is not set
    /// already, so that threads that wait are still known.
    pub fn reset(&mut self)
        ensures
            final(self).state == (if old(self).state == IS_SET {
                IS_RESET
            } else {
                old(self).state
            }),
    {
        if self.state == IS_SET {
            self.state = IS_RESET;
        }
    }

    /// Sets the event. Tells whether a thread may wait and all of them are to be
    /// woken.
    pub fn set(&mut self) -> (wake: bool)
        ensures
            final(self).state == IS_SET,
            wake == (old(self).state == IS_WAITING),
    {
        let state: i32 = self.state;
        self.state = IS_SET;
        state == IS_WAITING
    }

    /// Takes one step of a thread that waits.
    pub fn wait(&mut self, wait: &mut Wait) -> (step: WaitStep)
        requires
            old(self).wf(),
        ensures
            final(self).wf(),
            wait_steps(*old(wait), *final(wait), old(self).state, final(self).state, step),
    {
        if self.state == IS_SET {
            return WaitStep::Done;
        }
        match wait {
            Wait::Announce => {
                self.state = IS_WAITING;
                *wait = Wait::Block;
                WaitStep::Continue
            },
            Wait::Block => {
                self.state = IS_WAITING;
                WaitStep::Block
            },
        }
    }
}

/// What a thread is about.
pub enum Role {
    /// It does not use the event.
    Idle,
    /// It waits.
    Waiting(Wait),
    /// It is about to sleep.
    Blocking,
    /// It sleeps until it is woken.
    Asleep,
    /// It has set the event and is to wake those that sleep.
    Waking,
}

/// An event and what each thread is about.
pub struct World {
    pub state: i32,
    pub roles: Map<int, Role>,
}

impl World {
    /// The thread sleeps.
    pub open spec fn sleeps(self, t: int) -> bool {
        self.roles.contains_key(t) && self.roles[t] is Asleep
    }

    /// The thread is going to wake all that sleep.
    pub open spec fn wakes(self, t: int) -> bool {
        self.roles.contains_key(t) && self.roles[t] is Waking
    }
}

/// One step of the thread `t`. A thread that is to block goes to sleep only if the
/// state still is `IS_WAITING`.
pub open spec fn world_steps(w: World, v: World, t: int) -> bool {
    &&& w.roles.contains_key(t)
    &&& match w.roles[t] {
        Role::Idle => {
            ||| v.state == w.state && v.roles == w.roles.insert(t, Role::Waiting(Wait::Announce))
            ||| v.state == IS_SET && v.roles == w.roles.insert(
                t,
                if w.state == IS_WAITING {
                    Role::Waking
                } else {
                    Role::Idle
                },
            )
            ||| v.state == (if w.state == IS_SET {
                IS_RESET
            } else {
                w.state
            }) && v.roles == w.roles
        },
        Role::Waiting(before) => exists|after: Wait, step: WaitStep|
            {
                &&& #[trigger] wait_steps(before, after, w.state, v.state, step)
                &&& match step {
                    WaitStep::Done => v.roles == w.roles.insert(t, Role::Idle),
                    WaitStep::Continue => v.roles == w.roles.insert(t, Role::Waiting(after)),
                    WaitStep::Block => v.roles == w.roles.insert(t, Role::Blocking),
                }
            },
        Role::Blocking => v.state == w.state && v.roles == w.roles.insert(
            t,
            if w.state == IS_WAITING {
                Role::Asleep
            } else {
                Role::Waiting(Wait::Block)
            },
        ),
        // A thread may also wake up by itself.
        Role::Asleep => v.state == w.state && v.roles == w.roles.insert(
            t,
            Role::Waiting(Wait::Block),
        ),
        Role::Waking => {
            &&& v.state == w.state
            &&& v.roles.dom() == w.roles.dom()
            &&& v.roles[t] is Idle
            &&& forall|u: int|
                u != t && #[trigger] w.roles.contains_key(u) ==> v.roles[u] == (if w.roles[u] is Asleep {
                    Role::Waiting(Wait::Block)
                } else {
                    w.roles[u]
                })
        },
    }
}

/// While a thread sleeps the state tells so or a thread is going to wake it.
pub open spec fn sound(w: World) -> bool {
    forall|t: int| #[trigger]
        w.sleeps(t) ==> w.state == IS_WAITING || exists|u: int| w.wakes(u)
}

/// A step of any thread leaves every sleeping thread known to the state or to a
/// thread that is going to wake it.
pub proof fn step_is_sound(w: World, v: World, t: int)
    requires
        sound(w),
        world_steps(w, v, t),
    ensures
        sound(v),
{
    assert forall|x: int| #[trigger] v.sleeps(x) implies v.state == IS_WAITING || exists|u: int|
        v.wakes(u) by {
        match w.roles[t] {
            Role::Idle => {
                assert(w.sleeps(x));
                if v.state == IS_SET && w.state == IS_WAITING {
                    if v.roles[t] is Waking {
                        assert(v.wakes(t));
                    }
                }
                if w.state != IS_WAITING {
                    let u = choose|u: int| w.wakes(u);
                    assert(v.wakes(u));
                }
            },
            Role::Waiting(_) | Role::Blocking => {
                if x != t {
                    assert(w.sleeps(x));
                    if w.state != IS_WAITING {
                        let u = choose|u: int| w.wakes(u);
                        assert(v.wakes(u));
                    }
                }
            },
            Role::Asleep => {
                assert(w.sleeps(x));
                if w.state != IS_WAITING {
                    let u = choose|u: int| w.wakes(u);
                    assert(v.wakes(u));
                }
            },
            Role::Waking => {
                assert(v.roles.contains_key(x));
                assert(w.roles.contains_key(x));
                assert(false);
            },
        }
    }
}

/// A run of the threads: worlds, each of which follows from the one before by a step
/// of some thread, from an event that nobody has touched on.
pub open spec fn is_run(run: Seq<World>) -> bool {
    &&& run.len() > 0
    &&& run[0].state == IS_RESET
    &&& forall|t: int| #[trigger] run[0].roles.contains_key(t) ==> run[0].roles[t] is Idle
    &&& forall|i: int| 0 <= i < run.len() - 1 ==> #[trigger] step_at(run, i)
}

/// Some thread leads from the world at position `i` to the next.
pub open spec fn step_at(run: Seq<World>, i: int) -> bool {
    follows(run[i], run[i + 1])
}

/// Some thread leads from `w` to `v`.
pub open spec fn follows(w: World, v: World) -> bool {
    exists|t: int| world_steps(w, v, t)
}

proof fn run_is_sound(run: Seq<World>, i: int)
    requires
        is_run(run),
        0 <= i < run.len(),
    ensures
        sound(run[i]),
    decreases i,
{
    if i == 0 {
        assert forall|t: int| #[trigger] run[0].sleeps(t) implies false by {
            assert(run[0].roles.contains_key(t));
        }
    } else {
        run_is_sound(run, i - 1);
        assert(step_at(run, i - 1));
        let w = run[i - 1];
        let v = run[i];
        let t = choose|t: int| world_steps(w, v, t);
        step_is_sound(w, v, t);
    }
}

/// No thread sleeps through a set event: while a thread sleeps, the state tells that
/// threads wait, so that setting the event wakes them, or some thread is going to wake
/// it.
pub proof fn no_wakeup_is_lost(run: Seq<World>, i: int, t: int)
    requires
        is_run(run),
        0 <= i < run.len(),
        run[i].sleeps(t),
    ensures
        run[i].state == IS_WAITING || exists|u: int| run[i].wakes(u),
{
    run_is_sound(run, i);
}

} // verus!
