//! Events on which a thread blocks until another thread sets them.
pub mod linux;
pub mod posix;
pub mod time;

use self::linux::{Notify, NotifyStep, Signal, Wait, WaitStep};
use self::time::{OsDuration, OsInstant};
use crate::lock_word::doubled;
use crate::sync::spin_wait::spin_loop_hints;
use vstd::arithmetic::power2::{lemma2_to64, lemma_pow2_strictly_increases, pow2};
use vstd::prelude::*;

verus! {

/// Hints towards the synchronization situation provided to an implementation of
/// [`AutoResetEvent`].
#[derive(Clone, Copy, PartialEq, Eq, Debug, Structural)]
pub struct YieldContext {
    /// True if a synchronized resource is trying to be accessed by multiple
    /// threads.
    pub contended: bool,
    /// The amount of successful `yield_now`s called in succession while trying
    /// to access a synchronized resource.
    pub iteration: usize,
}

/// The primary abstraction upon which all thread synchronization primitives are
/// built on: an event that one thread sets and another waits for and consumes.
pub trait AutoResetEvent: Sized {
    /// Sets the event if not set already and wakes up a thread that waits to
    /// consume it.
    fn set(&self);

    /// Blocks the current thread until the event becomes set, then consumes it.
    fn wait(&self);

    /// Hints to the thread scheduler that the current thread wishes to yield.
    /// Returns whether the thread is allowed to yield rather than to block.
    fn yield_now(context: YieldContext) -> bool;
}

/// Addition methods for events which support waiting with timeouts.
pub trait AutoResetEventTimed: AutoResetEvent {
    /// A moment in time to wait for until timing out.
    type Instant;

    /// A fixed amount of time to wait for until timing out.
    type Duration;

    /// Waits until an instant in time before timing out. Returns true if the
    /// event was consumed or false if it timed out.
    fn try_wait_until(&self, timeout: &Self::Instant) -> bool;

    /// Waits for a fixed amount of time before timing out. Returns true if the
    /// event was consumed or false if it timed out, and takes the time spent
    /// waiting from the timeout.
    fn try_wait_for(&self, timeout: &mut Self::Duration) -> bool;
}

/// The number of spin hints from which the backoff grows linearly.
pub const SPINS: usize = 1024;

/// The number of times that the backoff doubles before it reaches [`SPINS`].
pub const BITS: usize = 10;

/// The number of spin hints for a thread that yields, or `None` for a thread
/// that is to block: while the resource is not contended, the number doubles up
/// to half of `SPINS` and then grows by `SPINS`, ten times each.
pub open spec fn spec_yield_hints(context: YieldContext) -> Option<nat> {
    if context.contended {
        None
    } else if context.iteration < BITS {
        Some(pow2(context.iteration as nat))
    } else if context.iteration < BITS + 10 {
        Some(((context.iteration - (BITS - 1)) * SPINS) as nat)
    } else {
        None
    }
}

/// Computes the number of spin hints for a thread that yields.
pub fn yield_hints(context: YieldContext) -> (hints: Option<usize>)
    ensures
        hints is None <==> spec_yield_hints(context) is None,
        hints matches Some(count) ==> spec_yield_hints(context) == Some(count as nat),
{
    if !context.contended {
        if context.iteration < BITS {
            return Some(doubled(context.iteration));
        } else if context.iteration < BITS + 10 {
            let spin: usize = context.iteration - (BITS - 1);
            return Some(spin * SPINS);
        }
    }
    None
}

/// A default implementation of an event on the primitives of the system.
#[derive(Clone, Copy, PartialEq, Eq, Debug, Structural)]
pub struct OsAutoResetEvent {
    pub signal: Signal,
}

impl Default for OsAutoResetEvent {
    fn default() -> (event: Self)
        ensures
            event.signal.state == linux::EMPTY,
    {
        OsAutoResetEvent::new()
    }
}

impl OsAutoResetEvent {
    /// An event that is not set.
    pub fn new() -> (event: Self)
        ensures
            event.signal.state == linux::EMPTY,
    {
        OsAutoResetEvent { signal: Signal::new() }
    }

    /// Takes one step of a thread that sets the event.
    pub fn set(&mut self, notify: &mut Notify) -> (step: NotifyStep)
        requires
            old(self).signal.wf(),
        ensures
            final(self).signal.wf(),
            linux::notify_steps(
                *old(notify),
                *final(notify),
                old(self).signal.state,
                final(self).signal.state,
                step,
            ),
    {
        self.signal.notify(notify)
    }

    /// Takes one step of a thread that waits for the event and consumes it. The
    /// thread never times out.
    pub fn wait(&mut self, wait: &mut Wait) -> (step: WaitStep)
        requires
            old(self).signal.wf(),
            *old(wait) == Wait::Load || *old(wait) == Wait::Exchange ==> old(self).signal.state
                != linux::WAITING,
            *old(wait) != Wait::TimeOut,
        ensures
            final(self).signal.wf(),
            *final(wait) != Wait::TimeOut,
            !(step is TimedOut),
            linux::wait_steps(
                *old(wait),
                *final(wait),
                old(self).signal.state,
                final(self).signal.state,
                None,
                OsInstant { timestamp: 0 },
                0,
                step,
            ),
    {
        self.signal.try_wait(wait, None, OsInstant { timestamp: 0 }, 0)
    }

    /// Takes one step of a thread that waits for the event, and consumes it, until
    /// an instant in time.
    pub fn try_wait_until(
        &mut self,
        wait: &mut Wait,
        timeout: OsInstant,
        now: OsInstant,
        max_secs: u64,
    ) -> (step: WaitStep)
        requires
            old(self).signal.wf(),
            *old(wait) == Wait::Load || *old(wait) == Wait::Exchange ==> old(self).signal.state
                != linux::WAITING,
        ensures
            final(self).signal.wf(),
            linux::wait_steps(
                *old(wait),
                *final(wait),
                old(self).signal.state,
                final(self).signal.state,
                Some(timeout),
                now,
                max_secs,
                step,
            ),
    {
        self.signal.try_wait(wait, Some(timeout), now, max_secs)
    }

    /// The instant until which a thread waits that begins at `now` and waits for
    /// no longer than `timeout`. The thread goes on with `try_wait_until`, and
    /// then takes what is left of the time from `time_left`.
    pub fn try_wait_for(now: OsInstant, timeout: OsDuration) -> (times_out: OsInstant)
        requires
            now.timestamp + timeout.total() <= u64::MAX,
        ensures
            times_out.timestamp == now.timestamp + timeout.total(),
    {
        now + timeout
    }

    /// What is left at `now` of the time until `times_out`.
    pub fn time_left(times_out: OsInstant, now: OsInstant) -> (timeout: OsDuration)
        ensures
            timeout.wf(),
            timeout.total() == (if now.timestamp <= times_out.timestamp {
                times_out.timestamp - now.timestamp
            } else {
                0
            }),
    {
        times_out.saturating_duration_since(now)
    }

    /// Spins for a while, unless the thread is to block. Returns whether it
    /// spun. Backing off is best for reducing contention while a resource is not
    /// contended.
    pub fn yield_now(context: YieldContext) -> (allowed: bool)
        ensures
            allowed == (spec_yield_hints(context) is Some),
    {
        match yield_hints(context) {
            Some(hints) => {
                spin_loop_hints(hints);
                true
            },
            None => false,
        }
    }
}

/// A thread that is told to yield over and over blocks in the end: after twenty
/// times it may yield no more, and it never may while the resource is contended.
pub proof fn yielding_ends(context: YieldContext)
    ensures
        context.contended || context.iteration >= 2 * BITS ==> spec_yield_hints(context) is None,
        !context.contended && context.iteration < 2 * BITS ==> spec_yield_hints(context) is Some,
{
}

/// The longer a thread has yielded the longer it yields.
pub proof fn yields_grow(iteration: usize)
    requires
        iteration + 1 < 2 * BITS,
    ensures
        ({
            let now = spec_yield_hints(YieldContext { contended: false, iteration });
            let then = spec_yield_hints(
                YieldContext { contended: false, iteration: (iteration + 1) as usize },
            );
            now is Some && then is Some && now->0 < then->0
        }),
{
    lemma2_to64();
    if iteration + 1 < BITS {
        lemma_pow2_strictly_increases(iteration as nat, (iteration + 1) as nat);
    } else if iteration < BITS {
        lemma_pow2_strictly_increases(iteration as nat, 10);
    }
}

} // verus!
