//! Blocking and waking of threads under Windows.
use crate::event::time::OsDuration;
use crate::sync::spin_wait::spin_loop_hints;
use crate::windows_api::{Found, WAIT_ON_ADDRESS};
use vstd::prelude::*;

verus! {

/// Hints that a thread spins. Returns whether it should go on spinning.
pub fn yield_now(iteration: usize) -> (spins: bool)
    ensures
        spins == (iteration < 40),
{
    spin_loop_hints(1);
    iteration < 40
}

/// A time without end, in milliseconds.
pub const INFINITE: u32 = u32::MAX;

/// The number of nanoseconds in a second.
pub const NANOS_PER_SEC: i64 = 1_000_000_000;

/// The current time, given what the counter tells and how often it counts in a
/// second.
pub fn timestamp(counter: i64, frequency: i64) -> (time: OsDuration)
    requires
        counter >= 0,
        frequency > 0,
    ensures
        time.wf(),
        time.total() == counter * NANOS_PER_SEC / frequency as int,
{
    assert(0 <= counter * NANOS_PER_SEC <= i64::MAX * NANOS_PER_SEC) by (nonlinear_arith)
        requires
            0 <= counter <= i64::MAX,
    ;
    let nanos: u128 = counter as u128 * NANOS_PER_SEC as u128 / frequency as u128;
    proof {
        vstd::arithmetic::div_mod::lemma_div_is_ordered_by_denominator(
            counter * NANOS_PER_SEC,
            1,
            frequency as int,
        );
        assert(nanos <= counter * NANOS_PER_SEC);
    }
    OsDuration {
        secs: (nanos / NANOS_PER_SEC as u128) as u64,
        nanos: (nanos % NANOS_PER_SEC as u128) as u32,
    }
}

/// By which means threads block and wake each other.
#[derive(Clone, Copy, PartialEq, Eq, Debug, Structural)]
pub enum Backend {
    WaitOnAddress,
    KeyedEvent(usize),
}

impl Backend {
    /// The means that were found before, if any were.
    pub fn get(found: &Found) -> (backend: Option<Backend>)
        ensures
            backend == (if found.keyed.handle == 0 {
                None
            } else if found.keyed.handle == WAIT_ON_ADDRESS {
                Some(Backend::WaitOnAddress)
            } else {
                Some(Backend::KeyedEvent(found.keyed.handle))
            }),
    {
        if found.keyed.handle == 0 {
            None
        } else if found.keyed.handle == WAIT_ON_ADDRESS {
            Some(Backend::WaitOnAddress)
        } else {
            Some(Backend::KeyedEvent(found.keyed.handle))
        }
    }

    /// The means after a search: keyed events are preferred to addresses.
    pub fn pick(keyed_event: Option<usize>, wait_on_address: bool) -> (backend: Option<Backend>)
        ensures
            backend == (match keyed_event {
                Some(handle) => Some(Backend::KeyedEvent(handle)),
                None => if wait_on_address {
                    Some(Backend::WaitOnAddress)
                } else {
                    None
                },
            }),
    {
        match keyed_event {
            Some(handle) => Some(Backend::KeyedEvent(handle)),
            None => {
                if wait_on_address {
                    Some(Backend::WaitOnAddress)
                } else {
                    None
                }
            },
        }
    }
}

/// The call by which a thread is woken.
#[derive(Clone, Copy, PartialEq, Eq, Debug, Structural)]
pub enum Wake {
    /// The keyed event is released for a thread that waits with this key.
    Keyed { handle: usize, key: usize, alertable: bool, timeout: Option<i64> },
    /// A thread that waits on this address is woken.
    Address { address: usize },
}

impl Backend {
    /// The call by which a thread is woken that blocks on the state at `address`.
    pub fn wake(self, address: usize) -> (wake: Wake)
        ensures
            wake == (match self {
                Backend::KeyedEvent(handle) => Wake::Keyed {
                    handle,
                    key: address,
                    alertable: false,
                    timeout: None,
                },
                Backend::WaitOnAddress => Wake::Address { address },
            }),
    {
        match self {
            Backend::KeyedEvent(handle) => Wake::Keyed {
                handle,
                key: address,
                alertable: false,
                timeout: None,
            },
            Backend::WaitOnAddress => Wake::Address { address },
        }
    }
}

/// How far a thread is that blocks.
#[derive(Clone, Copy, PartialEq, Eq, Debug, Structural)]
pub enum Phase {
    /// It waits for the keyed event.
    Keyed,
    /// It was not woken in time and takes back that it waits.
    KeyedReset,
    /// It was about to be woken and waits for that.
    KeyedLast,
    /// It waits on the address.
    Address,
    /// It was not woken in time and takes back that it waits.
    AddressReset,
}

/// What a thread that blocks has to do next.
#[derive(Clone, Copy, PartialEq, Eq, Debug, Structural)]
pub enum Step {
    /// There is more to do.
    Continue,
    /// It waits for the keyed event with this key, for this time if there is one, in
    /// negative units of a hundred nanoseconds, and goes on with `keyed_waited`.
    WaitKeyed { handle: usize, key: usize, alertable: bool, timeout: Option<i64> },
    /// It waits on this address, while the state there is what it expects, for this
    /// number of milliseconds, and goes on with `address_waited`.
    WaitAddress { address: usize, expect: usize, millis: u32 },
    /// It was woken.
    Notified,
    /// It was not woken in time.
    TimedOut,
}

/// A thread that blocks until the state is no longer what it expects.
#[derive(Clone, Copy, PartialEq, Eq, Debug, Structural)]
pub struct Wait {
    pub phase: Phase,
    pub backend: Backend,
    /// Where the state is.
    pub address: usize,
    pub timeout: Option<OsDuration>,
    /// When the time is over.
    pub deadline: Option<OsDuration>,
}

/// A time in negative units of a hundred nanoseconds.
pub open spec fn relative(timeout: OsDuration) -> int {
    if timeout.total() / 100 <= i64::MAX {
        -(timeout.total() as int / 100)
    } else {
        -(i64::MAX as int)
    }
}

/// A time in milliseconds.
pub open spec fn millis(timeout: Option<OsDuration>) -> int {
    match timeout {
        None => INFINITE as int,
        Some(timeout) => if timeout.total() / 1_000_000 <= INFINITE {
            timeout.total() as int / 1_000_000
        } else {
            INFINITE - 1
        },
    }
}

/// A thread waits for its keyed event.
pub open spec fn waits_keyed(wait: Wait, timeout: Option<i64>, step: Step) -> bool {
    wait.backend matches Backend::KeyedEvent(handle) && step == (Step::WaitKeyed {
        handle,
        key: wait.address,
        alertable: false,
        timeout,
    })
}

/// One step of a thread that blocks while the state is `expect`, and makes it
/// `reset` if it was not woken in time.
pub open spec fn wait_steps(
    before: Wait,
    after: Wait,
    state: usize,
    new_state: usize,
    expect: usize,
    reset: usize,
    step: Step,
) -> bool {
    match before.phase {
        Phase::Keyed => {
            &&& new_state == state
            &&& match before.timeout {
                None => waits_keyed(before, None, step) && after == before,
                Some(timeout) => if relative(timeout) == 0 {
                    step == Step::Continue && after == (Wait { phase: Phase::KeyedReset, ..before })
                } else {
                    after == before && waits_keyed(before, Some(relative(timeout) as i64), step)
                },
            }
        },
        Phase::KeyedReset => if state == expect {
            step == Step::TimedOut && after == before && new_state == reset
        } else {
            waits_keyed(before, None, step) && after == (Wait { phase: Phase::KeyedLast, ..before })
                && new_state == state
        },
        Phase::KeyedLast => waits_keyed(before, None, step) && after == before && new_state == state,
        Phase::Address => {
            &&& new_state == state
            &&& if state != expect {
                step == Step::Notified && after == before
            } else if millis(before.timeout) == 0 {
                step == Step::Continue && after == (Wait { phase: Phase::AddressReset, ..before })
            } else {
                after == before && step == (Step::WaitAddress {
                    address: before.address,
                    expect,
                    millis: millis(before.timeout) as u32,
                })
            }
        },
        Phase::AddressReset => if state == expect {
            step == Step::TimedOut && after == before && new_state == reset
        } else {
            step == Step::Notified && after == before && new_state == state
        },
    }
}

impl Wait {
    /// A thread that blocks by these means on the state at `address`, from the moment
    /// `now` on, for no longer than the time, if there is one.
    pub fn new(backend: Backend, address: usize, timeout: Option<OsDuration>, now: OsDuration) -> (wait: Self)
        requires
            now.wf(),
            timeout matches Some(timeout) ==> timeout.wf() && now.total() + timeout.total() <= u64::MAX
                * 1_000_000_000 + 999_999_999,
        ensures
            wait.wf(),
            wait.timeout == timeout,
            wait.backend == backend,
            wait.address == address,
            wait.phase == (if backend is WaitOnAddress {
                Phase::Address
            } else {
                Phase::Keyed
            }),
            backend is KeyedEvent || timeout is None ==> wait.deadline is None,
            backend is WaitOnAddress && timeout is Some ==> (wait.deadline matches Some(deadline)
                && deadline.total() == now.total() + timeout->0.total()),
    {
        match backend {
            Backend::KeyedEvent(_) => Wait { phase: Phase::Keyed, backend, address, timeout, deadline: None },
            Backend::WaitOnAddress => {
                let deadline = match timeout {
                    Some(timeout) => now.checked_add(timeout),
                    None => None,
                };
                Wait { phase: Phase::Address, backend, address, timeout, deadline }
            },
        }
    }

    /// Times are in order, and the thread waits by its means.
    pub open spec fn wf(self) -> bool {
        &&& self.backend is WaitOnAddress <==> self.phase == Phase::Address || self.phase
            == Phase::AddressReset
        &&& self.timeout matches Some(timeout) ==> timeout.wf()
        &&& self.deadline matches Some(deadline) ==> deadline.wf()
    }

    /// The call by which the thread waits for its keyed event.
    fn wait_keyed(&self, timeout: Option<i64>) -> (step: Step)
        requires
            self.backend is KeyedEvent,
        ensures
            waits_keyed(*self, timeout, step),
    {
        match self.backend {
            Backend::KeyedEvent(handle) => Step::WaitKeyed {
                handle,
                key: self.address,
                alertable: false,
                timeout,
            },
            Backend::WaitOnAddress => vstd::pervasive::unreached(),
        }
    }

    /// Takes one step on the state.
    pub fn step(&mut self, state: &mut usize, expect: usize, reset: usize) -> (step: Step)
        requires
            old(self).wf(),
        ensures
            final(self).wf(),
            wait_steps(*old(self), *final(self), *old(state), *final(state), expect, reset, step),
    {
        match self.phase {
            Phase::Keyed => {
                match self.timeout {
                    None => self.wait_keyed(None),
                    Some(timeout) => {
                        let units: u128 = timeout.as_nanos() / 100;
                        if units == 0 {
                            self.phase = Phase::KeyedReset;
                            return Step::Continue;
                        }
                        if units <= i64::MAX as u128 {
                            self.wait_keyed(Some(-(units as i64)))
                        } else {
                            self.wait_keyed(Some(-i64::MAX))
                        }
                    },
                }
            },
            Phase::KeyedReset => {
                if *state == expect {
                    *state = reset;
                    Step::TimedOut
                } else {
                    self.phase = Phase::KeyedLast;
                    self.wait_keyed(None)
                }
            },
            Phase::KeyedLast => self.wait_keyed(None),
            Phase::Address => {
                if *state != expect {
                    return Step::Notified;
                }
                let time: u32 = match self.timeout {
                    None => INFINITE,
                    Some(timeout) => {
                        let millis: u128 = timeout.as_millis();
                        if millis <= INFINITE as u128 {
                            millis as u32
                        } else {
                            INFINITE - 1
                        }
                    },
                };
                if time == 0 {
                    self.phase = Phase::AddressReset;
                    return Step::Continue;
                }
                Step::WaitAddress { address: self.address, expect, millis: time }
            },
            Phase::AddressReset => {
                if *state == expect {
                    *state = reset;
                    Step::TimedOut
                } else {
                    Step::Notified
                }
            },
        }
    }

    /// Goes on after the thread has waited for the keyed event, and was woken or
    /// not.
    pub fn keyed_waited(&mut self, woken: bool) -> (step: Step)
        requires
            old(self).phase == Phase::Keyed || old(self).phase == Phase::KeyedLast && woken,
        ensures
            woken ==> step == Step::Notified && *final(self) == *old(self),
            !woken ==> step == Step::Continue && *final(self) == (Wait {
                phase: Phase::KeyedReset,
                ..*old(self)
            }),
    {
        if woken {
            Step::Notified
        } else {
            self.phase = Phase::KeyedReset;
            Step::Continue
        }
    }

    /// Goes on at the moment `now`, after the thread has waited on the address and
    /// its time was over or not.
    pub fn address_waited(&mut self, timed_out: bool, now: OsDuration)
        requires
            old(self).wf(),
            now.wf(),
        ensures
            final(self).wf(),
            final(self).phase == old(self).phase,
            final(self).backend == old(self).backend,
            final(self).address == old(self).address,
            final(self).deadline == old(self).deadline,
            timed_out && old(self).deadline is Some ==> (final(self).timeout matches Some(left)
                && left.total() == (if now.total() <= old(self).deadline->0.total() {
                old(self).deadline->0.total() - now.total()
            } else {
                0
            })),
            !timed_out || old(self).deadline is None ==> final(self).timeout == old(self).timeout,
    {
        if timed_out {
            if let Some(deadline) = self.deadline {
                self.timeout = Some(
                    match deadline.checked_sub(now) {
                        Some(left) => left,
                        None => OsDuration::zero(),
                    },
                );
            }
        }
    }
}

/// A thread that was not woken in time has taken back that it waits, so that
/// nobody will try to wake it, and a thread that could not take it back is woken.
pub proof fn timeout_takes_back(
    before: Wait,
    after: Wait,
    state: usize,
    new_state: usize,
    expect: usize,
    reset: usize,
    step: Step,
)
    requires
        wait_steps(before, after, state, new_state, expect, reset, step),
    ensures
        step == Step::TimedOut ==> state == expect && new_state == reset,
        step != Step::TimedOut ==> new_state == state,
        (before.phase == Phase::KeyedReset || before.phase == Phase::AddressReset) && state != expect
            ==> step == Step::Notified || after.phase == Phase::KeyedLast,
{
}

} // verus!
