//! A mutex of one byte whose waiting threads are parked.
use super::parker;
use super::parker::{ParkResult, Parker, UnparkResult, WaitState, Waiter, WaiterList};
use crate::event::YieldContext;
use crate::queue::Memory;
use vstd::prelude::*;

verus! {

/// The mutex is free and no thread is parked.
pub const UNLOCKED: u8 = 0;

/// The mutex is held.
pub const LOCKED: u8 = 1;

/// There may be parked threads.
pub const PARKED: u8 = 2;

/// The token of a parked thread.
pub const DEFAULT_TOKEN: usize = 0;

/// The token of a thread that was unparked and is to try again.
pub const RETRY_TOKEN: usize = 1;

/// The token of a thread that was unparked and holds the mutex.
pub const HANDOFF_TOKEN: usize = 2;

/// The mutex is held.
pub open spec fn is_locked(state: u8) -> bool {
    state & LOCKED != 0
}

/// There may be parked threads.
pub open spec fn is_parked(state: u8) -> bool {
    state & PARKED != 0
}

/// The state with the mutex held.
pub open spec fn with_lock(state: u8) -> u8 {
    state | LOCKED
}

/// The state with the mark that there are parked threads.
pub open spec fn with_parked(state: u8) -> u8 {
    state | PARKED
}

/// The state without the mark that there are parked threads.
pub open spec fn without_parked(state: u8) -> u8 {
    state & !PARKED
}

/// Each change of a state touches the mark that its name tells, and no other.
pub proof fn state_fields(s: u8)
    by (bit_vector)
    ensures
        is_locked(with_lock(s)),
        is_parked(with_lock(s)) == is_parked(s),
        is_parked(with_parked(s)),
        is_locked(with_parked(s)) == is_locked(s),
        !is_parked(without_parked(s)),
        is_locked(without_parked(s)) == is_locked(s),
        s == LOCKED ==> is_locked(s) && !is_parked(s),
        s == PARKED ==> !is_locked(s) && is_parked(s),
        s == UNLOCKED ==> !is_locked(s) && !is_parked(s),
        s == LOCKED | PARKED ==> is_locked(s) && is_parked(s),
{
}

/// A thread that tries to get the mutex.
#[derive(Clone, Copy, PartialEq, Eq, Debug, Structural)]
pub struct AcquireAttempt {
    /// The state as the thread has seen it last, or `None` if it must look.
    pub state: Option<u8>,
    /// How often the thread has yielded since it began or was unparked.
    pub spin: usize,
    /// The thread was told to block on the state it has seen.
    pub refused: bool,
}

/// What came of one step towards the mutex.
#[derive(Clone, Copy, PartialEq, Eq, Debug, Structural)]
pub enum AcquireStep {
    /// The mutex is held.
    Acquired,
    /// The thread gave up waiting.
    Cancelled,
    /// There is more to do.
    Continue,
    /// The thread is to ask whether it may yield rather than block.
    Yield(YieldContext),
    /// The thread is to park.
    Park,
}

/// One step of `before` on the state.
pub open spec fn acquire_steps(
    before: AcquireAttempt,
    after: AcquireAttempt,
    state: u8,
    new_state: u8,
    step: AcquireStep,
) -> bool {
    match before.state {
        // The thread looks at the state.
        None => {
            &&& step == AcquireStep::Continue
            &&& after == (AcquireAttempt { state: Some(state), refused: false, ..before })
            &&& new_state == state
        },
        Some(seen) => if !is_locked(seen) {
            // The mutex was free.
            if state == seen {
                &&& step == AcquireStep::Acquired
                &&& after == before
                &&& new_state == with_lock(seen)
            } else {
                &&& step == AcquireStep::Continue
                &&& after == (AcquireAttempt { state: Some(state), refused: false, ..before })
                &&& new_state == state
            }
        } else if !before.refused {
            &&& step == AcquireStep::Yield(
                YieldContext { contended: is_parked(seen), iteration: before.spin },
            )
            &&& after == before
            &&& new_state == state
        } else if is_parked(seen) {
            &&& step == AcquireStep::Park
            &&& after == before
            &&& new_state == state
        } else if state == seen {
            // The thread marks that it is going to park.
            &&& step == AcquireStep::Park
            &&& after == before
            &&& new_state == with_parked(seen)
        } else {
            &&& step == AcquireStep::Continue
            &&& after == (AcquireAttempt { state: Some(state), refused: false, ..before })
            &&& new_state == state
        },
    }
}

impl AcquireAttempt {
    /// A thread that has not yet looked at the state.
    pub fn new() -> (attempt: Self)
        ensures
            attempt == (AcquireAttempt { state: None, spin: 0, refused: false }),
    {
        AcquireAttempt { state: None, spin: 0, refused: false }
    }

    /// Tells the thread whether it may yield rather than block.
    pub fn yielded(&mut self, allowed: bool)
        ensures
            *final(self) == (if allowed {
                AcquireAttempt {
                    state: None,
                    spin: if old(self).spin == usize::MAX {
                        0
                    } else {
                        (old(self).spin + 1) as usize
                    },
                    ..*old(self)
                }
            } else {
                AcquireAttempt { refused: true, ..*old(self) }
            }),
    {
        if allowed {
            self.spin = self.spin.wrapping_add(1);
            self.state = None;
        } else {
            self.refused = true;
        }
    }

    /// Goes on after the thread came back from parking: it gave up, it was
    /// handed the mutex, or it tries again.
    pub fn returned(&mut self, result: ParkResult) -> (step: AcquireStep)
        requires
            result matches ParkResult::Unparked(token) ==> token == RETRY_TOKEN || token
                == HANDOFF_TOKEN,
        ensures
            match result {
                ParkResult::Cancelled => step == AcquireStep::Cancelled && *final(self) == *old(
                    self,
                ),
                ParkResult::Unparked(HANDOFF_TOKEN) => step == AcquireStep::Acquired && *final(self)
                    == *old(self),
                _ => step == AcquireStep::Continue && *final(self) == (AcquireAttempt {
                    state: None,
                    spin: 0,
                    refused: false,
                }),
            },
    {
        match result {
            ParkResult::Cancelled => {
                return AcquireStep::Cancelled;
            },
            ParkResult::Unparked(token) => {
                if token == HANDOFF_TOKEN {
                    return AcquireStep::Acquired;
                }
            },
            ParkResult::Invalid => {},
        }
        self.spin = 0;
        self.refused = false;
        self.state = None;
        AcquireStep::Continue
    }

    /// Goes on with the state that is there.
    fn saw(&mut self, state: u8) -> (step: AcquireStep)
        ensures
            step == AcquireStep::Continue,
            *final(self) == (AcquireAttempt { state: Some(state), refused: false, ..*old(self) }),
    {
        self.state = Some(state);
        self.refused = false;
        AcquireStep::Continue
    }
}

/// A raw mutex. Each method is one atomic step on its state, or what a thread
/// does while it holds the lock of the queue of parked threads.
pub struct GenericRawMutex {
    pub state: u8,
    pub parker: Parker,
}

/// The state after a release that has unparked a thread or found none: a fair
/// release leaves the mutex held for the unparked thread, and the mark tells
/// whether there are more parked threads.
pub open spec fn released(state: u8, be_fair: bool, unparked: bool, has_more: bool) -> u8 {
    if unparked && be_fair {
        if has_more {
            state
        } else {
            LOCKED
        }
    } else if has_more {
        PARKED
    } else {
        UNLOCKED
    }
}

/// The token with which a release unparks a thread.
pub open spec fn release_token(be_fair: bool) -> usize {
    if be_fair {
        HANDOFF_TOKEN
    } else {
        RETRY_TOKEN
    }
}

/// A thread parks if the mutex is held and marked, behind the others, and is
/// turned away otherwise.
pub open spec fn parks(
    before: GenericRawMutex,
    after: GenericRawMutex,
    nodes: Map<usize, Waiter>,
    new_nodes: Map<usize, Waiter>,
    address: usize,
    result: Option<ParkResult>,
) -> bool {
    &&& after.wf(new_nodes)
    &&& after.state == before.state
    &&& if before.state == LOCKED | PARKED {
        &&& result is None
        &&& after.threads(new_nodes) == before.threads(nodes).push(address)
        &&& new_nodes.dom() =~= nodes.dom()
        &&& new_nodes[address].state == WaitState::Parked(DEFAULT_TOKEN)
        &&& forall|a: usize| a != address ==> (#[trigger] new_nodes[a]).state == nodes[a].state
        &&& forall|a: usize|
            a != address && !before.threads(nodes).contains(a) ==> #[trigger] new_nodes[a]
                == nodes[a]
    } else {
        &&& result == Some(ParkResult::Invalid)
        &&& after.parker == before.parker
        &&& new_nodes == nodes
    }
}

/// A thread that gives up waiting leaves the queue unless it was unparked, and
/// the last one to leave removes the mark.
pub open spec fn cancels(
    before: GenericRawMutex,
    after: GenericRawMutex,
    nodes: Map<usize, Waiter>,
    new_nodes: Map<usize, Waiter>,
    address: usize,
    result: ParkResult,
) -> bool {
    &&& after.wf(new_nodes)
    &&& match nodes[address].state {
        WaitState::Unparked(token) => {
            &&& result == ParkResult::Unparked(token)
            &&& after == before
            &&& new_nodes == nodes
        },
        WaitState::Parked(_) => {
            &&& result == ParkResult::Cancelled
            &&& after.threads(new_nodes) == parker::without(before.threads(nodes), address)
            &&& parker::only_links(nodes, new_nodes, before.threads(nodes))
            &&& after.state == (if before.threads(nodes).len() == 1 {
                without_parked(before.state)
            } else {
                before.state
            })
        },
    }
}

/// A release that cannot be done at once unparks the thread that was parked
/// first, if there is one, with a token that tells whether it holds the mutex.
pub open spec fn releases(
    before: GenericRawMutex,
    after: GenericRawMutex,
    nodes: Map<usize, Waiter>,
    new_nodes: Map<usize, Waiter>,
    be_fair: bool,
) -> bool {
    let queue = before.threads(nodes);
    &&& after.wf(new_nodes)
    &&& if queue.len() == 0 {
        &&& after.state == released(before.state, be_fair, false, false)
        &&& after.threads(new_nodes) == queue
        &&& new_nodes == nodes
    } else {
        &&& after.state == released(before.state, be_fair, true, queue.len() > 1)
        &&& after.threads(new_nodes) == queue.drop_first()
        &&& new_nodes.dom() =~= nodes.dom()
        &&& new_nodes[queue[0]].state == WaitState::Unparked(release_token(be_fair))
        &&& forall|a: usize| a != queue[0] ==> (#[trigger] new_nodes[a]).state == nodes[a].state
        &&& forall|a: usize| !queue.contains(a) ==> #[trigger] new_nodes[a] == nodes[a]
    }
}

impl GenericRawMutex {
    /// A free mutex.
    pub fn new() -> (mutex: Self)
        ensures
            mutex.state == UNLOCKED,
            mutex.parker.queue == 0,
    {
        GenericRawMutex { state: UNLOCKED, parker: Parker::new() }
    }

    /// The queue of parked threads is in order and their tokens are those of
    /// this mutex.
    pub open spec fn wf(self, nodes: Map<usize, Waiter>) -> bool {
        &&& self.parker.wf(nodes)
        &&& forall|i: int|
            0 <= i < self.threads(nodes).len() ==> (#[trigger] nodes[self.threads(nodes)[i]]).state
                == WaitState::Parked(DEFAULT_TOKEN)
    }

    /// The parked threads, from the one parked first to the one parked last.
    pub open spec fn threads(self, nodes: Map<usize, Waiter>) -> Seq<usize> {
        self.parker.threads(nodes)
    }

    /// Takes the mutex if it is free, even if threads are parked.
    pub fn try_lock(&mut self) -> (acquired: bool)
        ensures
            acquired == !is_locked(old(self).state),
            final(self).state == (if acquired {
                with_lock(old(self).state)
            } else {
                old(self).state
            }),
            final(self).parker == old(self).parker,
    {
        if self.state & LOCKED == 0 {
            self.state = self.state | LOCKED;
            true
        } else {
            false
        }
    }

    /// Takes the mutex if it is free and no thread is parked. Otherwise an
    /// attempt comes back, with which the thread goes on in `acquire_slow`.
    pub fn acquire(&mut self) -> (attempt: Option<AcquireAttempt>)
        ensures
            final(self).parker == old(self).parker,
            old(self).state == UNLOCKED ==> attempt is None && final(self).state == LOCKED,
            old(self).state != UNLOCKED ==> final(self).state == old(self).state && attempt == Some(
                AcquireAttempt { state: None, spin: 0, refused: false },
            ),
    {
        if self.state == UNLOCKED {
            self.state = LOCKED;
            None
        } else {
            Some(AcquireAttempt::new())
        }
    }

    /// Takes one step towards the mutex.
    pub fn acquire_slow(&mut self, attempt: &mut AcquireAttempt) -> (step: AcquireStep)
        ensures
            acquire_steps(*old(attempt), *final(attempt), old(self).state, final(self).state, step),
            final(self).parker == old(self).parker,
    {
        let seen: u8 = match attempt.state {
            None => {
                return attempt.saw(self.state);
            },
            Some(seen) => seen,
        };
        // Try to get the mutex if it is free.
        if seen & LOCKED == 0 {
            if self.state == seen {
                self.state = seen | LOCKED;
                return AcquireStep::Acquired;
            }
            return attempt.saw(self.state);
        }
        // Yield if the event deems it appropriate.
        if !attempt.refused {
            return AcquireStep::Yield(
                YieldContext { contended: seen & PARKED != 0, iteration: attempt.spin },
            );
        }
        // Mark that there is a parked thread.
        if seen & PARKED == 0 {
            if self.state != seen {
                return attempt.saw(self.state);
            }
            self.state = seen | PARKED;
        }
        AcquireStep::Park
    }

    /// Parks a thread, unless the mutex was released or its mark removed
    /// meanwhile. A thread that parks goes on, once it is woken or gives up
    /// waiting, with `Parker::unparked` or `cancel`.
    pub fn park<M: Memory<Waiter>>(&mut self, memory: &mut M, address: usize) -> (result: Option<
        ParkResult,
    >)
        requires
            old(self).wf(old(memory).nodes()),
            address != 0,
            old(memory).nodes().contains_key(address),
            !old(self).threads(old(memory).nodes()).contains(address),
        ensures
            parks(
                *old(self),
                *final(self),
                old(memory).nodes(),
                final(memory).nodes(),
                address,
                result,
            ),
    {
        let ghost queue = self.threads(memory.nodes());
        let valid = self.state == LOCKED | PARKED;
        let validate = |_others: bool| -> (allowed: bool)
            ensures
                allowed == valid,
        { valid };
        let result = self.parker.park(memory, address, DEFAULT_TOKEN, validate);
        proof {
            if result is None {
                assert forall|i: int| 0 <= i < queue.push(address).len() implies (#[trigger] memory.nodes()[queue.push(
                    address,
                )[i]]).state == WaitState::Parked(DEFAULT_TOKEN) by {
                    if i < queue.len() {
                        assert(queue.contains(queue[i]));
                        assert(queue.push(address)[i] == queue[i]);
                        assert(queue[i] != address);
                    }
                }
            }
        }
        result
    }

    /// Goes on after a thread gave up waiting. Unless it was unparked
    /// meanwhile, it leaves the queue, and if it was the last thread there the
    /// mark is removed.
    pub fn cancel<M: Memory<Waiter>>(&mut self, memory: &mut M, address: usize) -> (result: ParkResult)
        requires
            old(self).wf(old(memory).nodes()),
            old(memory).nodes().contains_key(address),
            old(memory).nodes()[address].state is Parked ==> old(self).threads(
                old(memory).nodes(),
            ).contains(address),
        ensures
            cancels(
                *old(self),
                *final(self),
                old(memory).nodes(),
                final(memory).nodes(),
                address,
                result,
            ),
    {
        let ghost queue = self.threads(memory.nodes());
        let ghost nodes = memory.nodes();
        let result = self.parker.cancel(memory, address, |_others: bool| {});
        match result {
            ParkResult::Cancelled => {
                proof {
                    let left = parker::without(queue, address);
                    let k = queue.index_of(address);
                    assert(queue[k] == address);
                    assert(left.len() == queue.len() - 1);
                    if left.len() > 0 {
                        assert(left[0] != 0);
                    }
                    assert forall|i: int| 0 <= i < left.len() implies (#[trigger] memory.nodes()[left[i]]).state
                        == WaitState::Parked(DEFAULT_TOKEN) by {
                        let j = if i < k {
                            i
                        } else {
                            i + 1
                        };
                        assert(left[i] == queue[j]);
                        assert(nodes[queue[j]].state == WaitState::Parked(DEFAULT_TOKEN));
                    }
                }
                if self.parker.queue == 0 {
                    self.state = self.state & !PARKED;
                }
            },
            _ => {},
        }
        result
    }

    /// Releases the mutex if no thread is parked. Tells whether that was done.
    /// Otherwise the thread goes on with `release_slow`.
    pub fn release(&mut self) -> (done: bool)
        ensures
            done == (old(self).state == LOCKED),
            final(self).state == (if done {
                UNLOCKED
            } else {
                old(self).state
            }),
            final(self).parker == old(self).parker,
    {
        if self.state == LOCKED {
            self.state = UNLOCKED;
            true
        } else {
            false
        }
    }

    /// Releases the mutex and unparks the thread that was parked first, if
    /// there is one. A fair release hands the mutex to that thread. The thread
    /// to be woken once the queue is unlocked comes back.
    pub fn release_slow<M: Memory<Waiter>>(&mut self, memory: &mut M, be_fair: bool) -> (list: WaiterList)
        requires
            old(self).wf(old(memory).nodes()),
        ensures
            releases(
                *old(self),
                *final(self),
                old(memory).nodes(),
                final(memory).nodes(),
                be_fair,
            ),
            list.wf(final(memory).nodes()),
            list@ == (if old(self).threads(old(memory).nodes()).len() == 0 {
                Seq::<usize>::empty()
            } else {
                seq![old(self).threads(old(memory).nodes())[0]]
            }),
    {
        let ghost queue = self.threads(memory.nodes());
        let ghost nodes = memory.nodes();
        let unpark = |_result: UnparkResult, _token: usize| -> (token: usize)
            ensures
                token == release_token(be_fair),
        {
            if be_fair {
                HANDOFF_TOKEN
            } else {
                RETRY_TOKEN
            }
        };
        let callback = |result: UnparkResult| -> (same: UnparkResult)
            ensures
                same == result,
        { result };
        let (result, list) = self.parker.unpark_one(memory, unpark, callback);
        if result.unparked != 0 && be_fair {
            // Keep the mutex held for the unparked thread.
            if !result.has_more {
                self.state = LOCKED;
            }
        } else if result.has_more {
            self.state = PARKED;
        } else {
            self.state = UNLOCKED;
        }
        proof {
            if queue.len() == 0 {
                assert(list@ =~= Seq::<usize>::empty());
            } else {
                let left = queue.drop_first();
                assert forall|i: int| 0 <= i < left.len() implies (#[trigger] memory.nodes()[left[i]]).state
                    == WaitState::Parked(DEFAULT_TOKEN) by {
                    assert(left[i] == queue[i + 1]);
                    assert(nodes[queue[i + 1]].state == WaitState::Parked(DEFAULT_TOKEN));
                    assert(queue[i + 1] != queue[0]);
                }
            }
        }
        list
    }

    /// Tells whether the mutex is to be handed to another thread because there
    /// may be parked threads. If so, the thread goes on with a fair
    /// `release_slow` and then acquires the mutex again.
    pub fn bump(&self) -> (contended: bool)
        ensures
            contended == is_parked(self.state),
    {
        self.state & PARKED != 0
    }
}

} // verus!
