//! Parking for blocking threads and for tasks.
use crate::lock_word;
use crate::lock_word::{
    release, Attempt, AttemptStep, Backoff, Dequeue, DequeuePhase, DequeueStep, MUTEX_LOCK,
};
use crate::queue::{Memory, Node};
use crate::sync::parker;
use crate::sync::parker::{Unparking, Waiter, WaiterList};
use vstd::prelude::*;

verus! {

/// What a thread is parked with.
#[derive(Clone, Copy, PartialEq, Eq, PartialOrd, Ord, Hash, Debug, Structural)]
pub struct ParkToken(pub usize);

/// What a thread is unparked with.
#[derive(Clone, Copy, PartialEq, Eq, PartialOrd, Ord, Hash, Debug, Structural)]
pub struct UnparkToken(pub usize);

/// What came of parking.
#[derive(Clone, Copy, PartialEq, Eq, Hash, Debug, Structural)]
pub enum ParkResult {
    Invalid,
    Cancelled,
    Unparked(UnparkToken),
}

/// What came of unparking.
#[derive(Clone, Copy, PartialEq, Eq, Hash, Debug, Structural)]
pub struct UnparkResult {
    pub unparked: usize,
    pub skipped: usize,
    pub has_more: bool,
}

impl Default for UnparkResult {
    fn default() -> (result: Self)
        ensures
            result == (UnparkResult { unparked: 0, skipped: 0, has_more: false }),
    {
        UnparkResult { unparked: 0, skipped: 0, has_more: false }
    }
}

/// What is to be done with a parked thread.
#[derive(Clone, Copy, PartialEq, Eq, Debug, Structural)]
pub enum UnparkFilter {
    Stop,
    Skip,
    Unpark(UnparkToken),
}

/// How far a parked thread has come.
#[derive(Clone, Copy, PartialEq, Eq, Debug, Structural)]
pub enum ParkState {
    Uninit,
    Waiting,
    Updating,
    Unparking,
    Cancelling,
    Unparked,
}

/// The number of a state.
pub open spec fn number_of(state: ParkState) -> usize {
    match state {
        ParkState::Uninit => 0,
        ParkState::Waiting => 1,
        ParkState::Updating => 2,
        ParkState::Unparking => 3,
        ParkState::Cancelling => 4,
        ParkState::Unparked => 5,
    }
}

impl ParkState {
    /// The state of a number.
    pub fn from(value: usize) -> (state: Self)
        requires
            value <= 5,
        ensures
            number_of(state) == value,
    {
        if value == 0 {
            ParkState::Uninit
        } else if value == 1 {
            ParkState::Waiting
        } else if value == 2 {
            ParkState::Updating
        } else if value == 3 {
            ParkState::Unparking
        } else if value == 4 {
            ParkState::Cancelling
        } else {
            ParkState::Unparked
        }
    }

    /// The number of a state.
    pub fn number(self) -> (value: usize)
        ensures
            value == number_of(self),
    {
        match self {
            ParkState::Uninit => 0,
            ParkState::Waiting => 1,
            ParkState::Updating => 2,
            ParkState::Unparking => 3,
            ParkState::Cancelling => 4,
            ParkState::Unparked => 5,
        }
    }
}

/// Each state has a number of its own.
pub proof fn numbers_tell_states(a: ParkState, b: ParkState)
    ensures
        number_of(a) == number_of(b) <==> a == b,
        number_of(a) <= 5,
{
}

/// The state of a thread that parks, as others see it.
#[derive(Clone, Copy, PartialEq, Eq, Debug, Structural)]
pub struct ParkWaiter {
    pub state: usize,
}

impl ParkWaiter {
    /// A waiter that has no event yet.
    pub fn new() -> (waiter: Self)
        ensures
            waiter.state == number_of(ParkState::Uninit),
    {
        ParkWaiter { state: ParkState::Uninit.number() }
    }

    /// Tells whether the event was made and has to be dropped with the waiter.
    pub fn has_event(&self) -> (made: bool)
        requires
            self.state <= 5,
        ensures
            made == (self.state != number_of(ParkState::Uninit)),
    {
        match ParkState::from(self.state) {
            ParkState::Uninit => false,
            _ => true,
        }
    }

    /// Tells whether a waiter that is dropped has to be cancelled first.
    pub fn needs_cancel(&self) -> (waiting: bool)
        requires
            self.state <= 5,
        ensures
            waiting == (self.state == number_of(ParkState::Waiting)),
    {
        match ParkState::from(self.state) {
            ParkState::Waiting => true,
            _ => false,
        }
    }

    /// Cancels a waiter, unless it was unparked meanwhile. Tells whether it was
    /// cancelled.
    pub fn cancel_park(&mut self) -> (cancelled: bool)
        requires
            old(self).state == number_of(ParkState::Waiting) || old(self).state == number_of(
                ParkState::Unparked,
            ),
        ensures
            cancelled == (old(self).state == number_of(ParkState::Waiting)),
            final(self).state == (if cancelled {
                number_of(ParkState::Cancelling)
            } else {
                old(self).state
            }),
    {
        if self.state == ParkState::Waiting.number() {
            self.state = ParkState::Cancelling.number();
            true
        } else {
            false
        }
    }
}

/// The decision in terms of plain tokens.
pub open spec fn plain(filter: UnparkFilter) -> parker::UnparkFilter {
    match filter {
        UnparkFilter::Stop => parker::UnparkFilter::Stop,
        UnparkFilter::Skip => parker::UnparkFilter::Skip,
        UnparkFilter::Unpark(UnparkToken(token)) => parker::UnparkFilter::Unpark(token),
    }
}

/// The decisions in terms of plain tokens.
pub open spec fn all_plain(filters: Seq<UnparkFilter>) -> Seq<parker::UnparkFilter> {
    filters.map_values(|filter: UnparkFilter| plain(filter))
}

/// The answers of a filter on the threads of `queue`, from the first on, up to
/// the last thread or the first stop.
pub open spec fn decides<F: FnMut(ParkToken) -> UnparkFilter>(
    filter: F,
    nodes: Map<usize, Waiter>,
    queue: Seq<usize>,
    filters: Seq<UnparkFilter>,
) -> bool {
    &&& filters.len() <= queue.len()
    &&& answers(filter, nodes, queue, filters)
    &&& filters.len() < queue.len() ==> filters.len() > 0 && filters.last() is Stop
}

/// Each answer is one of the filter, and only the last may be to stop.
pub open spec fn answers<F: FnMut(ParkToken) -> UnparkFilter>(
    filter: F,
    nodes: Map<usize, Waiter>,
    queue: Seq<usize>,
    filters: Seq<UnparkFilter>,
) -> bool {
    &&& forall|i: int|
        0 <= i < filters.len() ==> call_ensures(
            filter,
            (ParkToken(parker::token_of(nodes, queue[i])),),
            #[trigger] filters[i],
        )
    &&& forall|i: int| 0 <= i < filters.len() - 1 ==> !(#[trigger] filters[i] is Stop)
}

/// A parking lot: parked threads and the word of the lock under which they are
/// changed. Each method is one atomic step on the word, or what a thread does
/// while it holds the lock.
pub struct Parker {
    pub state: usize,
    pub queue: parker::Parker,
}

impl Parker {
    /// A parking lot without threads.
    pub fn new() -> (parker: Self)
        ensures
            parker.state == 0,
            parker.queue.queue == 0,
    {
        Parker { state: 0, queue: parker::Parker::new() }
    }

    /// Takes the lock if it is free and nobody waits for it. Otherwise an
    /// attempt comes back, which has seen the word already and goes on in
    /// `lock_slow`.
    pub fn lock(&mut self) -> (attempt: Option<Attempt>)
        ensures
            final(self).queue == old(self).queue,
            old(self).state == 0 ==> attempt is None && final(self).state == MUTEX_LOCK,
            old(self).state != 0 ==> final(self).state == old(self).state && attempt == Some(
                Attempt {
                    state: Some(old(self).state),
                    spin: 0,
                    refused: false,
                    node: None,
                    queued: false,
                    backoff: Backoff::Ask,
                },
            ),
    {
        if self.state == 0 {
            self.state = MUTEX_LOCK;
            None
        } else {
            let mut attempt = Attempt::new(Backoff::Ask);
            attempt.state = Some(self.state);
            Some(attempt)
        }
    }

    /// Takes one step towards the lock.
    pub fn lock_slow<M: Memory<Node>>(&mut self, attempt: &mut Attempt, memory: &mut M) -> (step: AttemptStep)
        requires
            old(attempt).ready(old(memory).nodes()),
        ensures
            final(self).queue == old(self).queue,
            lock_word::attempt_steps(
                *old(attempt),
                *final(attempt),
                old(self).state,
                final(self).state,
                old(memory).nodes(),
                final(memory).nodes(),
                step,
            ),
    {
        attempt.step(&mut self.state, memory)
    }

    /// Releases the lock. If there is a node to wake, the thread goes on in
    /// `unlock_slow` with the value that comes back, which has seen the word as
    /// it was left.
    pub fn unlock(&mut self) -> (dequeue: Option<Dequeue>)
        requires
            lock_word::is_locked(old(self).state),
        ensures
            final(self).queue == old(self).queue,
            final(self).state == lock_word::without_lock(old(self).state),
            dequeue is Some <==> lock_word::head_of(old(self).state) != 0
                && !lock_word::is_queue_locked(old(self).state),
            dequeue matches Some(d) ==> d == (Dequeue {
                state: Some(final(self).state),
                phase: DequeuePhase::LockQueue,
                sees_own_flag: true,
            }),
    {
        if release(&mut self.state) {
            let mut dequeue = Dequeue::new(true);
            dequeue.state = Some(self.state);
            Some(dequeue)
        } else {
            None
        }
    }

    /// Takes one step towards waking the first thread that waits for the lock.
    pub fn unlock_slow<M: Memory<Node>>(&mut self, dequeue: &mut Dequeue, memory: &mut M) -> (step: DequeueStep)
        requires
            old(dequeue).ready(old(memory).nodes()),
        ensures
            final(self).queue == old(self).queue,
            lock_word::dequeue_steps(
                *old(dequeue),
                *final(dequeue),
                old(self).state,
                final(self).state,
                old(memory).nodes(),
                final(memory).nodes(),
                step,
            ),
    {
        dequeue.step(&mut self.state, memory)
    }

    /// Parks a thread behind all others, if `validate` allows it.
    pub fn park<M: Memory<Waiter>, V: FnOnce() -> bool>(
        &mut self,
        memory: &mut M,
        address: usize,
        token: ParkToken,
        validate: V,
    ) -> (result: Option<ParkResult>)
        requires
            old(self).queue.wf(old(memory).nodes()),
            address != 0,
            old(memory).nodes().contains_key(address),
            !old(self).queue.threads(old(memory).nodes()).contains(address),
            call_requires(validate, ()),
        ensures
            final(self).state == old(self).state,
            final(self).queue.wf(final(memory).nodes()),
            result is None ==> {
                &&& call_ensures(validate, (), true)
                &&& final(self).queue.threads(final(memory).nodes()) == old(self).queue.threads(
                    old(memory).nodes(),
                ).push(address)
                &&& final(memory).nodes()[address].state == parker::WaitState::Parked(token.0)
                &&& final(memory).nodes().dom() =~= old(memory).nodes().dom()
                &&& forall|a: usize|
                    a != address ==> (#[trigger] final(memory).nodes()[a]).state
                        == old(memory).nodes()[a].state
            },
            result matches Some(r) ==> {
                &&& call_ensures(validate, (), false)
                &&& r == ParkResult::Invalid
                &&& final(self).queue == old(self).queue
                &&& final(memory).nodes() == old(memory).nodes()
            },
    {
        if !validate() {
            return Some(ParkResult::Invalid);
        }
        let always = |_others: bool| -> (allowed: bool)
            ensures
                allowed,
        { true };
        let _parked = self.queue.park(memory, address, token.0, always);
        None
    }

    /// Unparks threads, from the one parked first on, as `filter` decides, and
    /// tells `callback` what came of it. The threads that are to be woken once
    /// the lock is released come back. There is more if not all threads were
    /// looked at.
    pub fn unpark<M: Memory<Waiter>, F: FnMut(ParkToken) -> UnparkFilter, C: FnOnce(UnparkResult)>(
        &mut self,
        memory: &mut M,
        filter: F,
        callback: C,
    ) -> (output: (UnparkResult, WaiterList))
        requires
            old(self).queue.wf(old(memory).nodes()),
            forall|token: ParkToken| #[trigger] call_requires(filter, (token,)),
            forall|result: UnparkResult| #[trigger] call_requires(callback, (result,)),
        ensures
            final(self).state == old(self).state,
            final(self).queue.wf(final(memory).nodes()),
            output.1.wf(final(memory).nodes()),
            call_ensures(callback, (output.0,), ()),
            exists|filters: Seq<UnparkFilter>| #[trigger]
                decides(
                    filter,
                    old(memory).nodes(),
                    old(self).queue.threads(old(memory).nodes()),
                    filters,
                ) && unparks(
                    old(self).queue.threads(old(memory).nodes()),
                    final(self).queue.threads(final(memory).nodes()),
                    old(memory).nodes(),
                    final(memory).nodes(),
                    filters,
                    output.0,
                    output.1@,
                ),
    {
        let ghost before = memory.nodes();
        let ghost queue = self.queue.threads(before);
        let ghost asked = filter;
        let ghost mut filters: Seq<UnparkFilter> = Seq::empty();
        let mut filter = filter;
        let mut walk = Unparking::new(&self.queue, memory);
        assert(all_plain(filters) =~= walk.decisions@);
        while walk.goes_on()
            invariant
                filter == asked,
                forall|token: ParkToken| #[trigger] call_requires(asked, (token,)),
                self.state == old(self).state,
                walk.wf(self.queue, memory.nodes()),
                walk.nodes@ == before,
                walk.queue@ == queue,
                walk.decisions@ == all_plain(filters),
                answers(asked, before, queue, filters),
            decreases queue.len() - walk.decisions@.len(),
        {
            let (_result, token) = walk.ask(&self.queue, memory);
            let answer = filter(ParkToken(token));
            let decision = match answer {
                UnparkFilter::Stop => parker::UnparkFilter::Stop,
                UnparkFilter::Skip => parker::UnparkFilter::Skip,
                UnparkFilter::Unpark(UnparkToken(token)) => parker::UnparkFilter::Unpark(token),
            };
            proof {
                let more = filters.push(answer);
                assert(all_plain(more) =~= all_plain(filters).push(plain(answer)));
                assert forall|i: int| 0 <= i < more.len() implies call_ensures(
                    asked,
                    (ParkToken(parker::token_of(before, queue[i])),),
                    #[trigger] more[i],
                ) by {
                    if i < filters.len() {
                        assert(more[i] == filters[i]);
                    }
                }
                assert forall|i: int| 0 <= i < more.len() - 1 implies !(#[trigger] more[i] is Stop) by {
                    assert(more[i] == filters[i]);
                    if i == filters.len() - 1 {
                        assert(all_plain(filters).last() == plain(filters[i]));
                    }
                }
                filters = more;
            }
            walk.decide(&mut self.queue, memory, decision);
        }
        let result = UnparkResult {
            unparked: walk.result.unparked,
            skipped: walk.result.skipped,
            has_more: walk.result.has_more,
        };
        proof {
            if filters.len() > 0 {
                assert(all_plain(filters).last() == plain(filters.last()));
            }
            assert(decides(asked, before, queue, filters));
        }
        callback(result);
        (result, walk.list)
    }
}

/// What the answers of a filter make of the parked threads `queue`.
pub open spec fn unparks(
    queue: Seq<usize>,
    new_queue: Seq<usize>,
    nodes: Map<usize, Waiter>,
    new_nodes: Map<usize, Waiter>,
    filters: Seq<UnparkFilter>,
    result: UnparkResult,
    list: Seq<usize>,
) -> bool {
    let decisions = all_plain(filters);
    &&& parker::decided(nodes, new_nodes, queue, decisions)
    &&& new_queue == parker::left_parked(queue, decisions)
    &&& list == parker::woken(queue, decisions)
    &&& result.unparked == parker::outcome(queue, decisions).unparked
    &&& result.skipped == parker::outcome(queue, decisions).skipped
    &&& result.has_more == (filters.len() < queue.len())
}

/// An attempt that has seen the word already is one that began without and took
/// its first step, and so is a waking. With that, what holds of many threads on a
/// lock word holds of those on a parking lot.
pub proof fn seen_is_first_step(word: usize, nodes: Map<usize, Node>, attempt: Attempt, dequeue: Dequeue)
    requires
        attempt.state == Some(word),
        !attempt.refused,
        dequeue.state == Some(word),
        dequeue.phase == DequeuePhase::LockQueue,
    ensures
        lock_word::attempt_steps(
            Attempt { state: None, ..attempt },
            attempt,
            word,
            word,
            nodes,
            nodes,
            AttemptStep::Continue,
        ),
        lock_word::dequeue_steps(
            Dequeue { state: None, ..dequeue },
            dequeue,
            word,
            word,
            nodes,
            nodes,
            DequeueStep::Continue,
        ),
{
}

} // verus!
