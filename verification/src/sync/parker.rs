//! Parking threads until other threads unpark them.
//!
//! The parked threads stand in a queue, from the one parked first to the one
//! parked last. Each method here is what a thread does while it holds the lock
//! of the queue.
use crate::queue::Memory;
use vstd::prelude::*;

verus! {

/// Why a thread came back from parking.
#[derive(Clone, Copy, PartialEq, Eq, Hash, Debug, Structural)]
pub enum ParkResult {
    /// The thread was not to park.
    Invalid,
    /// The thread gave up waiting.
    Cancelled,
    /// The thread was unparked with this token.
    Unparked(usize),
}

/// What is to happen to a parked thread.
#[derive(Clone, Copy, PartialEq, Eq, Hash, Debug, Structural)]
pub enum UnparkFilter {
    /// It stays parked and no other thread is looked at.
    Stop,
    /// It stays parked.
    Skip,
    /// It is unparked with this token.
    Unpark(usize),
}

/// What came of unparking.
#[derive(Clone, Copy, PartialEq, Eq, Debug, Structural)]
pub struct UnparkResult {
    /// How many threads were unparked.
    pub unparked: usize,
    /// How many threads were skipped.
    pub skipped: usize,
    /// There are more threads.
    pub has_more: bool,
}

/// The state of a waiting thread with its token.
#[derive(Clone, Copy, PartialEq, Eq, Debug, Structural)]
pub enum WaitState {
    Parked(usize),
    Unparked(usize),
}

/// A waiting thread. Links are addresses, and address zero is the null link.
#[derive(Clone, Copy, PartialEq, Eq, Debug, Structural)]
pub struct Waiter {
    pub state: WaitState,
    /// The thread parked before this one.
    pub prev: usize,
    /// The thread parked after this one.
    pub next: usize,
    /// The thread parked last, in the thread parked first.
    pub tail: usize,
}

/// The queue of parked threads.
pub struct Parker {
    /// The thread parked first, or null.
    pub queue: usize,
}

/// The address at position `i`, or null outside of the queue.
pub open spec fn at(queue: Seq<usize>, i: int) -> usize {
    if 0 <= i < queue.len() {
        queue[i]
    } else {
        0
    }
}

/// `head` leads to exactly the threads of `queue`, from the one parked first to
/// the one parked last, and all of them are parked.
pub open spec fn is_list(nodes: Map<usize, Waiter>, head: usize, queue: Seq<usize>) -> bool {
    &&& head == at(queue, 0)
    &&& queue.no_duplicates()
    &&& queue.len() > 0 ==> nodes[queue[0]].tail == queue.last()
    &&& forall|i: int|
        0 <= i < queue.len() ==> (#[trigger] queue[i]) != 0 && nodes.contains_key(queue[i])
    &&& forall|i: int|
        0 <= i < queue.len() ==> {
            &&& (#[trigger] nodes[queue[i]]).state is Parked
            &&& nodes[queue[i]].next == at(queue, i + 1)
            &&& nodes[queue[i]].prev == at(queue, i - 1)
        }
}

/// A head leads to one list only.
pub proof fn list_is_unique(nodes: Map<usize, Waiter>, head: usize, p: Seq<usize>, q: Seq<usize>)
    requires
        is_list(nodes, head, p),
        is_list(nodes, head, q),
    ensures
        p == q,
{
    lemma_same_list(nodes, head, p, q, p.len() as int);
    lemma_same_list(nodes, head, q, p, q.len() as int);
    assert(p =~= q);
}

proof fn lemma_same_list(nodes: Map<usize, Waiter>, head: usize, p: Seq<usize>, q: Seq<usize>, n: int)
    requires
        is_list(nodes, head, p),
        is_list(nodes, head, q),
        0 <= n <= p.len(),
    ensures
        n <= q.len(),
        forall|i: int| 0 <= i < n ==> #[trigger] p[i] == q[i],
    decreases n,
{
    if n > 0 {
        lemma_same_list(nodes, head, p, q, n - 1);
        assert(p[n - 1] != 0);
        if n > 1 {
            assert(p[n - 2] == q[n - 2]);
            assert(nodes[p[n - 2]].next == at(p, n - 1));
            assert(nodes[q[n - 2]].next == at(q, n - 1));
        }
        assert(at(p, n - 1) == at(q, n - 1));
    }
}

/// The parked threads that `head` leads to.
pub open spec fn parked(nodes: Map<usize, Waiter>, head: usize) -> Seq<usize> {
    choose|queue: Seq<usize>| is_list(nodes, head, queue)
}

/// `head` leads to a list.
pub open spec fn has_list(nodes: Map<usize, Waiter>, head: usize) -> bool {
    exists|queue: Seq<usize>| is_list(nodes, head, queue)
}

/// What leads to a list leads to its threads.
pub proof fn parked_of(nodes: Map<usize, Waiter>, head: usize, queue: Seq<usize>)
    requires
        is_list(nodes, head, queue),
    ensures
        has_list(nodes, head),
        parked(nodes, head) == queue,
{
    list_is_unique(nodes, head, queue, parked(nodes, head));
}

/// Only links of threads in `queue` and of `other` may differ, and no state.
pub open spec fn only_links(before: Map<usize, Waiter>, after: Map<usize, Waiter>, queue: Seq<usize>) -> bool {
    &&& after.dom() =~= before.dom()
    &&& forall|a: usize| !queue.contains(a) ==> #[trigger] after[a] == before[a]
    &&& forall|a: usize| (#[trigger] after[a]).state == before[a].state
}

/// The queue without one of its threads.
pub open spec fn without(queue: Seq<usize>, address: usize) -> Seq<usize> {
    queue.remove(queue.index_of(address))
}

/// Where the neighbours of a thread are linked to each other, and the first
/// thread knows the last, the other threads are a list.
proof fn removal_keeps_list(before: Map<usize, Waiter>, after: Map<usize, Waiter>, queue: Seq<usize>, i: int)
    requires
        queue.len() > 0,
        is_list(before, queue[0], queue),
        0 <= i < queue.len(),
        after.dom() =~= before.dom(),
        forall|a: usize| (#[trigger] after[a]).state == before[a].state,
        forall|j: int|
            0 <= j < queue.len() && j != i && j != i + 1 ==> (#[trigger] after[queue[j]]).prev
                == before[queue[j]].prev,
        forall|j: int|
            0 <= j < queue.len() && j != i && j != i - 1 ==> (#[trigger] after[queue[j]]).next
                == before[queue[j]].next,
        i > 0 ==> after[queue[i - 1]].next == at(queue, i + 1),
        i + 1 < queue.len() ==> after[queue[i + 1]].prev == at(queue, i - 1),
        i == 0 && queue.len() > 1 ==> after[queue[1]].tail == queue.last(),
        i > 0 ==> after[queue[0]].tail == (if i == queue.len() - 1 {
            queue[i - 1]
        } else {
            queue.last()
        }),
    ensures
        is_list(after, at(queue.remove(i), 0), queue.remove(i)),
{
    let shorter = queue.remove(i);
    assert forall|k: int| 0 <= k < shorter.len() implies (#[trigger] shorter[k]) != 0 && after.contains_key(shorter[k]) by {
        assert(shorter[k] == queue[if k < i { k } else { k + 1 }]);
    }
    assert forall|k: int| 0 <= k < shorter.len() implies {
        &&& (#[trigger] after[shorter[k]]).state is Parked
        &&& after[shorter[k]].next == at(shorter, k + 1)
        &&& after[shorter[k]].prev == at(shorter, k - 1)
    } by {
        let j = if k < i {
            k
        } else {
            k + 1
        };
        assert(shorter[k] == queue[j]);
        assert(before[queue[j]].next == at(queue, j + 1));
        assert(before[queue[j]].prev == at(queue, j - 1));
        assert(at(shorter, k + 1) == (if k + 1 < i {
            at(queue, k + 1)
        } else {
            at(queue, k + 2)
        }));
        assert(at(shorter, k - 1) == (if k - 1 < i {
            at(queue, k - 1)
        } else {
            at(queue, k)
        }));
    }
    assert forall|k: int, l: int| 0 <= k < shorter.len() && 0 <= l < shorter.len() && k != l implies shorter[k] != shorter[l] by {
        assert(shorter[k] == queue[if k < i { k } else { k + 1 }]);
        assert(shorter[l] == queue[if l < i { l } else { l + 1 }]);
    }
}

impl Parker {
    /// A parker without threads.
    pub fn new() -> (parker: Self)
        ensures
            parker.queue == 0,
    {
        Parker { queue: 0 }
    }

    /// The queue is in order.
    pub open spec fn wf(self, nodes: Map<usize, Waiter>) -> bool {
        has_list(nodes, self.queue)
    }

    /// The parked threads, from the one parked first to the one parked last.
    pub open spec fn threads(self, nodes: Map<usize, Waiter>) -> Seq<usize> {
        parked(nodes, self.queue)
    }

    /// Parks a thread behind all others, if `validate` allows it. It is told
    /// whether others are parked. A thread that parks goes on, once it is woken
    /// or gives up waiting, with `unparked` or `cancel`.
    pub fn park<M: Memory<Waiter>, V: FnOnce(bool) -> bool>(
        &mut self,
        memory: &mut M,
        address: usize,
        token: usize,
        validate: V,
    ) -> (result: Option<ParkResult>)
        requires
            old(self).wf(old(memory).nodes()),
            address != 0,
            old(memory).nodes().contains_key(address),
            !old(self).threads(old(memory).nodes()).contains(address),
            call_requires(validate, (old(self).queue != 0,)),
        ensures
            final(self).wf(final(memory).nodes()),
            result is None ==> {
                &&& call_ensures(validate, (old(self).queue != 0,), true)
                &&& final(self).threads(final(memory).nodes()) == old(self).threads(
                    old(memory).nodes(),
                ).push(address)
                &&& final(memory).nodes()[address].state == WaitState::Parked(token)
                &&& final(memory).nodes().dom() =~= old(memory).nodes().dom()
                &&& forall|a: usize|
                    a != address ==> (#[trigger] final(memory).nodes()[a]).state
                        == old(memory).nodes()[a].state
                &&& forall|a: usize|
                    a != address && !old(self).threads(old(memory).nodes()).contains(a)
                        ==> #[trigger] final(memory).nodes()[a] == old(memory).nodes()[a]
            },
            result matches Some(r) ==> {
                &&& call_ensures(validate, (old(self).queue != 0,), false)
                &&& r == ParkResult::Invalid
                &&& final(self).queue == old(self).queue
                &&& final(memory).nodes() == old(memory).nodes()
            },
    {
        let ghost before = memory.nodes();
        let ghost queue = self.threads(before);
        let head = self.queue;
        if !validate(head != 0) {
            return Some(ParkResult::Invalid);
        }
        let mut prev: usize = 0;
        if head != 0 {
            let first = memory.read(head);
            prev = first.tail;
            assert(queue.last() == queue[queue.len() - 1]);
            assert(prev == queue.last());
            memory.write(
                head,
                Waiter { state: first.state, prev: first.prev, next: first.next, tail: address },
            );
            let last = memory.read(prev);
            memory.write(
                prev,
                Waiter { state: last.state, prev: last.prev, next: address, tail: last.tail },
            );
        } else {
            self.queue = address;
        }
        memory.write(
            address,
            Waiter { state: WaitState::Parked(token), prev, next: 0, tail: address },
        );
        proof {
            let after = memory.nodes();
            let longer = queue.push(address);
            assert(forall|i: int| 0 <= i < queue.len() ==> queue.contains(#[trigger] queue[i]));
            assert forall|i: int| 0 <= i < longer.len() implies (#[trigger] longer[i]) != 0
                && after.contains_key(longer[i]) by {
                if i < queue.len() {
                    assert(longer[i] == queue[i]);
                }
            }
            assert forall|i: int| 0 <= i < longer.len() implies {
                &&& (#[trigger] after[longer[i]]).state is Parked
                &&& after[longer[i]].next == at(longer, i + 1)
                &&& after[longer[i]].prev == at(longer, i - 1)
            } by {
                if i < queue.len() {
                    assert(longer[i] == queue[i]);
                    assert(queue.contains(queue[i]));
                    assert(before[queue[i]].next == at(queue, i + 1));
                    assert(before[queue[i]].prev == at(queue, i - 1));
                    if i < queue.len() - 1 {
                        assert(queue[i] != queue[queue.len() - 1]);
                    }
                }
            }
            assert(is_list(after, self.queue, longer));
            parked_of(after, self.queue, longer);
        }
        None
    }

    /// The result of a thread that was woken.
    pub fn unparked<M: Memory<Waiter>>(memory: &M, address: usize) -> (result: ParkResult)
        requires
            memory.nodes().contains_key(address),
            memory.nodes()[address].state is Unparked,
        ensures
            result == ParkResult::Unparked(memory.nodes()[address].state->Unparked_0),
    {
        match memory.read(address).state {
            WaitState::Unparked(token) => ParkResult::Unparked(token),
            WaitState::Parked(_) => vstd::pervasive::unreached(),
        }
    }

    /// The result of a thread that gave up waiting. Unless it was unparked
    /// meanwhile, it leaves the queue, and `cancel` is told whether others are
    /// still parked.
    pub fn cancel<M: Memory<Waiter>, C: FnOnce(bool)>(
        &mut self,
        memory: &mut M,
        address: usize,
        cancel: C,
    ) -> (result: ParkResult)
        requires
            old(self).wf(old(memory).nodes()),
            old(memory).nodes().contains_key(address),
            old(memory).nodes()[address].state is Parked ==> old(self).threads(
                old(memory).nodes(),
            ).contains(address),
            forall|has_more: bool| #[trigger] call_requires(cancel, (has_more,)),
        ensures
            final(self).wf(final(memory).nodes()),
            match old(memory).nodes()[address].state {
                WaitState::Unparked(token) => {
                    &&& result == ParkResult::Unparked(token)
                    &&& final(self).queue == old(self).queue
                    &&& final(memory).nodes() == old(memory).nodes()
                },
                WaitState::Parked(_) => {
                    &&& result == ParkResult::Cancelled
                    &&& final(self).threads(final(memory).nodes()) == without(
                        old(self).threads(old(memory).nodes()),
                        address,
                    )
                    &&& only_links(
                        old(memory).nodes(),
                        final(memory).nodes(),
                        old(self).threads(old(memory).nodes()),
                    )
                    &&& call_ensures(
                        cancel,
                        (final(self).threads(final(memory).nodes()).len() > 0,),
                        (),
                    )
                },
            },
    {
        match memory.read(address).state {
            WaitState::Unparked(token) => ParkResult::Unparked(token),
            WaitState::Parked(_) => {
                self.remove(memory, address);
                cancel(self.queue != 0);
                ParkResult::Cancelled
            },
        }
    }

    /// Unparks threads, from the one parked first on, as `filter` decides.
    /// `callback` is told what came of it. Its result comes back with the
    /// threads that are to be woken once the queue is unlocked.
    pub fn unpark<
        T,
        M: Memory<Waiter>,
        F: FnMut(UnparkResult, usize) -> UnparkFilter,
        C: FnOnce(UnparkResult) -> T,
    >(&mut self, memory: &mut M, filter: F, callback: C) -> (output: (T, WaiterList))
        requires
            old(self).wf(old(memory).nodes()),
            forall|result: UnparkResult, token: usize| #[trigger]
                call_requires(filter, (result, token)),
            forall|result: UnparkResult| #[trigger] call_requires(callback, (result,)),
        ensures
            final(self).wf(final(memory).nodes()),
            output.1.wf(final(memory).nodes()),
            exists|decisions: Seq<UnparkFilter>| #[trigger]
                decides(
                    filter,
                    old(memory).nodes(),
                    old(self).threads(old(memory).nodes()),
                    decisions,
                ) && decided(
                    old(memory).nodes(),
                    final(memory).nodes(),
                    old(self).threads(old(memory).nodes()),
                    decisions,
                ) && final(self).threads(final(memory).nodes()) == left_parked(
                    old(self).threads(old(memory).nodes()),
                    decisions,
                ) && output.1@ == woken(old(self).threads(old(memory).nodes()), decisions)
                    && call_ensures(
                    callback,
                    (outcome(old(self).threads(old(memory).nodes()), decisions),),
                    output.0,
                ),
    {
        let ghost before = memory.nodes();
        let ghost queue = self.threads(before);
        let ghost asked = filter;
        let mut filter = filter;
        let mut walk = Unparking::new(self, memory);
        while walk.goes_on()
            invariant
                filter == asked,
                forall|result: UnparkResult, token: usize| #[trigger]
                    call_requires(asked, (result, token)),
                walk.wf(*self, memory.nodes()),
                walk.nodes@ == before,
                walk.queue@ == queue,
                answers(asked, before, queue, walk.decisions@),
            decreases queue.len() - walk.decisions@.len(),
        {
            let ghost decisions = walk.decisions@;
            let (result, token) = walk.ask(self, memory);
            let decision = filter(result, token);
            proof {
                answer_counts(asked, before, queue, decisions, decision);
            }
            walk.decide(self, memory, decision);
        }
        let ghost decisions = walk.decisions@;
        let mut result = walk.result;
        result.has_more = self.queue != 0;
        proof {
            assert(decides(asked, before, queue, decisions));
            let left = left_parked(queue, decisions);
            assert(result == outcome(queue, decisions)) by {
                if left.len() > 0 {
                    assert(left[0] != 0);
                }
            }
        }
        (callback(result), walk.list)
    }

    /// Unparks the thread that was parked first, if there is one. `unpark`
    /// gives its token, and `callback` is told what came of it.
    pub fn unpark_one<
        T,
        M: Memory<Waiter>,
        F: FnOnce(UnparkResult, usize) -> usize,
        C: FnOnce(UnparkResult) -> T,
    >(&mut self, memory: &mut M, unpark: F, callback: C) -> (output: (T, WaiterList))
        requires
            old(self).wf(old(memory).nodes()),
            forall|result: UnparkResult, token: usize| #[trigger]
                call_requires(unpark, (result, token)),
            forall|result: UnparkResult| #[trigger] call_requires(callback, (result,)),
        ensures
            final(self).wf(final(memory).nodes()),
            output.1.wf(final(memory).nodes()),
            ({
                let queue = old(self).threads(old(memory).nodes());
                if queue.len() == 0 {
                    &&& final(self).threads(final(memory).nodes()) == queue
                    &&& final(memory).nodes() == old(memory).nodes()
                    &&& output.1@ == queue
                    &&& call_ensures(
                        callback,
                        (UnparkResult { unparked: 0, skipped: 0, has_more: false },),
                        output.0,
                    )
                } else {
                    &&& final(self).threads(final(memory).nodes()) == queue.drop_first()
                    &&& output.1@ == seq![queue[0]]
                    &&& final(memory).nodes().dom() =~= old(memory).nodes().dom()
                    &&& forall|a: usize|
                        !queue.contains(a) ==> #[trigger] final(memory).nodes()[a]
                            == old(memory).nodes()[a]
                    &&& forall|a: usize|
                        a != queue[0] ==> (#[trigger] final(memory).nodes()[a]).state
                            == old(memory).nodes()[a].state
                    &&& final(memory).nodes()[queue[0]].state is Unparked
                    &&& call_ensures(
                        unpark,
                        (
                            UnparkResult { unparked: 0, skipped: 0, has_more: queue.len() > 1 },
                            token_of(old(memory).nodes(), queue[0]),
                        ),
                        final(memory).nodes()[queue[0]].state->Unparked_0,
                    )
                    &&& call_ensures(
                        callback,
                        (UnparkResult { unparked: 1, skipped: 0, has_more: queue.len() > 1 },),
                        output.0,
                    )
                }
            }),
    {
        let ghost queue = self.threads(memory.nodes());
        let mut list = WaiterList::new();
        let mut result = UnparkResult { unparked: 0, skipped: 0, has_more: false };
        let address = self.queue;
        if address != 0 {
            proof {
                assert(memory.nodes()[queue[0]].next == at(queue, 1));
                if queue.len() > 1 {
                    assert(queue[1] != 0);
                }
                assert(queue.contains(queue[0]));
                assert(queue.index_of(address) == 0);
                assert(queue.remove(0) =~= queue.drop_first());
            }
            let waiter = memory.read(address);
            result.has_more = waiter.next != 0;
            let token = match waiter.state {
                WaitState::Parked(token) => token,
                WaitState::Unparked(_) => vstd::pervasive::unreached(),
            };
            let new_token = unpark(result, token);
            result.unparked = 1;
            self.take(memory, address, new_token, &mut list);
            assert(list@ =~= seq![queue[0]]);
        }
        result.has_more = self.queue != 0;
        (callback(result), list)
    }

    /// Unparks all threads, from the one parked first on. `unpark` gives their
    /// tokens, and `callback` is told what came of it.
    pub fn unpark_all<
        T,
        M: Memory<Waiter>,
        F: FnMut(UnparkResult, usize) -> usize,
        C: FnOnce(UnparkResult) -> T,
    >(&mut self, memory: &mut M, mut unpark: F, callback: C) -> (output: (T, WaiterList))
        requires
            old(self).wf(old(memory).nodes()),
            forall|result: UnparkResult, token: usize| #[trigger]
                call_requires(unpark, (result, token)),
            forall|result: UnparkResult| #[trigger] call_requires(callback, (result,)),
        ensures
            final(self).wf(final(memory).nodes()),
            output.1.wf(final(memory).nodes()),
            final(self).threads(final(memory).nodes()) == Seq::<usize>::empty(),
            output.1@ == old(self).threads(old(memory).nodes()),
            final(memory).nodes().dom() =~= old(memory).nodes().dom(),
            forall|a: usize|
                !old(self).threads(old(memory).nodes()).contains(a)
                    ==> #[trigger] final(memory).nodes()[a] == old(memory).nodes()[a],
            forall|i: int|
                0 <= i < output.1@.len() ==> (#[trigger] final(memory).nodes()[output.1@[i]]).state
                    is Unparked && call_ensures(
                    unpark,
                    (
                        UnparkResult {
                            unparked: i as usize,
                            skipped: 0,
                            has_more: i + 1 < output.1@.len(),
                        },
                        token_of(old(memory).nodes(), output.1@[i]),
                    ),
                    final(memory).nodes()[output.1@[i]].state->Unparked_0,
                ),
            call_ensures(
                callback,
                (UnparkResult {
                    unparked: output.1@.len() as usize,
                    skipped: 0,
                    has_more: false,
                },),
                output.0,
            ),
    {
        let ghost before = memory.nodes();
        let ghost queue = self.threads(before);
        let ghost asked = unpark;
        let mut list = WaiterList::new();
        let mut result = UnparkResult { unparked: 0, skipped: 0, has_more: false };
        proof {
            threads_are_countable(queue);
            assert(queue.skip(0) =~= queue);
            assert(queue.take(0) =~= Seq::<usize>::empty());
        }
        while self.queue != 0
            invariant
                unpark == asked,
                forall|result: UnparkResult, token: usize| #[trigger]
                    call_requires(asked, (result, token)),
                is_list(before, at(queue, 0), queue),
                queue.len() <= usize::MAX,
                self.wf(memory.nodes()),
                list.wf(memory.nodes()),
                result.unparked <= queue.len(),
                result.skipped == 0,
                self.threads(memory.nodes()) == queue.skip(result.unparked as int),
                list@ == queue.take(result.unparked as int),
                memory.nodes().dom() =~= before.dom(),
                forall|a: usize|
                    !queue.contains(a) ==> #[trigger] memory.nodes()[a] == before[a],
                forall|i: int|
                    result.unparked <= i < queue.len() ==> (#[trigger] memory.nodes()[queue[i]]).state
                        == before[queue[i]].state,
                forall|i: int|
                    0 <= i < result.unparked ==> (#[trigger] memory.nodes()[queue[i]]).state
                        is Unparked && call_ensures(
                        asked,
                        (
                            UnparkResult {
                                unparked: i as usize,
                                skipped: 0,
                                has_more: i + 1 < queue.len(),
                            },
                            token_of(before, queue[i]),
                        ),
                        memory.nodes()[queue[i]].state->Unparked_0,
                    ),
            decreases queue.len() - result.unparked,
        {
            let ghost n = result.unparked as int;
            let ghost left = self.threads(memory.nodes());
            let ghost nodes = memory.nodes();
            let address = self.queue;
            proof {
                assert(left[0] == queue[n]);
                assert(nodes[left[0]].next == at(left, 1));
                if n + 1 < queue.len() {
                    assert(left[1] == queue[n + 1]);
                    assert(queue[n + 1] != 0);
                }
                assert(left.contains(left[0]));
                assert(left.index_of(address) == 0);
                assert(left.remove(0) =~= queue.skip(n + 1));
                assert(list@.push(address) =~= queue.take(n + 1));
                assert(nodes[queue[n]].state == before[queue[n]].state);
                assert(forall|i: int| 0 <= i < left.len() ==> #[trigger] left[i] == queue[i + n]);
                assert forall|a: usize| #[trigger] left.contains(a) implies queue.contains(a) && !list@.contains(a) by {
                    let i = choose|i: int| 0 <= i < left.len() && left[i] == a;
                    assert(queue[i + n] == a);
                }
            }
            let waiter = memory.read(address);
            result.has_more = waiter.next != 0;
            let token = match waiter.state {
                WaitState::Parked(token) => token,
                WaitState::Unparked(_) => vstd::pervasive::unreached(),
            };
            let new_token = unpark(result, token);
            self.take(memory, address, new_token, &mut list);
            result.unparked = result.unparked + 1;
            proof {
                let after = memory.nodes();
                assert forall|a: usize| !queue.contains(a) implies #[trigger] after[a] == before[a] by {
                    assert(!left.contains(a));
                    assert(!queue.take(n).contains(a)) by {
                        if queue.take(n).contains(a) {
                            let i = choose|i: int| 0 <= i < n && queue.take(n)[i] == a;
                            assert(queue[i] == a);
                        }
                    }
                    assert(after[a] == nodes[a]);
                }
                assert forall|i: int| 0 <= i < queue.len() && i != n implies (#[trigger] after[queue[i]]).state == nodes[queue[i]].state by {
                    assert(queue[i] != queue[n]);
                }
            }
        }
        proof {
            assert(queue.skip(result.unparked as int).len() == 0) by {
                if queue.skip(result.unparked as int).len() > 0 {
                    assert(queue.skip(result.unparked as int)[0] != 0);
                }
            }
            assert(queue.take(result.unparked as int) =~= queue);
            assert(self.threads(memory.nodes()) =~= Seq::<usize>::empty());
        }
        result.has_more = self.queue != 0;
        (callback(result), list)
    }

    /// Takes a thread out of the queue, unparks it with a token and puts it on
    /// the list of those to be woken.
    fn take<M: Memory<Waiter>>(
        &mut self,
        memory: &mut M,
        address: usize,
        token: usize,
        list: &mut WaiterList,
    )
        requires
            old(self).wf(old(memory).nodes()),
            old(list).wf(old(memory).nodes()),
            old(self).threads(old(memory).nodes()).contains(address),
            forall|a: usize| #[trigger]
                old(self).threads(old(memory).nodes()).contains(a) ==> !old(list)@.contains(a),
        ensures
            final(self).wf(final(memory).nodes()),
            final(list).wf(final(memory).nodes()),
            final(self).threads(final(memory).nodes()) == without(
                old(self).threads(old(memory).nodes()),
                address,
            ),
            final(list)@ == old(list)@.push(address),
            final(memory).nodes().dom() =~= old(memory).nodes().dom(),
            final(memory).nodes()[address].state == WaitState::Unparked(token),
            forall|a: usize|
                a != address ==> (#[trigger] final(memory).nodes()[a]).state
                    == old(memory).nodes()[a].state,
            forall|a: usize|
                !old(self).threads(old(memory).nodes()).contains(a) && !old(list)@.contains(a)
                    ==> #[trigger] final(memory).nodes()[a] == old(memory).nodes()[a],
    {
        let ghost before = memory.nodes();
        let ghost queue = self.threads(before);
        let ghost k = queue.index_of(address);
        let ghost waiting = list@;
        assert(queue[k] == address);
        self.remove(memory, address);
        let ghost removed = memory.nodes();
        proof {
            assert forall|i: int| 0 <= i < waiting.len() implies #[trigger] removed[waiting[i]] == before[waiting[i]] by {
                assert(waiting.contains(waiting[i]));
            }
            assert(list.wf(removed));
        }
        list.push(memory, address);
        let node = memory.read(address);
        memory.write(
            address,
            Waiter {
                state: WaitState::Unparked(token),
                prev: node.prev,
                next: node.next,
                tail: node.tail,
            },
        );
        proof {
            let after = memory.nodes();
            let shorter = queue.remove(k);
            assert forall|i: int| 0 <= i < shorter.len() implies #[trigger] after[shorter[i]] == removed[shorter[i]] by {
                assert(shorter[i] == queue[if i < k { i } else { i + 1 }]);
                assert(queue.contains(shorter[i]));
                assert(shorter[i] != address);
            }
            assert(after.dom() =~= removed.dom());
            list_is_framed(removed, after, self.queue, shorter);
        }
    }

    /// Takes a thread out of the queue.
    fn remove<M: Memory<Waiter>>(&mut self, memory: &mut M, address: usize)
        requires
            old(self).wf(old(memory).nodes()),
            old(self).threads(old(memory).nodes()).contains(address),
        ensures
            final(self).wf(final(memory).nodes()),
            final(self).threads(final(memory).nodes()) == without(
                old(self).threads(old(memory).nodes()),
                address,
            ),
            only_links(
                old(memory).nodes(),
                final(memory).nodes(),
                old(self).threads(old(memory).nodes()),
            ),
            final(memory).nodes()[address] == old(memory).nodes()[address],
    {
        let ghost before = memory.nodes();
        let ghost queue = self.threads(before);
        let ghost i = queue.index_of(address);
        let head = self.queue;
        let waiter = memory.read(address);
        let next = waiter.next;
        let prev = waiter.prev;
        if next != 0 {
            let node = memory.read(next);
            memory.write(next, Waiter { state: node.state, prev, next: node.next, tail: node.tail });
        }
        if prev != 0 {
            let node = memory.read(prev);
            memory.write(prev, Waiter { state: node.state, prev: node.prev, next, tail: node.tail });
        }
        if address == head {
            self.queue = next;
            if next != 0 {
                let node = memory.read(next);
                memory.write(
                    next,
                    Waiter { state: node.state, prev: node.prev, next: node.next, tail: waiter.tail },
                );
            }
        } else {
            let first = memory.read(head);
            if address == first.tail && prev != 0 {
                memory.write(
                    head,
                    Waiter { state: first.state, prev: first.prev, next: first.next, tail: prev },
                );
            }
        }
        proof {
            let after = memory.nodes();
            assert(queue[i] == address);
            assert(next == at(queue, i + 1) && prev == at(queue, i - 1));
            assert(forall|j: int| 0 <= j < queue.len() && j != i ==> #[trigger] queue[j] != address);
            assert(i + 2 < queue.len() ==> queue[i + 1] != queue[0]);
            assert(0 < i ==> queue[i - 1] != queue[i]);
            assert(0 < i && i + 1 < queue.len() ==> queue[i - 1] != queue[i + 1] && queue[i + 1]
                != queue[0]);
            removal_keeps_list(before, after, queue, i);
            parked_of(after, self.queue, queue.remove(i));
            assert forall|a: usize| !queue.contains(a) implies #[trigger] after[a] == before[a] by {
                if i > 0 {
                    assert(queue.contains(queue[i - 1]));
                }
                if i + 1 < queue.len() {
                    assert(queue.contains(queue[i + 1]));
                }
                assert(queue.contains(queue[0]));
            }
        }
    }
}

/// The threads that stay parked after these decisions on the first of `queue`.
pub open spec fn kept(queue: Seq<usize>, decisions: Seq<UnparkFilter>) -> Seq<usize>
    decreases decisions.len(),
{
    if decisions.len() == 0 {
        Seq::empty()
    } else {
        let before = kept(queue, decisions.drop_last());
        if decisions.last() is Unpark {
            before
        } else {
            before.push(queue[decisions.len() - 1])
        }
    }
}

/// The threads that are unparked by these decisions on the first of `queue`.
pub open spec fn woken(queue: Seq<usize>, decisions: Seq<UnparkFilter>) -> Seq<usize>
    decreases decisions.len(),
{
    if decisions.len() == 0 {
        Seq::empty()
    } else {
        let before = woken(queue, decisions.drop_last());
        if decisions.last() is Unpark {
            before.push(queue[decisions.len() - 1])
        } else {
            before
        }
    }
}

/// The number of threads that are skipped.
pub open spec fn skips(decisions: Seq<UnparkFilter>) -> nat
    decreases decisions.len(),
{
    if decisions.len() == 0 {
        0
    } else if decisions.last() is Skip {
        skips(decisions.drop_last()) + 1
    } else {
        skips(decisions.drop_last())
    }
}

/// The threads that are parked after these decisions.
pub open spec fn left_parked(queue: Seq<usize>, decisions: Seq<UnparkFilter>) -> Seq<usize> {
    kept(queue, decisions) + queue.skip(decisions.len() as int)
}

/// What comes of these decisions.
pub open spec fn outcome(queue: Seq<usize>, decisions: Seq<UnparkFilter>) -> UnparkResult {
    UnparkResult {
        unparked: woken(queue, decisions).len() as usize,
        skipped: skips(decisions) as usize,
        has_more: left_parked(queue, decisions).len() > 0,
    }
}

/// What a filter is told when it decides on the thread at position `i` of `len`
/// threads.
pub open spec fn told(decisions: Seq<UnparkFilter>, queue: Seq<usize>, i: int) -> UnparkResult {
    UnparkResult {
        unparked: woken(queue, decisions.take(i)).len() as usize,
        skipped: skips(decisions.take(i)) as usize,
        has_more: i + 1 < queue.len(),
    }
}

/// The token with which the thread at an address is parked.
pub open spec fn token_of(nodes: Map<usize, Waiter>, address: usize) -> usize {
    nodes[address].state->Parked_0
}

/// The decisions of a filter on the threads of `queue`, from the first on, up
/// to the last thread or the first stop.
pub open spec fn decides<F: FnMut(UnparkResult, usize) -> UnparkFilter>(
    filter: F,
    nodes: Map<usize, Waiter>,
    queue: Seq<usize>,
    decisions: Seq<UnparkFilter>,
) -> bool {
    &&& decisions.len() <= queue.len()
    &&& answers(filter, nodes, queue, decisions)
    &&& decisions.len() < queue.len() ==> decisions.len() > 0 && decisions.last() is Stop
}

/// Each decision is an answer of the filter, and only the last may be to stop.
pub open spec fn answers<F: FnMut(UnparkResult, usize) -> UnparkFilter>(
    filter: F,
    nodes: Map<usize, Waiter>,
    queue: Seq<usize>,
    decisions: Seq<UnparkFilter>,
) -> bool {
    &&& forall|i: int|
        0 <= i < decisions.len() ==> call_ensures(
            filter,
            (told(decisions, queue, i), token_of(nodes, queue[i])),
            #[trigger] decisions[i],
        )
    &&& forall|i: int| 0 <= i < decisions.len() - 1 ==> !(#[trigger] decisions[i] is Stop)
}

#[verifier::spinoff_prover]
proof fn answer_counts<F: FnMut(UnparkResult, usize) -> UnparkFilter>(
    filter: F,
    nodes: Map<usize, Waiter>,
    queue: Seq<usize>,
    decisions: Seq<UnparkFilter>,
    decision: UnparkFilter,
)
    requires
        answers(filter, nodes, queue, decisions),
        decisions.len() > 0 ==> !(decisions.last() is Stop),
        call_ensures(
            filter,
            (
                told(decisions, queue, decisions.len() as int),
                token_of(nodes, queue[decisions.len() as int]),
            ),
            decision,
        ),
    ensures
        answers(filter, nodes, queue, decisions.push(decision)),
{
    let more = decisions.push(decision);
    let n = decisions.len() as int;
    assert forall|i: int| 0 <= i < more.len() implies call_ensures(
        filter,
        (told(more, queue, i), token_of(nodes, queue[i])),
        #[trigger] more[i],
    ) by {
        assert(more.take(i) =~= decisions.take(i));
        assert(told(more, queue, i) == told(decisions, queue, i));
        if i < n {
            assert(more[i] == decisions[i]);
        }
    }
    assert forall|i: int| 0 <= i < more.len() - 1 implies !(#[trigger] more[i] is Stop) by {
        assert(more[i] == decisions[i]);
    }
}

/// One more decision moves one more thread.
pub proof fn decision_counts(queue: Seq<usize>, decisions: Seq<UnparkFilter>, decision: UnparkFilter)
    requires
        decisions.len() < queue.len(),
    ensures
        ({
            let more = decisions.push(decision);
            let n = decisions.len() as int;
            let k = kept(queue, decisions).len() as int;
            if decision is Unpark {
                &&& woken(queue, more) == woken(queue, decisions).push(queue[n])
                &&& skips(more) == skips(decisions)
                &&& left_parked(queue, more) == left_parked(queue, decisions).remove(k)
            } else {
                &&& woken(queue, more) == woken(queue, decisions)
                &&& skips(more) == skips(decisions) + (if decision is Skip {
                    1int
                } else {
                    0
                })
                &&& left_parked(queue, more) == left_parked(queue, decisions)
            }
        }),
{
    let more = decisions.push(decision);
    let n = decisions.len() as int;
    assert(more.drop_last() =~= decisions);
    let k = kept(queue, decisions).len() as int;
    assert(queue.skip(n) =~= seq![queue[n]] + queue.skip(n + 1));
    if decision is Unpark {
        assert(left_parked(queue, more) =~= left_parked(queue, decisions).remove(k));
    } else {
        assert(left_parked(queue, more) =~= left_parked(queue, decisions));
    }
}

/// The next thread to be decided on stands behind those that stay.
pub proof fn next_of_left(queue: Seq<usize>, decisions: Seq<UnparkFilter>)
    requires
        decisions.len() < queue.len(),
    ensures
        ({
            let n = decisions.len() as int;
            let left = left_parked(queue, decisions);
            let k = kept(queue, decisions).len() as int;
            &&& 0 <= k < left.len()
            &&& left[k] == queue[n]
            &&& at(left, k + 1) == at(queue, n + 1)
        }),
{
}

/// Unparking one more thread makes one more decision come true.
proof fn take_decides(
    before: Map<usize, Waiter>,
    nodes: Map<usize, Waiter>,
    after: Map<usize, Waiter>,
    queue: Seq<usize>,
    decisions: Seq<UnparkFilter>,
    token: usize,
)
    requires
        queue.no_duplicates(),
        decisions.len() < queue.len(),
        decided(before, nodes, queue, decisions),
        after.dom() =~= nodes.dom(),
        after[queue[decisions.len() as int]].state == WaitState::Unparked(token),
        forall|a: usize|
            a != queue[decisions.len() as int] ==> (#[trigger] after[a]).state == nodes[a].state,
        forall|a: usize|
            !left_parked(queue, decisions).contains(a) && !woken(queue, decisions).contains(a)
                ==> #[trigger] after[a] == nodes[a],
    ensures
        decided(before, after, queue, decisions.push(UnparkFilter::Unpark(token))),
{
    let n = decisions.len() as int;
    let more = decisions.push(UnparkFilter::Unpark(token));
    decisions_divide(queue, decisions);
    assert forall|a: usize| !queue.contains(a) implies #[trigger] after[a] == before[a] by {
        assert(!left_parked(queue, decisions).contains(a));
        assert(!woken(queue, decisions).contains(a));
        assert(after[a] == nodes[a]);
    }
    assert forall|i: int| 0 <= i < queue.len() implies (#[trigger] after[queue[i]]).state == (if i < more.len() && more[i] is Unpark {
        WaitState::Unparked(more[i]->Unpark_0)
    } else {
        before[queue[i]].state
    }) by {
        if i != n {
            assert(queue[i] != queue[n]);
            assert(after[queue[i]].state == nodes[queue[i]].state);
        }
    }
}

/// What these decisions make of the threads.
pub open spec fn decided(
    before: Map<usize, Waiter>,
    after: Map<usize, Waiter>,
    queue: Seq<usize>,
    decisions: Seq<UnparkFilter>,
) -> bool {
    &&& after.dom() =~= before.dom()
    &&& forall|a: usize| !queue.contains(a) ==> #[trigger] after[a] == before[a]
    &&& forall|i: int|
        0 <= i < queue.len() ==> (#[trigger] after[queue[i]]).state == (if i < decisions.len()
            && decisions[i] is Unpark {
            WaitState::Unparked(decisions[i]->Unpark_0)
        } else {
            before[queue[i]].state
        })
}

/// The decisions divide the threads: those that stay and those that are woken
/// have none in common, and together with the rest they are the queue.
pub proof fn decisions_divide(queue: Seq<usize>, decisions: Seq<UnparkFilter>)
    requires
        queue.no_duplicates(),
        decisions.len() <= queue.len(),
    ensures
        forall|a: usize| #[trigger]
            kept(queue, decisions).contains(a) <==> exists|j: int|
                0 <= j < decisions.len() && #[trigger] queue[j] == a && !(decisions[j] is Unpark),
        forall|a: usize| #[trigger]
            woken(queue, decisions).contains(a) <==> exists|j: int|
                0 <= j < decisions.len() && #[trigger] queue[j] == a && decisions[j] is Unpark,
        forall|a: usize|
            left_parked(queue, decisions).contains(a) ==> #[trigger] queue.contains(a) && !woken(queue, decisions).contains(a),
        forall|a: usize| woken(queue, decisions).contains(a) ==> #[trigger] queue.contains(a),
    decreases decisions.len(),
{
    if decisions.len() > 0 {
        let n = decisions.len() - 1;
        let shorter = decisions.drop_last();
        decisions_divide(queue, shorter);
        let old_kept = kept(queue, shorter);
        let old_woken = woken(queue, shorter);
        assert forall|a: usize| #[trigger] kept(queue, decisions).contains(a) implies exists|j: int|
            0 <= j < decisions.len() && #[trigger] queue[j] == a && !(decisions[j] is Unpark) by {
            if old_kept.contains(a) {
                let j = choose|j: int| 0 <= j < shorter.len() && #[trigger] queue[j] == a && !(shorter[j] is Unpark);
                assert(queue[j] == a && !(decisions[j] is Unpark));
            } else {
                assert(queue[n] == a);
            }
        }
        assert forall|a: usize| #[trigger] woken(queue, decisions).contains(a) implies exists|j: int|
            0 <= j < decisions.len() && #[trigger] queue[j] == a && decisions[j] is Unpark by {
            if old_woken.contains(a) {
                let j = choose|j: int| 0 <= j < shorter.len() && #[trigger] queue[j] == a && shorter[j] is Unpark;
                assert(queue[j] == a && decisions[j] is Unpark);
            } else {
                assert(queue[n] == a);
            }
        }
        assert forall|j: int| 0 <= j < decisions.len() && !(decisions[j] is Unpark) implies kept(queue, decisions).contains(#[trigger] queue[j]) by {
            if j < n {
                assert(!(shorter[j] is Unpark));
                assert(old_kept.contains(queue[j]));
                let i = choose|i: int| 0 <= i < old_kept.len() && old_kept[i] == queue[j];
                assert(kept(queue, decisions)[i] == queue[j]);
            } else {
                assert(kept(queue, decisions)[old_kept.len() as int] == queue[j]);
            }
        }
        assert forall|j: int| 0 <= j < decisions.len() && decisions[j] is Unpark implies woken(queue, decisions).contains(#[trigger] queue[j]) by {
            if j < n {
                assert(shorter[j] is Unpark);
                assert(old_woken.contains(queue[j]));
                let i = choose|i: int| 0 <= i < old_woken.len() && old_woken[i] == queue[j];
                assert(woken(queue, decisions)[i] == queue[j]);
            } else {
                assert(woken(queue, decisions)[old_woken.len() as int] == queue[j]);
            }
        }
    }
    let stays = kept(queue, decisions);
    let rest = queue.skip(decisions.len() as int);
    assert forall|a: usize| (stays + rest).contains(a) implies #[trigger] queue.contains(a) && !woken(queue, decisions).contains(a) by {
        let i = choose|i: int| 0 <= i < (stays + rest).len() && (stays + rest)[i] == a;
        if i < stays.len() {
            assert(stays.contains(stays[i]));
            let j = choose|j: int| 0 <= j < decisions.len() && #[trigger] queue[j] == a && !(decisions[j] is Unpark);
            assert(queue.contains(queue[j]));
        } else {
            let j = i - stays.len() + decisions.len();
            assert(queue[j] == a);
        }
    }
}

proof fn left_is_not_woken(queue: Seq<usize>, decisions: Seq<UnparkFilter>)
    requires
        queue.no_duplicates(),
        decisions.len() <= queue.len(),
    ensures
        forall|a: usize| #[trigger]
            left_parked(queue, decisions).contains(a) ==> !woken(queue, decisions).contains(a),
{
    decisions_divide(queue, decisions);
    assert forall|a: usize| #[trigger] left_parked(queue, decisions).contains(a) implies !woken(
        queue,
        decisions,
    ).contains(a) by {
        assert(queue.contains(a));
    }
}

/// There are no more threads than addresses.
pub proof fn threads_are_countable(queue: Seq<usize>)
    requires
        queue.no_duplicates(),
        forall|i: int| 0 <= i < queue.len() ==> (#[trigger] queue[i]) != 0,
    ensures
        queue.len() <= usize::MAX,
{
    let numbers = queue.map_values(|a: usize| a as int);
    let all = vstd::set_lib::set_int_range(1, usize::MAX + 1);
    vstd::set_lib::lemma_int_range(1, usize::MAX + 1);
    assert forall|i: int, j: int| 0 <= i < numbers.len() && 0 <= j < numbers.len() && i != j implies numbers[i] != numbers[j] by {
        assert(queue[i] != queue[j]);
    }
    numbers.unique_seq_to_set();
    assert(numbers.to_set().subset_of(all));
    vstd::set_lib::lemma_len_subset(numbers.to_set(), all);
}

/// Changes outside of a list leave it as it is.
pub proof fn list_is_framed(before: Map<usize, Waiter>, after: Map<usize, Waiter>, head: usize, queue: Seq<usize>)
    requires
        is_list(before, head, queue),
        after.dom() == before.dom(),
        forall|i: int| 0 <= i < queue.len() ==> #[trigger] after[queue[i]] == before[queue[i]],
    ensures
        is_list(after, head, queue),
        has_list(after, head),
        parked(after, head) == queue,
{
    assert(is_list(after, head, queue));
    parked_of(after, head, queue);
}

/// A walk along the parked threads, from the one parked first on, on which it is
/// decided for each of them whether it stays parked.
pub struct Unparking {
    /// The thread that is to be decided on next, or null.
    pub current: usize,
    /// It was decided to stop.
    pub stopped: bool,
    /// What has come of it so far.
    pub result: UnparkResult,
    /// The threads that are to be woken once the queue is unlocked.
    pub list: WaiterList,
    /// The nodes and the threads when the walk began.
    pub nodes: Ghost<Map<usize, Waiter>>,
    pub queue: Ghost<Seq<usize>>,
    /// What was decided so far.
    pub decisions: Ghost<Seq<UnparkFilter>>,
}

impl Unparking {
    /// What was decided so far has been done, and the next thread is known.
    pub open spec fn wf(self, parker: Parker, nodes: Map<usize, Waiter>) -> bool {
        let queue = self.queue@;
        let decisions = self.decisions@;
        &&& is_list(self.nodes@, at(queue, 0), queue)
        &&& queue.len() <= usize::MAX
        &&& parker.wf(nodes)
        &&& self.list.wf(nodes)
        &&& decisions.len() <= queue.len()
        &&& parker.threads(nodes) == left_parked(queue, decisions)
        &&& decided(self.nodes@, nodes, queue, decisions)
        &&& self.list@ == woken(queue, decisions)
        &&& self.result.unparked == woken(queue, decisions).len()
        &&& self.result.skipped == skips(decisions)
        &&& self.result.unparked + self.result.skipped <= decisions.len()
        &&& self.result.has_more == (0 < decisions.len() < queue.len())
        &&& !self.stopped ==> self.current == at(queue, decisions.len() as int)
        &&& self.stopped <==> decisions.len() > 0 && decisions.last() is Stop
    }

    /// Begins a walk.
    pub fn new<M: Memory<Waiter>>(parker: &Parker, memory: &M) -> (walk: Self)
        requires
            parker.wf(memory.nodes()),
        ensures
            walk.wf(*parker, memory.nodes()),
            walk.nodes@ == memory.nodes(),
            walk.queue@ == parker.threads(memory.nodes()),
            walk.decisions@.len() == 0,
    {
        let ghost queue = parker.threads(memory.nodes());
        let list = WaiterList::new();
        proof {
            let none = Seq::<UnparkFilter>::empty();
            assert(left_parked(queue, none) =~= queue);
            assert(list@ =~= woken(queue, none));
            threads_are_countable(queue);
        }
        Unparking {
            current: parker.queue,
            stopped: false,
            result: UnparkResult { unparked: 0, skipped: 0, has_more: false },
            list,
            nodes: Ghost(memory.nodes()),
            queue: Ghost(queue),
            decisions: Ghost(Seq::empty()),
        }
    }

    /// Tells whether there is a thread to decide on.
    pub fn goes_on(&self) -> (more: bool)
        ensures
            more == (self.current != 0 && !self.stopped),
    {
        self.current != 0 && !self.stopped
    }

    /// What has come of the walk so far, as it is told for the decision on the next
    /// thread, and the token with which that thread is parked.
    pub fn ask<M: Memory<Waiter>>(&self, parker: &Parker, memory: &M) -> (asked: (UnparkResult, usize))
        requires
            self.wf(*parker, memory.nodes()),
            self.current != 0,
            !self.stopped,
        ensures
            self.decisions@.len() < self.queue@.len(),
            asked.0 == told(self.decisions@, self.queue@, self.decisions@.len() as int),
            asked.1 == token_of(self.nodes@, self.queue@[self.decisions@.len() as int]),
    {
        let ghost n = self.decisions@.len() as int;
        let ghost left = parker.threads(memory.nodes());
        let ghost k = kept(self.queue@, self.decisions@).len() as int;
        proof {
            next_of_left(self.queue@, self.decisions@);
            assert(memory.nodes()[left[k]].next == at(left, k + 1));
            assert(self.nodes@[self.queue@[n]].state is Parked);
            assert(memory.nodes()[self.queue@[n]].state == self.nodes@[self.queue@[n]].state);
        }
        let waiter = memory.read(self.current);
        let token = match waiter.state {
            WaitState::Parked(token) => token,
            WaitState::Unparked(_) => vstd::pervasive::unreached(),
        };
        let result = UnparkResult {
            unparked: self.result.unparked,
            skipped: self.result.skipped,
            has_more: waiter.next != 0,
        };
        assert(self.decisions@.take(n) =~= self.decisions@);
        assert(result == told(self.decisions@, self.queue@, n)) by {
            if n + 1 < self.queue@.len() {
                assert(self.queue@[n + 1] != 0);
            }
        }
        (result, token)
    }

    /// Decides on the next thread.
    pub fn decide<M: Memory<Waiter>>(&mut self, parker: &mut Parker, memory: &mut M, decision: UnparkFilter)
        requires
            old(self).wf(*old(parker), old(memory).nodes()),
            old(self).current != 0,
            !old(self).stopped,
        ensures
            final(self).wf(*final(parker), final(memory).nodes()),
            final(self).nodes == old(self).nodes,
            final(self).queue == old(self).queue,
            final(self).decisions@ == old(self).decisions@.push(decision),
    {
        let ghost before = self.nodes@;
        let ghost queue = self.queue@;
        let ghost decisions = self.decisions@;
        let ghost n = decisions.len() as int;
        let ghost left = parker.threads(memory.nodes());
        let ghost k = kept(queue, decisions).len() as int;
        let ghost nodes = memory.nodes();
        let ghost more = decisions.push(decision);
        proof {
            next_of_left(queue, decisions);
            assert(nodes[left[k]].next == at(left, k + 1));
            decision_counts(queue, decisions, decision);
            if n + 1 < queue.len() {
                assert(queue[n + 1] != 0);
            }
        }
        let address = self.current;
        self.current = memory.read(address).next;
        self.result.has_more = self.current != 0;
        match decision {
            UnparkFilter::Stop => {
                self.stopped = true;
                assert(decided(before, nodes, queue, more));
            },
            UnparkFilter::Skip => {
                self.result.skipped = self.result.skipped + 1;
                assert(decided(before, nodes, queue, more));
            },
            UnparkFilter::Unpark(token) => {
                self.result.unparked = self.result.unparked + 1;
                proof {
                    assert(left.contains(left[k]));
                    assert(left.index_of(address) == k);
                    left_is_not_woken(queue, decisions);
                }
                parker.take(memory, address, token, &mut self.list);
                proof {
                    take_decides(before, nodes, memory.nodes(), queue, decisions, token);
                }
            },
        }
        self.decisions = Ghost(more);
    }
}

/// The number of waiters that a list holds without linking them.
pub const LIST_ARRAY: usize = 16;

/// The waiters that are to be woken once the queue is unlocked, in the order in
/// which they were unparked. The first of them stand in an array and the others
/// are linked to each other.
pub struct WaiterList {
    pub array_size: usize,
    pub array: [usize; 16],
    pub overflow_head: usize,
    pub overflow_tail: usize,
    pub contents: Ghost<Seq<usize>>,
}

impl WaiterList {
    /// The waiters in order.
    pub open spec fn view(&self) -> Seq<usize> {
        self.contents@
    }

    /// The array and the links hold the waiters.
    pub open spec fn wf(&self, nodes: Map<usize, Waiter>) -> bool {
        &&& self@.no_duplicates()
        &&& self.array_size == (if self@.len() < LIST_ARRAY {
            self@.len() as int
        } else {
            LIST_ARRAY as int
        })
        &&& forall|i: int| 0 <= i < self@.len() ==> (#[trigger] self@[i]) != 0 && nodes.contains_key(self@[i])
        &&& forall|i: int| 0 <= i < self.array_size ==> #[trigger] self.array[i] == self@[i]
        &&& self.overflow_head == at(self@, LIST_ARRAY as int)
        &&& self.overflow_tail == (if self@.len() > LIST_ARRAY {
            self@.last()
        } else {
            0
        })
        &&& forall|i: int|
            LIST_ARRAY <= i < self@.len() ==> (#[trigger] nodes[self@[i]]).next == at(self@, i + 1)
    }

    /// A list without waiters.
    pub fn new() -> (list: Self)
        ensures
            list@ == Seq::<usize>::empty(),
            forall|nodes: Map<usize, Waiter>| list.wf(nodes),
    {
        WaiterList {
            array_size: 0,
            array: [0; 16],
            overflow_head: 0,
            overflow_tail: 0,
            contents: Ghost(Seq::empty()),
        }
    }

    /// Adds a waiter at the end.
    pub fn push<M: Memory<Waiter>>(&mut self, memory: &mut M, address: usize)
        requires
            old(self).wf(old(memory).nodes()),
            address != 0,
            old(memory).nodes().contains_key(address),
            !old(self)@.contains(address),
        ensures
            final(self).wf(final(memory).nodes()),
            final(self)@ == old(self)@.push(address),
            final(memory).nodes().dom() =~= old(memory).nodes().dom(),
            forall|a: usize|
                a != address && !old(self)@.contains(a) ==> #[trigger] final(memory).nodes()[a]
                    == old(memory).nodes()[a],
            forall|a: usize|
                (#[trigger] final(memory).nodes()[a]).state == old(memory).nodes()[a].state,
    {
        let ghost before = self@;
        proof {
            self.contents@ = before.push(address);
        }
        if self.array_size < LIST_ARRAY {
            self.array[self.array_size] = address;
            self.array_size = self.array_size + 1;
            return;
        }
        if self.overflow_tail != 0 {
            let tail = self.overflow_tail;
            assert(before.contains(before.last()));
            let node = memory.read(tail);
            memory.write(
                tail,
                Waiter { state: node.state, prev: node.prev, next: address, tail: node.tail },
            );
        } else {
            self.overflow_head = address;
        }
        let node = memory.read(address);
        memory.write(address, Waiter { state: node.state, prev: node.prev, next: 0, tail: node.tail });
        self.overflow_tail = address;
        proof {
            assert forall|i: int| LIST_ARRAY <= i < self@.len() implies (#[trigger] memory.nodes()[self@[i]]).next == at(self@, i + 1) by {
                if i < before.len() {
                    assert(self@[i] == before[i]);
                    assert(before.contains(before[i]));
                    if i < before.len() - 1 {
                        assert(before[i] != before.last());
                    }
                }
            }
        }
    }

    /// The waiters in order.
    pub fn iter<M: Memory<Waiter>>(&self, memory: &M) -> (waiters: Vec<usize>)
        requires
            self.wf(memory.nodes()),
        ensures
            waiters@ == self@,
    {
        let mut waiters: Vec<usize> = Vec::new();
        let mut i: usize = 0;
        while i < self.array_size
            invariant
                i <= self.array_size,
                self.wf(memory.nodes()),
                waiters@ == self@.take(i as int),
            decreases self.array_size - i,
        {
            waiters.push(self.array[i]);
            i = i + 1;
            assert(waiters@ =~= self@.take(i as int));
        }
        let mut node = self.overflow_head;
        while node != 0
            invariant
                self.wf(memory.nodes()),
                waiters@.len() <= self@.len(),
                waiters@ == self@.take(waiters@.len() as int),
                waiters@.len() >= LIST_ARRAY || waiters@.len() == self@.len(),
                node == (if waiters@.len() < LIST_ARRAY { 0 } else { at(self@, waiters@.len() as int) }),
            decreases self@.len() - waiters@.len(),
        {
            let ghost k = waiters@.len() as int;
            assert(self@[k] == node);
            waiters.push(node);
            node = memory.read(node).next;
            assert(waiters@ =~= self@.take(k + 1));
        }
        assert(waiters@ =~= self@);
        waiters
    }
}

} // verus!
