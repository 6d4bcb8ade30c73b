//! Laws of the parking lots of threads and of the mutex that uses one.
use crate::event::YieldContext;
use crate::queue::Memory;
use crate::sync::mutex::GenericMutex;
use crate::sync::parker;
use crate::sync::parker::{ParkResult, Parker, UnparkFilter, UnparkResult, WaitState, Waiter, WaiterList};
use crate::sync::raw_mutex;
use crate::sync::raw_mutex::{AcquireAttempt, AcquireStep, GenericRawMutex};
use vstd::prelude::*;

verus! {

/// What a filter is told before it decides on a thread: whether that is the last one, and
/// how many it has unparked and skipped before. Each decision adds to that.
pub proof fn filter_is_told_what_it_did(queue: Seq<usize>, decisions: Seq<UnparkFilter>, i: int)
    requires
        decisions.len() <= queue.len() <= usize::MAX,
        0 <= i < decisions.len(),
    ensures
        ({
            let first = parker::told(decisions, queue, 0);
            let now = parker::told(decisions, queue, i);
            let next = parker::told(decisions, queue, i + 1);
            &&& first.unparked == 0
            &&& first.skipped == 0
            &&& now.has_more <==> i + 1 < queue.len()
            &&& next.unparked == now.unparked + (if decisions[i] is Unpark {
                1int
            } else {
                0
            })
            &&& next.skipped == now.skipped + (if decisions[i] is Skip {
                1int
            } else {
                0
            })
        }),
{
    assert(decisions.take(0) =~= Seq::<UnparkFilter>::empty());
    assert(decisions.take(i + 1) =~= decisions.take(i).push(decisions[i]));
    parker::decision_counts(queue, decisions.take(i), decisions[i]);
    counts_are_small(queue, decisions.take(i));
    counts_are_small(queue, decisions.take(i + 1));
}

/// No more threads are woken, skipped or left than there are.
proof fn counts_are_small(queue: Seq<usize>, decisions: Seq<UnparkFilter>)
    requires
        decisions.len() <= queue.len(),
    ensures
        parker::woken(queue, decisions).len() + parker::skips(decisions) <= decisions.len(),
        parker::woken(queue, decisions).len() + parker::kept(queue, decisions).len() == decisions.len(),
        parker::woken(queue, decisions).len() + parker::left_parked(queue, decisions).len() == queue.len(),
    decreases decisions.len(),
{
    if decisions.len() > 0 {
        counts_are_small(queue, decisions.drop_last());
    }
}

/// What comes of it tells how many threads the filter has unparked and skipped, and that
/// there are more exactly if some thread was not unparked.
pub proof fn outcome_tells_who_is_left(queue: Seq<usize>, decisions: Seq<UnparkFilter>)
    requires
        queue.no_duplicates(),
        decisions.len() <= queue.len() <= usize::MAX,
    ensures
        ({
            let all = parker::outcome(queue, decisions);
            let last = parker::told(decisions, queue, decisions.len() as int);
            &&& all.unparked == last.unparked
            &&& all.skipped == last.skipped
            &&& !all.has_more <==> decisions.len() == queue.len() && forall|i: int|
                0 <= i < decisions.len() ==> #[trigger] decisions[i] is Unpark
        }),
{
    counts_are_small(queue, decisions);
    assert(decisions.take(decisions.len() as int) =~= decisions);
    parker::decisions_divide(queue, decisions);
    let stays = parker::kept(queue, decisions);
    if stays.len() > 0 {
        assert(stays.contains(stays[0]));
        let j = choose|j: int|
            0 <= j < decisions.len() && #[trigger] queue[j] == stays[0] && !(decisions[j] is Unpark);
        assert(!(decisions[j] is Unpark));
    }
    assert forall|i: int| 0 <= i < decisions.len() && stays.len() == 0 implies #[trigger] decisions[i] is Unpark by {
        if !(decisions[i] is Unpark) {
            let a = queue[i];
            assert(queue[i] == a);
            assert(stays.contains(a));
        }
    }
}

/// Exactly the threads for which the filter decides so are unparked, with the token that
/// it gives them, and the others stay parked with the token that they have.
pub proof fn decisions_are_carried_out(
    before: Map<usize, Waiter>,
    after: Map<usize, Waiter>,
    queue: Seq<usize>,
    decisions: Seq<UnparkFilter>,
    i: int,
)
    requires
        queue.no_duplicates(),
        decisions.len() <= queue.len(),
        parker::decided(before, after, queue, decisions),
        0 <= i < queue.len(),
    ensures
        i < decisions.len() && decisions[i] is Unpark ==> {
            &&& after[queue[i]].state == WaitState::Unparked(decisions[i]->Unpark_0)
            &&& parker::woken(queue, decisions).contains(queue[i])
            &&& !parker::left_parked(queue, decisions).contains(queue[i])
        },
        i >= decisions.len() || !(decisions[i] is Unpark) ==> {
            &&& after[queue[i]].state == before[queue[i]].state
            &&& parker::left_parked(queue, decisions).contains(queue[i])
            &&& !parker::woken(queue, decisions).contains(queue[i])
        },
{
    parker::decisions_divide(queue, decisions);
    assert(queue.contains(queue[i]));
    let stays = parker::kept(queue, decisions);
    let left = parker::left_parked(queue, decisions);
    if i >= decisions.len() {
        assert(left[stays.len() + i - decisions.len()] == queue[i]);
    } else if !(decisions[i] is Unpark) {
        assert(stays.contains(queue[i]));
        let k = choose|k: int| 0 <= k < stays.len() && stays[k] == queue[i];
        assert(left[k] == queue[i]);
    }
}

/// Unparking tells the callback how many threads were unparked and that there are more
/// exactly if threads are still parked. As many threads are woken as were unparked, and
/// none is lost.
pub proof fn unparking_is_reported<
    T,
    M: Memory<Waiter>,
    F: FnMut(UnparkResult, usize) -> UnparkFilter,
    C: FnOnce(UnparkResult) -> T,
>(lot: &mut Parker, memory: &mut M, filter: F, callback: C, output: (T, WaiterList))
    requires
        old(lot).wf(old(memory).nodes()),
        call_ensures(Parker::unpark::<T, M, F, C>, (lot, memory, filter, callback), output),
    ensures
        ({
            let queue = old(lot).threads(old(memory).nodes());
            let left = final(lot).threads(final(memory).nodes());
            exists|told: UnparkResult| #[trigger]
                call_ensures(callback, (told,), output.0) && {
                    &&& told.has_more <==> left.len() > 0
                    &&& told.unparked == output.1@.len()
                    &&& output.1@.len() + left.len() == queue.len()
                    &&& told.unparked + told.skipped <= queue.len()
                }
        }),
{
    let queue = old(lot).threads(old(memory).nodes());
    assert(parker::is_list(old(memory).nodes(), old(lot).queue, queue));
    let decisions = choose|decisions: Seq<UnparkFilter>| #[trigger]
        parker::decides(filter, old(memory).nodes(), queue, decisions) && parker::decided(
            old(memory).nodes(),
            final(memory).nodes(),
            queue,
            decisions,
        ) && final(lot).threads(final(memory).nodes()) == parker::left_parked(queue, decisions) && output.1@
            == parker::woken(queue, decisions) && call_ensures(
            callback,
            (parker::outcome(queue, decisions),),
            output.0,
        );
    parker::threads_are_countable(queue);
    counts_are_small(queue, decisions);
    assert(call_ensures(callback, (parker::outcome(queue, decisions),), output.0));
}

/// Unparking asks the filter about the threads in the order in which they were parked, with
/// the token of each, until it has asked about all of them or the filter stops it. What it
/// has decided is then carried out.
pub proof fn unparking_asks_in_order<
    T,
    M: Memory<Waiter>,
    F: FnMut(UnparkResult, usize) -> UnparkFilter,
    C: FnOnce(UnparkResult) -> T,
>(lot: &mut Parker, memory: &mut M, filter: F, callback: C, output: (T, WaiterList))
    requires
        old(lot).wf(old(memory).nodes()),
        call_ensures(Parker::unpark::<T, M, F, C>, (lot, memory, filter, callback), output),
    ensures
        ({
            let queue = old(lot).threads(old(memory).nodes());
            let nodes = old(memory).nodes();
            exists|decisions: Seq<UnparkFilter>| #[trigger]
                parker::decided(nodes, final(memory).nodes(), queue, decisions) && {
                    &&& decisions.len() <= queue.len()
                    &&& decisions.len() < queue.len() ==> decisions.len() > 0 && decisions.last() is Stop
                    &&& forall|i: int|
                        0 <= i < decisions.len() ==> {
                            &&& call_ensures(
                                filter,
                                (
                                    parker::told(decisions, queue, i),
                                    nodes[queue[i]].state->Parked_0,
                                ),
                                #[trigger] decisions[i],
                            )
                            &&& i < decisions.len() - 1 ==> !(decisions[i] is Stop)
                        }
                    &&& output.1@ == parker::woken(queue, decisions)
                    &&& final(lot).threads(final(memory).nodes()) == parker::left_parked(queue, decisions)
                }
        }),
{
    let queue = old(lot).threads(old(memory).nodes());
    let decisions = choose|decisions: Seq<UnparkFilter>| #[trigger]
        parker::decides(filter, old(memory).nodes(), queue, decisions) && parker::decided(
            old(memory).nodes(),
            final(memory).nodes(),
            queue,
            decisions,
        ) && final(lot).threads(final(memory).nodes()) == parker::left_parked(queue, decisions) && output.1@
            == parker::woken(queue, decisions) && call_ensures(
            callback,
            (parker::outcome(queue, decisions),),
            output.0,
        );
    assert(parker::decided(old(memory).nodes(), final(memory).nodes(), queue, decisions));
}

/// Unparking one thread unparks the one that was parked first, with the token that it is
/// given, and tells that there are more exactly if threads are still parked.
pub proof fn first_thread_is_unparked<
    T,
    M: Memory<Waiter>,
    F: FnOnce(UnparkResult, usize) -> usize,
    C: FnOnce(UnparkResult) -> T,
>(lot: &mut Parker, memory: &mut M, unpark: F, callback: C, output: (T, WaiterList))
    requires
        call_ensures(Parker::unpark_one::<T, M, F, C>, (lot, memory, unpark, callback), output),
    ensures
        ({
            let queue = old(lot).threads(old(memory).nodes());
            let left = final(lot).threads(final(memory).nodes());
            &&& queue.len() == 0 ==> left.len() == 0 && output.1@.len() == 0
            &&& forall|a: usize|
                !queue.contains(a) ==> #[trigger] final(memory).nodes()[a] == old(memory).nodes()[a]
            &&& forall|a: usize|
                queue.len() > 0 && a != queue[0] ==> (#[trigger] final(memory).nodes()[a]).state == old(memory).nodes()[a].state
            &&& queue.len() > 0 ==> output.1@ == seq![queue[0]] && left == queue.drop_first()
            &&& queue.len() > 0 ==> (final(memory).nodes()[queue[0]].state matches WaitState::Unparked(token)
                && call_ensures(
                unpark,
                (
                    UnparkResult { unparked: 0, skipped: 0, has_more: left.len() > 0 },
                    old(memory).nodes()[queue[0]].state->Parked_0,
                ),
                token,
            ))
            &&& call_ensures(
                callback,
                (UnparkResult {
                    unparked: (queue.len() - left.len()) as usize,
                    skipped: 0,
                    has_more: left.len() > 0,
                },),
                output.0,
            )
        }),
{
}

/// Unparking all threads leaves none parked and wakes them in the order in which they were
/// parked.
pub proof fn all_threads_are_unparked<
    T,
    M: Memory<Waiter>,
    F: FnMut(UnparkResult, usize) -> usize,
    C: FnOnce(UnparkResult) -> T,
>(lot: &mut Parker, memory: &mut M, unpark: F, callback: C, output: (T, WaiterList), i: int)
    requires
        call_ensures(Parker::unpark_all::<T, M, F, C>, (lot, memory, unpark, callback), output),
        0 <= i < old(lot).threads(old(memory).nodes()).len(),
    ensures
        ({
            let queue = old(lot).threads(old(memory).nodes());
            &&& final(lot).threads(final(memory).nodes()).len() == 0
            &&& output.1@ == queue
            &&& final(memory).nodes().dom() =~= old(memory).nodes().dom()
            &&& forall|a: usize|
                !queue.contains(a) ==> #[trigger] final(memory).nodes()[a] == old(memory).nodes()[a]
            &&& final(memory).nodes()[queue[i]].state matches WaitState::Unparked(token) && call_ensures(
                unpark,
                (
                    UnparkResult { unparked: i as usize, skipped: 0, has_more: i + 1 < queue.len() },
                    old(memory).nodes()[queue[i]].state->Parked_0,
                ),
                token,
            )
            &&& call_ensures(
                callback,
                (UnparkResult { unparked: queue.len() as usize, skipped: 0, has_more: false },),
                output.0,
            )
        }),
{
    assert(output.1@[i] == old(lot).threads(old(memory).nodes())[i]);
}

/// A thread parks behind all others, unless it is turned away. One that gives up leaves
/// the others as they were and tells whether there are any, unless it was unparked before.
pub proof fn threads_come_and_go<
    M: Memory<Waiter>,
    V: FnOnce(bool) -> bool,
    C: FnOnce(bool),
>(
    lot: &mut Parker,
    memory: &mut M,
    address: usize,
    token: usize,
    validate: V,
    cancel: C,
    parked: Option<ParkResult>,
    cancelled: ParkResult,
)
    ensures
        call_ensures(Parker::park::<M, V>, (lot, memory, address, token, validate), parked) ==> {
            let queue = old(lot).threads(old(memory).nodes());
            &&& call_ensures(validate, (old(lot).queue != 0,), parked is None)
            &&& parked is None ==> final(lot).threads(final(memory).nodes()) == queue.push(address)
                && final(memory).nodes()[address].state == WaitState::Parked(token)
            &&& parked is Some ==> parked == Some(ParkResult::Invalid) && final(lot).queue == old(lot).queue
                && final(memory).nodes() == old(memory).nodes()
        },
        call_ensures(Parker::cancel::<M, C>, (lot, memory, address, cancel), cancelled) ==> {
            let queue = old(lot).threads(old(memory).nodes());
            let left = final(lot).threads(final(memory).nodes());
            &&& old(memory).nodes()[address].state matches WaitState::Unparked(token) ==> cancelled
                == ParkResult::Unparked(token) && final(lot).queue == old(lot).queue
            &&& old(memory).nodes()[address].state is Parked && queue.contains(address) ==> {
                &&& cancelled == ParkResult::Cancelled
                &&& left == queue.remove(queue.index_of(address))
                &&& left.len() + 1 == queue.len()
                &&& call_ensures(cancel, (left.len() > 0,), ())
                &&& forall|a: usize| (#[trigger] final(memory).nodes()[a]).state == old(memory).nodes()[a].state
                &&& forall|a: usize|
                    !queue.contains(a) ==> #[trigger] final(memory).nodes()[a] == old(memory).nodes()[a]
            }
        },
        call_ensures(Parker::unparked::<M>, (&*old(memory), address), cancelled) && old(memory).nodes()[address].state == WaitState::Unparked(token) ==> cancelled == ParkResult::Unparked(token),
{
}

/// The fields of the state of a raw mutex as numbers: one if it is held, plus two if
/// threads may be parked.
proof fn state_numbers(s: u8)
    ensures
        raw_mutex::is_locked(s) <==> s % 2 == 1,
        raw_mutex::is_parked(s) <==> (s / 2) % 2 == 1,
        s % 2 == 0 ==> raw_mutex::with_lock(s) == s + 1,
        (s / 2) % 2 == 0 ==> raw_mutex::with_parked(s) == s + 2,
        (s / 2) % 2 == 1 ==> raw_mutex::without_parked(s) == s - 2,
        (s / 2) % 2 == 0 ==> raw_mutex::without_parked(s) == s,
        1u8 | 2u8 == 3,
{
    assert(s & 1 == s % 2) by (bit_vector);
    assert(s & 2 != 0 <==> (s / 2) % 2 == 1) by (bit_vector);
    assert(s & 1 == 0 ==> s | 1 == s + 1) by (bit_vector);
    assert(s & 2 == 0 ==> s | 2 == s + 2 && s & !2 == s) by (bit_vector);
    assert(s & 2 != 0 ==> s & !2 == s - 2) by (bit_vector);
    assert(1u8 | 2u8 == 3) by (bit_vector);
}

/// A thread that has seen the mutex free and finds the state unchanged has it with this
/// step, however often it has asked before and whoever is parked. Only a free mutex is
/// had.
pub proof fn free_raw_mutex_is_taken(
    before: AcquireAttempt,
    after: AcquireAttempt,
    state: u8,
    new_state: u8,
    step: AcquireStep,
)
    requires
        raw_mutex::acquire_steps(before, after, state, new_state, step),
    ensures
        before.state == Some(state) && state % 2 == 0 ==> step == AcquireStep::Acquired,
        step is Acquired ==> state % 2 == 0 && new_state == state + 1,
        !(step is Acquired) ==> new_state % 2 == state % 2,
        !(step is Cancelled),
{
    state_numbers(state);
    if before.state is Some {
        state_numbers(before.state->0);
    }
}

/// A thread that finds the mutex held asks whether it may go on without blocking, once for
/// each state that it sees. Where it may not it parks, and has set the mark before if it
/// was not set.
pub proof fn kept_out_thread_parks(
    before: AcquireAttempt,
    after: AcquireAttempt,
    state: u8,
    new_state: u8,
    step: AcquireStep,
    seen: u8,
)
    requires
        raw_mutex::acquire_steps(before, after, state, new_state, step),
    ensures
        before.state is None ==> step == AcquireStep::Continue && after.state == Some(state)
            && !after.refused && after.spin == before.spin && new_state == state,
        before.state == Some(seen) && seen % 2 == 1 && !before.refused ==> step == AcquireStep::Yield(
            YieldContext { contended: (seen / 2) % 2 == 1, iteration: before.spin },
        ) && after == before && new_state == state,
        before.state == Some(seen) && seen % 2 == 1 && before.refused && (seen / 2) % 2 == 1 ==> step
            == AcquireStep::Park && new_state == state,
        before.state == Some(seen) && seen % 2 == 1 && before.refused && (seen / 2) % 2 == 0 && state == seen
            ==> step == AcquireStep::Park && new_state == state + 2,
        before.state == Some(seen) && seen % 2 == 1 && before.refused && (seen / 2) % 2 == 0 && state != seen
            ==> step == AcquireStep::Continue && new_state == state && after.state == Some(state)
            && !after.refused && after.spin == before.spin,
        before.state == Some(seen) && seen % 2 == 0 && state != seen ==> step == AcquireStep::Continue
            && new_state == state && after.state == Some(state) && !after.refused && after.spin
            == before.spin,
{
    state_numbers(seen);
}

/// Nobody else in the way, a thread that begins to acquire a mutex that is free has it with
/// two steps, also where threads are parked.
pub proof fn lone_thread_acquires(
    a: AcquireAttempt,
    b: AcquireAttempt,
    c: AcquireAttempt,
    state: u8,
    looked: u8,
    new_state: u8,
    first: AcquireStep,
    second: AcquireStep,
)
    requires
        a.state is None,
        state % 2 == 0,
        raw_mutex::acquire_steps(a, b, state, looked, first),
        raw_mutex::acquire_steps(b, c, looked, new_state, second),
    ensures
        looked == state,
        second == AcquireStep::Acquired,
        new_state == state + 1,
{
    state_numbers(state);
}

/// Without waiting, a raw mutex is had if and only if it is free. A thread that begins to
/// acquire one has it at once if nobody is parked either.
pub proof fn free_raw_mutex_is_had_at_once<T>(
    mutex: &mut GenericRawMutex,
    guarded: &mut GenericMutex<T>,
    acquired: bool,
    attempt: Option<AcquireAttempt>,
    attempting: &mut AcquireAttempt,
    step: AcquireStep,
)
    ensures
        call_ensures(GenericRawMutex::try_lock, (mutex,), acquired) ==> {
            &&& acquired <==> old(mutex).state % 2 == 0
            &&& final(mutex).state == old(mutex).state + (if acquired {
                1int
            } else {
                0
            })
            &&& final(mutex).parker == old(mutex).parker
        },
        call_ensures(GenericMutex::<T>::try_lock, (guarded,), acquired) ==> {
            &&& acquired <==> old(guarded).raw_mutex.state % 2 == 0
            &&& final(guarded).raw_mutex.state == old(guarded).raw_mutex.state + (if acquired {
                1int
            } else {
                0
            })
            &&& final(guarded).value == old(guarded).value
        },
        call_ensures(GenericRawMutex::acquire, (mutex,), attempt) ==> {
            &&& attempt is None <==> old(mutex).state == 0
            &&& final(mutex).state == old(mutex).state + (if attempt is None {
                1int
            } else {
                0
            })
            &&& final(mutex).parker == old(mutex).parker
            &&& attempt matches Some(a) ==> a.state is None && a.spin == 0 && !a.refused
        },
        call_ensures(GenericMutex::<T>::lock, (guarded,), attempt) ==> {
            &&& attempt is None <==> old(guarded).raw_mutex.state == 0
            &&& final(guarded).raw_mutex.state == old(guarded).raw_mutex.state + (if attempt is None {
                1int
            } else {
                0
            })
            &&& final(guarded).value == old(guarded).value
            &&& attempt matches Some(a) ==> a.state is None && a.spin == 0 && !a.refused
        },
        call_ensures(GenericRawMutex::acquire_slow, (mutex, attempting), step) ==> final(mutex).parker == old(mutex).parker && raw_mutex::acquire_steps(
            *old(attempting),
            *final(attempting),
            old(mutex).state,
            final(mutex).state,
            step,
        ),
{
    state_numbers(old(mutex).state);
    state_numbers(old(guarded).raw_mutex.state);
}

/// A mutex that is released is free at once if nobody is parked. Otherwise the one that
/// releases it goes on to unpark.
pub proof fn released_raw_mutex_is_free<T>(
    mutex: &mut GenericRawMutex,
    guarded: &mut GenericMutex<T>,
    done: bool,
    contended: bool,
)
    ensures
        call_ensures(GenericRawMutex::release, (mutex,), done) ==> {
            &&& done <==> old(mutex).state == 1
            &&& final(mutex).state == old(mutex).state - (if done {
                1int
            } else {
                0
            })
            &&& final(mutex).parker == old(mutex).parker
        },
        call_ensures(GenericMutex::<T>::force_unlock, (guarded,), done) || call_ensures(
            GenericMutex::<T>::force_unlock_fair,
            (guarded,),
            done,
        ) ==> {
            &&& done <==> old(guarded).raw_mutex.state == 1
            &&& final(guarded).raw_mutex.state == old(guarded).raw_mutex.state - (if done {
                1int
            } else {
                0
            })
            &&& final(guarded).value == old(guarded).value
        },
        call_ensures(GenericRawMutex::bump, (&*old(mutex),), contended) ==> (contended <==> (old(mutex).state / 2) % 2 == 1),
{
    state_numbers(old(mutex).state);
}

/// Releasing a contended mutex unparks the thread that was parked first. A fair release
/// keeps the mutex held for that thread, and tells it so by its token; another leaves it
/// free. The mark stays exactly as long as threads are parked.
pub proof fn release_unparks_the_first<M: Memory<Waiter>>(
    mutex: &mut GenericRawMutex,
    memory: &mut M,
    be_fair: bool,
    list: WaiterList,
)
    requires
        old(mutex).state == 3,
        call_ensures(GenericRawMutex::release_slow::<M>, (mutex, memory, be_fair), list),
    ensures
        ({
            let queue = old(mutex).threads(old(memory).nodes());
            let left = final(mutex).threads(final(memory).nodes());
            &&& queue.len() == 0 ==> final(mutex).state == 0 && list@.len() == 0 && left.len() == 0
            &&& queue.len() > 0 ==> {
                &&& list@ == seq![queue[0]]
                &&& left == queue.drop_first()
                &&& final(mutex).state % 2 == (if be_fair {
                    1int
                } else {
                    0
                })
                &&& (final(mutex).state / 2) % 2 == (if left.len() > 0 {
                    1int
                } else {
                    0
                })
                &&& final(mutex).state < 4
                &&& final(memory).nodes()[queue[0]].state == WaitState::Unparked(
                    if be_fair {
                        2
                    } else {
                        1
                    },
                )
            }
        }),
{
}

/// A thread parks only on a mutex that is held and marked. One that gives up takes the mark
/// with it exactly if it was the last one.
pub proof fn raw_mutex_threads_come_and_go<M: Memory<Waiter>>(
    mutex: &mut GenericRawMutex,
    memory: &mut M,
    address: usize,
    parked: Option<ParkResult>,
    cancelled: ParkResult,
)
    ensures
        call_ensures(GenericRawMutex::park::<M>, (mutex, memory, address), parked) ==> {
            let queue = old(mutex).threads(old(memory).nodes());
            &&& parked is None <==> old(mutex).state == 3
            &&& final(mutex).state == old(mutex).state
            &&& parked is None ==> final(mutex).threads(final(memory).nodes()) == queue.push(address)
                && final(memory).nodes()[address].state is Parked
            &&& parked is Some ==> parked == Some(ParkResult::Invalid) && final(memory).nodes() == old(memory).nodes()
        },
        call_ensures(GenericRawMutex::cancel::<M>, (mutex, memory, address), cancelled) ==> {
            let queue = old(mutex).threads(old(memory).nodes());
            let left = final(mutex).threads(final(memory).nodes());
            &&& old(memory).nodes()[address].state matches WaitState::Unparked(token) ==> cancelled
                == ParkResult::Unparked(token) && *final(mutex) == *old(mutex)
            &&& old(memory).nodes()[address].state is Parked && queue.contains(address) ==> {
                &&& cancelled == ParkResult::Cancelled
                &&& left == queue.remove(queue.index_of(address))
                &&& left.len() > 0 ==> final(mutex).state == old(mutex).state
                &&& left.len() == 0 && (old(mutex).state / 2) % 2 == 1 ==> final(mutex).state == old(mutex).state - 2
            }
        },
{
    state_numbers(old(mutex).state);
}

/// A thread that comes back from parking has the mutex if it was handed over, gives up if
/// it was cancelled, and begins anew otherwise.
pub proof fn thread_comes_back(attempt: &mut AcquireAttempt, result: ParkResult, step: AcquireStep, allowed: bool)
    ensures
        call_ensures(AcquireAttempt::returned, (attempt, result), step) ==> {
            &&& result == ParkResult::Unparked(2) ==> step == AcquireStep::Acquired
            &&& result == ParkResult::Cancelled ==> step == AcquireStep::Cancelled
            &&& result == ParkResult::Unparked(1) || result == ParkResult::Invalid ==> step
                == AcquireStep::Continue && final(attempt).state is None && final(attempt).spin == 0
                && !final(attempt).refused
        },
        call_ensures(AcquireAttempt::yielded, (attempt, allowed), ()) && allowed ==> final(attempt).state is None
            && (old(attempt).spin < usize::MAX ==> final(attempt).spin == old(attempt).spin + 1),
        call_ensures(AcquireAttempt::yielded, (attempt, allowed), ()) && !allowed ==> final(attempt).refused
            && final(attempt).state == old(attempt).state && final(attempt).spin == old(attempt).spin,
{
}

} // verus!
