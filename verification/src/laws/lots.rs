//! Laws of the parking lot of tasks, of the locked parking lot, and of the event that tasks
//! wait for.
use crate::future::reset_event::{EventPoll, RawResetEvent, RawWaitForEventFuture, WaitNodeState};
use crate::lock_word;
use crate::lock_word::{Attempt, AttemptStep, Backoff, Dequeue, DequeuePhase, DequeueStep};
use crate::parker::parker;
use crate::parker::parker::{
    ParkNode, ParkPoll, ParkResult, ParkState, Parker, PollPhase, PollStep, UnparkContext, UnparkList, UnparkResult,
};
use crate::queue::{Memory, Node};
use crate::shared;
use crate::sync;
use vstd::prelude::*;

verus! {

/// The number of a state is read back as that state, of a number only the lowest two bits
/// count.
pub proof fn task_states_are_numbers(state: ParkState, value: usize, number: usize, read: ParkState, waiting: bool)
    ensures
        call_ensures(ParkState::number, (state,), number) ==> number == (match state {
            ParkState::Waiting => 0int,
            ParkState::Updating => 1,
            ParkState::Unparked => 2,
            ParkState::Cancelled => 3,
        }),
        call_ensures(ParkState::from, (value,), read) ==> read == (if value % 4 == 0 {
            ParkState::Waiting
        } else if value % 4 == 1 {
            ParkState::Updating
        } else if value % 4 == 2 {
            ParkState::Unparked
        } else {
            ParkState::Cancelled
        }),
        call_ensures(ParkPoll::needs_removal, (value,), waiting) ==> (waiting <==> value % 4 == 0),
{
}

/// What a filter is told of the tasks before, and what it then adds to.
pub proof fn task_filter_is_told_what_it_did(
    queue: Seq<usize>,
    answers: Seq<(UnparkResult, usize)>,
    i: int,
)
    requires
        answers.len() <= queue.len() <= usize::MAX,
        0 <= i < answers.len(),
    ensures
        ({
            let first = parker::told(queue, answers, 0);
            let now = parker::told(queue, answers, i);
            let next = parker::told(queue, answers, i + 1);
            &&& first.unparked == 0
            &&& first.skipped == 0
            &&& now.has_more <==> i + 1 < queue.len()
            &&& next.unparked == now.unparked + (if answers[i].0 is Unpark {
                1int
            } else {
                0
            })
            &&& next.skipped == now.skipped + (if answers[i].0 is Skip {
                1int
            } else {
                0
            })
        }),
{
    let decisions = parker::all_decisions(answers);
    super::parking::filter_is_told_what_it_did(queue, decisions, i);
    assert(parker::all_decisions(answers.take(0)) =~= decisions.take(0));
    assert(parker::all_decisions(answers.take(i)) =~= decisions.take(i));
    assert(parker::all_decisions(answers.take(i + 1)) =~= decisions.take(i + 1));
}

/// What comes of it tells how many tasks were unparked and skipped, and that there are more
/// exactly if some task was not unparked.
pub proof fn task_outcome_tells_who_is_left(queue: Seq<usize>, answers: Seq<(UnparkResult, usize)>)
    requires
        queue.no_duplicates(),
        answers.len() <= queue.len() <= usize::MAX,
    ensures
        ({
            let all = parker::outcome(queue, answers);
            let last = parker::told(queue, answers, answers.len() as int);
            &&& all.unparked == last.unparked
            &&& all.skipped == last.skipped
            &&& !all.has_more <==> answers.len() == queue.len() && forall|i: int|
                0 <= i < answers.len() ==> (#[trigger] answers[i]).0 is Unpark
        }),
{
    let decisions = parker::all_decisions(answers);
    super::parking::outcome_tells_who_is_left(queue, decisions);
    assert(answers.take(answers.len() as int) =~= answers);
    assert forall|i: int| 0 <= i < answers.len() implies (decisions[i] is Unpark <==> (#[trigger] answers[i]).0
        is Unpark) by {}
    if forall|i: int| 0 <= i < decisions.len() ==> #[trigger] decisions[i] is Unpark {
        assert forall|i: int| 0 <= i < answers.len() implies (#[trigger] answers[i]).0 is Unpark by {
            assert(decisions[i] is Unpark);
        }
    }
    if forall|i: int| 0 <= i < answers.len() ==> (#[trigger] answers[i]).0 is Unpark {
        assert forall|i: int| 0 <= i < decisions.len() implies #[trigger] decisions[i] is Unpark by {
            assert(answers[i].0 is Unpark);
        }
    }
}

/// Each task that is asked about has the token of the answer afterwards, and knows that it
/// was unparked exactly if that was the answer. Other tasks are untouched.
pub proof fn task_answers_are_carried_out(
    before: Map<usize, ParkNode>,
    after: Map<usize, ParkNode>,
    queue: Seq<usize>,
    answers: Seq<(UnparkResult, usize)>,
    i: int,
    other: usize,
)
    requires
        queue.no_duplicates(),
        answers.len() <= queue.len(),
        parker::all_marked(before, after, queue, answers),
    ensures
        0 <= i < answers.len() ==> after[queue[i]].token == answers[i].1 && after[queue[i]].state == (
        if answers[i].0 is Unpark {
            2
        } else {
            before[queue[i]].state
        }),
        answers.len() <= i < queue.len() ==> after[queue[i]] == before[queue[i]],
        !queue.contains(other) ==> after[other] == before[other],
        after.dom() =~= before.dom(),
{
    if answers.len() <= i < queue.len() {
        assert(!queue.take(answers.len() as int).contains(queue[i])) by {
            if queue.take(answers.len() as int).contains(queue[i]) {
                let k = choose|k: int|
                    0 <= k < answers.len() && queue.take(answers.len() as int)[k] == queue[i];
                assert(queue[k] == queue[i]);
            }
        }
    }
    if !queue.contains(other) {
        assert(!queue.take(answers.len() as int).contains(other)) by {
            if queue.take(answers.len() as int).contains(other) {
                let k = choose|k: int| 0 <= k < answers.len() && queue.take(answers.len() as int)[k] == other;
                assert(queue[k] == other);
            }
        }
    }
}

/// Exactly those are notified that are unparked while they wait.
pub proof fn waiting_tasks_are_notified(
    nodes: Map<usize, ParkNode>,
    queue: Seq<usize>,
    answers: Seq<(UnparkResult, usize)>,
    a: usize,
)
    requires
        answers.len() <= queue.len(),
    ensures
        parker::notified(nodes, queue, answers).contains(a) <==> exists|i: int|
            0 <= i < answers.len() && #[trigger] queue[i] == a && answers[i].0 is Unpark && nodes[a].state % 4
                == 0,
    decreases answers.len(),
{
    if answers.len() > 0 {
        let fewer = answers.drop_last();
        waiting_tasks_are_notified(nodes, queue, fewer, a);
        let n = answers.len() - 1;
        let before = parker::notified(nodes, queue, fewer);
        let all = parker::notified(nodes, queue, answers);
        if before.contains(a) {
            let i = choose|i: int|
                0 <= i < fewer.len() && #[trigger] queue[i] == a && fewer[i].0 is Unpark && nodes[a].state % 4
                    == 0;
            assert(queue[i] == a && answers[i].0 is Unpark);
            let k = choose|k: int| 0 <= k < before.len() && before[k] == a;
            assert(all[k] == a);
        }
        if queue[n] == a && answers[n].0 is Unpark && nodes[a].state % 4 == 0 {
            assert(all[before.len() as int] == a);
        }
        if exists|i: int|
            0 <= i < answers.len() && #[trigger] queue[i] == a && answers[i].0 is Unpark && nodes[a].state % 4
                == 0 {
            let i = choose|i: int|
                0 <= i < answers.len() && #[trigger] queue[i] == a && answers[i].0 is Unpark && nodes[a].state
                    % 4 == 0;
            if i < n {
                assert(queue[i] == a && fewer[i].0 is Unpark);
            }
        }
    }
}

/// Unparking tasks tells how many were unparked and that there are more exactly if tasks
/// are still parked. None is lost, and the list holds those that are to be notified.
pub proof fn task_unparking_is_reported<
    M: Memory<ParkNode>,
    F: FnMut(UnparkContext, usize) -> (UnparkResult, usize),
>(lot: &mut Parker, memory: &mut M, filter: F, output: (UnparkContext, UnparkList))
    requires
        old(lot).wf(old(memory).nodes()),
        call_ensures(Parker::unpark::<M, F>, (lot, memory, filter), output),
    ensures
        ({
            let queue = old(lot).queue.value@;
            let left = final(lot).queue.value@;
            let nodes = old(memory).nodes();
            &&& output.0.has_more <==> left.len() > 0
            &&& output.0.unparked + left.len() == queue.len()
            &&& final(lot).queue.state == old(lot).queue.state
            &&& exists|answers: Seq<(UnparkResult, usize)>| #[trigger]
                parker::all_marked(nodes, final(memory).nodes(), queue, answers) && {
                    &&& answers.len() <= queue.len()
                    &&& answers.len() < queue.len() ==> answers.len() > 0 && answers.last().0 is Stop
                    &&& output.0 == parker::outcome(queue, answers)
                    &&& output.1@ == parker::notified(nodes, queue, answers)
                    &&& forall|i: int|
                        0 <= i < answers.len() ==> {
                            &&& call_ensures(
                                filter,
                                (parker::told(queue, answers, i), nodes[queue[i]].token),
                                #[trigger] answers[i],
                            )
                            &&& i < answers.len() - 1 ==> !(answers[i].0 is Stop)
                        }
                }
        }),
{
    let queue = old(lot).queue.value@;
    let nodes = old(memory).nodes();
    let answers = choose|answers: Seq<(UnparkResult, usize)>| #[trigger]
        parker::answers_all(filter, nodes, queue, answers) && parker::all_marked(
            nodes,
            final(memory).nodes(),
            queue,
            answers,
        ) && final(lot).queue.value@ == sync::parker::left_parked(queue, parker::all_decisions(answers))
            && output.0 == parker::outcome(queue, answers) && output.1@ == parker::notified(
            nodes,
            queue,
            answers,
        );
    assert(parker::all_marked(nodes, final(memory).nodes(), queue, answers));
    assert(queue.len() == old(lot).queue.value.len());
    woken_and_left(queue, parker::all_decisions(answers));
}

proof fn woken_and_left(queue: Seq<usize>, decisions: Seq<sync::parker::UnparkFilter>)
    requires
        decisions.len() <= queue.len(),
    ensures
        sync::parker::woken(queue, decisions).len() + sync::parker::kept(queue, decisions).len()
            == decisions.len(),
        sync::parker::woken(queue, decisions).len() + sync::parker::left_parked(queue, decisions).len()
            == queue.len(),
    decreases decisions.len(),
{
    if decisions.len() > 0 {
        woken_and_left(queue, decisions.drop_last());
    }
}

/// Unparking one task unparks the one that was parked first, with the token that it is
/// given.
pub proof fn first_task_is_unparked<M: Memory<ParkNode>, F: FnOnce(UnparkContext, usize) -> usize>(
    lot: &mut Parker,
    memory: &mut M,
    modify: F,
    output: (UnparkContext, Option<usize>),
)
    requires
        call_ensures(Parker::unpark_one::<M, F>, (lot, memory, modify), output),
    ensures
        ({
            let queue = old(lot).queue.value@;
            let left = final(lot).queue.value@;
            &&& output.0.has_more <==> left.len() > 0
            &&& output.0.unparked + left.len() == queue.len()
            &&& output.0.skipped == 0
            &&& final(lot).queue.state == old(lot).queue.state
            &&& queue.len() == 0 ==> output.1 is None && left.len() == 0
            &&& queue.len() > 0 ==> {
                let node = final(memory).nodes()[queue[0]];
                &&& left == queue.drop_first()
                &&& output.1 == (if old(memory).nodes()[queue[0]].state % 4 == 0 {
                    Some(queue[0])
                } else {
                    None
                })
                &&& node.state == 2
                &&& call_ensures(
                    modify,
                    (
                        UnparkContext { has_more: queue.len() > 1, unparked: 0, skipped: 0 },
                        old(memory).nodes()[queue[0]].token,
                    ),
                    node.token,
                )
                &&& forall|a: usize| a != queue[0] ==> #[trigger] final(memory).nodes()[a] == old(memory).nodes()[a]
            }
        }),
{
}

/// A task parks behind all others unless it is turned away. One that is taken out leaves the
/// others in their order and is told whether it was the last.
pub proof fn tasks_come_and_go<M: Memory<ParkNode>, P: FnOnce() -> Result<usize, ()>>(
    lot: &mut Parker,
    memory: &mut M,
    address: usize,
    prepare: P,
    parked: Option<ParkResult>,
    removed: Result<bool, ()>,
)
    ensures
        call_ensures(Parker::park::<M, P>, (lot, memory, address, prepare), parked) ==> {
            &&& parked is None ==> final(lot).queue.value@ == old(lot).queue.value@.push(address)
                && call_ensures(prepare, (), Ok::<usize, ()>(final(memory).nodes()[address].token))
            &&& parked is Some ==> parked == Some(ParkResult::Unprepared) && call_ensures(
                prepare,
                (),
                Err::<usize, ()>(()),
            ) && final(lot).queue.value@ == old(lot).queue.value@ && final(memory).nodes() == old(memory).nodes()
        },
        call_ensures(Parker::remove, (lot, address), removed) ==> {
            let queue = old(lot).queue.value@;
            let left = final(lot).queue.value@;
            &&& removed is Ok <==> queue.contains(address)
            &&& removed is Ok ==> left == queue.remove(queue.index_of(address)) && removed == Ok::<bool, ()>(
                left.len() == 0,
            )
            &&& removed is Err ==> left == queue
        },
{
}

/// A list of tasks holds all that were pushed, in that order, however many.
pub proof fn lists_hold_all(list: &mut UnparkList, node: usize, nodes: Vec<usize>, pushed: Vec<usize>)
    requires
        call_ensures(UnparkList::iter, (&*old(list),), nodes),
        call_ensures(UnparkList::push, (list, node), ()),
        call_ensures(UnparkList::iter, (&*final(list),), pushed),
    ensures
        pushed@ == nodes@.push(node),
{
}

/// A task that is polled looks at its state. While it waits it waits once, then stores its
/// waker, and is pending if it still waits then. Once it was unparked or cancelled it is
/// done, with its token.
pub proof fn polling_follows_the_state(
    before: ParkPoll,
    after: ParkPoll,
    state: usize,
    new_state: usize,
    token: usize,
    step: PollStep,
    seen: usize,
)
    requires
        parker::poll_steps(before, after, state, new_state, token, step),
    ensures
        after.has_cancel == before.has_cancel,
        before.phase == PollPhase::Look && before.state is None ==> step == PollStep::Continue && after.state
            == Some(state) && after.phase == PollPhase::Look && after.has_wait == before.has_wait && new_state
            == state,
        before.phase == PollPhase::Look && before.state == Some(seen) && seen % 4 == 0 && before.has_wait
            ==> step == PollStep::Wait && !after.has_wait && new_state == state && after.phase
            == PollPhase::Look,
        before.phase == PollPhase::Look && before.state == Some(seen) && seen % 4 == 0 && !before.has_wait
            && state == seen ==> step == PollStep::StoreWaker && new_state == 1 && after.phase
            == PollPhase::Publish,
        before.phase == PollPhase::Look && before.state == Some(seen) && seen % 4 == 0 && !before.has_wait
            && state != seen ==> step == PollStep::Continue && new_state == state && after.state == Some(state)
            && after.phase == PollPhase::Look,
        before.phase == PollPhase::Look && before.state == Some(seen) && seen % 4 == 2 ==> step
            == PollStep::Ready(ParkResult::Unparked(token)) && new_state == state,
        before.phase == PollPhase::Look && before.state == Some(seen) && seen % 4 == 3 ==> step
            == PollStep::Ready(ParkResult::Cancelled(token)) && new_state == state,
        before.phase == PollPhase::Publish && state == 1 ==> step == PollStep::Pending && new_state == 0,
        before.phase == PollPhase::Publish && state != 1 ==> step == PollStep::DropWaker && new_state == state
            && after.state == Some(state) && after.phase == PollPhase::Look,
{
}

/// A task that gives up is cancelled if it was still parked, and is told so once with its
/// token and whether it was the last. Otherwise it looks again.
pub proof fn giving_up_is_told_once<M: Memory<ParkNode>>(
    poll: &mut ParkPoll,
    memory: &mut M,
    state: &mut usize,
    token: usize,
    address: usize,
    removed: Result<bool, ()>,
    told: Option<(usize, bool)>,
    gave_up: bool,
    cancel: bool,
    step: PollStep,
)
    ensures
        call_ensures(ParkPoll::poll, (poll, state, token), step) ==> parker::poll_steps(
            *old(poll),
            *final(poll),
            *old(state),
            *final(state),
            token,
            step,
        ),
        call_ensures(ParkPoll::waited, (poll, gave_up), cancel) ==> (cancel <==> gave_up) && final(poll).has_wait
            == old(poll).has_wait && final(poll).has_cancel == old(poll).has_cancel && final(poll).phase == old(poll).phase && (!gave_up ==> final(poll).state is None) && (gave_up ==> final(poll).state == old(poll).state),
        call_ensures(ParkPoll::cancelled::<M>, (poll, memory, address, removed), told) ==> {
            let node = old(memory).nodes()[address];
            let new_node = final(memory).nodes()[address];
            &&& removed is Ok ==> told == (if old(poll).has_cancel {
                Some((node.token, removed->Ok_0))
            } else {
                None
            })
            &&& removed is Ok ==> !final(poll).has_cancel && final(poll).state == Some(3usize) && new_node.state
                == 3 && new_node.token == node.token
            &&& removed is Err ==> told is None && final(poll).state is None && final(poll).has_cancel == old(poll).has_cancel && new_node == node
            &&& forall|a: usize| a != address ==> #[trigger] final(memory).nodes()[a] == old(memory).nodes()[a]
        },
{
}

/// The locked parking lot is locked like a lock word, of which a thread that finds it taken
/// knows the word already.
pub proof fn locked_lot_is_a_lock_word<M: Memory<Node>>(
    lot: &mut shared::parker::Parker,
    a: &mut Attempt,
    d: &mut Dequeue,
    memory: &mut M,
    attempt: Option<Attempt>,
    dequeue: Option<Dequeue>,
    step: AttemptStep,
    woken: DequeueStep,
)
    ensures
        call_ensures(shared::parker::Parker::lock, (lot,), attempt) ==> {
            &&& attempt is None <==> old(lot).state == 0
            &&& final(lot).state == old(lot).state + (if attempt is None {
                1int
            } else {
                0
            })
            &&& final(lot).queue == old(lot).queue
            &&& attempt matches Some(a) ==> a.state == Some(old(lot).state) && a.spin == 0 && !a.refused
                && !a.queued && a.node is None && a.backoff == Backoff::Ask
        },
        old(lot).state % 2 == 1 && call_ensures(shared::parker::Parker::unlock, (lot,), dequeue) ==> {
            &&& final(lot).state == old(lot).state - 1
            &&& final(lot).queue == old(lot).queue
            &&& dequeue is Some <==> old(lot).state >= 4 && (old(lot).state / 2) % 2 == 0
            &&& dequeue matches Some(d) ==> d.state == Some(final(lot).state) && d.phase
                == DequeuePhase::LockQueue && d.sees_own_flag
        },
        call_ensures(shared::parker::Parker::lock_slow::<M>, (lot, a, memory), step) ==> final(lot).queue == old(lot).queue && lock_word::attempt_steps(
            *old(a),
            *final(a),
            old(lot).state,
            final(lot).state,
            old(memory).nodes(),
            final(memory).nodes(),
            step,
        ),
        call_ensures(shared::parker::Parker::unlock_slow::<M>, (lot, d, memory), woken) ==> final(lot).queue
            == old(lot).queue && lock_word::dequeue_steps(
            *old(d),
            *final(d),
            old(lot).state,
            final(lot).state,
            old(memory).nodes(),
            final(memory).nodes(),
            woken,
        ),
{
    super::words::word_numbers(old(lot).state, 0);
}

/// Unparking from the locked parking lot tells the callback, and whoever asked, how many
/// threads were unparked and that there are more exactly if some were not asked about. The
/// threads that are woken and those that stay are all that were parked.
pub proof fn locked_lot_unparking_is_reported<
    M: Memory<sync::parker::Waiter>,
    F: FnMut(shared::parker::ParkToken) -> shared::parker::UnparkFilter,
    C: FnOnce(shared::parker::UnparkResult),
>(
    lot: &mut shared::parker::Parker,
    memory: &mut M,
    filter: F,
    callback: C,
    output: (shared::parker::UnparkResult, sync::parker::WaiterList),
)
    requires
        old(lot).queue.wf(old(memory).nodes()),
        call_ensures(shared::parker::Parker::unpark::<M, F, C>, (lot, memory, filter, callback), output),
    ensures
        call_ensures(callback, (output.0,), ()),
        ({
            let queue = old(lot).queue.threads(old(memory).nodes());
            let left = final(lot).queue.threads(final(memory).nodes());
            let nodes = old(memory).nodes();
            let new_nodes = final(memory).nodes();
            &&& output.0.unparked == output.1@.len()
            &&& output.1@.len() + left.len() == queue.len()
            &&& final(lot).state == old(lot).state
            &&& exists|filters: Seq<shared::parker::UnparkFilter>| #[trigger]
                shared::parker::decides(filter, nodes, queue, filters) && {
                    &&& filters.len() <= queue.len()
                    &&& output.0.has_more <==> filters.len() < queue.len()
                    &&& filters.len() < queue.len() ==> filters.len() > 0 && filters.last() is Stop
                    &&& forall|i: int| 0 <= i < filters.len() - 1 ==> !(#[trigger] filters[i] is Stop)
                    &&& forall|i: int|
                        0 <= i < filters.len() ==> call_ensures(
                            filter,
                            (shared::parker::ParkToken(nodes[queue[i]].state->Parked_0),),
                            #[trigger] filters[i],
                        )
                    &&& forall|i: int|
                        0 <= i < filters.len() ==> ((#[trigger] filters[i]) matches
                            shared::parker::UnparkFilter::Unpark(token) ==> new_nodes[queue[i]].state
                            == sync::parker::WaitState::Unparked(token.0))
                    &&& forall|i: int|
                        0 <= i < filters.len() ==> (!((#[trigger] filters[i]) is Unpark)
                            ==> new_nodes[queue[i]].state == nodes[queue[i]].state)
                }
        }),
{
    let queue = old(lot).queue.threads(old(memory).nodes());
    assert(sync::parker::is_list(old(memory).nodes(), old(lot).queue.queue, queue));
    let filters = choose|filters: Seq<shared::parker::UnparkFilter>| #[trigger]
        shared::parker::decides(filter, old(memory).nodes(), queue, filters) && shared::parker::unparks(
            queue,
            final(lot).queue.threads(final(memory).nodes()),
            old(memory).nodes(),
            final(memory).nodes(),
            filters,
            output.0,
            output.1@,
        );
    let decisions = shared::parker::all_plain(filters);
    sync::parker::threads_are_countable(queue);
    woken_and_left(queue, decisions);
    assert(shared::parker::decides(filter, old(memory).nodes(), queue, filters));
    assert forall|i: int| 0 <= i < filters.len() implies ((#[trigger] filters[i]) matches
        shared::parker::UnparkFilter::Unpark(token) ==> final(memory).nodes()[queue[i]].state
        == sync::parker::WaitState::Unparked(token.0)) by {
        assert(decisions[i] == shared::parker::plain(filters[i]));
    }
    assert forall|i: int| 0 <= i < filters.len() implies (!((#[trigger] filters[i]) is Unpark)
        ==> final(memory).nodes()[queue[i]].state == old(memory).nodes()[queue[i]].state) by {
        assert(decisions[i] == shared::parker::plain(filters[i]));
    }
}

/// A thread parks in the locked parking lot behind all others unless it is turned away. It
/// is cancelled only while it waits.
pub proof fn locked_lot_threads_come_and_go<M: Memory<sync::parker::Waiter>, V: FnOnce() -> bool>(
    lot: &mut shared::parker::Parker,
    memory: &mut M,
    address: usize,
    token: shared::parker::ParkToken,
    validate: V,
    parked: Option<shared::parker::ParkResult>,
    waiter: &mut shared::parker::ParkWaiter,
    cancelled: bool,
    made: bool,
    needed: bool,
)
    ensures
        call_ensures(
            shared::parker::Parker::park::<M, V>,
            (lot, memory, address, token, validate),
            parked,
        ) ==> {
            &&& call_ensures(validate, (), parked is None)
            &&& final(lot).state == old(lot).state
            &&& parked is None ==> final(lot).queue.threads(final(memory).nodes()) == old(lot).queue.threads(
                old(memory).nodes(),
            ).push(address) && final(memory).nodes()[address].state == sync::parker::WaitState::Parked(token.0)
            &&& parked is Some ==> parked == Some(shared::parker::ParkResult::Invalid) && final(memory).nodes()
                == old(memory).nodes() && final(lot).queue == old(lot).queue
        },
        call_ensures(shared::parker::ParkWaiter::cancel_park, (waiter,), cancelled) ==> (cancelled <==> old(waiter).state == 1) && final(waiter).state == (if old(waiter).state == 1 {
            4
        } else {
            old(waiter).state
        }),
        call_ensures(shared::parker::ParkWaiter::has_event, (&*old(waiter),), made) ==> (made <==> old(waiter).state != 0),
        call_ensures(shared::parker::ParkWaiter::needs_cancel, (&*old(waiter),), needed) ==> (needed <==> old(waiter).state == 1),
{
}

/// The states of a parked thread are numbers and are read back from them.
pub proof fn thread_states_are_numbers(
    state: shared::parker::ParkState,
    number: usize,
    read: shared::parker::ParkState,
)
    requires
        call_ensures(shared::parker::ParkState::number, (state,), number),
    ensures
        number == (match state {
            shared::parker::ParkState::Uninit => 0int,
            shared::parker::ParkState::Waiting => 1,
            shared::parker::ParkState::Updating => 2,
            shared::parker::ParkState::Unparking => 3,
            shared::parker::ParkState::Cancelling => 4,
            shared::parker::ParkState::Unparked => 5,
        }),
        call_ensures(shared::parker::ParkState::from, (number,), read) ==> read == state,
{
}

/// A task that waits for an event is ready if it was notified, or if it did not wait before
/// and the event is set. Otherwise it is pending and known to the event.
pub proof fn waiting_for_a_task_event<M: Memory<WaitNodeState>>(
    event: &mut RawResetEvent,
    future: &mut RawWaitForEventFuture,
    memory: &mut M,
    address: usize,
    poll: EventPoll,
)
    ensures
        (call_ensures(RawResetEvent::poll::<M>, (event, memory, address), poll) || call_ensures(
            RawWaitForEventFuture::poll::<M>,
            (future, event, memory),
            poll,
        ) && old(future).node == address) ==> {
            let state = old(memory).nodes()[address];
            &&& poll == EventPoll::Ready <==> state == WaitNodeState::Notified || state == WaitNodeState::Reset
                && old(event).is_set
            &&& final(event).is_set == old(event).is_set
            &&& state == WaitNodeState::Reset && !old(event).is_set ==> final(event).waiting@ == old(event).waiting@.push(address) && final(memory).nodes()[address] == WaitNodeState::Waiting
            &&& state != WaitNodeState::Reset || old(event).is_set ==> final(event).waiting@ == old(event).waiting@ && final(memory).nodes() == old(memory).nodes()
        },
        call_ensures(RawWaitForEventFuture::poll::<M>, (future, event, memory), poll) ==> final(future).node
            == old(future).node && (final(future).terminated <==> old(memory).nodes()[old(future).node]
            == WaitNodeState::Reset && old(event).is_set),
{
}

/// Setting the event notifies all who wait, in the order in which they came, and nobody
/// else. Resetting it forgets nobody, and a task that ends is forgotten alone.
pub proof fn setting_notifies_all_who_wait<M: Memory<WaitNodeState>>(
    event: &mut RawResetEvent,
    future: RawWaitForEventFuture,
    memory: &mut M,
    woken: Vec<usize>,
    address: usize,
    set: bool,
)
    ensures
        call_ensures(RawResetEvent::set::<M>, (event, memory), woken) ==> {
            &&& final(event).is_set
            &&& final(event).waiting@.len() == 0
            &&& woken@ == old(event).waiting@
            &&& old(event).waiting@.contains(address) ==> final(memory).nodes()[address] == WaitNodeState::Notified
            &&& !old(event).waiting@.contains(address) ==> final(memory).nodes()[address] == old(memory).nodes()[address]
        },
        call_ensures(RawResetEvent::reset, (event,), ()) ==> !final(event).is_set && final(event).waiting@
            == old(event).waiting@,
        call_ensures(RawResetEvent::is_set, (&*old(event),), set) ==> set == old(event).is_set,
        (call_ensures(RawResetEvent::forget::<M>, (event, memory, address), ()) || call_ensures(
            RawWaitForEventFuture::end::<M>,
            (future, event, memory),
            (),
        ) && future.node == address && !future.terminated) ==> {
            &&& final(event).is_set == old(event).is_set
            &&& old(memory).nodes()[address] == WaitNodeState::Waiting ==> final(event).waiting@ == old(event).waiting@.remove(old(event).waiting@.index_of(address)) && final(memory).nodes()[address]
                == WaitNodeState::Reset
            &&& old(memory).nodes()[address] != WaitNodeState::Waiting ==> final(event).waiting@ == old(event).waiting@ && final(memory).nodes() == old(memory).nodes()
        },
{
}

} // verus!
