//! Laws of the lock word that can be handed over, and of the task mutex on it.
use super::words;
use crate::futures::mutex;
use crate::futures::mutex::{BumpPoll, DropStep, MutexFutureBump, MutexFutureLock, MutexFutureUnlock};
use crate::lock_word;
use crate::lock_word::{Attempt, AttemptStep, Backoff, DequeuePhase};
use crate::queue;
use crate::queue::{Memory, Node};
use crate::shared::lock;
use crate::shared::lock::{FairStep, FairUnlock, Removal, RemoveStep, WordLock};
use vstd::prelude::*;

verus! {

proof fn flag_bits(f: u8)
    by (bit_vector)
    ensures
        (f & 1 != 0) <==> f % 2 == 1,
        (f & 2 != 0) <==> (f / 2) % 2 == 1,
        (f | 2) % 2 == f % 2,
        ((f | 2) / 2) % 2 == 1,
        (f | 1) % 2 == 1,
        ((f | 1) / 2) % 2 == (f / 2) % 2,
        (f & !1) % 2 == 0,
        ((f & !1) / 2) % 2 == (f / 2) % 2,
{
}

/// A thread that hands the lock over looks first. Where nobody waits it releases the lock,
/// or keeps it if it wants it back. Where another thread has the right to the queue it looks
/// again. Where the right is free it takes it.
pub proof fn handing_over_begins(
    before: FairUnlock,
    after: FairUnlock,
    word: usize,
    new_word: usize,
    nodes: Map<usize, Node>,
    new_nodes: Map<usize, Node>,
    step: FairStep,
    seen: usize,
)
    requires
        lock::fair_steps(before, after, word, new_word, nodes, new_nodes, step),
    ensures
        before.state is None ==> step == FairStep::Continue && after.state == Some(word) && after.has_right
            == before.has_right && after.back == before.back && new_word == word && new_nodes == nodes,
        before.state == Some(seen) && !before.has_right ==> new_nodes == nodes,
        before.state == Some(seen) && !before.has_right && seen < 4 && before.back is Some ==> step
            == FairStep::Kept && new_word == word,
        before.state == Some(seen) && !before.has_right && seen < 4 && before.back is None && word == seen
            ==> step == FairStep::Released && new_word == 0,
        before.state == Some(seen) && !before.has_right && seen < 4 && before.back is None && word != seen
            ==> step == FairStep::Continue && new_word == word && after.state == Some(word)
            && !after.has_right,
        before.state == Some(seen) && !before.has_right && seen >= 4 && (seen / 2) % 2 == 1 ==> step
            == FairStep::Continue && new_word == word && after.state is None && !after.has_right
            && after.back == before.back,
        before.state == Some(seen) && !before.has_right && seen >= 4 && (seen / 2) % 2 == 0 && word == seen
            ==> step == FairStep::Continue && new_word == word + 2 && after.state == Some(new_word)
            && after.has_right && after.back == before.back,
        before.state == Some(seen) && !before.has_right && seen >= 4 && (seen / 2) % 2 == 0 && word != seen
            ==> step == FairStep::Continue && new_word == word && after.state == Some(word)
            && !after.has_right && after.back == before.back,
{
    words::word_numbers(seen, 0);
}

/// A thread with the right to the queue hands the lock over to the one that has waited
/// longest, which is told so and leaves the queue. The lock stays held and the right is
/// free. The others stay in their order, and a thread that wants the lock back comes behind
/// all of them. Where others have come in meanwhile, the thread looks again.
pub proof fn lock_is_handed_to_the_longest_waiting(
    before: FairUnlock,
    after: FairUnlock,
    word: usize,
    new_word: usize,
    nodes: Map<usize, Node>,
    new_nodes: Map<usize, Node>,
    step: FairStep,
    seen: usize,
)
    requires
        before.ready(nodes),
        before.state == Some(seen),
        before.has_right,
        lock::fair_steps(before, after, word, new_word, nodes, new_nodes, step),
    ensures
        word != seen ==> step == FairStep::Continue && new_word == word && after.state == Some(word)
            && after.has_right && after.back == before.back,
        word == seen ==> {
            let queue = queue::waiters(nodes, (word - word % 4) as usize);
            &&& queue.len() > 0
            &&& step == FairStep::HandedOver(queue.last())
            &&& new_word % 2 == word % 2
            &&& (new_word / 2) % 2 == 0
            &&& (new_nodes[queue.last()].flags / 2) % 2 == 1
            &&& new_nodes[queue.last()].flags % 2 == nodes[queue.last()].flags % 2
            &&& new_nodes.dom() =~= nodes.dom()
            &&& forall|a: usize|
                !queue.contains(a) && before.back != Some(a) ==> #[trigger] new_nodes[a] == nodes[a]
            &&& forall|a: usize|
                a != queue.last() && before.back != Some(a) ==> (#[trigger] new_nodes[a]).flags == nodes[a].flags
            &&& before.back matches Some(address) ==> new_nodes[address].flags == 1
            &&& queue::waiters(new_nodes, (new_word - new_word % 4) as usize) == (match before.back {
                None => queue.drop_last(),
                Some(address) => seq![address] + queue.drop_last(),
            })
        },
{
    words::word_numbers(seen, 0);
    words::word_numbers(new_word, 0);
    if word == seen {
        let head = lock_word::head_of(seen);
        let queue = queue::waiters(nodes, head);
        assert(queue::is_queue(nodes, head, queue));
        let linked = choose|mid: Map<usize, Node>| #[trigger]
            queue::relinked(nodes, mid, queue) && queue::linked(mid, queue) && new_nodes == lock::fair_nodes(
                mid,
                queue,
                before.back,
            );
        queue::relinked_is_queue(nodes, linked, head, queue);
        lock::hand_over_keeps_order(linked, seen, queue, before.back);
        flag_bits(nodes[queue.last()].flags);
        flag_bits(new_nodes[queue.last()].flags);
        assert(queue.contains(queue[0]) && queue.contains(queue[queue.len() - 1]));
        assert(nodes.contains_key(queue[0]) && nodes.contains_key(queue[queue.len() - 1]));
    }
}

/// A node leaves the queue wherever it stands. The others stay in their order, and the lock
/// is as it was. Nothing leaves where it is not there.
pub proof fn node_leaves_the_queue(
    before: Removal,
    after: Removal,
    word: usize,
    new_word: usize,
    nodes: Map<usize, Node>,
    new_nodes: Map<usize, Node>,
    step: RemoveStep,
    seen: usize,
)
    requires
        before.ready(nodes),
        lock::removal_steps(before, after, word, new_word, nodes, new_nodes, step),
    ensures
        after.node == before.node,
        before.state is None ==> step == RemoveStep::Continue && after.state == Some(word) && new_word == word
            && new_nodes == nodes,
        before.state == Some(seen) && !before.has_right ==> {
            &&& new_nodes == nodes
            &&& seen < 4 ==> step == RemoveStep::Absent && new_word == word
            &&& seen >= 4 ==> step == RemoveStep::Continue
            &&& seen >= 4 && (seen / 2) % 2 == 1 ==> new_word == word && after.state is None && !after.has_right
            &&& seen >= 4 && (seen / 2) % 2 == 0 && word == seen ==> new_word == word + 2 && after.state
                == Some(new_word) && after.has_right
            &&& seen >= 4 && (seen / 2) % 2 == 0 && word != seen ==> new_word == word && after.state
                == Some(word) && !after.has_right
        },
        before.state == Some(seen) && before.has_right && word != seen ==> step == RemoveStep::Continue
            && new_word == word && after.state == Some(word) && after.has_right,
        before.state == Some(seen) && before.has_right && word == seen ==> {
            let queue = queue::waiters(nodes, (word - word % 4) as usize);
            let left = queue::waiters(new_nodes, (new_word - new_word % 4) as usize);
            &&& step == (if queue.contains(before.node) {
                RemoveStep::Removed
            } else {
                RemoveStep::Absent
            })
            &&& new_word % 2 == word % 2
            &&& (new_word / 2) % 2 == 0
            &&& queue.contains(before.node) ==> left == queue.remove(queue.index_of(before.node))
            &&& !queue.contains(before.node) ==> left == queue
            &&& new_nodes.dom() =~= nodes.dom()
            &&& forall|a: usize| !queue.contains(a) ==> #[trigger] new_nodes[a] == nodes[a]
            &&& forall|a: usize| (#[trigger] new_nodes[a]).flags == nodes[a].flags
        },
{
    if before.state == Some(seen) {
        words::word_numbers(seen, 0);
        words::word_numbers(new_word, 0);
        if before.has_right && word == seen {
            let head = lock_word::head_of(seen);
            let queue = queue::waiters(nodes, head);
            assert(queue::is_queue(nodes, head, queue));
            let linked = choose|mid: Map<usize, Node>| #[trigger]
                queue::relinked(nodes, mid, queue) && queue::linked(mid, queue) && (if queue.contains(
                    before.node,
                ) {
                    new_nodes == lock::removed_nodes(mid, queue, before.node)
                } else {
                    new_nodes == mid
                });
            queue::relinked_is_queue(nodes, linked, head, queue);
            assert forall|i: int| 0 <= i < queue.len() implies queue.contains(#[trigger] queue[i])
                && nodes.contains_key(queue[i]) by {}
            if queue.contains(before.node) {
                lock::removal_keeps_order(linked, seen, queue, before.node);
            } else {
                queue::waiters_of(linked, head, queue);
            }
        }
    }
}

/// The lock is handed over and nodes leave its queue by such steps. For tasks, a node that
/// leaves is prepared to be woken: it is not ready any more, and still tells whether the
/// lock was handed over to it.
pub proof fn handing_over_takes_these_steps<M: Memory<Node>>(
    lock: &mut WordLock,
    unlock: &mut FairUnlock,
    removal: &mut Removal,
    bump: &mut MutexFutureBump,
    memory: &mut M,
    step: FairStep,
    left: RemoveStep,
)
    ensures
        call_ensures(WordLock::unlock_fair::<M>, (lock, unlock, memory), step) || call_ensures(
            WordLock::bump::<M>,
            (lock, unlock, memory),
            step,
        ) ==> lock::fair_steps(
            *old(unlock),
            *final(unlock),
            old(lock).state,
            final(lock).state,
            old(memory).nodes(),
            final(memory).nodes(),
            step,
        ),
        call_ensures(WordLock::remove_waiter::<M>, (lock, removal, memory), left) ==> lock::removal_steps(
            *old(removal),
            *final(removal),
            old(lock).state,
            final(lock).state,
            old(memory).nodes(),
            final(memory).nodes(),
            left,
        ),
        call_ensures(mutex::unlock_fair::<M>, (lock, unlock, memory), step) || call_ensures(
            MutexFutureBump::bump_slow::<M>,
            (bump, lock, unlock, memory),
            step,
        ) ==> mutex::hand_over_steps(
            *old(unlock),
            *final(unlock),
            old(lock).state,
            final(lock).state,
            old(memory).nodes(),
            final(memory).nodes(),
            step,
        ),
        call_ensures(mutex::remove_waiter::<M>, (lock, removal, memory), left) ==> mutex::leave_steps(
            *old(removal),
            *final(removal),
            old(lock).state,
            final(lock).state,
            old(memory).nodes(),
            final(memory).nodes(),
            left,
        ),
{
}

/// A step of a task that hands the mutex over is one of the lock, after which the node of
/// the task that has it is no longer ready but tells of the handover.
pub proof fn task_is_told_of_the_handover(
    before: FairUnlock,
    after: FairUnlock,
    word: usize,
    new_word: usize,
    nodes: Map<usize, Node>,
    new_nodes: Map<usize, Node>,
    step: FairStep,
)
    requires
        before.ready(nodes),
        mutex::hand_over_steps(before, after, word, new_word, nodes, new_nodes, step),
    ensures
        exists|mid: Map<usize, Node>| #[trigger]
            lock::fair_steps(before, after, word, new_word, nodes, mid, step) && (!(step is HandedOver)
                ==> new_nodes == mid) && (step matches FairStep::HandedOver(node) ==> new_nodes[node].flags
                % 2 == 0 && (new_nodes[node].flags / 2) % 2 == (mid[node].flags / 2) % 2 && (forall|a: usize|
                a != node ==> #[trigger] new_nodes[a] == mid[a])),
{
    let mid = choose|mid: Map<usize, Node>| #[trigger]
        lock::fair_steps(before, after, word, new_word, nodes, mid, step) && new_nodes == (match step {
            FairStep::HandedOver(node) => mid.insert(node, mutex::woken(mid[node])),
            _ => mid,
        });
    if step is HandedOver {
        flag_bits(mid[step->HandedOver_0].flags);
    }
    assert(lock::fair_steps(before, after, word, new_word, nodes, mid, step));
}

/// A task has the mutex when it is polled if it was handed over to it, without touching the
/// word, or if nobody holds it or waits for it. Otherwise it goes on, with its node only if
/// that is ready and thus in the queue.
pub proof fn polled_task_has_what_was_handed_over<T, M: Memory<Node>>(
    lock: &mut WordLock,
    memory: M,
    future: &mut MutexFutureLock,
    unlock: MutexFutureUnlock<T>,
    max_spin_doubling: usize,
    address: usize,
    attempt: Option<Attempt>,
)
    ensures
        ({
            let flags = memory.nodes()[address].flags;
            let handed = (flags / 2) % 2 == 1;
            (call_ensures(WordLock::lock::<M>, (lock, max_spin_doubling, &memory, address), attempt)
                || call_ensures(MutexFutureLock::poll::<M>, (future, lock, &memory), attempt) && old(future).node == address && max_spin_doubling == 0 || call_ensures(
                MutexFutureUnlock::<T>::poll::<M>,
                (&unlock, lock, &memory),
                attempt,
            ) && unlock.node == address && max_spin_doubling == 0) ==> {
                &&& attempt is None <==> handed || old(lock).state == 0
                &&& final(lock).state == old(lock).state + (if attempt is None && !handed {
                    1int
                } else {
                    0
                })
                &&& attempt matches Some(a) ==> {
                    &&& a.state is None
                    &&& a.spin == 0
                    &&& !a.refused
                    &&& a.queued <==> flags % 2 == 1
                    &&& a.node == (if flags % 2 == 1 {
                        Some(address)
                    } else {
                        None
                    })
                    &&& a.backoff == Backoff::Double(max_spin_doubling)
                }
            }
        }),
        call_ensures(MutexFutureLock::poll::<M>, (future, lock, &memory), attempt) ==> final(future).is_acquired
            == (attempt is None) && final(future).node == old(future).node,
{
    flag_bits(memory.nodes()[address].flags);
}

/// Without waiting, a task has the mutex if nobody holds it or waits for it. Otherwise it is
/// left as it is.
pub proof fn idle_task_mutex_is_had_at_once<T>(task_mutex: &mut mutex::Mutex<T>, acquired: bool)
    requires
        call_ensures(mutex::Mutex::<T>::try_lock, (task_mutex,), acquired),
    ensures
        acquired <==> old(task_mutex).lock.state == 0,
        final(task_mutex).lock.state == old(task_mutex).lock.state + (if acquired {
            1int
        } else {
            0
        }),
        final(task_mutex).value == old(task_mutex).value,
{
}

/// A task that bumps the mutex hands it over the first time it is polled, and then wants it
/// back like any other task. It is done once it has the mutex or could keep it.
pub proof fn bumping_task_comes_back<M: Memory<Node>>(
    bump: &mut MutexFutureBump,
    lock: &mut WordLock,
    unlock: &mut FairUnlock,
    memory: &mut M,
    poll: BumpPoll,
    step: FairStep,
)
    ensures
        call_ensures(MutexFutureBump::poll::<M>, (bump, lock, &*old(memory)), poll) ==> {
            let flags = old(memory).nodes()[old(bump).node].flags;
            &&& !old(bump).bumped ==> (poll matches BumpPoll::Bump(u) && u.state is None && !u.has_right
                && u.back == Some(old(bump).node)) && *final(lock) == *old(lock) && *final(bump) == *old(bump)
            &&& old(bump).bumped ==> (poll == BumpPoll::Ready <==> (flags / 2) % 2 == 1 || old(lock).state == 0)
            &&& old(bump).bumped ==> (poll is Ready || poll is Slow) && final(bump).is_acquired == (poll
                is Ready) && final(bump).node == old(bump).node
        },
        call_ensures(MutexFutureBump::bump_slow::<M>, (bump, lock, unlock, memory), step) ==> {
            &&& final(bump).bumped <==> !(step is Continue)
            &&& final(bump).is_acquired <==> step is Kept
            &&& final(bump).node == old(bump).node
        },
{
    flag_bits(old(memory).nodes()[old(bump).node].flags);
}

/// A task that ends without the mutex releases it if it was handed over to it, leaves the
/// queue if it waits there, and otherwise wakes another, as it may have been woken itself.
/// A task that has the mutex has nothing to do.
pub proof fn ending_task_leaves_nothing_behind<M: Memory<Node>>(
    future: MutexFutureLock,
    bump: MutexFutureBump,
    memory: M,
    step: DropStep,
)
    ensures
        call_ensures(MutexFutureLock::end::<M>, (&future, &memory), step) ==> {
            let flags = memory.nodes()[future.node].flags;
            &&& future.is_acquired ==> step is Done
            &&& !future.is_acquired && (flags / 2) % 2 == 1 ==> step is Release
            &&& !future.is_acquired && (flags / 2) % 2 == 0 && flags % 2 == 1 ==> (step matches
                DropStep::Remove(r) && r.state is None && !r.has_right && r.node == future.node)
            &&& !future.is_acquired && (flags / 2) % 2 == 0 && flags % 2 == 0 ==> (step matches
                DropStep::Wake(d) && d.state is None && d.phase == DequeuePhase::LockQueue)
        },
        call_ensures(MutexFutureBump::end::<M>, (&bump, &memory), step) ==> {
            let flags = memory.nodes()[bump.node].flags;
            let waits = bump.bumped && !bump.is_acquired;
            &&& !waits ==> step is Done
            &&& waits && (flags / 2) % 2 == 1 ==> step is Release
            &&& waits && (flags / 2) % 2 == 0 && flags % 2 == 1 ==> (step matches DropStep::Remove(r)
                && r.state is None && !r.has_right && r.node == bump.node)
            &&& waits && (flags / 2) % 2 == 0 && flags % 2 == 0 ==> (step matches DropStep::Wake(d)
                && d.state is None && d.phase == DequeuePhase::LockQueue)
        },
{
    flag_bits(memory.nodes()[future.node].flags);
    flag_bits(memory.nodes()[bump.node].flags);
}

/// A task that gets the mutex while it is in the queue leaves the queue, and a node that is
/// made ready or is to be woken keeps all else.
pub proof fn nodes_are_prepared<M: Memory<Node>>(
    attempt: &mut Attempt,
    memory: &mut M,
    address: usize,
    removal: Option<Removal>,
)
    ensures
        call_ensures(mutex::leave_queue, (&*old(attempt), address), removal) ==> (removal is Some <==> old(attempt).queued) && (removal matches Some(r) ==> r.state is None && !r.has_right && r.node == address),
        call_ensures(WordLock::init_node::<M>, (attempt, memory, address), ()) ==> {
            &&& final(attempt).node == Some(address)
            &&& final(attempt).queued == old(attempt).queued
            &&& final(memory).nodes()[address].prev == 0
            &&& final(memory).nodes()[address].flags % 2 == 1
            &&& (final(memory).nodes()[address].flags / 2) % 2 == (old(memory).nodes()[address].flags / 2) % 2
            &&& forall|a: usize| a != address ==> #[trigger] final(memory).nodes()[a] == old(memory).nodes()[a]
        },
        call_ensures(mutex::wake_node::<M>, (memory, address), ()) ==> {
            &&& final(memory).nodes()[address].flags % 2 == 0
            &&& (final(memory).nodes()[address].flags / 2) % 2 == (old(memory).nodes()[address].flags / 2) % 2
            &&& forall|a: usize| a != address ==> #[trigger] final(memory).nodes()[a] == old(memory).nodes()[a]
        },
{
    flag_bits(old(memory).nodes()[address].flags);
}

/// A task goes on towards the mutex by the steps of a lock word, and is done once it has it.
pub proof fn task_takes_the_steps_of_a_word<M: Memory<Node>>(
    future: &mut MutexFutureLock,
    lock: &mut WordLock,
    attempt: &mut Attempt,
    memory: &mut M,
    step: AttemptStep,
)
    requires
        call_ensures(MutexFutureLock::lock_slow::<M>, (future, lock, attempt, memory), step),
    ensures
        final(future).is_acquired == (old(future).is_acquired || step is Acquired),
        final(future).node == old(future).node,
        lock_word::attempt_steps(
            *old(attempt),
            *final(attempt),
            old(lock).state,
            final(lock).state,
            old(memory).nodes(),
            final(memory).nodes(),
            step,
        ),
{
}

} // verus!
