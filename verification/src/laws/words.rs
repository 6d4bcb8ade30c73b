//! Laws of the lock words.
//!
//! A lock word is the address of the newest waiting node, a multiple of four, plus two
//! if some thread takes nodes out of the queue, plus one if the lock is held.
use crate::lock_word;
use crate::lock_word::{Attempt, AttemptStep, Backoff, Dequeue, DequeuePhase, DequeueStep};
use crate::mutex;
use crate::mutex::sync::SyncMutex;
use crate::parker;
use crate::queue;
use crate::queue::{Memory, Node};
use crate::shared;
use vstd::arithmetic::power2::pow2;
use vstd::prelude::*;

verus! {

/// The lowest bits of a number are what is left when it is divided.
#[verifier::rlimit(60)]
proof fn low_bits(w: usize)
    by (bit_vector)
    ensures
        w & 1 == w % 2,
        (w & 2 != 0) <==> (w / 2) % 2 == 1,
        w & 3 == w % 4,
{
}

/// What is left of a number without its lowest two bits.
#[verifier::rlimit(60)]
proof fn high_bits(w: usize)
    by (bit_vector)
    ensures
        w & !3 == w - (w & 3),
        !(!(1usize | 2)) == 3,
        !(1usize | 2) == !3usize,
{
}

/// Where the lowest bit is not set, setting it adds one, and the other way round.
#[verifier::rlimit(60)]
proof fn first_bit(w: usize)
    by (bit_vector)
    ensures
        w & 1 == 0 ==> w | 1 == w + 1,
        w & 1 != 0 ==> w & !1 == w - 1,
        w & 1 == 0 ==> w & !1 == w,
{
}

/// Where the second bit is not set, setting it adds two, and the other way round.
#[verifier::rlimit(60)]
proof fn second_bit(w: usize)
    by (bit_vector)
    ensures
        w & 2 == 0 ==> w | 2 == w + 2,
        w & 2 != 0 ==> w | 2 == w,
        w & 2 != 0 ==> w & !2 == w - 2,
        w & 2 == 0 ==> w & !2 == w,
{
}

/// Bits below an address add to it.
#[verifier::rlimit(60)]
proof fn address_bits(node: usize, flags: usize)
    by (bit_vector)
    requires
        node & 3 == 0,
        flags == 0 || flags == 1 || flags == 2 || flags == 3,
    ensures
        node | flags == node + flags,
{
}

/// The fields of a lock word as numbers.
pub proof fn word_numbers(w: usize, node: usize)
    ensures
        lock_word::is_locked(w) <==> w % 2 == 1,
        lock_word::is_queue_locked(w) <==> (w / 2) % 2 == 1,
        lock_word::head_of(w) == w - w % 4,
        lock_word::is_address(node) <==> node != 0 && node % 4 == 0,
        w % 2 == 0 ==> lock_word::with_lock(w) == w + 1,
        w % 2 == 1 ==> lock_word::without_lock(w) == w - 1,
        w % 2 == 0 ==> lock_word::without_lock(w) == w,
        (w / 2) % 2 == 0 ==> lock_word::with_queue_lock(w) == w + 2,
        (w / 2) % 2 == 1 ==> lock_word::with_queue_lock(w) == w,
        (w / 2) % 2 == 1 ==> lock_word::without_queue_lock(w) == w - 2,
        (w / 2) % 2 == 0 ==> lock_word::without_queue_lock(w) == w,
        lock_word::without_queue(w) == w % 2,
        node % 4 == 0 ==> lock_word::with_head(w, node) == node + w % 4,
{
    low_bits(w);
    low_bits(node);
    high_bits(w);
    first_bit(w);
    second_bit(w);
    if node % 4 == 0 {
        address_bits(node, w & 3);
    }
}

/// A thread that has seen the lock free and finds the word unchanged has the lock with
/// this step, however often it has spun or asked before and whoever waits. The word
/// then tells that the lock is held, and nothing else has changed.
pub proof fn free_lock_is_taken(
    before: Attempt,
    after: Attempt,
    word: usize,
    new_word: usize,
    nodes: Map<usize, Node>,
    new_nodes: Map<usize, Node>,
    step: AttemptStep,
)
    requires
        lock_word::attempt_steps(before, after, word, new_word, nodes, new_nodes, step),
        before.state == Some(word),
        word % 2 == 0,
    ensures
        step == AttemptStep::Acquired,
        after == before,
        new_word == word + 1,
        new_nodes == nodes,
{
    word_numbers(word, 0);
}

/// A thread that looks at the word remembers what is there, and keeps its node and the
/// number of times that it went on without blocking.
pub proof fn looking_changes_nothing(
    before: Attempt,
    after: Attempt,
    word: usize,
    new_word: usize,
    nodes: Map<usize, Node>,
    new_nodes: Map<usize, Node>,
    step: AttemptStep,
)
    requires
        lock_word::attempt_steps(before, after, word, new_word, nodes, new_nodes, step),
        before.state is None,
    ensures
        step == AttemptStep::Continue,
        after.state == Some(word),
        !after.refused,
        after.spin == before.spin,
        after.node == before.node,
        after.queued == before.queued,
        after.backoff == before.backoff,
        new_word == word,
        new_nodes == nodes,
{
}

/// Nobody else in the way, a thread gets a free lock with its next two steps, wherever
/// it stands.
pub proof fn lone_thread_gets_the_lock(
    a: Attempt,
    b: Attempt,
    c: Attempt,
    word: usize,
    mid_word: usize,
    new_word: usize,
    nodes: Map<usize, Node>,
    mid_nodes: Map<usize, Node>,
    new_nodes: Map<usize, Node>,
    first: AttemptStep,
    second: AttemptStep,
)
    requires
        word % 2 == 0,
        a.state is None || a.state == Some(word) || a.state->0 % 2 == 0,
        lock_word::attempt_steps(a, b, word, mid_word, nodes, mid_nodes, first),
        !(first is Acquired) ==> lock_word::attempt_steps(
            b,
            c,
            mid_word,
            new_word,
            mid_nodes,
            new_nodes,
            second,
        ),
    ensures
        first is Acquired ==> mid_word == word + 1,
        !(first is Acquired) ==> mid_word == word && second is Acquired && new_word == word + 1,
{
    word_numbers(word, 0);
    if a.state is Some {
        word_numbers(a.state->0, 0);
    }
}

/// Only a free lock is had, and it then is held.
pub proof fn held_lock_is_not_taken(
    before: Attempt,
    after: Attempt,
    word: usize,
    new_word: usize,
    nodes: Map<usize, Node>,
    new_nodes: Map<usize, Node>,
    step: AttemptStep,
)
    requires
        before.ready(nodes),
        lock_word::attempt_steps(before, after, word, new_word, nodes, new_nodes, step),
    ensures
        step is Acquired ==> word % 2 == 0 && new_word == word + 1 && new_nodes == nodes,
        !(step is Acquired) ==> new_word % 4 == word % 4,
        !(step is Acquired) && !(step is Wait) ==> new_word == word,
{
    word_numbers(word, if before.node is Some {
        before.node->0
    } else {
        0
    });
    if before.state is Some {
        word_numbers(before.state->0, 0);
    }
}

/// A thread that doubles its spinning spins on a held lock while nobody waits, twice as
/// often each time, until it has done so as often as it may, and never while others
/// wait. It looks at the word again each time.
pub proof fn spinning_doubles_and_ends(
    before: Attempt,
    after: Attempt,
    word: usize,
    new_word: usize,
    nodes: Map<usize, Node>,
    new_nodes: Map<usize, Node>,
    step: AttemptStep,
    seen: usize,
    limit: usize,
)
    requires
        before.ready(nodes),
        lock_word::attempt_steps(before, after, word, new_word, nodes, new_nodes, step),
        before.backoff == Backoff::Double(limit),
        before.state == Some(seen),
        seen % 2 == 1,
        !before.queued,
    ensures
        step is Spin <==> seen < 4 && before.spin < limit,
        step matches AttemptStep::Spin(hints) ==> hints == pow2((before.spin + 1) as nat) && after.spin
            == before.spin + 1 && after.state is None && after.node == before.node && !after.queued
            && after.backoff == before.backoff && new_word == word && new_nodes == nodes,
        !(step is Yield),
{
    word_numbers(seen, 0);
    if before.spin < limit {
        vstd::arithmetic::power2::lemma_pow2_strictly_increases((before.spin + 1) as nat, 32);
        vstd::arithmetic::power2::lemma2_to64();
    }
}

/// A thread that asks whether it may go on without blocking is told how often it asked
/// and whether others wait. It asks once for each word that it sees, while nobody waits
/// or always.
pub proof fn threads_ask_before_they_block(
    before: Attempt,
    after: Attempt,
    word: usize,
    new_word: usize,
    nodes: Map<usize, Node>,
    new_nodes: Map<usize, Node>,
    step: AttemptStep,
    seen: usize,
)
    requires
        lock_word::attempt_steps(before, after, word, new_word, nodes, new_nodes, step),
        before.backoff == Backoff::Ask || before.backoff == Backoff::AskUncontended,
        before.state == Some(seen),
        seen % 2 == 1,
        !before.queued,
    ensures
        step is Yield <==> !before.refused && (before.backoff == Backoff::Ask || seen < 4),
        step matches AttemptStep::Yield { contended, iteration } ==> contended == (seen >= 4) && iteration
            == before.spin && after == before && new_word == word && new_nodes == nodes,
        !(step is Spin),
{
    word_numbers(seen, 0);
}

/// A thread that has spun and asked enough queues. It is told to get a node first. It
/// comes in as the newest, ahead of the one that was the newest, and is then to block.
/// Where the word has changed since it looked, it goes on with what is there.
pub proof fn thread_that_cannot_go_on_queues(
    before: Attempt,
    after: Attempt,
    word: usize,
    new_word: usize,
    nodes: Map<usize, Node>,
    new_nodes: Map<usize, Node>,
    step: AttemptStep,
    seen: usize,
)
    requires
        before.ready(nodes),
        lock_word::attempt_steps(before, after, word, new_word, nodes, new_nodes, step),
        before.state == Some(seen),
        seen % 2 == 1,
        !before.queued,
        match before.backoff {
            Backoff::Double(limit) => seen >= 4 || before.spin >= limit,
            Backoff::Ask => before.refused,
            Backoff::AskUncontended => seen >= 4 || before.refused,
        },
    ensures
        before.node is None ==> step == AttemptStep::NeedNode && after == before && new_word == word
            && new_nodes == nodes,
        before.node matches Some(node) ==> {
            &&& word == seen ==> {
                &&& step == AttemptStep::Wait
                &&& after.queued
                &&& after.node == Some(node)
                &&& new_word == node + word % 4
                &&& new_nodes.dom() =~= nodes.dom()
                &&& new_nodes[node].next == word - word % 4
                &&& new_nodes[node].tail == (if word < 4 {
                    node
                } else {
                    0
                })
                &&& new_nodes[node].prev == nodes[node].prev
                &&& new_nodes[node].flags == nodes[node].flags
                &&& forall|a: usize| a != node ==> #[trigger] new_nodes[a] == nodes[a]
            }
            &&& word != seen ==> step == AttemptStep::Continue && after.state == Some(word)
                && !after.queued && !after.refused && after.spin == before.spin && new_word == word
        },
{
    word_numbers(seen, if before.node is Some {
        before.node->0
    } else {
        0
    });
}

/// A thread whose node is in the queue blocks as long as it finds the lock held.
pub proof fn queued_thread_blocks(
    before: Attempt,
    after: Attempt,
    word: usize,
    new_word: usize,
    nodes: Map<usize, Node>,
    new_nodes: Map<usize, Node>,
    step: AttemptStep,
    seen: usize,
)
    requires
        lock_word::attempt_steps(before, after, word, new_word, nodes, new_nodes, step),
        before.state == Some(seen),
        before.queued,
        seen % 2 == 1,
    ensures
        step == AttemptStep::Wait,
        after == before,
        new_word == word,
        new_nodes == nodes,
{
    word_numbers(seen, 0);
}

/// A thread that was outrun looks at what is there now, whatever it was about to do.
pub proof fn lost_race_is_noticed(
    before: Attempt,
    after: Attempt,
    word: usize,
    new_word: usize,
    nodes: Map<usize, Node>,
    new_nodes: Map<usize, Node>,
    step: AttemptStep,
    seen: usize,
)
    requires
        lock_word::attempt_steps(before, after, word, new_word, nodes, new_nodes, step),
        before.state == Some(seen),
        seen % 2 == 0,
        word != seen,
    ensures
        step == AttemptStep::Continue,
        after.state == Some(word),
        after.spin == before.spin,
        after.node == before.node,
        after.queued == before.queued,
        after.backoff == before.backoff,
        !after.refused,
        new_word == word,
        new_nodes == nodes,
{
    word_numbers(seen, 0);
}

/// The mutexes of one word go towards the lock by such steps.
pub proof fn mutexes_take_these_steps<T, M: Memory<Node>>(
    a: &mut Attempt,
    word: &mut usize,
    memory: &mut M,
    lock: &mut mutex::WordLock,
    handing: &mut shared::lock::WordLock,
    task: &mut mutex::futures::Mutex<T>,
    guarded: &mut parker::lock::Lock<T>,
    step: AttemptStep,
)
    ensures
        call_ensures(Attempt::step::<M>, (a, word, memory), step) ==> lock_word::attempt_steps(
            *old(a),
            *final(a),
            *old(word),
            *final(word),
            old(memory).nodes(),
            final(memory).nodes(),
            step,
        ),
        call_ensures(mutex::WordLock::lock_slow::<M>, (lock, a, memory), step)
            ==> lock_word::attempt_steps(
            *old(a),
            *final(a),
            old(lock).state,
            final(lock).state,
            old(memory).nodes(),
            final(memory).nodes(),
            step,
        ),
        call_ensures(shared::lock::WordLock::lock_slow::<M>, (handing, a, memory), step)
            ==> lock_word::attempt_steps(
            *old(a),
            *final(a),
            old(handing).state,
            final(handing).state,
            old(memory).nodes(),
            final(memory).nodes(),
            step,
        ),
        call_ensures(mutex::futures::Mutex::<T>::lock_slow::<M>, (task, a, memory), step)
            ==> final(task).value == old(task).value && lock_word::attempt_steps(
            *old(a),
            *final(a),
            old(task).state,
            final(task).state,
            old(memory).nodes(),
            final(memory).nodes(),
            step,
        ),
        call_ensures(parker::lock::Lock::<T>::lock_slow::<M>, (guarded, a, memory), step)
            ==> final(guarded).value == old(guarded).value && lock_word::attempt_steps(
            *old(a),
            *final(a),
            old(guarded).state,
            final(guarded).state,
            old(memory).nodes(),
            final(memory).nodes(),
            step,
        ),
{
}

/// A mutex that nobody holds and nobody waits for is had at once, by any way to take
/// it, and is then held. Any other is left as it is.
pub proof fn idle_mutex_is_had_at_once<T>(
    lock: &mut mutex::WordLock,
    sync: &mut SyncMutex,
    task: &mut mutex::futures::Mutex<T>,
    guarded: &mut parker::lock::Lock<T>,
    handing: &mut shared::lock::WordLock,
    acquired: bool,
    attempt: Option<Attempt>,
)
    ensures
        call_ensures(mutex::WordLock::try_lock, (lock,), acquired) ==> (acquired <==> old(lock).state == 0)
            && final(lock).state == old(lock).state + (if acquired {
            1int
        } else {
            0
        }),
        call_ensures(SyncMutex::try_lock, (sync,), acquired) ==> (acquired <==> old(sync).0.state == 0)
            && final(sync).0.state == old(sync).0.state + (if acquired {
            1int
        } else {
            0
        }),
        call_ensures(shared::lock::WordLock::try_lock, (handing,), acquired) ==> (acquired <==> old(handing).state == 0) && final(handing).state == old(handing).state + (if acquired {
            1int
        } else {
            0
        }),
        call_ensures(mutex::futures::Mutex::<T>::try_lock, (task,), acquired) ==> (acquired <==> old(task).state == 0) && final(task).value == old(task).value && final(task).state == old(task).state + (
        if acquired {
            1int
        } else {
            0
        }),
        call_ensures(mutex::WordLock::lock, (lock,), attempt) ==> (attempt is None <==> old(lock).state
            == 0) && final(lock).state == old(lock).state + (if attempt is None {
            1int
        } else {
            0
        }) && (attempt matches Some(a) ==> a.state is None && a.spin == 0 && !a.queued && a.node is None
            && a.backoff == Backoff::Double(4)),
        call_ensures(SyncMutex::lock, (sync,), attempt) ==> (attempt is None <==> old(sync).0.state == 0)
            && final(sync).0.state == old(sync).0.state + (if attempt is None {
            1int
        } else {
            0
        }) && (attempt matches Some(a) ==> a.state is None && a.spin == 0 && !a.queued && a.node is None
            && a.backoff == Backoff::Double(4)),
        call_ensures(parker::lock::Lock::<T>::lock, (guarded,), attempt) ==> (attempt is None <==> old(guarded).state == 0) && final(guarded).value == old(guarded).value && final(guarded).state == old(guarded).state + (if attempt is None {
            1int
        } else {
            0
        }) && (attempt matches Some(a) ==> a.state is None && a.spin == 0 && !a.queued && a.node is None
            && a.backoff == Backoff::AskUncontended),
{
}

/// A task that polls a mutex has it at once if it is idle. Otherwise it goes on with its
/// node, which has no back link.
pub proof fn polled_mutex_is_had_at_once<T, M: Memory<Node>>(
    task: &mut mutex::futures::Mutex<T>,
    memory: &mut M,
    address: usize,
    attempt: Option<Attempt>,
)
    requires
        call_ensures(mutex::futures::Mutex::<T>::poll::<M>, (task, memory, address), attempt),
    ensures
        attempt is None <==> old(task).state == 0,
        final(task).value == old(task).value,
        final(task).state == old(task).state + (if attempt is None {
            1int
        } else {
            0
        }),
        attempt is None ==> final(memory).nodes() == old(memory).nodes(),
        attempt matches Some(a) ==> {
            &&& a.state is None
            &&& a.spin == 0
            &&& !a.queued
            &&& a.node == Some(address)
            &&& a.backoff == Backoff::Double(4)
            &&& final(memory).nodes()[address].prev == 0
            &&& forall|b: usize| b != address ==> #[trigger] final(memory).nodes()[b] == old(memory).nodes()[b]
        },
{
}

/// A mutex that is released is free, its queue stays, and the thread that released it is
/// to wake another if and only if some thread waits and no other is about to wake one.
pub proof fn released_mutex_is_free<T>(
    word: &mut usize,
    lock: &mut mutex::WordLock,
    sync: &mut SyncMutex,
    task: &mut mutex::futures::Mutex<T>,
    guarded: &mut parker::lock::Lock<T>,
    handing: &mut shared::lock::WordLock,
    wake: bool,
    dequeue: Option<Dequeue>,
)
    ensures
        old(word) % 2 == 1 && call_ensures(lock_word::release, (word,), wake) ==> *final(word) == *old(word)
            - 1 && (wake <==> *old(word) >= 4 && (*old(word) / 2) % 2 == 0),
        old(lock).state % 2 == 1 && call_ensures(mutex::WordLock::unlock, (lock,), dequeue)
            ==> final(lock).state == old(lock).state - 1 && (dequeue is Some <==> old(lock).state >= 4 && (
        old(lock).state / 2) % 2 == 0),
        old(sync).0.state % 2 == 1 && call_ensures(SyncMutex::unlock, (sync,), dequeue)
            ==> final(sync).0.state == old(sync).0.state - 1 && (dequeue is Some <==> old(sync).0.state >= 4
            && (old(sync).0.state / 2) % 2 == 0),
        old(handing).state % 2 == 1 && call_ensures(
            shared::lock::WordLock::unlock_unfair,
            (handing,),
            dequeue,
        ) ==> final(handing).state == old(handing).state - 1 && (dequeue is Some <==> old(handing).state
            >= 4 && (old(handing).state / 2) % 2 == 0),
        old(handing).state % 2 == 1 && call_ensures(crate::futures::mutex::unlock, (handing,), dequeue)
            ==> final(handing).state == old(handing).state - 1 && (dequeue is Some <==> old(handing).state
            >= 4 && (old(handing).state / 2) % 2 == 0),
        old(task).state % 2 == 1 && call_ensures(mutex::futures::Mutex::<T>::unlock, (task,), dequeue)
            ==> final(task).value == old(task).value && final(task).state == old(task).state - 1 && (
        dequeue is Some <==> old(task).state >= 4 && (old(task).state / 2) % 2 == 0),
        old(guarded).state % 2 == 1 && call_ensures(
            parker::lock::Lock::<T>::unlock,
            (guarded,),
            dequeue,
        ) ==> final(guarded).value == old(guarded).value && final(guarded).state == old(guarded).state - 1
            && (dequeue is Some <==> old(guarded).state >= 4 && (old(guarded).state / 2) % 2 == 0),
{
    word_numbers(*old(word), 0);
    word_numbers(old(lock).state, 0);
    word_numbers(old(sync).0.state, 0);
    word_numbers(old(handing).state, 0);
    word_numbers(old(task).state, 0);
    word_numbers(old(guarded).state, 0);
}

/// The thread that is to wake another begins by looking at the word.
pub proof fn waking_begins_with_a_look<T>(
    lock: &mut mutex::WordLock,
    sync: &mut SyncMutex,
    task: &mut mutex::futures::Mutex<T>,
    guarded: &mut parker::lock::Lock<T>,
    handing: &mut shared::lock::WordLock,
    dequeue: Dequeue,
)
    requires
        call_ensures(mutex::WordLock::unlock, (lock,), Some(dequeue)) || call_ensures(
            SyncMutex::unlock,
            (sync,),
            Some(dequeue),
        ) || call_ensures(mutex::futures::Mutex::<T>::unlock, (task,), Some(dequeue)) || call_ensures(
            parker::lock::Lock::<T>::unlock,
            (guarded,),
            Some(dequeue),
        ) || call_ensures(shared::lock::WordLock::unlock_unfair, (handing,), Some(dequeue))
            || call_ensures(crate::futures::mutex::unlock, (handing,), Some(dequeue)),
    ensures
        dequeue.state is None,
        dequeue.phase == DequeuePhase::LockQueue,
{
}

/// A thread that is to wake another takes the right to the queue if there is a queue
/// and nobody has the right, and is done if not. It goes on with the same queue.
pub proof fn right_to_the_queue_is_taken(
    before: Dequeue,
    after: Dequeue,
    word: usize,
    new_word: usize,
    nodes: Map<usize, Node>,
    new_nodes: Map<usize, Node>,
    step: DequeueStep,
    seen: usize,
)
    requires
        lock_word::dequeue_steps(before, after, word, new_word, nodes, new_nodes, step),
        before.state == Some(seen),
        before.phase == DequeuePhase::LockQueue,
    ensures
        new_nodes == nodes,
        step == DequeueStep::Done || step == DequeueStep::Continue,
        step == DequeueStep::Done <==> seen < 4 || (seen / 2) % 2 == 1,
        step == DequeueStep::Done ==> new_word == word,
        step == DequeueStep::Continue && word == seen ==> {
            &&& new_word == word + 2
            &&& after.phase == DequeuePhase::FindTail
            &&& after.state matches Some(s) && s - s % 4 == word - word % 4 && s % 2 == word % 2
        },
        step == DequeueStep::Continue && word != seen ==> {
            &&& new_word == word
            &&& after.phase == DequeuePhase::LockQueue
            &&& after.state == Some(word)
        },
{
    word_numbers(seen, 0);
}

/// A thread that has the right to the queue and sees the lock held leaves the waking to
/// the holder. It gives up the right and nobody is woken.
pub proof fn holder_is_left_to_wake(
    before: Dequeue,
    after: Dequeue,
    word: usize,
    new_word: usize,
    nodes: Map<usize, Node>,
    new_nodes: Map<usize, Node>,
    step: DequeueStep,
    seen: usize,
)
    requires
        lock_word::dequeue_steps(before, after, word, new_word, nodes, new_nodes, step),
        before.state == Some(seen),
        before.phase == DequeuePhase::FindTail,
        seen % 2 == 1,
    ensures
        word == seen ==> step == DequeueStep::Done && new_word % 4 == 1 && new_word - new_word % 4 == word
            - word % 4,
        word != seen ==> step == DequeueStep::Continue && new_word == word && after.state == Some(word)
            && after.phase == DequeuePhase::FindTail,
{
    word_numbers(seen, 0);
}

/// A thread that has the right to the queue of a free lock wakes the thread that has
/// waited longest, which leaves the queue. The others stay, in their order, and the
/// right is free again. Where only one waits and others have come in meanwhile, the
/// thread looks again.
pub proof fn longest_waiting_thread_is_woken(
    before: Dequeue,
    after: Dequeue,
    word: usize,
    new_word: usize,
    nodes: Map<usize, Node>,
    new_nodes: Map<usize, Node>,
    step: DequeueStep,
    seen: usize,
)
    requires
        before.ready(nodes),
        lock_word::dequeue_steps(before, after, word, new_word, nodes, new_nodes, step),
        before.state == Some(seen),
        before.phase == DequeuePhase::FindTail,
        seen % 2 == 0,
    ensures
        ({
            let queue = queue::waiters(nodes, (seen - seen % 4) as usize);
            &&& queue.len() > 0
            &&& step matches DequeueStep::Wake(node) ==> node == queue.last()
            &&& step != DequeueStep::Done
            &&& queue.len() > 1 || word == seen ==> step is Wake
            &&& step is Wake ==> new_word % 2 == word % 2 && (new_word / 2) % 2 == 0
            &&& step is Wake && queue.len() > 1 ==> new_word - new_word % 4 == word - word % 4
                && queue::waiters(new_nodes, (seen - seen % 4) as usize) == queue.drop_last()
            &&& step is Wake && queue.len() == 1 ==> new_word == word % 2
            &&& new_nodes.dom() =~= nodes.dom()
            &&& forall|a: usize| !queue.contains(a) ==> #[trigger] new_nodes[a] == nodes[a]
            &&& forall|a: usize| (#[trigger] new_nodes[a]).flags == nodes[a].flags && new_nodes[a].next == nodes[a].next
            &&& step == DequeueStep::Continue ==> new_word == word && after.state == Some(word) && (word
                >= 4 ==> after.phase == DequeuePhase::FindTail) && (word < 4 ==> after.phase
                == DequeuePhase::TakeLast(queue.last()))
        }),
{
    word_numbers(seen, 0);
    word_numbers(word, 0);
    let head = lock_word::head_of(seen);
    let queue = queue::waiters(nodes, head);
    assert(queue::is_queue(nodes, head, queue));
    assert(queue.contains(queue[0]));
    if queue.len() > 1 {
        assert(queue::is_queue(new_nodes, head, queue.drop_last()));
        queue::waiters_of(new_nodes, head, queue.drop_last());
    }
}

/// A thread that takes the last node out of the queue wakes it once the queue is empty.
pub proof fn last_thread_is_woken(
    before: Dequeue,
    after: Dequeue,
    word: usize,
    new_word: usize,
    nodes: Map<usize, Node>,
    new_nodes: Map<usize, Node>,
    step: DequeueStep,
    seen: usize,
    tail: usize,
)
    requires
        lock_word::dequeue_steps(before, after, word, new_word, nodes, new_nodes, step),
        before.state == Some(seen),
        before.phase == DequeuePhase::TakeLast(tail),
    ensures
        new_nodes == nodes,
        word == seen ==> step == DequeueStep::Wake(tail) && new_word == word % 2,
        word != seen ==> step == DequeueStep::Continue && new_word == word && after.state == Some(word)
            && after.phase == (if word >= 4 {
            DequeuePhase::FindTail
        } else {
            DequeuePhase::TakeLast(tail)
        }),
{
    word_numbers(seen, 0);
    word_numbers(word, 0);
}

/// Nobody else in the way, a thread that has released a lock wakes the one that has
/// waited longest with its next three steps.
pub proof fn lone_thread_wakes_the_longest_waiting(
    a: Dequeue,
    b: Dequeue,
    c: Dequeue,
    d: Dequeue,
    word: usize,
    looked: usize,
    taken: usize,
    new_word: usize,
    nodes: Map<usize, Node>,
    n1: Map<usize, Node>,
    n2: Map<usize, Node>,
    n3: Map<usize, Node>,
    s1: DequeueStep,
    s2: DequeueStep,
    s3: DequeueStep,
)
    requires
        a.state is None,
        a.phase == DequeuePhase::LockQueue,
        word >= 4,
        word % 4 == 0,
        queue::has_queue(nodes, word),
        a.sees_own_flag || queue::waiters(nodes, word).len() > 1,
        lock_word::dequeue_steps(a, b, word, looked, nodes, n1, s1),
        lock_word::dequeue_steps(b, c, looked, taken, n1, n2, s2),
        lock_word::dequeue_steps(c, d, taken, new_word, n2, n3, s3),
    ensures
        s3 == DequeueStep::Wake(queue::waiters(nodes, word).last()),
        new_word == (if queue::waiters(nodes, word).len() == 1 {
            0
        } else {
            word
        }),
{
    word_numbers(word, 0);
    word_numbers((word + 2) as usize, 0);
}

/// Those that wake threads for the mutexes of one word do it by such steps.
pub proof fn mutexes_wake_by_these_steps<T, M: Memory<Node>>(
    d: &mut Dequeue,
    word: &mut usize,
    memory: &mut M,
    lock: &mut mutex::WordLock,
    handing: &mut shared::lock::WordLock,
    task: &mut mutex::futures::Mutex<T>,
    guarded: &mut parker::lock::Lock<T>,
    step: DequeueStep,
)
    ensures
        call_ensures(Dequeue::step::<M>, (d, word, memory), step) ==> lock_word::dequeue_steps(
            *old(d),
            *final(d),
            *old(word),
            *final(word),
            old(memory).nodes(),
            final(memory).nodes(),
            step,
        ),
        call_ensures(mutex::WordLock::unlock_slow::<M>, (lock, d, memory), step)
            ==> lock_word::dequeue_steps(
            *old(d),
            *final(d),
            old(lock).state,
            final(lock).state,
            old(memory).nodes(),
            final(memory).nodes(),
            step,
        ),
        call_ensures(shared::lock::WordLock::unlock_unfair_slow::<M>, (handing, d, memory), step)
            ==> lock_word::dequeue_steps(
            *old(d),
            *final(d),
            old(handing).state,
            final(handing).state,
            old(memory).nodes(),
            final(memory).nodes(),
            step,
        ),
        call_ensures(mutex::futures::Mutex::<T>::unlock_slow::<M>, (task, d, memory), step)
            ==> final(task).value == old(task).value && lock_word::dequeue_steps(
            *old(d),
            *final(d),
            old(task).state,
            final(task).state,
            old(memory).nodes(),
            final(memory).nodes(),
            step,
        ),
        call_ensures(parker::lock::Lock::<T>::unlock_slow::<M>, (guarded, d, memory), step)
            ==> final(guarded).value == old(guarded).value && lock_word::dequeue_steps(
            *old(d),
            *final(d),
            old(guarded).state,
            final(guarded).state,
            old(memory).nodes(),
            final(memory).nodes(),
            step,
        ),
{
}

/// A thread that was allowed to go on without blocking counts that and looks at the word
/// again, and one that was not is not asked about that word again. A thread that was
/// woken begins anew with its node.
pub proof fn threads_go_on<M: Memory<Node>>(a: &mut Attempt, memory: &mut M, allowed: bool, node: usize)
    ensures
        call_ensures(Attempt::yielded, (a, allowed), ()) && allowed ==> final(a).state is None
            && (old(a).spin < usize::MAX ==> final(a).spin == old(a).spin + 1) && final(a).node == old(a).node
            && final(a).queued == old(a).queued && final(a).backoff == old(a).backoff,
        call_ensures(Attempt::yielded, (a, allowed), ()) && !allowed ==> final(a).refused && final(a).state
            == old(a).state && final(a).spin == old(a).spin && final(a).node == old(a).node && final(a).queued == old(a).queued && final(a).backoff == old(a).backoff,
        call_ensures(Attempt::set_node, (a, node), ()) ==> final(a).node == Some(node) && final(a).state
            == old(a).state && final(a).spin == old(a).spin && final(a).refused == old(a).refused && final(a).queued == old(a).queued && final(a).backoff == old(a).backoff,
        call_ensures(Attempt::woken::<M>, (a, memory), ()) ==> final(a).state is None && final(a).spin == 0
            && !final(a).queued && !final(a).refused && final(a).node == old(a).node && final(a).backoff
            == old(a).backoff && (old(a).node is None ==> final(memory).nodes() == old(memory).nodes()),
        call_ensures(Attempt::woken::<M>, (a, memory), ()) && old(a).node == Some(node) ==> final(memory).nodes()[node].prev == 0 && final(memory).nodes()[node].flags == old(memory).nodes()[node].flags
            && forall|b: usize| b != node ==> #[trigger] final(memory).nodes()[b] == old(memory).nodes()[b],
{
}

} // verus!
