//! Laws of the lock whose holder owns a byte of the word.
//!
//! The word is the address of the newest waiting node, a multiple of 512, plus 256 while a
//! thread wakes or is woken, plus one if the lock is held.
use crate::event::YieldContext;
use crate::queue;
use crate::queue::{Memory, Node};
use crate::sync::lock;
use crate::sync::lock::{Lock, LockAttempt, LockStep, WakeAttempt, WakePhase, WakeStep};
use vstd::prelude::*;

verus! {

#[verifier::rlimit(60)]
proof fn low_bits(w: usize)
    by (bit_vector)
    ensures
        w & 1 == w % 2,
        w & 255 == w % 256,
        (w & 256 != 0) <==> (w / 256) % 2 == 1,
        w & 511 == w % 512,
        !(!(511usize)) == 511,
{
}

#[verifier::rlimit(60)]
proof fn high_bits(w: usize)
    by (bit_vector)
    ensures
        w & !511 == w - (w & 511),
        w & !255 == w - (w & 255),
{
}

#[verifier::rlimit(60)]
proof fn first_bit(w: usize)
    by (bit_vector)
    ensures
        w & 1 == 0 ==> w | 1 == w + 1,
{
}

#[verifier::rlimit(60)]
proof fn waking_bit(w: usize)
    by (bit_vector)
    ensures
        w & 256 == 0 ==> w | 256 == w + 256,
        w & 256 != 0 ==> w | 256 == w,
        w & 256 != 0 ==> w & !256 == w - 256,
        w & 256 == 0 ==> w & !256 == w,
{
}

#[verifier::rlimit(60)]
proof fn address_bits(node: usize, flags: usize)
    by (bit_vector)
    requires
        node & 511 == 0,
    ensures
        (flags & 511) | node == node + (flags & 511),
{
}

/// The fields of a word as numbers.
pub proof fn word_numbers(w: usize, node: usize)
    ensures
        lock::is_locked(w) <==> w % 2 == 1,
        lock::byte_is_unlocked(w) <==> w % 256 == 0,
        lock::is_waking(w) <==> (w / 256) % 2 == 1,
        lock::head_of(w) == w - w % 512,
        lock::is_address(node) <==> node != 0 && node % 512 == 0,
        w % 2 == 0 ==> lock::with_lock(w) == w + 1,
        lock::with_unlocked_byte(w) == w - w % 256,
        (w / 256) % 2 == 0 ==> lock::with_waking(w) == w + 256,
        (w / 256) % 2 == 1 ==> lock::with_waking(w) == w,
        (w / 256) % 2 == 1 ==> lock::without_waking(w) == w - 256,
        (w / 256) % 2 == 0 ==> lock::without_waking(w) == w,
        lock::only_lock(w) == w % 2,
        node % 512 == 0 ==> lock::with_head(w, node) == node + w % 512,
{
    low_bits(w);
    low_bits(node);
    high_bits(w);
    first_bit(w);
    waking_bit(w);
    if node % 512 == 0 {
        address_bits(node, w);
    }
}

/// A thread that has seen the lock free has it with this step if it still is, however often
/// it has asked, whoever has come to wait since, and whoever wakes another. Otherwise it
/// looks again.
pub proof fn free_byte_is_taken(
    before: LockAttempt,
    after: LockAttempt,
    word: usize,
    new_word: usize,
    nodes: Map<usize, Node>,
    new_nodes: Map<usize, Node>,
    step: LockStep,
    seen: usize,
)
    requires
        lock::lock_steps(before, after, word, new_word, nodes, new_nodes, step),
        before.state == Some(seen),
        seen % 2 == 0,
    ensures
        new_nodes == nodes,
        word % 256 == 0 ==> step == LockStep::Acquired && new_word == word + 1,
        word % 256 != 0 ==> step == LockStep::Continue && new_word == word && after.state is None && after.spin
            == before.spin && after.node == before.node,
{
    word_numbers(seen, 0);
    word_numbers(word, 0);
}

/// Nobody else in the way, a thread gets a free lock with two steps.
pub proof fn lone_thread_gets_the_byte(
    a: LockAttempt,
    b: LockAttempt,
    c: LockAttempt,
    word: usize,
    looked: usize,
    new_word: usize,
    nodes: Map<usize, Node>,
    n1: Map<usize, Node>,
    n2: Map<usize, Node>,
    first: LockStep,
    second: LockStep,
)
    requires
        a.state is None,
        word % 256 == 0,
        lock::lock_steps(a, b, word, looked, nodes, n1, first),
        lock::lock_steps(b, c, looked, new_word, n1, n2, second),
    ensures
        looked == word,
        second == LockStep::Acquired,
        new_word == word + 1,
{
    word_numbers(word, 0);
}

/// Only a free lock is had.
pub proof fn held_byte_is_not_taken(
    before: LockAttempt,
    after: LockAttempt,
    word: usize,
    new_word: usize,
    nodes: Map<usize, Node>,
    new_nodes: Map<usize, Node>,
    step: LockStep,
)
    requires
        before.ready(nodes),
        lock::lock_steps(before, after, word, new_word, nodes, new_nodes, step),
    ensures
        step is Acquired ==> word % 256 == 0 && new_word == word + 1,
        !(step is Acquired) ==> new_word % 512 == word % 512,
        !(step is Acquired) && !(step is Wait) ==> new_word == word,
        before.state is None ==> step == LockStep::Continue && after.state == Some(word) && !after.refused
            && after.spin == before.spin && after.node == before.node && new_nodes == nodes,
{
    word_numbers(word, if before.node is Some {
        before.node->0
    } else {
        0
    });
}

/// A thread that finds the lock held asks whether it may go on without blocking, once for
/// each word that it sees. Where it may not, it gets a node, comes in as the newest and
/// blocks. Where the word has changed since it looked, it goes on with what is there.
pub proof fn kept_out_thread_waits(
    before: LockAttempt,
    after: LockAttempt,
    word: usize,
    new_word: usize,
    nodes: Map<usize, Node>,
    new_nodes: Map<usize, Node>,
    step: LockStep,
    seen: usize,
)
    requires
        before.ready(nodes),
        lock::lock_steps(before, after, word, new_word, nodes, new_nodes, step),
        before.state == Some(seen),
        seen % 2 == 1,
    ensures
        !before.refused ==> step == LockStep::Yield(
            YieldContext { contended: seen >= 512, iteration: before.spin },
        ) && after == before && new_word == word && new_nodes == nodes,
        before.refused && before.node is None ==> step == LockStep::NeedNode && after == before && new_word
            == word && new_nodes == nodes,
        before.refused ==> (before.node matches Some(node) ==> {
            &&& word == seen ==> {
                &&& step == LockStep::Wait
                &&& after.node == Some(node)
                &&& new_word == node + word % 512
                &&& new_nodes[node].next == word - word % 512
                &&& new_nodes[node].tail == (if word < 512 {
                    node
                } else {
                    0
                })
                &&& new_nodes[node].prev == nodes[node].prev
                &&& new_nodes[node].flags == nodes[node].flags
                &&& forall|a: usize| a != node ==> #[trigger] new_nodes[a] == nodes[a]
            }
            &&& word != seen ==> step == LockStep::Continue && after.state == Some(word) && !after.refused
                && after.spin == before.spin && new_word == word
        }),
{
    word_numbers(seen, if before.node is Some {
        before.node->0
    } else {
        0
    });
}

/// Without waiting, the lock is had if and only if it is free, and it is released with all
/// else left as it is.
pub proof fn byte_is_had_and_released(
    lock: &mut Lock,
    acquired: bool,
    attempt: Option<LockAttempt>,
    wake: WakeAttempt,
    held: bool,
)
    ensures
        call_ensures(Lock::try_lock, (lock,), acquired) ==> (acquired <==> old(lock).state % 256 == 0) && final(lock).state == old(lock).state + (if acquired {
            1int
        } else {
            0
        }),
        call_ensures(Lock::lock, (lock,), attempt) ==> (attempt is None <==> old(lock).state % 256 == 0)
            && final(lock).state == old(lock).state + (if attempt is None {
            1int
        } else {
            0
        }) && (attempt matches Some(a) ==> a.state is None && a.spin == 0 && !a.refused && a.node is None),
        call_ensures(Lock::unlock, (lock,), wake) ==> final(lock).state == old(lock).state - old(lock).state
            % 256 && wake.state is None && wake.phase == WakePhase::Check,
        call_ensures(Lock::locked, (&*old(lock),), held) ==> (held <==> old(lock).state % 2 == 1),
{
    word_numbers(old(lock).state, 0);
}

/// The lock is had and threads are woken by the steps of these laws.
pub proof fn byte_lock_takes_these_steps<M: Memory<Node>>(
    lock: &mut Lock,
    attempt: &mut LockAttempt,
    wake: &mut WakeAttempt,
    memory: &mut M,
    step: LockStep,
    woken: WakeStep,
)
    ensures
        call_ensures(Lock::lock_slow::<M>, (lock, attempt, memory), step) ==> lock::lock_steps(
            *old(attempt),
            *final(attempt),
            old(lock).state,
            final(lock).state,
            old(memory).nodes(),
            final(memory).nodes(),
            step,
        ),
        call_ensures(Lock::unlock_slow::<M>, (lock, wake, memory), woken) ==> lock::wake_steps(
            *old(wake),
            *final(wake),
            old(lock).state,
            final(lock).state,
            old(memory).nodes(),
            final(memory).nodes(),
            woken,
        ),
{
}

/// A thread that was woken begins anew with its node, and gives back the right to wake if
/// it was woken with it.
pub proof fn woken_thread_begins_anew<M: Memory<Node>>(
    lock: &mut Lock,
    attempt: &mut LockAttempt,
    memory: &mut M,
    node: usize,
    allowed: bool,
)
    ensures
        call_ensures(Lock::lock_woken::<M>, (lock, attempt, memory), ()) && old(attempt).node == Some(node)
            ==> {
            &&& final(attempt).state == Some(final(lock).state)
            &&& final(attempt).spin == 0
            &&& !final(attempt).refused
            &&& final(attempt).node == Some(node)
            &&& final(memory).nodes()[node].flags == 0
            &&& final(memory).nodes()[node].prev == 0
            &&& old(memory).nodes()[node].flags == 0 ==> final(lock).state == old(lock).state
            &&& old(memory).nodes()[node].flags != 0 && (old(lock).state / 256) % 2 == 1 ==> final(lock).state
                == old(lock).state - 256
            &&& forall|a: usize| a != node ==> #[trigger] final(memory).nodes()[a] == old(memory).nodes()[a]
        },
        call_ensures(LockAttempt::yielded, (attempt, allowed), ()) && allowed ==> final(attempt).state is None
            && (old(attempt).spin < usize::MAX ==> final(attempt).spin == old(attempt).spin + 1)
            && final(attempt).node == old(attempt).node,
        call_ensures(LockAttempt::yielded, (attempt, allowed), ()) && !allowed ==> final(attempt).refused
            && final(attempt).state == old(attempt).state && final(attempt).spin == old(attempt).spin
            && final(attempt).node == old(attempt).node,
        call_ensures(LockAttempt::set_node, (attempt, node), ()) ==> final(attempt).node == Some(node)
            && final(attempt).state == old(attempt).state && final(attempt).spin == old(attempt).spin
            && final(attempt).refused == old(attempt).refused,
{
    word_numbers(old(lock).state, 0);
}

/// A thread that has released the lock looks for those that wait and is done if there are
/// none. It takes the right to wake if nobody has it and the lock is still free.
pub proof fn right_to_wake_is_taken(
    before: WakeAttempt,
    after: WakeAttempt,
    word: usize,
    new_word: usize,
    nodes: Map<usize, Node>,
    new_nodes: Map<usize, Node>,
    step: WakeStep,
    seen: usize,
)
    requires
        lock::wake_steps(before, after, word, new_word, nodes, new_nodes, step),
    ensures
        before.state is None ==> new_word == word && new_nodes == nodes,
        before.state is None && before.phase == WakePhase::Check ==> {
            &&& word < 512 ==> step == WakeStep::Done
            &&& word >= 512 ==> step == WakeStep::Continue && after.state is None && after.phase
                == WakePhase::TakeRight
        },
        before.state is None && before.phase != WakePhase::Check ==> step == WakeStep::Continue && after.state
            == Some(word) && after.phase == before.phase,
        before.state == Some(seen) && before.phase == WakePhase::TakeRight ==> {
            let done = seen < 512 || (seen / 256) % 2 == 1 || seen % 2 == 1;
            &&& new_nodes == nodes
            &&& done ==> step == WakeStep::Done && new_word == word
            &&& !done && word == seen ==> step == WakeStep::Continue && new_word == word + 256 && after.state
                == Some(new_word) && after.phase == WakePhase::FindTail
            &&& !done && word != seen ==> step == WakeStep::Continue && new_word == word && after.state
                == Some(word) && after.phase == WakePhase::TakeRight
        },
{
    word_numbers(word, 0);
    word_numbers(seen, 0);
}

/// A thread that has the right to wake and finds the lock free wakes the one that has
/// waited longest, which leaves the queue and, where others wait, takes the right with it.
/// Where it finds the lock held it leaves the waking to the holder.
pub proof fn longest_waiting_thread_is_woken(
    before: WakeAttempt,
    after: WakeAttempt,
    word: usize,
    new_word: usize,
    nodes: Map<usize, Node>,
    new_nodes: Map<usize, Node>,
    step: WakeStep,
    seen: usize,
    tail: usize,
)
    requires
        before.ready(nodes),
        lock::wake_steps(before, after, word, new_word, nodes, new_nodes, step),
        before.state == Some(seen),
    ensures
        before.phase == WakePhase::FindTail && seen % 2 == 1 ==> {
            &&& word == seen ==> step == WakeStep::Done && (new_word / 256) % 2 == 0 && new_word - new_word
                % 512 == word - word % 512 && new_word % 256 == word % 256
            &&& word != seen ==> step == WakeStep::Continue && new_word == word && after.state == Some(word)
                && after.phase == WakePhase::FindTail
        },
        before.phase == WakePhase::FindTail && seen % 2 == 0 ==> {
            let queue = queue::waiters(nodes, (seen - seen % 512) as usize);
            &&& queue.len() > 0
            &&& step != WakeStep::Done
            &&& step matches WakeStep::Wake(node) ==> node == queue.last()
            &&& queue.len() > 1 ==> step is Wake && new_word == word && new_nodes[queue.last()].flags == 1
                && queue::waiters(new_nodes, (seen - seen % 512) as usize) == queue.drop_last()
            &&& queue.len() == 1 && word == seen ==> step is Wake && new_word == word % 2
            &&& new_nodes.dom() =~= nodes.dom()
            &&& forall|a: usize| !queue.contains(a) ==> #[trigger] new_nodes[a] == nodes[a]
            &&& forall|a: usize| a != queue.last() ==> (#[trigger] new_nodes[a]).flags == nodes[a].flags
            &&& queue.len() == 1 && word != seen ==> step == WakeStep::Continue && new_word == word
                && after.state == Some(word) && after.phase == (if word >= 512 {
                WakePhase::FindTail
            } else {
                WakePhase::TakeLast(queue.last())
            })
        },
        before.phase == WakePhase::TakeLast(tail) ==> {
            &&& new_nodes == nodes
            &&& word == seen ==> step == WakeStep::Wake(tail) && new_word == word % 2
            &&& word != seen ==> step == WakeStep::Continue && new_word == word && after.state == Some(word)
                && after.phase == (if word >= 512 {
                WakePhase::FindTail
            } else {
                WakePhase::TakeLast(tail)
            })
        },
{
    word_numbers(seen, 0);
    word_numbers(word, 0);
    let head = lock::head_of(seen);
    let queue = queue::waiters(nodes, head);
    if before.phase == WakePhase::FindTail {
        assert(queue::is_queue(nodes, head, queue));
        assert(queue.contains(queue[0]) && queue.contains(queue[queue.len() - 1]));
        if queue.len() > 1 && seen % 2 == 0 {
            queue::waiters_of(new_nodes, head, queue.drop_last());
        }
    }
}

} // verus!
