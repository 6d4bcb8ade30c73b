//! What many threads do with one lock word.
//!
//! A world is a lock word, the nodes, and what each thread is about. Threads
//! take their steps in any order. In every world that they can reach, at most
//! one thread holds the lock, the waiting threads are exactly those in the
//! queue, and a free lock with waiting threads has a thread that will see to
//! them.
//!
//! Such words are those of [`mutex::WordLock`](crate::mutex::WordLock), of the mutex
//! for tasks in [`mutex::futures`](crate::mutex::futures), of the parking lot in
//! [`shared::parker`](crate::shared::parker) and of the lock in
//! [`parker::lock`](crate::parker::lock).
use crate::lock_word;
use crate::lock_word::{Attempt, AttemptStep, Backoff, Dequeue, DequeuePhase, DequeueStep, MUTEX_LOCK};
use crate::queue;
use crate::queue::Node;
use vstd::prelude::*;

verus! {

/// What a thread is about.
pub enum Role {
    /// It neither holds nor wants the lock.
    Idle,
    /// It tries to get the lock.
    Locking(Attempt),
    /// It is blocked in the queue.
    Waiting(Attempt),
    /// It has left the queue and was woken.
    Woken(Attempt),
    /// It holds the lock.
    Holding,
    /// It has released the lock and wakes a waiting thread.
    Waking(Dequeue),
}

/// A lock word, the nodes, and the threads with the addresses of their nodes.
pub struct World {
    pub word: usize,
    pub nodes: Map<usize, Node>,
    pub roles: Map<int, Role>,
    pub homes: Map<int, usize>,
}

impl World {
    /// The nodes in the queue, from the newest to the oldest.
    pub open spec fn queue(self) -> Seq<usize> {
        queue::waiters(self.nodes, lock_word::head_of(self.word))
    }

    /// The thread is one of this world.
    pub open spec fn has(self, t: int) -> bool {
        self.roles.contains_key(t)
    }

    /// The thread holds the lock.
    pub open spec fn holds(self, t: int) -> bool {
        self.has(t) && self.roles[t] is Holding
    }

    /// The thread has the right to take nodes out of the queue.
    pub open spec fn dequeues(self, t: int) -> bool {
        self.has(t) && (self.roles[t] matches Role::Waking(d) && d.phase
            != DequeuePhase::LockQueue)
    }

    /// The thread is blocked.
    pub open spec fn waits(self, t: int) -> bool {
        self.has(t) && self.roles[t] is Waiting
    }

    /// The thread is going to take the lock or to wake another thread, unless
    /// the lock is taken or the queue becomes empty before.
    pub open spec fn is_active(self, t: int) -> bool {
        self.has(t) && match self.roles[t] {
            Role::Locking(_) => true,
            Role::Woken(_) => true,
            Role::Waking(d) => !gives_up(d),
            _ => false,
        }
    }
}

/// The thread has seen that there is nobody to wake or that another thread
/// does it.
pub open spec fn gives_up(d: Dequeue) -> bool {
    d.phase == DequeuePhase::LockQueue && (d.state matches Some(state) && (lock_word::head_of(state) == 0
        || lock_word::is_queue_locked(state)))
}

/// An attempt that begins, of a thread whose node is at `home`.
pub open spec fn fresh_attempt(a: Attempt, home: usize) -> bool {
    &&& a.state is None
    &&& a.node is None || a.node == Some(home)
    &&& !a.queued
    &&& a.backoff matches Backoff::Double(limit) ==> limit < 31
}

/// A waking that begins.
pub open spec fn fresh_dequeue(d: Dequeue) -> bool {
    &&& d.state is None
    &&& d.phase == DequeuePhase::LockQueue
}

/// A node that is in no queue.
pub open spec fn fresh_node() -> Node {
    Node { prev: 0, next: 0, tail: 0, flags: 0 }
}

/// An idle thread takes a free lock or begins to try. If it has its node already, the
/// node has no back link.
pub open spec fn begins(w: World, v: World, t: int) -> bool {
    &&& w.roles[t] is Idle
    &&& v.homes == w.homes
    &&& {
        ||| w.word == 0 && v.word == MUTEX_LOCK && v.nodes == w.nodes && v.roles == w.roles.insert(
            t,
            Role::Holding,
        )
        ||| v.word == w.word && exists|a: Attempt| #[trigger]
            fresh_attempt(a, w.homes[t]) && v.roles == w.roles.insert(t, Role::Locking(a)) && v.nodes
                == (match a.node {
                None => w.nodes,
                Some(node) => w.nodes.insert(node, Node { prev: 0, ..w.nodes[node] }),
            })
    }
}

/// A thread takes a step towards the lock.
pub open spec fn tries(w: World, v: World, t: int, a: Attempt, b: Attempt, step: AttemptStep) -> bool {
    &&& w.roles[t] == Role::Locking(a)
    &&& v.homes == w.homes
    &&& match step {
        AttemptStep::Acquired => {
            &&& lock_word::attempt_steps(a, b, w.word, v.word, w.nodes, v.nodes, step)
            &&& v.roles == w.roles.insert(t, Role::Holding)
        },
        AttemptStep::Continue => {
            &&& lock_word::attempt_steps(a, b, w.word, v.word, w.nodes, v.nodes, step)
            &&& v.roles == w.roles.insert(t, Role::Locking(b))
        },
        AttemptStep::Spin(_) => {
            &&& lock_word::attempt_steps(a, b, w.word, v.word, w.nodes, v.nodes, step)
            &&& v.roles == w.roles.insert(t, Role::Locking(b))
        },
        AttemptStep::Yield { .. } => {
            &&& lock_word::attempt_steps(a, b, w.word, v.word, w.nodes, v.nodes, step)
            &&& {
                ||| exists|spin: usize|
                    v.roles == #[trigger] w.roles.insert(
                        t,
                        Role::Locking(Attempt { state: None, spin, ..b }),
                    )
                ||| v.roles == w.roles.insert(t, Role::Locking(Attempt { refused: true, ..b }))
            }
        },
        AttemptStep::NeedNode => {
            &&& lock_word::attempt_steps(a, b, w.word, v.word, w.nodes, w.nodes, step)
            &&& v.nodes == w.nodes.insert(w.homes[t], fresh_node())
            &&& v.roles == w.roles.insert(
                t,
                Role::Locking(Attempt { node: Some(w.homes[t]), ..b }),
            )
        },
        AttemptStep::Wait => {
            &&& lock_word::attempt_steps(a, b, w.word, v.word, w.nodes, v.nodes, step)
            &&& v.roles == w.roles.insert(t, Role::Waiting(b))
        },
    }
}

/// A woken thread begins anew. A woken task takes a free lock at once.
pub open spec fn resumes(w: World, v: World, t: int) -> bool {
    &&& v.homes == w.homes
    &&& w.roles[t] matches Role::Woken(a) && {
        ||| w.word == 0 && v.word == MUTEX_LOCK && v.nodes == w.nodes && v.roles == w.roles.insert(
            t,
            Role::Holding,
        )
        ||| v.word == w.word && v.nodes == w.nodes.insert(
            w.homes[t],
            Node { prev: 0, ..w.nodes[w.homes[t]] },
        ) && v.roles == w.roles.insert(
            t,
            Role::Locking(Attempt { state: None, spin: 0, refused: false, queued: false, ..a }),
        )
    }
}

/// The holder releases the lock.
pub open spec fn releases(w: World, v: World, t: int) -> bool {
    &&& w.roles[t] is Holding
    &&& v.nodes == w.nodes
    &&& v.homes == w.homes
    &&& v.word == lock_word::without_lock(w.word)
    &&& if lock_word::head_of(w.word) != 0 && !lock_word::is_queue_locked(w.word) {
        exists|d: Dequeue| #[trigger]
            fresh_dequeue(d) && v.roles == w.roles.insert(t, Role::Waking(d))
    } else {
        v.roles == w.roles.insert(t, Role::Idle)
    }
}

/// A thread takes a step towards waking another. Where a node leaves the
/// queue, the thread of that node is woken.
pub open spec fn wakes(w: World, v: World, t: int, d: Dequeue, e: Dequeue, step: DequeueStep) -> bool {
    &&& w.roles[t] == Role::Waking(d)
    &&& v.homes == w.homes
    &&& lock_word::dequeue_steps(d, e, w.word, v.word, w.nodes, v.nodes, step)
    &&& match step {
        DequeueStep::Continue => v.roles == w.roles.insert(t, Role::Waking(e)),
        DequeueStep::Done => v.roles == w.roles.insert(t, Role::Idle),
        DequeueStep::Wake(node) => exists|u: int| #[trigger]
            w.waits(u) && w.homes[u] == node && v.roles == w.roles.insert(t, Role::Idle).insert(
                u,
                Role::Woken(w.roles[u]->Waiting_0),
            ),
    }
}

/// One step of the thread `t`.
pub open spec fn world_steps(w: World, v: World, t: int) -> bool {
    &&& w.has(t)
    &&& {
        ||| begins(w, v, t)
        ||| exists|a: Attempt, b: Attempt, step: AttemptStep| tries(w, v, t, a, b, step)
        ||| resumes(w, v, t)
        ||| releases(w, v, t)
        ||| exists|d: Dequeue, e: Dequeue, step: DequeueStep| wakes(w, v, t, d, e, step)
    }
}

/// Each thread has a node of its own.
pub open spec fn housed(w: World) -> bool {
    &&& w.homes.dom() == w.roles.dom()
    &&& forall|t: int| #[trigger]
        w.has(t) ==> lock_word::is_address(w.homes[t]) && w.nodes.contains_key(w.homes[t])
    &&& forall|t: int, u: int| #[trigger]
        w.has(t) && #[trigger] w.has(u) && w.homes[t] == w.homes[u] ==> t == u
}

/// At most one thread holds the lock, and it is held if and only if the word
/// says so.
pub open spec fn exclusive(w: World) -> bool {
    &&& forall|t: int, u: int| #[trigger] w.holds(t) && #[trigger] w.holds(u) ==> t == u
    &&& lock_word::is_locked(w.word) <==> exists|t: int| w.holds(t)
}

/// At most one thread takes nodes out of the queue, if and only if the word
/// says so.
pub open spec fn queue_exclusive(w: World) -> bool {
    &&& forall|t: int, u: int| #[trigger] w.dequeues(t) && #[trigger] w.dequeues(u) ==> t == u
    &&& lock_word::is_queue_locked(w.word) <==> exists|t: int| w.dequeues(t)
}

/// The nodes in the queue are exactly those of the waiting threads.
pub open spec fn queue_waits(w: World) -> bool {
    &&& queue::is_queue(w.nodes, lock_word::head_of(w.word), w.queue())
    &&& forall|t: int| #[trigger] w.waits(t) ==> w.queue().contains(w.homes[t])
    &&& forall|i: int|
        0 <= i < w.queue().len() ==> exists|t: int| #[trigger]
            w.waits(t) && w.homes[t] == #[trigger] w.queue()[i]
}

/// What a thread that tries to get the lock or to wake another may rely on.
pub open spec fn informed(w: World, t: int) -> bool {
    match w.roles[t] {
        Role::Locking(a) => {
            &&& a.ready(w.nodes)
            &&& !a.queued
            &&& a.node matches Some(node) ==> node == w.homes[t] && w.nodes[node].prev == 0
        },
        Role::Waiting(a) => a.ready(w.nodes) && a.node == Some(w.homes[t]),
        Role::Woken(a) => a.ready(w.nodes) && a.node == Some(w.homes[t]),
        Role::Waking(d) => {
            &&& d.phase matches DequeuePhase::TakeLast(_) ==> false
            &&& d.phase == DequeuePhase::FindTail ==> (d.state matches Some(state) && queue::knows(
                w.nodes,
                w.queue(),
                lock_word::head_of(state),
            ))
        },
        _ => true,
    }
}

/// Where the lock is free and threads wait, some thread will see to them.
pub open spec fn attended(w: World) -> bool {
    !lock_word::is_locked(w.word) && lock_word::head_of(w.word) != 0 ==> exists|t: int| w.is_active(t)
}

/// All of it together.
pub open spec fn sound(w: World) -> bool {
    &&& housed(w)
    &&& exclusive(w)
    &&& queue_exclusive(w)
    &&& queue_waits(w)
    &&& forall|t: int| #[trigger] w.has(t) ==> informed(w, t)
    &&& attended(w)
}

/// A free lock that nobody has touched yet.
pub open spec fn starts(w: World) -> bool {
    &&& w.word == 0
    &&& housed(w)
    &&& forall|t: int| #[trigger] w.has(t) ==> w.roles[t] is Idle
}

/// Where only one thread changes its role, the others are as they were.
proof fn others_unchanged(w: World, v: World, t: int, role: Role)
    requires
        w.has(t),
        v.roles == w.roles.insert(t, role),
    ensures
        v.roles.dom() == w.roles.dom(),
        forall|u: int| #[trigger] v.has(u) == w.has(u),
        forall|u: int| u != t ==> #[trigger] v.roles[u] == w.roles[u],
        forall|u: int| u != t ==> #[trigger] v.holds(u) == w.holds(u),
        forall|u: int| u != t ==> #[trigger] v.dequeues(u) == w.dequeues(u),
        forall|u: int| u != t ==> #[trigger] v.waits(u) == w.waits(u),
        forall|u: int| u != t ==> #[trigger] v.is_active(u) == w.is_active(u),
{
    assert(v.roles.dom() =~= w.roles.dom());
}

/// The nodes in the queue belong to waiting threads.
proof fn not_queued(w: World, t: int)
    requires
        sound(w),
        w.has(t),
        !w.waits(t),
    ensures
        !w.queue().contains(w.homes[t]),
{
    if w.queue().contains(w.homes[t]) {
        let i = choose|i: int| 0 <= i < w.queue().len() && w.queue()[i] == w.homes[t];
        let u = choose|u: int| #[trigger] w.waits(u) && w.homes[u] == w.queue()[i];
        assert(w.has(u) && w.has(t));
    }
}

proof fn locked_by_someone(w: World, v: World, t: int)
    requires
        exclusive(w),
        w.has(t),
        forall|u: int| u != t ==> #[trigger] v.holds(u) == w.holds(u),
        v.holds(t) == w.holds(t),
        lock_word::is_locked(v.word) == lock_word::is_locked(w.word),
    ensures
        exclusive(v),
{
    if lock_word::is_locked(w.word) {
        let u = choose|u: int| w.holds(u);
        assert(v.holds(u));
    }
    assert forall|u: int| #[trigger] v.holds(u) implies w.holds(u) by {}
}

proof fn queue_locked_by_someone(w: World, v: World, t: int)
    requires
        queue_exclusive(w),
        w.has(t),
        forall|u: int| u != t ==> #[trigger] v.dequeues(u) == w.dequeues(u),
        v.dequeues(t) == w.dequeues(t),
        lock_word::is_queue_locked(v.word) == lock_word::is_queue_locked(w.word),
    ensures
        queue_exclusive(v),
{
    if lock_word::is_queue_locked(w.word) {
        let u = choose|u: int| w.dequeues(u);
        assert(v.dequeues(u));
    }
    assert forall|u: int| #[trigger] v.dequeues(u) implies w.dequeues(u) by {}
}

proof fn queue_kept(w: World, v: World, t: int)
    requires
        queue_waits(w),
        w.has(t),
        v.homes == w.homes,
        forall|u: int| u != t ==> #[trigger] v.waits(u) == w.waits(u),
        v.waits(t) == w.waits(t),
        lock_word::head_of(v.word) == lock_word::head_of(w.word),
        queue::is_queue(v.nodes, lock_word::head_of(w.word), w.queue()),
    ensures
        v.queue() == w.queue(),
        queue_waits(v),
{
    queue::waiters_of(v.nodes, lock_word::head_of(v.word), w.queue());
    assert forall|i: int| 0 <= i < v.queue().len() implies exists|u: int| #[trigger]
        v.waits(u) && v.homes[u] == #[trigger] v.queue()[i] by {
        let u = choose|u: int| #[trigger] w.waits(u) && w.homes[u] == w.queue()[i];
        assert(v.waits(u));
    }
    assert forall|u: int| #[trigger] v.waits(u) implies v.queue().contains(v.homes[u]) by {
        assert(w.waits(u));
    }
}

proof fn attended_kept(w: World, v: World, t: int)
    requires
        attended(w),
        w.has(t),
        forall|u: int| u != t ==> #[trigger] v.is_active(u) == w.is_active(u),
        w.is_active(t) ==> v.is_active(t),
        lock_word::is_locked(v.word) == lock_word::is_locked(w.word),
        lock_word::head_of(v.word) == lock_word::head_of(w.word),
    ensures
        attended(v),
{
    if !lock_word::is_locked(w.word) && lock_word::head_of(w.word) != 0 {
        let u = choose|u: int| w.is_active(u);
        assert(v.is_active(u));
    }
}

/// Where the word and the nodes stay, each thread knows what it knew.
proof fn informed_kept(w: World, v: World, t: int)
    requires
        w.has(t),
        v.homes == w.homes,
        forall|u: int| #[trigger] w.has(u) ==> informed(w, u),
        forall|u: int| #[trigger] v.has(u) == w.has(u),
        forall|u: int| u != t ==> #[trigger] v.roles[u] == w.roles[u],
        v.nodes == w.nodes,
        v.queue() == w.queue(),
        informed(v, t),
    ensures
        forall|u: int| #[trigger] v.has(u) ==> informed(v, u),
{
    assert forall|u: int| #[trigger] v.has(u) implies informed(v, u) by {
        assert(w.has(u));
        if u != t {
            assert(v.roles[u] == w.roles[u]);
        }
    }
}

/// A thread that takes a free lock or begins to try, with its own node changed at
/// most.
proof fn begin_is_sound(w: World, v: World, t: int)
    requires
        sound(w),
        w.has(t),
        begins(w, v, t) || resumes(w, v, t),
    ensures
        sound(v),
        v.queue() == w.queue(),
{
    lock_word::word_fields(w.word, 0);
    lock_word::word_fields(v.word, 0);
    assert(lock_word::with_lock(0) == MUTEX_LOCK) by (bit_vector);
    lock_word::word_fields(0, 0);
    let role = v.roles[t];
    assert(v.roles =~= w.roles.insert(t, role));
    others_unchanged(w, v, t, role);
    not_queued(w, t);
    assert(informed(w, t));
    assert(lock_word::head_of(v.word) == lock_word::head_of(w.word));
    queue::queue_is_framed(w.nodes, v.nodes, lock_word::head_of(w.word), w.queue());
    queue_kept(w, v, t);
    queue_locked_by_someone(w, v, t);
    assert(v.nodes.dom() =~= w.nodes.dom());
    assert(informed(v, t));
    informed_framed(w, v, t);
    if role is Holding {
        assert(!lock_word::is_locked(w.word));
        assert(v.holds(t));
        assert forall|u: int| #[trigger] v.holds(u) implies u == t by {
            if u != t {
                assert(w.holds(u));
            }
        }
    } else {
        locked_by_someone(w, v, t);
        attended_kept(w, v, t);
    }
}

proof fn release_is_sound(w: World, v: World, t: int)
    requires
        sound(w),
        w.has(t),
        releases(w, v, t),
    ensures
        sound(v),
{
    lock_word::word_fields(w.word, 0);
    let role = v.roles[t];
    assert(v.roles =~= w.roles.insert(t, role));
    others_unchanged(w, v, t, role);
    queue_kept(w, v, t);
    queue_locked_by_someone(w, v, t);
    assert(w.holds(t));
    assert(!lock_word::is_locked(v.word));
    assert forall|u: int| #[trigger] v.holds(u) implies false by {
        assert(w.holds(u));
    }
    assert(informed(v, t));
    informed_kept(w, v, t);
    if lock_word::head_of(v.word) != 0 {
        if lock_word::is_queue_locked(w.word) {
            let u = choose|u: int| w.dequeues(u);
            assert(w.is_active(u));
            assert(v.is_active(u));
        } else {
            assert(v.is_active(t));
        }
    }
}

/// Where one node outside of the queue changes, the other threads know what
/// they knew.
proof fn informed_framed(w: World, v: World, t: int)
    requires
        sound(w),
        w.has(t),
        v.homes == w.homes,
        forall|u: int| #[trigger] v.has(u) == w.has(u),
        forall|u: int| u != t ==> #[trigger] v.roles[u] == w.roles[u],
        v.nodes.dom() == w.nodes.dom(),
        forall|a: usize| a != w.homes[t] ==> #[trigger] v.nodes[a] == w.nodes[a],
        !w.queue().contains(w.homes[t]),
        v.queue() == w.queue(),
        informed(v, t),
    ensures
        forall|u: int| #[trigger] v.has(u) ==> informed(v, u),
{
    assert forall|u: int| #[trigger] v.has(u) implies informed(v, u) by {
        assert(w.has(u) && w.has(t));
        if u != t {
            assert(v.roles[u] == w.roles[u]);
            assert(w.homes[u] != w.homes[t]);
            assert(informed(w, u));
            if w.dequeues(u) {
                let d = w.roles[u]->Waking_0;
                let head = lock_word::head_of(d.state->0);
                let k = choose|k: int| #[trigger] queue::unseen_before(w.nodes, w.queue(), k) && w.queue()[k] == head;
                assert forall|i: int| 0 <= i <= k implies #[trigger] v.nodes[w.queue()[i]] == w.nodes[w.queue()[i]] by {
                    assert(w.queue().contains(w.queue()[i]));
                }
                assert(queue::unseen_before(v.nodes, v.queue(), k));
            }
        }
    }
}

/// A thread puts its node in front of the queue.
proof fn enqueue_is_sound(w: World, v: World, t: int, a: Attempt, b: Attempt)
    requires
        sound(w),
        w.has(t),
        tries(w, v, t, a, b, AttemptStep::Wait),
    ensures
        sound(v),
        v.queue() == seq![w.homes[t]] + w.queue(),
{
    let home = w.homes[t];
    let role = v.roles[t];
    assert(informed(w, t));
    assert(v.roles =~= w.roles.insert(t, role));
    others_unchanged(w, v, t, role);
    not_queued(w, t);
    lock_word::word_fields(w.word, home);
    let head = lock_word::head_of(w.word);
    let queue = w.queue();
    queue::push_extends(w.nodes, head, queue, home);
    let longer = seq![home] + queue;
    queue::waiters_of(v.nodes, home, longer);
    assert(v.queue() == longer);
    assert forall|u: int| #[trigger] v.waits(u) implies longer.contains(v.homes[u]) by {
        if u == t {
            assert(longer[0] == home);
        } else {
            assert(w.waits(u));
            let i = choose|i: int| 0 <= i < queue.len() && queue[i] == w.homes[u];
            assert(longer[i + 1] == w.homes[u]);
        }
    }
    assert forall|i: int| 0 <= i < longer.len() implies exists|u: int| #[trigger]
        v.waits(u) && v.homes[u] == #[trigger] longer[i] by {
        if i == 0 {
            assert(v.waits(t));
        } else {
            let u = choose|u: int| #[trigger] w.waits(u) && w.homes[u] == queue[i - 1];
            assert(v.waits(u));
        }
    }
    locked_by_someone(w, v, t);
    queue_locked_by_someone(w, v, t);
    assert(v.nodes.dom() =~= w.nodes.dom());
    assert forall|u: int| #[trigger] v.has(u) implies informed(v, u) by {
        assert(w.has(u) && w.has(t));
        if u != t {
            assert(v.roles[u] == w.roles[u]);
            assert(w.homes[u] != w.homes[t]);
            assert(informed(w, u));
            if w.dequeues(u) {
                let d = w.roles[u]->Waking_0;
                let k = choose|k: int| #[trigger] queue::unseen_before(w.nodes, queue, k) && queue[k] == lock_word::head_of(d.state->0);
                assert forall|i: int| 0 <= i < queue.len() implies #[trigger] v.nodes[queue[i]] == w.nodes[queue[i]] by {
                    assert(queue.contains(queue[i]));
                }
                assert forall|i: int| 0 <= i < k + 1 implies (#[trigger] v.nodes[longer[i]]).tail == 0 && v.nodes[longer[i]].next == longer[i + 1] by {
                    if i > 0 {
                        assert(longer[i] == queue[i - 1]);
                        assert(w.nodes[queue[i - 1]].tail == 0);
                    }
                }
                assert(longer[k + 1] == queue[k]);
                assert(queue::unseen_before(v.nodes, longer, k + 1));
            }
        }
    }
}

/// Any other step towards the lock.
proof fn try_is_sound(w: World, v: World, t: int, a: Attempt, b: Attempt, step: AttemptStep)
    requires
        sound(w),
        w.has(t),
        tries(w, v, t, a, b, step),
    ensures
        sound(v),
{
    if step is Wait {
        enqueue_is_sound(w, v, t, a, b);
    } else {
        let role = v.roles[t];
        assert(informed(w, t));
        assert(v.roles =~= w.roles.insert(t, role));
        others_unchanged(w, v, t, role);
        not_queued(w, t);
        lock_word::word_fields(w.word, 0);
        queue::queue_is_framed(w.nodes, v.nodes, lock_word::head_of(w.word), w.queue());
        queue_kept(w, v, t);
        queue_locked_by_someone(w, v, t);
        assert(v.nodes.dom() =~= w.nodes.dom());
        informed_framed(w, v, t);
        if step is Acquired {
            assert(v.holds(t));
            assert forall|u: int| #[trigger] v.holds(u) implies u == t by {
                if u != t {
                    assert(w.holds(u));
                }
            }
        } else {
            locked_by_someone(w, v, t);
            attended_kept(w, v, t);
        }
    }
}

/// Where only links inside of the queue change, the threads outside of it know
/// what they knew.
proof fn informed_outside(w: World, v: World, t: int, u: int)
    requires
        sound(w),
        w.dequeues(t),
        v.homes == w.homes,
        w.has(u),
        u != t,
        v.roles[u] == w.roles[u],
        v.nodes.dom() == w.nodes.dom(),
        forall|a: usize| !w.queue().contains(a) ==> #[trigger] v.nodes[a] == w.nodes[a],
    ensures
        informed(v, u),
{
    assert(informed(w, u));
    if !w.waits(u) {
        not_queued(w, u);
    }
    if w.dequeues(u) {
        assert(w.dequeues(t));
    }
}

/// The oldest node leaves the queue and its thread is woken.
proof fn tail_leaves(w: World, v: World, t: int)
    requires
        sound(w),
        w.dequeues(t),
        v.homes == w.homes,
        v.nodes.dom() == w.nodes.dom(),
        forall|a: usize| !w.queue().contains(a) ==> #[trigger] v.nodes[a] == w.nodes[a],
        w.queue().len() > 0,
        queue::is_queue(v.nodes, lock_word::head_of(v.word), w.queue().drop_last()),
        lock_word::is_locked(v.word) == lock_word::is_locked(w.word),
        !lock_word::is_queue_locked(v.word),
        exists|u: int| #[trigger]
            w.waits(u) && w.homes[u] == w.queue().last() && v.roles == w.roles.insert(
                t,
                Role::Idle,
            ).insert(u, Role::Woken(w.roles[u]->Waiting_0)),
    ensures
        sound(v),
        v.queue() == w.queue().drop_last(),
{
    let u = choose|u: int| #[trigger]
        w.waits(u) && w.homes[u] == w.queue().last() && v.roles == w.roles.insert(
            t,
            Role::Idle,
        ).insert(u, Role::Woken(w.roles[u]->Waiting_0));
    let queue = w.queue();
    let shorter = queue.drop_last();
    assert(u != t);
    assert(v.roles.dom() =~= w.roles.dom());
    assert(forall|x: int| #[trigger] v.has(x) == w.has(x));
    queue::waiters_of(v.nodes, lock_word::head_of(v.word), shorter);
    assert forall|x: int| x != t && x != u implies #[trigger] v.roles[x] == w.roles[x] by {}
    assert forall|x: int| #[trigger] v.holds(x) == w.holds(x) by {}
    locked_by_someone(w, v, t);
    assert forall|x: int| #[trigger] v.dequeues(x) implies false by {
        assert(w.dequeues(x));
    }
    assert forall|x: int| #[trigger] v.waits(x) implies shorter.contains(v.homes[x]) by {
        assert(w.waits(x));
        assert(x != u && w.has(x) && w.has(u));
        let i = choose|i: int| 0 <= i < queue.len() && queue[i] == w.homes[x];
        assert(i != queue.len() - 1);
        assert(shorter[i] == w.homes[x]);
    }
    assert forall|i: int| 0 <= i < shorter.len() implies exists|x: int| #[trigger]
        v.waits(x) && v.homes[x] == #[trigger] shorter[i] by {
        let x = choose|x: int| #[trigger] w.waits(x) && w.homes[x] == queue[i];
        assert(queue[i] != queue[queue.len() - 1]);
        assert(x != u);
        assert(v.waits(x));
    }
    assert(v.is_active(u));
    assert forall|x: int| #[trigger] v.has(x) implies informed(v, x) by {
        assert(w.has(x));
        if x == u {
            assert(informed(w, u));
        } else if x != t {
            assert(v.roles[x] == w.roles[x]);
            informed_outside(w, v, t, x);
        }
    }
}

/// A thread that has the right to the queue takes a step.
proof fn dequeue_is_sound(w: World, v: World, t: int, d: Dequeue, e: Dequeue, step: DequeueStep)
    requires
        sound(w),
        w.has(t),
        wakes(w, v, t, d, e, step),
        d.phase == DequeuePhase::FindTail,
    ensures
        sound(v),
        step matches DequeueStep::Wake(node) ==> w.queue().len() > 0 && node == w.queue().last()
            && v.queue() == w.queue().drop_last(),
        !(step is Wake) ==> v.queue() == w.queue(),
{
    assert(informed(w, t));
    assert(w.dequeues(t));
    let state = d.state->0;
    let head = lock_word::head_of(state);
    let queue = w.queue();
    let k = choose|k: int| #[trigger] queue::unseen_before(w.nodes, queue, k) && queue[k] == head;
    let rest = queue.skip(k);
    queue::suffix_is_queue(w.nodes, queue, k);
    queue::waiters_of(w.nodes, head, rest);
    assert(lock_word::is_queue_locked(w.word));
    lock_word::word_fields(w.word, 0);
    lock_word::word_fields(state, 0);
    assert(rest.last() == queue.last());
    assert(forall|i: int| 0 <= i < rest.len() ==> #[trigger] rest[i] == queue[i + k]);
    assert forall|a: usize| rest.contains(a) implies queue.contains(a) by {
        let i = choose|i: int| 0 <= i < rest.len() && rest[i] == a;
        assert(queue[i + k] == a);
    }
    if lock_word::is_locked(state) || rest.len() == 1 {
        queue::relink_keeps(w.nodes, v.nodes, queue, k);
        if w.word == state && !lock_word::is_locked(state) {
            // The only node leaves the queue.
            assert(k == 0) by {
                assert(queue[k] == queue[0]);
            }
            assert(queue.len() == 1);
            assert(queue.drop_last().len() == 0);
            tail_leaves(w, v, t);
        } else {
            let role = v.roles[t];
            assert(v.roles =~= w.roles.insert(t, role));
            others_unchanged(w, v, t, role);
            queue_kept(w, v, t);
            locked_by_someone(w, v, t);
            if w.word == state {
                assert(!lock_word::is_queue_locked(v.word));
                assert forall|u: int| #[trigger] v.dequeues(u) implies false by {
                    assert(w.dequeues(u));
                }
            } else {
                queue_locked_by_someone(w, v, t);
                attended_kept(w, v, t);
                assert(queue::unseen_before(v.nodes, queue, 0));
                assert(queue::knows(v.nodes, v.queue(), lock_word::head_of(w.word)));
            }
            assert forall|u: int| #[trigger] v.has(u) implies informed(v, u) by {
                if u != t {
                    assert(v.roles[u] == w.roles[u]);
                    informed_outside(w, v, t, u);
                }
            }
        }
    } else {
        let mid = choose|mid: Map<usize, Node>| #[trigger]
            queue::relinked(w.nodes, mid, rest) && queue::linked(mid, rest) && v.nodes == mid.insert(
                head,
                queue::shortened(mid[head], rest[rest.len() - 2]),
            );
        queue::relinked_is_queue(w.nodes, mid, head, rest);
        queue::relink_keeps(w.nodes, mid, queue, k);
        queue::pop_keeps(mid, v.nodes, queue, k);
        assert(v.nodes.dom() =~= w.nodes.dom());
        assert(queue.contains(queue[k]));
        tail_leaves(w, v, t);
    }
}

/// A thread looks at the word or asks for the right to the queue.
proof fn approach_is_sound(w: World, v: World, t: int, d: Dequeue, e: Dequeue, step: DequeueStep)
    requires
        sound(w),
        w.has(t),
        wakes(w, v, t, d, e, step),
        d.phase == DequeuePhase::LockQueue,
    ensures
        sound(v),
        v.queue() == w.queue(),
        !(step is Wake),
{
    lock_word::word_fields(w.word, 0);
    let role = v.roles[t];
    assert(informed(w, t));
    assert(v.roles =~= w.roles.insert(t, role));
    others_unchanged(w, v, t, role);
    queue_kept(w, v, t);
    locked_by_someone(w, v, t);
    if d.state is Some && !gives_up(d) && w.word == d.state->0 {
        // The thread gets the right to the queue.
        lock_word::word_fields(d.state->0, 0);
        assert(v.dequeues(t));
        assert forall|u: int| #[trigger] v.dequeues(u) implies u == t by {
            if u != t {
                assert(w.dequeues(u));
            }
        }
        assert(w.queue().len() > 0);
        assert(queue::unseen_before(v.nodes, v.queue(), 0));
        assert(informed(v, t));
        attended_kept(w, v, t);
    } else {
        queue_locked_by_someone(w, v, t);
        assert(informed(v, t));
        if !lock_word::is_locked(v.word) && lock_word::head_of(v.word) != 0 {
            if lock_word::is_queue_locked(w.word) {
                let u = choose|u: int| w.dequeues(u);
                assert(u != t);
                assert(v.is_active(u));
            } else {
                let u = choose|u: int| w.is_active(u);
                assert(v.is_active(u));
            }
        }
    }
    informed_kept(w, v, t);
}

/// Every step of every thread keeps a world sound.
pub proof fn step_is_sound(w: World, v: World, t: int)
    requires
        sound(w),
        world_steps(w, v, t),
    ensures
        sound(v),
{
    if begins(w, v, t) || resumes(w, v, t) {
        begin_is_sound(w, v, t);
    } else if exists|a: Attempt, b: Attempt, step: AttemptStep| tries(w, v, t, a, b, step) {
        let (a, b, step) = choose|a: Attempt, b: Attempt, step: AttemptStep| tries(w, v, t, a, b, step);
        try_is_sound(w, v, t, a, b, step);
    } else if releases(w, v, t) {
        release_is_sound(w, v, t);
    } else {
        let (d, e, step) = choose|d: Dequeue, e: Dequeue, step: DequeueStep| wakes(w, v, t, d, e, step);
        assert(informed(w, t));
        if d.phase == DequeuePhase::FindTail {
            dequeue_is_sound(w, v, t, d, e, step);
        } else {
            approach_is_sound(w, v, t, d, e, step);
        }
    }
}

/// A lock that nobody has touched is sound.
pub proof fn start_is_sound(w: World)
    requires
        starts(w),
    ensures
        sound(w),
        w.queue() == Seq::<usize>::empty(),
{
    lock_word::word_fields(0, 0);
    queue::waiters_of(w.nodes, 0, Seq::<usize>::empty());
    assert forall|t: int| #[trigger] w.has(t) implies informed(w, t) by {}
    assert forall|t: int| #[trigger] w.waits(t) implies false by {
        assert(w.has(t));
    }
    assert forall|t: int| #[trigger] w.holds(t) implies false by {
        assert(w.has(t));
    }
    assert forall|t: int| #[trigger] w.dequeues(t) implies false by {
        assert(w.has(t));
    }
}

/// A run of the threads: worlds, each of which follows from the one before by
/// a step of some thread.
pub open spec fn is_run(run: Seq<World>) -> bool {
    &&& run.len() > 0
    &&& starts(run[0])
    &&& forall|i: int| 0 <= i < run.len() - 1 ==> #[trigger] step_at(run, i)
}

/// Some thread leads from the world at position `i` to the next.
pub open spec fn step_at(run: Seq<World>, i: int) -> bool {
    follows(run[i], run[i + 1])
}

/// Some thread leads from `w` to `v`.
pub open spec fn follows(w: World, v: World) -> bool {
    exists|t: int| world_steps(w, v, t)
}

proof fn run_is_sound(run: Seq<World>, i: int)
    requires
        is_run(run),
        0 <= i < run.len(),
    ensures
        sound(run[i]),
    decreases i,
{
    if i == 0 {
        start_is_sound(run[0]);
    } else {
        run_is_sound(run, i - 1);
        assert(step_at(run, i - 1));
        let w = run[i - 1];
        let v = run[i];
        let t = choose|t: int| world_steps(w, v, t);
        step_is_sound(w, v, t);
    }
}

/// Mutual exclusion: however the threads take their steps, no two of them hold
/// the lock at once.
pub proof fn lock_is_exclusive(run: Seq<World>, i: int, t: int, u: int)
    requires
        is_run(run),
        0 <= i < run.len(),
        run[i].holds(t),
        run[i].holds(u),
    ensures
        t == u,
{
    run_is_sound(run, i);
}

/// No thread is left behind: whenever threads wait and the lock is free, some
/// thread is on its way to take the lock or to wake a waiting one.
pub proof fn waiters_are_attended(run: Seq<World>, i: int, t: int)
    requires
        is_run(run),
        0 <= i < run.len(),
        run[i].waits(t),
    ensures
        (exists|u: int| run[i].holds(u)) || (exists|u: int| run[i].is_active(u)),
{
    run_is_sound(run, i);
    assert(run[i].queue().contains(run[i].homes[t]));
}

/// First come, first served: a thread that is woken is the one that has waited
/// longest, and a thread that begins to wait comes last.
pub proof fn queue_is_fair(run: Seq<World>, i: int)
    requires
        is_run(run),
        0 <= i < run.len() - 1,
    ensures
        ({
            let before = run[i].queue();
            let after = run[i + 1].queue();
            ||| after == before
            ||| after.len() > 0 && after.drop_first() == before && exists|t: int| #[trigger]
                run[i + 1].waits(t) && !run[i].waits(t) && run[i].homes[t] == after[0]
            ||| before.len() > 0 && after == before.drop_last() && exists|t: int| #[trigger]
                run[i].waits(t) && !run[i + 1].waits(t) && run[i].homes[t] == before.last()
        }),
{
    run_is_sound(run, i);
    let w = run[i];
    let v = run[i + 1];
    assert(step_at(run, i));
    let t = choose|t: int| world_steps(w, v, t);
    step_is_sound(w, v, t);
    lock_word::word_fields(w.word, 0);
    if exists|d: Dequeue, e: Dequeue, step: DequeueStep| wakes(w, v, t, d, e, step) {
        let (d, e, step) = choose|d: Dequeue, e: Dequeue, step: DequeueStep| wakes(w, v, t, d, e, step);
        assert(informed(w, t));
        if d.phase == DequeuePhase::FindTail {
            dequeue_is_sound(w, v, t, d, e, step);
            if step is Wake {
                let u = choose|u: int| #[trigger]
                    w.waits(u) && w.homes[u] == step->Wake_0 && v.roles == w.roles.insert(
                        t,
                        Role::Idle,
                    ).insert(u, Role::Woken(w.roles[u]->Waiting_0));
                assert(w.waits(u) && !v.waits(u));
            }
        } else {
            approach_is_sound(w, v, t, d, e, step);
        }
    } else if exists|a: Attempt, b: Attempt, step: AttemptStep| tries(w, v, t, a, b, step) {
        let (a, b, step) = choose|a: Attempt, b: Attempt, step: AttemptStep| tries(w, v, t, a, b, step);
        assert(informed(w, t));
        if step is Wait {
            enqueue_is_sound(w, v, t, a, b);
            assert(v.queue().drop_first() =~= w.queue());
            assert(v.waits(t) && !w.waits(t));
        } else {
            not_queued(w, t);
            queue::queue_is_framed(w.nodes, v.nodes, lock_word::head_of(w.word), w.queue());
            queue::waiters_of(v.nodes, lock_word::head_of(v.word), w.queue());
        }
    } else if begins(w, v, t) || resumes(w, v, t) {
        begin_is_sound(w, v, t);
    }
}

/// Whatever step a thread is about to take, what the step asks for is given:
/// the nodes it uses are there, what it has seen leads to a queue, and only a
/// held lock is released.
pub proof fn threads_are_ready(run: Seq<World>, i: int, t: int)
    requires
        is_run(run),
        0 <= i < run.len(),
        run[i].has(t),
    ensures
        match run[i].roles[t] {
            Role::Locking(a) => a.ready(run[i].nodes),
            Role::Woken(a) => a.ready(run[i].nodes),
            Role::Holding => lock_word::is_locked(run[i].word),
            Role::Waking(d) => d.ready(run[i].nodes),
            _ => true,
        },
{
    run_is_sound(run, i);
    let w = run[i];
    assert(informed(w, t));
    if w.holds(t) {
        assert(lock_word::is_locked(w.word));
    }
    if w.dequeues(t) {
        let d = w.roles[t]->Waking_0;
        let head = lock_word::head_of(d.state->0);
        let k = choose|k: int| #[trigger] queue::unseen_before(w.nodes, w.queue(), k) && w.queue()[k] == head;
        queue::suffix_is_queue(w.nodes, w.queue(), k);
        assert(queue::has_queue(w.nodes, head));
    }
}

} // verus!
