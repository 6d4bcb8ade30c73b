//! What many threads do with one [`Lock`](super::lock::Lock).
//!
//! A world is a lock word, the nodes, and what each thread is about. Threads
//! take their steps in any order. In every world that they can reach, at most
//! one thread holds the lock, at most one thread is being woken, the waiting
//! threads are exactly those in the queue, and a free lock with waiting threads
//! has a thread that will see to them.
use super::lock;
use super::lock::{LockAttempt, LockStep, WakeAttempt, WakePhase, WakeStep};
use crate::queue;
use crate::queue::Node;
use vstd::prelude::*;

verus! {

/// What a thread is about.
pub enum Role {
    /// It neither holds nor wants the lock.
    Idle,
    /// It tries to get the lock.
    Locking(LockAttempt),
    /// It is blocked in the queue.
    Waiting(LockAttempt),
    /// It has left the queue and was woken.
    Woken(LockAttempt),
    /// It holds the lock.
    Holding,
    /// It has released the lock and wakes a waiting thread.
    Waking(WakeAttempt),
}

/// A lock word, the nodes, and the threads with the addresses of their nodes.
pub struct World {
    pub word: usize,
    pub nodes: Map<usize, Node>,
    pub roles: Map<int, Role>,
    pub homes: Map<int, usize>,
}

impl World {
    /// The nodes in the queue, from the newest to the oldest.
    pub open spec fn queue(self) -> Seq<usize> {
        queue::waiters(self.nodes, lock::head_of(self.word))
    }

    /// The thread is one of this world.
    pub open spec fn has(self, t: int) -> bool {
        self.roles.contains_key(t)
    }

    /// The thread holds the lock.
    pub open spec fn holds(self, t: int) -> bool {
        self.has(t) && self.roles[t] is Holding
    }

    /// The thread takes a node out of the queue.
    pub open spec fn dequeues(self, t: int) -> bool {
        self.has(t) && (self.roles[t] matches Role::Waking(d) && (d.phase is FindTail || d.phase
            is TakeLast))
    }

    /// The thread has the right to wake, or was woken and holds it still.
    pub open spec fn has_right(self, t: int) -> bool {
        self.dequeues(t) || (self.has(t) && self.roles[t] is Woken
            && self.nodes[self.homes[t]].flags != 0)
    }

    /// The thread is blocked.
    pub open spec fn waits(self, t: int) -> bool {
        self.has(t) && self.roles[t] is Waiting
    }

    /// The thread is going to take the lock or to wake another thread, unless
    /// the lock is taken or the queue becomes empty before.
    pub open spec fn is_active(self, t: int) -> bool {
        self.has(t) && match self.roles[t] {
            Role::Locking(_) => true,
            Role::Woken(_) => true,
            Role::Waking(d) => !gives_up(d),
            _ => false,
        }
    }
}

/// The thread has seen that there is nobody to wake or that another thread
/// does it.
pub open spec fn gives_up(d: WakeAttempt) -> bool {
    d.phase == WakePhase::TakeRight && (d.state matches Some(state) && (lock::head_of(state) == 0
        || lock::is_waking(state) || lock::is_locked(state)))
}

/// An attempt that begins.
pub open spec fn fresh_attempt(a: LockAttempt) -> bool {
    &&& a.state is None
    &&& a.node is None
}

/// A node that is in no queue.
pub open spec fn fresh_node() -> Node {
    Node { prev: 0, next: 0, tail: 0, flags: 0 }
}

/// An idle thread takes a free lock or begins to try.
pub open spec fn begins(w: World, v: World, t: int) -> bool {
    &&& w.roles[t] is Idle
    &&& v.nodes == w.nodes
    &&& v.homes == w.homes
    &&& {
        ||| lock::byte_is_unlocked(w.word) && v.word == lock::with_lock(w.word) && v.roles == w.roles.insert(
            t,
            Role::Holding,
        )
        ||| v.word == w.word && exists|a: LockAttempt| #[trigger]
            fresh_attempt(a) && v.roles == w.roles.insert(t, Role::Locking(a))
    }
}

/// A thread takes a step towards the lock.
pub open spec fn tries(w: World, v: World, t: int, a: LockAttempt, b: LockAttempt, step: LockStep) -> bool {
    &&& w.roles[t] == Role::Locking(a)
    &&& v.homes == w.homes
    &&& match step {
        LockStep::Acquired => {
            &&& lock::lock_steps(a, b, w.word, v.word, w.nodes, v.nodes, step)
            &&& v.roles == w.roles.insert(t, Role::Holding)
        },
        LockStep::Continue => {
            &&& lock::lock_steps(a, b, w.word, v.word, w.nodes, v.nodes, step)
            &&& v.roles == w.roles.insert(t, Role::Locking(b))
        },
        LockStep::Yield(_) => {
            &&& lock::lock_steps(a, b, w.word, v.word, w.nodes, v.nodes, step)
            &&& {
                ||| exists|spin: usize|
                    v.roles == #[trigger] w.roles.insert(
                        t,
                        Role::Locking(LockAttempt { state: None, spin, ..b }),
                    )
                ||| v.roles == w.roles.insert(t, Role::Locking(LockAttempt { refused: true, ..b }))
            }
        },
        LockStep::NeedNode => {
            &&& lock::lock_steps(a, b, w.word, v.word, w.nodes, w.nodes, step)
            &&& v.nodes == w.nodes.insert(w.homes[t], fresh_node())
            &&& v.roles == w.roles.insert(
                t,
                Role::Locking(LockAttempt { node: Some(w.homes[t]), ..b }),
            )
        },
        LockStep::Wait => {
            &&& lock::lock_steps(a, b, w.word, v.word, w.nodes, v.nodes, step)
            &&& v.roles == w.roles.insert(t, Role::Waiting(b))
        },
    }
}

/// A woken thread begins anew.
pub open spec fn resumes(w: World, v: World, t: int, a: LockAttempt, b: LockAttempt) -> bool {
    &&& w.roles[t] == Role::Woken(a)
    &&& v.homes == w.homes
    &&& lock::wake_up(a, b, w.word, v.word, w.nodes, v.nodes)
    &&& v.roles == w.roles.insert(t, Role::Locking(b))
}

/// The holder releases the lock.
pub open spec fn releases(w: World, v: World, t: int) -> bool {
    &&& w.roles[t] is Holding
    &&& v.nodes == w.nodes
    &&& v.homes == w.homes
    &&& v.word == lock::with_unlocked_byte(w.word)
    &&& v.roles == w.roles.insert(
        t,
        Role::Waking(WakeAttempt { state: None, phase: WakePhase::Check }),
    )
}

/// A thread takes a step towards waking another. Where a node leaves the
/// queue, the thread of that node is woken.
pub open spec fn wakes(w: World, v: World, t: int, d: WakeAttempt, e: WakeAttempt, step: WakeStep) -> bool {
    &&& w.roles[t] == Role::Waking(d)
    &&& v.homes == w.homes
    &&& lock::wake_steps(d, e, w.word, v.word, w.nodes, v.nodes, step)
    &&& match step {
        WakeStep::Continue => v.roles == w.roles.insert(t, Role::Waking(e)),
        WakeStep::Done => v.roles == w.roles.insert(t, Role::Idle),
        WakeStep::Wake(node) => exists|u: int| #[trigger]
            w.waits(u) && w.homes[u] == node && v.roles == w.roles.insert(t, Role::Idle).insert(
                u,
                Role::Woken(w.roles[u]->Waiting_0),
            ),
    }
}

/// One step of the thread `t`.
pub open spec fn world_steps(w: World, v: World, t: int) -> bool {
    &&& w.has(t)
    &&& {
        ||| begins(w, v, t)
        ||| exists|a: LockAttempt, b: LockAttempt, step: LockStep| tries(w, v, t, a, b, step)
        ||| exists|a: LockAttempt, b: LockAttempt| resumes(w, v, t, a, b)
        ||| releases(w, v, t)
        ||| exists|d: WakeAttempt, e: WakeAttempt, step: WakeStep| wakes(w, v, t, d, e, step)
    }
}

/// Each thread has a node of its own.
pub open spec fn housed(w: World) -> bool {
    &&& w.homes.dom() == w.roles.dom()
    &&& forall|t: int| #[trigger]
        w.has(t) ==> lock::is_address(w.homes[t]) && w.nodes.contains_key(w.homes[t])
    &&& forall|t: int, u: int| #[trigger]
        w.has(t) && #[trigger] w.has(u) && w.homes[t] == w.homes[u] ==> t == u
}

/// At most one thread holds the lock, and it is held if and only if the word
/// says so.
pub open spec fn exclusive(w: World) -> bool {
    &&& forall|t: int, u: int| #[trigger] w.holds(t) && #[trigger] w.holds(u) ==> t == u
    &&& lock::is_locked(w.word) <==> exists|t: int| w.holds(t)
}

/// At most one thread wakes or is being woken, if and only if the word says
/// so.
pub open spec fn right_exclusive(w: World) -> bool {
    &&& forall|t: int, u: int| #[trigger] w.has_right(t) && #[trigger] w.has_right(u) ==> t == u
    &&& lock::is_waking(w.word) <==> exists|t: int| w.has_right(t)
}

/// The nodes in the queue are exactly those of the waiting threads.
pub open spec fn queue_waits(w: World) -> bool {
    &&& queue::is_queue(w.nodes, lock::head_of(w.word), w.queue())
    &&& forall|t: int| #[trigger] w.waits(t) ==> w.queue().contains(w.homes[t])
    &&& forall|i: int|
        0 <= i < w.queue().len() ==> exists|t: int| #[trigger]
            w.waits(t) && w.homes[t] == #[trigger] w.queue()[i]
}

/// What a thread that tries to get the lock or to wake another may rely on.
pub open spec fn informed(w: World, t: int) -> bool {
    match w.roles[t] {
        Role::Locking(a) => {
            &&& a.ready(w.nodes)
            &&& a.node matches Some(node) ==> node == w.homes[t] && w.nodes[node].prev == 0
                && w.nodes[node].flags == 0
        },
        Role::Waiting(a) => a.ready(w.nodes) && a.node == Some(w.homes[t])
            && w.nodes[w.homes[t]].flags == 0,
        Role::Woken(a) => a.ready(w.nodes) && a.node == Some(w.homes[t]),
        Role::Waking(d) => {
            &&& !(d.phase is TakeLast)
            &&& d.phase == WakePhase::Check ==> d.state is None
            &&& d.phase == WakePhase::FindTail ==> (d.state matches Some(state) && queue::knows(
                w.nodes,
                w.queue(),
                lock::head_of(state),
            ))
        },
        _ => true,
    }
}

/// Where the lock is free and threads wait, some thread will see to them.
pub open spec fn attended(w: World) -> bool {
    !lock::is_locked(w.word) && lock::head_of(w.word) != 0 ==> exists|t: int| w.is_active(t)
}

/// All of it together.
pub open spec fn sound(w: World) -> bool {
    &&& lock::is_word(w.word)
    &&& housed(w)
    &&& exclusive(w)
    &&& right_exclusive(w)
    &&& queue_waits(w)
    &&& forall|t: int| #[trigger] w.has(t) ==> informed(w, t)
    &&& attended(w)
}

/// A free lock that nobody has touched yet.
pub open spec fn starts(w: World) -> bool {
    &&& w.word == 0
    &&& housed(w)
    &&& forall|t: int| #[trigger] w.has(t) ==> w.roles[t] is Idle
}

/// Where only one thread changes its role, the others are as they were.
proof fn others_unchanged(w: World, v: World, t: int, role: Role)
    requires
        w.has(t),
        v.roles == w.roles.insert(t, role),
    ensures
        v.roles.dom() == w.roles.dom(),
        forall|u: int| #[trigger] v.has(u) == w.has(u),
        forall|u: int| u != t ==> #[trigger] v.roles[u] == w.roles[u],
        forall|u: int| u != t ==> #[trigger] v.holds(u) == w.holds(u),
        forall|u: int| u != t ==> #[trigger] v.dequeues(u) == w.dequeues(u),
        forall|u: int| u != t ==> #[trigger] v.waits(u) == w.waits(u),
        forall|u: int| u != t ==> #[trigger] v.is_active(u) == w.is_active(u),
{
    assert(v.roles.dom() =~= w.roles.dom());
}

/// The nodes in the queue belong to waiting threads.
proof fn not_queued(w: World, t: int)
    requires
        sound(w),
        w.has(t),
        !w.waits(t),
    ensures
        !w.queue().contains(w.homes[t]),
{
    if w.queue().contains(w.homes[t]) {
        let i = choose|i: int| 0 <= i < w.queue().len() && w.queue()[i] == w.homes[t];
        let u = choose|u: int| #[trigger] w.waits(u) && w.homes[u] == w.queue()[i];
        assert(w.has(u) && w.has(t));
    }
}

proof fn locked_by_someone(w: World, v: World, t: int)
    requires
        exclusive(w),
        w.has(t),
        forall|u: int| u != t ==> #[trigger] v.holds(u) == w.holds(u),
        v.holds(t) == w.holds(t),
        lock::is_locked(v.word) == lock::is_locked(w.word),
    ensures
        exclusive(v),
{
    if lock::is_locked(w.word) {
        let u = choose|u: int| w.holds(u);
        assert(v.holds(u));
    }
    assert forall|u: int| #[trigger] v.holds(u) implies w.holds(u) by {}
}

proof fn right_of_someone(w: World, v: World, t: int)
    requires
        right_exclusive(w),
        w.has(t),
        forall|u: int| u != t ==> #[trigger] v.has_right(u) == w.has_right(u),
        v.has_right(t) == w.has_right(t),
        lock::is_waking(v.word) == lock::is_waking(w.word),
    ensures
        right_exclusive(v),
{
    if lock::is_waking(w.word) {
        let u = choose|u: int| w.has_right(u);
        assert(v.has_right(u));
    }
    assert forall|u: int| #[trigger] v.has_right(u) implies w.has_right(u) by {}
}

/// The flags of the nodes of other threads tell as before who holds the right
/// to wake.
proof fn rights_unchanged(w: World, v: World, t: int)
    requires
        housed(w),
        w.has(t),
        v.homes == w.homes,
        forall|u: int| #[trigger] v.has(u) == w.has(u),
        forall|u: int| u != t ==> #[trigger] v.roles[u] == w.roles[u],
        forall|u: int| u != t ==> #[trigger] v.dequeues(u) == w.dequeues(u),
        forall|a: usize| a != w.homes[t] ==> (#[trigger] v.nodes[a]).flags == w.nodes[a].flags,
    ensures
        forall|u: int| u != t ==> #[trigger] v.has_right(u) == w.has_right(u),
{
    assert forall|u: int| u != t implies #[trigger] v.has_right(u) == w.has_right(u) by {
        if w.has(u) {
            assert(w.has(t));
            assert(w.homes[u] != w.homes[t]);
            assert(v.roles[u] == w.roles[u]);
        } else {
            assert(!v.has(u));
        }
    }
}

proof fn queue_kept(w: World, v: World, t: int)
    requires
        queue_waits(w),
        w.has(t),
        v.homes == w.homes,
        forall|u: int| u != t ==> #[trigger] v.waits(u) == w.waits(u),
        v.waits(t) == w.waits(t),
        lock::head_of(v.word) == lock::head_of(w.word),
        queue::is_queue(v.nodes, lock::head_of(w.word), w.queue()),
    ensures
        v.queue() == w.queue(),
        queue_waits(v),
{
    queue::waiters_of(v.nodes, lock::head_of(v.word), w.queue());
    assert forall|i: int| 0 <= i < v.queue().len() implies exists|u: int| #[trigger]
        v.waits(u) && v.homes[u] == #[trigger] v.queue()[i] by {
        let u = choose|u: int| #[trigger] w.waits(u) && w.homes[u] == w.queue()[i];
        assert(v.waits(u));
    }
    assert forall|u: int| #[trigger] v.waits(u) implies v.queue().contains(v.homes[u]) by {
        assert(w.waits(u));
    }
}

proof fn attended_kept(w: World, v: World, t: int)
    requires
        attended(w),
        w.has(t),
        forall|u: int| u != t ==> #[trigger] v.is_active(u) == w.is_active(u),
        w.is_active(t) ==> v.is_active(t),
        lock::is_locked(v.word) == lock::is_locked(w.word),
        lock::head_of(v.word) == lock::head_of(w.word),
    ensures
        attended(v),
{
    if !lock::is_locked(w.word) && lock::head_of(w.word) != 0 {
        let u = choose|u: int| w.is_active(u);
        assert(v.is_active(u));
    }
}

/// Where the word and the nodes stay, each thread knows what it knew.
proof fn informed_kept(w: World, v: World, t: int)
    requires
        w.has(t),
        v.homes == w.homes,
        forall|u: int| #[trigger] w.has(u) ==> informed(w, u),
        forall|u: int| #[trigger] v.has(u) == w.has(u),
        forall|u: int| u != t ==> #[trigger] v.roles[u] == w.roles[u],
        v.nodes == w.nodes,
        v.queue() == w.queue(),
        informed(v, t),
    ensures
        forall|u: int| #[trigger] v.has(u) ==> informed(v, u),
{
    assert forall|u: int| #[trigger] v.has(u) implies informed(v, u) by {
        assert(w.has(u));
        if u != t {
            assert(v.roles[u] == w.roles[u]);
        }
    }
}

proof fn begin_is_sound(w: World, v: World, t: int)
    requires
        sound(w),
        w.has(t),
        begins(w, v, t),
    ensures
        sound(v),
{
    lock::word_fields(w.word, 0);
    let role = v.roles[t];
    assert(v.roles =~= w.roles.insert(t, role));
    others_unchanged(w, v, t, role);
    rights_unchanged(w, v, t);
    queue_kept(w, v, t);
    right_of_someone(w, v, t);
    assert(informed(v, t));
    informed_kept(w, v, t);
    if role is Holding {
        assert(v.holds(t));
        assert forall|u: int| #[trigger] v.holds(u) implies u == t by {
            if u != t {
                assert(w.holds(u));
            }
        }
    } else {
        locked_by_someone(w, v, t);
        attended_kept(w, v, t);
    }
}

proof fn release_is_sound(w: World, v: World, t: int)
    requires
        sound(w),
        w.has(t),
        releases(w, v, t),
    ensures
        sound(v),
{
    lock::word_fields(w.word, 0);
    let role = v.roles[t];
    assert(v.roles =~= w.roles.insert(t, role));
    others_unchanged(w, v, t, role);
    rights_unchanged(w, v, t);
    queue_kept(w, v, t);
    right_of_someone(w, v, t);
    assert(w.holds(t));
    assert forall|u: int| #[trigger] v.holds(u) implies false by {
        assert(w.holds(u));
    }
    assert(informed(v, t));
    informed_kept(w, v, t);
    assert(v.is_active(t));
}

proof fn resume_is_sound(w: World, v: World, t: int, a: LockAttempt, b: LockAttempt)
    requires
        sound(w),
        w.has(t),
        resumes(w, v, t, a, b),
    ensures
        sound(v),
{
    lock::word_fields(w.word, 0);
    let role = v.roles[t];
    assert(v.roles =~= w.roles.insert(t, role));
    others_unchanged(w, v, t, role);
    not_queued(w, t);
    assert(informed(w, t));
    rights_unchanged(w, v, t);
    queue::queue_is_framed(w.nodes, v.nodes, lock::head_of(w.word), w.queue());
    queue_kept(w, v, t);
    if w.has_right(t) {
        assert(lock::is_waking(w.word));
        assert forall|u: int| #[trigger] v.has_right(u) implies false by {
            assert(w.has_right(u));
        }
    } else {
        right_of_someone(w, v, t);
    }
    locked_by_someone(w, v, t);
    attended_kept(w, v, t);
    assert(v.nodes.dom() =~= w.nodes.dom());
    informed_framed(w, v, t);
}

/// Where one node outside of the queue changes, the other threads know what
/// they knew.
proof fn informed_framed(w: World, v: World, t: int)
    requires
        sound(w),
        w.has(t),
        v.homes == w.homes,
        forall|u: int| #[trigger] v.has(u) == w.has(u),
        forall|u: int| u != t ==> #[trigger] v.roles[u] == w.roles[u],
        v.nodes.dom() == w.nodes.dom(),
        forall|a: usize| a != w.homes[t] ==> #[trigger] v.nodes[a] == w.nodes[a],
        !w.queue().contains(w.homes[t]),
        v.queue() == w.queue(),
        informed(v, t),
    ensures
        forall|u: int| #[trigger] v.has(u) ==> informed(v, u),
{
    assert forall|u: int| #[trigger] v.has(u) implies informed(v, u) by {
        assert(w.has(u) && w.has(t));
        if u != t {
            assert(v.roles[u] == w.roles[u]);
            assert(w.homes[u] != w.homes[t]);
            assert(informed(w, u));
            if w.dequeues(u) {
                let d = w.roles[u]->Waking_0;
                let head = lock::head_of(d.state->0);
                let k = choose|k: int| #[trigger] queue::unseen_before(w.nodes, w.queue(), k) && w.queue()[k] == head;
                assert forall|i: int| 0 <= i <= k implies #[trigger] v.nodes[w.queue()[i]] == w.nodes[w.queue()[i]] by {
                    assert(w.queue().contains(w.queue()[i]));
                }
                assert(queue::unseen_before(v.nodes, v.queue(), k));
            }
        }
    }
}

/// A thread puts its node in front of the queue.
proof fn enqueue_is_sound(w: World, v: World, t: int, a: LockAttempt, b: LockAttempt)
    requires
        sound(w),
        w.has(t),
        tries(w, v, t, a, b, LockStep::Wait),
    ensures
        sound(v),
        v.queue() == seq![w.homes[t]] + w.queue(),
{
    let home = w.homes[t];
    let role = v.roles[t];
    assert(informed(w, t));
    assert(v.roles =~= w.roles.insert(t, role));
    others_unchanged(w, v, t, role);
    not_queued(w, t);
    lock::word_fields(w.word, home);
    let head = lock::head_of(w.word);
    let queue = w.queue();
    queue::push_extends(w.nodes, head, queue, home);
    let longer = seq![home] + queue;
    queue::waiters_of(v.nodes, home, longer);
    assert(v.queue() == longer);
    assert forall|u: int| #[trigger] v.waits(u) implies longer.contains(v.homes[u]) by {
        if u == t {
            assert(longer[0] == home);
        } else {
            assert(w.waits(u));
            let i = choose|i: int| 0 <= i < queue.len() && queue[i] == w.homes[u];
            assert(longer[i + 1] == w.homes[u]);
        }
    }
    assert forall|i: int| 0 <= i < longer.len() implies exists|u: int| #[trigger]
        v.waits(u) && v.homes[u] == #[trigger] longer[i] by {
        if i == 0 {
            assert(v.waits(t));
        } else {
            let u = choose|u: int| #[trigger] w.waits(u) && w.homes[u] == queue[i - 1];
            assert(v.waits(u));
        }
    }
    locked_by_someone(w, v, t);
    rights_unchanged(w, v, t);
    right_of_someone(w, v, t);
    assert(v.nodes.dom() =~= w.nodes.dom());
    assert forall|u: int| #[trigger] v.has(u) implies informed(v, u) by {
        assert(w.has(u) && w.has(t));
        if u != t {
            assert(v.roles[u] == w.roles[u]);
            assert(w.homes[u] != w.homes[t]);
            assert(informed(w, u));
            if w.dequeues(u) {
                let d = w.roles[u]->Waking_0;
                let k = choose|k: int| #[trigger] queue::unseen_before(w.nodes, queue, k) && queue[k] == lock::head_of(d.state->0);
                assert forall|i: int| 0 <= i < queue.len() implies #[trigger] v.nodes[queue[i]] == w.nodes[queue[i]] by {
                    assert(queue.contains(queue[i]));
                }
                assert forall|i: int| 0 <= i < k + 1 implies (#[trigger] v.nodes[longer[i]]).tail == 0 && v.nodes[longer[i]].next == longer[i + 1] by {
                    if i > 0 {
                        assert(longer[i] == queue[i - 1]);
                        assert(w.nodes[queue[i - 1]].tail == 0);
                    }
                }
                assert(longer[k + 1] == queue[k]);
                assert(queue::unseen_before(v.nodes, longer, k + 1));
            }
        }
    }
}

/// Any other step towards the lock.
proof fn try_is_sound(w: World, v: World, t: int, a: LockAttempt, b: LockAttempt, step: LockStep)
    requires
        sound(w),
        w.has(t),
        tries(w, v, t, a, b, step),
    ensures
        sound(v),
{
    if step is Wait {
        enqueue_is_sound(w, v, t, a, b);
    } else {
        let role = v.roles[t];
        assert(informed(w, t));
        assert(v.roles =~= w.roles.insert(t, role));
        others_unchanged(w, v, t, role);
        not_queued(w, t);
        lock::word_fields(w.word, 0);
        queue::queue_is_framed(w.nodes, v.nodes, lock::head_of(w.word), w.queue());
        queue_kept(w, v, t);
        assert(v.nodes.dom() =~= w.nodes.dom());
        rights_unchanged(w, v, t);
        right_of_someone(w, v, t);
        informed_framed(w, v, t);
        if step is Acquired {
            assert(v.holds(t));
            assert forall|u: int| #[trigger] v.holds(u) implies u == t by {
                if u != t {
                    assert(w.holds(u));
                }
            }
        } else {
            locked_by_someone(w, v, t);
            attended_kept(w, v, t);
        }
    }
}

/// Where only links inside of the queue change, the threads outside of it know
/// what they knew.
proof fn informed_outside(w: World, v: World, t: int, u: int)
    requires
        sound(w),
        w.dequeues(t),
        v.homes == w.homes,
        w.has(u),
        u != t,
        v.roles[u] == w.roles[u],
        v.nodes.dom() == w.nodes.dom(),
        forall|a: usize| !w.queue().contains(a) ==> #[trigger] v.nodes[a] == w.nodes[a],
        v.nodes[w.homes[u]].flags == w.nodes[w.homes[u]].flags,
    ensures
        informed(v, u),
{
    assert(informed(w, u));
    if !w.waits(u) {
        not_queued(w, u);
    }
    if w.dequeues(u) {
        assert(w.has_right(t) && w.has_right(u));
    }
}

/// The oldest node leaves the queue and its thread is woken.
proof fn tail_leaves(w: World, v: World, t: int)
    requires
        sound(w),
        w.dequeues(t),
        v.homes == w.homes,
        v.nodes.dom() == w.nodes.dom(),
        forall|a: usize| !w.queue().contains(a) ==> #[trigger] v.nodes[a] == w.nodes[a],
        w.queue().len() > 0,
        queue::is_queue(v.nodes, lock::head_of(v.word), w.queue().drop_last()),
        lock::is_locked(v.word) == lock::is_locked(w.word),
        lock::is_word(v.word),
        forall|a: usize|
            a != w.queue().last() ==> (#[trigger] v.nodes[a]).flags == w.nodes[a].flags,
        lock::is_waking(v.word) <==> v.nodes[w.queue().last()].flags != 0,
        exists|u: int| #[trigger]
            w.waits(u) && w.homes[u] == w.queue().last() && v.roles == w.roles.insert(
                t,
                Role::Idle,
            ).insert(u, Role::Woken(w.roles[u]->Waiting_0)),
    ensures
        sound(v),
        v.queue() == w.queue().drop_last(),
{
    let u = choose|u: int| #[trigger]
        w.waits(u) && w.homes[u] == w.queue().last() && v.roles == w.roles.insert(
            t,
            Role::Idle,
        ).insert(u, Role::Woken(w.roles[u]->Waiting_0));
    let queue = w.queue();
    let shorter = queue.drop_last();
    assert(u != t);
    assert(v.roles.dom() =~= w.roles.dom());
    assert(forall|x: int| #[trigger] v.has(x) == w.has(x));
    queue::waiters_of(v.nodes, lock::head_of(v.word), shorter);
    assert forall|x: int| x != t && x != u implies #[trigger] v.roles[x] == w.roles[x] by {}
    assert forall|x: int| #[trigger] v.holds(x) == w.holds(x) by {}
    locked_by_someone(w, v, t);
    assert(w.has_right(t));
    assert forall|x: int| #[trigger] v.has_right(x) == (x == u && lock::is_waking(v.word)) by {
        if x != u && x != t && w.has(x) {
            assert(w.has(u));
            assert(w.homes[x] != w.homes[u]);
            assert(!w.has_right(x));
        }
    }
    if lock::is_waking(v.word) {
        assert(v.has_right(u));
    }
    assert forall|x: int| #[trigger] v.waits(x) implies shorter.contains(v.homes[x]) by {
        assert(w.waits(x));
        assert(x != u && w.has(x) && w.has(u));
        let i = choose|i: int| 0 <= i < queue.len() && queue[i] == w.homes[x];
        assert(i != queue.len() - 1);
        assert(shorter[i] == w.homes[x]);
    }
    assert forall|i: int| 0 <= i < shorter.len() implies exists|x: int| #[trigger]
        v.waits(x) && v.homes[x] == #[trigger] shorter[i] by {
        let x = choose|x: int| #[trigger] w.waits(x) && w.homes[x] == queue[i];
        assert(queue[i] != queue[queue.len() - 1]);
        assert(x != u);
        assert(v.waits(x));
    }
    assert(v.is_active(u));
    assert forall|x: int| #[trigger] v.has(x) implies informed(v, x) by {
        assert(w.has(x));
        if x == u {
            assert(informed(w, u));
        } else if x != t {
            assert(v.roles[x] == w.roles[x]);
            assert(w.has(u) && w.homes[x] != w.homes[u]);
            informed_outside(w, v, t, x);
        }
    }
}

/// A thread that has the right to the queue takes a step.
proof fn dequeue_is_sound(w: World, v: World, t: int, d: WakeAttempt, e: WakeAttempt, step: WakeStep)
    requires
        sound(w),
        w.has(t),
        wakes(w, v, t, d, e, step),
        d.phase == WakePhase::FindTail,
    ensures
        sound(v),
        step matches WakeStep::Wake(node) ==> w.queue().len() > 0 && node == w.queue().last()
            && v.queue() == w.queue().drop_last(),
        !(step is Wake) ==> v.queue() == w.queue(),
{
    assert(informed(w, t));
    assert(w.dequeues(t));
    let state = d.state->0;
    let head = lock::head_of(state);
    let queue = w.queue();
    let k = choose|k: int| #[trigger] queue::unseen_before(w.nodes, queue, k) && queue[k] == head;
    let rest = queue.skip(k);
    queue::suffix_is_queue(w.nodes, queue, k);
    queue::waiters_of(w.nodes, head, rest);
    assert(w.has_right(t));
    assert(lock::is_waking(w.word));
    lock::word_fields(w.word, 0);
    if w.word == state {
        lock::word_fields(state, 0);
    }
    assert(rest.last() == queue.last());
    assert(forall|i: int| 0 <= i < rest.len() ==> #[trigger] rest[i] == queue[i + k]);
    assert forall|a: usize| rest.contains(a) implies queue.contains(a) by {
        let i = choose|i: int| 0 <= i < rest.len() && rest[i] == a;
        assert(queue[i + k] == a);
    }
    if lock::is_locked(state) || rest.len() == 1 {
        queue::relink_keeps(w.nodes, v.nodes, queue, k);
        if w.word == state && !lock::is_locked(state) {
            // The only node leaves the queue.
            assert(k == 0) by {
                assert(queue[k] == queue[0]);
            }
            assert(queue.len() == 1);
            assert(queue.drop_last().len() == 0);
            let u = choose|u: int| #[trigger] w.waits(u) && w.homes[u] == queue.last();
            assert(w.has(u));
            assert(informed(w, u));
            tail_leaves(w, v, t);
        } else {
            let role = v.roles[t];
            assert(v.roles =~= w.roles.insert(t, role));
            others_unchanged(w, v, t, role);
            queue_kept(w, v, t);
            locked_by_someone(w, v, t);
            if w.word == state {
                rights_unchanged(w, v, t);
                assert forall|u: int| #[trigger] v.has_right(u) implies false by {
                    assert(w.has_right(u));
                }
            } else {
                rights_unchanged(w, v, t);
                right_of_someone(w, v, t);
                attended_kept(w, v, t);
                assert(queue::unseen_before(v.nodes, queue, 0));
                assert(queue::knows(v.nodes, v.queue(), lock::head_of(w.word)));
            }
            assert forall|u: int| #[trigger] v.has(u) implies informed(v, u) by {
                if u != t {
                    assert(v.roles[u] == w.roles[u]);
                    informed_outside(w, v, t, u);
                }
            }
        }
    } else {
        let mid = choose|mid: Map<usize, Node>| #[trigger]
            queue::relinked(w.nodes, mid, rest) && queue::linked(mid, rest) && v.nodes == lock::handed_over(
                mid,
                head,
                rest,
            );
        queue::relinked_is_queue(w.nodes, mid, head, rest);
        queue::relink_keeps(w.nodes, mid, queue, k);
        queue::pop_shortens(mid, head, rest);
        let popped = mid.insert(head, queue::shortened(mid[head], rest[rest.len() - 2]));
        queue::pop_keeps(mid, popped, queue, k);
        let shorter = queue.drop_last();
        assert(queue[queue.len() - 1] == queue.last());
        assert forall|a: usize| shorter.contains(a) implies #[trigger] v.nodes.contains_key(a)
            && v.nodes[a] == popped[a] by {
            let i = choose|i: int| 0 <= i < shorter.len() && shorter[i] == a;
            assert(queue[i] != queue[queue.len() - 1]);
        }
        queue::queue_is_framed(popped, v.nodes, queue[0], shorter);
        assert(v.nodes.dom() =~= w.nodes.dom());
        assert(queue.contains(queue[k]));
        assert(queue.contains(queue[queue.len() - 1]));
        tail_leaves(w, v, t);
    }
}

/// A thread looks at the word or asks for the right to wake.
proof fn approach_is_sound(w: World, v: World, t: int, d: WakeAttempt, e: WakeAttempt, step: WakeStep)
    requires
        sound(w),
        w.has(t),
        wakes(w, v, t, d, e, step),
        d.phase == WakePhase::Check || d.phase == WakePhase::TakeRight,
    ensures
        sound(v),
        v.queue() == w.queue(),
        !(step is Wake),
{
    lock::word_fields(w.word, 0);
    let role = v.roles[t];
    assert(informed(w, t));
    assert(v.roles =~= w.roles.insert(t, role));
    others_unchanged(w, v, t, role);
    rights_unchanged(w, v, t);
    queue_kept(w, v, t);
    locked_by_someone(w, v, t);
    if d.state is Some && !gives_up(d) && w.word == d.state->0 {
        // The thread gets the right to wake.
        assert(v.has_right(t));
        assert forall|u: int| #[trigger] v.has_right(u) implies u == t by {
            if u != t {
                assert(w.has_right(u));
            }
        }
        assert(w.queue().len() > 0);
        assert(queue::unseen_before(v.nodes, v.queue(), 0));
        assert(informed(v, t));
        attended_kept(w, v, t);
    } else {
        right_of_someone(w, v, t);
        assert(informed(v, t));
        if !lock::is_locked(v.word) && lock::head_of(v.word) != 0 {
            if lock::is_waking(w.word) {
                let u = choose|u: int| w.has_right(u);
                assert(u != t);
                assert(w.is_active(u));
                assert(v.is_active(u));
            } else {
                let u = choose|u: int| w.is_active(u);
                assert(v.is_active(u));
            }
        }
    }
    informed_kept(w, v, t);
}

/// Every step of every thread keeps a world sound.
pub proof fn step_is_sound(w: World, v: World, t: int)
    requires
        sound(w),
        world_steps(w, v, t),
    ensures
        sound(v),
{
    if begins(w, v, t) {
        begin_is_sound(w, v, t);
    } else if exists|a: LockAttempt, b: LockAttempt, step: LockStep| tries(w, v, t, a, b, step) {
        let (a, b, step) = choose|a: LockAttempt, b: LockAttempt, step: LockStep| tries(w, v, t, a, b, step);
        try_is_sound(w, v, t, a, b, step);
    } else if exists|a: LockAttempt, b: LockAttempt| resumes(w, v, t, a, b) {
        let (a, b) = choose|a: LockAttempt, b: LockAttempt| resumes(w, v, t, a, b);
        resume_is_sound(w, v, t, a, b);
    } else if releases(w, v, t) {
        release_is_sound(w, v, t);
    } else {
        let (d, e, step) = choose|d: WakeAttempt, e: WakeAttempt, step: WakeStep| wakes(w, v, t, d, e, step);
        assert(informed(w, t));
        if d.phase == WakePhase::FindTail {
            dequeue_is_sound(w, v, t, d, e, step);
        } else {
            approach_is_sound(w, v, t, d, e, step);
        }
    }
}

/// A lock that nobody has touched is sound.
pub proof fn start_is_sound(w: World)
    requires
        starts(w),
    ensures
        sound(w),
        w.queue() == Seq::<usize>::empty(),
{
    lock::zero_is_free();
    queue::waiters_of(w.nodes, 0, Seq::<usize>::empty());
    assert forall|t: int| #[trigger] w.has(t) implies informed(w, t) by {}
    assert forall|t: int| #[trigger] w.waits(t) implies false by {
        assert(w.has(t));
    }
    assert forall|t: int| #[trigger] w.holds(t) implies false by {
        assert(w.has(t));
    }
    assert forall|t: int| #[trigger] w.has_right(t) implies false by {
        assert(w.has(t));
    }
}

/// A run of the threads: worlds, each of which follows from the one before by
/// a step of some thread.
pub open spec fn is_run(run: Seq<World>) -> bool {
    &&& run.len() > 0
    &&& starts(run[0])
    &&& forall|i: int| 0 <= i < run.len() - 1 ==> #[trigger] step_at(run, i)
}

/// Some thread leads from the world at position `i` to the next.
pub open spec fn step_at(run: Seq<World>, i: int) -> bool {
    follows(run[i], run[i + 1])
}

/// Some thread leads from `w` to `v`.
pub open spec fn follows(w: World, v: World) -> bool {
    exists|t: int| world_steps(w, v, t)
}

proof fn run_is_sound(run: Seq<World>, i: int)
    requires
        is_run(run),
        0 <= i < run.len(),
    ensures
        sound(run[i]),
    decreases i,
{
    if i == 0 {
        start_is_sound(run[0]);
    } else {
        run_is_sound(run, i - 1);
        assert(step_at(run, i - 1));
        let w = run[i - 1];
        let v = run[i];
        let t = choose|t: int| world_steps(w, v, t);
        step_is_sound(w, v, t);
    }
}

/// Mutual exclusion: however the threads take their steps, no two of them hold
/// the lock at once.
pub proof fn lock_is_exclusive(run: Seq<World>, i: int, t: int, u: int)
    requires
        is_run(run),
        0 <= i < run.len(),
        run[i].holds(t),
        run[i].holds(u),
    ensures
        t == u,
{
    run_is_sound(run, i);
}

/// No thread is left behind: whenever threads wait and the lock is free, some
/// thread is on its way to take the lock or to wake a waiting one.
pub proof fn waiters_are_attended(run: Seq<World>, i: int, t: int)
    requires
        is_run(run),
        0 <= i < run.len(),
        run[i].waits(t),
    ensures
        (exists|u: int| run[i].holds(u)) || (exists|u: int| run[i].is_active(u)),
{
    run_is_sound(run, i);
    assert(run[i].queue().contains(run[i].homes[t]));
}

/// First come, first served: a thread that is woken is the one that has waited
/// longest, and a thread that begins to wait comes last.
pub proof fn queue_is_fair(run: Seq<World>, i: int)
    requires
        is_run(run),
        0 <= i < run.len() - 1,
    ensures
        ({
            let before = run[i].queue();
            let after = run[i + 1].queue();
            ||| after == before
            ||| after.len() > 0 && after.drop_first() == before && exists|t: int| #[trigger]
                run[i + 1].waits(t) && !run[i].waits(t) && run[i].homes[t] == after[0]
            ||| before.len() > 0 && after == before.drop_last() && exists|t: int| #[trigger]
                run[i].waits(t) && !run[i + 1].waits(t) && run[i].homes[t] == before.last()
        }),
{
    run_is_sound(run, i);
    let w = run[i];
    let v = run[i + 1];
    assert(step_at(run, i));
    let t = choose|t: int| world_steps(w, v, t);
    step_is_sound(w, v, t);
    lock::word_fields(w.word, 0);
    if exists|d: WakeAttempt, e: WakeAttempt, step: WakeStep| wakes(w, v, t, d, e, step) {
        let (d, e, step) = choose|d: WakeAttempt, e: WakeAttempt, step: WakeStep| wakes(w, v, t, d, e, step);
        assert(informed(w, t));
        if d.phase == WakePhase::FindTail {
            dequeue_is_sound(w, v, t, d, e, step);
            if step is Wake {
                let u = choose|u: int| #[trigger]
                    w.waits(u) && w.homes[u] == step->Wake_0 && v.roles == w.roles.insert(
                        t,
                        Role::Idle,
                    ).insert(u, Role::Woken(w.roles[u]->Waiting_0));
                assert(w.waits(u) && !v.waits(u));
            }
        } else {
            approach_is_sound(w, v, t, d, e, step);
        }
    } else if exists|a: LockAttempt, b: LockAttempt, step: LockStep| tries(w, v, t, a, b, step) {
        let (a, b, step) = choose|a: LockAttempt, b: LockAttempt, step: LockStep| tries(w, v, t, a, b, step);
        assert(informed(w, t));
        if step is Wait {
            enqueue_is_sound(w, v, t, a, b);
            assert(v.queue().drop_first() =~= w.queue());
            assert(v.waits(t) && !w.waits(t));
        } else {
            not_queued(w, t);
            queue::queue_is_framed(w.nodes, v.nodes, lock::head_of(w.word), w.queue());
            queue::waiters_of(v.nodes, lock::head_of(v.word), w.queue());
        }
    } else if exists|a: LockAttempt, b: LockAttempt| resumes(w, v, t, a, b) {
        assert(informed(w, t));
        not_queued(w, t);
        queue::queue_is_framed(w.nodes, v.nodes, lock::head_of(w.word), w.queue());
        queue::waiters_of(v.nodes, lock::head_of(v.word), w.queue());
    }
}

/// Whatever step a thread is about to take, what the step asks for is given:
/// the nodes it uses are there, what it has seen leads to a queue, and only a
/// held lock is released.
pub proof fn threads_are_ready(run: Seq<World>, i: int, t: int)
    requires
        is_run(run),
        0 <= i < run.len(),
        run[i].has(t),
    ensures
        match run[i].roles[t] {
            Role::Locking(a) => a.ready(run[i].nodes),
            Role::Woken(a) => a.ready(run[i].nodes) && a.node is Some,
            Role::Holding => lock::is_locked(run[i].word),
            Role::Waking(d) => d.ready(run[i].nodes),
            _ => true,
        },
{
    run_is_sound(run, i);
    let w = run[i];
    assert(informed(w, t));
    if w.holds(t) {
        assert(lock::is_locked(w.word));
    }
    if w.dequeues(t) {
        let d = w.roles[t]->Waking_0;
        let head = lock::head_of(d.state->0);
        let k = choose|k: int| #[trigger] queue::unseen_before(w.nodes, w.queue(), k) && w.queue()[k] == head;
        queue::suffix_is_queue(w.nodes, w.queue(), k);
        assert(queue::has_queue(w.nodes, head));
    }
}

} // verus!
