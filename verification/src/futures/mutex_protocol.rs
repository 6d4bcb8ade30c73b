//! What many tasks do with one mutex that can hand itself over.
//!
//! A world is the lock word of a [`Mutex`](super::mutex::Mutex), the nodes, and what
//! each task is about. Tasks take their steps in any order, may be polled at any time
//! and may end at any time. In every world that they can reach, at most one task owns
//! the mutex, a task to which it was handed over owns it already, and a free mutex with
//! waiting tasks has a task that will see to them.
use super::mutex;
use crate::lock_word;
use crate::lock_word::{Attempt, AttemptStep, Backoff, Dequeue, DequeuePhase, DequeueStep, MUTEX_LOCK};
use crate::queue;
use crate::queue::Node;
use crate::shared::lock;
use crate::shared::lock::{FairStep, FairUnlock, Removal, RemoveStep};
use vstd::prelude::*;

verus! {

/// What a task is about.
pub enum Role {
    /// It neither owns nor wants the mutex.
    Idle,
    /// It tries to get the mutex.
    Locking(Attempt),
    /// It was put in the queue and is pending.
    Waiting,
    /// It is polled while it is pending.
    Polling(Attempt),
    /// It got the mutex while it was polled, and leaves the queue.
    Leaving(Removal),
    /// It no longer wants the mutex, and leaves the queue.
    Removing(Removal),
    /// It has left the queue and was woken, without the mutex.
    Woken,
    /// It holds the mutex.
    Holding,
    /// It holds the mutex and hands it over.
    Handing(FairUnlock),
    /// It wakes a task that waits.
    Waking(Dequeue),
}

/// A lock word, the nodes, and the tasks with the addresses of their nodes.
pub struct World {
    pub word: usize,
    pub nodes: Map<usize, Node>,
    pub roles: Map<int, Role>,
    pub homes: Map<int, usize>,
}

impl World {
    /// The nodes in the queue, from the newest to the oldest.
    pub open spec fn queue(self) -> Seq<usize> {
        queue::waiters(self.nodes, lock_word::head_of(self.word))
    }

    /// The task is one of this world.
    pub open spec fn has(self, t: int) -> bool {
        self.roles.contains_key(t)
    }

    /// The mutex was handed over to the node of the task.
    pub open spec fn is_told(self, t: int) -> bool {
        lock::is_handed(self.nodes[self.homes[t]])
    }

    /// The task was put in the queue and has not noticed that its node has left it.
    pub open spec fn is_in_line(self, t: int) -> bool {
        self.has(t) && match self.roles[t] {
            Role::Waiting => true,
            Role::Polling(_) => true,
            Role::Leaving(_) => true,
            Role::Removing(_) => true,
            _ => false,
        }
    }

    /// The node of the task is in the queue.
    pub open spec fn waits(self, t: int) -> bool {
        self.is_in_line(t) && lock::is_ready(self.nodes[self.homes[t]])
    }

    /// The task owns the mutex.
    pub open spec fn owns(self, t: int) -> bool {
        self.has(t) && match self.roles[t] {
            Role::Holding => true,
            Role::Handing(_) => true,
            Role::Leaving(_) => true,
            _ => self.is_in_line(t) && self.is_told(t),
        }
    }

    /// The task has the right to take nodes out of the queue.
    pub open spec fn dequeues(self, t: int) -> bool {
        self.has(t) && match self.roles[t] {
            Role::Waking(d) => d.phase != DequeuePhase::LockQueue,
            Role::Handing(f) => f.has_right,
            Role::Leaving(r) => r.has_right,
            Role::Removing(r) => r.has_right,
            _ => false,
        }
    }

    /// The task is going to take the mutex or to wake another task, unless the mutex
    /// is taken or the queue becomes empty before.
    pub open spec fn is_active(self, t: int) -> bool {
        self.has(t) && match self.roles[t] {
            Role::Locking(_) => true,
            Role::Woken => true,
            Role::Polling(_) => !self.waits(t) && !self.is_told(t),
            Role::Removing(_) => true,
            Role::Waking(d) => !gives_up(d),
            _ => false,
        }
    }
}

/// The task has seen that there is nobody to wake or that another task does it.
pub open spec fn gives_up(d: Dequeue) -> bool {
    d.phase == DequeuePhase::LockQueue && (d.state matches Some(state) && (lock_word::head_of(state) == 0
        || lock_word::is_queue_locked(state)))
}

/// What a task has seen that has the right to the queue.
pub open spec fn seen_with_right(role: Role) -> Option<usize> {
    match role {
        Role::Waking(d) => d.state,
        Role::Handing(f) => f.state,
        Role::Leaving(r) => r.state,
        Role::Removing(r) => r.state,
        _ => None,
    }
}

/// An attempt that begins.
pub open spec fn fresh_attempt(a: Attempt) -> bool {
    &&& a.state is None
    &&& a.node is None
    &&& !a.queued
    &&& a.backoff matches Backoff::Double(limit) ==> limit < 31
}

/// The attempt of a task that is polled while it is pending.
pub open spec fn fresh_poll(a: Attempt, home: usize) -> bool {
    &&& a.state is None
    &&& a.node == Some(home)
    &&& a.queued
    &&& a.backoff matches Backoff::Double(limit) ==> limit < 31
}

/// A removal that begins.
pub open spec fn fresh_removal(home: usize) -> Removal {
    Removal { state: None, has_right: false, node: home }
}

/// A node that no task has used.
pub open spec fn fresh_node() -> Node {
    Node { prev: 0, next: 0, tail: 0, flags: 0 }
}

/// A task that is polled with a node that tells nothing takes a free mutex or begins
/// to try.
pub open spec fn starts_trying(w: World, v: World, t: int) -> bool {
    ||| w.word == 0 && v.word == MUTEX_LOCK && v.roles == w.roles.insert(t, Role::Holding)
    ||| v.word == w.word && exists|a: Attempt| #[trigger]
        fresh_attempt(a) && v.roles == w.roles.insert(t, Role::Locking(a))
}

/// An idle task wants the mutex and gets a new node for that.
pub open spec fn begins(w: World, v: World, t: int) -> bool {
    &&& w.roles[t] is Idle
    &&& v.nodes == w.nodes.insert(w.homes[t], fresh_node())
    &&& starts_trying(w, v, t)
}

/// A task that was woken without the mutex is polled.
pub open spec fn resumes(w: World, v: World, t: int) -> bool {
    &&& w.roles[t] is Woken
    &&& v.nodes == w.nodes
    &&& starts_trying(w, v, t)
}

/// A pending task is polled. If the mutex was handed over to it, it holds it.
pub open spec fn is_polled(w: World, v: World, t: int) -> bool {
    &&& w.roles[t] is Waiting
    &&& v.word == w.word
    &&& v.nodes == w.nodes
    &&& if w.is_told(t) {
        v.roles == w.roles.insert(t, Role::Holding)
    } else {
        exists|a: Attempt| #[trigger]
            fresh_poll(a, w.homes[t]) && v.roles == w.roles.insert(t, Role::Polling(a))
    }
}

/// A pending task that is polled takes a step. It takes the mutex if it is free, and
/// is pending again otherwise.
pub open spec fn looks(w: World, v: World, t: int, a: Attempt, b: Attempt, step: AttemptStep) -> bool {
    &&& w.roles[t] == Role::Polling(a)
    &&& lock_word::attempt_steps(a, b, w.word, v.word, w.nodes, v.nodes, step)
    &&& v.roles == w.roles.insert(
        t,
        match step {
            AttemptStep::Acquired => Role::Leaving(fresh_removal(w.homes[t])),
            AttemptStep::Wait => if w.waits(t) || w.is_told(t) {
                Role::Waiting
            } else {
                Role::Woken
            },
            _ => Role::Polling(b),
        },
    )
}

/// A task takes a step towards the mutex.
pub open spec fn tries(w: World, v: World, t: int, a: Attempt, b: Attempt, step: AttemptStep) -> bool {
    &&& w.roles[t] == Role::Locking(a)
    &&& match step {
        AttemptStep::Acquired => {
            &&& lock_word::attempt_steps(a, b, w.word, v.word, w.nodes, v.nodes, step)
            &&& v.roles == w.roles.insert(t, Role::Holding)
        },
        AttemptStep::NeedNode => {
            &&& lock_word::attempt_steps(a, b, w.word, v.word, w.nodes, w.nodes, step)
            &&& v.nodes == w.nodes.insert(w.homes[t], lock::made_ready(w.nodes[w.homes[t]]))
            &&& v.roles == w.roles.insert(
                t,
                Role::Locking(Attempt { node: Some(w.homes[t]), ..b }),
            )
        },
        AttemptStep::Wait => {
            &&& lock_word::attempt_steps(a, b, w.word, v.word, w.nodes, v.nodes, step)
            &&& v.roles == w.roles.insert(t, Role::Waiting)
        },
        _ => {
            &&& lock_word::attempt_steps(a, b, w.word, v.word, w.nodes, v.nodes, step)
            &&& v.roles == w.roles.insert(t, Role::Locking(b))
        },
    }
}

/// The holder releases the mutex.
pub open spec fn releases(w: World, v: World, t: int) -> bool {
    &&& w.roles[t] is Holding
    &&& v.nodes == w.nodes
    &&& v.word == lock_word::without_lock(w.word)
    &&& if lock_word::head_of(w.word) != 0 && !lock_word::is_queue_locked(w.word) {
        v.roles == w.roles.insert(t, Role::Waking(crate::mutex::dequeue_start()))
    } else {
        v.roles == w.roles.insert(t, Role::Idle)
    }
}

/// What becomes of a task whose node has left the queue without the mutex.
pub open spec fn woken_role(role: Role) -> Role {
    match role {
        Role::Waiting => Role::Woken,
        _ => role,
    }
}

/// A task takes a step towards waking another. Where a node leaves the queue, it is
/// prepared and its task is woken.
pub open spec fn wakes(
    w: World,
    v: World,
    t: int,
    d: Dequeue,
    e: Dequeue,
    mid: Map<usize, Node>,
    step: DequeueStep,
) -> bool {
    &&& w.roles[t] == Role::Waking(d)
    &&& lock_word::dequeue_steps(d, e, w.word, v.word, w.nodes, mid, step)
    &&& match step {
        DequeueStep::Continue => v.nodes == mid && v.roles == w.roles.insert(t, Role::Waking(e)),
        DequeueStep::Done => v.nodes == mid && v.roles == w.roles.insert(t, Role::Idle),
        DequeueStep::Wake(node) => {
            &&& v.nodes == mid.insert(node, mutex::woken(mid[node]))
            &&& exists|u: int| #[trigger]
                w.waits(u) && w.homes[u] == node && v.roles == w.roles.insert(t, Role::Idle).insert(
                    u,
                    woken_role(w.roles[u]),
                )
        },
    }
}

/// The holder begins to hand the mutex over, for good or to have it back later.
pub open spec fn starts_handing(w: World, v: World, t: int, bumps: bool) -> bool {
    &&& w.roles[t] is Holding
    &&& v.word == w.word
    &&& v.nodes == w.nodes
    &&& v.roles == w.roles.insert(
        t,
        Role::Handing(
            FairUnlock {
                state: None,
                has_right: false,
                back: if bumps {
                    Some(w.homes[t])
                } else {
                    None
                },
            },
        ),
    )
}

/// A task takes a step of handing the mutex over. If it wants the mutex back it then
/// waits behind all others.
pub open spec fn hands(w: World, v: World, t: int, f: FairUnlock, g: FairUnlock, step: FairStep) -> bool {
    &&& w.roles[t] == Role::Handing(f)
    &&& mutex::hand_over_steps(f, g, w.word, v.word, w.nodes, v.nodes, step)
    &&& v.roles == w.roles.insert(
        t,
        match step {
            FairStep::Continue => Role::Handing(g),
            FairStep::Released => Role::Idle,
            FairStep::Kept => Role::Holding,
            FairStep::HandedOver(_) => if f.back is Some {
                Role::Waiting
            } else {
                Role::Idle
            },
        },
    )
}

/// What a task that no longer wants the mutex is about, given what its node tells.
pub open spec fn ended(node: Node, home: usize) -> Role {
    match mutex::drop_step(node, home) {
        mutex::DropStep::Done => Role::Idle,
        mutex::DropStep::Release => Role::Holding,
        mutex::DropStep::Remove(removal) => Role::Removing(removal),
        mutex::DropStep::Wake(dequeue) => Role::Waking(dequeue),
    }
}

/// A task ends that waits, was woken or was never polled.
pub open spec fn ends(w: World, v: World, t: int) -> bool {
    &&& w.roles[t] is Waiting || w.roles[t] is Woken || w.roles[t] is Idle
    &&& v.word == w.word
    &&& v.nodes == w.nodes
    &&& v.roles == w.roles.insert(
        t,
        if w.roles[t] is Idle {
            Role::Waking(crate::mutex::dequeue_start())
        } else {
            ended(w.nodes[w.homes[t]], w.homes[t])
        },
    )
}

/// A task takes a step towards leaving the queue. Once it is through, a task that has
/// the mutex holds it, and one that no longer wants it does what its node tells.
pub open spec fn leaves(w: World, v: World, t: int, r: Removal, s: Removal, step: RemoveStep) -> bool {
    &&& mutex::leave_steps(r, s, w.word, v.word, w.nodes, v.nodes, step)
    &&& {
        ||| w.roles[t] == Role::Leaving(r) && v.roles == w.roles.insert(
            t,
            if step is Continue {
                Role::Leaving(s)
            } else {
                Role::Holding
            },
        )
        ||| w.roles[t] == Role::Removing(r) && v.roles == w.roles.insert(
            t,
            if step is Continue {
                Role::Removing(s)
            } else {
                ended(v.nodes[w.homes[t]], w.homes[t])
            },
        )
    }
}

/// One step of the task `t`.
pub open spec fn world_steps(w: World, v: World, t: int) -> bool {
    &&& w.has(t)
    &&& v.homes == w.homes
    &&& {
        ||| begins(w, v, t)
        ||| resumes(w, v, t)
        ||| is_polled(w, v, t)
        ||| exists|a: Attempt, b: Attempt, step: AttemptStep| looks(w, v, t, a, b, step)
        ||| exists|a: Attempt, b: Attempt, step: AttemptStep| tries(w, v, t, a, b, step)
        ||| releases(w, v, t)
        ||| exists|d: Dequeue, e: Dequeue, mid: Map<usize, Node>, step: DequeueStep|
            wakes(w, v, t, d, e, mid, step)
        ||| exists|bumps: bool| starts_handing(w, v, t, bumps)
        ||| exists|f: FairUnlock, g: FairUnlock, step: FairStep| hands(w, v, t, f, g, step)
        ||| ends(w, v, t)
        ||| exists|r: Removal, s: Removal, step: RemoveStep| leaves(w, v, t, r, s, step)
    }
}

/// Each task has a node of its own.
pub open spec fn housed(w: World) -> bool {
    &&& w.homes.dom() == w.roles.dom()
    &&& forall|t: int| #[trigger]
        w.has(t) ==> lock_word::is_address(w.homes[t]) && w.nodes.contains_key(w.homes[t])
    &&& forall|t: int, u: int| #[trigger]
        w.has(t) && #[trigger] w.has(u) && w.homes[t] == w.homes[u] ==> t == u
}

/// At most one task owns the mutex, and it is owned if and only if the word says so.
pub open spec fn exclusive(w: World) -> bool {
    &&& forall|t: int, u: int| #[trigger] w.owns(t) && #[trigger] w.owns(u) ==> t == u
    &&& lock_word::is_locked(w.word) <==> exists|t: int| w.owns(t)
}

/// At most one task takes nodes out of the queue, if and only if the word says so.
pub open spec fn queue_exclusive(w: World) -> bool {
    &&& forall|t: int, u: int| #[trigger] w.dequeues(t) && #[trigger] w.dequeues(u) ==> t == u
    &&& lock_word::is_queue_locked(w.word) <==> exists|t: int| w.dequeues(t)
}

/// The nodes in the queue are exactly those of the tasks that wait.
pub open spec fn queue_waits(w: World) -> bool {
    &&& queue::is_queue(w.nodes, lock_word::head_of(w.word), w.queue())
    &&& forall|t: int| #[trigger] w.waits(t) ==> w.queue().contains(w.homes[t])
    &&& forall|i: int|
        0 <= i < w.queue().len() ==> exists|t: int| #[trigger]
            w.waits(t) && w.homes[t] == #[trigger] w.queue()[i]
}

/// A task that leaves the queue has its own node and has not seen an empty queue while
/// it is there.
pub open spec fn removes_own(w: World, t: int, r: Removal) -> bool {
    &&& r.node == w.homes[t]
    &&& !r.has_right ==> (r.state matches Some(state) ==> lock_word::head_of(state) == 0
        ==> !w.waits(t))
}

/// What a task may rely on.
pub open spec fn informed(w: World, t: int) -> bool {
    &&& w.is_in_line(t) ==> !(w.waits(t) && w.is_told(t))
    &&& w.dequeues(t) ==> (seen_with_right(w.roles[t]) matches Some(state) && queue::knows(
        w.nodes,
        w.queue(),
        lock_word::head_of(state),
    ))
    &&& match w.roles[t] {
        Role::Locking(a) => {
            &&& a.ready(w.nodes)
            &&& !a.queued
            &&& !w.is_told(t)
            &&& a.node matches Some(node) ==> node == w.homes[t] && w.nodes[node].prev == 0
                && lock::is_ready(w.nodes[node])
        },
        Role::Waiting => w.waits(t) || w.is_told(t),
        Role::Polling(a) => a.ready(w.nodes) && a.queued,
        Role::Leaving(r) => removes_own(w, t, r) && !w.is_told(t),
        Role::Removing(r) => removes_own(w, t, r),
        Role::Woken => !w.is_told(t) && !lock::is_ready(w.nodes[w.homes[t]]),
        Role::Waking(d) => d.phase matches DequeuePhase::TakeLast(_) ==> false,
        Role::Handing(f) => f.back is None || f.back == Some(w.homes[t]),
        _ => true,
    }
}

/// Where the mutex is free and tasks wait, some task will see to them.
pub open spec fn attended(w: World) -> bool {
    !lock_word::is_locked(w.word) && lock_word::head_of(w.word) != 0 ==> exists|t: int| w.is_active(t)
}

/// All of it together.
pub open spec fn sound(w: World) -> bool {
    &&& housed(w)
    &&& exclusive(w)
    &&& queue_exclusive(w)
    &&& queue_waits(w)
    &&& forall|t: int| #[trigger] w.has(t) ==> informed(w, t)
    &&& attended(w)
}

/// A free mutex that nobody has touched yet.
pub open spec fn starts(w: World) -> bool {
    &&& w.word == 0
    &&& housed(w)
    &&& forall|t: int| #[trigger] w.has(t) ==> w.roles[t] is Idle
}

/// Where only one task changes its role and no flags of the others change, the others
/// are as they were.
proof fn others_unchanged(w: World, v: World, t: int)
    requires
        housed(w),
        w.has(t),
        v.homes == w.homes,
        v.roles == w.roles.insert(t, v.roles[t]),
        v.nodes.dom() =~= w.nodes.dom(),
        forall|a: usize| a != w.homes[t] ==> (#[trigger] v.nodes[a]).flags == w.nodes[a].flags,
    ensures
        housed(v),
        forall|u: int| #[trigger] v.has(u) == w.has(u),
        forall|u: int| u != t ==> #[trigger] v.roles[u] == w.roles[u],
        forall|u: int| u != t && #[trigger] w.has(u) ==> v.is_told(u) == w.is_told(u),
        forall|u: int| u != t ==> #[trigger] v.owns(u) == w.owns(u),
        forall|u: int| u != t ==> #[trigger] v.dequeues(u) == w.dequeues(u),
        forall|u: int| u != t ==> #[trigger] v.waits(u) == w.waits(u),
        forall|u: int| u != t ==> #[trigger] v.is_active(u) == w.is_active(u),
{
    assert(v.roles.dom() =~= w.roles.dom());
    assert forall|u: int| #[trigger] v.has(u) == w.has(u) by {}
    assert forall|u: int| u != t && #[trigger] w.has(u) implies w.homes[u] != w.homes[t] by {
        assert(w.has(t));
    }
    assert forall|u: int| u != t implies #[trigger] v.waits(u) == w.waits(u) by {
        assert(v.has(u) == w.has(u));
    }
    assert forall|u: int| u != t implies #[trigger] v.owns(u) == w.owns(u) by {
        assert(v.has(u) == w.has(u));
    }
    assert forall|u: int| u != t implies #[trigger] v.is_active(u) == w.is_active(u) by {
        assert(v.has(u) == w.has(u));
        assert(v.waits(u) == w.waits(u));
    }
}

/// The nodes in the queue belong to tasks that wait.
proof fn not_queued(w: World, t: int)
    requires
        housed(w),
        queue_waits(w),
        w.has(t),
        !w.waits(t),
    ensures
        !w.queue().contains(w.homes[t]),
{
    if w.queue().contains(w.homes[t]) {
        let i = choose|i: int| 0 <= i < w.queue().len() && w.queue()[i] == w.homes[t];
        let u = choose|u: int| #[trigger] w.waits(u) && w.homes[u] == w.queue()[i];
        assert(w.has(u) && w.has(t));
    }
}

proof fn owned_as_before(w: World, v: World, t: int)
    requires
        exclusive(w),
        forall|u: int| u != t ==> #[trigger] v.owns(u) == w.owns(u),
        v.owns(t) == w.owns(t),
        lock_word::is_locked(v.word) == lock_word::is_locked(w.word),
    ensures
        exclusive(v),
{
    if lock_word::is_locked(w.word) {
        let u = choose|u: int| w.owns(u);
        assert(v.owns(u));
    }
    assert forall|u: int| #[trigger] v.owns(u) implies w.owns(u) by {}
}

proof fn queue_right_as_before(w: World, v: World, t: int)
    requires
        queue_exclusive(w),
        forall|u: int| u != t ==> #[trigger] v.dequeues(u) == w.dequeues(u),
        v.dequeues(t) == w.dequeues(t),
        lock_word::is_queue_locked(v.word) == lock_word::is_queue_locked(w.word),
    ensures
        queue_exclusive(v),
{
    if lock_word::is_queue_locked(w.word) {
        let u = choose|u: int| w.dequeues(u);
        assert(v.dequeues(u));
    }
    assert forall|u: int| #[trigger] v.dequeues(u) implies w.dequeues(u) by {}
}

proof fn queue_kept(w: World, v: World, t: int)
    requires
        queue_waits(w),
        v.homes == w.homes,
        forall|u: int| u != t ==> #[trigger] v.waits(u) == w.waits(u),
        v.waits(t) == w.waits(t),
        lock_word::head_of(v.word) == lock_word::head_of(w.word),
        queue::is_queue(v.nodes, lock_word::head_of(w.word), w.queue()),
    ensures
        v.queue() == w.queue(),
        queue_waits(v),
{
    queue::waiters_of(v.nodes, lock_word::head_of(v.word), w.queue());
    assert forall|i: int| 0 <= i < v.queue().len() implies exists|u: int| #[trigger]
        v.waits(u) && v.homes[u] == #[trigger] v.queue()[i] by {
        let u = choose|u: int| #[trigger] w.waits(u) && w.homes[u] == w.queue()[i];
        assert(v.waits(u));
    }
    assert forall|u: int| #[trigger] v.waits(u) implies v.queue().contains(v.homes[u]) by {
        assert(w.waits(u));
    }
}

/// What is known of the queue stays known where its front stays.
proof fn knows_framed(w: World, v: World, head: usize)
    requires
        queue::knows(w.nodes, w.queue(), head),
        v.queue() == w.queue(),
        forall|a: usize| w.queue().contains(a) ==> #[trigger] v.nodes[a] == w.nodes[a],
    ensures
        queue::knows(v.nodes, v.queue(), head),
{
    let k = choose|k: int| #[trigger] queue::unseen_before(w.nodes, w.queue(), k) && w.queue()[k] == head;
    assert forall|i: int| 0 <= i <= k implies #[trigger] v.nodes[w.queue()[i]] == w.nodes[w.queue()[i]] by {
        assert(w.queue().contains(w.queue()[i]));
    }
    assert(queue::unseen_before(v.nodes, v.queue(), k));
}

/// What is known of the queue stays known behind a new node.
proof fn knows_behind(w: World, v: World, home: usize, head: usize)
    requires
        queue::knows(w.nodes, w.queue(), head),
        !w.queue().contains(home),
        v.queue() == seq![home] + w.queue(),
        forall|a: usize| a != home ==> #[trigger] v.nodes[a] == w.nodes[a],
        w.queue().len() > 0 ==> v.nodes[home].tail == 0 && v.nodes[home].next == w.queue()[0],
    ensures
        queue::knows(v.nodes, v.queue(), head),
{
    let queue = w.queue();
    let longer = v.queue();
    let k = choose|k: int| #[trigger] queue::unseen_before(w.nodes, queue, k) && queue[k] == head;
    assert forall|i: int| 0 <= i < queue.len() implies #[trigger] v.nodes[queue[i]] == w.nodes[queue[i]] by {
        assert(queue.contains(queue[i]));
    }
    assert forall|i: int| 0 <= i < k + 1 implies (#[trigger] v.nodes[longer[i]]).tail == 0
        && v.nodes[longer[i]].next == longer[i + 1] by {
        if i > 0 {
            assert(longer[i] == queue[i - 1]);
            assert(w.nodes[queue[i - 1]].tail == 0);
        }
    }
    assert(longer[k + 1] == queue[k]);
    assert(queue::unseen_before(v.nodes, longer, k + 1));
}

/// The newest node of a queue is known to a task that has just seen it.
proof fn knows_newest(w: World)
    requires
        queue_waits(w),
        lock_word::head_of(w.word) != 0,
    ensures
        w.queue().len() > 0,
        queue::unseen_before(w.nodes, w.queue(), 0),
        queue::knows(w.nodes, w.queue(), lock_word::head_of(w.word)),
{
    assert(queue::unseen_before(w.nodes, w.queue(), 0));
}

/// Where at most the node of one task changes and the queue stays, the other tasks know
/// what they knew.
proof fn informed_framed(w: World, v: World, t: int)
    requires
        sound(w),
        w.has(t),
        v.homes == w.homes,
        forall|u: int| #[trigger] v.has(u) == w.has(u),
        forall|u: int| u != t ==> #[trigger] v.roles[u] == w.roles[u],
        forall|u: int| u != t ==> #[trigger] v.dequeues(u) == w.dequeues(u),
        v.nodes.dom() =~= w.nodes.dom(),
        forall|a: usize| a != w.homes[t] ==> #[trigger] v.nodes[a] == w.nodes[a],
        w.queue().contains(w.homes[t]) ==> v.nodes[w.homes[t]] == w.nodes[w.homes[t]],
        v.queue() == w.queue(),
        informed(v, t),
    ensures
        forall|u: int| #[trigger] v.has(u) ==> informed(v, u),
{
    assert forall|u: int| #[trigger] v.has(u) implies informed(v, u) by {
        assert(w.has(u) && w.has(t));
        if u != t {
            assert(v.roles[u] == w.roles[u]);
            assert(w.homes[u] != w.homes[t]);
            assert(informed(w, u));
            assert(v.dequeues(u) == w.dequeues(u));
            if w.dequeues(u) {
                knows_framed(w, v, lock_word::head_of(seen_with_right(w.roles[u])->0));
            }
        }
    }
}

/// Steps of one task that leave the queue as it is.
proof fn plain_step_is_sound(w: World, v: World, t: int)
    requires
        sound(w),
        w.has(t),
        v.homes == w.homes,
        v.roles == w.roles.insert(t, v.roles[t]),
        v.nodes.dom() =~= w.nodes.dom(),
        forall|a: usize| a != w.homes[t] ==> #[trigger] v.nodes[a] == w.nodes[a],
        w.waits(t) ==> v.nodes[w.homes[t]] == w.nodes[w.homes[t]],
        v.waits(t) == w.waits(t),
        lock_word::head_of(v.word) == lock_word::head_of(w.word),
        v.queue() == w.queue() ==> informed(v, t),
        // The task gets the mutex, lets it go, or neither.
        !w.owns(t) && v.owns(t) ==> !lock_word::is_locked(w.word) && lock_word::is_locked(v.word),
        w.owns(t) && !v.owns(t) ==> !lock_word::is_locked(v.word),
        w.owns(t) == v.owns(t) ==> lock_word::is_locked(w.word) == lock_word::is_locked(v.word),
        // The task gets the right to the queue or not.
        w.dequeues(t) ==> v.dequeues(t),
        !w.dequeues(t) && v.dequeues(t) ==> !lock_word::is_queue_locked(w.word)
            && lock_word::is_queue_locked(v.word),
        w.dequeues(t) == v.dequeues(t) ==> lock_word::is_queue_locked(w.word)
            == lock_word::is_queue_locked(v.word),
        // There is still somebody to see to the queue.
        !lock_word::is_locked(v.word) && lock_word::head_of(v.word) != 0 && (w.is_active(t)
            || lock_word::is_locked(w.word)) ==> v.is_active(t) || lock_word::is_queue_locked(v.word),
    ensures
        sound(v),
        v.queue() == w.queue(),
{
    others_unchanged(w, v, t);
    if !w.waits(t) {
        not_queued(w, t);
    }
    assert forall|a: usize| w.queue().contains(a) implies #[trigger] v.nodes.contains_key(a) && v.nodes[a]
        == w.nodes[a] by {
        assert(w.nodes.contains_key(a)) by {
            let i = choose|i: int| 0 <= i < w.queue().len() && w.queue()[i] == a;
            let u = choose|u: int| #[trigger] w.waits(u) && w.homes[u] == w.queue()[i];
            assert(w.has(u));
        }
    }
    queue::queue_is_framed(w.nodes, v.nodes, lock_word::head_of(w.word), w.queue());
    queue_kept(w, v, t);
    informed_framed(w, v, t);
    if w.owns(t) == v.owns(t) {
        owned_as_before(w, v, t);
    } else if v.owns(t) {
        assert forall|u: int| #[trigger] v.owns(u) implies u == t by {
            if u != t {
                assert(w.owns(u));
            }
        }
    } else {
        assert forall|u: int| #[trigger] v.owns(u) implies false by {
            assert(w.owns(u));
        }
    }
    if w.dequeues(t) == v.dequeues(t) {
        queue_right_as_before(w, v, t);
    } else {
        assert forall|u: int| #[trigger] v.dequeues(u) implies u == t by {
            if u != t {
                assert(w.dequeues(u));
            }
        }
    }
    if !lock_word::is_locked(v.word) && lock_word::head_of(v.word) != 0 {
        if lock_word::is_queue_locked(v.word) {
            let u = choose|u: int| v.dequeues(u);
            assert(!v.owns(u));
            assert(v.is_active(u));
        } else if !lock_word::is_locked(w.word) {
            let u = choose|u: int| w.is_active(u);
            if u == t {
                assert(v.is_active(t));
            } else {
                assert(v.is_active(u));
            }
        } else {
            assert(v.is_active(t));
        }
    }
}

/// A task puts its node in front of the queue while the mutex is held.
proof fn enqueue_is_sound(w: World, v: World, t: int, node: Node)
    requires
        sound(w),
        w.has(t),
        v.homes == w.homes,
        lock_word::is_locked(w.word),
        !w.is_in_line(t),
        !w.owns(t),
        !w.dequeues(t),
        node.prev == 0,
        lock::is_ready(node),
        !lock::is_handed(node),
        v.word == lock_word::with_head(w.word, w.homes[t]),
        v.nodes == w.nodes.insert(
            w.homes[t],
            queue::pushed(node, w.homes[t], lock_word::head_of(w.word)),
        ),
        v.roles == w.roles.insert(t, Role::Waiting),
    ensures
        sound(v),
        v.waits(t),
        v.queue() == seq![w.homes[t]] + w.queue(),
{
    let home = w.homes[t];
    assert(v.roles =~= w.roles.insert(t, v.roles[t]));
    not_queued(w, t);
    lock_word::word_fields(w.word, home);
    let queue = w.queue();
    let longer = seq![home] + queue;
    let head = lock_word::head_of(w.word);
    let fresh = w.nodes.insert(home, node);
    assert forall|a: usize| queue.contains(a) implies #[trigger] fresh.contains_key(a) && fresh[a]
        == w.nodes[a] by {
        let i = choose|i: int| 0 <= i < queue.len() && queue[i] == a;
        let u = choose|u: int| #[trigger] w.waits(u) && w.homes[u] == queue[i];
        assert(w.has(u));
    }
    queue::queue_is_framed(w.nodes, fresh, head, queue);
    queue::push_extends(fresh, head, queue, home);
    assert(v.nodes =~= fresh.insert(home, queue::pushed(fresh[home], home, head)));
    queue::waiters_of(v.nodes, home, longer);
    assert(v.nodes.dom() =~= w.nodes.dom());
    others_unchanged(w, v, t);
    assert(v.waits(t));
    assert forall|u: int| #[trigger] v.waits(u) implies longer.contains(v.homes[u]) by {
        if u == t {
            assert(longer[0] == home);
        } else {
            assert(w.waits(u));
            let i = choose|i: int| 0 <= i < queue.len() && queue[i] == w.homes[u];
            assert(longer[i + 1] == w.homes[u]);
        }
    }
    assert forall|i: int| 0 <= i < longer.len() implies exists|u: int| #[trigger]
        v.waits(u) && v.homes[u] == #[trigger] longer[i] by {
        if i == 0 {
            assert(v.waits(t));
        } else {
            let u = choose|u: int| #[trigger] w.waits(u) && w.homes[u] == queue[i - 1];
            assert(v.waits(u));
        }
    }
    owned_as_before(w, v, t);
    queue_right_as_before(w, v, t);
    assert forall|u: int| #[trigger] v.has(u) implies informed(v, u) by {
        assert(w.has(u) && w.has(t));
        if u != t {
            assert(v.roles[u] == w.roles[u]);
            assert(w.homes[u] != w.homes[t]);
            assert(informed(w, u));
            assert(v.dequeues(u) == w.dequeues(u));
            if w.dequeues(u) {
                knows_behind(w, v, home, lock_word::head_of(seen_with_right(w.roles[u])->0));
            }
        }
    }
}

/// The task `u` is woken by `t` without the mutex.
spec fn is_woken(w: World, v: World, t: int, u: int) -> bool {
    &&& !v.is_told(u)
    &&& !w.owns(t)
    &&& v.roles[u] == woken_role(w.roles[u])
    &&& lock_word::is_locked(v.word) == lock_word::is_locked(w.word)
}

/// The mutex is handed over from `t` to the task `u`.
spec fn is_handed_over(w: World, v: World, t: int, u: int) -> bool {
    &&& v.is_told(u)
    &&& w.owns(t)
    &&& v.roles[u] == w.roles[u]
    &&& lock_word::is_locked(v.word)
}

/// The oldest node leaves the queue, whose task is woken or owns the mutex from now
/// on.
proof fn tail_leaves(w: World, v: World, t: int, u: int)
    requires
        sound(w),
        w.dequeues(t),
        w.waits(u),
        u != t,
        !w.waits(t),
        w.queue().len() > 0,
        w.homes[u] == w.queue().last(),
        v.homes == w.homes,
        v.roles == w.roles.insert(t, Role::Idle).insert(u, v.roles[u]),
        v.nodes.dom() =~= w.nodes.dom(),
        forall|a: usize| !w.queue().contains(a) ==> #[trigger] v.nodes[a] == w.nodes[a],
        forall|a: usize| a != w.queue().last() ==> (#[trigger] v.nodes[a]).flags == w.nodes[a].flags,
        !lock::is_ready(v.nodes[w.queue().last()]),
        queue::is_queue(v.nodes, lock_word::head_of(v.word), w.queue().drop_last()),
        !lock_word::is_queue_locked(v.word),
        is_woken(w, v, t, u) || is_handed_over(w, v, t, u),
    ensures
        sound(v),
        v.queue() == w.queue().drop_last(),
        v.is_told(u) ==> v.owns(u),
        !v.is_told(u) ==> v.is_active(u) || v.owns(u),
{
    let queue = w.queue();
    let shorter = queue.drop_last();
    assert(v.roles.dom() =~= w.roles.dom());
    assert forall|x: int| #[trigger] v.has(x) == w.has(x) by {}
    assert forall|x: int| x != t && x != u implies #[trigger] v.roles[x] == w.roles[x] by {}
    assert forall|x: int| x != u && #[trigger] w.has(x) implies w.homes[x] != w.homes[u] by {
        assert(w.has(u));
    }
    assert(v.has(u) && v.has(t));
    assert forall|x: int| x != t && x != u implies #[trigger] v.waits(x) == w.waits(x) by {
        assert(v.has(x) == w.has(x));
    }
    assert forall|x: int| x != t && x != u implies #[trigger] v.owns(x) == w.owns(x) by {
        assert(v.has(x) == w.has(x));
    }
    assert(!v.waits(u) && !v.waits(t) && !v.owns(t));
    assert(informed(w, u));
    assert(w.owns(t) && w.roles[u] is Leaving ==> w.owns(u));
    queue::waiters_of(v.nodes, lock_word::head_of(v.word), shorter);
    assert forall|x: int| #[trigger] v.dequeues(x) implies false by {
        if x != t {
            assert(w.dequeues(x)) by {
                assert(v.has(x) == w.has(x));
            }
        }
    }
    assert forall|x: int| #[trigger] v.waits(x) implies shorter.contains(v.homes[x]) by {
        assert(w.waits(x));
        assert(x != u && w.has(x) && w.has(u));
        let i = choose|i: int| 0 <= i < queue.len() && queue[i] == w.homes[x];
        assert(i != queue.len() - 1);
        assert(shorter[i] == w.homes[x]);
    }
    assert forall|i: int| 0 <= i < shorter.len() implies exists|x: int| #[trigger]
        v.waits(x) && v.homes[x] == #[trigger] shorter[i] by {
        let x = choose|x: int| #[trigger] w.waits(x) && w.homes[x] == queue[i];
        assert(queue[i] != queue[queue.len() - 1]);
        assert(x != u);
        assert(v.waits(x));
    }
    if is_woken(w, v, t, u) {
        assert(v.owns(u) == w.owns(u));
        if lock_word::is_locked(w.word) {
            let x = choose|x: int| w.owns(x);
            assert(v.owns(x));
        }
        assert forall|x: int| #[trigger] v.owns(x) implies w.owns(x) by {}
        if !v.owns(u) {
            assert(v.is_active(u));
        }
        assert(exclusive(v));
    } else {
        assert(v.owns(u));
        assert forall|x: int| #[trigger] v.owns(x) implies x == u by {
            if x != u {
                assert(w.owns(x) && w.owns(t));
            }
        }
    }
    assert forall|x: int| #[trigger] v.has(x) implies informed(v, x) by {
        assert(w.has(x));
        assert(!v.dequeues(x));
        if x != t && x != u {
            assert(v.roles[x] == w.roles[x]);
            assert(informed(w, x));
            assert(v.waits(x) == w.waits(x));
            if !w.waits(x) {
                not_queued(w, x);
            }
        }
    }
}

/// A task that has the right to the queue sets links in it.
proof fn relink_is_sound(w: World, v: World, t: int, k: int)
    requires
        sound(w),
        w.dequeues(t),
        v.homes == w.homes,
        v.roles == w.roles.insert(t, v.roles[t]),
        w.waits(t) ==> v.is_in_line(t),
        v.is_in_line(t) ==> w.is_in_line(t),
        w.queue().len() > 0,
        queue::unseen_before(w.nodes, w.queue(), k),
        queue::relinked(w.nodes, v.nodes, w.queue().skip(k)),
        queue::is_queue(v.nodes, w.queue()[k], w.queue().skip(k)),
        lock_word::head_of(v.word) == lock_word::head_of(w.word),
        lock_word::is_locked(v.word) == lock_word::is_locked(w.word),
        v.owns(t) == w.owns(t),
        lock_word::is_queue_locked(v.word) == v.dequeues(t),
        v.queue() == w.queue() && v.waits(t) == w.waits(t) && v.is_told(t) == w.is_told(t)
            && queue::unseen_before(v.nodes, w.queue(), 0) ==> informed(v, t),
        lock_word::is_locked(v.word) || v.is_active(t),
    ensures
        sound(v),
        v.queue() == w.queue(),
{
    let queue = w.queue();
    let rest = queue.skip(k);
    assert forall|a: usize| rest.contains(a) implies queue.contains(a) by {
        let i = choose|i: int| 0 <= i < rest.len() && rest[i] == a;
        assert(queue[i + k] == a);
    }
    queue::relink_keeps(w.nodes, v.nodes, queue, k);
    others_unchanged(w, v, t);
    assert(v.waits(t) == w.waits(t));
    queue_kept(w, v, t);
    owned_as_before(w, v, t);
    assert(queue::unseen_before(v.nodes, queue, 0));
    assert forall|x: int| #[trigger] v.dequeues(x) implies x == t by {
        if x != t {
            assert(w.dequeues(x));
        }
    }
    assert forall|x: int| #[trigger] v.has(x) implies informed(v, x) by {
        assert(w.has(x));
        if x != t {
            assert(v.roles[x] == w.roles[x]);
            assert(informed(w, x));
            assert(!w.dequeues(x));
            assert(v.waits(x) == w.waits(x));
            if !w.waits(x) {
                not_queued(w, x);
            }
        }
    }
}

/// A task that wakes another and has the right to the queue takes a step.
proof fn dequeue_is_sound(
    w: World,
    v: World,
    t: int,
    d: Dequeue,
    e: Dequeue,
    mid: Map<usize, Node>,
    step: DequeueStep,
)
    requires
        sound(w),
        w.has(t),
        v.homes == w.homes,
        wakes(w, v, t, d, e, mid, step),
        d.phase == DequeuePhase::FindTail,
    ensures
        sound(v),
        step matches DequeueStep::Wake(node) ==> w.queue().len() > 0 && node == w.queue().last()
            && v.queue() == w.queue().drop_last(),
        !(step is Wake) ==> v.queue() == w.queue(),
{
    assert(informed(w, t));
    assert(w.dequeues(t));
    let state = d.state->0;
    let head = lock_word::head_of(state);
    let queue = w.queue();
    let k = choose|k: int| #[trigger] queue::unseen_before(w.nodes, queue, k) && queue[k] == head;
    let rest = queue.skip(k);
    queue::suffix_is_queue(w.nodes, queue, k);
    queue::waiters_of(w.nodes, head, rest);
    assert(lock_word::is_queue_locked(w.word));
    lock_word::word_fields(w.word, 0);
    lock_word::word_fields(state, 0);
    assert(rest.last() == queue.last());
    if !(step is Wake) {
        assert(v.roles =~= w.roles.insert(t, v.roles[t]));
        assert(v.queue() == queue && queue::unseen_before(v.nodes, queue, 0) ==> informed(v, t)) by {
            if v.queue() == queue && queue::unseen_before(v.nodes, queue, 0) {
                assert(queue::knows(v.nodes, v.queue(), lock_word::head_of(w.word)));
            }
        }
        relink_is_sound(w, v, t, k);
    } else {
        pop_leaves_the_rest(w, v, mid, d, e, k, step);
        woken_leaves(w, v, t, mid);
    }
}

/// Where the oldest node is taken out, the others stay in the queue.
proof fn pop_leaves_the_rest(
    w: World,
    v: World,
    mid: Map<usize, Node>,
    d: Dequeue,
    e: Dequeue,
    k: int,
    step: DequeueStep,
)
    requires
        lock_word::dequeue_steps(d, e, w.word, v.word, w.nodes, mid, step),
        d.phase == DequeuePhase::FindTail,
        d.state is Some,
        step is Wake,
        queue::is_queue(w.nodes, lock_word::head_of(w.word), w.queue()),
        queue::unseen_before(w.nodes, w.queue(), k),
        w.queue()[k] == lock_word::head_of(d.state->0),
        lock_word::head_of(w.word) != 0,
    ensures
        step == DequeueStep::Wake(w.queue().last()),
        mid.dom() =~= w.nodes.dom(),
        forall|a: usize| !w.queue().contains(a) ==> #[trigger] mid[a] == w.nodes[a],
        forall|a: usize| (#[trigger] mid[a]).flags == w.nodes[a].flags,
        queue::is_queue(mid, lock_word::head_of(v.word), w.queue().drop_last()),
        lock_word::is_locked(v.word) == lock_word::is_locked(w.word),
        !lock_word::is_queue_locked(v.word),
{
    let state = d.state->0;
    let head = lock_word::head_of(state);
    let queue = w.queue();
    let rest = queue.skip(k);
    queue::suffix_is_queue(w.nodes, queue, k);
    queue::waiters_of(w.nodes, head, rest);
    lock_word::word_fields(w.word, 0);
    lock_word::word_fields(state, 0);
    assert(rest.last() == queue.last());
    assert forall|a: usize| rest.contains(a) implies queue.contains(a) by {
        let i = choose|i: int| 0 <= i < rest.len() && rest[i] == a;
        assert(queue[i + k] == a);
    }
    if rest.len() == 1 {
        assert(k == 0) by {
            assert(queue[k] == queue[0]);
        }
        assert(rest =~= queue);
        assert(queue.drop_last().len() == 0);
    } else {
        let linked = choose|linked: Map<usize, Node>| #[trigger]
            queue::relinked(w.nodes, linked, rest) && queue::linked(linked, rest) && mid
                == linked.insert(head, queue::shortened(linked[head], rest[rest.len() - 2]));
        queue::relinked_is_queue(w.nodes, linked, head, rest);
        queue::relink_keeps(w.nodes, linked, queue, k);
        queue::pop_keeps(linked, mid, queue, k);
        assert(rest.contains(rest[0]));
        assert(mid.dom() =~= w.nodes.dom());
    }
}

/// The task of the oldest node is woken without the mutex.
proof fn woken_leaves(w: World, v: World, t: int, mid: Map<usize, Node>)
    requires
        sound(w),
        w.dequeues(t),
        w.roles[t] is Waking,
        v.homes == w.homes,
        w.queue().len() > 0,
        mid.dom() =~= w.nodes.dom(),
        forall|a: usize| !w.queue().contains(a) ==> #[trigger] mid[a] == w.nodes[a],
        forall|a: usize| (#[trigger] mid[a]).flags == w.nodes[a].flags,
        queue::is_queue(mid, lock_word::head_of(v.word), w.queue().drop_last()),
        lock_word::is_locked(v.word) == lock_word::is_locked(w.word),
        !lock_word::is_queue_locked(v.word),
        v.nodes == mid.insert(w.queue().last(), mutex::woken(mid[w.queue().last()])),
        exists|u: int| #[trigger]
            w.waits(u) && w.homes[u] == w.queue().last() && v.roles == w.roles.insert(
                t,
                Role::Idle,
            ).insert(u, woken_role(w.roles[u])),
    ensures
        sound(v),
        v.queue() == w.queue().drop_last(),
{
    let u = choose|u: int| #[trigger]
        w.waits(u) && w.homes[u] == w.queue().last() && v.roles == w.roles.insert(
            t,
            Role::Idle,
        ).insert(u, woken_role(w.roles[u]));
    let queue = w.queue();
    let shorter = queue.drop_last();
    let last = queue.last();
    mutex::woken_fields(mid[last].flags);
    assert(queue.contains(queue[queue.len() - 1]));
    assert forall|a: usize| shorter.contains(a) implies #[trigger] v.nodes.contains_key(a) && v.nodes[a]
        == mid[a] by {
        let i = choose|i: int| 0 <= i < shorter.len() && shorter[i] == a;
        assert(queue[i] == a && queue[i] != queue[queue.len() - 1]);
        assert(queue.contains(queue[i]));
        assert(w.nodes.contains_key(a));
    }
    queue::queue_is_framed(mid, v.nodes, lock_word::head_of(v.word), shorter);
    assert(v.nodes.dom() =~= w.nodes.dom());
    assert(informed(w, u));
    tail_leaves(w, v, t, u);
}

/// A task that hands the mutex over takes a step.
proof fn hand_is_sound(w: World, v: World, t: int, f: FairUnlock, g: FairUnlock, step: FairStep)
    requires
        sound(w),
        w.has(t),
        v.homes == w.homes,
        hands(w, v, t, f, g, step),
    ensures
        sound(v),
        step matches FairStep::HandedOver(node) ==> {
            &&& w.queue().len() > 0
            &&& node == w.queue().last()
            &&& v.queue() == (match f.back {
                None => w.queue().drop_last(),
                Some(_) => seq![w.homes[t]] + w.queue().drop_last(),
            })
            &&& f.back is Some ==> v.waits(t)
            &&& exists|u: int| #[trigger] w.waits(u) && w.homes[u] == node && v.owns(u)
        },
        !(step is HandedOver) ==> v.queue() == w.queue(),
{
    assert(informed(w, t));
    assert(w.owns(t));
    let queue = w.queue();
    let mid = choose|mid: Map<usize, Node>| #[trigger]
        lock::fair_steps(f, g, w.word, v.word, w.nodes, mid, step) && v.nodes == (match step {
            FairStep::HandedOver(node) => mid.insert(node, mutex::woken(mid[node])),
            _ => mid,
        });
    lock_word::word_fields(w.word, 0);
    lock_word::word_fields(0, 0);
    if !f.has_right || f.state is None {
        assert(!f.has_right);
        assert(v.roles =~= w.roles.insert(t, v.roles[t]));
        if f.state is Some {
            lock_word::word_fields(f.state->0, 0);
        }
        if lock_word::head_of(w.word) != 0 {
            knows_newest(w);
        } else {
            assert(!lock_word::is_queue_locked(w.word)) by {
                if lock_word::is_queue_locked(w.word) {
                    let u = choose|u: int| w.dequeues(u);
                    assert(informed(w, u));
                    assert(queue.len() > 0);
                }
            }
        }
        plain_step_is_sound(w, v, t);
    } else {
        assert(w.dequeues(t));
        assert(lock_word::is_queue_locked(w.word));
        let state = f.state->0;
        let head = lock_word::head_of(state);
        let k = choose|k: int| #[trigger] queue::unseen_before(w.nodes, queue, k) && queue[k] == head;
        let rest = queue.skip(k);
        queue::suffix_is_queue(w.nodes, queue, k);
        queue::waiters_of(w.nodes, head, rest);
        let linked = choose|linked: Map<usize, Node>| #[trigger]
            queue::relinked(w.nodes, linked, rest) && queue::linked(linked, rest) && (if w.word == state {
                mid == lock::fair_nodes(linked, rest, f.back)
            } else {
                mid == linked
            });
        queue::relinked_is_queue(w.nodes, linked, head, rest);
        if w.word != state {
            assert(v.roles =~= w.roles.insert(t, v.roles[t]));
            assert(v.queue() == queue && queue::unseen_before(v.nodes, queue, 0) ==> informed(v, t)) by {
                if v.queue() == queue && queue::unseen_before(v.nodes, queue, 0) {
                    assert(queue::knows(v.nodes, v.queue(), lock_word::head_of(w.word)));
                }
            }
            relink_is_sound(w, v, t, k);
        } else {
            assert(k == 0) by {
                assert(queue[k] == queue[0]);
            }
            assert(rest =~= queue);
            handed_leaves(w, v, t, f, linked);
        }
    }
}

/// The mutex was handed over to the task of the oldest node.
proof fn handed_leaves(w: World, v: World, t: int, f: FairUnlock, linked: Map<usize, Node>)
    requires
        sound(w),
        w.dequeues(t),
        w.roles[t] == Role::Handing(f),
        f.state == Some(w.word),
        v.homes == w.homes,
        w.queue().len() > 0,
        queue::relinked(w.nodes, linked, w.queue()),
        queue::linked(linked, w.queue()),
        queue::is_queue(linked, lock_word::head_of(w.word), w.queue()),
        v.word == lock::fair_word(w.word, w.queue(), f.back),
        ({
            let last = w.queue().last();
            let mid = lock::fair_nodes(linked, w.queue(), f.back);
            v.nodes == mid.insert(last, mutex::woken(mid[last]))
        }),
        v.roles == w.roles.insert(
            t,
            if f.back is Some {
                Role::Waiting
            } else {
                Role::Idle
            },
        ),
    ensures
        sound(v),
        v.queue() == (match f.back {
            None => w.queue().drop_last(),
            Some(_) => seq![w.homes[t]] + w.queue().drop_last(),
        }),
        f.back is Some ==> v.waits(t),
        exists|u: int| #[trigger] w.waits(u) && w.homes[u] == w.queue().last() && v.owns(u),
{
    let queue = w.queue();
    let left = queue.drop_last();
    let last = queue.last();
    let home = w.homes[t];
    let u = choose|u: int| #[trigger] w.waits(u) && w.homes[u] == queue[queue.len() - 1];
    assert(w.owns(t));
    assert(informed(w, t));
    not_queued(w, t);
    lock_word::word_fields(w.word, 0);
    lock::hand_over_keeps_order(linked, w.word, queue, None);
    let popped = lock::popped(linked, queue);
    let shorter = if queue.len() > 1 {
        linked.insert(queue[0], queue::shortened(linked[queue[0]], queue[queue.len() - 2]))
    } else {
        linked
    };
    lock::flag_fields(shorter[last].flags);
    mutex::woken_fields(popped[last].flags);
    assert(queue.contains(queue[0]) && queue.contains(queue[queue.len() - 1]));
    // The mutex is handed over.
    let m = World {
        word: lock::fair_word(w.word, queue, None),
        nodes: popped.insert(last, mutex::woken(popped[last])),
        roles: w.roles.insert(t, Role::Idle),
        homes: w.homes,
    };
    assert forall|a: usize| left.contains(a) implies #[trigger] m.nodes.contains_key(a) && m.nodes[a]
        == popped[a] by {
        let i = choose|i: int| 0 <= i < left.len() && left[i] == a;
        assert(queue[i] == a && queue[i] != queue[queue.len() - 1]);
        assert(queue.contains(queue[i]));
        assert(w.nodes.contains_key(a)) by {
            let x = choose|x: int| #[trigger] w.waits(x) && w.homes[x] == queue[i];
            assert(w.has(x));
        }
    }
    queue::queue_is_framed(popped, m.nodes, lock_word::head_of(m.word), left);
    assert(w.has(u));
    assert(w.nodes.contains_key(last));
    assert(w.nodes.contains_key(queue[0])) by {
        let x = choose|x: int| #[trigger] w.waits(x) && w.homes[x] == queue[0];
        assert(w.has(x));
    }
    assert(m.nodes.dom() =~= w.nodes.dom());
    assert(m.roles =~= w.roles.insert(t, Role::Idle).insert(u, m.roles[u]));
    tail_leaves(w, m, t, u);
    assert(m.owns(u));
    match f.back {
        None => {
            assert(v.nodes =~= m.nodes);
            assert(v == m);
        },
        Some(_) => {
            // The task waits again.
            assert(m.has(t));
            let node = Node { prev: 0, flags: 1, ..m.nodes[home] };
            assert(1u8 & lock::WAIT_NODE_HANDOFF == 0 && 1u8 & 1u8 != 0) by (bit_vector);
            assert(home != last);
            lock::same_flags(w.word, m.word, home);
            assert(lock_word::head_of(m.word) == lock::left_head(queue)) by {
                if queue.len() > 1 {
                    assert(left[0] == queue[0]);
                }
            }
            assert(v.nodes =~= m.nodes.insert(
                home,
                queue::pushed(node, home, lock_word::head_of(m.word)),
            ));
            assert(v.roles =~= m.roles.insert(t, Role::Waiting));
            enqueue_is_sound(m, v, t, node);
            assert(u != t);
            assert(v.owns(u)) by {
                assert(v.roles[u] == m.roles[u]);
                assert(w.homes[u] != home);
            }
        },
    }
}

/// A task that leaves the queue takes a step.
proof fn leave_is_sound(w: World, v: World, t: int, r: Removal, s: Removal, step: RemoveStep)
    requires
        sound(w),
        w.has(t),
        v.homes == w.homes,
        leaves(w, v, t, r, s, step),
    ensures
        sound(v),
        step is Removed ==> w.queue().contains(w.homes[t]) && v.queue() == w.queue().remove(
            w.queue().index_of(w.homes[t]),
        ),
        !(step is Removed) ==> v.queue() == w.queue(),
{
    assert(informed(w, t));
    assert(w.roles[t] is Leaving || w.is_told(t) ==> w.owns(t));
    let queue = w.queue();
    let home = w.homes[t];
    let mid = choose|mid: Map<usize, Node>| #[trigger]
        lock::removal_steps(r, s, w.word, v.word, w.nodes, mid, step) && v.nodes == (match step {
            RemoveStep::Removed => mid.insert(r.node, mutex::woken(mid[r.node])),
            _ => mid,
        });
    assert(v.roles =~= w.roles.insert(t, v.roles[t]));
    lock_word::word_fields(w.word, 0);
    if r.state is None || !r.has_right {
        assert(!r.has_right);
        if r.state is Some {
            lock_word::word_fields(r.state->0, 0);
        }
        if lock_word::head_of(w.word) != 0 {
            knows_newest(w);
        } else {
            assert(!w.waits(t)) by {
                if w.waits(t) {
                    assert(queue.contains(home));
                }
            }
        }
        plain_step_is_sound(w, v, t);
    } else {
        assert(w.dequeues(t));
        assert(lock_word::is_queue_locked(w.word));
        let state = r.state->0;
        let head = lock_word::head_of(state);
        let k = choose|k: int| #[trigger] queue::unseen_before(w.nodes, queue, k) && queue[k] == head;
        let rest = queue.skip(k);
        queue::suffix_is_queue(w.nodes, queue, k);
        queue::waiters_of(w.nodes, head, rest);
        let linked = choose|linked: Map<usize, Node>| #[trigger]
            queue::relinked(w.nodes, linked, rest) && queue::linked(linked, rest) && (if step is Removed {
                mid == lock::removed_nodes(linked, rest, r.node)
            } else {
                mid == linked
            });
        queue::relinked_is_queue(w.nodes, linked, head, rest);
        if w.word == state {
            assert(k == 0) by {
                assert(queue[k] == queue[0]);
            }
            assert(rest =~= queue);
        }
        if step is Removed {
            removed_leaves(w, v, t, r, linked);
        } else {
            if w.word == state {
                assert(!w.waits(t));
            }
            assert(v.queue() == queue && v.waits(t) == w.waits(t) && v.is_told(t) == w.is_told(t)
                && queue::unseen_before(v.nodes, queue, 0) ==> informed(v, t)) by {
                if v.queue() == queue && queue::unseen_before(v.nodes, queue, 0) {
                    assert(queue::knows(v.nodes, v.queue(), lock_word::head_of(w.word)));
                }
            }
            relink_is_sound(w, v, t, k);
        }
    }
}

/// A task takes its own node out of the queue.
proof fn removed_leaves(w: World, v: World, t: int, r: Removal, linked: Map<usize, Node>)
    requires
        sound(w),
        w.dequeues(t),
        w.roles[t] == Role::Leaving(r) || w.roles[t] == Role::Removing(r),
        v.homes == w.homes,
        w.queue().contains(w.homes[t]),
        queue::relinked(w.nodes, linked, w.queue()),
        queue::linked(linked, w.queue()),
        queue::is_queue(linked, lock_word::head_of(w.word), w.queue()),
        v.word == lock::removed_word(w.word, w.queue(), w.homes[t]),
        ({
            let mid = lock::removed_nodes(linked, w.queue(), w.homes[t]);
            v.nodes == mid.insert(w.homes[t], mutex::woken(mid[w.homes[t]]))
        }),
        v.roles == w.roles.insert(
            t,
            if w.roles[t] is Leaving {
                Role::Holding
            } else {
                ended(v.nodes[w.homes[t]], w.homes[t])
            },
        ),
    ensures
        sound(v),
        v.queue() == w.queue().remove(w.queue().index_of(w.homes[t])),
{
    let queue = w.queue();
    let home = w.homes[t];
    let at = queue.index_of(home);
    let left = queue.remove(at);
    let mid = lock::removed_nodes(linked, queue, home);
    assert(queue[at] == home);
    assert forall|i: int| 0 <= i < queue.len() implies lock_word::is_address(#[trigger] queue[i])
        && w.nodes.contains_key(queue[i]) && queue.contains(queue[i]) by {
        let u = choose|u: int| #[trigger] w.waits(u) && w.homes[u] == queue[i];
        assert(w.has(u));
    }
    assert(w.waits(t)) by {
        if !w.waits(t) {
            not_queued(w, t);
        }
    }
    assert(informed(w, t));
    lock::removal_keeps_order(linked, w.word, queue, home);
    mutex::woken_fields(mid[home].flags);
    assert forall|i: int| 0 <= i < left.len() implies #[trigger] left[i] != home && queue.contains(left[i])
        && w.nodes.contains_key(left[i]) by {
        if i < at {
            assert(left[i] == queue[i]);
        } else {
            assert(left[i] == queue[i + 1]);
        }
    }
    assert(mid.dom() =~= w.nodes.dom());
    assert forall|a: usize| left.contains(a) implies #[trigger] v.nodes.contains_key(a) && v.nodes[a]
        == mid[a] by {}
    queue::queue_is_framed(mid, v.nodes, lock_word::head_of(v.word), left);
    queue::waiters_of(v.nodes, lock_word::head_of(v.word), left);
    assert(v.roles =~= w.roles.insert(t, v.roles[t]));
    assert(v.nodes.dom() =~= w.nodes.dom());
    assert(mid[home].flags == w.nodes[home].flags);
    assert(!v.is_told(t)) by {
        assert(!w.is_told(t));
    }
    others_unchanged(w, v, t);
    assert(!v.waits(t));
    assert(w.roles[t] is Leaving ==> v.owns(t) && w.owns(t));
    assert(w.roles[t] is Removing ==> !v.owns(t) && !w.owns(t));
    owned_as_before(w, v, t);
    assert forall|x: int| #[trigger] v.dequeues(x) implies false by {
        if x != t {
            assert(w.dequeues(x));
        }
    }
    assert forall|x: int| #[trigger] v.waits(x) implies left.contains(v.homes[x]) by {
        assert(w.waits(x));
        assert(x != t && w.has(x) && w.has(t));
        let i = choose|i: int| 0 <= i < queue.len() && queue[i] == w.homes[x];
        assert(i != at);
        if i < at {
            assert(left[i] == w.homes[x]);
        } else {
            assert(left[i - 1] == w.homes[x]);
        }
    }
    assert forall|i: int| 0 <= i < left.len() implies exists|x: int| #[trigger]
        v.waits(x) && v.homes[x] == #[trigger] left[i] by {
        assert(left[i] != home);
        let j = if i < at {
            i
        } else {
            i + 1
        };
        let x = choose|x: int| #[trigger] w.waits(x) && w.homes[x] == queue[j];
        assert(x != t);
        assert(v.waits(x));
    }
    assert forall|x: int| #[trigger] v.has(x) implies informed(v, x) by {
        assert(w.has(x));
        assert(!v.dequeues(x));
        if x != t {
            assert(v.roles[x] == w.roles[x]);
            assert(informed(w, x));
            assert(v.waits(x) == w.waits(x));
            assert(w.homes[x] != home);
            if !w.waits(x) {
                not_queued(w, x);
            }
        }
    }
    assert(!lock_word::is_locked(v.word) ==> v.is_active(t)) by {
        if w.roles[t] is Leaving {
            assert(v.owns(t));
        }
    }
}

/// A task looks at the word or asks for the right to the queue.
proof fn approach_is_sound(
    w: World,
    v: World,
    t: int,
    d: Dequeue,
    e: Dequeue,
    mid: Map<usize, Node>,
    step: DequeueStep,
)
    requires
        sound(w),
        w.has(t),
        v.homes == w.homes,
        wakes(w, v, t, d, e, mid, step),
        d.phase == DequeuePhase::LockQueue,
    ensures
        sound(v),
        v.queue() == w.queue(),
        !(step is Wake),
{
    lock_word::word_fields(w.word, 0);
    assert(informed(w, t));
    assert(v.roles =~= w.roles.insert(t, v.roles[t]));
    if d.state is Some {
        lock_word::word_fields(d.state->0, 0);
    }
    if v.queue() == w.queue() && w.queue().len() > 0 {
        assert(queue::unseen_before(v.nodes, v.queue(), 0));
        assert(queue::knows(v.nodes, v.queue(), lock_word::head_of(w.word)));
    }
    if gives_up(d) && !lock_word::is_locked(w.word) && lock_word::head_of(w.word) != 0 {
        // Another task is active.
        others_unchanged(w, v, t);
        queue_kept(w, v, t);
        owned_as_before(w, v, t);
        queue_right_as_before(w, v, t);
        informed_framed(w, v, t);
        let u = choose|u: int| w.is_active(u);
        assert(u != t);
        assert(v.is_active(u));
    } else {
        plain_step_is_sound(w, v, t);
    }
}

/// A task that tries to get the mutex takes a step.
proof fn try_is_sound(w: World, v: World, t: int, a: Attempt, b: Attempt, step: AttemptStep)
    requires
        sound(w),
        w.has(t),
        v.homes == w.homes,
        tries(w, v, t, a, b, step),
    ensures
        sound(v),
        step is Wait ==> v.waits(t) && !w.waits(t) && v.queue() == seq![w.homes[t]] + w.queue(),
        !(step is Wait) ==> v.queue() == w.queue(),
{
    lock_word::word_fields(w.word, 0);
    assert(informed(w, t));
    if step is Wait {
        let home = w.homes[t];
        lock_word::word_fields(w.word, home);
        enqueue_is_sound(w, v, t, w.nodes[home]);
    } else {
        lock::flag_fields(w.nodes[w.homes[t]].flags);
        assert(v.roles =~= w.roles.insert(t, v.roles[t]));
        plain_step_is_sound(w, v, t);
    }
}

/// A pending task that is polled takes a step.
proof fn look_is_sound(w: World, v: World, t: int, a: Attempt, b: Attempt, step: AttemptStep)
    requires
        sound(w),
        w.has(t),
        v.homes == w.homes,
        looks(w, v, t, a, b, step),
    ensures
        sound(v),
        v.queue() == w.queue(),
{
    lock_word::word_fields(w.word, 0);
    assert(informed(w, t));
    assert(v.roles =~= w.roles.insert(t, v.roles[t]));
    assert(step is Acquired ==> !w.is_told(t)) by {
        if step is Acquired && w.is_told(t) {
            assert(w.owns(t));
        }
    }
    plain_step_is_sound(w, v, t);
}

/// A task begins something.
proof fn turn_is_sound(w: World, v: World, t: int)
    requires
        sound(w),
        w.has(t),
        v.homes == w.homes,
        begins(w, v, t) || resumes(w, v, t) || is_polled(w, v, t) || releases(w, v, t) || ends(w, v, t) || (
        exists|bumps: bool| starts_handing(w, v, t, bumps)),
    ensures
        sound(v),
        v.queue() == w.queue(),
{
    lock_word::word_fields(w.word, 0);
    lock_word::word_fields(0, 0);
    assert(lock_word::with_lock(0) == MUTEX_LOCK) by (bit_vector);
    assert(0u8 & lock::WAIT_NODE_HANDOFF == 0) by (bit_vector);
    assert(informed(w, t));
    assert(v.roles =~= w.roles.insert(t, v.roles[t]));
    plain_step_is_sound(w, v, t);
}

/// Every step of every task keeps a world sound.
pub proof fn step_is_sound(w: World, v: World, t: int)
    requires
        sound(w),
        world_steps(w, v, t),
    ensures
        sound(v),
        queue_moves(w, v),
{
    if exists|a: Attempt, b: Attempt, step: AttemptStep| looks(w, v, t, a, b, step) {
        let (a, b, step) = choose|a: Attempt, b: Attempt, step: AttemptStep| looks(w, v, t, a, b, step);
        look_is_sound(w, v, t, a, b, step);
    } else if exists|a: Attempt, b: Attempt, step: AttemptStep| tries(w, v, t, a, b, step) {
        let (a, b, step) = choose|a: Attempt, b: Attempt, step: AttemptStep| tries(w, v, t, a, b, step);
        try_is_sound(w, v, t, a, b, step);
    } else if exists|d: Dequeue, e: Dequeue, mid: Map<usize, Node>, step: DequeueStep|
        wakes(w, v, t, d, e, mid, step) {
        let (d, e, mid, step) = choose|d: Dequeue, e: Dequeue, mid: Map<usize, Node>, step: DequeueStep|
            wakes(w, v, t, d, e, mid, step);
        assert(informed(w, t));
        if d.phase == DequeuePhase::FindTail {
            dequeue_is_sound(w, v, t, d, e, mid, step);
        } else {
            approach_is_sound(w, v, t, d, e, mid, step);
        }
    } else if exists|f: FairUnlock, g: FairUnlock, step: FairStep| hands(w, v, t, f, g, step) {
        let (f, g, step) = choose|f: FairUnlock, g: FairUnlock, step: FairStep| hands(w, v, t, f, g, step);
        hand_is_sound(w, v, t, f, g, step);
        assert(w.owns(t) && !w.waits(t));
    } else if exists|r: Removal, s: Removal, step: RemoveStep| leaves(w, v, t, r, s, step) {
        let (r, s, step) = choose|r: Removal, s: Removal, step: RemoveStep| leaves(w, v, t, r, s, step);
        leave_is_sound(w, v, t, r, s, step);
        assert(w.has(t));
    } else {
        turn_is_sound(w, v, t);
    }
}

/// A mutex that nobody has touched is sound.
pub proof fn start_is_sound(w: World)
    requires
        starts(w),
    ensures
        sound(w),
        w.queue() == Seq::<usize>::empty(),
{
    lock_word::word_fields(0, 0);
    queue::waiters_of(w.nodes, 0, Seq::<usize>::empty());
    assert forall|t: int| #[trigger] w.waits(t) implies false by {
        assert(w.has(t));
    }
    assert forall|t: int| #[trigger] w.owns(t) implies false by {
        assert(w.has(t));
    }
    assert forall|t: int| #[trigger] w.dequeues(t) implies false by {
        assert(w.has(t));
    }
}

/// A run of the tasks: worlds, each of which follows from the one before by a step
/// of some task.
pub open spec fn is_run(run: Seq<World>) -> bool {
    &&& run.len() > 0
    &&& starts(run[0])
    &&& forall|i: int| 0 <= i < run.len() - 1 ==> #[trigger] step_at(run, i)
}

/// Some task leads from the world at position `i` to the next.
pub open spec fn step_at(run: Seq<World>, i: int) -> bool {
    follows(run[i], run[i + 1])
}

/// Some task leads from `w` to `v`.
pub open spec fn follows(w: World, v: World) -> bool {
    exists|t: int| world_steps(w, v, t)
}

/// What may happen to the queue in one step.
pub open spec fn queue_moves(w: World, v: World) -> bool {
    let before = w.queue();
    let after = v.queue();
    ||| after == before
    ||| exists|t: int| #[trigger] v.waits(t) && !w.waits(t) && after == seq![w.homes[t]] + before
    ||| before.len() > 0 && after == before.drop_last()
    ||| before.len() > 0 && exists|t: int| #[trigger]
        w.owns(t) && v.waits(t) && after == seq![w.homes[t]] + before.drop_last()
    ||| exists|t: int| #[trigger]
        w.is_in_line(t) && w.dequeues(t) && before.contains(w.homes[t]) && after == before.remove(
            before.index_of(w.homes[t]),
        )
}

proof fn run_is_sound(run: Seq<World>, i: int)
    requires
        is_run(run),
        0 <= i < run.len(),
    ensures
        sound(run[i]),
        i > 0 ==> queue_moves(run[i - 1], run[i]),
    decreases i,
{
    if i == 0 {
        start_is_sound(run[0]);
    } else {
        run_is_sound(run, i - 1);
        assert(step_at(run, i - 1));
        let w = run[i - 1];
        let v = run[i];
        let t = choose|t: int| world_steps(w, v, t);
        step_is_sound(w, v, t);
    }
}

/// Mutual exclusion: however the tasks take their steps, no two of them own the mutex
/// at once.
pub proof fn mutex_is_exclusive(run: Seq<World>, i: int, t: int, u: int)
    requires
        is_run(run),
        0 <= i < run.len(),
        run[i].owns(t),
        run[i].owns(u),
    ensures
        t == u,
{
    run_is_sound(run, i);
}

/// No task is left behind: whenever a task waits, some task owns the mutex or is on
/// its way to take it or to wake a task that waits.
pub proof fn waiters_are_attended(run: Seq<World>, i: int, t: int)
    requires
        is_run(run),
        0 <= i < run.len(),
        run[i].waits(t),
    ensures
        (exists|u: int| run[i].owns(u)) || (exists|u: int| run[i].is_active(u)),
{
    run_is_sound(run, i);
    assert(run[i].queue().contains(run[i].homes[t]));
}

/// A fair release passes the mutex on: where it hands over, the task that has waited
/// longest owns the mutex at once, so that at no time it is free for another to take.
/// The others keep their order.
pub proof fn fair_release_passes_on(
    run: Seq<World>,
    i: int,
    t: int,
    v: World,
    f: FairUnlock,
    g: FairUnlock,
    node: usize,
)
    requires
        is_run(run),
        0 <= i < run.len(),
        run[i].has(t),
        v.homes == run[i].homes,
        f.back is None,
        hands(run[i], v, t, f, g, FairStep::HandedOver(node)),
    ensures
        lock_word::is_locked(v.word),
        exists|u: int| #[trigger]
            v.owns(u) && run[i].waits(u) && run[i].homes[u] == run[i].queue().last(),
        v.queue() == run[i].queue().drop_last(),
{
    run_is_sound(run, i);
    let w = run[i];
    hand_is_sound(w, v, t, f, g, FairStep::HandedOver(node));
    let u = choose|u: int| #[trigger] w.waits(u) && w.homes[u] == node && v.owns(u);
    assert(v.owns(u) && w.waits(u));
}

/// Bumping passes the mutex on in the same way, and the bumping task waits for it
/// behind all others.
pub proof fn bump_passes_on(
    run: Seq<World>,
    i: int,
    t: int,
    v: World,
    f: FairUnlock,
    g: FairUnlock,
    node: usize,
)
    requires
        is_run(run),
        0 <= i < run.len(),
        run[i].has(t),
        v.homes == run[i].homes,
        f.back is Some,
        hands(run[i], v, t, f, g, FairStep::HandedOver(node)),
    ensures
        lock_word::is_locked(v.word),
        exists|u: int| #[trigger]
            v.owns(u) && run[i].waits(u) && run[i].homes[u] == run[i].queue().last(),
        v.waits(t),
        v.queue() == seq![run[i].homes[t]] + run[i].queue().drop_last(),
{
    run_is_sound(run, i);
    let w = run[i];
    hand_is_sound(w, v, t, f, g, FairStep::HandedOver(node));
    let u = choose|u: int| #[trigger] w.waits(u) && w.homes[u] == node && v.owns(u);
    assert(v.owns(u) && w.waits(u));
}

/// A task that hands the mutex over never lets it go while others wait: it either
/// keeps the mutex until the one that has waited longest owns it, or has seen that
/// nobody waits.
pub proof fn fair_release_never_frees(
    run: Seq<World>,
    i: int,
    t: int,
    v: World,
    f: FairUnlock,
    g: FairUnlock,
    step: FairStep,
)
    requires
        is_run(run),
        0 <= i < run.len(),
        run[i].has(t),
        v.homes == run[i].homes,
        hands(run[i], v, t, f, g, step),
    ensures
        lock_word::is_locked(v.word) || run[i].queue().len() == 0,
{
    run_is_sound(run, i);
    let w = run[i];
    hand_is_sound(w, v, t, f, g, step);
    assert(w.owns(t));
    lock_word::word_fields(w.word, 0);
    if f.state is Some {
        lock_word::word_fields(f.state->0, 0);
    }
    match step {
        FairStep::Continue | FairStep::Kept => {
            assert(v.owns(t));
        },
        FairStep::HandedOver(node) => {
            let u = choose|u: int| #[trigger] w.waits(u) && w.homes[u] == node && v.owns(u);
            assert(v.owns(u));
        },
        FairStep::Released => {},
    }
}

/// First come, first served: a task that begins to wait comes last, also one that
/// bumps the mutex. Of the others only the one that has waited longest leaves the
/// queue, unless one no longer waits and takes itself out.
pub proof fn queue_is_fair(run: Seq<World>, i: int)
    requires
        is_run(run),
        0 <= i < run.len() - 1,
    ensures
        queue_moves(run[i], run[i + 1]),
{
    run_is_sound(run, i + 1);
}

/// Whatever step a task is about to take, what the step asks for is given: the nodes
/// it uses are there, what it has seen leads to a queue, its own node is not in it
/// unless it waits, and only a held mutex is released.
pub proof fn tasks_are_ready(run: Seq<World>, i: int, t: int)
    requires
        is_run(run),
        0 <= i < run.len(),
        run[i].has(t),
    ensures
        ({
            let w = run[i];
            &&& w.nodes.contains_key(w.homes[t])
            &&& match w.roles[t] {
                Role::Locking(a) => a.ready(w.nodes),
                Role::Polling(a) => a.ready(w.nodes),
                Role::Holding => lock_word::is_locked(w.word),
                Role::Handing(f) => f.ready(w.nodes) && lock_word::is_locked(w.word),
                Role::Leaving(r) => r.ready(w.nodes) && r.node == w.homes[t],
                Role::Removing(r) => r.ready(w.nodes) && r.node == w.homes[t],
                Role::Waking(d) => d.ready(w.nodes),
                _ => true,
            }
        }),
{
    run_is_sound(run, i);
    let w = run[i];
    assert(informed(w, t));
    assert(w.roles[t] is Holding ==> w.owns(t));
    if w.dequeues(t) {
        known_is_queue(w, lock_word::head_of(seen_with_right(w.roles[t])->0));
    }
    if w.roles[t] is Handing {
        assert(w.owns(t) && !w.waits(t));
        not_queued(w, t);
    }
}

/// What a task knows of the queue leads to a part of it.
proof fn known_is_queue(w: World, head: usize)
    requires
        sound(w),
        queue::knows(w.nodes, w.queue(), head),
    ensures
        head != 0,
        queue::has_queue(w.nodes, head),
        forall|a: usize| queue::waiters(w.nodes, head).contains(a) ==> w.queue().contains(a),
        forall|i: int|
            0 <= i < queue::waiters(w.nodes, head).len() ==> lock_word::is_address(
                #[trigger] queue::waiters(w.nodes, head)[i],
            ),
{
    let queue = w.queue();
    let k = choose|k: int| #[trigger] queue::unseen_before(w.nodes, queue, k) && queue[k] == head;
    let rest = queue.skip(k);
    queue::suffix_is_queue(w.nodes, queue, k);
    queue::waiters_of(w.nodes, head, rest);
    assert forall|i: int| 0 <= i < rest.len() implies lock_word::is_address(#[trigger] rest[i])
        && queue.contains(rest[i]) by {
        assert(rest[i] == queue[i + k]);
        let u = choose|u: int| #[trigger] w.waits(u) && w.homes[u] == queue[i + k];
        assert(w.has(u));
    }
}

} // verus!
