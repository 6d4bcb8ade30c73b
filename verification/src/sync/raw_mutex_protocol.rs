//! What many threads do with one [`GenericRawMutex`].
//!
//! A world is a mutex, the nodes of the threads, and what each thread is about.
//! Threads take their steps in any order. In every world that they can reach, at
//! most one thread owns the mutex, a thread that was unparked by a fair release
//! owns it already, and a free mutex with parked threads has a thread that will see
//! to them.
use super::parker;
use super::parker::{ParkResult, WaitState, Waiter};
use super::raw_mutex;
use super::raw_mutex::{
    AcquireAttempt, AcquireStep, GenericRawMutex, HANDOFF_TOKEN, LOCKED, RETRY_TOKEN,
    UNLOCKED,
};
use vstd::prelude::*;

verus! {

/// What a thread is about.
pub enum Role {
    /// It neither owns nor wants the mutex.
    Idle,
    /// It tries to get the mutex.
    Locking(AcquireAttempt),
    /// It is going to park.
    Parking(AcquireAttempt),
    /// It has parked and has not come back.
    Waiting(AcquireAttempt),
    /// It holds the mutex.
    Holding,
    /// It holds the mutex and is going to release it, fairly or not.
    Releasing(bool),
}

/// A mutex, the nodes, and the threads with the addresses of their nodes.
pub struct World {
    pub mutex: GenericRawMutex,
    pub nodes: Map<usize, Waiter>,
    pub roles: Map<int, Role>,
    pub homes: Map<int, usize>,
}

impl World {
    /// The parked threads, from the one parked first to the one parked last.
    pub open spec fn queue(self) -> Seq<usize> {
        self.mutex.threads(self.nodes)
    }

    /// The thread is one of this world.
    pub open spec fn has(self, t: int) -> bool {
        self.roles.contains_key(t)
    }

    /// What the thread's node tells.
    pub open spec fn note(self, t: int) -> WaitState {
        self.nodes[self.homes[t]].state
    }

    /// The thread owns the mutex.
    pub open spec fn owns(self, t: int) -> bool {
        self.has(t) && match self.roles[t] {
            Role::Holding => true,
            Role::Releasing(_) => true,
            Role::Waiting(_) => self.note(t) == WaitState::Unparked(HANDOFF_TOKEN),
            _ => false,
        }
    }

    /// The thread is parked.
    pub open spec fn waits(self, t: int) -> bool {
        self.has(t) && self.roles[t] is Waiting && self.note(t) is Parked
    }

    /// The thread is going to take the mutex, unless it is taken before.
    pub open spec fn is_active(self, t: int) -> bool {
        self.has(t) && match self.roles[t] {
            Role::Locking(_) => true,
            Role::Parking(_) => true,
            Role::Waiting(_) => self.note(t) == WaitState::Unparked(RETRY_TOKEN),
            _ => false,
        }
    }
}

/// An attempt that begins.
pub open spec fn fresh() -> AcquireAttempt {
    AcquireAttempt { state: None, spin: 0, refused: false }
}

/// What becomes of a thread that comes back from parking.
pub open spec fn after_parking(result: ParkResult) -> Role {
    match result {
        ParkResult::Cancelled => Role::Idle,
        ParkResult::Unparked(token) => if token == HANDOFF_TOKEN {
            Role::Holding
        } else {
            Role::Locking(fresh())
        },
        ParkResult::Invalid => Role::Locking(fresh()),
    }
}

/// An idle thread takes a free mutex or begins to try.
pub open spec fn begins(w: World, v: World, t: int) -> bool {
    &&& w.roles[t] is Idle
    &&& v.nodes == w.nodes
    &&& v.mutex.parker == w.mutex.parker
    &&& {
        ||| !raw_mutex::is_locked(w.mutex.state) && v.mutex.state == raw_mutex::with_lock(
            w.mutex.state,
        ) && v.roles == w.roles.insert(t, Role::Holding)
        ||| v.mutex.state == w.mutex.state && v.roles == w.roles.insert(t, Role::Locking(fresh()))
    }
}

/// A thread takes a step towards the mutex.
pub open spec fn tries(
    w: World,
    v: World,
    t: int,
    a: AcquireAttempt,
    b: AcquireAttempt,
    step: AcquireStep,
) -> bool {
    &&& w.roles[t] == Role::Locking(a)
    &&& v.nodes == w.nodes
    &&& v.mutex.parker == w.mutex.parker
    &&& raw_mutex::acquire_steps(a, b, w.mutex.state, v.mutex.state, step)
    &&& match step {
        AcquireStep::Acquired => v.roles == w.roles.insert(t, Role::Holding),
        AcquireStep::Continue => v.roles == w.roles.insert(t, Role::Locking(b)),
        AcquireStep::Yield(_) => exists|c: AcquireAttempt|
            v.roles == #[trigger] w.roles.insert(t, Role::Locking(c)),
        AcquireStep::Park => v.roles == w.roles.insert(t, Role::Parking(b)),
        AcquireStep::Cancelled => false,
    }
}

/// A thread parks or is turned away.
pub open spec fn parks(w: World, v: World, t: int, result: Option<ParkResult>) -> bool {
    &&& w.roles[t] matches Role::Parking(a) && v.roles == w.roles.insert(
        t,
        match result {
            None => Role::Waiting(a),
            Some(result) => after_parking(result),
        },
    )
    &&& raw_mutex::parks(w.mutex, v.mutex, w.nodes, v.nodes, w.homes[t], result)
}

/// A thread that was unparked comes back.
pub open spec fn comes_back(w: World, v: World, t: int) -> bool {
    &&& w.roles[t] is Waiting
    &&& v.mutex == w.mutex
    &&& v.nodes == w.nodes
    &&& w.note(t) matches WaitState::Unparked(token) && v.roles == w.roles.insert(
        t,
        after_parking(ParkResult::Unparked(token)),
    )
}

/// A thread gives up waiting.
pub open spec fn cancels(w: World, v: World, t: int, result: ParkResult) -> bool {
    &&& w.roles[t] is Waiting
    &&& raw_mutex::cancels(w.mutex, v.mutex, w.nodes, v.nodes, w.homes[t], result)
    &&& v.roles == w.roles.insert(t, after_parking(result))
}

/// The holder releases the mutex at once or begins to.
pub open spec fn lets_go(w: World, v: World, t: int) -> bool {
    &&& w.roles[t] is Holding
    &&& v.nodes == w.nodes
    &&& v.mutex.parker == w.mutex.parker
    &&& if w.mutex.state == LOCKED {
        v.mutex.state == UNLOCKED && v.roles == w.roles.insert(t, Role::Idle)
    } else {
        v.mutex.state == w.mutex.state && exists|be_fair: bool|
            v.roles == #[trigger] w.roles.insert(t, Role::Releasing(be_fair))
    }
}

/// The holder releases the mutex and unparks another thread.
pub open spec fn releases(w: World, v: World, t: int) -> bool {
    &&& w.roles[t] matches Role::Releasing(be_fair) && raw_mutex::releases(
        w.mutex,
        v.mutex,
        w.nodes,
        v.nodes,
        be_fair,
    )
    &&& v.roles == w.roles.insert(t, Role::Idle)
}

/// One step of the thread `t`.
pub open spec fn world_steps(w: World, v: World, t: int) -> bool {
    &&& w.has(t)
    &&& v.homes == w.homes
    &&& {
        ||| begins(w, v, t)
        ||| exists|a: AcquireAttempt, b: AcquireAttempt, step: AcquireStep|
            tries(w, v, t, a, b, step)
        ||| exists|result: Option<ParkResult>| parks(w, v, t, result)
        ||| comes_back(w, v, t)
        ||| exists|result: ParkResult| cancels(w, v, t, result)
        ||| lets_go(w, v, t)
        ||| releases(w, v, t)
    }
}

/// Each thread has a node of its own.
pub open spec fn housed(w: World) -> bool {
    &&& w.homes.dom() == w.roles.dom()
    &&& forall|t: int| #[trigger]
        w.has(t) ==> w.homes[t] != 0 && w.nodes.contains_key(w.homes[t])
    &&& forall|t: int, u: int| #[trigger]
        w.has(t) && #[trigger] w.has(u) && w.homes[t] == w.homes[u] ==> t == u
}

/// At most one thread owns the mutex, and it is owned if and only if the state
/// says so.
pub open spec fn exclusive(w: World) -> bool {
    &&& forall|t: int, u: int| #[trigger] w.owns(t) && #[trigger] w.owns(u) ==> t == u
    &&& raw_mutex::is_locked(w.mutex.state) <==> exists|t: int| w.owns(t)
}

/// The nodes in the queue are exactly those of the parked threads.
pub open spec fn queue_waits(w: World) -> bool {
    &&& w.mutex.wf(w.nodes)
    &&& forall|t: int| #[trigger] w.waits(t) ==> w.queue().contains(w.homes[t])
    &&& forall|i: int|
        0 <= i < w.queue().len() ==> exists|t: int| #[trigger]
            w.waits(t) && w.homes[t] == #[trigger] w.queue()[i]
}

/// A thread that was unparked has a token of this mutex.
pub open spec fn told(w: World) -> bool {
    forall|t: int| #[trigger]
        w.has(t) && w.roles[t] is Waiting ==> (w.note(t) matches WaitState::Unparked(token)
            ==> token == RETRY_TOKEN || token == HANDOFF_TOKEN)
}

/// Where threads are parked the state tells of them, and if the mutex is free some
/// thread will see to them.
pub open spec fn attended(w: World) -> bool {
    w.queue().len() > 0 ==> {
        &&& raw_mutex::is_parked(w.mutex.state)
        &&& !raw_mutex::is_locked(w.mutex.state) ==> exists|t: int| w.is_active(t)
    }
}

/// All of it together.
pub open spec fn sound(w: World) -> bool {
    &&& housed(w)
    &&& exclusive(w)
    &&& queue_waits(w)
    &&& told(w)
    &&& attended(w)
}

/// A free mutex that nobody has touched yet.
pub open spec fn starts(w: World) -> bool {
    &&& w.mutex.state == UNLOCKED
    &&& w.mutex.parker.queue == 0
    &&& housed(w)
    &&& forall|t: int| #[trigger] w.has(t) ==> w.roles[t] is Idle
}

/// Where only one thread changes its role and no note of the others changes,
/// but for that at `x`, the others are as they were.
proof fn others_unchanged(w: World, v: World, t: int, x: usize)
    requires
        housed(w),
        w.has(t),
        v.homes == w.homes,
        v.roles == w.roles.insert(t, v.roles[t]),
        v.nodes.dom() =~= w.nodes.dom(),
        forall|a: usize| a != x && a != w.homes[t] ==> (#[trigger] v.nodes[a]).state == w.nodes[a].state,
    ensures
        housed(v),
        forall|u: int| #[trigger] v.has(u) == w.has(u),
        forall|u: int| u != t ==> #[trigger] v.roles[u] == w.roles[u],
        forall|u: int| #[trigger] w.has(u) && u != t && w.homes[u] != x ==> v.note(u) == w.note(u),
        forall|u: int| w.homes[u] != x && u != t ==> #[trigger] v.owns(u) == w.owns(u),
        forall|u: int| w.homes[u] != x && u != t ==> #[trigger] v.waits(u) == w.waits(u),
        forall|u: int| w.homes[u] != x && u != t ==> #[trigger] v.is_active(u) == w.is_active(u),
{
    assert(v.roles.dom() =~= w.roles.dom());
    assert forall|u: int| #[trigger] v.has(u) == w.has(u) by {}
    assert forall|u: int| #[trigger] w.has(u) && u != t && w.homes[u] != x implies v.note(u) == w.note(u) by {
        assert(w.has(t));
        assert(w.homes[u] != w.homes[t]);
    }
    assert forall|u: int| w.homes[u] != x && u != t implies #[trigger] v.owns(u) == w.owns(u) by {
        assert(v.has(u) == w.has(u));
    }
    assert forall|u: int| w.homes[u] != x && u != t implies #[trigger] v.waits(u) == w.waits(u) by {
        assert(v.has(u) == w.has(u));
    }
    assert forall|u: int| w.homes[u] != x && u != t implies #[trigger] v.is_active(u) == w.is_active(u) by {
        assert(v.has(u) == w.has(u));
    }
}

/// Where no thread parks or is unparked, the queue waits as before.
proof fn queue_kept(w: World, v: World, t: int)
    requires
        queue_waits(w),
        v.homes == w.homes,
        v.nodes == w.nodes,
        v.mutex.parker == w.mutex.parker,
        forall|u: int| u != t ==> #[trigger] v.waits(u) == w.waits(u),
        !v.waits(t),
        !w.waits(t),
    ensures
        v.queue() == w.queue(),
        queue_waits(v),
{
    assert forall|i: int| 0 <= i < v.queue().len() implies exists|u: int| #[trigger]
        v.waits(u) && v.homes[u] == #[trigger] v.queue()[i] by {
        let u = choose|u: int| #[trigger] w.waits(u) && w.homes[u] == w.queue()[i];
        assert(v.waits(u));
    }
    assert forall|u: int| #[trigger] v.waits(u) implies v.queue().contains(v.homes[u]) by {
        assert(w.waits(u));
    }
}

proof fn owned_as_before(w: World, v: World, t: int)
    requires
        exclusive(w),
        forall|u: int| u != t ==> #[trigger] v.owns(u) == w.owns(u),
        v.owns(t) == w.owns(t),
        raw_mutex::is_locked(v.mutex.state) == raw_mutex::is_locked(w.mutex.state),
    ensures
        exclusive(v),
{
    if raw_mutex::is_locked(w.mutex.state) {
        let u = choose|u: int| w.owns(u);
        assert(v.owns(u));
    }
    assert forall|u: int| #[trigger] v.owns(u) implies w.owns(u) by {}
}

/// Steps that leave the nodes as they are.
proof fn plain_step_is_sound(w: World, v: World, t: int)
    requires
        sound(w),
        w.has(t),
        v.homes == w.homes,
        v.nodes == w.nodes,
        v.mutex.parker == w.mutex.parker,
        v.roles == w.roles.insert(t, v.roles[t]),
        !w.waits(t),
        !(v.roles[t] is Waiting),
        w.queue().len() > 0 ==> raw_mutex::is_parked(v.mutex.state),
        // The thread gets the mutex, lets it go, or neither.
        !w.owns(t) && v.owns(t) ==> !raw_mutex::is_locked(w.mutex.state)
            && raw_mutex::is_locked(v.mutex.state),
        w.owns(t) && !v.owns(t) ==> !raw_mutex::is_locked(v.mutex.state),
        w.owns(t) && !v.owns(t) ==> w.queue().len() == 0,
        w.owns(t) == v.owns(t) ==> raw_mutex::is_locked(w.mutex.state) == raw_mutex::is_locked(
            v.mutex.state,
        ),
        w.is_active(t) ==> v.is_active(t) || v.owns(t),
    ensures
        sound(v),
        v.queue() == w.queue(),
{
    let x = w.homes[t];
    others_unchanged(w, v, t, x);
    assert forall|u: int| u != t && #[trigger] w.has(u) implies w.homes[u] != x by {
        assert(w.has(t));
    }
    assert forall|u: int| u != t implies #[trigger] v.waits(u) == w.waits(u) by {
        assert(w.has(u) ==> w.homes[u] != x);
        assert(v.has(u) == w.has(u));
    }
    assert forall|u: int| u != t implies #[trigger] v.owns(u) == w.owns(u) by {
        assert(w.has(u) ==> w.homes[u] != x);
        assert(v.has(u) == w.has(u));
    }
    assert forall|u: int| u != t implies #[trigger] v.is_active(u) == w.is_active(u) by {
        assert(w.has(u) ==> w.homes[u] != x);
        assert(v.has(u) == w.has(u));
    }
    queue_kept(w, v, t);
    if w.owns(t) == v.owns(t) {
        owned_as_before(w, v, t);
    } else if v.owns(t) {
        assert forall|u: int| #[trigger] v.owns(u) implies u == t by {
            if u != t {
                assert(w.owns(u));
            }
        }
    } else {
        assert forall|u: int| #[trigger] v.owns(u) implies false by {
            assert(w.owns(u));
        }
    }
    if !raw_mutex::is_locked(v.mutex.state) && v.queue().len() > 0 {
        assert(!v.owns(t));
        assert(!raw_mutex::is_locked(w.mutex.state));
        let u = choose|u: int| w.is_active(u);
        assert(v.is_active(u));
    }
    assert forall|u: int| #[trigger]
        v.has(u) && v.roles[u] is Waiting implies (v.note(u) matches WaitState::Unparked(token)
        ==> token == RETRY_TOKEN || token == HANDOFF_TOKEN) by {
        assert(w.has(u));
    }
}

proof fn park_is_sound(w: World, v: World, t: int)
    requires
        sound(w),
        w.has(t),
        v.homes == w.homes,
        parks(w, v, t, None),
    ensures
        sound(v),
        v.queue() == w.queue().push(w.homes[t]),
{
    let home = w.homes[t];
    raw_mutex::state_fields(w.mutex.state);
    let queue = w.queue();
    let longer = queue.push(home);
    others_unchanged(w, v, t, home);
    assert forall|u: int| u != t && #[trigger] w.has(u) implies w.homes[u] != home by {
        assert(w.has(t));
    }
    assert forall|u: int| u != t implies #[trigger] v.owns(u) == w.owns(u) by {
        assert(w.has(u) ==> w.homes[u] != home);
        assert(v.has(u) == w.has(u));
    }
    assert forall|u: int| u != t implies #[trigger] v.waits(u) == w.waits(u) by {
        assert(w.has(u) ==> w.homes[u] != home);
        assert(v.has(u) == w.has(u));
    }
    owned_as_before(w, v, t);
    assert forall|u: int| #[trigger] v.waits(u) implies longer.contains(v.homes[u]) by {
        if u == t {
            assert(longer[queue.len() as int] == home);
        } else {
            assert(w.waits(u));
            let i = choose|i: int| 0 <= i < queue.len() && queue[i] == w.homes[u];
            assert(longer[i] == w.homes[u]);
        }
    }
    assert forall|i: int| 0 <= i < longer.len() implies exists|u: int| #[trigger]
        v.waits(u) && v.homes[u] == #[trigger] longer[i] by {
        if i == queue.len() {
            assert(v.waits(t));
        } else {
            let u = choose|u: int| #[trigger] w.waits(u) && w.homes[u] == queue[i];
            assert(v.waits(u));
        }
    }
    assert forall|u: int| #[trigger]
        v.has(u) && v.roles[u] is Waiting implies (v.note(u) matches WaitState::Unparked(token)
        ==> token == RETRY_TOKEN || token == HANDOFF_TOKEN) by {
        assert(w.has(u));
    }
}

/// A parked thread leaves the queue because it gives up.
proof fn cancel_is_sound(w: World, v: World, t: int)
    requires
        sound(w),
        w.has(t),
        v.homes == w.homes,
        cancels(w, v, t, ParkResult::Cancelled),
    ensures
        sound(v),
        w.queue().contains(w.homes[t]),
        v.queue() == parker::without(w.queue(), w.homes[t]),
{
    let home = w.homes[t];
    raw_mutex::state_fields(w.mutex.state);
    let queue = w.queue();
    assert(w.waits(t));
    let k = queue.index_of(home);
    assert(0 <= k < queue.len() && queue[k] == home);
    let left = parker::without(queue, home);
    others_unchanged(w, v, t, home);
    assert forall|u: int| u != t && #[trigger] w.has(u) implies w.homes[u] != home by {
        assert(w.has(t));
    }
    assert forall|u: int| u != t implies #[trigger] v.owns(u) == w.owns(u) by {
        assert(w.has(u) ==> w.homes[u] != home);
        assert(v.has(u) == w.has(u));
    }
    assert forall|u: int| u != t implies #[trigger] v.waits(u) == w.waits(u) by {
        assert(w.has(u) ==> w.homes[u] != home);
        assert(v.has(u) == w.has(u));
    }
    assert forall|u: int| u != t implies #[trigger] v.is_active(u) == w.is_active(u) by {
        assert(w.has(u) ==> w.homes[u] != home);
        assert(v.has(u) == w.has(u));
    }
    owned_as_before(w, v, t);
    assert forall|u: int| #[trigger] v.waits(u) implies left.contains(v.homes[u]) by {
        assert(u != t && w.waits(u));
        let i = choose|i: int| 0 <= i < queue.len() && queue[i] == w.homes[u];
        assert(i != k);
        if i < k {
            assert(left[i] == queue[i]);
        } else {
            assert(left[i - 1] == queue[i]);
        }
    }
    assert forall|i: int| 0 <= i < left.len() implies exists|u: int| #[trigger]
        v.waits(u) && v.homes[u] == #[trigger] left[i] by {
        let j = if i < k {
            i
        } else {
            i + 1
        };
        assert(left[i] == queue[j]);
        let u = choose|u: int| #[trigger] w.waits(u) && w.homes[u] == queue[j];
        assert(queue[j] != queue[k]);
        assert(v.waits(u));
    }
    if !raw_mutex::is_locked(v.mutex.state) && v.queue().len() > 0 {
        let u = choose|u: int| w.is_active(u);
        assert(v.is_active(u));
    }
    assert forall|u: int| #[trigger]
        v.has(u) && v.roles[u] is Waiting implies (v.note(u) matches WaitState::Unparked(token)
        ==> token == RETRY_TOKEN || token == HANDOFF_TOKEN) by {
        assert(w.has(u));
    }
}

/// The holder unparks the thread that was parked first.
proof fn release_is_sound(w: World, v: World, t: int)
    requires
        sound(w),
        w.has(t),
        v.homes == w.homes,
        releases(w, v, t),
        w.queue().len() > 0,
    ensures
        sound(v),
        v.queue() == w.queue().drop_first(),
        exists|u: int| #[trigger]
            w.waits(u) && !v.waits(u) && w.homes[u] == w.queue()[0] && (w.roles[t] == Role::Releasing(
                true,
            ) ==> v.owns(u)) && (w.roles[t] == Role::Releasing(false) ==> v.is_active(u)),
{
    let queue = w.queue();
    let left = queue.drop_first();
    let first = queue[0];
    let r = choose|r: int| #[trigger] w.waits(r) && w.homes[r] == queue[0];
    raw_mutex::state_fields(w.mutex.state);
    raw_mutex::state_fields(v.mutex.state);
    assert(w.owns(t));
    assert(r != t);
    assert(w.has(r) && w.has(t));
    others_unchanged(w, v, t, first);
    assert forall|u: int| u != r && #[trigger] w.has(u) implies w.homes[u] != first by {
        assert(w.has(r));
    }
    assert forall|u: int| u != t && u != r implies #[trigger] v.owns(u) == w.owns(u) by {
        assert(w.has(u) ==> w.homes[u] != first);
        assert(v.has(u) == w.has(u));
    }
    assert forall|u: int| u != t && u != r implies #[trigger] v.waits(u) == w.waits(u) by {
        assert(w.has(u) ==> w.homes[u] != first);
        assert(v.has(u) == w.has(u));
    }
    assert forall|u: int| #[trigger] v.owns(u) implies u == r by {
        if u != r && u != t {
            assert(w.owns(u));
        }
    }
    assert(v.has(r));
    assert(v.roles[r] == w.roles[r]);
    if w.roles[t] == Role::Releasing(true) {
        assert(v.owns(r));
    } else {
        assert(v.is_active(r));
        assert(!v.owns(r));
    }
    assert forall|u: int| #[trigger] v.waits(u) implies left.contains(v.homes[u]) by {
        assert(u != r);
        assert(w.waits(u));
        let i = choose|i: int| 0 <= i < queue.len() && queue[i] == w.homes[u];
        assert(i != 0);
        assert(left[i - 1] == queue[i]);
    }
    assert forall|i: int| 0 <= i < left.len() implies exists|u: int| #[trigger]
        v.waits(u) && v.homes[u] == #[trigger] left[i] by {
        assert(left[i] == queue[i + 1]);
        let u = choose|u: int| #[trigger] w.waits(u) && w.homes[u] == queue[i + 1];
        assert(queue[i + 1] != queue[0]);
        assert(v.waits(u));
    }
    assert forall|u: int| #[trigger]
        v.has(u) && v.roles[u] is Waiting implies (v.note(u) matches WaitState::Unparked(token)
        ==> token == RETRY_TOKEN || token == HANDOFF_TOKEN) by {
        assert(w.has(u));
        if u != r {
            assert(w.homes[u] != first);
        }
    }
}

/// Every step of every thread keeps a world sound.
pub proof fn step_is_sound(w: World, v: World, t: int)
    requires
        sound(w),
        world_steps(w, v, t),
    ensures
        sound(v),
{
    raw_mutex::state_fields(w.mutex.state);
    raw_mutex::state_fields(v.mutex.state);
    if begins(w, v, t) {
        assert(v.roles =~= w.roles.insert(t, v.roles[t]));
        plain_step_is_sound(w, v, t);
    } else if exists|a: AcquireAttempt, b: AcquireAttempt, step: AcquireStep| tries(w, v, t, a, b, step) {
        assert(v.roles =~= w.roles.insert(t, v.roles[t]));
        plain_step_is_sound(w, v, t);
    } else if exists|result: Option<ParkResult>| parks(w, v, t, result) {
        let result = choose|result: Option<ParkResult>| parks(w, v, t, result);
        if result is None {
            park_is_sound(w, v, t);
        } else {
            assert(v.roles =~= w.roles.insert(t, v.roles[t]));
            plain_step_is_sound(w, v, t);
        }
    } else if comes_back(w, v, t) {
        assert(v.roles =~= w.roles.insert(t, v.roles[t]));
        plain_step_is_sound(w, v, t);
    } else if exists|result: ParkResult| cancels(w, v, t, result) {
        let result = choose|result: ParkResult| cancels(w, v, t, result);
        if result is Cancelled {
            cancel_is_sound(w, v, t);
        } else {
            assert(v.roles =~= w.roles.insert(t, v.roles[t]));
            plain_step_is_sound(w, v, t);
        }
    } else if lets_go(w, v, t) {
        assert(v.roles =~= w.roles.insert(t, v.roles[t]));
        plain_step_is_sound(w, v, t);
    } else {
        if w.queue().len() > 0 {
            release_is_sound(w, v, t);
        } else {
            assert(v.roles =~= w.roles.insert(t, v.roles[t]));
            empty_queue_has_no_head(w);
            empty_queue_has_no_head(v);
            plain_step_is_sound(w, v, t);
        }
    }
}

/// A parker without threads has a null head.
proof fn empty_queue_has_no_head(w: World)
    requires
        w.mutex.wf(w.nodes),
        w.queue().len() == 0,
    ensures
        w.mutex.parker.queue == 0,
{
    assert(parker::is_list(w.nodes, w.mutex.parker.queue, w.queue()));
}

/// A mutex that nobody has touched is sound.
pub proof fn start_is_sound(w: World)
    requires
        starts(w),
    ensures
        sound(w),
        w.queue() == Seq::<usize>::empty(),
{
    raw_mutex::state_fields(UNLOCKED);
    assert(parker::is_list(w.nodes, 0, Seq::<usize>::empty()));
    parker::parked_of(w.nodes, 0, Seq::<usize>::empty());
    assert forall|t: int| #[trigger] w.waits(t) implies false by {
        assert(w.has(t));
    }
    assert forall|t: int| #[trigger] w.owns(t) implies false by {
        assert(w.has(t));
    }
}

/// A run of the threads: worlds, each of which follows from the one before by
/// a step of some thread.
pub open spec fn is_run(run: Seq<World>) -> bool {
    &&& run.len() > 0
    &&& starts(run[0])
    &&& forall|i: int| 0 <= i < run.len() - 1 ==> #[trigger] step_at(run, i)
}

/// Some thread leads from the world at position `i` to the next.
pub open spec fn step_at(run: Seq<World>, i: int) -> bool {
    follows(run[i], run[i + 1])
}

/// Some thread leads from `w` to `v`.
pub open spec fn follows(w: World, v: World) -> bool {
    exists|t: int| world_steps(w, v, t)
}

proof fn run_is_sound(run: Seq<World>, i: int)
    requires
        is_run(run),
        0 <= i < run.len(),
    ensures
        sound(run[i]),
    decreases i,
{
    if i == 0 {
        start_is_sound(run[0]);
    } else {
        run_is_sound(run, i - 1);
        assert(step_at(run, i - 1));
        let w = run[i - 1];
        let v = run[i];
        let t = choose|t: int| world_steps(w, v, t);
        step_is_sound(w, v, t);
    }
}

/// Mutual exclusion: however the threads take their steps, no two of them own
/// the mutex at once.
pub proof fn mutex_is_exclusive(run: Seq<World>, i: int, t: int, u: int)
    requires
        is_run(run),
        0 <= i < run.len(),
        run[i].owns(t),
        run[i].owns(u),
    ensures
        t == u,
{
    run_is_sound(run, i);
}

/// No thread is left behind: whenever a thread is parked, some thread owns the
/// mutex or is on its way to take it.
pub proof fn parked_threads_are_attended(run: Seq<World>, i: int, t: int)
    requires
        is_run(run),
        0 <= i < run.len(),
        run[i].waits(t),
    ensures
        (exists|u: int| run[i].owns(u)) || (exists|u: int| run[i].is_active(u)),
{
    run_is_sound(run, i);
    assert(run[i].queue().contains(run[i].homes[t]));
}

/// Whenever a thread is parked the state carries the mark, so that the owner
/// cannot release the mutex without unparking a thread.
pub proof fn parked_threads_are_marked(run: Seq<World>, i: int, t: int)
    requires
        is_run(run),
        0 <= i < run.len(),
        run[i].waits(t),
    ensures
        raw_mutex::is_parked(run[i].mutex.state),
        run[i].mutex.state != LOCKED,
{
    run_is_sound(run, i);
    raw_mutex::state_fields(run[i].mutex.state);
    assert(run[i].queue().contains(run[i].homes[t]));
}

/// A fair release hands the mutex over: the thread that was parked first owns it
/// at once, and at no time is it free for another to take.
pub proof fn fair_release_hands_over(run: Seq<World>, i: int, t: int, v: World)
    requires
        is_run(run),
        0 <= i < run.len(),
        run[i].has(t),
        run[i].roles[t] == Role::Releasing(true),
        run[i].queue().len() > 0,
        v.homes == run[i].homes,
        releases(run[i], v, t),
    ensures
        raw_mutex::is_locked(v.mutex.state),
        exists|u: int| #[trigger]
            v.owns(u) && run[i].waits(u) && run[i].homes[u] == run[i].queue()[0],
{
    run_is_sound(run, i);
    release_is_sound(run[i], v, t);
    let w = run[i];
    let u = choose|u: int| #[trigger]
        w.waits(u) && !v.waits(u) && w.homes[u] == w.queue()[0] && (w.roles[t] == Role::Releasing(
            true,
        ) ==> v.owns(u)) && (w.roles[t] == Role::Releasing(false) ==> v.is_active(u));
    assert(v.owns(u) && w.waits(u));
}

/// Threads are unparked in the order in which they were parked: in each step the
/// queue stays, a thread is parked behind all others, the first one leaves, or
/// one gives up.
pub proof fn queue_is_fair(run: Seq<World>, i: int)
    requires
        is_run(run),
        0 <= i < run.len() - 1,
    ensures
        ({
            let before = run[i].queue();
            let after = run[i + 1].queue();
            ||| after == before
            ||| exists|t: int| #[trigger]
                run[i + 1].waits(t) && !run[i].waits(t) && after == before.push(run[i].homes[t])
            ||| before.len() > 0 && after == before.drop_first()
            ||| exists|t: int| #[trigger]
                run[i].waits(t) && run[i + 1].roles[t] is Idle && after == parker::without(
                    before,
                    run[i].homes[t],
                )
        }),
{
    run_is_sound(run, i);
    let w = run[i];
    let v = run[i + 1];
    assert(step_at(run, i));
    let t = choose|t: int| world_steps(w, v, t);
    if exists|result: Option<ParkResult>| parks(w, v, t, result) {
        let result = choose|result: Option<ParkResult>| parks(w, v, t, result);
        if result is None {
            park_is_sound(w, v, t);
            assert(v.waits(t) && !w.waits(t));
        }
    } else if exists|result: ParkResult| cancels(w, v, t, result) {
        let result = choose|result: ParkResult| cancels(w, v, t, result);
        if result is Cancelled {
            cancel_is_sound(w, v, t);
            assert(w.waits(t));
        }
    } else if releases(w, v, t) && w.queue().len() > 0 {
        release_is_sound(w, v, t);
    } else if releases(w, v, t) {
        empty_queue_has_no_head(w);
        empty_queue_has_no_head(v);
    }
}

/// Whatever step a thread is about to take, what the step asks for is given.
pub proof fn threads_are_ready(run: Seq<World>, i: int, t: int)
    requires
        is_run(run),
        0 <= i < run.len(),
        run[i].has(t),
    ensures
        ({
            let w = run[i];
            let home = w.homes[t];
            &&& w.mutex.wf(w.nodes)
            &&& home != 0 && w.nodes.contains_key(home)
            &&& w.roles[t] is Parking ==> !w.queue().contains(home)
            &&& w.waits(t) ==> w.queue().contains(home)
            &&& w.roles[t] is Waiting ==> (w.note(t) matches WaitState::Unparked(token) ==> token
                == RETRY_TOKEN || token == HANDOFF_TOKEN)
            &&& w.owns(t) ==> raw_mutex::is_locked(w.mutex.state)
        }),
{
    run_is_sound(run, i);
    let w = run[i];
    let home = w.homes[t];
    if w.roles[t] is Parking && w.queue().contains(home) {
        let k = choose|k: int| 0 <= k < w.queue().len() && w.queue()[k] == home;
        let u = choose|u: int| #[trigger] w.waits(u) && w.homes[u] == w.queue()[k];
        assert(w.has(u) && w.has(t));
    }
}

} // verus!
