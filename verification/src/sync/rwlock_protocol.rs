//! What many threads do with one [`CoreRwLock`](super::rwlock::CoreRwLock).
//!
//! A world is the state of the lock, the numbers of threads that hold it, and the
//! threads that want it or wake others. Threads take their steps in any order. In every
//! world that they can reach, a writer holds the lock alone, and where threads are
//! queued, some thread holds the lock or will see to them.
use super::rwlock;
use super::rwlock::{RwAttempt, RwStep, Tag, PARKED, READ, WRITE};
use super::spin_wait::{SpinConfig, SpinWait};
use vstd::prelude::*;

verus! {

/// What a thread is about that does not hold the lock.
pub enum Role {
    /// It tries to take the lock.
    Trying(RwAttempt),
    /// It is about to be queued.
    Parking(RwAttempt),
    /// It is queued.
    Parked(RwAttempt),
    /// It was the last reader and is about to wake a queued thread.
    Waking,
}

/// The state of a lock, the numbers of threads that hold it, the nodes of the queued
/// threads, from the one queued last to the one queued first, and the other threads by
/// their nodes.
pub struct World {
    pub state: usize,
    pub writers: nat,
    pub readers: nat,
    pub queue: Seq<usize>,
    pub roles: Map<usize, Role>,
}

impl World {
    /// The thread is queued.
    pub open spec fn is_queued(self, t: usize) -> bool {
        self.roles.contains_key(t) && self.roles[t] is Parked
    }

    /// The thread is going to take the lock or to wake a queued thread, unless the lock
    /// is taken before.
    pub open spec fn is_active(self, t: usize) -> bool {
        self.roles.contains_key(t) && match self.roles[t] {
            Role::Trying(a) => a.state matches Some(seen) ==> !rwlock::is_blocked(a.tag, seen),
            Role::Waking => true,
            _ => false,
        }
    }
}

/// The attempt of a thread that goes on after it was queued or was not to be queued.
pub open spec fn resumed(a: RwAttempt) -> RwAttempt {
    RwAttempt { state: None, spin_wait: SpinWait { spin: 0 }, ..a }
}

/// A thread takes the lock for writing without waiting, or cannot.
pub open spec fn writes_at_once(w: World, v: World) -> bool {
    if w.state == 0 {
        v == (World { state: WRITE, writers: w.writers + 1, ..w })
    } else {
        v == w
    }
}

/// A thread takes the lock for reading without waiting, or cannot.
pub open spec fn reads_at_once(w: World, v: World) -> bool {
    if !rwlock::is_written(w.state) && !rwlock::is_parked(w.state) && w.state + READ <= usize::MAX {
        v == (World { state: (w.state + READ) as usize, readers: w.readers + 1, ..w })
    } else {
        v == w
    }
}

/// A thread that could not take the lock at once begins to try.
pub open spec fn begins(w: World, v: World, t: usize, tag: Tag) -> bool {
    &&& !w.roles.contains_key(t)
    &&& v == (World {
        roles: w.roles.insert(
            t,
            Role::Trying(RwAttempt { state: None, tag, spin_wait: SpinWait { spin: 0 } }),
        ),
        ..w
    })
}

/// A thread takes a step towards the lock.
pub open spec fn tries(
    w: World,
    v: World,
    t: usize,
    a: RwAttempt,
    b: RwAttempt,
    config: SpinConfig,
    step: RwStep,
) -> bool {
    &&& w.roles.contains_key(t)
    &&& w.roles[t] == Role::Trying(a)
    &&& a.ready()
    &&& rwlock::rw_steps(a, b, w.state, v.state, config, step)
    &&& v.queue == w.queue
    &&& v.writers == w.writers + (if step is Acquired && a.tag == Tag::Writer {
        1nat
    } else {
        0nat
    })
    &&& v.readers == w.readers + (if step is Acquired && a.tag == Tag::Reader {
        1nat
    } else {
        0nat
    })
    &&& v.roles == (match step {
        RwStep::Acquired => w.roles.remove(t),
        RwStep::Park => w.roles.insert(t, Role::Parking(b)),
        _ => w.roles.insert(t, Role::Trying(b)),
    })
}

/// A thread is queued, or goes on if the mark is gone.
pub open spec fn parks(w: World, v: World, t: usize, a: RwAttempt) -> bool {
    &&& w.roles.contains_key(t)
    &&& w.roles[t] == Role::Parking(a)
    &&& v == if rwlock::is_parked(w.state) {
        World { queue: seq![t] + w.queue, roles: w.roles.insert(t, Role::Parked(a)), ..w }
    } else {
        World { roles: w.roles.insert(t, Role::Trying(resumed(a))), ..w }
    }
}

/// The threads after one of them was taken out of the queue, if one was.
pub open spec fn notified(roles: Map<usize, Role>, node: Option<usize>) -> Map<usize, Role> {
    match node {
        None => roles,
        Some(u) => roles.insert(
            u,
            match roles[u] {
                Role::Parked(a) => Role::Trying(resumed(a)),
                role => role,
            },
        ),
    }
}

/// A writer releases a lock without a mark.
pub open spec fn writer_leaves(w: World, v: World) -> bool {
    &&& w.writers > 0
    &&& w.state == WRITE
    &&& v == (World { state: 0, writers: (w.writers - 1) as nat, ..w })
}

/// A writer releases the lock and wakes the thread that was queued first.
pub open spec fn writer_wakes(w: World, v: World, node: Option<usize>) -> bool {
    &&& w.writers > 0
    &&& rwlock::writer_hands_on(w.queue, v.state, v.queue, node)
    &&& v.writers == w.writers - 1
    &&& v.readers == w.readers
    &&& v.roles == notified(w.roles, node)
}

/// A reader releases the lock. The last one is to wake a queued thread if there is a
/// mark.
pub open spec fn reader_leaves(w: World, v: World, t: usize) -> bool {
    &&& w.readers > 0
    &&& w.state >= READ
    &&& !w.roles.contains_key(t)
    &&& v == (World {
        state: (w.state - READ) as usize,
        readers: (w.readers - 1) as nat,
        roles: if w.state != READ | PARKED {
            w.roles
        } else {
            w.roles.insert(t, Role::Waking)
        },
        ..w
    })
}

/// A thread that was the last reader wakes the thread that was queued first.
pub open spec fn reader_wakes(w: World, v: World, t: usize, node: Option<usize>) -> bool {
    &&& w.roles.contains_key(t)
    &&& w.roles[t] is Waking
    &&& rwlock::reader_hands_on(w.state, w.queue, v.state, v.queue, node)
    &&& v.writers == w.writers
    &&& v.readers == w.readers
    &&& v.roles == notified(w.roles.remove(t), node)
}

/// One step of some thread.
pub open spec fn follows(w: World, v: World) -> bool {
    ||| writes_at_once(w, v)
    ||| reads_at_once(w, v)
    ||| exists|t: usize, tag: Tag| begins(w, v, t, tag)
    ||| exists|t: usize, a: RwAttempt, b: RwAttempt, config: SpinConfig, step: RwStep|
        tries(w, v, t, a, b, config, step)
    ||| exists|t: usize, a: RwAttempt| parks(w, v, t, a)
    ||| writer_leaves(w, v)
    ||| exists|node: Option<usize>| writer_wakes(w, v, node)
    ||| exists|t: usize| reader_leaves(w, v, t)
    ||| exists|t: usize, node: Option<usize>| reader_wakes(w, v, t, node)
}

/// The state counts those that hold the lock, and a writer holds it alone.
pub open spec fn kept_apart(w: World) -> bool {
    &&& w.writers == (if rwlock::is_written(w.state) {
        1nat
    } else {
        0
    })
    &&& w.readers == rwlock::readers(w.state)
    &&& w.writers > 0 ==> w.readers == 0
}

/// The queue holds the queued threads, each once, and there is a mark if there are any.
pub open spec fn queue_waits(w: World) -> bool {
    &&& w.queue.no_duplicates()
    &&& forall|t: usize| #[trigger] w.queue.contains(t) <==> w.is_queued(t)
    &&& w.queue.len() > 0 ==> rwlock::is_parked(w.state)
}

/// Where the mark is on a free lock, some thread will see to those that are queued.
pub open spec fn attended(w: World) -> bool {
    w.state == PARKED ==> exists|t: usize| w.is_active(t)
}

/// All of it together.
pub open spec fn sound(w: World) -> bool {
    kept_apart(w) && queue_waits(w) && attended(w)
}

/// What holds of a state that is seen and of one that is left.
proof fn states_add_up(w: usize, v: usize)
    ensures
        READ | PARKED == READ + PARKED,
        rwlock::is_parked(w) <==> w % 2 == 1,
        rwlock::is_written(w) <==> (w / 2) % 2 == 1,
        rwlock::is_parked(v) <==> v % 2 == 1,
        rwlock::is_written(v) <==> (v / 2) % 2 == 1,
        rwlock::is_written(w | WRITE),
        rwlock::is_parked(w | WRITE) == rwlock::is_parked(w),
        rwlock::readers(w | WRITE) == rwlock::readers(w),
        rwlock::is_parked(w | PARKED),
        rwlock::is_written(w | PARKED) == rwlock::is_written(w),
        rwlock::readers(w | PARKED) == rwlock::readers(w),
{
    rwlock::state_fields(w);
    rwlock::state_fields(v);
    assert(READ | PARKED == 5) by (bit_vector);
}

/// A thread that tries to take the lock takes a step.
proof fn try_is_sound(
    w: World,
    v: World,
    t: usize,
    a: RwAttempt,
    b: RwAttempt,
    config: SpinConfig,
    step: RwStep,
)
    requires
        sound(w),
        tries(w, v, t, a, b, config, step),
    ensures
        sound(v),
{
    states_add_up(w.state, v.state);
    if w.state + READ <= usize::MAX {
        rwlock::reader_counts(w.state);
    }
    assert(kept_apart(v));
    assert forall|u: usize| #[trigger] v.queue.contains(u) <==> v.is_queued(u) by {
        assert(w.queue.contains(u) <==> w.is_queued(u));
    }
    if v.state == PARKED {
        assert(w.state == PARKED);
        let u = choose|u: usize| w.is_active(u);
        if u == t {
            assert(v.is_active(t));
        } else {
            assert(v.is_active(u));
        }
    }
}

/// A thread is queued or goes on.
proof fn park_is_sound(w: World, v: World, t: usize, a: RwAttempt)
    requires
        sound(w),
        parks(w, v, t, a),
    ensures
        sound(v),
{
    assert(!w.queue.contains(t)) by {
        assert(!w.is_queued(t));
    }
    assert forall|u: usize| #[trigger] v.queue.contains(u) <==> v.is_queued(u) by {
        assert(w.queue.contains(u) <==> w.is_queued(u));
        if rwlock::is_parked(w.state) {
            if u == t {
                assert(v.queue[0] == t);
            } else if w.queue.contains(u) {
                let i = choose|i: int| 0 <= i < w.queue.len() && w.queue[i] == u;
                assert(v.queue[i + 1] == u);
            } else if v.queue.contains(u) {
                let i = choose|i: int| 0 <= i < v.queue.len() && v.queue[i] == u;
                assert(w.queue[i - 1] == u);
            }
        }
    }
    assert(v.queue.no_duplicates()) by {
        assert forall|i: int, j: int| 0 <= i < v.queue.len() && 0 <= j < v.queue.len() && i != j implies v.queue[i]
            != v.queue[j] by {
            if rwlock::is_parked(w.state) {
                if i > 0 {
                    assert(v.queue[i] == w.queue[i - 1]);
                    assert(w.queue.contains(w.queue[i - 1]));
                }
                if j > 0 {
                    assert(v.queue[j] == w.queue[j - 1]);
                    assert(w.queue.contains(w.queue[j - 1]));
                }
            }
        }
    }
    if v.state == PARKED {
        let u = choose|u: usize| w.is_active(u);
        assert(u != t);
        assert(v.is_active(u));
    }
}

/// The thread that was queued first leaves the queue and is active.
proof fn first_leaves(w: World, v: World, roles: Map<usize, Role>, node: Option<usize>)
    requires
        queue_waits(w),
        forall|t: usize| #[trigger] w.is_queued(t) <==> roles.contains_key(t) && roles[t] is Parked,
        rwlock::writer_hands_on(w.queue, v.state, v.queue, node),
        v.roles == notified(roles, node),
    ensures
        queue_waits(v),
        attended(v),
{
    rwlock::state_fields(0);
    if w.queue.len() > 0 {
        let u = w.queue.last();
        assert(w.queue.contains(w.queue[w.queue.len() - 1]));
        assert(w.is_queued(u));
        assert(v.is_active(u));
        assert forall|x: usize| #[trigger] v.queue.contains(x) <==> v.is_queued(x) by {
            assert(w.queue.contains(x) <==> w.is_queued(x));
            if w.queue.contains(x) && x != u {
                let i = choose|i: int| 0 <= i < w.queue.len() && w.queue[i] == x;
                assert(v.queue[i] == x);
            }
            if v.queue.contains(x) {
                let i = choose|i: int| 0 <= i < v.queue.len() && v.queue[i] == x;
                assert(w.queue[i] == x && w.queue[i] != w.queue[w.queue.len() - 1]);
                assert(w.queue.contains(x));
            }
        }
    } else {
        assert forall|x: usize| #[trigger] v.queue.contains(x) <==> v.is_queued(x) by {
            assert(w.queue.contains(x) <==> w.is_queued(x));
        }
    }
}

/// A thread releases the lock, wakes another or begins to try.
proof fn turn_is_sound(w: World, v: World)
    requires
        sound(w),
        writes_at_once(w, v) || reads_at_once(w, v) || writer_leaves(w, v) || (exists|t: usize, tag: Tag|
            begins(w, v, t, tag)) || (exists|node: Option<usize>| writer_wakes(w, v, node)) || (exists|t: usize|
            reader_leaves(w, v, t)) || (exists|t: usize, node: Option<usize>| reader_wakes(w, v, t, node)),
    ensures
        sound(v),
{
    states_add_up(w.state, v.state);
    rwlock::state_fields(0);
    if w.state + READ <= usize::MAX {
        rwlock::reader_counts(w.state);
    }
    if w.state >= READ {
        rwlock::reader_counts((w.state - READ) as usize);
    }
    if exists|node: Option<usize>| writer_wakes(w, v, node) {
        let node = choose|node: Option<usize>| writer_wakes(w, v, node);
        first_leaves(w, v, w.roles, node);
    } else if exists|t: usize, node: Option<usize>| reader_wakes(w, v, t, node) {
        let (t, node) = choose|t: usize, node: Option<usize>| reader_wakes(w, v, t, node);
        let roles = w.roles.remove(t);
        if w.state == PARKED {
            first_leaves(w, v, roles, node);
        } else {
            assert forall|x: usize| #[trigger] v.queue.contains(x) <==> v.is_queued(x) by {
                assert(w.queue.contains(x) <==> w.is_queued(x));
            }
        }
    } else {
        assert forall|x: usize| #[trigger] v.queue.contains(x) <==> v.is_queued(x) by {
            assert(w.queue.contains(x) <==> w.is_queued(x));
        }
        if v.state == PARKED {
            if w.state == PARKED {
                let u = choose|u: usize| w.is_active(u);
                assert(v.is_active(u));
            } else {
                let t = choose|t: usize| reader_leaves(w, v, t);
                assert(v.is_active(t));
            }
        }
    }
}

/// Every step of every thread keeps a world sound.
pub proof fn step_is_sound(w: World, v: World)
    requires
        sound(w),
        follows(w, v),
    ensures
        sound(v),
{
    if exists|t: usize, a: RwAttempt, b: RwAttempt, config: SpinConfig, step: RwStep|
        tries(w, v, t, a, b, config, step) {
        let (t, a, b, config, step) = choose|
            t: usize,
            a: RwAttempt,
            b: RwAttempt,
            config: SpinConfig,
            step: RwStep,
        | tries(w, v, t, a, b, config, step);
        try_is_sound(w, v, t, a, b, config, step);
    } else if exists|t: usize, a: RwAttempt| parks(w, v, t, a) {
        let (t, a) = choose|t: usize, a: RwAttempt| parks(w, v, t, a);
        park_is_sound(w, v, t, a);
    } else {
        turn_is_sound(w, v);
    }
}

/// A run of the threads: worlds, each of which follows from the one before by a step
/// of some thread, from a free lock on.
pub open spec fn is_run(run: Seq<World>) -> bool {
    &&& run.len() > 0
    &&& run[0] == (World {
        state: 0,
        writers: 0,
        readers: 0,
        queue: Seq::empty(),
        roles: Map::empty(),
    })
    &&& forall|i: int| 0 <= i < run.len() - 1 ==> #[trigger] step_at(run, i)
}

/// Some thread leads from the world at position `i` to the next.
pub open spec fn step_at(run: Seq<World>, i: int) -> bool {
    follows(run[i], run[i + 1])
}

proof fn run_is_sound(run: Seq<World>, i: int)
    requires
        is_run(run),
        0 <= i < run.len(),
    ensures
        sound(run[i]),
    decreases i,
{
    rwlock::state_fields(0);
    if i > 0 {
        run_is_sound(run, i - 1);
        assert(step_at(run, i - 1));
        step_is_sound(run[i - 1], run[i]);
    }
}

/// Writers exclude each other: however the threads take their steps, at most one of
/// them holds the lock for writing.
pub proof fn writers_exclude(run: Seq<World>, i: int)
    requires
        is_run(run),
        0 <= i < run.len(),
    ensures
        run[i].writers <= 1,
        rwlock::is_written(run[i].state) <==> run[i].writers == 1,
{
    run_is_sound(run, i);
}

/// Readers and writers exclude each other, however the threads take their steps.
pub proof fn readers_and_writers_exclude(run: Seq<World>, i: int)
    requires
        is_run(run),
        0 <= i < run.len(),
    ensures
        run[i].writers == 0 || run[i].readers == 0,
        rwlock::readers(run[i].state) == run[i].readers,
{
    run_is_sound(run, i);
}

/// No thread is left behind: whenever a thread is queued, some thread holds the lock or
/// is on its way to take it or to wake a queued thread.
pub proof fn queued_threads_are_attended(run: Seq<World>, i: int, t: usize)
    requires
        is_run(run),
        0 <= i < run.len(),
        run[i].is_queued(t),
    ensures
        run[i].writers > 0 || run[i].readers > 0 || exists|u: usize| run[i].is_active(u),
{
    run_is_sound(run, i);
    let w = run[i];
    assert(w.queue.contains(t));
    states_add_up(w.state, w.state);
}

/// First come, first served: a thread that is queued comes last, and only the one that
/// was queued first leaves the queue.
pub proof fn queue_is_fair(run: Seq<World>, i: int)
    requires
        is_run(run),
        0 <= i < run.len() - 1,
    ensures
        ({
            let before = run[i].queue;
            let after = run[i + 1].queue;
            ||| after == before
            ||| exists|t: usize| #[trigger] run[i + 1].is_queued(t) && !before.contains(t) && after == seq![t] + before
            ||| before.len() > 0 && after == before.drop_last()
        }),
{
    run_is_sound(run, i);
    let w = run[i];
    let v = run[i + 1];
    assert(step_at(run, i));
    if exists|t: usize, a: RwAttempt| parks(w, v, t, a) {
        let (t, a) = choose|t: usize, a: RwAttempt| parks(w, v, t, a);
        assert(!w.is_queued(t));
        if rwlock::is_parked(w.state) {
            assert(v.is_queued(t) && !w.queue.contains(t));
        }
    }
}

} // verus!
