//! A manual reset event that tasks wait for.
use crate::queue::Memory;
use crate::sync::parker;
use vstd::prelude::*;

verus! {

/// How far a waiting task has come.
#[derive(Clone, Copy, PartialEq, Eq, Debug, Structural)]
pub enum WaitNodeState {
    /// It does not wait.
    Reset,
    /// It waits.
    Waiting,
    /// It was notified.
    Notified,
}

/// A future-aware manual reset event. Each method is what a thread does while it
/// holds the lock of the event.
pub struct RawResetEvent {
    pub is_set: bool,
    /// The nodes of the tasks that wait, from the one that came first to the one
    /// that came last.
    pub waiting: Vec<usize>,
}

/// What came of polling a task that waits.
#[derive(Clone, Copy, PartialEq, Eq, Debug, Structural)]
pub enum EventPoll {
    Ready,
    Pending,
}

/// What comes of polling a task in this state.
pub open spec fn polled(state: WaitNodeState, is_set: bool) -> EventPoll {
    match state {
        WaitNodeState::Reset => if is_set {
            EventPoll::Ready
        } else {
            EventPoll::Pending
        },
        WaitNodeState::Waiting => EventPoll::Pending,
        WaitNodeState::Notified => EventPoll::Ready,
    }
}

/// Exactly the tasks that wait were notified.
pub open spec fn notifies(
    before: Map<usize, WaitNodeState>,
    after: Map<usize, WaitNodeState>,
    waiting: Seq<usize>,
) -> bool {
    &&& after.dom() =~= before.dom()
    &&& forall|a: usize| #[trigger]
        after[a] == (if waiting.contains(a) {
            WaitNodeState::Notified
        } else {
            before[a]
        })
}

impl RawResetEvent {
    /// Creates an event in the given state.
    pub fn new(is_set: bool) -> (event: Self)
        ensures
            event.is_set == is_set,
            event.waiting@.len() == 0,
            event.wf(Map::empty()),
            event.remembers_all(Map::empty()),
    {
        RawResetEvent { is_set, waiting: Vec::new() }
    }

    /// The tasks that wait are distinct, their nodes tell so, and none waits for an
    /// event that is set.
    pub open spec fn wf(self, nodes: Map<usize, WaitNodeState>) -> bool {
        &&& self.waiting@.no_duplicates()
        &&& self.is_set ==> self.waiting@.len() == 0
        &&& forall|i: int|
            0 <= i < self.waiting@.len() ==> nodes.contains_key(#[trigger] self.waiting@[i])
                && nodes[self.waiting@[i]] == WaitNodeState::Waiting
    }

    /// The event remembers every task whose node tells that it waits, so that the
    /// task will be notified.
    pub open spec fn remembers_all(self, nodes: Map<usize, WaitNodeState>) -> bool {
        forall|a: usize| #[trigger]
            nodes.contains_key(a) && nodes[a] == WaitNodeState::Waiting ==> self.waiting@.contains(a)
    }

    /// Resets the event. Tasks that wait for it still do, and those that were
    /// notified stay so.
    pub fn reset(&mut self)
        ensures
            !final(self).is_set,
            final(self).waiting@ == old(self).waiting@,
            forall|nodes: Map<usize, WaitNodeState>| #[trigger]
                old(self).wf(nodes) ==> final(self).wf(nodes),
            forall|nodes: Map<usize, WaitNodeState>| #[trigger]
                old(self).remembers_all(nodes) ==> final(self).remembers_all(nodes),
    {
        self.is_set = false;
    }

    /// Returns whether the event is set.
    pub fn is_set(&self) -> (set: bool)
        ensures
            set == self.is_set,
    {
        self.is_set
    }

    /// Sets the event. All tasks that wait are notified and are to be woken, the
    /// one that came first at first.
    pub fn set<M: Memory<WaitNodeState>>(&mut self, memory: &mut M) -> (woken: Vec<usize>)
        requires
            old(self).wf(old(memory).nodes()),
        ensures
            final(self).wf(final(memory).nodes()),
            old(self).remembers_all(old(memory).nodes()) ==> final(self).remembers_all(
                final(memory).nodes(),
            ),
            final(self).is_set,
            woken@ == old(self).waiting@,
            notifies(old(memory).nodes(), final(memory).nodes(), old(self).waiting@),
    {
        let ghost before = memory.nodes();
        let ghost waiting = self.waiting@;
        let mut woken: Vec<usize> = Vec::new();
        let mut i: usize = 0;
        while i < self.waiting.len()
            invariant
                self.waiting@ == waiting,
                self.is_set == old(self).is_set,
                i <= waiting.len(),
                woken@ == waiting.take(i as int),
                memory.nodes().dom() =~= before.dom(),
                forall|k: int| 0 <= k < waiting.len() ==> before.contains_key(#[trigger] waiting[k]),
                forall|a: usize| #[trigger]
                    memory.nodes()[a] == (if waiting.take(i as int).contains(a) {
                        WaitNodeState::Notified
                    } else {
                        before[a]
                    }),
            decreases waiting.len() - i,
        {
            let address = self.waiting[i];
            let ghost nodes = memory.nodes();
            memory.write(address, WaitNodeState::Notified);
            woken.push(address);
            proof {
                let n = i as int;
                let more = waiting.take(n + 1);
                assert(more =~= waiting.take(n).push(address));
                assert forall|a: usize| #[trigger] memory.nodes()[a] == (if waiting.take(n + 1).contains(
                    a,
                ) {
                    WaitNodeState::Notified
                } else {
                    before[a]
                }) by {
                    assert(waiting.take(n + 1)[n] == address);
                    if waiting.take(n).contains(a) {
                        let k = choose|k: int| 0 <= k < n && waiting.take(n)[k] == a;
                        assert(waiting.take(n + 1)[k] == a);
                    }
                    if waiting.take(n + 1).contains(a) && a != address {
                        let k = choose|k: int| 0 <= k < more.len() && more[k] == a;
                        assert(waiting.take(n)[k] == a);
                    }
                    assert(nodes[a] == (if waiting.take(n).contains(a) {
                        WaitNodeState::Notified
                    } else {
                        before[a]
                    }));
                }
            }
            i = i + 1;
        }
        assert(waiting.take(waiting.len() as int) =~= waiting);
        self.waiting.clear();
        self.is_set = true;
        woken
    }

    /// A task that is going to wait, with its node at `node`.
    pub fn wait(&self, node: usize) -> (future: RawWaitForEventFuture)
        ensures
            future == (RawWaitForEventFuture { node, terminated: false }),
    {
        RawWaitForEventFuture { node, terminated: false }
    }

    /// Polls a task that waits, with its node at `address`. A task that was
    /// notified is ready, even if the event was reset since.
    pub fn poll<M: Memory<WaitNodeState>>(&mut self, memory: &mut M, address: usize) -> (poll: EventPoll)
        requires
            old(self).wf(old(memory).nodes()),
            old(memory).nodes().contains_key(address),
        ensures
            final(self).wf(final(memory).nodes()),
            old(self).remembers_all(old(memory).nodes()) ==> final(self).remembers_all(
                final(memory).nodes(),
            ),
            final(self).is_set == old(self).is_set,
            poll == polled(old(memory).nodes()[address], old(self).is_set),
            if old(memory).nodes()[address] == WaitNodeState::Reset && !old(self).is_set {
                &&& final(self).waiting@ == old(self).waiting@.push(address)
                &&& final(memory).nodes() == old(memory).nodes().insert(
                    address,
                    WaitNodeState::Waiting,
                )
            } else {
                &&& final(self).waiting@ == old(self).waiting@
                &&& final(memory).nodes() == old(memory).nodes()
            },
    {
        let ghost waiting = self.waiting@;
        let ghost nodes = memory.nodes();
        match memory.read(address) {
            WaitNodeState::Reset => {
                if self.is_set {
                    return EventPoll::Ready;
                }
                proof {
                    assert(!waiting.contains(address)) by {
                        if waiting.contains(address) {
                            let k = choose|k: int| 0 <= k < waiting.len() && waiting[k] == address;
                            assert(nodes[waiting[k]] == WaitNodeState::Waiting);
                        }
                    }
                }
                memory.write(address, WaitNodeState::Waiting);
                self.waiting.push(address);
                proof {
                    let more = self.waiting@;
                    assert forall|k: int| 0 <= k < more.len() implies memory.nodes().contains_key(
                        #[trigger] more[k],
                    ) && memory.nodes()[more[k]] == WaitNodeState::Waiting by {
                        if k < waiting.len() {
                            assert(more[k] == waiting[k]);
                        }
                    }
                    if old(self).remembers_all(nodes) {
                        assert forall|a: usize| #[trigger] memory.nodes().contains_key(a)
                            && memory.nodes()[a] == WaitNodeState::Waiting implies more.contains(
                            a,
                        ) by {
                            if a == address {
                                assert(more[waiting.len() as int] == address);
                            } else {
                                assert(nodes.contains_key(a));
                                let k = choose|k: int| 0 <= k < waiting.len() && waiting[k] == a;
                                assert(more[k] == a);
                            }
                        }
                    }
                    assert forall|k: int| 0 <= k < waiting.len() implies #[trigger] waiting[k] != address by {
                        assert(waiting.contains(waiting[k]));
                    }
                }
                EventPoll::Pending
            },
            WaitNodeState::Waiting => EventPoll::Pending,
            WaitNodeState::Notified => EventPoll::Ready,
        }
    }

    /// Forgets a task that no longer wants to wait.
    pub fn forget<M: Memory<WaitNodeState>>(&mut self, memory: &mut M, address: usize)
        requires
            old(self).wf(old(memory).nodes()),
            old(memory).nodes().contains_key(address),
            old(memory).nodes()[address] == WaitNodeState::Waiting ==> old(self).waiting@.contains(
                address,
            ),
        ensures
            final(self).wf(final(memory).nodes()),
            old(self).remembers_all(old(memory).nodes()) ==> final(self).remembers_all(
                final(memory).nodes(),
            ),
            final(self).is_set == old(self).is_set,
            if old(memory).nodes()[address] == WaitNodeState::Waiting {
                &&& final(self).waiting@ == parker::without(old(self).waiting@, address)
                &&& final(memory).nodes() == old(memory).nodes().insert(address, WaitNodeState::Reset)
            } else {
                &&& final(self).waiting@ == old(self).waiting@
                &&& final(memory).nodes() == old(memory).nodes()
            },
    {
        let ghost waiting = self.waiting@;
        let ghost nodes = memory.nodes();
        match memory.read(address) {
            WaitNodeState::Waiting => {},
            _ => {
                return;
            },
        }
        assert(waiting.contains(address));
        let len: usize = self.waiting.len();
        let mut i: usize = 0;
        while self.waiting[i] != address
            invariant
                self.waiting@ == waiting,
                len == waiting.len(),
                self.is_set == old(self).is_set,
                waiting.contains(address),
                i < waiting.len(),
                forall|k: int| 0 <= k < i ==> #[trigger] waiting[k] != address,
            decreases waiting.len() - i,
        {
            let ghost j = choose|j: int| 0 <= j < waiting.len() && waiting[j] == address;
            assert(j > i);
            i = i + 1;
        }
        assert(waiting.index_of(address) == i);
        let _address = self.waiting.remove(i);
        memory.write(address, WaitNodeState::Reset);
        proof {
            let left = self.waiting@;
            let n = i as int;
            assert forall|k: int| 0 <= k < left.len() implies memory.nodes().contains_key(#[trigger] left[k])
                && memory.nodes()[left[k]] == WaitNodeState::Waiting by {
                let j = if k < n {
                    k
                } else {
                    k + 1
                };
                assert(left[k] == waiting[j]);
                assert(waiting[j] != waiting[n]);
            }
            if old(self).remembers_all(nodes) {
                assert forall|a: usize| #[trigger] memory.nodes().contains_key(a)
                    && memory.nodes()[a] == WaitNodeState::Waiting implies left.contains(a) by {
                    assert(nodes.contains_key(a));
                    let j = choose|j: int| 0 <= j < waiting.len() && waiting[j] == a;
                    if j < n {
                        assert(left[j] == a);
                    } else {
                        assert(left[j - 1] == a);
                    }
                }
            }
        }
    }
}

/// A task that is done once its event has been set.
#[derive(Clone, Copy, PartialEq, Eq, Debug, Structural)]
pub struct RawWaitForEventFuture {
    pub node: usize,
    /// The task found its event set and must not be polled again.
    pub terminated: bool,
}

impl RawWaitForEventFuture {
    /// Tells whether the task must not be polled again.
    pub fn is_terminated(&self) -> (terminated: bool)
        ensures
            terminated == self.terminated,
    {
        self.terminated
    }

    /// Polls the task. A task that was notified is ready, even if the event was reset
    /// since.
    pub fn poll<M: Memory<WaitNodeState>>(&mut self, event: &mut RawResetEvent, memory: &mut M) -> (poll:
        EventPoll)
        requires
            !old(self).terminated,
            old(event).wf(old(memory).nodes()),
            old(memory).nodes().contains_key(old(self).node),
        ensures
            final(event).wf(final(memory).nodes()),
            old(event).remembers_all(old(memory).nodes()) ==> final(event).remembers_all(
                final(memory).nodes(),
            ),
            poll == polled(old(memory).nodes()[old(self).node], old(event).is_set),
            final(self).node == old(self).node,
            final(self).terminated == (old(memory).nodes()[old(self).node] == WaitNodeState::Reset
                && old(event).is_set),
            final(event).is_set == old(event).is_set,
            if old(memory).nodes()[old(self).node] == WaitNodeState::Reset && !old(event).is_set {
                &&& final(event).waiting@ == old(event).waiting@.push(old(self).node)
                &&& final(memory).nodes() == old(memory).nodes().insert(
                    old(self).node,
                    WaitNodeState::Waiting,
                )
            } else {
                &&& final(event).waiting@ == old(event).waiting@
                &&& final(memory).nodes() == old(memory).nodes()
            },
    {
        let begins = memory.read(self.node) == WaitNodeState::Reset;
        let poll = event.poll(memory, self.node);
        if begins && poll == EventPoll::Ready {
            self.terminated = true;
        }
        poll
    }

    /// Ends the task. If it waits, its event forgets it.
    pub fn end<M: Memory<WaitNodeState>>(self, event: &mut RawResetEvent, memory: &mut M)
        requires
            old(event).wf(old(memory).nodes()),
            old(memory).nodes().contains_key(self.node),
            !self.terminated && old(memory).nodes()[self.node] == WaitNodeState::Waiting ==> old(
                event,
            ).waiting@.contains(self.node),
        ensures
            final(event).wf(final(memory).nodes()),
            final(event).is_set == old(event).is_set,
            if !self.terminated && old(memory).nodes()[self.node] == WaitNodeState::Waiting {
                &&& final(event).waiting@ == parker::without(old(event).waiting@, self.node)
                &&& final(memory).nodes() == old(memory).nodes().insert(
                    self.node,
                    WaitNodeState::Reset,
                )
            } else {
                &&& final(event).waiting@ == old(event).waiting@
                &&& final(memory).nodes() == old(memory).nodes()
            },
    {
        if !self.terminated {
            event.forget(memory, self.node);
        }
    }
}

/// An event, the tasks that wait for it in the order in which they came, and the nodes
/// of all tasks.
pub struct World {
    pub is_set: bool,
    pub waiting: Seq<usize>,
    pub nodes: Map<usize, WaitNodeState>,
}

/// There is a new task.
pub open spec fn task_begins(w: World, v: World, a: usize) -> bool {
    &&& !w.nodes.contains_key(a)
    &&& v == (World { nodes: w.nodes.insert(a, WaitNodeState::Reset), ..w })
}

/// The event is set.
pub open spec fn is_made_set(w: World, v: World) -> bool {
    &&& v.is_set
    &&& v.waiting == Seq::<usize>::empty()
    &&& notifies(w.nodes, v.nodes, w.waiting)
}

/// The event is reset.
pub open spec fn is_made_unset(w: World, v: World) -> bool {
    v == (World { is_set: false, ..w })
}

/// A task is polled.
pub open spec fn task_is_polled(w: World, v: World, a: usize) -> bool {
    &&& w.nodes.contains_key(a)
    &&& v == if w.nodes[a] == WaitNodeState::Reset && !w.is_set {
        World {
            waiting: w.waiting.push(a),
            nodes: w.nodes.insert(a, WaitNodeState::Waiting),
            ..w
        }
    } else {
        w
    }
}

/// A task ends.
pub open spec fn task_ends(w: World, v: World, a: usize) -> bool {
    &&& w.nodes.contains_key(a)
    &&& v == if w.nodes[a] == WaitNodeState::Waiting {
        World {
            waiting: parker::without(w.waiting, a),
            nodes: w.nodes.insert(a, WaitNodeState::Reset),
            ..w
        }
    } else {
        w
    }
}

/// Some thread or task leads from `w` to `v`.
pub open spec fn follows(w: World, v: World) -> bool {
    ||| exists|a: usize| task_begins(w, v, a)
    ||| is_made_set(w, v)
    ||| is_made_unset(w, v)
    ||| exists|a: usize| task_is_polled(w, v, a)
    ||| exists|a: usize| task_ends(w, v, a)
}

/// A run: worlds, each of which follows from the one before, from an event on for which
/// no task waits.
pub open spec fn is_run(run: Seq<World>) -> bool {
    &&& run.len() > 0
    &&& run[0].waiting == Seq::<usize>::empty()
    &&& run[0].nodes == Map::<usize, WaitNodeState>::empty()
    &&& forall|i: int| 0 <= i < run.len() - 1 ==> #[trigger] step_at(run, i)
}

/// The world at position `i` leads to the next.
pub open spec fn step_at(run: Seq<World>, i: int) -> bool {
    follows(run[i], run[i + 1])
}

/// Exactly the tasks wait whose nodes tell so, each once, and none for an event that is
/// set.
pub open spec fn sound(w: World) -> bool {
    &&& w.waiting.no_duplicates()
    &&& w.is_set ==> w.waiting.len() == 0
    &&& forall|a: usize| #[trigger]
        w.waiting.contains(a) <==> w.nodes.contains_key(a) && w.nodes[a] == WaitNodeState::Waiting
}

/// Every step keeps a world sound, and no task that was notified forgets it.
proof fn step_is_sound(w: World, v: World)
    requires
        sound(w),
        follows(w, v),
    ensures
        sound(v),
        forall|a: usize| #[trigger]
            w.nodes.contains_key(a) && w.nodes[a] == WaitNodeState::Notified ==> v.nodes.contains_key(a)
                && v.nodes[a] == WaitNodeState::Notified,
{
    if exists|a: usize| task_is_polled(w, v, a) {
        let a = choose|a: usize| task_is_polled(w, v, a);
        assert(!w.waiting.contains(a) <==> w.nodes[a] != WaitNodeState::Waiting);
        assert forall|b: usize| #[trigger] v.waiting.contains(b) <==> v.nodes.contains_key(b) && v.nodes[b]
            == WaitNodeState::Waiting by {
            assert(w.waiting.contains(b) <==> w.nodes.contains_key(b) && w.nodes[b]
                == WaitNodeState::Waiting);
            if v != w {
                assert(v.waiting[w.waiting.len() as int] == a);
                if w.waiting.contains(b) {
                    let i = choose|i: int| 0 <= i < w.waiting.len() && w.waiting[i] == b;
                    assert(v.waiting[i] == b);
                }
            }
        }
        if v != w {
            assert forall|i: int| 0 <= i < w.waiting.len() implies #[trigger] w.waiting[i] != a by {
                assert(w.waiting.contains(w.waiting[i]));
            }
        }
    } else if exists|a: usize| task_ends(w, v, a) {
        let a = choose|a: usize| task_ends(w, v, a);
        if w.nodes[a] == WaitNodeState::Waiting {
            assert(w.waiting.contains(a));
            let k = w.waiting.index_of(a);
            assert forall|b: usize| #[trigger] v.waiting.contains(b) <==> v.nodes.contains_key(b)
                && v.nodes[b] == WaitNodeState::Waiting by {
                assert(w.waiting.contains(b) <==> w.nodes.contains_key(b) && w.nodes[b]
                    == WaitNodeState::Waiting);
                if w.waiting.contains(b) && b != a {
                    let i = choose|i: int| 0 <= i < w.waiting.len() && w.waiting[i] == b;
                    assert(v.waiting[if i < k {
                        i
                    } else {
                        i - 1
                    }] == b);
                }
                if v.waiting.contains(b) {
                    let i = choose|i: int| 0 <= i < v.waiting.len() && v.waiting[i] == b;
                    let j = if i < k {
                        i
                    } else {
                        i + 1
                    };
                    assert(w.waiting[j] == b && w.waiting[j] != w.waiting[k]);
                    assert(w.waiting.contains(b));
                }
            }
        }
    } else if is_made_set(w, v) {
        assert forall|b: usize| #[trigger] v.waiting.contains(b) <==> v.nodes.contains_key(b) && v.nodes[b]
            == WaitNodeState::Waiting by {
            assert(w.waiting.contains(b) <==> w.nodes.contains_key(b) && w.nodes[b]
                == WaitNodeState::Waiting);
        }
        assert forall|a: usize| #[trigger]
            w.nodes.contains_key(a) && w.nodes[a] == WaitNodeState::Notified implies v.nodes.contains_key(a)
            && v.nodes[a] == WaitNodeState::Notified by {
            assert(w.waiting.contains(a) <==> w.nodes[a] == WaitNodeState::Waiting);
        }
    } else {
        assert forall|b: usize| #[trigger] v.waiting.contains(b) <==> v.nodes.contains_key(b) && v.nodes[b]
            == WaitNodeState::Waiting by {
            assert(w.waiting.contains(b) <==> w.nodes.contains_key(b) && w.nodes[b]
                == WaitNodeState::Waiting);
        }
    }
}

proof fn run_is_sound(run: Seq<World>, i: int)
    requires
        is_run(run),
        0 <= i < run.len(),
    ensures
        sound(run[i]),
    decreases i,
{
    if i > 0 {
        run_is_sound(run, i - 1);
        assert(step_at(run, i - 1));
        step_is_sound(run[i - 1], run[i]);
    }
}

proof fn notified_stays(run: Seq<World>, i: int, k: int, a: usize)
    requires
        is_run(run),
        0 <= i <= k < run.len(),
        run[i].nodes.contains_key(a),
        run[i].nodes[a] == WaitNodeState::Notified,
    ensures
        run[k].nodes.contains_key(a),
        run[k].nodes[a] == WaitNodeState::Notified,
    decreases k,
{
    if i < k {
        notified_stays(run, i, k - 1, a);
        run_is_sound(run, k - 1);
        assert(step_at(run, k - 1));
        step_is_sound(run[k - 1], run[k]);
    }
}

/// Setting the event releases every task that is pending: each of them is ready when it
/// is next polled, even if the event was reset since.
pub proof fn set_releases_all(run: Seq<World>, i: int, k: int, a: usize)
    requires
        is_run(run),
        0 <= i < k < run.len(),
        run[i].nodes.contains_key(a),
        run[i].nodes[a] == WaitNodeState::Waiting,
        is_made_set(run[i], run[i + 1]),
    ensures
        polled(run[k].nodes[a], run[k].is_set) == EventPoll::Ready,
{
    run_is_sound(run, i);
    assert(run[i].waiting.contains(a));
    notified_stays(run, i + 1, k, a);
}

/// No task is forgotten: a task that is pending is one that the event will notify when
/// it is set, and the event is not set.
pub proof fn pending_tasks_are_known(run: Seq<World>, i: int, a: usize)
    requires
        is_run(run),
        0 <= i < run.len(),
        run[i].nodes.contains_key(a),
        run[i].nodes[a] == WaitNodeState::Waiting,
    ensures
        !run[i].is_set,
        run[i].waiting.contains(a),
{
    run_is_sound(run, i);
    assert(run[i].waiting.contains(a));
}

} // verus!
