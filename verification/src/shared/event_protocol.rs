//! What many threads do with one [`WordEvent`](super::event::WordEvent).
//!
//! A world is the word of an event, the nodes, and what each thread is about.
//! Threads take their steps in any order. Once the event is set, every thread
//! that is blocked is one that some thread is about to wake.
use super::event;
use super::event::{EventStep, EventWait, IS_SET, WAIT_NODE_INIT};
use crate::queue;
use crate::queue::Node;
use vstd::prelude::*;

verus! {

/// What a thread is about.
pub enum Role {
    /// It does not use the event.
    Idle,
    /// It is going to wait.
    Trying(EventWait),
    /// It is blocked.
    Blocked(EventWait),
    /// It has set the event and wakes the threads of these nodes, in order.
    Waking(Seq<usize>),
}

/// The word of an event, the nodes, and the threads with the addresses of their
/// nodes.
pub struct World {
    pub word: usize,
    pub nodes: Map<usize, Node>,
    pub roles: Map<int, Role>,
    pub homes: Map<int, usize>,
}

impl World {
    /// The nodes in the queue, from the newest to the oldest.
    pub open spec fn queue(self) -> Seq<usize> {
        queue::waiters(self.nodes, event::head_of(self.word))
    }

    /// The thread is one of this world.
    pub open spec fn has(self, t: int) -> bool {
        self.roles.contains_key(t)
    }

    /// The thread is blocked.
    pub open spec fn waits(self, t: int) -> bool {
        self.has(t) && self.roles[t] is Blocked
    }

    /// The thread is about to wake the thread of the node.
    pub open spec fn wakes(self, t: int, node: usize) -> bool {
        self.has(t) && (self.roles[t] matches Role::Waking(list) && list.contains(node))
    }
}

/// A thread finds that the event is not set and makes its node ready.
pub open spec fn begins(w: World, v: World, t: int) -> bool {
    &&& w.roles[t] is Idle
    &&& w.word != IS_SET
    &&& v.word == w.word
    &&& v.nodes == w.nodes.insert(
        w.homes[t],
        Node { prev: 0, flags: WAIT_NODE_INIT, ..w.nodes[w.homes[t]] },
    )
    &&& v.roles == w.roles.insert(
        t,
        Role::Trying(EventWait { state: None, node: w.homes[t] }),
    )
}

/// A thread takes a step towards waiting.
pub open spec fn tries(w: World, v: World, t: int, a: EventWait, b: EventWait, step: EventStep) -> bool {
    &&& w.roles[t] == Role::Trying(a)
    &&& event::wait_steps(a, b, w.word, v.word, w.nodes, v.nodes, step)
    &&& v.roles == w.roles.insert(
        t,
        match step {
            EventStep::IsSet => Role::Idle,
            EventStep::Continue => Role::Trying(b),
            EventStep::Wait => Role::Blocked(b),
        },
    )
}

/// A thread sets the event.
pub open spec fn sets(w: World, v: World, t: int) -> bool {
    &&& w.roles[t] is Idle
    &&& v.word == IS_SET
    &&& event::head_of(w.word) == 0 ==> v.nodes == w.nodes
    &&& event::head_of(w.word) != 0 ==> queue::relinked(w.nodes, v.nodes, w.queue())
    &&& v.roles == w.roles.insert(t, Role::Waking(w.queue().reverse()))
}

/// A thread wakes another, which leaves or looks at the word again.
pub open spec fn wakes_next(w: World, v: World, t: int, u: int) -> bool {
    &&& v.word == w.word
    &&& w.waits(u)
    &&& w.roles[t] matches Role::Waking(list) && list.len() > 0 && w.homes[u] == list[0] && {
        ||| v.nodes == w.nodes && v.roles == w.roles.insert(t, Role::Waking(list.drop_first())).insert(
            u,
            Role::Idle,
        )
        ||| v.nodes == w.nodes.insert(w.homes[u], Node { prev: 0, ..w.nodes[w.homes[u]] }) && v.roles
            == w.roles.insert(t, Role::Waking(list.drop_first())).insert(
            u,
            Role::Trying(EventWait { state: None, node: w.homes[u] }),
        )
    }
}

/// A thread has woken all others.
pub open spec fn ends(w: World, v: World, t: int) -> bool {
    &&& v.word == w.word
    &&& v.nodes == w.nodes
    &&& w.roles[t] matches Role::Waking(list) && list.len() == 0
    &&& v.roles == w.roles.insert(t, Role::Idle)
}

/// A thread resets the event, which changes nothing where it is not set.
pub open spec fn resets(w: World, v: World, t: int) -> bool {
    &&& w.roles[t] is Idle
    &&& v.word == (if w.word == IS_SET {
        0
    } else {
        w.word
    })
    &&& v.nodes == w.nodes
    &&& v.roles == w.roles
}

/// One step of the thread `t`.
pub open spec fn world_steps(w: World, v: World, t: int) -> bool {
    &&& w.has(t)
    &&& v.homes == w.homes
    &&& {
        ||| begins(w, v, t)
        ||| exists|a: EventWait, b: EventWait, step: EventStep| tries(w, v, t, a, b, step)
        ||| sets(w, v, t)
        ||| exists|u: int| wakes_next(w, v, t, u)
        ||| ends(w, v, t)
        ||| resets(w, v, t)
    }
}

/// Each thread has a node of its own.
pub open spec fn housed(w: World) -> bool {
    &&& w.homes.dom() == w.roles.dom()
    &&& forall|t: int| #[trigger]
        w.has(t) ==> event::is_address(w.homes[t]) && w.nodes.contains_key(w.homes[t])
    &&& forall|t: int, u: int| #[trigger]
        w.has(t) && #[trigger] w.has(u) && w.homes[t] == w.homes[u] ==> t == u
}

/// The word is the flag alone or leads to a queue of blocked threads.
pub open spec fn queue_waits(w: World) -> bool {
    &&& w.word == IS_SET || w.word & IS_SET == 0
    &&& queue::is_queue(w.nodes, event::head_of(w.word), w.queue())
    &&& forall|a: usize| #[trigger]
        w.queue().contains(a) ==> exists|t: int| #[trigger] w.waits(t) && w.homes[t] == a
}

/// The threads that are about to be woken are blocked, and no two threads wake
/// the same one.
pub open spec fn lists_wait(w: World) -> bool {
    &&& forall|t: int, a: usize| #[trigger]
        w.wakes(t, a) ==> !w.queue().contains(a) && exists|u: int| #[trigger]
            w.waits(u) && w.homes[u] == a
    &&& forall|t: int, s: int, a: usize| #[trigger]
        w.wakes(t, a) && #[trigger] w.wakes(s, a) ==> t == s
    &&& forall|t: int| #[trigger]
        w.has(t) ==> (w.roles[t] matches Role::Waking(list) ==> list.no_duplicates())
}

/// A blocked thread is in the queue or about to be woken.
pub open spec fn attended(w: World) -> bool {
    forall|u: int| #[trigger]
        w.waits(u) ==> w.queue().contains(w.homes[u]) || exists|t: int| w.wakes(t, w.homes[u])
}

/// What a thread that is going to wait may rely on.
pub open spec fn informed(w: World) -> bool {
    forall|t: int| #[trigger]
        w.has(t) ==> match w.roles[t] {
            Role::Trying(a) => {
                &&& a.node == w.homes[t]
                &&& w.nodes[a.node].prev == 0
            },
            Role::Blocked(a) => a.node == w.homes[t],
            _ => true,
        }
}

/// All of it together.
pub open spec fn sound(w: World) -> bool {
    &&& housed(w)
    &&& queue_waits(w)
    &&& lists_wait(w)
    &&& attended(w)
    &&& informed(w)
}

/// An event that nobody has touched yet.
pub open spec fn starts(w: World) -> bool {
    &&& w.word == 0
    &&& housed(w)
    &&& forall|t: int| #[trigger] w.has(t) ==> w.roles[t] is Idle
}

/// A node of a thread that is not blocked is in no queue and on no list.
proof fn not_queued(w: World, t: int)
    requires
        sound(w),
        w.has(t),
        !w.waits(t),
    ensures
        !w.queue().contains(w.homes[t]),
        forall|s: int| !w.wakes(s, w.homes[t]),
{
    if w.queue().contains(w.homes[t]) {
        let u = choose|u: int| #[trigger] w.waits(u) && w.homes[u] == w.homes[t];
        assert(w.has(u) && w.has(t));
    }
    assert forall|s: int| !w.wakes(s, w.homes[t]) by {
        if w.wakes(s, w.homes[t]) {
            let u = choose|u: int| #[trigger] w.waits(u) && w.homes[u] == w.homes[t];
            assert(w.has(u) && w.has(t));
        }
    }
}

/// A thread that is not blocked takes a step that blocks and wakes nobody.
proof fn plain_step_is_sound(w: World, v: World, t: int)
    requires
        sound(w),
        w.has(t),
        v.homes == w.homes,
        !w.waits(t),
        w.roles[t] is Idle || w.roles[t] is Trying || (w.roles[t] matches Role::Waking(list)
            && list.len() == 0),
        v.roles == w.roles.insert(t, v.roles[t]),
        v.roles[t] is Idle || (v.roles[t] matches Role::Trying(a) && a.node == w.homes[t]
            && v.nodes[a.node].prev == 0),
        v.nodes.dom() =~= w.nodes.dom(),
        forall|a: usize| a != w.homes[t] ==> #[trigger] v.nodes[a] == w.nodes[a],
        v.word == w.word || event::head_of(w.word) == 0 && v.word == 0,
    ensures
        sound(v),
        v.queue() == w.queue(),
{
    event::event_fields(w.word);
    assert(v.roles.dom() =~= w.roles.dom());
    assert forall|u: int| #[trigger] v.has(u) == w.has(u) by {}
    assert forall|u: int| u != t implies #[trigger] v.roles[u] == w.roles[u] by {}
    assert forall|u: int| #[trigger] v.waits(u) == w.waits(u) by {
        assert(v.has(u) == w.has(u));
    }
    not_queued(w, t);
    assert(event::head_of(v.word) == event::head_of(w.word));
    queue::queue_is_framed(w.nodes, v.nodes, event::head_of(w.word), w.queue());
    queue::waiters_of(v.nodes, event::head_of(v.word), w.queue());
    assert forall|s: int, a: usize| #[trigger] v.wakes(s, a) == w.wakes(s, a) by {
        assert(v.has(s) == w.has(s));
    }
    assert forall|a: usize| #[trigger] v.queue().contains(a) implies exists|u: int| #[trigger]
        v.waits(u) && v.homes[u] == a by {
        let u = choose|u: int| #[trigger] w.waits(u) && w.homes[u] == a;
        assert(v.waits(u));
    }
    assert forall|s: int, a: usize| #[trigger] v.wakes(s, a) implies !v.queue().contains(a)
        && exists|u: int| #[trigger] v.waits(u) && v.homes[u] == a by {
        assert(w.wakes(s, a));
        let u = choose|u: int| #[trigger] w.waits(u) && w.homes[u] == a;
        assert(v.waits(u));
    }
    assert forall|s: int| #[trigger] v.has(s) implies (v.roles[s] matches Role::Waking(list)
        ==> list.no_duplicates()) by {
        assert(w.has(s));
    }
    assert forall|u: int| #[trigger] v.waits(u) implies v.queue().contains(v.homes[u]) || exists|s: int|
        v.wakes(s, v.homes[u]) by {
        assert(w.waits(u));
        if !w.queue().contains(w.homes[u]) {
            let s = choose|s: int| w.wakes(s, w.homes[u]);
            assert(v.wakes(s, v.homes[u]));
        }
    }
    assert forall|u: int| #[trigger] v.has(u) implies match v.roles[u] {
        Role::Trying(a) => a.node == v.homes[u] && v.nodes[a.node].prev == 0,
        Role::Blocked(a) => a.node == v.homes[u],
        _ => true,
    } by {
        assert(w.has(u) && w.has(t));
    }
}

/// A thread puts its node in front of the queue and blocks.
proof fn block_is_sound(w: World, v: World, t: int, a: EventWait, b: EventWait)
    requires
        sound(w),
        w.has(t),
        v.homes == w.homes,
        tries(w, v, t, a, b, EventStep::Wait),
    ensures
        sound(v),
        v.queue() == seq![w.homes[t]] + w.queue(),
{
    let home = w.homes[t];
    let queue = w.queue();
    let longer = seq![home] + queue;
    event::event_fields(w.word);
    event::event_fields(home);
    not_queued(w, t);
    assert(v.roles.dom() =~= w.roles.dom());
    assert forall|u: int| #[trigger] v.has(u) == w.has(u) by {}
    assert forall|u: int| u != t implies #[trigger] v.roles[u] == w.roles[u] by {}
    assert forall|u: int| u != t implies #[trigger] v.waits(u) == w.waits(u) by {
        assert(v.has(u) == w.has(u));
    }
    assert(v.waits(t));
    queue::push_extends(w.nodes, event::head_of(w.word), queue, home);
    queue::waiters_of(v.nodes, home, longer);
    assert(v.queue() == longer);
    assert(v.nodes.dom() =~= w.nodes.dom());
    assert forall|x: usize| #[trigger] longer.contains(x) implies x == home || queue.contains(x) by {
        let i = choose|i: int| 0 <= i < longer.len() && longer[i] == x;
        if i > 0 {
            assert(queue[i - 1] == x);
        }
    }
    assert(longer[0] == home);
    assert forall|x: usize| #[trigger] queue.contains(x) implies longer.contains(x) by {
        let i = choose|i: int| 0 <= i < queue.len() && queue[i] == x;
        assert(longer[i + 1] == x);
    }
    assert forall|s: int, x: usize| #[trigger] v.wakes(s, x) == w.wakes(s, x) by {
        assert(v.has(s) == w.has(s));
    }
    assert forall|x: usize| #[trigger] v.queue().contains(x) implies exists|u: int| #[trigger]
        v.waits(u) && v.homes[u] == x by {
        if x == home {
            assert(v.waits(t));
        } else {
            assert(queue.contains(x));
            let u = choose|u: int| #[trigger] w.waits(u) && w.homes[u] == x;
            assert(v.waits(u));
        }
    }
    assert forall|s: int, x: usize| #[trigger] v.wakes(s, x) implies !v.queue().contains(x)
        && exists|u: int| #[trigger] v.waits(u) && v.homes[u] == x by {
        assert(w.wakes(s, x));
        let u = choose|u: int| #[trigger] w.waits(u) && w.homes[u] == x;
        assert(v.waits(u));
        assert(!w.wakes(s, home));
    }
    assert forall|s: int| #[trigger] v.has(s) implies (v.roles[s] matches Role::Waking(list)
        ==> list.no_duplicates()) by {
        assert(w.has(s));
    }
    assert forall|u: int| #[trigger] v.waits(u) implies v.queue().contains(v.homes[u]) || exists|s: int|
        v.wakes(s, v.homes[u]) by {
        if u == t {
            assert(longer.contains(home));
        } else {
            assert(w.waits(u));
            if !w.queue().contains(w.homes[u]) {
                let s = choose|s: int| w.wakes(s, w.homes[u]);
                assert(v.wakes(s, v.homes[u]));
            }
        }
    }
    assert forall|u: int| #[trigger] v.has(u) implies match v.roles[u] {
        Role::Trying(a) => a.node == v.homes[u] && v.nodes[a.node].prev == 0,
        Role::Blocked(a) => a.node == v.homes[u],
        _ => true,
    } by {
        assert(w.has(u) && w.has(t));
    }
}

/// A thread sets the event and with that takes over the whole queue.
proof fn set_is_sound(w: World, v: World, t: int)
    requires
        sound(w),
        w.has(t),
        v.homes == w.homes,
        sets(w, v, t),
    ensures
        sound(v),
        v.queue() == Seq::<usize>::empty(),
{
    let queue = w.queue();
    let list = queue.reverse();
    event::event_fields(w.word);
    event::event_fields(v.word);
    assert(v.roles.dom() =~= w.roles.dom());
    assert forall|u: int| #[trigger] v.has(u) == w.has(u) by {}
    assert forall|u: int| u != t implies #[trigger] v.roles[u] == w.roles[u] by {}
    assert forall|u: int| #[trigger] v.waits(u) == w.waits(u) by {
        assert(v.has(u) == w.has(u));
    }
    assert(queue::is_queue(v.nodes, 0, Seq::<usize>::empty()));
    queue::waiters_of(v.nodes, 0, Seq::<usize>::empty());
    assert forall|x: usize| #[trigger] list.contains(x) == queue.contains(x) by {
        if queue.contains(x) {
            let i = choose|i: int| 0 <= i < queue.len() && queue[i] == x;
            assert(list[queue.len() - 1 - i] == x);
        }
        if list.contains(x) {
            let i = choose|i: int| 0 <= i < list.len() && list[i] == x;
            assert(queue[queue.len() - 1 - i] == x);
        }
    }
    assert(list.no_duplicates()) by {
        assert(queue::proper(w.nodes, queue) || queue.len() == 0);
        assert forall|i: int, j: int| 0 <= i < list.len() && 0 <= j < list.len() && i != j implies list[i]
            != list[j] by {
            assert(queue[queue.len() - 1 - i] != queue[queue.len() - 1 - j]);
        }
    }
    assert forall|s: int, x: usize| s != t implies #[trigger] v.wakes(s, x) == w.wakes(s, x) by {
        assert(v.has(s) == w.has(s));
    }
    assert forall|x: usize| #[trigger] v.wakes(t, x) == queue.contains(x) by {
        assert(v.has(t));
        assert(list.contains(x) == queue.contains(x));
    }
    assert forall|s: int, x: usize| #[trigger] v.wakes(s, x) implies !v.queue().contains(x)
        && exists|u: int| #[trigger] v.waits(u) && v.homes[u] == x by {
        if s != t {
            assert(w.wakes(s, x));
        } else {
            assert(queue.contains(x));
        }
        let u = choose|u: int| #[trigger] w.waits(u) && w.homes[u] == x;
        assert(v.waits(u));
    }
    assert forall|s: int, r: int, x: usize| #[trigger] v.wakes(s, x) && #[trigger] v.wakes(r, x) implies s
        == r by {
        if s != t {
            assert(w.wakes(s, x));
        }
        if r != t {
            assert(w.wakes(r, x));
        }
    }
    assert forall|s: int| #[trigger] v.has(s) implies (v.roles[s] matches Role::Waking(list)
        ==> list.no_duplicates()) by {
        assert(w.has(s));
    }
    assert forall|u: int| #[trigger] v.waits(u) implies v.queue().contains(v.homes[u]) || exists|s: int|
        v.wakes(s, v.homes[u]) by {
        assert(w.waits(u));
        if w.queue().contains(w.homes[u]) {
            assert(v.wakes(t, v.homes[u]));
        } else {
            let s = choose|s: int| w.wakes(s, w.homes[u]);
            assert(s != t);
            assert(v.wakes(s, v.homes[u]));
        }
    }
    assert forall|u: int| #[trigger] v.has(u) implies match v.roles[u] {
        Role::Trying(a) => a.node == v.homes[u] && v.nodes[a.node].prev == 0,
        Role::Blocked(a) => a.node == v.homes[u],
        _ => true,
    } by {
        assert(w.has(u));
        if u != t && !w.waits(u) {
            not_queued(w, u);
        }
    }
}

/// A thread wakes the next one on its list.
proof fn wake_is_sound(w: World, v: World, t: int, u: int)
    requires
        sound(w),
        w.has(t),
        v.homes == w.homes,
        wakes_next(w, v, t, u),
    ensures
        sound(v),
        v.queue() == w.queue(),
{
    let list = w.roles[t]->Waking_0;
    let rest = list.drop_first();
    let home = w.homes[u];
    assert(u != t);
    assert(w.has(u));
    assert(v.roles.dom() =~= w.roles.dom());
    assert forall|x: int| #[trigger] v.has(x) == w.has(x) by {}
    assert forall|x: int| x != t && x != u implies #[trigger] v.roles[x] == w.roles[x] by {}
    assert(v.roles[t] == Role::Waking(rest));
    assert(list.contains(list[0]));
    assert(w.wakes(t, home));
    assert(v.nodes.dom() =~= w.nodes.dom());
    queue::queue_is_framed(w.nodes, v.nodes, event::head_of(w.word), w.queue());
    queue::waiters_of(v.nodes, event::head_of(v.word), w.queue());
    assert forall|x: int| x != u implies #[trigger] v.waits(x) == w.waits(x) by {
        assert(v.has(x) == w.has(x));
    }
    assert forall|a: usize| #[trigger] rest.contains(a) == (list.contains(a) && a != home) by {
        if rest.contains(a) {
            let i = choose|i: int| 0 <= i < rest.len() && rest[i] == a;
            assert(list[i + 1] == a);
            assert(list[i + 1] != list[0]);
        }
        if list.contains(a) && a != home {
            let i = choose|i: int| 0 <= i < list.len() && list[i] == a;
            assert(rest[i - 1] == a);
        }
    }
    assert(rest.no_duplicates());
    assert forall|s: int, a: usize| #[trigger] v.wakes(s, a) == (w.wakes(s, a) && a != home) by {
        assert(v.has(s) == w.has(s));
        if s == t {
            assert(rest.contains(a) == (list.contains(a) && a != home));
        } else if w.wakes(s, a) && a == home {
            assert(w.wakes(t, a));
        }
    }
    assert forall|a: usize| #[trigger] v.queue().contains(a) implies exists|x: int| #[trigger]
        v.waits(x) && v.homes[x] == a by {
        let x = choose|x: int| #[trigger] w.waits(x) && w.homes[x] == a;
        assert(x != u);
        assert(v.waits(x));
    }
    assert forall|s: int, a: usize| #[trigger] v.wakes(s, a) implies !v.queue().contains(a)
        && exists|x: int| #[trigger] v.waits(x) && v.homes[x] == a by {
        assert(w.wakes(s, a));
        let x = choose|x: int| #[trigger] w.waits(x) && w.homes[x] == a;
        assert(x != u);
        assert(v.waits(x));
    }
    assert forall|s: int, r: int, a: usize| #[trigger] v.wakes(s, a) && #[trigger] v.wakes(r, a) implies s
        == r by {
        assert(w.wakes(s, a) && w.wakes(r, a));
    }
    assert forall|s: int| #[trigger] v.has(s) implies (v.roles[s] matches Role::Waking(list)
        ==> list.no_duplicates()) by {
        assert(w.has(s));
    }
    assert forall|x: int| #[trigger] v.waits(x) implies v.queue().contains(v.homes[x]) || exists|s: int|
        v.wakes(s, v.homes[x]) by {
        assert(x != u && w.waits(x));
        assert(w.has(x) && w.has(u));
        if !w.queue().contains(w.homes[x]) {
            let s = choose|s: int| w.wakes(s, w.homes[x]);
            assert(v.wakes(s, v.homes[x]));
        }
    }
    assert forall|x: int| #[trigger] v.has(x) implies match v.roles[x] {
        Role::Trying(a) => a.node == v.homes[x] && v.nodes[a.node].prev == 0,
        Role::Blocked(a) => a.node == v.homes[x],
        _ => true,
    } by {
        assert(w.has(x) && w.has(u));
    }
}

/// Every step of every thread keeps a world sound.
pub proof fn step_is_sound(w: World, v: World, t: int)
    requires
        sound(w),
        world_steps(w, v, t),
    ensures
        sound(v),
{
    event::event_fields(w.word);
    if sets(w, v, t) {
        set_is_sound(w, v, t);
    } else if exists|u: int| wakes_next(w, v, t, u) {
        let u = choose|u: int| wakes_next(w, v, t, u);
        wake_is_sound(w, v, t, u);
    } else if exists|a: EventWait, b: EventWait, step: EventStep| tries(w, v, t, a, b, step) {
        let (a, b, step) = choose|a: EventWait, b: EventWait, step: EventStep| tries(w, v, t, a, b, step);
        if step is Wait {
            block_is_sound(w, v, t, a, b);
        } else {
            assert(v.roles =~= w.roles.insert(t, v.roles[t]));
            assert(w.has(t));
            plain_step_is_sound(w, v, t);
        }
    } else {
        assert(v.roles =~= w.roles.insert(t, v.roles[t]));
        plain_step_is_sound(w, v, t);
    }
}

/// An event that nobody has touched is sound.
pub proof fn start_is_sound(w: World)
    requires
        starts(w),
    ensures
        sound(w),
{
    event::event_fields(0);
    assert(queue::is_queue(w.nodes, 0, Seq::<usize>::empty()));
    queue::waiters_of(w.nodes, 0, Seq::<usize>::empty());
    assert forall|t: int| #[trigger] w.waits(t) implies false by {
        assert(w.has(t));
    }
    assert forall|t: int, a: usize| #[trigger] w.wakes(t, a) implies false by {
        assert(w.has(t));
    }
}

/// A run of the threads: worlds, each of which follows from the one before by
/// a step of some thread.
pub open spec fn is_run(run: Seq<World>) -> bool {
    &&& run.len() > 0
    &&& starts(run[0])
    &&& forall|i: int| 0 <= i < run.len() - 1 ==> #[trigger] step_at(run, i)
}

/// Some thread leads from the world at position `i` to the next.
pub open spec fn step_at(run: Seq<World>, i: int) -> bool {
    follows(run[i], run[i + 1])
}

/// Some thread leads from `w` to `v`.
pub open spec fn follows(w: World, v: World) -> bool {
    exists|t: int| world_steps(w, v, t)
}

proof fn run_is_sound(run: Seq<World>, i: int)
    requires
        is_run(run),
        0 <= i < run.len(),
    ensures
        sound(run[i]),
    decreases i,
{
    if i == 0 {
        start_is_sound(run[0]);
    } else {
        run_is_sound(run, i - 1);
        assert(step_at(run, i - 1));
        let w = run[i - 1];
        let v = run[i];
        let t = choose|t: int| world_steps(w, v, t);
        step_is_sound(w, v, t);
    }
}

/// Setting the event wakes everybody: while the event is set, each thread that is
/// still blocked is one that some thread is about to wake.
pub proof fn set_wakes_all(run: Seq<World>, i: int, u: int)
    requires
        is_run(run),
        0 <= i < run.len(),
        run[i].word == IS_SET,
        run[i].waits(u),
    ensures
        exists|t: int| run[i].wakes(t, run[i].homes[u]),
{
    run_is_sound(run, i);
    event::event_fields(IS_SET);
}

/// No thread is forgotten: a blocked thread is in the queue of the event or some
/// thread is about to wake it.
pub proof fn blocked_threads_are_known(run: Seq<World>, i: int, u: int)
    requires
        is_run(run),
        0 <= i < run.len(),
        run[i].waits(u),
    ensures
        run[i].queue().contains(run[i].homes[u]) || exists|t: int|
            run[i].wakes(t, run[i].homes[u]),
{
    run_is_sound(run, i);
}

/// No thread is woken by two others.
pub proof fn threads_are_woken_once(run: Seq<World>, i: int, t: int, s: int, node: usize)
    requires
        is_run(run),
        0 <= i < run.len(),
        run[i].wakes(t, node),
        run[i].wakes(s, node),
    ensures
        t == s,
{
    run_is_sound(run, i);
}

} // verus!
