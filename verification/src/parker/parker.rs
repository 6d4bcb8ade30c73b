//! A parking lot for tasks.
use super::lock::Lock;
use crate::queue::Memory;
use crate::sync::parker;
use vstd::prelude::*;

verus! {

/// What came of parking. The tokens are those that the task has at the end.
#[derive(Clone, Copy, PartialEq, Eq, Hash, Debug, Structural)]
pub enum ParkResult {
    /// The task was not to park.
    Unprepared,
    Unparked(usize),
    Cancelled(usize),
}

/// What is to be done with a parked task.
#[derive(Clone, Copy, PartialEq, Eq, Hash, Debug, Structural)]
pub enum UnparkResult {
    /// It stays parked and no other task is looked at.
    Stop,
    /// It stays parked.
    Skip,
    /// It is unparked.
    Unpark,
}

/// What has come of unparking so far.
#[derive(Clone, Copy, PartialEq, Eq, Hash, Debug, Structural)]
pub struct UnparkContext {
    pub has_more: bool,
    pub unparked: usize,
    pub skipped: usize,
}

/// How far a parked task has come.
#[derive(Clone, Copy, PartialEq, Eq, Debug, Structural)]
pub enum ParkState {
    Waiting,
    /// The task changes its waker.
    Updating,
    Unparked,
    Cancelled,
}

/// The number of a state.
pub open spec fn number_of(state: ParkState) -> usize {
    match state {
        ParkState::Waiting => 0,
        ParkState::Updating => 1,
        ParkState::Unparked => 2,
        ParkState::Cancelled => 3,
    }
}

/// The lowest two bits of a number are its rest.
proof fn lowest_bits(value: usize)
    by (bit_vector)
    ensures
        value & 3 == value % 4,
{
}

impl ParkState {
    /// The state of a number, of which only the lowest two bits count.
    pub fn from(value: usize) -> (state: Self)
        ensures
            number_of(state) == value % 4,
    {
        proof {
            lowest_bits(value);
        }
        let bits: usize = value & 3;
        if bits == 0 {
            ParkState::Waiting
        } else if bits == 1 {
            ParkState::Updating
        } else if bits == 2 {
            ParkState::Unparked
        } else {
            ParkState::Cancelled
        }
    }

    /// The number of a state.
    pub fn number(self) -> (value: usize)
        ensures
            value == number_of(self),
    {
        match self {
            ParkState::Waiting => 0,
            ParkState::Updating => 1,
            ParkState::Unparked => 2,
            ParkState::Cancelled => 3,
        }
    }
}

/// A task that parks, as others see it.
#[derive(Clone, Copy, PartialEq, Eq, Debug, Structural)]
pub struct ParkNode {
    pub state: usize,
    pub token: usize,
}

impl ParkNode {
    /// A task that waits.
    pub fn new() -> (node: Self)
        ensures
            node == (ParkNode { state: number_of(ParkState::Waiting), token: 0 }),
    {
        ParkNode { state: ParkState::Waiting.number(), token: 0 }
    }
}

/// The answer of a filter as a decision on a parked task.
pub open spec fn decision(answer: (UnparkResult, usize)) -> parker::UnparkFilter {
    match answer.0 {
        UnparkResult::Stop => parker::UnparkFilter::Stop,
        UnparkResult::Skip => parker::UnparkFilter::Skip,
        UnparkResult::Unpark => parker::UnparkFilter::Unpark(answer.1),
    }
}

/// The answers of a filter as decisions on parked tasks.
pub open spec fn all_decisions(answers: Seq<(UnparkResult, usize)>) -> Seq<parker::UnparkFilter> {
    answers.map_values(|answer: (UnparkResult, usize)| decision(answer))
}

/// What a filter is told when it decides on the task at position `i`.
pub open spec fn told(queue: Seq<usize>, answers: Seq<(UnparkResult, usize)>, i: int) -> UnparkContext {
    UnparkContext {
        has_more: i + 1 < queue.len(),
        unparked: parker::woken(queue, all_decisions(answers.take(i))).len() as usize,
        skipped: parker::skips(all_decisions(answers.take(i))) as usize,
    }
}

/// What comes of these answers. There are more if tasks stay parked.
pub open spec fn outcome(queue: Seq<usize>, answers: Seq<(UnparkResult, usize)>) -> UnparkContext {
    UnparkContext {
        has_more: parker::left_parked(queue, all_decisions(answers)).len() > 0,
        unparked: parker::woken(queue, all_decisions(answers)).len() as usize,
        skipped: parker::skips(all_decisions(answers)) as usize,
    }
}

/// Each answer is one of the filter, and only the last may be to stop.
pub open spec fn answered<F: FnMut(UnparkContext, usize) -> (UnparkResult, usize)>(
    filter: F,
    nodes: Map<usize, ParkNode>,
    queue: Seq<usize>,
    answers: Seq<(UnparkResult, usize)>,
) -> bool {
    &&& forall|i: int|
        0 <= i < answers.len() ==> call_ensures(
            filter,
            (told(queue, answers, i), nodes[queue[i]].token),
            #[trigger] answers[i],
        )
    &&& forall|i: int| 0 <= i < answers.len() - 1 ==> !((#[trigger] answers[i]).0 is Stop)
}

/// The answers of a filter on the tasks of `queue`, from the first on, up to the
/// last task or the first stop.
pub open spec fn answers_all<F: FnMut(UnparkContext, usize) -> (UnparkResult, usize)>(
    filter: F,
    nodes: Map<usize, ParkNode>,
    queue: Seq<usize>,
    answers: Seq<(UnparkResult, usize)>,
) -> bool {
    &&& answers.len() <= queue.len()
    &&& answered(filter, nodes, queue, answers)
    &&& answers.len() < queue.len() ==> answers.len() > 0 && answers.last().0 is Stop
}

/// The node of a task after an answer: the token is the new one, and a task that
/// is unparked knows it.
pub open spec fn marked(node: ParkNode, answer: (UnparkResult, usize)) -> ParkNode {
    ParkNode {
        token: answer.1,
        state: if answer.0 is Unpark {
            number_of(ParkState::Unparked)
        } else {
            node.state
        },
    }
}

/// The nodes after these answers on the first of `queue`.
pub open spec fn all_marked(
    nodes: Map<usize, ParkNode>,
    new_nodes: Map<usize, ParkNode>,
    queue: Seq<usize>,
    answers: Seq<(UnparkResult, usize)>,
) -> bool {
    &&& new_nodes.dom() =~= nodes.dom()
    &&& forall|i: int|
        0 <= i < answers.len() ==> #[trigger] new_nodes[queue[i]] == marked(nodes[queue[i]], answers[i])
    &&& forall|a: usize|
        !queue.take(answers.len() as int).contains(a) ==> #[trigger] new_nodes[a] == nodes[a]
}

/// The tasks that are unparked and were waiting, so that they have to be
/// notified.
pub open spec fn notified(
    nodes: Map<usize, ParkNode>,
    queue: Seq<usize>,
    answers: Seq<(UnparkResult, usize)>,
) -> Seq<usize>
    decreases answers.len(),
{
    if answers.len() == 0 {
        Seq::empty()
    } else {
        let before = notified(nodes, queue, answers.drop_last());
        let address = queue[answers.len() - 1];
        if answers.last().0 is Unpark && nodes[address].state % 4 == number_of(ParkState::Waiting) {
            before.push(address)
        } else {
            before
        }
    }
}

/// A list of tasks that are to be notified.
pub struct UnparkList {
    /// The first of them.
    pub array: Vec<usize>,
    /// Those that do not fit into the array.
    pub overflow: Vec<usize>,
}

/// The number of tasks that fit into the array of a list.
pub const ARRAY_LEN: usize = 16;

impl View for UnparkList {
    type V = Seq<usize>;

    /// The tasks of the list, in the order in which they were pushed.
    open spec fn view(&self) -> Seq<usize> {
        self.array@ + self.overflow@
    }
}

impl UnparkList {
    /// Only a full array overflows.
    pub open spec fn wf(self) -> bool {
        &&& self.array@.len() <= ARRAY_LEN
        &&& self.array@.len() < ARRAY_LEN ==> self.overflow@.len() == 0
    }

    /// A list without tasks.
    pub fn new() -> (list: Self)
        ensures
            list.wf(),
            list@ == Seq::<usize>::empty(),
    {
        let list = UnparkList { array: Vec::new(), overflow: Vec::new() };
        assert(list@ =~= Seq::<usize>::empty());
        list
    }

    /// Adds a task.
    pub fn push(&mut self, node: usize)
        requires
            old(self).wf(),
        ensures
            final(self).wf(),
            final(self)@ == old(self)@.push(node),
    {
        if self.array.len() < ARRAY_LEN {
            self.array.push(node);
        } else {
            self.overflow.push(node);
        }
        assert(self@ =~= old(self)@.push(node));
    }

    /// The tasks of the list.
    pub fn iter(&self) -> (nodes: Vec<usize>)
        ensures
            nodes@ == self@,
    {
        let mut nodes: Vec<usize> = Vec::new();
        let mut i: usize = 0;
        while i < self.array.len()
            invariant
                i <= self.array@.len(),
                nodes@ == self.array@.take(i as int),
            decreases self.array.len() - i,
        {
            nodes.push(self.array[i]);
            i = i + 1;
            assert(nodes@ =~= self.array@.take(i as int));
        }
        assert(nodes@ =~= self.array@ + self.overflow@.take(0));
        i = 0;
        while i < self.overflow.len()
            invariant
                i <= self.overflow@.len(),
                nodes@ == self.array@ + self.overflow@.take(i as int),
            decreases self.overflow.len() - i,
        {
            nodes.push(self.overflow[i]);
            i = i + 1;
            assert(nodes@ =~= self.array@ + self.overflow@.take(i as int));
        }
        assert(self.overflow@.take(i as int) =~= self.overflow@);
        nodes
    }
}

/// A parking lot: the parked tasks, from the one parked first to the one parked
/// last, under a lock. Each method is what a thread does while it holds the lock.
pub struct Parker {
    pub queue: Lock<Vec<usize>>,
}

impl Parker {
    /// A parking lot without tasks.
    pub fn new() -> (parker: Self)
        ensures
            parker.queue.state == 0,
            parker.queue.value@.len() == 0,
    {
        Parker { queue: Lock::new(Vec::new()) }
    }

    /// The parked tasks are distinct and in memory.
    pub open spec fn wf(self, nodes: Map<usize, ParkNode>) -> bool {
        &&& self.queue.value@.no_duplicates()
        &&& forall|i: int|
            0 <= i < self.queue.value@.len() ==> nodes.contains_key(#[trigger] self.queue.value@[i])
    }

    /// Parks a task behind all others with the token that `prepare` gives, unless
    /// it gives none. A task that parks goes on with `ParkPoll`.
    pub fn park<M: Memory<ParkNode>, P: FnOnce() -> Result<usize, ()>>(
        &mut self,
        memory: &mut M,
        address: usize,
        prepare: P,
    ) -> (result: Option<ParkResult>)
        requires
            old(self).wf(old(memory).nodes()),
            old(memory).nodes().contains_key(address),
            !old(self).queue.value@.contains(address),
            call_requires(prepare, ()),
        ensures
            final(self).wf(final(memory).nodes()),
            final(self).queue.state == old(self).queue.state,
            result is None ==> {
                &&& final(self).queue.value@ == old(self).queue.value@.push(address)
                &&& exists|token: usize| #[trigger]
                    call_ensures(prepare, (), Ok::<usize, ()>(token)) && final(memory).nodes()
                        == old(memory).nodes().insert(
                        address,
                        ParkNode { token, ..old(memory).nodes()[address] },
                    )
            },
            result matches Some(r) ==> {
                &&& r == ParkResult::Unprepared
                &&& call_ensures(prepare, (), Err::<usize, ()>(()))
                &&& final(self).queue.value@ == old(self).queue.value@
                &&& final(memory).nodes() == old(memory).nodes()
            },
    {
        match prepare() {
            Ok(token) => {
                let node = memory.read(address);
                memory.write(address, ParkNode { state: node.state, token });
                let ghost queue = self.queue.value@;
                self.queue.value.push(address);
                proof {
                    assert forall|i: int| 0 <= i < self.queue.value@.len() implies memory.nodes().contains_key(
                        #[trigger] self.queue.value@[i],
                    ) by {
                        if i < queue.len() {
                            assert(self.queue.value@[i] == queue[i]);
                        }
                    }
                    assert forall|i: int| 0 <= i < queue.len() implies #[trigger] queue[i] != address by {
                        assert(queue.contains(queue[i]));
                    }
                }
                None
            },
            Err(nothing) => {
                assert(nothing == ());
                Some(ParkResult::Unprepared)
            },
        }
    }

    /// Takes a task out of the parking lot. Tells whether it was the last one,
    /// or fails if it is not parked.
    pub fn remove(&mut self, address: usize) -> (result: Result<bool, ()>)
        requires
            old(self).queue.value@.no_duplicates(),
        ensures
            final(self).queue.state == old(self).queue.state,
            result is Ok <==> old(self).queue.value@.contains(address),
            result matches Ok(was_last) ==> {
                &&& final(self).queue.value@ == parker::without(old(self).queue.value@, address)
                &&& was_last == (final(self).queue.value@.len() == 0)
            },
            result is Err ==> final(self).queue.value@ == old(self).queue.value@,
    {
        let ghost queue = self.queue.value@;
        let mut i: usize = 0;
        while i < self.queue.value.len()
            invariant
                self.queue.value@ == queue,
                self.queue.state == old(self).queue.state,
                queue == old(self).queue.value@,
                queue.no_duplicates(),
                i <= queue.len(),
                forall|k: int| 0 <= k < i ==> #[trigger] queue[k] != address,
            decreases queue.len() - i,
        {
            if self.queue.value[i] == address {
                assert(queue.contains(queue[i as int]));
                assert(queue.index_of(address) == i);
                let _address = self.queue.value.remove(i);
                return Ok(self.queue.value.len() == 0);
            }
            i = i + 1;
        }
        Err(())
    }

    /// Unparks tasks, from the one parked first on, as `filter` decides, which is
    /// told what has come of it so far and may change the token of a task. What
    /// came of it comes back, with the tasks that are to be notified once
    /// the lock is released.
    pub fn unpark<M: Memory<ParkNode>, F: FnMut(UnparkContext, usize) -> (UnparkResult, usize)>(
        &mut self,
        memory: &mut M,
        mut filter: F,
    ) -> (output: (UnparkContext, UnparkList))
        requires
            old(self).wf(old(memory).nodes()),
            forall|context: UnparkContext, token: usize| #[trigger]
                call_requires(filter, (context, token)),
        ensures
            final(self).wf(final(memory).nodes()),
            final(self).queue.state == old(self).queue.state,
            output.1.wf(),
            exists|answers: Seq<(UnparkResult, usize)>| #[trigger]
                answers_all(filter, old(memory).nodes(), old(self).queue.value@, answers) && all_marked(
                    old(memory).nodes(),
                    final(memory).nodes(),
                    old(self).queue.value@,
                    answers,
                ) && final(self).queue.value@ == parker::left_parked(
                    old(self).queue.value@,
                    all_decisions(answers),
                ) && output.0 == outcome(old(self).queue.value@, answers) && output.1@
                    == notified(old(memory).nodes(), old(self).queue.value@, answers),
    {
        let ghost before = memory.nodes();
        let ghost queue = self.queue.value@;
        let ghost asked = filter;
        let ghost mut answers: Seq<(UnparkResult, usize)> = Seq::empty();
        let len: usize = self.queue.value.len();
        let mut kept: Vec<usize> = Vec::new();
        let mut list = UnparkList::new();
        let mut context = UnparkContext { has_more: len > 0, unparked: 0, skipped: 0 };
        let mut stopped = false;
        let mut i: usize = 0;
        proof {
            assert(all_decisions(answers) =~= Seq::<parker::UnparkFilter>::empty());
            assert(queue.take(0) =~= Seq::<usize>::empty());
            assert(list@ =~= notified(before, queue, answers));
            assert(kept@ =~= parker::kept(queue, all_decisions(answers)));
        }
        while i < len && !stopped
            invariant
                filter == asked,
                forall|context: UnparkContext, token: usize| #[trigger]
                    call_requires(asked, (context, token)),
                self.queue.value@ == queue,
                self.queue.state == old(self).queue.state,
                len == queue.len(),
                queue.no_duplicates(),
                forall|k: int|
                    0 <= k < queue.len() ==> before.contains_key(#[trigger] queue[k]),
                i == answers.len(),
                i <= len,
                list.wf(),
                list@ == notified(before, queue, answers),
                kept@ == parker::kept(queue, all_decisions(answers)),
                context.unparked == parker::woken(queue, all_decisions(answers)).len(),
                context.skipped == parker::skips(all_decisions(answers)),
                context.unparked + context.skipped <= i,
                all_marked(before, memory.nodes(), queue, answers),
                answered(asked, before, queue, answers),
                stopped ==> answers.len() > 0 && answers.last().0 is Stop,
                !stopped && answers.len() > 0 ==> !(answers.last().0 is Stop),
            decreases len - i + (if stopped {
                0int
            } else {
                1
            }),
        {
            let ghost n = i as int;
            let ghost nodes = memory.nodes();
            let address = self.queue.value[i];
            proof {
                assert(queue[n] == address);
                assert(!queue.take(n).contains(address)) by {
                    if queue.take(n).contains(address) {
                        let k = choose|k: int| 0 <= k < n && queue.take(n)[k] == address;
                        assert(queue[k] == queue[n]);
                    }
                }
                assert(answers.take(n) =~= answers);
            }
            let node = memory.read(address);
            context.has_more = i + 1 < len;
            assert(context == told(queue, answers, n));
            let (answer, token) = filter(context, node.token);
            let ghost more = answers.push((answer, token));
            proof {
                assert(all_decisions(more) =~= all_decisions(answers).push(
                    decision((answer, token)),
                ));
                parker::decision_counts(queue, all_decisions(answers), decision((answer, token)));
                assert(all_decisions(more).drop_last() =~= all_decisions(answers));
                assert(more.drop_last() =~= answers);
                answer_is_one_more(asked, before, queue, answers, (answer, token));
            }
            match answer {
                UnparkResult::Stop => {
                    stopped = true;
                    kept.push(address);
                    memory.write(address, ParkNode { state: node.state, token });
                },
                UnparkResult::Skip => {
                    context.skipped = context.skipped + 1;
                    kept.push(address);
                    memory.write(address, ParkNode { state: node.state, token });
                },
                UnparkResult::Unpark => {
                    context.unparked = context.unparked + 1;
                    if let ParkState::Waiting = ParkState::from(node.state) {
                        list.push(address);
                    }
                    memory.write(
                        address,
                        ParkNode { state: ParkState::Unparked.number(), token },
                    );
                },
            }
            i = i + 1;
            proof {
                mark_is_one_more(before, nodes, memory.nodes(), queue, answers, (answer, token));
                answers = more;
            }
        }
        let ghost done = i as int;
        // The tasks that were not looked at stay.
        while i < len
            invariant
                self.queue.value@ == queue,
                self.queue.state == old(self).queue.state,
                len == queue.len(),
                0 <= done <= i <= len,
                kept@ == parker::kept(queue, all_decisions(answers)) + queue.subrange(
                    done,
                    i as int,
                ),
            decreases len - i,
        {
            kept.push(self.queue.value[i]);
            i = i + 1;
            assert(kept@ =~= parker::kept(queue, all_decisions(answers)) + queue.subrange(
                done,
                i as int,
            ));
        }
        proof {
            assert(kept@ =~= parker::left_parked(queue, all_decisions(answers)));
            left_is_distinct(queue, all_decisions(answers));
            assert forall|k: int| 0 <= k < kept@.len() implies memory.nodes().contains_key(
                #[trigger] kept@[k],
            ) by {
                assert(kept@.contains(kept@[k]));
                let j = choose|j: int| 0 <= j < queue.len() && queue[j] == kept@[k];
                assert(before.contains_key(queue[j]));
            }
        }
        context.has_more = kept.len() > 0;
        self.queue.value = kept;
        assert(answers_all(asked, before, queue, answers));
        (context, list)
    }

    /// Unparks the task that was parked first, if there is one, with the token that
    /// `modify` gives. What came of it comes back, with the task if it is to
    /// be notified.
    pub fn unpark_one<M: Memory<ParkNode>, F: FnOnce(UnparkContext, usize) -> usize>(
        &mut self,
        memory: &mut M,
        modify: F,
    ) -> (output: (UnparkContext, Option<usize>))
        requires
            old(self).wf(old(memory).nodes()),
            forall|context: UnparkContext, token: usize| #[trigger]
                call_requires(modify, (context, token)),
        ensures
            final(self).wf(final(memory).nodes()),
            final(self).queue.state == old(self).queue.state,
            ({
                let queue = old(self).queue.value@;
                let nodes = old(memory).nodes();
                if queue.len() == 0 {
                    &&& output == (
                        UnparkContext { has_more: false, unparked: 0, skipped: 0 },
                        None::<usize>,
                    )
                    &&& final(self).queue.value@ == queue
                    &&& final(memory).nodes() == nodes
                } else {
                    &&& output.0 == (UnparkContext {
                        has_more: queue.len() > 1,
                        unparked: 1,
                        skipped: 0,
                    })
                    &&& output.1 == (if nodes[queue[0]].state % 4 == number_of(ParkState::Waiting) {
                        Some(queue[0])
                    } else {
                        None
                    })
                    &&& final(self).queue.value@ == queue.drop_first()
                    &&& final(memory).nodes() == nodes.insert(
                        queue[0],
                        ParkNode {
                            state: number_of(ParkState::Unparked),
                            token: final(memory).nodes()[queue[0]].token,
                        },
                    )
                    &&& call_ensures(
                        modify,
                        (
                            UnparkContext { has_more: queue.len() > 1, unparked: 0, skipped: 0 },
                            nodes[queue[0]].token,
                        ),
                        final(memory).nodes()[queue[0]].token,
                    )
                }
            }),
    {
        let ghost queue = self.queue.value@;
        let len: usize = self.queue.value.len();
        if len == 0 {
            return (UnparkContext { has_more: false, unparked: 0, skipped: 0 }, None);
        }
        let address = self.queue.value[0];
        assert(address == queue[0]);
        let node = memory.read(address);
        let token = modify(
            UnparkContext { has_more: len > 1, unparked: 0, skipped: 0 },
            node.token,
        );
        let _first = self.queue.value.remove(0);
        proof {
            assert(self.queue.value@ =~= queue.drop_first());
            assert forall|i: int| 0 <= i < self.queue.value@.len() implies #[trigger] self.queue.value@[i]
                == queue[i + 1] by {}
        }
        memory.write(address, ParkNode { state: ParkState::Unparked.number(), token });
        let notify = match ParkState::from(node.state) {
            ParkState::Waiting => Some(address),
            _ => None,
        };
        (UnparkContext { has_more: len > 1, unparked: 1, skipped: 0 }, notify)
    }
}

/// The tasks that are left are some of those that were parked, each once.
proof fn left_is_distinct(queue: Seq<usize>, decisions: Seq<parker::UnparkFilter>)
    requires
        queue.no_duplicates(),
        decisions.len() <= queue.len(),
    ensures
        parker::left_parked(queue, decisions).no_duplicates(),
        forall|a: usize| #[trigger]
            parker::left_parked(queue, decisions).contains(a) ==> queue.contains(a),
    decreases decisions.len(),
{
    let left = parker::left_parked(queue, decisions);
    if decisions.len() == 0 {
        assert(left =~= queue);
    } else {
        let fewer = decisions.drop_last();
        left_is_distinct(queue, fewer);
        assert(fewer.push(decisions.last()) =~= decisions);
        parker::decision_counts(queue, fewer, decisions.last());
        let before = parker::left_parked(queue, fewer);
        if decisions.last() is Unpark {
            let k = parker::kept(queue, fewer).len() as int;
            parker::next_of_left(queue, fewer);
            assert(left == before.remove(k));
            assert forall|i: int, j: int| 0 <= i < left.len() && 0 <= j < left.len() && i != j implies left[i]
                != left[j] by {
                let x = if i < k {
                    i
                } else {
                    i + 1
                };
                let y = if j < k {
                    j
                } else {
                    j + 1
                };
                assert(left[i] == before[x] && left[j] == before[y]);
            }
            assert forall|a: usize| #[trigger] left.contains(a) implies queue.contains(a) by {
                let i = choose|i: int| 0 <= i < left.len() && left[i] == a;
                let x = if i < k {
                    i
                } else {
                    i + 1
                };
                assert(before[x] == a);
                assert(before.contains(a));
            }
        }
    }
}

/// One more answer of a filter.
#[verifier::spinoff_prover]
proof fn answer_is_one_more<F: FnMut(UnparkContext, usize) -> (UnparkResult, usize)>(
    filter: F,
    nodes: Map<usize, ParkNode>,
    queue: Seq<usize>,
    answers: Seq<(UnparkResult, usize)>,
    answer: (UnparkResult, usize),
)
    requires
        answered(filter, nodes, queue, answers),
        answers.len() > 0 ==> !(answers.last().0 is Stop),
        call_ensures(
            filter,
            (
                told(queue, answers, answers.len() as int),
                nodes[queue[answers.len() as int]].token,
            ),
            answer,
        ),
    ensures
        answered(filter, nodes, queue, answers.push(answer)),
{
    let more = answers.push(answer);
    let n = answers.len() as int;
    assert forall|i: int| 0 <= i < more.len() implies call_ensures(
        filter,
        (told(queue, more, i), nodes[queue[i]].token),
        #[trigger] more[i],
    ) by {
        assert(more.take(i) =~= answers.take(i));
        assert(told(queue, more, i) == told(queue, answers, i));
        if i < n {
            assert(more[i] == answers[i]);
        }
    }
    assert forall|i: int| 0 <= i < more.len() - 1 implies !((#[trigger] more[i]).0 is Stop) by {
        assert(more[i] == answers[i]);
    }
}

/// One more node that is marked.
proof fn mark_is_one_more(
    before: Map<usize, ParkNode>,
    nodes: Map<usize, ParkNode>,
    after: Map<usize, ParkNode>,
    queue: Seq<usize>,
    answers: Seq<(UnparkResult, usize)>,
    answer: (UnparkResult, usize),
)
    requires
        queue.no_duplicates(),
        answers.len() < queue.len(),
        before.contains_key(queue[answers.len() as int]),
        all_marked(before, nodes, queue, answers),
        after == nodes.insert(
            queue[answers.len() as int],
            marked(before[queue[answers.len() as int]], answer),
        ),
    ensures
        all_marked(before, after, queue, answers.push(answer)),
{
    let n = answers.len() as int;
    let more = answers.push(answer);
    assert forall|i: int| 0 <= i < more.len() implies #[trigger] after[queue[i]] == marked(
        before[queue[i]],
        more[i],
    ) by {
        if i < n {
            assert(queue[i] != queue[n]);
            assert(more[i] == answers[i]);
            assert(nodes[queue[i]] == marked(before[queue[i]], answers[i]));
        }
    }
    assert forall|a: usize| !queue.take(more.len() as int).contains(a) implies #[trigger] after[a]
        == before[a] by {
        assert(queue.take(n + 1)[n] == queue[n]);
        assert(a != queue[n]);
        if queue.take(n).contains(a) {
            let k = choose|k: int| 0 <= k < n && queue.take(n)[k] == a;
            assert(queue.take(n + 1)[k] == a);
        }
    }
}

/// Everybody who waits and is unparked is notified, however many they are.
pub proof fn unparked_are_notified(
    nodes: Map<usize, ParkNode>,
    queue: Seq<usize>,
    answers: Seq<(UnparkResult, usize)>,
    i: int,
)
    requires
        answers.len() <= queue.len(),
        0 <= i < answers.len(),
        answers[i].0 is Unpark,
        nodes[queue[i]].state % 4 == number_of(ParkState::Waiting),
    ensures
        notified(nodes, queue, answers).contains(queue[i]),
    decreases answers.len(),
{
    let all = notified(nodes, queue, answers);
    if i == answers.len() - 1 {
        assert(all.last() == queue[i]);
    } else {
        let fewer = answers.drop_last();
        unparked_are_notified(nodes, queue, fewer, i);
        let before = notified(nodes, queue, fewer);
        let k = choose|k: int| 0 <= k < before.len() && before[k] == queue[i];
        assert(all[k] == queue[i]);
    }
}

/// How far the polling of a parked task is.
#[derive(Clone, Copy, PartialEq, Eq, Debug, Structural)]
pub enum PollPhase {
    /// It looks at the state.
    Look,
    /// It has a new waker and tells so.
    Publish,
}

/// The polling of a parked task.
#[derive(Clone, Copy, PartialEq, Eq, Debug, Structural)]
pub struct ParkPoll {
    /// The state as the task has seen it last, or `None` if it must look.
    pub state: Option<usize>,
    pub phase: PollPhase,
    /// The task is to wait first, which it does once.
    pub has_wait: bool,
    /// The task is to be told when it is cancelled, which happens once.
    pub has_cancel: bool,
}

/// What a task that is polled has to do next.
#[derive(Clone, Copy, PartialEq, Eq, Debug, Structural)]
pub enum PollStep {
    /// There is more to do.
    Continue,
    /// It is to wait and goes on with `waited`.
    Wait,
    /// It is to store its waker.
    StoreWaker,
    /// It is to drop its waker.
    DropWaker,
    /// It is pending.
    Pending,
    /// It is done.
    Ready(ParkResult),
}

/// One step of the polling of a task with this token on its state.
pub open spec fn poll_steps(
    before: ParkPoll,
    after: ParkPoll,
    state: usize,
    new_state: usize,
    token: usize,
    step: PollStep,
) -> bool {
    match before.phase {
        PollPhase::Look => match before.state {
            None => {
                &&& step == PollStep::Continue
                &&& after == (ParkPoll { state: Some(state), ..before })
                &&& new_state == state
            },
            Some(seen) => if seen % 4 == number_of(ParkState::Waiting) {
                if before.has_wait {
                    &&& step == PollStep::Wait
                    &&& after == (ParkPoll { has_wait: false, ..before })
                    &&& new_state == state
                } else if state == seen {
                    &&& step == PollStep::StoreWaker
                    &&& after == (ParkPoll { phase: PollPhase::Publish, ..before })
                    &&& new_state == number_of(ParkState::Updating)
                } else {
                    &&& step == PollStep::Continue
                    &&& after == (ParkPoll { state: Some(state), ..before })
                    &&& new_state == state
                }
            } else {
                &&& after == before
                &&& new_state == state
                &&& step == PollStep::Ready(
                    if seen % 4 == number_of(ParkState::Unparked) {
                        ParkResult::Unparked(token)
                    } else {
                        ParkResult::Cancelled(token)
                    },
                )
            },
        },
        PollPhase::Publish => if state == number_of(ParkState::Updating) {
            &&& step == PollStep::Pending
            &&& after == before
            &&& new_state == number_of(ParkState::Waiting)
        } else {
            &&& step == PollStep::DropWaker
            &&& after == (ParkPoll { state: Some(state), phase: PollPhase::Look, ..before })
            &&& new_state == state
        },
    }
}

/// A task goes on after it has waited, and is to be cancelled if it gave up.
pub open spec fn wait_ends(before: ParkPoll, after: ParkPoll, gave_up: bool) -> bool {
    after == (if gave_up {
        before
    } else {
        ParkPoll { state: None, ..before }
    })
}

/// A task that gives up goes on, given what came of taking it out of the parking lot.
pub open spec fn cancel_steps(
    before: ParkPoll,
    after: ParkPoll,
    node: ParkNode,
    new_node: ParkNode,
    removed: Result<bool, ()>,
    told: Option<(usize, bool)>,
) -> bool {
    match removed {
        Ok(was_last) => {
            &&& told == (if before.has_cancel {
                Some((node.token, was_last))
            } else {
                None
            })
            &&& after == (ParkPoll {
                state: Some(number_of(ParkState::Cancelled)),
                has_cancel: false,
                ..before
            })
            &&& new_node == (ParkNode { state: number_of(ParkState::Cancelled), ..node })
        },
        Err(_) => {
            &&& told is None
            &&& after == (ParkPoll { state: None, ..before })
            &&& new_node == node
        },
    }
}

impl ParkPoll {
    /// A task that begins to be polled. Whether it has waited before is told, and
    /// whether it is still to be told of being cancelled.
    pub fn new(has_wait: bool, has_cancel: bool) -> (poll: Self)
        ensures
            poll == (ParkPoll { state: None, phase: PollPhase::Look, has_wait, has_cancel }),
    {
        ParkPoll { state: None, phase: PollPhase::Look, has_wait, has_cancel }
    }

    /// Takes one step on the state of the task. A task is polled by one thread at
    /// a time.
    pub fn poll(&mut self, state: &mut usize, token: usize) -> (step: PollStep)
        requires
            *old(state) <= 3,
            old(self).phase == PollPhase::Look ==> (old(self).state matches Some(seen) ==> seen % 4
                != number_of(ParkState::Updating)),
        ensures
            *final(state) <= 3,
            poll_steps(*old(self), *final(self), *old(state), *final(state), token, step),
    {
        match self.phase {
            PollPhase::Look => {
                let seen: usize = match self.state {
                    None => {
                        self.state = Some(*state);
                        return PollStep::Continue;
                    },
                    Some(seen) => seen,
                };
                match ParkState::from(seen) {
                    ParkState::Waiting => {
                        if self.has_wait {
                            self.has_wait = false;
                            return PollStep::Wait;
                        }
                        if *state == seen {
                            *state = ParkState::Updating.number();
                            self.phase = PollPhase::Publish;
                            PollStep::StoreWaker
                        } else {
                            self.state = Some(*state);
                            PollStep::Continue
                        }
                    },
                    ParkState::Updating => vstd::pervasive::unreached(),
                    ParkState::Unparked => PollStep::Ready(ParkResult::Unparked(token)),
                    ParkState::Cancelled => PollStep::Ready(ParkResult::Cancelled(token)),
                }
            },
            PollPhase::Publish => {
                if *state == ParkState::Updating.number() {
                    *state = ParkState::Waiting.number();
                    PollStep::Pending
                } else {
                    self.state = Some(*state);
                    self.phase = PollPhase::Look;
                    PollStep::DropWaker
                }
            },
        }
    }

    /// Goes on after the task has waited. `gave_up` tells that it is not to wait
    /// any longer, so that it has to be cancelled with `cancelled`.
    pub fn waited(&mut self, gave_up: bool) -> (cancel: bool)
        requires
            old(self).phase == PollPhase::Look,
        ensures
            cancel == gave_up,
            wait_ends(*old(self), *final(self), gave_up),
    {
        if !gave_up {
            self.state = None;
        }
        gave_up
    }

    /// Goes on with a task that gives up, while the lock is held: `removed` is
    /// what came of taking it out of the parking lot. If it was parked, it is
    /// cancelled now and is told so, once, with its token and whether it was the
    /// last one. Otherwise it was unparked meanwhile.
    pub fn cancelled<M: Memory<ParkNode>>(
        &mut self,
        memory: &mut M,
        address: usize,
        removed: Result<bool, ()>,
    ) -> (told: Option<(usize, bool)>)
        requires
            old(self).phase == PollPhase::Look,
            old(memory).nodes().contains_key(address),
        ensures
            cancel_steps(
                *old(self),
                *final(self),
                old(memory).nodes()[address],
                final(memory).nodes()[address],
                removed,
                told,
            ),
            final(memory).nodes() == old(memory).nodes().insert(
                address,
                final(memory).nodes()[address],
            ),
    {
        match removed {
            Ok(was_last) => {
                let node = memory.read(address);
                let told = if self.has_cancel {
                    Some((node.token, was_last))
                } else {
                    None
                };
                self.has_cancel = false;
                self.state = Some(ParkState::Cancelled.number());
                memory.write(
                    address,
                    ParkNode { state: ParkState::Cancelled.number(), token: node.token },
                );
                told
            },
            Err(_) => {
                self.state = None;
                assert(memory.nodes() =~= old(memory).nodes().insert(
                    address,
                    old(memory).nodes()[address],
                ));
                None
            },
        }
    }

    /// Tells whether a task that is dropped in this state has to be taken out of
    /// the parking lot.
    pub fn needs_removal(state: usize) -> (waiting: bool)
        ensures
            waiting == (state % 4 == number_of(ParkState::Waiting)),
    {
        match ParkState::from(state) {
            ParkState::Waiting => true,
            _ => false,
        }
    }
}

/// How far a task is that is polled.
pub enum Polling {
    /// It is not polled.
    No,
    /// It is to take a step.
    Step(ParkPoll),
    /// It waits.
    Wait(ParkPoll),
    /// It gave up and is to be cancelled.
    Cancel(ParkPoll),
}

/// A parked task and what has happened to it.
pub struct World {
    pub node: ParkNode,
    /// It is in the parking lot.
    pub is_parked: bool,
    pub polling: Polling,
    pub has_wait: bool,
    pub has_cancel: bool,
    /// There is a waker for it.
    pub has_waker: bool,
    /// It was notified.
    pub notified: bool,
    /// It was dropped.
    pub dropped: bool,
    /// How often it has waited.
    pub waits: nat,
    /// It gave up waiting.
    pub gave_up: bool,
    /// How often it was told that it is cancelled.
    pub cancels: nat,
    /// The token with which it was unparked, if it was.
    pub given: Option<usize>,
}

/// A task begins to be polled.
pub open spec fn is_polled(w: World, v: World) -> bool {
    &&& w.polling is No
    &&& !w.dropped
    &&& v == (World {
        polling: Polling::Step(
            ParkPoll {
                state: None,
                phase: PollPhase::Look,
                has_wait: w.has_wait,
                has_cancel: w.has_cancel,
            },
        ),
        ..w
    })
}

/// A task that is polled takes a step.
pub open spec fn polls(w: World, v: World, after: ParkPoll, step: PollStep) -> bool {
    &&& w.polling matches Polling::Step(before) && poll_steps(
        before,
        after,
        w.node.state,
        v.node.state,
        w.node.token,
        step,
    )
    &&& v == (World {
        node: ParkNode { state: v.node.state, ..w.node },
        polling: match step {
            PollStep::Wait => Polling::Wait(after),
            PollStep::Pending | PollStep::Ready(_) => Polling::No,
            _ => Polling::Step(after),
        },
        has_wait: after.has_wait,
        waits: w.waits + if step is Wait {
            1nat
        } else {
            0nat
        },
        has_waker: match step {
            PollStep::StoreWaker => true,
            PollStep::DropWaker => false,
            _ => w.has_waker,
        },
        ..w
    })
}

/// A task has waited.
pub open spec fn has_waited(w: World, v: World, after: ParkPoll, gave_up: bool) -> bool {
    &&& w.polling matches Polling::Wait(before) && wait_ends(before, after, gave_up)
    &&& v == (World {
        polling: if gave_up {
            Polling::Cancel(after)
        } else {
            Polling::Step(after)
        },
        gave_up: w.gave_up || gave_up,
        ..w
    })
}

/// A task that gave up is taken out of the parking lot, if it is there.
pub open spec fn is_cancelled(
    w: World,
    v: World,
    after: ParkPoll,
    removed: Result<bool, ()>,
    told: Option<(usize, bool)>,
) -> bool {
    &&& removed is Ok <==> w.is_parked
    &&& w.polling matches Polling::Cancel(before) && cancel_steps(
        before,
        after,
        w.node,
        v.node,
        removed,
        told,
    )
    &&& v == (World {
        node: v.node,
        is_parked: false,
        polling: Polling::Step(after),
        has_cancel: after.has_cancel,
        cancels: w.cancels + if told is Some {
            1nat
        } else {
            0nat
        },
        ..w
    })
}

/// A thread decides on a parked task. One that is unparked leaves the parking lot, and
/// is notified if it was waiting.
pub open spec fn is_answered(w: World, v: World, answer: (UnparkResult, usize)) -> bool {
    &&& w.is_parked
    &&& v == if answer.0 is Unpark {
        World {
            node: marked(w.node, answer),
            is_parked: false,
            notified: w.node.state % 4 == number_of(ParkState::Waiting),
            given: Some(answer.1),
            ..w
        }
    } else {
        World { node: marked(w.node, answer), ..w }
    }
}

/// A task that was notified is woken.
pub open spec fn is_woken(w: World, v: World) -> bool {
    w.notified && v == (World { has_waker: false, ..w })
}

/// A task is dropped, which takes it out of the parking lot if it waits.
pub open spec fn is_dropped(w: World, v: World) -> bool {
    &&& w.polling is No
    &&& !w.dropped
    &&& v == if w.node.state % 4 == number_of(ParkState::Waiting) && w.is_parked {
        World {
            is_parked: false,
            dropped: true,
            has_cancel: false,
            cancels: w.cancels + if w.has_cancel {
                1nat
            } else {
                0nat
            },
            ..w
        }
    } else {
        World { dropped: true, ..w }
    }
}

/// What a task that is polled knows.
pub open spec fn informed(w: World, poll: ParkPoll) -> bool {
    &&& poll.has_wait == w.has_wait
    &&& poll.has_cancel == w.has_cancel
    &&& poll.phase == PollPhase::Publish ==> w.node.state != number_of(ParkState::Waiting)
        && w.node.state != number_of(ParkState::Cancelled)
    &&& poll.phase == PollPhase::Look ==> w.node.state != number_of(ParkState::Updating) && (
    poll.state matches Some(seen) ==> seen == number_of(ParkState::Waiting) || seen == w.node.state)
}

/// What holds of a task at all times.
pub open spec fn sound(w: World) -> bool {
    &&& w.node.state <= 3
    &&& w.is_parked <==> !w.dropped && (w.node.state == number_of(ParkState::Waiting) || w.node.state
        == number_of(ParkState::Updating))
    &&& w.given is Some <==> w.node.state == number_of(ParkState::Unparked)
    &&& w.given matches Some(token) ==> token == w.node.token
    &&& w.notified ==> w.given is Some
    &&& w.node.state == number_of(ParkState::Cancelled) ==> w.gave_up && w.cancels == 1
    &&& w.is_parked ==> w.has_cancel
    &&& w.waits + (if w.has_wait {
        1nat
    } else {
        0nat
    }) == 1
    &&& w.cancels + (if w.has_cancel {
        1nat
    } else {
        0nat
    }) == 1
    &&& w.node.state == number_of(ParkState::Updating) ==> w.has_waker
    &&& match w.polling {
        Polling::No => w.node.state != number_of(ParkState::Updating) && (w.is_parked && w.waits == 1
            ==> w.has_waker),
        Polling::Step(poll) => !w.dropped && informed(w, poll),
        Polling::Wait(poll) => !w.dropped && informed(w, poll) && poll.phase == PollPhase::Look,
        Polling::Cancel(poll) => !w.dropped && informed(w, poll) && poll.phase == PollPhase::Look
            && w.gave_up,
    }
}

/// The task or another thread leads from `w` to `v`.
pub open spec fn follows(w: World, v: World) -> bool {
    ||| is_polled(w, v)
    ||| exists|after: ParkPoll, step: PollStep| polls(w, v, after, step)
    ||| exists|after: ParkPoll, gave_up: bool| has_waited(w, v, after, gave_up)
    ||| exists|after: ParkPoll, removed: Result<bool, ()>, told: Option<(usize, bool)>|
        is_cancelled(w, v, after, removed, told)
    ||| exists|answer: (UnparkResult, usize)| is_answered(w, v, answer)
    ||| is_woken(w, v)
    ||| is_dropped(w, v)
}

/// A run of a task that has just parked with some token: worlds, each of which follows
/// from the one before by a step of the task or of a thread that unparks it.
pub open spec fn is_run(run: Seq<World>) -> bool {
    &&& run.len() > 0
    &&& run[0] == (World {
        node: ParkNode { state: number_of(ParkState::Waiting), token: run[0].node.token },
        is_parked: true,
        polling: Polling::No,
        has_wait: true,
        has_cancel: true,
        has_waker: false,
        notified: false,
        dropped: false,
        waits: 0,
        gave_up: false,
        cancels: 0,
        given: None,
    })
    &&& forall|i: int| 0 <= i < run.len() - 1 ==> #[trigger] step_at(run, i)
}

/// The world at position `i` leads to the next.
pub open spec fn step_at(run: Seq<World>, i: int) -> bool {
    follows(run[i], run[i + 1])
}

proof fn run_is_sound(run: Seq<World>, i: int)
    requires
        is_run(run),
        0 <= i < run.len(),
    ensures
        sound(run[i]),
    decreases i,
{
    if i > 0 {
        run_is_sound(run, i - 1);
        assert(step_at(run, i - 1));
    }
}

/// Whatever a task that is polled is about to do, what it asks for is given.
pub proof fn task_is_ready(run: Seq<World>, i: int)
    requires
        is_run(run),
        0 <= i < run.len(),
    ensures
        match run[i].polling {
            Polling::Step(poll) => run[i].node.state <= 3 && (poll.phase == PollPhase::Look ==> (
            poll.state matches Some(seen) ==> seen % 4 != number_of(ParkState::Updating))),
            Polling::Wait(poll) => poll.phase == PollPhase::Look,
            Polling::Cancel(poll) => poll.phase == PollPhase::Look,
            Polling::No => true,
        },
{
    run_is_sound(run, i);
}

/// However often a task is polled, it waits at most once and is told at most once that
/// it is cancelled.
pub proof fn task_waits_once(run: Seq<World>, i: int)
    requires
        is_run(run),
        0 <= i < run.len(),
    ensures
        run[i].waits <= 1,
        run[i].cancels <= 1,
{
    run_is_sound(run, i);
}

/// A task is done with being unparked only after a thread has unparked it, with the
/// token that the thread left it. It is done with being cancelled only if it gave up
/// waiting while it was parked, and was told so once.
pub proof fn result_is_right(run: Seq<World>, i: int, v: World, after: ParkPoll, result: ParkResult)
    requires
        is_run(run),
        0 <= i < run.len(),
        polls(run[i], v, after, PollStep::Ready(result)),
    ensures
        match result {
            ParkResult::Unprepared => false,
            ParkResult::Unparked(token) => run[i].given == Some(token),
            ParkResult::Cancelled(token) => {
                &&& run[i].given is None
                &&& run[i].gave_up
                &&& run[i].cancels == 1
                &&& token == run[i].node.token
            },
        },
{
    run_is_sound(run, i);
}

/// No wake-up is lost: a task that becomes pending is parked and has a waker, which it
/// keeps as long as it is parked and not polled, and a task that is unparked while it is
/// pending is notified.
pub proof fn no_wakeup_is_lost(
    run: Seq<World>,
    i: int,
    v: World,
    after: ParkPoll,
    answer: (UnparkResult, usize),
)
    requires
        is_run(run),
        0 <= i < run.len(),
    ensures
        polls(run[i], v, after, PollStep::Pending) ==> v.is_parked && v.has_waker && v.node.state
            == number_of(ParkState::Waiting),
        run[i].polling is No && run[i].is_parked && run[i].waits == 1 ==> run[i].has_waker,
        is_answered(run[i], v, answer) && answer.0 is Unpark && run[i].polling is No ==> v.notified,
{
    run_is_sound(run, i);
}

} // verus!
