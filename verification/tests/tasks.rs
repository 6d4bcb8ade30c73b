use yaar_lock::future::mutex::GenericMutex;
use yaar_lock::futures::mutex::{
    leave_queue, remove_waiter, unlock, unlock_fair, wake_node, BumpPoll, DropStep, Mutex, MutexFutureBump,
    MutexFutureLock, MutexFutureUnlock,
};
use yaar_lock::lock_word::{Attempt, AttemptStep, DequeueStep, MUTEX_LOCK, QUEUE_LOCK};
use yaar_lock::mutex::futures::Mutex as WordMutex;
use yaar_lock::parker::lock::Lock;
use yaar_lock::parker::parker::{
    ParkNode, ParkPoll, ParkResult, ParkState, Parker, PollStep, UnparkContext, UnparkList, UnparkResult,
};
use yaar_lock::queue::{Memory, Node, NodeArena};
use yaar_lock::shared::event::WAIT_NODE_INIT;
use yaar_lock::shared::lock::{FairStep, FairUnlock, Removal, RemoveStep, WordLock, WAIT_NODE_HANDOFF};

fn arena(n: usize) -> (NodeArena<Node>, Vec<usize>) {
    let mut arena = NodeArena::new();
    let mut homes = Vec::new();
    for _ in 0..n {
        homes.push(arena.add_node(Node::new()).unwrap());
    }
    (arena, homes)
}

/// Polls a task. Returns whether it has the mutex.
fn poll(future: &mut MutexFutureLock, lock: &mut WordLock, arena: &mut NodeArena<Node>) -> bool {
    let mut attempt = match future.poll(lock, arena) {
        None => return true,
        Some(attempt) => attempt,
    };
    loop {
        match future.lock_slow(lock, &mut attempt, arena) {
            AttemptStep::Acquired => return true,
            AttemptStep::Wait => return false,
            AttemptStep::NeedNode => WordLock::init_node(&mut attempt, arena, future.node),
            AttemptStep::Continue => {}
            _ => unreachable!(),
        }
    }
}

fn hand_over(lock: &mut WordLock, arena: &mut NodeArena<Node>) -> Option<usize> {
    let mut release = FairUnlock::new();
    loop {
        match unlock_fair(lock, &mut release, arena) {
            FairStep::Continue => {}
            FairStep::Released => return None,
            FairStep::HandedOver(node) => return Some(node),
            FairStep::Kept => unreachable!(),
        }
    }
}

/// Bumps a mutex. Returns the task that has it now, if any waited.
fn bump_over(bump: &mut MutexFutureBump, lock: &mut WordLock, arena: &mut NodeArena<Node>) -> Option<usize> {
    let mut release = match bump.poll(lock, arena) {
        BumpPoll::Bump(release) => release,
        _ => unreachable!(),
    };
    loop {
        match bump.bump_slow(lock, &mut release, arena) {
            FairStep::Continue => {}
            FairStep::Kept => return None,
            FairStep::HandedOver(node) => return Some(node),
            FairStep::Released => unreachable!(),
        }
    }
}

/// Takes a node out of the queue. Returns whether it was there.
fn leave(mut removal: Removal, lock: &mut WordLock, arena: &mut NodeArena<Node>) -> bool {
    loop {
        match remove_waiter(lock, &mut removal, arena) {
            RemoveStep::Continue => {}
            RemoveStep::Removed => return true,
            RemoveStep::Absent => return false,
        }
    }
}

#[test]
fn task_mutex_is_handed_over_in_order() {
    let (mut arena, homes) = arena(3);
    let mut lock = WordLock::new();
    assert!(lock.try_lock());
    let mut tasks = Vec::new();
    for i in 0..3 {
        let mut task = Mutex::new(()).lock(homes[i]);
        assert!(!poll(&mut task, &mut lock, &mut arena));
        assert!(!task.is_terminated());
        tasks.push(task);
    }
    // A task that waits is not enqueued twice.
    assert!(!poll(&mut tasks[0], &mut lock, &mut arena));
    for i in 0..3 {
        assert_eq!(hand_over(&mut lock, &mut arena), Some(homes[i]));
        assert!(lock.state & MUTEX_LOCK != 0);
        assert_eq!(arena.read(homes[i]).flags, WAIT_NODE_HANDOFF);
        assert!(poll(&mut tasks[i], &mut lock, &mut arena));
        assert!(tasks[i].is_terminated());
    }
    assert_eq!(lock.state, MUTEX_LOCK);
    assert_eq!(hand_over(&mut lock, &mut arena), None);
    assert_eq!(lock.state, 0);
}

#[test]
fn task_mutex_is_released_unfairly() {
    let (mut arena, homes) = arena(1);
    let mut mutex = Mutex::new(1);
    assert!(mutex.try_lock());
    let mut task = mutex.lock(homes[0]);
    assert!(!poll(&mut task, &mut mutex.lock, &mut arena));
    assert_eq!(arena.read(homes[0]).flags, WAIT_NODE_INIT);
    let mut dequeue = unlock(&mut mutex.lock).unwrap();
    let woken = loop {
        match mutex.lock.unlock_unfair_slow(&mut dequeue, &mut arena) {
            DequeueStep::Continue => {}
            DequeueStep::Done => unreachable!(),
            DequeueStep::Wake(node) => break node,
        }
    };
    assert_eq!(woken, homes[0]);
    wake_node(&mut arena, woken);
    assert_eq!(arena.read(homes[0]).flags, 0);
    // Another task was faster, so the woken one waits again.
    assert!(mutex.try_lock());
    assert!(!poll(&mut task, &mut mutex.lock, &mut arena));
    assert_eq!(mutex.lock.state, homes[0] | MUTEX_LOCK);
    *mutex.get_mut() += 1;
    assert_eq!(mutex.into_inner(), 2);
    assert_eq!(Mutex::from(7).into_inner(), 7);
    let mutex: Mutex<u8> = Mutex::default();
    assert_eq!(mutex.into_inner(), 0);
}

#[test]
fn bump_without_waiting_tasks_does_nothing() {
    let (mut arena, homes) = arena(1);
    let mut lock = WordLock::new();
    assert!(lock.try_lock());
    let mut bump = MutexFutureBump::new(homes[0]);
    assert!(!bump.is_terminated());
    assert_eq!(bump.end(&arena), DropStep::Done);
    assert_eq!(bump_over(&mut bump, &mut lock, &mut arena), None);
    assert!(bump.is_terminated());
    assert_eq!(bump.end(&arena), DropStep::Done);
    assert_eq!(lock.state, MUTEX_LOCK);
}

#[test]
fn bumping_task_waits_behind_all_others() {
    let (mut arena, homes) = arena(3);
    let mut lock = WordLock::new();
    assert!(lock.try_lock());
    let mut first = MutexFutureLock { is_acquired: false, node: homes[0] };
    let mut second = MutexFutureLock { is_acquired: false, node: homes[1] };
    assert!(!poll(&mut first, &mut lock, &mut arena));
    assert!(!poll(&mut second, &mut lock, &mut arena));
    let mut bump = MutexFutureBump::new(homes[2]);
    assert_eq!(bump_over(&mut bump, &mut lock, &mut arena), Some(homes[0]));
    assert!(!bump.is_terminated());
    assert!(poll(&mut first, &mut lock, &mut arena));
    assert!(matches!(bump.poll(&mut lock, &arena), BumpPoll::Slow(_)));
    assert_eq!(hand_over(&mut lock, &mut arena), Some(homes[1]));
    assert!(poll(&mut second, &mut lock, &mut arena));
    assert_eq!(hand_over(&mut lock, &mut arena), Some(homes[2]));
    assert_eq!(bump.poll(&mut lock, &arena), BumpPoll::Ready);
    assert!(bump.is_terminated());
    assert_eq!(lock.state, MUTEX_LOCK);
}

#[test]
fn bump_takes_turns_with_one_task() {
    let (mut arena, homes) = arena(2);
    let mut lock = WordLock::new();
    assert!(lock.try_lock());
    let mut task = MutexFutureLock { is_acquired: false, node: homes[0] };
    assert!(!poll(&mut task, &mut lock, &mut arena));
    let mut bump = MutexFutureBump::new(homes[1]);
    assert_eq!(bump_over(&mut bump, &mut lock, &mut arena), Some(homes[0]));
    assert_eq!(lock.state, homes[1] | MUTEX_LOCK);
    assert!(poll(&mut task, &mut lock, &mut arena));
    assert_eq!(hand_over(&mut lock, &mut arena), Some(homes[1]));
    assert_eq!(bump.poll(&mut lock, &arena), BumpPoll::Ready);
    assert_eq!(lock.state, MUTEX_LOCK);
}

#[test]
fn fair_release_waits_for_the_right_to_the_queue() {
    let (mut arena, homes) = arena(1);
    let mut lock = WordLock::new();
    assert!(lock.try_lock());
    let mut task = MutexFutureLock { is_acquired: false, node: homes[0] };
    assert!(!poll(&mut task, &mut lock, &mut arena));
    let free = lock.state;
    lock.state |= QUEUE_LOCK;
    let mut release = FairUnlock::new();
    for _ in 0..10 {
        assert_eq!(unlock_fair(&mut lock, &mut release, &mut arena), FairStep::Continue);
        assert!(!release.has_right);
    }
    assert_eq!(lock.state, free | QUEUE_LOCK);
    lock.state = free;
    assert_eq!(hand_over(&mut lock, &mut arena), Some(homes[0]));
}

#[test]
fn task_that_ends_leaves_the_queue() {
    for leaving in 0..3 {
        let (mut arena, homes) = arena(3);
        let mut lock = WordLock::new();
        assert!(lock.try_lock());
        let mut tasks = Vec::new();
        for i in 0..3 {
            let mut task = MutexFutureLock { is_acquired: false, node: homes[i] };
            assert!(!poll(&mut task, &mut lock, &mut arena));
            tasks.push(task);
        }
        let removal = match tasks[leaving].end(&arena) {
            DropStep::Remove(removal) => removal,
            _ => unreachable!(),
        };
        assert!(leave(removal, &mut lock, &mut arena));
        assert!(!leave(removal, &mut lock, &mut arena));
        // It may have been woken meanwhile, so it wakes another.
        assert!(matches!(tasks[leaving].end(&arena), DropStep::Wake(_)));
        for i in 0..3 {
            if i != leaving {
                assert_eq!(hand_over(&mut lock, &mut arena), Some(homes[i]));
                assert_eq!(tasks[i].end(&arena), DropStep::Release);
                assert!(poll(&mut tasks[i], &mut lock, &mut arena));
                assert_eq!(tasks[i].end(&arena), DropStep::Done);
            }
        }
        assert_eq!(lock.state, MUTEX_LOCK);
    }
}

#[test]
fn last_task_that_ends_leaves_an_empty_queue() {
    let (mut arena, homes) = arena(1);
    let mut lock = WordLock::new();
    assert!(lock.try_lock());
    let mut bump = MutexFutureBump { bumped: true, is_acquired: false, node: homes[0] };
    let mut task = MutexFutureLock { is_acquired: false, node: homes[0] };
    assert!(!poll(&mut task, &mut lock, &mut arena));
    let removal = match bump.end(&arena) {
        DropStep::Remove(removal) => removal,
        _ => unreachable!(),
    };
    assert!(leave(removal, &mut lock, &mut arena));
    assert_eq!(lock.state, MUTEX_LOCK);
    assert!(lock.unlock_unfair().is_none());
    assert_eq!(bump.poll(&mut lock, &arena), BumpPoll::Ready);
}

#[test]
fn pending_task_may_be_polled() {
    let (mut arena, homes) = arena(2);
    let mut lock = WordLock::new();
    assert!(lock.try_lock());
    let mut first = MutexFutureLock { is_acquired: false, node: homes[0] };
    let mut second = MutexFutureLock { is_acquired: false, node: homes[1] };
    assert!(!poll(&mut first, &mut lock, &mut arena));
    assert!(!poll(&mut second, &mut lock, &mut arena));
    assert!(unlock(&mut lock).is_some());
    // It gets the mutex before it is woken, and leaves the queue.
    let mut attempt = second.poll(&mut lock, &arena).unwrap();
    while second.lock_slow(&mut lock, &mut attempt, &mut arena) != AttemptStep::Acquired {}
    let removal = leave_queue(&attempt, homes[1]).unwrap();
    assert!(leave(removal, &mut lock, &mut arena));
    assert_eq!(lock.state, homes[0] | MUTEX_LOCK);
    assert_eq!(hand_over(&mut lock, &mut arena), Some(homes[0]));
    assert!(leave_queue(&Attempt { queued: false, ..attempt }, homes[1]).is_none());
}

#[test]
fn unlocked_task_keeps_its_output() {
    let (arena, homes) = arena(1);
    let mut lock = WordLock::new();
    let future = MutexFutureUnlock::new(homes[0], 5);
    assert!(lock.try_lock());
    let attempt = future.poll(&mut lock, &arena).unwrap();
    assert!(!attempt.queued);
    assert!(lock.unlock_unfair().is_none());
    assert!(future.poll(&mut lock, &arena).is_none());
    assert_eq!(future.ready(), 5);
}

#[test]
fn word_mutex_is_polled() {
    let (mut arena, homes) = arena(2);
    let mut mutex = WordMutex::from(3);
    assert!(!mutex.is_locked());
    assert!(mutex.poll(&mut arena, homes[0]).is_none());
    assert!(mutex.is_locked());
    let mut attempt = mutex.poll(&mut arena, homes[1]).unwrap();
    let mut spins = 0;
    loop {
        match mutex.lock_slow(&mut attempt, &mut arena) {
            AttemptStep::Wait => break,
            AttemptStep::Spin(n) => spins += n,
            AttemptStep::Continue => {}
            _ => unreachable!(),
        }
    }
    assert_eq!(spins, 30);
    let mut dequeue = mutex.unlock().unwrap();
    let mut step = DequeueStep::Continue;
    while step == DequeueStep::Continue {
        step = mutex.unlock_slow(&mut dequeue, &mut arena);
    }
    assert_eq!(step, DequeueStep::Wake(homes[1]));
    assert!(mutex.poll(&mut arena, homes[1]).is_none());
    assert!(mutex.unlock().is_none());
    assert!(mutex.try_lock());
    *mutex.get_mut() = 9;
    assert_eq!(mutex.value, 9);
    let mutex: WordMutex<u8> = WordMutex::default();
    assert_eq!(mutex.value, 0);
}

#[test]
fn signal_mutex_has_one_permit() {
    let mut mutex = GenericMutex::new(4);
    assert!(mutex.try_lock());
    assert!(!mutex.try_lock());
    assert!(!mutex.force_unlock());
    assert!(mutex.lock());
    assert!(!mutex.lock());
    // The task that waits has the mutex now.
    assert!(mutex.force_unlock());
    assert!(!mutex.try_lock());
    assert!(!mutex.force_unlock());
    assert!(mutex.try_lock());
    *mutex.get_mut() += 1;
    assert_eq!(mutex.into_inner(), 5);
}

#[test]
fn lot_lock_guards_a_value() {
    let (mut arena, homes) = arena(1);
    let mut lock = Lock::new(5);
    assert!(lock.lock().is_none());
    let mut attempt = lock.lock().unwrap();
    let mut asked = 0;
    loop {
        match lock.lock_slow(&mut attempt, &mut arena) {
            AttemptStep::Yield { contended, iteration } => {
                assert!(!contended);
                assert_eq!(iteration, asked);
                asked += 1;
                attempt.yielded(asked < 3);
            }
            AttemptStep::NeedNode => attempt.set_node(homes[0]),
            AttemptStep::Wait => break,
            AttemptStep::Continue => {}
            _ => unreachable!(),
        }
    }
    assert_eq!(asked, 3);
    let (mut lock, result) = lock.locked(|value| (value + 1, value));
    assert_eq!(result, 5);
    assert_eq!(lock.value, 6);
    let mut dequeue = lock.unlock().unwrap();
    let mut step = DequeueStep::Continue;
    while step == DequeueStep::Continue {
        step = lock.unlock_slow(&mut dequeue, &mut arena);
    }
    assert_eq!(step, DequeueStep::Wake(homes[0]));
    assert_eq!(lock.state, 0);
}

fn lot(n: usize) -> (NodeArena<ParkNode>, Vec<usize>, Parker) {
    let mut arena = NodeArena::new();
    let mut homes = Vec::new();
    let mut parker = Parker::new();
    for i in 0..n {
        let home = arena.add_node(ParkNode::new()).unwrap();
        homes.push(home);
        assert_eq!(parker.park(&mut arena, home, || Ok(10 + i)), None);
    }
    (arena, homes, parker)
}

#[test]
fn unprepared_task_does_not_park() {
    let mut arena = NodeArena::new();
    let home = arena.add_node(ParkNode::new()).unwrap();
    let mut parker = Parker::new();
    assert_eq!(parker.park(&mut arena, home, || Err(())), Some(ParkResult::Unprepared));
    assert!(parker.queue.value.is_empty());
}

#[test]
fn tasks_are_unparked_as_the_filter_decides() {
    let (mut arena, homes, mut parker) = lot(4);
    arena.write(homes[1], ParkNode { state: ParkState::Updating.number(), token: 11 });
    let mut told = Vec::new();
    let (context, list) = parker.unpark(&mut arena, |context, token| {
        told.push((context.has_more, context.unparked, context.skipped, token));
        match token {
            10 => (UnparkResult::Skip, 20),
            13 => (UnparkResult::Stop, 23),
            _ => (UnparkResult::Unpark, token + 100),
        }
    });
    assert_eq!(
        told,
        vec![(true, 0, 0, 10), (true, 0, 1, 11), (true, 1, 1, 12), (false, 2, 1, 13)]
    );
    assert_eq!(context, UnparkContext { has_more: true, unparked: 2, skipped: 1 });
    // A task that changes its waker is not notified.
    assert_eq!(list.iter(), vec![homes[2]]);
    assert_eq!(parker.queue.value, vec![homes[0], homes[3]]);
    assert_eq!(arena.read(homes[0]), ParkNode { state: 0, token: 20 });
    assert_eq!(arena.read(homes[1]), ParkNode { state: 2, token: 111 });
    assert_eq!(arena.read(homes[2]), ParkNode { state: 2, token: 112 });
    assert_eq!(arena.read(homes[3]), ParkNode { state: 0, token: 23 });
}

#[test]
fn empty_lot_has_no_more() {
    let (mut arena, _, mut parker) = lot(0);
    let (context, list) = parker.unpark(&mut arena, |_, token| (UnparkResult::Unpark, token));
    assert_eq!(context, UnparkContext { has_more: false, unparked: 0, skipped: 0 });
    assert!(list.iter().is_empty());
    let (context, notify) = parker.unpark_one(&mut arena, |_, token| token);
    assert_eq!(context, UnparkContext { has_more: false, unparked: 0, skipped: 0 });
    assert_eq!(notify, None);
}

#[test]
fn task_at_which_the_filter_stops_is_one_more() {
    let (mut arena, homes, mut parker) = lot(1);
    let (context, list) = parker.unpark(&mut arena, |_, token| (UnparkResult::Stop, token));
    assert_eq!(context, UnparkContext { has_more: true, unparked: 0, skipped: 0 });
    assert!(list.iter().is_empty());
    assert_eq!(parker.queue.value, homes);
    let (context, list) = parker.unpark(&mut arena, |_, token| (UnparkResult::Unpark, token));
    assert_eq!(context, UnparkContext { has_more: false, unparked: 1, skipped: 0 });
    assert_eq!(list.iter(), homes);
}

#[test]
fn one_task_is_unparked() {
    let (mut arena, homes, mut parker) = lot(3);
    for i in 0..3 {
        let (context, notify) = parker.unpark_one(&mut arena, |context, token| {
            assert_eq!(context.has_more, i < 2);
            token * 2
        });
        assert_eq!(context, UnparkContext { has_more: i < 2, unparked: 1, skipped: 0 });
        assert_eq!(notify, Some(homes[i]));
        assert_eq!(arena.read(homes[i]), ParkNode { state: 2, token: 2 * (10 + i) });
    }
}

#[test]
fn tasks_can_be_removed() {
    let (_, homes, mut parker) = lot(2);
    assert_eq!(parker.remove(homes[0]), Ok(false));
    assert_eq!(parker.remove(homes[0]), Err(()));
    assert_eq!(parker.remove(homes[1]), Ok(true));
}

#[test]
fn long_lists_tell_all() {
    let mut list = UnparkList::new();
    for i in 0..40 {
        list.push(i);
        assert_eq!(list.iter(), (0..i + 1).collect::<Vec<usize>>());
    }
    assert_eq!(list.array.len(), 16);
}

#[test]
fn many_tasks_are_all_notified() {
    let (mut arena, homes, mut parker) = lot(30);
    let (context, list) = parker.unpark(&mut arena, |_, token| (UnparkResult::Unpark, token));
    assert_eq!(context, UnparkContext { has_more: false, unparked: 30, skipped: 0 });
    assert_eq!(list.iter(), homes);
}

#[test]
fn task_states_are_the_lowest_bits() {
    assert_eq!(ParkState::from(0), ParkState::Waiting);
    assert_eq!(ParkState::from(5), ParkState::Updating);
    assert_eq!(ParkState::from(2), ParkState::Unparked);
    assert_eq!(ParkState::from(7), ParkState::Cancelled);
    assert_eq!(ParkState::Cancelled.number(), 3);
    assert!(ParkPoll::needs_removal(0));
    assert!(!ParkPoll::needs_removal(2));
}

#[test]
fn pending_task_stores_its_waker() {
    let mut state: usize = 0;
    let mut poll = ParkPoll::new(true, true);
    assert_eq!(poll.poll(&mut state, 9), PollStep::Continue);
    assert_eq!(poll.poll(&mut state, 9), PollStep::Wait);
    assert!(!poll.waited(false));
    assert_eq!(poll.poll(&mut state, 9), PollStep::Continue);
    assert_eq!(poll.poll(&mut state, 9), PollStep::StoreWaker);
    assert_eq!(state, ParkState::Updating.number());
    assert_eq!(poll.poll(&mut state, 9), PollStep::Pending);
    assert_eq!(state, ParkState::Waiting.number());
    state = ParkState::Unparked.number();
    let mut poll = ParkPoll::new(false, true);
    assert_eq!(poll.poll(&mut state, 9), PollStep::Continue);
    assert_eq!(poll.poll(&mut state, 9), PollStep::Ready(ParkResult::Unparked(9)));
}

#[test]
fn task_that_is_unparked_meanwhile_notices() {
    let mut state: usize = 0;
    let mut poll = ParkPoll::new(false, true);
    assert_eq!(poll.poll(&mut state, 9), PollStep::Continue);
    assert_eq!(poll.poll(&mut state, 9), PollStep::StoreWaker);
    state = ParkState::Unparked.number();
    assert_eq!(poll.poll(&mut state, 9), PollStep::DropWaker);
    assert_eq!(poll.poll(&mut state, 9), PollStep::Ready(ParkResult::Unparked(9)));
}

#[test]
fn task_that_gives_up_is_cancelled_once() {
    let (mut arena, homes, mut parker) = lot(2);
    let mut state: usize = arena.read(homes[0]).state;
    let mut poll = ParkPoll::new(true, true);
    assert_eq!(poll.poll(&mut state, 10), PollStep::Continue);
    assert_eq!(poll.poll(&mut state, 10), PollStep::Wait);
    assert!(poll.waited(true));
    let removed = parker.remove(homes[0]);
    assert_eq!(poll.cancelled(&mut arena, homes[0], removed), Some((10, false)));
    state = arena.read(homes[0]).state;
    assert_eq!(state, ParkState::Cancelled.number());
    assert_eq!(poll.poll(&mut state, 10), PollStep::Ready(ParkResult::Cancelled(10)));
    let removed = parker.remove(homes[0]);
    assert_eq!(poll.cancelled(&mut arena, homes[0], removed), None);
    let removed = parker.remove(homes[1]);
    assert_eq!(poll.cancelled(&mut arena, homes[1], removed), None);
}
