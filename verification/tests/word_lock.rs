use yaar_lock::lock_word::{
    compare_exchange, doubled, release, try_acquire, try_enqueue, Attempt, AttemptStep, Backoff, Dequeue,
    DequeuePhase, DequeueStep, MUTEX_LOCK, QUEUE_LOCK,
};
use yaar_lock::mutex::sync::SyncMutex;
use yaar_lock::mutex::WordLock;
use yaar_lock::queue::{Memory, Node, NodeArena};

fn arena(n: usize) -> (NodeArena<Node>, Vec<usize>) {
    let mut arena = NodeArena::new();
    let mut homes = Vec::new();
    for _ in 0..n {
        homes.push(arena.add_node(Node::new()).unwrap());
    }
    (arena, homes)
}

fn lock(lock: &mut WordLock, arena: &mut NodeArena<Node>, home: usize) -> (bool, Attempt) {
    let mut attempt = match lock.lock() {
        None => return (true, Attempt::new(Backoff::Ask)),
        Some(attempt) => attempt,
    };
    loop {
        match lock.lock_slow(&mut attempt, arena) {
            AttemptStep::Acquired => return (true, attempt),
            AttemptStep::Wait => return (false, attempt),
            AttemptStep::NeedNode => attempt.set_node(home),
            _ => {}
        }
    }
}

fn unlock(lock: &mut WordLock, arena: &mut NodeArena<Node>) -> Option<usize> {
    let mut dequeue = lock.unlock()?;
    loop {
        match lock.unlock_slow(&mut dequeue, arena) {
            DequeueStep::Continue => {}
            DequeueStep::Done => return None,
            DequeueStep::Wake(node) => return Some(node),
        }
    }
}

#[test]
fn exchange_needs_the_expected_word() {
    let mut word: usize = 5;
    assert_eq!(compare_exchange(&mut word, 4, 9), Err(5));
    assert_eq!(word, 5);
    assert_eq!(compare_exchange(&mut word, 5, 9), Ok(5));
    assert_eq!(word, 9);
    assert_eq!(try_acquire(&mut word, 8), Err(9));
    word = 8;
    assert_eq!(try_acquire(&mut word, 8), Ok(()));
    assert_eq!(word, 9);
}

#[test]
fn hints_double() {
    assert_eq!(doubled(0), 1);
    assert_eq!(doubled(1), 2);
    assert_eq!(doubled(10), 1024);
    assert_eq!(doubled(31), 2147483648);
}

#[test]
fn release_tells_who_wakes() {
    let mut word: usize = MUTEX_LOCK;
    assert!(!release(&mut word));
    assert_eq!(word, 0);
    let mut word: usize = 512 | MUTEX_LOCK;
    assert!(release(&mut word));
    assert_eq!(word, 512);
    let mut word: usize = 512 | MUTEX_LOCK | QUEUE_LOCK;
    assert!(!release(&mut word));
    assert_eq!(word, 512 | QUEUE_LOCK);
}

#[test]
fn nodes_are_enqueued_in_front() {
    let (mut arena, homes) = arena(2);
    let mut word: usize = MUTEX_LOCK;
    assert_eq!(try_enqueue(&mut word, &mut arena, MUTEX_LOCK, homes[0]), Ok(()));
    assert_eq!(word, homes[0] | MUTEX_LOCK);
    assert_eq!(arena.read(homes[0]), Node { prev: 0, next: 0, tail: homes[0], flags: 0 });
    let state = word;
    assert_eq!(try_enqueue(&mut word, &mut arena, state, homes[1]), Ok(()));
    assert_eq!(word, homes[1] | MUTEX_LOCK);
    assert_eq!(arena.read(homes[1]), Node { prev: 0, next: homes[0], tail: 0, flags: 0 });
    assert_eq!(try_enqueue(&mut word, &mut arena, state, homes[1]), Err(homes[1] | MUTEX_LOCK));
}

#[test]
fn free_lock_is_taken_at_once() {
    let mut lock = WordLock::new();
    assert!(lock.try_lock());
    assert_eq!(lock.state, MUTEX_LOCK);
    assert!(!lock.try_lock());
    assert!(lock.unlock().is_none());
    assert_eq!(lock.state, 0);
    assert!(lock.lock().is_none());
}

#[test]
fn waiting_thread_spins_four_times_first() {
    let (mut arena, homes) = arena(1);
    let mut lock = WordLock::new();
    assert!(lock.try_lock());
    let mut attempt = lock.lock().unwrap();
    let mut spins = Vec::new();
    loop {
        match lock.lock_slow(&mut attempt, &mut arena) {
            AttemptStep::Spin(n) => spins.push(n),
            AttemptStep::NeedNode => attempt.set_node(homes[0]),
            AttemptStep::Wait => break,
            AttemptStep::Continue => {}
            _ => unreachable!(),
        }
    }
    assert_eq!(spins, vec![2, 4, 8, 16]);
    assert_eq!(lock.state, homes[0] | MUTEX_LOCK);
    // Once a thread waits, another does not spin.
    let mut attempt = lock.lock().unwrap();
    assert_eq!(lock.lock_slow(&mut attempt, &mut arena), AttemptStep::Continue);
    assert_eq!(lock.lock_slow(&mut attempt, &mut arena), AttemptStep::NeedNode);
}

#[test]
fn threads_are_woken_in_the_order_they_came() {
    let (mut arena, homes) = arena(4);
    let mut word_lock = WordLock::new();
    assert!(lock(&mut word_lock, &mut arena, homes[0]).0);
    let mut attempts = Vec::new();
    for i in 1..4 {
        let (acquired, attempt) = lock(&mut word_lock, &mut arena, homes[i]);
        assert!(!acquired);
        attempts.push(attempt);
    }
    assert_eq!(unlock(&mut word_lock, &mut arena), Some(homes[1]));
    assert!(word_lock.state & MUTEX_LOCK == 0);
    assert!(word_lock.state & QUEUE_LOCK == 0);
    attempts[0].woken(&mut arena);
    assert_eq!(word_lock.lock_slow(&mut attempts[0], &mut arena), AttemptStep::Continue);
    assert_eq!(word_lock.lock_slow(&mut attempts[0], &mut arena), AttemptStep::Acquired);
    assert_eq!(unlock(&mut word_lock, &mut arena), Some(homes[2]));
    attempts[1].woken(&mut arena);
    assert_eq!(word_lock.lock_slow(&mut attempts[1], &mut arena), AttemptStep::Continue);
    assert_eq!(word_lock.lock_slow(&mut attempts[1], &mut arena), AttemptStep::Acquired);
    assert_eq!(unlock(&mut word_lock, &mut arena), Some(homes[3]));
    assert_eq!(word_lock.state, 0);
}

#[test]
fn holder_is_left_to_wake() {
    let (mut arena, homes) = arena(2);
    let mut word_lock = WordLock::new();
    assert!(word_lock.try_lock());
    assert!(!lock(&mut word_lock, &mut arena, homes[1]).0);
    let mut dequeue = word_lock.unlock().unwrap();
    // Another thread takes the lock before the waking thread has come far.
    let mut state = word_lock.state;
    assert_eq!(try_acquire(&mut word_lock.state, state), Ok(()));
    let mut step = DequeueStep::Continue;
    while step == DequeueStep::Continue {
        step = word_lock.unlock_slow(&mut dequeue, &mut arena);
    }
    assert_eq!(step, DequeueStep::Done);
    state = word_lock.state;
    assert_eq!(state, homes[1] | MUTEX_LOCK);
    assert_eq!(unlock(&mut word_lock, &mut arena), Some(homes[1]));
}

#[test]
fn node_that_comes_in_meanwhile_is_not_lost() {
    let (mut arena, homes) = arena(3);
    let mut word_lock = WordLock::new();
    assert!(word_lock.try_lock());
    assert!(!lock(&mut word_lock, &mut arena, homes[1]).0);
    let mut dequeue = word_lock.unlock().unwrap();
    // The thread gets the right to the queue.
    assert_eq!(word_lock.unlock_slow(&mut dequeue, &mut arena), DequeueStep::Continue);
    assert_eq!(word_lock.unlock_slow(&mut dequeue, &mut arena), DequeueStep::Continue);
    assert_eq!(dequeue.phase, DequeuePhase::FindTail);
    // Meanwhile a node comes in and the holder is gone again.
    let state = word_lock.state;
    assert_eq!(try_enqueue(&mut word_lock.state, &mut arena, state, homes[2]), Ok(()));
    let mut step = DequeueStep::Continue;
    while step == DequeueStep::Continue {
        step = word_lock.unlock_slow(&mut dequeue, &mut arena);
    }
    assert_eq!(step, DequeueStep::Wake(homes[1]));
    assert_eq!(word_lock.state, homes[2]);
}

#[test]
fn thread_asks_before_it_blocks() {
    let (mut arena, homes) = arena(1);
    let mut word: usize = MUTEX_LOCK;
    let mut attempt = Attempt::new(Backoff::Ask);
    assert_eq!(attempt.step(&mut word, &mut arena), AttemptStep::Continue);
    assert_eq!(
        attempt.step(&mut word, &mut arena),
        AttemptStep::Yield { contended: false, iteration: 0 }
    );
    attempt.yielded(true);
    assert_eq!(attempt.step(&mut word, &mut arena), AttemptStep::Continue);
    assert_eq!(
        attempt.step(&mut word, &mut arena),
        AttemptStep::Yield { contended: false, iteration: 1 }
    );
    attempt.yielded(false);
    assert_eq!(attempt.step(&mut word, &mut arena), AttemptStep::NeedNode);
    attempt.set_node(homes[0]);
    assert_eq!(attempt.step(&mut word, &mut arena), AttemptStep::Wait);
    assert_eq!(word, homes[0] | MUTEX_LOCK);
}

#[test]
fn queued_thread_does_not_ask_under_contention() {
    let (mut arena, homes) = arena(1);
    let mut word: usize = homes[0] | MUTEX_LOCK;
    let mut attempt = Attempt::new(Backoff::AskUncontended);
    assert_eq!(attempt.step(&mut word, &mut arena), AttemptStep::Continue);
    assert_eq!(attempt.step(&mut word, &mut arena), AttemptStep::NeedNode);
}

#[test]
fn sync_mutex_locks_and_unlocks() {
    let mut mutex = SyncMutex::new();
    assert!(mutex.try_lock());
    assert!(!mutex.try_lock());
    assert!(mutex.lock().is_some());
    assert!(mutex.unlock().is_none());
    assert!(mutex.lock().is_none());
    assert_eq!(mutex.0.state, MUTEX_LOCK);
}
