use yaar_lock::queue::{Memory, Node, NodeArena};
use yaar_lock::sync::lock::{Lock, LockAttempt, LockStep, WakeStep, LOCKED, WAKING};

fn arena(n: usize) -> (NodeArena<Node>, Vec<usize>) {
    let mut arena = NodeArena::new();
    let mut homes = Vec::new();
    for _ in 0..n {
        homes.push(arena.add_node(Node::new()).unwrap());
    }
    (arena, homes)
}

fn acquire(lock: &mut Lock, arena: &mut NodeArena<Node>, home: usize) -> (bool, LockAttempt) {
    let mut attempt = match lock.lock() {
        None => return (true, LockAttempt::new()),
        Some(attempt) => attempt,
    };
    (go_on(lock, &mut attempt, arena, home), attempt)
}

fn go_on(lock: &mut Lock, attempt: &mut LockAttempt, arena: &mut NodeArena<Node>, home: usize) -> bool {
    loop {
        match lock.lock_slow(attempt, arena) {
            LockStep::Acquired => return true,
            LockStep::Wait => return false,
            LockStep::NeedNode => attempt.set_node(home),
            LockStep::Yield(_) => attempt.yielded(false),
            LockStep::Continue => {}
        }
    }
}

fn free(lock: &mut Lock, arena: &mut NodeArena<Node>) -> Option<usize> {
    let mut wake = lock.unlock();
    loop {
        match lock.unlock_slow(&mut wake, arena) {
            WakeStep::Continue => {}
            WakeStep::Done => return None,
            WakeStep::Wake(node) => return Some(node),
        }
    }
}

#[test]
fn byte_lock_excludes() {
    let mut lock = Lock::new();
    assert!(!lock.locked());
    assert!(lock.try_lock());
    assert!(lock.locked());
    assert!(!lock.try_lock());
    assert_eq!(lock.state, LOCKED);
    let (mut arena, _) = arena(0);
    assert_eq!(free(&mut lock, &mut arena), None);
    assert_eq!(lock.state, 0);
}

#[test]
fn byte_lock_can_be_taken_past_waiting_threads() {
    let (mut arena, homes) = arena(2);
    let mut lock = Lock::new();
    assert!(lock.try_lock());
    assert!(!acquire(&mut lock, &mut arena, homes[0]).0);
    assert_eq!(lock.state, homes[0] | LOCKED);
    assert_eq!(arena.read(homes[0]).tail, homes[0]);
    let _wake = lock.unlock();
    assert!(lock.try_lock());
    assert_eq!(lock.state, homes[0] | LOCKED);
}

#[test]
fn one_thread_at_a_time_is_on_its_way() {
    let (mut arena, homes) = arena(3);
    let mut lock = Lock::new();
    assert!(lock.try_lock());
    let (acquired, mut first) = acquire(&mut lock, &mut arena, homes[0]);
    assert!(!acquired);
    let (acquired, mut second) = acquire(&mut lock, &mut arena, homes[1]);
    assert!(!acquired);
    assert_eq!(free(&mut lock, &mut arena), Some(homes[0]));
    assert!(lock.state & WAKING != 0);
    // While the first thread is on its way nobody else is woken.
    assert!(lock.try_lock());
    assert_eq!(free(&mut lock, &mut arena), None);
    lock.lock_woken(&mut first, &mut arena);
    assert!(lock.state & WAKING == 0);
    assert!(go_on(&mut lock, &mut first, &mut arena, homes[0]));
    assert_eq!(free(&mut lock, &mut arena), Some(homes[1]));
    lock.lock_woken(&mut second, &mut arena);
    assert!(go_on(&mut lock, &mut second, &mut arena, homes[1]));
    assert_eq!(free(&mut lock, &mut arena), None);
    assert_eq!(lock.state, 0);
}

#[test]
fn thread_that_lost_the_race_waits_again() {
    let (mut arena, homes) = arena(1);
    let mut lock = Lock::new();
    assert!(lock.try_lock());
    let (_, mut attempt) = acquire(&mut lock, &mut arena, homes[0]);
    assert_eq!(free(&mut lock, &mut arena), Some(homes[0]));
    assert!(lock.try_lock());
    lock.lock_woken(&mut attempt, &mut arena);
    assert!(!go_on(&mut lock, &mut attempt, &mut arena, homes[0]));
    assert_eq!(lock.state, homes[0] | LOCKED);
    assert_eq!(free(&mut lock, &mut arena), Some(homes[0]));
}
