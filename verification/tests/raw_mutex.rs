use yaar_lock::event::YieldContext;
use yaar_lock::queue::NodeArena;
use yaar_lock::sync::mutex::GenericMutex;
use yaar_lock::sync::parker::{ParkResult, Parker, WaitState, Waiter};
use yaar_lock::sync::raw_mutex::{
    AcquireAttempt, AcquireStep, GenericRawMutex, HANDOFF_TOKEN, LOCKED, PARKED, RETRY_TOKEN, UNLOCKED,
};

fn waiter() -> Waiter {
    Waiter { state: WaitState::Parked(0), prev: 0, next: 0, tail: 0 }
}

fn homes(n: usize) -> (NodeArena<Waiter>, Vec<usize>) {
    let mut arena = NodeArena::new();
    let mut homes = Vec::new();
    for _ in 0..n {
        homes.push(arena.add_node(waiter()).unwrap());
    }
    (arena, homes)
}

/// Acquires the mutex or parks.
fn acquire(mutex: &mut GenericRawMutex, arena: &mut NodeArena<Waiter>, home: usize) -> (bool, AcquireAttempt) {
    let mut attempt = match mutex.acquire() {
        None => return (true, AcquireAttempt::new()),
        Some(attempt) => attempt,
    };
    (go_on(mutex, &mut attempt, arena, home), attempt)
}

fn go_on(
    mutex: &mut GenericRawMutex,
    attempt: &mut AcquireAttempt,
    arena: &mut NodeArena<Waiter>,
    home: usize,
) -> bool {
    loop {
        match mutex.acquire_slow(attempt) {
            AcquireStep::Acquired => return true,
            AcquireStep::Cancelled => unreachable!(),
            AcquireStep::Continue => {}
            AcquireStep::Yield(_) => attempt.yielded(false),
            AcquireStep::Park => match mutex.park(arena, home) {
                None => return false,
                Some(result) => assert_eq!(attempt.returned(result), AcquireStep::Continue),
            },
        }
    }
}

#[test]
fn raw_mutex_excludes() {
    let mut mutex = GenericRawMutex::new();
    assert_eq!(mutex.state, UNLOCKED);
    assert!(mutex.try_lock());
    assert_eq!(mutex.state, LOCKED);
    assert!(!mutex.try_lock());
    assert!(mutex.acquire().is_some());
    assert!(!mutex.bump());
    assert!(mutex.release());
    assert_eq!(mutex.state, UNLOCKED);
    assert!(mutex.acquire().is_none());
}

#[test]
fn raw_mutex_yields_before_it_parks() {
    let (mut arena, homes) = homes(1);
    let mut mutex = GenericRawMutex::new();
    assert!(mutex.try_lock());
    let mut attempt = mutex.acquire().unwrap();
    assert_eq!(mutex.acquire_slow(&mut attempt), AcquireStep::Continue);
    assert_eq!(
        mutex.acquire_slow(&mut attempt),
        AcquireStep::Yield(YieldContext { contended: false, iteration: 0 })
    );
    attempt.yielded(true);
    assert_eq!(mutex.acquire_slow(&mut attempt), AcquireStep::Continue);
    assert_eq!(
        mutex.acquire_slow(&mut attempt),
        AcquireStep::Yield(YieldContext { contended: false, iteration: 1 })
    );
    attempt.yielded(false);
    assert_eq!(mutex.acquire_slow(&mut attempt), AcquireStep::Park);
    assert_eq!(mutex.state, LOCKED | PARKED);
    assert_eq!(mutex.park(&mut arena, homes[0]), None);
    assert!(mutex.bump());
}

#[test]
fn unfair_release_lets_the_first_thread_try_again() {
    let (mut arena, homes) = homes(2);
    let mut mutex = GenericRawMutex::new();
    assert!(mutex.try_lock());
    let (acquired, mut first) = acquire(&mut mutex, &mut arena, homes[0]);
    assert!(!acquired);
    assert!(!acquire(&mut mutex, &mut arena, homes[1]).0);
    assert!(!mutex.release());
    let list = mutex.release_slow(&mut arena, false);
    assert_eq!(list.iter(&arena), vec![homes[0]]);
    assert_eq!(mutex.state, PARKED);
    let result = Parker::unparked(&arena, homes[0]);
    assert_eq!(result, ParkResult::Unparked(RETRY_TOKEN));
    assert_eq!(first.returned(result), AcquireStep::Continue);
    assert!(go_on(&mut mutex, &mut first, &mut arena, homes[0]));
    assert_eq!(mutex.state, LOCKED | PARKED);
    let list = mutex.release_slow(&mut arena, false);
    assert_eq!(list.iter(&arena), vec![homes[1]]);
    assert_eq!(mutex.state, UNLOCKED);
}

#[test]
fn fair_release_hands_the_mutex_over() {
    let (mut arena, homes) = homes(2);
    let mut mutex = GenericRawMutex::new();
    assert!(mutex.try_lock());
    let (_, mut first) = acquire(&mut mutex, &mut arena, homes[0]);
    let (_, mut second) = acquire(&mut mutex, &mut arena, homes[1]);
    let list = mutex.release_slow(&mut arena, true);
    assert_eq!(list.iter(&arena), vec![homes[0]]);
    assert_eq!(mutex.state, LOCKED | PARKED);
    assert!(!mutex.try_lock());
    let result = Parker::unparked(&arena, homes[0]);
    assert_eq!(result, ParkResult::Unparked(HANDOFF_TOKEN));
    assert_eq!(first.returned(result), AcquireStep::Acquired);
    let list = mutex.release_slow(&mut arena, true);
    assert_eq!(list.iter(&arena), vec![homes[1]]);
    assert_eq!(mutex.state, LOCKED);
    assert_eq!(second.returned(Parker::unparked(&arena, homes[1])), AcquireStep::Acquired);
    assert!(mutex.release());
    assert_eq!(mutex.state, UNLOCKED);
}

#[test]
fn fair_release_without_parked_threads_frees_the_mutex() {
    let (mut arena, _) = homes(0);
    let mut mutex = GenericRawMutex::new();
    mutex.state = LOCKED | PARKED;
    let list = mutex.release_slow(&mut arena, true);
    assert!(list.iter(&arena).is_empty());
    assert_eq!(mutex.state, UNLOCKED);
}

#[test]
fn thread_is_turned_away_from_a_released_mutex() {
    let (mut arena, homes) = homes(1);
    let mut mutex = GenericRawMutex::new();
    mutex.state = PARKED;
    assert_eq!(mutex.park(&mut arena, homes[0]), Some(ParkResult::Invalid));
    mutex.state = LOCKED;
    assert_eq!(mutex.park(&mut arena, homes[0]), Some(ParkResult::Invalid));
    assert_eq!(mutex.parker.queue, 0);
}

#[test]
fn thread_that_gives_up_leaves_the_others_parked() {
    let (mut arena, homes) = homes(2);
    let mut mutex = GenericRawMutex::new();
    assert!(mutex.try_lock());
    let (_, mut first) = acquire(&mut mutex, &mut arena, homes[0]);
    let (_, mut second) = acquire(&mut mutex, &mut arena, homes[1]);
    let result = mutex.cancel(&mut arena, homes[0]);
    assert_eq!(result, ParkResult::Cancelled);
    assert_eq!(first.returned(result), AcquireStep::Cancelled);
    assert_eq!(mutex.state, LOCKED | PARKED);
    // The release unparks the other thread, which gets the mutex.
    assert!(!mutex.release());
    assert_eq!(mutex.release_slow(&mut arena, false).iter(&arena), vec![homes[1]]);
    assert_eq!(second.returned(Parker::unparked(&arena, homes[1])), AcquireStep::Continue);
    assert!(go_on(&mut mutex, &mut second, &mut arena, homes[1]));
    assert_eq!(mutex.state, LOCKED);
}

#[test]
fn last_thread_to_give_up_removes_the_mark() {
    let (mut arena, homes) = homes(1);
    let mut mutex = GenericRawMutex::new();
    assert!(mutex.try_lock());
    acquire(&mut mutex, &mut arena, homes[0]);
    assert_eq!(mutex.cancel(&mut arena, homes[0]), ParkResult::Cancelled);
    assert_eq!(mutex.state, LOCKED);
    assert!(mutex.release());
}

#[test]
fn thread_that_gives_up_too_late_has_the_mutex() {
    let (mut arena, homes) = homes(1);
    let mut mutex = GenericRawMutex::new();
    assert!(mutex.try_lock());
    let (_, mut attempt) = acquire(&mut mutex, &mut arena, homes[0]);
    mutex.release_slow(&mut arena, true);
    let result = mutex.cancel(&mut arena, homes[0]);
    assert_eq!(result, ParkResult::Unparked(HANDOFF_TOKEN));
    assert_eq!(attempt.returned(result), AcquireStep::Acquired);
    assert_eq!(mutex.state, LOCKED);
}

#[test]
fn value_is_reached_through_the_mutex() {
    let mut mutex = GenericMutex::new(5);
    *mutex.get_mut() += 1;
    assert!(mutex.try_lock());
    assert!(!mutex.try_lock());
    assert!(mutex.lock().is_some());
    assert!(mutex.force_unlock());
    assert!(mutex.lock().is_none());
    assert!(mutex.force_unlock_fair());
    assert!(!mutex.force_unlock_fair());
    assert_eq!(mutex.into_inner(), 6);
    let mutex: GenericMutex<u32> = GenericMutex::default();
    assert_eq!(mutex.into_inner(), 0);
    assert_eq!(GenericMutex::from(3).into_inner(), 3);
}
