use yaar_lock::queue::{Memory, NodeArena};
use yaar_lock::shared::parker as tokens;
use yaar_lock::sync::parker::{
    ParkResult, Parker, UnparkFilter, UnparkResult, Unparking, WaitState, Waiter, WaiterList,
};

fn waiter() -> Waiter {
    Waiter { state: WaitState::Parked(0), prev: 0, next: 0, tail: 0 }
}

fn lot(n: usize) -> (NodeArena<Waiter>, Vec<usize>, Parker) {
    let mut arena = NodeArena::new();
    let mut homes = Vec::new();
    let mut parker = Parker::new();
    for i in 0..n {
        let home = arena.add_node(waiter()).unwrap();
        homes.push(home);
        let expect = i != 0;
        assert_eq!(parker.park(&mut arena, home, 10 + i, |others| others == expect), None);
    }
    (arena, homes, parker)
}

#[test]
fn refused_thread_does_not_park() {
    let mut arena = NodeArena::new();
    let home = arena.add_node(waiter()).unwrap();
    let mut parker = Parker::new();
    assert_eq!(parker.park(&mut arena, home, 1, |_| false), Some(ParkResult::Invalid));
    assert_eq!(parker.queue, 0);
    assert_eq!(arena.read(home), waiter());
}

#[test]
fn threads_are_unparked_in_order() {
    let (mut arena, homes, mut parker) = lot(3);
    for i in 0..3 {
        let (result, list) = parker.unpark_one(&mut arena, |so_far, token| {
            assert_eq!(so_far.unparked, 0);
            assert_eq!(so_far.has_more, i < 2);
            token + 100
        }, |result| result);
        assert_eq!(result, UnparkResult { unparked: 1, skipped: 0, has_more: i < 2 });
        assert_eq!(list.iter(&arena), vec![homes[i]]);
        assert_eq!(Parker::unparked(&arena, homes[i]), ParkResult::Unparked(110 + i));
    }
    let (result, list) = parker.unpark_one(&mut arena, |_, token| token, |result| result);
    assert_eq!(result, UnparkResult { unparked: 0, skipped: 0, has_more: false });
    assert!(list.iter(&arena).is_empty());
}

#[test]
fn cancelled_thread_leaves_the_queue() {
    let (mut arena, homes, mut parker) = lot(3);
    assert_eq!(parker.cancel(&mut arena, homes[1], |more| assert!(more)), ParkResult::Cancelled);
    let (_, list) = parker.unpark_all(&mut arena, |_, token| token, |result| {
        assert_eq!(result, UnparkResult { unparked: 2, skipped: 0, has_more: false });
    });
    assert_eq!(list.iter(&arena), vec![homes[0], homes[2]]);
    assert_eq!(parker.queue, 0);
    assert_eq!(
        parker.cancel(&mut arena, homes[2], |_| unreachable!()),
        ParkResult::Unparked(12)
    );
}

#[test]
fn first_and_last_thread_can_be_cancelled() {
    let (mut arena, homes, mut parker) = lot(3);
    assert_eq!(parker.cancel(&mut arena, homes[0], |more| assert!(more)), ParkResult::Cancelled);
    assert_eq!(parker.queue, homes[1]);
    assert_eq!(parker.cancel(&mut arena, homes[2], |more| assert!(more)), ParkResult::Cancelled);
    assert_eq!(arena.read(homes[1]).tail, homes[1]);
    assert_eq!(parker.cancel(&mut arena, homes[1], |more| assert!(!more)), ParkResult::Cancelled);
    assert_eq!(parker.queue, 0);
}

#[test]
fn filter_skips_unparks_and_stops() {
    let (mut arena, homes, mut parker) = lot(5);
    let mut told = Vec::new();
    let (result, list) = parker.unpark(
        &mut arena,
        |so_far, token| {
            told.push((so_far.unparked, so_far.skipped, so_far.has_more, token));
            match token {
                10 => UnparkFilter::Skip,
                13 => UnparkFilter::Stop,
                _ => UnparkFilter::Unpark(7),
            }
        },
        |result| result,
    );
    assert_eq!(
        told,
        vec![(0, 0, true, 10), (0, 1, true, 11), (1, 1, true, 12), (2, 1, true, 13)]
    );
    assert_eq!(result, UnparkResult { unparked: 2, skipped: 1, has_more: true });
    assert_eq!(list.iter(&arena), vec![homes[1], homes[2]]);
    assert_eq!(arena.read(homes[1]).state, WaitState::Unparked(7));
    assert_eq!(arena.read(homes[3]).state, WaitState::Parked(13));
    let (_, list) = parker.unpark_all(&mut arena, |_, token| token, |_| ());
    assert_eq!(list.iter(&arena), vec![homes[0], homes[3], homes[4]]);
}

#[test]
fn long_lists_overflow_the_array() {
    let (mut arena, homes, mut parker) = lot(40);
    let (_, list) = parker.unpark_all(&mut arena, |_, token| token, |result| {
        assert_eq!(result.unparked, 40);
    });
    assert_eq!(list.iter(&arena), homes);
}

#[test]
fn empty_list_has_no_threads() {
    let arena: NodeArena<Waiter> = NodeArena::new();
    assert!(WaiterList::new().iter(&arena).is_empty());
}

#[test]
fn typed_tokens_pass_through() {
    let mut arena = NodeArena::new();
    let mut lot = tokens::Parker::new();
    let mut homes = Vec::new();
    for i in 0..3 {
        let home = arena.add_node(waiter()).unwrap();
        homes.push(home);
        assert_eq!(lot.park(&mut arena, home, tokens::ParkToken(i), || true), None);
    }
    let other = arena.add_node(waiter()).unwrap();
    assert_eq!(
        lot.park(&mut arena, other, tokens::ParkToken(9), || false),
        Some(tokens::ParkResult::Invalid)
    );
    let mut asked = Vec::new();
    let (result, list) = lot.unpark(
        &mut arena,
        |token| {
            asked.push(token.0);
            match token {
                tokens::ParkToken(0) => tokens::UnparkFilter::Unpark(tokens::UnparkToken(50)),
                tokens::ParkToken(1) => tokens::UnparkFilter::Stop,
                _ => unreachable!(),
            }
        },
        |result| assert!(result.has_more),
    );
    assert_eq!(asked, vec![0, 1]);
    assert_eq!(result, tokens::UnparkResult { unparked: 1, skipped: 0, has_more: true });
    assert_eq!(list.iter(&arena), vec![homes[0]]);
    assert_eq!(arena.read(homes[0]).state, WaitState::Unparked(50));
    // There is no more once all were looked at, even if some stay.
    let (result, list) = lot.unpark(&mut arena, |_| tokens::UnparkFilter::Skip, |_| ());
    assert_eq!(result, tokens::UnparkResult { unparked: 0, skipped: 2, has_more: false });
    assert!(list.iter(&arena).is_empty());
    assert_eq!(
        tokens::UnparkResult::default(),
        tokens::UnparkResult { unparked: 0, skipped: 0, has_more: false }
    );
}

#[test]
fn threads_are_decided_on_one_by_one() {
    let (mut arena, homes, mut parker) = lot(3);
    let mut walk = Unparking::new(&parker, &arena);
    let mut asked = Vec::new();
    while walk.goes_on() {
        let (so_far, token) = walk.ask(&parker, &arena);
        asked.push((so_far.unparked, so_far.skipped, so_far.has_more, token));
        let decision = if token == 11 { UnparkFilter::Skip } else { UnparkFilter::Unpark(token + 1) };
        walk.decide(&mut parker, &mut arena, decision);
    }
    assert_eq!(asked, vec![(0, 0, true, 10), (1, 0, true, 11), (1, 1, false, 12)]);
    assert_eq!(walk.list.iter(&arena), vec![homes[0], homes[2]]);
    assert_eq!(arena.read(homes[2]).state, WaitState::Unparked(13));
    assert_eq!(parker.queue, homes[1]);
}

#[test]
fn park_states_have_numbers() {
    for number in 0..6 {
        assert_eq!(tokens::ParkState::from(number).number(), number);
    }
    let mut waiter = tokens::ParkWaiter::new();
    assert!(!waiter.has_event());
    assert!(!waiter.needs_cancel());
    waiter.state = tokens::ParkState::Waiting.number();
    assert!(waiter.has_event());
    assert!(waiter.needs_cancel());
    assert!(waiter.cancel_park());
    assert_eq!(tokens::ParkState::from(waiter.state), tokens::ParkState::Cancelling);
    waiter.state = tokens::ParkState::Unparked.number();
    assert!(!waiter.cancel_park());
    assert_eq!(tokens::ParkState::from(waiter.state), tokens::ParkState::Unparked);
}

#[test]
fn lot_lock_starts_with_what_it_saw() {
    let mut lot = tokens::Parker::new();
    assert!(lot.lock().is_none());
    let attempt = lot.lock().unwrap();
    assert_eq!(attempt.state, Some(1));
    assert!(lot.unlock().is_none());
    assert_eq!(lot.state, 0);
    lot.state = 512 | 1;
    let dequeue = lot.unlock().unwrap();
    assert_eq!(dequeue.state, Some(512));
    assert!(dequeue.sees_own_flag);
}
