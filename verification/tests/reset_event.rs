use std::cell::Cell;
use yaar_lock::future::reset_event::{EventPoll, RawResetEvent, WaitNodeState};
use yaar_lock::queue::{Memory, Node, NodeArena};
use yaar_lock::shared::event::{wake_order, EventStep, EventWait, WordEvent, IS_SET, WAIT_NODE_INIT};
use yaar_lock::sync::event::RawResetEvent as SyncResetEvent;
use yaar_lock::sync::reset_event::WordEvent as ResetEvent;
use yaar_lock::sync::thread_parker::{OsThreadParker, ThreadParker};
use yaar_lock::thread_event::linux::{Event, Wait, WaitStep, IS_RESET, IS_WAITING};
use yaar_lock::thread_event::{OsThreadEvent, ThreadEvent};

/// Waits as long as the event lets the thread go on without blocking. Returns the
/// wait if the thread has to block.
fn wait(event: &mut ResetEvent, arena: &mut NodeArena<Node>, home: usize) -> Option<EventWait> {
    let mut waiting = event.wait(arena, home)?;
    go_on(event, &mut waiting, arena).then_some(waiting)
}

fn go_on(event: &mut ResetEvent, waiting: &mut EventWait, arena: &mut NodeArena<Node>) -> bool {
    loop {
        match event.wait_slow(arena, waiting) {
            EventStep::IsSet => return false,
            EventStep::Continue => {}
            EventStep::Wait => return true,
        }
    }
}

fn set(event: &mut ResetEvent, arena: &mut NodeArena<Node>) -> Vec<usize> {
    match event.set() {
        None => Vec::new(),
        Some(head) => ResetEvent::wake_slow(arena, head),
    }
}

#[test]
fn test_reset_event() {
    let mut event = ResetEvent::default();
    assert_eq!(event.is_set(), false);

    event.set();
    assert_eq!(event.is_set(), true);

    event.reset();
    assert_eq!(event.is_set(), false);

    struct Context {
        value: Cell<u128>,
        input: ResetEvent,
        output: ResetEvent,
    }

    let mut context = Context {
        value: Cell::new(0),
        input: ResetEvent::default(),
        output: ResetEvent::default(),
    };
    let mut arena = NodeArena::new();
    let receiver = arena.add_node(Node::new()).unwrap();
    let sender = arena.add_node(Node::new()).unwrap();

    // The receiver waits for the sender to update the value and signal input.
    let mut receiving = wait(&mut context.input, &mut arena, receiver).unwrap();

    // The sender updates the value and signals input.
    assert_eq!(context.value.get(), 0);
    context.value.set(1);
    assert_eq!(set(&mut context.input, &mut arena), vec![receiver]);

    // The sender waits for the receiver to update the value and signal output.
    let mut sending = wait(&mut context.output, &mut arena, sender).unwrap();

    // The receiver goes on, updates the value and signals output.
    receiving.woken(&mut arena);
    assert!(!go_on(&mut context.input, &mut receiving, &mut arena));
    assert_eq!(context.value.get(), 1);
    context.input.reset();
    context.value.set(2);
    assert_eq!(set(&mut context.output, &mut arena), vec![sender]);

    // The receiver waits for the final input.
    let mut receiving = wait(&mut context.input, &mut arena, receiver).unwrap();

    // The sender goes on, updates the value and signals the final input.
    sending.woken(&mut arena);
    assert!(!go_on(&mut context.output, &mut sending, &mut arena));
    assert_eq!(context.value.get(), 2);
    context.value.set(3);
    assert_eq!(set(&mut context.input, &mut arena), vec![receiver]);

    receiving.woken(&mut arena);
    assert!(!go_on(&mut context.input, &mut receiving, &mut arena));
    assert_eq!(context.value.get(), 3);
}

#[test]
fn set_wakes_everybody_in_order() {
    let mut arena = NodeArena::new();
    let mut event = ResetEvent::new(false);
    let mut homes = Vec::new();
    for _ in 0..4 {
        let home = arena.add_node(Node::new()).unwrap();
        assert!(wait(&mut event, &mut arena, home).is_some());
        homes.push(home);
    }
    assert!(!event.is_set());
    assert_eq!(event.event.state, homes[3]);
    assert_eq!(set(&mut event, &mut arena), homes);
    assert!(event.is_set());
    assert_eq!(event.event.state, IS_SET);
    assert!(set(&mut event, &mut arena).is_empty());
}

#[test]
fn set_event_is_not_waited_for() {
    let mut arena = NodeArena::new();
    let home = arena.add_node(Node::new()).unwrap();
    let mut event = ResetEvent::new(true);
    assert!(event.is_set());
    assert!(wait(&mut event, &mut arena, home).is_none());
    assert_eq!(arena.read(home), Node::new());
}

#[test]
fn event_that_is_set_meanwhile_is_noticed() {
    let mut arena = NodeArena::new();
    let home = arena.add_node(Node::new()).unwrap();
    let mut event = WordEvent::new();
    let mut waiting = event.wait(&mut arena, home).unwrap();
    assert_eq!(arena.read(home).flags, WAIT_NODE_INIT);
    assert_eq!(event.wait_slow(&mut arena, &mut waiting), EventStep::Continue);
    assert_eq!(event.set(), 0);
    assert_eq!(event.wait_slow(&mut arena, &mut waiting), EventStep::Continue);
    assert_eq!(waiting.state, Some(IS_SET));
    assert_eq!(event.wait_slow(&mut arena, &mut waiting), EventStep::IsSet);
    assert!(event.is_set());
    event.reset();
    assert!(!event.is_set());
}

#[test]
fn nobody_is_woken_where_nobody_waits() {
    let mut arena: NodeArena<Node> = NodeArena::new();
    assert!(wake_order(&mut arena, 0).is_empty());
}

#[test]
fn raw_reset_event_starts_unset() {
    let mut event = SyncResetEvent::new();
    assert!(!event.is_set());
    event.event.set();
    assert!(event.is_set());
    event.reset();
    assert!(!event.is_set());
}

#[test]
fn futex_event_blocks_until_it_is_set() {
    let mut event = Event::default();
    assert!(!event.is_set());
    let mut wait = Wait::Announce;
    assert_eq!(event.wait(&mut wait), WaitStep::Continue);
    assert_eq!(wait, Wait::Block);
    assert_eq!(event.state, IS_WAITING);
    assert_eq!(event.wait(&mut wait), WaitStep::Block);
    // Another thread blocks as well.
    let mut other = Wait::Announce;
    assert_eq!(event.wait(&mut other), WaitStep::Continue);
    assert_eq!(other, Wait::Block);
    assert_eq!(event.wait(&mut other), WaitStep::Block);
    assert_eq!(event.state, IS_WAITING);
    assert!(event.set());
    assert!(event.is_set());
    assert_eq!(event.wait(&mut wait), WaitStep::Done);
    assert_eq!(event.wait(&mut other), WaitStep::Done);
    assert!(!event.set());
    event.reset();
    assert_eq!(event.state, IS_RESET);
    // A thread that was not fast enough tells again that it waits.
    assert_eq!(event.wait(&mut other), WaitStep::Block);
    assert_eq!(event.state, IS_WAITING);
    assert!(event.set());
    event.reset();
    // A reset of an unset event keeps the thread that waits.
    let mut wait = Wait::Announce;
    assert_eq!(event.wait(&mut wait), WaitStep::Continue);
    event.reset();
    assert_eq!(event.state, IS_WAITING);
    assert!(event.set());
}

#[test]
fn os_thread_event_is_a_manual_reset_event() {
    let mut event = OsThreadEvent::default();
    assert!(!event.is_set());
    assert!(!event.notify());
    assert!(event.is_set());
    let mut wait = Wait::Announce;
    assert_eq!(event.wait(&mut wait), WaitStep::Done);
    event.reset();
    assert!(!event.is_set());
    assert_eq!(event.wait(&mut wait), WaitStep::Continue);
    assert!(event.notify());
}

#[test]
fn os_thread_parker_wakes_all() {
    let mut parker = OsThreadParker::default();
    let mut wait = Wait::Announce;
    assert_eq!(parker.park(&mut wait), WaitStep::Continue);
    assert_eq!(parker.park(&mut wait), WaitStep::Block);
    assert!(parker.unpark());
    assert_eq!(parker.park(&mut wait), WaitStep::Done);
    assert!(!parker.unpark());
    parker.reset();
    let mut wait = Wait::Announce;
    assert_eq!(parker.park(&mut wait), WaitStep::Continue);
    parker.reset();
    assert!(parker.unpark());
}

#[test]
fn futures_wait_for_an_event() {
    let mut arena = NodeArena::new();
    let a = arena.add_node(WaitNodeState::Reset).unwrap();
    let b = arena.add_node(WaitNodeState::Reset).unwrap();
    let mut event = RawResetEvent::new(false);
    let mut first = event.wait(a);
    let mut second = event.wait(b);
    assert_eq!(first.poll(&mut event, &mut arena), EventPoll::Pending);
    assert_eq!(second.poll(&mut event, &mut arena), EventPoll::Pending);
    second.end(&mut event, &mut arena);
    assert_eq!(event.waiting, vec![a]);
    assert_eq!(event.set(&mut arena), vec![a]);
    assert_eq!(first.poll(&mut event, &mut arena), EventPoll::Ready);
    assert!(!first.is_terminated());
    let mut third = event.wait(b);
    assert_eq!(third.poll(&mut event, &mut arena), EventPoll::Ready);
    assert!(third.is_terminated());
    // A reset of an unset event keeps those that wait.
    event.reset();
    let mut fourth = event.wait(b);
    assert_eq!(fourth.poll(&mut event, &mut arena), EventPoll::Pending);
    event.reset();
    assert_eq!(event.waiting, vec![b]);
    assert_eq!(event.set(&mut arena), vec![b]);
    // The event has been set, though it was reset since.
    event.reset();
    assert!(!event.is_set());
    assert_eq!(fourth.poll(&mut event, &mut arena), EventPoll::Ready);
}

#[test]
fn tasks_wait_for_an_event() {
    let mut arena = NodeArena::new();
    let a = arena.add_node(WaitNodeState::Reset).unwrap();
    let b = arena.add_node(WaitNodeState::Reset).unwrap();
    let c = arena.add_node(WaitNodeState::Reset).unwrap();
    let mut event = RawResetEvent::new(false);
    assert_eq!(event.poll(&mut arena, a), EventPoll::Pending);
    assert_eq!(event.poll(&mut arena, b), EventPoll::Pending);
    assert_eq!(event.poll(&mut arena, c), EventPoll::Pending);
    assert_eq!(event.poll(&mut arena, a), EventPoll::Pending);
    event.forget(&mut arena, b);
    assert_eq!(arena.read(b), WaitNodeState::Reset);
    event.forget(&mut arena, b);
    assert_eq!(event.set(&mut arena), vec![a, c]);
    assert!(event.is_set());
    assert_eq!(arena.read(a), WaitNodeState::Notified);
    assert_eq!(event.poll(&mut arena, a), EventPoll::Ready);
    assert_eq!(event.poll(&mut arena, b), EventPoll::Ready);
    event.reset();
    assert!(!event.is_set());
    assert_eq!(event.poll(&mut arena, c), EventPoll::Ready);
    assert_eq!(event.poll(&mut arena, b), EventPoll::Pending);
    event.reset();
    assert_eq!(event.set(&mut arena), vec![b]);
    assert!(RawResetEvent::new(true).is_set());
}
