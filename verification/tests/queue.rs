use yaar_lock::queue::{find_linked_tail, find_tail, Memory, Node, NodeArena};
use yaar_lock::shared::waiter::{Waiter, WaiterState};
use yaar_lock::sync::wait_node::{State, WaitNode};

fn node(prev: usize, next: usize, tail: usize) -> Node {
    Node { prev, next, tail, flags: 0 }
}

#[test]
fn arena_hands_out_aligned_addresses() {
    let mut arena: NodeArena<Node> = NodeArena::new();
    assert_eq!(arena.add_node(Node::new()), Some(512));
    assert_eq!(arena.add_node(Node { prev: 1, next: 2, tail: 3, flags: 4 }), Some(1024));
    assert_eq!(arena.read(1024), Node { prev: 1, next: 2, tail: 3, flags: 4 });
    arena.write(512, node(7, 8, 9));
    assert_eq!(arena.read(512), node(7, 8, 9));
    assert_eq!(arena.read(1024).flags, 4);
}

#[test]
fn tail_is_found_and_remembered() {
    let mut arena: NodeArena<Node> = NodeArena::new();
    let a = arena.add_node(Node::new()).unwrap();
    let b = arena.add_node(Node::new()).unwrap();
    let c = arena.add_node(Node::new()).unwrap();
    arena.write(a, node(0, 0, a));
    arena.write(b, node(0, a, 0));
    arena.write(c, node(0, b, 0));
    assert_eq!(find_tail(&mut arena, c), a);
    assert_eq!(arena.read(a), node(b, 0, a));
    assert_eq!(arena.read(b), node(c, a, 0));
    assert_eq!(arena.read(c), node(0, b, a));
    assert_eq!(find_tail(&mut arena, c), a);
}

#[test]
fn lone_node_is_its_own_tail() {
    let mut arena: NodeArena<Node> = NodeArena::new();
    let a = arena.add_node(Node::new()).unwrap();
    arena.write(a, node(0, 0, a));
    assert_eq!(find_tail(&mut arena, a), a);
}

#[test]
fn search_processes_waiters() {
    let mut arena: NodeArena<Waiter> = NodeArena::new();
    let a = arena.add_node(Waiter::new()).unwrap();
    let b = arena.add_node(Waiter::new()).unwrap();
    let c = arena.add_node(Waiter::new()).unwrap();
    assert_eq!(Waiter::enqueue(&mut arena, a, 0), (a, true));
    assert_eq!(arena.read(a).state, WaiterState::Processed);
    assert_eq!(Waiter::enqueue(&mut arena, b, a), (b, true));
    assert_eq!(Waiter::enqueue(&mut arena, c, b), (c, true));
    assert_eq!(arena.read(b).state, WaiterState::Enqueued);
    assert_eq!(arena.read(c).state, WaiterState::Enqueued);
    assert_eq!(Waiter::find_tail(&mut arena, c), a);
    assert_eq!(arena.read(a).state, WaiterState::Processed);
    assert_eq!(arena.read(b).state, WaiterState::Processed);
    assert_eq!(arena.read(c).state, WaiterState::Processed);
    assert_eq!(arena.read(b).node.prev, c);
    assert_eq!(arena.read(c).node.tail, a);
}

#[test]
fn waiters_leave_in_order() {
    let mut arena: NodeArena<Waiter> = NodeArena::new();
    let a = arena.add_node(Waiter::new()).unwrap();
    let b = arena.add_node(Waiter::new()).unwrap();
    assert!(!arena.read(a).has_signal());
    Waiter::enqueue(&mut arena, a, 0);
    Waiter::enqueue(&mut arena, b, a);
    assert!(arena.read(a).has_signal());
    let tail = Waiter::find_tail(&mut arena, b);
    assert_eq!(tail, a);
    assert!(!Waiter::dequeue(&mut arena, b, tail));
    assert_eq!(arena.read(a).state, WaiterState::Dequeued);
    assert_eq!(arena.read(b).node.tail, b);
    let tail = Waiter::find_tail(&mut arena, b);
    assert_eq!(tail, b);
    assert!(Waiter::dequeue(&mut arena, b, tail));
    assert_eq!(arena.read(b).state, WaiterState::Dequeued);
    assert_eq!(arena.read(b).node.tail, 0);
    Waiter::reset(&mut arena, b, tail);
    assert_eq!(arena.read(b).node.tail, b);
}

#[test]
fn dequeued_waiter_is_enqueued_again_without_a_new_signal() {
    let mut arena: NodeArena<Waiter> = NodeArena::new();
    let a = arena.add_node(Waiter::new()).unwrap();
    Waiter::enqueue(&mut arena, a, 0);
    Waiter::dequeue(&mut arena, a, a);
    assert_eq!(Waiter::enqueue(&mut arena, a, 0), (a, false));
    assert_eq!(arena.read(a).node, node(0, 0, a));
}

#[test]
fn wait_nodes_are_pushed_and_popped() {
    let mut arena: NodeArena<WaitNode<u8>> = NodeArena::new();
    let a = arena.add_node(WaitNode::new(1)).unwrap();
    let b = arena.add_node(WaitNode::new(2)).unwrap();
    assert_eq!(arena.read(a).state, State::Uninit);
    assert_eq!(WaitNode::push(&mut arena, a, 0), (a, true));
    assert_eq!(arena.read(a).state, State::Waiting);
    assert_eq!(WaitNode::push(&mut arena, b, a), (b, true));
    let tail = WaitNode::tail(&mut arena, b);
    assert_eq!(tail, a);
    let new_tail = WaitNode::next(&arena, tail);
    assert_eq!(new_tail, b);
    WaitNode::pop(&mut arena, b, new_tail);
    assert_eq!(arena.read(b).node.tail, b);
    assert_eq!(arena.read(b).tag, 2);
    WaitNode::notify(&mut arena, a);
    assert_eq!(arena.read(a).state, State::Notified);
    assert_eq!(arena.read(a).node.prev, b);
    WaitNode::reset(&mut arena, a);
    assert_eq!(arena.read(a).node.prev, 0);
    assert_eq!(WaitNode::push(&mut arena, a, b), (a, false));
    assert_eq!(find_linked_tail(&mut arena, a), b);
    WaitNode::pop(&mut arena, a, 0);
    assert_eq!(arena.read(a).node.tail, b);
}
