use yaar_lock::queue::{Memory, NodeArena};
use yaar_lock::sync::rwlock::{CoreRwLock, RwAttempt, RwStep, Tag, PARKED, READ, WRITE};
use yaar_lock::sync::spin_wait::{SpinConfig, SpinPlatform, SpinWait};
use yaar_lock::sync::wait_node::WaitNode;

fn config() -> SpinConfig {
    SpinConfig::new(SpinPlatform::WindowsX86 { is_amd: true })
}

fn acquire(lock: &mut CoreRwLock, attempt: &mut RwAttempt, arena: &mut NodeArena<WaitNode<Tag>>, home: usize) -> bool {
    loop {
        match lock.lock_common(attempt, config()) {
            RwStep::Acquired => return true,
            RwStep::Continue | RwStep::ForceSpin => {}
            RwStep::Park => {
                if lock.park(arena, home) {
                    return false;
                }
                attempt.resumed();
            }
        }
    }
}

#[test]
fn readers_share_the_lock() {
    let mut lock = CoreRwLock::new();
    assert!(lock.try_lock_shared());
    assert!(lock.try_lock_shared());
    assert!(lock.lock_shared().is_none());
    assert_eq!(lock.state, 3 * READ);
    assert!(!lock.try_lock_exclusive());
    assert!(lock.unlock_shared());
    assert!(lock.unlock_shared());
    assert!(lock.unlock_shared());
    assert_eq!(lock.state, 0);
    assert!(lock.try_lock_exclusive());
}

#[test]
fn writer_excludes_all_others() {
    let mut lock = CoreRwLock::new();
    assert!(lock.lock_exclusive().is_none());
    assert_eq!(lock.state, WRITE);
    assert!(!lock.try_lock_exclusive());
    assert!(!lock.try_lock_shared());
    assert!(!lock.try_lock_shared_fast());
    assert!(!lock.try_lock_shared_slow());
    assert_eq!(lock.lock_exclusive().unwrap().tag, Tag::Writer);
    assert_eq!(lock.lock_shared().unwrap().tag, Tag::Reader);
    assert!(lock.unlock_exclusive());
    assert_eq!(lock.state, 0);
}

#[test]
fn too_many_readers_are_refused() {
    let mut lock = CoreRwLock { state: usize::MAX & !(WRITE | PARKED), queue: 0 };
    assert!(!lock.try_lock_shared_fast());
    lock.state -= READ;
    assert!(lock.try_lock_shared_fast());
}

#[test]
fn queued_threads_are_woken_in_order() {
    let mut arena = NodeArena::new();
    let a = arena.add_node(WaitNode::new(Tag::Writer)).unwrap();
    let b = arena.add_node(WaitNode::new(Tag::Reader)).unwrap();
    let mut lock = CoreRwLock::new();
    assert!(lock.try_lock_exclusive());
    let mut first = lock.lock_exclusive().unwrap();
    assert!(!acquire(&mut lock, &mut first, &mut arena, a));
    assert_eq!(lock.state, WRITE | PARKED);
    let mut second = lock.lock_shared().unwrap();
    assert!(!acquire(&mut lock, &mut second, &mut arena, b));
    assert_eq!(lock.queue, b);
    assert!(!lock.unlock_exclusive());
    assert_eq!(lock.unlock_exclusive_slow(&mut arena), Some(a));
    assert_eq!(lock.state, PARKED);
    WaitNode::notify(&mut arena, a);
    WaitNode::reset(&mut arena, a);
    first.resumed();
    assert!(acquire(&mut lock, &mut first, &mut arena, a));
    assert_eq!(lock.state, WRITE | PARKED);
    assert_eq!(lock.unlock_exclusive_slow(&mut arena), Some(b));
    assert_eq!(lock.state, 0);
    assert_eq!(lock.queue, 0);
    assert_eq!(arena.read(b).tag, Tag::Reader);
    second.resumed();
    assert!(acquire(&mut lock, &mut second, &mut arena, b));
    assert_eq!(lock.state, READ);
}

#[test]
fn release_without_queued_threads_frees_the_lock() {
    let mut arena: NodeArena<WaitNode<Tag>> = NodeArena::new();
    let mut lock = CoreRwLock { state: WRITE | PARKED, queue: 0 };
    assert_eq!(lock.unlock_exclusive_slow(&mut arena), None);
    assert_eq!(lock.state, 0);
}

#[test]
fn thread_does_not_park_on_a_free_lock() {
    let mut arena = NodeArena::new();
    let a = arena.add_node(WaitNode::new(Tag::Reader)).unwrap();
    let mut lock = CoreRwLock::new();
    assert!(!lock.park(&mut arena, a));
    assert_eq!(lock.queue, 0);
}

#[test]
fn writer_and_reader_go_on_differently_after_a_lost_race() {
    let mut lock = CoreRwLock::new();
    let mut writer = RwAttempt::new(Tag::Writer);
    let mut reader = RwAttempt::new(Tag::Reader);
    assert_eq!(lock.lock_exclusive_slow(&mut writer, config()), RwStep::Continue);
    assert_eq!(lock.lock_shared_slow(&mut reader, config()), RwStep::Continue);
    assert!(lock.try_lock_shared());
    assert_eq!(lock.lock_exclusive_slow(&mut writer, config()), RwStep::Continue);
    assert_eq!(writer.state, Some(READ));
    assert_eq!(lock.lock_shared_slow(&mut reader, config()), RwStep::ForceSpin);
    assert_eq!(reader.state, None);
}

#[test]
fn writer_waits_for_the_readers() {
    let mut arena = NodeArena::new();
    let a = arena.add_node(WaitNode::new(Tag::Writer)).unwrap();
    let b = arena.add_node(WaitNode::new(Tag::Writer)).unwrap();
    let mut lock = CoreRwLock::new();
    assert!(lock.try_lock_shared());
    assert!(lock.try_lock_shared());
    let mut first = lock.lock_exclusive().unwrap();
    assert!(!acquire(&mut lock, &mut first, &mut arena, a));
    assert_eq!(lock.state, 2 * READ | PARKED);
    assert!(!lock.try_lock_shared());
    let mut second = lock.lock_exclusive().unwrap();
    assert!(!acquire(&mut lock, &mut second, &mut arena, b));
    assert!(lock.unlock_shared());
    // The last reader wakes the first writer.
    assert!(!lock.unlock_shared());
    assert_eq!(lock.state, PARKED);
    assert_eq!(lock.unlock_shared_slow(&mut arena), Some(a));
    assert_eq!(lock.state, PARKED);
    WaitNode::notify(&mut arena, a);
    WaitNode::reset(&mut arena, a);
    first.resumed();
    assert!(acquire(&mut lock, &mut first, &mut arena, a));
    assert_eq!(lock.state, WRITE | PARKED);
    assert!(!lock.unlock_exclusive());
    assert_eq!(lock.unlock_exclusive_slow(&mut arena), Some(b));
    assert_eq!(lock.state, 0);
}

#[test]
fn last_reader_wakes_nobody_if_the_lock_is_taken() {
    let mut arena = NodeArena::new();
    let a = arena.add_node(WaitNode::new(Tag::Writer)).unwrap();
    let mut lock = CoreRwLock::new();
    assert!(lock.try_lock_shared());
    let mut writer = lock.lock_exclusive().unwrap();
    assert!(!acquire(&mut lock, &mut writer, &mut arena, a));
    assert!(!lock.unlock_shared());
    // A reader is faster, and wakes the writer when it leaves.
    let mut reader = RwAttempt::new(Tag::Reader);
    assert_eq!(lock.lock_shared_slow(&mut reader, config()), RwStep::Continue);
    assert_eq!(lock.lock_shared_slow(&mut reader, config()), RwStep::Acquired);
    assert_eq!(lock.unlock_shared_slow(&mut arena), None);
    assert_eq!(lock.state, READ | PARKED);
    assert!(!lock.unlock_shared());
    assert_eq!(lock.unlock_shared_slow(&mut arena), Some(a));
    assert_eq!(lock.state, 0);
    assert_eq!(lock.unlock_shared_slow(&mut arena), None);
}

#[test]
fn thread_does_not_park_without_the_mark() {
    let mut arena = NodeArena::new();
    let a = arena.add_node(WaitNode::new(Tag::Reader)).unwrap();
    let mut lock = CoreRwLock::new();
    assert!(lock.try_lock_exclusive());
    assert!(!lock.park(&mut arena, a));
    assert_eq!(lock.queue, 0);
    lock.state = WRITE | PARKED;
    assert!(lock.park(&mut arena, a));
    assert_eq!(lock.queue, a);
}

#[test]
fn spinning_depends_on_the_platform() {
    assert_eq!(SpinConfig::new(SpinPlatform::Other), SpinConfig { max_spin: 30, back_off: false });
    assert_eq!(SpinConfig::new(SpinPlatform::X86), SpinConfig { max_spin: 6, back_off: true });
    assert_eq!(
        SpinConfig::new(SpinPlatform::WindowsX86 { is_amd: false }),
        SpinConfig { max_spin: 6, back_off: true }
    );
    assert_eq!(
        SpinConfig::new(SpinPlatform::WindowsX86 { is_amd: true }),
        SpinConfig { max_spin: 0, back_off: false }
    );
}

#[test]
fn spinning_ends() {
    let config = SpinConfig::new(SpinPlatform::X86);
    let mut wait = SpinWait::new();
    let mut hints = Vec::new();
    while wait.spin < config.max_spin {
        hints.push(wait.hints(config));
        assert!(wait.spin(config));
    }
    assert_eq!(hints, vec![2, 4, 8, 16, 32, 64]);
    assert!(!wait.spin(config));
    assert!(!wait.spin(config));
    wait.reset();
    assert!(wait.spin(config));
    let amd = SpinConfig::new(SpinPlatform::WindowsX86 { is_amd: true });
    assert!(!SpinWait::new().spin(amd));
}

#[test]
fn vendors_are_told_apart() {
    let words = |name: &[u8; 12]| {
        let word = |i: usize| u32::from_le_bytes([name[i], name[i + 1], name[i + 2], name[i + 3]]);
        SpinPlatform::is_amd(word(0), word(4), word(8))
    };
    assert!(words(b"AuthenticAMD"));
    assert!(!words(b"GenuineIntel"));
    assert!(!words(b"AuthenticAME"));
    assert!(!words(b"AuthEnticAMD"));
}
