use yaar_lock::event::time::monotonic::{
    load_tls, store_tls, timestamp, timestamp_at, Clock, KeysAttempt, KeysStep, SingleThread, ThreadLocalStorage,
    TlsKeys, CREATING, ERROR, READY,
};
use yaar_lock::event::time::posix::{Remembered, Timebase, Timer};
use yaar_lock::event::time::windows::Timer as WindowsTimer;
use yaar_lock::event::time::{Monotonic, OsDuration, OsInstant, TimestampAttempt};

fn at(timestamp: u64) -> OsInstant {
    OsInstant { timestamp }
}

fn lasting(secs: u64, nanos: u32) -> OsDuration {
    OsDuration { secs, nanos }
}

#[test]
fn durations_count_nanoseconds() {
    assert_eq!(OsDuration::from_nanos(2_500_000_001), lasting(2, 500_000_001));
    assert_eq!(lasting(2, 500_000_001).as_nanos(), 2_500_000_001);
    assert_eq!(lasting(2, 500_999_999).as_millis(), 2_500);
    assert_eq!(lasting(u64::MAX, 999_999_999).as_nanos(), 18446744073709551615999999999);
    assert_eq!(OsDuration::zero().as_nanos(), 0);
}

#[test]
fn durations_add_and_subtract() {
    assert_eq!(lasting(1, 600_000_000).checked_add(lasting(2, 500_000_000)), Some(lasting(4, 100_000_000)));
    assert_eq!(lasting(u64::MAX, 0).checked_add(lasting(0, 999_999_999)), Some(lasting(u64::MAX, 999_999_999)));
    assert_eq!(lasting(u64::MAX, 1).checked_add(lasting(0, 999_999_999)), None);
    assert_eq!(lasting(u64::MAX, 0).checked_add(lasting(1, 0)), None);
    assert_eq!(lasting(4, 100_000_000).checked_sub(lasting(2, 500_000_000)), Some(lasting(1, 600_000_000)));
    assert_eq!(lasting(4, 1).checked_sub(lasting(4, 1)), Some(lasting(0, 0)));
    assert_eq!(lasting(4, 0).checked_sub(lasting(4, 1)), None);
    assert_eq!(lasting(3, 5).checked_sub(lasting(4, 1)), None);
}

#[test]
fn instants_measure_time() {
    assert_eq!(at(1_500_000_000).duration_since(at(500_000_000)), lasting(1, 0));
    assert_eq!(at(5).checked_duration_since(at(7)), None);
    assert_eq!(at(7).checked_duration_since(at(5)), Some(lasting(0, 2)));
    assert_eq!(at(5).saturating_duration_since(at(7)), lasting(0, 0));
    assert_eq!(at(7).saturating_duration_since(at(5)), lasting(0, 2));
}

#[test]
fn instants_go_forth_and_back() {
    let start = at(10);
    let later = start + lasting(3, 4);
    assert_eq!(later, at(3_000_000_014));
    assert_eq!(later - lasting(3, 4), start);
    assert_eq!(later.duration_since(start), lasting(3, 4));
    assert_eq!(later - start, lasting(3, 4));
    let mut moving = start;
    moving.add_assign(lasting(0, 5));
    assert_eq!(moving, at(15));
    moving.sub_assign(lasting(0, 15));
    assert_eq!(moving, at(0));
    assert_eq!(at(u64::MAX).checked_add(lasting(0, 1)), None);
    assert_eq!(at(u64::MAX - 1).checked_add(lasting(0, 1)), Some(at(u64::MAX)));
    assert_eq!(at(1).checked_add(lasting(u64::MAX, 0)), None);
    assert_eq!(at(4).checked_sub(lasting(0, 5)), None);
    assert_eq!(at(5).checked_sub(lasting(0, 5)), Some(at(0)));
    assert_eq!(at(5).checked_sub(lasting(u64::MAX, 0)), None);
}

#[test]
fn clock_that_goes_back_is_held() {
    let mut clock = Monotonic::new(false);
    assert_eq!(OsInstant::now(&mut clock, 100), at(100));
    assert_eq!(OsInstant::now(&mut clock, 90), at(100));
    assert_eq!(OsInstant::now(&mut clock, 110), at(110));
    assert_eq!(at(100).elapsed(&mut clock, 105), lasting(0, 10));
    assert_eq!(clock.current, 110);
    let mut clock = Monotonic::new(true);
    assert_eq!(OsInstant::now(&mut clock, 100), at(100));
    assert_eq!(clock.current, 0);
}

#[test]
fn timestamps_without_a_lock_never_go_back() {
    let mut current: u64 = 0;
    let mut slow = TimestampAttempt { current: None, now: 70 };
    assert_eq!(slow.step(&mut current), None);
    // Another thread is faster.
    let mut fast = TimestampAttempt { current: None, now: 80 };
    assert_eq!(fast.step(&mut current), None);
    assert_eq!(fast.step(&mut current), Some(80));
    assert_eq!(current, 80);
    assert_eq!(slow.step(&mut current), None);
    assert_eq!(slow.step(&mut current), Some(80));
    assert_eq!(current, 80);
}

#[test]
fn system_clocks_are_converted() {
    assert_eq!(Timer::timestamp(3, 7), 3_000_000_007);
    assert_eq!(Timer::timestamp_of_ticks(7, Timebase { numer: 125, denom: 3 }), 291);
    assert_eq!(WindowsTimer::timestamp(50, 10_000_000), 5_000);
    assert_eq!(WindowsTimer::timestamp(100, 3_000_000_000), 33);
    assert_eq!(WindowsTimer::timestamp(1 << 62, 1 << 62), 1_000_000_000);
}

#[test]
fn value_is_remembered_once() {
    let mut remembered = Remembered::new(0);
    assert_eq!(remembered.get(), None);
    assert!(remembered.claim());
    assert!(!remembered.claim());
    assert_eq!(remembered.get(), None);
    remembered.publish(5);
    assert_eq!(remembered.get(), Some(5));
    assert!(!remembered.claim());
}

/// The number of machine words in a timestamp.
fn words() -> usize {
    8 / std::mem::size_of::<usize>()
}

#[test]
fn keys_are_created_once() {
    let mut keys = TlsKeys::new();
    let mut system = SingleThread::<false>::new(4);
    let mut attempt = KeysAttempt { state: None, spin: 0 };
    assert_eq!(keys.get_tls_keys(&mut attempt), KeysStep::Continue);
    assert_eq!(keys.get_tls_keys(&mut attempt), KeysStep::Create);
    // Another thread waits meanwhile.
    let mut other = KeysAttempt { state: None, spin: 63 };
    assert_eq!(keys.get_tls_keys(&mut other), KeysStep::Continue);
    assert_eq!(keys.get_tls_keys(&mut other), KeysStep::Spin(0));
    assert_eq!(keys.get_tls_keys(&mut other), KeysStep::Continue);
    assert_eq!(keys.get_tls_keys(&mut other), KeysStep::Spin(1));
    keys.create(&mut system);
    assert_eq!(keys.state, READY);
    assert_eq!(keys.keys.len() * std::mem::size_of::<usize>(), 8);
    assert_eq!(keys.get_tls_keys(&mut other), KeysStep::Continue);
    assert_eq!(keys.get_tls_keys(&mut other), KeysStep::Ready);
}

#[test]
fn keys_can_run_out() {
    let mut keys = TlsKeys::new();
    let mut system = SingleThread::<false>::new(words() - 1);
    let mut attempt = KeysAttempt { state: None, spin: 0 };
    assert_eq!(keys.get_tls_keys(&mut attempt), KeysStep::Continue);
    assert_eq!(keys.get_tls_keys(&mut attempt), KeysStep::Create);
    keys.create(&mut system);
    assert_eq!(keys.state, ERROR);
    assert!(system.slots.iter().all(|slot| slot.is_none()));
    assert_eq!(keys.get_tls_keys(&mut attempt), KeysStep::Continue);
    assert_eq!(keys.get_tls_keys(&mut attempt), KeysStep::Failed);
}

#[test]
fn keys_are_taken_as_they_come() {
    let mut keys = TlsKeys::new();
    keys.state = CREATING;
    assert!(!keys.take_key(None));
    assert_eq!(keys.state, CREATING);
    assert!(keys.keys.is_empty());
    let words = words();
    for i in 0..words {
        assert_eq!(keys.state, CREATING);
        assert!(keys.take_key(Some(20 + i)));
    }
    assert_eq!(keys.state, READY);
    assert_eq!(keys.keys[0], 20);
    assert_eq!(keys.keys.len(), words);
}

#[test]
fn time_never_goes_back_on_a_thread() {
    let mut system = SingleThread::<false>::new(4);
    let mut keys = TlsKeys::new();
    let mut attempt = KeysAttempt { state: None, spin: 0 };
    keys.get_tls_keys(&mut attempt);
    keys.get_tls_keys(&mut attempt);
    keys.create(&mut system);
    let keys = keys.keys;
    store_tls(&mut system, &keys, 0x1234_5678_9abc_def0);
    assert_eq!(load_tls(&system, &keys), 0x1234_5678_9abc_def0);
    store_tls(&mut system, &keys, 0);
    assert_eq!(timestamp_at(&mut system, &keys, 500), OsDuration::from_nanos(500));
    assert_eq!(timestamp_at(&mut system, &keys, 400), OsDuration::from_nanos(500));
    system.now = 600;
    assert_eq!(timestamp(&mut system, &keys), OsDuration::from_nanos(600));
    assert_eq!(load_tls(&system, &keys), 600);
    let mut steady = SingleThread::<true>::new(0);
    steady.now = 100;
    assert_eq!(timestamp(&mut steady, &Vec::new()), OsDuration::from_nanos(100));
    assert_eq!(timestamp_at(&mut steady, &Vec::new(), 50), OsDuration::from_nanos(50));
}

#[test]
fn single_thread_keeps_values_under_keys() {
    let mut system = SingleThread::<false>::new(2);
    assert_eq!(system.alloc_key(), Some(0));
    assert_eq!(system.alloc_key(), Some(1));
    assert_eq!(system.alloc_key(), None);
    assert_eq!(system.get(1), 0);
    system.set(1, 7);
    assert_eq!(system.get(1), 7);
    assert_eq!(system.get(0), 0);
    system.dealloc(0);
    assert_eq!(system.alloc_key(), Some(0));
    assert_eq!(system.nanotime(), 0);
}
