use yaar_lock::event::linux::{Notify, NotifyStep, Wait as SignalWait, WaitStep};
use yaar_lock::event::time::{OsDuration, OsInstant};
use yaar_lock::parker::event::windows::{timestamp, yield_now, Backend, Phase, Step, Wait, Wake, INFINITE};
use yaar_lock::parker::event::OsAutoResetEvent;
use yaar_lock::windows_api::{
    Found, Function, KeyedEvents, Module, Published, Search, SearchStep, WAIT_ON_ADDRESS,
};

const ADDRESS: usize = 0x40;
const EXPECT: usize = 1;
const RESET: usize = 0;

fn keyed(timeout: Option<i64>) -> Step {
    Step::WaitKeyed { handle: 3, key: ADDRESS, alertable: false, timeout }
}

fn on_address(millis: u32) -> Step {
    Step::WaitAddress { address: ADDRESS, expect: EXPECT, millis }
}

fn lasting(secs: u64, nanos: u32) -> OsDuration {
    OsDuration { secs, nanos }
}

#[test]
fn names_are_those_of_windows() {
    assert_eq!(Module::Ntdll.name(), "ntdll.dll");
    assert_eq!(Module::Synch.name(), "api-ms-win-core-synch-l1-2-0.dll");
    assert_eq!(Function::NtReleaseKeyedEvent.name(), "NtReleaseKeyedEvent");
    assert_eq!(Function::NtWaitForKeyedEvent.name(), "NtWaitForKeyedEvent");
    assert_eq!(Function::NtCreateKeyedEvent.name(), "NtCreateKeyedEvent");
    assert_eq!(Function::WakeByAddressSingle.name(), "WakeByAddressSingle");
    assert_eq!(Function::WaitOnAddress.name(), "WaitOnAddress");
}

#[test]
fn keyed_events_are_found() {
    let mut found = KeyedEvents::new();
    let mut search = Search::Module;
    assert_eq!(found.load_keyed_event(&mut search, 10), SearchStep::Find(10, Function::NtReleaseKeyedEvent));
    assert_eq!(found.load_keyed_event(&mut search, 11), SearchStep::Find(10, Function::NtWaitForKeyedEvent));
    assert_eq!(found.load_keyed_event(&mut search, 12), SearchStep::Find(10, Function::NtCreateKeyedEvent));
    assert_eq!(found.load_keyed_event(&mut search, 13), SearchStep::Create(13));
    assert_eq!(found.release_keyed_event, 11);
    assert_eq!(found.wait_for_keyed_event, 12);
    assert_eq!(found.publish(Some(20)), Published::Ready(20));
    assert_eq!(found.publish(Some(21)), Published::Close(21, 20));
    assert_eq!(found.handle, 20);
    assert_eq!(Backend::get(&Found { keyed: found, ..Found::new() }), Some(Backend::KeyedEvent(20)));
}

#[test]
fn keyed_events_can_be_missing() {
    for missing in 0..4 {
        let mut found = KeyedEvents::new();
        let mut search = Search::Module;
        for i in 0..missing {
            assert_ne!(found.load_keyed_event(&mut search, 10 + i), SearchStep::Missing);
        }
        assert_eq!(found.load_keyed_event(&mut search, 0), SearchStep::Missing);
    }
    let mut found = KeyedEvents::new();
    assert_eq!(found.publish(None), Published::Missing);
    assert_eq!(found.publish(Some(0)), Published::Missing);
    assert_eq!(Backend::get(&Found { keyed: found, ..Found::new() }), None);
}

#[test]
fn waiting_on_addresses_is_found() {
    let mut found = Found::new();
    let mut search = Search::Module;
    assert_eq!(found.load_wait_on_address(&mut search, 10), SearchStep::Find(10, Function::WakeByAddressSingle));
    assert_eq!(found.load_wait_on_address(&mut search, 11), SearchStep::Find(10, Function::WaitOnAddress));
    assert_eq!(found.load_wait_on_address(&mut search, 12), SearchStep::Found);
    assert_eq!(found.wake_by_address_single, 11);
    assert_eq!(found.wait_on_address, 12);
    assert_eq!(found.keyed.handle, WAIT_ON_ADDRESS);
    assert_eq!(Backend::get(&found), Some(Backend::WaitOnAddress));
    assert_eq!(found.load_wait_on_address(&mut Search::Module, 0), SearchStep::Missing);
}

#[test]
fn keyed_events_are_preferred() {
    assert_eq!(Backend::pick(Some(3), true), Some(Backend::KeyedEvent(3)));
    assert_eq!(Backend::pick(None, true), Some(Backend::WaitOnAddress));
    assert_eq!(Backend::pick(None, false), None);
}

#[test]
fn keyed_wait_without_end() {
    let mut state: usize = EXPECT;
    let mut wait = Wait::new(Backend::KeyedEvent(3), ADDRESS, None, OsDuration::zero());
    assert_eq!(wait.step(&mut state, EXPECT, RESET), keyed(None));
    assert_eq!(wait.keyed_waited(true), Step::Notified);
}

#[test]
fn keyed_wait_times_out() {
    let mut state: usize = EXPECT;
    let mut wait = Wait::new(Backend::KeyedEvent(3), ADDRESS, Some(lasting(1, 250)), OsDuration::zero());
    assert_eq!(wait.step(&mut state, EXPECT, RESET), keyed(Some(-10_000_002)));
    assert_eq!(wait.keyed_waited(false), Step::Continue);
    assert_eq!(wait.step(&mut state, EXPECT, RESET), Step::TimedOut);
    assert_eq!(state, RESET);
}

#[test]
fn keyed_wait_that_is_about_to_be_woken_goes_on() {
    let mut state: usize = EXPECT;
    let mut wait = Wait::new(Backend::KeyedEvent(3), ADDRESS, Some(lasting(0, 99)), OsDuration::zero());
    assert_eq!(wait.step(&mut state, EXPECT, RESET), Step::Continue);
    assert_eq!(wait.phase, Phase::KeyedReset);
    state = 7;
    assert_eq!(wait.step(&mut state, EXPECT, RESET), keyed(None));
    assert_eq!(wait.phase, Phase::KeyedLast);
    assert_eq!(wait.step(&mut state, EXPECT, RESET), keyed(None));
    assert_eq!(wait.keyed_waited(true), Step::Notified);
    assert_eq!(state, 7);
}

#[test]
fn keyed_wait_is_limited() {
    let mut state: usize = EXPECT;
    let mut wait = Wait::new(Backend::KeyedEvent(3), ADDRESS, Some(lasting(u64::MAX, 0)), OsDuration::zero());
    assert_eq!(wait.step(&mut state, EXPECT, RESET), keyed(Some(-i64::MAX)));
}

#[test]
fn address_wait_counts_down() {
    let mut state: usize = EXPECT;
    let mut wait = Wait::new(Backend::WaitOnAddress, ADDRESS, Some(lasting(2, 0)), lasting(10, 0));
    assert_eq!(wait.deadline, Some(lasting(12, 0)));
    assert_eq!(wait.step(&mut state, EXPECT, RESET), on_address(2000));
    wait.address_waited(false, lasting(11, 0));
    assert_eq!(wait.step(&mut state, EXPECT, RESET), on_address(2000));
    wait.address_waited(true, lasting(11, 500_000_000));
    assert_eq!(wait.step(&mut state, EXPECT, RESET), on_address(500));
    wait.address_waited(true, lasting(13, 0));
    assert_eq!(wait.step(&mut state, EXPECT, RESET), Step::Continue);
    assert_eq!(wait.step(&mut state, EXPECT, RESET), Step::TimedOut);
    assert_eq!(state, RESET);
}

#[test]
fn address_wait_notices_the_change() {
    let mut state: usize = 5;
    let mut wait = Wait::new(Backend::WaitOnAddress, ADDRESS, None, lasting(10, 0));
    assert_eq!(wait.step(&mut state, EXPECT, RESET), Step::Notified);
    state = EXPECT;
    assert_eq!(wait.step(&mut state, EXPECT, RESET), on_address(INFINITE));
    let mut wait = Wait::new(Backend::WaitOnAddress, ADDRESS, Some(lasting(0, 5)), lasting(10, 0));
    assert_eq!(wait.step(&mut state, EXPECT, RESET), Step::Continue);
    state = 5;
    assert_eq!(wait.step(&mut state, EXPECT, RESET), Step::Notified);
    let mut wait = Wait::new(Backend::WaitOnAddress, ADDRESS, Some(lasting(5_000_000, 0)), lasting(10, 0));
    state = EXPECT;
    assert_eq!(wait.step(&mut state, EXPECT, RESET), on_address(INFINITE - 1));
}

#[test]
fn threads_are_woken_where_they_wait() {
    assert_eq!(
        Backend::KeyedEvent(3).wake(ADDRESS),
        Wake::Keyed { handle: 3, key: ADDRESS, alertable: false, timeout: None }
    );
    assert_eq!(Backend::WaitOnAddress.wake(ADDRESS), Wake::Address { address: ADDRESS });
}

#[test]
fn counter_is_converted() {
    assert_eq!(timestamp(1_000, 10_000_000), lasting(0, 100_000));
    assert_eq!(timestamp(1_000, 25_000_000), lasting(0, 40_000));
    assert_eq!(timestamp(7, 3), lasting(2, 333_333_333));
    assert_eq!(timestamp(i64::MAX, 1), lasting(i64::MAX as u64, 0));
}

#[test]
fn spinning_is_limited() {
    assert!(yield_now(39));
    assert!(!yield_now(40));
    assert!(OsAutoResetEvent::yield_now(0));
}

#[test]
fn windows_event_is_consumed() {
    let now = OsInstant { timestamp: 0 };
    let mut event = OsAutoResetEvent::default();
    let mut setting = Notify::Load;
    assert_eq!(event.set(&mut setting), NotifyStep::Continue);
    assert_eq!(event.set(&mut setting), NotifyStep::Done);
    let mut wait = SignalWait::Load;
    assert_eq!(event.try_wait(&mut wait, None, now, 1), WaitStep::Continue);
    assert_eq!(event.try_wait(&mut wait, None, now, 1), WaitStep::Notified);
}
