use yaar_lock::event::linux::{Notify, NotifyStep, Signal as FutexSignal, Wait, WaitStep, EMPTY, NOTIFIED, WAITING};
use yaar_lock::event::posix;
use yaar_lock::event::posix::{KeyAttempt, KeyStep, LocalKey, ThreadSignal, ThreadStep};
use yaar_lock::event::time::{OsDuration, OsInstant};
use yaar_lock::event::{yield_hints, OsAutoResetEvent, YieldContext};
use yaar_lock::signal::linux;
use yaar_lock::signal::windows;
use yaar_lock::signal::{OsSignal, Signal};
use yaar_lock::windows_api::{KeyedEvents, Search};

fn at(timestamp: u64) -> OsInstant {
    OsInstant { timestamp }
}

fn notify(signal: &mut FutexSignal) -> bool {
    let mut notify = Notify::Load;
    loop {
        match signal.notify(&mut notify) {
            NotifyStep::Continue => {}
            NotifyStep::Done => return false,
            NotifyStep::Wake => return true,
        }
    }
}

fn go_on(signal: &mut FutexSignal, wait: &mut Wait, timeout: Option<OsInstant>, now: u64) -> WaitStep {
    loop {
        match signal.try_wait(wait, timeout, at(now), i64::MAX as u64) {
            WaitStep::Continue => {}
            step => return step,
        }
    }
}

#[test]
fn notification_before_the_wait_is_kept() {
    let mut signal = FutexSignal::new();
    assert_eq!(signal.name(), "empty");
    assert!(!notify(&mut signal));
    assert!(!notify(&mut signal));
    assert_eq!(signal.state, NOTIFIED);
    assert_eq!(signal.name(), "notified");
    let mut wait = Wait::Load;
    assert_eq!(go_on(&mut signal, &mut wait, None, 0), WaitStep::Notified);
    assert_eq!(signal.state, EMPTY);
    let mut wait = Wait::Load;
    assert_eq!(go_on(&mut signal, &mut wait, None, 0), WaitStep::Block(None));
}

#[test]
fn waiting_thread_is_released() {
    let mut signal = FutexSignal::new();
    let mut wait = Wait::Load;
    assert_eq!(go_on(&mut signal, &mut wait, None, 0), WaitStep::Block(None));
    assert_eq!(signal.state, WAITING);
    assert_eq!(signal.name(), "has_waiter");
    // It may wake up by itself.
    assert_eq!(go_on(&mut signal, &mut wait, None, 0), WaitStep::Block(None));
    assert!(notify(&mut signal));
    assert_eq!(go_on(&mut signal, &mut wait, None, 0), WaitStep::Notified);
    assert_eq!(signal.state, EMPTY);
}

#[test]
fn waiting_thread_times_out() {
    let mut signal = FutexSignal::new();
    let mut wait = Wait::Load;
    let timeout = Some(at(2_000_000_005));
    assert_eq!(
        go_on(&mut signal, &mut wait, timeout, 5),
        WaitStep::Block(Some(OsDuration { secs: 2, nanos: 0 }))
    );
    assert_eq!(go_on(&mut signal, &mut wait, timeout, 2_000_000_005), WaitStep::TimedOut);
    assert_eq!(signal.state, EMPTY);
    // A notification that comes just in time counts.
    let mut wait = Wait::Load;
    assert!(matches!(go_on(&mut signal, &mut wait, timeout, 5), WaitStep::Block(Some(_))));
    let mut late = wait;
    assert_eq!(signal.try_wait(&mut late, timeout, at(2_000_000_006), 1), WaitStep::Continue);
    assert_eq!(late, Wait::TimeOut);
    assert!(notify(&mut signal));
    assert_eq!(signal.try_wait(&mut late, timeout, at(2_000_000_006), 1), WaitStep::Notified);
}

#[test]
fn notification_is_kept_when_the_waiting_thread_times_out() {
    let mut signal = FutexSignal::new();
    let mut wait = Wait::Load;
    let timeout = Some(at(5));
    assert!(matches!(go_on(&mut signal, &mut wait, timeout, 0), WaitStep::Block(Some(_))));
    let mut notify = Notify::Load;
    assert_eq!(signal.notify(&mut notify), NotifyStep::Continue);
    assert_eq!(notify, Notify::Release);
    assert_eq!(go_on(&mut signal, &mut wait, timeout, 5), WaitStep::TimedOut);
    assert_eq!(signal.notify(&mut notify), NotifyStep::Continue);
    assert_eq!(notify, Notify::Exchange);
    assert_eq!(signal.notify(&mut notify), NotifyStep::Done);
    assert_eq!(signal.state, NOTIFIED);
    // Another thread was faster.
    let mut late = Notify::Release;
    assert_eq!(signal.notify(&mut late), NotifyStep::Done);
    assert_eq!(signal.state, NOTIFIED);
}

#[test]
fn times_that_cannot_be_told_are_endless() {
    let mut signal = FutexSignal { state: WAITING };
    let mut wait = Wait::Block;
    assert_eq!(signal.try_wait(&mut wait, Some(at(5_000_000_000)), at(0), 4), WaitStep::Block(None));
    assert_eq!(
        signal.try_wait(&mut wait, Some(at(5_000_000_000)), at(0), 5),
        WaitStep::Block(Some(OsDuration { secs: 5, nanos: 0 }))
    );
}

#[test]
fn event_yields_for_a_while() {
    let hints = |iteration| yield_hints(YieldContext { contended: false, iteration });
    assert_eq!(hints(0), Some(1));
    assert_eq!(hints(9), Some(512));
    assert_eq!(hints(10), Some(1024));
    assert_eq!(hints(19), Some(10240));
    assert_eq!(hints(20), None);
    assert_eq!(yield_hints(YieldContext { contended: true, iteration: 0 }), None);
    assert!(OsAutoResetEvent::yield_now(YieldContext { contended: false, iteration: 3 }));
    assert!(!OsAutoResetEvent::yield_now(YieldContext { contended: true, iteration: 3 }));
}

#[test]
fn event_is_set_and_consumed() {
    let mut event = OsAutoResetEvent::default();
    let mut setting = Notify::Load;
    assert_eq!(event.set(&mut setting), NotifyStep::Continue);
    assert_eq!(event.set(&mut setting), NotifyStep::Done);
    let mut wait = Wait::Load;
    assert_eq!(event.wait(&mut wait), WaitStep::Continue);
    assert_eq!(event.wait(&mut wait), WaitStep::Notified);
    let mut wait = Wait::Load;
    let times_out = OsAutoResetEvent::try_wait_for(at(10), OsDuration { secs: 0, nanos: 5 });
    assert_eq!(times_out, at(15));
    assert_eq!(event.try_wait_until(&mut wait, times_out, at(10), 1), WaitStep::Continue);
    assert_eq!(event.try_wait_until(&mut wait, times_out, at(10), 1), WaitStep::Continue);
    assert_eq!(
        event.try_wait_until(&mut wait, times_out, at(11), 1),
        WaitStep::Block(Some(OsDuration { secs: 0, nanos: 4 }))
    );
    assert_eq!(event.try_wait_until(&mut wait, times_out, at(16), 1), WaitStep::Continue);
    assert_eq!(event.try_wait_until(&mut wait, times_out, at(16), 1), WaitStep::TimedOut);
    assert_eq!(OsAutoResetEvent::time_left(times_out, at(12)), OsDuration { secs: 0, nanos: 3 });
    assert_eq!(OsAutoResetEvent::time_left(times_out, at(16)), OsDuration { secs: 0, nanos: 0 });
}

#[test]
fn posix_signal_points_to_the_waiting_thread() {
    let mut signal = posix::Signal::new();
    assert_eq!(signal.notify(), posix::NotifyStep::Exchange);
    assert_eq!(signal.notify_exchange(), posix::NotifyStep::Done);
    assert_eq!(signal.state, posix::NOTIFIED);
    assert_eq!(signal.notify(), posix::NotifyStep::Done);
    assert_eq!(signal.notify_exchange(), posix::NotifyStep::Done);
    assert_eq!(signal.try_wait(), posix::WaitStep::Take);
    signal.take();
    assert_eq!(signal.try_wait(), posix::WaitStep::Exchange);
    assert_eq!(signal.wait_exchange(64), posix::WaitStep::Thread(64));
    assert_eq!(signal.state, 64);
    assert_eq!(signal.notify(), posix::NotifyStep::Thread(64));
    assert_eq!(signal.notify_exchange(), posix::NotifyStep::Thread(64));
    assert_eq!(signal.try_wait(), posix::WaitStep::Thread(64));
    signal.state = posix::NOTIFIED;
    assert_eq!(signal.wait_exchange(64), posix::WaitStep::Take);
}

#[test]
fn thread_signal_holds_one_permit() {
    let mut signal = ThreadSignal::new();
    assert_eq!(signal.state(), "empty");
    assert!(!signal.notify());
    assert!(!signal.notify());
    assert_eq!(signal.state(), "notified");
    assert_eq!(signal.try_wait(None, at(0)), ThreadStep::Notified);
    assert_eq!(signal.try_wait(None, at(0)), ThreadStep::Block(None));
    assert_eq!(signal.state(), "has_waiter");
    assert_eq!(signal.wait_again(None, at(0)), ThreadStep::Block(None));
    assert!(signal.notify());
    assert_eq!(signal.wait_again(None, at(0)), ThreadStep::Notified);
    assert_eq!(signal.state, posix::EMPTY);
    assert_eq!(
        signal.try_wait(Some(at(9)), at(4)),
        ThreadStep::Block(Some(OsDuration { secs: 0, nanos: 5 }))
    );
    assert_eq!(signal.wait_again(Some(at(9)), at(9)), ThreadStep::TimedOut);
    assert_eq!(signal.state, posix::EMPTY);
    assert_eq!(signal.try_wait(Some(at(9)), at(9)), ThreadStep::TimedOut);
}

#[test]
fn deadlines_carry_seconds() {
    let lasting = |secs, nanos| OsDuration { secs, nanos };
    assert_eq!(ThreadSignal::timeout_to_ts(lasting(1, 5), 10, 20), Some((11, 25)));
    assert_eq!(ThreadSignal::timeout_to_ts(lasting(1, 600_000_000), 10, 400_000_000), Some((12, 0)));
    assert_eq!(ThreadSignal::timeout_to_ts(lasting(u64::MAX, 0), 0, 0), None);
    assert_eq!(ThreadSignal::timeout_to_ts(lasting(i64::MAX as u64, 0), 1, 0), None);
    assert_eq!(ThreadSignal::timeout_to_ts(lasting(i64::MAX as u64, 1), 0, 999_999_999), None);
    assert_eq!(
        ThreadSignal::timeout_to_ts(lasting(i64::MAX as u64, 0), 0, 999_999_999),
        Some((i64::MAX, 999_999_999))
    );
}

#[test]
fn local_key_is_created_once() {
    let mut key = LocalKey::new();
    assert!(!key.get());
    let mut attempt = KeyAttempt { state: None, spin: 0 };
    assert_eq!(key.create_key(&mut attempt), KeyStep::Continue);
    assert_eq!(key.create_key(&mut attempt), KeyStep::Create);
    let mut other = KeyAttempt { state: None, spin: 19 };
    assert_eq!(key.create_key(&mut other), KeyStep::Continue);
    assert_eq!(key.create_key(&mut other), KeyStep::Spin(10240));
    assert_eq!(other.spin, 20);
    assert_eq!(key.create_key(&mut other), KeyStep::Continue);
    assert_eq!(key.create_key(&mut other), KeyStep::Continue);
    assert_eq!(other.spin, 0);
    key.created(&mut attempt, 0);
    assert!(key.get());
    assert_eq!(key.create_key(&mut attempt), KeyStep::Ready);
    let mut key = LocalKey { state: posix::CREATING };
    key.created(&mut attempt, 12);
    assert_eq!(key.create_key(&mut attempt), KeyStep::Failed);
}

#[test]
fn os_signal_keeps_one_permit() {
    let mut signal = OsSignal::default();
    assert!(!signal.notify());
    assert!(!signal.notify());
    assert!(signal.wait());
    assert!(!signal.wait());
    assert!(signal.notify());
    assert!(!signal.wait());
}

#[test]
fn system_signal_notifies_all() {
    let mut signal = linux::SystemSignal::new();
    assert!(!signal.notify_all());
    assert_eq!(signal.state, linux::NOTIFY);
    assert!(!signal.notify_all());
    assert_eq!(signal.state, linux::EMPTY);
    assert_eq!(signal.wait(), linux::WaitStep::Block);
    assert!(signal.notify_all());
    assert_eq!(signal.state, linux::EMPTY);
}

#[test]
fn system_signal_times_out() {
    let mut signal = linux::SystemSignal::new();
    assert_eq!(signal.wait(), linux::WaitStep::Block);
    let lasting = OsDuration { secs: 0, nanos: 100 };
    assert_eq!(signal.wait_timeout(at(10), lasting, at(109)), None);
    assert_eq!(signal.wait_timeout(at(10), lasting, at(110)), Some(false));
    assert_eq!(signal.state, linux::EMPTY);
    assert_eq!(signal.wait(), linux::WaitStep::Block);
    assert!(signal.notify());
    assert_eq!(signal.wait_timeout(at(10), lasting, at(500)), Some(true));
}

#[test]
fn keyed_event_signal_waits_and_wakes() {
    let mut signal = windows::SystemSignal::new();
    let mut wait = windows::Wait::Load;
    assert_eq!(signal.wait(&mut wait), windows::WaitStep::Continue);
    assert_eq!(signal.wait(&mut wait), windows::WaitStep::Block);
    assert!(signal.notify());
    assert_eq!(signal.state, windows::NOTIFIED);
    assert_eq!(signal.wait(&mut wait), windows::WaitStep::Done);
    assert_eq!(signal.state, windows::EMPTY);
    assert!(!signal.notify());
    let mut wait = windows::Wait::Load;
    assert_eq!(signal.wait(&mut wait), windows::WaitStep::Continue);
    assert_eq!(signal.wait(&mut wait), windows::WaitStep::Done);
    // A notification between the look and the exchange.
    let mut wait = windows::Wait::Load;
    assert_eq!(signal.wait(&mut wait), windows::WaitStep::Continue);
    assert!(!signal.notify());
    assert_eq!(signal.wait(&mut wait), windows::WaitStep::Continue);
    assert_eq!(signal.wait(&mut wait), windows::WaitStep::Done);
}

#[test]
fn keyed_event_is_looked_for_first() {
    let mut found = KeyedEvents::new();
    assert_eq!(
        windows::SystemSignal::invoke_nt_event(&found, windows::Action::Wait, 0x80),
        windows::InvokeStep::Load(Search::Module)
    );
    found.handle = 3;
    found.wait_for_keyed_event = 4;
    found.release_keyed_event = 5;
    assert_eq!(
        windows::SystemSignal::invoke_nt_event(&found, windows::Action::Wait, 0x80),
        windows::InvokeStep::Call { function: 4, handle: 3, key: 0x80, alertable: false, timeout: None }
    );
    assert_eq!(
        windows::SystemSignal::invoke_nt_event(&found, windows::Action::Notify, 0x80),
        windows::InvokeStep::Call { function: 5, handle: 3, key: 0x80, alertable: false, timeout: None }
    );
}
