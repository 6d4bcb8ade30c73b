//! Laws of blocking and of looking for functions under Windows.
use crate::event::time::OsDuration;
use crate::parker::event::windows;
use crate::parker::event::windows::{Backend, Phase, Step, Wait, Wake};
use crate::signal::windows::{Action, InvokeStep, SystemSignal};
use crate::windows_api::{Found, Function, KeyedEvents, Module, Published, Search, SearchStep};
use vstd::prelude::*;

verus! {

/// A thread that blocks on a keyed event waits for it with the address of the state as the
/// key. It waits without end if it has no time, for its time in units of a hundred
/// nanoseconds if it has, and not at all if that is none.
pub proof fn keyed_wait_lasts_for_the_time(
    before: Wait,
    after: Wait,
    state: usize,
    new_state: usize,
    expect: usize,
    reset: usize,
    step: Step,
    handle: usize,
    time: OsDuration,
)
    requires
        windows::wait_steps(before, after, state, new_state, expect, reset, step),
        before.phase == Phase::Keyed,
        before.backend == Backend::KeyedEvent(handle),
    ensures
        new_state == state,
        before.timeout is None ==> step == (Step::WaitKeyed {
            handle,
            key: before.address,
            alertable: false,
            timeout: None,
        }),
        before.timeout == Some(time) ==> {
            let units = (time.secs * 1_000_000_000 + time.nanos) / 100;
            &&& units == 0 ==> step == Step::Continue && after.phase == Phase::KeyedReset && after.timeout
                == before.timeout && after.backend == before.backend && after.address == before.address
            &&& units > 0 ==> after == before
            &&& 0 < units <= i64::MAX ==> step == (Step::WaitKeyed {
                handle,
                key: before.address,
                alertable: false,
                timeout: Some((-units) as i64),
            })
            &&& units > i64::MAX ==> step == (Step::WaitKeyed {
                handle,
                key: before.address,
                alertable: false,
                timeout: Some((-i64::MAX) as i64),
            })
        },
{
}

/// A thread that was not woken in time takes back that it waits, and has timed out. If it
/// could not, it is about to be woken and waits for that without end.
pub proof fn timed_out_thread_takes_back_its_wait(
    before: Wait,
    after: Wait,
    state: usize,
    new_state: usize,
    expect: usize,
    reset: usize,
    step: Step,
    handle: usize,
)
    requires
        windows::wait_steps(before, after, state, new_state, expect, reset, step),
    ensures
        (before.phase == Phase::KeyedReset || before.phase == Phase::AddressReset) && state == expect ==> step
            == Step::TimedOut && new_state == reset,
        before.phase == Phase::KeyedReset && before.backend == Backend::KeyedEvent(handle) && state != expect
            ==> step == (Step::WaitKeyed {
            handle,
            key: before.address,
            alertable: false,
            timeout: None,
        }) && after.phase == Phase::KeyedLast && new_state == state,
        before.phase == Phase::KeyedLast && before.backend == Backend::KeyedEvent(handle) ==> step == (
        Step::WaitKeyed { handle, key: before.address, alertable: false, timeout: None }) && new_state == state,
        before.phase == Phase::AddressReset && state != expect ==> step == Step::Notified && new_state == state,
{
}

/// A thread that blocks on an address is woken once the state is not what it expects. Until
/// then it waits there for its time in milliseconds, or without end if it has none. A time
/// that is too long to tell is the longest that has an end.
pub proof fn address_wait_lasts_for_the_time(
    before: Wait,
    after: Wait,
    state: usize,
    new_state: usize,
    expect: usize,
    reset: usize,
    step: Step,
    time: OsDuration,
)
    requires
        windows::wait_steps(before, after, state, new_state, expect, reset, step),
        before.phase == Phase::Address,
    ensures
        new_state == state,
        state != expect ==> step == Step::Notified,
        state == expect && before.timeout is None ==> step == (Step::WaitAddress {
            address: before.address,
            expect,
            millis: u32::MAX,
        }),
        state == expect && before.timeout == Some(time) ==> {
            let millis = (time.secs * 1_000_000_000 + time.nanos) / 1_000_000;
            &&& millis == 0 ==> step == Step::Continue && after.phase == Phase::AddressReset && after.timeout
                == before.timeout && after.backend == before.backend && after.address == before.address
            &&& millis > 0 ==> after == before
            &&& 0 < millis <= u32::MAX ==> step == (Step::WaitAddress {
                address: before.address,
                expect,
                millis: millis as u32,
            })
            &&& millis > u32::MAX ==> step == (Step::WaitAddress {
                address: before.address,
                expect,
                millis: (u32::MAX - 1) as u32,
            })
        },
{
}

/// A thread begins to block by the means that it has, and has a deadline where it may have to
/// wait several times. What is left of its time is what has not passed until then.
pub proof fn blocking_goes_on(
    wait: &mut Wait,
    state: &mut usize,
    begun: Wait,
    backend: Backend,
    address: usize,
    timeout: Option<OsDuration>,
    now: OsDuration,
    expect: usize,
    reset: usize,
    step: Step,
    woken: bool,
    timed_out: bool,
    deadline: OsDuration,
)
    ensures
        call_ensures(Wait::new, (backend, address, timeout, now), begun) ==> {
            &&& begun.backend == backend
            &&& begun.address == address
            &&& begun.timeout == timeout
            &&& begun.phase == (match backend {
                Backend::WaitOnAddress => Phase::Address,
                Backend::KeyedEvent(_) => Phase::Keyed,
            })
            &&& backend == Backend::WaitOnAddress ==> (timeout matches Some(time) ==> (begun.deadline matches
                Some(d) && d.secs * 1_000_000_000 + d.nanos == now.secs * 1_000_000_000 + now.nanos + time.secs
                * 1_000_000_000 + time.nanos))
            &&& backend is KeyedEvent || timeout is None ==> begun.deadline is None
        },
        call_ensures(Wait::step, (wait, state, expect, reset), step) ==> windows::wait_steps(
            *old(wait),
            *final(wait),
            *old(state),
            *final(state),
            expect,
            reset,
            step,
        ),
        call_ensures(Wait::keyed_waited, (wait, woken), step) ==> (woken ==> step == Step::Notified) && (!woken
            ==> step == Step::Continue && final(wait).phase == Phase::KeyedReset && final(wait).timeout == old(wait).timeout && final(wait).backend == old(wait).backend && final(wait).address == old(wait).address),
        call_ensures(Wait::address_waited, (wait, timed_out, now), ()) ==> {
            &&& final(wait).phase == old(wait).phase
            &&& final(wait).deadline == old(wait).deadline
            &&& final(wait).address == old(wait).address
            &&& !timed_out ==> final(wait).timeout == old(wait).timeout
            &&& timed_out && old(wait).deadline == Some(deadline) ==> (final(wait).timeout matches Some(left)
                && left.secs * 1_000_000_000 + left.nanos == ({
                let until = deadline.secs * 1_000_000_000 + deadline.nanos;
                let at = now.secs * 1_000_000_000 + now.nanos;
                if at <= until {
                    until - at
                } else {
                    0
                }
            }))
        },
{
}

/// Threads block by the keyed event that was found, or else on addresses. One is woken where
/// it waits.
pub proof fn means_of_blocking_are_picked(
    found: Found,
    backend: Option<Backend>,
    keyed_event: Option<usize>,
    wait_on_address: bool,
    picked: Option<Backend>,
    by: Backend,
    address: usize,
    wake: Wake,
)
    ensures
        call_ensures(Backend::get, (&found,), backend) ==> {
            &&& backend is None <==> found.keyed.handle == 0
            &&& backend == Some(Backend::WaitOnAddress) <==> found.keyed.handle == usize::MAX
            &&& backend matches Some(Backend::KeyedEvent(handle)) ==> handle == found.keyed.handle
        },
        call_ensures(Backend::pick, (keyed_event, wait_on_address), picked) ==> {
            &&& keyed_event matches Some(handle) ==> picked == Some(Backend::KeyedEvent(handle))
            &&& keyed_event is None && wait_on_address ==> picked == Some(Backend::WaitOnAddress)
            &&& keyed_event is None && !wait_on_address ==> picked is None
        },
        call_ensures(Backend::wake, (by, address), wake) ==> {
            &&& by matches Backend::KeyedEvent(handle) ==> wake == (Wake::Keyed {
                handle,
                key: address,
                alertable: false,
                timeout: None,
            })
            &&& by == Backend::WaitOnAddress ==> wake == (Wake::Address { address })
        },
{
}

/// A signal calls the function of its action with its keyed event and its address as the key,
/// without an end and not to be interrupted, once there is a keyed event. Until then it looks
/// for one.
pub proof fn keyed_event_is_invoked(found: KeyedEvents, action: Action, address: usize, invoke: InvokeStep)
    requires
        call_ensures(SystemSignal::invoke_nt_event, (&found, action, address), invoke),
    ensures
        found.handle == 0 ==> invoke == InvokeStep::Load(Search::Module),
        found.handle != 0 ==> (invoke matches InvokeStep::Call { function, handle, key, alertable, timeout }
            && handle == found.handle && key == address && !alertable && timeout is None && (action
            == Action::Wait ==> function == found.wait_for_keyed_event) && (action == Action::Notify
            ==> function == found.release_keyed_event)),
{
}

/// Looking for what keyed events need goes from the library to the function that wakes, the
/// one that waits and the one that creates, and remembers the two that are called later. It
/// ends where something is missing.
pub proof fn keyed_events_are_looked_for(
    found: &mut KeyedEvents,
    search: &mut Search,
    address: usize,
    step: SearchStep,
)
    requires
        call_ensures(KeyedEvents::load_keyed_event, (found, search, address), step),
    ensures
        final(found).handle == old(found).handle,
        address == 0 ==> step == SearchStep::Missing && *final(found) == *old(found),
        address != 0 ==> match *old(search) {
            Search::Module => step == SearchStep::Find(address, Function::NtReleaseKeyedEvent)
                && *final(search) == Search::Wake(address) && *final(found) == *old(found),
            Search::Wake(module) => step == SearchStep::Find(module, Function::NtWaitForKeyedEvent)
                && *final(search) == Search::Wait(module) && final(found).release_keyed_event == address
                && final(found).wait_for_keyed_event == old(found).wait_for_keyed_event,
            Search::Wait(module) => step == SearchStep::Find(module, Function::NtCreateKeyedEvent)
                && *final(search) == Search::Create && final(found).wait_for_keyed_event == address
                && final(found).release_keyed_event == old(found).release_keyed_event,
            Search::Create => step == SearchStep::Create(address) && *final(found) == *old(found),
        },
{
}

/// Looking for what waiting on addresses needs goes from the library to the function that
/// wakes and the one that waits. Once both are found, threads block on addresses.
pub proof fn waiting_on_addresses_is_looked_for(
    found: &mut Found,
    search: &mut Search,
    address: usize,
    step: SearchStep,
)
    requires
        call_ensures(Found::load_wait_on_address, (found, search, address), step),
    ensures
        address == 0 ==> step == SearchStep::Missing && *final(found) == *old(found),
        address != 0 ==> match *old(search) {
            Search::Module => step == SearchStep::Find(address, Function::WakeByAddressSingle)
                && *final(search) == Search::Wake(address) && *final(found) == *old(found),
            Search::Wake(module) => step == SearchStep::Find(module, Function::WaitOnAddress)
                && *final(search) == Search::Wait(module) && final(found).wake_by_address_single == address
                && final(found).keyed == old(found).keyed,
            _ => step == SearchStep::Found && final(found).wait_on_address == address
                && final(found).wake_by_address_single == old(found).wake_by_address_single
                && final(found).keyed.handle == usize::MAX,
        },
{
}

/// The first keyed event that is created is the one that all threads use. A later one is
/// closed, and one that could not be created is missing.
pub proof fn first_keyed_event_is_used(found: &mut KeyedEvents, created: Option<usize>, published: Published)
    requires
        call_ensures(KeyedEvents::publish, (found, created), published),
    ensures
        final(found).release_keyed_event == old(found).release_keyed_event,
        final(found).wait_for_keyed_event == old(found).wait_for_keyed_event,
        created is None ==> published == Published::Missing && final(found).handle == old(found).handle,
        created matches Some(handle) ==> {
            &&& old(found).handle != 0 ==> published == Published::Close(handle, old(found).handle)
                && final(found).handle == old(found).handle
            &&& old(found).handle == 0 && handle != 0 ==> published == Published::Ready(handle)
                && final(found).handle == handle
            &&& old(found).handle == 0 && handle == 0 ==> published == Published::Missing
                && final(found).handle == 0
        },
{
}

/// Libraries and functions are found under the names that Windows gives them.
pub proof fn names_are_those_of_windows(
    module: Module,
    function: Function,
    module_name: &'static str,
    function_name: &'static str,
)
    ensures
        call_ensures(Module::name, (module,), module_name) ==> module_name@ == (match module {
            Module::Ntdll => "ntdll.dll"@,
            Module::Synch => "api-ms-win-core-synch-l1-2-0.dll"@,
        }),
        call_ensures(Function::name, (function,), function_name) ==> function_name@ == (match function {
            Function::NtReleaseKeyedEvent => "NtReleaseKeyedEvent"@,
            Function::NtWaitForKeyedEvent => "NtWaitForKeyedEvent"@,
            Function::NtCreateKeyedEvent => "NtCreateKeyedEvent"@,
            Function::WakeByAddressSingle => "WakeByAddressSingle"@,
            Function::WaitOnAddress => "WaitOnAddress"@,
        }),
{
}

} // verus!
