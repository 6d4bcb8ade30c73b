//! What is looked up in the libraries of Windows.
use vstd::prelude::*;

verus! {

/// A library of Windows.
#[derive(Clone, Copy, PartialEq, Eq, Debug, Structural)]
pub enum Module {
    /// Holds the functions of keyed events.
    Ntdll,
    /// Holds the functions that wait on an address.
    Synch,
}

impl Module {
    /// The name under which the library is found.
    pub fn name(self) -> (name: &'static str)
        ensures
            name@ == (match self {
                Module::Ntdll => "ntdll.dll"@,
                Module::Synch => "api-ms-win-core-synch-l1-2-0.dll"@,
            }),
    {
        match self {
            Module::Ntdll => "ntdll.dll",
            Module::Synch => "api-ms-win-core-synch-l1-2-0.dll",
        }
    }
}

/// A function of Windows.
#[derive(Clone, Copy, PartialEq, Eq, Debug, Structural)]
pub enum Function {
    NtReleaseKeyedEvent,
    NtWaitForKeyedEvent,
    NtCreateKeyedEvent,
    WakeByAddressSingle,
    WaitOnAddress,
}

impl Function {
    /// The name under which the function is found.
    pub fn name(self) -> (name: &'static str)
        ensures
            name@ == (match self {
                Function::NtReleaseKeyedEvent => "NtReleaseKeyedEvent"@,
                Function::NtWaitForKeyedEvent => "NtWaitForKeyedEvent"@,
                Function::NtCreateKeyedEvent => "NtCreateKeyedEvent"@,
                Function::WakeByAddressSingle => "WakeByAddressSingle"@,
                Function::WaitOnAddress => "WaitOnAddress"@,
            }),
    {
        match self {
            Function::NtReleaseKeyedEvent => "NtReleaseKeyedEvent",
            Function::NtWaitForKeyedEvent => "NtWaitForKeyedEvent",
            Function::NtCreateKeyedEvent => "NtCreateKeyedEvent",
            Function::WakeByAddressSingle => "WakeByAddressSingle",
            Function::WaitOnAddress => "WaitOnAddress",
        }
    }
}

/// What was found of keyed events so far. Null is what was not found.
#[derive(Clone, Copy, PartialEq, Eq, Debug, Structural)]
pub struct KeyedEvents {
    /// The keyed event.
    pub handle: usize,
    pub release_keyed_event: usize,
    pub wait_for_keyed_event: usize,
}

/// The handle that stands for waiting on addresses in place of a keyed event.
pub const WAIT_ON_ADDRESS: usize = usize::MAX;

/// What was found of keyed events and of waiting on addresses so far. Null is what was
/// not found.
#[derive(Clone, Copy, PartialEq, Eq, Debug, Structural)]
pub struct Found {
    /// The keyed events, or `WAIT_ON_ADDRESS` in place of the handle.
    pub keyed: KeyedEvents,
    pub wake_by_address_single: usize,
    pub wait_on_address: usize,
}

/// How far a thread is that looks for what it needs.
#[derive(Clone, Copy, PartialEq, Eq, Debug, Structural)]
pub enum Search {
    /// It looks for the library.
    Module,
    /// It looks, in this library, for the function that wakes.
    Wake(usize),
    /// It looks, in this library, for the function that waits.
    Wait(usize),
    /// It looks for the function that creates a keyed event.
    Create,
}

/// What a thread that looks for what it needs has to do next.
#[derive(Clone, Copy, PartialEq, Eq, Debug, Structural)]
pub enum SearchStep {
    /// It is to look for this function in this library and goes on with the
    /// address.
    Find(usize, Function),
    /// It is to create a keyed event with the function at this address and goes
    /// on with `publish`.
    Create(usize),
    /// Everything was found.
    Found,
    /// Something was not found.
    Missing,
}

/// What is done with a keyed event that was created.
#[derive(Clone, Copy, PartialEq, Eq, Debug, Structural)]
pub enum Published {
    /// There is none.
    Missing,
    /// This keyed event is to be used.
    Ready(usize),
    /// The first keyed event is to be closed, and the second, which another
    /// thread has created, is to be used.
    Close(usize, usize),
}

/// One step of a search for the functions of keyed events, in which `address` is
/// what was found last.
pub open spec fn keyed_steps(
    before: Search,
    after: Search,
    found: KeyedEvents,
    new_found: KeyedEvents,
    address: usize,
    step: SearchStep,
) -> bool {
    if address == 0 {
        step == SearchStep::Missing && after == before && new_found == found
    } else {
        match before {
            Search::Module => {
                &&& step == SearchStep::Find(address, Function::NtReleaseKeyedEvent)
                &&& after == Search::Wake(address)
                &&& new_found == found
            },
            Search::Wake(module) => {
                &&& step == SearchStep::Find(module, Function::NtWaitForKeyedEvent)
                &&& after == Search::Wait(module)
                &&& new_found == (KeyedEvents { release_keyed_event: address, ..found })
            },
            Search::Wait(module) => {
                &&& step == SearchStep::Find(module, Function::NtCreateKeyedEvent)
                &&& after == Search::Create
                &&& new_found == (KeyedEvents { wait_for_keyed_event: address, ..found })
            },
            Search::Create => {
                &&& step == SearchStep::Create(address)
                &&& after == before
                &&& new_found == found
            },
        }
    }
}

/// One step of a search for the functions that wait on an address.
pub open spec fn address_steps(
    before: Search,
    after: Search,
    found: Found,
    new_found: Found,
    address: usize,
    step: SearchStep,
) -> bool {
    if address == 0 {
        step == SearchStep::Missing && after == before && new_found == found
    } else {
        match before {
            Search::Module => {
                &&& step == SearchStep::Find(address, Function::WakeByAddressSingle)
                &&& after == Search::Wake(address)
                &&& new_found == found
            },
            Search::Wake(module) => {
                &&& step == SearchStep::Find(module, Function::WaitOnAddress)
                &&& after == Search::Wait(module)
                &&& new_found == (Found { wake_by_address_single: address, ..found })
            },
            _ => {
                &&& step == SearchStep::Found
                &&& after == before
                &&& new_found == (Found {
                    wait_on_address: address,
                    keyed: KeyedEvents { handle: WAIT_ON_ADDRESS, ..found.keyed },
                    ..found
                })
            },
        }
    }
}

/// What is done with a keyed event, if one could be created.
pub open spec fn publishes(
    before: KeyedEvents,
    after: KeyedEvents,
    created: Option<usize>,
    published: Published,
) -> bool {
    match created {
        None => published == Published::Missing && after == before,
        Some(handle) => if before.handle != 0 {
            published == Published::Close(handle, before.handle) && after == before
        } else {
            &&& after == (KeyedEvents { handle, ..before })
            &&& published == (if handle == 0 {
                Published::Missing
            } else {
                Published::Ready(handle)
            })
        },
    }
}

impl KeyedEvents {
    /// Nothing was found yet.
    pub fn new() -> (found: Self)
        ensures
            found == (KeyedEvents {
                handle: 0,
                release_keyed_event: 0,
                wait_for_keyed_event: 0,
            }),
    {
        KeyedEvents { handle: 0, release_keyed_event: 0, wait_for_keyed_event: 0 }
    }

    /// Takes one step of a search for the functions of keyed events.
    pub fn load_keyed_event(&mut self, search: &mut Search, address: usize) -> (step: SearchStep)
        ensures
            keyed_steps(*old(search), *final(search), *old(self), *final(self), address, step),
    {
        if address == 0 {
            return SearchStep::Missing;
        }
        match *search {
            Search::Module => {
                *search = Search::Wake(address);
                SearchStep::Find(address, Function::NtReleaseKeyedEvent)
            },
            Search::Wake(module) => {
                self.release_keyed_event = address;
                *search = Search::Wait(module);
                SearchStep::Find(module, Function::NtWaitForKeyedEvent)
            },
            Search::Wait(module) => {
                self.wait_for_keyed_event = address;
                *search = Search::Create;
                SearchStep::Find(module, Function::NtCreateKeyedEvent)
            },
            Search::Create => SearchStep::Create(address),
        }
    }

    /// Makes a keyed event, if one could be created, the one that all threads
    /// use, unless there is one already.
    pub fn publish(&mut self, created: Option<usize>) -> (published: Published)
        ensures
            publishes(*old(self), *final(self), created, published),
    {
        match created {
            None => Published::Missing,
            Some(handle) => {
                if self.handle != 0 {
                    return Published::Close(handle, self.handle);
                }
                self.handle = handle;
                if handle == 0 {
                    Published::Missing
                } else {
                    Published::Ready(handle)
                }
            },
        }
    }
}

impl Found {
    /// Nothing was found yet.
    pub fn new() -> (found: Self)
        ensures
            found == (Found {
                keyed: KeyedEvents { handle: 0, release_keyed_event: 0, wait_for_keyed_event: 0 },
                wake_by_address_single: 0,
                wait_on_address: 0,
            }),
    {
        Found { keyed: KeyedEvents::new(), wake_by_address_single: 0, wait_on_address: 0 }
    }

    /// Takes one step of a search for the functions that wait on an address.
    pub fn load_wait_on_address(&mut self, search: &mut Search, address: usize) -> (step: SearchStep)
        ensures
            address_steps(*old(search), *final(search), *old(self), *final(self), address, step),
    {
        if address == 0 {
            return SearchStep::Missing;
        }
        match *search {
            Search::Module => {
                *search = Search::Wake(address);
                SearchStep::Find(address, Function::WakeByAddressSingle)
            },
            Search::Wake(module) => {
                self.wake_by_address_single = address;
                *search = Search::Wait(module);
                SearchStep::Find(module, Function::WaitOnAddress)
            },
            _ => {
                self.wait_on_address = address;
                self.keyed.handle = WAIT_ON_ADDRESS;
                SearchStep::Found
            },
        }
    }
}

/// Threads that look at the same time agree: the keyed event that was published
/// first is the one that every thread uses, and any other is closed.
pub proof fn handle_is_agreed(
    none: KeyedEvents,
    one: KeyedEvents,
    after: KeyedEvents,
    first: usize,
    second: usize,
    published: Published,
    late: Published,
)
    requires
        none.handle == 0,
        first != 0,
        publishes(none, one, Some(first), published),
        publishes(one, after, Some(second), late),
    ensures
        published == Published::Ready(first),
        late == Published::Close(second, first),
        after.handle == first,
{
}

/// A search that has come to the end has found both functions that a thread
/// needs to wait and to wake.
pub proof fn search_finds_both(
    found: KeyedEvents,
    mid: KeyedEvents,
    done: KeyedEvents,
    module: usize,
    wake: usize,
    wait: usize,
    first: SearchStep,
    second: SearchStep,
)
    requires
        keyed_steps(Search::Wake(module), Search::Wait(module), found, mid, wake, first),
        keyed_steps(Search::Wait(module), Search::Create, mid, done, wait, second),
        !(first is Missing),
        !(second is Missing),
    ensures
        done.release_keyed_event == wake && wake != 0,
        done.wait_for_keyed_event == wait && wait != 0,
        done.handle == found.handle,
{
}

} // verus!
