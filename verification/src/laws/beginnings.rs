//! Laws of what is new, and of what only holds values.
use crate::event;
use crate::event::posix::{LocalKey, ThreadSignal};
use crate::event::time::monotonic::{Clock, SingleThread, ThreadLocalStorage, TlsKeys};
use crate::event::time::posix::Remembered;
use crate::event::time::Monotonic;
use crate::future;
use crate::futures;
use crate::futures::mutex::{MutexFutureBump, MutexFutureLock, MutexFutureUnlock};
use crate::lock_word;
use crate::lock_word::{Attempt, Backoff, Dequeue, DequeuePhase};
use crate::mutex;
use crate::mutex::sync::SyncMutex;
use crate::parker;
use crate::parker::parker::{ParkNode, ParkPoll, PollPhase, UnparkList};
use crate::queue;
use crate::queue::{Memory, Node, NodeArena};
use crate::shared;
use crate::shared::event::{EventStep, EventWait};
use crate::shared::lock::{FairUnlock, Removal};
use crate::shared::waiter::{Waiter, WaiterState};
use crate::signal;
use crate::signal::Signal;
use crate::sync;
use crate::sync::lock::LockAttempt;
use crate::sync::raw_mutex::{AcquireAttempt, GenericRawMutex};
use crate::sync::rwlock::{CoreRwLock, RwAttempt, Tag};
use crate::sync::spin_wait::{SpinConfig, SpinPlatform, SpinWait};
use crate::sync::wait_node::{State, WaitNode};
use crate::thread_event;
use crate::windows_api::{Found, KeyedEvents};
use vstd::arithmetic::power2::pow2;
use vstd::prelude::*;

verus! {

/// A new mutex is free: whoever tries to take it has it.
pub proof fn new_mutexes_are_free<T>(
    value: T,
    word: mutex::WordLock,
    word_ref: &mut mutex::WordLock,
    sync: SyncMutex,
    sync_ref: &mut SyncMutex,
    handing: shared::lock::WordLock,
    handing_ref: &mut shared::lock::WordLock,
    task: mutex::futures::Mutex<T>,
    task_ref: &mut mutex::futures::Mutex<T>,
    futures_mutex: futures::mutex::Mutex<T>,
    futures_ref: &mut futures::mutex::Mutex<T>,
    permit: future::mutex::GenericMutex<T>,
    permit_ref: &mut future::mutex::GenericMutex<T>,
    raw: GenericRawMutex,
    raw_ref: &mut GenericRawMutex,
    guarded: sync::mutex::GenericMutex<T>,
    guarded_ref: &mut sync::mutex::GenericMutex<T>,
    byte: sync::lock::Lock,
    byte_ref: &mut sync::lock::Lock,
    rw: CoreRwLock,
    rw_ref: &mut CoreRwLock,
    acquired: bool,
)
    ensures
        call_ensures(mutex::WordLock::new, (), word) && *old(word_ref) == word && call_ensures(
            mutex::WordLock::try_lock,
            (word_ref,),
            acquired,
        ) ==> acquired,
        call_ensures(SyncMutex::new, (), sync) && *old(sync_ref) == sync && call_ensures(
            SyncMutex::try_lock,
            (sync_ref,),
            acquired,
        ) ==> acquired,
        call_ensures(shared::lock::WordLock::new, (), handing) && *old(handing_ref) == handing && call_ensures(
            shared::lock::WordLock::try_lock,
            (handing_ref,),
            acquired,
        ) ==> acquired,
        (call_ensures(mutex::futures::Mutex::<T>::new, (value,), task) || call_ensures(
            mutex::futures::Mutex::<T>::from,
            (value,),
            task,
        )) && *old(task_ref) == task && call_ensures(
            mutex::futures::Mutex::<T>::try_lock,
            (task_ref,),
            acquired,
        ) ==> acquired && final(task_ref).value == value,
        (call_ensures(futures::mutex::Mutex::<T>::new, (value,), futures_mutex) || call_ensures(
            futures::mutex::Mutex::<T>::from,
            (value,),
            futures_mutex,
        )) && *old(futures_ref) == futures_mutex && call_ensures(
            futures::mutex::Mutex::<T>::try_lock,
            (futures_ref,),
            acquired,
        ) ==> acquired && final(futures_ref).value == value,
        call_ensures(future::mutex::GenericMutex::<T>::new, (value,), permit) && *old(permit_ref) == permit
            && call_ensures(future::mutex::GenericMutex::<T>::try_lock, (permit_ref,), acquired) ==> acquired
            && final(permit_ref).value == value,
        call_ensures(GenericRawMutex::new, (), raw) && *old(raw_ref) == raw && call_ensures(
            GenericRawMutex::try_lock,
            (raw_ref,),
            acquired,
        ) ==> acquired && raw.parker.queue == 0,
        (call_ensures(sync::mutex::GenericMutex::<T>::new, (value,), guarded) || call_ensures(
            sync::mutex::GenericMutex::<T>::from,
            (value,),
            guarded,
        )) && *old(guarded_ref) == guarded && call_ensures(
            sync::mutex::GenericMutex::<T>::try_lock,
            (guarded_ref,),
            acquired,
        ) ==> acquired && final(guarded_ref).value == value && guarded.raw_mutex.parker.queue == 0,
        call_ensures(sync::lock::Lock::new, (), byte) && *old(byte_ref) == byte && call_ensures(
            sync::lock::Lock::try_lock,
            (byte_ref,),
            acquired,
        ) ==> acquired,
        call_ensures(CoreRwLock::new, (), rw) && *old(rw_ref) == rw && (call_ensures(
            CoreRwLock::try_lock_exclusive,
            (rw_ref,),
            acquired,
        ) || call_ensures(CoreRwLock::try_lock_shared, (rw_ref,), acquired)) ==> acquired && rw.queue == 0,
{
    assert(0usize & 255 == 0) by (bit_vector);
    sync::rwlock::state_fields(0);
    sync::raw_mutex::state_fields(0);
}

/// A mutex of a default value holds that value and is free.
pub proof fn default_mutexes_are_free<T: Default>(
    task: mutex::futures::Mutex<T>,
    futures_mutex: futures::mutex::Mutex<T>,
    guarded: sync::mutex::GenericMutex<T>,
)
    ensures
        call_ensures(mutex::futures::Mutex::<T>::default, (), task) ==> task.state == 0 && call_ensures(
            T::default,
            (),
            task.value,
        ),
        call_ensures(futures::mutex::Mutex::<T>::default, (), futures_mutex) ==> futures_mutex.lock.state == 0
            && call_ensures(T::default, (), futures_mutex.value),
        call_ensures(sync::mutex::GenericMutex::<T>::default, (), guarded) ==> guarded.raw_mutex.state == 0
            && call_ensures(T::default, (), guarded.value),
{
}

/// What goes into a mutex comes out of it.
pub proof fn values_come_out<T, R, F: FnOnce(T) -> (T, R)>(
    value: T,
    inner: T,
    futures_mutex: futures::mutex::Mutex<T>,
    permit: future::mutex::GenericMutex<T>,
    guarded: sync::mutex::GenericMutex<T>,
    lock: parker::lock::Lock<T>,
    section: F,
    output: (parker::lock::Lock<T>, R),
    future: MutexFutureUnlock<T>,
    node: usize,
)
    ensures
        call_ensures(futures::mutex::Mutex::<T>::new, (value,), futures_mutex) && call_ensures(
            futures::mutex::Mutex::<T>::into_inner,
            (futures_mutex,),
            inner,
        ) ==> inner == value,
        call_ensures(future::mutex::GenericMutex::<T>::new, (value,), permit) && call_ensures(
            future::mutex::GenericMutex::<T>::into_inner,
            (permit,),
            inner,
        ) ==> inner == value,
        call_ensures(sync::mutex::GenericMutex::<T>::new, (value,), guarded) && call_ensures(
            sync::mutex::GenericMutex::<T>::into_inner,
            (guarded,),
            inner,
        ) ==> inner == value,
        call_ensures(parker::lock::Lock::<T>::new, (value,), lock) ==> lock.value == value && lock.state == 0,
        call_ensures(parker::lock::Lock::<T>::locked::<R, F>, (lock, section), output) ==> call_ensures(
            section,
            (lock.value,),
            (output.0.value, output.1),
        ) && output.0.state == lock.state,
        call_ensures(MutexFutureUnlock::<T>::new, (node, value), future) ==> future.node == node && (
        call_ensures(MutexFutureUnlock::<T>::ready, (future,), inner) ==> inner == value),
{
}

/// A reference to the value of a mutex is to that value, and changes nothing else.
pub proof fn values_are_changed_in_place<T>(
    task: &mut mutex::futures::Mutex<T>,
    futures_mutex: &mut futures::mutex::Mutex<T>,
    permit: &mut future::mutex::GenericMutex<T>,
    guarded: &mut sync::mutex::GenericMutex<T>,
    value: &mut T,
)
    ensures
        call_ensures(mutex::futures::Mutex::<T>::get_mut, (task,), value) ==> *old(value) == old(task).value
            && final(task).value == *final(value) && final(task).state == old(task).state,
        call_ensures(futures::mutex::Mutex::<T>::get_mut, (futures_mutex,), value) ==> *old(value) == old(futures_mutex).value && final(futures_mutex).value == *final(value) && final(futures_mutex).lock == old(futures_mutex).lock,
        call_ensures(future::mutex::GenericMutex::<T>::get_mut, (permit,), value) ==> *old(value) == old(permit).value && final(permit).value == *final(value) && final(permit).signal == old(permit).signal,
        call_ensures(sync::mutex::GenericMutex::<T>::get_mut, (guarded,), value) ==> *old(value) == old(guarded).value && final(guarded).value == *final(value) && final(guarded).raw_mutex == old(guarded).raw_mutex,
{
}

/// A mutex for tasks tells whether it is held, a task that wants it has nothing at first, and
/// a task tells whether it is done.
pub proof fn tasks_tell_whether_they_are_done<T>(
    task: mutex::futures::Mutex<T>,
    futures_mutex: futures::mutex::Mutex<T>,
    node: usize,
    lock: MutexFutureLock,
    bump: MutexFutureBump,
    locked: bool,
    done: bool,
    event: future::reset_event::RawResetEvent,
    wait: future::reset_event::RawWaitForEventFuture,
)
    ensures
        call_ensures(mutex::futures::Mutex::<T>::is_locked, (&task,), locked) ==> (locked <==> task.state % 2
            == 1),
        call_ensures(futures::mutex::Mutex::<T>::lock, (&futures_mutex, node), lock) ==> lock.node == node
            && !lock.is_acquired,
        call_ensures(MutexFutureBump::new, (node,), bump) ==> bump.node == node && !bump.is_acquired
            && !bump.bumped,
        call_ensures(MutexFutureLock::is_terminated, (&lock,), done) ==> done == lock.is_acquired,
        call_ensures(MutexFutureBump::is_terminated, (&bump,), done) ==> done == bump.is_acquired,
        call_ensures(future::reset_event::RawResetEvent::wait, (&event, node), wait) ==> wait.node == node
            && !wait.terminated,
        call_ensures(future::reset_event::RawWaitForEventFuture::is_terminated, (&wait,), done) ==> done
            == wait.terminated,
{
    super::words::word_numbers(task.state, 0);
}

/// What is new is empty, unset and has been asked for by nobody.
pub proof fn new_events_are_unset(
    linux_signal: event::linux::Signal,
    os_event: event::OsAutoResetEvent,
    lot_event: parker::event::OsAutoResetEvent,
    posix_signal: event::posix::Signal,
    thread_signal: ThreadSignal,
    key: LocalKey,
    word_event: shared::event::WordEvent,
    raw_event: sync::event::RawResetEvent,
    reset_event: sync::reset_event::WordEvent,
    is_set: bool,
    task_event: future::reset_event::RawResetEvent,
    manual: thread_event::linux::Event,
    os_thread: thread_event::OsThreadEvent,
    os_parker: sync::thread_parker::OsThreadParker,
    system: signal::linux::SystemSignal,
    os_signal: signal::OsSignal,
    keyed: signal::windows::SystemSignal,
)
    ensures
        call_ensures(event::linux::Signal::new, (), linux_signal) ==> linux_signal.state == 0,
        call_ensures(event::OsAutoResetEvent::new, (), os_event) || call_ensures(
            event::OsAutoResetEvent::default,
            (),
            os_event,
        ) ==> os_event.signal.state == 0,
        call_ensures(parker::event::OsAutoResetEvent::new, (), lot_event) || call_ensures(
            parker::event::OsAutoResetEvent::default,
            (),
            lot_event,
        ) ==> lot_event.inner.state == 0,
        call_ensures(event::posix::Signal::new, (), posix_signal) ==> posix_signal.state == 0,
        call_ensures(ThreadSignal::new, (), thread_signal) ==> thread_signal.state == 0,
        call_ensures(LocalKey::new, (), key) ==> key.state == 0,
        call_ensures(shared::event::WordEvent::new, (), word_event) ==> word_event.state == 0,
        call_ensures(sync::event::RawResetEvent::new, (), raw_event) ==> raw_event.event.state == 0,
        call_ensures(sync::reset_event::WordEvent::new, (is_set,), reset_event) ==> reset_event.event.state == (
        if is_set {
            1int
        } else {
            0
        }),
        call_ensures(sync::reset_event::WordEvent::default, (), reset_event) ==> reset_event.event.state == 0,
        call_ensures(future::reset_event::RawResetEvent::new, (is_set,), task_event) ==> task_event.is_set
            == is_set && task_event.waiting@.len() == 0,
        call_ensures(thread_event::linux::Event::new, (), manual) || call_ensures(
            thread_event::linux::Event::default,
            (),
            manual,
        ) ==> manual.state == 0,
        call_ensures(thread_event::OsThreadEvent::default, (), os_thread) ==> os_thread.0.state == 0,
        call_ensures(sync::thread_parker::OsThreadParker::default, (), os_parker) ==> os_parker.0.state == 0,
        call_ensures(signal::linux::SystemSignal::new, (), system) ==> system.state == 0,
        call_ensures(signal::OsSignal::new, (), os_signal) || call_ensures(
            signal::OsSignal::default,
            (),
            os_signal,
        ) ==> os_signal.inner.state == 0,
        call_ensures(signal::windows::SystemSignal::new, (), keyed) ==> keyed.state == 0,
{
}

/// Attempts begin by looking, without a node and without having spun.
pub proof fn attempts_begin_by_looking(
    backoff: Backoff,
    attempt: Attempt,
    sees_own_flag: bool,
    dequeue: Dequeue,
    byte: LockAttempt,
    acquire: AcquireAttempt,
    tag: Tag,
    rw: RwAttempt,
    fair: FairUnlock,
    address: usize,
    removal: Removal,
    has_wait: bool,
    has_cancel: bool,
    poll: ParkPoll,
    spin: SpinWait,
)
    ensures
        call_ensures(Attempt::new, (backoff,), attempt) ==> attempt.state is None && attempt.spin == 0
            && !attempt.refused && attempt.node is None && !attempt.queued && attempt.backoff == backoff,
        call_ensures(Dequeue::new, (sees_own_flag,), dequeue) ==> dequeue.state is None && dequeue.phase
            == DequeuePhase::LockQueue && dequeue.sees_own_flag == sees_own_flag,
        call_ensures(LockAttempt::new, (), byte) ==> byte.state is None && byte.spin == 0 && !byte.refused
            && byte.node is None,
        call_ensures(AcquireAttempt::new, (), acquire) ==> acquire.state is None && acquire.spin == 0
            && !acquire.refused,
        call_ensures(RwAttempt::new, (tag,), rw) ==> rw.state is None && rw.tag == tag && rw.spin_wait.spin == 0,
        call_ensures(FairUnlock::new, (), fair) ==> fair.state is None && !fair.has_right && fair.back is None,
        call_ensures(FairUnlock::bumping, (address,), fair) ==> fair.state is None && !fair.has_right && fair.back
            == Some(address),
        call_ensures(Removal::new, (address,), removal) ==> removal.state is None && !removal.has_right
            && removal.node == address,
        call_ensures(ParkPoll::new, (has_wait, has_cancel), poll) ==> poll.state is None && poll.phase
            == PollPhase::Look && poll.has_wait == has_wait && poll.has_cancel == has_cancel,
        call_ensures(SpinWait::new, (), spin) ==> spin.spin == 0,
{
}

/// New nodes are in no queue, new lots and lists are empty, and nothing was found or
/// remembered before it was asked for.
pub proof fn new_nodes_are_in_no_queue(
    node: Node,
    waiter: Waiter,
    wait_node: WaitNode<Tag>,
    tag: Tag,
    park_node: ParkNode,
    park_waiter: shared::parker::ParkWaiter,
    lot: sync::parker::Parker,
    task_lot: parker::parker::Parker,
    locked_lot: shared::parker::Parker,
    result: shared::parker::UnparkResult,
    list: UnparkList,
    told: Vec<usize>,
    keyed: KeyedEvents,
    found: Found,
    keys: TlsKeys,
    remembered: Remembered<u64>,
    value: u64,
    clock: Monotonic,
    steady: bool,
)
    ensures
        call_ensures(Node::new, (), node) ==> node.prev == 0 && node.next == 0 && node.tail == 0 && node.flags
            == 0,
        call_ensures(Waiter::new, (), waiter) ==> waiter.state == WaiterState::Uninit && waiter.node.prev == 0,
        call_ensures(WaitNode::<Tag>::new, (tag,), wait_node) ==> wait_node.tag == tag && wait_node.state
            == State::Uninit && wait_node.node.prev == 0,
        call_ensures(ParkNode::new, (), park_node) ==> park_node.state == 0,
        call_ensures(shared::parker::ParkWaiter::new, (), park_waiter) ==> park_waiter.state == 0,
        call_ensures(sync::parker::Parker::new, (), lot) ==> lot.queue == 0,
        call_ensures(parker::parker::Parker::new, (), task_lot) ==> task_lot.queue.value@.len() == 0
            && task_lot.queue.state == 0,
        call_ensures(shared::parker::Parker::new, (), locked_lot) ==> locked_lot.state == 0
            && locked_lot.queue.queue == 0,
        call_ensures(shared::parker::UnparkResult::default, (), result) ==> result.unparked == 0
            && result.skipped == 0 && !result.has_more,
        call_ensures(UnparkList::new, (), list) && call_ensures(UnparkList::iter, (&list,), told) ==> told@.len()
            == 0,
        call_ensures(KeyedEvents::new, (), keyed) ==> keyed.handle == 0,
        call_ensures(Found::new, (), found) ==> found.keyed.handle == 0,
        call_ensures(TlsKeys::new, (), keys) ==> keys.state == 0 && keys.keys@.len() == 0,
        call_ensures(Remembered::<u64>::new, (value,), remembered) ==> remembered.state == 0,
        call_ensures(Monotonic::new, (steady,), clock) ==> clock.current == 0 && clock.is_actually_monotonic
            == steady,
{
}

/// How a thread spins depends on the platform, and the processors of AMD are known by their
/// name.
pub proof fn spinning_depends_on_the_platform(platform: SpinPlatform, config: SpinConfig)
    requires
        call_ensures(SpinConfig::new, (platform,), config),
    ensures
        config.max_spin == (match platform {
            SpinPlatform::Other => 30int,
            SpinPlatform::X86 => 6,
            SpinPlatform::WindowsX86 { is_amd } => if is_amd {
                0
            } else {
                6
            },
        }),
        config.back_off <==> match platform {
            SpinPlatform::Other => false,
            SpinPlatform::X86 => true,
            SpinPlatform::WindowsX86 { is_amd } => !is_amd,
        },
{
}

/// The state of a signal has a name.
pub proof fn signals_have_names(linux_signal: event::linux::Signal, thread_signal: ThreadSignal, name: &'static str)
    ensures
        call_ensures(event::linux::Signal::name, (&linux_signal,), name) && linux_signal.state < 3 ==> name@ == (
        if linux_signal.state == 0 {
            "empty"@
        } else if linux_signal.state == 1 {
            "has_waiter"@
        } else {
            "notified"@
        }),
        call_ensures(ThreadSignal::state, (&thread_signal,), name) && thread_signal.state < 3 ==> name@ == (
        if thread_signal.state == 0 {
            "empty"@
        } else if thread_signal.state == 1 {
            "has_waiter"@
        } else {
            "notified"@
        }),
{
}

/// A signal of the system is one that holds one permit.
pub proof fn system_signal_holds_one_permit(signal: &mut signal::OsSignal, done: bool, wake: bool)
    ensures
        call_ensures(signal::OsSignal::wait, (signal,), done) && old(signal).inner.state < 2 ==> (done <==> old(signal).inner.state == 1) && final(signal).inner.state == (if old(signal).inner.state == 1 {
            0int
        } else {
            2
        }),
        call_ensures(signal::OsSignal::notify, (signal,), wake) && old(signal).inner.state < 3 ==> (wake <==> old(signal).inner.state == 2) && final(signal).inner.state == (if old(signal).inner.state == 2 {
            0int
        } else {
            1
        }),
{
}

/// A word is exchanged if it is what it is expected to be, and else left. So a lock is taken
/// and a node made the newest.
pub proof fn words_are_exchanged<M: Memory<Node>>(
    word: &mut usize,
    memory: &mut M,
    current: usize,
    new: usize,
    exchanged: Result<usize, usize>,
    done: Result<(), usize>,
    spin: usize,
    count: usize,
)
    ensures
        call_ensures(lock_word::compare_exchange, (word, current, new), exchanged) ==> {
            &&& *old(word) == current ==> exchanged == Ok::<usize, usize>(current) && *final(word) == new
            &&& *old(word) != current ==> exchanged == Err::<usize, usize>(*old(word)) && *final(word) == *old(word)
        },
        current % 2 == 0 && call_ensures(lock_word::try_acquire, (word, current), done) ==> {
            &&& *old(word) == current ==> done is Ok && *final(word) == current + 1
            &&& *old(word) != current ==> done == Err::<(), usize>(*old(word)) && *final(word) == *old(word)
        },
        new % 4 == 0 && call_ensures(lock_word::try_enqueue::<M>, (word, memory, current, new), done) ==> {
            &&& *old(word) == current ==> done is Ok && *final(word) == new + current % 4
            &&& *old(word) != current ==> done == Err::<(), usize>(*old(word)) && *final(word) == *old(word)
            &&& final(memory).nodes()[new].next == current - current % 4
        },
        call_ensures(lock_word::doubled, (spin,), count) ==> count == pow2(spin as nat),
{
    super::words::word_numbers(current, new);
}

/// An arena gives each node an address of its own, at which it is read back, and nodes do not
/// disturb each other.
pub proof fn arena_nodes_are_read_back(
    arena: &mut NodeArena<Node>,
    node: Node,
    added: Option<usize>,
    address: usize,
    other: usize,
    read: Node,
)
    ensures
        call_ensures(NodeArena::<Node>::add_node, (arena, node), added) && added == Some(address) && call_ensures(
            <NodeArena<Node> as Memory<Node>>::read,
            (&*final(arena), address),
            read,
        ) ==> read == node && address != 0 && address % 4 == 0,
        call_ensures(NodeArena::<Node>::add_node, (arena, node), added) && added == Some(address) && other
            != address && old(arena).nodes().contains_key(other) ==> final(arena).nodes().contains_key(other)
            && final(arena).nodes()[other] == old(arena).nodes()[other],
        old(arena).nodes().contains_key(address) && call_ensures(
            <NodeArena<Node> as Memory<Node>>::write,
            (arena, address, node),
            (),
        ) && call_ensures(<NodeArena<Node> as Memory<Node>>::read, (&*final(arena), other), read)
            && old(arena).nodes().contains_key(other) ==> read == (if other == address {
            node
        } else {
            old(arena).nodes()[other]
        }),
{
    if added is Some {
        assert(call_ensures(NodeArena::<Node>::add_node, (arena, node), added) ==> added->0 == (
        old(arena).slots.len() + 1) * queue::NODE_ALIGN);
    }
}

/// A system with one thread reserves a key while one is free, and reads back under it what was
/// put there.
pub proof fn single_thread_values_are_read_back<const STEADY: bool>(
    system: &mut SingleThread<STEADY>,
    key: Option<usize>,
    k: usize,
    value: usize,
    read: usize,
    nanos: u64,
    taking: &mut TlsKeys,
    taken: bool,
)
    ensures
        call_ensures(<SingleThread<STEADY> as ThreadLocalStorage>::alloc_key, (system,), key) && key == Some(k)
            ==> !old(system).values().contains_key(k) && final(system).values().contains_key(k) && final(system).values()[k] == 0,
        call_ensures(<SingleThread<STEADY> as ThreadLocalStorage>::set, (system, k, value), ()) && call_ensures(
            <SingleThread<STEADY> as ThreadLocalStorage>::get,
            (&*final(system), k),
            read,
        ) ==> read == value,
        call_ensures(<SingleThread<STEADY> as ThreadLocalStorage>::dealloc, (system, k), ())
            ==> !final(system).values().contains_key(k),
        call_ensures(<SingleThread<STEADY> as Clock>::nanotime, (&*old(system),), nanos) ==> nanos == old(system).now,
        call_ensures(TlsKeys::take_key, (taking, key), taken) ==> (taken <==> key is Some) && (key matches Some(
            k,
        ) ==> final(taking).keys@ == old(taking).keys@.push(k) && final(taking).state == (if old(taking).keys@.len()
            + 1 == (if usize::BITS == 64 {
            1int
        } else {
            2
        }) {
            2int
        } else {
            1
        })) && (key is None ==> final(taking).keys@ == old(taking).keys@ && final(taking).state == old(taking).state),
{
}

/// A thread waits for an event of one word by the steps of such events, and begins anew after
/// it was woken.
pub proof fn word_events_take_these_steps<M: Memory<Node>>(
    event: &mut shared::event::WordEvent,
    reset_event: &mut sync::reset_event::WordEvent,
    raw_event: &mut sync::event::RawResetEvent,
    memory: &mut M,
    wait: &mut EventWait,
    step: EventStep,
    set: bool,
)
    ensures
        call_ensures(shared::event::WordEvent::wait_slow::<M>, (event, memory, wait), step)
            ==> shared::event::wait_steps(
            *old(wait),
            *final(wait),
            old(event).state,
            final(event).state,
            old(memory).nodes(),
            final(memory).nodes(),
            step,
        ),
        call_ensures(sync::reset_event::WordEvent::wait_slow::<M>, (reset_event, memory, wait), step)
            ==> shared::event::wait_steps(
            *old(wait),
            *final(wait),
            old(reset_event).event.state,
            final(reset_event).event.state,
            old(memory).nodes(),
            final(memory).nodes(),
            step,
        ),
        call_ensures(EventWait::woken::<M>, (wait, memory), ()) ==> final(wait).state is None
            && final(wait).node == old(wait).node && final(memory).nodes()[old(wait).node].prev == 0,
        call_ensures(sync::event::RawResetEvent::is_set, (&*old(raw_event),), set) ==> (set <==> old(raw_event).event.state == 1),
        call_ensures(sync::event::RawResetEvent::reset, (raw_event,), ()) ==> final(raw_event).event.state == (
        if old(raw_event).event.state == 1 {
            0
        } else {
            old(raw_event).event.state
        }),
{
}

/// Parked threads are what the links lead to: each to the next and back to the one before, and
/// the first to the last. A list of threads that are to be woken tells them in the order in
/// which they were pushed.
pub proof fn parked_threads_are_linked<M: Memory<sync::parker::Waiter>>(
    nodes: Map<usize, sync::parker::Waiter>,
    head: usize,
    queue: Seq<usize>,
    i: int,
    list: &mut sync::parker::WaiterList,
    memory: &mut M,
    address: usize,
    told: Vec<usize>,
    new_list: sync::parker::WaiterList,
)
    requires
        sync::parker::is_list(nodes, head, queue),
    ensures
        sync::parker::parked(nodes, head) == queue,
        head == 0 <==> queue.len() == 0,
        queue.len() > 0 ==> queue[0] == head && nodes[head].tail == queue.last() && nodes[head].prev == 0
            && nodes[queue.last()].next == 0,
        0 <= i < queue.len() - 1 ==> nodes[queue[i]].next == queue[i + 1] && nodes[queue[i + 1]].prev == queue[i],
        0 <= i < queue.len() ==> nodes[queue[i]].state is Parked,
        call_ensures(sync::parker::WaiterList::iter::<M>, (&*old(list), &*old(memory)), told) ==> told@ == old(list)@,
        call_ensures(sync::parker::WaiterList::push::<M>, (list, memory, address), ()) ==> final(list)@ == old(list)@.push(address),
        call_ensures(sync::parker::WaiterList::new, (), new_list) ==> new_list@.len() == 0,
{
    sync::parker::parked_of(nodes, head, queue);
}

} // verus!
