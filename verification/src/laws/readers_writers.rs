//! Laws of the reader-writer lock.
//!
//! Its state is four times the number of readers, plus two if a writer holds it, plus
//! one if threads may be queued.
use crate::queue::Memory;
use crate::sync::rwlock;
use crate::sync::rwlock::{CoreRwLock, RwAttempt, RwStep, Tag};
use crate::sync::spin_wait::{SpinConfig, SpinWait};
use crate::sync::wait_node::WaitNode;
use vstd::prelude::*;

verus! {

/// The fields of a state as numbers.
#[verifier::rlimit(60)]
proof fn state_numbers(s: usize)
    ensures
        rwlock::is_written(s) <==> (s / 2) % 2 == 1,
        rwlock::is_parked(s) <==> s % 2 == 1,
        rwlock::readers(s) == s / 4,
        (s / 2) % 2 == 0 ==> s | 2 == s + 2,
        s % 2 == 0 ==> s | 1 == s + 1,
        4usize | 1 == 5,
{
    rwlock::state_fields(s);
    assert((s / 2) % 2 == 0 ==> s | 2 == s + 2) by (bit_vector);
    assert(s % 2 == 0 ==> s | 1 == s + 1) by (bit_vector);
    assert(4usize | 1 == 5) by (bit_vector);
}

/// Only a writer keeps a reader out: a reader that has seen no writer and finds the
/// state unchanged has the lock with this step, however many readers hold it and
/// whoever is queued. It is one reader more, and nothing else changes.
pub proof fn readers_share(
    before: RwAttempt,
    after: RwAttempt,
    state: usize,
    new_state: usize,
    config: SpinConfig,
    step: RwStep,
)
    requires
        rwlock::rw_steps(before, after, state, new_state, config, step),
        before.tag == Tag::Reader,
        before.state == Some(state),
        (state / 2) % 2 == 0,
        state + 4 <= usize::MAX,
    ensures
        step == RwStep::Acquired,
        new_state == state + 4,
{
    state_numbers(state);
}

/// A reader that looks at a lock without a writer has it with its next step.
pub proof fn lone_reader_gets_the_lock(
    a: RwAttempt,
    b: RwAttempt,
    c: RwAttempt,
    state: usize,
    looked: usize,
    new_state: usize,
    config: SpinConfig,
    first: RwStep,
    second: RwStep,
)
    requires
        a.tag == Tag::Reader,
        a.state is None,
        (state / 2) % 2 == 0,
        state + 4 <= usize::MAX,
        rwlock::rw_steps(a, b, state, looked, config, first),
        rwlock::rw_steps(b, c, looked, new_state, config, second),
    ensures
        looked == state,
        second == RwStep::Acquired,
        new_state == state + 4,
{
    state_numbers(state);
}

/// A writer that has seen neither a writer nor readers and finds the state unchanged has
/// the lock with this step, whoever is queued.
pub proof fn free_lock_is_written(
    before: RwAttempt,
    after: RwAttempt,
    state: usize,
    new_state: usize,
    config: SpinConfig,
    step: RwStep,
)
    requires
        rwlock::rw_steps(before, after, state, new_state, config, step),
        before.tag == Tag::Writer,
        before.state == Some(state),
        state < 2,
    ensures
        step == RwStep::Acquired,
        new_state == state + 2,
{
    state_numbers(state);
}

/// A reader has the lock only while no writer holds it, and a writer only while nobody
/// holds it. Without having the lock a thread changes nothing but the mark of those that
/// are queued.
pub proof fn held_lock_is_respected(
    before: RwAttempt,
    after: RwAttempt,
    state: usize,
    new_state: usize,
    config: SpinConfig,
    step: RwStep,
)
    requires
        before.ready(),
        rwlock::rw_steps(before, after, state, new_state, config, step),
    ensures
        step is Acquired && before.tag == Tag::Reader ==> (state / 2) % 2 == 0 && new_state == state + 4,
        step is Acquired && before.tag == Tag::Writer ==> state < 2 && new_state == state + 2,
        !(step is Acquired) ==> new_state == state || step is Park && new_state == state + 1 && state % 2 == 0,
{
    state_numbers(state);
    if before.state is Some {
        state_numbers(before.state->0);
    }
}

/// A thread that finds the lock held against it is queued if others are. Otherwise it
/// spins as often as it may, looking again each time, and then sets the mark and is
/// queued.
pub proof fn kept_out_thread_is_queued(
    before: RwAttempt,
    after: RwAttempt,
    state: usize,
    new_state: usize,
    config: SpinConfig,
    step: RwStep,
    seen: usize,
)
    requires
        rwlock::rw_steps(before, after, state, new_state, config, step),
        before.state == Some(seen),
        (seen / 2) % 2 == 1 || before.tag == Tag::Writer && seen >= 4,
    ensures
        after.tag == before.tag,
        seen % 2 == 1 ==> step == RwStep::Park && new_state == state,
        seen % 2 == 0 && before.spin_wait.spin < config.max_spin ==> {
            &&& step == RwStep::Continue
            &&& new_state == state
            &&& after.state is None
            &&& after.spin_wait.spin == before.spin_wait.spin + 1
        },
        seen % 2 == 0 && before.spin_wait.spin >= config.max_spin && state == seen ==> step == RwStep::Park
            && new_state == state + 1,
        seen % 2 == 0 && before.spin_wait.spin >= config.max_spin && state != seen ==> step
            == RwStep::Continue && new_state == state && after.state == Some(state) && after.spin_wait
            == before.spin_wait,
{
    state_numbers(seen);
}

/// A thread that looks remembers the state, and one that was outrun looks again or goes
/// on with what is there.
pub proof fn looks_are_remembered(
    before: RwAttempt,
    after: RwAttempt,
    state: usize,
    new_state: usize,
    config: SpinConfig,
    step: RwStep,
    seen: usize,
)
    requires
        rwlock::rw_steps(before, after, state, new_state, config, step),
    ensures
        before.state is None ==> step == RwStep::Continue && new_state == state && after.state == Some(state)
            && after.tag == before.tag && after.spin_wait == before.spin_wait,
        before.state == Some(seen) && seen != state && before.tag == Tag::Reader && (seen / 2) % 2 == 0
            ==> step == RwStep::ForceSpin && after.state is None && new_state == state && after.tag
            == before.tag,
        before.state == Some(seen) && seen != state && before.tag == Tag::Writer && seen < 2 ==> step
            == RwStep::Continue && after.state == Some(state) && new_state == state && after.tag
            == before.tag,
{
    state_numbers(seen);
}

/// The lock is taken by such steps, and the queue is not touched by them.
pub proof fn lock_takes_these_steps(
    lock: &mut CoreRwLock,
    attempt: &mut RwAttempt,
    config: SpinConfig,
    step: RwStep,
)
    requires
        call_ensures(CoreRwLock::lock_common, (lock, attempt, config), step) || call_ensures(
            CoreRwLock::lock_exclusive_slow,
            (lock, attempt, config),
            step,
        ) || call_ensures(CoreRwLock::lock_shared_slow, (lock, attempt, config), step),
    ensures
        final(lock).queue == old(lock).queue,
        rwlock::rw_steps(
            *old(attempt),
            *final(attempt),
            old(lock).state,
            final(lock).state,
            config,
            step,
        ),
{
}

/// Without waiting, a writer has the lock if nobody holds it and nobody is queued. A
/// thread that has to wait begins by looking.
pub proof fn idle_lock_is_written_at_once(
    lock: &mut CoreRwLock,
    acquired: bool,
    attempt: Option<RwAttempt>,
)
    ensures
        call_ensures(CoreRwLock::try_lock_exclusive, (lock,), acquired) ==> {
            &&& acquired <==> old(lock).state == 0
            &&& final(lock).state == old(lock).state + (if acquired {
                2int
            } else {
                0
            })
            &&& final(lock).queue == old(lock).queue
        },
        call_ensures(CoreRwLock::lock_exclusive, (lock,), attempt) ==> {
            &&& attempt is None <==> old(lock).state == 0
            &&& final(lock).state == old(lock).state + (if attempt is None {
                2int
            } else {
                0
            })
            &&& final(lock).queue == old(lock).queue
            &&& attempt matches Some(a) ==> a.state is None && a.tag == Tag::Writer && a.spin_wait.spin == 0
        },
{
}

/// Without waiting, a reader has the lock if no writer holds it and nobody is queued.
pub proof fn idle_lock_is_read_at_once(lock: &mut CoreRwLock, acquired: bool, attempt: Option<RwAttempt>)
    ensures
        old(lock).state + 4 <= usize::MAX && (call_ensures(
            CoreRwLock::try_lock_shared,
            (lock,),
            acquired,
        ) || call_ensures(CoreRwLock::try_lock_shared_slow, (lock,), acquired) || call_ensures(
            CoreRwLock::try_lock_shared_fast,
            (lock,),
            acquired,
        )) ==> {
            &&& acquired <==> old(lock).state % 4 == 0
            &&& final(lock).state == old(lock).state + (if acquired {
                4int
            } else {
                0
            })
            &&& final(lock).queue == old(lock).queue
        },
        old(lock).state + 4 <= usize::MAX && call_ensures(CoreRwLock::lock_shared, (lock,), attempt) ==> {
            &&& attempt is None <==> old(lock).state % 4 == 0
            &&& final(lock).state == old(lock).state + (if attempt is None {
                4int
            } else {
                0
            })
            &&& final(lock).queue == old(lock).queue
            &&& attempt matches Some(a) ==> a.state is None && a.tag == Tag::Reader && a.spin_wait.spin == 0
        },
{
    state_numbers(old(lock).state);
}

/// What one reader does, its leaving undoes: the lock is as before. A reader that leaves
/// last while there is a mark goes on to wake a thread, and no other does.
pub proof fn leaving_undoes_reading(
    lock: &mut CoreRwLock,
    later: &mut CoreRwLock,
    acquired: bool,
    done: bool,
)
    requires
        call_ensures(CoreRwLock::unlock_shared, (later,), done),
        old(later).state >= 4,
    ensures
        final(later).state == old(later).state - 4,
        final(later).queue == old(later).queue,
        done <==> old(later).state != 5,
        call_ensures(CoreRwLock::try_lock_shared, (lock,), acquired) && acquired && old(lock).state + 4
            <= usize::MAX && *final(lock) == *old(later) ==> *final(later) == *old(lock),
{
    state_numbers(old(lock).state);
    state_numbers(old(later).state);
}

/// A writer that leaves a lock without a mark leaves it free. Where there is a mark, the
/// thread that was queued first leaves the queue to be woken, the lock is free, and the
/// mark stays exactly as long as others are queued.
pub proof fn leaving_writer_wakes_the_first<M: Memory<WaitNode<Tag>>>(
    lock: &mut CoreRwLock,
    memory: &mut M,
    done: bool,
    node: Option<usize>,
)
    ensures
        call_ensures(CoreRwLock::unlock_exclusive, (lock,), done) ==> {
            &&& done <==> old(lock).state == 2
            &&& final(lock).state == old(lock).state - (if done {
                2int
            } else {
                0
            })
            &&& final(lock).queue == old(lock).queue
        },
        call_ensures(CoreRwLock::unlock_exclusive_slow::<M>, (lock, memory), node) ==> {
            let queue = old(lock).waiting(old(memory).nodes());
            &&& node is Some <==> queue.len() > 0
            &&& queue.len() > 0 ==> node == Some(queue.last()) && final(lock).waiting(
                final(memory).nodes(),
            ) == queue.drop_last()
            &&& final(lock).state == (if queue.len() > 1 {
                1int
            } else {
                0
            })
            &&& final(memory).nodes().dom() =~= old(memory).nodes().dom()
            &&& forall|a: usize|
                !queue.contains(a) ==> #[trigger] final(memory).nodes()[a] == old(memory).nodes()[a]
            &&& forall|a: usize|
                (#[trigger] final(memory).nodes()[a]).tag == old(memory).nodes()[a].tag && final(memory).nodes()[a].state
                    == old(memory).nodes()[a].state
        },
{
}

/// After the last reader has left, the thread that was queued first leaves the queue to
/// be woken, unless somebody has the lock again. The mark stays exactly as long as others
/// are queued.
pub proof fn last_reader_wakes_the_first<M: Memory<WaitNode<Tag>>>(
    lock: &mut CoreRwLock,
    memory: &mut M,
    node: Option<usize>,
)
    requires
        call_ensures(CoreRwLock::unlock_shared_slow::<M>, (lock, memory), node),
    ensures
        ({
            let queue = old(lock).waiting(old(memory).nodes());
            let left = final(lock).waiting(final(memory).nodes());
            &&& old(lock).state == 1 && queue.len() > 0 ==> node == Some(queue.last()) && left
                == queue.drop_last()
            &&& old(lock).state == 1 ==> final(lock).state == (if queue.len() > 1 {
                1int
            } else {
                0
            })
            &&& old(lock).state != 1 || queue.len() == 0 ==> node is None && left == queue
            &&& old(lock).state != 1 ==> final(lock).state == old(lock).state
            &&& final(memory).nodes().dom() =~= old(memory).nodes().dom()
            &&& forall|a: usize|
                !queue.contains(a) ==> #[trigger] final(memory).nodes()[a] == old(memory).nodes()[a]
            &&& forall|a: usize|
                (#[trigger] final(memory).nodes()[a]).tag == old(memory).nodes()[a].tag && final(memory).nodes()[a].state
                    == old(memory).nodes()[a].state
        }),
{
}

/// A thread is queued behind all others if and only if there is the mark, so that it will
/// be woken. The state is not touched.
pub proof fn thread_queues_under_the_mark<M: Memory<WaitNode<Tag>>>(
    lock: &mut CoreRwLock,
    memory: &mut M,
    address: usize,
    parked: bool,
)
    requires
        call_ensures(CoreRwLock::park::<M>, (lock, memory, address), parked),
    ensures
        parked <==> old(lock).state % 2 == 1,
        final(lock).state == old(lock).state,
        parked ==> final(lock).waiting(final(memory).nodes()) == seq![address] + old(lock).waiting(
            old(memory).nodes(),
        ),
        !parked ==> final(lock).queue == old(lock).queue && final(memory).nodes() == old(memory).nodes(),
{
    state_numbers(old(lock).state);
}

/// A thread that goes on after it was queued begins anew for the same purpose.
pub proof fn resumed_thread_begins_anew(attempt: &mut RwAttempt)
    requires
        call_ensures(RwAttempt::resumed, (attempt,), ()),
    ensures
        final(attempt).state is None,
        final(attempt).spin_wait.spin == 0,
        final(attempt).tag == old(attempt).tag,
{
}

/// A thread spins as often as the configuration says, twice as long each time where it
/// backs off, and then no more until it is reset.
pub proof fn spinning_is_bounded(
    wait: &mut SpinWait,
    reset: &mut SpinWait,
    config: SpinConfig,
    spun: bool,
    hints: usize,
)
    ensures
        call_ensures(SpinWait::spin, (wait, config), spun) ==> {
            &&& spun <==> old(wait).spin < config.max_spin
            &&& final(wait).spin == old(wait).spin + (if spun {
                1int
            } else {
                0
            })
        },
        call_ensures(SpinWait::reset, (reset,), ()) ==> final(reset).spin == 0,
        call_ensures(SpinWait::hints, (&*old(wait), config), hints) ==> hints == (if config.back_off {
            vstd::arithmetic::power2::pow2((old(wait).spin + 1) as nat)
        } else {
            1
        }),
{
}

} // verus!
