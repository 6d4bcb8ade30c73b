//! Timestamps that never go back on one thread, without sharing anything with
//! other threads.
use super::OsDuration;
use vstd::prelude::*;

verus! {

/// The clock of a system.
pub trait Clock {
    /// The clock never goes back.
    const IS_ALWAYS_MONOTONIC: bool;

    /// What the clock tells, in nanoseconds.
    fn nanotime(&self) -> u64;
}

/// Values that each thread has under keys that all threads share.
pub trait ThreadLocalStorage {
    /// The values of the current thread by their keys.
    spec fn values(&self) -> Map<usize, usize>;

    /// The number of keys that can still be reserved.
    spec fn keys_left(&self) -> nat;

    /// Reserves a key, under which there is nothing yet. Returns `None` if there
    /// are no keys left.
    fn alloc_key(&mut self) -> (key: Option<usize>)
        ensures
            key is Some <==> old(self).keys_left() > 0,
            key matches Some(k) ==> {
                &&& !old(self).values().contains_key(k)
                &&& final(self).values() == old(self).values().insert(k, 0)
                &&& final(self).keys_left() == old(self).keys_left() - 1
            },
            key is None ==> final(self).values() == old(self).values() && final(self).keys_left() == 0,
    ;

    /// Gives a key back.
    fn dealloc(&mut self, key: usize)
        requires
            old(self).values().contains_key(key),
        ensures
            final(self).values() == old(self).values().remove(key),
            final(self).keys_left() == old(self).keys_left() + 1,
    ;

    /// The value under a key.
    fn get(&self, key: usize) -> (value: usize)
        requires
            self.values().contains_key(key),
        ensures
            value == self.values()[key],
    ;

    /// Puts a value under a key.
    fn set(&mut self, key: usize, value: usize)
        requires
            old(self).values().contains_key(key),
        ensures
            final(self).values() == old(self).values().insert(key, value),
            final(self).keys_left() == old(self).keys_left(),
    ;
}

/// A system with one thread, whose clock is set by hand.
pub struct SingleThread<const STEADY: bool> {
    /// The value under each key that is reserved, and `None` under the others.
    pub slots: Vec<Option<usize>>,
    /// What the clock tells.
    pub now: u64,
}

/// The number of slots that are free.
pub open spec fn free_slots(slots: Seq<Option<usize>>) -> nat
    decreases slots.len(),
{
    if slots.len() == 0 {
        0
    } else {
        free_slots(slots.drop_last()) + if slots.last() is None {
            1nat
        } else {
            0nat
        }
    }
}

/// Where one slot changes, the number of those that are free changes by no more than
/// that.
proof fn free_slots_change(slots: Seq<Option<usize>>, i: int, value: Option<usize>)
    requires
        0 <= i < slots.len(),
    ensures
        slots[i] is None ==> free_slots(slots) > 0,
        ({
            let was = if slots[i] is None {
                1int
            } else {
                0
            };
            let is = if value is None {
                1int
            } else {
                0
            };
            free_slots(slots.update(i, value)) == free_slots(slots) - was + is
        }),
    decreases slots.len(),
{
    let after = slots.update(i, value);
    if i == slots.len() - 1 {
        assert(after.drop_last() =~= slots.drop_last());
    } else {
        free_slots_change(slots.drop_last(), i, value);
        assert(after.drop_last() =~= slots.drop_last().update(i, value));
    }
}

/// Where every slot is taken, none is free.
proof fn no_free_slots(slots: Seq<Option<usize>>)
    requires
        forall|i: int| 0 <= i < slots.len() ==> #[trigger] slots[i] is Some,
    ensures
        free_slots(slots) == 0,
    decreases slots.len(),
{
    if slots.len() > 0 {
        assert(slots.last() is Some);
        assert forall|i: int| 0 <= i < slots.drop_last().len() implies #[trigger] slots.drop_last()[i] is Some by {
            assert(slots.drop_last()[i] == slots[i]);
        }
        no_free_slots(slots.drop_last());
    }
}

/// Where every slot is free, all of them are counted.
proof fn all_free_slots(slots: Seq<Option<usize>>)
    requires
        forall|i: int| 0 <= i < slots.len() ==> #[trigger] slots[i] is None,
    ensures
        free_slots(slots) == slots.len(),
    decreases slots.len(),
{
    if slots.len() > 0 {
        assert(slots.last() is None);
        assert forall|i: int| 0 <= i < slots.drop_last().len() implies #[trigger] slots.drop_last()[i] is None by {
            assert(slots.drop_last()[i] == slots[i]);
        }
        all_free_slots(slots.drop_last());
    }
}

impl<const STEADY: bool> SingleThread<STEADY> {
    /// A system with this number of keys, whose clock tells zero.
    pub fn new(keys: usize) -> (system: Self)
        ensures
            system.now == 0,
            system.keys_left() == keys,
            system.values() == Map::<usize, usize>::empty(),
    {
        let mut slots: Vec<Option<usize>> = Vec::new();
        while slots.len() < keys
            invariant
                slots.len() <= keys,
                forall|i: int| 0 <= i < slots.len() ==> #[trigger] slots@[i] is None,
            decreases keys - slots.len(),
        {
            slots.push(None);
        }
        let system = SingleThread { slots, now: 0 };
        proof {
            all_free_slots(system.slots@);
            assert(system.values() =~= Map::<usize, usize>::empty());
        }
        system
    }
}

impl<const STEADY: bool> Clock for SingleThread<STEADY> {
    const IS_ALWAYS_MONOTONIC: bool = STEADY;

    fn nanotime(&self) -> (nanos: u64)
        ensures
            nanos == self.now,
    {
        self.now
    }
}

/// The clock of a system with one thread never goes back exactly where it is said to be
/// steady.
pub proof fn steady_clock_never_goes_back<const STEADY: bool>()
    ensures
        <SingleThread<STEADY> as Clock>::IS_ALWAYS_MONOTONIC == STEADY,
{
}

impl<const STEADY: bool> ThreadLocalStorage for SingleThread<STEADY> {
    open spec fn values(&self) -> Map<usize, usize> {
        Map::new(
            |k: usize| k < self.slots@.len() && self.slots@[k as int] is Some,
            |k: usize| self.slots@[k as int]->0,
        )
    }

    open spec fn keys_left(&self) -> nat {
        free_slots(self.slots@)
    }

    fn alloc_key(&mut self) -> (key: Option<usize>) {
        let mut key: usize = 0;
        while key < self.slots.len()
            invariant
                self == old(self),
                key <= self.slots.len(),
                forall|i: int| 0 <= i < key ==> #[trigger] self.slots@[i] is Some,
            decreases self.slots.len() - key,
        {
            if self.slots[key].is_none() {
                proof {
                    free_slots_change(self.slots@, key as int, Some(0));
                }
                self.slots.set(key, Some(0));
                assert(self.values() =~= old(self).values().insert(key, 0));
                return Some(key);
            }
            key += 1;
        }
        proof {
            no_free_slots(self.slots@);
        }
        None
    }

    fn dealloc(&mut self, key: usize) {
        proof {
            free_slots_change(self.slots@, key as int, None);
        }
        self.slots.set(key, None);
        assert(self.values() =~= old(self).values().remove(key));
    }

    fn get(&self, key: usize) -> (value: usize) {
        match self.slots[key] {
            Some(value) => value,
            None => vstd::pervasive::unreached(),
        }
    }

    fn set(&mut self, key: usize, value: usize) {
        proof {
            free_slots_change(self.slots@, key as int, Some(value));
        }
        self.slots.set(key, Some(value));
        assert(self.values() =~= old(self).values().insert(key, value));
    }
}

/// No thread has asked for the keys.
pub const UNINIT: usize = 0;

/// A thread reserves the keys.
pub const CREATING: usize = 1;

/// The keys may be used.
pub const READY: usize = 2;

/// There are not enough keys.
pub const ERROR: usize = 3;

/// The number of machine words in a timestamp.
pub open spec fn num_keys() -> nat {
    if usize::BITS == 64 {
        1
    } else {
        2
    }
}

/// The timestamp that machine words make up, the lowest first.
pub open spec fn joined(words: Seq<usize>) -> u64 {
    if words.len() == 1 {
        words[0] as u64
    } else {
        (words[0] as u64) | ((words[1] as u64) << 32)
    }
}

/// The keys of the words of a timestamp.
pub struct TlsKeys {
    pub state: usize,
    pub keys: Vec<usize>,
}

/// A thread that wants the keys.
#[derive(Clone, Copy, PartialEq, Eq, Debug, Structural)]
pub struct KeysAttempt {
    /// The state as the thread has seen it last, or `None` if it must look.
    pub state: Option<usize>,
    pub spin: usize,
}

/// What came of one step towards the keys.
#[derive(Clone, Copy, PartialEq, Eq, Debug, Structural)]
pub enum KeysStep {
    /// There is more to do.
    Continue,
    /// The thread is to give this number of spin hints before it goes on.
    Spin(usize),
    /// The thread is to reserve the keys with `create`.
    Create,
    /// The keys may be used.
    Ready,
    /// There are not enough keys.
    Failed,
}

/// One step of `before` on the state of the keys.
pub open spec fn keys_steps(
    before: KeysAttempt,
    after: KeysAttempt,
    state: usize,
    new_state: usize,
    step: KeysStep,
) -> bool {
    match before.state {
        None => {
            &&& step == KeysStep::Continue
            &&& after == (KeysAttempt { state: Some(state), ..before })
            &&& new_state == state
        },
        Some(seen) => if seen == UNINIT {
            if state == UNINIT {
                &&& step == KeysStep::Create
                &&& after == (KeysAttempt { state: None, ..before })
                &&& new_state == CREATING
            } else {
                &&& step == KeysStep::Continue
                &&& after == (KeysAttempt { state: Some(state), ..before })
                &&& new_state == state
            }
        } else if seen == CREATING {
            &&& after.state is None
            &&& after.spin == (if before.spin == usize::MAX {
                0
            } else {
                (before.spin + 1) as usize
            })
            &&& step == KeysStep::Spin((after.spin % 64) as usize)
            &&& new_state == state
        } else {
            &&& step == (if seen == READY {
                KeysStep::Ready
            } else {
                KeysStep::Failed
            })
            &&& after == before
            &&& new_state == state
        },
    }
}

/// The keys are there, one for each word, and all different.
pub open spec fn are_keys<S: ThreadLocalStorage>(keys: Seq<usize>, system: &S) -> bool {
    &&& keys.len() == num_keys()
    &&& keys.no_duplicates()
    &&& forall|i: int| 0 <= i < keys.len() ==> system.values().contains_key(#[trigger] keys[i])
}

impl TlsKeys {
    /// Keys that no thread has asked for.
    pub fn new() -> (keys: Self)
        ensures
            keys.state == UNINIT,
            keys.keys@.len() == 0,
    {
        TlsKeys { state: UNINIT, keys: Vec::new() }
    }

    /// Takes one step towards the keys.
    pub fn get_tls_keys(&mut self, attempt: &mut KeysAttempt) -> (step: KeysStep)
        ensures
            keys_steps(*old(attempt), *final(attempt), old(self).state, final(self).state, step),
            final(self).keys == old(self).keys,
    {
        let seen: usize = match attempt.state {
            None => {
                attempt.state = Some(self.state);
                return KeysStep::Continue;
            },
            Some(seen) => seen,
        };
        if seen == UNINIT {
            if self.state == UNINIT {
                self.state = CREATING;
                attempt.state = None;
                KeysStep::Create
            } else {
                attempt.state = Some(self.state);
                KeysStep::Continue
            }
        } else if seen == CREATING {
            attempt.spin = attempt.spin.wrapping_add(1);
            attempt.state = None;
            KeysStep::Spin(attempt.spin % 64)
        } else if seen == READY {
            KeysStep::Ready
        } else {
            KeysStep::Failed
        }
    }

    /// Takes a key that the system has reserved. Once there is one for each word the
    /// keys may be used. Tells whether there was a key to take. If not, those that
    /// were taken before are to be given back.
    pub fn take_key(&mut self, key: Option<usize>) -> (taken: bool)
        requires
            old(self).state == CREATING,
            old(self).keys@.len() < num_keys(),
        ensures
            taken == (key is Some),
            key matches Some(key) ==> final(self).keys@ == old(self).keys@.push(key)
                && final(self).state == (if old(self).keys@.len() + 1 == num_keys() {
                READY
            } else {
                CREATING
            }),
            key is None ==> *final(self) == *old(self),
    {
        let count: usize = if usize::BITS == 64 {
            1
        } else {
            2
        };
        match key {
            Some(key) => {
                self.keys.push(key);
                if self.keys.len() == count {
                    self.state = READY;
                }
                true
            },
            None => false,
        }
    }

    /// Reserves the keys. If there are not enough, those that were reserved are
    /// given back.
    pub fn create<S: ThreadLocalStorage>(&mut self, system: &mut S)
        requires
            old(self).state == CREATING,
            old(self).keys@.len() == 0,
        ensures
            final(self).state == (if old(system).keys_left() >= num_keys() {
                READY
            } else {
                ERROR
            }),
            final(self).state == READY ==> {
                &&& final(system).keys_left() == old(system).keys_left() - num_keys()
                &&& are_keys(final(self).keys@, final(system))
                &&& forall|k: usize| #[trigger]
                    old(system).values().contains_key(k) ==> final(system).values().contains_key(k)
                        && final(system).values()[k] == old(system).values()[k]
                        && !final(self).keys@.contains(k)
                &&& forall|i: int|
                    0 <= i < final(self).keys@.len() ==> final(system).values()[#[trigger] final(self).keys@[i]]
                        == 0
            },
            final(self).state == ERROR ==> final(system).values() == old(system).values()
                && final(system).keys_left() == old(system).keys_left(),
    {
        let ghost before = system.values();
        while self.state == CREATING
            invariant
                before == old(system).values(),
                system.keys_left() + self.keys@.len() == old(system).keys_left(),
                self.state == CREATING && self.keys@.len() < num_keys() || self.state == READY
                    && self.keys@.len() == num_keys(),
                self.keys@.no_duplicates(),
                forall|i: int|
                    0 <= i < self.keys@.len() ==> system.values().contains_key(
                        #[trigger] self.keys@[i],
                    ) && system.values()[self.keys@[i]] == 0 && !before.contains_key(self.keys@[i]),
                forall|k: usize| #[trigger]
                    system.values().contains_key(k) <==> before.contains_key(k) || self.keys@.contains(
                        k,
                    ),
                forall|k: usize| #[trigger]
                    before.contains_key(k) ==> system.values()[k] == before[k],
            decreases num_keys() - self.keys@.len(),
        {
            let ghost keys = self.keys@;
            let ghost values = system.values();
            let reserved = system.alloc_key();
            if !self.take_key(reserved) {
                self.give_back(system, Ghost(before));
                self.state = ERROR;
                return;
            }
            proof {
                let key = reserved->0;
                assert(!keys.contains(key));
                assert forall|k: usize| #[trigger] system.values().contains_key(k) <==> (
                before.contains_key(k) || self.keys@.contains(k)) by {
                    assert(values.contains_key(k) <==> before.contains_key(k) || keys.contains(k));
                    if keys.contains(k) {
                        let i = choose|i: int| 0 <= i < keys.len() && keys[i] == k;
                        assert(self.keys@[i] == k);
                    }
                    if k == key {
                        assert(self.keys@[keys.len() as int] == key);
                    }
                    if self.keys@.contains(k) && k != key {
                        let i = choose|i: int| 0 <= i < self.keys@.len() && self.keys@[i] == k;
                        assert(keys[i] == k);
                    }
                }
                assert forall|i: int| 0 <= i < self.keys@.len() implies system.values().contains_key(
                    #[trigger] self.keys@[i],
                ) && system.values()[self.keys@[i]] == 0 && !before.contains_key(self.keys@[i]) by {
                    if i < keys.len() {
                        assert(self.keys@[i] == keys[i]);
                        assert(values.contains_key(keys[i]));
                    }
                }
            }
        }
        proof {
            assert forall|k: usize| #[trigger] before.contains_key(k) implies system.values().contains_key(k)
                && !self.keys@.contains(k) by {
                if self.keys@.contains(k) {
                    let i = choose|i: int| 0 <= i < self.keys@.len() && self.keys@[i] == k;
                    assert(!before.contains_key(self.keys@[i]));
                }
            }
        }
    }

    /// Gives all keys back.
    fn give_back<S: ThreadLocalStorage>(&mut self, system: &mut S, before: Ghost<Map<usize, usize>>)
        requires
            old(self).keys@.no_duplicates(),
            forall|i: int|
                0 <= i < old(self).keys@.len() ==> !before@.contains_key(
                    #[trigger] old(self).keys@[i],
                ),
            forall|k: usize| #[trigger]
                old(system).values().contains_key(k) <==> before@.contains_key(k) || old(
                    self,
                ).keys@.contains(k),
            forall|k: usize| #[trigger]
                before@.contains_key(k) ==> old(system).values()[k] == before@[k],
        ensures
            final(system).values() == before@,
            final(system).keys_left() == old(system).keys_left() + old(self).keys@.len(),
            final(self).state == old(self).state,
            final(self).keys@.len() == 0,
    {
        while self.keys.len() > 0
            invariant
                self.state == old(self).state,
                system.keys_left() + self.keys@.len() == old(system).keys_left() + old(self).keys@.len(),
                self.keys@.no_duplicates(),
                forall|i: int|
                    0 <= i < self.keys@.len() ==> !before@.contains_key(#[trigger] self.keys@[i]),
                forall|k: usize| #[trigger]
                    system.values().contains_key(k) <==> before@.contains_key(k)
                        || self.keys@.contains(k),
                forall|k: usize| #[trigger]
                    before@.contains_key(k) ==> system.values()[k] == before@[k],
            decreases self.keys.len(),
        {
            let ghost keys = self.keys@;
            let ghost values = system.values();
            assert(keys.contains(keys[keys.len() - 1]));
            match self.keys.pop() {
                Some(key) => {
                    assert(values.contains_key(key));
                    system.dealloc(key);
                    proof {
                        assert(self.keys@ =~= keys.drop_last());
                        assert forall|k: usize| #[trigger] system.values().contains_key(k) <==> (
                        before@.contains_key(k) || self.keys@.contains(k)) by {
                            assert(values.contains_key(k) <==> before@.contains_key(k)
                                || keys.contains(k));
                            if keys.contains(k) && k != key {
                                let i = choose|i: int| 0 <= i < keys.len() && keys[i] == k;
                                assert(self.keys@[i] == k);
                            }
                            if self.keys@.contains(k) {
                                let i = choose|i: int|
                                    0 <= i < self.keys@.len() && self.keys@[i] == k;
                                assert(keys[i] == k);
                                assert(keys[i] != keys[keys.len() - 1]);
                            }
                        }
                        assert forall|i: int| 0 <= i < self.keys@.len() implies !before@.contains_key(
                            #[trigger] self.keys@[i],
                        ) by {
                            assert(self.keys@[i] == keys[i]);
                        }
                    }
                },
                None => {},
            }
        }
        assert(system.values() =~= before@);
    }
}

/// What a thread has under its keys.
pub open spec fn stored<S: ThreadLocalStorage>(system: &S, keys: Seq<usize>) -> Seq<usize> {
    Seq::new(keys.len(), |i: int| system.values()[keys[i]])
}

/// The timestamp that is given out to a thread that has stored `current` when the
/// clock tells `now`.
pub open spec fn held(current: u64, now: u64) -> u64 {
    if current < now {
        now
    } else {
        current
    }
}

/// On one thread time never goes back, whatever the clock tells: the thread stores
/// each timestamp that it gets, and the next one is no less.
pub proof fn thread_time_never_goes_back(current: u64, first: u64, second: u64)
    ensures
        held(current, first) <= held(held(current, first), second),
        first <= held(current, first),
{
}

/// Words hold no more bits than a timestamp has in that place.
proof fn words_join(x: u64)
    by (bit_vector)
    ensures
        x == (x & 0xffff_ffff) | ((x >> 32) << 32),
        x & 0xffff_ffff <= 0xffff_ffff,
        x >> 32 <= 0xffff_ffff,
{
}

/// The timestamp that the current thread has stored.
pub fn load_tls<S: ThreadLocalStorage>(system: &S, keys: &Vec<usize>) -> (nanos: u64)
    requires
        are_keys(keys@, system),
    ensures
        nanos == joined(stored(system, keys@)),
{
    assert(system.values().contains_key(keys@[0]));
    let low: usize = system.get(keys[0]);
    if keys.len() == 1 {
        return low as u64;
    }
    assert(system.values().contains_key(keys@[1]));
    let high: usize = system.get(keys[1]);
    (low as u64) | ((high as u64) << 32)
}

/// Stores a timestamp for the current thread.
pub fn store_tls<S: ThreadLocalStorage>(system: &mut S, keys: &Vec<usize>, nanos: u64)
    requires
        are_keys(keys@, old(system)),
    ensures
        are_keys(keys@, final(system)),
        joined(stored(final(system), keys@)) == nanos,
        final(system).values().dom() =~= old(system).values().dom(),
        forall|k: usize|
            !keys@.contains(k) ==> #[trigger] final(system).values()[k] == old(system).values()[k],
{
    proof {
        words_join(nanos);
    }
    assert(system.values().contains_key(keys@[0]));
    if keys.len() == 1 {
        system.set(keys[0], nanos as usize);
        assert(keys@.contains(keys@[0]));
        assert(stored(system, keys@)[0] == nanos as usize);
    } else {
        assert(system.values().contains_key(keys@[1]));
        system.set(keys[0], (nanos & 0xffff_ffff) as usize);
        system.set(keys[1], (nanos >> 32) as usize);
        assert(keys@.contains(keys@[0]) && keys@.contains(keys@[1]));
        assert(keys@[0] != keys@[1]);
        assert(stored(system, keys@)[0] == (nanos & 0xffff_ffff) as usize);
        assert(stored(system, keys@)[1] == (nanos >> 32) as usize);
    }
}

/// The current timestamp: what the clock tells, or the timestamp that the current
/// thread has stored where the clock has gone back. On one thread it is never less than
/// the one before, whatever the clock tells.
pub fn timestamp<S: Clock + ThreadLocalStorage>(system: &mut S, keys: &Vec<usize>) -> (timestamp: OsDuration)
    requires
        !S::IS_ALWAYS_MONOTONIC ==> are_keys(keys@, old(system)),
    ensures
        timestamp.wf(),
        exists|now: u64| #[trigger]
            call_ensures(S::nanotime, (&*old(system),), now) && timestamp.total() == (
            if S::IS_ALWAYS_MONOTONIC {
                now
            } else {
                held(joined(stored(old(system), keys@)), now)
            }),
        S::IS_ALWAYS_MONOTONIC ==> *final(system) == *old(system),
        !S::IS_ALWAYS_MONOTONIC ==> {
            &&& are_keys(keys@, final(system))
            &&& joined(stored(final(system), keys@)) == timestamp.total()
            &&& forall|k: usize|
                !keys@.contains(k) ==> #[trigger] final(system).values()[k]
                    == old(system).values()[k]
        },
{
    let now = system.nanotime();
    timestamp_at(system, keys, now)
}

/// The current timestamp when the clock tells `now`. Where the clock goes back,
/// the timestamp that the current thread has stored is given out again, and
/// otherwise the new one is stored.
pub fn timestamp_at<S: Clock + ThreadLocalStorage>(
    system: &mut S,
    keys: &Vec<usize>,
    now: u64,
) -> (timestamp: OsDuration)
    requires
        !S::IS_ALWAYS_MONOTONIC ==> are_keys(keys@, old(system)),
    ensures
        timestamp.wf(),
        S::IS_ALWAYS_MONOTONIC ==> timestamp.total() == now && *final(system) == *old(
            system,
        ),
        !S::IS_ALWAYS_MONOTONIC ==> {
            &&& timestamp.total() == held(joined(stored(old(system), keys@)), now)
            &&& are_keys(keys@, final(system))
            &&& joined(stored(final(system), keys@)) == timestamp.total()
            &&& forall|k: usize|
                !keys@.contains(k) ==> #[trigger] final(system).values()[k]
                    == old(system).values()[k]
        },
{
    let mut now: u64 = now;
    if !S::IS_ALWAYS_MONOTONIC {
        let current = load_tls(system, keys);
        if current < now {
            store_tls(system, keys, now);
        } else {
            now = current;
        }
    }
    OsDuration::from_nanos(now)
}

} // verus!
