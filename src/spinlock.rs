use vstd::prelude::*;

verus! {

/// One compare-and-swap of the lock flag from `false` to `true`: the new
/// flag, and whether this attempt took the lock.
pub open spec fn cas_acquire(locked: bool) -> (bool, bool) {
    (true, !locked)
}

/// A busy-wait mutual-exclusion lock around a value.
///
/// While the lock is free it holds the value; taking it moves the value into
/// the guard, and releasing it with the guard puts the value back.
pub struct SpinLock<T> {
    locked: bool,
    data: Option<T>,
}

/// The guard of a taken `SpinLock`: exclusive access to the value. It must
/// be handed back to `SpinLock::release`, which is the only way to free the
/// lock and to put the value back.
#[must_use]
pub struct SpinLocked<T> {
    data: T,
}

impl<T> View for SpinLocked<T> {
    type V = T;

    closed spec fn view(&self) -> T {
        self.data
    }
}

impl<T> SpinLocked<T> {
    /// Shared access to the guarded value.
    pub fn get(&self) -> (r: &T)
        ensures
            *r == self@,
    {
        &self.data
    }

    /// Exclusive access to the guarded value.
    pub fn get_mut(&mut self) -> (r: &mut T)
        ensures
            *r == old(self)@,
            final(self)@ == *final(r),
    {
        &mut self.data
    }
}

impl<T> SpinLock<T> {
    /// The lock is taken.
    pub closed spec fn is_locked(&self) -> bool {
        self.locked
    }

    /// The value held while the lock is free.
    pub closed spec fn value(&self) -> T {
        self.data.unwrap()
    }

    /// The value is in the lock exactly when the lock is free.
    pub closed spec fn wf(&self) -> bool {
        self.locked <==> self.data is None
    }

    /// A free lock around `data`.
    pub fn new(data: T) -> (r: Self)
        ensures
            r.wf(),
            !r.is_locked(),
            r.value() == data,
    {
        SpinLock { locked: false, data: Some(data) }
    }

    /// One compare-and-swap of the flag from `false` to `true`; returns
    /// whether it took the lock.
    fn compare_and_swap(&mut self) -> (r: bool)
        ensures
            (final(self).locked, r) == cas_acquire(old(self).locked),
            final(self).data == old(self).data,
    {
        if self.locked {
            false
        } else {
            self.locked = true;
            true
        }
    }

    /// Takes the flag. Whoever holds `&mut` to the lock is the only context
    /// that can touch it, so on a free lock the first compare-and-swap wins.
    fn acquire(&mut self)
        requires
            !old(self).locked,
        ensures
            final(self).locked,
            final(self).data == old(self).data,
    {
        let won = self.compare_and_swap();
        assert(won);
    }

    /// Takes a free lock and hands out the guarded value.
    pub fn borrow(&mut self) -> (r: SpinLocked<T>)
        requires
            old(self).wf(),
            !old(self).is_locked(),
        ensures
            final(self).wf(),
            final(self).is_locked(),
            r@ == old(self).value(),
    {
        self.acquire();
        let data = self.data.take().unwrap();
        SpinLocked { data }
    }

    /// A single attempt to take the lock: the guard on success, `None` when
    /// the lock is already taken (and then nothing changes).
    pub fn try_borrow(&mut self) -> (r: Option<SpinLocked<T>>)
        requires
            old(self).wf(),
        ensures
            final(self).wf(),
            (final(self).is_locked(), r is Some) == cas_acquire(old(self).is_locked()),
            r matches Some(g) ==> g@ == old(self).value(),
            r is None ==> final(self).value() == old(self).value(),
    {
        if self.compare_and_swap() {
            let data = self.data.take().unwrap();
            Some(SpinLocked { data })
        } else {
            None
        }
    }

    /// Releases a taken lock, putting back the guard's value. Releasing a free
    /// lock is ruled out: the guard is consumed here, once.
    pub fn release(&mut self, guard: SpinLocked<T>)
        requires
            old(self).wf(),
            old(self).is_locked(),
        ensures
            final(self).wf(),
            !final(self).is_locked(),
            final(self).value() == guard@,
    {
        let SpinLocked { data } = guard;
        self.data = Some(data);
        self.locked = false;
    }
}

/// Where one execution context stands with respect to a lock.
pub enum Phase {
    /// Not interested in the lock.
    Idle,
    /// Waiting: reading the flag, and trying compare-and-swap when it is clear.
    Spinning,
    /// Holds the guard.
    Holding,
}

/// What a context does next.
pub enum LockEvent {
    /// Starts to wait for the lock.
    Want,
    /// Reads the flag without writing it (the "test" before test-and-set).
    Peek,
    /// Tries the compare-and-swap.
    Swap,
    /// Releases the lock with its guard.
    Release,
}

/// One shared lock flag and the phases of the contexts that use it.
pub ghost struct LockSystem {
    pub locked: bool,
    pub phases: Seq<Phase>,
}

/// No context holds the guard, and the flag is clear.
pub open spec fn initial(n: nat) -> LockSystem {
    LockSystem { locked: false, phases: Seq::new(n, |i: int| Phase::Idle) }
}

/// The flag is set exactly when some context holds the guard, and at most
/// one does.
pub open spec fn lock_inv(s: LockSystem) -> bool {
    &&& (s.locked <==> exists|i: int| 0 <= i < s.phases.len() && s.phases[i] is Holding)
    &&& forall|i: int, j: int|
        0 <= i < s.phases.len() && 0 <= j < s.phases.len() && s.phases[i] is Holding
            && s.phases[j] is Holding ==> i == j
}

/// The state after context `c` does `e`; an event that does not fit the
/// context's phase (such as a release by a context that holds nothing)
/// changes nothing.
pub open spec fn step(s: LockSystem, c: int, e: LockEvent) -> LockSystem {
    if !(0 <= c < s.phases.len()) {
        s
    } else {
        match (s.phases[c], e) {
            (Phase::Idle, LockEvent::Want) => LockSystem {
                phases: s.phases.update(c, Phase::Spinning),
                ..s
            },
            (Phase::Spinning, LockEvent::Swap) => {
                let (flag, won) = cas_acquire(s.locked);
                LockSystem {
                    locked: flag,
                    phases: if won {
                        s.phases.update(c, Phase::Holding)
                    } else {
                        s.phases
                    },
                }
            },
            (Phase::Holding, LockEvent::Release) => LockSystem {
                locked: false,
                phases: s.phases.update(c, Phase::Idle),
            },
            _ => s,
        }
    }
}

/// The state after a schedule: each entry names a context and its event.
pub open spec fn run(s: LockSystem, schedule: Seq<(int, LockEvent)>) -> LockSystem
    decreases schedule.len(),
{
    if schedule.len() == 0 {
        s
    } else {
        let (c, e) = schedule.last();
        step(run(s, schedule.drop_last()), c, e)
    }
}

/// Every step of every context keeps the lock invariant.
pub proof fn lemma_step_keeps_inv(s: LockSystem, c: int, e: LockEvent)
    requires
        lock_inv(s),
    ensures
        lock_inv(step(s, c, e)),
{
    let t = step(s, c, e);
    if 0 <= c < s.phases.len() {
        match (s.phases[c], e) {
            (Phase::Idle, LockEvent::Want) => {
                assert(forall|i: int| 0 <= i < t.phases.len() && t.phases[i] is Holding ==> s.phases[i] is Holding);
                assert(forall|i: int| 0 <= i < t.phases.len() && s.phases[i] is Holding ==> t.phases[i] is Holding);
            },
            (Phase::Spinning, LockEvent::Swap) => {
                if !s.locked {
                    assert(t.phases[c] is Holding);
                    assert(forall|i: int| 0 <= i < s.phases.len() ==> !(s.phases[i] is Holding));
                }
            },
            (Phase::Holding, LockEvent::Release) => {
                assert(forall|i: int| 0 <= i < t.phases.len() ==> !(t.phases[i] is Holding));
            },
            _ => {},
        }
    }
}

/// Mutual exclusion: under every interleaving of the contexts' steps, no two
/// contexts hold the guard at once, and the flag is set exactly while one
/// does.
pub proof fn lemma_mutual_exclusion(n: nat, schedule: Seq<(int, LockEvent)>)
    ensures
        lock_inv(run(initial(n), schedule)),
        forall|i: int, j: int|
            0 <= i < n && 0 <= j < n && (#[trigger] run(initial(n), schedule).phases[i]) is Holding
                && (#[trigger] run(initial(n), schedule).phases[j]) is Holding ==> i == j,
    decreases schedule.len(),
{
    if schedule.len() > 0 {
        lemma_mutual_exclusion(n, schedule.drop_last());
        let (c, e) = schedule.last();
        lemma_step_keeps_inv(run(initial(n), schedule.drop_last()), c, e);
    }
    lemma_run_len(n, schedule);
}

proof fn lemma_run_len(n: nat, schedule: Seq<(int, LockEvent)>)
    ensures
        run(initial(n), schedule).phases.len() == n,
    decreases schedule.len(),
{
    if schedule.len() > 0 {
        lemma_run_len(n, schedule.drop_last());
    }
}

/// A compare-and-swap on a taken lock takes nothing and leaves it taken.
pub proof fn lemma_swap_on_taken_lock(s: LockSystem, c: int)
    requires
        s.locked,
        0 <= c < s.phases.len(),
        s.phases[c] is Spinning,
    ensures
        step(s, c, LockEvent::Swap) == s,
{
}

} // verus!
