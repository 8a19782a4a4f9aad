//! Bookkeeping for suspended script coroutines. A coroutine that yields asks
//! to be resumed some ticks later; each tick hands back, in order, every
//! coroutine whose time has come.
use vstd::prelude::*;

verus! {

/// Scheduler of suspended coroutines of type `T`, each with the tick at
/// which it is due.
#[derive(Debug)]
pub struct Scheduler<T> {
    pending: Vec<(T, u64)>,
    tick: u64,
}

/// The coroutines of `p` due at `now`, in order.
pub open spec fn due<T>(p: Seq<(T, u64)>, now: u64) -> Seq<T>
    decreases p.len(),
{
    if p.len() == 0 {
        Seq::empty()
    } else if p.last().1 <= now {
        due(p.drop_last(), now).push(p.last().0)
    } else {
        due(p.drop_last(), now)
    }
}

/// The entries of `p` not yet due at `now`, in order.
pub open spec fn waiting<T>(p: Seq<(T, u64)>, now: u64) -> Seq<(T, u64)>
    decreases p.len(),
{
    if p.len() == 0 {
        Seq::empty()
    } else if p.last().1 <= now {
        waiting(p.drop_last(), now)
    } else {
        waiting(p.drop_last(), now).push(p.last())
    }
}

/// A tick loses no coroutine: each pending one is either due or still
/// waiting, and every waiting one is due strictly later.
pub proof fn lemma_tick_partitions<T>(p: Seq<(T, u64)>, now: u64)
    ensures
        due(p, now).len() + waiting(p, now).len() == p.len(),
        forall|k: int| 0 <= k < waiting(p, now).len() ==> (#[trigger] waiting(p, now)[k]).1 > now,
    decreases p.len(),
{
    if p.len() > 0 {
        lemma_tick_partitions(p.drop_last(), now);
        let w = waiting(p.drop_last(), now);
        assert forall|k: int| 0 <= k < waiting(p, now).len() implies (#[trigger] waiting(p, now)[k]).1 > now by {
            if k < w.len() {
                assert(waiting(p, now)[k] == w[k]);
            }
        }
    }
}

/// Whether a pending entry is still waiting at tick `now`.
pub open spec fn due_after<T>(now: u64) -> spec_fn((T, u64)) -> bool {
    |e: (T, u64)| e.1 > now
}

/// Whether a pending entry is due at tick `now`.
pub open spec fn due_by<T>(now: u64) -> spec_fn((T, u64)) -> bool {
    |e: (T, u64)| e.1 <= now
}

/// The coroutine of a pending entry.
pub open spec fn coroutine_of<T>() -> spec_fn((T, u64)) -> T {
    |e: (T, u64)| e.0
}

/// A tick splits the pending entries by their due tick and alters none of
/// them: those still waiting are, in their order and with their due ticks
/// unchanged, exactly the entries due after `now`; those handed back are,
/// in order, exactly the coroutines of the entries due at or before `now`.
pub proof fn law_tick_splits_unchanged<T>(p: Seq<(T, u64)>, now: u64)
    ensures
        waiting(p, now) == p.filter(due_after::<T>(now)),
        due(p, now) == p.filter(due_by::<T>(now)).map_values(coroutine_of::<T>()),
    decreases p.len(),
{
    reveal(Seq::filter);
    if p.len() > 0 {
        law_tick_splits_unchanged(p.drop_last(), now);
        let rest = p.drop_last().filter(due_by::<T>(now));
        if p.last().1 <= now {
            assert(p.filter(due_by::<T>(now)) == rest.push(p.last()));
            assert(rest.push(p.last()).map_values(coroutine_of::<T>()) =~= rest.map_values(coroutine_of::<T>()).push(
                p.last().0,
            ));
        } else {
            assert(p.filter(due_by::<T>(now)) == rest);
        }
    } else {
        assert(p.filter(due_by::<T>(now)).map_values(coroutine_of::<T>()) =~= Seq::<T>::empty());
    }
}

impl<T> Scheduler<T> {
    /// The coroutines waiting, with the tick each is due at, in order.
    pub closed spec fn pending(&self) -> Seq<(T, u64)> {
        self.pending@
    }

    /// The current tick.
    pub closed spec fn spec_tick(&self) -> u64 {
        self.tick
    }

    pub fn new() -> (s: Self)
        ensures
            s.pending() == Seq::<(T, u64)>::empty(),
            s.spec_tick() == 0,
    {
        Self { pending: Vec::new(), tick: 0 }
    }

    /// The current tick.
    pub fn tick(&self) -> (t: u64)
        ensures
            t == self.spec_tick(),
    {
        self.tick
    }

    /// Records the outcome of resuming `thread`: if it can be resumed again,
    /// it becomes due `ticks` ticks from now; if it finished, it is dropped.
    pub fn after_resume(&mut self, thread: T, resumable: bool, ticks: u64)
        requires
            resumable ==> old(self).spec_tick() + ticks <= u64::MAX,
        ensures
            final(self).spec_tick() == old(self).spec_tick(),
            resumable ==> final(self).pending() == old(self).pending().push(
                (thread, (old(self).spec_tick() + ticks) as u64),
            ),
            !resumable ==> final(self).pending() == old(self).pending(),
    {
        if resumable {
            self.pending.push((thread, self.tick + ticks));
        }
    }

    /// Advances one tick and hands back, in order, every coroutine now due;
    /// the others keep waiting, in order.
    pub fn on_tick(&mut self) -> (ready: Vec<T>)
        requires
            old(self).spec_tick() < u64::MAX,
        ensures
            final(self).spec_tick() == old(self).spec_tick() + 1,
            ready@ == due(old(self).pending(), final(self).spec_tick()),
            final(self).pending() == waiting(old(self).pending(), final(self).spec_tick()),
    {
        self.tick = self.tick + 1;
        let now = self.tick;
        let mut rest: Vec<(T, u64)> = Vec::new();
        std::mem::swap(&mut rest, &mut self.pending);
        let ghost orig = rest@;
        let mut ready: Vec<T> = Vec::new();
        let mut kept: Vec<(T, u64)> = Vec::new();
        let ghost mut i: int = 0;
        while rest.len() > 0
            invariant
                0 <= i <= orig.len(),
                rest@ == orig.skip(i),
                ready@ == due(orig.take(i), now),
                kept@ == waiting(orig.take(i), now),
            decreases rest.len(),
        {
            let (thread, at) = rest.remove(0);
            proof {
                assert(orig.take(i + 1).drop_last() =~= orig.take(i));
                assert(orig.take(i + 1).last() == orig[i]);
                assert(rest@ =~= orig.skip(i + 1));
            }
            if at <= now {
                ready.push(thread);
            } else {
                kept.push((thread, at));
            }
            proof {
                i = i + 1;
            }
        }
        assert(orig.take(i) =~= orig);
        self.pending = kept;
        ready
    }
}

} // verus!
