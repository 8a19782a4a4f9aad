//! Tank components, stored densely and found again through a sparse table
//! indexed by entity slot.
use vstd::prelude::*;

use crate::entities::entity::EntityId;

verus! {

/// (current, needed for next level)
pub type Xp = (u32, u32);

/// Experience a freshly inserted tank starts with.
pub const START_XP: u32 = 0;

/// Experience a freshly inserted tank needs for its next level.
pub const START_XP_TO_NEXT: u32 = 250;

/// Dense tank storage. `aim` holds the bit pattern of each tank's aim angle
/// (an `f32`); the zero pattern is the angle `0.0`.
#[derive(Debug, Clone)]
pub struct Tanks {
    ids: Vec<EntityId>,
    names: Vec<String>,
    xp: Vec<Xp>,
    aim: Vec<u32>,
    sparse: Vec<Option<usize>>,
}

/// What the store holds for one tank.
pub struct TankEntry {
    pub id: EntityId,
    pub name: Seq<char>,
    pub xp: Xp,
    pub aim: u32,
}

pub struct TankRef<'a> {
    pub name: &'a str,
    pub xp: &'a Xp,
    pub aim: &'a u32,
}

pub struct TankMut<'a> {
    pub name: &'a mut String,
    pub xp: &'a mut Xp,
    pub aim: &'a mut u32,
}

impl Tanks {
    /// The columns line up and the sparse table and the dense ids point at
    /// each other.
    pub closed spec fn wf(&self) -> bool {
        &&& self.names.len() == self.ids.len()
        &&& self.xp.len() == self.ids.len()
        &&& self.aim.len() == self.ids.len()
        &&& forall|s: int|
            0 <= s < self.ids.len() ==> {
                &&& (#[trigger] self.ids@[s]).index < self.sparse.len()
                &&& self.sparse@[self.ids@[s].index as int] == Some(s as usize)
            }
        &&& forall|i: int|
            0 <= i < self.sparse.len() && (#[trigger] self.sparse@[i]) is Some ==> {
                &&& self.sparse@[i]->0 < self.ids.len()
                &&& self.ids@[self.sparse@[i]->0 as int].index == i
            }
    }

    closed spec fn entry_at(&self, s: int) -> TankEntry {
        TankEntry { id: self.ids@[s], name: self.names@[s]@, xp: self.xp@[s], aim: self.aim@[s] }
    }

    closed spec fn has_slot(&self, i: usize) -> bool {
        (i as int) < self.sparse.len() && self.sparse@[i as int] is Some
    }

    /// The tanks held, keyed by entity slot index.
    pub closed spec fn entries(&self) -> Map<usize, TankEntry> {
        Map::new(|i: usize| self.has_slot(i), |i: usize| self.entry_at(self.sparse@[i as int]->0 as int))
    }

    /// Number of tanks held.
    pub closed spec fn spec_len(&self) -> nat {
        self.ids.len() as nat
    }

    /// The stored map is finite and has one entry per stored row.
    pub proof fn lemma_len_is_entry_count(&self)
        requires
            self.wf(),
        ensures
            self.entries().dom().finite(),
            self.entries().dom().len() == self.spec_len(),
    {
        let ids = self.ids@;
        let f = |s: int| ids[s].index;
        let dom = self.entries().dom();
        // the dense slots and the keys are in bijection
        assert(dom =~= Set::new(|i: usize| exists|s: int| 0 <= s < ids.len() && ids[s].index == i)) by {
            assert forall|i: usize| dom.contains(i) implies exists|s: int| 0 <= s < ids.len() && ids[s].index == i by {
                let s = self.sparse@[i as int]->0 as int;
                assert(ids[s].index == i);
            }
            assert forall|i: usize| (exists|s: int| 0 <= s < ids.len() && ids[s].index == i) implies dom.contains(i) by {
                let s = choose|s: int| 0 <= s < ids.len() && ids[s].index == i;
                assert(self.ids@[s].index < self.sparse.len());
            }
        }
        self.lemma_key_count(ids.len() as int);
        assert(Set::new(|i: usize| exists|s: int| 0 <= s < ids.len() && ids[s].index == i) =~= self.keys_below(ids.len() as int));
    }

    closed spec fn keys_below(&self, n: int) -> Set<usize> {
        Set::new(|i: usize| exists|s: int| 0 <= s < n && self.ids@[s].index == i)
    }

    proof fn lemma_key_count(&self, n: int)
        requires
            self.wf(),
            0 <= n <= self.ids.len(),
        ensures
            self.keys_below(n).finite(),
            self.keys_below(n).len() == n,
        decreases n,
    {
        if n == 0 {
            assert(self.keys_below(0) =~= Set::empty());
        } else {
            self.lemma_key_count(n - 1);
            let k = self.ids@[n - 1].index;
            assert(self.keys_below(n) =~= self.keys_below(n - 1).insert(k));
            if self.keys_below(n - 1).contains(k) {
                let s = choose|s: int| 0 <= s < n - 1 && self.ids@[s].index == k;
                assert(self.sparse@[k as int] == Some(s as usize));
                assert(self.sparse@[k as int] == Some((n - 1) as usize));
            }
        }
    }

    pub fn new(max_tanks: usize) -> (t: Self)
        ensures
            t.wf(),
            t.entries() == Map::<usize, TankEntry>::empty(),
            t.spec_len() == 0,
    {
        let t = Self {
            ids: Vec::with_capacity(max_tanks),
            names: Vec::with_capacity(max_tanks),
            xp: Vec::with_capacity(max_tanks),
            aim: Vec::with_capacity(max_tanks),
            sparse: Vec::with_capacity(max_tanks),
        };
        assert(t.entries() =~= Map::<usize, TankEntry>::empty());
        t
    }

    fn ensure_sparse_capacity(&mut self, index: usize)
        requires
            old(self).wf(),
            index < usize::MAX,
        ensures
            final(self).wf(),
            final(self).sparse.len() > index,
            final(self).entries() == old(self).entries(),
            final(self).spec_len() == old(self).spec_len(),
    {
        if index >= self.sparse.len() {
            let ghost old_self = *self;
            while self.sparse.len() <= index
                invariant
                    self.wf(),
                    index < usize::MAX,
                    self.ids == old_self.ids,
                    self.names == old_self.names,
                    self.xp == old_self.xp,
                    self.aim == old_self.aim,
                    self.sparse.len() >= old_self.sparse.len(),
                    self.sparse@.subrange(0, old_self.sparse.len() as int) == old_self.sparse@,
                    forall|i: int| old_self.sparse.len() <= i < self.sparse.len() ==> self.sparse@[i] is None,
                decreases index + 1 - self.sparse.len(),
            {
                self.sparse.push(None);
                assert(self.sparse@.subrange(0, old_self.sparse.len() as int) =~= old_self.sparse@);
            }
            assert(self.entries() =~= old_self.entries()) by {
                assert forall|i: usize| #![auto] self.has_slot(i) == old_self.has_slot(i) by {
                    if (i as int) < old_self.sparse.len() {
                        assert(self.sparse@[i as int] == old_self.sparse@[i as int]);
                    }
                }
                assert forall|i: usize| #![auto] self.has_slot(i) implies self.sparse@[i as int] == old_self.sparse@[i as int] by {
                }
            }
        }
    }

    /// Adds a tank for `id` unless its slot already holds one.
    pub fn insert(&mut self, id: EntityId, name: String)
        requires
            old(self).wf(),
            id.index < usize::MAX,
        ensures
            final(self).wf(),
            old(self).entries().dom().contains(id.index) ==> final(self).entries() == old(self).entries(),
            !old(self).entries().dom().contains(id.index) ==> final(self).entries() == old(self).entries().insert(
                id.index,
                TankEntry { id, name: name@, xp: (START_XP, START_XP_TO_NEXT), aim: 0 },
            ),
            final(self).spec_len() == old(self).spec_len() + (if old(self).entries().dom().contains(id.index) {
                0int
            } else {
                1int
            }),
    {
        self.ensure_sparse_capacity(id.index);
        if self.sparse[id.index].is_some() {
            return;
        }
        let ghost old_self = *self;
        let slot = self.ids.len();
        self.ids.push(id);
        self.names.push(name);
        self.aim.push(0);
        self.xp.push((START_XP, START_XP_TO_NEXT));
        self.sparse.set(id.index, Some(slot));
        assert forall|s: int| 0 <= s < self.ids.len() implies {
            &&& (#[trigger] self.ids@[s]).index < self.sparse.len()
            &&& self.sparse@[self.ids@[s].index as int] == Some(s as usize)
        } by {
            if s < slot {
                assert(old_self.ids@[s] == self.ids@[s]);
            }
        }
        assert(self.entries() =~= old_self.entries().insert(
            id.index,
            TankEntry { id, name: name@, xp: (START_XP, START_XP_TO_NEXT), aim: 0 },
        )) by {
            assert forall|i: usize| #![auto] self.has_slot(i) && i != id.index implies self.sparse@[i as int] == old_self.sparse@[i as int]
                && (self.sparse@[i as int]->0 as int) < slot by {
            }
        }
    }

    /// Removes the tank in `id`'s slot, if any; says whether one was there.
    pub fn remove(&mut self, id: EntityId) -> (removed: bool)
        requires
            old(self).wf(),
        ensures
            final(self).wf(),
            removed == old(self).entries().dom().contains(id.index),
            final(self).entries() == old(self).entries().remove(id.index),
            final(self).spec_len() == old(self).spec_len() - (if removed { 1int } else { 0int }),
    {
        let slot = if id.index < self.sparse.len() {
            match self.sparse[id.index] {
                Some(s) => s,
                None => {
                    assert(self.entries() =~= self.entries().remove(id.index));
                    return false;
                },
            }
        } else {
            assert(self.entries() =~= self.entries().remove(id.index));
            return false;
        };
        let ghost old_self = *self;
        let last = self.ids.len() - 1;
        self.ids.swap_remove(slot);
        self.names.swap_remove(slot);
        self.xp.swap_remove(slot);
        self.aim.swap_remove(slot);
        self.sparse.set(id.index, None);
        if slot != last {
            let moved_id = self.ids[slot];
            assert(old_self.ids@[last as int] == moved_id);
            self.sparse.set(moved_id.index, Some(slot));
        }
        assert(self.wf()) by {
            assert forall|s: int| 0 <= s < self.ids.len() implies {
                &&& (#[trigger] self.ids@[s]).index < self.sparse.len()
                &&& self.sparse@[self.ids@[s].index as int] == Some(s as usize)
            } by {
                if s != slot {
                    assert(self.ids@[s] == old_self.ids@[s]);
                }
            }
            assert forall|i: int|
                0 <= i < self.sparse.len() && (#[trigger] self.sparse@[i]) is Some implies {
                    &&& self.sparse@[i]->0 < self.ids.len()
                    &&& self.ids@[self.sparse@[i]->0 as int].index == i
                } by {
                if i != id.index && (slot == last || i != old_self.ids@[last as int].index) {
                    assert(self.sparse@[i] == old_self.sparse@[i]);
                    let s = old_self.sparse@[i]->0 as int;
                    assert(old_self.ids@[s].index == i);
                    assert(s != slot);
                    assert(s != last);
                }
            }
        }
        assert(self.entries() =~= old_self.entries().remove(id.index)) by {
            assert forall|i: usize| #![auto] self.has_slot(i) <==> (old_self.has_slot(i) && i != id.index) by {
                if i != id.index && (slot == last || i != old_self.ids@[last as int].index) && (i as int) < self.sparse.len() {
                    assert(self.sparse@[i as int] == old_self.sparse@[i as int]);
                }
                if slot != last && i == old_self.ids@[last as int].index {
                    assert(old_self.sparse@[i as int] == Some(last));
                }
            }
            assert forall|i: usize| #![auto] self.has_slot(i) implies self.entry_at(self.sparse@[i as int]->0 as int)
                == old_self.entry_at(old_self.sparse@[i as int]->0 as int) by {
                if slot != last && i == old_self.ids@[last as int].index {
                    assert(old_self.sparse@[i as int] == Some(last));
                } else {
                    assert(self.sparse@[i as int] == old_self.sparse@[i as int]);
                    let s = old_self.sparse@[i as int]->0 as int;
                    assert(old_self.ids@[s].index == i);
                    assert(s != slot);
                }
            }
        }
        true
    }

    /// The tank in `id`'s slot. The slot alone decides: the generation of
    /// `id` is not compared.
    pub fn get(&self, id: EntityId) -> (r: Option<TankRef<'_>>)
        requires
            self.wf(),
        ensures
            r is Some <==> self.entries().dom().contains(id.index),
            r matches Some(t) ==> {
                &&& t.name@ == self.entries()[id.index].name
                &&& *t.xp == self.entries()[id.index].xp
                &&& *t.aim == self.entries()[id.index].aim
            },
    {
        if id.index >= self.sparse.len() {
            return None;
        }
        match self.sparse[id.index] {
            None => None,
            Some(slot) => Some(TankRef { name: self.names[slot].as_str(), xp: &self.xp[slot], aim: &self.aim[slot] }),
        }
    }

    /// Mutable access to the tank in `id`'s slot. As with `get`, the slot
    /// alone decides. Whatever is written through the handles lands in that
    /// tank's entry and nowhere else.
    pub fn get_mut(&mut self, id: EntityId) -> (r: Option<TankMut<'_>>)
        requires
            old(self).wf(),
        ensures
            r is Some <==> old(self).entries().dom().contains(id.index),
            r is None ==> *final(self) == *old(self),
            r matches Some(t) ==> {
                &&& (*t.name)@ == old(self).entries()[id.index].name
                &&& *t.xp == old(self).entries()[id.index].xp
                &&& *t.aim == old(self).entries()[id.index].aim
                &&& final(self).wf()
                &&& final(self).entries() == old(self).entries().insert(
                    id.index,
                    TankEntry {
                        id: old(self).entries()[id.index].id,
                        name: (*final(t.name))@,
                        xp: *final(t.xp),
                        aim: *final(t.aim),
                    },
                )
            },
    {
        if id.index >= self.sparse.len() {
            return None;
        }
        match self.sparse[id.index] {
            None => None,
            Some(slot) => {
                let name = &mut self.names[slot];
                let xp = &mut self.xp[slot];
                let aim = &mut self.aim[slot];
                Some(TankMut { name, xp, aim })
            },
        }
    }

    pub fn len(&self) -> (n: usize)
        requires
            self.wf(),
        ensures
            n == self.spec_len(),
            self.entries().dom().finite(),
            n == self.entries().dom().len(),
    {
        proof {
            self.lemma_len_is_entry_count();
        }
        self.ids.len()
    }

    pub fn is_empty(&self) -> (b: bool)
        requires
            self.wf(),
        ensures
            b <==> self.entries().dom().is_empty(),
    {
        proof {
            self.lemma_len_is_entry_count();
        }
        self.ids.len() == 0
    }
}

/// A tank inserted into a slot that held none is found there with the
/// name it was given, fresh experience and zero aim; what other slots hold
/// is unchanged.
pub proof fn law_tank_insert_then_get(entries: Map<usize, TankEntry>, id: EntityId, name: Seq<char>, other: usize)
    requires
        !entries.dom().contains(id.index),
    ensures
        ({
            let after = entries.insert(id.index, TankEntry { id, name, xp: (START_XP, START_XP_TO_NEXT), aim: 0 });
            &&& after.dom().contains(id.index)
            &&& after[id.index].name == name
            &&& after[id.index].xp == (START_XP, START_XP_TO_NEXT)
            &&& after[id.index].aim == 0
            &&& other != id.index ==> (after.dom().contains(other) == entries.dom().contains(other))
            &&& other != id.index && entries.dom().contains(other) ==> after[other] == entries[other]
        }),
{
}

/// After a removal the slot holds no tank, and other slots are unchanged.
pub proof fn law_tank_remove_then_get(entries: Map<usize, TankEntry>, index: usize, other: usize)
    ensures
        !entries.remove(index).dom().contains(index),
        other != index ==> (entries.remove(index).dom().contains(other) == entries.dom().contains(other)),
        other != index && entries.dom().contains(other) ==> entries.remove(index)[other] == entries[other],
{
}

} // verus!
