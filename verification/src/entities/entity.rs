//! The generational entity arena. A slot's generation grows each time the
//! slot is reused, so a handle to a despawned entity never comes alive again.
use vstd::prelude::*;

use crate::entities::bullet::Bullets;
use crate::entities::tank::{TankEntry, Tanks};
use crate::game::rules::apply_damage;
use glam::Vec2;

verus! {

/// Capacity the tank store is created with.
pub const TANK_CAPACITY: usize = 256;

/// A handle to an entity slot. The generation tells apart successive
/// occupants of the same slot.
#[derive(Debug, Clone, Copy, PartialEq, Eq, Structural, Hash)]
pub struct EntityId {
    pub index: usize,
    pub generation: u32,
}

/// What the arena holds for one slot.
pub struct Slot {
    pub generation: u32,
    pub alive: bool,
    pub position: Vec2,
    pub velocity: Vec2,
    pub health: u32,
}

#[derive(Debug, Clone)]
pub struct Entities {
    generations: Vec<u32>,
    alive: Vec<bool>,
    positions: Vec<Vec2>,
    velocities: Vec<Vec2>,
    health: Vec<u32>,
    free: Vec<usize>,
    pub tanks: Tanks,
    pub bullets: Bullets,
}

/// Shared views of one slot's fields.
pub struct EntityRef<'a> {
    pub generation: &'a u32,
    pub alive: &'a bool,
    pub position: &'a Vec2,
    pub velocity: &'a Vec2,
    pub health: &'a u32,
}

/// Whether `id` names the current, living occupant of its slot.
pub open spec fn alive_in(slots: Seq<Slot>, id: EntityId) -> bool {
    &&& id.index < slots.len()
    &&& slots[id.index as int].alive
    &&& slots[id.index as int].generation == id.generation
}

/// `id` can never be the living occupant of its slot again: the slot has
/// moved on to a later generation, or is dead at `id`'s generation.
pub open spec fn retired_in(slots: Seq<Slot>, id: EntityId) -> bool {
    &&& id.index < slots.len()
    &&& {
        ||| slots[id.index as int].generation > id.generation
        ||| (slots[id.index as int].generation == id.generation && !slots[id.index as int].alive)
    }
}

/// The indices below `n` of the slots that are alive, in increasing order.
pub open spec fn alive_indices(slots: Seq<Slot>, n: int) -> Seq<int>
    decreases n,
{
    if n <= 0 {
        Seq::empty()
    } else if slots[n - 1].alive {
        alive_indices(slots, n - 1).push(n - 1)
    } else {
        alive_indices(slots, n - 1)
    }
}

/// A retired handle is not alive.
pub proof fn lemma_retired_not_alive(slots: Seq<Slot>, id: EntityId)
    requires
        retired_in(slots, id),
    ensures
        !alive_in(slots, id),
{
}

/// The handles that `alive_indices` lists are in range and alive.
pub proof fn lemma_alive_indices(slots: Seq<Slot>, n: int)
    requires
        0 <= n <= slots.len(),
    ensures
        forall|k: int|
            0 <= k < alive_indices(slots, n).len() ==> 0 <= #[trigger] alive_indices(slots, n)[k] < n
                && slots[alive_indices(slots, n)[k]].alive,
    decreases n,
{
    if n > 0 {
        lemma_alive_indices(slots, n - 1);
        let prev = alive_indices(slots, n - 1);
        assert forall|k: int| 0 <= k < alive_indices(slots, n).len() implies 0 <= #[trigger] alive_indices(
            slots,
            n,
        )[k] < n && slots[alive_indices(slots, n)[k]].alive by {
            if k < prev.len() {
                assert(alive_indices(slots, n)[k] == prev[k]);
            }
        }
    }
}

/// The listing of living slots below `n` is exact and ordered: an index
/// below `n` is listed if and only if its slot is alive, and the listed
/// indices increase strictly, so each is listed once.
pub proof fn law_alive_indices_exact(slots: Seq<Slot>, n: int)
    requires
        0 <= n <= slots.len(),
    ensures
        forall|i: int| 0 <= i < n ==> (slots[i].alive <==> #[trigger] alive_indices(slots, n).contains(i)),
        forall|k: int, l: int|
            0 <= k < l < alive_indices(slots, n).len() ==> #[trigger] alive_indices(slots, n)[k]
                < #[trigger] alive_indices(slots, n)[l],
    decreases n,
{
    lemma_alive_indices(slots, n);
    if n > 0 {
        law_alive_indices_exact(slots, n - 1);
        lemma_alive_indices(slots, n - 1);
        let prev = alive_indices(slots, n - 1);
        let cur = alive_indices(slots, n);
        assert forall|i: int| 0 <= i < n implies (slots[i].alive <==> #[trigger] cur.contains(i)) by {
            if slots[n - 1].alive {
                assert(cur == prev.push(n - 1));
                if i < n - 1 {
                    if prev.contains(i) {
                        let k = choose|k: int| 0 <= k < prev.len() && prev[k] == i;
                        assert(cur[k] == i);
                    }
                    if cur.contains(i) {
                        let k = choose|k: int| 0 <= k < cur.len() && cur[k] == i;
                        if k < prev.len() {
                            assert(prev[k] == i);
                        }
                    }
                } else {
                    assert(cur[prev.len() as int] == n - 1);
                }
            } else {
                assert(cur == prev);
                if i == n - 1 && cur.contains(i) {
                    let k = choose|k: int| 0 <= k < prev.len() && prev[k] == i;
                }
            }
        }
        assert forall|k: int, l: int| 0 <= k < l < cur.len() implies #[trigger] cur[k] < #[trigger] cur[l] by {
            if slots[n - 1].alive && l == prev.len() {
                assert(cur[k] == prev[k]);
            } else if slots[n - 1].alive {
                assert(cur[k] == prev[k] && cur[l] == prev[l]);
            }
        }
    }
}

impl Entities {
    /// The columns line up; the free list holds distinct dead slots; the
    /// component stores are well formed.
    pub closed spec fn wf(&self) -> bool {
        &&& self.alive.len() == self.generations.len()
        &&& self.positions.len() == self.generations.len()
        &&& self.velocities.len() == self.generations.len()
        &&& self.health.len() == self.generations.len()
        &&& forall|k: int|
            0 <= k < self.free.len() ==> {
                &&& #[trigger] self.free@[k] < self.generations.len()
                &&& !self.alive@[self.free@[k] as int]
            }
        &&& forall|k1: int, k2: int|
            0 <= k1 < self.free.len() && 0 <= k2 < self.free.len() && k1 != k2 ==> self.free@[k1]
                != self.free@[k2]
        &&& self.tanks.wf()
        &&& self.bullets.wf()
    }

    /// The tank store.
    pub closed spec fn tank_store(&self) -> Tanks {
        self.tanks
    }

    /// The bullet store.
    pub closed spec fn bullet_store(&self) -> Bullets {
        self.bullets
    }

    /// The tank store, as the contracts speak of it (the public `tanks`
    /// field).
    pub fn tanks(&self) -> (t: &Tanks)
        requires
            self.wf(),
        ensures
            *t == self.tank_store(),
            t.wf(),
    {
        &self.tanks
    }

    /// Mutable access to the tank store; the slots, the free list and the
    /// bullets stay as they were, and the arena stays well formed as long
    /// as the store does.
    pub fn tanks_mut(&mut self) -> (t: &mut Tanks)
        requires
            old(self).wf(),
        ensures
            *t == old(self).tank_store(),
            t.wf(),
            final(self).tank_store() == *final(t),
            final(self).slots() == old(self).slots(),
            final(self).free_slots() == old(self).free_slots(),
            final(self).bullet_store() == old(self).bullet_store(),
            final(t).wf() ==> final(self).wf(),
    {
        &mut self.tanks
    }

    /// The bullet store, as the contracts speak of it (the public `bullets`
    /// field).
    pub fn bullets(&self) -> (b: &Bullets)
        requires
            self.wf(),
        ensures
            *b == self.bullet_store(),
            b.wf(),
    {
        &self.bullets
    }

    /// Mutable access to the bullet store; the slots, the free list and the
    /// tanks stay as they were, and the arena stays well formed as long as
    /// the store does.
    pub fn bullets_mut(&mut self) -> (b: &mut Bullets)
        requires
            old(self).wf(),
        ensures
            *b == old(self).bullet_store(),
            b.wf(),
            final(self).bullet_store() == *final(b),
            final(self).slots() == old(self).slots(),
            final(self).free_slots() == old(self).free_slots(),
            final(self).tank_store() == old(self).tank_store(),
            final(b).wf() ==> final(self).wf(),
    {
        &mut self.bullets
    }

    closed spec fn slot(&self, i: int) -> Slot {
        Slot {
            generation: self.generations@[i],
            alive: self.alive@[i],
            position: self.positions@[i],
            velocity: self.velocities@[i],
            health: self.health@[i],
        }
    }

    /// Every slot ever handed out, in index order.
    pub closed spec fn slots(&self) -> Seq<Slot> {
        Seq::new(self.generations.len() as nat, |i: int| self.slot(i))
    }

    /// The dead slots waiting for reuse; the last one is reused first.
    pub closed spec fn free_slots(&self) -> Seq<usize> {
        self.free@
    }

    pub open spec fn spec_is_alive(&self, id: EntityId) -> bool {
        alive_in(self.slots(), id)
    }

    /// Whether the next spawn would push the arena past what its counters
    /// hold: the slot count, or the generation of the slot to be reused.
    pub open spec fn spawn_exhausted(&self) -> bool {
        ||| self.slots().len() >= usize::MAX
        ||| (self.free_slots().len() > 0 && self.slots()[self.free_slots().last() as int].generation
            == u32::MAX)
    }

    pub fn new() -> (e: Self)
        ensures
            e.wf(),
            e.slots() == Seq::<Slot>::empty(),
            e.free_slots() == Seq::<usize>::empty(),
            e.tank_store().entries() == Map::<usize, TankEntry>::empty(),
            e.bullet_store().rows().len() == 0,
    {
        let e = Self {
            generations: Vec::new(),
            alive: Vec::new(),
            positions: Vec::new(),
            velocities: Vec::new(),
            health: Vec::new(),
            free: Vec::new(),
            tanks: Tanks::new(TANK_CAPACITY),
            bullets: Bullets::new(),
        };
        assert(e.slots() =~= Seq::<Slot>::empty());
        e
    }

    /// Whether another entity can be spawned without a counter overflowing.
    pub fn can_spawn(&self) -> (b: bool)
        requires
            self.wf(),
        ensures
            b == !self.spawn_exhausted(),
    {
        if self.generations.len() == usize::MAX {
            return false;
        }
        match self.free.last() {
            Some(index) => self.generations[*index] < u32::MAX,
            None => true,
        }
    }

    /// Spawns an entity: the most recently freed slot is reused with its
    /// generation raised by one; with no free slot a new slot is appended.
    pub fn spawn(&mut self, position: Vec2, velocity: Vec2, health: u32) -> (id: EntityId)
        requires
            old(self).wf(),
            !old(self).spawn_exhausted(),
        ensures
            final(self).wf(),
            final(self).tank_store() == old(self).tank_store(),
            final(self).bullet_store() == old(self).bullet_store(),
            !old(self).spec_is_alive(id),
            final(self).spec_is_alive(id),
            forall|e: EntityId| e != id ==> final(self).spec_is_alive(e) == old(self).spec_is_alive(e),
            forall|e: EntityId| retired_in(old(self).slots(), e) ==> retired_in(final(self).slots(), e),
            old(self).free_slots().len() > 0 ==> {
                &&& id.index == old(self).free_slots().last()
                &&& id.index < old(self).slots().len()
                &&& id.generation == old(self).slots()[id.index as int].generation + 1
                &&& final(self).free_slots() == old(self).free_slots().drop_last()
                &&& final(self).slots() == old(self).slots().update(
                    id.index as int,
                    Slot { generation: id.generation, alive: true, position, velocity, health },
                )
            },
            old(self).free_slots().len() == 0 ==> {
                &&& id.index == old(self).slots().len()
                &&& id.generation == 0
                &&& final(self).free_slots() == old(self).free_slots()
                &&& final(self).slots() == old(self).slots().push(
                    Slot { generation: 0, alive: true, position, velocity, health },
                )
            },
    {
        let ghost old_self = *self;
        match self.free.pop() {
            Some(index) => {
                proof {
                    assert(old_self.free@[old_self.free.len() - 1] == index);
                }
                let generation = self.generations[index] + 1;
                self.generations.set(index, generation);
                self.alive.set(index, true);
                self.positions.set(index, position);
                self.velocities.set(index, velocity);
                self.health.set(index, health);
                proof {
                    assert forall|k: int| 0 <= k < self.free.len() implies {
                        &&& #[trigger] self.free@[k] < self.generations.len()
                        &&& !self.alive@[self.free@[k] as int]
                    } by {
                        assert(old_self.free@[k] == self.free@[k]);
                        assert(old_self.free@[k] != index);
                    }
                    assert(self.slots() =~= old_self.slots().update(
                        index as int,
                        Slot { generation, alive: true, position, velocity, health },
                    ));
                }
                EntityId { index, generation }
            },
            None => {
                let index = self.alive.len();
                self.generations.push(0);
                self.alive.push(true);
                self.positions.push(position);
                self.velocities.push(velocity);
                self.health.push(health);
                proof {
                    assert(self.slots() =~= old_self.slots().push(
                        Slot { generation: 0, alive: true, position, velocity, health },
                    ));
                }
                EntityId { index, generation: 0 }
            },
        }
    }

    pub fn is_alive(&self, id: EntityId) -> (b: bool)
        requires
            self.wf(),
        ensures
            b == self.spec_is_alive(id),
    {
        if id.index < self.alive.len() {
            self.alive[id.index] && self.generations[id.index] == id.generation
        } else {
            false
        }
    }

    /// Kills `id` if it is alive: its slot is marked dead and freed for reuse
    /// and the tank in its slot, if any, is removed. Says whether it was
    /// alive; a dead or stale handle changes nothing.
    pub fn despawn(&mut self, id: EntityId) -> (was_alive: bool)
        requires
            old(self).wf(),
        ensures
            final(self).wf(),
            was_alive == old(self).spec_is_alive(id),
            final(self).bullet_store() == old(self).bullet_store(),
            !final(self).spec_is_alive(id),
            forall|e: EntityId| e != id ==> final(self).spec_is_alive(e) == old(self).spec_is_alive(e),
            forall|e: EntityId| retired_in(old(self).slots(), e) ==> retired_in(final(self).slots(), e),
            was_alive ==> retired_in(final(self).slots(), id),
            !was_alive ==> *final(self) == *old(self),
            was_alive ==> {
                &&& final(self).slots() == old(self).slots().update(
                    id.index as int,
                    Slot { alive: false, ..old(self).slots()[id.index as int] },
                )
                &&& final(self).free_slots() == old(self).free_slots().push(id.index)
                &&& final(self).tank_store().entries() == old(self).tank_store().entries().remove(id.index)
            },
    {
        if !self.is_alive(id) {
            return false;
        }
        let ghost old_self = *self;
        self.alive.set(id.index, false);
        self.tanks.remove(id);
        self.free.push(id.index);
        proof {
            assert forall|k1: int, k2: int|
                0 <= k1 < self.free.len() && 0 <= k2 < self.free.len() && k1 != k2 implies self.free@[k1]
                    != self.free@[k2] by {
                if k1 < old_self.free.len() && k2 < old_self.free.len() {
                    assert(old_self.free@[k1] == self.free@[k1]);
                    assert(old_self.free@[k2] == self.free@[k2]);
                } else if k1 < old_self.free.len() {
                    assert(!old_self.alive@[old_self.free@[k1] as int]);
                } else {
                    assert(!old_self.alive@[old_self.free@[k2] as int]);
                }
            }
            assert(self.slots() =~= old_self.slots().update(
                id.index as int,
                Slot { alive: false, ..old_self.slots()[id.index as int] },
            ));
        }
        true
    }

    /// Spawns an entity and gives it a tank named `name`.
    pub fn spawn_tank(&mut self, position: Vec2, velocity: Vec2, health: u32, name: String) -> (id: EntityId)
        requires
            old(self).wf(),
            !old(self).spawn_exhausted(),
        ensures
            final(self).wf(),
            final(self).spec_is_alive(id),
            final(self).slots()[id.index as int] == (Slot {
                generation: id.generation,
                alive: true,
                position,
                velocity,
                health,
            }),
            old(self).tank_store().entries().dom().contains(id.index) ==> final(self).tank_store().entries() == old(self).tank_store().entries(),
            !old(self).tank_store().entries().dom().contains(id.index) ==> final(self).tank_store().entries()
                == old(self).tank_store().entries().insert(
                id.index,
                TankEntry { id, name: name@, xp: (0, 250), aim: 0 },
            ),
            final(self).bullet_store() == old(self).bullet_store(),
    {
        let id = self.spawn(position, velocity, health);
        let ghost mid = *self;
        self.tanks.insert(id, name);
        assert(self.slots() =~= mid.slots());
        id
    }

    /// Views of the fields of `id`'s slot, when `id` is alive.
    pub fn get(&self, id: EntityId) -> (r: Option<EntityRef<'_>>)
        requires
            self.wf(),
        ensures
            r is Some <==> self.spec_is_alive(id),
            r matches Some(e) ==> {
                &&& *e.generation == self.slots()[id.index as int].generation
                &&& *e.alive == self.slots()[id.index as int].alive
                &&& *e.position == self.slots()[id.index as int].position
                &&& *e.velocity == self.slots()[id.index as int].velocity
                &&& *e.health == self.slots()[id.index as int].health
            },
    {
        if !self.is_alive(id) {
            return None;
        }
        Some(
            EntityRef {
                generation: &self.generations[id.index],
                alive: &self.alive[id.index],
                position: &self.positions[id.index],
                velocity: &self.velocities[id.index],
                health: &self.health[id.index],
            },
        )
    }

    /// Sets the health of `id` if it is alive; says whether it was.
    pub fn set_health(&mut self, id: EntityId, health: u32) -> (was_alive: bool)
        requires
            old(self).wf(),
        ensures
            final(self).wf(),
            was_alive == old(self).spec_is_alive(id),
            final(self).tank_store() == old(self).tank_store(),
            final(self).bullet_store() == old(self).bullet_store(),
            final(self).free_slots() == old(self).free_slots(),
            was_alive ==> final(self).slots() == old(self).slots().update(
                id.index as int,
                Slot { health, ..old(self).slots()[id.index as int] },
            ),
            !was_alive ==> final(self).slots() == old(self).slots(),
    {
        if !self.is_alive(id) {
            return false;
        }
        let ghost old_self = *self;
        self.health.set(id.index, health);
        assert(self.slots() =~= old_self.slots().update(
            id.index as int,
            Slot { health, ..old_self.slots()[id.index as int] },
        ));
        true
    }

    /// Sets the position and velocity of `id` if it is alive; says whether
    /// it was.
    pub fn set_motion(&mut self, id: EntityId, position: Vec2, velocity: Vec2) -> (was_alive: bool)
        requires
            old(self).wf(),
        ensures
            final(self).wf(),
            was_alive == old(self).spec_is_alive(id),
            final(self).tank_store() == old(self).tank_store(),
            final(self).bullet_store() == old(self).bullet_store(),
            final(self).free_slots() == old(self).free_slots(),
            was_alive ==> final(self).slots() == old(self).slots().update(
                id.index as int,
                Slot { position, velocity, ..old(self).slots()[id.index as int] },
            ),
            !was_alive ==> final(self).slots() == old(self).slots(),
    {
        if !self.is_alive(id) {
            return false;
        }
        let ghost old_self = *self;
        self.positions.set(id.index, position);
        self.velocities.set(id.index, velocity);
        assert(self.slots() =~= old_self.slots().update(
            id.index as int,
            Slot { position, velocity, ..old_self.slots()[id.index as int] },
        ));
        true
    }

    /// Deals `damage` to `id` if it is alive: its health drops, held at
    /// zero, and an entity this brings from positive health to zero is
    /// despawned (its slot freed, its tank removed). Says whether it died;
    /// a dead or stale handle changes nothing.
    pub fn take_damage(&mut self, id: EntityId, damage: u32) -> (killed: bool)
        requires
            old(self).wf(),
        ensures
            final(self).wf(),
            final(self).bullet_store() == old(self).bullet_store(),
            !old(self).spec_is_alive(id) ==> !killed && *final(self) == *old(self),
            old(self).spec_is_alive(id) ==> {
                let h = old(self).slots()[id.index as int].health;
                let left = (if h < damage { 0 } else { h - damage }) as u32;
                &&& killed == (h > 0 && left == 0)
                &&& !killed ==> {
                    &&& final(self).slots() == old(self).slots().update(
                        id.index as int,
                        Slot { health: left, ..old(self).slots()[id.index as int] },
                    )
                    &&& final(self).free_slots() == old(self).free_slots()
                    &&& final(self).tank_store() == old(self).tank_store()
                    &&& final(self).spec_is_alive(id)
                }
                &&& killed ==> {
                    &&& final(self).slots() == old(self).slots().update(
                        id.index as int,
                        Slot { health: 0, alive: false, ..old(self).slots()[id.index as int] },
                    )
                    &&& final(self).free_slots() == old(self).free_slots().push(id.index)
                    &&& final(self).tank_store().entries() == old(self).tank_store().entries().remove(id.index)
                    &&& retired_in(final(self).slots(), id)
                }
            },
            forall|e: EntityId| e != id ==> final(self).spec_is_alive(e) == old(self).spec_is_alive(e),
    {
        if !self.is_alive(id) {
            return false;
        }
        let h = self.health[id.index];
        let (left, died) = apply_damage(h, damage);
        self.set_health(id, left);
        if died {
            let ghost mid = *self;
            self.despawn(id);
            assert(mid.slots()[id.index as int] == (Slot { health: 0, ..old(self).slots()[id.index as int] }));
            true
        } else {
            false
        }
    }

    /// Views of every slot, in index order.
    pub fn iter(&self) -> (v: Vec<EntityRef<'_>>)
        requires
            self.wf(),
        ensures
            v.len() == self.slots().len(),
            forall|k: int|
                0 <= k < v.len() ==> {
                    &&& *(#[trigger] v@[k]).generation == self.slots()[k].generation
                    &&& *v@[k].alive == self.slots()[k].alive
                    &&& *v@[k].position == self.slots()[k].position
                    &&& *v@[k].velocity == self.slots()[k].velocity
                    &&& *v@[k].health == self.slots()[k].health
                },
    {
        let mut v: Vec<EntityRef<'_>> = Vec::new();
        let mut i: usize = 0;
        while i < self.generations.len()
            invariant
                self.wf(),
                i <= self.generations.len(),
                v.len() == i,
                forall|k: int|
                    0 <= k < i ==> {
                        &&& *(#[trigger] v@[k]).generation == self.slots()[k].generation
                        &&& *v@[k].alive == self.slots()[k].alive
                        &&& *v@[k].position == self.slots()[k].position
                        &&& *v@[k].velocity == self.slots()[k].velocity
                        &&& *v@[k].health == self.slots()[k].health
                    },
            decreases self.generations.len() - i,
        {
            v.push(
                EntityRef {
                    generation: &self.generations[i],
                    alive: &self.alive[i],
                    position: &self.positions[i],
                    velocity: &self.velocities[i],
                    health: &self.health[i],
                },
            );
            i = i + 1;
        }
        v
    }

    /// Views of the living slots, in index order.
    pub fn iter_alive(&self) -> (v: Vec<EntityRef<'_>>)
        requires
            self.wf(),
        ensures
            v.len() == alive_indices(self.slots(), self.slots().len() as int).len(),
            forall|k: int|
                0 <= k < v.len() ==> {
                    let i = alive_indices(self.slots(), self.slots().len() as int)[k];
                    &&& *(#[trigger] v@[k]).generation == self.slots()[i].generation
                    &&& *v@[k].alive
                    &&& *v@[k].position == self.slots()[i].position
                    &&& *v@[k].velocity == self.slots()[i].velocity
                    &&& *v@[k].health == self.slots()[i].health
                },
    {
        let mut v: Vec<EntityRef<'_>> = Vec::new();
        let mut i: usize = 0;
        proof {
            lemma_alive_indices(self.slots(), self.slots().len() as int);
        }
        while i < self.generations.len()
            invariant
                self.wf(),
                i <= self.generations.len(),
                v.len() == alive_indices(self.slots(), i as int).len(),
                forall|k: int|
                    0 <= k < v.len() ==> {
                        let j = alive_indices(self.slots(), i as int)[k];
                        &&& *(#[trigger] v@[k]).generation == self.slots()[j].generation
                        &&& *v@[k].alive
                        &&& *v@[k].position == self.slots()[j].position
                        &&& *v@[k].velocity == self.slots()[j].velocity
                        &&& *v@[k].health == self.slots()[j].health
                    },
            decreases self.generations.len() - i,
        {
            proof {
                lemma_alive_indices(self.slots(), i as int);
            }
            if self.alive[i] {
                v.push(
                    EntityRef {
                        generation: &self.generations[i],
                        alive: &self.alive[i],
                        position: &self.positions[i],
                        velocity: &self.velocities[i],
                        health: &self.health[i],
                    },
                );
            }
            assert(self.slots()[i as int] == self.slot(i as int));
            i = i + 1;
        }
        v
    }
}

/// Spawns an entity in `entities`.
pub fn spawn_entity(entities: &mut Entities, position: Vec2, velocity: Vec2, health: u32) -> (id: EntityId)
    requires
        old(entities).wf(),
        !old(entities).spawn_exhausted(),
    ensures
        final(entities).wf(),
        final(entities).spec_is_alive(id),
        final(entities).slots()[id.index as int] == (Slot {
            generation: id.generation,
            alive: true,
            position,
            velocity,
            health,
        }),
{
    entities.spawn(position, velocity, health)
}

} // verus!
