//! Shapes (the polygons players farm), stored densely and found again through
//! a sparse table indexed by entity slot. Unlike tanks, a shape is only found
//! by the exact handle it was inserted with.
use vstd::prelude::*;

use crate::entities::entity::EntityId;
use crate::outside::vec2_add;
use glam::Vec2;

verus! {

#[derive(Debug, Clone, Copy, PartialEq, Eq, Structural)]
pub enum ShapeKind {
    Square,
    Triangle,
    Pentagon,
}

/// Dense shape storage. `rotations`, `rotation_speeds`, `orbit_radii`,
/// `orbit_angles` and `orbit_speeds` hold the bit patterns of `f32`s.
#[derive(Debug, Clone)]
pub struct Shapes {
    ids: Vec<EntityId>,
    kinds: Vec<ShapeKind>,
    rotations: Vec<u32>,
    rotation_speeds: Vec<u32>,
    xp_rewards: Vec<u32>,
    pub centers: Vec<Vec2>,
    orbit_radii: Vec<u32>,
    orbit_angles: Vec<u32>,
    orbit_speeds: Vec<u32>,
    sparse: Vec<Option<usize>>,
}

/// What the store holds for one shape.
pub struct ShapeEntry {
    pub id: EntityId,
    pub kind: ShapeKind,
    pub rotation: u32,
    pub rotation_speed: u32,
    pub xp_reward: u32,
    pub center: Vec2,
    pub orbit_radius: u32,
    pub orbit_angle: u32,
    pub orbit_speed: u32,
}

pub struct ShapeRef<'a> {
    pub kind: &'a ShapeKind,
    pub rotation: &'a u32,
    pub rotation_speed: &'a u32,
    pub xp_reward: &'a u32,
}

pub struct ShapeMut<'a> {
    pub kind: &'a mut ShapeKind,
    pub rotation: &'a mut u32,
    pub rotation_speed: &'a mut u32,
    pub xp_reward: &'a mut u32,
}

/// One dense row's orbit state, as the per-tick motion update reads it.
pub struct ShapeMotion {
    pub id: EntityId,
    pub rotation: u32,
    pub rotation_speed: u32,
    pub center: Vec2,
    pub orbit_radius: u32,
    pub orbit_angle: u32,
    pub orbit_speed: u32,
}

/// One dense row's result of a motion step: its new rotation and orbit
/// angle, and the position its entity moves to.
pub struct ShapeStep {
    pub rotation: u32,
    pub orbit_angle: u32,
    pub position: Vec2,
}

/// Whether `entries` holds a shape inserted with exactly `id`.
pub open spec fn holds_shape(entries: Map<usize, ShapeEntry>, id: EntityId) -> bool {
    entries.dom().contains(id.index) && entries[id.index].id == id
}

impl Shapes {
    /// The columns line up and the sparse table and the dense ids point at
    /// each other.
    pub closed spec fn wf(&self) -> bool {
        &&& self.kinds.len() == self.ids.len()
        &&& self.rotations.len() == self.ids.len()
        &&& self.rotation_speeds.len() == self.ids.len()
        &&& self.xp_rewards.len() == self.ids.len()
        &&& self.centers.len() == self.ids.len()
        &&& self.orbit_radii.len() == self.ids.len()
        &&& self.orbit_angles.len() == self.ids.len()
        &&& self.orbit_speeds.len() == self.ids.len()
        &&& forall|s: int|
            0 <= s < self.ids.len() ==> {
                &&& (#[trigger] self.ids@[s]).index < self.sparse.len()
                &&& self.sparse@[self.ids@[s].index as int] == Some(s as usize)
            }
        &&& forall|i: int|
            0 <= i < self.sparse.len() && (#[trigger] self.sparse@[i]) is Some ==> {
                &&& self.sparse@[i]->0 < self.ids.len()
                &&& self.ids@[self.sparse@[i]->0 as int].index == i
            }
    }

    closed spec fn entry_at(&self, s: int) -> ShapeEntry {
        ShapeEntry {
            id: self.ids@[s],
            kind: self.kinds@[s],
            rotation: self.rotations@[s],
            rotation_speed: self.rotation_speeds@[s],
            xp_reward: self.xp_rewards@[s],
            center: self.centers@[s],
            orbit_radius: self.orbit_radii@[s],
            orbit_angle: self.orbit_angles@[s],
            orbit_speed: self.orbit_speeds@[s],
        }
    }

    /// The dense row that slot index `i` maps to.
    pub closed spec fn sparse_slot(&self, i: usize) -> int {
        self.sparse@[i as int]->0 as int
    }

    closed spec fn has_slot(&self, i: usize) -> bool {
        (i as int) < self.sparse.len() && self.sparse@[i as int] is Some
    }

    /// The shapes held, keyed by entity slot index.
    pub closed spec fn entries(&self) -> Map<usize, ShapeEntry> {
        Map::new(|i: usize| self.has_slot(i), |i: usize| self.entry_at(self.sparse@[i as int]->0 as int))
    }

    /// The dense rows, in storage order.
    pub closed spec fn rows(&self) -> Seq<ShapeEntry> {
        Seq::new(self.ids.len() as nat, |s: int| self.entry_at(s))
    }

    /// Every dense row is the entry of its own slot index, and every entry
    /// is some dense row.
    pub proof fn lemma_rows_are_entries(&self)
        requires
            self.wf(),
        ensures
            forall|s: int|
                0 <= s < self.rows().len() ==> self.entries().dom().contains((#[trigger] self.rows()[s]).id.index)
                    && self.entries()[self.rows()[s].id.index] == self.rows()[s],
            forall|i: usize|
                #[trigger] self.entries().dom().contains(i) ==> exists|s: int|
                    0 <= s < self.rows().len() && self.rows()[s] == self.entries()[i] && self.rows()[s].id.index
                        == i,
    {
        assert forall|i: usize| #[trigger] self.entries().dom().contains(i) implies exists|s: int|
            0 <= s < self.rows().len() && self.rows()[s] == self.entries()[i] && self.rows()[s].id.index == i by {
            let s = self.sparse@[i as int]->0 as int;
            assert(self.rows()[s] == self.entries()[i]);
        }
    }

    /// The stored map is finite and has one entry per stored row.
    pub proof fn lemma_len_is_entry_count(&self)
        requires
            self.wf(),
        ensures
            self.entries().dom().finite(),
            self.entries().dom().len() == self.rows().len(),
    {
        let ids = self.ids@;
        let dom = self.entries().dom();
        assert(dom =~= self.keys_below(ids.len() as int)) by {
            assert forall|i: usize| dom.contains(i) implies self.keys_below(ids.len() as int).contains(i) by {
                let s = self.sparse@[i as int]->0 as int;
                assert(ids[s].index == i);
            }
            assert forall|i: usize| self.keys_below(ids.len() as int).contains(i) implies dom.contains(i) by {
                let s = choose|s: int| 0 <= s < ids.len() && ids[s].index == i;
                assert(self.ids@[s].index < self.sparse.len());
            }
        }
        self.lemma_key_count(ids.len() as int);
    }

    closed spec fn keys_below(&self, n: int) -> Set<usize> {
        Set::new(|i: usize| exists|s: int| 0 <= s < n && self.ids@[s].index == i)
    }

    proof fn lemma_key_count(&self, n: int)
        requires
            self.wf(),
            0 <= n <= self.ids.len(),
        ensures
            self.keys_below(n).finite(),
            self.keys_below(n).len() == n,
        decreases n,
    {
        if n == 0 {
            assert(self.keys_below(0) =~= Set::empty());
        } else {
            self.lemma_key_count(n - 1);
            let k = self.ids@[n - 1].index;
            assert(self.keys_below(n) =~= self.keys_below(n - 1).insert(k));
            if self.keys_below(n - 1).contains(k) {
                let s = choose|s: int| 0 <= s < n - 1 && self.ids@[s].index == k;
                assert(self.sparse@[k as int] == Some(s as usize));
                assert(self.sparse@[k as int] == Some((n - 1) as usize));
            }
        }
    }

    pub fn new(max_shapes: usize) -> (t: Self)
        ensures
            t.wf(),
            t.entries() == Map::<usize, ShapeEntry>::empty(),
    {
        let t = Self {
            ids: Vec::with_capacity(max_shapes),
            kinds: Vec::with_capacity(max_shapes),
            rotations: Vec::with_capacity(max_shapes),
            rotation_speeds: Vec::with_capacity(max_shapes),
            xp_rewards: Vec::with_capacity(max_shapes),
            centers: Vec::with_capacity(max_shapes),
            orbit_radii: Vec::with_capacity(max_shapes),
            orbit_angles: Vec::with_capacity(max_shapes),
            orbit_speeds: Vec::with_capacity(max_shapes),
            sparse: Vec::with_capacity(max_shapes),
        };
        assert(t.entries() =~= Map::<usize, ShapeEntry>::empty());
        t
    }

    fn ensure_sparse_capacity(&mut self, index: usize)
        requires
            old(self).wf(),
            index < usize::MAX,
        ensures
            final(self).wf(),
            final(self).sparse.len() > index,
            final(self).entries() == old(self).entries(),
            final(self).rows() == old(self).rows(),
    {
        if index >= self.sparse.len() {
            let ghost old_self = *self;
            while self.sparse.len() <= index
                invariant
                    self.wf(),
                    index < usize::MAX,
                    self.ids == old_self.ids,
                    self.kinds == old_self.kinds,
                    self.rotations == old_self.rotations,
                    self.rotation_speeds == old_self.rotation_speeds,
                    self.xp_rewards == old_self.xp_rewards,
                    self.centers == old_self.centers,
                    self.orbit_radii == old_self.orbit_radii,
                    self.orbit_angles == old_self.orbit_angles,
                    self.orbit_speeds == old_self.orbit_speeds,
                    self.sparse.len() >= old_self.sparse.len(),
                    self.sparse@.subrange(0, old_self.sparse.len() as int) == old_self.sparse@,
                    forall|i: int| old_self.sparse.len() <= i < self.sparse.len() ==> self.sparse@[i] is None,
                decreases index + 1 - self.sparse.len(),
            {
                self.sparse.push(None);
                assert(self.sparse@.subrange(0, old_self.sparse.len() as int) =~= old_self.sparse@);
            }
            assert(self.entries() =~= old_self.entries()) by {
                assert forall|i: usize| #![auto] self.has_slot(i) == old_self.has_slot(i) by {
                    if (i as int) < old_self.sparse.len() {
                        assert(self.sparse@[i as int] == old_self.sparse@[i as int]);
                    }
                }
                assert forall|i: usize| #![auto] self.has_slot(i) implies self.sparse@[i as int] == old_self.sparse@[i as int] by {
                }
            }
            assert(self.rows() =~= old_self.rows());
        }
    }

    /// The dense row of the shape inserted with exactly `id`, if any.
    fn slot_of(&self, id: EntityId) -> (r: Option<usize>)
        requires
            self.wf(),
        ensures
            r is Some <==> holds_shape(self.entries(), id),
            r matches Some(s) ==> s < self.ids.len() && self.sparse@[id.index as int] == Some(s),
    {
        if id.index >= self.sparse.len() {
            return None;
        }
        match self.sparse[id.index] {
            None => None,
            Some(slot) => {
                if self.ids[slot] == id {
                    Some(slot)
                } else {
                    None
                }
            },
        }
    }

    /// Adds a shape for `id` unless its slot already holds one; the shape
    /// starts unrotated.
    pub fn insert(
        &mut self,
        id: EntityId,
        kind: ShapeKind,
        rotation_speed: u32,
        xp_reward: u32,
        center: Vec2,
        orbit_radius: u32,
        orbit_angle: u32,
        orbit_speed: u32,
    )
        requires
            old(self).wf(),
            id.index < usize::MAX,
        ensures
            final(self).wf(),
            old(self).entries().dom().contains(id.index) ==> final(self).entries() == old(self).entries(),
            !old(self).entries().dom().contains(id.index) ==> final(self).entries() == old(self).entries().insert(
                id.index,
                ShapeEntry {
                    id,
                    kind,
                    rotation: 0,
                    rotation_speed,
                    xp_reward,
                    center,
                    orbit_radius,
                    orbit_angle,
                    orbit_speed,
                },
            ),
    {
        self.ensure_sparse_capacity(id.index);
        if self.sparse[id.index].is_some() {
            return;
        }
        let ghost old_self = *self;
        let slot = self.ids.len();
        self.ids.push(id);
        self.kinds.push(kind);
        self.rotations.push(0);
        self.rotation_speeds.push(rotation_speed);
        self.xp_rewards.push(xp_reward);
        self.centers.push(center);
        self.orbit_radii.push(orbit_radius);
        self.orbit_angles.push(orbit_angle);
        self.orbit_speeds.push(orbit_speed);
        self.sparse.set(id.index, Some(slot));
        assert forall|s: int| 0 <= s < self.ids.len() implies {
            &&& (#[trigger] self.ids@[s]).index < self.sparse.len()
            &&& self.sparse@[self.ids@[s].index as int] == Some(s as usize)
        } by {
            if s < slot {
                assert(old_self.ids@[s] == self.ids@[s]);
            }
        }
        assert(self.entries() =~= old_self.entries().insert(
            id.index,
            ShapeEntry {
                id,
                kind,
                rotation: 0,
                rotation_speed,
                xp_reward,
                center,
                orbit_radius,
                orbit_angle,
                orbit_speed,
            },
        )) by {
            assert forall|i: usize| #![auto] self.has_slot(i) && i != id.index implies self.sparse@[i as int] == old_self.sparse@[i as int]
                && (self.sparse@[i as int]->0 as int) < slot by {
            }
        }
    }

    /// Removes the shape inserted with exactly `id`; says whether there was
    /// one. A handle of another generation removes nothing.
    pub fn remove(&mut self, id: EntityId) -> (removed: bool)
        requires
            old(self).wf(),
        ensures
            final(self).wf(),
            removed == holds_shape(old(self).entries(), id),
            removed ==> final(self).entries() == old(self).entries().remove(id.index),
            !removed ==> *final(self) == *old(self),
    {
        let slot = match self.slot_of(id) {
            Some(s) => s,
            None => {
                return false;
            },
        };
        let ghost old_self = *self;
        let last = self.ids.len() - 1;
        self.ids.swap_remove(slot);
        self.kinds.swap_remove(slot);
        self.rotations.swap_remove(slot);
        self.rotation_speeds.swap_remove(slot);
        self.xp_rewards.swap_remove(slot);
        self.centers.swap_remove(slot);
        self.orbit_radii.swap_remove(slot);
        self.orbit_angles.swap_remove(slot);
        self.orbit_speeds.swap_remove(slot);
        self.sparse.set(id.index, None);
        if slot != last {
            let moved_id = self.ids[slot];
            assert(old_self.ids@[last as int] == moved_id);
            self.sparse.set(moved_id.index, Some(slot));
        }
        assert(self.wf()) by {
            assert forall|s: int| 0 <= s < self.ids.len() implies {
                &&& (#[trigger] self.ids@[s]).index < self.sparse.len()
                &&& self.sparse@[self.ids@[s].index as int] == Some(s as usize)
            } by {
                if s != slot {
                    assert(self.ids@[s] == old_self.ids@[s]);
                }
            }
            assert forall|i: int|
                0 <= i < self.sparse.len() && (#[trigger] self.sparse@[i]) is Some implies {
                    &&& self.sparse@[i]->0 < self.ids.len()
                    &&& self.ids@[self.sparse@[i]->0 as int].index == i
                } by {
                if i != id.index && (slot == last || i != old_self.ids@[last as int].index) {
                    assert(self.sparse@[i] == old_self.sparse@[i]);
                    let s = old_self.sparse@[i]->0 as int;
                    assert(old_self.ids@[s].index == i);
                    assert(s != slot);
                    assert(s != last);
                }
            }
        }
        assert(self.entries() =~= old_self.entries().remove(id.index)) by {
            assert forall|i: usize| #![auto] self.has_slot(i) <==> (old_self.has_slot(i) && i != id.index) by {
                if i != id.index && (slot == last || i != old_self.ids@[last as int].index) && (i as int) < self.sparse.len() {
                    assert(self.sparse@[i as int] == old_self.sparse@[i as int]);
                }
                if slot != last && i == old_self.ids@[last as int].index {
                    assert(old_self.sparse@[i as int] == Some(last));
                }
            }
            assert forall|i: usize| #![auto] self.has_slot(i) implies self.entry_at(self.sparse@[i as int]->0 as int)
                == old_self.entry_at(old_self.sparse@[i as int]->0 as int) by {
                if slot != last && i == old_self.ids@[last as int].index {
                    assert(old_self.sparse@[i as int] == Some(last));
                } else {
                    assert(self.sparse@[i as int] == old_self.sparse@[i as int]);
                    let s = old_self.sparse@[i as int]->0 as int;
                    assert(old_self.ids@[s].index == i);
                    assert(s != slot);
                }
            }
        }
        true
    }

    /// The shape inserted with exactly `id`.
    pub fn get(&self, id: EntityId) -> (r: Option<ShapeRef<'_>>)
        requires
            self.wf(),
        ensures
            r is Some <==> holds_shape(self.entries(), id),
            r matches Some(t) ==> {
                &&& *t.kind == self.entries()[id.index].kind
                &&& *t.rotation == self.entries()[id.index].rotation
                &&& *t.rotation_speed == self.entries()[id.index].rotation_speed
                &&& *t.xp_reward == self.entries()[id.index].xp_reward
            },
    {
        match self.slot_of(id) {
            None => None,
            Some(slot) => Some(
                ShapeRef {
                    kind: &self.kinds[slot],
                    rotation: &self.rotations[slot],
                    rotation_speed: &self.rotation_speeds[slot],
                    xp_reward: &self.xp_rewards[slot],
                },
            ),
        }
    }

    /// Mutable access to the shape inserted with exactly `id`. Whatever is
    /// written through the handles lands in that shape's entry and nowhere
    /// else.
    pub fn get_mut(&mut self, id: EntityId) -> (r: Option<ShapeMut<'_>>)
        requires
            old(self).wf(),
        ensures
            r is Some <==> holds_shape(old(self).entries(), id),
            r is None ==> *final(self) == *old(self),
            r matches Some(t) ==> {
                &&& *t.kind == old(self).entries()[id.index].kind
                &&& *t.rotation == old(self).entries()[id.index].rotation
                &&& *t.rotation_speed == old(self).entries()[id.index].rotation_speed
                &&& *t.xp_reward == old(self).entries()[id.index].xp_reward
                &&& final(self).wf()
                &&& final(self).entries() == old(self).entries().insert(
                    id.index,
                    ShapeEntry {
                        kind: *final(t.kind),
                        rotation: *final(t.rotation),
                        rotation_speed: *final(t.rotation_speed),
                        xp_reward: *final(t.xp_reward),
                        ..old(self).entries()[id.index]
                    },
                )
            },
    {
        match self.slot_of(id) {
            None => None,
            Some(slot) => {
                let kind = &mut self.kinds[slot];
                let rotation = &mut self.rotations[slot];
                let rotation_speed = &mut self.rotation_speeds[slot];
                let xp_reward = &mut self.xp_rewards[slot];
                Some(ShapeMut { kind, rotation, rotation_speed, xp_reward })
            },
        }
    }

    pub fn len(&self) -> (n: usize)
        requires
            self.wf(),
        ensures
            n == self.rows().len(),
            self.entries().dom().finite(),
            n == self.entries().dom().len(),
    {
        proof {
            self.lemma_len_is_entry_count();
        }
        self.ids.len()
    }

    pub fn is_empty(&self) -> (b: bool)
        requires
            self.wf(),
        ensures
            b <==> self.entries().dom().is_empty(),
    {
        proof {
            self.lemma_len_is_entry_count();
        }
        self.ids.len() == 0
    }

    /// Moves the orbit centre of the shape inserted with exactly `id` by
    /// `push`; any other handle changes nothing.
    pub fn push_center(&mut self, id: EntityId, push: Vec2)
        requires
            old(self).wf(),
        ensures
            final(self).wf(),
            !holds_shape(old(self).entries(), id) ==> *final(self) == *old(self),
            holds_shape(old(self).entries(), id) ==> final(self).entries() == old(self).entries().insert(
                id.index,
                ShapeEntry { center: final(self).entries()[id.index].center, ..old(self).entries()[id.index] },
            ),
    {
        match self.slot_of(id) {
            None => {},
            Some(slot) => {
                let ghost old_self = *self;
                let c = vec2_add(self.centers[slot], push);
                self.centers.set(slot, c);
                assert(self.entries() =~= old_self.entries().insert(
                    id.index,
                    ShapeEntry { center: c, ..old_self.entries()[id.index] },
                ));
            },
        }
    }

    /// The orbit state of dense row `i`.
    pub fn motion(&self, i: usize) -> (m: ShapeMotion)
        requires
            self.wf(),
            i < self.rows().len(),
        ensures
            m.id == self.rows()[i as int].id,
            m.rotation == self.rows()[i as int].rotation,
            m.rotation_speed == self.rows()[i as int].rotation_speed,
            m.center == self.rows()[i as int].center,
            m.orbit_radius == self.rows()[i as int].orbit_radius,
            m.orbit_angle == self.rows()[i as int].orbit_angle,
            m.orbit_speed == self.rows()[i as int].orbit_speed,
    {
        ShapeMotion {
            id: self.ids[i],
            rotation: self.rotations[i],
            rotation_speed: self.rotation_speeds[i],
            center: self.centers[i],
            orbit_radius: self.orbit_radii[i],
            orbit_angle: self.orbit_angles[i],
            orbit_speed: self.orbit_speeds[i],
        }
    }

    /// Applies one motion step per dense row: each row takes its new
    /// rotation and orbit angle, and its entity's position (when the slot
    /// index is within `positions`) takes the computed target.
    pub fn apply_tick(&mut self, steps: &Vec<ShapeStep>, positions: &mut Vec<Vec2>)
        requires
            old(self).wf(),
            steps.len() == old(self).rows().len(),
        ensures
            final(self).wf(),
            final(self).rows().len() == old(self).rows().len(),
            forall|s: int|
                0 <= s < final(self).rows().len() ==> #[trigger] final(self).rows()[s] == (ShapeEntry {
                    rotation: steps@[s].rotation,
                    orbit_angle: steps@[s].orbit_angle,
                    ..old(self).rows()[s]
                }),
            final(positions).len() == old(positions).len(),
            forall|p: int|
                0 <= p < old(positions).len() ==> #[trigger] final(positions)@[p] == (if old(self).entries().dom().contains(
                    p as usize,
                ) {
                    steps@[old(self).sparse_slot(p as usize)].position
                } else {
                    old(positions)@[p]
                }),
    {
        let ghost old_self = *self;
        let ghost old_positions = positions@;
        let mut i: usize = 0;
        while i < self.ids.len()
            invariant
                self.wf(),
                old_self.wf(),
                steps.len() == self.ids.len(),
                i <= self.ids.len(),
                self.ids == old_self.ids,
                self.sparse == old_self.sparse,
                self.kinds == old_self.kinds,
                self.rotation_speeds == old_self.rotation_speeds,
                self.xp_rewards == old_self.xp_rewards,
                self.centers == old_self.centers,
                self.orbit_radii == old_self.orbit_radii,
                self.orbit_speeds == old_self.orbit_speeds,
                self.rotations.len() == old_self.rotations.len(),
                self.orbit_angles.len() == old_self.orbit_angles.len(),
                forall|s: int| 0 <= s < i ==> #[trigger] self.rotations@[s] == steps@[s].rotation,
                forall|s: int| 0 <= s < i ==> #[trigger] self.orbit_angles@[s] == steps@[s].orbit_angle,
                forall|s: int| i <= s < self.ids.len() ==> #[trigger] self.rotations@[s] == old_self.rotations@[s],
                forall|s: int| i <= s < self.ids.len() ==> #[trigger] self.orbit_angles@[s] == old_self.orbit_angles@[s],
                positions.len() == old_positions.len(),
                forall|p: int|
                    0 <= p < positions.len() ==> #[trigger] positions@[p] == (if old_self.has_slot(p as usize)
                        && old_self.sparse_slot(p as usize) < i {
                        steps@[old_self.sparse_slot(p as usize)].position
                    } else {
                        old_positions[p]
                    }),
            decreases self.ids.len() - i,
        {
            let step = &steps[i];
            self.rotations.set(i, step.rotation);
            self.orbit_angles.set(i, step.orbit_angle);
            let entity_index = self.ids[i].index;
            if entity_index < positions.len() {
                positions.set(entity_index, step.position);
            }
            proof {
                assert(self.sparse@[entity_index as int] == Some(i));
                assert forall|p: int| 0 <= p < positions.len() implies #[trigger] positions@[p] == (if old_self.has_slot(p as usize)
                    && old_self.sparse_slot(p as usize) < i + 1 {
                    steps@[old_self.sparse_slot(p as usize)].position
                } else {
                    old_positions[p]
                }) by {
                    if old_self.has_slot(p as usize) && old_self.sparse_slot(p as usize) == i {
                        assert(old_self.ids@[i as int].index == p);
                    }
                }
            }
            i = i + 1;
        }
        assert(self.rows() =~= Seq::new(old_self.rows().len(), |s: int| ShapeEntry {
            rotation: steps@[s].rotation,
            orbit_angle: steps@[s].orbit_angle,
            ..old_self.rows()[s]
        }));
    }
}

/// A shape inserted into a slot that held none is found by the handle it
/// was inserted with, unrotated and with the given stats; a handle of
/// another generation for the same slot finds nothing.
pub proof fn law_shape_insert_then_get(entries: Map<usize, ShapeEntry>, e: ShapeEntry, other: EntityId)
    requires
        !entries.dom().contains(e.id.index),
    ensures
        holds_shape(entries.insert(e.id.index, e), e.id),
        entries.insert(e.id.index, e)[e.id.index] == e,
        other.index == e.id.index && other.generation != e.id.generation ==> !holds_shape(
            entries.insert(e.id.index, e),
            other,
        ),
{
}

/// After removing a shape its handle finds nothing.
pub proof fn law_shape_remove_then_get(entries: Map<usize, ShapeEntry>, id: EntityId)
    ensures
        !holds_shape(entries.remove(id.index), id),
{
}

} // verus!
