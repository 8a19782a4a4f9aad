//! Bullets, stored as parallel columns. Rows move when a bullet is removed:
//! the last row takes the removed one's place.
use vstd::prelude::*;

use crate::entities::entity::EntityId;
use glam::Vec2;

verus! {

/// The network id handed to the first bullet.
pub const FIRST_BULLET_NET_ID: u32 = 0x4000_0000;

/// Dense bullet storage. `lifetimes` holds the bit pattern of each bullet's
/// remaining lifetime in seconds (an `f32`).
#[derive(Debug, Clone)]
pub struct Bullets {
    positions: Vec<Vec2>,
    velocities: Vec<Vec2>,
    lifetimes: Vec<u32>,
    damages: Vec<u32>,
    owners: Vec<EntityId>,
    net_ids: Vec<u32>,
    next_net_id: u32,
}

/// One row of the store.
pub struct BulletEntry {
    pub position: Vec2,
    pub velocity: Vec2,
    pub lifetime: u32,
    pub damage: u32,
    pub owner: EntityId,
    pub net_id: u32,
}

/// `s` after removing index `i` by moving the last element into its place.
pub open spec fn swap_removed<T>(s: Seq<T>, i: int) -> Seq<T> {
    s.update(i, s.last()).drop_last()
}

/// `new` holds exactly the rows of `old` whose flag in `dropped` is clear:
/// each row of `new` is such a row of `old`, and each such row of `old` is
/// in `new`.
pub open spec fn rows_kept(new: Seq<BulletEntry>, old: Seq<BulletEntry>, dropped: Seq<bool>) -> bool {
    &&& exists|origin: Seq<int>| traced_to(new, old, dropped, origin)
    &&& forall|o: int|
        #![trigger old[o]]
        0 <= o < old.len() && !dropped[o] ==> exists|r: int|
            #![trigger new[r]]
            0 <= r < new.len() && new[r] == old[o]
}

/// `origin` names, for each row of `new`, a distinct row of `old` whose flag
/// in `dropped` is clear and which it equals.
pub open spec fn traced_to(new: Seq<BulletEntry>, old: Seq<BulletEntry>, dropped: Seq<bool>, origin: Seq<int>) -> bool {
    &&& origin.len() == new.len()
    &&& forall|r: int|
        0 <= r < new.len() ==> {
            &&& 0 <= #[trigger] origin[r] < old.len()
            &&& !dropped[origin[r]]
            &&& new[r] == old[origin[r]]
        }
    &&& forall|r1: int, r2: int|
        0 <= r1 < new.len() && 0 <= r2 < new.len() && r1 != r2 ==> origin[r1] != origin[r2]
}

/// One flag per row index below `n`: set when `spent` lists the index.
pub open spec fn spent_flags(spent: Seq<usize>, n: nat) -> Seq<bool> {
    Seq::new(n, |o: int| listed(spent, o))
}

/// Whether row index `o` is among `spent`.
pub open spec fn listed(spent: Seq<usize>, o: int) -> bool {
    spent.contains(o as usize)
}

/// The rows left by scanning `rows` from index `i` on: a row whose flag is
/// set is removed, the last row and its flag moving into its place, and the
/// place is looked at again; a row whose flag is clear is passed over.
pub open spec fn expired_sweep(rows: Seq<BulletEntry>, flags: Seq<bool>, i: int) -> Seq<BulletEntry>
    decreases rows.len() - i,
{
    if i < 0 || i >= rows.len() || flags.len() != rows.len() {
        rows
    } else if flags[i] {
        expired_sweep(swap_removed(rows, i), swap_removed(flags, i), i)
    } else {
        expired_sweep(rows, flags, i + 1)
    }
}

/// The rows left after going through the indices from `n - 1` down to `i`
/// and removing each one `spent` lists, the last row moving into its place.
pub open spec fn spent_sweep(rows: Seq<BulletEntry>, spent: Seq<usize>, n: int, i: int) -> Seq<BulletEntry>
    decreases n - i,
{
    if i >= n {
        rows
    } else {
        let s = spent_sweep(rows, spent, n, i + 1);
        if listed(spent, i) {
            swap_removed(s, i)
        } else {
            s
        }
    }
}

/// Whether `v` holds `x`.
pub fn contains_index(v: &Vec<usize>, x: usize) -> (b: bool)
    ensures
        b == v@.contains(x),
{
    let mut k: usize = 0;
    while k < v.len()
        invariant
            k <= v.len(),
            forall|j: int| 0 <= j < k ==> v@[j] != x,
        decreases v.len() - k,
    {
        if v[k] == x {
            return true;
        }
        k = k + 1;
    }
    false
}

impl Bullets {
    /// The columns line up, and every network id is unique and below the
    /// next one to hand out.
    pub closed spec fn wf(&self) -> bool {
        &&& self.velocities.len() == self.positions.len()
        &&& self.lifetimes.len() == self.positions.len()
        &&& self.damages.len() == self.positions.len()
        &&& self.owners.len() == self.positions.len()
        &&& self.net_ids.len() == self.positions.len()
        &&& forall|i: int| 0 <= i < self.net_ids.len() ==> #[trigger] self.net_ids@[i] < self.next_net_id
        &&& forall|i: int, j: int|
            0 <= i < self.net_ids.len() && 0 <= j < self.net_ids.len() && i != j ==> self.net_ids@[i]
                != self.net_ids@[j]
    }

    closed spec fn row(&self, i: int) -> BulletEntry {
        BulletEntry {
            position: self.positions@[i],
            velocity: self.velocities@[i],
            lifetime: self.lifetimes@[i],
            damage: self.damages@[i],
            owner: self.owners@[i],
            net_id: self.net_ids@[i],
        }
    }

    /// The bullets, row by row.
    pub closed spec fn rows(&self) -> Seq<BulletEntry> {
        Seq::new(self.positions.len() as nat, |i: int| self.row(i))
    }

    /// The network id the next spawned bullet gets.
    pub closed spec fn spec_next_net_id(&self) -> u32 {
        self.next_net_id
    }

    pub fn new() -> (b: Self)
        ensures
            b.wf(),
            b.rows() == Seq::<BulletEntry>::empty(),
            b.spec_next_net_id() == FIRST_BULLET_NET_ID,
    {
        let b = Self {
            positions: Vec::new(),
            velocities: Vec::new(),
            lifetimes: Vec::new(),
            damages: Vec::new(),
            owners: Vec::new(),
            net_ids: Vec::new(),
            next_net_id: FIRST_BULLET_NET_ID,
        };
        assert(b.rows() =~= Seq::<BulletEntry>::empty());
        b
    }

    /// Whether another bullet can be given a fresh network id.
    pub fn can_spawn(&self) -> (b: bool)
        ensures
            b == (self.spec_next_net_id() < u32::MAX),
    {
        self.next_net_id < u32::MAX
    }

    /// Appends a bullet and returns its network id.
    pub fn spawn(&mut self, position: Vec2, velocity: Vec2, damage: u32, lifetime: u32, owner: EntityId) -> (id: u32)
        requires
            old(self).wf(),
            old(self).spec_next_net_id() < u32::MAX,
        ensures
            final(self).wf(),
            id == old(self).spec_next_net_id(),
            final(self).spec_next_net_id() == id + 1,
            final(self).rows() == old(self).rows().push(
                BulletEntry { position, velocity, lifetime, damage, owner, net_id: id },
            ),
    {
        let ghost old_self = *self;
        let id = self.next_net_id;
        self.next_net_id = self.next_net_id + 1;
        self.positions.push(position);
        self.velocities.push(velocity);
        self.lifetimes.push(lifetime);
        self.damages.push(damage);
        self.owners.push(owner);
        self.net_ids.push(id);
        assert(self.rows() =~= old_self.rows().push(
            BulletEntry { position, velocity, lifetime, damage, owner, net_id: id },
        )) by {
            assert forall|i: int| 0 <= i < old_self.positions.len() implies self.row(i) == old_self.row(i) by {}
        }
        id
    }

    pub fn len(&self) -> (n: usize)
        requires
            self.wf(),
        ensures
            n == self.rows().len(),
    {
        self.positions.len()
    }

    pub fn is_empty(&self) -> (b: bool)
        requires
            self.wf(),
        ensures
            b <==> self.rows().len() == 0,
    {
        self.positions.len() == 0
    }

    /// Removes row `i`; the last row takes its place.
    pub fn remove(&mut self, i: usize)
        requires
            old(self).wf(),
            i < old(self).rows().len(),
        ensures
            final(self).wf(),
            final(self).rows() == swap_removed(old(self).rows(), i as int),
            final(self).spec_next_net_id() == old(self).spec_next_net_id(),
    {
        let ghost old_self = *self;
        self.positions.swap_remove(i);
        self.velocities.swap_remove(i);
        self.lifetimes.swap_remove(i);
        self.damages.swap_remove(i);
        self.owners.swap_remove(i);
        self.net_ids.swap_remove(i);
        let ghost last = old_self.positions.len() - 1;
        assert forall|a: int| 0 <= a < self.net_ids.len() implies self.net_ids@[a] == old_self.net_ids@[
            if a == i { last } else { a }] by {}
        assert(self.rows() =~= swap_removed(old_self.rows(), i as int));
    }

    /// Position, velocity and lifetime of row `i`.
    pub fn motion(&self, i: usize) -> (m: (Vec2, Vec2, u32))
        requires
            self.wf(),
            i < self.rows().len(),
        ensures
            m.0 == self.rows()[i as int].position,
            m.1 == self.rows()[i as int].velocity,
            m.2 == self.rows()[i as int].lifetime,
    {
        (self.positions[i], self.velocities[i], self.lifetimes[i])
    }

    /// Replaces the position and lifetime of row `i`.
    pub fn set_motion(&mut self, i: usize, position: Vec2, lifetime: u32)
        requires
            old(self).wf(),
            i < old(self).rows().len(),
        ensures
            final(self).wf(),
            final(self).spec_next_net_id() == old(self).spec_next_net_id(),
            final(self).rows() == old(self).rows().update(
                i as int,
                BulletEntry { position, lifetime, ..old(self).rows()[i as int] },
            ),
    {
        let ghost old_self = *self;
        self.positions.set(i, position);
        self.lifetimes.set(i, lifetime);
        assert(self.rows() =~= old_self.rows().update(
            i as int,
            BulletEntry { position, lifetime, ..old_self.rows()[i as int] },
        ));
    }

    /// Removes every row whose flag in `expired` is set, scanning from the
    /// front; a row moved into a freed place is looked at again. The rows
    /// left are exactly the rows whose flag was clear.
    pub fn remove_expired(&mut self, expired: &Vec<bool>)
        requires
            old(self).wf(),
            expired.len() == old(self).rows().len(),
        ensures
            final(self).wf(),
            final(self).spec_next_net_id() == old(self).spec_next_net_id(),
            final(self).rows() == expired_sweep(old(self).rows(), expired@, 0),
            rows_kept(final(self).rows(), old(self).rows(), expired@),
    {
        let mut flags = expired.clone();
        let ghost mut origin: Seq<int> = Seq::new(old(self).rows().len(), |r: int| r);
        let mut i: usize = 0;
        assert forall|o: int| 0 <= o < old(self).rows().len() && !expired@[o] implies exists|r: int|
            0 <= r < self.rows().len() && #[trigger] origin[r] == o by {
            assert(origin[o] == o);
        }
        while i < self.len()
            invariant
                self.wf(),
                self.spec_next_net_id() == old(self).spec_next_net_id(),
                old(self).rows().len() == expired.len(),
                flags.len() == self.rows().len(),
                origin.len() == self.rows().len(),
                i <= self.rows().len(),
                forall|r: int|
                    0 <= r < self.rows().len() ==> {
                        &&& 0 <= #[trigger] origin[r] < old(self).rows().len()
                        &&& self.rows()[r] == old(self).rows()[origin[r]]
                        &&& flags@[r] == expired@[origin[r]]
                    },
                forall|r1: int, r2: int|
                    0 <= r1 < self.rows().len() && 0 <= r2 < self.rows().len() && r1 != r2 ==> origin[r1]
                        != origin[r2],
                forall|r: int| 0 <= r < i ==> !flags@[r],
                forall|o: int|
                    0 <= o < old(self).rows().len() && !expired@[o] ==> exists|r: int|
                        0 <= r < self.rows().len() && #[trigger] origin[r] == o,
                expired_sweep(self.rows(), flags@, i as int) == expired_sweep(old(self).rows(), expired@, 0),
            decreases self.rows().len() - i,
        {
            if flags[i] {
                let ghost pre_origin = origin;
                let ghost pre_len = self.rows().len();
                self.remove(i);
                flags.swap_remove(i);
                proof {
                    origin = swap_removed(origin, i as int);
                    assert forall|o: int|
                        0 <= o < old(self).rows().len() && !expired@[o] implies exists|r: int|
                            0 <= r < self.rows().len() && #[trigger] origin[r] == o by {
                        let r = choose|r: int| 0 <= r < pre_len && #[trigger] pre_origin[r] == o;
                        if r == pre_len - 1 {
                            assert(origin[i as int] == o);
                        } else {
                            assert(r != i);
                            assert(origin[r] == o);
                        }
                    }
                }
            } else {
                i = i + 1;
            }
        }
        proof {
            assert forall|o: int| #![trigger old(self).rows()[o]] 0 <= o < old(self).rows().len() && !expired@[o] implies exists|r: int|
                #![trigger self.rows()[r]]
                0 <= r < self.rows().len() && self.rows()[r] == old(self).rows()[o] by {
                let r = choose|r: int| 0 <= r < self.rows().len() && #[trigger] origin[r] == o;
                assert(self.rows()[r] == old(self).rows()[o]);
            }
            assert(traced_to(self.rows(), old(self).rows(), expired@, origin));
            assert(rows_kept(self.rows(), old(self).rows(), expired@));
        }
    }

    /// Removes the rows whose indices `spent` lists, largest index first,
    /// each index once. The rows left are exactly the rows not listed.
    pub fn remove_spent(&mut self, spent: &Vec<usize>)
        requires
            old(self).wf(),
            forall|k: int| 0 <= k < spent.len() ==> #[trigger] spent@[k] < old(self).rows().len(),
        ensures
            final(self).wf(),
            final(self).spec_next_net_id() == old(self).spec_next_net_id(),
            final(self).rows() == spent_sweep(old(self).rows(), spent@, old(self).rows().len() as int, 0),
            rows_kept(final(self).rows(), old(self).rows(), spent_flags(spent@, old(self).rows().len())),
    {
        let ghost mut origin: Seq<int> = Seq::new(old(self).rows().len(), |r: int| r);
        let mut i: usize = self.len();
        assert forall|o: int| i <= o < old(self).rows().len() && !listed(spent@, o) implies exists|r: int|
            0 <= r < self.rows().len() && #[trigger] origin[r] == o by {
            assert(origin[o] == o);
        }
        while i > 0
            invariant
                self.wf(),
                self.spec_next_net_id() == old(self).spec_next_net_id(),
                origin.len() == self.rows().len(),
                i <= self.rows().len(),
                i <= old(self).rows().len(),
                forall|r: int| 0 <= r < i ==> #[trigger] origin[r] == r,
                forall|r: int|
                    0 <= r < self.rows().len() ==> {
                        &&& 0 <= #[trigger] origin[r] < old(self).rows().len()
                        &&& self.rows()[r] == old(self).rows()[origin[r]]
                    },
                forall|r: int| i <= r < self.rows().len() ==> #[trigger] origin[r] >= i && !listed(spent@, origin[r]),
                forall|r1: int, r2: int|
                    0 <= r1 < self.rows().len() && 0 <= r2 < self.rows().len() && r1 != r2 ==> origin[r1]
                        != origin[r2],
                forall|o: int|
                    i <= o < old(self).rows().len() && !listed(spent@, o) ==> exists|r: int|
                        0 <= r < self.rows().len() && #[trigger] origin[r] == o,
                self.rows() == spent_sweep(old(self).rows(), spent@, old(self).rows().len() as int, i as int),
            decreases i,
        {
            i = i - 1;
            if contains_index(spent, i) {
                let ghost pre_origin = origin;
                let ghost pre_len = self.rows().len();
                self.remove(i);
                proof {
                    origin = swap_removed(origin, i as int);
                    assert forall|o: int|
                        i <= o < old(self).rows().len() && !listed(spent@, o) implies exists|r: int|
                            0 <= r < self.rows().len() && #[trigger] origin[r] == o by {
                        let r = choose|r: int| 0 <= r < pre_len && #[trigger] pre_origin[r] == o;
                        if r == pre_len - 1 {
                            assert(origin[i as int] == o);
                        } else {
                            assert(origin[r] == o);
                        }
                    }
                }
            } else {
                assert(origin[i as int] == i as int);
            }
        }
        proof {
            assert forall|o: int| #![trigger old(self).rows()[o]] 0 <= o < old(self).rows().len() && !listed(spent@, o) implies exists|r: int|
                #![trigger self.rows()[r]]
                0 <= r < self.rows().len() && self.rows()[r] == old(self).rows()[o] by {
                let r = choose|r: int| 0 <= r < self.rows().len() && #[trigger] origin[r] == o;
                assert(self.rows()[r] == old(self).rows()[o]);
            }
            assert(traced_to(self.rows(), old(self).rows(), spent_flags(spent@, old(self).rows().len()), origin));
            assert(rows_kept(self.rows(), old(self).rows(), spent_flags(spent@, old(self).rows().len())));
        }
    }

    /// Index, position, damage and owner of every bullet, in row order.
    pub fn iter_indexed(&self) -> (v: Vec<(usize, Vec2, u32, EntityId)>)
        requires
            self.wf(),
        ensures
            v.len() == self.rows().len(),
            forall|i: int|
                0 <= i < v.len() ==> #[trigger] v@[i] == (
                    i as usize,
                    self.rows()[i].position,
                    self.rows()[i].damage,
                    self.rows()[i].owner,
                ),
    {
        let mut v: Vec<(usize, Vec2, u32, EntityId)> = Vec::new();
        let mut i: usize = 0;
        while i < self.positions.len()
            invariant
                self.wf(),
                i <= self.positions.len(),
                v.len() == i,
                forall|k: int|
                    0 <= k < i ==> #[trigger] v@[k] == (
                        k as usize,
                        self.rows()[k].position,
                        self.rows()[k].damage,
                        self.rows()[k].owner,
                    ),
            decreases self.positions.len() - i,
        {
            v.push((i, self.positions[i], self.damages[i], self.owners[i]));
            i = i + 1;
        }
        v
    }

    /// Network id and position of every bullet, in row order.
    pub fn iter(&self) -> (v: Vec<(u32, Vec2)>)
        requires
            self.wf(),
        ensures
            v.len() == self.rows().len(),
            forall|i: int|
                0 <= i < v.len() ==> #[trigger] v@[i] == (self.rows()[i].net_id, self.rows()[i].position),
    {
        let mut v: Vec<(u32, Vec2)> = Vec::new();
        let mut i: usize = 0;
        while i < self.positions.len()
            invariant
                self.wf(),
                i <= self.positions.len(),
                v.len() == i,
                forall|k: int|
                    0 <= k < i ==> #[trigger] v@[k] == (self.rows()[k].net_id, self.rows()[k].position),
            decreases self.positions.len() - i,
        {
            v.push((self.net_ids[i], self.positions[i]));
            i = i + 1;
        }
        v
    }
}

} // verus!
