//! A fixed-size spatial hash over grid cells, rebuilt every tick. Cells are
//! hashed into a table of buckets; a bucket may hold entities of several
//! cells, so a neighbourhood query can return extra candidates but never
//! misses one.
use vstd::prelude::*;

verus! {

/// Number of buckets. A power of two, so that masking reduces a hash.
pub const TABLE_SIZE: usize = 2048;

/// First multiplier of the cell hash.
pub const HASH_PRIME_X: u32 = 73_856_093;

/// Second multiplier of the cell hash.
pub const HASH_PRIME_Y: u32 = 19_349_663;

pub struct SpatialHash {
    buckets: Vec<Vec<usize>>,
    /// The ids filed since the table was made or last cleared, in order.
    inserted: Ghost<Seq<usize>>,
}

/// Every entry of `s` is among `pool`.
pub open spec fn all_among(s: Seq<usize>, pool: Seq<usize>) -> bool {
    forall|k: int| 0 <= k < s.len() ==> pool.contains(#[trigger] s[k])
}

/// Every entry of every bucket is among `pool`.
pub open spec fn buckets_among(buckets: Seq<Seq<usize>>, pool: Seq<usize>) -> bool {
    forall|i: int| 0 <= i < buckets.len() ==> all_among(#[trigger] buckets[i], pool)
}

/// The bucket of cell (`cell_x`, `cell_y`).
pub open spec fn spec_hash_cell(cell_x: i32, cell_y: i32) -> usize {
    let p1 = (cell_x as u32).wrapping_mul(HASH_PRIME_X);
    let p2 = (cell_y as u32).wrapping_mul(HASH_PRIME_Y);
    ((p1 ^ p2) as usize) & ((TABLE_SIZE - 1) as usize)
}

/// The entries of the buckets of cells `cx` = `x`, `cy` in
/// `min_y..=max_y`, in increasing `cy`.
pub open spec fn column(buckets: Seq<Seq<usize>>, x: int, min_y: int, max_y: int) -> Seq<usize>
    decreases max_y - min_y + 1,
{
    if max_y < min_y {
        Seq::empty()
    } else {
        column(buckets, x, min_y, max_y - 1) + buckets[spec_hash_cell(x as i32, max_y as i32) as int]
    }
}

/// The entries of the buckets of every cell of the rectangle, column by
/// column in increasing `cx`.
pub open spec fn nearby(buckets: Seq<Seq<usize>>, min_x: int, max_x: int, min_y: int, max_y: int) -> Seq<usize>
    decreases max_x - min_x + 1,
{
    if max_x < min_x {
        Seq::empty()
    } else {
        nearby(buckets, min_x, max_x - 1, min_y, max_y) + column(buckets, max_x, min_y, max_y)
    }
}

/// Every entry of the bucket of a cell inside the rectangle is among the
/// rectangle's nearby entries.
pub proof fn lemma_nearby_finds(
    buckets: Seq<Seq<usize>>,
    min_x: int,
    max_x: int,
    min_y: int,
    max_y: int,
    cx: int,
    cy: int,
    e: usize,
)
    requires
        min_x <= cx <= max_x,
        min_y <= cy <= max_y,
        buckets[spec_hash_cell(cx as i32, cy as i32) as int].contains(e),
    ensures
        nearby(buckets, min_x, max_x, min_y, max_y).contains(e),
    decreases max_x - min_x,
{
    if cx < max_x {
        lemma_nearby_finds(buckets, min_x, max_x - 1, min_y, max_y, cx, cy, e);
        let front = nearby(buckets, min_x, max_x - 1, min_y, max_y);
        let k = choose|k: int| 0 <= k < front.len() && front[k] == e;
        assert((front + column(buckets, max_x, min_y, max_y))[k] == e);
    } else {
        lemma_column_finds(buckets, cx, min_y, max_y, cy, e);
        let front = nearby(buckets, min_x, max_x - 1, min_y, max_y);
        let col = column(buckets, max_x, min_y, max_y);
        let k = choose|k: int| 0 <= k < col.len() && col[k] == e;
        assert((front + col)[front.len() + k] == e);
    }
}

proof fn lemma_column_finds(buckets: Seq<Seq<usize>>, x: int, min_y: int, max_y: int, cy: int, e: usize)
    requires
        min_y <= cy <= max_y,
        buckets[spec_hash_cell(x as i32, cy as i32) as int].contains(e),
    ensures
        column(buckets, x, min_y, max_y).contains(e),
    decreases max_y - min_y,
{
    let b = buckets[spec_hash_cell(x as i32, max_y as i32) as int];
    if cy < max_y {
        lemma_column_finds(buckets, x, min_y, max_y - 1, cy, e);
        let front = column(buckets, x, min_y, max_y - 1);
        let k = choose|k: int| 0 <= k < front.len() && front[k] == e;
        assert((front + b)[k] == e);
    } else {
        let front = column(buckets, x, min_y, max_y - 1);
        let k = choose|k: int| 0 <= k < b.len() && b[k] == e;
        assert((front + b)[front.len() + k] == e);
    }
}

/// An entity inserted under a cell is found by every later query whose
/// rectangle covers that cell.
pub proof fn law_query_finds_inserted(
    buckets: Seq<Seq<usize>>,
    entity_id: usize,
    cell_x: i32,
    cell_y: i32,
    min_x: int,
    max_x: int,
    min_y: int,
    max_y: int,
)
    requires
        buckets.len() == TABLE_SIZE,
        min_x <= cell_x <= max_x,
        min_y <= cell_y <= max_y,
    ensures
        nearby(
            buckets.update(
                spec_hash_cell(cell_x, cell_y) as int,
                buckets[spec_hash_cell(cell_x, cell_y) as int].push(entity_id),
            ),
            min_x,
            max_x,
            min_y,
            max_y,
        ).contains(entity_id),
{
    let h = spec_hash_cell(cell_x, cell_y) as int;
    lemma_hash_in_table(cell_x, cell_y);
    let after = buckets.update(h, buckets[h].push(entity_id));
    assert(after[h].last() == entity_id);
    assert(after[h].contains(entity_id));
    assert(cell_x as int as i32 == cell_x);
    assert(cell_y as int as i32 == cell_y);
    lemma_nearby_finds(after, min_x, max_x, min_y, max_y, cell_x as int, cell_y as int, entity_id);
}

/// A query only finds what the buckets hold.
pub proof fn lemma_nearby_among(
    buckets: Seq<Seq<usize>>,
    pool: Seq<usize>,
    min_x: int,
    max_x: int,
    min_y: int,
    max_y: int,
)
    requires
        buckets.len() == TABLE_SIZE,
        buckets_among(buckets, pool),
    ensures
        all_among(nearby(buckets, min_x, max_x, min_y, max_y), pool),
    decreases max_x - min_x + 1,
{
    if max_x >= min_x {
        lemma_nearby_among(buckets, pool, min_x, max_x - 1, min_y, max_y);
        lemma_column_among(buckets, pool, max_x, min_y, max_y);
        let a = nearby(buckets, min_x, max_x - 1, min_y, max_y);
        let b = column(buckets, max_x, min_y, max_y);
        assert forall|k: int| 0 <= k < (a + b).len() implies pool.contains(#[trigger] (a + b)[k]) by {
            if k < a.len() {
                assert((a + b)[k] == a[k]);
            } else {
                assert((a + b)[k] == b[k - a.len()]);
            }
        }
    }
}

proof fn lemma_column_among(buckets: Seq<Seq<usize>>, pool: Seq<usize>, x: int, min_y: int, max_y: int)
    requires
        buckets.len() == TABLE_SIZE,
        buckets_among(buckets, pool),
    ensures
        all_among(column(buckets, x, min_y, max_y), pool),
    decreases max_y - min_y + 1,
{
    if max_y >= min_y {
        lemma_column_among(buckets, pool, x, min_y, max_y - 1);
        lemma_hash_in_table(x as i32, max_y as i32);
        let a = column(buckets, x, min_y, max_y - 1);
        let b = buckets[spec_hash_cell(x as i32, max_y as i32) as int];
        assert(all_among(b, pool));
        assert forall|k: int| 0 <= k < (a + b).len() implies pool.contains(#[trigger] (a + b)[k]) by {
            if k < a.len() {
                assert((a + b)[k] == a[k]);
            } else {
                assert((a + b)[k] == b[k - a.len()]);
            }
        }
    }
}

/// With every bucket empty, a query finds nothing.
pub proof fn lemma_nearby_of_empty(buckets: Seq<Seq<usize>>, min_x: int, max_x: int, min_y: int, max_y: int)
    requires
        forall|i: int| 0 <= i < buckets.len() ==> (#[trigger] buckets[i]).len() == 0,
        buckets.len() == TABLE_SIZE,
    ensures
        nearby(buckets, min_x, max_x, min_y, max_y).len() == 0,
    decreases max_x - min_x + 1,
{
    if max_x >= min_x {
        lemma_nearby_of_empty(buckets, min_x, max_x - 1, min_y, max_y);
        lemma_column_of_empty(buckets, max_x, min_y, max_y);
    }
}

proof fn lemma_column_of_empty(buckets: Seq<Seq<usize>>, x: int, min_y: int, max_y: int)
    requires
        forall|i: int| 0 <= i < buckets.len() ==> (#[trigger] buckets[i]).len() == 0,
        buckets.len() == TABLE_SIZE,
    ensures
        column(buckets, x, min_y, max_y).len() == 0,
    decreases max_y - min_y + 1,
{
    if max_y >= min_y {
        lemma_column_of_empty(buckets, x, min_y, max_y - 1);
        lemma_hash_in_table(x as i32, max_y as i32);
    }
}

/// Every cell hashes to a bucket of the table.
pub proof fn lemma_hash_in_table(cell_x: i32, cell_y: i32)
    ensures
        spec_hash_cell(cell_x, cell_y) < TABLE_SIZE,
{
    let p1 = (cell_x as u32).wrapping_mul(HASH_PRIME_X);
    let p2 = (cell_y as u32).wrapping_mul(HASH_PRIME_Y);
    let v = (p1 ^ p2) as usize;
    assert(v & 2047usize < 2048usize) by (bit_vector);
}

impl SpatialHash {
    /// The table has its full size.
    pub closed spec fn wf(&self) -> bool {
        &&& self.buckets.len() == TABLE_SIZE
        &&& buckets_among(self.view_buckets(), self.inserted@)
    }

    /// The ids filed since the table was made or last cleared, in order.
    pub closed spec fn spec_inserted(&self) -> Seq<usize> {
        self.inserted@
    }

    /// A well-formed table has its full size, and its buckets hold only ids
    /// filed since it was made or last cleared.
    pub proof fn lemma_table(&self)
        requires
            self.wf(),
        ensures
            self.view_buckets().len() == TABLE_SIZE,
            buckets_among(self.view_buckets(), self.spec_inserted()),
    {
    }

    /// The contents of each bucket.
    pub closed spec fn view_buckets(&self) -> Seq<Seq<usize>> {
        Seq::new(self.buckets.len() as nat, |i: int| self.buckets@[i]@)
    }

    pub fn new() -> (h: Self)
        ensures
            h.wf(),
            h.view_buckets().len() == TABLE_SIZE,
            forall|i: int| 0 <= i < TABLE_SIZE ==> (#[trigger] h.view_buckets()[i]).len() == 0,
            h.spec_inserted() == Seq::<usize>::empty(),
    {
        let mut buckets: Vec<Vec<usize>> = Vec::new();
        let mut i: usize = 0;
        while i < TABLE_SIZE
            invariant
                i <= TABLE_SIZE,
                buckets.len() == i,
                forall|k: int| 0 <= k < i ==> (#[trigger] buckets@[k])@.len() == 0,
            decreases TABLE_SIZE - i,
        {
            buckets.push(Vec::new());
            i = i + 1;
        }
        let h = Self { buckets, inserted: Ghost(Seq::empty()) };
        assert(buckets_among(h.view_buckets(), h.inserted@));
        h
    }

    fn hash_cell(&self, cell_x: i32, cell_y: i32) -> (h: usize)
        ensures
            h == spec_hash_cell(cell_x, cell_y),
            h < TABLE_SIZE,
    {
        let p1 = (cell_x as u32).wrapping_mul(HASH_PRIME_X);
        let p2 = (cell_y as u32).wrapping_mul(HASH_PRIME_Y);
        proof {
            lemma_hash_in_table(cell_x, cell_y);
        }
        ((p1 ^ p2) as usize) & (TABLE_SIZE - 1)
    }

    /// Files `entity_id` under cell (`cell_x`, `cell_y`).
    pub fn insert(&mut self, entity_id: usize, cell_x: i32, cell_y: i32)
        requires
            old(self).wf(),
        ensures
            final(self).wf(),
            final(self).view_buckets() == old(self).view_buckets().update(
                spec_hash_cell(cell_x, cell_y) as int,
                old(self).view_buckets()[spec_hash_cell(cell_x, cell_y) as int].push(entity_id),
            ),
            final(self).spec_inserted() == old(self).spec_inserted().push(entity_id),
    {
        let index = self.hash_cell(cell_x, cell_y);
        let ghost old_buckets = self.view_buckets();
        let ghost old_inserted = self.inserted@;
        self.buckets[index].push(entity_id);
        self.inserted = Ghost(self.inserted@.push(entity_id));
        assert(self.view_buckets() =~= old_buckets.update(index as int, old_buckets[index as int].push(entity_id)));
        assert forall|i: int| 0 <= i < self.view_buckets().len() implies all_among(
            #[trigger] self.view_buckets()[i],
            self.inserted@,
        ) by {
            assert(all_among(old_buckets[i], old_inserted));
            assert forall|k: int| 0 <= k < self.view_buckets()[i].len() implies self.inserted@.contains(
                #[trigger] self.view_buckets()[i][k],
            ) by {
                if i == index && k == old_buckets[i].len() {
                    assert(self.inserted@[old_inserted.len() as int] == entity_id);
                } else {
                    assert(self.view_buckets()[i][k] == old_buckets[i][k]);
                    let j = choose|j: int| 0 <= j < old_inserted.len() && old_inserted[j] == old_buckets[i][k];
                    assert(self.inserted@[j] == old_inserted[j]);
                }
            }
        }
    }

    /// Every entity filed under any cell of the rectangle
    /// `min_x..=max_x` by `min_y..=max_y`, bucket by bucket.
    pub fn get_nearby(&self, min_x: i32, max_x: i32, min_y: i32, max_y: i32) -> (found: Vec<usize>)
        requires
            self.wf(),
        ensures
            found@ == nearby(self.view_buckets(), min_x as int, max_x as int, min_y as int, max_y as int),
            all_among(found@, self.spec_inserted()),
    {
        let mut found: Vec<usize> = Vec::new();
        let mut cx: i64 = min_x as i64;
        while cx <= max_x as i64
            invariant
                self.wf(),
                min_x <= cx <= max_x as i64 + 1 || (cx == min_x && max_x < min_x),
                found@ == nearby(self.view_buckets(), min_x as int, cx - 1, min_y as int, max_y as int),
            decreases max_x as i64 + 1 - cx,
        {
            let mut cy: i64 = min_y as i64;
            let ghost before = found@;
            while cy <= max_y as i64
                invariant
                    self.wf(),
                    min_x <= cx <= max_x,
                    min_y <= cy <= max_y as i64 + 1 || (cy == min_y && max_y < min_y),
                    found@ == before + column(self.view_buckets(), cx as int, min_y as int, cy - 1),
                decreases max_y as i64 + 1 - cy,
            {
                let index = self.hash_cell(cx as i32, cy as i32);
                let ghost mid = found@;
                found.extend_from_slice(self.buckets[index].as_slice());
                proof {
                    let b = self.view_buckets()[index as int];
                    assert(found@ =~= mid + b) by {
                        assert forall|k: int| mid.len() <= k < found@.len() implies found@[k] == b[k - mid.len()] by {
                            assert(cloned::<usize>(self.buckets@[index as int]@[k - mid.len()], found@[k]));
                        }
                    }
                    assert(column(self.view_buckets(), cx as int, min_y as int, cy as int) == column(
                        self.view_buckets(),
                        cx as int,
                        min_y as int,
                        cy - 1,
                    ) + b);
                }
                cy = cy + 1;
            }
            proof {
                if max_y < min_y {
                    assert(column(self.view_buckets(), cx as int, min_y as int, max_y as int) =~= Seq::empty());
                }
            }
            cx = cx + 1;
        }
        proof {
            lemma_nearby_among(self.view_buckets(), self.inserted@, min_x as int, max_x as int, min_y as int, max_y as int);
        }
        found
    }

    /// Empties every bucket.
    pub fn clear(&mut self)
        requires
            old(self).wf(),
        ensures
            final(self).wf(),
            final(self).view_buckets().len() == TABLE_SIZE,
            forall|i: int| 0 <= i < TABLE_SIZE ==> (#[trigger] final(self).view_buckets()[i]).len() == 0,
            final(self).spec_inserted() == Seq::<usize>::empty(),
    {
        let mut i: usize = 0;
        while i < self.buckets.len()
            invariant
                self.buckets.len() == TABLE_SIZE,
                i <= self.buckets.len(),
                forall|k: int| 0 <= k < i ==> (#[trigger] self.buckets@[k])@.len() == 0,
            decreases self.buckets.len() - i,
        {
            self.buckets[i].clear();
            i = i + 1;
        }
        self.inserted = Ghost(Seq::empty());
        assert(buckets_among(self.view_buckets(), self.inserted@));
    }
}

} // verus!
