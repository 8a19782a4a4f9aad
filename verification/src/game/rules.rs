//! Integer rules of the simulation: shape stats and rewards, network ids, damage,
//! regeneration and the leaderboard.
use vstd::prelude::*;

use crate::entities::shape::ShapeKind;

verus! {

/// Bit set in the network id of every shape, so shape ids never collide
/// with player ids.
pub const SHAPE_NET_ID_FLAG: u32 = 0x8000_0000;

/// Maximum health of an entity that is neither a tank nor a shape.
pub const DEFAULT_MAX_HEALTH: u32 = 100;

/// How many players the leaderboard shows.
pub const LEADERBOARD_SIZE: usize = 10;

pub open spec fn spec_shape_max_health(kind: ShapeKind) -> u32 {
    match kind {
        ShapeKind::Square => 10,
        ShapeKind::Triangle => 30,
        ShapeKind::Pentagon => 100,
    }
}

/// Maximum health of a shape of `kind`.
pub fn shape_max_health(kind: ShapeKind) -> (h: u32)
    ensures
        h == spec_shape_max_health(kind),
{
    match kind {
        ShapeKind::Square => 10,
        ShapeKind::Triangle => 30,
        ShapeKind::Pentagon => 100,
    }
}

pub open spec fn spec_shape_xp_reward(kind: ShapeKind) -> u32 {
    match kind {
        ShapeKind::Square => 10,
        ShapeKind::Triangle => 25,
        ShapeKind::Pentagon => 130,
    }
}

/// Experience the tank that destroys a shape of `kind` earns.
pub fn shape_xp_reward(kind: ShapeKind) -> (xp: u32)
    ensures
        xp == spec_shape_xp_reward(kind),
{
    match kind {
        ShapeKind::Square => 10,
        ShapeKind::Triangle => 25,
        ShapeKind::Pentagon => 130,
    }
}

pub open spec fn spec_shape_kind_code(kind: ShapeKind) -> u32 {
    match kind {
        ShapeKind::Square => 1,
        ShapeKind::Triangle => 2,
        ShapeKind::Pentagon => 3,
    }
}

/// The number a shape's kind is announced to clients with.
pub fn shape_kind_code(kind: ShapeKind) -> (c: u32)
    ensures
        c == spec_shape_kind_code(kind),
{
    match kind {
        ShapeKind::Square => 1,
        ShapeKind::Triangle => 2,
        ShapeKind::Pentagon => 3,
    }
}

/// Maximum health of an entity: a tank's own maximum when it is a tank,
/// else its shape's, else the default.
pub fn max_health_of(tank_max_health: Option<u32>, shape: Option<ShapeKind>) -> (h: u32)
    ensures
        tank_max_health matches Some(t) ==> h == t,
        tank_max_health is None ==> (shape matches Some(k) ==> h == spec_shape_max_health(k)),
        tank_max_health is None && shape is None ==> h == DEFAULT_MAX_HEALTH,
{
    match tank_max_health {
        Some(t) => t,
        None => match shape {
            Some(k) => shape_max_health(k),
            None => DEFAULT_MAX_HEALTH,
        },
    }
}

pub open spec fn spec_shape_net_id(index: usize) -> u32 {
    SHAPE_NET_ID_FLAG | (index as u32)
}

/// The network id of the shape in slot `index`: the slot index (its low 32
/// bits) with the shape flag set.
pub fn shape_net_id(index: usize) -> (id: u32)
    ensures
        id == spec_shape_net_id(index),
{
    SHAPE_NET_ID_FLAG | (index as u32)
}

/// Shape ids carry the flag, and slots below 2^31 get distinct ids.
pub proof fn lemma_shape_net_ids(a: usize, b: usize)
    requires
        a < 0x8000_0000,
        b < 0x8000_0000,
        a != b,
    ensures
        spec_shape_net_id(a) & SHAPE_NET_ID_FLAG == SHAPE_NET_ID_FLAG,
        spec_shape_net_id(a) != spec_shape_net_id(b),
{
    let x = a as u32;
    let y = b as u32;
    assert(x as usize == a);
    assert(y as usize == b);
    assert((0x8000_0000u32 | x) & 0x8000_0000u32 == 0x8000_0000u32) by (bit_vector);
    assert(x < 0x8000_0000u32 && y < 0x8000_0000u32 && x != y ==> (0x8000_0000u32 | x) != (0x8000_0000u32
        | y)) by (bit_vector);
}

/// Health after taking `damage`, held at zero, and whether the hit killed.
pub fn apply_damage(health: u32, damage: u32) -> (r: (u32, bool))
    ensures
        r.0 == (if health < damage { 0 } else { health - damage }),
        r.1 == (health > 0 && r.0 == 0),
{
    let was_alive = health > 0;
    let new_health = health.saturating_sub(damage);
    (new_health, was_alive && new_health == 0)
}

/// How much health an entity of maximum `max_health` regains per tick: a
/// hundredth of its maximum, at least one.
pub open spec fn spec_regen_amount(max_health: u32) -> u32 {
    if max_health / 100 >= 1 { max_health / 100 } else { 1 }
}

/// The amount regained per tick is the whole number of hundredths in the
/// maximum, and one when the maximum is below a hundred.
pub proof fn law_regen_amount(max_health: u32)
    ensures
        max_health >= 100 ==> 100 * spec_regen_amount(max_health) <= max_health < 100 * (spec_regen_amount(
            max_health,
        ) + 1),
        max_health < 100 ==> spec_regen_amount(max_health) == 1,
{
}

/// Health after one tick of regeneration: only a damaged, living entity
/// regains health, never past its maximum.
pub fn regen_health(health: u32, max_health: u32) -> (h: u32)
    requires
        health > 0 && health < max_health ==> health + spec_regen_amount(max_health) <= u32::MAX,
    ensures
        health > 0 && health < max_health ==> h == (if health + spec_regen_amount(max_health) < max_health {
            health + spec_regen_amount(max_health)
        } else {
            max_health as int
        }),
        !(health > 0 && health < max_health) ==> h == health,
{
    if health > 0 && health < max_health {
        let per_hundred = max_health / 100;
        let regen_amount = if per_hundred >= 1 { per_hundred } else { 1 };
        let raised = health + regen_amount;
        if raised < max_health { raised } else { max_health }
    } else {
        health
    }
}

/// Regeneration never kills, never exceeds the maximum, never lowers
/// health, and leaves full or dead entities alone.
pub proof fn lemma_regen_bounds(health: u32, max_health: u32, h: u32)
    requires
        health > 0 && health < max_health ==> h == (if health + spec_regen_amount(max_health) < max_health {
            health + spec_regen_amount(max_health)
        } else {
            max_health as int
        }),
        !(health > 0 && health < max_health) ==> h == health,
    ensures
        h >= health,
        health <= max_health ==> h <= max_health,
        health > 0 && health < max_health ==> h > health,
        (health == 0 || health >= max_health) ==> h == health,
{
}

/// Entry `i` of `board` ranks ahead of entry `j`: more experience, or as
/// much and listed earlier.
pub open spec fn ranks_ahead(board: Seq<(String, u32)>, i: int, j: int) -> bool {
    board[i].1 > board[j].1 || (board[i].1 == board[j].1 && i < j)
}

/// `order` lists every index of `board` once, best ranked first.
pub open spec fn ranking_of(board: Seq<(String, u32)>, order: Seq<int>) -> bool {
    &&& order.len() == board.len()
    &&& forall|k: int| 0 <= k < order.len() ==> 0 <= #[trigger] order[k] < board.len()
    &&& forall|k: int, l: int| 0 <= k < l < order.len() ==> ranks_ahead(board, #[trigger] order[k], #[trigger] order[l])
}

/// `top` is the best `LEADERBOARD_SIZE` entries of `board` (all of them if
/// fewer), best first; among equal experience, earlier entries first.
pub open spec fn is_leaderboard(board: Seq<(String, u32)>, top: Seq<(String, u32)>) -> bool {
    exists|order: Seq<int>|
        #[trigger] ranking_of(board, order) && top.len() == (if board.len() < LEADERBOARD_SIZE {
            board.len()
        } else {
            LEADERBOARD_SIZE as nat
        }) && forall|k: int| 0 <= k < top.len() ==> #[trigger] top[k] == board[order[k]]
}

/// The leaderboard: entries sorted by experience, highest first, ties kept
/// in their given order, cut to `LEADERBOARD_SIZE`.
pub fn rank_leaderboard(entries: Vec<(String, u32)>) -> (top: Vec<(String, u32)>)
    ensures
        is_leaderboard(entries@, top@),
{
    let ghost orig = entries@;
    let mut v = entries;
    let n = v.len();
    let ghost mut order: Seq<int> = Seq::empty();
    let mut j: usize = 0;
    while j < n
        invariant
            v.len() == n,
            orig.len() == n,
            j <= n,
            order.len() == j,
            forall|k: int| j <= k < n ==> #[trigger] v@[k] == orig[k],
            forall|k: int| 0 <= k < j ==> 0 <= #[trigger] order[k] < j && v@[k] == orig[order[k]],
            forall|k: int, l: int| 0 <= k < l < j ==> ranks_ahead(orig, #[trigger] order[k], #[trigger] order[l]),
        decreases n - j,
    {
        let x = v.remove(j);
        let mut p: usize = 0;
        while p < j && v[p].1 >= x.1
            invariant
                p <= j,
                j < n,
                v.len() == n - 1,
                x == orig[j as int],
                forall|k: int| 0 <= k < j ==> 0 <= #[trigger] order[k] < j && v@[k] == orig[order[k]],
                forall|k: int| 0 <= k < p ==> (#[trigger] v@[k]).1 >= x.1,
            decreases j - p,
        {
            p = p + 1;
        }
        proof {
            // everything from `p` on ranks behind the new entry
            assert forall|k: int| p <= k < j implies (#[trigger] v@[k]).1 < x.1 by {
                if k > p {
                    assert(ranks_ahead(orig, order[p as int], order[k]));
                }
            }
        }
        v.insert(p, x);
        proof {
            let old_order = order;
            order = old_order.insert(p as int, j as int);
            assert forall|k: int| 0 <= k < j + 1 implies 0 <= #[trigger] order[k] < j + 1 && v@[k] == orig[order[k]] by {
                if k < p {
                    assert(order[k] == old_order[k]);
                } else if k > p {
                    assert(order[k] == old_order[k - 1]);
                }
            }
            assert forall|k: int, l: int| 0 <= k < l < j + 1 implies ranks_ahead(orig, #[trigger] order[k], #[trigger] order[l]) by {
                if l < p {
                    assert(order[k] == old_order[k] && order[l] == old_order[l]);
                } else if k > p {
                    assert(order[k] == old_order[k - 1] && order[l] == old_order[l - 1]);
                } else if k < p && l > p {
                    assert(order[k] == old_order[k] && order[l] == old_order[l - 1]);
                    assert(ranks_ahead(orig, old_order[k], old_order[l - 1]));
                } else if k == p {
                    assert(order[l] == old_order[l - 1]);
                    assert(v@[l] == orig[old_order[l - 1]]);
                } else {
                    assert(order[k] == old_order[k]);
                    assert(v@[k] == orig[old_order[k]]);
                }
            }
        }
        j = j + 1;
    }
    v.truncate(LEADERBOARD_SIZE);
    assert(ranking_of(orig, order));
    v
}

} // verus!
