//! Experience and levels: what a kill is worth to the killer, and how
//! experience turns into levels and stats.
//!
//! The threshold that follows a level's threshold is computed by a rule the
//! caller hands in (the server's grows it in floating point); everything
//! else is integer bookkeeping and is stated here exactly.
use vstd::prelude::*;

verus! {

/// No tank climbs past this level.
pub const MAX_LEVEL: u32 = 45;

/// Maximum health a tank gains with each level.
pub const HEALTH_PER_LEVEL: u32 = 10;

/// Bullet damage a tank gains with each level.
pub const DAMAGE_PER_LEVEL: u32 = 2;

/// Level of a freshly spawned tank.
pub const START_LEVEL: u32 = 1;

/// A tank's progression: its level, the experience it holds toward the next
/// level, what the next level costs, and the integer stats levels raise.
#[derive(Clone, Copy, Debug, PartialEq, Eq)]
pub struct Progress {
    pub level: u32,
    pub xp: u32,
    pub xp_to_next: u32,
    pub max_health: u32,
    pub bullet_damage: u32,
}

/// The threshold `grow` answers after `need`.
pub open spec fn grown<F: Fn(u32) -> u32>(grow: F, need: u32) -> u32 {
    choose|next: u32| call_ensures(grow, (need,), next)
}

/// `grow` can be asked for any threshold and always answers the same.
pub open spec fn is_threshold_rule<F: Fn(u32) -> u32>(grow: F) -> bool {
    &&& forall|need: u32| #[trigger] call_requires(grow, (need,))
    &&& forall|need: u32, a: u32, b: u32|
        #[trigger] call_ensures(grow, (need,), a) && #[trigger] call_ensures(grow, (need,), b) ==> a
            == b
}

/// Climbing from `level` with `xp` in hand and `need` to pay for the next
/// level: while the experience covers the cost and the level is below
/// `MAX_LEVEL`, pay it, take the next cost from `grow` and go up one level.
/// Gives the experience left, the cost then current, and the level reached.
pub open spec fn climb<F: Fn(u32) -> u32>(xp: int, need: u32, level: int, grow: F) -> (int, u32, int)
    decreases MAX_LEVEL - level,
{
    if xp >= need && level < MAX_LEVEL {
        climb(xp - need, grown(grow, need), level + 1, grow)
    } else {
        (xp, need, level)
    }
}

/// The climb that crediting `amount` to `p` starts.
pub open spec fn climb_of<F: Fn(u32) -> u32>(p: Progress, amount: u32, grow: F) -> (int, u32, int) {
    climb(p.xp + amount, p.xp_to_next, p.level as int, grow)
}

/// How many levels crediting `amount` to `p` gains.
pub open spec fn levels_gained<F: Fn(u32) -> u32>(p: Progress, amount: u32, grow: F) -> int {
    climb_of(p, amount, grow).2 - p.level
}

/// `p` after `amount` of experience is credited: the levels climbed, each
/// adding `HEALTH_PER_LEVEL` to the maximum health and `DAMAGE_PER_LEVEL`
/// to the bullet damage; a tank that ends at `MAX_LEVEL` holds one point
/// less than its next cost.
pub open spec fn spec_award<F: Fn(u32) -> u32>(p: Progress, amount: u32, grow: F) -> Progress {
    let c = climb_of(p, amount, grow);
    let gained = c.2 - p.level;
    Progress {
        level: c.2 as u32,
        xp: (if c.2 == MAX_LEVEL { c.1 - 1 } else { c.0 }) as u32,
        xp_to_next: c.1,
        max_health: (p.max_health + HEALTH_PER_LEVEL * gained) as u32,
        bullet_damage: (p.bullet_damage + DAMAGE_PER_LEVEL * gained) as u32,
    }
}

/// The current health of a tank that gained `gained` levels and now has
/// `max_health`: a tank that levelled up heals `HEALTH_PER_LEVEL` per level,
/// up to its new maximum.
pub open spec fn spec_award_health(health: Option<u32>, gained: int, max_health: u32) -> Option<u32> {
    match health {
        Some(h) => if gained > 0 {
            Some(
                if h + HEALTH_PER_LEVEL * gained < max_health {
                    (h + HEALTH_PER_LEVEL * gained) as u32
                } else {
                    max_health
                },
            )
        } else {
            Some(h)
        },
        None => None,
    }
}

/// Crediting `amount` to `p` overflows none of the counters.
pub open spec fn award_fits<F: Fn(u32) -> u32>(p: Progress, amount: u32, health: Option<u32>, grow: F) -> bool {
    let c = climb_of(p, amount, grow);
    let gained = c.2 - p.level;
    &&& p.xp + amount <= u32::MAX
    &&& c.2 == MAX_LEVEL ==> c.1 >= 1
    &&& p.max_health + HEALTH_PER_LEVEL * gained <= u32::MAX
    &&& p.bullet_damage + DAMAGE_PER_LEVEL * gained <= u32::MAX
    &&& (health matches Some(h) ==> h + HEALTH_PER_LEVEL * gained <= u32::MAX)
}

/// A climb never goes down, and stops at `MAX_LEVEL` when it starts at or
/// below it; short of `MAX_LEVEL` it stops only when the experience left
/// does not cover the cost.
pub proof fn lemma_climb_ends<F: Fn(u32) -> u32>(xp: int, need: u32, level: int, grow: F)
    ensures
        climb(xp, need, level, grow).2 >= level,
        level <= MAX_LEVEL ==> climb(xp, need, level, grow).2 <= MAX_LEVEL,
        climb(xp, need, level, grow).2 < MAX_LEVEL ==> climb(xp, need, level, grow).0 < climb(
            xp,
            need,
            level,
            grow,
        ).1,
        climb(xp, need, level, grow).2 == level ==> climb(xp, need, level, grow) == (xp, need, level),
        xp >= 0 ==> climb(xp, need, level, grow).0 >= 0,
        climb(xp, need, level, grow).0 <= xp,
        level >= MAX_LEVEL ==> climb(xp, need, level, grow) == (xp, need, level),
    decreases MAX_LEVEL - level,
{
    if xp >= need && level < MAX_LEVEL {
        lemma_climb_ends(xp - need, grown(grow, need), level + 1, grow);
    }
}

/// The experience `victim` is worth to the tank that killed it: half of a
/// tank's current experience, or a shape's reward; nothing for anything
/// else.
pub fn kill_reward(victim_tank_xp: Option<u32>, victim_shape_reward: Option<u32>) -> (r: Option<u32>)
    ensures
        victim_tank_xp matches Some(x) ==> r == Some(x / 2),
        victim_tank_xp is None ==> r == victim_shape_reward,
{
    match victim_tank_xp {
        Some(x) => Some(x / 2),
        None => victim_shape_reward,
    }
}

/// Progression of a freshly spawned tank with the given stats.
pub fn starting_progress(xp_to_next: u32, max_health: u32, bullet_damage: u32) -> (p: Progress)
    ensures
        p == (Progress { level: START_LEVEL, xp: 0, xp_to_next, max_health, bullet_damage }),
{
    Progress { level: START_LEVEL, xp: 0, xp_to_next, max_health, bullet_damage }
}

/// Credits `amount` of experience to a tank with progression `p` and
/// current health `health` (`None` when it has none to raise), climbing as
/// many levels as the experience pays for, with `grow` giving each next
/// cost from the last.
pub fn award_xp<F: Fn(u32) -> u32>(p: Progress, amount: u32, health: Option<u32>, grow: F) -> (r: (
    Progress,
    Option<u32>,
))
    requires
        is_threshold_rule(grow),
        award_fits(p, amount, health, grow),
    ensures
        r.0 == spec_award(p, amount, grow),
        r.1 == spec_award_health(health, levels_gained(p, amount, grow), r.0.max_health),
{
    let ghost target = climb_of(p, amount, grow);
    let mut xp: u32 = p.xp + amount;
    let mut need: u32 = p.xp_to_next;
    let mut level: u32 = p.level;
    let mut max_health: u32 = p.max_health;
    let mut bullet_damage: u32 = p.bullet_damage;
    proof {
        lemma_climb_ends(p.xp + amount, p.xp_to_next, p.level as int, grow);
    }
    while xp >= need && level < MAX_LEVEL
        invariant
            is_threshold_rule(grow),
            award_fits(p, amount, health, grow),
            target == climb_of(p, amount, grow),
            climb(xp as int, need, level as int, grow) == target,
            p.level <= level,
            level <= MAX_LEVEL || level == p.level,
            target.2 >= level,
            max_health == p.max_health + HEALTH_PER_LEVEL * (level - p.level),
            bullet_damage == p.bullet_damage + DAMAGE_PER_LEVEL * (level - p.level),
        decreases MAX_LEVEL - level,
    {
        proof {
            lemma_climb_ends((xp - need) as int, grown(grow, need), level + 1, grow);
        }
        let next = grow(need);
        proof {
            // `grow` answers alike every time, so its answer is the one the climb uses
            assert(call_ensures(grow, (need,), grown(grow, need)));
        }
        xp = xp - need;
        need = next;
        level = level + 1;
        max_health = max_health + HEALTH_PER_LEVEL;
        bullet_damage = bullet_damage + DAMAGE_PER_LEVEL;
    }
    let gained: u32 = level - p.level;
    if level == MAX_LEVEL {
        xp = need - 1;
    }
    let healed = match health {
        Some(h) => if gained > 0 {
            let raised = h + gained * HEALTH_PER_LEVEL;
            Some(if raised < max_health { raised } else { max_health })
        } else {
            Some(h)
        },
        None => None,
    };
    (Progress { level, xp, xp_to_next: need, max_health, bullet_damage }, healed)
}

/// A credited tank ends settled: never lower than before, at most
/// `MAX_LEVEL` when it started at or below it, and below `MAX_LEVEL` with
/// less experience than the next level costs; at `MAX_LEVEL` it holds one
/// point less than that cost (when the cost is not zero). When no counter
/// overflows, every level gained adds `HEALTH_PER_LEVEL` to the maximum
/// health and `DAMAGE_PER_LEVEL` to the bullet damage.
pub proof fn law_award_settles<F: Fn(u32) -> u32>(p: Progress, amount: u32, grow: F)
    ensures
        spec_award(p, amount, grow).level >= p.level,
        p.level <= MAX_LEVEL ==> spec_award(p, amount, grow).level <= MAX_LEVEL,
        spec_award(p, amount, grow).level < MAX_LEVEL ==> spec_award(p, amount, grow).xp < spec_award(
            p,
            amount,
            grow,
        ).xp_to_next,
        spec_award(p, amount, grow).level == MAX_LEVEL && spec_award(p, amount, grow).xp_to_next >= 1
            ==> spec_award(p, amount, grow).xp + 1 == spec_award(p, amount, grow).xp_to_next,
        award_fits(p, amount, None, grow) ==> spec_award(p, amount, grow).max_health == p.max_health
            + HEALTH_PER_LEVEL * (spec_award(p, amount, grow).level - p.level),
        award_fits(p, amount, None, grow) ==> spec_award(p, amount, grow).bullet_damage == p.bullet_damage
            + DAMAGE_PER_LEVEL * (spec_award(p, amount, grow).level - p.level),
{
    lemma_climb_ends(p.xp + amount, p.xp_to_next, p.level as int, grow);
}

/// A tank that levels up heals `HEALTH_PER_LEVEL` per level gained but
/// never past its new maximum, and never loses health; one that gains no
/// level keeps its health.
pub proof fn law_award_heals<F: Fn(u32) -> u32>(p: Progress, amount: u32, h: u32, grow: F)
    requires
        award_fits(p, amount, Some(h), grow),
        h <= p.max_health,
    ensures
        spec_award_health(Some(h), levels_gained(p, amount, grow), spec_award(p, amount, grow).max_health)
            matches Some(after) && {
            &&& levels_gained(p, amount, grow) == 0 ==> after == h
            &&& levels_gained(p, amount, grow) > 0 ==> h <= after <= spec_award(p, amount, grow).max_health
            &&& levels_gained(p, amount, grow) > 0 && h + HEALTH_PER_LEVEL * levels_gained(p, amount, grow)
                < spec_award(p, amount, grow).max_health ==> after == h + HEALTH_PER_LEVEL * levels_gained(
                p,
                amount,
                grow,
            )
            &&& levels_gained(p, amount, grow) > 0 && h + HEALTH_PER_LEVEL * levels_gained(p, amount, grow)
                >= spec_award(p, amount, grow).max_health ==> after == spec_award(p, amount, grow).max_health
        },
{
    lemma_climb_ends(p.xp + amount, p.xp_to_next, p.level as int, grow);
}

/// Healing on a level-up, for any number `gained` of levels and any current
/// health: the tank regains `HEALTH_PER_LEVEL` per level, cut at its new
/// maximum, so it ends exactly at the smaller of the two; without a level
/// its health stays, and a tank with no health to raise gets none.
pub proof fn law_level_up_heal(h: u32, gained: int, max_health: u32)
    ensures
        gained > 0 && h + HEALTH_PER_LEVEL * gained < max_health ==> spec_award_health(Some(h), gained, max_health)
            == Some((h + 10 * gained) as u32) && h + 10 * gained == spec_award_health(
            Some(h),
            gained,
            max_health,
        )->0,
        gained > 0 && h + HEALTH_PER_LEVEL * gained >= max_health ==> spec_award_health(
            Some(h),
            gained,
            max_health,
        ) == Some(max_health),
        gained <= 0 ==> spec_award_health(Some(h), gained, max_health) == Some(h),
        spec_award_health(None, gained, max_health) is None,
{
}

} // verus!
