use nara::entities::shape::ShapeKind;
use nara::game::progress::{award_xp, kill_reward, starting_progress, Progress, MAX_LEVEL};
use nara::game::rules::shape_xp_reward;

/// The server's threshold rule: twelve percent more per level, capped.
fn grow(need: u32) -> u32 {
    ((need as f32) * 1.12).min(100000.0) as u32
}

fn progress(level: u32, xp: u32, xp_to_next: u32, max_health: u32, bullet_damage: u32) -> Progress {
    Progress { level, xp, xp_to_next, max_health, bullet_damage }
}

#[test]
fn award_climbs_one_level() {
    let p = starting_progress(250, 100, 10);
    assert_eq!(p, progress(1, 0, 250, 100, 10));
    let (q, h) = award_xp(p, 300, Some(50), grow);
    assert_eq!(q, progress(2, 50, 280, 110, 12));
    assert_eq!(h, Some(60));
}

#[test]
fn award_climbs_several_levels_and_heals_to_the_new_maximum() {
    let p = progress(1, 0, 250, 100, 10);
    let (q, h) = award_xp(p, 848, Some(125), grow);
    assert_eq!(q, progress(4, 5, 350, 130, 16));
    assert_eq!(h, Some(130));
}

#[test]
fn award_stops_at_the_level_cap() {
    let p = progress(44, 0, 1000, 530, 98);
    let (q, h) = award_xp(p, 5000, None, grow);
    assert_eq!(q, progress(MAX_LEVEL, 1119, 1120, 540, 100));
    assert_eq!(h, None);
}

#[test]
fn award_at_the_cap_pins_experience() {
    let p = progress(MAX_LEVEL, 10, 500, 540, 100);
    let (q, h) = award_xp(p, 1000, Some(80), grow);
    assert_eq!(q, progress(MAX_LEVEL, 499, 500, 540, 100));
    assert_eq!(h, Some(80));
}

#[test]
fn award_below_the_cost_only_adds_experience() {
    let p = progress(3, 10, 300, 120, 14);
    let (q, h) = award_xp(p, 20, Some(40), grow);
    assert_eq!(q, progress(3, 30, 300, 120, 14));
    assert_eq!(h, Some(40));
}

#[test]
fn kill_rewards() {
    assert_eq!(kill_reward(Some(101), Some(7)), Some(50));
    assert_eq!(kill_reward(None, Some(25)), Some(25));
    assert_eq!(kill_reward(None, None), None);
    assert_eq!(shape_xp_reward(ShapeKind::Square), 10);
    assert_eq!(shape_xp_reward(ShapeKind::Triangle), 25);
    assert_eq!(shape_xp_reward(ShapeKind::Pentagon), 130);
}
