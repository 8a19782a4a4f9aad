use nara::anti_cheat::{check_upgrade_interval, SuspicionTracker};
use nara::entities::shape::ShapeKind;
use nara::game::rules::{
    apply_damage, max_health_of, rank_leaderboard, regen_health, shape_kind_code, shape_max_health,
    shape_net_id, DEFAULT_MAX_HEALTH,
};
use nara::game::scheduler::Scheduler;

#[test]
fn upgrade_interval_rules() {
    assert!(check_upgrade_interval(1000, 1500, 500));
    assert!(!check_upgrade_interval(1000, 1499, 500));
    assert!(!check_upgrade_interval(2000, 1000, 0));
    assert!(check_upgrade_interval(0, 0, 0));
}

#[test]
fn suspicion_saturates() {
    let mut t = SuspicionTracker::new();
    assert_eq!(t.score, 0);
    t.add_score(10);
    assert!(t.is_flagged(10));
    assert!(!t.is_flagged(11));
    t.decay(4);
    assert_eq!(t.score, 6);
    t.decay(100);
    assert_eq!(t.score, 0);
    t.add_score(u32::MAX);
    t.add_score(5);
    assert_eq!(t.score, u32::MAX);
}

#[test]
fn add_then_decay_restores() {
    let mut t = SuspicionTracker::new();
    t.add_score(40);
    t.add_score(2);
    t.decay(2);
    assert_eq!(t.score, 40);
}

#[test]
fn scheduler_hands_back_due_threads_in_order() {
    let mut s: Scheduler<&str> = Scheduler::new();
    s.after_resume("a", true, 3);
    s.after_resume("b", true, 1);
    s.after_resume("done", false, 0);
    s.after_resume("c", true, 0);
    assert_eq!(s.tick(), 0);
    assert_eq!(s.on_tick(), vec!["b", "c"]);
    assert_eq!(s.on_tick(), Vec::<&str>::new());
    assert_eq!(s.on_tick(), vec!["a"]);
    assert_eq!(s.on_tick(), Vec::<&str>::new());
    assert_eq!(s.tick(), 4);
    s.after_resume("d", true, 2);
    assert_eq!(s.on_tick(), Vec::<&str>::new());
    assert_eq!(s.on_tick(), vec!["d"]);
}

#[test]
fn shape_stats() {
    assert_eq!(shape_max_health(ShapeKind::Square), 10);
    assert_eq!(shape_max_health(ShapeKind::Triangle), 30);
    assert_eq!(shape_max_health(ShapeKind::Pentagon), 100);
    assert_eq!(shape_kind_code(ShapeKind::Square), 1);
    assert_eq!(shape_kind_code(ShapeKind::Triangle), 2);
    assert_eq!(shape_kind_code(ShapeKind::Pentagon), 3);
    assert_eq!(max_health_of(Some(140), Some(ShapeKind::Square)), 140);
    assert_eq!(max_health_of(None, Some(ShapeKind::Triangle)), 30);
    assert_eq!(max_health_of(None, None), DEFAULT_MAX_HEALTH);
}

#[test]
fn shape_net_ids_carry_the_flag() {
    assert_eq!(shape_net_id(0), 0x8000_0000);
    assert_eq!(shape_net_id(5), 0x8000_0005);
    assert_eq!(shape_net_id(0x8000_0001), 0x8000_0001);
}

#[test]
fn damage_and_death() {
    assert_eq!(apply_damage(10, 3), (7, false));
    assert_eq!(apply_damage(10, 10), (0, true));
    assert_eq!(apply_damage(10, 15), (0, true));
    assert_eq!(apply_damage(0, 5), (0, false));
}

#[test]
fn regeneration() {
    assert_eq!(regen_health(50, 100), 51);
    assert_eq!(regen_health(99, 100), 100);
    assert_eq!(regen_health(100, 100), 100);
    assert_eq!(regen_health(0, 100), 0);
    assert_eq!(regen_health(5, 30), 6);
    assert_eq!(regen_health(100, 1000), 110);
    assert_eq!(regen_health(995, 1000), 1000);
}

#[test]
fn leaderboard_sorts_stably_and_cuts() {
    let board: Vec<(String, u32)> = (0..12).map(|k| (format!("p{k}"), (k % 4) * 10)).collect();
    let top = rank_leaderboard(board);
    let names: Vec<&str> = top.iter().map(|(n, _)| n.as_str()).collect();
    assert_eq!(names, vec!["p3", "p7", "p11", "p2", "p6", "p10", "p1", "p5", "p9", "p0"]);
    let small = rank_leaderboard(vec![("x".to_string(), 1), ("y".to_string(), 5)]);
    assert_eq!(small, vec![("y".to_string(), 5), ("x".to_string(), 1)]);
    assert!(rank_leaderboard(vec![]).is_empty());
}
