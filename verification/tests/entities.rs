use glam::Vec2;
use nara::entities::bullet::{Bullets, FIRST_BULLET_NET_ID};
use nara::entities::entity::{spawn_entity, Entities, EntityId};
use nara::entities::shape::{ShapeKind, ShapeStep, Shapes};
use nara::entities::tank::Tanks;

fn id(index: usize, generation: u32) -> EntityId {
    EntityId { index, generation }
}

#[test]
fn spawn_appends_fresh_slots() {
    let mut e = Entities::new();
    let a = e.spawn(Vec2::new(1.0, 2.0), Vec2::ZERO, 100);
    let b = e.spawn(Vec2::new(3.0, 4.0), Vec2::ONE, 50);
    assert_eq!(a, id(0, 0));
    assert_eq!(b, id(1, 0));
    assert!(e.is_alive(a));
    assert!(e.is_alive(b));
    let r = e.get(b).unwrap();
    assert_eq!(*r.position, Vec2::new(3.0, 4.0));
    assert_eq!(*r.velocity, Vec2::ONE);
    assert_eq!(*r.health, 50);
    assert_eq!(*r.generation, 0);
    assert!(*r.alive);
}

#[test]
fn despawn_frees_slot_and_reuse_bumps_generation() {
    let mut e = Entities::new();
    let a = e.spawn(Vec2::ZERO, Vec2::ZERO, 10);
    let _b = e.spawn(Vec2::ZERO, Vec2::ZERO, 10);
    assert!(e.despawn(a));
    assert!(!e.is_alive(a));
    assert!(e.get(a).is_none());
    // a second despawn of the same handle does nothing
    assert!(!e.despawn(a));
    let c = e.spawn(Vec2::new(9.0, 9.0), Vec2::ZERO, 7);
    assert_eq!(c, id(0, 1));
    assert!(e.is_alive(c));
    // the stale handle stays dead after its slot is reused
    assert!(!e.is_alive(a));
    assert!(!e.despawn(a));
    assert_eq!(*e.get(c).unwrap().health, 7);
}

#[test]
fn free_slots_are_reused_last_freed_first() {
    let mut e = Entities::new();
    let a = e.spawn(Vec2::ZERO, Vec2::ZERO, 1);
    let b = e.spawn(Vec2::ZERO, Vec2::ZERO, 1);
    let c = e.spawn(Vec2::ZERO, Vec2::ZERO, 1);
    assert!(e.despawn(a));
    assert!(e.despawn(c));
    let d = e.spawn(Vec2::ZERO, Vec2::ZERO, 1);
    let f = e.spawn(Vec2::ZERO, Vec2::ZERO, 1);
    let g = e.spawn(Vec2::ZERO, Vec2::ZERO, 1);
    assert_eq!(d, id(2, 1));
    assert_eq!(f, id(0, 1));
    assert_eq!(g, id(3, 0));
    assert!(e.is_alive(b));
}

#[test]
fn out_of_range_handle_is_dead() {
    let e = Entities::new();
    assert!(!e.is_alive(id(5, 0)));
    assert!(e.get(id(0, 0)).is_none());
    assert!(e.can_spawn());
}

#[test]
fn spawn_tank_adds_tank_and_despawn_removes_it() {
    let mut e = Entities::new();
    let t = e.spawn_tank(Vec2::new(1.0, 1.0), Vec2::ZERO, 100, "alice".to_string());
    assert!(e.is_alive(t));
    let tank = e.tanks.get(t).unwrap();
    assert_eq!(tank.name, "alice");
    assert_eq!(*tank.xp, (0, 250));
    assert_eq!(f32::from_bits(*tank.aim), 0.0);
    assert_eq!(e.tanks.len(), 1);
    assert!(e.despawn(t));
    assert!(e.tanks.get(t).is_none());
    assert!(e.tanks.is_empty());
}

#[test]
fn iter_and_iter_alive_list_slots_in_order() {
    let mut e = Entities::new();
    let a = e.spawn(Vec2::ZERO, Vec2::ZERO, 1);
    let _b = e.spawn(Vec2::ZERO, Vec2::ZERO, 2);
    let _c = e.spawn(Vec2::ZERO, Vec2::ZERO, 3);
    assert!(e.despawn(a));
    let all: Vec<u32> = e.iter().iter().map(|r| *r.health).collect();
    assert_eq!(all, vec![1, 2, 3]);
    let alive: Vec<u32> = e.iter_alive().iter().map(|r| *r.health).collect();
    assert_eq!(alive, vec![2, 3]);
}

#[test]
fn spawn_entity_delegates_to_spawn() {
    let mut e = Entities::new();
    let a = spawn_entity(&mut e, Vec2::new(2.0, 0.0), Vec2::ZERO, 5);
    assert_eq!(a, id(0, 0));
    assert_eq!(*e.get(a).unwrap().position, Vec2::new(2.0, 0.0));
}

#[test]
fn tanks_insert_get_remove() {
    let mut t = Tanks::new(4);
    assert!(t.is_empty());
    t.insert(id(3, 0), "bob".to_string());
    t.insert(id(1, 2), "eve".to_string());
    // a second insert into an occupied slot changes nothing
    t.insert(id(3, 9), "mallory".to_string());
    assert_eq!(t.len(), 2);
    assert_eq!(t.get(id(3, 0)).unwrap().name, "bob");
    // the slot alone decides
    assert_eq!(t.get(id(3, 7)).unwrap().name, "bob");
    assert!(t.get(id(0, 0)).is_none());
    assert!(t.get(id(100, 0)).is_none());
    assert!(t.remove(id(3, 0)));
    assert!(!t.remove(id(3, 0)));
    assert!(t.get(id(3, 0)).is_none());
    assert_eq!(t.get(id(1, 2)).unwrap().name, "eve");
    assert_eq!(t.len(), 1);
}

#[test]
fn tanks_get_mut_writes_through() {
    let mut t = Tanks::new(0);
    t.insert(id(0, 0), "a".to_string());
    t.insert(id(1, 0), "b".to_string());
    {
        let m = t.get_mut(id(0, 0)).unwrap();
        *m.aim = 1.5f32.to_bits();
        m.xp.0 = 40;
        m.name.push('!');
    }
    let r = t.get(id(0, 0)).unwrap();
    assert_eq!(r.name, "a!");
    assert_eq!(*r.xp, (40, 250));
    assert_eq!(f32::from_bits(*r.aim), 1.5);
    assert_eq!(t.get(id(1, 0)).unwrap().name, "b");
    assert!(t.get_mut(id(7, 0)).is_none());
}

#[test]
fn tanks_remove_moves_last_row() {
    let mut t = Tanks::new(0);
    t.insert(id(0, 0), "a".to_string());
    t.insert(id(1, 0), "b".to_string());
    t.insert(id(2, 0), "c".to_string());
    assert!(t.remove(id(0, 0)));
    assert_eq!(t.get(id(2, 0)).unwrap().name, "c");
    assert_eq!(t.get(id(1, 0)).unwrap().name, "b");
    assert!(t.remove(id(2, 0)));
    assert_eq!(t.get(id(1, 0)).unwrap().name, "b");
    assert_eq!(t.len(), 1);
}

fn insert_square(s: &mut Shapes, e: EntityId, xp: u32) {
    s.insert(
        e,
        ShapeKind::Square,
        0.05f32.to_bits(),
        xp,
        Vec2::new(10.0, 10.0),
        20.0f32.to_bits(),
        0.0f32.to_bits(),
        0.1f32.to_bits(),
    );
}

#[test]
fn shapes_insert_get_checks_generation() {
    let mut s = Shapes::new(8);
    insert_square(&mut s, id(2, 1), 10);
    assert_eq!(s.len(), 1);
    let r = s.get(id(2, 1)).unwrap();
    assert_eq!(*r.kind, ShapeKind::Square);
    assert_eq!(*r.rotation, 0);
    assert_eq!(f32::from_bits(*r.rotation_speed), 0.05);
    assert_eq!(*r.xp_reward, 10);
    assert!(s.get(id(2, 0)).is_none());
    assert!(s.get(id(3, 1)).is_none());
    // a stale handle removes nothing
    assert!(!s.remove(id(2, 0)));
    assert_eq!(s.len(), 1);
    assert!(s.remove(id(2, 1)));
    assert!(s.is_empty());
    assert!(s.get(id(2, 1)).is_none());
}

#[test]
fn shapes_get_mut_and_push_center() {
    let mut s = Shapes::new(0);
    insert_square(&mut s, id(0, 0), 10);
    insert_square(&mut s, id(1, 0), 25);
    {
        let m = s.get_mut(id(1, 0)).unwrap();
        *m.kind = ShapeKind::Pentagon;
        *m.xp_reward = 130;
    }
    let r = s.get(id(1, 0)).unwrap();
    assert_eq!(*r.kind, ShapeKind::Pentagon);
    assert_eq!(*r.xp_reward, 130);
    assert!(s.get_mut(id(1, 5)).is_none());
    s.push_center(id(0, 0), Vec2::new(1.0, -2.0));
    assert_eq!(s.motion(0).center, Vec2::new(11.0, 8.0));
    // a stale handle pushes nothing
    s.push_center(id(1, 3), Vec2::new(100.0, 0.0));
    assert_eq!(s.motion(1).center, Vec2::new(10.0, 10.0));
    assert_eq!(s.centers[1], Vec2::new(10.0, 10.0));
}

#[test]
fn shapes_apply_tick_moves_entities() {
    let mut s = Shapes::new(0);
    insert_square(&mut s, id(3, 0), 10);
    insert_square(&mut s, id(0, 0), 10);
    let mut positions = vec![Vec2::ZERO, Vec2::ZERO];
    let steps = vec![
        ShapeStep { rotation: 1.0f32.to_bits(), orbit_angle: 2.0f32.to_bits(), position: Vec2::new(5.0, 5.0) },
        ShapeStep { rotation: 3.0f32.to_bits(), orbit_angle: 4.0f32.to_bits(), position: Vec2::new(6.0, 6.0) },
    ];
    s.apply_tick(&steps, &mut positions);
    // slot 3 is out of range of `positions`, slot 0 takes the second step
    assert_eq!(positions, vec![Vec2::new(6.0, 6.0), Vec2::ZERO]);
    assert_eq!(f32::from_bits(*s.get(id(3, 0)).unwrap().rotation), 1.0);
    assert_eq!(f32::from_bits(s.motion(1).orbit_angle), 4.0);
}

#[test]
fn bullets_spawn_numbers_from_first_id() {
    let mut b = Bullets::new();
    assert!(b.is_empty());
    assert!(b.can_spawn());
    let owner = id(0, 0);
    let x = b.spawn(Vec2::new(1.0, 0.0), Vec2::new(10.0, 0.0), 5, 1.5f32.to_bits(), owner);
    let y = b.spawn(Vec2::new(2.0, 0.0), Vec2::new(10.0, 0.0), 6, 1.5f32.to_bits(), owner);
    assert_eq!(x, FIRST_BULLET_NET_ID);
    assert_eq!(x, 0x4000_0000);
    assert_eq!(y, 0x4000_0001);
    assert_eq!(b.len(), 2);
    let rows = b.iter_indexed();
    assert_eq!(rows[1], (1, Vec2::new(2.0, 0.0), 6, owner));
    assert_eq!(b.iter(), vec![(x, Vec2::new(1.0, 0.0)), (y, Vec2::new(2.0, 0.0))]);
}

fn bullets_with(n: u32) -> Bullets {
    let mut b = Bullets::new();
    for k in 0..n {
        b.spawn(Vec2::new(k as f32, 0.0), Vec2::ZERO, k, 1.0f32.to_bits(), id(0, 0));
    }
    b
}

fn ids_of(b: &Bullets) -> Vec<u32> {
    b.iter().into_iter().map(|(i, _)| i - FIRST_BULLET_NET_ID).collect()
}

#[test]
fn bullets_remove_swaps_last_in() {
    let mut b = bullets_with(4);
    b.remove(1);
    assert_eq!(ids_of(&b), vec![0, 3, 2]);
    b.remove(2);
    assert_eq!(ids_of(&b), vec![0, 3]);
}

#[test]
fn bullets_remove_expired_keeps_the_rest() {
    let mut b = bullets_with(5);
    b.remove_expired(&vec![true, false, true, true, false]);
    let mut left = ids_of(&b);
    assert_eq!(left, vec![4, 1]);
    left.sort();
    assert_eq!(left, vec![1, 4]);
    let mut c = bullets_with(3);
    c.remove_expired(&vec![true, true, true]);
    assert!(c.is_empty());
}

#[test]
fn bullets_remove_spent_removes_listed_rows_once() {
    let mut b = bullets_with(6);
    b.remove_spent(&vec![1, 4, 1, 0]);
    assert_eq!(ids_of(&b), vec![3, 5, 2]);
    let mut c = bullets_with(2);
    c.remove_spent(&vec![]);
    assert_eq!(ids_of(&c), vec![0, 1]);
}

#[test]
fn bullets_motion_roundtrip() {
    let mut b = bullets_with(2);
    let (p, v, l) = b.motion(1);
    assert_eq!(p, Vec2::new(1.0, 0.0));
    assert_eq!(v, Vec2::ZERO);
    assert_eq!(f32::from_bits(l), 1.0);
    b.set_motion(1, Vec2::new(7.0, 7.0), 0.5f32.to_bits());
    let (p, _, l) = b.motion(1);
    assert_eq!(p, Vec2::new(7.0, 7.0));
    assert_eq!(f32::from_bits(l), 0.5);
}

#[test]
fn set_health_writes_live_slot_only() {
    let mut e = Entities::new();
    let a = e.spawn(Vec2::new(1.0, 1.0), Vec2::ZERO, 100);
    assert!(e.set_health(a, 40));
    let r = e.get(a).unwrap();
    assert_eq!(*r.health, 40);
    assert_eq!(*r.position, Vec2::new(1.0, 1.0));
    assert!(e.despawn(a));
    assert!(!e.set_health(a, 90));
    let b = e.spawn(Vec2::ZERO, Vec2::ZERO, 5);
    // the stale handle does not reach the reused slot
    assert!(!e.set_health(a, 77));
    assert_eq!(*e.get(b).unwrap().health, 5);
}

#[test]
fn set_motion_writes_position_and_velocity() {
    let mut e = Entities::new();
    let a = e.spawn(Vec2::ZERO, Vec2::ZERO, 3);
    assert!(e.set_motion(a, Vec2::new(2.0, -1.0), Vec2::new(0.5, 0.25)));
    let r = e.get(a).unwrap();
    assert_eq!(*r.position, Vec2::new(2.0, -1.0));
    assert_eq!(*r.velocity, Vec2::new(0.5, 0.25));
    assert_eq!(*r.health, 3);
    assert!(!e.set_motion(id(9, 0), Vec2::ONE, Vec2::ONE));
}

#[test]
fn take_damage_lowers_health_and_kills_at_zero() {
    let mut e = Entities::new();
    let a = e.spawn_tank(Vec2::ZERO, Vec2::ZERO, 30, "a".to_string());
    assert!(!e.take_damage(a, 10));
    assert_eq!(*e.get(a).unwrap().health, 20);
    assert!(e.tanks.get(a).is_some());
    // damage beyond what is left is held at zero and kills
    assert!(e.take_damage(a, 50));
    assert!(!e.is_alive(a));
    assert!(e.tanks.get(a).is_none());
    // a dead handle takes no damage
    assert!(!e.take_damage(a, 1));
    // the freed slot is the next one reused
    let b = e.spawn(Vec2::ZERO, Vec2::ZERO, 5);
    assert_eq!(b, id(0, 1));
}

#[test]
fn take_damage_on_zero_health_does_not_kill_again() {
    let mut e = Entities::new();
    let a = e.spawn(Vec2::ZERO, Vec2::ZERO, 0);
    assert!(!e.take_damage(a, 5));
    assert!(e.is_alive(a));
    assert_eq!(*e.get(a).unwrap().health, 0);
}

#[test]
fn store_accessors_reach_the_public_stores() {
    let mut e = Entities::new();
    let a = e.spawn_tank(Vec2::ZERO, Vec2::ZERO, 10, "t".to_string());
    assert!(e.tanks().get(a).is_some());
    assert_eq!(e.tanks().len(), e.tanks.len());
    e.bullets_mut().spawn(Vec2::ZERO, Vec2::ONE, 3, 1.0f32.to_bits(), a);
    assert_eq!(e.bullets().len(), 1);
    if let Some(t) = e.tanks_mut().get_mut(a) {
        t.xp.0 = 7;
    }
    assert_eq!(e.tanks.get(a).unwrap().xp.0, 7);
    assert!(e.despawn(a));
    assert!(e.tanks().get(a).is_none());
}
