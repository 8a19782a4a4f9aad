use nara::entities::spatial_hash::{SpatialHash, TABLE_SIZE};

#[test]
fn query_finds_entities_in_covered_cells() {
    let mut h = SpatialHash::new();
    h.insert(7, 0, 0);
    h.insert(8, 1, 0);
    h.insert(9, -3, 5);
    let found = h.get_nearby(-1, 1, -1, 1);
    assert!(found.contains(&7));
    assert!(found.contains(&8));
    let found = h.get_nearby(-3, -3, 5, 5);
    assert!(found.contains(&9));
}

#[test]
fn query_over_one_cell_returns_its_bucket_in_insertion_order() {
    let mut h = SpatialHash::new();
    h.insert(1, 4, 4);
    h.insert(2, 4, 4);
    h.insert(3, 4, 4);
    let found = h.get_nearby(4, 4, 4, 4);
    assert_eq!(found, vec![1, 2, 3]);
}

#[test]
fn empty_rectangle_finds_nothing() {
    let mut h = SpatialHash::new();
    h.insert(1, 0, 0);
    assert!(h.get_nearby(1, 0, 0, 0).is_empty());
    assert!(h.get_nearby(0, 0, 1, 0).is_empty());
}

#[test]
fn clear_empties_every_bucket() {
    let mut h = SpatialHash::new();
    h.insert(1, 0, 0);
    h.insert(2, 100, -100);
    h.clear();
    assert!(h.get_nearby(-2, 2, -2, 2).is_empty());
    assert!(h.get_nearby(100, 100, -100, -100).is_empty());
}

#[test]
fn cells_that_share_a_bucket_are_both_returned() {
    // cell (0, 0) hashes to bucket 0, and so does cell (2048, 0):
    // 2048 * 73856093 is a multiple of 2048
    let mut h = SpatialHash::new();
    h.insert(1, 2048, 0);
    let found = h.get_nearby(0, 0, 0, 0);
    assert_eq!(found, vec![1]);
    assert_eq!(TABLE_SIZE, 2048);
}

#[test]
fn hash_follows_the_formula() {
    // cell (1, 0): 73856093 & 2047 = 1117; cell (0, 1): 19349663 & 2047 = 159
    let mut h = SpatialHash::new();
    h.insert(5, 1, 0);
    h.insert(6, 0, 1);
    assert_eq!(73_856_093u32 as usize & 2047, 1117);
    assert_eq!(19_349_663u32 as usize & 2047, 159);
    assert_eq!(h.get_nearby(1, 1, 0, 0), vec![5]);
    assert_eq!(h.get_nearby(0, 0, 1, 1), vec![6]);
    // cells at the extremes of i32 work
    h.insert(7, i32::MIN, i32::MAX);
    assert_eq!(h.get_nearby(i32::MIN, i32::MIN, i32::MAX, i32::MAX), vec![7]);
}

#[test]
fn query_returns_only_ids_inserted_since_clear() {
    let mut h = nara::entities::spatial_hash::SpatialHash::new();
    h.insert(1, 0, 0);
    h.insert(2, 5, 5);
    h.clear();
    h.insert(3, 0, 0);
    assert_eq!(h.get_nearby(-10, 10, -10, 10), vec![3]);
}
