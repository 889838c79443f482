use prim_core::collision::{
    collision_records, collisions, insert_hash_marker, overlapping, round_to_nearest,
    update_hash_marker, Collider, CollidesWith, GridEntry, HashGrid, HashMarker, SpatialRecord,
};
use prim_core::instance::Instance2D;
use prim_core::vecs::{Vec2Fx, Vec4Fx};

fn plain_instance(x: i64, y: i64, extent: i64) -> Instance2D {
    Instance2D {
        position: Vec2Fx::new(x, y),
        rotation: 0,
        scale: Vec2Fx::splat(extent),
        color: Vec4Fx::zero(),
        shape: 0,
        outline: None,
    }
}

#[test]
fn test_round_to_nearest() {
    assert_eq!(round_to_nearest(250_000, 100), 300);
    assert_eq!(round_to_nearest(249_900, 100), 200);
    assert_eq!(round_to_nearest(-250_000, 100), -300);
    assert_eq!(round_to_nearest(-249_900, 100), -200);
}

#[test]
fn test_hash_grid() {
    assert_eq!(Vec2Fx::new(250_000, 0).current_hash_grid(100), (300, 0));
    assert_eq!(Vec2Fx::new(-250_000, 0).current_hash_grid(100), (-300, 0));
    assert_eq!(Vec2Fx::new(0, 250_000).current_hash_grid(100), (0, 300));
    assert_eq!(Vec2Fx::new(0, -250_000).current_hash_grid(100), (0, -300));
}

#[test]
fn test_overlapping() {
    let a = plain_instance(-249_500, 500_000, 35_000);
    let b = plain_instance(-250_000, 500_000, 50_000);
    let c = plain_instance(-200_000, 500_000, 10_000);

    assert!(overlapping(&a, &b));
    assert!(!overlapping(&a, &c));
}

#[test]
fn test_neighbors() {
    assert_eq!(
        HashMarker { cell: (200, 0) }.get_with_neighbors(100),
        [
            (200, 0),
            (200, 100),
            (200, -100),
            (300, 0),
            (100, 0),
            (300, -100),
            (300, 100),
            (100, -100),
            (100, 100)
        ]
    );
}

#[test]
fn test_overlap_boundary_is_strict() {
    // Boxes of width 100 units centered 100 units apart touch exactly at
    // x = 50 units and must not count as overlapping.
    let a = plain_instance(0, 0, 100_000);
    let b = plain_instance(100_000, 0, 100_000);
    assert!(!overlapping(&a, &b));
    // Nudging one box a thousandth of a unit inward makes them overlap.
    let b_in = plain_instance(99_999, 0, 100_000);
    assert!(overlapping(&a, &b_in));
}

#[test]
fn test_overlap_symmetry_concrete() {
    let a = plain_instance(-249_500, 500_000, 35_000);
    let b = plain_instance(-250_000, 500_000, 50_000);
    let c = plain_instance(-200_000, 500_000, 10_000);
    assert_eq!(overlapping(&a, &b), overlapping(&b, &a));
    assert_eq!(overlapping(&a, &c), overlapping(&c, &a));
}

#[test]
fn test_collisions_reports_overlaps_per_collider() {
    let grid = HashGrid { size: 100 };
    let collider = GridEntry { entity: 1, instance: plain_instance(0, 0, 50_000), cell: (0, 0) };
    let near = GridEntry { entity: 2, instance: plain_instance(10_000, 0, 50_000), cell: (0, 0) };
    let neighbor_cell =
        GridEntry { entity: 3, instance: plain_instance(40_000, 0, 50_000), cell: (100, 0) };
    let far = GridEntry { entity: 4, instance: plain_instance(900_000, 0, 50_000), cell: (900, 0) };

    let results = collisions(&vec![collider], &vec![near, neighbor_cell, far], &grid);
    assert_eq!(results.len(), 1);
    let hits = results[0].clone().expect("collider overlaps two candidates");
    assert_eq!(hits, vec![2, 3]);
}

#[test]
fn test_collisions_removes_marker_when_no_overlap() {
    let grid = HashGrid { size: 100 };
    let collider = GridEntry { entity: 1, instance: plain_instance(0, 0, 50_000), cell: (0, 0) };
    let far = GridEntry { entity: 4, instance: plain_instance(900_000, 0, 50_000), cell: (900, 0) };
    let results = collisions(&vec![collider], &vec![far], &grid);
    assert_eq!(results.len(), 1);
    assert!(results[0].is_none());
}

#[test]
fn test_collision_channels_are_independent() {
    // Two channels: entity 2 registers only on channel 1, entity 3 only on
    // channel 7, both spatially coincident with the collider. Resolving a
    // channel only ever surfaces that channel's own candidates.
    let grid = HashGrid { size: 100 };
    let query = Collider::new(1);
    let target_one = CollidesWith::new(1);
    let target_seven = CollidesWith::new(7);
    assert_eq!(query.channel, target_one.channel);
    assert_ne!(query.channel, target_seven.channel);

    let collider = GridEntry { entity: 1, instance: plain_instance(0, 0, 50_000), cell: (0, 0) };
    let on_one = GridEntry { entity: 2, instance: plain_instance(0, 0, 50_000), cell: (0, 0) };
    let on_seven = GridEntry { entity: 3, instance: plain_instance(0, 0, 50_000), cell: (0, 0) };

    let channel_one = collisions(&vec![collider], &vec![on_one], &grid);
    let hits = channel_one[0].clone().expect("channel 1 candidate overlaps");
    assert_eq!(hits, vec![2]);
    assert!(!hits.contains(&3));

    let channel_seven = collisions(&vec![collider], &vec![on_seven], &grid);
    let hits7 = channel_seven[0].clone().expect("channel 7 candidate overlaps");
    assert_eq!(hits7, vec![3]);
    assert!(!hits7.contains(&2));
}

#[test]
fn test_collision_records_attach_and_remove() {
    let grid = HashGrid { size: 100 };
    let hitter = GridEntry { entity: 1, instance: plain_instance(0, 0, 50_000), cell: (0, 0) };
    let lonely =
        GridEntry { entity: 5, instance: plain_instance(900_000, 0, 50_000), cell: (900, 0) };
    let near = GridEntry { entity: 2, instance: plain_instance(10_000, 0, 50_000), cell: (0, 0) };

    let records = collision_records(4, &vec![hitter, lonely], &vec![near], &grid);
    assert_eq!(records.len(), 2);
    assert_eq!(records[0].0, 1);
    let marker = records[0].1.clone().expect("the overlapped collider gets a record");
    assert_eq!(marker.channel, 4);
    assert_eq!(marker.entities, vec![2]);
    assert_eq!(records[1].0, 5);
    assert!(records[1].1.is_none());
}

#[test]
fn test_hash_marker_maintenance() {
    let grid = HashGrid { size: 100 };
    let mut records = vec![
        // Has a stale cell and moved: recomputed by the update pass.
        SpatialRecord {
            entity: 1,
            instance: plain_instance(250_000, 0, 10_000),
            changed: true,
            marker: Some(HashMarker { cell: (0, 0) }),
        },
        // Has a cell and did not move: left alone.
        SpatialRecord {
            entity: 2,
            instance: plain_instance(250_000, 0, 10_000),
            changed: false,
            marker: Some(HashMarker { cell: (0, 0) }),
        },
        // Fresh entity without a cell: the insert pass attaches one.
        SpatialRecord {
            entity: 3,
            instance: plain_instance(-250_000, 0, 10_000),
            changed: true,
            marker: None,
        },
    ];
    update_hash_marker(&mut records, &grid);
    assert_eq!(records[0].marker.unwrap().cell, (300, 0));
    assert_eq!(records[1].marker.unwrap().cell, (0, 0));
    assert!(records[2].marker.is_none());
    insert_hash_marker(&mut records, &grid);
    assert_eq!(records[2].marker.unwrap().cell, (-300, 0));
}
