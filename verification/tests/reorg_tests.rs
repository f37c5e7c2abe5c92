use brc20_swap::reorg::{
    max_recoverable_reorg_depth, savepoint_due, savepoint_to_drop, Reorg, ReorgError,
    SAVEPOINT_INTERVAL,
};

#[test]
fn test_reorg() {
    // (100,105] (105, 110]
    // 100 -> 0, 105 -> 1,
    let mut reorg = Reorg::new();
    for i in 0u64..=10 {
        reorg.insert_point(100 + i * SAVEPOINT_INTERVAL as u64, i);
    }
    let reorg_height = 100;
    let point_index = reorg.query_point(reorg_height);
    assert!(point_index.is_none());

    let reorg_height = 105;
    let point_index = reorg.query_point(reorg_height).unwrap();
    assert_eq!(0, point_index);

    let reorg_height = 107;
    let point_index = reorg.query_point(reorg_height).unwrap();
    assert_eq!(1, point_index);

    let reorg_height = 125;
    let point_index = reorg.query_point(reorg_height).unwrap();
    assert_eq!(4, point_index);

    let reorg_height = 205;
    let point_index = reorg.query_point(reorg_height);
    println!("{point_index:?}");
    assert_eq!(point_index, Some(10));

    // remove the points that larger than 5
    // keep 0,1,2,3,4,5
    let removed_points = reorg.retain_point(5);
    println!("removed points: {:?}", removed_points);
}

#[test]
fn reorg_query_finds_the_savepoint_below_the_height() {
    let mut reorg = Reorg::new();
    for (h, p) in [(100u64, 1u64), (110, 2), (120, 3), (130, 4), (140, 5)] {
        reorg.insert_point(h, p);
    }
    assert_eq!(reorg.query_point(125), Some(3));
    assert_eq!(reorg.query_point(120), Some(2));
    assert_eq!(reorg.query_point(141), Some(5));
    assert_eq!(reorg.query_point(100), None);
}

#[test]
fn reorg_retain_returns_newer_points_by_height() {
    let mut reorg = Reorg::new();
    for i in 0u64..=10 {
        reorg.insert_point(100 + i * 5, i);
    }
    let removed = reorg.retain_point(5);
    assert_eq!(removed, vec![6, 7, 8, 9, 10]);
    assert_eq!(reorg.query_point(1000), Some(5));
    let again = reorg.retain_point(5);
    assert!(again.is_empty());
}

#[test]
fn reorg_remove_point_forgets_every_height_with_it() {
    let mut reorg = Reorg::new();
    reorg.insert_point(10, 1);
    reorg.insert_point(20, 2);
    reorg.insert_point(30, 1);
    reorg.remove_point(1);
    assert_eq!(reorg.query_point(100), Some(2));
    assert_eq!(reorg.query_point(20), None);
}

#[test]
fn reorg_insert_replaces_the_point_at_a_height() {
    let mut reorg = Reorg::new();
    reorg.insert_point(10, 1);
    reorg.insert_point(10, 7);
    assert_eq!(reorg.query_point(11), Some(7));
}

#[test]
fn reorg_rollback_restores_and_drops_newer() {
    let mut reorg = Reorg::new();
    for (h, p) in [(100u64, 1u64), (110, 2), (120, 3), (130, 4), (140, 5)] {
        reorg.insert_point(h, p);
    }
    let (restored, removed) = reorg.rollback(125, 0);
    assert_eq!(restored, 3);
    assert_eq!(removed, vec![4, 5]);
    assert_eq!(reorg.query_point(1000), Some(3));

    let mut empty = Reorg::new();
    let (restored, removed) = empty.rollback(50, 9);
    assert_eq!(restored, 9);
    assert!(removed.is_empty());
}

#[test]
fn reorg_depth_and_savepoint_schedule() {
    assert_eq!(max_recoverable_reorg_depth(100), 25);
    assert_eq!(max_recoverable_reorg_depth(103), 28);
    assert!(savepoint_due(3, 0, 10));
    assert!(savepoint_due(105, 100, 110));
    assert!(!savepoint_due(104, 100, 110));
    assert!(!savepoint_due(105, 100, 200));
    assert!(!savepoint_due(105, 200, 120));
}

#[test]
fn reorg_drops_the_oldest_savepoint_when_full() {
    assert_eq!(savepoint_to_drop(&vec![5, 3, 9]), None);
    assert_eq!(savepoint_to_drop(&vec![5, 3, 9, 4, 8, 7]), Some(3));
    assert_eq!(savepoint_to_drop(&vec![5, 6, 9, 4, 8, 7, 2]), Some(2));
}

#[test]
fn reorg_error_messages() {
    let e = ReorgError::Recoverable { height: 812, depth: 3 };
    assert_eq!(e.to_string(), "3 block deep reorg detected at height 812");
    assert_eq!(ReorgError::Unrecoverable.to_string(), "unrecoverable reorg detected");
}
