use media_organizer::{
    create_photo_to_group_map, detect_burst_groups, detect_bursts, BurstDetectorConfig, BurstGroup,
    LocalDateTime,
};

fn at(seconds: u32) -> LocalDateTime {
    LocalDateTime::new(2024, 5, 17, 12, seconds / 60, seconds % 60)
}

#[test]
fn test_detect_burst_groups() {
    let base_time = 0;
    let dates = vec![
        Some(at(base_time)),
        Some(at(base_time + 1)),
        Some(at(base_time + 2)),
        Some(at(base_time + 3)),
        Some(at(base_time + 10)),
        Some(at(base_time + 11)),
        Some(at(base_time + 12)),
        Some(at(base_time + 13)),
    ];

    let config = BurstDetectorConfig::default();
    let groups = detect_burst_groups(&dates, &config);

    assert_eq!(groups.len(), 2);
    assert_eq!(groups[0].count, 4);
    // Items 4 to 7 are one second apart: a single run of four.
    assert_eq!(groups[1].count, 4);
}

#[test]
fn test_create_photo_to_group_map() {
    let base_time = at(0);

    let groups = vec![
        BurstGroup {
            id: 0,
            photo_indices: vec![0, 1, 2],
            start_time: base_time,
            end_time: at(2),
            count: 3,
        },
        BurstGroup {
            id: 1,
            photo_indices: vec![5, 6, 7],
            start_time: at(10),
            end_time: at(12),
            count: 3,
        },
    ];

    let map = create_photo_to_group_map(&groups);

    assert_eq!(map.len(), 6);
    assert_eq!(map.get(&0), Some(&0));
    assert_eq!(map.get(&1), Some(&0));
    assert_eq!(map.get(&5), Some(&1));
    assert_eq!(map.get(&6), Some(&1));
}

#[test]
fn test_min_count_filter() {
    let dates = vec![Some(at(0)), Some(at(1)), Some(at(10))];

    let config = BurstDetectorConfig::default();
    let groups = detect_burst_groups(&dates, &config);

    assert_eq!(groups.len(), 0);
}

#[test]
fn bursts_cover_expected_indices_and_times() {
    let dates = vec![at(0), at(1), at(2), at(3), at(10), at(11), at(12), at(13)];
    let groups = detect_bursts(&dates, &BurstDetectorConfig::default());
    assert_eq!(groups[0].photo_indices, vec![0, 1, 2, 3]);
    assert_eq!(groups[1].photo_indices, vec![4, 5, 6, 7]);
    assert_eq!(groups[0].id, 0);
    assert_eq!(groups[1].id, 1);
    assert_eq!(groups[0].start_time, at(0));
    assert_eq!(groups[0].end_time, at(3));
    assert_eq!(groups[1].start_time, at(10));
    assert_eq!(groups[1].end_time, at(13));
}

#[test]
fn backwards_step_closes_a_burst() {
    let dates = vec![at(5), at(6), at(4), at(5), at(6)];
    let groups = detect_bursts(&dates, &BurstDetectorConfig::default());
    assert_eq!(groups.len(), 1);
    assert_eq!(groups[0].photo_indices, vec![2, 3, 4]);
}

#[test]
fn gap_of_exactly_max_interval_joins() {
    let dates = vec![at(0), at(3), at(6)];
    let groups = detect_bursts(&dates, &BurstDetectorConfig::default());
    assert_eq!(groups.len(), 1);
    assert_eq!(groups[0].count, 3);
}

#[test]
fn subsecond_gap_beyond_max_interval_splits() {
    let mut late = at(3);
    late.nanosecond = 1;
    let dates = vec![at(0), late, at(4)];
    let groups = detect_bursts(&dates, &BurstDetectorConfig::default());
    assert_eq!(groups.len(), 0);
}

#[test]
fn empty_sequence_has_no_bursts() {
    let groups = detect_bursts(&[], &BurstDetectorConfig::default());
    assert!(groups.is_empty());
}

#[test]
fn bursts_across_midnight_and_month_end() {
    let dates = vec![
        LocalDateTime::new(2024, 2, 29, 23, 59, 58),
        LocalDateTime::new(2024, 2, 29, 23, 59, 59),
        LocalDateTime::new(2024, 3, 1, 0, 0, 1),
    ];
    let groups = detect_bursts(&dates, &BurstDetectorConfig::default());
    assert_eq!(groups.len(), 1);
    assert_eq!(groups[0].count, 3);
}

#[test]
fn group_map_of_detected_groups() {
    let dates = vec![at(0), at(1), at(2), at(3), at(10), at(11), at(12), at(13), at(40)];
    let groups = detect_bursts(&dates, &BurstDetectorConfig::default());
    let map = create_photo_to_group_map(&groups);
    let total: usize = groups.iter().map(|g| g.count).sum();
    assert_eq!(map.len(), total);
    for g in &groups {
        for i in &g.photo_indices {
            assert_eq!(map.get(i), Some(&g.id));
        }
    }
    assert_eq!(map.get(&8), None);
}

#[test]
fn absent_dates_neither_join_nor_break_runs() {
    let dates = vec![Some(at(0)), None, Some(at(1)), None, Some(at(2)), Some(at(20))];
    let groups = detect_burst_groups(&dates, &BurstDetectorConfig::default());
    assert_eq!(groups.len(), 1);
    assert_eq!(groups[0].photo_indices, vec![0, 2, 4]);
    assert_eq!(groups[0].count, 3);
    assert_eq!(groups[0].end_time, at(2));
}

#[test]
fn group_map_of_unordered_disjoint_groups() {
    let groups = vec![
        BurstGroup { id: 7, photo_indices: vec![9, 4], start_time: at(0), end_time: at(1), count: 2 },
        BurstGroup { id: 3, photo_indices: vec![1, 12, 5], start_time: at(0), end_time: at(1), count: 3 },
    ];
    let map = create_photo_to_group_map(&groups);
    assert_eq!(map.len(), 5);
    assert_eq!(map.get(&9), Some(&7));
    assert_eq!(map.get(&4), Some(&7));
    assert_eq!(map.get(&12), Some(&3));
    assert_eq!(map.get(&0), None);
}
