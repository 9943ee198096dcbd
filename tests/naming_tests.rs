use media_organizer::{
    base_name, date_hierarchy, extract_date_from_filename, format_filename, numbered_filename,
    LocalDateTime,
};

#[test]
fn compact_date_and_time_in_name() {
    assert_eq!(
        extract_date_from_filename("IMG_20250115_103000.jpg"),
        Some(LocalDateTime::new(2025, 1, 15, 10, 30, 0))
    );
    assert_eq!(
        extract_date_from_filename("Screenshot_20250115-103005.png"),
        Some(LocalDateTime::new(2025, 1, 15, 10, 30, 5))
    );
}

#[test]
fn dashed_date_and_time_in_name() {
    assert_eq!(
        extract_date_from_filename("2025-01-15_10-30-00.jpg"),
        Some(LocalDateTime::new(2025, 1, 15, 10, 30, 0))
    );
    assert_eq!(
        extract_date_from_filename("export 2023-12-31T23-59-58.heic"),
        Some(LocalDateTime::new(2023, 12, 31, 23, 59, 58))
    );
}

#[test]
fn date_alone_in_name_means_midnight() {
    assert_eq!(
        extract_date_from_filename("IMG-20250115-WA0001.jpg"),
        Some(LocalDateTime::new(2025, 1, 15, 0, 0, 0))
    );
}

#[test]
fn invalid_calendar_values_in_name_are_rejected() {
    assert_eq!(extract_date_from_filename("IMG_20251315_103000.jpg"), None);
    assert_eq!(extract_date_from_filename("IMG_20230229.jpg"), None);
    assert_eq!(extract_date_from_filename("holiday.jpg"), None);
    assert_eq!(extract_date_from_filename(""), None);
}

#[test]
fn invalid_time_falls_back_to_later_layouts() {
    // The compact layout reads hour 25 and gives way; the date alone remains.
    assert_eq!(
        extract_date_from_filename("IMG_20250115_253000.jpg"),
        Some(LocalDateTime::new(2025, 1, 15, 0, 0, 0))
    );
}

#[test]
fn leap_day_in_name() {
    assert_eq!(
        extract_date_from_filename("PXL_20240229_000001.jpg"),
        Some(LocalDateTime::new(2024, 2, 29, 0, 0, 1))
    );
}

#[test]
fn file_name_with_and_without_subsecond() {
    let d = LocalDateTime::new(2025, 1, 5, 7, 3, 9);
    assert_eq!(format_filename(&d, None, "jpg"), "2025-01-05_07-03-09.jpg");
    assert_eq!(format_filename(&d, Some(42), "png"), "2025-01-05_07-03-09-042.png");
    assert_eq!(base_name(&d, Some(7)), "2025-01-05_07-03-09-007");
}

#[test]
fn numbered_names_pad_to_two_digits() {
    let d = LocalDateTime::new(2025, 1, 5, 7, 3, 9);
    assert_eq!(numbered_filename(&d, None, 1, "jpg"), "2025-01-05_07-03-09_01.jpg");
    assert_eq!(numbered_filename(&d, Some(120), 12, "jpg"), "2025-01-05_07-03-09-120_12.jpg");
    assert_eq!(numbered_filename(&d, None, 123, "mov"), "2025-01-05_07-03-09_123.mov");
}

#[test]
fn hierarchy_directories() {
    let d = LocalDateTime::new(987, 11, 3, 0, 0, 0);
    assert_eq!(date_hierarchy(&d), vec!["0987".to_string(), "0987-11".to_string(), "0987-11-03".to_string()]);
}
