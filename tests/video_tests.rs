use media_organizer::{video_metadata_from_header, VideoError};

#[test]
fn creation_time_moves_to_unix_epoch() {
    let m = video_metadata_from_header(2_082_844_800, Some((1920, 1080)), 5_000).unwrap();
    assert_eq!(m.creation_time, 0);
    assert_eq!((m.width, m.height), (1920, 1080));
    assert_eq!(m.duration_ms, 5_000);
}

#[test]
fn creation_time_of_a_recent_clip() {
    // 2024-02-29T12:34:56Z is 1709210096 seconds after the Unix epoch.
    let m = video_metadata_from_header(2_082_844_800 + 1_709_210_096, None, 0).unwrap();
    assert_eq!(m.creation_time, 1_709_210_096);
    assert_eq!((m.width, m.height), (0, 0));
}

#[test]
fn creation_time_at_quicktime_epoch() {
    let m = video_metadata_from_header(0, None, 0).unwrap();
    assert_eq!(m.creation_time, -2_082_844_800);
}

#[test]
fn creation_time_after_year_9999() {
    // 10000-01-01T00:00:00Z.
    let m = video_metadata_from_header(2_082_844_800 + 253_402_300_800, None, 0).unwrap();
    assert_eq!(m.creation_time, 253_402_300_800);
}

#[test]
fn creation_time_at_the_edge_of_the_range() {
    let last = 8_210_266_876_799u64;
    assert!(video_metadata_from_header(2_082_844_800 + last, None, 0).is_ok());
    assert_eq!(
        video_metadata_from_header(2_082_844_800 + last + 1, None, 0).err(),
        Some(VideoError::InvalidTimestamp)
    );
}

#[test]
fn creation_time_out_of_range() {
    assert_eq!(video_metadata_from_header(u64::MAX, None, 0).err(), Some(VideoError::InvalidTimestamp));
}
