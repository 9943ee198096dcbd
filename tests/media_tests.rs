use media_organizer::{
    build_media_info, file_extension, finish_scan, media_type_of, output_extension, DateSource,
    ExifInfo, FileFacts, LocalDateTime, MediaInfo, MediaType, ProcessOptions,
};

fn no_exif() -> ExifInfo {
    ExifInfo { date: None, subsec: None, timezone: None, orientation: None, width: None, height: None }
}

fn facts(name: &str, created: Option<LocalDateTime>, modified: Option<LocalDateTime>) -> FileFacts {
    FileFacts {
        original_path: format!("/in/{}", name),
        file_name: name.to_string(),
        created,
        modified,
        file_size: 1234,
    }
}

fn photo_at(name: &str, d: LocalDateTime) -> MediaInfo {
    build_media_info(facts(name, Some(d), None), MediaType::Photo, no_exif()).unwrap()
}

#[test]
fn classification_by_extension() {
    assert_eq!(media_type_of("a.JPG", false), Some(MediaType::Photo));
    assert_eq!(media_type_of("b.heic", true), Some(MediaType::Photo));
    assert_eq!(media_type_of("clip.MOV", true), Some(MediaType::Video));
    assert_eq!(media_type_of("clip.mov", false), None);
    assert_eq!(media_type_of("notes.txt", true), None);
    assert_eq!(media_type_of(".jpg", true), None);
    assert_eq!(media_type_of("noext", true), None);
    assert_eq!(media_type_of("archive.jpg.zip", true), None);
}

#[test]
fn extensions_like_paths() {
    assert_eq!(file_extension("a.tar.GZ"), Some("GZ".to_string()));
    assert_eq!(file_extension(".hidden"), None);
    assert_eq!(file_extension("a."), Some(String::new()));
    assert_eq!(output_extension("IMG.JPEG"), "jpeg");
    assert_eq!(output_extension("IMG"), "jpg");
}

#[test]
fn default_options() {
    let o = ProcessOptions::default();
    assert!(o.parallel);
    assert!(o.include_videos);
    assert!(o.backup_dir.is_none());
    assert!(!o.auto_correct_orientation);
}

#[test]
fn exif_tier_wins_and_keeps_subsecond_and_zone() {
    let exif = ExifInfo {
        date: Some(LocalDateTime::new(2024, 3, 5, 7, 8, 9)),
        subsec: Some(42),
        timezone: Some("+09:00".to_string()),
        orientation: Some(6),
        width: Some(10),
        height: Some(20),
    };
    let m = build_media_info(
        facts("IMG_20200101_000000.JPG", Some(LocalDateTime::new(2001, 1, 1, 0, 0, 0)), None),
        MediaType::Photo,
        exif,
    )
    .unwrap();
    assert_eq!(m.date_source, DateSource::Exif);
    assert_eq!(m.date_taken, LocalDateTime::new(2024, 3, 5, 7, 8, 9));
    assert_eq!(m.new_name, "2024-03-05_07-08-09-042.jpg");
    assert_eq!(m.timezone, Some("+09:00".to_string()));
    assert_eq!(m.exif_orientation, Some(6));
    assert_eq!(m.width, Some(10));
    assert_eq!(m.file_size, 1234);
    assert_eq!(m.new_path, "");
    assert_eq!(m.burst_group_id, None);
}

#[test]
fn file_name_tier_drops_zone() {
    let exif = ExifInfo { timezone: Some("+09:00".to_string()), ..no_exif() };
    let m = build_media_info(
        facts("IMG_20200101_123456.png", Some(LocalDateTime::new(2001, 1, 1, 0, 0, 0)), None),
        MediaType::Photo,
        exif,
    )
    .unwrap();
    assert_eq!(m.date_source, DateSource::FileName);
    assert_eq!(m.new_name, "2020-01-01_12-34-56.png");
    assert_eq!(m.timezone, None);
    assert_eq!(m.subsec_time, None);
}

#[test]
fn file_system_tiers() {
    let created = LocalDateTime::new(2019, 6, 1, 8, 0, 0);
    let modified = LocalDateTime::new(2019, 7, 1, 8, 0, 0);
    let m = build_media_info(facts("a.jpg", Some(created), Some(modified)), MediaType::Photo, no_exif())
        .unwrap();
    assert_eq!(m.date_source, DateSource::FileCreated);
    assert_eq!(m.date_taken, created);
    let m = build_media_info(facts("a.mp4", None, Some(modified)), MediaType::Video, no_exif()).unwrap();
    assert_eq!(m.date_source, DateSource::FileModified);
    assert_eq!(m.new_name, "2019-07-01_08-00-00.mp4");
}

#[test]
fn file_without_any_date_has_no_record() {
    assert!(build_media_info(facts("a.jpg", None, None), MediaType::Photo, no_exif()).is_none());
    let broken = LocalDateTime::new(2019, 2, 30, 8, 0, 0);
    assert!(build_media_info(facts("a.jpg", Some(broken), None), MediaType::Photo, no_exif()).is_none());
}

#[test]
fn naming_is_deterministic() {
    let d = LocalDateTime::new(2022, 8, 9, 10, 11, 12);
    let first = photo_at("x.jpg", d);
    let second = photo_at("x.jpg", d);
    assert_eq!(first.new_name, second.new_name);
}

#[test]
fn scan_marks_and_renames_bursts() {
    let t = |s: u32| LocalDateTime::new(2024, 5, 17, 12, 0, s);
    let media = vec![
        photo_at("a.jpg", t(0)),
        photo_at("b.JPG", t(1)),
        photo_at("c.jpg", t(2)),
        photo_at("d.jpg", t(30)),
    ];
    let r = finish_scan(media);
    assert_eq!(r.len(), 4);
    assert_eq!(r[0].new_name, "2024-05-17_12-00-00_01.jpg");
    assert_eq!(r[1].new_name, "2024-05-17_12-00-01_02.jpg");
    assert_eq!(r[2].new_name, "2024-05-17_12-00-02_03.jpg");
    assert_eq!(r[2].burst_group_id, Some(0));
    assert_eq!(r[2].burst_index, Some(3));
    assert_eq!(r[3].new_name, "2024-05-17_12-00-30.jpg");
    assert_eq!(r[3].burst_group_id, None);
    assert_eq!(r[3].burst_index, None);
}
