use media_organizer::{
    exif_info_from_tags, get_exif_info, parse_exif_datetime, parse_offset, parse_subsec, ExifTags,
    LocalDateTime, TagValue,
};

fn ascii(s: &str) -> Option<TagValue> {
    Some(TagValue::Ascii(Some(s.as_bytes().to_vec())))
}

fn no_tags() -> ExifTags {
    ExifTags {
        date_time_original: None,
        date_time: None,
        sub_sec_time_original: None,
        sub_sec_time: None,
        offset_time_original: None,
        offset_time: None,
        orientation: None,
        pixel_x_dimension: None,
        pixel_y_dimension: None,
    }
}

#[test]
fn exif_datetime_layout() {
    assert_eq!(
        parse_exif_datetime("2024:03:05 07:08:09"),
        Some(LocalDateTime::new(2024, 3, 5, 7, 8, 9))
    );
    assert_eq!(parse_exif_datetime("2024:02:30 00:00:00"), None);
    assert_eq!(parse_exif_datetime("2024-03-05 07:08:09"), None);
    assert_eq!(parse_exif_datetime("2024:03:05 07:08:09Z"), None);
    assert_eq!(parse_exif_datetime("    :  :     :  :  "), None);
}

#[test]
fn subsecond_field() {
    assert_eq!(parse_subsec(" 042 "), Some(42));
    assert_eq!(parse_subsec("+7"), Some(7));
    assert_eq!(parse_subsec("999"), Some(999));
    assert_eq!(parse_subsec("1000"), None);
    assert_eq!(parse_subsec("4x"), None);
    assert_eq!(parse_subsec(""), None);
    assert_eq!(parse_subsec("99999999999"), None);
}

#[test]
fn offset_field() {
    assert_eq!(parse_offset(" +09:00 "), Some("+09:00".to_string()));
    assert_eq!(parse_offset("   "), None);
}

#[test]
fn original_fields_win_over_plain_ones() {
    let mut tags = no_tags();
    tags.date_time_original = ascii("2024:03:05 07:08:09");
    tags.date_time = ascii("2020:01:01 00:00:00");
    tags.sub_sec_time_original = ascii("123");
    tags.sub_sec_time = ascii("456");
    tags.offset_time = ascii("-05:00");
    tags.orientation = Some(TagValue::Short(Some(6)));
    tags.pixel_x_dimension = Some(TagValue::Long(Some(4032)));
    tags.pixel_y_dimension = Some(TagValue::Long(Some(3024)));
    let info = exif_info_from_tags(&tags);
    assert_eq!(info.date, Some(LocalDateTime::new(2024, 3, 5, 7, 8, 9)));
    assert_eq!(info.subsec, Some(123));
    assert_eq!(info.timezone, Some("-05:00".to_string()));
    assert_eq!(info.orientation, Some(6));
    assert_eq!(info.width, Some(4032));
    assert_eq!(info.height, Some(3024));
}

#[test]
fn plain_fields_fill_in() {
    let mut tags = no_tags();
    tags.date_time_original = ascii("not a date");
    tags.date_time = ascii("2020:01:01 00:00:00");
    tags.sub_sec_time = ascii("5");
    tags.pixel_x_dimension = Some(TagValue::Short(Some(10)));
    let info = exif_info_from_tags(&tags);
    assert_eq!(info.date, Some(LocalDateTime::new(2020, 1, 1, 0, 0, 0)));
    assert_eq!(info.subsec, Some(5));
    assert_eq!(info.timezone, None);
    assert_eq!(info.width, None);
}

#[test]
fn non_utf8_field_decodes_lossily() {
    let mut tags = no_tags();
    tags.offset_time_original = Some(TagValue::Ascii(Some(vec![b'+', 0xff, b'1'])));
    let info = exif_info_from_tags(&tags);
    assert_eq!(info.timezone, Some("+\u{fffd}1".to_string()));
}

#[test]
fn missing_exif_gives_nothing() {
    let info = get_exif_info(None);
    assert_eq!(info.date, None);
    assert_eq!(info.subsec, None);
    assert_eq!(info.orientation, None);
}

#[test]
fn exif_datetime_follows_the_layout_parser() {
    assert_eq!(
        parse_exif_datetime("2024:1:5 9:30:00"),
        Some(LocalDateTime::new(2024, 1, 5, 9, 30, 0))
    );
    assert_eq!(parse_exif_datetime("2024:13:05 07:08:09"), None);
}

#[test]
fn orientation_outside_one_to_eight_is_dropped() {
    let mut tags = no_tags();
    tags.orientation = Some(TagValue::Short(Some(9)));
    assert_eq!(exif_info_from_tags(&tags).orientation, None);
    tags.orientation = Some(TagValue::Short(Some(0)));
    assert_eq!(exif_info_from_tags(&tags).orientation, None);
    tags.orientation = Some(TagValue::Short(Some(8)));
    assert_eq!(exif_info_from_tags(&tags).orientation, Some(8));
}
