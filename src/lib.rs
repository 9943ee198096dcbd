//! Media organisation engine: timestamp resolution through a priority chain,
//! burst detection, deterministic naming, the decisions of the copy stage,
//! and the EXIF Orientation reset.
pub mod burst;
pub mod datetime;
pub mod exif_meta;
pub mod filename_date;
pub mod media;
pub mod naming;
pub mod orientation;
pub mod pipeline;
pub mod text;
pub mod video;

pub use burst::{create_photo_to_group_map, detect_burst_groups, detect_bursts, BurstDetectorConfig, BurstGroup, BurstGroupId};
pub use datetime::LocalDateTime;
pub use exif_meta::{
    exif_info_from_tags, get_exif_info, parse_exif_datetime, parse_offset, parse_subsec, read_exif_tags,
    ExifInfo, ExifTag, ExifTags, TagValue,
};
pub use filename_date::extract_date_from_filename;
pub use media::{
    apply_bursts, build_media_info, file_extension, finish_scan, is_image_file, is_video_file,
    media_type_of, output_extension, resolve_date, DateSource, FileFacts, MediaInfo, MediaType,
    ProcessOptions, ProcessResult,
};
pub use naming::{base_name, date_hierarchy, format_filename, numbered_filename};
pub use orientation::{
    correct_orientation, get_orientation, is_jpeg_extension, orientation_info, patch_orientation,
    reset_exif_orientation_bytes, Orientation, OrientationInfo, ResetError,
};
pub use pipeline::{copy_start, copy_step, process_result, CopyAction, CopyEvent, CopyState};
pub use video::{video_metadata_from_header, VideoError, VideoMetadata};
