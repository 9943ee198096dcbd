//! Video container metadata: the movie header's creation time, moved to the
//! Unix epoch, and the first track's frame size.
use vstd::prelude::*;

verus! {

/// Seconds from 1904-01-01 (the QuickTime epoch) to 1970-01-01.
pub const QUICKTIME_EPOCH_OFFSET: i64 = 2082844800;

/// Unix seconds of -262143-01-01T00:00:00, the earliest time `chrono` holds.
pub const MIN_UNIX_SECONDS: i64 = -8334601315200;

/// Unix seconds of +262142-12-31T23:59:59, the latest whole second `chrono` holds.
pub const MAX_UNIX_SECONDS: i64 = 8210266876799;

/// Relies on `chrono::DateTime::from_timestamp` (with no nanoseconds): it
/// gives a date-time exactly for the seconds from `MIN_UNIX_SECONDS` to
/// `MAX_UNIX_SECONDS`, the range of `NaiveDate`.
#[verifier::external_body]
fn is_valid_timestamp(secs: i64) -> (r: bool)
    ensures
        r == (MIN_UNIX_SECONDS <= secs <= MAX_UNIX_SECONDS),
{
    chrono::DateTime::from_timestamp(secs, 0).is_some()
}

/// A video's creation time (Unix seconds, UTC), frame size and duration.
#[derive(Clone, Copy, Debug)]
pub struct VideoMetadata {
    pub creation_time: i64,
    pub width: u32,
    pub height: u32,
    pub duration_ms: u64,
}

/// Why a video's metadata cannot be used.
#[derive(Clone, Copy, Debug, PartialEq, Eq, Structural)]
pub enum VideoError {
    /// The creation time is not a valid timestamp.
    InvalidTimestamp,
}

/// Unix seconds of a movie header creation time (seconds since 1904-01-01).
pub open spec fn unix_of_creation(creation_time: u64) -> int {
    creation_time - QUICKTIME_EPOCH_OFFSET
}

/// Metadata from a movie header's fields: the creation time in seconds since
/// 1904-01-01, the first track's width and height (absent: zero), and the
/// duration in milliseconds. Fails exactly where the creation time, moved to
/// the Unix epoch, is not a valid timestamp.
pub fn video_metadata_from_header(
    creation_time: u64,
    first_track: Option<(u16, u16)>,
    duration_ms: u64,
) -> (r: Result<VideoMetadata, VideoError>)
    ensures
        match r {
            Ok(m) => {
                &&& MIN_UNIX_SECONDS <= unix_of_creation(creation_time) <= MAX_UNIX_SECONDS
                &&& m.creation_time == unix_of_creation(creation_time)
                &&& m.duration_ms == duration_ms
                &&& match first_track {
                    Some((w, h)) => m.width == w && m.height == h,
                    None => m.width == 0 && m.height == 0,
                }
            },
            Err(e) => e == VideoError::InvalidTimestamp && !(MIN_UNIX_SECONDS <= unix_of_creation(
                creation_time,
            ) <= MAX_UNIX_SECONDS),
        },
{
    let unix = creation_time as i128 - QUICKTIME_EPOCH_OFFSET as i128;
    if unix > i64::MAX as i128 || !is_valid_timestamp(unix as i64) {
        return Err(VideoError::InvalidTimestamp);
    }
    let (width, height) = match first_track {
        Some((w, h)) => (w as u32, h as u32),
        None => (0, 0),
    };
    Ok(VideoMetadata { creation_time: unix as i64, width, height, duration_ms })
}

} // verus!
