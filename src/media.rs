//! Media records: classification of files, the timestamp priority chain,
//! record construction and burst annotation.
use vstd::prelude::*;
use crate::burst::{detect_bursts, groups_ordered, is_detection, BurstDetectorConfig, BurstGroup};
use crate::datetime::LocalDateTime;
use crate::exif_meta::ExifInfo;
use crate::filename_date::{extract_date_from_filename, file_name_date};
use crate::naming::{file_name_text, format_filename, numbered_filename, numbered_name_text};
use crate::text::{ascii_lower, chars_of, str_eq, string_of_chars, to_ascii_lower};

verus! {

/// Kind of a media file.
#[derive(Clone, Copy, Debug, PartialEq, Eq, Structural)]
pub enum MediaType {
    Photo,
    Video,
}

/// The tier of the priority chain that gave a record its timestamp.
#[derive(Clone, Copy, Debug, PartialEq, Eq, Structural)]
pub enum DateSource {
    /// The EXIF capture time.
    Exif,
    /// A date written in the file name.
    FileName,
    /// The file system's creation time.
    FileCreated,
    /// The file system's modification time.
    FileModified,
}

/// Options of a scan and of a processing run.
#[derive(Clone, Debug)]
pub struct ProcessOptions {
    /// Work on several files at once.
    pub parallel: bool,
    /// Directory that receives a flat copy of every original first.
    pub backup_dir: Option<String>,
    /// Also take video files.
    pub include_videos: bool,
    /// Reserved; not applied.
    pub timezone_offset: Option<i32>,
    /// Reserved; no effect.
    pub cleanup_temp: bool,
    /// Run the orientation rewriter as part of processing.
    pub auto_correct_orientation: bool,
}

impl Default for ProcessOptions {
    fn default() -> (r: Self)
        ensures
            r.parallel && r.include_videos,
            r.backup_dir is None && r.timezone_offset is None,
            !r.cleanup_temp && !r.auto_correct_orientation,
    {
        ProcessOptions {
            parallel: true,
            include_videos: true,
            backup_dir: None,
            timezone_offset: None,
            cleanup_temp: false,
            auto_correct_orientation: false,
        }
    }
}

/// One media file with a resolved timestamp.
#[derive(Clone, Debug)]
pub struct MediaInfo {
    pub original_path: String,
    pub file_name: String,
    pub media_type: MediaType,
    /// Always present: a file without a resolvable date has no record.
    pub date_taken: LocalDateTime,
    /// Milliseconds, 0 to 999.
    pub subsec_time: Option<u32>,
    /// Zone offset as written in the EXIF data, e.g. `+09:00`.
    pub timezone: Option<String>,
    pub new_name: String,
    /// Where the file was copied; empty until then.
    pub new_path: String,
    pub file_size: u64,
    pub burst_group_id: Option<usize>,
    /// Position within the burst, from 1.
    pub burst_index: Option<usize>,
    pub date_source: DateSource,
    pub exif_orientation: Option<u32>,
    pub rotation_applied: bool,
    pub width: Option<u32>,
    pub height: Option<u32>,
}

/// Outcome of a processing run.
#[derive(Clone, Debug)]
pub struct ProcessResult {
    pub success: bool,
    pub total_files: usize,
    pub processed_files: usize,
    pub media: Vec<MediaInfo>,
    pub errors: Vec<String>,
}

/// What the file system tells about one file.
#[derive(Clone, Debug)]
pub struct FileFacts {
    pub original_path: String,
    pub file_name: String,
    pub created: Option<LocalDateTime>,
    pub modified: Option<LocalDateTime>,
    pub file_size: u64,
}

/// Index of the last `.` among the first `n` characters.
pub open spec fn last_dot(name: Seq<char>, n: int) -> Option<int>
    decreases n,
{
    if n <= 0 {
        None
    } else if name[n - 1] == '.' {
        Some(n - 1)
    } else {
        last_dot(name, n - 1)
    }
}

/// A file name's extension as `Path::extension` gives it: what follows the
/// last `.`, unless there is none or it is the name's first character.
pub open spec fn extension_of(name: Seq<char>) -> Option<Seq<char>> {
    match last_dot(name, name.len() as int) {
        Some(k) => if k > 0 {
            Some(name.subrange(k + 1, name.len() as int))
        } else {
            None
        },
        None => None,
    }
}

/// The extension output names carry: the lower-cased extension, `jpg` where
/// there is none.
pub open spec fn record_extension(name: Seq<char>) -> Seq<char> {
    match extension_of(name) {
        Some(e) => ascii_lower(e),
        None => seq!['j', 'p', 'g'],
    }
}

pub open spec fn is_image_extension(e: Seq<char>) -> bool {
    ||| e == "jpg"@
    ||| e == "jpeg"@
    ||| e == "png"@
    ||| e == "gif"@
    ||| e == "bmp"@
    ||| e == "heic"@
    ||| e == "heif"@
    ||| e == "webp"@
    ||| e == "tiff"@
    ||| e == "tif"@
}

pub open spec fn is_video_extension(e: Seq<char>) -> bool {
    ||| e == "mp4"@
    ||| e == "mov"@
    ||| e == "avi"@
    ||| e == "mkv"@
    ||| e == "m4v"@
    ||| e == "3gp"@
    ||| e == "wmv"@
    ||| e == "flv"@
    ||| e == "webm"@
    ||| e == "mpeg"@
    ||| e == "mpg"@
}

/// Kind of a file, from its lower-cased extension; videos only when enabled.
pub open spec fn media_type_spec(name: Seq<char>, include_videos: bool) -> Option<MediaType> {
    match extension_of(name) {
        Some(e) => if is_image_extension(ascii_lower(e)) {
            Some(MediaType::Photo)
        } else if include_videos && is_video_extension(ascii_lower(e)) {
            Some(MediaType::Video)
        } else {
            None
        },
        None => None,
    }
}

/// A file's extension, as `Path::extension` gives it.
pub fn file_extension(name: &str) -> (r: Option<String>)
    ensures
        match extension_of(name@) {
            Some(e) => r matches Some(x) && x@ == e,
            None => r is None,
        },
{
    let cs = chars_of(name);
    let n = cs.len();
    let mut k: usize = n;
    while k > 0 && cs[k - 1] != '.'
        invariant
            n == cs@.len(),
            k <= n,
            last_dot(cs@, n as int) == last_dot(cs@, k as int),
        decreases k,
    {
        k = k - 1;
    }
    if k <= 1 {
        return None;
    }
    Some(string_of_chars(&cs, k, n))
}

/// Whether a lower-cased extension is a photo's.
pub fn is_image_file(extension: &str) -> (r: bool)
    ensures
        r == is_image_extension(extension@),
{
    str_eq(extension, "jpg") || str_eq(extension, "jpeg") || str_eq(extension, "png") || str_eq(
        extension,
        "gif",
    ) || str_eq(extension, "bmp") || str_eq(extension, "heic") || str_eq(extension, "heif")
        || str_eq(extension, "webp") || str_eq(extension, "tiff") || str_eq(extension, "tif")
}

/// Whether a lower-cased extension is a video's.
pub fn is_video_file(extension: &str) -> (r: bool)
    ensures
        r == is_video_extension(extension@),
{
    str_eq(extension, "mp4") || str_eq(extension, "mov") || str_eq(extension, "avi") || str_eq(
        extension,
        "mkv",
    ) || str_eq(extension, "m4v") || str_eq(extension, "3gp") || str_eq(extension, "wmv")
        || str_eq(extension, "flv") || str_eq(extension, "webm") || str_eq(extension, "mpeg")
        || str_eq(extension, "mpg")
}

/// Classifies a file by the lower-cased extension of its name.
pub fn media_type_of(file_name: &str, include_videos: bool) -> (r: Option<MediaType>)
    ensures
        r == media_type_spec(file_name@, include_videos),
{
    match file_extension(file_name) {
        Some(e) => {
            let lower = to_ascii_lower(e.as_str());
            if is_image_file(lower.as_str()) {
                Some(MediaType::Photo)
            } else if include_videos && is_video_file(lower.as_str()) {
                Some(MediaType::Video)
            } else {
                None
            }
        },
        None => None,
    }
}

/// The extension output names carry.
pub fn output_extension(file_name: &str) -> (r: String)
    ensures
        r@ == record_extension(file_name@),
{
    match file_extension(file_name) {
        Some(e) => to_ascii_lower(e.as_str()),
        None => {
            let mut s = String::new();
            s.push('j');
            s.push('p');
            s.push('g');
            assert(s@ =~= seq!['j', 'p', 'g']);
            s
        },
    }
}

/// A present, real date-time.
pub open spec fn usable(d: Option<LocalDateTime>) -> bool {
    d matches Some(x) && x.wf()
}

/// The priority chain: the EXIF capture time (with its subsecond), else a
/// date in the file name, else the creation time, else the modification
/// time; `None` where no tier gives a real date-time.
pub open spec fn resolved_date(
    exif: ExifInfo,
    name: Seq<char>,
    created: Option<LocalDateTime>,
    modified: Option<LocalDateTime>,
) -> Option<(LocalDateTime, DateSource, Option<u32>)> {
    if usable(exif.date) {
        Some((exif.date.unwrap(), DateSource::Exif, exif.subsec))
    } else if file_name_date(name) is Some {
        Some((file_name_date(name).unwrap(), DateSource::FileName, None))
    } else if usable(created) {
        Some((created.unwrap(), DateSource::FileCreated, None))
    } else if usable(modified) {
        Some((modified.unwrap(), DateSource::FileModified, None))
    } else {
        None
    }
}

fn usable_exec(d: &Option<LocalDateTime>) -> (r: bool)
    ensures
        r == usable(*d),
{
    match d {
        Some(x) => x.is_valid(),
        None => false,
    }
}

/// Resolves a file's timestamp through the priority chain.
pub fn resolve_date(
    exif: &ExifInfo,
    file_name: &str,
    created: &Option<LocalDateTime>,
    modified: &Option<LocalDateTime>,
) -> (r: Option<(LocalDateTime, DateSource, Option<u32>)>)
    ensures
        r == resolved_date(*exif, file_name@, *created, *modified),
        r matches Some(t) ==> t.0.wf(),
{
    if usable_exec(&exif.date) {
        return Some((exif.date.unwrap(), DateSource::Exif, exif.subsec));
    }
    match extract_date_from_filename(file_name) {
        Some(d) => return Some((d, DateSource::FileName, None)),
        None => {},
    }
    if usable_exec(created) {
        return Some((created.unwrap(), DateSource::FileCreated, None));
    }
    if usable_exec(modified) {
        return Some((modified.unwrap(), DateSource::FileModified, None));
    }
    None
}

/// Record invariant: a real capture date, and a subsecond below a second.
pub open spec fn record_wf(m: MediaInfo) -> bool {
    &&& m.date_taken.wf()
    &&& m.subsec_time matches Some(ms) ==> ms <= 999
}

/// `m` is the record built for a file: its date, source and subsecond come
/// from the priority chain, it is named `<timestamp>[-SSS].<ext>`, keeps the
/// EXIF zone offset only when its date came from EXIF, and is neither in a
/// burst nor copied yet.
pub open spec fn record_of(facts: FileFacts, media_type: MediaType, exif: ExifInfo, m: MediaInfo) -> bool {
    let t = resolved_date(exif, facts.file_name@, facts.created, facts.modified).unwrap();
    &&& record_wf(m)
    &&& m.date_taken == t.0
    &&& m.date_source == t.1
    &&& m.subsec_time == t.2
    &&& m.timezone == (if t.1 == DateSource::Exif {
        exif.timezone
    } else {
        None
    })
    &&& m.new_name@ == file_name_text(t.0, t.2, record_extension(facts.file_name@))
    &&& m.new_path@.len() == 0
    &&& m.original_path == facts.original_path
    &&& m.file_name == facts.file_name
    &&& m.media_type == media_type
    &&& m.file_size == facts.file_size
    &&& m.burst_group_id is None && m.burst_index is None
    &&& m.exif_orientation == exif.orientation
    &&& !m.rotation_applied
    &&& m.width == exif.width && m.height == exif.height
}

/// Naming is deterministic: two records built from the same file facts and
/// EXIF data carry the same new name.
pub proof fn lemma_naming_deterministic(
    facts: FileFacts,
    media_type: MediaType,
    exif: ExifInfo,
    first: MediaInfo,
    second: MediaInfo,
)
    requires
        record_of(facts, media_type, exif, first),
        record_of(facts, media_type, exif, second),
    ensures
        first.new_name@ == second.new_name@,
        first.date_taken == second.date_taken,
{
}

/// Builds the record of a media file, or `None` where no tier of the chain
/// gives it a date. The record is named `<timestamp>[-SSS].<ext>`, keeps the
/// EXIF zone offset only when its date came from EXIF, and is neither in a
/// burst nor copied yet.
pub fn build_media_info(facts: FileFacts, media_type: MediaType, exif: ExifInfo) -> (r: Option<
    MediaInfo,
>)
    requires
        exif.wf(),
    ensures
        r is Some <==> resolved_date(exif, facts.file_name@, facts.created, facts.modified) is Some,
        r matches Some(m) ==> record_of(facts, media_type, exif, m),
{
    let (date, source, subsec) = match resolve_date(
        &exif,
        facts.file_name.as_str(),
        &facts.created,
        &facts.modified,
    ) {
        Some(t) => t,
        None => return None,
    };
    let ext = output_extension(facts.file_name.as_str());
    let new_name = format_filename(&date, subsec, ext.as_str());
    let timezone = match source {
        DateSource::Exif => exif.timezone,
        _ => None,
    };
    Some(
        MediaInfo {
            original_path: facts.original_path,
            file_name: facts.file_name,
            media_type,
            date_taken: date,
            subsec_time: subsec,
            timezone,
            new_name,
            new_path: String::new(),
            file_size: facts.file_size,
            burst_group_id: None,
            burst_index: None,
            date_source: source,
            exif_orientation: exif.orientation,
            rotation_applied: false,
            width: exif.width,
            height: exif.height,
        },
    )
}

/// `b` is `a` except, perhaps, for its burst fields and its new name.
pub open spec fn same_but_burst(a: MediaInfo, b: MediaInfo) -> bool {
    &&& b.original_path == a.original_path
    &&& b.file_name == a.file_name
    &&& b.media_type == a.media_type
    &&& b.date_taken == a.date_taken
    &&& b.subsec_time == a.subsec_time
    &&& b.timezone == a.timezone
    &&& b.new_path == a.new_path
    &&& b.file_size == a.file_size
    &&& b.date_source == a.date_source
    &&& b.exif_orientation == a.exif_orientation
    &&& b.rotation_applied == a.rotation_applied
    &&& b.width == a.width
    &&& b.height == a.height
}

/// `b` is `a` marked as member `index` (from 1) of burst `id`, and renamed
/// `<base>_NN.<ext>` accordingly.
pub open spec fn burst_annotated(a: MediaInfo, b: MediaInfo, id: int, index: int) -> bool {
    &&& same_but_burst(a, b)
    &&& b.burst_group_id == Some(id as usize)
    &&& b.burst_index == Some(index as usize)
    &&& b.new_name@ == numbered_name_text(
        a.date_taken,
        a.subsec_time,
        index as nat,
        record_extension(a.file_name@),
    )
}

/// `new` is `old` with every group member annotated with its group and
/// position, and every other record unchanged.
pub open spec fn bursts_applied(old: Seq<MediaInfo>, new: Seq<MediaInfo>, groups: Seq<BurstGroup>) -> bool {
    &&& new.len() == old.len()
    &&& forall|g: int, j: int|
        0 <= g < groups.len() && 0 <= j < groups[g].photo_indices@.len() ==> burst_annotated(
            old[#[trigger] groups[g].photo_indices@[j] as int],
            new[groups[g].photo_indices@[j] as int],
            groups[g].id as int,
            j + 1,
        )
    &&& forall|i: int|
        0 <= i < old.len() && (forall|g: int, j: int|
            0 <= g < groups.len() && 0 <= j < groups[g].photo_indices@.len()
                ==> #[trigger] groups[g].photo_indices@[j] != i) ==> new[i] == old[i]
}

/// The capture times of the records, in order.
pub open spec fn dates_of(media: Seq<MediaInfo>) -> Seq<LocalDateTime> {
    Seq::new(media.len(), |i: int| media[i].date_taken)
}

fn annotated(m: &MediaInfo, id: usize, index: usize) -> (r: MediaInfo)
    requires
        record_wf(*m),
    ensures
        burst_annotated(*m, r, id as int, index as int),
        record_wf(r),
{
    let ext = output_extension(m.file_name.as_str());
    let timezone = match &m.timezone {
        Some(z) => Some(z.clone()),
        None => None,
    };
    MediaInfo {
        original_path: m.original_path.clone(),
        file_name: m.file_name.clone(),
        media_type: m.media_type,
        date_taken: m.date_taken,
        subsec_time: m.subsec_time,
        timezone,
        new_name: numbered_filename(&m.date_taken, m.subsec_time, index as u64, ext.as_str()),
        new_path: m.new_path.clone(),
        file_size: m.file_size,
        burst_group_id: Some(id),
        burst_index: Some(index),
        date_source: m.date_source,
        exif_orientation: m.exif_orientation,
        rotation_applied: m.rotation_applied,
        width: m.width,
        height: m.height,
    }
}

/// Marks the members of each group with the group's id and their position
/// (from 1), and renames them `<base>_NN.<ext>`.
#[verifier::spinoff_prover]
pub fn apply_bursts(media: &mut Vec<MediaInfo>, groups: &[BurstGroup])
    requires
        forall|i: int| 0 <= i < old(media)@.len() ==> #[trigger] record_wf(old(media)@[i]),
        groups_ordered(groups@),
        forall|g: int, j: int|
            0 <= g < groups@.len() && 0 <= j < groups@[g].photo_indices@.len()
                ==> #[trigger] groups@[g].photo_indices@[j] < old(media)@.len(),
    ensures
        bursts_applied(old(media)@, final(media)@, groups@),
        forall|i: int| 0 <= i < final(media)@.len() ==> #[trigger] record_wf(final(media)@[i]),
{
    let ghost start = media@;
    let mut g: usize = 0;
    while g < groups.len()
        invariant
            groups_ordered(groups@),
            forall|h: int, l: int|
                0 <= h < groups@.len() && 0 <= l < groups@[h].photo_indices@.len()
                    ==> #[trigger] groups@[h].photo_indices@[l] < start.len(),
            forall|i: int| 0 <= i < start.len() ==> #[trigger] record_wf(start[i]),
            g <= groups@.len(),
            media@.len() == start.len(),
            forall|i: int| 0 <= i < media@.len() ==> #[trigger] record_wf(media@[i]),
            forall|h: int, l: int|
                0 <= h < g && 0 <= l < groups@[h].photo_indices@.len() ==> burst_annotated(
                    start[#[trigger] groups@[h].photo_indices@[l] as int],
                    media@[groups@[h].photo_indices@[l] as int],
                    groups@[h].id as int,
                    l + 1,
                ),
            forall|i: int|
                0 <= i < start.len() && (forall|h: int, l: int|
                    0 <= h < g && 0 <= l < groups@[h].photo_indices@.len()
                        ==> #[trigger] groups@[h].photo_indices@[l] != i) ==> media@[i] == start[i],
        decreases groups.len() - g,
    {
        let group = &groups[g];
        let mut j: usize = 0;
        while j < group.photo_indices.len()
            invariant
                groups_ordered(groups@),
                forall|h: int, l: int|
                    0 <= h < groups@.len() && 0 <= l < groups@[h].photo_indices@.len()
                        ==> #[trigger] groups@[h].photo_indices@[l] < start.len(),
                forall|i: int| 0 <= i < start.len() ==> #[trigger] record_wf(start[i]),
                g < groups@.len(),
                *group == groups@[g as int],
                j <= group.photo_indices@.len(),
                media@.len() == start.len(),
                forall|i: int| 0 <= i < media@.len() ==> #[trigger] record_wf(media@[i]),
                forall|h: int, l: int|
                    (0 <= h < g && 0 <= l < groups@[h].photo_indices@.len()) || (h == g && 0 <= l < j)
                        ==> burst_annotated(
                        start[#[trigger] groups@[h].photo_indices@[l] as int],
                        media@[groups@[h].photo_indices@[l] as int],
                        groups@[h].id as int,
                        l + 1,
                    ),
                forall|i: int|
                    0 <= i < start.len() && (forall|h: int, l: int|
                        (0 <= h < g && 0 <= l < groups@[h].photo_indices@.len()) || (h == g && 0 <= l
                            < j) ==> #[trigger] groups@[h].photo_indices@[l] != i) ==> media@[i]
                        == start[i],
            decreases group.photo_indices.len() - j,
        {
            let idx = group.photo_indices[j];
            assert(groups@[g as int].photo_indices@[j as int] == idx);
            let ghost before = media@;
            proof {
                // `idx` was not touched yet: it differs from every member handled so far.
                assert forall|h: int, l: int|
                    (0 <= h < g && 0 <= l < groups@[h].photo_indices@.len()) || (h == g && 0 <= l < j)
                    implies #[trigger] groups@[h].photo_indices@[l] != idx by {
                    if h < g {
                        assert(groups@[h].photo_indices@[l] < groups@[g as int].photo_indices@[j as int]);
                    } else {
                        assert(groups@[g as int].photo_indices@[l] < groups@[g as int].photo_indices@[j as int]);
                    }
                }
                assert(before[idx as int] == start[idx as int]);
            }
            let rec = annotated(&media[idx], group.id, j + 1);
            media[idx] = rec;
            proof {
                assert forall|h: int, l: int|
                    (0 <= h < g && 0 <= l < groups@[h].photo_indices@.len()) || (h == g && 0 <= l < j + 1)
                    implies burst_annotated(
                        start[#[trigger] groups@[h].photo_indices@[l] as int],
                        media@[groups@[h].photo_indices@[l] as int],
                        groups@[h].id as int,
                        l + 1,
                    ) by {
                    if h == g && l == j {
                    } else {
                        assert(groups@[h].photo_indices@[l] != idx);
                    }
                }
            }
            j = j + 1;
        }
        proof {
            assert forall|h: int, l: int|
                0 <= h < g + 1 && 0 <= l < groups@[h].photo_indices@.len() implies burst_annotated(
                    start[#[trigger] groups@[h].photo_indices@[l] as int],
                    media@[groups@[h].photo_indices@[l] as int],
                    groups@[h].id as int,
                    l + 1,
                ) by {
                if h == g {
                    assert(l < j);
                }
            }
            assert forall|i: int|
                0 <= i < start.len() && (forall|h: int, l: int|
                    0 <= h < g + 1 && 0 <= l < groups@[h].photo_indices@.len()
                        ==> #[trigger] groups@[h].photo_indices@[l] != i) implies media@[i] == start[i] by {
                assert forall|h: int, l: int|
                    (0 <= h < g && 0 <= l < groups@[h].photo_indices@.len()) || (h == g && 0 <= l < j)
                    implies #[trigger] groups@[h].photo_indices@[l] != i by {
                    assert(0 <= h < g + 1 && 0 <= l < groups@[h].photo_indices@.len());
                }
            }
        }
        g = g + 1;
    }
}

/// Completes a scan: finds the bursts among the records in scan order, with
/// the default thresholds, and annotates and renames their members.
#[verifier::spinoff_prover]
pub fn finish_scan(media: Vec<MediaInfo>) -> (r: Vec<MediaInfo>)
    requires
        forall|i: int| 0 <= i < media@.len() ==> #[trigger] record_wf(media@[i]),
    ensures
        exists|groups: Seq<BurstGroup>|
            is_detection(dates_of(media@), (BurstDetectorConfig { max_interval_seconds: 3, min_count: 3 }), groups) && bursts_applied(
                media@,
                r@,
                groups,
            ),
        forall|i: int| 0 <= i < r@.len() ==> #[trigger] record_wf(r@[i]),
{
    let mut media = media;
    let mut dates: Vec<LocalDateTime> = Vec::new();
    let mut i: usize = 0;
    while i < media.len()
        invariant
            i <= media@.len(),
            dates@ == dates_of(media@).subrange(0, i as int),
            forall|k: int| 0 <= k < media@.len() ==> #[trigger] record_wf(media@[k]),
        decreases media.len() - i,
    {
        dates.push(media[i].date_taken);
        i = i + 1;
        assert(dates@ =~= dates_of(media@).subrange(0, i as int));
    }
    assert(dates@ =~= dates_of(media@));
    assert forall|k: int| 0 <= k < dates@.len() implies #[trigger] dates@[k].wf() by {
        assert(record_wf(media@[k]));
    }
    let config = BurstDetectorConfig::default();
    let groups = detect_bursts(dates.as_slice(), &config);
    proof {
        assert forall|g: int, j: int|
            0 <= g < groups@.len() && 0 <= j < groups@[g].photo_indices@.len()
            implies #[trigger] groups@[g].photo_indices@[j] < media@.len() by {
            assert(crate::burst::is_burst(dates@, config, groups@[g], g));
            assert(groups@[g].photo_indices@[j] == crate::burst::first_index(groups@[g]) + j);
        }
    }
    let ghost before = media@;
    apply_bursts(&mut media, groups.as_slice());
    assert(is_detection(dates_of(before), config, groups@) && bursts_applied(before, media@, groups@));
    media
}

} // verus!
