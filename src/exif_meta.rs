//! Capture metadata read from an image's EXIF fields: the capture time, its
//! subsecond and zone offset, the orientation and the pixel dimensions.
use vstd::prelude::*;
use chrono::{Datelike, Timelike};
use crate::datetime::LocalDateTime;
use crate::filename_date::{digits_at, number_at};
use crate::text::{chars_of, digit_value, is_ascii_digit};

verus! {

#[verifier::external_type_specification]
#[verifier::external_body]
pub struct ExExif(exif::Exif);

/// The EXIF fields the resolver reads.
#[derive(Clone, Copy, Debug, PartialEq, Eq)]
pub enum ExifTag {
    DateTimeOriginal,
    DateTime,
    SubSecTimeOriginal,
    SubSecTime,
    OffsetTimeOriginal,
    OffsetTime,
    Orientation,
    PixelXDimension,
    PixelYDimension,
}

/// The first component of an EXIF field's value.
#[derive(Clone, Debug)]
pub enum TagValue {
    /// An ASCII field: its first string, if any, without the trailing NUL.
    Ascii(Option<Vec<u8>>),
    /// A SHORT field: its first number, if any.
    Short(Option<u16>),
    /// A LONG field: its first number, if any.
    Long(Option<u32>),
    /// A field of another type.
    Other,
}

/// What the resolver learnt from an image's EXIF fields.
#[derive(Clone, Debug)]
pub struct ExifInfo {
    pub date: Option<LocalDateTime>,
    /// Milliseconds, 0 to 999.
    pub subsec: Option<u32>,
    /// Zone offset as written, e.g. `+09:00`.
    pub timezone: Option<String>,
    /// EXIF Orientation value, 1 to 8.
    pub orientation: Option<u32>,
    pub width: Option<u32>,
    pub height: Option<u32>,
}

/// The raw values of the fields the resolver reads, each `None` where the
/// image has no such field.
#[derive(Clone, Debug)]
pub struct ExifTags {
    pub date_time_original: Option<TagValue>,
    pub date_time: Option<TagValue>,
    pub sub_sec_time_original: Option<TagValue>,
    pub sub_sec_time: Option<TagValue>,
    pub offset_time_original: Option<TagValue>,
    pub offset_time: Option<TagValue>,
    pub orientation: Option<TagValue>,
    pub pixel_x_dimension: Option<TagValue>,
    pub pixel_y_dimension: Option<TagValue>,
}

/// Directory and number of each tag, as `tag_id` gives them.
pub open spec fn tag_id_spec(tag: ExifTag) -> (bool, u16) {
    match tag {
        ExifTag::DateTimeOriginal => (false, 0x9003),
        ExifTag::DateTime => (true, 0x0132),
        ExifTag::SubSecTimeOriginal => (false, 0x9291),
        ExifTag::SubSecTime => (false, 0x9290),
        ExifTag::OffsetTimeOriginal => (false, 0x9011),
        ExifTag::OffsetTime => (false, 0x9010),
        ExifTag::Orientation => (true, 0x0112),
        ExifTag::PixelXDimension => (false, 0xa002),
        ExifTag::PixelYDimension => (false, 0xa003),
    }
}

/// Directory and number of each tag: `true` for the TIFF (0th) directory,
/// `false` for the EXIF sub-directory.
pub fn tag_id(tag: ExifTag) -> (r: (bool, u16))
    ensures
        r == tag_id_spec(tag),
{
    match tag {
        ExifTag::DateTimeOriginal => (false, 0x9003),
        ExifTag::DateTime => (true, 0x0132),
        ExifTag::SubSecTimeOriginal => (false, 0x9291),
        ExifTag::SubSecTime => (false, 0x9290),
        ExifTag::OffsetTimeOriginal => (false, 0x9011),
        ExifTag::OffsetTime => (false, 0x9010),
        ExifTag::Orientation => (true, 0x0112),
        ExifTag::PixelXDimension => (false, 0xa002),
        ExifTag::PixelYDimension => (false, 0xa003),
    }
}

/// The field of the primary image with this directory and number, reduced
/// to the first component of its value, as `Exif::get_field` finds it.
pub uninterp spec fn exif_field(e: exif::Exif, tiff_dir: bool, number: u16) -> Option<TagValue>;

/// Relies on `exif::Exif::get_field`: the field with this directory and
/// number in the primary image, reduced to the first component of its value;
/// it depends on the parsed data and the tag alone.
#[verifier::external_body]
fn primary_field(exif: &exif::Exif, tiff_dir: bool, number: u16) -> (r: Option<TagValue>)
    ensures
        r == exif_field(*exif, tiff_dir, number),
{
    let context = if tiff_dir { exif::Context::Tiff } else { exif::Context::Exif };
    let field = exif.get_field(exif::Tag(context, number), exif::In::PRIMARY)?;
    Some(
        match &field.value {
            exif::Value::Ascii(v) => TagValue::Ascii(v.first().cloned()),
            exif::Value::Short(v) => TagValue::Short(v.first().copied()),
            exif::Value::Long(v) => TagValue::Long(v.first().copied()),
            _ => TagValue::Other,
        },
    )
}

/// The characters that `from_utf8_lossy` decodes from `b`.
pub uninterp spec fn utf8_lossy(b: Seq<u8>) -> Seq<char>;

/// Relies on `String::from_utf8_lossy`: the text of the bytes, where bytes
/// below 128 each stand for the ASCII character of that code.
#[verifier::external_body]
fn decode_lossy(b: &Vec<u8>) -> (r: String)
    ensures
        r@ == utf8_lossy(b@),
        (forall|i: int| 0 <= i < b@.len() ==> #[trigger] b@[i] < 128) ==> r@ == b@.map_values(
            |x: u8| x as char,
        ),
{
    String::from_utf8_lossy(b).into_owned()
}

/// Characters that `char::is_whitespace` accepts (Unicode `White_Space`).
pub open spec fn is_white(c: char) -> bool {
    ||| '\t' <= c <= '\r'
    ||| c == ' '
    ||| c == '\u{85}'
    ||| c == '\u{a0}'
    ||| c == '\u{1680}'
    ||| '\u{2000}' <= c <= '\u{200a}'
    ||| c == '\u{2028}'
    ||| c == '\u{2029}'
    ||| c == '\u{202f}'
    ||| c == '\u{205f}'
    ||| c == '\u{3000}'
}

/// `s` without leading and trailing white space.
pub open spec fn trimmed(s: Seq<char>) -> Seq<char> {
    if exists|i: int| 0 <= i < s.len() && !is_white(#[trigger] s[i]) {
        let a = choose|a: int|
            0 <= a < s.len() && !is_white(s[a]) && forall|k: int| 0 <= k < a ==> is_white(#[trigger] s[k]);
        let b = choose|b: int|
            0 <= b < s.len() && !is_white(s[b]) && forall|k: int| b < k < s.len() ==> is_white(#[trigger] s[k]);
        s.subrange(a, b + 1)
    } else {
        Seq::empty()
    }
}

fn is_white_exec(c: char) -> (r: bool)
    ensures
        r == is_white(c),
{
    ('\t' <= c && c <= '\r') || c == ' ' || c == '\u{85}' || c == '\u{a0}' || c == '\u{1680}' || (
    '\u{2000}' <= c && c <= '\u{200a}') || c == '\u{2028}' || c == '\u{2029}' || c == '\u{202f}'
        || c == '\u{205f}' || c == '\u{3000}'
}

/// The characters of `s` without leading and trailing white space.
pub fn trim_chars(s: &Vec<char>) -> (r: Vec<char>)
    ensures
        r@ == trimmed(s@),
{
    let n = s.len();
    let mut a: usize = 0;
    while a < n && is_white_exec(s[a])
        invariant
            n == s@.len(),
            a <= n,
            forall|k: int| 0 <= k < a ==> is_white(#[trigger] s@[k]),
        decreases n - a,
    {
        a = a + 1;
    }
    if a == n {
        assert(!exists|i: int| 0 <= i < s@.len() && !is_white(#[trigger] s@[i]));
        return Vec::new();
    }
    let mut b: usize = n - 1;
    while is_white_exec(s[b])
        invariant
            n == s@.len(),
            a <= b < n,
            !is_white(s@[a as int]),
            forall|k: int| b < k < n ==> is_white(#[trigger] s@[k]),
        decreases b,
    {
        b = b - 1;
    }
    let ghost ca = choose|ca: int|
        0 <= ca < s@.len() && !is_white(s@[ca]) && forall|k: int| 0 <= k < ca ==> is_white(#[trigger] s@[k]);
    let ghost cb = choose|cb: int|
        0 <= cb < s@.len() && !is_white(s@[cb]) && forall|k: int| cb < k < s@.len() ==> is_white(#[trigger] s@[k]);
    assert(0 <= a < s@.len() && !is_white(s@[a as int]) && forall|k: int| 0 <= k < a ==> is_white(#[trigger] s@[k]));
    assert(0 <= b < s@.len() && !is_white(s@[b as int]) && forall|k: int| b < k < s@.len() ==> is_white(#[trigger] s@[k]));
    assert(ca == a) by {
        if ca < a {
            assert(is_white(s@[ca]));
        }
        if ca > a {
            assert(is_white(s@[a as int]));
        }
    }
    assert(cb == b) by {
        if cb < b {
            assert(is_white(s@[b as int]));
        }
        if cb > b {
            assert(is_white(s@[cb]));
        }
    }
    let mut r: Vec<char> = Vec::new();
    let mut k: usize = a;
    while k <= b
        invariant
            n == s@.len(),
            a <= k <= b + 1,
            b < n,
            r@ == s@.subrange(a as int, k as int),
        decreases b + 1 - k,
    {
        r.push(s[k]);
        k = k + 1;
        assert(r@ =~= s@.subrange(a as int, k as int));
    }
    r
}

/// The number `str::parse::<u32>` reads: an optional `+`, then one or more
/// ASCII digits, with a value that fits in `u32`.
pub open spec fn unsigned_text(s: Seq<char>) -> Option<nat> {
    let d = if s.len() > 0 && s[0] == '+' {
        s.drop_first()
    } else {
        s
    };
    if d.len() > 0 && digits_at(d, 0, d.len() as int) && number_at(d, 0, d.len() as int) <= u32::MAX {
        Some(number_at(d, 0, d.len() as int))
    } else {
        None
    }
}

/// A subsecond field: the trimmed text as a number of milliseconds, 0 to 999.
#[verifier::opaque]
pub open spec fn subsec_text(t: Seq<char>) -> Option<u32> {
    match unsigned_text(trimmed(t)) {
        Some(v) => if v <= 999 {
            Some(v as u32)
        } else {
            None
        },
        None => None,
    }
}

/// An offset field: the trimmed text, unless it is empty.
#[verifier::opaque]
pub open spec fn offset_text(t: Seq<char>) -> Option<Seq<char>> {
    if trimmed(t).len() > 0 {
        Some(trimmed(t))
    } else {
        None
    }
}

/// The date and time that `NaiveDateTime::parse_from_str` reads from `text`
/// with `layout`, as calendar fields.
pub uninterp spec fn datetime_parsed(text: Seq<char>, layout: Seq<char>) -> Option<LocalDateTime>;

/// Relies on `chrono::NaiveDateTime::parse_from_str`: the date and time the
/// text holds in the layout, or `None` where it does not fit it.
#[verifier::external_body]
fn parse_datetime_with(text: &str, layout: &str) -> (r: Option<LocalDateTime>)
    ensures
        r == datetime_parsed(text@, layout@),
{
    chrono::NaiveDateTime::parse_from_str(text, layout).ok().map(|t| LocalDateTime {
        year: t.year(),
        month: t.month(),
        day: t.day(),
        hour: t.hour(),
        minute: t.minute(),
        second: t.second(),
        nanosecond: t.nanosecond(),
    })
}

/// A date-time field: what the layout `%Y:%m:%d %H:%M:%S` reads from it,
/// where that is a date-time of the years 0000 to 9999 (`LocalDateTime::wf`).
pub open spec fn exif_date_text(s: Seq<char>) -> Option<LocalDateTime> {
    match datetime_parsed(s, "%Y:%m:%d %H:%M:%S"@) {
        Some(d) => if d.wf() {
            Some(d)
        } else {
            None
        },
        None => None,
    }
}

/// A longer run of digits never reads as a smaller number.
proof fn lemma_number_grows(s: Seq<char>, i: int, m: int, n: int)
    requires
        0 <= m <= n,
    ensures
        number_at(s, i, m) <= number_at(s, i, n),
    decreases n - m,
{
    if m < n {
        lemma_number_grows(s, i, m, n - 1);
    }
}

/// Reads an unsigned 32-bit number the way `str::parse::<u32>` does.
#[verifier::spinoff_prover]
fn parse_u32_chars(s: &Vec<char>) -> (r: Option<u32>)
    ensures
        match unsigned_text(s@) {
            Some(v) => r == Some(v as u32),
            None => r is None,
        },
{
    let n = s.len();
    let start: usize = if n > 0 && s[0] == '+' {
        1
    } else {
        0
    };
    let ghost d = if s@.len() > 0 && s@[0] == '+' {
        s@.drop_first()
    } else {
        s@
    };
    assert(d =~= s@.subrange(start as int, n as int));
    assert(unsigned_text(s@) == (if d.len() > 0 && digits_at(d, 0, d.len() as int) && number_at(
        d,
        0,
        d.len() as int,
    ) <= u32::MAX {
        Some(number_at(d, 0, d.len() as int))
    } else {
        None::<nat>
    }));
    if start == n {
        return None;
    }
    let mut acc: u32 = 0;
    let mut k: usize = start;
    while k < n
        invariant
            n == s@.len(),
            start <= k <= n,
            d == s@.subrange(start as int, n as int),
            forall|m: int| 0 <= m < k - start ==> #[trigger] is_ascii_digit(d[m]),
            acc == number_at(d, 0, k - start),
            unsigned_text(s@) == (if d.len() > 0 && digits_at(d, 0, d.len() as int) && number_at(
                d,
                0,
                d.len() as int,
            ) <= u32::MAX {
                Some(number_at(d, 0, d.len() as int))
            } else {
                None::<nat>
            }),
        decreases n - k,
    {
        let c = s[k];
        if !('0' <= c && c <= '9') {
            assert(!is_ascii_digit(d[k - start]));
            assert(!digits_at(d, 0, d.len() as int));
            assert(unsigned_text(s@) is None);
            return None;
        }
        let v = (c as u32) - 48;
        assert(v == digit_value(d[k - start]));
        if acc > 429496729 || (acc == 429496729 && v > 5) {
            proof {
                assert(number_at(d, 0, k - start + 1) == acc * 10 + v);
                lemma_number_grows(d, 0, k - start + 1, d.len() as int);
                assert(unsigned_text(s@) is None);
            }
            return None;
        }
        acc = acc * 10 + v;
        k = k + 1;
    }
    Some(acc)
}

/// Parses a subsecond field, e.g. `" 042"`, into milliseconds (0 to 999).
pub fn parse_subsec(text: &str) -> (r: Option<u32>)
    ensures
        r == subsec_text(text@),
        r matches Some(ms) ==> ms <= 999,
{
    reveal(subsec_text);
    let cs = chars_of(text);
    let t = trim_chars(&cs);
    match parse_u32_chars(&t) {
        Some(v) => if v <= 999 {
            Some(v)
        } else {
            None
        },
        None => None,
    }
}

/// Parses a zone offset field: its trimmed text, unless that is empty.
pub fn parse_offset(text: &str) -> (r: Option<String>)
    ensures
        match offset_text(text@) {
            Some(o) => r matches Some(z) && z@ == o,
            None => r is None,
        },
{
    reveal(offset_text);
    let cs = chars_of(text);
    let t = trim_chars(&cs);
    if t.len() == 0 {
        return None;
    }
    let mut z = String::new();
    let mut k: usize = 0;
    while k < t.len()
        invariant
            k <= t@.len(),
            z@ == t@.subrange(0, k as int),
        decreases t.len() - k,
    {
        z.push(t[k]);
        k = k + 1;
        assert(z@ =~= t@.subrange(0, k as int));
    }
    assert(t@.subrange(0, t@.len() as int) =~= t@);
    Some(z)
}

/// Parses an EXIF date-time in the layout `YYYY:MM:DD HH:MM:SS`.
pub fn parse_exif_datetime(text: &str) -> (r: Option<LocalDateTime>)
    ensures
        r == exif_date_text(text@),
        r matches Some(d) ==> d.wf(),
{
    match parse_datetime_with(text, "%Y:%m:%d %H:%M:%S") {
        Some(d) => if d.is_valid() {
            Some(d)
        } else {
            None
        },
        None => None,
    }
}

/// The text of an ASCII field's first string.
pub open spec fn ascii_text(v: Option<TagValue>) -> Option<Seq<char>> {
    match v {
        Some(TagValue::Ascii(Some(b))) => Some(utf8_lossy(b@)),
        _ => None,
    }
}

pub open spec fn date_field(v: Option<TagValue>) -> Option<LocalDateTime> {
    match ascii_text(v) {
        Some(t) => exif_date_text(t),
        None => None,
    }
}

pub open spec fn subsec_field(v: Option<TagValue>) -> Option<u32> {
    match ascii_text(v) {
        Some(t) => subsec_text(t),
        None => None,
    }
}

pub open spec fn offset_field(v: Option<TagValue>) -> Option<Seq<char>> {
    match ascii_text(v) {
        Some(t) => offset_text(t),
        None => None,
    }
}

/// An Orientation field: its value where it is one of 1 to 8.
pub open spec fn short_field(v: Option<TagValue>) -> Option<u32> {
    match v {
        Some(TagValue::Short(Some(x))) => if 1 <= x <= 8 {
            Some(x as u32)
        } else {
            None
        },
        _ => None,
    }
}

pub open spec fn long_field(v: Option<TagValue>) -> Option<u32> {
    match v {
        Some(TagValue::Long(Some(x))) => Some(x),
        _ => None,
    }
}

/// `a` where it is present, else `b`.
pub open spec fn first_present<T>(a: Option<T>, b: Option<T>) -> Option<T> {
    if a is Some {
        a
    } else {
        b
    }
}

pub open spec fn string_view(o: Option<String>) -> Option<Seq<char>> {
    match o {
        Some(z) => Some(z@),
        None => None,
    }
}

/// What the fields give: each value from the `...Original` field where that
/// one yields it, else from the plain field.
pub open spec fn info_of_tags(tags: ExifTags, r: ExifInfo) -> bool {
    &&& r.date == first_present(date_field(tags.date_time_original), date_field(tags.date_time))
    &&& r.subsec == first_present(subsec_field(tags.sub_sec_time_original), subsec_field(tags.sub_sec_time))
    &&& string_view(r.timezone) == first_present(
        offset_field(tags.offset_time_original),
        offset_field(tags.offset_time),
    )
    &&& r.orientation == short_field(tags.orientation)
    &&& r.width == long_field(tags.pixel_x_dimension)
    &&& r.height == long_field(tags.pixel_y_dimension)
}

impl ExifInfo {
    /// Values within their documented ranges.
    pub open spec fn wf(&self) -> bool {
        &&& self.date matches Some(d) ==> d.wf()
        &&& self.subsec matches Some(ms) ==> ms <= 999
        &&& self.orientation matches Some(o) ==> 1 <= o <= 8
    }

    /// No EXIF data at all.
    pub fn empty() -> (r: Self)
        ensures
            r.date is None && r.subsec is None && r.timezone is None,
            r.orientation is None && r.width is None && r.height is None,
    {
        ExifInfo { date: None, subsec: None, timezone: None, orientation: None, width: None, height: None }
    }
}

fn field_date(v: &Option<TagValue>) -> (r: Option<LocalDateTime>)
    ensures
        r == date_field(*v),
        r matches Some(d) ==> d.wf(),
{
    match v {
        Some(TagValue::Ascii(Some(b))) => {
            let t = decode_lossy(b);
            parse_exif_datetime(t.as_str())
        },
        _ => None,
    }
}

fn field_subsec(v: &Option<TagValue>) -> (r: Option<u32>)
    ensures
        r == subsec_field(*v),
        r matches Some(ms) ==> ms <= 999,
{
    match v {
        Some(TagValue::Ascii(Some(b))) => {
            let t = decode_lossy(b);
            parse_subsec(t.as_str())
        },
        _ => None,
    }
}

fn field_offset(v: &Option<TagValue>) -> (r: Option<String>)
    ensures
        string_view(r) == offset_field(*v),
{
    match v {
        Some(TagValue::Ascii(Some(b))) => {
            let t = decode_lossy(b);
            parse_offset(t.as_str())
        },
        _ => None,
    }
}

/// Capture metadata from raw field values, preferring each `...Original`
/// field over its plain counterpart.
#[verifier::spinoff_prover]
pub fn exif_info_from_tags(tags: &ExifTags) -> (r: ExifInfo)
    ensures
        info_of_tags(*tags, r),
        r.wf(),
{
    let date = match field_date(&tags.date_time_original) {
        Some(d) => Some(d),
        None => field_date(&tags.date_time),
    };
    let subsec = match field_subsec(&tags.sub_sec_time_original) {
        Some(ms) => Some(ms),
        None => field_subsec(&tags.sub_sec_time),
    };
    let timezone = match field_offset(&tags.offset_time_original) {
        Some(z) => Some(z),
        None => field_offset(&tags.offset_time),
    };
    let orientation = match &tags.orientation {
        Some(TagValue::Short(Some(x))) => if 1 <= *x && *x <= 8 {
            Some(*x as u32)
        } else {
            None
        },
        _ => None,
    };
    let width = match &tags.pixel_x_dimension {
        Some(TagValue::Long(Some(x))) => Some(*x),
        _ => None,
    };
    let height = match &tags.pixel_y_dimension {
        Some(TagValue::Long(Some(x))) => Some(*x),
        _ => None,
    };
    ExifInfo { date, subsec, timezone, orientation, width, height }
}

/// The raw value of one tag in parsed EXIF data.
pub open spec fn field_of(e: exif::Exif, tag: ExifTag) -> Option<TagValue> {
    exif_field(e, tag_id_spec(tag).0, tag_id_spec(tag).1)
}

/// The raw values of the fields the resolver reads, from parsed EXIF data.
pub open spec fn exif_tags_of(e: exif::Exif) -> ExifTags {
    ExifTags {
        date_time_original: field_of(e, ExifTag::DateTimeOriginal),
        date_time: field_of(e, ExifTag::DateTime),
        sub_sec_time_original: field_of(e, ExifTag::SubSecTimeOriginal),
        sub_sec_time: field_of(e, ExifTag::SubSecTime),
        offset_time_original: field_of(e, ExifTag::OffsetTimeOriginal),
        offset_time: field_of(e, ExifTag::OffsetTime),
        orientation: field_of(e, ExifTag::Orientation),
        pixel_x_dimension: field_of(e, ExifTag::PixelXDimension),
        pixel_y_dimension: field_of(e, ExifTag::PixelYDimension),
    }
}

pub(crate) fn read_field(exif: &exif::Exif, tag: ExifTag) -> (r: Option<TagValue>)
    ensures
        r == field_of(*exif, tag),
{
    let (tiff_dir, number) = tag_id(tag);
    primary_field(exif, tiff_dir, number)
}

/// Reads the fields the resolver needs from parsed EXIF data.
pub fn read_exif_tags(exif: &exif::Exif) -> (r: ExifTags)
    ensures
        r == exif_tags_of(*exif),
{
    ExifTags {
        date_time_original: read_field(exif, ExifTag::DateTimeOriginal),
        date_time: read_field(exif, ExifTag::DateTime),
        sub_sec_time_original: read_field(exif, ExifTag::SubSecTimeOriginal),
        sub_sec_time: read_field(exif, ExifTag::SubSecTime),
        offset_time_original: read_field(exif, ExifTag::OffsetTimeOriginal),
        offset_time: read_field(exif, ExifTag::OffsetTime),
        orientation: read_field(exif, ExifTag::Orientation),
        pixel_x_dimension: read_field(exif, ExifTag::PixelXDimension),
        pixel_y_dimension: read_field(exif, ExifTag::PixelYDimension),
    }
}

/// Capture metadata of an image; an image without readable EXIF data
/// (`None`) has none of it.
pub fn get_exif_info(exif: Option<&exif::Exif>) -> (r: ExifInfo)
    ensures
        r.wf(),
        exif matches Some(e) ==> info_of_tags(exif_tags_of(*e), r),
        exif is None ==> r.date is None && r.subsec is None && r.timezone is None
            && r.orientation is None && r.width is None && r.height is None,
{
    match exif {
        Some(e) => {
            let tags = read_exif_tags(e);
            exif_info_from_tags(&tags)
        },
        None => ExifInfo::empty(),
    }
}

} // verus!
