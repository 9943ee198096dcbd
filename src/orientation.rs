//! Image orientation: the EXIF Orientation value, pixel rotation, and the
//! in-place reset of the Orientation tag inside a JPEG's EXIF segment.
use vstd::prelude::*;
use img_parts::ImageEXIF;
use crate::exif_meta::{field_of, read_field, ExifTag, TagValue};
use crate::text::{ascii_lower, str_eq, to_ascii_lower};

verus! {

/// How an image must be turned to display upright.
#[derive(Clone, Copy, Debug, PartialEq, Eq, Structural)]
pub enum Orientation {
    /// Value 1: already upright.
    Normal,
    /// Value 3: turned by 180 degrees.
    Rotate180,
    /// Value 6: needs a quarter turn clockwise.
    Rotate90CW,
    /// Value 8: needs a quarter turn counter-clockwise.
    Rotate90CCW,
    /// Any other value: left as it is.
    Unknown,
}

/// The orientation an EXIF Orientation value stands for.
pub open spec fn orientation_of(value: u32) -> Orientation {
    if value == 1 {
        Orientation::Normal
    } else if value == 3 {
        Orientation::Rotate180
    } else if value == 6 {
        Orientation::Rotate90CW
    } else if value == 8 {
        Orientation::Rotate90CCW
    } else {
        Orientation::Unknown
    }
}

impl From<u32> for Orientation {
    fn from(value: u32) -> (r: Self) {
        match value {
            1 => Orientation::Normal,
            3 => Orientation::Rotate180,
            6 => Orientation::Rotate90CW,
            8 => Orientation::Rotate90CCW,
            _ => Orientation::Unknown,
        }
    }
}

impl vstd::std_specs::convert::FromSpecImpl<u32> for Orientation {
    open spec fn obeys_from_spec() -> bool {
        true
    }

    open spec fn from_spec(v: u32) -> Orientation {
        orientation_of(v)
    }
}

/// An image's orientation, and whether it differs from upright.
#[derive(Clone, Copy, Debug)]
pub struct OrientationInfo {
    pub orientation: Orientation,
    pub needs_correction: bool,
}

/// What an Orientation field holds: an image without one counts as upright.
pub fn orientation_info(value: Option<u16>) -> (r: OrientationInfo)
    ensures
        match value {
            Some(v) => r.orientation == orientation_of(v as u32),
            None => r.orientation == Orientation::Normal,
        },
        r.needs_correction == (r.orientation != Orientation::Normal),
{
    match value {
        Some(v) => {
            let orientation = Orientation::from(v as u32);
            OrientationInfo { orientation, needs_correction: orientation != Orientation::Normal }
        },
        None => OrientationInfo { orientation: Orientation::Normal, needs_correction: false },
    }
}

/// The orientation recorded in parsed EXIF data; an image without readable
/// EXIF data, or without a SHORT Orientation field, counts as upright.
pub fn get_orientation(exif: Option<&exif::Exif>) -> (r: OrientationInfo)
    ensures
        r.needs_correction == (r.orientation != Orientation::Normal),
        exif is None ==> r.orientation == Orientation::Normal,
        exif matches Some(e) ==> r.orientation == match field_of(*e, ExifTag::Orientation) {
            Some(TagValue::Short(Some(v))) => orientation_of(v as u32),
            _ => Orientation::Normal,
        },
{
    match exif {
        Some(e) => match read_field(e, ExifTag::Orientation) {
            Some(TagValue::Short(Some(v))) => orientation_info(Some(v)),
            _ => orientation_info(None),
        },
        None => orientation_info(None),
    }
}

#[verifier::external_type_specification]
#[verifier::external_body]
pub struct ExDynamicImage(image::DynamicImage);

/// Width and height of an image's pixel grid.
pub uninterp spec fn pixel_dims(img: image::DynamicImage) -> (u32, u32);

/// The bytes of the pixel at column `x`, row `y`, as the image's buffer holds them.
pub uninterp spec fn pixel_of(img: image::DynamicImage, x: u32, y: u32) -> Seq<u8>;

/// The pixel at `(x, y)` of a `w` by `h` image lands at `(h - 1 - y, x)`.
pub open spec fn turned_clockwise(img: image::DynamicImage, r: image::DynamicImage) -> bool {
    let (w, h) = pixel_dims(img);
    &&& pixel_dims(r) == (h, w)
    &&& forall|x: u32, y: u32|
        x < w && y < h ==> #[trigger] pixel_of(img, x, y) == pixel_of(r, (h - 1 - y) as u32, x)
}

/// The pixel at `(x, y)` of a `w` by `h` image lands at `(w - 1 - x, h - 1 - y)`.
pub open spec fn turned_half(img: image::DynamicImage, r: image::DynamicImage) -> bool {
    let (w, h) = pixel_dims(img);
    &&& pixel_dims(r) == (w, h)
    &&& forall|x: u32, y: u32|
        x < w && y < h ==> #[trigger] pixel_of(img, x, y) == pixel_of(
            r,
            (w - 1 - x) as u32,
            (h - 1 - y) as u32,
        )
}

/// The pixel at `(x, y)` of a `w` by `h` image lands at `(y, w - 1 - x)`.
pub open spec fn turned_counter_clockwise(img: image::DynamicImage, r: image::DynamicImage) -> bool {
    let (w, h) = pixel_dims(img);
    &&& pixel_dims(r) == (h, w)
    &&& forall|x: u32, y: u32|
        x < w && y < h ==> #[trigger] pixel_of(img, x, y) == pixel_of(r, y, (w - 1 - x) as u32)
}

/// Relies on `DynamicImage::rotate90` (`imageops::rotate90`): a quarter turn
/// clockwise, each pixel copied unchanged.
pub assume_specification[ image::DynamicImage::rotate90 ](img: &image::DynamicImage) -> (r:
    image::DynamicImage)
    ensures
        pixel_dims(r) == (pixel_dims(*img).1, pixel_dims(*img).0),
        forall|x: u32, y: u32|
            x < pixel_dims(*img).0 && y < pixel_dims(*img).1 ==> #[trigger] pixel_of(*img, x, y)
                == pixel_of(r, (pixel_dims(*img).1 - 1 - y) as u32, x),
;

/// Relies on `DynamicImage::rotate180` (`imageops::rotate180`): a half turn,
/// each pixel copied unchanged.
pub assume_specification[ image::DynamicImage::rotate180 ](img: &image::DynamicImage) -> (r:
    image::DynamicImage)
    ensures
        pixel_dims(r) == pixel_dims(*img),
        forall|x: u32, y: u32|
            x < pixel_dims(*img).0 && y < pixel_dims(*img).1 ==> #[trigger] pixel_of(*img, x, y)
                == pixel_of(r, (pixel_dims(*img).0 - 1 - x) as u32, (pixel_dims(*img).1 - 1 - y) as u32),
;

/// Relies on `DynamicImage::rotate270` (`imageops::rotate270`): a quarter
/// turn counter-clockwise, each pixel copied unchanged.
pub assume_specification[ image::DynamicImage::rotate270 ](img: &image::DynamicImage) -> (r:
    image::DynamicImage)
    ensures
        pixel_dims(r) == (pixel_dims(*img).1, pixel_dims(*img).0),
        forall|x: u32, y: u32|
            x < pixel_dims(*img).0 && y < pixel_dims(*img).1 ==> #[trigger] pixel_of(*img, x, y)
                == pixel_of(r, y, (pixel_dims(*img).0 - 1 - x) as u32),
;

/// Turns the pixels upright: a quarter turn clockwise for `Rotate90CW`, a
/// half turn for `Rotate180`, a quarter turn counter-clockwise for
/// `Rotate90CCW`; `Normal` and `Unknown` hand the image back untouched.
pub fn correct_orientation(img: image::DynamicImage, orientation: Orientation) -> (r:
    image::DynamicImage)
    ensures
        orientation == Orientation::Normal || orientation == Orientation::Unknown ==> r == img,
        orientation == Orientation::Rotate90CW ==> turned_clockwise(img, r),
        orientation == Orientation::Rotate180 ==> turned_half(img, r),
        orientation == Orientation::Rotate90CCW ==> turned_counter_clockwise(img, r),
{
    match orientation {
        Orientation::Normal => img,
        Orientation::Rotate90CW => img.rotate90(),
        Orientation::Rotate180 => img.rotate180(),
        Orientation::Rotate90CCW => img.rotate270(),
        Orientation::Unknown => img,
    }
}

/// Whether a file extension names a JPEG file (`jpg` or `jpeg`, in any case).
pub fn is_jpeg_extension(extension: &str) -> (r: bool)
    ensures
        r == (ascii_lower(extension@) == "jpg"@ || ascii_lower(extension@) == "jpeg"@),
{
    let lower = to_ascii_lower(extension);
    str_eq(lower.as_str(), "jpg") || str_eq(lower.as_str(), "jpeg")
}

/// Length of the EXIF header (`Exif\0\0`) skipped before the byte-order mark.
pub const EXIF_HEADER_LEN: usize = 6;

/// The Orientation tag's identifier, in the detected byte order, starts at
/// `EXIF_HEADER_LEN + i`.
pub open spec fn tag_at(e: Seq<u8>, i: int, little_endian: bool) -> bool {
    if little_endian {
        e[6 + i] == 0x12 && e[7 + i] == 0x01
    } else {
        e[6 + i] == 0x01 && e[7 + i] == 0x12
    }
}

/// First offset at or after `i`, counted from the byte-order mark and below
/// the scan limit (twelve bytes short of the end), where the tag identifier occurs.
pub open spec fn first_tag(e: Seq<u8>, little_endian: bool, i: int) -> Option<int>
    decreases e.len() - i,
{
    if i < 0 || i + 18 >= e.len() {
        None
    } else if tag_at(e, i, little_endian) {
        Some(i)
    } else {
        first_tag(e, little_endian, i + 1)
    }
}

/// The segment with the two bytes 8 past the identifier at offset `i` set to
/// the value 1 in the detected byte order.
pub open spec fn set_value_one(e: Seq<u8>, i: int, little_endian: bool) -> Seq<u8> {
    if little_endian {
        e.update(14 + i, 1).update(15 + i, 0)
    } else {
        e.update(14 + i, 0).update(15 + i, 1)
    }
}

/// The EXIF segment with its Orientation reset to 1, or `None` where the
/// segment is too short or holds no Orientation identifier: `II` at the
/// byte-order position selects little-endian, anything else big-endian.
pub open spec fn orientation_patch(e: Seq<u8>) -> Option<Seq<u8>> {
    if e.len() < 8 {
        None
    } else {
        let le = e[6] == 0x49 && e[7] == 0x49;
        match first_tag(e, le, 0) {
            Some(i) => Some(set_value_one(e, i, le)),
            None => None,
        }
    }
}

/// Resets the Orientation value inside an EXIF segment to 1 (upright).
/// Scans for the first Orientation identifier and overwrites the value field
/// 8 bytes after it; `None` where there is nothing to patch.
pub fn patch_orientation(exif_data: &Vec<u8>) -> (r: Option<Vec<u8>>)
    ensures
        match orientation_patch(exif_data@) {
            Some(p) => r matches Some(v) && v@ == p,
            None => r is None,
        },
        r matches Some(v) ==> v@.len() == exif_data@.len(),
{
    let n = exif_data.len();
    if n < 8 {
        return None;
    }
    let le = exif_data[6] == 0x49 && exif_data[7] == 0x49;
    let (b0, b1): (u8, u8) = if le {
        (0x12, 0x01)
    } else {
        (0x01, 0x12)
    };
    if n < 19 {
        assert(first_tag(exif_data@, le, 0) is None);
        return None;
    }
    let mut i: usize = 0;
    while i < n - 18
        invariant
            n == exif_data@.len(),
            n >= 19,
            le == (exif_data@[6] == 0x49 && exif_data@[7] == 0x49),
            le ==> b0 == 0x12 && b1 == 0x01,
            !le ==> b0 == 0x01 && b1 == 0x12,
            first_tag(exif_data@, le, 0) == first_tag(exif_data@, le, i as int),
        decreases n - i,
    {
        if exif_data[6 + i] == b0 && exif_data[7 + i] == b1 {
            let mut patched = exif_data.clone();
            if le {
                patched.set(14 + i, 1);
                patched.set(15 + i, 0);
            } else {
                patched.set(14 + i, 0);
                patched.set(15 + i, 1);
            }
            assert(patched@ =~= set_value_one(exif_data@, i as int, le));
            return Some(patched);
        }
        i = i + 1;
    }
    None
}

#[verifier::external_type_specification]
#[verifier::external_body]
pub struct ExJpeg(img_parts::jpeg::Jpeg);

/// The data of a JPEG's first EXIF segment, after its `Exif\0\0` prefix.
pub uninterp spec fn jpeg_exif_of(j: img_parts::jpeg::Jpeg) -> Option<Seq<u8>>;

/// Number of segments of a JPEG.
pub uninterp spec fn jpeg_segment_count(j: img_parts::jpeg::Jpeg) -> nat;

/// The JPEG with every EXIF segment removed and the other segments kept, in order.
pub uninterp spec fn jpeg_exif_removed(j: img_parts::jpeg::Jpeg) -> img_parts::jpeg::Jpeg;

/// The JPEG with an EXIF segment holding `d` inserted as its fourth segment.
pub uninterp spec fn jpeg_exif_inserted(j: img_parts::jpeg::Jpeg, d: Seq<u8>) -> img_parts::jpeg::Jpeg;

/// Every segment's length fits the 16-bit length field it is written with.
pub uninterp spec fn jpeg_encodable(j: img_parts::jpeg::Jpeg) -> bool;

/// The JPEG that `Jpeg::from_bytes` reads from the data, if it is one.
pub uninterp spec fn jpeg_of_bytes(b: Seq<u8>) -> Option<img_parts::jpeg::Jpeg>;

/// The file bytes that a JPEG's encoder writes.
pub uninterp spec fn jpeg_file_bytes(j: img_parts::jpeg::Jpeg) -> Seq<u8>;

/// Relies on `img_parts::jpeg::Jpeg::from_bytes`: `None` where the data is
/// not a JPEG; each parsed segment was read through its 16-bit length field.
#[verifier::external_body]
fn parse_jpeg(bytes: Vec<u8>) -> (r: Option<img_parts::jpeg::Jpeg>)
    ensures
        r == jpeg_of_bytes(bytes@),
        r matches Some(j) ==> jpeg_encodable(j),
{
    img_parts::jpeg::Jpeg::from_bytes(bytes.into()).ok()
}

/// Relies on `Jpeg::exif` (`ImageEXIF`): the first EXIF segment's data; in
/// an encodable JPEG it fits a segment with its 6-byte prefix.
#[verifier::external_body]
fn jpeg_exif(j: &img_parts::jpeg::Jpeg) -> (r: Option<Vec<u8>>)
    ensures
        match r {
            Some(v) => jpeg_exif_of(*j) == Some(v@) && (jpeg_encodable(*j) ==> v@.len() <= 65527),
            None => jpeg_exif_of(*j) is None,
        },
{
    j.exif().map(|b| b.to_vec())
}

/// Relies on `Jpeg::segments`: the number of segments.
#[verifier::external_body]
fn segment_count(j: &img_parts::jpeg::Jpeg) -> (r: usize)
    ensures
        r == jpeg_segment_count(*j),
{
    j.segments().len()
}

/// Relies on `Jpeg::set_exif` (`ImageEXIF`): removes every EXIF segment,
/// keeping the others, then, given data, inserts one new EXIF segment as the fourth segment,
/// which needs at least three segments to be left.
#[verifier::external_body]
fn set_jpeg_exif(j: &mut img_parts::jpeg::Jpeg, data: Option<Vec<u8>>)
    requires
        jpeg_encodable(*old(j)),
        data matches Some(d) ==> d@.len() <= 65527 && jpeg_exif_of(*old(j)) is None
            && jpeg_segment_count(*old(j)) >= 3,
    ensures
        jpeg_encodable(*final(j)),
        data is None ==> *final(j) == jpeg_exif_removed(*old(j)),
        data matches Some(d) ==> *final(j) == jpeg_exif_inserted(*old(j), d@),
        match data {
            Some(d) => jpeg_exif_of(*final(j)) == Some(d@),
            None => jpeg_exif_of(*final(j)) is None,
        },
{
    j.set_exif(data.map(img_parts::Bytes::from))
}

/// Relies on `Jpeg::encoder` and `ImageEncoder::bytes`: the file's bytes.
#[verifier::external_body]
fn encode_jpeg(j: img_parts::jpeg::Jpeg) -> (r: Vec<u8>)
    requires
        jpeg_encodable(j),
    ensures
        r@ == jpeg_file_bytes(j),
{
    j.encoder().bytes().to_vec()
}

/// Why the Orientation tag of a file could not be reset.
#[derive(Clone, Copy, Debug, PartialEq, Eq, Structural)]
pub enum ResetError {
    /// The data is not a readable JPEG.
    NotJpeg,
}

/// Resets the EXIF Orientation of a JPEG file's bytes to 1. Returns the new
/// file bytes: the same JPEG with its EXIF data replaced by the patched
/// data. `Ok(None)` where nothing is to be written: no EXIF segment, no
/// Orientation identifier, or fewer than three other segments, too few to
/// hold a rewritten one.
pub fn reset_exif_orientation_bytes(jpeg_bytes: Vec<u8>) -> (r: Result<Option<Vec<u8>>, ResetError>)
    ensures
        match jpeg_of_bytes(jpeg_bytes@) {
            None => r == Err::<Option<Vec<u8>>, ResetError>(ResetError::NotJpeg),
            Some(j) => match r {
                Ok(Some(out)) => jpeg_exif_of(j) matches Some(e) && orientation_patch(e) matches Some(
                    p,
                ) && out@ == jpeg_file_bytes(jpeg_exif_inserted(jpeg_exif_removed(j), p)),
                Ok(None) => jpeg_exif_of(j) is None || orientation_patch(jpeg_exif_of(j).unwrap()) is None
                    || jpeg_segment_count(jpeg_exif_removed(j)) < 3,
                Err(_) => false,
            },
        },
{
    let mut jpeg = match parse_jpeg(jpeg_bytes) {
        Some(j) => j,
        None => return Err(ResetError::NotJpeg),
    };
    let exif_data = match jpeg_exif(&jpeg) {
        Some(e) => e,
        None => return Ok(None),
    };
    let patched = match patch_orientation(&exif_data) {
        Some(p) => p,
        None => return Ok(None),
    };
    let ghost original = jpeg;
    set_jpeg_exif(&mut jpeg, None);
    if segment_count(&jpeg) < 3 {
        return Ok(None);
    }
    set_jpeg_exif(&mut jpeg, Some(patched));
    let out = encode_jpeg(jpeg);
    Ok(Some(out))
}

} // verus!
