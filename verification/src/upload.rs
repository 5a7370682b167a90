//! The steps of storing an uploaded picture that need no disk or image
//! work: decoding the data, naming the file, the messages for failures and
//! the record that is kept.

use vstd::prelude::*;
use image::ImageError;
use crate::api::UploadPlan;
use crate::comm::{get_value, param_or};
use crate::parse::Params;
use crate::service::Data;
use crate::text::{chars_of, find_char, first_index, replace_all, replace_chars, slice_chars, string_of};

verus! {

broadcast use vstd::string::group_string_axioms;

/// Quality of the WebP thumbnails.
pub const THUMB_QUALITY: i8 = 10;

/// Side in pixels below which a picture is its own thumbnail.
pub const THUMBNAIL_SIZE: u32 = 300;

/// A picture gets a smaller thumbnail only when both sides exceed
/// `THUMBNAIL_SIZE`.
pub fn needs_resize(width: u32, height: u32) -> (b: bool)
    ensures
        b == (width > THUMBNAIL_SIZE && height > THUMBNAIL_SIZE),
{
    !(width <= THUMBNAIL_SIZE || height <= THUMBNAIL_SIZE)
}

/// A base64 digit (standard or URL-safe alphabet).
pub open spec fn is_b64_digit(c: char) -> bool {
    ||| 'A' <= c && c <= 'Z'
    ||| 'a' <= c && c <= 'z'
    ||| '0' <= c && c <= '9'
    ||| c == '+' || c == '-' || c == '/' || c == '_'
}

pub open spec fn is_line_break(c: char) -> bool {
    c == '\n' || c == '\r'
}

/// The number of base64 digits in `s`.
pub open spec fn digit_count(s: Seq<char>) -> nat
    decreases s.len(),
{
    if s.len() == 0 {
        0
    } else {
        digit_count(s.drop_last()) + if is_b64_digit(s.last()) { 1nat } else { 0nat }
    }
}

/// Base64 text that decodes: before the first `=` only digits and line
/// breaks, after it only `=` and line breaks, and the digits do not leave a
/// single digit over a multiple of four.
pub open spec fn b64_decodes(p: Seq<char>) -> bool {
    let e: int = match first_index(p, '=') {
        Some(i) => i as int,
        None => p.len() as int,
    };
    &&& forall|i: int| 0 <= i < e ==> is_b64_digit(#[trigger] p[i]) || is_line_break(p[i])
    &&& forall|i: int| e <= i < p.len() ==> #[trigger] p[i] == '=' || is_line_break(p[i])
    &&& digit_count(p.take(e)) % 4 != 1
}

/// Picture data that `image_base64::from_base64` takes without failing: a
/// `,` (ending a `data:...` prefix) followed by base64 text that decodes.
pub open spec fn image_data_ok(data: Seq<char>) -> bool {
    match first_index(data, ',') {
        Some(i) => b64_decodes(data.skip(i as int + 1)),
        None => false,
    }
}

/// The value of a base64 digit: `A`-`Z` are 0-25, `a`-`z` 26-51, `0`-`9`
/// 52-61, `+` and `-` 62, `/` and `_` 63.
pub open spec fn b64_value(c: char) -> int {
    if 'A' <= c && c <= 'Z' {
        c as int - 'A' as int
    } else if 'a' <= c && c <= 'z' {
        c as int - 'a' as int + 26
    } else if '0' <= c && c <= '9' {
        c as int - '0' as int + 52
    } else if c == '+' || c == '-' {
        62
    } else {
        63
    }
}

/// The values of the base64 digits of `s` in order; other characters are
/// skipped.
pub open spec fn digit_values(s: Seq<char>) -> Seq<int>
    decreases s.len(),
{
    if s.len() == 0 {
        Seq::<int>::empty()
    } else {
        digit_values(s.drop_last()) + if is_b64_digit(s.last()) {
            seq![b64_value(s.last())]
        } else {
            Seq::<int>::empty()
        }
    }
}

/// The bytes that base64 digit values stand for, six bits a digit: each
/// group of four digits gives three bytes, a last group of three gives two
/// and a last group of two gives one.
pub open spec fn bytes_of_digits(d: Seq<int>) -> Seq<u8>
    decreases d.len(),
{
    if d.len() >= 4 {
        seq![
            (d[0] * 4 + d[1] / 16) as u8,
            ((d[1] % 16) * 16 + d[2] / 4) as u8,
            ((d[2] % 4) * 64 + d[3]) as u8,
        ] + bytes_of_digits(d.skip(4))
    } else if d.len() == 3 {
        seq![(d[0] * 4 + d[1] / 16) as u8, ((d[1] % 16) * 16 + d[2] / 4) as u8]
    } else if d.len() == 2 {
        seq![(d[0] * 4 + d[1] / 16) as u8]
    } else {
        Seq::<u8>::empty()
    }
}

/// The bytes of base64 text: those of its digits before the first `=`.
pub open spec fn b64_bytes(p: Seq<char>) -> Seq<u8> {
    let e: int = match first_index(p, '=') {
        Some(i) => i as int,
        None => p.len() as int,
    };
    bytes_of_digits(digit_values(p.take(e)))
}

/// The bytes of picture data: those of the base64 text after its first `,`.
pub open spec fn image_bytes(data: Seq<char>) -> Seq<u8> {
    match first_index(data, ',') {
        Some(i) => b64_bytes(data.skip(i as int + 1)),
        None => Seq::<u8>::empty(),
    }
}

/// Decodes picture data with `image_base64::from_base64`, which drops
/// everything up to the first `,` and hands the rest to
/// `rustc_serialize`'s base64 decoder.
///
/// Claimed of the outside function: on the inputs it takes without
/// panicking (`image_data_ok`, which restates its acceptance rule), the
/// bytes are those of the base64 digits after the comma and before the
/// first `=`, line breaks skipped, six bits a digit (`image_bytes`).
#[verifier::external_body]
fn from_base64(data: &str) -> (r: Vec<u8>)
    requires
        image_data_ok(data@),
    ensures
        r@ == image_bytes(data@),
{
    image_base64::from_base64(data.to_string())
}

/// Whether `data` is picture data that decodes; `decode_image_data` needs
/// it.
pub fn image_data_valid(data: &str) -> (b: bool)
    ensures
        b == image_data_ok(data@),
{
    let c = chars_of(data);
    let n = c.len();
    match find_char(c.as_slice(), ',') {
        None => false,
        Some(comma) => {
            assert(comma < n);
            let p = slice_chars(c.as_slice(), comma + 1, n);
            assert(p@ =~= data@.skip(comma + 1));
            let e = match find_char(p.as_slice(), '=') {
                Some(i) => i,
                None => p.len(),
            };
            let ghost end: int = match first_index(p@, '=') {
                Some(i) => i as int,
                None => p@.len() as int,
            };
            assert(image_data_ok(data@) == b64_decodes(p@));
            let mut digits: usize = 0;
            let mut i: usize = 0;
            while i < e
                invariant
                    e <= p@.len(),
                    e == end,
                    image_data_ok(data@) == b64_decodes(p@),
                    end == (match first_index(p@, '=') {
                        Some(i) => i as int,
                        None => p@.len() as int,
                    }),
                    i <= e,
                    digits <= i,
                    digits == digit_count(p@.take(i as int)),
                    forall|k: int| 0 <= k < i ==> is_b64_digit(#[trigger] p@[k]) || is_line_break(p@[k]),
                decreases e - i,
            {
                let ch = p[i];
                assert(p@.take(i + 1).drop_last() =~= p@.take(i as int));
                if ('A' <= ch && ch <= 'Z') || ('a' <= ch && ch <= 'z') || ('0' <= ch && ch <= '9')
                    || ch == '+' || ch == '-' || ch == '/' || ch == '_' {
                    digits = digits + 1;
                } else if !(ch == '\n' || ch == '\r') {
                    assert(!(is_b64_digit(p@[i as int]) || is_line_break(p@[i as int])));
                    return false;
                }
                i = i + 1;
            }
            let mut j: usize = e;
            while j < p.len()
                invariant
                    e <= j <= p@.len(),
                    e == end,
                    image_data_ok(data@) == b64_decodes(p@),
                    end == (match first_index(p@, '=') {
                        Some(i) => i as int,
                        None => p@.len() as int,
                    }),
                    digits == digit_count(p@.take(e as int)),
                    forall|k: int| 0 <= k < e ==> is_b64_digit(#[trigger] p@[k]) || is_line_break(p@[k]),
                    forall|k: int| e <= k < j ==> #[trigger] p@[k] == '=' || is_line_break(p@[k]),
                decreases p@.len() - j,
            {
                let ch = p[j];
                if !(ch == '=' || ch == '\n' || ch == '\r') {
                    assert(!(p@[j as int] == '=' || is_line_break(p@[j as int])));
                    return false;
                }
                j = j + 1;
            }
            digits % 4 != 1
        },
    }
}

/// The bytes of uploaded picture data (`data:<type>;base64,<text>`).
pub fn decode_image_data(data: &str) -> (bytes: Vec<u8>)
    requires
        image_data_ok(data@),
    ensures
        bytes@ == image_bytes(data@),
{
    from_base64(data)
}

/// A lowercase hexadecimal digit.
pub open spec fn is_lower_hex(c: char) -> bool {
    ('0' <= c && c <= '9') || ('a' <= c && c <= 'f')
}

/// The text of a UUID: 32 lowercase hex digits in groups 8-4-4-4-12.
pub open spec fn is_uuid_text(s: Seq<char>) -> bool {
    &&& s.len() == 36
    &&& forall|i: int| 0 <= i < 36 ==> if i == 8 || i == 13 || i == 18 || i == 23 {
        #[trigger] s[i] == '-'
    } else {
        is_lower_hex(s[i])
    }
}

/// A new random UUID, `uuid::Uuid::new_v4().to_string()`.
///
/// Claimed of the outside function: the text is the hyphenated lowercase
/// form. Which UUID comes out is chance, and nothing is claimed of it.
#[verifier::external_body]
fn new_uuid() -> (s: String)
    ensures
        is_uuid_text(s@),
{
    uuid::Uuid::new_v4().to_string()
}

/// The file name of a new picture: a new random UUID in its hyphenated
/// lowercase form.
pub fn file_uuid() -> (s: String)
    ensures
        is_uuid_text(s@),
{
    new_uuid()
}

/// The current time as seconds since the Unix epoch,
/// `chrono::Local::now().timestamp()`.
///
/// Nothing is claimed of the number: it is read from the clock.
#[verifier::external_body]
fn now_timestamp() -> (t: i64) {
    chrono::Local::now().timestamp()
}

/// The record kept for a stored picture.
pub fn upload_record(name: String, url: String, thumb: String, time: i64, size: usize, width: u32, height: u32)
    -> (d: Data)
    ensures
        d.name == name,
        d.url == url,
        d.thumb == thumb,
        d.time == time,
        d.size == size as i64,
        d.width == width as i64,
        d.height == height as i64,
{
    Data { name, url, thumb, time, size: size as i64, width: width as i64, height: height as i64 }
}

/// The record kept for a picture stored now.
pub fn picture_record(name: String, url: String, thumb: String, size: usize, width: u32, height: u32) -> (d: Data)
    ensures
        d.name == name,
        d.url == url,
        d.thumb == thumb,
        d.size == size as i64,
        d.width == width as i64,
        d.height == height as i64,
{
    let time = now_timestamp();
    upload_record(name, url, thumb, time, size, width, height)
}

/// The thumbnail URL kept for a picture: the picture's own URL when making
/// the thumbnail failed.
pub fn thumb_url(url: &String, url_thumb: String, thumb_failed: bool) -> (r: String)
    ensures
        r@ == if thumb_failed { url@ } else { url_thumb@ },
{
    if thumb_failed {
        url.clone()
    } else {
        url_thumb
    }
}

/// The record kept for an uploaded picture: named as the plan asks, under
/// its URL, with the thumbnail's URL (the picture's own when making the
/// thumbnail failed), the size that was written and the picture's
/// dimensions, stamped with the current time.
pub fn stored_record(
    plan: &UploadPlan,
    url: String,
    url_thumb: String,
    thumb_failed: bool,
    size: usize,
    width: u32,
    height: u32,
) -> (d: Data)
    ensures
        d.name@ == plan.name@,
        d.url@ == url@,
        d.thumb@ == (if thumb_failed { url@ } else { url_thumb@ }),
        d.size == size as i64,
        d.width == width as i64,
        d.height == height as i64,
{
    let thumb = thumb_url(&url, url_thumb, thumb_failed);
    picture_record(plan.name.clone(), url, thumb, size, width, height)
}

/// Why reading an uploaded picture failed.
#[derive(PartialEq, Eq, Structural, Clone, Copy, Debug)]
pub enum ImageFailure {
    Unsupported,
    Decoding,
    Encoding,
    Parameter,
    Limits,
    Io,
}

/// The message for a picture that could not be read; an unsupported type
/// is named by the `type` parameter (default `png`) without `image/`.
pub open spec fn image_failure_text(kind: ImageFailure, m: Map<Seq<char>, Seq<char>>) -> Seq<char> {
    match kind {
        ImageFailure::Unsupported => "不支持的图片类型: "@ + replace_all(
            param_or::<String>(m, "type"@, "png"@),
            "image/"@,
            Seq::<char>::empty(),
        ),
        ImageFailure::Decoding => "解码错误，请检查图片格式是否正确"@,
        ImageFailure::Encoding => "编码错误，请检查图片格式是否正确"@,
        ImageFailure::Parameter => "参数错误，例如图像的维度不正确"@,
        ImageFailure::Limits => "图像大小超过限制"@,
        ImageFailure::Io => "IO错误，请检查文件是否存在或权限是否正确"@,
    }
}

/// The message for a picture that could not be read.
pub fn image_error_message(kind: ImageFailure, params: &Params) -> (s: String)
    ensures
        s@ == image_failure_text(kind, params@),
{
    match kind {
        ImageFailure::Unsupported => {
            let t = get_value(params, "type", String::from_str("png"));
            let tc = chars_of(t.as_str());
            let p = chars_of("image/");
            proof { reveal_strlit("image/"); }
            let empty: Vec<char> = Vec::new();
            assert(empty@ =~= Seq::<char>::empty());
            let f = replace_chars(tc.as_slice(), p.as_slice(), empty.as_slice());
            let mut s = String::from_str("不支持的图片类型: ");
            let fs = string_of(f.as_slice());
            s.append(fs.as_str());
            s
        },
        ImageFailure::Decoding => String::from_str("解码错误，请检查图片格式是否正确"),
        ImageFailure::Encoding => String::from_str("编码错误，请检查图片格式是否正确"),
        ImageFailure::Parameter => String::from_str("参数错误，例如图像的维度不正确"),
        ImageFailure::Limits => String::from_str("图像大小超过限制"),
        ImageFailure::Io => String::from_str("IO错误，请检查文件是否存在或权限是否正确"),
    }
}

/// What came back from a step of storing an uploaded picture.
#[derive(Clone, Copy, Debug)]
pub enum UploadEvent {
    /// The picture was read from the decoded bytes.
    Loaded,
    /// The picture could not be read.
    LoadFailed(ImageFailure),
    /// The picture was recompressed as WebP.
    Compressed,
    /// Recompressing the picture failed.
    CompressFailed,
    /// The picture's file was written.
    Saved,
    /// Writing the picture's file failed.
    SaveFailed,
    /// The thumbnail was made and written, or one of those failed.
    ThumbDone { failed: bool },
}

/// What to do next while storing an uploaded picture.
pub enum UploadAction {
    /// Recompress the picture as WebP at the asked quality.
    Compress,
    /// Write the picture's bytes to its file.
    Save,
    /// Make, compress and write the thumbnail.
    MakeThumb,
    /// Give up and answer with this error message.
    Refuse(String),
    /// Keep the record of the picture, with its own URL as the thumbnail's
    /// when making the thumbnail failed.
    Store { thumb_failed: bool },
}

pub enum UploadActionView {
    Compress,
    Save,
    MakeThumb,
    Refuse(Seq<char>),
    Store { thumb_failed: bool },
}

impl View for UploadAction {
    type V = UploadActionView;

    open spec fn view(&self) -> UploadActionView {
        match self {
            UploadAction::Compress => UploadActionView::Compress,
            UploadAction::Save => UploadActionView::Save,
            UploadAction::MakeThumb => UploadActionView::MakeThumb,
            UploadAction::Refuse(m) => UploadActionView::Refuse(m@),
            UploadAction::Store { thumb_failed } => UploadActionView::Store { thumb_failed: *thumb_failed },
        }
    }
}

/// The order of storing an upload: read the picture, recompress it unless
/// the original is kept, write it, make the thumbnail, keep the record. A
/// failure before the thumbnail ends the upload with its message; a failed
/// thumbnail does not.
pub open spec fn upload_next(origin_upload: bool, event: UploadEvent, m: Map<Seq<char>, Seq<char>>) -> UploadActionView {
    match event {
        UploadEvent::Loaded => if origin_upload { UploadActionView::Save } else { UploadActionView::Compress },
        UploadEvent::LoadFailed(kind) => UploadActionView::Refuse(image_failure_text(kind, m)),
        UploadEvent::Compressed => UploadActionView::Save,
        UploadEvent::CompressFailed => UploadActionView::Refuse("压缩图片失败"@),
        UploadEvent::Saved => UploadActionView::MakeThumb,
        UploadEvent::SaveFailed => UploadActionView::Refuse("保存图片失败"@),
        UploadEvent::ThumbDone { failed } => UploadActionView::Store { thumb_failed: failed },
    }
}

/// The next step of storing an uploaded picture, given what the last one
/// gave.
pub fn upload_step(origin_upload: bool, event: UploadEvent, params: &Params) -> (a: UploadAction)
    ensures
        a@ == upload_next(origin_upload, event, params@),
{
    match event {
        UploadEvent::Loaded => if origin_upload { UploadAction::Save } else { UploadAction::Compress },
        UploadEvent::LoadFailed(kind) => UploadAction::Refuse(image_error_message(kind, params)),
        UploadEvent::Compressed => UploadAction::Save,
        UploadEvent::CompressFailed => UploadAction::Refuse(String::from_str("压缩图片失败")),
        UploadEvent::Saved => UploadAction::MakeThumb,
        UploadEvent::SaveFailed => UploadAction::Refuse(String::from_str("保存图片失败")),
        UploadEvent::ThumbDone { failed } => UploadAction::Store { thumb_failed: failed },
    }
}

/// What `image::load_from_memory` makes of picture bytes: the picture's
/// width and height, or the kind of error it reports.
pub uninterp spec fn picture_decoding(bytes: Seq<u8>) -> Result<(u32, u32), ImageFailure>;

/// Reads picture bytes with `image::load_from_memory`, which guesses the
/// format from the bytes and decodes them.
///
/// Claimed of the outside function: the outcome depends on the bytes alone
/// (`picture_decoding`); on success the result is the decoded picture's
/// width and height, on failure the variant of `ImageError` it returned.
/// Which bytes decode, and to what size, is not restated.
#[verifier::external_body]
fn decode_picture(bytes: &Vec<u8>) -> (r: Result<(u32, u32), ImageFailure>)
    ensures
        r == picture_decoding(bytes@),
{
    match image::load_from_memory(bytes.as_slice()) {
        Ok(img) => Ok((img.width(), img.height())),
        Err(ImageError::Unsupported(_)) => Err(ImageFailure::Unsupported),
        Err(ImageError::Decoding(_)) => Err(ImageFailure::Decoding),
        Err(ImageError::Encoding(_)) => Err(ImageFailure::Encoding),
        Err(ImageError::Parameter(_)) => Err(ImageFailure::Parameter),
        Err(ImageError::Limits(_)) => Err(ImageFailure::Limits),
        Err(ImageError::IoError(_)) => Err(ImageFailure::Io),
    }
}

/// The first event of storing an upload, with the picture's width and
/// height: `Loaded` when the bytes read as a picture, otherwise
/// `LoadFailed` with the kind of failure and no size.
pub fn load_event(bytes: &Vec<u8>) -> (r: (UploadEvent, u32, u32))
    ensures
        match picture_decoding(bytes@) {
            Ok((w, h)) => r == (UploadEvent::Loaded, w, h),
            Err(k) => r == (UploadEvent::LoadFailed(k), 0u32, 0u32),
        },
{
    match decode_picture(bytes) {
        Ok((w, h)) => (UploadEvent::Loaded, w, h),
        Err(k) => (UploadEvent::LoadFailed(k), 0, 0),
    }
}

} // verus!
