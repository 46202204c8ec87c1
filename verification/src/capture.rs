//! A screenshot on its way to the model: shrunk, compressed and written as
//! text.

use vstd::prelude::*;
use crate::text;

verus! {

/// The long edge that a screenshot is shrunk to, in pixels.
pub const MAX_LONG_EDGE: u32 = 1500;

/// The quality of the JPEG.
pub const JPEG_QUALITY: u8 = 75;

/// The bytes that so many pixels take, four each.
pub open spec fn rgba_len(width: u32, height: u32) -> int {
    width * height * 4
}

/// A picture of four bytes per pixel.
pub struct RgbaImage {
    pub width: u32,
    pub height: u32,
    pub pixels: Vec<u8>,
}

/// `RgbaImage` over sequences.
pub struct RgbaView {
    pub width: u32,
    pub height: u32,
    pub pixels: Seq<u8>,
}

impl View for RgbaImage {
    type V = RgbaView;

    open spec fn view(&self) -> RgbaView {
        RgbaView { width: self.width, height: self.height, pixels: self.pixels@ }
    }
}

/// A picture of `width` by `height` shrunk to fit a square of that edge is `w`
/// by `h`: its long edge is the square's, and its short edge is in proportion
/// to within a pixel.
pub open spec fn shrinks_to(width: u32, height: u32, edge: u32, w: u32, h: u32) -> bool {
    &&& 1 <= w <= edge
    &&& 1 <= h <= edge
    &&& width >= height ==> w == edge && h * width <= height * edge + width && height * edge <= h
        * width + width
    &&& height >= width ==> h == edge && w * height <= width * edge + height && width * edge <= w
        * height + height
}

/// A picture shrunk to fit a square of that edge, its proportions kept.
pub uninterp spec fn scaled_to_fit(img: RgbaView, edge: u32) -> RgbaView;

/// `image::DynamicImage::resize` with the triangle filter, on a picture that
/// does not fit the square. Claims that the result depends on the picture and
/// the edge alone, that it is shrunk to the square with its proportions kept to
/// within a pixel, and that it holds its pixels and no more bytes. A picture
/// that fits is left out: `resize` would enlarge it, or hand its bytes back.
/// So is every other edge: `resize` works in single precision, where an edge of
/// millions of pixels can leave it without a weight to sample by.
#[verifier::external_body]
fn scale_to_fit(img: RgbaImage, edge: u32) -> (r: Option<RgbaImage>)
    requires
        img.width > 0,
        img.height > 0,
        edge == MAX_LONG_EDGE,
        img.width > edge || img.height > edge,
        img.pixels@.len() >= rgba_len(img.width, img.height),
    ensures
        r is Some,
        r->0@ == scaled_to_fit(img@, edge),
        shrinks_to(img.width, img.height, edge, r->0.width, r->0.height),
        r->0.pixels@.len() == rgba_len(r->0.width, r->0.height),
{
    let full = image::RgbaImage::from_raw(img.width, img.height, img.pixels)?;
    let scaled = image::DynamicImage::ImageRgba8(full).resize(
        edge,
        edge,
        image::imageops::FilterType::Triangle,
    ).to_rgba8();
    Some(RgbaImage { width: scaled.width(), height: scaled.height(), pixels: scaled.into_raw() })
}

/// A picture as a JPEG file, where the format can hold it.
pub uninterp spec fn jpeg_file(img: RgbaView, quality: u8) -> Option<Seq<u8>>;

/// `image::codecs::jpeg::JpegEncoder` on the picture without its alpha channel.
/// Claims that the file depends on the picture and the quality alone.
#[verifier::external_body]
fn encode_jpeg(img: RgbaImage, quality: u8) -> (r: Option<Vec<u8>>)
    requires
        img.pixels@.len() >= rgba_len(img.width, img.height),
    ensures
        r is Some <==> jpeg_file(img@, quality) is Some,
        r is Some ==> jpeg_file(img@, quality) == Some(r->0@),
{
    let full = image::RgbaImage::from_raw(img.width, img.height, img.pixels)?;
    let rgb = image::DynamicImage::ImageRgba8(full).to_rgb8();
    let mut buf = Vec::new();
    image::codecs::jpeg::JpegEncoder::new_with_quality(&mut buf, quality).encode(
        rgb.as_raw(),
        rgb.width(),
        rgb.height(),
        image::ExtendedColorType::Rgb8,
    ).ok()?;
    Some(buf)
}

/// The character for six bits.
pub open spec fn base64_char(n: int) -> char {
    if n < 26 {
        ('A' as int + n) as char
    } else if n < 52 {
        ('a' as int + n - 26) as char
    } else if n < 62 {
        ('0' as int + n - 52) as char
    } else if n == 62 {
        '+'
    } else {
        '/'
    }
}

/// Bytes in base64: four characters for every three bytes, the last filled up
/// with `=`.
pub open spec fn base64_text(bytes: Seq<u8>) -> Seq<char>
    decreases bytes.len(),
{
    if bytes.len() == 0 {
        seq![]
    } else {
        let a = bytes[0] as int;
        let b = if bytes.len() > 1 { bytes[1] as int } else { 0 };
        let c = if bytes.len() > 2 { bytes[2] as int } else { 0 };
        seq![
            base64_char(a / 4),
            base64_char(a % 4 * 16 + b / 16),
            if bytes.len() > 1 { base64_char(b % 16 * 4 + c / 64) } else { '=' },
            if bytes.len() > 2 { base64_char(c % 64) } else { '=' },
        ] + (if bytes.len() > 3 { base64_text(bytes.skip(3)) } else { seq![] })
    }
}

/// The bytes that a text in base64 stands for, if it is one.
pub uninterp spec fn base64_bytes(s: Seq<char>) -> Option<Seq<u8>>;

/// `base64::Engine::encode` of the standard engine. Claims what the text is, and
/// that it decodes to the bytes. The text must fit in memory.
#[verifier::external_body]
fn to_base64(bytes: &[u8]) -> (r: String)
    requires
        bytes@.len() <= usize::MAX / 2,
    ensures
        r@ == base64_text(bytes@),
        base64_bytes(r@) == Some(bytes@),
{
    base64::Engine::encode(&base64::engine::general_purpose::STANDARD, bytes)
}

/// `base64::Engine::decode` of the standard engine. Claims that the bytes, if
/// any, depend on the text alone.
#[verifier::external_body]
fn from_base64(s: &str) -> (r: Option<Vec<u8>>)
    ensures
        r is Some <==> base64_bytes(s@) is Some,
        r is Some ==> base64_bytes(s@) == Some(r->0@),
{
    base64::Engine::decode(&base64::engine::general_purpose::STANDARD, s).ok()
}

/// Why a screenshot could not be prepared.
#[derive(Clone, Copy, Debug, PartialEq, Eq, Structural)]
pub enum CaptureError {
    /// There are fewer bytes than pixels of that size take.
    SizeMismatch { width: u32, height: u32 },
    /// It could not be compressed.
    Encode,
}

/// The error as the user reads it.
pub open spec fn capture_message(e: CaptureError) -> Seq<char> {
    match e {
        CaptureError::SizeMismatch { width, height } => "captured buffer size mismatch ("@
            + text::decimal(width as nat) + "x"@ + text::decimal(height as nat) + ")"@,
        CaptureError::Encode => "jpeg encode"@,
    }
}

impl CaptureError {
    pub fn message(self) -> (r: String)
        ensures
            r@ == capture_message(self),
    {
        match self {
            CaptureError::SizeMismatch { width, height } => {
                let mut out = "captured buffer size mismatch (".to_owned();
                text::push_decimal(&mut out, width as u64);
                out.append("x");
                text::push_decimal(&mut out, height as u64);
                out.append(")");
                out
            },
            CaptureError::Encode => "jpeg encode".to_owned(),
        }
    }
}

/// Whether a picture is larger than the model needs. Only such a picture is
/// scaled: a small one is never blown up.
pub open spec fn too_large(width: u32, height: u32) -> bool {
    width > 0 && height > 0 && (width > MAX_LONG_EDGE || height > MAX_LONG_EDGE)
}

/// The picture that is compressed.
pub open spec fn sized(img: RgbaView) -> RgbaView {
    if too_large(img.width, img.height) {
        scaled_to_fit(img, MAX_LONG_EDGE)
    } else {
        img
    }
}

/// Whether a JPEG file can be written as text.
pub open spec fn sendable(jpeg: Option<Seq<u8>>) -> bool {
    jpeg is Some && jpeg->0.len() <= usize::MAX / 2
}

/// A screenshot as the model takes it: a JPEG of limited size, in base64. A
/// large one is shrunk, its proportions kept; a small one stays as it is.
pub fn jpeg_base64(shot: RgbaImage) -> (r: Result<String, CaptureError>)
    ensures
        ({
            let fits = shot.pixels@.len() >= rgba_len(shot.width, shot.height);
            let jpeg = jpeg_file(sized(shot@), JPEG_QUALITY);
            match r {
                Ok(s) => fits && sendable(jpeg) && s@ == base64_text(jpeg->0) && base64_bytes(s@)
                    == jpeg,
                Err(CaptureError::SizeMismatch { width, height }) => !fits && width == shot.width
                    && height == shot.height,
                Err(CaptureError::Encode) => fits && !sendable(jpeg),
            }
        }),
        too_large(shot.width, shot.height) && !(r matches Err(CaptureError::SizeMismatch { .. }))
            ==> shrinks_to(
            shot.width,
            shot.height,
            MAX_LONG_EDGE,
            sized(shot@).width,
            sized(shot@).height,
        ),
{
    let (width, height) = (shot.width, shot.height);
    let needed: u128 = pixels_len(width, height);
    if (shot.pixels.len() as u128) < needed {
        return Err(CaptureError::SizeMismatch { width, height });
    }
    let img = if width > 0 && height > 0 && (width > MAX_LONG_EDGE || height > MAX_LONG_EDGE) {
        scale_to_fit(shot, MAX_LONG_EDGE).unwrap()
    } else {
        shot
    };
    match encode_jpeg(img, JPEG_QUALITY) {
        Some(jpeg) => if jpeg.len() <= usize::MAX / 2 {
            Ok(to_base64(jpeg.as_slice()))
        } else {
            Err(CaptureError::Encode)
        },
        None => Err(CaptureError::Encode),
    }
}

fn pixels_len(width: u32, height: u32) -> (r: u128)
    ensures
        r == rgba_len(width, height),
{
    assert(0 <= width * height <= 0xffff_ffff * 0xffff_ffff) by (nonlinear_arith)
        requires
            width <= 0xffff_ffff,
            height <= 0xffff_ffff,
    ;
    width as u128 * height as u128 * 4
}

/// A screenshot as a file.
pub struct DumpFile {
    pub name: String,
    pub bytes: Vec<u8>,
}

/// `DumpFile` over sequences.
pub struct DumpFileView {
    pub name: Seq<char>,
    pub bytes: Seq<u8>,
}

impl View for DumpFile {
    type V = DumpFileView;

    open spec fn view(&self) -> DumpFileView {
        DumpFileView { name: self.name@, bytes: self.bytes@ }
    }
}

/// The file of the screenshot at place `i`.
pub open spec fn dump_name(trace_id: Seq<char>, i: nat) -> Seq<char> {
    trace_id + "-"@ + text::decimal(i) + ".jpg"@
}

/// The screenshots sent for one description as files, in order. What is not
/// base64 is left out.
pub open spec fn dump_of(trace_id: Seq<char>, imgs: Seq<Seq<char>>) -> Seq<DumpFileView>
    decreases imgs.len(),
{
    if imgs.len() == 0 {
        seq![]
    } else {
        let before = dump_of(trace_id, imgs.drop_last());
        match base64_bytes(imgs.last()) {
            Some(bytes) => before.push(
                DumpFileView { name: dump_name(trace_id, (imgs.len() - 1) as nat), bytes },
            ),
            None => before,
        }
    }
}

pub fn dump_captures(trace_id: &str, imgs: &Vec<String>) -> (r: Vec<DumpFile>)
    ensures
        r@.map_values(|f: DumpFile| f@) == dump_of(trace_id@, text::views(imgs@)),
{
    let mut out: Vec<DumpFile> = Vec::new();
    let ghost all = text::views(imgs@);
    let mut k: usize = 0;
    assert(out@.map_values(|f: DumpFile| f@) =~= dump_of(trace_id@, all.take(0)));
    while k < imgs.len()
        invariant
            k <= imgs@.len(),
            all == text::views(imgs@),
            out@.map_values(|f: DumpFile| f@) == dump_of(trace_id@, all.take(k as int)),
        decreases imgs@.len() - k,
    {
        let ghost so_far = out@.map_values(|f: DumpFile| f@);
        assert(all.take(k + 1).drop_last() =~= all.take(k as int));
        assert(all.take(k + 1).last() == imgs@[k as int]@);
        if let Some(bytes) = from_base64(imgs[k].as_str()) {
            let mut name = trace_id.to_owned();
            name.append("-");
            text::push_decimal(&mut name, k as u64);
            name.append(".jpg");
            let file = DumpFile { name, bytes };
            assert(file@.name == dump_name(trace_id@, k as nat));
            out.push(file);
            assert(out@.map_values(|f: DumpFile| f@) =~= so_far.push(file@));
        }
        k += 1;
    }
    assert(all.take(k as int) =~= all);
    out
}

/// A picture of fifteen hundred pixels at most on either side is sent as it is;
/// a larger one is shrunk to that.
pub proof fn only_large_pictures_are_shrunk(img: RgbaView)
    ensures
        img.width <= 1500 && img.height <= 1500 ==> sized(img) == img,
        img.width > 0 && img.height > 0 && (img.width > 1500 || img.height > 1500) ==> sized(img)
            == scaled_to_fit(img, 1500),
{
}

/// Every screenshot that can be read is kept as a file, in order, under its
/// place.
pub proof fn every_screenshot_is_kept(trace_id: Seq<char>, imgs: Seq<Seq<char>>)
    requires
        forall|i: int| 0 <= i < imgs.len() ==> base64_bytes(#[trigger] imgs[i]) is Some,
    ensures
        dump_of(trace_id, imgs).len() == imgs.len(),
        forall|i: int|
            0 <= i < imgs.len() ==> {
                let file = #[trigger] dump_of(trace_id, imgs)[i];
                &&& file.name == trace_id + "-"@ + text::decimal(i as nat) + ".jpg"@
                &&& Some(file.bytes) == base64_bytes(imgs[i])
            },
    decreases imgs.len(),
{
    if imgs.len() > 0 {
        let before = imgs.drop_last();
        assert forall|i: int| 0 <= i < before.len() implies base64_bytes(
            #[trigger] before[i],
        ) is Some by {
            assert(before[i] == imgs[i]);
        }
        every_screenshot_is_kept(trace_id, before);
        assert(base64_bytes(imgs[imgs.len() - 1]) is Some);
        let files = dump_of(trace_id, imgs);
        assert forall|i: int| 0 <= i < imgs.len() implies ({
            let file = #[trigger] files[i];
            &&& file.name == trace_id + "-"@ + text::decimal(i as nat) + ".jpg"@
            &&& Some(file.bytes) == base64_bytes(imgs[i])
        }) by {
            if i < imgs.len() - 1 {
                assert(files[i] == dump_of(trace_id, before)[i]);
            }
        }
    }
}

/// A screenshot that cannot be read is left out, and no other with it.
pub proof fn unreadable_screenshots_cost_no_other(
    trace_id: Seq<char>,
    imgs: Seq<Seq<char>>,
    img: Seq<char>,
)
    ensures
        base64_bytes(img) is None ==> dump_of(trace_id, imgs.push(img)) == dump_of(trace_id, imgs),
        dump_of(trace_id, imgs.push(img)).take(dump_of(trace_id, imgs).len() as int) == dump_of(
            trace_id,
            imgs,
        ),
{
    assert(imgs.push(img).drop_last() =~= imgs);
    assert(dump_of(trace_id, imgs.push(img)).take(dump_of(trace_id, imgs).len() as int)
        =~= dump_of(trace_id, imgs));
}

/// A picture with too few bytes is reported with both of its sides.
pub proof fn mismatches_tell_the_size(width: u32, height: u32)
    ensures
        ({
            let e = CaptureError::SizeMismatch { width, height };
            let size = text::decimal(width as nat) + "x"@ + text::decimal(height as nat);
            capture_message(e) == "captured buffer size mismatch ("@ + size + ")"@
        }),
{
    let size = text::decimal(width as nat) + "x"@ + text::decimal(height as nat);
    assert(capture_message(CaptureError::SizeMismatch { width, height })
        =~= "captured buffer size mismatch ("@ + size + ")"@);
}

} // verus!
