//! Inline images: telling formats apart by their first bytes, and bringing
//! raster images down to the width an e-reader shows.

use crate::failure::Failure;
use crate::html::{find_image_sources, image_sources};
use crate::links::{
    file_name, path_file_name, path_segments, replace_forbidden, url_segments, without_forbidden,
};
use crate::text::{chars_of, opt_view, replace, replaced, starts_with, text_of, texts};
use vstd::prelude::*;
use vstd::string::StringExecFns;
use vstd::utf8::{decode_utf8, valid_utf8};

verus! {

/// The widest raster image that goes into an archive, in pixels.
pub const MAX_WIDTH: u32 = 600;

/// The quality at which a JPEG image is encoded again, of 100.
pub const JPEG_QUALITY: u8 = 80;

/// What a download turned out to be.
#[derive(Clone, Copy, Debug, PartialEq, Eq, Structural)]
pub enum ManagedImageFormat {
    Png,
    Jpeg,
    Webp,
    Gif,
    Svg,
    Html,
}

/// A raster format that is decoded, scaled and encoded again.
#[derive(Clone, Copy, Debug, PartialEq, Eq, Structural)]
pub enum ResizableImageFormat {
    Png,
    Jpeg,
    Webp,
}

/// `bytes` is longer than the PNG signature and begins with it.
pub open spec fn png_magic(bytes: Seq<u8>) -> bool {
    bytes.len() > 8 && bytes[0] == 0x89 && bytes[1] == 0x50 && bytes[2] == 0x4E && bytes[3] == 0x47
        && bytes[4] == 0x0D && bytes[5] == 0x0A && bytes[6] == 0x1A && bytes[7] == 0x0A
}

/// `bytes` begins with the JPEG start-of-image marker and one more `0xFF`.
pub open spec fn jpeg_magic(bytes: Seq<u8>) -> bool {
    bytes.len() > 3 && bytes[0] == 0xFF && bytes[1] == 0xD8 && bytes[2] == 0xFF
}

/// `bytes` begins with `RIFF`, four bytes of any value, and `WEBP`.
pub open spec fn webp_magic(bytes: Seq<u8>) -> bool {
    bytes.len() > 11 && bytes[0] == 0x52 && bytes[1] == 0x49 && bytes[2] == 0x46 && bytes[3] == 0x46
        && bytes[8] == 0x57 && bytes[9] == 0x45 && bytes[10] == 0x42 && bytes[11] == 0x50
}

/// `bytes` begins with `GIF8`, as both `GIF87a` and `GIF89a` do.
pub open spec fn gif_magic(bytes: Seq<u8>) -> bool {
    bytes.len() > 3 && bytes[0] == 0x47 && bytes[1] == 0x49 && bytes[2] == 0x46 && bytes[3] == 0x38
}

/// The lower-case form of `text`, as `str::to_lowercase` gives it.
pub uninterp spec fn lowercased(text: Seq<char>) -> Seq<char>;

/// `c` is white space: it has the Unicode property `White_Space`.
pub open spec fn is_white_space(c: char) -> bool {
    let code = c as u32;
    (0x9 <= code <= 0xD) || code == 0x20 || code == 0x85 || code == 0xA0 || code == 0x1680 || (
    0x2000 <= code <= 0x200A) || code == 0x2028 || code == 0x2029 || code == 0x202F || code
        == 0x205F || code == 0x3000
}

/// `text` without its leading white space.
pub open spec fn trimmed_start(text: Seq<char>) -> Seq<char>
    decreases text.len(),
{
    if text.len() > 0 && is_white_space(text[0]) {
        trimmed_start(text.skip(1))
    } else {
        text
    }
}

/// `text` without its trailing white space.
pub open spec fn trimmed_end(text: Seq<char>) -> Seq<char>
    decreases text.len(),
{
    if text.len() > 0 && is_white_space(text.last()) {
        trimmed_end(text.drop_last())
    } else {
        text
    }
}

/// `text` without its leading and trailing white space.
pub open spec fn trimmed(text: Seq<char>) -> Seq<char> {
    trimmed_end(trimmed_start(text))
}

/// `std::str::from_utf8`: the text that `bytes` encode, where they are valid
/// UTF-8, and nothing where they are not.
#[verifier::external_body]
fn utf8_text(bytes: &[u8]) -> (r: Option<&str>)
    ensures
        r is Some <==> valid_utf8(bytes@),
        r matches Some(s) ==> s@ == decode_utf8(bytes@),
{
    std::str::from_utf8(bytes).ok()
}

/// `str::to_lowercase`: the result is the lower-case form of `text`.
#[verifier::external_body]
fn lowercase(text: &str) -> (r: String)
    ensures
        r@ == lowercased(text@),
{
    text.to_lowercase()
}

/// Whether `c` is white space.
pub fn white_space(c: char) -> (r: bool)
    ensures
        r == is_white_space(c),
{
    let code = c as u32;
    (0x9 <= code && code <= 0xD) || code == 0x20 || code == 0x85 || code == 0xA0 || code == 0x1680
        || (0x2000 <= code && code <= 0x200A) || code == 0x2028 || code == 0x2029 || code
        == 0x202F || code == 0x205F || code == 0x3000
}

/// `text` without the white space at its start and at its end.
pub fn trim(text: &str) -> (r: String)
    ensures
        r@ == trimmed(text@),
{
    let chars = chars_of(text);
    let mut start: usize = 0;
    assert(chars@.skip(0) == chars@);
    while start < chars.len() && white_space(chars[start])
        invariant
            start <= chars@.len(),
            trimmed_start(chars@) == trimmed_start(chars@.skip(start as int)),
        decreases chars@.len() - start,
    {
        assert(chars@.skip(start as int)[0] == chars@[start as int]);
        assert(chars@.skip(start as int).skip(1) == chars@.skip(start + 1));
        start = start + 1;
    }
    proof {
        if start < chars@.len() {
            assert(chars@.skip(start as int)[0] == chars@[start as int]);
        }
        assert(trimmed_start(chars@) == chars@.skip(start as int));
        assert(chars@.skip(start as int) == chars@.subrange(start as int, chars@.len() as int));
    }
    let mut end: usize = chars.len();
    while end > start && white_space(chars[end - 1])
        invariant
            start <= end <= chars@.len(),
            trimmed(chars@) == trimmed_end(chars@.subrange(start as int, end as int)),
        decreases end,
    {
        assert(chars@.subrange(start as int, end as int).last() == chars@[end - 1]);
        assert(chars@.subrange(start as int, end as int).drop_last() == chars@.subrange(
            start as int,
            end - 1,
        ));
        end = end - 1;
    }
    proof {
        if end > start {
            assert(chars@.subrange(start as int, end as int).last() == chars@[end - 1]);
        }
        assert(trimmed(chars@) == chars@.subrange(start as int, end as int));
    }
    let mut out: Vec<char> = Vec::new();
    let mut i: usize = start;
    while i < end
        invariant
            start <= i <= end <= chars@.len(),
            out@ == chars@.subrange(start as int, i as int),
        decreases end - i,
    {
        out.push(chars[i]);
        i = i + 1;
        assert(out@ == chars@.subrange(start as int, i as int));
    }
    text_of(out.as_slice())
}

/// What the text sniffers look at: the text that `bytes` encode, in lower
/// case and trimmed; nothing where `bytes` are not valid UTF-8.
pub open spec fn sniffed_text(bytes: Seq<u8>) -> Option<Seq<char>> {
    if valid_utf8(bytes) {
        Some(trimmed(lowercased(decode_utf8(bytes))))
    } else {
        None
    }
}

/// `text` opens like an XML or SVG document.
pub open spec fn opens_as_svg(text: Seq<char>) -> bool {
    "<?xml"@.is_prefix_of(text) || "<svg"@.is_prefix_of(text)
}

/// `text` opens like an HTML page.
pub open spec fn opens_as_html(text: Seq<char>) -> bool {
    "<!doctype html>"@.is_prefix_of(text) || "<html"@.is_prefix_of(text)
}

/// `bytes` are text that opens like an XML or SVG document.
pub open spec fn svg_text(bytes: Seq<u8>) -> bool {
    sniffed_text(bytes) matches Some(t) && opens_as_svg(t)
}

/// `bytes` are text that opens like an HTML page.
pub open spec fn html_text(bytes: Seq<u8>) -> bool {
    sniffed_text(bytes) matches Some(t) && opens_as_html(t)
}

/// The format that the first bytes of a download show, if any. Binary
/// signatures are tried first, in the order PNG, JPEG, WEBP, GIF; text is
/// tried as SVG before HTML.
pub open spec fn sniffed(bytes: Seq<u8>) -> Option<ManagedImageFormat> {
    if png_magic(bytes) {
        Some(ManagedImageFormat::Png)
    } else if jpeg_magic(bytes) {
        Some(ManagedImageFormat::Jpeg)
    } else if webp_magic(bytes) {
        Some(ManagedImageFormat::Webp)
    } else if gif_magic(bytes) {
        Some(ManagedImageFormat::Gif)
    } else if svg_text(bytes) {
        Some(ManagedImageFormat::Svg)
    } else if html_text(bytes) {
        Some(ManagedImageFormat::Html)
    } else {
        None
    }
}

/// Whether `bytes` begin with the PNG signature.
pub fn is_png(bytes: &[u8]) -> (r: bool)
    ensures
        r == png_magic(bytes@),
{
    bytes.len() > 8 && bytes[0] == 0x89 && bytes[1] == 0x50 && bytes[2] == 0x4E && bytes[3] == 0x47
        && bytes[4] == 0x0D && bytes[5] == 0x0A && bytes[6] == 0x1A && bytes[7] == 0x0A
}

/// Whether `bytes` begin like a JPEG file.
pub fn is_jpeg(bytes: &[u8]) -> (r: bool)
    ensures
        r == jpeg_magic(bytes@),
{
    bytes.len() > 3 && bytes[0] == 0xFF && bytes[1] == 0xD8 && bytes[2] == 0xFF
}

/// Whether `bytes` begin like a WEBP file.
pub fn is_webp(bytes: &[u8]) -> (r: bool)
    ensures
        r == webp_magic(bytes@),
{
    bytes.len() > 11 && bytes[0] == 0x52 && bytes[1] == 0x49 && bytes[2] == 0x46 && bytes[3] == 0x46
        && bytes[8] == 0x57 && bytes[9] == 0x45 && bytes[10] == 0x42 && bytes[11] == 0x50
}

/// Whether `bytes` begin like a GIF file.
pub fn is_gif(bytes: &[u8]) -> (r: bool)
    ensures
        r == gif_magic(bytes@),
{
    bytes.len() > 3 && bytes[0] == 0x47 && bytes[1] == 0x49 && bytes[2] == 0x46 && bytes[3] == 0x38
}

/// Whether text, already in lower case and trimmed, opens like an XML or SVG document.
pub fn text_opens_as_svg(text: &str) -> (r: bool)
    ensures
        r == opens_as_svg(text@),
{
    let chars = chars_of(text);
    let xml = chars_of("<?xml");
    let svg = chars_of("<svg");
    starts_with(chars.as_slice(), xml.as_slice()) || starts_with(chars.as_slice(), svg.as_slice())
}

/// Whether text, already in lower case and trimmed, opens like an HTML page.
pub fn text_opens_as_html(text: &str) -> (r: bool)
    ensures
        r == opens_as_html(text@),
{
    let chars = chars_of(text);
    let doctype = chars_of("<!doctype html>");
    let html = chars_of("<html");
    starts_with(chars.as_slice(), doctype.as_slice()) || starts_with(
        chars.as_slice(),
        html.as_slice(),
    )
}

/// Whether `bytes` are text that opens like an XML or SVG document.
pub fn is_svg(bytes: &[u8]) -> (r: bool)
    ensures
        r == svg_text(bytes@),
{
    match utf8_text(bytes) {
        Some(text) => {
            let lower = lowercase(text);
            text_opens_as_svg(trim(lower.as_str()).as_str())
        },
        None => false,
    }
}

/// Whether `bytes` are text that opens like an HTML page.
pub fn is_html(bytes: &[u8]) -> (r: bool)
    ensures
        r == html_text(bytes@),
{
    match utf8_text(bytes) {
        Some(text) => {
            let lower = lowercase(text);
            text_opens_as_html(trim(lower.as_str()).as_str())
        },
        None => false,
    }
}

impl ManagedImageFormat {
    /// Tells the format of a download from its bytes alone.
    pub fn new(bytes: &[u8]) -> (r: Option<ManagedImageFormat>)
        ensures
            r == sniffed(bytes@),
    {
        if is_png(bytes) {
            Some(ManagedImageFormat::Png)
        } else if is_jpeg(bytes) {
            Some(ManagedImageFormat::Jpeg)
        } else if is_webp(bytes) {
            Some(ManagedImageFormat::Webp)
        } else if is_gif(bytes) {
            Some(ManagedImageFormat::Gif)
        } else if is_svg(bytes) {
            Some(ManagedImageFormat::Svg)
        } else if is_html(bytes) {
            Some(ManagedImageFormat::Html)
        } else {
            None
        }
    }

    /// The raster format to scale this download as, where it is one.
    pub open spec fn resizable(self) -> Option<ResizableImageFormat> {
        match self {
            ManagedImageFormat::Png => Some(ResizableImageFormat::Png),
            ManagedImageFormat::Jpeg => Some(ResizableImageFormat::Jpeg),
            ManagedImageFormat::Webp => Some(ResizableImageFormat::Webp),
            ManagedImageFormat::Gif => None,
            ManagedImageFormat::Svg => None,
            ManagedImageFormat::Html => None,
        }
    }

    /// The raster format to scale this download as; `None` for GIF, SVG and HTML.
    pub fn as_resizable_image(&self) -> (r: Option<ResizableImageFormat>)
        ensures
            r == self.resizable(),
    {
        match self {
            ManagedImageFormat::Png => Some(ResizableImageFormat::Png),
            ManagedImageFormat::Jpeg => Some(ResizableImageFormat::Jpeg),
            ManagedImageFormat::Webp => Some(ResizableImageFormat::Webp),
            ManagedImageFormat::Gif => None,
            ManagedImageFormat::Svg => None,
            ManagedImageFormat::Html => None,
        }
    }
}

/// The width and height of the PNG or JPEG image that `bytes` hold, as the
/// image library decodes it; `None` where it cannot decode them.
pub uninterp spec fn raster_dimensions(bytes: Seq<u8>) -> Option<(u32, u32)>;

/// The width and height of the still WEBP image that `bytes` hold, as the
/// WebP library decodes it; `None` where it cannot decode them.
pub uninterp spec fn webp_dimensions(bytes: Seq<u8>) -> Option<(u32, u32)>;

/// The PNG file that the image library writes for the PNG image in `bytes`
/// once it is brought to the largest size that keeps its proportions and fits
/// `width` by `height`; `None` where decoding or encoding fails.
pub uninterp spec fn png_scaled(bytes: Seq<u8>, width: u32, height: u32) -> Option<Seq<u8>>;

/// As `png_scaled`, for a JPEG image written again as JPEG at the quality
/// `quality`.
pub uninterp spec fn jpeg_scaled(bytes: Seq<u8>, width: u32, height: u32, quality: u8) -> Option<
    Seq<u8>,
>;

/// As `png_scaled`, for a WEBP image written as PNG.
pub uninterp spec fn webp_scaled(bytes: Seq<u8>, width: u32, height: u32) -> Option<Seq<u8>>;

/// What an optional byte buffer holds.
pub open spec fn opt_bytes(bytes: Option<Vec<u8>>) -> Option<Seq<u8>> {
    match bytes {
        Some(b) => Some(b@),
        None => None,
    }
}

/// Decodes `bytes` with `image::ImageReader::decode`, the format guessed from
/// the content, and reads the size off the decoded image.
#[verifier::external_body]
fn measure_raster(bytes: &[u8]) -> (r: Option<(u32, u32)>)
    ensures
        r == raster_dimensions(bytes@),
{
    let reader = image::ImageReader::new(std::io::Cursor::new(bytes)).with_guessed_format().ok()?;
    let decoded = reader.decode().ok()?;
    Some((decoded.width(), decoded.height()))
}

/// Decodes `bytes` with `webp::Decoder::decode` and reads the size off the
/// decoded image.
#[verifier::external_body]
fn measure_webp(bytes: &[u8]) -> (r: Option<(u32, u32)>)
    ensures
        r == webp_dimensions(bytes@),
{
    let decoded = webp::Decoder::new(bytes).decode()?;
    Some((decoded.width(), decoded.height()))
}

/// `image::DynamicImage::resize` with the Lanczos3 filter on the decoded PNG
/// in `bytes`, written out by `image::codecs::png::PngEncoder` with fast
/// compression and adaptive filtering. The result is that PNG file.
#[verifier::external_body]
fn scale_png(bytes: &[u8], width: u32, height: u32) -> (r: Option<Vec<u8>>)
    requires
        width > 0,
        height > 0,
    ensures
        opt_bytes(r) == png_scaled(bytes@, width, height),
{
    let reader = image::ImageReader::new(std::io::Cursor::new(bytes)).with_guessed_format().ok()?;
    let scaled = reader.decode().ok()?.resize(width, height, image::imageops::FilterType::Lanczos3);
    let mut out = Vec::new();
    scaled.write_with_encoder(image::codecs::png::PngEncoder::new_with_quality(
        std::io::Cursor::new(&mut out),
        image::codecs::png::CompressionType::Fast,
        image::codecs::png::FilterType::Adaptive,
    )).ok()?;
    Some(out)
}

/// `image::DynamicImage::resize` with the Lanczos3 filter on the decoded JPEG
/// in `bytes`, written out by `image::codecs::jpeg::JpegEncoder` at the
/// quality `quality`. The result is that JPEG file.
#[verifier::external_body]
fn scale_jpeg(bytes: &[u8], width: u32, height: u32, quality: u8) -> (r: Option<Vec<u8>>)
    requires
        width > 0,
        height > 0,
    ensures
        opt_bytes(r) == jpeg_scaled(bytes@, width, height, quality),
{
    let reader = image::ImageReader::new(std::io::Cursor::new(bytes)).with_guessed_format().ok()?;
    let scaled = reader.decode().ok()?.resize(width, height, image::imageops::FilterType::Lanczos3);
    let mut out = Vec::new();
    scaled.write_with_encoder(image::codecs::jpeg::JpegEncoder::new_with_quality(
        std::io::Cursor::new(&mut out),
        quality,
    )).ok()?;
    Some(out)
}

/// `image::DynamicImage::resize` with the Lanczos3 filter on the image that
/// `webp::Decoder::decode` finds in `bytes`, written out as PNG like
/// `scale_png` does. The result is that PNG file.
#[verifier::external_body]
fn scale_webp(bytes: &[u8], width: u32, height: u32) -> (r: Option<Vec<u8>>)
    requires
        width > 0,
        height > 0,
    ensures
        opt_bytes(r) == webp_scaled(bytes@, width, height),
{
    let decoded = webp::Decoder::new(bytes).decode()?.to_image();
    let scaled = decoded.resize(width, height, image::imageops::FilterType::Lanczos3);
    let mut out = Vec::new();
    scaled.write_with_encoder(image::codecs::png::PngEncoder::new_with_quality(
        std::io::Cursor::new(&mut out),
        image::codecs::png::CompressionType::Fast,
        image::codecs::png::FilterType::Adaptive,
    )).ok()?;
    Some(out)
}

/// The box that an image of `width` by `height` pixels has to fit: its own
/// size where it is at most `MAX_WIDTH` wide; else `MAX_WIDTH` wide and as
/// high as keeps the proportions, rounded up.
pub open spec fn bounds_for(width: u32, height: u32) -> (u32, u32) {
    if width > MAX_WIDTH {
        (MAX_WIDTH, ((MAX_WIDTH * height + width - 1) / (width as int)) as u32)
    } else {
        (width, height)
    }
}

/// The box that an image of `width` by `height` pixels has to fit.
pub fn target_bounds(width: u32, height: u32) -> (r: (u32, u32))
    ensures
        r == bounds_for(width, height),
        r.0 <= MAX_WIDTH || r.0 == width,
        r.0 <= width,
        r.1 <= height,
        width > 0 && height > 0 ==> r.0 > 0 && r.1 > 0,
{
    if width > MAX_WIDTH {
        let w: u64 = width as u64;
        let h: u64 = height as u64;
        let scaled: u64 = (600 * h + w - 1) / w;
        proof {
            let wi = w as int;
            let hi = h as int;
            let si = scaled as int;
            assert(si == (600 * hi + wi - 1) / wi);
            assert(si <= hi && (hi > 0 ==> si > 0)) by (nonlinear_arith)
                requires
                    wi > 600,
                    hi >= 0,
                    si == (600 * hi + wi - 1) / wi,
            ;
        }
        (MAX_WIDTH, scaled as u32)
    } else {
        (width, height)
    }
}

impl ResizableImageFormat {
    /// The size of the image in `bytes`, decoded as this format.
    pub open spec fn dimensions(self, bytes: Seq<u8>) -> Option<(u32, u32)> {
        match self {
            ResizableImageFormat::Webp => webp_dimensions(bytes),
            ResizableImageFormat::Png => raster_dimensions(bytes),
            ResizableImageFormat::Jpeg => raster_dimensions(bytes),
        }
    }

    /// The image in `bytes` fitted to `width` by `height` and encoded again:
    /// PNG and WEBP as PNG, JPEG as JPEG.
    pub open spec fn scaled(self, bytes: Seq<u8>, width: u32, height: u32) -> Option<Seq<u8>> {
        match self {
            ResizableImageFormat::Png => png_scaled(bytes, width, height),
            ResizableImageFormat::Jpeg => jpeg_scaled(bytes, width, height, JPEG_QUALITY),
            ResizableImageFormat::Webp => webp_scaled(bytes, width, height),
        }
    }

    /// The image in `bytes` brought down to at most `MAX_WIDTH` pixels of
    /// width and encoded again; `None` where it cannot be decoded, is empty,
    /// or cannot be encoded.
    pub open spec fn rescaled(self, bytes: Seq<u8>) -> Option<Seq<u8>> {
        match self.dimensions(bytes) {
            Some((width, height)) => if width > 0 && height > 0 {
                self.scaled(bytes, bounds_for(width, height).0, bounds_for(width, height).1)
            } else {
                None
            },
            None => None,
        }
    }

    /// Decodes the image, scales it to at most `MAX_WIDTH` pixels of width
    /// where it is wider, and encodes it again.
    pub fn rezise(&self, bytes: &[u8]) -> (r: Result<Vec<u8>, Failure>)
        ensures
            match r {
                Ok(out) => self.rescaled(bytes@) == Some(out@),
                Err(e) => self.rescaled(bytes@) is None && e is ImageFormat,
            },
    {
        let measured = match self {
            ResizableImageFormat::Webp => measure_webp(bytes),
            ResizableImageFormat::Png => measure_raster(bytes),
            ResizableImageFormat::Jpeg => measure_raster(bytes),
        };
        let (width, height) = match measured {
            Some(size) => size,
            None => {
                return Err(Failure::ImageFormat { reason: "Image could not be decoded.".to_owned() });
            },
        };
        if width == 0 || height == 0 {
            return Err(Failure::ImageFormat { reason: "Image is empty.".to_owned() });
        }
        let (w, h) = target_bounds(width, height);
        let scaled = match self {
            ResizableImageFormat::Png => scale_png(bytes, w, h),
            ResizableImageFormat::Jpeg => scale_jpeg(bytes, w, h, JPEG_QUALITY),
            ResizableImageFormat::Webp => scale_webp(bytes, w, h),
        };
        match scaled {
            Some(out) => Ok(out),
            None => Err(Failure::ImageFormat { reason: "Image could not be encoded.".to_owned() }),
        }
    }
}

/// What goes into the archive for a download: GIF and SVG as they came;
/// PNG, JPEG and WEBP scaled and encoded again; nothing for an HTML page or
/// for bytes of no known format.
pub open spec fn resized(bytes: Seq<u8>) -> Option<Seq<u8>> {
    match sniffed(bytes) {
        Some(ManagedImageFormat::Gif) => Some(bytes),
        Some(ManagedImageFormat::Svg) => Some(bytes),
        Some(ManagedImageFormat::Png) => ResizableImageFormat::Png.rescaled(bytes),
        Some(ManagedImageFormat::Jpeg) => ResizableImageFormat::Jpeg.rescaled(bytes),
        Some(ManagedImageFormat::Webp) => ResizableImageFormat::Webp.rescaled(bytes),
        Some(ManagedImageFormat::Html) => None,
        None => None,
    }
}

/// The policy for downloads. A GIF goes into the archive as it came, and so
/// does an SVG; an HTML page is rejected, and so are bytes of no known
/// format. A raster image is never asked to be wider than `MAX_WIDTH`, and
/// one that is not wider keeps its size.
pub proof fn lemma_image_policy(bytes: Seq<u8>, width: u32, height: u32)
    ensures
        gif_magic(bytes) ==> resized(bytes) == Some(bytes),
        sniffed(bytes) == Some(ManagedImageFormat::Svg) ==> resized(bytes) == Some(bytes),
        sniffed(bytes) == Some(ManagedImageFormat::Html) ==> resized(bytes) is None,
        sniffed(bytes) is None ==> resized(bytes) is None,
        bounds_for(width, height).0 <= MAX_WIDTH || bounds_for(width, height).0 == width,
        bounds_for(width, height).0 <= width,
        width <= MAX_WIDTH ==> bounds_for(width, height) == (width, height),
        width > MAX_WIDTH ==> bounds_for(width, height).0 == MAX_WIDTH,
{
}

/// An image that is no wider than `MAX_WIDTH` is not scaled up: a PNG image
/// of such a size is encoded again at its own size. A JPEG image that is
/// wider is fitted into a box `MAX_WIDTH` wide that keeps its proportions,
/// as one of 1200 by 800 is into 600 by 400, and stays a JPEG image.
pub proof fn lemma_raster_sizes(bytes: Seq<u8>, width: u32, height: u32)
    requires
        width > 0,
        height > 0,
    ensures
        sniffed(bytes) == Some(ManagedImageFormat::Png) && raster_dimensions(bytes) == Some(
            (width, height),
        ) && width <= MAX_WIDTH ==> resized(bytes) == png_scaled(bytes, width, height),
        sniffed(bytes) == Some(ManagedImageFormat::Jpeg) && raster_dimensions(bytes) == Some(
            (width, height),
        ) && width > MAX_WIDTH ==> resized(bytes) == jpeg_scaled(
            bytes,
            MAX_WIDTH,
            bounds_for(width, height).1,
            JPEG_QUALITY,
        ),
        bounds_for(1, 1) == (1u32, 1u32),
        bounds_for(1200, 800) == (600u32, 400u32),
{
}

/// Prepares a download for the archive. The result depends on the bytes
/// alone. Fails with `Failure::ImageFormat` on an HTML page, on bytes of no
/// known format, and on a raster image that cannot be decoded or encoded.
pub fn resize(bytes: Vec<u8>) -> (r: Result<Vec<u8>, Failure>)
    ensures
        match r {
            Ok(out) => resized(bytes@) == Some(out@),
            Err(e) => resized(bytes@) is None && e is ImageFormat,
        },
{
    match ManagedImageFormat::new(bytes.as_slice()) {
        None => Err(
            Failure::ImageFormat {
                reason:
                    "Unsupported inline image format. Please report this as a bug and include the link.".to_owned(),
            },
        ),
        Some(ManagedImageFormat::Html) => Err(
            Failure::ImageFormat { reason: "Skipping html.".to_owned() },
        ),
        Some(ManagedImageFormat::Gif) => Ok(bytes),
        Some(ManagedImageFormat::Svg) => Ok(bytes),
        Some(ManagedImageFormat::Png) => ResizableImageFormat::Png.rezise(bytes.as_slice()),
        Some(ManagedImageFormat::Jpeg) => ResizableImageFormat::Jpeg.rezise(bytes.as_slice()),
        Some(ManagedImageFormat::Webp) => ResizableImageFormat::Webp.rezise(bytes.as_slice()),
    }
}


/// The file name that the URL `url` ends in: its last path segment, made fit
/// for a file name.
pub open spec fn url_file_name(url: Seq<char>) -> Option<Seq<char>> {
    match url_segments(url) {
        Some(parts) => if parts.len() > 0 {
            Some(without_forbidden(parts.last()))
        } else {
            None
        },
        None => None,
    }
}

/// The file name that the path `path` ends in, made fit for a file name.
pub open spec fn path_name(path: Seq<char>) -> Option<Seq<char>> {
    match path_file_name(path) {
        Some(name) => Some(without_forbidden(name)),
        None => None,
    }
}

/// The file name for the image at `url`, read as a URL first and as a path
/// where it is no URL.
pub open spec fn file_name_of(url: Seq<char>) -> Option<Seq<char>> {
    match url_file_name(url) {
        Some(name) => Some(name),
        None => path_name(url),
    }
}

/// The file name that a URL ends in, whatever its query and fragment.
pub fn extract_file_name_from_url(url: &str) -> (r: Option<String>)
    ensures
        opt_view(r) == url_file_name(url@),
{
    match path_segments(url) {
        Some(parts) => if parts.len() > 0 {
            let last = parts.len() - 1;
            assert(texts(parts@).last() == parts@[last as int]@);
            Some(replace_forbidden(parts[last].as_str()))
        } else {
            None
        },
        None => None,
    }
}

/// The file name that a path ends in.
pub fn extract_file_name_from_path(path: &str) -> (r: Option<String>)
    ensures
        opt_view(r) == path_name(path@),
{
    match file_name(path) {
        Some(name) => Some(replace_forbidden(name.as_str())),
        None => None,
    }
}

/// The file name under which the image at `url` goes into the archive. Fails
/// where `url` is neither a URL with a path nor a path with a last component.
pub fn extract_file_name(url: &str) -> (r: Result<String, Failure>)
    ensures
        match r {
            Ok(name) => file_name_of(url@) == Some(name@),
            Err(e) => file_name_of(url@) is None && (e matches Failure::ImageFormat { reason }
                && reason@ == url@ + " is neither an url nor a path"@),
        },
{
    match extract_file_name_from_url(url) {
        Some(name) => Ok(name),
        None => match extract_file_name_from_path(url) {
            Some(name) => Ok(name),
            None => {
                let mut reason = url.to_owned();
                reason.append(" is neither an url nor a path");
                Err(Failure::ImageFormat { reason })
            },
        },
    }
}

/// The sources of the images in an optional fragment of HTML.
pub open spec fn sources_in(body: Option<Seq<char>>) -> Seq<Seq<char>> {
    match body {
        Some(text) => image_sources(text),
        None => Seq::empty(),
    }
}

/// The sources of the images in an optional fragment of HTML, in document order.
pub fn extract_urls_from_html(body: &Option<String>) -> (r: Vec<String>)
    ensures
        texts(r@) == sources_in(opt_view(*body)),
{
    match body {
        Some(text) => find_image_sources(text.as_str()),
        None => {
            let out: Vec<String> = Vec::new();
            assert(texts(out@) =~= Seq::empty());
            out
        },
    }
}

/// Where an image named `name` lies, seen from a chapter document.
pub open spec fn local_path(name: Seq<char>) -> Seq<char> {
    "../images/"@ + name
}

/// `body` with the first `sources` rewritten one after the other: every
/// occurrence of a source that has a file name gives way to the local path
/// of that file.
pub open spec fn with_local_images(body: Seq<char>, sources: Seq<Seq<char>>) -> Seq<char>
    decreases sources.len(),
{
    if sources.len() == 0 {
        body
    } else {
        let before = with_local_images(body, sources.drop_last());
        match file_name_of(sources.last()) {
            Some(name) => replaced(before, sources.last(), local_path(name)),
            None => before,
        }
    }
}

/// A fragment of HTML whose images point into the archive.
pub open spec fn localized(body: Seq<char>) -> Seq<char> {
    with_local_images(body, image_sources(body))
}

/// Rewrites the image sources of a fragment of HTML so that they point at the
/// files in the archive.
pub fn replace_url_with_path(body: String) -> (r: String)
    ensures
        r@ == localized(body@),
{
    let sources = find_image_sources(body.as_str());
    let ghost all = texts(sources@);
    let mut chars = chars_of(body.as_str());
    let mut i: usize = 0;
    assert(all.take(0) =~= Seq::empty());
    while i < sources.len()
        invariant
            i <= sources@.len(),
            all == texts(sources@),
            chars@ == with_local_images(body@, all.take(i as int)),
        decreases sources@.len() - i,
    {
        proof {
            assert(all.take(i + 1).drop_last() == all.take(i as int));
            assert(all.take(i + 1).last() == sources@[i as int]@);
        }
        match extract_file_name(sources[i].as_str()) {
            Ok(name) => {
                let mut path = String::from_str("../images/");
                path.append(name.as_str());
                let from = chars_of(sources[i].as_str());
                let to = chars_of(path.as_str());
                chars = replace(chars.as_slice(), from.as_slice(), to.as_slice());
            },
            Err(_) => {},
        }
        i = i + 1;
    }
    assert(all.take(sources@.len() as int) == all);
    text_of(chars.as_slice())
}


/// Prepares the download from `url` for the archive, as `resize` does. A
/// failure names the URL, so that the image can be found.
pub fn resize_download(url: &str, bytes: Vec<u8>) -> (r: Result<Vec<u8>, Failure>)
    ensures
        match r {
            Ok(out) => resized(bytes@) == Some(out@),
            Err(e) => resized(bytes@) is None && (e matches Failure::ImageFormat { reason } && (
            " URL: "@ + url@).is_suffix_of(reason@)),
        },
{
    match resize(bytes) {
        Ok(out) => Ok(out),
        Err(e) => {
            let mut reason = e.message();
            let ghost before = reason@;
            reason.append(" URL: ");
            reason.append(url);
            proof {
                let tail = " URL: "@ + url@;
                assert(reason@ =~= before + tail);
                assert(reason@.subrange(reason@.len() - tail.len(), reason@.len() as int) =~= tail);
            }
            Err(Failure::ImageFormat { reason })
        },
    }
}

/// Where the bytes of an image came from.
#[derive(Debug)]
pub enum Fetched {
    /// The cache held a copy.
    FromCache(Vec<u8>),
    /// The image was downloaded.
    FromNetwork(Vec<u8>),
}

/// An image ready for the archive.
#[derive(Debug)]
pub struct Prepared {
    /// The bytes to put into the archive.
    pub data: Vec<u8>,
    /// Whether the bytes are new to the cache and have to be stored in it.
    pub store: bool,
}

/// Makes the bytes of the image at `url` ready for the archive. A copy from
/// the cache goes in as it is and is not stored again; a download is
/// prepared as `resize_download` does and has to be stored.
pub fn download_image(url: &str, fetched: Fetched) -> (r: Result<Prepared, Failure>)
    ensures
        match fetched {
            Fetched::FromCache(bytes) => r matches Ok(p) && p.data@ == bytes@ && !p.store,
            Fetched::FromNetwork(bytes) => match r {
                Ok(p) => resized(bytes@) == Some(p.data@) && p.store,
                Err(e) => resized(bytes@) is None && e is ImageFormat,
            },
        },
{
    match fetched {
        Fetched::FromCache(bytes) => Ok(Prepared { data: bytes, store: false }),
        Fetched::FromNetwork(bytes) => match resize_download(url, bytes) {
            Ok(data) => Ok(Prepared { data, store: true }),
            Err(e) => Err(e),
        },
    }
}

} // verus!
