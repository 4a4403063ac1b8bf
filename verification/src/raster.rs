use vstd::prelude::*;
use std::io::Cursor;
use image::AnimationDecoder;
use crate::geometry::{DevicePixels, Size};
use crate::image_prepare::{
    pixel_count, pixel_count_spec, swap_red_blue, swapped_red_blue_byte, ImageCacheError,
    ImagePreparationFailureKind, ImagePreparationLimits, ImagePreparationOutcome,
};
use crate::image_source::ImageRenderRequest;

verus! {

#[verifier::external_type_specification]
#[verifier::external_body]
pub struct ExImageFormat(image::ImageFormat);

#[verifier::external_type_specification]
#[verifier::external_body]
pub struct ExImageError(image::ImageError);

/// Encoded bytes whose leading signature names a raster format, with that format.
pub struct RasterSource<'a> {
    bytes: &'a [u8],
    format: image::ImageFormat,
}

impl<'a> RasterSource<'a> {
    /// The encoded bytes.
    pub closed spec fn encoded(&self) -> Seq<u8> {
        self.bytes@
    }
}

/// How a raster format stores frames.
#[derive(Clone, Copy, Debug, PartialEq, Eq, Structural)]
pub enum RasterFamily {
    /// GIF: an animation of frames.
    Gif,
    /// WebP: an animation or one still image.
    WebP,
    /// Every other format: one still image.
    Still,
}

/// A decoder's rejection, classified as an unsupported format or a failed decode.
#[derive(Clone, Debug)]
pub enum RasterError {
    /// The format or a feature of it is not supported.
    Unsupported(ImageCacheError),
    /// The bytes could not be decoded.
    Decode(ImageCacheError),
}

/// A decoded frame: RGBA bytes, row-major, four per pixel.
pub struct RgbaFrame {
    /// Width in pixels.
    pub width: u32,
    /// Height in pixels.
    pub height: u32,
    /// RGBA bytes.
    pub pixels: Vec<u8>,
}

impl View for RgbaFrame {
    type V = (u32, u32, Seq<u8>);

    open spec fn view(&self) -> (u32, u32, Seq<u8>) {
        (self.width, self.height, self.pixels@)
    }
}

/// A decoded frame holds exactly four RGBA bytes per pixel.
pub open spec fn frame_covers(frame: (u32, u32, Seq<u8>)) -> bool {
    frame.2.len() == frame.0 * frame.1 * 4
}

/// Whether the leading bytes carry a raster format signature of `image::guess_format`'s table:
/// PNG, JPEG, GIF, WebP (`RIFF`, any four bytes, `WEBP`), TIFF, DDS, BMP, ICO, Radiance HDR, AVIF
/// (two zero bytes, any two bytes, `ftypavif`), OpenEXR, QOI, the seven PNM headers and
/// farbfeld.
pub open spec fn raster_recognized(bytes: Seq<u8>) -> bool {
    ||| begins_with(bytes, seq![137u8, 80u8, 78u8, 71u8, 13u8, 10u8, 26u8, 10u8])
    ||| begins_with(bytes, seq![255u8, 216u8, 255u8])
    ||| raster_family_of(bytes) != RasterFamily::Still
    ||| begins_with(bytes, seq![77u8, 77u8, 0u8, 42u8])
    ||| begins_with(bytes, seq![73u8, 73u8, 42u8, 0u8])
    ||| begins_with(bytes, seq![68u8, 68u8, 83u8, 32u8])
    ||| begins_with(bytes, seq![66u8, 77u8])
    ||| begins_with(bytes, seq![0u8, 0u8, 1u8, 0u8])
    ||| begins_with(bytes, seq![35u8, 63u8, 82u8, 65u8, 68u8, 73u8, 65u8, 78u8, 67u8, 69u8])
    ||| (bytes.len() >= 12 && bytes[0] == 0u8 && bytes[1] == 0u8 && bytes.subrange(4, 12) == seq![
        102u8,
        116u8,
        121u8,
        112u8,
        97u8,
        118u8,
        105u8,
        102u8,
    ])
    ||| begins_with(bytes, seq![118u8, 47u8, 49u8, 1u8])
    ||| begins_with(bytes, seq![113u8, 111u8, 105u8, 102u8])
    ||| (bytes.len() >= 2 && bytes[0] == 80u8 && 49u8 <= bytes[1] <= 55u8)
    ||| begins_with(bytes, seq![102u8, 97u8, 114u8, 98u8, 102u8, 101u8, 108u8, 100u8])
}

/// The bytes begin with `prefix`.
pub open spec fn begins_with(bytes: Seq<u8>, prefix: Seq<u8>) -> bool {
    prefix.len() <= bytes.len() && bytes.subrange(0, prefix.len() as int) == prefix
}

/// The frame family of the raster format the leading bytes name: GIF for the `GIF89a` and
/// `GIF87a` signatures, WebP for `RIFF`, any four bytes, then `WEBP`, and a still image otherwise.
pub open spec fn raster_family_of(bytes: Seq<u8>) -> RasterFamily {
    if begins_with(bytes, seq![71u8, 73u8, 70u8, 56u8, 57u8, 97u8]) || begins_with(
        bytes,
        seq![71u8, 73u8, 70u8, 56u8, 55u8, 97u8],
    ) {
        RasterFamily::Gif
    } else if begins_with(bytes, seq![82u8, 73u8, 70u8, 70u8]) && bytes.len() >= 12 && bytes.subrange(
        8,
        12,
    ) == seq![87u8, 69u8, 66u8, 80u8] {
        RasterFamily::WebP
    } else {
        RasterFamily::Still
    }
}

/// Width and height read from a raster's header (`None` when the decoder rejects it).
pub uninterp spec fn raster_dimensions_of(bytes: Seq<u8>) -> Option<(u32, u32)>;

/// Frame `index` of a GIF animation (`Some(None)` past the last frame; `None` when the decoder
/// rejects the bytes or the frame).
pub uninterp spec fn gif_frame_of(bytes: Seq<u8>, index: usize) -> Option<Option<(u32, u32, Seq<u8>)>>;

/// Whether a WebP bitstream is animated (`None` when the decoder rejects it).
pub uninterp spec fn webp_animated_of(bytes: Seq<u8>) -> Option<bool>;

/// Frame `index` of an animated WebP over a transparent background (`Some(None)` past the last
/// frame; `None` when the decoder rejects the bytes or the frame).
pub uninterp spec fn webp_frame_of(bytes: Seq<u8>, index: usize) -> Option<Option<(u32, u32, Seq<u8>)>>;

/// The still image of a WebP bitstream as RGBA (`None` when the decoder rejects it).
pub uninterp spec fn webp_still_of(bytes: Seq<u8>) -> Option<(u32, u32, Seq<u8>)>;

/// The still image of a raster as RGBA (`None` when the decoder rejects it).
pub uninterp spec fn still_image_of(bytes: Seq<u8>) -> Option<(u32, u32, Seq<u8>)>;

/// RGBA bytes of an image resized with a triangle filter to the target dimensions.
pub uninterp spec fn resized_rgba(
    width: u32,
    height: u32,
    pixels: Seq<u8>,
    target_width: u32,
    target_height: u32,
) -> Seq<u8>;

/// Guesses the raster format from the leading signature with `image::guess_format` (see
/// [`raster_recognized`] for its table): the result is `Some` exactly when the signature is
/// recognized, and carries the given bytes.
#[verifier::external_body]
fn probe(bytes: &[u8]) -> (source: Option<RasterSource<'_>>)
    ensures
        source is Some == raster_recognized(bytes@),
        source matches Some(source) ==> source.encoded() == bytes@,
{
    match image::guess_format(bytes) {
        Ok(format) => Some(RasterSource { bytes, format }),
        Err(_) => None,
    }
}

/// Tells the GIF and WebP variants of `image::ImageFormat` from the others. The format is the
/// one `image::guess_format` read from the source's leading signature, whose table names GIF by
/// `GIF89a` or `GIF87a` and WebP by `RIFF`, four bytes and `WEBP`.
#[verifier::external_body]
fn family(source: &RasterSource) -> (family: RasterFamily)
    ensures
        family == raster_family_of(source.encoded()),
{
    match source.format {
        image::ImageFormat::Gif => RasterFamily::Gif,
        image::ImageFormat::WebP => RasterFamily::WebP,
        _ => RasterFamily::Still,
    }
}

/// Converts an `image::ImageError` to the library's error, telling its `Unsupported` variant
/// from the others and keeping its `Display` text. Which variant a decoder reports is not
/// stated.
#[verifier::external_body]
fn classify(error: image::ImageError) -> (classified: RasterError) {
    let description = error.to_string();
    match error {
        image::ImageError::Unsupported(_) => RasterError::Unsupported(ImageCacheError { description }),
        _ => RasterError::Decode(ImageCacheError { description }),
    }
}

/// Reads the dimensions with `image::ImageReader::into_dimensions`.
#[verifier::external_body]
fn dimensions(source: &RasterSource) -> (size: Result<(u32, u32), image::ImageError>)
    ensures
        match size {
            Ok(size) => raster_dimensions_of(source.encoded()) == Some(size),
            Err(_) => raster_dimensions_of(source.encoded()) is None,
        },
{
    image::ImageReader::with_format(Cursor::new(source.bytes), source.format).into_dimensions()
}

/// Takes frame `index` from `image::AnimationDecoder::into_frames` of a
/// `image::codecs::gif::GifDecoder`; a decoded frame's bytes cover its pixels.
#[verifier::external_body]
fn gif_frame(source: &RasterSource, index: usize) -> (frame: Result<Option<RgbaFrame>, image::ImageError>)
    ensures
        match frame {
            Ok(Some(frame)) => gif_frame_of(source.encoded(), index) == Some(Some(frame@))
                && frame_covers(frame@),
            Ok(None) => gif_frame_of(source.encoded(), index) == Some(None::<(u32, u32, Seq<u8>)>),
            Err(_) => gif_frame_of(source.encoded(), index) is None,
        },
{
    let decoder = image::codecs::gif::GifDecoder::new(Cursor::new(source.bytes))?;
    match decoder.into_frames().nth(index) {
        Some(Ok(frame)) => {
            let buffer = frame.into_buffer();
            Ok(Some(RgbaFrame { width: buffer.width(), height: buffer.height(), pixels: buffer.into_raw() }))
        },
        Some(Err(error)) => Err(error),
        None => Ok(None),
    }
}

/// Reads `image::codecs::webp::WebPDecoder::has_animation`.
#[verifier::external_body]
fn webp_animated(source: &RasterSource) -> (animated: Result<bool, image::ImageError>)
    ensures
        match animated {
            Ok(animated) => webp_animated_of(source.encoded()) == Some(animated),
            Err(_) => webp_animated_of(source.encoded()) is None,
        },
{
    Ok(image::codecs::webp::WebPDecoder::new(Cursor::new(source.bytes))?.has_animation())
}

/// Takes frame `index` from `image::AnimationDecoder::into_frames` of a
/// `image::codecs::webp::WebPDecoder` whose background is set transparent; a decoded frame's
/// bytes cover its pixels.
#[verifier::external_body]
fn webp_frame(source: &RasterSource, index: usize) -> (frame: Result<Option<RgbaFrame>, image::ImageError>)
    ensures
        match frame {
            Ok(Some(frame)) => webp_frame_of(source.encoded(), index) == Some(Some(frame@))
                && frame_covers(frame@),
            Ok(None) => webp_frame_of(source.encoded(), index) == Some(None::<(u32, u32, Seq<u8>)>),
            Err(_) => webp_frame_of(source.encoded(), index) is None,
        },
{
    let mut decoder = image::codecs::webp::WebPDecoder::new(Cursor::new(source.bytes))?;
    let _ = decoder.set_background_color(image::Rgba([0, 0, 0, 0]));
    match decoder.into_frames().nth(index) {
        Some(Ok(frame)) => {
            let buffer = frame.into_buffer();
            Ok(Some(RgbaFrame { width: buffer.width(), height: buffer.height(), pixels: buffer.into_raw() }))
        },
        Some(Err(error)) => Err(error),
        None => Ok(None),
    }
}

/// Decodes a still WebP with `image::DynamicImage::from_decoder` and converts it with
/// `into_rgba8`; the bytes cover the pixels.
#[verifier::external_body]
fn webp_still(source: &RasterSource) -> (image: Result<RgbaFrame, image::ImageError>)
    ensures
        match image {
            Ok(image) => webp_still_of(source.encoded()) == Some(image@) && frame_covers(image@),
            Err(_) => webp_still_of(source.encoded()) is None,
        },
{
    let decoder = image::codecs::webp::WebPDecoder::new(Cursor::new(source.bytes))?;
    let buffer = image::DynamicImage::from_decoder(decoder)?.into_rgba8();
    Ok(RgbaFrame { width: buffer.width(), height: buffer.height(), pixels: buffer.into_raw() })
}

/// Decodes a still image with `image::ImageReader::decode` and converts it with `into_rgba8`;
/// the bytes cover the pixels.
#[verifier::external_body]
fn still_image(source: &RasterSource) -> (image: Result<RgbaFrame, image::ImageError>)
    ensures
        match image {
            Ok(image) => still_image_of(source.encoded()) == Some(image@) && frame_covers(image@),
            Err(_) => still_image_of(source.encoded()) is None,
        },
{
    let reader = image::ImageReader::with_format(Cursor::new(source.bytes), source.format);
    let buffer = reader.decode()?.into_rgba8();
    Ok(RgbaFrame { width: buffer.width(), height: buffer.height(), pixels: buffer.into_raw() })
}

/// Resizes with `image::imageops::resize` and the triangle filter; the result holds exactly the
/// target's pixels.
#[verifier::external_body]
fn resize(frame: RgbaFrame, target_width: u32, target_height: u32) -> (pixels: Vec<u8>)
    requires
        frame_covers(frame@),
        target_width * target_height * 4 <= isize::MAX,
    ensures
        pixels@ == resized_rgba(frame.width, frame.height, frame.pixels@, target_width, target_height),
        pixels@.len() == target_width * target_height * 4,
{
    let image = image::RgbaImage::from_raw(frame.width, frame.height, frame.pixels).unwrap();
    image::imageops::resize(&image, target_width, target_height, image::imageops::FilterType::Triangle).into_raw()
}
/// Why a frame could not be decoded.
#[derive(Clone, Debug)]
pub enum FrameError {
    /// The decoder rejected the bytes or the frame.
    Image(RasterError),
    /// The source has no frame at the requested index.
    FrameUnavailable,
}

/// Frame `index` of a recognized raster: `Some(Some(frame))` when decoded, `Some(None)` when
/// the source has no such frame, `None` when a decoder rejects it. Animations (GIF, animated
/// WebP) yield their frames; still images (and still WebP) have only frame 0.
pub open spec fn frame_decode_spec(bytes: Seq<u8>, index: usize) -> Option<Option<(u32, u32, Seq<u8>)>> {
    match raster_family_of(bytes) {
        RasterFamily::Gif => gif_frame_of(bytes, index),
        RasterFamily::WebP => match webp_animated_of(bytes) {
            None => None,
            Some(true) => webp_frame_of(bytes, index),
            Some(false) => if index == 0 {
                match webp_still_of(bytes) {
                    Some(frame) => Some(Some(frame)),
                    None => None,
                }
            } else {
                Some(None)
            },
        },
        RasterFamily::Still => if index == 0 {
            match still_image_of(bytes) {
                Some(frame) => Some(Some(frame)),
                None => None,
            }
        } else {
            Some(None)
        },
    }
}

/// The failure kind of a decoder's rejection.
pub open spec fn rejection_kind(error: RasterError) -> ImagePreparationFailureKind {
    match error {
        RasterError::Unsupported(error) => ImagePreparationFailureKind::Unsupported(error),
        RasterError::Decode(error) => ImagePreparationFailureKind::DecodeFailed(error),
    }
}

/// A failure kind that reports a decoder's rejection.
pub open spec fn is_rejection(kind: ImagePreparationFailureKind) -> bool {
    kind is Unsupported || kind is DecodeFailed
}

fn rejection(error: RasterError) -> (kind: ImagePreparationFailureKind)
    ensures
        kind == rejection_kind(error),
        is_rejection(kind),
{
    match error {
        RasterError::Unsupported(error) => ImagePreparationFailureKind::Unsupported(error),
        RasterError::Decode(error) => ImagePreparationFailureKind::DecodeFailed(error),
    }
}

/// Decodes frame `index` of a recognized raster (see [`frame_decode_spec`]).
pub fn decode_raster_frame(source: &RasterSource, frame_index: usize) -> (frame: Result<
    RgbaFrame,
    FrameError,
>)
    ensures
        match frame {
            Ok(frame) => frame_decode_spec(source.encoded(), frame_index) == Some(Some(frame@))
                && frame_covers(frame@),
            Err(FrameError::FrameUnavailable) => frame_decode_spec(source.encoded(), frame_index)
                == Some(None::<(u32, u32, Seq<u8>)>),
            Err(FrameError::Image(_)) => frame_decode_spec(source.encoded(), frame_index) is None,
        },
{
    match family(source) {
        RasterFamily::Gif => match gif_frame(source, frame_index) {
            Ok(Some(frame)) => Ok(frame),
            Ok(None) => Err(FrameError::FrameUnavailable),
            Err(error) => Err(FrameError::Image(classify(error))),
        },
        RasterFamily::WebP => match webp_animated(source) {
            Err(error) => Err(FrameError::Image(classify(error))),
            Ok(true) => match webp_frame(source, frame_index) {
                Ok(Some(frame)) => Ok(frame),
                Ok(None) => Err(FrameError::FrameUnavailable),
                Err(error) => Err(FrameError::Image(classify(error))),
            },
            Ok(false) => if frame_index == 0 {
                match webp_still(source) {
                    Ok(frame) => Ok(frame),
                    Err(error) => Err(FrameError::Image(classify(error))),
                }
            } else {
                Err(FrameError::FrameUnavailable)
            },
        },
        RasterFamily::Still => if frame_index == 0 {
            match still_image(source) {
                Ok(frame) => Ok(frame),
                Err(error) => Err(FrameError::Image(classify(error))),
            }
        } else {
            Err(FrameError::FrameUnavailable)
        },
    }
}

/// Result of the checks and decode that precede fitting a raster to its requested size.
pub enum RasterPreparation {
    /// The bytes carry no raster signature.
    NotRaster,
    /// Preparation failed.
    Failed(ImagePreparationFailureKind),
    /// The requested frame was decoded.
    Decoded {
        /// The raster's dimensions.
        source_size: Size<DevicePixels>,
        /// The decoded frame.
        frame: RgbaFrame,
    },
}

/// Source dimensions as device pixels.
pub open spec fn source_size_of(dimensions: (u32, u32)) -> Size<DevicePixels> {
    Size { width: DevicePixels(dimensions.0 as i32), height: DevicePixels(dimensions.1 as i32) }
}

/// The checks and decode that precede fitting a raster: bytes without a raster signature are
/// not raster; a header the decoder rejects fails as a rejection; a source over the source-pixel
/// limit fails as too large before any decode; otherwise the requested frame is decoded (see
/// [`frame_decode_spec`]).
pub open spec fn raster_preparation(
    preparation: RasterPreparation,
    bytes: Seq<u8>,
    request: ImageRenderRequest,
    limits: ImagePreparationLimits,
) -> bool {
    if !raster_recognized(bytes) {
        preparation is NotRaster
    } else {
        match raster_dimensions_of(bytes) {
            None => preparation matches RasterPreparation::Failed(kind) && is_rejection(kind),
            Some(dimensions) => {
                let source_size = source_size_of(dimensions);
                if pixel_count_spec(source_size) > limits.source_limit() {
                    preparation == RasterPreparation::Failed(
                        ImagePreparationFailureKind::TooLarge {
                            source_size,
                            requested_size: request.size(),
                            max_pixels: limits.source_limit(),
                        },
                    )
                } else {
                    match frame_decode_spec(bytes, request.frame()) {
                        Some(Some(decoded)) => preparation matches RasterPreparation::Decoded {
                            source_size: size,
                            frame,
                        } && size == source_size && frame@ == decoded && frame_covers(decoded),
                        Some(None) => preparation == RasterPreparation::Failed(
                            ImagePreparationFailureKind::FrameUnavailable {
                                frame_index: request.frame(),
                            },
                        ),
                        None => preparation matches RasterPreparation::Failed(kind) && is_rejection(
                            kind,
                        ),
                    }
                }
            },
        }
    }
}

/// Recognizes raster bytes, reads their dimensions, rejects sources over the source-pixel limit
/// before decoding, and decodes the requested frame.
pub fn prepare_raster<'a>(
    bytes: &'a [u8],
    request: &ImageRenderRequest,
    limits: &ImagePreparationLimits,
) -> (preparation: RasterPreparation)
    ensures
        raster_preparation(preparation, bytes@, *request, *limits),
{
    let source = match probe(bytes) {
        Some(source) => source,
        None => {
            return RasterPreparation::NotRaster;
        },
    };
    let (width, height) = match dimensions(&source) {
        Ok(dimensions) => dimensions,
        Err(error) => {
            return RasterPreparation::Failed(rejection(classify(error)));
        },
    };
    let source_size = Size { width: DevicePixels(width as i32), height: DevicePixels(height as i32) };
    if pixel_count(source_size) > limits.max_source_pixels() {
        return RasterPreparation::Failed(
            ImagePreparationFailureKind::TooLarge {
                source_size,
                requested_size: request.requested_size(),
                max_pixels: limits.max_source_pixels(),
            },
        );
    }
    match decode_raster_frame(&source, request.frame_index()) {
        Ok(frame) => RasterPreparation::Decoded { source_size, frame },
        Err(FrameError::Image(error)) => RasterPreparation::Failed(rejection(error)),
        Err(FrameError::FrameUnavailable) => RasterPreparation::Failed(
            ImagePreparationFailureKind::FrameUnavailable { frame_index: request.frame_index() },
        ),
    }
}

/// The RGBA bytes a frame has at the target size: the frame's own bytes when its size is the
/// target, else the frame resized to it.
pub open spec fn fitted_rgba(frame: (u32, u32, Seq<u8>), target: Size<DevicePixels>) -> Seq<u8> {
    if frame.0 as i32 == target.width.0 && frame.1 as i32 == target.height.0 {
        frame.2
    } else {
        resized_rgba(frame.0, frame.1, frame.2, target.width.0 as u32, target.height.0 as u32)
    }
}

/// Brings a decoded frame to the target size and to BGRA byte order.
pub fn downsample_to_bgra(frame: RgbaFrame, target_size: Size<DevicePixels>) -> (pixels: Vec<u8>)
    requires
        frame_covers(frame@),
        target_size.width.0 >= 0,
        target_size.height.0 >= 0,
        target_size.width.0 * target_size.height.0 * 4 <= isize::MAX,
    ensures
        pixels@.len() == fitted_rgba(frame@, target_size).len(),
        pixels@.len() == target_size.width.0 * target_size.height.0 * 4,
        forall|index: int|
            0 <= index < pixels@.len() ==> #[trigger] pixels@[index] == swapped_red_blue_byte(
                fitted_rgba(frame@, target_size),
                index,
            ),
{
    let ghost view = frame@;
    proof {
        let w = frame.width;
        let tw = target_size.width.0;
        assert(w as i32 == tw && tw >= 0 ==> w == tw) by (bit_vector);
        let h = frame.height;
        let th = target_size.height.0;
        assert(h as i32 == th && th >= 0 ==> h == th) by (bit_vector);
    }
    let same = frame.width as i32 == target_size.width.0 && frame.height as i32
        == target_size.height.0;
    let mut pixels = if same {
        frame.pixels
    } else {
        resize(frame, target_size.width.0 as u32, target_size.height.0 as u32)
    };
    swap_red_blue(&mut pixels);
    pixels
}

/// The prepared upload of a decoded raster at its fitted target size: a target over the
/// upload-pixel limit fails as too large; otherwise the frame, brought to the target size in
/// BGRA order, is ready for upload.
pub open spec fn raster_upload_outcome(
    outcome: ImagePreparationOutcome,
    request: ImageRenderRequest,
    limits: ImagePreparationLimits,
    source_size: Size<DevicePixels>,
    frame: (u32, u32, Seq<u8>),
    target_size: Size<DevicePixels>,
    prepared_on_main_thread: bool,
) -> bool {
    if pixel_count_spec(target_size) > limits.upload_limit() {
        &&& outcome matches ImagePreparationOutcome::Failed(failure)
        &&& failure.failed_request() == request
        &&& failure.failure() == (ImagePreparationFailureKind::TooLarge {
            source_size,
            requested_size: request.size(),
            max_pixels: limits.upload_limit(),
        })
    } else {
        &&& outcome matches ImagePreparationOutcome::Ready(upload)
        &&& upload.satisfied_request() == request
        &&& upload.original_size() == source_size
        &&& upload.upload_size() == target_size
        &&& upload.on_main_thread() == prepared_on_main_thread
        &&& upload.bytes().len() == fitted_rgba(frame, target_size).len()
        &&& upload.bytes().len() == target_size.width.0 * target_size.height.0 * 4
        &&& forall|index: int|
            0 <= index < upload.bytes().len() ==> #[trigger] upload.bytes()[index]
                == swapped_red_blue_byte(fitted_rgba(frame, target_size), index)
    }
}

/// Finishes a decoded raster at its fitted target size (see [`raster_upload_outcome`]).
pub fn finish_raster_upload(
    request: ImageRenderRequest,
    limits: &ImagePreparationLimits,
    source_size: Size<DevicePixels>,
    frame: RgbaFrame,
    target_size: Size<DevicePixels>,
    prepared_on_main_thread: bool,
) -> (outcome: ImagePreparationOutcome)
    requires
        frame_covers(frame@),
        target_size.width.0 >= 0,
        target_size.height.0 >= 0,
        pixel_count_spec(target_size) <= limits.upload_limit() ==> target_size.width.0
            * target_size.height.0 * 4 <= isize::MAX,
    ensures
        raster_upload_outcome(
            outcome,
            request,
            *limits,
            source_size,
            frame@,
            target_size,
            prepared_on_main_thread,
        ),
{
    match crate::image_prepare::upload_pixels_failure(source_size, target_size, &request, limits) {
        Some(kind) => crate::image_prepare::failed(request, kind),
        None => {
            let pixels = downsample_to_bgra(frame, target_size);
            crate::image_prepare::ready(request, source_size, target_size, pixels, prepared_on_main_thread)
        },
    }
}

/// One frame of a decoded image: its offset on the canvas, its display delay as a ratio of
/// milliseconds, and its pixels.
pub struct DecodedFrame {
    /// Horizontal offset on the canvas.
    pub left: u32,
    /// Vertical offset on the canvas.
    pub top: u32,
    /// Delay numerator, in milliseconds.
    pub delay_numerator: u32,
    /// Delay denominator.
    pub delay_denominator: u32,
    /// The frame's pixels.
    pub frame: RgbaFrame,
}

impl View for DecodedFrame {
    type V = (u32, u32, u32, u32, (u32, u32, Seq<u8>));

    open spec fn view(&self) -> (u32, u32, u32, u32, (u32, u32, Seq<u8>)) {
        (self.left, self.top, self.delay_numerator, self.delay_denominator, self.frame@)
    }
}

/// Every frame of a GIF animation (`None` when the decoder rejects the bytes or a frame).
pub uninterp spec fn gif_frames_of(bytes: Seq<u8>) -> Option<Seq<(u32, u32, u32, u32, (u32, u32, Seq<u8>))>>;

/// Every frame of an animated WebP over a transparent background (`None` when the decoder
/// rejects the bytes or a frame).
pub uninterp spec fn webp_frames_of(bytes: Seq<u8>) -> Option<Seq<(u32, u32, u32, u32, (u32, u32, Seq<u8>))>>;

/// Collects every frame of `image::AnimationDecoder::into_frames` of a
/// `image::codecs::gif::GifDecoder`, stopping at the first error, with each frame's offset,
/// delay (`image::Delay::numer_denom_ms`) and RGBA buffer.
#[verifier::external_body]
fn gif_frames(source: &RasterSource) -> (frames: Result<Vec<DecodedFrame>, image::ImageError>)
    ensures
        match frames {
            Ok(frames) => gif_frames_of(source.encoded()) == Some(frames@.map_values(|frame: DecodedFrame| frame@))
                && forall|i: int| 0 <= i < frames@.len() ==> frame_covers(#[trigger] frames@[i].frame@),
            Err(_) => gif_frames_of(source.encoded()) is None,
        },
{
    let decoder = image::codecs::gif::GifDecoder::new(Cursor::new(source.bytes))?;
    let mut frames = Vec::new();
    for frame in decoder.into_frames() {
        let frame = frame?;
        let (delay_numerator, delay_denominator) = frame.delay().numer_denom_ms();
        let (left, top, buffer) = (frame.left(), frame.top(), frame.into_buffer());
        let rgba = RgbaFrame { width: buffer.width(), height: buffer.height(), pixels: buffer.into_raw() };
        frames.push(DecodedFrame { left, top, delay_numerator, delay_denominator, frame: rgba });
    }
    Ok(frames)
}

/// Collects every frame of `image::AnimationDecoder::into_frames` of a
/// `image::codecs::webp::WebPDecoder` whose background is set transparent, stopping at the first
/// error, with each frame's offset, delay and RGBA buffer.
#[verifier::external_body]
fn webp_frames(source: &RasterSource) -> (frames: Result<Vec<DecodedFrame>, image::ImageError>)
    ensures
        match frames {
            Ok(frames) => webp_frames_of(source.encoded()) == Some(frames@.map_values(|frame: DecodedFrame| frame@))
                && forall|i: int| 0 <= i < frames@.len() ==> frame_covers(#[trigger] frames@[i].frame@),
            Err(_) => webp_frames_of(source.encoded()) is None,
        },
{
    let mut decoder = image::codecs::webp::WebPDecoder::new(Cursor::new(source.bytes))?;
    let _ = decoder.set_background_color(image::Rgba([0, 0, 0, 0]));
    let mut frames = Vec::new();
    for frame in decoder.into_frames() {
        let frame = frame?;
        let (delay_numerator, delay_denominator) = frame.delay().numer_denom_ms();
        let (left, top, buffer) = (frame.left(), frame.top(), frame.into_buffer());
        let rgba = RgbaFrame { width: buffer.width(), height: buffer.height(), pixels: buffer.into_raw() };
        frames.push(DecodedFrame { left, top, delay_numerator, delay_denominator, frame: rgba });
    }
    Ok(frames)
}

/// The decoded frame holds a frame's offset, delay and size with its bytes in BGRA order.
pub open spec fn bgra_frame(decoded: DecodedFrame, frame: (u32, u32, u32, u32, (u32, u32, Seq<u8>))) -> bool {
    &&& decoded.left == frame.0
    &&& decoded.top == frame.1
    &&& decoded.delay_numerator == frame.2
    &&& decoded.delay_denominator == frame.3
    &&& decoded.frame.width == frame.4.0
    &&& decoded.frame.height == frame.4.1
    &&& decoded.frame.pixels@.len() == frame.4.2.len()
    &&& forall|index: int|
        0 <= index < frame.4.2.len() ==> #[trigger] decoded.frame.pixels@[index] == swapped_red_blue_byte(
            frame.4.2,
            index,
        )
}

/// The decoded frames hold the frames, in order, in BGRA order.
pub open spec fn bgra_frames(decoded: Seq<DecodedFrame>, frames: Seq<(u32, u32, u32, u32, (u32, u32, Seq<u8>))>) -> bool {
    &&& decoded.len() == frames.len()
    &&& forall|i: int| 0 <= i < frames.len() ==> bgra_frame(#[trigger] decoded[i], frames[i])
}

/// A still image as its sole frame: at the canvas origin, with no delay.
pub open spec fn still_frame(image: (u32, u32, Seq<u8>)) -> (u32, u32, u32, u32, (u32, u32, Seq<u8>)) {
    (0, 0, 0, 1, image)
}

/// The result of decoding every frame of encoded image bytes.
pub enum ImageDecoding {
    /// The bytes carry no raster signature.
    NotRaster,
    /// The frames, in BGRA order.
    Decoded(Vec<DecodedFrame>),
    /// The decoder rejected the bytes.
    Failed(ImageCacheError),
}

/// The frames expected from decoding `bytes`: every frame of an animation (GIF, animated WebP),
/// else the one still image; `None` when the decoder rejects the bytes.
pub open spec fn decoded_frames_of(bytes: Seq<u8>) -> Option<Seq<(u32, u32, u32, u32, (u32, u32, Seq<u8>))>> {
    match raster_family_of(bytes) {
        RasterFamily::Gif => gif_frames_of(bytes),
        RasterFamily::WebP => match webp_animated_of(bytes) {
            None => None,
            Some(true) => webp_frames_of(bytes),
            Some(false) => match webp_still_of(bytes) {
                Some(image) => Some(seq![still_frame(image)]),
                None => None,
            },
        },
        RasterFamily::Still => match still_image_of(bytes) {
            Some(image) => Some(seq![still_frame(image)]),
            None => None,
        },
    }
}

fn to_bgra(frames: Vec<DecodedFrame>) -> (converted: Vec<DecodedFrame>)
    ensures
        bgra_frames(converted@, frames@.map_values(|frame: DecodedFrame| frame@)),
{
    let ghost views = frames@.map_values(|frame: DecodedFrame| frame@);
    let mut remaining = frames;
    let mut converted: Vec<DecodedFrame> = Vec::new();
    let mut reversed: Vec<DecodedFrame> = Vec::new();
    while remaining.len() > 0
        invariant
            reversed@.len() + remaining@.len() == views.len(),
            forall|i: int| 0 <= i < remaining@.len() ==> (#[trigger] remaining@[i])@ == views[i],
            forall|i: int|
                0 <= i < reversed@.len() ==> bgra_frame(#[trigger] reversed@[i], views[views.len() - 1 - i]),
        decreases remaining@.len(),
    {
        let mut decoded = remaining.pop().unwrap();
        swap_red_blue(&mut decoded.frame.pixels);
        reversed.push(decoded);
    }
    while reversed.len() > 0
        invariant
            converted@.len() + reversed@.len() == views.len(),
            forall|i: int|
                0 <= i < reversed@.len() ==> bgra_frame(#[trigger] reversed@[i], views[views.len() - 1 - i]),
            forall|i: int| 0 <= i < converted@.len() ==> bgra_frame(#[trigger] converted@[i], views[i]),
        decreases reversed@.len(),
    {
        let decoded = reversed.pop().unwrap();
        converted.push(decoded);
    }
    converted
}

fn still_decoding(image: RgbaFrame) -> (frames: Vec<DecodedFrame>)
    ensures
        bgra_frames(frames@, seq![still_frame(image@)]),
{
    let mut pixels = image.pixels;
    swap_red_blue(&mut pixels);
    let mut frames: Vec<DecodedFrame> = Vec::new();
    frames.push(
        DecodedFrame {
            left: 0,
            top: 0,
            delay_numerator: 0,
            delay_denominator: 1,
            frame: RgbaFrame { width: image.width, height: image.height, pixels },
        },
    );
    frames
}

fn decoding_failure(error: image::ImageError) -> (decoding: ImageDecoding)
    ensures
        decoding is Failed,
{
    match classify(error) {
        RasterError::Unsupported(error) => ImageDecoding::Failed(error),
        RasterError::Decode(error) => ImageDecoding::Failed(error),
    }
}

/// Decodes every frame of encoded image bytes to BGRA: all frames of a GIF or animated WebP, or
/// the one still image of any other raster; bytes without a raster signature are left to the
/// vector path.
pub fn decode_image_bytes(bytes: &[u8]) -> (decoding: ImageDecoding)
    ensures
        !raster_recognized(bytes@) ==> decoding is NotRaster,
        raster_recognized(bytes@) ==> match decoded_frames_of(bytes@) {
            None => decoding is Failed,
            Some(frames) => decoding matches ImageDecoding::Decoded(decoded) && bgra_frames(decoded@, frames),
        },
{
    let source = match probe(bytes) {
        Some(source) => source,
        None => {
            return ImageDecoding::NotRaster;
        },
    };
    match family(&source) {
        RasterFamily::Gif => match gif_frames(&source) {
            Ok(frames) => ImageDecoding::Decoded(to_bgra(frames)),
            Err(error) => decoding_failure(error),
        },
        RasterFamily::WebP => match webp_animated(&source) {
            Err(error) => decoding_failure(error),
            Ok(true) => match webp_frames(&source) {
                Ok(frames) => ImageDecoding::Decoded(to_bgra(frames)),
                Err(error) => decoding_failure(error),
            },
            Ok(false) => match webp_still(&source) {
                Ok(image) => ImageDecoding::Decoded(still_decoding(image)),
                Err(error) => decoding_failure(error),
            },
        },
        RasterFamily::Still => match still_image(&source) {
            Ok(image) => ImageDecoding::Decoded(still_decoding(image)),
            Err(error) => decoding_failure(error),
        },
    }
}

/// A request decodes the frame it names: for GIF bytes that is the animation's frame at the
/// requested index (`Some(None)` past the last frame), likewise for an animated WebP; a still
/// image, or a still WebP, has no frame after the first.
pub proof fn lemma_requests_decode_the_requested_frame(bytes: Seq<u8>, index: usize)
    ensures
        raster_family_of(bytes) == RasterFamily::Gif ==> frame_decode_spec(bytes, index) == gif_frame_of(
            bytes,
            index,
        ),
        raster_family_of(bytes) == RasterFamily::WebP && webp_animated_of(bytes) == Some(true)
            ==> frame_decode_spec(bytes, index) == webp_frame_of(bytes, index),
        (raster_family_of(bytes) == RasterFamily::Still || (raster_family_of(bytes) == RasterFamily::WebP
            && webp_animated_of(bytes) == Some(false))) && index != 0 ==> frame_decode_spec(bytes, index)
            == Some(None::<(u32, u32, Seq<u8>)>),
{
}

/// Preparing a recognized GIF within the source limit yields exactly the animation's frame at
/// the requested index, or reports that frame unavailable when the animation has no such frame.
pub proof fn lemma_gif_preparation_uses_the_requested_frame(
    preparation: RasterPreparation,
    bytes: Seq<u8>,
    request: ImageRenderRequest,
    limits: ImagePreparationLimits,
)
    requires
        raster_preparation(preparation, bytes, request, limits),
        raster_family_of(bytes) == RasterFamily::Gif,
        raster_dimensions_of(bytes) is Some,
        pixel_count_spec(source_size_of(raster_dimensions_of(bytes)->Some_0)) <= limits.source_limit(),
    ensures
        gif_frame_of(bytes, request.frame()) matches Some(Some(decoded)) ==> preparation matches RasterPreparation::Decoded {
            frame,
            ..
        } && frame@ == decoded,
        gif_frame_of(bytes, request.frame()) == Some(None::<(u32, u32, Seq<u8>)>) ==> preparation
            == RasterPreparation::Failed(
            ImagePreparationFailureKind::FrameUnavailable { frame_index: request.frame() },
        ),
{
    assert(raster_recognized(bytes));
}

} // verus!
