use std::io::Cursor;

use gpui_bounded::geometry::{size, DevicePixels, Size};
use gpui_bounded::image_prepare::{
    ImagePreparationFailureKind, ImagePreparationLimits, ImagePreparationOutcome,
};
use gpui_bounded::image_source::{ImageRenderRequest, ImageSourceId};
use gpui_bounded::raster::{finish_raster_upload, prepare_raster, RasterPreparation};

fn px_size(width: i32, height: i32) -> Size<DevicePixels> {
    size(DevicePixels(width), DevicePixels(height))
}

fn request(frame: usize, width: i32, height: i32) -> ImageRenderRequest {
    ImageRenderRequest::with_scale_factor_bits(
        ImageSourceId::from_u64(1),
        frame,
        1.0f32.to_bits(),
        px_size(width, height),
    )
}

fn png_bytes(width: u32, height: u32) -> Vec<u8> {
    let mut image = image::RgbaImage::new(width, height);
    for (x, y, pixel) in image.enumerate_pixels_mut() {
        *pixel = image::Rgba([x as u8, y as u8, 128, 255]);
    }
    let mut cursor = Cursor::new(Vec::new());
    image::DynamicImage::ImageRgba8(image).write_to(&mut cursor, image::ImageFormat::Png).unwrap();
    cursor.into_inner()
}

#[test]
fn non_raster_bytes_are_left_to_the_vector_path() {
    let bytes = b"<svg xmlns=\"http://www.w3.org/2000/svg\"/>";
    assert!(matches!(
        prepare_raster(bytes, &request(0, 8, 8), &ImagePreparationLimits::default()),
        RasterPreparation::NotRaster
    ));
}

#[test]
fn png_frames_decode_and_convert_to_bgra() {
    let bytes = png_bytes(4, 2);
    let wanted = request(0, 4, 2);
    let limits = ImagePreparationLimits::default();
    match prepare_raster(&bytes, &wanted, &limits) {
        RasterPreparation::Decoded { source_size, frame } => {
            assert_eq!(source_size, px_size(4, 2));
            assert_eq!((frame.width, frame.height), (4, 2));
            assert_eq!(&frame.pixels[4..8], &[1, 0, 128, 255]);
            match finish_raster_upload(wanted, &limits, source_size, frame, px_size(4, 2), false) {
                ImagePreparationOutcome::Ready(upload) => {
                    assert_eq!(upload.size(), px_size(4, 2));
                    assert_eq!(upload.pixels().len(), 32);
                    assert_eq!(&upload.pixels()[4..8], &[128, 0, 1, 255]);
                }
                ImagePreparationOutcome::Failed(_) => panic!("expected a ready upload"),
            }
        }
        _ => panic!("expected a decoded frame"),
    }
}

#[test]
fn fitted_frames_are_resized_to_the_target() {
    let bytes = png_bytes(8, 8);
    let wanted = request(0, 4, 4);
    let limits = ImagePreparationLimits::default();
    match prepare_raster(&bytes, &wanted, &limits) {
        RasterPreparation::Decoded { source_size, frame } => {
            match finish_raster_upload(wanted, &limits, source_size, frame, px_size(4, 4), false) {
                ImagePreparationOutcome::Ready(upload) => {
                    assert_eq!(upload.source_size(), px_size(8, 8));
                    assert_eq!(upload.size(), px_size(4, 4));
                    assert_eq!(upload.pixels().len(), 64);
                }
                ImagePreparationOutcome::Failed(_) => panic!("expected a ready upload"),
            }
        }
        _ => panic!("expected a decoded frame"),
    }
}

#[test]
fn too_large_sources_are_rejected_before_decode() {
    let bytes = png_bytes(10, 10);
    let wanted = request(0, 10, 10);
    let limits = ImagePreparationLimits::default().with_max_source_pixels(99);
    match prepare_raster(&bytes, &wanted, &limits) {
        RasterPreparation::Failed(ImagePreparationFailureKind::TooLarge { source_size, max_pixels, .. }) => {
            assert_eq!(source_size, px_size(10, 10));
            assert_eq!(max_pixels, 99);
        }
        _ => panic!("expected a too-large source"),
    }
}

#[test]
fn uploads_over_the_upload_limit_fail() {
    let bytes = png_bytes(10, 10);
    let wanted = request(0, 10, 10);
    let limits = ImagePreparationLimits::default().with_max_upload_pixels(99);
    match prepare_raster(&bytes, &wanted, &limits) {
        RasterPreparation::Decoded { source_size, frame } => {
            match finish_raster_upload(wanted, &limits, source_size, frame, px_size(10, 10), false) {
                ImagePreparationOutcome::Failed(failure) => {
                    assert!(matches!(
                        failure.kind(),
                        ImagePreparationFailureKind::TooLarge { max_pixels: 99, .. }
                    ));
                }
                ImagePreparationOutcome::Ready(_) => panic!("expected a too-large upload"),
            }
        }
        _ => panic!("expected a decoded frame"),
    }
}

#[test]
fn still_images_have_only_frame_zero() {
    let bytes = png_bytes(2, 2);
    assert!(matches!(
        prepare_raster(&bytes, &request(1, 2, 2), &ImagePreparationLimits::default()),
        RasterPreparation::Failed(ImagePreparationFailureKind::FrameUnavailable { frame_index: 1 })
    ));
}

#[test]
fn truncated_rasters_are_decode_failures() {
    let mut bytes = png_bytes(4, 4);
    bytes.truncate(40);
    match prepare_raster(&bytes, &request(0, 4, 4), &ImagePreparationLimits::default()) {
        RasterPreparation::Failed(kind) => assert!(matches!(
            kind,
            ImagePreparationFailureKind::DecodeFailed(_) | ImagePreparationFailureKind::Unsupported(_)
        )),
        _ => panic!("expected a decoder rejection"),
    }
}

fn two_frame_gif() -> Vec<u8> {
    let mut bytes = Vec::new();
    {
        let mut encoder = image::codecs::gif::GifEncoder::new(&mut bytes);
        let first = image::Frame::from_parts(
            image::RgbaImage::from_pixel(2, 2, image::Rgba([255, 0, 0, 255])),
            0,
            0,
            image::Delay::from_numer_denom_ms(40, 1),
        );
        let second = image::Frame::from_parts(
            image::RgbaImage::from_pixel(2, 2, image::Rgba([0, 0, 255, 255])),
            0,
            0,
            image::Delay::from_numer_denom_ms(40, 1),
        );
        encoder.encode_frames(vec![first, second]).unwrap();
    }
    bytes
}

#[test]
fn still_images_decode_to_one_bgra_frame() {
    match gpui_bounded::raster::decode_image_bytes(&png_bytes(4, 2)) {
        gpui_bounded::raster::ImageDecoding::Decoded(frames) => {
            assert_eq!(frames.len(), 1);
            assert_eq!((frames[0].left, frames[0].top), (0, 0));
            assert_eq!((frames[0].delay_numerator, frames[0].delay_denominator), (0, 1));
            assert_eq!((frames[0].frame.width, frames[0].frame.height), (4, 2));
            assert_eq!(&frames[0].frame.pixels[4..8], &[128, 0, 1, 255]);
        }
        _ => panic!("expected decoded frames"),
    }
}

#[test]
fn animations_decode_every_frame_with_its_delay() {
    match gpui_bounded::raster::decode_image_bytes(&two_frame_gif()) {
        gpui_bounded::raster::ImageDecoding::Decoded(frames) => {
            assert_eq!(frames.len(), 2);
            assert_eq!(frames[1].delay_numerator as f64 / frames[1].delay_denominator as f64, 40.0);
            assert_eq!(&frames[0].frame.pixels[0..4], &[0, 0, 255, 255]);
            assert_eq!(&frames[1].frame.pixels[0..4], &[255, 0, 0, 255]);
        }
        _ => panic!("expected decoded frames"),
    }
}

#[test]
fn undecodable_and_non_raster_bytes_are_distinguished() {
    let mut truncated = png_bytes(4, 2);
    truncated.truncate(20);
    assert!(matches!(
        gpui_bounded::raster::decode_image_bytes(&truncated),
        gpui_bounded::raster::ImageDecoding::Failed(_)
    ));
    assert!(matches!(
        gpui_bounded::raster::decode_image_bytes(b"<svg/>"),
        gpui_bounded::raster::ImageDecoding::NotRaster
    ));
}
