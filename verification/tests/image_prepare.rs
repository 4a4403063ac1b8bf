use gpui_bounded::geometry::{size, DevicePixels};
use gpui_bounded::image_prepare::{
    failed, pixel_count, ready, request_failure, source_pixels_failure, svg_request_failure,
    swap_red_blue, upload_pixels_failure, ImageCacheError, ImagePreparationFailureKind,
    ImagePreparationLimits, ImagePreparationOutcome, ImageRenderRequestSlot,
};
use gpui_bounded::image_source::{
    canonical_source_backed_request_dimension, ImageRenderRequest, ImageSourceId,
};

fn request(source: u64, width: i32, height: i32) -> ImageRenderRequest {
    ImageRenderRequest::with_scale_factor_bits(
        ImageSourceId::from_u64(source),
        0,
        2.0f32.to_bits(),
        size(DevicePixels(width), DevicePixels(height)),
    )
}

#[test]
fn image_preparation_limits_are_configurable_without_test_support() {
    let limits = ImagePreparationLimits::default()
        .with_max_source_pixels(123)
        .with_max_upload_pixels(45);

    assert_eq!(limits.max_source_pixels(), 123);
    assert_eq!(limits.max_upload_pixels(), 45);
}

#[test]
fn image_render_resources_test_binary_builds_without_test_support() {}

#[test]
fn default_limits_match_the_documented_pixel_caps() {
    let limits = ImagePreparationLimits::default();
    assert_eq!(limits.max_source_pixels(), 64 * 1024 * 1024);
    assert_eq!(limits.max_upload_pixels(), 64 * 1024 * 1024);
}

#[test]
fn pixel_count_clamps_negative_dimensions_and_saturates() {
    assert_eq!(pixel_count(size(DevicePixels(320), DevicePixels(180))), 57_600);
    assert_eq!(pixel_count(size(DevicePixels(-3), DevicePixels(180))), 0);
    assert_eq!(pixel_count(size(DevicePixels(i32::MAX), DevicePixels(i32::MAX))), 4_611_686_014_132_420_609);
}

#[test]
fn request_failures_are_classified_in_order() {
    let good = request(9, 64, 64);
    assert!(request_failure(ImageSourceId::from_u64(9), &good).is_none());
    assert!(matches!(
        request_failure(ImageSourceId::from_u64(10), &good),
        Some(ImagePreparationFailureKind::SourceMismatch)
    ));
    let empty = request(9, 0, 64);
    match request_failure(ImageSourceId::from_u64(9), &empty) {
        Some(ImagePreparationFailureKind::InvalidRequestedSize(requested)) => {
            assert_eq!(requested, size(DevicePixels(0), DevicePixels(64)));
        }
        _ => panic!("expected an invalid requested size"),
    }
}

#[test]
fn too_large_sources_and_uploads_report_their_limits() {
    let limits = ImagePreparationLimits::default().with_max_source_pixels(100).with_max_upload_pixels(50);
    let wanted = request(9, 8, 8);
    assert!(source_pixels_failure(size(DevicePixels(10), DevicePixels(10)), &wanted, &limits).is_none());
    match source_pixels_failure(size(DevicePixels(10), DevicePixels(11)), &wanted, &limits) {
        Some(ImagePreparationFailureKind::TooLarge { source_size, requested_size, max_pixels }) => {
            assert_eq!(source_size, size(DevicePixels(10), DevicePixels(11)));
            assert_eq!(requested_size, size(DevicePixels(8), DevicePixels(8)));
            assert_eq!(max_pixels, 100);
        }
        _ => panic!("expected a too-large source"),
    }
    assert!(upload_pixels_failure(
        size(DevicePixels(10), DevicePixels(10)),
        size(DevicePixels(5), DevicePixels(10)),
        &wanted,
        &limits
    )
    .is_none());
    match upload_pixels_failure(
        size(DevicePixels(10), DevicePixels(10)),
        size(DevicePixels(8), DevicePixels(8)),
        &wanted,
        &limits,
    ) {
        Some(ImagePreparationFailureKind::TooLarge { max_pixels, .. }) => assert_eq!(max_pixels, 50),
        _ => panic!("expected a too-large upload"),
    }
}

#[test]
fn svg_requests_have_one_frame_and_respect_the_upload_cap() {
    let limits = ImagePreparationLimits::default().with_max_upload_pixels(64);
    assert!(svg_request_failure(&request(1, 8, 8), &limits).is_none());
    assert!(matches!(
        svg_request_failure(&request(1, 10, 8), &limits),
        Some(ImagePreparationFailureKind::TooLarge { max_pixels: 64, .. })
    ));
    let second_frame = ImageRenderRequest::with_scale_factor_bits(
        ImageSourceId::from_u64(1),
        1,
        1.0f32.to_bits(),
        size(DevicePixels(8), DevicePixels(8)),
    );
    assert!(matches!(
        svg_request_failure(&second_frame, &limits),
        Some(ImagePreparationFailureKind::FrameUnavailable { frame_index: 1 })
    ));
}

#[test]
fn stale_preparation_results_do_not_become_live() {
    let first = request(1, 16, 16);
    let second = request(1, 32, 32);
    let mut slot = ImageRenderRequestSlot::default();
    slot.request(first);
    slot.request(second);

    let stale = ready(first, size(DevicePixels(16), DevicePixels(16)), first.requested_size(), vec![0; 1024], false);
    assert!(slot.accept_ready(stale).is_err());
    assert_eq!(slot.live_request(), None);

    let current = ready(second, size(DevicePixels(32), DevicePixels(32)), second.requested_size(), vec![0; 4096], false);
    let upload = slot.accept_ready(current).ok().unwrap();
    assert_eq!(upload.request(), second);
    assert_eq!(upload.pixels().len(), 4096);
    assert_eq!(slot.live_request(), Some(second.id()));

    slot.release();
    assert_eq!(slot.live_request(), None);
    let after_release = ready(second, size(DevicePixels(32), DevicePixels(32)), second.requested_size(), vec![], false);
    assert!(slot.accept_ready(after_release).is_err());
}

#[test]
fn failed_outcomes_are_never_accepted_as_live() {
    let wanted = request(1, 16, 16);
    let mut slot = ImageRenderRequestSlot::default();
    slot.request(wanted);
    let outcome = failed(
        wanted,
        ImagePreparationFailureKind::DecodeFailed(ImageCacheError::new("corrupt".to_string())),
    );
    assert_eq!(outcome.request_id(), wanted.id());
    match outcome.failure_kind() {
        Some(ImagePreparationFailureKind::DecodeFailed(error)) => assert_eq!(error.description(), "corrupt"),
        _ => panic!("expected a decode failure"),
    }
    match slot.accept_ready(outcome) {
        Err(ImagePreparationOutcome::Failed(failure)) => assert_eq!(failure.request(), wanted),
        _ => panic!("failed outcomes are returned"),
    }
    assert_eq!(slot.live_request(), None);
}

#[test]
fn prepared_upload_getters_return_what_was_prepared() {
    let wanted = request(3, 4, 2);
    let outcome = ready(wanted, size(DevicePixels(40), DevicePixels(20)), size(DevicePixels(4), DevicePixels(2)), vec![7; 32], true);
    assert_eq!(outcome.request(), wanted);
    assert!(outcome.failure_kind().is_none());
    match outcome {
        ImagePreparationOutcome::Ready(upload) => {
            assert_eq!(upload.source_size(), size(DevicePixels(40), DevicePixels(20)));
            assert_eq!(upload.size(), size(DevicePixels(4), DevicePixels(2)));
            assert!(upload.prepared_on_main_thread_for_test());
            assert_eq!(upload.into_pixels(), vec![7; 32]);
        }
        ImagePreparationOutcome::Failed(_) => panic!("expected a ready outcome"),
    }
}

#[test]
fn red_and_blue_channels_swap_in_complete_pixels_only() {
    let mut pixels = vec![1, 2, 3, 4, 5, 6, 7, 8, 9, 10];
    swap_red_blue(&mut pixels);
    assert_eq!(pixels, vec![3, 2, 1, 4, 7, 6, 5, 8, 9, 10]);
}

#[test]
fn render_request_identity_includes_frame_scale_and_size() {
    let source = ImageSourceId::from_u64(42);
    let requested_size = size(DevicePixels(320), DevicePixels(180));
    let make = |frame: usize, scale: f32, requested| {
        ImageRenderRequest::with_scale_factor_bits(source, frame, scale.to_bits(), requested)
    };
    let request = make(0, 2.0, requested_size);
    let same_request = make(0, 2.0, requested_size);
    let other_frame = make(1, 2.0, requested_size);
    let other_scale = make(0, 1.0, requested_size);
    let other_size = make(0, 2.0, size(DevicePixels(640), DevicePixels(360)));

    assert_eq!(request.id(), same_request.id());
    assert_ne!(request.id(), other_frame.id());
    assert_ne!(request.id(), other_scale.id());
    assert_ne!(request.id(), other_size.id());
    assert_eq!(request.source_id(), source);
    assert_eq!(request.frame_index(), 0);
    assert_eq!(f32::from_bits(request.scale_factor_bits()), 2.0);
    assert_eq!(request.requested_size(), requested_size);
    assert_eq!(source.as_u64(), 42);
    assert_ne!(request.id().as_u64(), other_frame.id().as_u64());
}

#[test]
fn render_request_identity_buckets_subpixel_jitter_to_even_device_pixels() {
    let source = ImageSourceId::from_u64(42);
    let make = |width: i32| {
        ImageRenderRequest::with_scale_factor_bits(
            source,
            0,
            1.5f32.to_bits(),
            size(DevicePixels(width), DevicePixels(416)),
        )
    };
    let odd_request = make(625);
    let even_request = make(626);
    let larger_request = make(628);

    assert_eq!(odd_request.id(), even_request.id());
    assert_eq!(odd_request.requested_size(), size(DevicePixels(626), DevicePixels(416)));
    assert_ne!(odd_request.id(), larger_request.id());
}

#[test]
fn canonical_dimensions_keep_even_and_nonpositive_values() {
    assert_eq!(canonical_source_backed_request_dimension(DevicePixels(7)), DevicePixels(8));
    assert_eq!(canonical_source_backed_request_dimension(DevicePixels(8)), DevicePixels(8));
    assert_eq!(canonical_source_backed_request_dimension(DevicePixels(-3)), DevicePixels(-3));
    assert_eq!(canonical_source_backed_request_dimension(DevicePixels(0)), DevicePixels(0));
    assert_eq!(canonical_source_backed_request_dimension(DevicePixels(i32::MAX)), DevicePixels(i32::MAX));
}
