use gpui_bounded::geometry::{size, DevicePixels, Size};
use gpui_bounded::image_prepare::{failed, ready, ImageCacheError, ImagePreparationFailureKind};
use gpui_bounded::image_source::{ImageRenderRequest, ImageSourceId};
use gpui_bounded::resources::{
    image_resource_bytes, ImageResource, ImageResourceError, ImageResourceId, PlatformImageResources,
    TestImageResources,
};
use gpui_bounded::source_backed::{
    source_backed_resource_matches_request, SourceBackedImageBudget, SourceBackedImageRequestState,
    SourceBackedImageRequestStatus, SourceBackedImageRetentionKind, SourceBackedImageStore,
    SourceBackedPaintCandidate,
};

fn px_size(width: i32, height: i32) -> Size<DevicePixels> {
    size(DevicePixels(width), DevicePixels(height))
}

fn request(source: u64, width: i32, height: i32) -> ImageRenderRequest {
    ImageRenderRequest::with_scale_factor_bits(
        ImageSourceId::from_u64(source),
        0,
        1.0f32.to_bits(),
        px_size(width, height),
    )
}

fn ready_outcome(request: ImageRenderRequest) -> gpui_bounded::image_prepare::ImagePreparationOutcome {
    let size = request.requested_size();
    let bytes = (size.width.0 * size.height.0 * 4) as usize;
    ready(request, size, size, vec![0; bytes], false)
}

/// Requests, prepares and uploads `request` for the scene; returns the live resource.
fn make_live(
    store: &mut SourceBackedImageStore,
    resources: &mut TestImageResources,
    request: ImageRenderRequest,
) -> ImageResource {
    assert!(store.request(request.source_id(), request.id(), request.requested_size(), resources));
    assert!(store.complete(ready_outcome(request)).is_empty());
    match store.candidate(request.id(), resources) {
        SourceBackedPaintCandidate::Ready { source_id, upload } => {
            let resource = resources.upsert(upload).unwrap();
            store.mark_live(request.id(), source_id, resource);
            store.mark_referenced(&resource);
            resource
        }
        _ => panic!("expected a ready candidate"),
    }
}

#[test]
fn resource_bytes_are_four_per_pixel() {
    assert_eq!(image_resource_bytes(px_size(10, 20)), 800);
    assert_eq!(image_resource_bytes(px_size(-10, 20)), 0);
}

#[test]
fn test_resources_reject_mismatched_byte_lengths() {
    let mut resources = TestImageResources::new();
    let wanted = request(1, 4, 4);
    let short = ready(wanted, px_size(4, 4), px_size(4, 4), vec![0; 10], false);
    match short {
        gpui_bounded::image_prepare::ImagePreparationOutcome::Ready(upload) => {
            assert_eq!(resources.upsert(upload), Err(ImageResourceError::ByteLengthMismatch));
        }
        _ => unreachable!(),
    }
    let exact = ready(wanted, px_size(4, 4), px_size(4, 4), vec![0; 64], false);
    match exact {
        gpui_bounded::image_prepare::ImagePreparationOutcome::Ready(upload) => {
            let resource = resources.upsert(upload).unwrap();
            assert_eq!(resource.id, ImageResourceId(wanted.id().as_u64()));
            assert_eq!(resource.source_id, ImageSourceId::from_u64(1));
            assert!(resources.contains(resource.id));
            resources.remove(resource.id);
            assert!(!resources.contains(resource.id));
        }
        _ => unreachable!(),
    }
}

#[test]
fn size_tolerance_allows_two_device_pixels() {
    assert!(source_backed_resource_matches_request(px_size(100, 100), px_size(102, 98)));
    assert!(!source_backed_resource_matches_request(px_size(100, 100), px_size(103, 100)));
    assert!(!source_backed_resource_matches_request(px_size(100, 100), px_size(100, 97)));
}

#[test]
fn requests_load_then_become_live_and_are_not_respawned() {
    let mut store = SourceBackedImageStore::new();
    let mut resources = TestImageResources::new();
    let wanted = request(1, 8, 8);
    assert_eq!(store.request_status(wanted.id(), &resources), SourceBackedImageRequestStatus::Missing);
    let resource = make_live(&mut store, &mut resources, wanted);
    assert_eq!(store.request_status(wanted.id(), &resources), SourceBackedImageRequestStatus::Live);
    assert!(!store.request(wanted.source_id(), wanted.id(), wanted.requested_size(), &resources));
    assert_eq!(store.latest_size(wanted.source_id(), &resources), Some(px_size(8, 8)));
    assert_eq!(store.latest_resource(wanted.source_id(), &resources), Some(resource));
}

#[test]
fn lost_live_resources_reload() {
    let mut store = SourceBackedImageStore::new();
    let mut resources = TestImageResources::new();
    let wanted = request(1, 8, 8);
    let resource = make_live(&mut store, &mut resources, wanted);
    resources.clear();
    assert_eq!(store.request_status(wanted.id(), &resources), SourceBackedImageRequestStatus::Loading);
    assert!(store.request(wanted.source_id(), wanted.id(), wanted.requested_size(), &resources));
    assert_eq!(store.latest_resource(wanted.source_id(), &resources), None);
    assert!(!resources.contains(resource.id));
}

#[test]
fn near_matching_requests_reuse_the_latest_live_resource() {
    let mut store = SourceBackedImageStore::new();
    let mut resources = TestImageResources::new();
    let first = request(1, 100, 100);
    let resource = make_live(&mut store, &mut resources, first);
    let near = request(1, 102, 100);
    assert!(!store.request(near.source_id(), near.id(), near.requested_size(), &resources));
    assert_eq!(store.request_status(near.id(), &resources), SourceBackedImageRequestStatus::Live);
    assert_eq!(store.request_status(first.id(), &resources), SourceBackedImageRequestStatus::Missing);
    match store.candidate(near.id(), &resources) {
        SourceBackedPaintCandidate::Live(live) => assert_eq!(live, resource),
        _ => panic!("expected the reused resource"),
    }
    let far = request(1, 200, 200);
    assert!(store.request(far.source_id(), far.id(), far.requested_size(), &resources));
}

#[test]
fn failed_sources_remain_failed_until_a_successful_outcome() {
    let mut store = SourceBackedImageStore::new();
    let resources = TestImageResources::new();
    let wanted = request(5, 8, 8);
    assert!(store.request(wanted.source_id(), wanted.id(), wanted.requested_size(), &resources));
    let failure = failed(
        wanted,
        ImagePreparationFailureKind::DecodeFailed(ImageCacheError::new("bad".to_string())),
    );
    assert!(store.complete(failure).is_empty());
    assert!(store.has_failed(wanted.source_id()));
    assert_eq!(store.request_status(wanted.id(), &resources), SourceBackedImageRequestStatus::Failed);
    assert!(!store.request(wanted.source_id(), wanted.id(), wanted.requested_size(), &resources));
    assert!(store.has_failed(wanted.source_id()));
    assert!(matches!(store.candidate(wanted.id(), &resources), SourceBackedPaintCandidate::Unavailable));
}

#[test]
fn outcomes_of_untracked_requests_are_dropped() {
    let mut store = SourceBackedImageStore::new();
    let wanted = request(1, 8, 8);
    assert!(store.complete(ready_outcome(wanted)).is_empty());
    let resources = TestImageResources::new();
    assert_eq!(store.request_status(wanted.id(), &resources), SourceBackedImageRequestStatus::Missing);
}

#[test]
fn paint_budget_counts_resources_and_bytes() {
    let mut store = SourceBackedImageStore::new();
    let resource = ImageResource { id: ImageResourceId(1), source_id: ImageSourceId::from_u64(1), size: px_size(10, 10) };
    let other = ImageResource { id: ImageResourceId(2), source_id: ImageSourceId::from_u64(2), size: px_size(10, 10) };
    let budget = SourceBackedImageBudget::new(1, 400);
    assert!(store.can_paint(&resource, budget));
    store.mark_referenced(&resource);
    assert!(store.can_paint(&resource, budget));
    assert!(!store.can_paint(&other, budget));
    assert!(!store.can_paint(&other, SourceBackedImageBudget::new(5, 799)));
    assert!(store.can_paint(&other, SourceBackedImageBudget::new(5, 800)));
    assert!(!store.can_paint(&other, SourceBackedImageBudget::new(0, 800)));
}

#[test]
fn preload_budget_defers_preloads_and_counts_deferrals() {
    let mut store = SourceBackedImageStore::new();
    let mut resources = TestImageResources::new();
    let wanted = request(3, 16, 16);
    assert!(store.preload(wanted.source_id(), wanted.id(), wanted.requested_size(), &resources));
    assert!(store.complete(ready_outcome(wanted)).is_empty());
    let removed = store.service_preloads(
        &mut resources,
        SourceBackedImageBudget::default(),
        SourceBackedImageBudget::new(1, 16),
    );
    assert!(removed.is_empty());
    assert_eq!(
        store.request_status(wanted.id(), &resources),
        SourceBackedImageRequestStatus::BudgetDeferred
    );
    let snapshot = store.diagnostic_snapshot(SourceBackedImageBudget::preload_default());
    assert_eq!(snapshot.preload_budget_deferral_count, 1);
    assert_eq!(snapshot.tally.budget_deferred_count, 1);
    assert_eq!(snapshot.tally.preload_budget_deferred_count, 1);
    assert_eq!(snapshot.preload_max_resource_count, 32);
    assert_eq!(snapshot.preload_max_gpu_bytes, 64 * 1024 * 1024);
    assert_eq!(snapshot.items.len(), 1);
    assert_eq!(snapshot.items[0].state, SourceBackedImageRequestState::BudgetDeferred);
    assert_eq!(snapshot.items[0].retention_kind, SourceBackedImageRetentionKind::Preload);
    assert!(store.preload(wanted.source_id(), wanted.id(), wanted.requested_size(), &resources));
}

#[test]
fn preloads_upload_within_budget_and_survive_the_frame() {
    let mut store = SourceBackedImageStore::new();
    let mut resources = TestImageResources::new();
    let wanted = request(3, 16, 16);
    assert!(store.preload(wanted.source_id(), wanted.id(), wanted.requested_size(), &resources));
    assert!(store.complete(ready_outcome(wanted)).is_empty());
    let removed = store.service_preloads(
        &mut resources,
        SourceBackedImageBudget::default(),
        SourceBackedImageBudget::preload_default(),
    );
    assert!(removed.is_empty());
    assert_eq!(store.request_status(wanted.id(), &resources), SourceBackedImageRequestStatus::Live);
    let snapshot = store.diagnostic_snapshot(SourceBackedImageBudget::preload_default());
    assert_eq!(snapshot.preload_live_count, 1);
    assert_eq!(snapshot.preload_gpu_bytes_estimate, 16 * 16 * 4);
    assert_eq!(snapshot.items[0].retention_kind, SourceBackedImageRetentionKind::Preload);
    store.finish_frame(Vec::new());
    assert_eq!(store.request_status(wanted.id(), &resources), SourceBackedImageRequestStatus::Live);
    assert!(store.drain_pending_removals().is_empty());

    store.begin_frame();
    store.finish_frame(Vec::new());
    assert_eq!(store.request_status(wanted.id(), &resources), SourceBackedImageRequestStatus::Missing);
    let drained = store.drain_pending_removals();
    assert_eq!(drained, vec![ImageResourceId(wanted.id().as_u64())]);
    let snapshot = store.diagnostic_snapshot(SourceBackedImageBudget::preload_default());
    assert_eq!(snapshot.evicted_resource_count, 1);
    assert_eq!(snapshot.preload_evicted_resource_count, 1);
}

#[test]
fn unreferenced_live_resources_are_evicted_at_frame_end() {
    let mut store = SourceBackedImageStore::new();
    let mut resources = TestImageResources::new();
    let wanted = request(1, 8, 8);
    let resource = make_live(&mut store, &mut resources, wanted);
    store.finish_frame(vec![resource.id]);
    assert_eq!(store.request_status(wanted.id(), &resources), SourceBackedImageRequestStatus::Live);
    let snapshot = store.diagnostic_snapshot(SourceBackedImageBudget::preload_default());
    assert_eq!(snapshot.final_scene_resource_count, 1);
    assert_eq!(snapshot.items[0].retention_kind, SourceBackedImageRetentionKind::FinalScene);
    assert_eq!(snapshot.tally.live_count, 1);
    assert_eq!(snapshot.tally.live_gpu_bytes_estimate, 256);
    assert!(store.drain_pending_removals().is_empty());

    store.begin_frame();
    store.finish_frame(Vec::new());
    assert_eq!(store.drain_pending_removals(), vec![resource.id]);
    assert_eq!(store.latest_size(wanted.source_id(), &resources), None);
    assert_eq!(store.diagnostic_snapshot(SourceBackedImageBudget::preload_default()).request_count, 0);
}

#[test]
fn pending_decode_is_dropped_unless_requested_again() {
    let mut store = SourceBackedImageStore::new();
    let resources = TestImageResources::new();
    let wanted = request(1, 8, 8);
    assert!(store.request(wanted.source_id(), wanted.id(), wanted.requested_size(), &resources));
    let snapshot = store.diagnostic_snapshot(SourceBackedImageBudget::preload_default());
    assert_eq!(snapshot.tally.pending_decode_count, 1);
    assert_eq!(snapshot.items[0].state, SourceBackedImageRequestState::Loading);
    assert_eq!(snapshot.items[0].requested_width, 8);
    store.finish_frame(Vec::new());
    assert_eq!(store.request_status(wanted.id(), &resources), SourceBackedImageRequestStatus::Loading);
    store.begin_frame();
    store.finish_frame(Vec::new());
    assert_eq!(store.request_status(wanted.id(), &resources), SourceBackedImageRequestStatus::Missing);
}

#[test]
fn budget_deferral_releases_the_live_resource() {
    let mut store = SourceBackedImageStore::new();
    let mut resources = TestImageResources::new();
    let wanted = request(1, 8, 8);
    let resource = make_live(&mut store, &mut resources, wanted);
    let removed = store.mark_budget_deferred(wanted.id(), wanted.source_id(), false);
    assert_eq!(removed, vec![resource.id]);
    assert_eq!(store.latest_resource(wanted.source_id(), &resources), None);
    assert_eq!(
        store.request_status(wanted.id(), &resources),
        SourceBackedImageRequestStatus::BudgetDeferred
    );
}

#[test]
fn failures_release_live_resources_once() {
    let mut store = SourceBackedImageStore::new();
    let mut resources = TestImageResources::new();
    let wanted = request(1, 8, 8);
    let resource = make_live(&mut store, &mut resources, wanted);
    assert_eq!(store.mark_failed(wanted.id(), wanted.source_id()), vec![resource.id]);
    assert!(store.has_failed(wanted.source_id()));
}

#[test]
fn queued_removals_are_counted_once() {
    let mut store = SourceBackedImageStore::new();
    store.queue_removals(vec![ImageResourceId(4), ImageResourceId(4), ImageResourceId(9)]);
    store.queue_removals(vec![ImageResourceId(9)]);
    let snapshot = store.diagnostic_snapshot(SourceBackedImageBudget::preload_default());
    assert_eq!(snapshot.pending_resource_removal_count, 2);
    assert_eq!(snapshot.evicted_resource_count, 2);
    let mut drained = store.drain_pending_removals();
    drained.sort_by_key(|id| id.0);
    assert_eq!(drained, vec![ImageResourceId(4), ImageResourceId(9)]);
    assert!(store.drain_pending_removals().is_empty());
}

#[test]
fn diagnostics_truncate_after_sixty_four_requests() {
    let mut store = SourceBackedImageStore::new();
    let resources = TestImageResources::new();
    for source in 0..70u64 {
        let wanted = request(source, 8, 8);
        assert!(store.request(wanted.source_id(), wanted.id(), wanted.requested_size(), &resources));
    }
    let snapshot = store.diagnostic_snapshot(SourceBackedImageBudget::preload_default());
    assert_eq!(snapshot.request_count, 70);
    assert_eq!(snapshot.requested_this_frame_count, 70);
    assert_eq!(snapshot.items.len(), 64);
    assert!(snapshot.truncated);
    assert_eq!(snapshot.tally.pending_decode_count, 70);
}

#[test]
fn scene_references_charge_each_known_resource_once_to_the_paint_budget() {
    let mut store = SourceBackedImageStore::new();
    let mut resources = TestImageResources::new();
    let first = make_live(&mut store, &mut resources, request(1, 10, 10));
    let second = make_live(&mut store, &mut resources, request(2, 4, 6));
    let probe = ImageResource { id: ImageResourceId(999), source_id: ImageSourceId::from_u64(9), size: px_size(1, 1) };
    store.begin_frame();
    store.mark_referenced_resource_ids(vec![first.id, first.id, ImageResourceId(12345)]);
    // 400 bytes referenced: a 4-byte probe fits 404 bytes and not 403.
    assert!(store.can_paint(&probe, SourceBackedImageBudget::new(5, 404)));
    assert!(!store.can_paint(&probe, SourceBackedImageBudget::new(5, 403)));
    store.mark_referenced_resource_ids(vec![second.id]);
    assert!(store.can_paint(&probe, SourceBackedImageBudget::new(5, 500)));
    assert!(!store.can_paint(&probe, SourceBackedImageBudget::new(5, 499)));
    store.finish_frame(vec![second.id]);
    store.begin_frame();
    store.mark_referenced_resource_ids(vec![second.id]);
    assert!(store.can_paint(&probe, SourceBackedImageBudget::new(5, 100)));
    assert!(!store.can_paint(&probe, SourceBackedImageBudget::new(5, 99)));
}
