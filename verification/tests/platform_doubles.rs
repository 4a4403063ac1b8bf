use gpui_bounded::atlas::{AtlasTextureId, AtlasTextureKind, AtlasTile};
use gpui_bounded::atlas_diagnostics::{AtlasImageTileDiagnostic, AtlasKindDiagnostic};
use gpui_bounded::atlas_state::{test_atlas_kind_diagnostic, AtlasKey, TestAtlas};
use gpui_bounded::geometry::{Bounds, DevicePixels, Point, Size};
use gpui_bounded::image_prepare::{ready, ImagePreparationOutcome, PreparedImageUpload};
use gpui_bounded::image_source::{ImageRenderRequest, ImageSourceId};
use gpui_bounded::resources::{
    DirectXImageResourcesState, ImageResourceDiagnostic, ImageResourceError, ImageResourceId,
    PlatformImageResources, TestImageResources,
};

fn px_size(width: i32, height: i32) -> Size<DevicePixels> {
    Size { width: DevicePixels(width), height: DevicePixels(height) }
}

fn upload(source: u64, width: i32, height: i32, byte_len: usize) -> PreparedImageUpload {
    let request = ImageRenderRequest::with_scale_factor_bits(
        ImageSourceId::from_u64(source),
        0,
        1.0f32.to_bits(),
        px_size(width, height),
    );
    match ready(request, px_size(width, height), px_size(width, height), vec![0; byte_len], false) {
        ImagePreparationOutcome::Ready(upload) => upload,
        _ => unreachable!(),
    }
}

#[test]
fn test_atlas_hands_out_fresh_texture_and_tile_identities() {
    let mut atlas = TestAtlas::new();
    let key = AtlasKey::Image { image_id: 3, frame_index: 1 };
    assert_eq!(atlas.tile(&key), None);
    let tile = atlas.insert(key, px_size(6, 4));
    assert_eq!(
        tile,
        AtlasTile {
            texture_id: AtlasTextureId { index: 1, kind: AtlasTextureKind::Polychrome },
            tile_id: 2,
            padding: 0,
            bounds: Bounds { origin: Point { x: DevicePixels(0), y: DevicePixels(0) }, size: px_size(6, 4) },
        }
    );
    assert_eq!(atlas.tile(&key), Some(tile));
    let glyph = atlas.insert(AtlasKey::Glyph { glyph_id: 1, is_emoji: false }, px_size(2, 2));
    assert_eq!(glyph.texture_id, AtlasTextureId { index: 3, kind: AtlasTextureKind::Monochrome });
    assert_eq!(glyph.tile_id, 4);
    atlas.remove(&key);
    assert_eq!(atlas.tile(&key), None);
}

#[test]
fn test_atlas_snapshot_lists_every_image_tile_and_one_texture_per_key() {
    let mut atlas = TestAtlas::new();
    atlas.insert(AtlasKey::Image { image_id: 9, frame_index: 0 }, px_size(10, 2));
    atlas.insert(AtlasKey::Svg { svg_id: 1 }, px_size(3, 3));
    atlas.insert(AtlasKey::Glyph { glyph_id: 2, is_emoji: true }, px_size(3, 3));
    let snapshot = atlas.diagnostic_snapshot();
    assert_eq!(snapshot.tile_count, 3);
    assert_eq!((snapshot.glyph_tiles, snapshot.svg_tiles, snapshot.image_tiles), (1, 1, 1));
    assert_eq!(snapshot.image_tile_bytes_estimate, 80);
    assert_eq!(
        snapshot.image_tile_items,
        vec![AtlasImageTileDiagnostic { render_image_id: 9, frame_index: 0, width: 10, height: 2, tile_bytes_estimate: 80 }]
    );
    assert!(!snapshot.image_tile_items_truncated);
    assert_eq!(snapshot.kinds, vec![
        test_atlas_kind_diagnostic(AtlasTextureKind::Monochrome, 1),
        test_atlas_kind_diagnostic(AtlasTextureKind::Polychrome, 2),
    ]);
    assert_eq!(
        test_atlas_kind_diagnostic(AtlasTextureKind::Polychrome, 2),
        AtlasKindDiagnostic {
            kind: AtlasTextureKind::Polychrome,
            texture_count: 2,
            free_texture_slots: 0,
            live_key_count: 2,
            gpu_texture_bytes_estimate: 0,
            cpu_mirror_bytes: 0,
            dirty_texture_count: 0,
            dirty_bytes_estimate: 0,
            upload_calls: 0,
            upload_bytes: 0,
            flush_calls: 0,
            flush_bytes: 0,
        }
    );
}

#[test]
fn test_resources_snapshot_counts_uploads_and_lists_every_resource() {
    let mut resources = TestImageResources::new();
    let first = resources.upsert(upload(1, 2, 2, 16)).unwrap();
    let second = resources.upsert(upload(2, 3, 1, 12)).unwrap();
    assert_eq!(resources.upsert(upload(3, 3, 1, 11)), Err(ImageResourceError::ByteLengthMismatch));
    let snapshot = resources.diagnostic_snapshot();
    assert_eq!(snapshot.resource_count, 2);
    assert_eq!(snapshot.upload_count, 2);
    assert_eq!(snapshot.upload_bytes, 28);
    assert_eq!(snapshot.gpu_bytes_estimate, 28);
    assert!(!snapshot.truncated);
    let mut items = snapshot.items.clone();
    items.sort_by_key(|item| item.source_id);
    assert_eq!(
        items,
        vec![
            ImageResourceDiagnostic { resource_id: first.id.0, source_id: 1, width: 2, height: 2, gpu_bytes_estimate: 16 },
            ImageResourceDiagnostic { resource_id: second.id.0, source_id: 2, width: 3, height: 1, gpu_bytes_estimate: 12 },
        ]
    );
    resources.clear();
    let snapshot = resources.diagnostic_snapshot();
    assert_eq!(snapshot.resource_count, 0);
    assert_eq!(snapshot.upload_count, 2);
}

#[test]
fn directx_resource_bookkeeping_checks_lengths_and_caps_items() {
    let mut state = DirectXImageResourcesState::new();
    assert_eq!(state.check_upload(&upload(1, 2, 2, 15)), Err(ImageResourceError::ByteLengthMismatch));
    for source in 0..40u64 {
        let prepared = upload(source, 1, 1, 4);
        let resource = state.check_upload(&prepared).unwrap();
        assert_eq!(resource.source_id, ImageSourceId::from_u64(source));
        state.record_upload(resource, prepared.pixels().len());
    }
    let snapshot = state.diagnostic_snapshot();
    assert_eq!(snapshot.resource_count, 40);
    assert_eq!(snapshot.upload_count, 40);
    assert_eq!(snapshot.upload_bytes, 160);
    assert_eq!(snapshot.gpu_bytes_estimate, 160);
    assert_eq!(snapshot.items.len(), 32);
    assert!(snapshot.truncated);

    let resource = state.check_upload(&upload(0, 1, 1, 4)).unwrap();
    assert!(state.contains(resource.id));
    state.remove(resource.id);
    assert!(!state.contains(resource.id));
    assert!(!state.contains(ImageResourceId(0)));
    state.clear();
    assert_eq!(state.diagnostic_snapshot().resource_count, 0);
}
