use gpui_bounded::atlas::{AtlasFlushRegion, AtlasTextureId, AtlasTextureKind};
use gpui_bounded::atlas_diagnostics::{AtlasImageTileDiagnostic, AtlasKindDiagnostic};
use gpui_bounded::atlas_state::{AtlasKey, AtlasState};
use gpui_bounded::geometry::{DevicePixels, Size};

fn size(width: i32, height: i32) -> Size<DevicePixels> {
    Size { width: DevicePixels(width), height: DevicePixels(height) }
}

fn image(image_id: u64) -> AtlasKey {
    AtlasKey::Image { image_id, frame_index: 0 }
}

#[test]
fn key_kinds_choose_the_texture_kind() {
    assert_eq!(AtlasKey::Glyph { glyph_id: 1, is_emoji: false }.texture_kind(), AtlasTextureKind::Monochrome);
    assert_eq!(AtlasKey::Glyph { glyph_id: 1, is_emoji: true }.texture_kind(), AtlasTextureKind::Polychrome);
    assert_eq!(AtlasKey::Svg { svg_id: 1 }.texture_kind(), AtlasTextureKind::Monochrome);
    assert_eq!(image(1).texture_kind(), AtlasTextureKind::Polychrome);
}

#[test]
fn inserted_tiles_are_found_again_and_removed_tiles_are_not() {
    let mut atlas = AtlasState::new();
    let key = image(7);
    assert_eq!(atlas.tile(&key), None);
    let tile = atlas.insert(key, size(4, 4), &[9u8; 64]).unwrap();
    assert_eq!(tile.texture_id, AtlasTextureId { index: 0, kind: AtlasTextureKind::Polychrome });
    assert_eq!(tile.bounds.size, size(4, 4));
    assert_eq!(tile.padding, 0);
    assert_eq!(atlas.tile(&key), Some(tile));
    atlas.remove(&key);
    assert_eq!(atlas.tile(&key), None);
    atlas.remove(&key);
    assert_eq!(atlas.tile(&key), None);
}

#[test]
fn uploads_reach_the_flush_region_of_the_tile_texture() {
    let mut atlas = AtlasState::new();
    let tile = atlas.insert(AtlasKey::Svg { svg_id: 3 }, size(2, 3), &[1u8; 6]).unwrap();
    let region = atlas.flush_texture(tile.texture_id).unwrap();
    assert_eq!(
        region,
        AtlasFlushRegion {
            bounds: tile.bounds,
            source_offset: tile.bounds.origin.y.0 as usize * 1024 + tile.bounds.origin.x.0 as usize,
            row_pitch: 1024,
        }
    );
    assert_eq!(atlas.flush_texture(tile.texture_id), None);
}

#[test]
fn last_tile_removed_frees_the_texture_slot_for_reuse() {
    let mut atlas = AtlasState::new();
    let first = atlas.insert(image(1), size(8, 8), &[0u8; 256]).unwrap();
    let second = atlas.insert(image(2), size(8, 8), &[0u8; 256]).unwrap();
    assert_eq!(first.texture_id, second.texture_id);
    let snapshot = atlas.diagnostic_snapshot();
    assert_eq!(snapshot.kinds[1].texture_count, 1);
    assert_eq!(snapshot.kinds[1].live_key_count, 2);

    atlas.remove(&image(1));
    let snapshot = atlas.diagnostic_snapshot();
    assert_eq!(snapshot.kinds[1].texture_count, 1);
    assert_eq!(snapshot.kinds[1].live_key_count, 1);
    assert_eq!(snapshot.kinds[1].free_texture_slots, 0);

    atlas.remove(&image(2));
    let snapshot = atlas.diagnostic_snapshot();
    assert_eq!(snapshot.kinds[1].texture_count, 0);
    assert_eq!(snapshot.kinds[1].free_texture_slots, 1);
    assert_eq!(snapshot.kinds[1].cpu_mirror_bytes, 0);

    let third = atlas.insert(image(3), size(8, 8), &[0u8; 256]).unwrap();
    assert_eq!(third.texture_id, AtlasTextureId { index: 0, kind: AtlasTextureKind::Polychrome });
    let snapshot = atlas.diagnostic_snapshot();
    assert_eq!(snapshot.kinds[1].texture_count, 1);
    assert_eq!(snapshot.kinds[1].free_texture_slots, 0);
}

#[test]
fn a_tile_larger_than_the_default_texture_gets_a_texture_of_its_own() {
    let mut atlas = AtlasState::new();
    let small = atlas.insert(image(1), size(16, 16), &[0u8; 1024]).unwrap();
    let large = atlas.insert(image(2), size(2000, 10), &[]).unwrap();
    assert_eq!(small.texture_id.index, 0);
    assert_eq!(large.texture_id.index, 1);
    let snapshot = atlas.diagnostic_snapshot();
    assert_eq!(snapshot.kinds[1].texture_count, 2);
    assert_eq!(
        snapshot.kinds[1].gpu_texture_bytes_estimate,
        1024 * 1024 * 4 + 2000 * 1024 * 4
    );
}

#[test]
fn snapshot_tallies_tiles_by_key_type_and_lists_image_tiles() {
    let mut atlas = AtlasState::new();
    atlas.insert(AtlasKey::Glyph { glyph_id: 1, is_emoji: false }, size(3, 3), &[0u8; 9]).unwrap();
    atlas.insert(AtlasKey::Svg { svg_id: 2 }, size(5, 5), &[0u8; 25]).unwrap();
    atlas.insert(AtlasKey::Image { image_id: 9, frame_index: 2 }, size(4, 2), &[0u8; 32]).unwrap();
    let snapshot = atlas.diagnostic_snapshot();
    assert_eq!(snapshot.tile_count, 3);
    assert_eq!(snapshot.glyph_tiles, 1);
    assert_eq!(snapshot.svg_tiles, 1);
    assert_eq!(snapshot.image_tiles, 1);
    assert_eq!(snapshot.image_tile_bytes_estimate, 32);
    assert_eq!(
        snapshot.image_tile_items,
        vec![AtlasImageTileDiagnostic {
            render_image_id: 9,
            frame_index: 2,
            width: 4,
            height: 2,
            tile_bytes_estimate: 32,
        }]
    );
    assert!(!snapshot.image_tile_items_truncated);
    assert_eq!(
        snapshot.kinds[0],
        AtlasKindDiagnostic {
            kind: AtlasTextureKind::Monochrome,
            texture_count: 1,
            free_texture_slots: 0,
            live_key_count: 2,
            gpu_texture_bytes_estimate: 1024 * 1024,
            cpu_mirror_bytes: 1024 * 1024,
            dirty_texture_count: 1,
            dirty_bytes_estimate: snapshot.kinds[0].dirty_bytes_estimate,
            upload_calls: 2,
            upload_bytes: 9 + 25,
            flush_calls: 0,
            flush_bytes: 0,
        }
    );
    assert_eq!(snapshot.kinds[1].upload_bytes, 32);
}

#[test]
fn image_tile_items_are_capped_and_marked_truncated() {
    let mut atlas = AtlasState::new();
    for image_id in 0..65u64 {
        atlas.insert(image(image_id), size(1, 1), &[0u8; 4]).unwrap();
    }
    let snapshot = atlas.diagnostic_snapshot();
    assert_eq!(snapshot.image_tiles, 65);
    assert_eq!(snapshot.image_tile_items.len(), 64);
    assert!(snapshot.image_tile_items_truncated);
    assert_eq!(snapshot.image_tile_bytes_estimate, 65 * 4);
}

#[test]
fn short_uploads_are_not_counted() {
    let mut atlas = AtlasState::new();
    let tile = atlas.insert(image(1), size(4, 4), &[0u8; 20]).unwrap();
    let snapshot = atlas.diagnostic_snapshot();
    assert_eq!(snapshot.kinds[1].upload_calls, 0);
    assert_eq!(snapshot.kinds[1].dirty_texture_count, 0);
    assert_eq!(atlas.flush_texture(tile.texture_id), None);
}

#[test]
fn reset_forgets_every_tile_and_texture() {
    let mut atlas = AtlasState::new();
    atlas.insert(image(1), size(4, 4), &[0u8; 64]).unwrap();
    atlas.reset();
    assert_eq!(atlas.tile(&image(1)), None);
    let snapshot = atlas.diagnostic_snapshot();
    assert_eq!(snapshot.tile_count, 0);
    assert_eq!(snapshot.kinds[1].texture_count, 0);
}

#[test]
fn empty_and_oversized_tiles_are_refused_and_leave_the_key_uncached() {
    let mut atlas = AtlasState::new();
    assert_eq!(atlas.insert(image(1), size(0, 4), &[]), None);
    assert_eq!(atlas.insert(image(2), size(4, -1), &[]), None);
    assert_eq!(atlas.insert(image(3), size(16385, 4), &[]), None);
    assert_eq!(atlas.insert(image(4), size(4, 16385), &[]), None);
    assert_eq!(atlas.tile(&image(1)), None);
    assert_eq!(atlas.tile(&image(3)), None);
}

#[test]
fn a_tile_as_wide_as_the_device_maximum_is_granted() {
    let mut atlas = AtlasState::new();
    let tile = atlas.insert(AtlasKey::Svg { svg_id: 1 }, size(16384, 8), &[]).unwrap();
    assert_eq!(tile.bounds.size, size(16384, 8));
    assert_eq!(tile.bounds.origin.x.0, 0);
    assert_eq!(tile.bounds.origin.y.0, 0);
}
