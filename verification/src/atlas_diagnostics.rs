use vstd::prelude::*;
use crate::atlas::{bounds_bytes_spec, AtlasTextureKind, AtlasTile, DirectXAtlasTexture};
use crate::atlas_state::AtlasKey;
use crate::geometry::{Bounds, DevicePixels, Point};
use crate::resources::sat_add;

verus! {

/// Most image tiles listed one by one in a snapshot.
pub const MAX_IMAGE_TILE_DIAGNOSTIC_ITEMS: usize = 64;

/// Totals over the textures of one kind.
#[derive(Clone, Copy, Debug, PartialEq, Eq, Structural)]
pub struct AtlasKindDiagnostic {
    /// Texture kind.
    pub kind: AtlasTextureKind,
    /// Textures held.
    pub texture_count: usize,
    /// Slots free for reuse.
    pub free_texture_slots: usize,
    /// Live atlas keys over the textures (saturating).
    pub live_key_count: u64,
    /// Bytes of the textures (saturating).
    pub gpu_texture_bytes_estimate: u64,
    /// Bytes of the CPU mirrors (saturating).
    pub cpu_mirror_bytes: u64,
    /// Textures with a region not yet flushed.
    pub dirty_texture_count: usize,
    /// Bytes of the regions not yet flushed (saturating).
    pub dirty_bytes_estimate: u64,
    /// Upload calls (saturating).
    pub upload_calls: u64,
    /// Uploaded bytes (saturating).
    pub upload_bytes: u64,
    /// Flush calls (saturating).
    pub flush_calls: u64,
    /// Flushed bytes (saturating).
    pub flush_bytes: u64,
}

/// One cached image tile.
#[derive(Clone, Copy, Debug, PartialEq, Eq, Structural)]
pub struct AtlasImageTileDiagnostic {
    /// Image identity.
    pub render_image_id: u64,
    /// Frame index.
    pub frame_index: usize,
    /// Tile width (zero when negative).
    pub width: u32,
    /// Tile height (zero when negative).
    pub height: u32,
    /// Four bytes per texel of the tile.
    pub tile_bytes_estimate: u64,
}

/// Tiles and textures of an atlas.
#[derive(Clone, Debug)]
pub struct AtlasDiagnosticSnapshot {
    /// Cached tiles.
    pub tile_count: usize,
    /// Cached glyph tiles.
    pub glyph_tiles: usize,
    /// Cached vector-image tiles.
    pub svg_tiles: usize,
    /// Cached raster-image tiles.
    pub image_tiles: usize,
    /// Bytes of the image tiles (saturating).
    pub image_tile_bytes_estimate: u64,
    /// The first image tiles, one by one.
    pub image_tile_items: Vec<AtlasImageTileDiagnostic>,
    /// Whether image tiles were left out of the list.
    pub image_tile_items_truncated: bool,
    /// Monochrome, then polychrome texture totals.
    pub kinds: Vec<AtlasKindDiagnostic>,
}

/// A non-negative extent as `u32`; negative extents count as zero.
pub open spec fn extent_u32(value: i32) -> u32 {
    if value < 0 { 0 } else { value as u32 }
}

/// Diagnostic totals with nothing counted yet.
pub open spec fn empty_kind_diagnostic(kind: AtlasTextureKind, free: usize) -> AtlasKindDiagnostic {
    AtlasKindDiagnostic {
        kind,
        texture_count: 0,
        free_texture_slots: free,
        live_key_count: 0,
        gpu_texture_bytes_estimate: 0,
        cpu_mirror_bytes: 0,
        dirty_texture_count: 0,
        dirty_bytes_estimate: 0,
        upload_calls: 0,
        upload_bytes: 0,
        flush_calls: 0,
        flush_bytes: 0,
    }
}

/// Totals after counting one more texture.
pub open spec fn kind_step(totals: AtlasKindDiagnostic, texture: DirectXAtlasTexture) -> AtlasKindDiagnostic {
    AtlasKindDiagnostic {
        kind: totals.kind,
        texture_count: (totals.texture_count + 1) as usize,
        free_texture_slots: totals.free_texture_slots,
        live_key_count: sat_add(totals.live_key_count, texture.live_keys() as u64),
        gpu_texture_bytes_estimate: sat_add(
            totals.gpu_texture_bytes_estimate,
            bounds_bytes_spec(
                Bounds {
                    origin: Point { x: DevicePixels(0), y: DevicePixels(0) },
                    size: texture.texture_size(),
                },
                texture.texel_bytes(),
            ),
        ),
        cpu_mirror_bytes: sat_add(totals.cpu_mirror_bytes, texture.mirror().len() as u64),
        dirty_texture_count: match texture.dirty() {
            Some(_) => (totals.dirty_texture_count + 1) as usize,
            None => totals.dirty_texture_count,
        },
        dirty_bytes_estimate: match texture.dirty() {
            Some(dirty) => sat_add(
                totals.dirty_bytes_estimate,
                bounds_bytes_spec(dirty, texture.texel_bytes()),
            ),
            None => totals.dirty_bytes_estimate,
        },
        upload_calls: sat_add(totals.upload_calls, texture.counters().0),
        upload_bytes: sat_add(totals.upload_bytes, texture.counters().1),
        flush_calls: sat_add(totals.flush_calls, texture.counters().2),
        flush_bytes: sat_add(totals.flush_bytes, texture.counters().3),
    }
}

/// Totals over the held textures of `slots`, in slot order.
pub open spec fn kind_diagnostic_of(
    slots: Seq<Option<DirectXAtlasTexture>>,
    kind: AtlasTextureKind,
    free: usize,
) -> AtlasKindDiagnostic
    decreases slots.len(),
{
    if slots.len() == 0 {
        empty_kind_diagnostic(kind, free)
    } else {
        let totals = kind_diagnostic_of(slots.drop_last(), kind, free);
        match slots.last() {
            Some(texture) => kind_step(totals, texture),
            None => totals,
        }
    }
}

/// The diagnostic item of an image tile.
pub open spec fn image_item(image_id: u64, frame_index: usize, tile: AtlasTile) -> AtlasImageTileDiagnostic {
    AtlasImageTileDiagnostic {
        render_image_id: image_id,
        frame_index,
        width: extent_u32(tile.bounds.size.width.0),
        height: extent_u32(tile.bounds.size.height.0),
        tile_bytes_estimate: bounds_bytes_spec(tile.bounds, 4),
    }
}

/// The items of the image tiles, in order.
pub open spec fn image_items(tiles: Seq<(AtlasKey, AtlasTile)>) -> Seq<AtlasImageTileDiagnostic>
    decreases tiles.len(),
{
    if tiles.len() == 0 {
        Seq::empty()
    } else {
        let earlier = image_items(tiles.drop_last());
        match tiles.last().0 {
            AtlasKey::Image { image_id, frame_index } => earlier.push(
                image_item(image_id, frame_index, tiles.last().1),
            ),
            _ => earlier,
        }
    }
}

/// Glyph, vector-image and raster-image tiles among the tiles.
pub open spec fn key_tally(tiles: Seq<(AtlasKey, AtlasTile)>) -> (nat, nat, nat)
    decreases tiles.len(),
{
    if tiles.len() == 0 {
        (0, 0, 0)
    } else {
        let (glyphs, svgs, images) = key_tally(tiles.drop_last());
        match tiles.last().0 {
            AtlasKey::Glyph { .. } => (glyphs + 1, svgs, images),
            AtlasKey::Svg { .. } => (glyphs, svgs + 1, images),
            AtlasKey::Image { .. } => (glyphs, svgs, images + 1),
        }
    }
}

/// Bytes of the image tiles, summed in order with saturation.
pub open spec fn image_tile_bytes(tiles: Seq<(AtlasKey, AtlasTile)>) -> u64
    decreases tiles.len(),
{
    if tiles.len() == 0 {
        0
    } else {
        let earlier = image_tile_bytes(tiles.drop_last());
        match tiles.last().0 {
            AtlasKey::Image { .. } => sat_add(earlier, bounds_bytes_spec(tiles.last().1.bounds, 4)),
            _ => earlier,
        }
    }
}

/// The items a snapshot lists: the first `MAX_IMAGE_TILE_DIAGNOSTIC_ITEMS`.
pub open spec fn listed_items(items: Seq<AtlasImageTileDiagnostic>) -> Seq<AtlasImageTileDiagnostic> {
    if items.len() <= MAX_IMAGE_TILE_DIAGNOSTIC_ITEMS {
        items
    } else {
        items.take(MAX_IMAGE_TILE_DIAGNOSTIC_ITEMS as int)
    }
}

} // verus!
