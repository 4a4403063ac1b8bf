use vstd::prelude::*;
use crate::geometry::{Bounds, DevicePixels, Point, Size};

verus! {

/// Bytes covered by bounds at the given bytes per pixel; negative extents count as zero and the
/// product saturates at `u64::MAX`.
pub open spec fn bounds_bytes_spec(bounds: Bounds<DevicePixels>, bytes_per_pixel: u32) -> u64 {
    let width = if bounds.size.width.0 < 0 { 0int } else { bounds.size.width.0 as int };
    let height = if bounds.size.height.0 < 0 { 0int } else { bounds.size.height.0 as int };
    let product = width * height * bytes_per_pixel;
    if product > u64::MAX { u64::MAX } else { product as u64 }
}

fn saturating_mul_u64(left: u64, right: u64) -> (product: u64)
    ensures
        product == (if left * right > u64::MAX { u64::MAX as int } else { left * right }),
{
    match left.checked_mul(right) {
        Some(product) => product,
        None => u64::MAX,
    }
}

fn saturating_add_u64(left: u64, right: u64) -> (sum: u64)
    ensures
        sum == (if left + right > u64::MAX { u64::MAX as int } else { left + right }),
{
    match left.checked_add(right) {
        Some(sum) => sum,
        None => u64::MAX,
    }
}

/// Bytes covered by bounds at the given bytes per pixel.
pub fn bounds_bytes(bounds: Bounds<DevicePixels>, bytes_per_pixel: u32) -> (bytes: u64)
    ensures
        bytes == bounds_bytes_spec(bounds, bytes_per_pixel),
{
    let width: u64 = if bounds.size.width.0 < 0 { 0 } else { bounds.size.width.0 as u64 };
    let height: u64 = if bounds.size.height.0 < 0 { 0 } else { bounds.size.height.0 as u64 };
    let area = saturating_mul_u64(width, height);
    let bytes = saturating_mul_u64(area, bytes_per_pixel as u64);
    proof {
        let w = width as int;
        let h = height as int;
        let b = bytes_per_pixel as int;
        assert(w * h <= 0x7fff_ffff * 0x7fff_ffff) by (nonlinear_arith)
            requires
                0 <= w <= 0x7fff_ffff,
                0 <= h <= 0x7fff_ffff,
        ;
        assert(0 <= w * h * b) by (nonlinear_arith)
            requires
                0 <= w,
                0 <= h,
                0 <= b,
        ;
    }
    bytes
}

/// Smallest bounds covering both bounds.
pub open spec fn union_spec(a: Bounds<DevicePixels>, b: Bounds<DevicePixels>) -> Bounds<DevicePixels> {
    let left = if a.origin.x.0 < b.origin.x.0 { a.origin.x.0 } else { b.origin.x.0 };
    let top = if a.origin.y.0 < b.origin.y.0 { a.origin.y.0 } else { b.origin.y.0 };
    let a_right = a.origin.x.0 + a.size.width.0;
    let b_right = b.origin.x.0 + b.size.width.0;
    let a_bottom = a.origin.y.0 + a.size.height.0;
    let b_bottom = b.origin.y.0 + b.size.height.0;
    let right = if a_right > b_right { a_right } else { b_right };
    let bottom = if a_bottom > b_bottom { a_bottom } else { b_bottom };
    Bounds {
        origin: Point { x: DevicePixels(left), y: DevicePixels(top) },
        size: Size { width: DevicePixels((right - left) as i32), height: DevicePixels((bottom - top) as i32) },
    }
}

/// Bounds lie within a texture of the given size with a positive extent.
pub open spec fn within_texture(bounds: Bounds<DevicePixels>, size: Size<DevicePixels>) -> bool {
    0 <= bounds.origin.x.0 && 0 <= bounds.origin.y.0 && 0 < bounds.size.width.0
        && 0 < bounds.size.height.0 && bounds.origin.x.0 + bounds.size.width.0 <= size.width.0
        && bounds.origin.y.0 + bounds.size.height.0 <= size.height.0
}

/// Smallest bounds covering two bounds that both lie within one texture.
pub fn union(a: Bounds<DevicePixels>, b: Bounds<DevicePixels>, texture: Size<DevicePixels>) -> (result:
    Bounds<DevicePixels>)
    requires
        within_texture(a, texture),
        within_texture(b, texture),
    ensures
        result == union_spec(a, b),
        within_texture(result, texture),
{
    let left = if a.origin.x.0 < b.origin.x.0 { a.origin.x.0 } else { b.origin.x.0 };
    let top = if a.origin.y.0 < b.origin.y.0 { a.origin.y.0 } else { b.origin.y.0 };
    let a_right = a.origin.x.0 + a.size.width.0;
    let b_right = b.origin.x.0 + b.size.width.0;
    let a_bottom = a.origin.y.0 + a.size.height.0;
    let b_bottom = b.origin.y.0 + b.size.height.0;
    let right = if a_right > b_right { a_right } else { b_right };
    let bottom = if a_bottom > b_bottom { a_bottom } else { b_bottom };
    Bounds {
        origin: Point { x: DevicePixels(left), y: DevicePixels(top) },
        size: Size { width: DevicePixels(right - left), height: DevicePixels(bottom - top) },
    }
}

/// The part of `bounds` inside a texture of the given size, if it has a positive extent.
pub open spec fn clamp_spec(bounds: Bounds<DevicePixels>, size: Size<DevicePixels>) -> Option<
    Bounds<DevicePixels>,
> {
    let max0 = |v: int| if v < 0 { 0int } else { v };
    let left = if max0(bounds.origin.x.0 as int) > size.width.0 { size.width.0 as int } else { max0(bounds.origin.x.0 as int) };
    let top = if max0(bounds.origin.y.0 as int) > size.height.0 { size.height.0 as int } else { max0(bounds.origin.y.0 as int) };
    let raw_right = bounds.origin.x.0 + bounds.size.width.0;
    let raw_bottom = bounds.origin.y.0 + bounds.size.height.0;
    let right0 = if raw_right < left { left } else { raw_right };
    let right = if right0 > size.width.0 { size.width.0 as int } else { right0 };
    let bottom0 = if raw_bottom < top { top } else { raw_bottom };
    let bottom = if bottom0 > size.height.0 { size.height.0 as int } else { bottom0 };
    if right <= left || bottom <= top {
        None
    } else {
        Some(
            Bounds {
                origin: Point { x: DevicePixels(left as i32), y: DevicePixels(top as i32) },
                size: Size {
                    width: DevicePixels((right - left) as i32),
                    height: DevicePixels((bottom - top) as i32),
                },
            },
        )
    }
}

/// Pixel format family of an atlas texture.
#[derive(Clone, Copy, Debug, PartialEq, Eq, Hash, Structural)]
pub enum AtlasTextureKind {
    /// One byte per texel.
    Monochrome,
    /// Four bytes per texel (BGRA).
    Polychrome,
}

/// Bytes per texel of a texture kind.
pub open spec fn kind_bytes(kind: AtlasTextureKind) -> u32 {
    match kind {
        AtlasTextureKind::Monochrome => 1,
        AtlasTextureKind::Polychrome => 4,
    }
}

/// Identity of one atlas texture: its slot in the list of its kind.
#[derive(Clone, Copy, Debug, PartialEq, Eq, Hash, Structural)]
pub struct AtlasTextureId {
    /// Slot index.
    pub index: u32,
    /// Texture kind.
    pub kind: AtlasTextureKind,
}

/// One allocated atlas tile.
#[derive(Clone, Copy, Debug, PartialEq, Eq, Structural)]
pub struct AtlasTile {
    /// Texture holding the tile.
    pub texture_id: AtlasTextureId,
    /// Allocation identity within the texture.
    pub tile_id: u32,
    /// Padding around the tile's content.
    pub padding: u32,
    /// Tile bounds in the texture.
    pub bounds: Bounds<DevicePixels>,
}

#[verifier::external_type_specification]
#[verifier::external_body]
pub struct ExBucketedAtlasAllocator(etagere::BucketedAtlasAllocator);

/// Width and height of the atlas an allocator was made for.
pub uninterp spec fn allocator_extent(allocator: etagere::BucketedAtlasAllocator) -> (i32, i32);

/// The allocations an allocator has granted since it was made, in the order granted, each as
/// its identity's serialized value and the minimum corner of its rectangle.
pub uninterp spec fn allocator_granted(allocator: etagere::BucketedAtlasAllocator) -> Seq<(u32, i32, i32)>;

/// Makes an `etagere::BucketedAtlasAllocator` over an atlas of the given extent, at most the
/// 16384 by 16384 device maximum (its constructor asserts each dimension is below `u16::MAX`,
/// and over larger extents its allocations can overflow the rounded shelf height or the running
/// allocated area); it has granted nothing yet.
#[verifier::external_body]
fn new_allocator(width: i32, height: i32) -> (allocator: etagere::BucketedAtlasAllocator)
    requires
        0 <= width <= 16384,
        0 <= height <= 16384,
    ensures
        allocator_extent(allocator) == (width, height),
        allocator_granted(allocator) == Seq::<(u32, i32, i32)>::empty(),
{
    etagere::BucketedAtlasAllocator::new(etagere::size2(width, height))
}

/// Allocates a rectangle with `etagere::BucketedAtlasAllocator::allocate`: a granted rectangle
/// has the requested, non-empty size and lies in the atlas; it is reported as the allocation
/// identity's serialized value and the rectangle's minimum corner, and joins the granted
/// allocations. The allocator's extent is at most 16384 by 16384, where neither the rounded
/// shelf height nor the running allocated area can overflow. An allocator that has granted
/// nothing yet grants every non-empty request that fits its extent; which other requests are
/// granted depends on the allocator's shelves and is not stated.
#[verifier::external_body]
fn allocate_rectangle(
    allocator: &mut etagere::BucketedAtlasAllocator,
    width: i32,
    height: i32,
) -> (allocation: Option<(u32, i32, i32)>)
    requires
        allocator_extent(*old(allocator)).0 <= 16384,
        allocator_extent(*old(allocator)).1 <= 16384,
    ensures
        allocator_extent(*final(allocator)) == allocator_extent(*old(allocator)),
        allocation matches Some((_, x, y)) ==> 0 < width && 0 < height && 0 <= x && 0 <= y && x
            + width <= allocator_extent(*old(allocator)).0 && y + height <= allocator_extent(
            *old(allocator),
        ).1,
        match allocation {
            Some(granted) => allocator_granted(*final(allocator)) == allocator_granted(
                *old(allocator),
            ).push(granted),
            None => allocator_granted(*final(allocator)) == allocator_granted(*old(allocator)),
        },
        allocator_granted(*old(allocator)).len() == 0 && 0 < width <= allocator_extent(
            *old(allocator),
        ).0 && 0 < height <= allocator_extent(*old(allocator)).1 ==> allocation is Some,
{
    match allocator.allocate(etagere::size2(width, height)) {
        Some(allocation) => Some((allocation.id.serialize(), allocation.rectangle.min.x, allocation.rectangle.min.y)),
        None => None,
    }
}

/// Region reported to the GPU by one flush of a texture's dirty CPU mirror.
#[derive(Clone, Copy, Debug, PartialEq, Eq, Structural)]
pub struct AtlasFlushRegion {
    /// Texture region to update.
    pub bounds: Bounds<DevicePixels>,
    /// Offset of the region's first byte in the CPU mirror.
    pub source_offset: usize,
    /// Bytes per mirror row.
    pub row_pitch: usize,
}

/// One atlas texture's CPU mirror, live-key count and upload accounting.
pub struct DirectXAtlasTexture {
    id: AtlasTextureId,
    allocator: etagere::BucketedAtlasAllocator,
    size: Size<DevicePixels>,
    bytes_per_pixel: u32,
    live_atlas_keys: u32,
    cpu_mirror: Vec<u8>,
    dirty_bounds: Option<Bounds<DevicePixels>>,
    upload_calls: u64,
    upload_bytes: u64,
    flush_calls: u64,
    flush_bytes: u64,
}

/// Byte `index` of a row-major mirror with `pitch` bytes per row after copying `rows` rows of
/// `row_bytes` bytes each from `source` to the region starting at row `top` and byte column
/// `column`.
pub open spec fn uploaded_byte(
    mirror: Seq<u8>,
    source: Seq<u8>,
    pitch: int,
    column: int,
    top: int,
    row_bytes: int,
    rows: int,
    index: int,
) -> u8 {
    let row = index / pitch;
    let byte = index % pitch;
    if top <= row < top + rows && column <= byte < column + row_bytes {
        source[(row - top) * row_bytes + (byte - column)]
    } else {
        mirror[index]
    }
}

impl DirectXAtlasTexture {
    /// The texture's identity.
    pub closed spec fn texture_id(&self) -> AtlasTextureId {
        self.id
    }

    /// The texture's size.
    pub closed spec fn texture_size(&self) -> Size<DevicePixels> {
        self.size
    }

    /// Bytes per texel.
    pub closed spec fn texel_bytes(&self) -> u32 {
        self.bytes_per_pixel
    }

    /// Atlas keys whose tiles live in this texture.
    pub closed spec fn live_keys(&self) -> u32 {
        self.live_atlas_keys
    }

    /// The CPU mirror of the texture's contents, row-major.
    pub closed spec fn mirror(&self) -> Seq<u8> {
        self.cpu_mirror@
    }

    /// The mirror region modified since the last flush.
    pub closed spec fn dirty(&self) -> Option<Bounds<DevicePixels>> {
        self.dirty_bounds
    }

    /// Upload and flush counters: calls and bytes of uploads, then of flushes.
    pub closed spec fn counters(&self) -> (u64, u64, u64, u64) {
        (self.upload_calls, self.upload_bytes, self.flush_calls, self.flush_bytes)
    }

    /// A well-formed texture is at most the 16384 by 16384 device maximum.
    pub proof fn lemma_size_bounded(&self)
        requires
            self.wf(),
        ensures
            0 <= self.texture_size().width.0 <= 16384,
            0 <= self.texture_size().height.0 <= 16384,
    {
    }

    /// No tile has been allocated in the texture since it was made.
    pub closed spec fn unused(&self) -> bool {
        allocator_granted(self.allocator).len() == 0
    }

    /// The size is at most the 16384 by 16384 device maximum, the mirror holds exactly one texel
    /// per pixel, and dirty bounds lie within the texture.
    pub closed spec fn wf(&self) -> bool {
        &&& 0 <= self.size.width.0 <= 16384
        &&& 0 <= self.size.height.0 <= 16384
        &&& 1 <= self.bytes_per_pixel <= 4
        &&& self.cpu_mirror@.len() == self.size.width.0 * self.size.height.0 * self.bytes_per_pixel
        &&& self.dirty_bounds matches Some(dirty) ==> within_texture(dirty, self.size)
        &&& allocator_extent(self.allocator) == (self.size.width.0, self.size.height.0)
    }

    /// A new texture of the given identity at least `min_size` (at least the default 1024 by 1024
    /// and at most the 16384 by 16384 device maximum in each dimension), zero-filled, with no live
    /// keys and one byte per texel for monochrome textures, four for polychrome ones.
    pub fn new(id: AtlasTextureId, min_size: Size<DevicePixels>) -> (texture: Self)
        ensures
            texture.wf(),
            texture.texture_id() == id,
            texture.texture_size().width.0 == (if min_size.width.0 < 1024 {
                1024
            } else if min_size.width.0 > 16384 {
                16384
            } else {
                min_size.width.0
            }),
            texture.texture_size().height.0 == (if min_size.height.0 < 1024 {
                1024
            } else if min_size.height.0 > 16384 {
                16384
            } else {
                min_size.height.0
            }),
            texture.texel_bytes() == kind_bytes(id.kind),
            texture.live_keys() == 0,
            texture.unused(),
            texture.dirty() is None,
            texture.counters() == (0u64, 0u64, 0u64, 0u64),
            forall|i: int| 0 <= i < texture.mirror().len() ==> texture.mirror()[i] == 0,
    {
        let bytes_per_pixel: u32 = match id.kind {
            AtlasTextureKind::Monochrome => 1,
            AtlasTextureKind::Polychrome => 4,
        };
        let width = if min_size.width.0 > 16384 { 16384 } else { min_size.width.0 };
        let width = if width < 1024 { 1024 } else { width };
        let height = if min_size.height.0 > 16384 { 16384 } else { min_size.height.0 };
        let height = if height < 1024 { 1024 } else { height };
        let w = width as usize;
        let h = height as usize;
        let b = bytes_per_pixel as usize;
        assert(w * h <= 16384 * 16384) by (nonlinear_arith)
            requires
                w <= 16384,
                h <= 16384,
        ;
        assert(w * h * b <= 16384 * 16384 * 4) by (nonlinear_arith)
            requires
                w * h <= 16384 * 16384,
                b <= 4,
                0 <= w * h,
        ;
        let length = w * h * b;
        let mut cpu_mirror: Vec<u8> = Vec::new();
        while cpu_mirror.len() < length
            invariant
                cpu_mirror@.len() <= length,
                forall|i: int| 0 <= i < cpu_mirror@.len() ==> cpu_mirror@[i] == 0,
            decreases length - cpu_mirror@.len(),
        {
            cpu_mirror.push(0);
        }
        DirectXAtlasTexture {
            id,
            allocator: new_allocator(width, height),
            size: Size { width: DevicePixels(width), height: DevicePixels(height) },
            bytes_per_pixel,
            live_atlas_keys: 0,
            cpu_mirror,
            dirty_bounds: None,
            upload_calls: 0,
            upload_bytes: 0,
            flush_calls: 0,
            flush_bytes: 0,
        }
    }

    /// Allocates a tile of the given size in this texture and counts it as a live key; a tile
    /// has a non-empty size and lies within the texture. The allocation is refused once the
    /// live-key count is saturated; a texture with no tile allocated yet grants every non-empty
    /// size that fits it.
    pub fn allocate(&mut self, size: Size<DevicePixels>) -> (tile: Option<AtlasTile>)
        requires
            old(self).wf(),
        ensures
            final(self).wf(),
            final(self).texture_id() == old(self).texture_id(),
            final(self).texture_size() == old(self).texture_size(),
            final(self).texel_bytes() == old(self).texel_bytes(),
            final(self).mirror() == old(self).mirror(),
            final(self).dirty() == old(self).dirty(),
            final(self).counters() == old(self).counters(),
            match tile {
                Some(tile) => {
                    &&& tile.texture_id == old(self).texture_id()
                    &&& tile.padding == 0
                    &&& tile.bounds.size == size
                    &&& 0 <= tile.bounds.origin.x.0
                    &&& 0 <= tile.bounds.origin.y.0
                    &&& tile.bounds.origin.x.0 + size.width.0 <= old(self).texture_size().width.0
                    &&& tile.bounds.origin.y.0 + size.height.0 <= old(self).texture_size().height.0
                    &&& 0 < size.width.0
                    &&& 0 < size.height.0
                    &&& final(self).live_keys() == old(self).live_keys() + 1
                },
                None => final(self).live_keys() == old(self).live_keys(),
            },
            old(self).unused() && old(self).live_keys() < u32::MAX && 0 < size.width.0 <= old(
                self,
            ).texture_size().width.0 && 0 < size.height.0 <= old(self).texture_size().height.0
                ==> tile is Some,
    {
        if self.live_atlas_keys == u32::MAX {
            return None;
        }
        match allocate_rectangle(&mut self.allocator, size.width.0, size.height.0) {
            Some((tile_id, x, y)) => {
                self.live_atlas_keys = self.live_atlas_keys + 1;
                Some(
                    AtlasTile {
                        texture_id: self.id,
                        tile_id,
                        padding: 0,
                        bounds: Bounds { origin: Point { x: DevicePixels(x), y: DevicePixels(y) }, size },
                    },
                )
            },
            None => None,
        }
    }

    /// Clamps bounds to the texture, rejecting an empty result.
    pub fn clamp_bounds(&self, bounds: Bounds<DevicePixels>) -> (result: Option<Bounds<DevicePixels>>)
        requires
            self.wf(),
        ensures
            result == clamp_spec(bounds, self.texture_size()),
            result matches Some(clamped) ==> within_texture(clamped, self.texture_size()),
    {
        let left0 = if bounds.origin.x.0 < 0 { 0 } else { bounds.origin.x.0 };
        let left = if left0 > self.size.width.0 { self.size.width.0 } else { left0 };
        let top0 = if bounds.origin.y.0 < 0 { 0 } else { bounds.origin.y.0 };
        let top = if top0 > self.size.height.0 { self.size.height.0 } else { top0 };
        let raw_right = bounds.origin.x.0 as i64 + bounds.size.width.0 as i64;
        let raw_bottom = bounds.origin.y.0 as i64 + bounds.size.height.0 as i64;
        let right0 = if raw_right < left as i64 { left as i64 } else { raw_right };
        let right = if right0 > self.size.width.0 as i64 { self.size.width.0 as i64 } else { right0 };
        let bottom0 = if raw_bottom < top as i64 { top as i64 } else { raw_bottom };
        let bottom = if bottom0 > self.size.height.0 as i64 { self.size.height.0 as i64 } else { bottom0 };
        if right <= left as i64 || bottom <= top as i64 {
            return None;
        }
        Some(
            Bounds {
                origin: Point { x: DevicePixels(left), y: DevicePixels(top) },
                size: Size {
                    width: DevicePixels((right - left as i64) as i32),
                    height: DevicePixels((bottom - top as i64) as i32),
                },
            },
        )
    }

    /// Records that one live atlas key left this texture.
    pub fn decrement_ref_count(&mut self)
        requires
            old(self).wf(),
            old(self).live_keys() > 0,
        ensures
            final(self).wf(),
            final(self).texture_id() == old(self).texture_id(),
            final(self).texture_size() == old(self).texture_size(),
            final(self).texel_bytes() == old(self).texel_bytes(),
            final(self).mirror() == old(self).mirror(),
            final(self).dirty() == old(self).dirty(),
            final(self).counters() == old(self).counters(),
            final(self).live_keys() == old(self).live_keys() - 1,
    {
        self.live_atlas_keys = self.live_atlas_keys - 1;
    }

    /// Whether no atlas key lives in this texture.
    pub fn is_unreferenced(&self) -> (unreferenced: bool)
        ensures
            unreferenced == (self.live_keys() == 0),
    {
        self.live_atlas_keys == 0
    }

    /// Atlas keys whose tiles live in this texture.
    pub fn live_atlas_keys(&self) -> (keys: u32)
        ensures
            keys == self.live_keys(),
    {
        self.live_atlas_keys
    }

    /// Bytes of the CPU mirror.
    pub fn cpu_mirror_len(&self) -> (length: usize)
        ensures
            length == self.mirror().len(),
    {
        self.cpu_mirror.len()
    }

    /// The region modified since the last flush.
    pub fn dirty_bounds(&self) -> (dirty: Option<Bounds<DevicePixels>>)
        ensures
            dirty == self.dirty(),
    {
        self.dirty_bounds
    }

    /// Upload calls and bytes, then flush calls and bytes.
    pub fn usage_counters(&self) -> (counters: (u64, u64, u64, u64))
        ensures
            counters == self.counters(),
    {
        (self.upload_calls, self.upload_bytes, self.flush_calls, self.flush_bytes)
    }

    /// Bytes of the whole texture.
    pub fn texture_bytes(&self) -> (bytes: u64)
        ensures
            bytes == bounds_bytes_spec(
                Bounds {
                    origin: Point { x: DevicePixels(0), y: DevicePixels(0) },
                    size: self.texture_size(),
                },
                self.texel_bytes(),
            ),
    {
        bounds_bytes(
            Bounds { origin: Point { x: DevicePixels(0), y: DevicePixels(0) }, size: self.size },
            self.bytes_per_pixel,
        )
    }

    /// Bytes of bounds in this texture's texel format.
    pub fn bounds_bytes(&self, bounds: Bounds<DevicePixels>) -> (bytes: u64)
        ensures
            bytes == bounds_bytes_spec(bounds, self.texel_bytes()),
    {
        bounds_bytes(bounds, self.bytes_per_pixel)
    }
}


/// Byte `index` of a row-major mirror after copying `rows` full rows and then the first `extra`
/// bytes of the next row (see [`uploaded_byte`]).
pub open spec fn partially_uploaded_byte(
    mirror: Seq<u8>,
    source: Seq<u8>,
    pitch: int,
    column: int,
    top: int,
    row_bytes: int,
    rows: int,
    extra: int,
    index: int,
) -> u8 {
    let row = index / pitch;
    let byte = index % pitch;
    if (top <= row < top + rows && column <= byte < column + row_bytes) || (row == top + rows
        && column <= byte < column + extra) {
        source[(row - top) * row_bytes + (byte - column)]
    } else {
        mirror[index]
    }
}

proof fn lemma_row_major_index(pitch: int, row: int, byte: int)
    requires
        pitch > 0,
        0 <= byte < pitch,
        row >= 0,
    ensures
        (row * pitch + byte) / pitch == row,
        (row * pitch + byte) % pitch == byte,
        forall|other: int|
            other >= 0 && #[trigger] (other / pitch) == row && other % pitch == byte ==> other == row
                * pitch + byte,
{
    vstd::arithmetic::div_mod::lemma_fundamental_div_mod_converse(row * pitch + byte, pitch, row, byte);
    assert forall|other: int|
        other >= 0 && #[trigger] (other / pitch) == row && other % pitch == byte implies other
            == row * pitch + byte by {
        vstd::arithmetic::div_mod::lemma_fundamental_div_mod(other, pitch);
        vstd::arithmetic::mul::lemma_mul_is_commutative(pitch, row);
    }
}

/// What an upload of `bytes` into `bounds` leaves in a texture (`after`) whose mirror, dirty
/// region and counters were `mirror`, `dirty` and `counters`, with the given size and texel
/// width: nothing when the clamped region is empty; otherwise the rows the source holds
/// completely are copied in order, and only when every row was copied does the region join the
/// dirty bounds and the upload get counted.
pub open spec fn upload_outcome(
    mirror: Seq<u8>,
    dirty: Option<Bounds<DevicePixels>>,
    counters: (u64, u64, u64, u64),
    size: Size<DevicePixels>,
    texel: u32,
    bounds: Bounds<DevicePixels>,
    bytes: Seq<u8>,
    after: DirectXAtlasTexture,
) -> bool {
    match clamp_spec(bounds, size) {
        None => after.mirror() == mirror && after.dirty() == dirty && after.counters() == counters,
        Some(region) => {
            let texel_width = texel as int;
            let pitch = size.width.0 * texel_width;
            let row_bytes = region.size.width.0 * texel_width;
            let rows = region.size.height.0 as int;
            let copied = if (bytes.len() as int) / row_bytes < rows {
                (bytes.len() as int) / row_bytes
            } else {
                rows
            };
            &&& after.mirror().len() == mirror.len()
            &&& forall|index: int|
                0 <= index < mirror.len() ==> #[trigger] after.mirror()[index]
                    == uploaded_byte(
                    mirror,
                    bytes,
                    pitch,
                    region.origin.x.0 * texel_width,
                    region.origin.y.0 as int,
                    row_bytes,
                    copied,
                    index,
                )
            &&& if copied == rows {
                &&& after.dirty() == Some(
                    match dirty {
                        Some(dirty) => union_spec(dirty, region),
                        None => region,
                    },
                )
                &&& after.counters() == (
                    (if counters.0 + 1 > u64::MAX {
                        u64::MAX as int
                    } else {
                        counters.0 + 1
                    }) as u64,
                    (if counters.1 + bounds_bytes_spec(region, texel) > u64::MAX {
                        u64::MAX as int
                    } else {
                        counters.1 + bounds_bytes_spec(region, texel)
                    }) as u64,
                    counters.2,
                    counters.3,
                )
            } else {
                after.dirty() == dirty && after.counters() == counters
            }
        },
    }
}

impl DirectXAtlasTexture {
    /// Copies the rows of `bytes` into the texture region given by `bounds` clamped to the
    /// texture. Rows are copied in order while the source still holds a complete row; when every
    /// row was copied, the region joins the dirty bounds and the upload is counted.
    pub fn upload(&mut self, bounds: Bounds<DevicePixels>, bytes: &[u8])
        requires
            old(self).wf(),
        ensures
            final(self).wf(),
            final(self).texture_id() == old(self).texture_id(),
            final(self).texture_size() == old(self).texture_size(),
            final(self).texel_bytes() == old(self).texel_bytes(),
            final(self).live_keys() == old(self).live_keys(),
            upload_outcome(
                old(self).mirror(),
                old(self).dirty(),
                old(self).counters(),
                old(self).texture_size(),
                old(self).texel_bytes(),
                bounds,
                bytes@,
                *final(self),
            ),
    {
        let region = match self.clamp_bounds(bounds) {
            Some(region) => region,
            None => {
                return;
            },
        };
        let ghost initial = self.cpu_mirror@;
        let mirror_len = self.cpu_mirror.len();
        let source_len = bytes.len();
        let texel = self.bytes_per_pixel as usize;
        let width = self.size.width.0 as usize;
        let height = self.size.height.0 as usize;
        let source_width = region.size.width.0 as usize;
        let source_height = region.size.height.0 as usize;
        let column_pixels = region.origin.x.0 as usize;
        let top = region.origin.y.0 as usize;
        proof {
            assert(width * texel <= 0x7fff_ffff * 4) by (nonlinear_arith)
                requires
                    width <= 0x7fff_ffff,
                    texel <= 4,
            ;
            assert(source_width * texel <= width * texel) by (nonlinear_arith)
                requires
                    source_width <= width,
            ;
            assert(column_pixels * texel + source_width * texel <= width * texel)
                by (nonlinear_arith)
                requires
                    column_pixels + source_width <= width,
            ;
        }
        assert(height >= 1);
        assert(width * texel <= width * height * texel) by (nonlinear_arith)
            requires
                height >= 1,
                texel >= 1,
        ;
        let pitch = width * texel;
        let row_bytes = source_width * texel;
        let column = column_pixels * texel;
        assert(row_bytes > 0) by (nonlinear_arith)
            requires
                source_width > 0,
                texel > 0,
                row_bytes == source_width * texel,
        ;
        assert(row_bytes as int == region.size.width.0 * (self.bytes_per_pixel as int));
        assert(pitch as int == self.size.width.0 * (self.bytes_per_pixel as int));
        assert(column as int == region.origin.x.0 * (self.bytes_per_pixel as int));
        let mut row: usize = 0;
        while row < source_height
            invariant
                self.wf(),
                self.size == old(self).size,
                self.id == old(self).id,
                self.bytes_per_pixel == old(self).bytes_per_pixel,
                self.live_atlas_keys == old(self).live_atlas_keys,
                self.dirty_bounds == old(self).dirty_bounds,
                self.upload_calls == old(self).upload_calls,
                self.upload_bytes == old(self).upload_bytes,
                self.flush_calls == old(self).flush_calls,
                self.flush_bytes == old(self).flush_bytes,
                initial == old(self).cpu_mirror@,
                self.cpu_mirror@.len() == initial.len(),
                initial.len() == width * height * texel,
                mirror_len == initial.len(),
                source_len == bytes@.len(),
                clamp_spec(bounds, old(self).size) == Some(region),
                source_height as int == region.size.height.0,
                source_width as int == region.size.width.0,
                column_pixels as int == region.origin.x.0,
                top as int == region.origin.y.0,
                texel == self.bytes_per_pixel,
                width == self.size.width.0,
                height == self.size.height.0,
                pitch == width * texel,
                row_bytes == source_width * texel,
                column == column_pixels * texel,
                row_bytes > 0,
                column + row_bytes <= pitch,
                top + source_height <= height,
                row <= source_height,
                row <= (bytes@.len() as int) / (row_bytes as int),
                forall|index: int|
                    0 <= index < initial.len() ==> #[trigger] self.cpu_mirror@[index]
                        == uploaded_byte(
                        initial,
                        bytes@,
                        pitch as int,
                        column as int,
                        top as int,
                        row_bytes as int,
                        row as int,
                        index,
                    ),
            decreases source_height - row,
        {
            assert(row * row_bytes + row_bytes == (row + 1) * row_bytes) by (nonlinear_arith);
            assert((row + 1) * row_bytes <= height * pitch) by (nonlinear_arith)
                requires
                    row + 1 <= height,
                    row_bytes <= pitch,
                    row_bytes >= 0,
            ;
            assert(height * pitch == width * height * texel) by (nonlinear_arith)
                requires
                    pitch == width * texel,
            ;
            if row * row_bytes + row_bytes > bytes.len() {
                proof {
                    assert((bytes@.len() as int) / (row_bytes as int) <= row) by (nonlinear_arith)
                        requires
                            (row + 1) * row_bytes > bytes@.len(),
                            row_bytes > 0,
                    {
                        vstd::arithmetic::div_mod::lemma_fundamental_div_mod(
                            bytes@.len() as int,
                            row_bytes as int,
                        );
                    }
                    assert((bytes@.len() as int) / (row_bytes as int) == row as int);
                    assert(row < region.size.height.0);
                    let texel_int = old(self).bytes_per_pixel as int;
                    assert(row_bytes as int == region.size.width.0 * texel_int);
                    assert(pitch as int == old(self).size.width.0 * texel_int);
                    assert(column as int == region.origin.x.0 * texel_int);
                    assert(clamp_spec(bounds, old(self).texture_size()) == Some(region));
                    assert forall|index: int|
                        0 <= index < old(self).cpu_mirror@.len() implies #[trigger] self.cpu_mirror@[index]
                            == uploaded_byte(
                            old(self).cpu_mirror@,
                            bytes@,
                            old(self).size.width.0 * texel_int,
                            region.origin.x.0 * texel_int,
                            region.origin.y.0 as int,
                            region.size.width.0 * texel_int,
                            row as int,
                            index,
                        ) by {}
                }
                return;
            }
            proof {
                assert((row + 1) <= (bytes@.len() as int) / (row_bytes as int)) by (nonlinear_arith)
                    requires
                        (row + 1) * row_bytes <= bytes@.len(),
                        row_bytes > 0,
                {
                    vstd::arithmetic::div_mod::lemma_fundamental_div_mod(
                        bytes@.len() as int,
                        row_bytes as int,
                    );
                }
                assert((top + row) * pitch + pitch <= height * pitch) by (nonlinear_arith)
                    requires
                        top + row + 1 <= height,
                ;
                assert(height * pitch == width * height * texel) by (nonlinear_arith)
                    requires
                        pitch == width * texel,
                ;
            }
            let destination_start = (top + row) * pitch + column;
            let source_start = row * row_bytes;
            let mut offset: usize = 0;
            while offset < row_bytes
                invariant
                    self.wf(),
                    self.size == old(self).size,
                    self.id == old(self).id,
                    self.bytes_per_pixel == old(self).bytes_per_pixel,
                    self.live_atlas_keys == old(self).live_atlas_keys,
                    self.dirty_bounds == old(self).dirty_bounds,
                    self.upload_calls == old(self).upload_calls,
                    self.upload_bytes == old(self).upload_bytes,
                    self.flush_calls == old(self).flush_calls,
                    self.flush_bytes == old(self).flush_bytes,
                    self.cpu_mirror@.len() == initial.len(),
                    initial.len() == width * height * texel,
                    mirror_len == initial.len(),
                    source_len == bytes@.len(),
                    pitch == width * texel,
                    row_bytes > 0,
                    column + row_bytes <= pitch,
                    top + row < height,
                    (top + row) * pitch + pitch <= initial.len(),
                    destination_start == (top + row) * pitch + column,
                    source_start == row * row_bytes,
                    source_start + row_bytes <= bytes@.len(),
                    offset <= row_bytes,
                    forall|index: int|
                        0 <= index < initial.len() ==> #[trigger] self.cpu_mirror@[index]
                            == partially_uploaded_byte(
                            initial,
                            bytes@,
                            pitch as int,
                            column as int,
                            top as int,
                            row_bytes as int,
                            row as int,
                            offset as int,
                            index,
                        ),
                decreases row_bytes - offset,
            {
                assert(destination_start + offset < initial.len());
                assert(source_start + offset < bytes@.len());
                let target = destination_start + offset;
                let value = bytes[source_start + offset];
                proof {
                    lemma_row_major_index(pitch as int, (top + row) as int, (column + offset) as int);
                    assert(target == (top + row) * pitch + (column + offset));
                }
                let ghost before = self.cpu_mirror@;
                self.cpu_mirror.set(target, value);
                proof {
                    assert forall|index: int|
                        0 <= index < initial.len() implies #[trigger] self.cpu_mirror@[index]
                            == partially_uploaded_byte(
                            initial,
                            bytes@,
                            pitch as int,
                            column as int,
                            top as int,
                            row_bytes as int,
                            row as int,
                            offset + 1,
                            index,
                        ) by {
                        if index != target {
                            if index / (pitch as int) == top + row && index % (pitch as int)
                                == column + offset {
                                assert(index == (top + row) * pitch + (column + offset));
                            }
                        } else {
                            assert((row + 0) * row_bytes + offset == source_start + offset);
                        }
                    }
                }
                offset = offset + 1;
            }
            proof {
                assert forall|index: int|
                    0 <= index < initial.len() implies #[trigger] self.cpu_mirror@[index]
                        == uploaded_byte(
                        initial,
                        bytes@,
                        pitch as int,
                        column as int,
                        top as int,
                        row_bytes as int,
                        row + 1,
                        index,
                    ) by {
                    assert(self.cpu_mirror@[index] == partially_uploaded_byte(
                        initial,
                        bytes@,
                        pitch as int,
                        column as int,
                        top as int,
                        row_bytes as int,
                        row as int,
                        row_bytes as int,
                        index,
                    ));
                }
            }
            row = row + 1;
        }
        let dirty = match self.dirty_bounds {
            Some(dirty) => union(dirty, region, self.size),
            None => region,
        };
        self.dirty_bounds = Some(dirty);
        self.upload_calls = saturating_add_u64(self.upload_calls, 1);
        let region_bytes = bounds_bytes(
            Bounds {
                origin: Point { x: DevicePixels(0), y: DevicePixels(0) },
                size: Size { width: DevicePixels(source_width as i32), height: DevicePixels(source_height as i32) },
            },
            self.bytes_per_pixel,
        );
        self.upload_bytes = saturating_add_u64(self.upload_bytes, region_bytes);
    }
}


/// What a flush of `before` leaves (`after`) and reports (`result`): the dirty region, if any,
/// is taken with its mirror offset and row pitch and counted; nothing is dirty afterwards and the
/// mirror is unchanged.
pub open spec fn flush_outcome(
    before: DirectXAtlasTexture,
    after: DirectXAtlasTexture,
    result: Option<AtlasFlushRegion>,
) -> bool {
    &&& after.texture_id() == before.texture_id()
    &&& after.dirty() is None
    &&& after.mirror() == before.mirror()
    &&& after.texture_size() == before.texture_size()
    &&& after.texel_bytes() == before.texel_bytes()
    &&& after.live_keys() == before.live_keys()
    &&& match before.dirty() {
        None => result is None && after.counters() == before.counters(),
        Some(dirty) => {
            let texel = before.texel_bytes() as int;
            let pitch = before.texture_size().width.0 * texel;
            &&& result == Some(
                AtlasFlushRegion {
                    bounds: dirty,
                    source_offset: (dirty.origin.y.0 * pitch + dirty.origin.x.0
                        * texel) as usize,
                    row_pitch: pitch as usize,
                },
            )
            &&& dirty.origin.y.0 * pitch + dirty.origin.x.0 * texel <= before.mirror().len()
            &&& after.counters() == (
                before.counters().0,
                before.counters().1,
                (if before.counters().2 + 1 > u64::MAX {
                    u64::MAX as int
                } else {
                    before.counters().2 + 1
                }) as u64,
                (if before.counters().3 + bounds_bytes_spec(dirty, before.texel_bytes())
                    > u64::MAX {
                    u64::MAX as int
                } else {
                    before.counters().3 + bounds_bytes_spec(dirty, before.texel_bytes())
                }) as u64,
            )
        },
    }
}

impl DirectXAtlasTexture {
    /// Takes the dirty region for submission to the GPU: its bounds, the offset of its first
    /// byte in the mirror and the mirror's row pitch. The flush is counted; nothing is dirty
    /// afterwards.
    pub fn flush(&mut self) -> (result: Option<AtlasFlushRegion>)
        requires
            old(self).wf(),
        ensures
            final(self).wf(),
            flush_outcome(*old(self), *final(self), result),
    {
        let dirty = match self.dirty_bounds {
            Some(dirty) => dirty,
            None => {
                return None;
            },
        };
        self.dirty_bounds = None;
        let region = match self.clamp_bounds(dirty) {
            Some(region) => region,
            None => {
                return None;
            },
        };
        assert(region == dirty);
        let texel = self.bytes_per_pixel as usize;
        let width = self.size.width.0 as usize;
        let height = self.size.height.0 as usize;
        let mirror_len = self.cpu_mirror.len();
        let left = region.origin.x.0 as usize;
        let top = region.origin.y.0 as usize;
        proof {
            assert(top * (width * texel) + left * texel <= width * height * texel) by (nonlinear_arith)
                requires
                    top + 1 <= height,
                    left <= width,
                    texel >= 1,
            ;
            assert(width * texel <= width * height * texel) by (nonlinear_arith)
                requires
                    height >= 1,
                    texel >= 1,
            ;
        }
        let row_pitch = width * texel;
        let source_offset = top * row_pitch + left * texel;
        if source_offset > mirror_len {
            return None;
        }
        let flush_bytes = bounds_bytes(region, self.bytes_per_pixel);
        self.flush_calls = saturating_add_u64(self.flush_calls, 1);
        self.flush_bytes = saturating_add_u64(self.flush_bytes, flush_bytes);
        Some(AtlasFlushRegion { bounds: region, source_offset, row_pitch })
    }
}

/// Bytes estimated for one atlas tile: four bytes per texel of its bounds.
pub fn tile_bytes_estimate(tile_bounds: Bounds<DevicePixels>) -> (bytes: u64)
    ensures
        bytes == bounds_bytes_spec(tile_bounds, 4),
{
    bounds_bytes(tile_bounds, 4)
}

/// Clamping bounds that already lie within a texture leaves them unchanged, and the union of two
/// bounds within a texture covers both.
pub proof fn lemma_clamp_and_union(a: Bounds<DevicePixels>, b: Bounds<DevicePixels>, size: Size<DevicePixels>)
    requires
        within_texture(a, size),
        within_texture(b, size),
    ensures
        clamp_spec(a, size) == Some(a),
        union_spec(a, b).origin.x.0 <= a.origin.x.0,
        union_spec(a, b).origin.y.0 <= a.origin.y.0,
        union_spec(a, b).origin.x.0 + union_spec(a, b).size.width.0 >= b.origin.x.0 + b.size.width.0,
        union_spec(a, b).origin.y.0 + union_spec(a, b).size.height.0 >= b.origin.y.0 + b.size.height.0,
        within_texture(union_spec(a, b), size),
{
}

} // verus!
