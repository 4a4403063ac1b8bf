use vstd::prelude::*;
use crate::atlas::{
    bounds_bytes_spec, flush_outcome, kind_bytes, upload_outcome, within_texture,
    AtlasFlushRegion, AtlasTextureId, AtlasTextureKind, AtlasTile, DirectXAtlasTexture,
};
use crate::atlas_diagnostics::{
    image_item, image_items, image_tile_bytes, key_tally, kind_diagnostic_of, listed_items,
    AtlasDiagnosticSnapshot, AtlasImageTileDiagnostic, AtlasKindDiagnostic,
    MAX_IMAGE_TILE_DIAGNOSTIC_ITEMS,
};
use crate::geometry::{Bounds, DevicePixels, Size};
use crate::resources::saturating_add;

verus! {

/// Textures of one kind: slots indexed by texture index, and the slots free for reuse.
pub struct AtlasTextureList {
    textures: Vec<Option<DirectXAtlasTexture>>,
    free_list: Vec<usize>,
}

impl AtlasTextureList {
    /// The texture slots.
    pub closed spec fn slots(&self) -> Seq<Option<DirectXAtlasTexture>> {
        self.textures@
    }

    /// The free slot indices, in the order they were freed.
    pub closed spec fn free(&self) -> Seq<usize> {
        self.free_list@
    }

    /// Every held texture is well formed and identified by its slot and the list's kind; free
    /// indices are distinct empty slots; slot indices fit a texture index.
    pub open spec fn wf(&self, kind: AtlasTextureKind) -> bool {
        &&& self.slots().len() <= u32::MAX
        &&& forall|i: int|
            0 <= i < self.slots().len() && (#[trigger] self.slots()[i]) is Some ==> {
                let texture = self.slots()[i]->Some_0;
                &&& texture.wf()
                &&& texture.texture_id() == (AtlasTextureId { index: i as u32, kind })
            }
        &&& self.free().no_duplicates()
        &&& forall|j: int|
            0 <= j < self.free().len() ==> (#[trigger] self.free()[j]) < self.slots().len()
                && self.slots()[self.free()[j] as int] is None
    }

    /// An empty list.
    pub fn new() -> (list: Self)
        ensures
            list.slots() == Seq::<Option<DirectXAtlasTexture>>::empty(),
            list.free() == Seq::<usize>::empty(),
    {
        AtlasTextureList { textures: Vec::new(), free_list: Vec::new() }
    }
}

/// The key of one cached atlas tile.
#[derive(Clone, Copy, Debug, PartialEq, Eq, Hash, Structural)]
pub enum AtlasKey {
    /// A rasterized glyph.
    Glyph {
        /// Glyph rendering identity.
        glyph_id: u64,
        /// Whether the glyph is a color emoji.
        is_emoji: bool,
    },
    /// A rasterized vector image.
    Svg {
        /// Vector rendering identity.
        svg_id: u64,
    },
    /// One frame of a raster image.
    Image {
        /// Image identity.
        image_id: u64,
        /// Frame index.
        frame_index: usize,
    },
}

impl AtlasKey {
    /// The texture kind holding the key's tile: color emoji and images are polychrome, other
    /// glyphs and vector images monochrome.
    pub open spec fn kind(self) -> AtlasTextureKind {
        match self {
            AtlasKey::Glyph { is_emoji, .. } => if is_emoji {
                AtlasTextureKind::Polychrome
            } else {
                AtlasTextureKind::Monochrome
            },
            AtlasKey::Svg { .. } => AtlasTextureKind::Monochrome,
            AtlasKey::Image { .. } => AtlasTextureKind::Polychrome,
        }
    }

    /// The texture kind holding the key's tile.
    pub fn texture_kind(&self) -> (kind: AtlasTextureKind)
        ensures
            kind == self.kind(),
    {
        match self {
            AtlasKey::Glyph { is_emoji, .. } => if *is_emoji {
                AtlasTextureKind::Polychrome
            } else {
                AtlasTextureKind::Monochrome
            },
            AtlasKey::Svg { .. } => AtlasTextureKind::Monochrome,
            AtlasKey::Image { .. } => AtlasTextureKind::Polychrome,
        }
    }
}

/// The tiles hold the key.
pub open spec fn holds_key(tiles: Seq<(AtlasKey, AtlasTile)>, key: AtlasKey) -> bool {
    exists|i: int| 0 <= i < tiles.len() && (#[trigger] tiles[i]).0 == key
}

/// No key occurs twice.
pub open spec fn distinct_keys(tiles: Seq<(AtlasKey, AtlasTile)>) -> bool {
    forall|i: int, j: int| 0 <= i < j < tiles.len() ==> (#[trigger] tiles[i]).0 != (#[trigger] tiles[j]).0
}

/// The tile cached for a key.
pub open spec fn tile_of(tiles: Seq<(AtlasKey, AtlasTile)>, key: AtlasKey) -> Option<AtlasTile> {
    if holds_key(tiles, key) {
        Some(tiles[choose|i: int| 0 <= i < tiles.len() && (#[trigger] tiles[i]).0 == key].1)
    } else {
        None
    }
}

/// The position of a key in distinct tiles.
proof fn lemma_key_position(tiles: Seq<(AtlasKey, AtlasTile)>, key: AtlasKey, i: int)
    requires
        distinct_keys(tiles),
        0 <= i < tiles.len(),
        tiles[i].0 == key,
    ensures
        holds_key(tiles, key),
        tile_of(tiles, key) == Some(tiles[i].1),
        (choose|j: int| 0 <= j < tiles.len() && (#[trigger] tiles[j]).0 == key) == i,
{
    let j = choose|j: int| 0 <= j < tiles.len() && (#[trigger] tiles[j]).0 == key;
    if j != i {
        if j < i {
            assert(tiles[j].0 != tiles[i].0);
        } else {
            assert(tiles[i].0 != tiles[j].0);
        }
    }
}

/// The position of a key in tiles where no key occurs twice.
fn find_tile(tiles: &Vec<(AtlasKey, AtlasTile)>, key: &AtlasKey) -> (position: Option<usize>)
    requires
        distinct_keys(tiles@),
    ensures
        match position {
            Some(position) => position < tiles@.len() && tiles@[position as int].0 == *key
                && key_position(tiles@, *key) == position && tile_of(tiles@, *key) == Some(
                tiles@[position as int].1,
            ),
            None => !holds_key(tiles@, *key) && tile_of(tiles@, *key) is None,
        },
{
    let mut index: usize = 0;
    while index < tiles.len()
        invariant
            distinct_keys(tiles@),
            index <= tiles@.len(),
            forall|j: int| 0 <= j < index ==> (#[trigger] tiles@[j]).0 != *key,
        decreases tiles@.len() - index,
    {
        if tiles[index].0 == *key {
            proof {
                lemma_key_position(tiles@, *key, index as int);
            }
            return Some(index);
        }
        index = index + 1;
    }
    None
}

/// Cached atlas tiles and the textures of both kinds holding them.
pub struct AtlasState {
    monochrome_textures: AtlasTextureList,
    polychrome_textures: AtlasTextureList,
    tiles_by_key: Vec<(AtlasKey, AtlasTile)>,
}

impl AtlasState {
    /// The list of textures of a kind.
    pub closed spec fn list(&self, kind: AtlasTextureKind) -> AtlasTextureList {
        match kind {
            AtlasTextureKind::Monochrome => self.monochrome_textures,
            AtlasTextureKind::Polychrome => self.polychrome_textures,
        }
    }

    /// The cached tiles, in insertion order.
    pub closed spec fn tiles(&self) -> Seq<(AtlasKey, AtlasTile)> {
        self.tiles_by_key@
    }


    /// An empty atlas.
    pub fn new() -> (state: Self)
        ensures
            state.wf(),
            state.tiles() == Seq::<(AtlasKey, AtlasTile)>::empty(),
            state.list(AtlasTextureKind::Monochrome).slots().len() == 0,
            state.list(AtlasTextureKind::Polychrome).slots().len() == 0,
    {
        AtlasState {
            monochrome_textures: AtlasTextureList::new(),
            polychrome_textures: AtlasTextureList::new(),
            tiles_by_key: Vec::new(),
        }
    }

    /// The position of a key in the cached tiles.
    fn find_key(&self, key: &AtlasKey) -> (position: Option<usize>)
        requires
            self.wf(),
        ensures
            match position {
                Some(position) => position < self.tiles().len() && self.tiles()[position as int].0
                    == *key && key_position(self.tiles(), *key) == position && tile_of(
                    self.tiles(),
                    *key,
                ) == Some(self.tiles()[position as int].1),
                None => !holds_key(self.tiles(), *key) && tile_of(self.tiles(), *key) is None,
            },
    {
        find_tile(&self.tiles_by_key, key)
    }

    /// The tile cached for a key.
    pub fn tile(&self, key: &AtlasKey) -> (tile: Option<AtlasTile>)
        requires
            self.wf(),
        ensures
            tile == tile_of(self.tiles(), *key),
    {
        match self.find_key(key) {
            Some(position) => Some(self.tiles_by_key[position].1),
            None => None,
        }
    }
}

/// An allocation or upload left a texture's identity, size, format, mirror, dirty region and
/// counters as they were.
pub open spec fn texture_kept(before: DirectXAtlasTexture, after: DirectXAtlasTexture) -> bool {
    &&& after.texture_id() == before.texture_id()
    &&& after.texture_size() == before.texture_size()
    &&& after.texel_bytes() == before.texel_bytes()
    &&& after.mirror() == before.mirror()
    &&& after.dirty() == before.dirty()
    &&& after.counters() == before.counters()
}

/// The same slots hold textures, each kept, and only the `granted` one (if any) gained one live
/// key.
pub open spec fn slots_kept(
    before: Seq<Option<DirectXAtlasTexture>>,
    after: Seq<Option<DirectXAtlasTexture>>,
    granted: Option<int>,
) -> bool {
    &&& after.len() == before.len()
    &&& forall|i: int|
        #![trigger after[i]]
        0 <= i < before.len() ==> (before[i] is Some <==> after[i] is Some) && (before[i] is Some
            ==> texture_kept(before[i]->Some_0, after[i]->Some_0) && after[i]->Some_0.live_keys()
            == before[i]->Some_0.live_keys() + (if granted == Some(i) {
            1int
        } else {
            0int
        }))
}

/// A tile granted in a texture of the list: it has the requested size and lies in that texture.
pub open spec fn granted_in(
    slots: Seq<Option<DirectXAtlasTexture>>,
    tile: AtlasTile,
    kind: AtlasTextureKind,
    size: Size<DevicePixels>,
) -> bool {
    let index = tile.texture_id.index as int;
    &&& tile.texture_id.kind == kind
    &&& 0 <= index < slots.len()
    &&& slots[index] is Some
    &&& tile.bounds.size == size
    &&& tile.padding == 0
    &&& within_texture(tile.bounds, slots[index]->Some_0.texture_size()) || size.width.0 <= 0
        || size.height.0 <= 0
}

/// The texture has no tile allocated yet, room for another live key, and a non-empty `size`
/// fits it: it grants that size.
pub open spec fn unused_fit(texture: DirectXAtlasTexture, size: Size<DevicePixels>) -> bool {
    &&& texture.unused()
    &&& texture.live_keys() < u32::MAX
    &&& 0 < size.width.0 <= texture.texture_size().width.0
    &&& 0 < size.height.0 <= texture.texture_size().height.0
}

/// Some slot holds a texture that surely grants `size`.
pub open spec fn holds_unused_fit(slots: Seq<Option<DirectXAtlasTexture>>, size: Size<DevicePixels>) -> bool {
    exists|i: int| 0 <= i < slots.len() && (#[trigger] slots[i]) is Some && unused_fit(slots[i]->Some_0, size)
}

/// A non-empty size within the 16384 by 16384 device maximum.
pub open spec fn size_fits_device(size: Size<DevicePixels>) -> bool {
    0 < size.width.0 <= 16384 && 0 < size.height.0 <= 16384
}

impl AtlasTextureList {
    /// Tries the textures from the most recent to the oldest and allocates in the first that
    /// grants the tile; a texture with no tile allocated yet that fits the size grants it.
    fn allocate_existing(&mut self, kind: AtlasTextureKind, size: Size<DevicePixels>) -> (tile:
        Option<AtlasTile>)
        requires
            old(self).wf(kind),
        ensures
            final(self).wf(kind),
            final(self).free() == old(self).free(),
            match tile {
                Some(tile) => granted_in(final(self).slots(), tile, kind, size) && slots_kept(
                    old(self).slots(),
                    final(self).slots(),
                    Some(tile.texture_id.index as int),
                ) && size_fits_device(size),
                None => slots_kept(old(self).slots(), final(self).slots(), None),
            },
            holds_unused_fit(old(self).slots(), size) ==> tile is Some,
    {
        let mut index = self.textures.len();
        while index > 0
            invariant
                index <= self.slots().len(),
                self.wf(kind),
                self.free() == old(self).free(),
                slots_kept(old(self).slots(), self.slots(), None),
                forall|i: int| 0 <= i < index ==> #[trigger] self.slots()[i] == old(self).slots()[i],
                forall|i: int|
                    index <= i < old(self).slots().len() && (#[trigger] old(self).slots()[i]) is Some
                        ==> !unused_fit(old(self).slots()[i]->Some_0, size),
            decreases index,
        {
            index = index - 1;
            let ghost before = *self;
            let granted = match &mut self.textures[index] {
                Some(texture) => texture.allocate(size),
                None => None,
            };
            proof {
                assert(before.slots()[index as int] == old(self).slots()[index as int]);
                assert forall|i: int| 0 <= i < index implies #[trigger] self.slots()[i] == old(
                    self,
                ).slots()[i] by {
                    assert(before.slots()[i] == old(self).slots()[i]);
                }
                if granted is Some {
                    before.slots()[index as int]->Some_0.lemma_size_bounded();
                }
            }
            if granted.is_some() {
                return granted;
            }
        }
        proof {
            if holds_unused_fit(old(self).slots(), size) {
                let i = choose|i: int|
                    0 <= i < old(self).slots().len() && (#[trigger] old(self).slots()[i]) is Some
                        && unused_fit(old(self).slots()[i]->Some_0, size);
                assert(!unused_fit(old(self).slots()[i]->Some_0, size));
            }
        }
        None
    }
}
/// A texture newly made for the list: its identity, a size fitted to `min_size`, zero-filled,
/// nothing dirty, no uploads or flushes counted.
pub open spec fn fresh_texture(
    texture: DirectXAtlasTexture,
    id: AtlasTextureId,
    min_size: Size<DevicePixels>,
) -> bool {
    &&& texture.wf()
    &&& texture.texture_id() == id
    &&& texture.texture_size().width.0 == (if min_size.width.0 < 1024 {
        1024
    } else if min_size.width.0 > 16384 {
        16384
    } else {
        min_size.width.0
    })
    &&& texture.texture_size().height.0 == (if min_size.height.0 < 1024 {
        1024
    } else if min_size.height.0 > 16384 {
        16384
    } else {
        min_size.height.0
    })
    &&& texture.texel_bytes() == kind_bytes(id.kind)
    &&& texture.dirty() is None
    &&& texture.counters() == (0u64, 0u64, 0u64, 0u64)
    &&& forall|i: int| 0 <= i < texture.mirror().len() ==> texture.mirror()[i] == 0
}

/// The slot a new texture of the list takes: the most recently freed one, else a new one at the
/// end.
pub open spec fn next_slot(list: AtlasTextureList) -> int {
    if list.free().len() > 0 {
        list.free().last() as int
    } else {
        list.slots().len() as int
    }
}

/// The list after adding one texture fitted to `min_size` in `next_slot(before)`, now holding
/// `live` keys; every other slot holds the texture it held, kept.
pub open spec fn texture_added(
    before: AtlasTextureList,
    after: AtlasTextureList,
    kind: AtlasTextureKind,
    min_size: Size<DevicePixels>,
    live: int,
) -> bool {
    let index = next_slot(before);
    &&& if before.free().len() > 0 {
        &&& after.free() == before.free().drop_last()
        &&& after.slots().len() == before.slots().len()
    } else {
        &&& after.free() == before.free()
        &&& after.slots().len() == before.slots().len() + 1
    }
    &&& after.slots()[index] is Some
    &&& fresh_texture(after.slots()[index]->Some_0, AtlasTextureId { index: index as u32, kind }, min_size)
    &&& after.slots()[index]->Some_0.live_keys() == live
    &&& forall|i: int|
        #![trigger after.slots()[i]]
        0 <= i < before.slots().len() && i != index ==> (before.slots()[i] is Some
            <==> after.slots()[i] is Some) && (before.slots()[i] is Some ==> texture_kept(
            before.slots()[i]->Some_0,
            after.slots()[i]->Some_0,
        ) && after.slots()[i]->Some_0.live_keys() == before.slots()[i]->Some_0.live_keys())
}

impl AtlasTextureList {
    /// Adds a texture of the list's kind fitted to `min_size` in the next slot and returns that
    /// slot; `None` only when every texture index is taken.
    fn push_texture(&mut self, kind: AtlasTextureKind, min_size: Size<DevicePixels>) -> (index:
        Option<usize>)
        requires
            old(self).wf(kind),
        ensures
            final(self).wf(kind),
            match index {
                Some(index) => index == next_slot(*old(self)) && texture_added(
                    *old(self),
                    *final(self),
                    kind,
                    min_size,
                    0,
                ) && final(self).slots()[index as int]->Some_0.unused(),
                None => final(self).slots() == old(self).slots() && final(self).free() == old(
                    self,
                ).free() && old(self).free().len() == 0 && old(self).slots().len() == u32::MAX,
            },
    {
        if self.free_list.len() == 0 && self.textures.len() >= 0xffff_ffff {
            return None;
        }
        let index = match self.free_list.pop() {
            Some(index) => index,
            None => self.textures.len(),
        };
        let texture = DirectXAtlasTexture::new(AtlasTextureId { index: index as u32, kind }, min_size);
        if index < self.textures.len() {
            self.textures.set(index, Some(texture));
        } else {
            self.textures.push(Some(texture));
        }
        proof {
            assert forall|j: int|
                0 <= j < self.free().len() implies (#[trigger] self.free()[j]) < self.slots().len()
                    && self.slots()[self.free()[j] as int] is None by {
                assert(old(self).free()[j] == self.free()[j]);
                if self.free()[j] == index {
                    assert(old(self).free()[j] == old(self).free()[old(self).free().len() - 1]);
                }
            }
        }
        Some(index)
    }

    /// Allocates a tile in the most recent texture that grants it; when none does, adds a
    /// texture fitted to the size and allocates there. A texture once added stays, even when it
    /// refuses the tile. A tile is granted only for a non-empty size within the device maximum,
    /// and always for such a size while a texture can still be added or some texture with no
    /// tile yet fits it.
    pub fn allocate(&mut self, kind: AtlasTextureKind, size: Size<DevicePixels>) -> (tile: Option<
        AtlasTile,
    >)
        requires
            old(self).wf(kind),
        ensures
            final(self).wf(kind),
            match tile {
                Some(tile) => granted_in(final(self).slots(), tile, kind, size) && ((
                final(self).free() == old(self).free() && slots_kept(
                    old(self).slots(),
                    final(self).slots(),
                    Some(tile.texture_id.index as int),
                )) || (tile.texture_id.index == next_slot(*old(self)) && texture_added(
                    *old(self),
                    *final(self),
                    kind,
                    size,
                    1,
                ))),
                None => (final(self).free() == old(self).free() && slots_kept(
                    old(self).slots(),
                    final(self).slots(),
                    None,
                )) || texture_added(*old(self), *final(self), kind, size, 0),
            },
            tile is Some ==> size_fits_device(size),
            size_fits_device(size) && (old(self).free().len() > 0 || old(self).slots().len()
                < u32::MAX) ==> tile is Some,
            holds_unused_fit(old(self).slots(), size) ==> tile is Some,
    {
        let existing = self.allocate_existing(kind, size);
        if existing.is_some() {
            return existing;
        }
        let ghost tried = *self;
        match self.push_texture(kind, size) {
            None => None,
            Some(index) => {
                let ghost pushed = *self;
                let granted = match &mut self.textures[index] {
                    Some(texture) => texture.allocate(size),
                    None => None,
                };
                proof {
                    pushed.slots()[index as int]->Some_0.lemma_size_bounded();
                    assert(self.slots()[index as int] is Some);
                    assert forall|i: int|
                        0 <= i < self.slots().len() && i != index implies #[trigger] self.slots()[i]
                        == pushed.slots()[i] by {}
                    assert forall|j: int|
                        0 <= j < self.free().len() implies (#[trigger] self.free()[j]) < self.slots().len()
                            && self.slots()[self.free()[j] as int] is None by {
                        assert(pushed.slots()[pushed.free()[j] as int] is None);
                    }
                }
                granted
            },
        }
    }
}

/// The texture in a slot after an upload into it: the same identity, size, texel width and live
/// keys, with the upload's effect on mirror, dirty region and counters.
pub open spec fn upload_applied(
    before: DirectXAtlasTexture,
    after: DirectXAtlasTexture,
    bounds: Bounds<DevicePixels>,
    bytes: Seq<u8>,
) -> bool {
    &&& after.texture_id() == before.texture_id()
    &&& after.texture_size() == before.texture_size()
    &&& after.texel_bytes() == before.texel_bytes()
    &&& after.live_keys() == before.live_keys()
    &&& upload_outcome(
        before.mirror(),
        before.dirty(),
        before.counters(),
        before.texture_size(),
        before.texel_bytes(),
        bounds,
        bytes,
        after,
    )
}

/// Only slot `index` of the list changed, and it still holds a texture; the free slots are as
/// they were.
pub open spec fn only_slot_changed(before: AtlasTextureList, after: AtlasTextureList, index: int) -> bool {
    &&& after.free() == before.free()
    &&& after.slots().len() == before.slots().len()
    &&& after.slots()[index] is Some
    &&& forall|i: int|
        0 <= i < before.slots().len() && i != index ==> #[trigger] after.slots()[i] == before.slots()[i]
}

/// The list after releasing one live key of the texture in slot `index`: the texture is dropped
/// and its slot freed when that was its last key, else it holds one key fewer.
pub open spec fn key_released(before: AtlasTextureList, after: AtlasTextureList, index: int) -> bool {
    let prior = before.slots()[index]->Some_0;
    &&& after.slots().len() == before.slots().len()
    &&& forall|i: int|
        0 <= i < before.slots().len() && i != index ==> #[trigger] after.slots()[i] == before.slots()[i]
    &&& if prior.live_keys() == 1 {
        &&& after.slots()[index] is None
        &&& after.free() == before.free().push(index as usize)
    } else {
        &&& after.free() == before.free()
        &&& after.slots()[index] is Some
        &&& texture_kept(prior, after.slots()[index]->Some_0)
        &&& after.slots()[index]->Some_0.live_keys() == prior.live_keys() - 1
    }
}

impl AtlasTextureList {
    /// Uploads `bytes` into `bounds` of the texture in slot `index`.
    fn upload_at(&mut self, kind: AtlasTextureKind, index: usize, bounds: Bounds<DevicePixels>, bytes: &[u8])
        requires
            old(self).wf(kind),
            index < old(self).slots().len(),
            old(self).slots()[index as int] is Some,
        ensures
            final(self).wf(kind),
            only_slot_changed(*old(self), *final(self), index as int),
            upload_applied(
                old(self).slots()[index as int]->Some_0,
                final(self).slots()[index as int]->Some_0,
                bounds,
                bytes@,
            ),
    {
        match &mut self.textures[index] {
            Some(texture) => texture.upload(bounds, bytes),
            None => {},
        }
        proof {
            assert forall|j: int|
                0 <= j < self.free().len() implies (#[trigger] self.free()[j]) < self.slots().len()
                    && self.slots()[self.free()[j] as int] is None by {
                assert(old(self).slots()[old(self).free()[j] as int] is None);
            }
        }
    }

    /// Flushes the texture in slot `index`.
    fn flush_at(&mut self, kind: AtlasTextureKind, index: usize) -> (result: Option<AtlasFlushRegion>)
        requires
            old(self).wf(kind),
            index < old(self).slots().len(),
            old(self).slots()[index as int] is Some,
        ensures
            final(self).wf(kind),
            only_slot_changed(*old(self), *final(self), index as int),
            flush_outcome(
                old(self).slots()[index as int]->Some_0,
                final(self).slots()[index as int]->Some_0,
                result,
            ),
    {
        let result = match &mut self.textures[index] {
            Some(texture) => texture.flush(),
            None => None,
        };
        proof {
            assert forall|j: int|
                0 <= j < self.free().len() implies (#[trigger] self.free()[j]) < self.slots().len()
                    && self.slots()[self.free()[j] as int] is None by {
                assert(old(self).slots()[old(self).free()[j] as int] is None);
            }
        }
        result
    }

    /// Releases one live key of the texture in slot `index`, freeing the slot when no key is
    /// left; returns whether it was freed.
    fn release(&mut self, kind: AtlasTextureKind, index: usize) -> (freed: bool)
        requires
            old(self).wf(kind),
            index < old(self).slots().len(),
            old(self).slots()[index as int] is Some,
            old(self).slots()[index as int]->Some_0.live_keys() > 0,
        ensures
            final(self).wf(kind),
            key_released(*old(self), *final(self), index as int),
            freed == (old(self).slots()[index as int]->Some_0.live_keys() == 1),
    {
        let freed = match &mut self.textures[index] {
            Some(texture) => {
                texture.decrement_ref_count();
                texture.is_unreferenced()
            },
            None => false,
        };
        if freed {
            self.textures.set(index, None);
            self.free_list.push(index);
        }
        proof {
            assert forall|j: int|
                0 <= j < self.free().len() implies (#[trigger] self.free()[j]) < self.slots().len()
                    && self.slots()[self.free()[j] as int] is None by {
                if j < old(self).free().len() {
                    assert(old(self).free()[j] == self.free()[j]);
                    assert(old(self).slots()[old(self).free()[j] as int] is None);
                }
            }
            if freed {
                assert forall|a: int, b: int|
                    0 <= a < b < self.free().len() implies self.free()[a] != self.free()[b] by {
                    if b == self.free().len() - 1 {
                        assert(old(self).slots()[old(self).free()[a] as int] is None);
                    } else {
                        assert(old(self).free()[a] == self.free()[a]);
                        assert(old(self).free()[b] == self.free()[b]);
                    }
                }
            }
        }
        freed
    }
}

/// How many cached tiles lie in the texture `id`.
pub open spec fn tile_count(tiles: Seq<(AtlasKey, AtlasTile)>, id: AtlasTextureId) -> nat
    decreases tiles.len(),
{
    if tiles.len() == 0 {
        0
    } else {
        tile_count(tiles.drop_last(), id) + if tiles.last().1.texture_id == id {
            1nat
        } else {
            0nat
        }
    }
}

proof fn lemma_count_push(tiles: Seq<(AtlasKey, AtlasTile)>, entry: (AtlasKey, AtlasTile), id: AtlasTextureId)
    ensures
        tile_count(tiles.push(entry), id) == tile_count(tiles, id) + if entry.1.texture_id == id {
            1nat
        } else {
            0nat
        },
{
    assert(tiles.push(entry).drop_last() =~= tiles);
}

proof fn lemma_count_remove(tiles: Seq<(AtlasKey, AtlasTile)>, i: int, id: AtlasTextureId)
    requires
        0 <= i < tiles.len(),
    ensures
        tile_count(tiles.remove(i), id) + (if tiles[i].1.texture_id == id {
            1nat
        } else {
            0nat
        }) == tile_count(tiles, id),
    decreases tiles.len(),
{
    if i == tiles.len() - 1 {
        assert(tiles.remove(i) =~= tiles.drop_last());
    } else {
        lemma_count_remove(tiles.drop_last(), i, id);
        assert(tiles.remove(i).drop_last() =~= tiles.drop_last().remove(i));
        assert(tiles.remove(i).last() == tiles.last());
    }
}

proof fn lemma_count_absent(tiles: Seq<(AtlasKey, AtlasTile)>, id: AtlasTextureId)
    requires
        forall|i: int| 0 <= i < tiles.len() ==> (#[trigger] tiles[i]).1.texture_id != id,
    ensures
        tile_count(tiles, id) == 0,
    decreases tiles.len(),
{
    if tiles.len() > 0 {
        assert(tiles.last() == tiles[tiles.len() - 1]);
        lemma_count_absent(tiles.drop_last(), id);
    }
}

proof fn lemma_count_present(tiles: Seq<(AtlasKey, AtlasTile)>, i: int, id: AtlasTextureId)
    requires
        0 <= i < tiles.len(),
        tiles[i].1.texture_id == id,
    ensures
        tile_count(tiles, id) > 0,
{
    lemma_count_remove(tiles, i, id);
}

/// The other texture kind.
pub open spec fn other_kind(kind: AtlasTextureKind) -> AtlasTextureKind {
    match kind {
        AtlasTextureKind::Monochrome => AtlasTextureKind::Polychrome,
        AtlasTextureKind::Polychrome => AtlasTextureKind::Monochrome,
    }
}

/// A texture extent fitted between the default 1024 and the device maximum 16384.
pub open spec fn fitted_extent(requested: i32) -> i32 {
    if requested < 1024 {
        1024
    } else if requested > 16384 {
        16384
    } else {
        requested
    }
}

/// The list after caching a tile of `size` with `bytes`: the tile's texture gained the key and
/// received the upload; it is the texture that held the slot, or a texture added for the tile
/// in the next slot, zero-filled before the upload. Every other texture is kept.
pub open spec fn tile_inserted(
    before: AtlasTextureList,
    after: AtlasTextureList,
    kind: AtlasTextureKind,
    size: Size<DevicePixels>,
    tile: AtlasTile,
    bytes: Seq<u8>,
) -> bool {
    let index = tile.texture_id.index as int;
    let texture = after.slots()[index]->Some_0;
    &&& granted_in(after.slots(), tile, kind, size)
    &&& if index < before.slots().len() && before.slots()[index] is Some {
        let prior = before.slots()[index]->Some_0;
        &&& after.free() == before.free()
        &&& after.slots().len() == before.slots().len()
        &&& texture.live_keys() == prior.live_keys() + 1
        &&& texture.texture_id() == prior.texture_id()
        &&& texture.texture_size() == prior.texture_size()
        &&& texture.texel_bytes() == prior.texel_bytes()
        &&& upload_outcome(
            prior.mirror(),
            prior.dirty(),
            prior.counters(),
            prior.texture_size(),
            prior.texel_bytes(),
            tile.bounds,
            bytes,
            texture,
        )
    } else {
        &&& index == next_slot(before)
        &&& if before.free().len() > 0 {
            &&& after.free() == before.free().drop_last()
            &&& after.slots().len() == before.slots().len()
        } else {
            &&& after.free() == before.free()
            &&& after.slots().len() == before.slots().len() + 1
        }
        &&& texture.live_keys() == 1
        &&& texture.texture_id() == (AtlasTextureId { index: index as u32, kind })
        &&& texture.texture_size().width.0 == fitted_extent(size.width.0)
        &&& texture.texture_size().height.0 == fitted_extent(size.height.0)
        &&& texture.texel_bytes() == kind_bytes(kind)
        &&& upload_outcome(
            Seq::new(texture.mirror().len(), |i: int| 0u8),
            None,
            (0u64, 0u64, 0u64, 0u64),
            texture.texture_size(),
            texture.texel_bytes(),
            tile.bounds,
            bytes,
            texture,
        )
    }
    &&& forall|i: int|
        #![trigger after.slots()[i]]
        0 <= i < before.slots().len() && i != index ==> (before.slots()[i] is Some
            <==> after.slots()[i] is Some) && (before.slots()[i] is Some ==> texture_kept(
            before.slots()[i]->Some_0,
            after.slots()[i]->Some_0,
        ) && after.slots()[i]->Some_0.live_keys() == before.slots()[i]->Some_0.live_keys())
}

/// The position of a held key.
pub open spec fn key_position(tiles: Seq<(AtlasKey, AtlasTile)>, key: AtlasKey) -> int {
    choose|i: int| 0 <= i < tiles.len() && (#[trigger] tiles[i]).0 == key
}

impl AtlasState {
    /// The tile lies in a texture of its key's kind that the atlas holds.
    pub open spec fn tile_placed(&self, key: AtlasKey, tile: AtlasTile) -> bool {
        let slots = self.list(tile.texture_id.kind).slots();
        &&& tile.texture_id.kind == key.kind()
        &&& (tile.texture_id.index as int) < slots.len()
        &&& slots[tile.texture_id.index as int] is Some
    }

    /// Each held texture of the kind counts exactly the cached tiles that lie in it as live keys.
    pub open spec fn keys_counted(&self, kind: AtlasTextureKind) -> bool {
        forall|i: int|
            0 <= i < self.list(kind).slots().len() && (#[trigger] self.list(kind).slots()[i]) is Some
                ==> self.list(kind).slots()[i]->Some_0.live_keys() == tile_count(
                self.tiles(),
                AtlasTextureId { index: i as u32, kind },
            )
    }

    /// Tiles and textures agree: both lists are well formed, no key is cached twice, every tile
    /// lies in a held texture of its key's kind, and every texture's live-key count is the number
    /// of cached tiles in it.
    pub open spec fn wf(&self) -> bool {
        &&& self.list(AtlasTextureKind::Monochrome).wf(AtlasTextureKind::Monochrome)
        &&& self.list(AtlasTextureKind::Polychrome).wf(AtlasTextureKind::Polychrome)
        &&& distinct_keys(self.tiles())
        &&& forall|i: int| 0 <= i < self.tiles().len() ==> self.tile_placed(
            (#[trigger] self.tiles()[i]).0,
            self.tiles()[i].1,
        )
        &&& self.keys_counted(AtlasTextureKind::Monochrome)
        &&& self.keys_counted(AtlasTextureKind::Polychrome)
    }
}

impl AtlasState {
    /// Caches a tile for `key`: allocates `size` in a texture of the key's kind (adding a
    /// texture when none grants it), uploads `bytes` into the tile and records it. `None` when
    /// no tile could be allocated; the key is then not cached. A tile is cached only for a
    /// non-empty size within the device maximum, and always for such a size while a texture of
    /// the kind can still be added or some texture of the kind with no tile yet fits it.
    pub fn insert(&mut self, key: AtlasKey, size: Size<DevicePixels>, bytes: &[u8]) -> (tile: Option<
        AtlasTile,
    >)
        requires
            old(self).wf(),
            !holds_key(old(self).tiles(), key),
        ensures
            final(self).wf(),
            final(self).list(other_kind(key.kind())) == old(self).list(other_kind(key.kind())),
            match tile {
                Some(tile) => final(self).tiles() == old(self).tiles().push((key, tile))
                    && tile_of(final(self).tiles(), key) == Some(tile) && tile_inserted(
                    old(self).list(key.kind()),
                    final(self).list(key.kind()),
                    key.kind(),
                    size,
                    tile,
                    bytes@,
                ),
                None => final(self).tiles() == old(self).tiles() && ((final(self).list(
                    key.kind(),
                ).free() == old(self).list(key.kind()).free() && slots_kept(
                    old(self).list(key.kind()).slots(),
                    final(self).list(key.kind()).slots(),
                    None,
                )) || texture_added(
                    old(self).list(key.kind()),
                    final(self).list(key.kind()),
                    key.kind(),
                    size,
                    0,
                )),
            },
            tile is Some ==> size_fits_device(size),
            size_fits_device(size) && (old(self).list(key.kind()).free().len() > 0 || old(
                self,
            ).list(key.kind()).slots().len() < u32::MAX) ==> tile is Some,
            holds_unused_fit(old(self).list(key.kind()).slots(), size) ==> tile is Some,
    {
        let kind = key.texture_kind();
        let ghost before = *old(self);
        let ghost list_before = old(self).list(kind);
        let allocated = match kind {
            AtlasTextureKind::Monochrome => self.monochrome_textures.allocate(kind, size),
            AtlasTextureKind::Polychrome => self.polychrome_textures.allocate(kind, size),
        };
        let ghost list_mid = self.list(kind);
        let tile = match allocated {
            None => {
                proof {
                    self.lemma_keys_kept(before, kind, size);
                }
                return None;
            },
            Some(tile) => tile,
        };
        let index = tile.texture_id.index as usize;
        match kind {
            AtlasTextureKind::Monochrome => self.monochrome_textures.upload_at(kind, index, tile.bounds, bytes),
            AtlasTextureKind::Polychrome => self.polychrome_textures.upload_at(kind, index, tile.bounds, bytes),
        }
        let ghost list_after = self.list(kind);
        self.tiles_by_key.push((key, tile));
        proof {
            let prior_held = (index as int) < list_before.slots().len()
                && list_before.slots()[index as int] is Some;
            let next = next_slot(list_before);
            if list_before.free().len() > 0 {
                assert(list_before.free()[list_before.free().len() - 1] == list_before.free().last());
                assert(list_before.slots()[next] is None);
            }
            if prior_held {
                assert(index as int != next);
                assert(list_mid.free() == list_before.free());
                assert(slots_kept(list_before.slots(), list_mid.slots(), Some(index as int)));
            } else {
                assert(texture_added(list_before, list_mid, kind, size, 1));
                let mid_texture = list_mid.slots()[index as int]->Some_0;
                assert(mid_texture.mirror() =~= Seq::new(mid_texture.mirror().len(), |i: int| 0u8));
            }
            assert forall|i: int|
                0 <= i < list_before.slots().len() && i != index implies #[trigger] list_after.slots()[i]
                == list_mid.slots()[i] by {}
            assert(self.tiles() =~= before.tiles().push((key, tile)));
            assert(tile_inserted(list_before, list_after, kind, size, tile, bytes@));
            self.lemma_inserted_valid(before, key, size, tile, bytes@);
            lemma_key_position(self.tiles(), key, before.tiles().len() as int);
        }
        Some(tile)
    }
}

impl AtlasState {
    /// A failed allocation keeps the atlas consistent: the tiles are unchanged and the textures
    /// that hold tiles keep their live keys.
    proof fn lemma_keys_kept(&self, before: AtlasState, kind: AtlasTextureKind, size: Size<DevicePixels>)
        requires
            before.wf(),
            self.tiles() == before.tiles(),
            self.list(other_kind(kind)) == before.list(other_kind(kind)),
            self.list(kind).wf(kind),
            (self.list(kind).free() == before.list(kind).free() && slots_kept(
                before.list(kind).slots(),
                self.list(kind).slots(),
                None,
            )) || texture_added(before.list(kind), self.list(kind), kind, size, 0),
        ensures
            self.wf(),
    {
        assert(self.list(AtlasTextureKind::Monochrome).wf(AtlasTextureKind::Monochrome));
        assert(self.list(AtlasTextureKind::Polychrome).wf(AtlasTextureKind::Polychrome));
        let slots = self.list(kind).slots();
        let prior = before.list(kind).slots();
        assert forall|i: int| 0 <= i < self.tiles().len() implies self.tile_placed(
            (#[trigger] self.tiles()[i]).0,
            self.tiles()[i].1,
        ) by {
            assert(before.tile_placed(before.tiles()[i].0, before.tiles()[i].1));
            let t = self.tiles()[i].1;
            if t.texture_id.kind == kind {
                assert(prior[t.texture_id.index as int] is Some);
                assert(slots[t.texture_id.index as int] is Some);
            }
        }
        assert forall|i: int|
            0 <= i < slots.len() && (#[trigger] slots[i]) is Some implies slots[i]->Some_0.live_keys()
                == tile_count(self.tiles(), AtlasTextureId { index: i as u32, kind }) by {
            if i < prior.len() && prior[i] is Some {
                assert(before.list(kind).slots()[i] is Some);
            } else {
                assert forall|j: int| 0 <= j < before.tiles().len() implies (
                    #[trigger] before.tiles()[j]).1.texture_id != (AtlasTextureId { index: i as u32, kind }) by {
                    assert(before.tile_placed(before.tiles()[j].0, before.tiles()[j].1));
                }
                lemma_count_absent(before.tiles(), AtlasTextureId { index: i as u32, kind });
            }
        }
        assert(self.keys_counted(kind));
        assert(self.keys_counted(other_kind(kind)));
        assert(kind == AtlasTextureKind::Monochrome || kind == AtlasTextureKind::Polychrome);
    }

    /// Caching a tile with its upload keeps the atlas consistent.
    proof fn lemma_inserted_valid(
        &self,
        before: AtlasState,
        key: AtlasKey,
        size: Size<DevicePixels>,
        tile: AtlasTile,
        bytes: Seq<u8>,
    )
        requires
            before.wf(),
            !holds_key(before.tiles(), key),
            self.tiles() == before.tiles().push((key, tile)),
            self.list(other_kind(key.kind())) == before.list(other_kind(key.kind())),
            self.list(key.kind()).wf(key.kind()),
            tile_inserted(before.list(key.kind()), self.list(key.kind()), key.kind(), size, tile, bytes),
        ensures
            self.wf(),
    {
        let kind = key.kind();
        let slots = self.list(kind).slots();
        let prior = before.list(kind).slots();
        let index = tile.texture_id.index as int;
        assert(self.list(AtlasTextureKind::Monochrome).wf(AtlasTextureKind::Monochrome));
        assert(self.list(AtlasTextureKind::Polychrome).wf(AtlasTextureKind::Polychrome));
        assert forall|a: int, b: int| 0 <= a < b < self.tiles().len() implies (
            #[trigger] self.tiles()[a]).0 != (#[trigger] self.tiles()[b]).0 by {
            if b == self.tiles().len() - 1 {
                assert(self.tiles()[a] == before.tiles()[a]);
            } else {
                assert(self.tiles()[a] == before.tiles()[a]);
                assert(self.tiles()[b] == before.tiles()[b]);
            }
        }
        assert forall|i: int| 0 <= i < self.tiles().len() implies self.tile_placed(
            (#[trigger] self.tiles()[i]).0,
            self.tiles()[i].1,
        ) by {
            if i < before.tiles().len() {
                assert(self.tiles()[i] == before.tiles()[i]);
                assert(before.tile_placed(before.tiles()[i].0, before.tiles()[i].1));
                let t = self.tiles()[i].1;
                if t.texture_id.kind == kind && t.texture_id.index as int != index {
                    assert(prior[t.texture_id.index as int] is Some);
                    assert(slots[t.texture_id.index as int] is Some);
                }
            }
        }
        assert forall|i: int|
            0 <= i < slots.len() && (#[trigger] slots[i]) is Some implies slots[i]->Some_0.live_keys()
                == tile_count(self.tiles(), AtlasTextureId { index: i as u32, kind }) by {
            let id = AtlasTextureId { index: i as u32, kind };
            lemma_count_push(before.tiles(), (key, tile), id);
            if i < prior.len() && prior[i] is Some {
                assert(before.list(kind).slots()[i] is Some);
            } else {
                assert forall|j: int| 0 <= j < before.tiles().len() implies (
                    #[trigger] before.tiles()[j]).1.texture_id != id by {
                    assert(before.tile_placed(before.tiles()[j].0, before.tiles()[j].1));
                }
                lemma_count_absent(before.tiles(), id);
            }
        }
        assert(self.keys_counted(kind));
        let other = other_kind(kind);
        assert forall|i: int|
            0 <= i < self.list(other).slots().len() && (#[trigger] self.list(other).slots()[i]) is Some
                implies self.list(other).slots()[i]->Some_0.live_keys() == tile_count(
                self.tiles(),
                AtlasTextureId { index: i as u32, kind: other },
            ) by {
            lemma_count_push(before.tiles(), (key, tile), AtlasTextureId { index: i as u32, kind: other });
            assert(before.list(other).slots()[i] is Some);
        }
        assert(self.keys_counted(other));
        assert(kind == AtlasTextureKind::Monochrome || kind == AtlasTextureKind::Polychrome);
    }
}

impl AtlasState {
    /// Forgets the tile cached for `key`, releasing its live key in its texture; the texture is
    /// dropped and its slot freed when that was its last key. Nothing changes when the key is not
    /// cached.
    pub fn remove(&mut self, key: &AtlasKey)
        requires
            old(self).wf(),
        ensures
            final(self).wf(),
            !holds_key(final(self).tiles(), *key),
            tile_of(final(self).tiles(), *key) is None,
            if holds_key(old(self).tiles(), *key) {
                let position = key_position(old(self).tiles(), *key);
                let id = old(self).tiles()[position].1.texture_id;
                &&& final(self).tiles() == old(self).tiles().remove(position)
                &&& key_released(old(self).list(id.kind), final(self).list(id.kind), id.index as int)
                &&& (final(self).list(id.kind).slots()[id.index as int] is None) == (tile_count(
                    old(self).tiles(),
                    id,
                ) == 1)
                &&& final(self).list(other_kind(id.kind)) == old(self).list(other_kind(id.kind))
            } else {
                &&& final(self).tiles() == old(self).tiles()
                &&& final(self).list(AtlasTextureKind::Monochrome) == old(self).list(
                    AtlasTextureKind::Monochrome,
                )
                &&& final(self).list(AtlasTextureKind::Polychrome) == old(self).list(
                    AtlasTextureKind::Polychrome,
                )
            },
    {
        let ghost before = *old(self);
        let position = match self.find_key(key) {
            Some(position) => position,
            None => {
                return;
            },
        };
        let (_, tile) = self.tiles_by_key.remove(position);
        let id = tile.texture_id;
        let index = id.index as usize;
        proof {
            assert(before.tile_placed(before.tiles()[position as int].0, tile));
            lemma_count_remove(before.tiles(), position as int, id);
            assert(before.list(id.kind).slots()[index as int] is Some);
        }
        match id.kind {
            AtlasTextureKind::Monochrome => {
                self.monochrome_textures.release(id.kind, index);
            },
            AtlasTextureKind::Polychrome => {
                self.polychrome_textures.release(id.kind, index);
            },
        }
        proof {
            self.lemma_removed_valid(before, position as int);
        }
    }

    /// Removing a cached tile and releasing its key keeps the atlas consistent.
    proof fn lemma_removed_valid(&self, before: AtlasState, position: int)
        requires
            before.wf(),
            0 <= position < before.tiles().len(),
            self.tiles() == before.tiles().remove(position),
            key_released(
                before.list(before.tiles()[position].1.texture_id.kind),
                self.list(before.tiles()[position].1.texture_id.kind),
                before.tiles()[position].1.texture_id.index as int,
            ),
            self.list(other_kind(before.tiles()[position].1.texture_id.kind)) == before.list(
                other_kind(before.tiles()[position].1.texture_id.kind),
            ),
            self.list(before.tiles()[position].1.texture_id.kind).wf(
                before.tiles()[position].1.texture_id.kind,
            ),
        ensures
            self.wf(),
            !holds_key(self.tiles(), before.tiles()[position].0),
    {
        let key = before.tiles()[position].0;
        let id = before.tiles()[position].1.texture_id;
        let kind = id.kind;
        let index = id.index as int;
        let slots = self.list(kind).slots();
        let prior = before.list(kind).slots();
        assert(before.tile_placed(key, before.tiles()[position].1));
        assert(self.list(AtlasTextureKind::Monochrome).wf(AtlasTextureKind::Monochrome));
        assert(self.list(AtlasTextureKind::Polychrome).wf(AtlasTextureKind::Polychrome));
        assert forall|i: int| 0 <= i < self.tiles().len() implies (#[trigger] self.tiles()[i]).0
            != key by {
            if i < position {
                assert(self.tiles()[i] == before.tiles()[i]);
            } else {
                assert(self.tiles()[i] == before.tiles()[i + 1]);
            }
        }
        assert forall|a: int, b: int| 0 <= a < b < self.tiles().len() implies (
            #[trigger] self.tiles()[a]).0 != (#[trigger] self.tiles()[b]).0 by {
            let a0 = if a < position { a } else { a + 1 };
            let b0 = if b < position { b } else { b + 1 };
            assert(self.tiles()[a] == before.tiles()[a0]);
            assert(self.tiles()[b] == before.tiles()[b0]);
        }
        lemma_count_remove(before.tiles(), position, id);
        assert forall|i: int| 0 <= i < self.tiles().len() implies self.tile_placed(
            (#[trigger] self.tiles()[i]).0,
            self.tiles()[i].1,
        ) by {
            let i0 = if i < position { i } else { i + 1 };
            assert(self.tiles()[i] == before.tiles()[i0]);
            assert(before.tile_placed(before.tiles()[i0].0, before.tiles()[i0].1));
            let t = before.tiles()[i0].1;
            if t.texture_id == id {
                lemma_count_present(self.tiles(), i, id);
                assert(prior[index] is Some);
                assert(before.list(kind).slots()[index]->Some_0.live_keys() == tile_count(
                    before.tiles(),
                    id,
                ));
            }
        }
        assert forall|i: int|
            0 <= i < slots.len() && (#[trigger] slots[i]) is Some implies slots[i]->Some_0.live_keys()
                == tile_count(self.tiles(), AtlasTextureId { index: i as u32, kind }) by {
            lemma_count_remove(before.tiles(), position, AtlasTextureId { index: i as u32, kind });
            assert(prior[i] is Some);
        }
        assert(self.keys_counted(kind));
        let other = other_kind(kind);
        assert forall|i: int|
            0 <= i < self.list(other).slots().len() && (#[trigger] self.list(other).slots()[i]) is Some
                implies self.list(other).slots()[i]->Some_0.live_keys() == tile_count(
                self.tiles(),
                AtlasTextureId { index: i as u32, kind: other },
            ) by {
            lemma_count_remove(before.tiles(), position, AtlasTextureId { index: i as u32, kind: other });
            assert(before.list(other).slots()[i] is Some);
        }
        assert(self.keys_counted(other));
        assert(kind == AtlasTextureKind::Monochrome || kind == AtlasTextureKind::Polychrome);
    }
}

impl AtlasState {
    /// Whether the atlas holds the texture `id`.
    pub fn holds_texture(&self, id: AtlasTextureId) -> (held: bool)
        ensures
            held == ((id.index as int) < self.list(id.kind).slots().len() && self.list(
                id.kind,
            ).slots()[id.index as int] is Some),
    {
        let list = match id.kind {
            AtlasTextureKind::Monochrome => &self.monochrome_textures,
            AtlasTextureKind::Polychrome => &self.polychrome_textures,
        };
        let index = id.index as usize;
        index < list.textures.len() && list.textures[index].is_some()
    }

    /// Flushes the texture `id`, which the atlas holds, and reports its dirty region.
    pub fn flush_texture(&mut self, id: AtlasTextureId) -> (region: Option<AtlasFlushRegion>)
        requires
            old(self).wf(),
            (id.index as int) < old(self).list(id.kind).slots().len(),
            old(self).list(id.kind).slots()[id.index as int] is Some,
        ensures
            final(self).wf(),
            final(self).tiles() == old(self).tiles(),
            final(self).list(other_kind(id.kind)) == old(self).list(other_kind(id.kind)),
            only_slot_changed(old(self).list(id.kind), final(self).list(id.kind), id.index as int),
            flush_outcome(
                old(self).list(id.kind).slots()[id.index as int]->Some_0,
                final(self).list(id.kind).slots()[id.index as int]->Some_0,
                region,
            ),
    {
        let ghost before = *old(self);
        let index = id.index as usize;
        let region = match id.kind {
            AtlasTextureKind::Monochrome => self.monochrome_textures.flush_at(id.kind, index),
            AtlasTextureKind::Polychrome => self.polychrome_textures.flush_at(id.kind, index),
        };
        proof {
            let kind = id.kind;
            let slots = self.list(kind).slots();
            assert(self.list(AtlasTextureKind::Monochrome).wf(AtlasTextureKind::Monochrome));
            assert(self.list(AtlasTextureKind::Polychrome).wf(AtlasTextureKind::Polychrome));
            assert forall|i: int| 0 <= i < self.tiles().len() implies self.tile_placed(
                (#[trigger] self.tiles()[i]).0,
                self.tiles()[i].1,
            ) by {
                assert(before.tile_placed(before.tiles()[i].0, before.tiles()[i].1));
            }
            assert forall|i: int|
                0 <= i < slots.len() && (#[trigger] slots[i]) is Some implies slots[i]->Some_0.live_keys()
                    == tile_count(self.tiles(), AtlasTextureId { index: i as u32, kind }) by {
                assert(before.list(kind).slots()[i] is Some);
            }
            assert(self.keys_counted(kind));
            assert(self.keys_counted(other_kind(kind)));
            assert(kind == AtlasTextureKind::Monochrome || kind == AtlasTextureKind::Polychrome);
        }
        region
    }

    /// Forgets every tile and texture, as after the device was lost.
    pub fn reset(&mut self)
        ensures
            final(self).wf(),
            final(self).tiles() == Seq::<(AtlasKey, AtlasTile)>::empty(),
            final(self).list(AtlasTextureKind::Monochrome).slots().len() == 0,
            final(self).list(AtlasTextureKind::Monochrome).free().len() == 0,
            final(self).list(AtlasTextureKind::Polychrome).slots().len() == 0,
            final(self).list(AtlasTextureKind::Polychrome).free().len() == 0,
    {
        self.monochrome_textures = AtlasTextureList::new();
        self.polychrome_textures = AtlasTextureList::new();
        self.tiles_by_key = Vec::new();
    }
}

impl AtlasTextureList {
    /// Totals over the held textures, in slot order, and the free slot count.
    pub fn diagnostic(&self, kind: AtlasTextureKind) -> (totals: AtlasKindDiagnostic)
        requires
            self.wf(kind),
        ensures
            totals == kind_diagnostic_of(self.slots(), kind, self.free().len() as usize),
    {
        let mut totals = AtlasKindDiagnostic {
            kind,
            texture_count: 0,
            free_texture_slots: self.free_list.len(),
            live_key_count: 0,
            gpu_texture_bytes_estimate: 0,
            cpu_mirror_bytes: 0,
            dirty_texture_count: 0,
            dirty_bytes_estimate: 0,
            upload_calls: 0,
            upload_bytes: 0,
            flush_calls: 0,
            flush_bytes: 0,
        };
        let mut index: usize = 0;
        proof {
            assert(self.slots().take(0) =~= Seq::<Option<DirectXAtlasTexture>>::empty());
        }
        while index < self.textures.len()
            invariant
                self.wf(kind),
                index <= self.slots().len(),
                totals == kind_diagnostic_of(self.slots().take(index as int), kind, self.free().len() as usize),
                totals.texture_count <= index,
                totals.dirty_texture_count <= index,
            decreases self.slots().len() - index,
        {
            proof {
                assert(self.slots().take(index + 1).drop_last() =~= self.slots().take(index as int));
                assert(self.slots().take(index + 1).last() == self.slots()[index as int]);
            }
            match &self.textures[index] {
                Some(texture) => {
                    let (upload_calls, upload_bytes, flush_calls, flush_bytes) = texture.usage_counters();
                    totals.texture_count = totals.texture_count + 1;
                    totals.live_key_count = saturating_add(totals.live_key_count, texture.live_atlas_keys() as u64);
                    totals.gpu_texture_bytes_estimate = saturating_add(
                        totals.gpu_texture_bytes_estimate,
                        texture.texture_bytes(),
                    );
                    totals.cpu_mirror_bytes = saturating_add(totals.cpu_mirror_bytes, texture.cpu_mirror_len() as u64);
                    match texture.dirty_bounds() {
                        Some(dirty) => {
                            totals.dirty_texture_count = totals.dirty_texture_count + 1;
                            totals.dirty_bytes_estimate = saturating_add(
                                totals.dirty_bytes_estimate,
                                texture.bounds_bytes(dirty),
                            );
                        },
                        None => {},
                    }
                    totals.upload_calls = saturating_add(totals.upload_calls, upload_calls);
                    totals.upload_bytes = saturating_add(totals.upload_bytes, upload_bytes);
                    totals.flush_calls = saturating_add(totals.flush_calls, flush_calls);
                    totals.flush_bytes = saturating_add(totals.flush_bytes, flush_bytes);
                },
                None => {},
            }
            index = index + 1;
        }
        proof {
            assert(self.slots().take(self.slots().len() as int) =~= self.slots());
        }
        totals
    }
}

impl AtlasState {
    /// Counts of the cached tiles by key type, the bytes and first items of the image tiles, and
    /// the totals of the monochrome, then the polychrome textures.
    pub fn diagnostic_snapshot(&self) -> (snapshot: AtlasDiagnosticSnapshot)
        requires
            self.wf(),
        ensures
            snapshot.tile_count == self.tiles().len(),
            snapshot.glyph_tiles == key_tally(self.tiles()).0,
            snapshot.svg_tiles == key_tally(self.tiles()).1,
            snapshot.image_tiles == key_tally(self.tiles()).2,
            snapshot.image_tile_bytes_estimate == image_tile_bytes(self.tiles()),
            snapshot.image_tile_items@ == listed_items(image_items(self.tiles())),
            snapshot.image_tile_items_truncated == (image_items(self.tiles()).len()
                > MAX_IMAGE_TILE_DIAGNOSTIC_ITEMS),
            snapshot.kinds@[0].live_key_count == kind_count(self.tiles(), AtlasTextureKind::Monochrome),
            snapshot.kinds@[1].live_key_count == kind_count(self.tiles(), AtlasTextureKind::Polychrome),
            snapshot.kinds@ == seq![
                kind_diagnostic_of(
                    self.list(AtlasTextureKind::Monochrome).slots(),
                    AtlasTextureKind::Monochrome,
                    self.list(AtlasTextureKind::Monochrome).free().len() as usize,
                ),
                kind_diagnostic_of(
                    self.list(AtlasTextureKind::Polychrome).slots(),
                    AtlasTextureKind::Polychrome,
                    self.list(AtlasTextureKind::Polychrome).free().len() as usize,
                ),
            ],
    {
        let tiles = &self.tiles_by_key;
        let mut glyph_tiles: usize = 0;
        let mut svg_tiles: usize = 0;
        let mut image_tiles: usize = 0;
        let mut image_tile_bytes_estimate: u64 = 0;
        let mut image_tile_items: Vec<AtlasImageTileDiagnostic> = Vec::new();
        let mut image_tile_items_truncated = false;
        let mut index: usize = 0;
        proof {
            assert(tiles@.take(0) =~= Seq::<(AtlasKey, AtlasTile)>::empty());
        }
        while index < tiles.len()
            invariant
                tiles@ == self.tiles(),
                index <= tiles@.len(),
                glyph_tiles == key_tally(tiles@.take(index as int)).0,
                svg_tiles == key_tally(tiles@.take(index as int)).1,
                image_tiles == key_tally(tiles@.take(index as int)).2,
                glyph_tiles + svg_tiles + image_tiles == index,
                image_tile_bytes_estimate == image_tile_bytes(tiles@.take(index as int)),
                image_tile_items@ == listed_items(image_items(tiles@.take(index as int))),
                image_tile_items_truncated == (image_items(tiles@.take(index as int)).len()
                    > MAX_IMAGE_TILE_DIAGNOSTIC_ITEMS),
            decreases tiles@.len() - index,
        {
            let ghost seen = tiles@.take(index as int);
            proof {
                assert(tiles@.take(index + 1).drop_last() =~= seen);
                assert(tiles@.take(index + 1).last() == tiles@[index as int]);
            }
            let (key, tile) = tiles[index];
            match key {
                AtlasKey::Glyph { .. } => {
                    glyph_tiles = glyph_tiles + 1;
                },
                AtlasKey::Svg { .. } => {
                    svg_tiles = svg_tiles + 1;
                },
                AtlasKey::Image { image_id, frame_index } => {
                    image_tiles = image_tiles + 1;
                    let tile_bytes_estimate = crate::atlas::tile_bytes_estimate(tile.bounds);
                    image_tile_bytes_estimate = saturating_add(image_tile_bytes_estimate, tile_bytes_estimate);
                    let ghost earlier = image_items(seen);
                    if image_tile_items.len() < MAX_IMAGE_TILE_DIAGNOSTIC_ITEMS {
                        let width: u32 = if tile.bounds.size.width.0 < 0 { 0 } else { tile.bounds.size.width.0 as u32 };
                        let height: u32 = if tile.bounds.size.height.0 < 0 { 0 } else { tile.bounds.size.height.0 as u32 };
                        image_tile_items.push(
                            AtlasImageTileDiagnostic {
                                render_image_id: image_id,
                                frame_index,
                                width,
                                height,
                                tile_bytes_estimate,
                            },
                        );
                        proof {
                            assert(earlier.len() < MAX_IMAGE_TILE_DIAGNOSTIC_ITEMS);
                            assert(image_tile_items@ =~= listed_items(
                                earlier.push(image_item(image_id, frame_index, tile)),
                            ));
                        }
                    } else {
                        image_tile_items_truncated = true;
                        proof {
                            let all = earlier.push(image_item(image_id, frame_index, tile));
                            assert(earlier.len() >= MAX_IMAGE_TILE_DIAGNOSTIC_ITEMS);
                            assert(listed_items(all) =~= listed_items(earlier));
                        }
                    }
                },
            }
            index = index + 1;
        }
        proof {
            assert(tiles@.take(tiles@.len() as int) =~= tiles@);
        }
        proof {
            self.lemma_live_totals(AtlasTextureKind::Monochrome);
            self.lemma_live_totals(AtlasTextureKind::Polychrome);
        }
        let mut kinds: Vec<AtlasKindDiagnostic> = Vec::new();
        kinds.push(self.monochrome_textures.diagnostic(AtlasTextureKind::Monochrome));
        kinds.push(self.polychrome_textures.diagnostic(AtlasTextureKind::Polychrome));
        AtlasDiagnosticSnapshot {
            tile_count: tiles.len(),
            glyph_tiles,
            svg_tiles,
            image_tiles,
            image_tile_bytes_estimate,
            image_tile_items,
            image_tile_items_truncated,
            kinds,
        }
    }
}

/// Cached tiles whose key belongs to textures of the given kind.
pub open spec fn kind_count(tiles: Seq<(AtlasKey, AtlasTile)>, kind: AtlasTextureKind) -> nat
    decreases tiles.len(),
{
    if tiles.len() == 0 {
        0
    } else {
        kind_count(tiles.drop_last(), kind) + if tiles.last().0.kind() == kind {
            1nat
        } else {
            0nat
        }
    }
}

/// The texture totals the test atlas reports for a kind: one texture per live key.
pub open spec fn test_kind_diagnostic(kind: AtlasTextureKind, live_key_count: u64) -> AtlasKindDiagnostic {
    AtlasKindDiagnostic {
        kind,
        texture_count: live_key_count as usize,
        free_texture_slots: 0,
        live_key_count,
        gpu_texture_bytes_estimate: 0,
        cpu_mirror_bytes: 0,
        dirty_texture_count: 0,
        dirty_bytes_estimate: 0,
        upload_calls: 0,
        upload_bytes: 0,
        flush_calls: 0,
        flush_bytes: 0,
    }
}

/// Texture totals the test atlas reports for a kind with the given live keys.
pub fn test_atlas_kind_diagnostic(kind: AtlasTextureKind, live_key_count: u64) -> (totals: AtlasKindDiagnostic)
    ensures
        totals == test_kind_diagnostic(kind, live_key_count),
{
    AtlasKindDiagnostic {
        kind,
        texture_count: live_key_count as usize,
        free_texture_slots: 0,
        live_key_count,
        gpu_texture_bytes_estimate: 0,
        cpu_mirror_bytes: 0,
        dirty_texture_count: 0,
        dirty_bytes_estimate: 0,
        upload_calls: 0,
        upload_bytes: 0,
        flush_calls: 0,
        flush_bytes: 0,
    }
}

/// An atlas of the test platform: tiles are recorded without textures, each new tile naming a
/// fresh texture index and tile identity.
pub struct TestAtlas {
    next_id: u32,
    tiles: Vec<(AtlasKey, AtlasTile)>,
}

impl TestAtlas {
    /// The last identity handed out.
    pub closed spec fn last_id(&self) -> u32 {
        self.next_id
    }

    /// The recorded tiles, in insertion order.
    pub closed spec fn tiles(&self) -> Seq<(AtlasKey, AtlasTile)> {
        self.tiles@
    }

    /// No key is recorded twice.
    pub open spec fn wf(&self) -> bool {
        distinct_keys(self.tiles())
    }

    /// An empty test atlas.
    pub fn new() -> (atlas: Self)
        ensures
            atlas.wf(),
            atlas.last_id() == 0,
            atlas.tiles() == Seq::<(AtlasKey, AtlasTile)>::empty(),
    {
        TestAtlas { next_id: 0, tiles: Vec::new() }
    }

    /// The last identity handed out.
    pub fn next_id(&self) -> (id: u32)
        ensures
            id == self.last_id(),
    {
        self.next_id
    }

    /// The tile recorded for a key.
    pub fn tile(&self, key: &AtlasKey) -> (tile: Option<AtlasTile>)
        requires
            self.wf(),
        ensures
            tile == tile_of(self.tiles(), *key),
    {
        match find_tile(&self.tiles, key) {
            Some(position) => Some(self.tiles[position].1),
            None => None,
        }
    }

    /// Records a tile of `size` at the origin of a fresh texture of the key's kind; the texture
    /// index and the tile identity are the next two identities.
    pub fn insert(&mut self, key: AtlasKey, size: Size<DevicePixels>) -> (tile: AtlasTile)
        requires
            old(self).wf(),
            !holds_key(old(self).tiles(), key),
            old(self).last_id() < u32::MAX - 1,
        ensures
            final(self).wf(),
            tile == (AtlasTile {
                texture_id: AtlasTextureId { index: (old(self).last_id() + 1) as u32, kind: key.kind() },
                tile_id: (old(self).last_id() + 2) as u32,
                padding: 0,
                bounds: Bounds {
                    origin: crate::geometry::Point { x: DevicePixels(0), y: DevicePixels(0) },
                    size,
                },
            }),
            final(self).last_id() == old(self).last_id() + 2,
            final(self).tiles() == old(self).tiles().push((key, tile)),
            tile_of(final(self).tiles(), key) == Some(tile),
    {
        self.next_id = self.next_id + 1;
        let texture_index = self.next_id;
        self.next_id = self.next_id + 1;
        let tile_id = self.next_id;
        let tile = AtlasTile {
            texture_id: AtlasTextureId { index: texture_index, kind: key.texture_kind() },
            tile_id,
            padding: 0,
            bounds: Bounds {
                origin: crate::geometry::Point { x: DevicePixels(0), y: DevicePixels(0) },
                size,
            },
        };
        let ghost before = self.tiles@;
        self.tiles.push((key, tile));
        proof {
            assert forall|a: int, b: int| 0 <= a < b < self.tiles@.len() implies (
                #[trigger] self.tiles@[a]).0 != (#[trigger] self.tiles@[b]).0 by {
                assert(self.tiles@[a] == before[a]);
                if b < before.len() {
                    assert(self.tiles@[b] == before[b]);
                }
            }
            lemma_key_position(self.tiles@, key, before.len() as int);
        }
        tile
    }

    /// Forgets the tile recorded for `key`, if any.
    pub fn remove(&mut self, key: &AtlasKey)
        requires
            old(self).wf(),
        ensures
            final(self).wf(),
            final(self).last_id() == old(self).last_id(),
            tile_of(final(self).tiles(), *key) is None,
            if holds_key(old(self).tiles(), *key) {
                final(self).tiles() == old(self).tiles().remove(key_position(old(self).tiles(), *key))
            } else {
                final(self).tiles() == old(self).tiles()
            },
    {
        let position = match find_tile(&self.tiles, key) {
            Some(position) => position,
            None => {
                return;
            },
        };
        let ghost before = self.tiles@;
        self.tiles.remove(position);
        proof {
            assert forall|i: int| 0 <= i < self.tiles@.len() implies (#[trigger] self.tiles@[i]).0
                != *key by {
                if i < position {
                    assert(self.tiles@[i] == before[i]);
                } else {
                    assert(self.tiles@[i] == before[i + 1]);
                }
            }
            assert forall|a: int, b: int| 0 <= a < b < self.tiles@.len() implies (
                #[trigger] self.tiles@[a]).0 != (#[trigger] self.tiles@[b]).0 by {
                let a0 = if a < position { a } else { a + 1 };
                let b0 = if b < position { b } else { b + 1 };
                assert(self.tiles@[a] == before[a0]);
                assert(self.tiles@[b] == before[b0]);
            }
        }
    }

    /// Counts of the recorded tiles by key type, the bytes and items of every image tile, and
    /// per kind one texture per live key.
    pub fn diagnostic_snapshot(&self) -> (snapshot: AtlasDiagnosticSnapshot)
        ensures
            snapshot.tile_count == self.tiles().len(),
            snapshot.glyph_tiles == key_tally(self.tiles()).0,
            snapshot.svg_tiles == key_tally(self.tiles()).1,
            snapshot.image_tiles == key_tally(self.tiles()).2,
            snapshot.image_tile_bytes_estimate == image_tile_bytes(self.tiles()),
            snapshot.image_tile_items@ == image_items(self.tiles()),
            !snapshot.image_tile_items_truncated,
            snapshot.kinds@ == seq![
                test_kind_diagnostic(
                    AtlasTextureKind::Monochrome,
                    kind_count(self.tiles(), AtlasTextureKind::Monochrome) as u64,
                ),
                test_kind_diagnostic(
                    AtlasTextureKind::Polychrome,
                    kind_count(self.tiles(), AtlasTextureKind::Polychrome) as u64,
                ),
            ],
    {
        let tiles = &self.tiles;
        let mut glyph_tiles: usize = 0;
        let mut svg_tiles: usize = 0;
        let mut image_tiles: usize = 0;
        let mut monochrome_count: u64 = 0;
        let mut polychrome_count: u64 = 0;
        let mut image_tile_bytes_estimate: u64 = 0;
        let mut image_tile_items: Vec<AtlasImageTileDiagnostic> = Vec::new();
        let mut index: usize = 0;
        proof {
            assert(tiles@.take(0) =~= Seq::<(AtlasKey, AtlasTile)>::empty());
        }
        while index < tiles.len()
            invariant
                tiles@ == self.tiles(),
                index <= tiles@.len(),
                glyph_tiles == key_tally(tiles@.take(index as int)).0,
                svg_tiles == key_tally(tiles@.take(index as int)).1,
                image_tiles == key_tally(tiles@.take(index as int)).2,
                glyph_tiles + svg_tiles + image_tiles == index,
                monochrome_count == kind_count(tiles@.take(index as int), AtlasTextureKind::Monochrome),
                polychrome_count == kind_count(tiles@.take(index as int), AtlasTextureKind::Polychrome),
                monochrome_count + polychrome_count == index,
                image_tile_bytes_estimate == image_tile_bytes(tiles@.take(index as int)),
                image_tile_items@ == image_items(tiles@.take(index as int)),
            decreases tiles@.len() - index,
        {
            let ghost seen = tiles@.take(index as int);
            proof {
                assert(tiles@.take(index + 1).drop_last() =~= seen);
                assert(tiles@.take(index + 1).last() == tiles@[index as int]);
            }
            let (key, tile) = tiles[index];
            match key {
                AtlasKey::Glyph { .. } => {
                    glyph_tiles = glyph_tiles + 1;
                },
                AtlasKey::Svg { .. } => {
                    svg_tiles = svg_tiles + 1;
                },
                AtlasKey::Image { image_id, frame_index } => {
                    image_tiles = image_tiles + 1;
                    let tile_bytes_estimate = crate::atlas::tile_bytes_estimate(tile.bounds);
                    image_tile_bytes_estimate = saturating_add(image_tile_bytes_estimate, tile_bytes_estimate);
                    let width: u32 = if tile.bounds.size.width.0 < 0 { 0 } else { tile.bounds.size.width.0 as u32 };
                    let height: u32 = if tile.bounds.size.height.0 < 0 { 0 } else { tile.bounds.size.height.0 as u32 };
                    image_tile_items.push(
                        AtlasImageTileDiagnostic {
                            render_image_id: image_id,
                            frame_index,
                            width,
                            height,
                            tile_bytes_estimate,
                        },
                    );
                },
            }
            match key.texture_kind() {
                AtlasTextureKind::Monochrome => {
                    monochrome_count = monochrome_count + 1;
                },
                AtlasTextureKind::Polychrome => {
                    polychrome_count = polychrome_count + 1;
                },
            }
            index = index + 1;
        }
        proof {
            assert(tiles@.take(tiles@.len() as int) =~= tiles@);
        }
        let mut kinds: Vec<AtlasKindDiagnostic> = Vec::new();
        kinds.push(test_atlas_kind_diagnostic(AtlasTextureKind::Monochrome, monochrome_count));
        kinds.push(test_atlas_kind_diagnostic(AtlasTextureKind::Polychrome, polychrome_count));
        AtlasDiagnosticSnapshot {
            tile_count: tiles.len(),
            glyph_tiles,
            svg_tiles,
            image_tiles,
            image_tile_bytes_estimate,
            image_tile_items,
            image_tile_items_truncated: false,
            kinds,
        }
    }
}

/// Cached tiles lying in textures of `kind` whose index is below `bound`.
pub open spec fn tiles_below(tiles: Seq<(AtlasKey, AtlasTile)>, kind: AtlasTextureKind, bound: int) -> nat
    decreases tiles.len(),
{
    if tiles.len() == 0 {
        0
    } else {
        tiles_below(tiles.drop_last(), kind, bound) + if tiles.last().1.texture_id.kind == kind
            && (tiles.last().1.texture_id.index as int) < bound {
            1nat
        } else {
            0nat
        }
    }
}

proof fn lemma_tiles_below_step(tiles: Seq<(AtlasKey, AtlasTile)>, kind: AtlasTextureKind, n: int)
    requires
        0 <= n <= u32::MAX,
    ensures
        tiles_below(tiles, kind, n + 1) == tiles_below(tiles, kind, n) + tile_count(
            tiles,
            AtlasTextureId { index: n as u32, kind },
        ),
    decreases tiles.len(),
{
    if tiles.len() > 0 {
        lemma_tiles_below_step(tiles.drop_last(), kind, n);
    }
}

proof fn lemma_tiles_below_bounded(tiles: Seq<(AtlasKey, AtlasTile)>, kind: AtlasTextureKind, bound: int)
    ensures
        tiles_below(tiles, kind, bound) <= tiles.len(),
        bound <= 0 ==> tiles_below(tiles, kind, bound) == 0,
    decreases tiles.len(),
{
    if tiles.len() > 0 {
        lemma_tiles_below_bounded(tiles.drop_last(), kind, bound);
    }
}

proof fn lemma_tiles_below_all(tiles: Seq<(AtlasKey, AtlasTile)>, kind: AtlasTextureKind, bound: int)
    requires
        forall|i: int|
            0 <= i < tiles.len() ==> (#[trigger] tiles[i]).1.texture_id.kind == tiles[i].0.kind() && (
            tiles[i].1.texture_id.kind == kind ==> (tiles[i].1.texture_id.index as int) < bound),
    ensures
        tiles_below(tiles, kind, bound) == kind_count(tiles, kind),
    decreases tiles.len(),
{
    if tiles.len() > 0 {
        assert(tiles.last() == tiles[tiles.len() - 1]);
        assert forall|i: int| 0 <= i < tiles.drop_last().len() implies (
            #[trigger] tiles.drop_last()[i]).1.texture_id.kind == tiles.drop_last()[i].0.kind() && (
            tiles.drop_last()[i].1.texture_id.kind == kind ==> (tiles.drop_last()[i].1.texture_id.index as int)
                < bound) by {
            assert(tiles.drop_last()[i] == tiles[i]);
        }
        lemma_tiles_below_all(tiles.drop_last(), kind, bound);
    }
}

impl AtlasState {
    proof fn lemma_live_prefix(&self, kind: AtlasTextureKind, n: int)
        requires
            self.wf(),
            0 <= n <= self.list(kind).slots().len(),
            self.tiles().len() <= u64::MAX,
        ensures
            kind_diagnostic_of(
                self.list(kind).slots().take(n),
                kind,
                self.list(kind).free().len() as usize,
            ).live_key_count == tiles_below(self.tiles(), kind, n),
        decreases n,
    {
        let slots = self.list(kind).slots();
        let free = self.list(kind).free().len() as usize;
        let tiles = self.tiles();
        if n == 0 {
            assert(slots.take(0) =~= Seq::<Option<DirectXAtlasTexture>>::empty());
            lemma_tiles_below_bounded(tiles, kind, 0);
        } else {
            self.lemma_live_prefix(kind, n - 1);
            assert(slots.take(n).drop_last() =~= slots.take(n - 1));
            assert(slots.take(n).last() == slots[n - 1]);
            lemma_tiles_below_step(tiles, kind, n - 1);
            lemma_tiles_below_bounded(tiles, kind, n);
            let id = AtlasTextureId { index: (n - 1) as u32, kind };
            match slots[n - 1] {
                Some(texture) => {
                    assert(self.list(kind).slots()[n - 1] is Some);
                    assert(texture.live_keys() == tile_count(tiles, id));
                },
                None => {
                    assert forall|j: int| 0 <= j < tiles.len() implies (#[trigger] tiles[j]).1.texture_id
                        != id by {
                        assert(self.tile_placed(tiles[j].0, tiles[j].1));
                    }
                    lemma_count_absent(tiles, id);
                },
            }
        }
    }

    /// Each snapshot kind's live-key total is the number of cached tiles whose keys use that
    /// kind.
    proof fn lemma_live_totals(&self, kind: AtlasTextureKind)
        requires
            self.wf(),
            self.tiles().len() <= u64::MAX,
        ensures
            kind_diagnostic_of(
                self.list(kind).slots(),
                kind,
                self.list(kind).free().len() as usize,
            ).live_key_count == kind_count(self.tiles(), kind),
    {
        let slots = self.list(kind).slots();
        self.lemma_live_prefix(kind, slots.len() as int);
        assert(slots.take(slots.len() as int) =~= slots);
        assert forall|i: int| 0 <= i < self.tiles().len() implies (#[trigger] self.tiles()[i]).1.texture_id.kind
            == self.tiles()[i].0.kind() && (self.tiles()[i].1.texture_id.kind == kind ==> (
            self.tiles()[i].1.texture_id.index as int) < slots.len()) by {
            assert(self.tile_placed(self.tiles()[i].0, self.tiles()[i].1));
        }
        lemma_tiles_below_all(self.tiles(), kind, slots.len() as int);
    }
}

/// Caching a tile for a key the tiles did not hold and then removing that key gives back the
/// tiles as they were.
pub proof fn lemma_insert_then_remove_restores_tiles(
    tiles: Seq<(AtlasKey, AtlasTile)>,
    key: AtlasKey,
    tile: AtlasTile,
)
    requires
        distinct_keys(tiles),
        !holds_key(tiles, key),
    ensures
        holds_key(tiles.push((key, tile)), key),
        tiles.push((key, tile)).remove(key_position(tiles.push((key, tile)), key)) == tiles,
{
    let pushed = tiles.push((key, tile));
    assert forall|a: int, b: int| 0 <= a < b < pushed.len() implies (#[trigger] pushed[a]).0
        != (#[trigger] pushed[b]).0 by {
        if b == tiles.len() {
            assert(pushed[a] == tiles[a]);
        } else {
            assert(pushed[a] == tiles[a]);
            assert(pushed[b] == tiles[b]);
        }
    }
    lemma_key_position(pushed, key, tiles.len() as int);
    assert(pushed.remove(tiles.len() as int) =~= tiles);
}

} // verus!
