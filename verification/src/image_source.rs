use vstd::prelude::*;
use crate::geometry::{DevicePixels, Size};

verus! {

/// Stable identity for a reloadable or caller-owned image source.
#[derive(Clone, Copy, Debug, Eq, PartialEq, Hash, Structural)]
pub struct ImageSourceId(u64);

impl ImageSourceId {
    /// The identity with the given opaque value.
    pub fn from_u64(value: u64) -> (id: Self)
        ensures
            id.value() == value,
    {
        ImageSourceId(value)
    }

    /// The identity's opaque value.
    pub closed spec fn value(self) -> u64 {
        self.0
    }

    /// Returns this image source identity as an opaque integer.
    pub fn as_u64(self) -> (value: u64)
        ensures
            value == self.value(),
    {
        self.0
    }
}

/// Stable identity for one requested rendering of an image source.
#[derive(Clone, Copy, Debug, Eq, PartialEq, Hash, Structural)]
pub struct ImageRenderRequestId(u64);

impl ImageRenderRequestId {
    /// The identity's opaque value.
    pub closed spec fn value(self) -> u64 {
        self.0
    }

    /// Render request identities are equal exactly when their values are.
    pub proof fn lemma_value_identifies(self, other: Self)
        ensures
            self.value() == other.value() <==> self == other,
    {
    }

    /// The identity with the given opaque value.
    pub(crate) fn from_u64(value: u64) -> (id: Self)
        ensures
            id.value() == value,
    {
        ImageRenderRequestId(value)
    }

    /// Returns this render request identity as an opaque integer.
    pub fn as_u64(self) -> (value: u64)
        ensures
            value == self.value(),
    {
        self.0
    }
}

/// Identity hash of one render-request key: source identity, frame index, scale-factor bits and
/// canonical requested width and height.
pub uninterp spec fn render_request_key_hash(
    source_id: u64,
    frame_index: usize,
    scale_factor_bits: u32,
    width: i32,
    height: i32,
) -> u64;

/// Hashes a render-request key with the standard library's default hasher.
#[verifier::external_body]
fn hash_render_request_key(
    source_id: u64,
    frame_index: usize,
    scale_factor_bits: u32,
    width: i32,
    height: i32,
) -> (hash: u64)
    ensures
        hash == render_request_key_hash(source_id, frame_index, scale_factor_bits, width, height),
{
    std::hash::BuildHasher::hash_one(
        &std::hash::BuildHasherDefault::<std::collections::hash_map::DefaultHasher>::default(),
        (source_id, frame_index, scale_factor_bits, width, height),
    )
}

/// The canonical request dimension: positive odd dimensions round up to the next even device
/// pixel (saturating at the largest representable value); all others are kept.
pub open spec fn canonical_dimension(value: i32) -> i32 {
    if value <= 0 || value % 2 == 0 {
        value
    } else if value == i32::MAX {
        value
    } else {
        (value + 1) as i32
    }
}

/// A render-size-aware request for one image source and frame.
#[derive(Clone, Copy, Debug, Eq, PartialEq, Hash, Structural)]
pub struct ImageRenderRequest {
    id: ImageRenderRequestId,
    source_id: ImageSourceId,
    frame_index: usize,
    scale_factor_bits: u32,
    requested_width: DevicePixels,
    requested_height: DevicePixels,
}

impl ImageRenderRequest {
    /// The request's identity.
    pub closed spec fn request_id(self) -> ImageRenderRequestId {
        self.id
    }

    /// The request's source identity.
    pub closed spec fn source(self) -> ImageSourceId {
        self.source_id
    }

    /// The request's frame index.
    pub closed spec fn frame(self) -> usize {
        self.frame_index
    }

    /// The request's scale-factor bit pattern.
    pub closed spec fn scale_bits(self) -> u32 {
        self.scale_factor_bits
    }

    /// The request's canonical device-pixel size.
    pub closed spec fn size(self) -> Size<DevicePixels> {
        Size { width: self.requested_width, height: self.requested_height }
    }

    /// Creates a render request from source identity, frame, scale-factor bit pattern, and
    /// device-pixel size. Odd positive dimensions are canonicalized to the next even device pixel,
    /// so sub-pixel jitter maps to one request identity.
    pub fn with_scale_factor_bits(
        source_id: ImageSourceId,
        frame_index: usize,
        scale_factor_bits: u32,
        requested_size: Size<DevicePixels>,
    ) -> (request: Self)
        ensures
            request.source() == source_id,
            request.frame() == frame_index,
            request.scale_bits() == scale_factor_bits,
            request.size().width.0 == canonical_dimension(requested_size.width.0),
            request.size().height.0 == canonical_dimension(requested_size.height.0),
            request.request_id().value() == render_request_key_hash(
                source_id.value(),
                frame_index,
                scale_factor_bits,
                canonical_dimension(requested_size.width.0),
                canonical_dimension(requested_size.height.0),
            ),
    {
        let requested_width = canonical_source_backed_request_dimension(requested_size.width);
        let requested_height = canonical_source_backed_request_dimension(requested_size.height);
        let id = hash_render_request_key(
            source_id.0,
            frame_index,
            scale_factor_bits,
            requested_width.0,
            requested_height.0,
        );
        Self {
            id: ImageRenderRequestId(id),
            source_id,
            frame_index,
            scale_factor_bits,
            requested_width,
            requested_height,
        }
    }

    /// Returns this request identity.
    pub fn id(&self) -> (id: ImageRenderRequestId)
        ensures
            id == self.request_id(),
    {
        self.id
    }

    /// Returns the source identity used by this request.
    pub fn source_id(&self) -> (id: ImageSourceId)
        ensures
            id == self.source(),
    {
        self.source_id
    }

    /// Returns the requested frame index.
    pub fn frame_index(&self) -> (frame_index: usize)
        ensures
            frame_index == self.frame(),
    {
        self.frame_index
    }

    /// Returns the scale factor bits used in this request key.
    pub fn scale_factor_bits(&self) -> (bits: u32)
        ensures
            bits == self.scale_bits(),
    {
        self.scale_factor_bits
    }

    /// Returns the requested device-pixel size.
    pub fn requested_size(&self) -> (size: Size<DevicePixels>)
        ensures
            size == self.size(),
    {
        Size { width: self.requested_width, height: self.requested_height }
    }
}

/// Canonicalizes one requested device-pixel dimension.
pub fn canonical_source_backed_request_dimension(value: DevicePixels) -> (result: DevicePixels)
    ensures
        result.0 == canonical_dimension(value.0),
{
    if value.0 <= 0 || value.0 % 2 == 0 {
        return value;
    }
    if value.0 == i32::MAX {
        value
    } else {
        DevicePixels(value.0 + 1)
    }
}

/// Canonicalization is idempotent, maps every odd positive dimension below the maximum to the
/// even dimension just above it (so a dimension and its odd predecessor share a request), and
/// never shrinks a dimension.
pub proof fn lemma_canonical_dimension(value: i32)
    ensures
        canonical_dimension(canonical_dimension(value)) == canonical_dimension(value),
        canonical_dimension(value) >= value,
        canonical_dimension(value) - value <= 1,
        value > 0 && value < i32::MAX ==> canonical_dimension(value) % 2 == 0,
        value > 0 && value % 2 == 0 ==> canonical_dimension((value - 1) as i32) == canonical_dimension(
            value,
        ),
{
}

} // verus!
