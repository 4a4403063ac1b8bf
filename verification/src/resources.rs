use vstd::prelude::*;
use std::collections::HashMap;
use crate::atlas::{bounds_bytes, bounds_bytes_spec};
use crate::geometry::{Bounds, DevicePixels, Point, Size};
use crate::image_prepare::PreparedImageUpload;
use crate::image_source::{ImageRenderRequest, ImageSourceId};

verus! {

broadcast use vstd::std_specs::hash::group_hash_axioms;

/// Identity of one standalone GPU image resource.
#[derive(Clone, Copy, Debug, PartialEq, Eq, Hash, Structural)]
pub struct ImageResourceId(pub u64);

impl ImageResourceId {
    /// Returns this resource identity as an opaque integer.
    pub fn as_u64(self) -> (value: u64)
        ensures
            value == self.0,
    {
        self.0
    }
}

/// Metadata of one standalone GPU image resource.
#[derive(Clone, Copy, Debug, PartialEq, Eq, Structural)]
pub struct ImageResource {
    /// Resource identity.
    pub id: ImageResourceId,
    /// Source the resource was prepared from.
    pub source_id: ImageSourceId,
    /// Resource size in device pixels.
    pub size: Size<DevicePixels>,
}

/// Estimated GPU bytes of a BGRA resource of the given size: four bytes per pixel, negative
/// extents counting as empty, saturating at `u64::MAX`.
pub open spec fn resource_bytes(size: Size<DevicePixels>) -> u64 {
    bounds_bytes_spec(Bounds { origin: Point { x: DevicePixels(0), y: DevicePixels(0) }, size }, 4)
}

/// The resource that uploading a prepared buffer for `request` at `size` creates: it is
/// identified by the request identity.
pub open spec fn resource_for(request: ImageRenderRequest, size: Size<DevicePixels>) -> ImageResource {
    ImageResource {
        id: ImageResourceId(request.request_id().value()),
        source_id: request.source(),
        size,
    }
}

/// The resource created by uploading a prepared buffer.
pub open spec fn upload_resource(upload: PreparedImageUpload) -> ImageResource {
    resource_for(upload.satisfied_request(), upload.upload_size())
}

/// Estimated GPU bytes of a BGRA resource of the given size.
pub fn image_resource_bytes(size: Size<DevicePixels>) -> (bytes: u64)
    ensures
        bytes == resource_bytes(size),
{
    bounds_bytes(Bounds { origin: Point { x: DevicePixels(0), y: DevicePixels(0) }, size }, 4)
}

impl ImageResource {
    /// The resource created by uploading `upload`.
    pub fn from_upload(upload: &PreparedImageUpload) -> (resource: Self)
        ensures
            resource == upload_resource(*upload),
    {
        let request = upload.request();
        ImageResource {
            id: ImageResourceId(request.id().as_u64()),
            source_id: request.source_id(),
            size: upload.size(),
        }
    }

    /// Estimated GPU bytes of this resource.
    pub fn gpu_bytes_estimate(&self) -> (bytes: u64)
        ensures
            bytes == resource_bytes(self.size),
    {
        image_resource_bytes(self.size)
    }
}

/// Rejection of an image resource upload.
#[derive(Clone, Copy, Debug, PartialEq, Eq, Structural)]
pub enum ImageResourceError {
    /// The prepared byte length does not match four bytes per pixel of the resource size.
    ByteLengthMismatch,
    /// The platform could not create the resource.
    PlatformFailure,
}

/// A platform's store of standalone GPU image resources.
pub trait PlatformImageResources {
    /// Identities of the resources currently held.
    spec fn resident(&self) -> Set<u64>;

    /// Whether the resource with the given identity is held.
    fn contains(&self, id: ImageResourceId) -> (present: bool)
        ensures
            present == self.resident().contains(id.0),
    ;

    /// Uploads a prepared buffer as a resource; on success the resource is held.
    fn upsert(&mut self, upload: PreparedImageUpload) -> (result: Result<
        ImageResource,
        ImageResourceError,
    >)
        ensures
            match result {
                Ok(resource) => {
                    &&& resource == upload_resource(upload)
                    &&& final(self).resident() == old(self).resident().insert(resource.id.0)
                },
                Err(_) => final(self).resident() == old(self).resident(),
            },
    ;

    /// Drops the resource with the given identity.
    fn remove(&mut self, id: ImageResourceId)
        ensures
            final(self).resident() == old(self).resident().remove(id.0),
    ;

    /// Drops every resource.
    fn clear(&mut self)
        ensures
            final(self).resident() == Set::<u64>::empty(),
    ;
}

/// Content-free facts about one held image resource.
#[derive(Clone, Copy, Debug, PartialEq, Eq, Structural)]
pub struct ImageResourceDiagnostic {
    /// Resource identity.
    pub resource_id: u64,
    /// Source identity.
    pub source_id: u64,
    /// Width in device pixels (negative counts as zero).
    pub width: u32,
    /// Height in device pixels (negative counts as zero).
    pub height: u32,
    /// Estimated GPU bytes.
    pub gpu_bytes_estimate: u64,
}

/// Non-negative device-pixel extent as an unsigned width.
pub open spec fn extent(value: DevicePixels) -> u32 {
    if value.0 < 0 { 0u32 } else { value.0 as u32 }
}

/// The diagnostic of a resource.
pub open spec fn resource_diagnostic(resource: ImageResource) -> ImageResourceDiagnostic {
    ImageResourceDiagnostic {
        resource_id: resource.id.0,
        source_id: resource.source_id.value(),
        width: extent(resource.size.width),
        height: extent(resource.size.height),
        gpu_bytes_estimate: resource_bytes(resource.size),
    }
}

impl ImageResourceDiagnostic {
    /// The diagnostic of a resource.
    pub fn new(resource: &ImageResource) -> (diagnostic: Self)
        ensures
            diagnostic == resource_diagnostic(*resource),
    {
        let width: u32 = if resource.size.width.0 < 0 { 0 } else { resource.size.width.0 as u32 };
        let height: u32 = if resource.size.height.0 < 0 { 0 } else { resource.size.height.0 as u32 };
        ImageResourceDiagnostic {
            resource_id: resource.id.0,
            source_id: resource.source_id.as_u64(),
            width,
            height,
            gpu_bytes_estimate: resource.gpu_bytes_estimate(),
        }
    }
}

/// Saturating `u64` addition.
pub open spec fn sat_add(left: u64, right: u64) -> u64 {
    if left + right > u64::MAX { u64::MAX } else { (left + right) as u64 }
}

/// Saturating `u64` addition.
pub fn saturating_add(left: u64, right: u64) -> (sum: u64)
    ensures
        sum == sat_add(left, right),
{
    match left.checked_add(right) {
        Some(sum) => sum,
        None => u64::MAX,
    }
}

/// In-memory image resources of the test platform.
pub struct TestImageResources {
    resources: HashMap<u64, ImageResource>,
    upload_count: u64,
    upload_bytes: u64,
}

impl TestImageResources {
    /// Held resources by identity.
    pub closed spec fn held(&self) -> Map<u64, ImageResource> {
        self.resources@
    }

    /// Successful uploads so far and their bytes (both saturating).
    pub closed spec fn uploads(&self) -> (u64, u64) {
        (self.upload_count, self.upload_bytes)
    }

    /// An empty store.
    pub fn new() -> (resources: Self)
        ensures
            resources.held() == Map::<u64, ImageResource>::empty(),
            resources.uploads() == (0u64, 0u64),
    {
        TestImageResources { resources: HashMap::new(), upload_count: 0, upload_bytes: 0 }
    }
}

impl PlatformImageResources for TestImageResources {
    closed spec fn resident(&self) -> Set<u64> {
        self.resources@.dom()
    }

    fn contains(&self, id: ImageResourceId) -> (present: bool) {
        self.resources.contains_key(&id.0)
    }

    /// Uploads the buffer when its length is four bytes per pixel of the upload size, counting the
    /// upload and its bytes; otherwise rejects it.
    fn upsert(&mut self, upload: PreparedImageUpload) -> (result: Result<
        ImageResource,
        ImageResourceError,
    >)
        ensures
            match result {
                Ok(resource) => {
                    &&& upload.bytes().len() == resource_bytes(upload.upload_size())
                    &&& final(self).held() == old(self).held().insert(resource.id.0, resource)
                    &&& final(self).uploads() == (
                        sat_add(old(self).uploads().0, 1),
                        sat_add(old(self).uploads().1, upload.bytes().len() as u64),
                    )
                },
                Err(error) => {
                    &&& upload.bytes().len() != resource_bytes(upload.upload_size())
                    &&& error == ImageResourceError::ByteLengthMismatch
                    &&& final(self).held() == old(self).held()
                    &&& final(self).uploads() == old(self).uploads()
                },
            },
    {
        let resource = ImageResource::from_upload(&upload);
        let pixels = upload.into_pixels();
        let expected_bytes = resource.gpu_bytes_estimate();
        let length = pixels.len();
        if length as u64 != expected_bytes {
            return Err(ImageResourceError::ByteLengthMismatch);
        }
        self.upload_count = saturating_add(self.upload_count, 1);
        self.upload_bytes = saturating_add(self.upload_bytes, length as u64);
        self.resources.insert(resource.id.0, resource);
        Ok(resource)
    }

    fn remove(&mut self, id: ImageResourceId) {
        self.resources.remove(&id.0);
    }

    fn clear(&mut self) {
        self.resources.clear();
    }
}

/// Most resources listed one by one in a capped snapshot.
pub const MAX_IMAGE_RESOURCE_DIAGNOSTIC_ITEMS: usize = 32;

/// Held standalone image resources and the uploads that created them.
#[derive(Clone, Debug)]
pub struct ImageResourceDiagnosticSnapshot {
    /// Held resources.
    pub resource_count: usize,
    /// Successful uploads (saturating).
    pub upload_count: u64,
    /// Uploaded bytes (saturating).
    pub upload_bytes: u64,
    /// Estimated GPU bytes of the held resources (saturating).
    pub gpu_bytes_estimate: u64,
    /// Held resources, one by one.
    pub items: Vec<ImageResourceDiagnostic>,
    /// Whether held resources were left out of the list.
    pub truncated: bool,
}

/// Estimated GPU bytes of the resources named by `order`, added in that order with saturation.
pub open spec fn listed_gpu_bytes(order: Seq<u64>, held: Map<u64, ImageResource>) -> u64
    decreases order.len(),
{
    if order.len() == 0 {
        0
    } else {
        sat_add(listed_gpu_bytes(order.drop_last(), held), resource_bytes(held[order.last()].size))
    }
}

/// The diagnostics of the resources named by `order`.
pub open spec fn listed_diagnostics(order: Seq<u64>, held: Map<u64, ImageResource>) -> Seq<
    ImageResourceDiagnostic,
> {
    order.map_values(|id: u64| resource_diagnostic(held[id]))
}

/// Totals and items over the held resources in the order the store walks them, listing at most
/// `cap` items.
fn held_diagnostics(resources: &HashMap<u64, ImageResource>, cap: usize) -> (result: (
    u64,
    Vec<ImageResourceDiagnostic>,
    bool,
))
    ensures
        exists|order: Seq<u64>|
            {
                &&& order.no_duplicates()
                &&& order.to_set() == resources@.dom()
                &&& result.0 == listed_gpu_bytes(order, resources@)
                &&& result.1@ == listed_diagnostics(
                    order.take(if order.len() < cap { order.len() as int } else { cap as int }),
                    resources@,
                )
                &&& result.2 == (order.len() > cap)
            },
{
    let ids = crate::source_backed::map_keys(resources);
    let mut gpu_bytes: u64 = 0;
    let mut items: Vec<ImageResourceDiagnostic> = Vec::new();
    let mut truncated = false;
    let mut index: usize = 0;
    while index < ids.len()
        invariant
            ids@.to_set() == resources@.dom(),
            index <= ids@.len(),
            gpu_bytes == listed_gpu_bytes(ids@.take(index as int), resources@),
            items@ == listed_diagnostics(
                ids@.take(if index < cap { index as int } else { cap as int }),
                resources@,
            ),
            truncated == (index > cap),
        decreases ids@.len() - index,
    {
        let id = ids[index];
        proof {
            assert(ids@.to_set().contains(id));
            assert(ids@.take(index + 1).drop_last() =~= ids@.take(index as int));
        }
        let resource = match resources.get(&id) {
            Some(resource) => *resource,
            None => {
                proof {
                    assert(false);
                }
                return (gpu_bytes, items, truncated);
            },
        };
        gpu_bytes = saturating_add(gpu_bytes, resource.gpu_bytes_estimate());
        if items.len() < cap {
            let item = ImageResourceDiagnostic::new(&resource);
            proof {
                assert(ids@.take(index + 1) =~= ids@.take(index as int).push(id));
                assert(listed_diagnostics(ids@.take(index + 1), resources@) =~= listed_diagnostics(
                    ids@.take(index as int),
                    resources@,
                ).push(item));
            }
            items.push(item);
        } else {
            truncated = true;
        }
        index = index + 1;
    }
    proof {
        assert(ids@.take(ids@.len() as int) =~= ids@);
    }
    (gpu_bytes, items, truncated)
}

impl TestImageResources {
    /// Held resources, uploads so far, and every held resource's diagnostic.
    pub fn diagnostic_snapshot(&self) -> (snapshot: ImageResourceDiagnosticSnapshot)
        ensures
            snapshot.resource_count == self.held().len(),
            snapshot.upload_count == self.uploads().0,
            snapshot.upload_bytes == self.uploads().1,
            !snapshot.truncated,
            exists|order: Seq<u64>|
                {
                    &&& order.no_duplicates()
                    &&& order.to_set() == self.held().dom()
                    &&& snapshot.gpu_bytes_estimate == listed_gpu_bytes(order, self.held())
                    &&& snapshot.items@ == listed_diagnostics(order, self.held())
                },
    {
        let resource_count = self.resources.len();
        let (gpu_bytes_estimate, items, _) = held_diagnostics(&self.resources, usize::MAX);
        proof {
            let order = choose|order: Seq<u64>|
                {
                    &&& order.no_duplicates()
                    &&& order.to_set() == self.resources@.dom()
                    &&& gpu_bytes_estimate == listed_gpu_bytes(order, self.resources@)
                    &&& items@ == listed_diagnostics(
                        order.take(if order.len() < usize::MAX { order.len() as int } else { usize::MAX as int }),
                        self.resources@,
                    )
                    &&& (order.len() > usize::MAX) == (order.len() > usize::MAX)
                };
            order.unique_seq_to_set();
            assert(order.len() <= usize::MAX);
            if order.len() < usize::MAX {
                assert(order.take(order.len() as int) =~= order);
            } else {
                assert(order.take(usize::MAX as int) =~= order);
            }
        }
        ImageResourceDiagnosticSnapshot {
            resource_count,
            upload_count: self.upload_count,
            upload_bytes: self.upload_bytes,
            gpu_bytes_estimate,
            items,
            truncated: false,
        }
    }
}

/// The bookkeeping of the GPU image resources of the DirectX platform: the metadata of each held
/// resource and the upload counters. Textures and views live with the device, outside it.
pub struct DirectXImageResourcesState {
    resources: HashMap<u64, ImageResource>,
    upload_count: u64,
    upload_bytes: u64,
}

impl DirectXImageResourcesState {
    /// Held resources by identity.
    pub closed spec fn held(&self) -> Map<u64, ImageResource> {
        self.resources@
    }

    /// Successful uploads so far and their bytes (both saturating).
    pub closed spec fn uploads(&self) -> (u64, u64) {
        (self.upload_count, self.upload_bytes)
    }

    /// No resource held and nothing uploaded.
    pub fn new() -> (state: Self)
        ensures
            state.held() == Map::<u64, ImageResource>::empty(),
            state.uploads() == (0u64, 0u64),
    {
        DirectXImageResourcesState { resources: HashMap::new(), upload_count: 0, upload_bytes: 0 }
    }

    /// The resource a prepared buffer creates, when its length is four bytes per pixel of the
    /// upload size; otherwise the upload is rejected before any texture is made.
    pub fn check_upload(&self, upload: &PreparedImageUpload) -> (result: Result<
        ImageResource,
        ImageResourceError,
    >)
        ensures
            match result {
                Ok(resource) => resource == upload_resource(*upload) && upload.bytes().len()
                    == resource_bytes(upload.upload_size()),
                Err(error) => error == ImageResourceError::ByteLengthMismatch && upload.bytes().len()
                    != resource_bytes(upload.upload_size()),
            },
    {
        let resource = ImageResource::from_upload(upload);
        if upload.pixels().len() as u64 != resource.gpu_bytes_estimate() {
            return Err(ImageResourceError::ByteLengthMismatch);
        }
        Ok(resource)
    }

    /// Records a resource whose texture was made from `byte_len` bytes: the upload is counted and
    /// the resource held, replacing one of the same identity.
    pub fn record_upload(&mut self, resource: ImageResource, byte_len: usize)
        ensures
            final(self).held() == old(self).held().insert(resource.id.0, resource),
            final(self).uploads() == (
                sat_add(old(self).uploads().0, 1),
                sat_add(old(self).uploads().1, byte_len as u64),
            ),
    {
        self.upload_count = saturating_add(self.upload_count, 1);
        self.upload_bytes = saturating_add(self.upload_bytes, byte_len as u64);
        self.resources.insert(resource.id.0, resource);
    }

    /// Whether the resource with the given identity is held.
    pub fn contains(&self, id: ImageResourceId) -> (present: bool)
        ensures
            present == self.held().contains_key(id.0),
    {
        self.resources.contains_key(&id.0)
    }

    /// Drops the resource with the given identity.
    pub fn remove(&mut self, id: ImageResourceId)
        ensures
            final(self).held() == old(self).held().remove(id.0),
            final(self).uploads() == old(self).uploads(),
    {
        self.resources.remove(&id.0);
    }

    /// Drops every resource, as when the device is lost.
    pub fn clear(&mut self)
        ensures
            final(self).held() == Map::<u64, ImageResource>::empty(),
            final(self).uploads() == old(self).uploads(),
    {
        self.resources.clear();
    }

    /// Held resources, uploads so far, and the diagnostics of at most
    /// `MAX_IMAGE_RESOURCE_DIAGNOSTIC_ITEMS` held resources, marking the list truncated when
    /// more are held.
    pub fn diagnostic_snapshot(&self) -> (snapshot: ImageResourceDiagnosticSnapshot)
        ensures
            snapshot.resource_count == self.held().len(),
            snapshot.upload_count == self.uploads().0,
            snapshot.upload_bytes == self.uploads().1,
            exists|order: Seq<u64>|
                {
                    &&& order.no_duplicates()
                    &&& order.to_set() == self.held().dom()
                    &&& snapshot.gpu_bytes_estimate == listed_gpu_bytes(order, self.held())
                    &&& snapshot.items@ == listed_diagnostics(
                        order.take(
                            if order.len() < MAX_IMAGE_RESOURCE_DIAGNOSTIC_ITEMS {
                                order.len() as int
                            } else {
                                MAX_IMAGE_RESOURCE_DIAGNOSTIC_ITEMS as int
                            },
                        ),
                        self.held(),
                    )
                    &&& snapshot.truncated == (order.len() > MAX_IMAGE_RESOURCE_DIAGNOSTIC_ITEMS)
                },
    {
        let resource_count = self.resources.len();
        let (gpu_bytes_estimate, items, truncated) = held_diagnostics(
            &self.resources,
            MAX_IMAGE_RESOURCE_DIAGNOSTIC_ITEMS,
        );
        ImageResourceDiagnosticSnapshot {
            resource_count,
            upload_count: self.upload_count,
            upload_bytes: self.upload_bytes,
            gpu_bytes_estimate,
            items,
            truncated,
        }
    }
}

} // verus!
