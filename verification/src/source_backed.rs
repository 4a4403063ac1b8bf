use vstd::prelude::*;
use std::collections::{HashMap, HashSet};
use vstd::std_specs::iter::IteratorSpec;
use crate::geometry::{DevicePixels, Size};
use crate::image_prepare::{ImagePreparationOutcome, PreparedImageUpload};
use crate::image_source::{ImageRenderRequestId, ImageSourceId};
use crate::resources::{
    resource_bytes, sat_add, saturating_add, upload_resource, ImageResource, ImageResourceId,
    PlatformImageResources,
};

verus! {

broadcast use vstd::std_specs::hash::group_hash_axioms;

/// Default per-frame cap on standalone source-backed resources.
pub const DEFAULT_SOURCE_BACKED_IMAGE_RESOURCE_COUNT_LIMIT: usize = 128;

/// Default per-frame cap on estimated GPU bytes of standalone source-backed resources.
pub const DEFAULT_SOURCE_BACKED_IMAGE_GPU_BYTE_LIMIT: u64 = 256 * 1024 * 1024;

/// Default per-frame cap on preloaded resources.
pub const DEFAULT_SOURCE_BACKED_IMAGE_PRELOAD_RESOURCE_COUNT_LIMIT: usize = 32;

/// Default per-frame cap on estimated GPU bytes of preloaded resources.
pub const DEFAULT_SOURCE_BACKED_IMAGE_PRELOAD_GPU_BYTE_LIMIT: u64 = 64 * 1024 * 1024;

/// Largest per-dimension device-pixel difference at which a live resource serves a request.
pub const SOURCE_BACKED_IMAGE_RESOURCE_REUSE_DEVICE_PIXEL_TOLERANCE: u32 = 2;

/// Most request diagnostics reported by one snapshot.
pub const MAX_SOURCE_BACKED_IMAGE_DIAGNOSTIC_ITEMS: usize = 64;

/// Per-frame limits on resource count and estimated GPU bytes.
#[derive(Clone, Copy, Debug, PartialEq, Eq, Structural)]
pub struct SourceBackedImageBudget {
    max_resource_count: usize,
    max_gpu_bytes: u64,
}

impl SourceBackedImageBudget {
    /// The resource-count limit.
    pub closed spec fn count_limit(self) -> usize {
        self.max_resource_count
    }

    /// The GPU-byte limit.
    pub closed spec fn byte_limit(self) -> u64 {
        self.max_gpu_bytes
    }

    /// A budget with the given limits.
    pub fn new(max_resource_count: usize, max_gpu_bytes: u64) -> (budget: Self)
        ensures
            budget.count_limit() == max_resource_count,
            budget.byte_limit() == max_gpu_bytes,
    {
        Self { max_resource_count, max_gpu_bytes }
    }

    /// The default preload budget.
    pub fn preload_default() -> (budget: Self)
        ensures
            budget.count_limit() == DEFAULT_SOURCE_BACKED_IMAGE_PRELOAD_RESOURCE_COUNT_LIMIT,
            budget.byte_limit() == DEFAULT_SOURCE_BACKED_IMAGE_PRELOAD_GPU_BYTE_LIMIT,
    {
        Self {
            max_resource_count: DEFAULT_SOURCE_BACKED_IMAGE_PRELOAD_RESOURCE_COUNT_LIMIT,
            max_gpu_bytes: DEFAULT_SOURCE_BACKED_IMAGE_PRELOAD_GPU_BYTE_LIMIT,
        }
    }

    /// The resource-count limit.
    pub fn max_resource_count(self) -> (count: usize)
        ensures
            count == self.count_limit(),
    {
        self.max_resource_count
    }

    /// The GPU-byte limit.
    pub fn max_gpu_bytes(self) -> (bytes: u64)
        ensures
            bytes == self.byte_limit(),
    {
        self.max_gpu_bytes
    }
}

impl Default for SourceBackedImageBudget {
    fn default() -> (budget: Self)
        ensures
            budget.count_limit() == DEFAULT_SOURCE_BACKED_IMAGE_RESOURCE_COUNT_LIMIT,
            budget.byte_limit() == DEFAULT_SOURCE_BACKED_IMAGE_GPU_BYTE_LIMIT,
    {
        Self {
            max_resource_count: DEFAULT_SOURCE_BACKED_IMAGE_RESOURCE_COUNT_LIMIT,
            max_gpu_bytes: DEFAULT_SOURCE_BACKED_IMAGE_GPU_BYTE_LIMIT,
        }
    }
}

/// Status of one source-backed render request.
#[derive(Clone, Copy, Debug, PartialEq, Eq, Structural)]
pub enum SourceBackedImageRequestStatus {
    /// The request is unknown.
    Missing,
    /// Preparation is pending, or a live resource was lost and must be prepared again.
    Loading,
    /// A prepared buffer awaits upload.
    ReadyForUpload,
    /// A held resource serves the request.
    Live,
    /// The request was deferred by a per-frame budget.
    BudgetDeferred,
    /// Preparation failed.
    Failed,
}

/// Lifecycle state of one source-backed render request.
pub enum SourceBackedImageState {
    /// Preparation is pending.
    Loading,
    /// A prepared buffer awaits upload.
    Ready(PreparedImageUpload),
    /// A resource serves the request.
    Live(ImageResource),
    /// A per-frame budget deferred the request (for a preload or for the final scene).
    BudgetDeferred {
        /// Whether the preload budget deferred it.
        preload: bool,
    },
    /// Preparation failed.
    Failed,
}

/// One tracked source-backed render request.
pub struct SourceBackedImageEntry {
    /// Source the request renders.
    pub source_id: ImageSourceId,
    /// Most recently requested size.
    pub requested_size: Size<DevicePixels>,
    /// Lifecycle state.
    pub state: SourceBackedImageState,
}

/// What a paint of one request can use.
pub enum SourceBackedPaintCandidate {
    /// Nothing can be painted.
    Unavailable,
    /// Preparation is pending.
    Loading {
        /// Source of the request.
        source_id: ImageSourceId,
    },
    /// A prepared buffer is ready to upload.
    Ready {
        /// Source of the request.
        source_id: ImageSourceId,
        /// The prepared buffer.
        upload: PreparedImageUpload,
    },
    /// A held resource serves the request.
    Live(ImageResource),
}

/// Abstract state of a source-backed image store; maps and sets are keyed by identity values.
pub struct SourceBackedImageStoreView {
    /// Tracked requests.
    pub requests: Map<u64, SourceBackedImageEntry>,
    /// Latest live resource of each source.
    pub latest: Map<u64, ImageResource>,
    /// Last known prepared size of each source.
    pub known_sizes: Map<u64, Size<DevicePixels>>,
    /// Sources whose preparation failed.
    pub failed: Set<u64>,
    /// Requests painted this frame.
    pub requested: Set<u64>,
    /// Requests preloaded this frame.
    pub preload_requested: Set<u64>,
    /// Resources referenced by this frame's scene.
    pub referenced: Set<u64>,
    /// Estimated GPU bytes of the referenced resources (saturating).
    pub referenced_bytes: u64,
    /// Resources kept live by preloads this frame.
    pub preloaded: Set<u64>,
    /// Estimated GPU bytes of the preloaded resources (saturating).
    pub preloaded_bytes: u64,
    /// Resources kept live by preloads in the previous frame.
    pub preloaded_last: Set<u64>,
    /// Resources queued for removal from the platform.
    pub pending: Set<u64>,
    /// Resources ever queued for removal (saturating).
    pub evicted: u64,
    /// Previously preloaded resources evicted without an earlier queued removal (saturating).
    pub preload_evicted: u64,
    /// Preload budget deferrals (saturating).
    pub deferrals: u64,
}

/// Per-window source-backed image request and resource bookkeeping.
pub struct SourceBackedImageStore {
    requests: HashMap<u64, SourceBackedImageEntry>,
    latest_live_by_source: HashMap<u64, ImageResource>,
    known_size_by_source: HashMap<u64, Size<DevicePixels>>,
    failed_sources: HashSet<u64>,
    requested_this_frame: HashSet<u64>,
    preload_requested_this_frame: HashSet<u64>,
    referenced_this_frame: HashSet<u64>,
    referenced_gpu_bytes_this_frame: u64,
    preloaded_resource_ids_this_frame: HashSet<u64>,
    preloaded_gpu_bytes_this_frame: u64,
    preloaded_resource_ids_last_frame: HashSet<u64>,
    pending_resource_removals: HashSet<u64>,
    evicted_resource_count: u64,
    preload_evicted_resource_count: u64,
    preload_budget_deferral_count: u64,
}

impl View for SourceBackedImageStore {
    type V = SourceBackedImageStoreView;

    closed spec fn view(&self) -> SourceBackedImageStoreView {
        SourceBackedImageStoreView {
            requests: self.requests@,
            latest: self.latest_live_by_source@,
            known_sizes: self.known_size_by_source@,
            failed: self.failed_sources@,
            requested: self.requested_this_frame@,
            preload_requested: self.preload_requested_this_frame@,
            referenced: self.referenced_this_frame@,
            referenced_bytes: self.referenced_gpu_bytes_this_frame,
            preloaded: self.preloaded_resource_ids_this_frame@,
            preloaded_bytes: self.preloaded_gpu_bytes_this_frame,
            preloaded_last: self.preloaded_resource_ids_last_frame@,
            pending: self.pending_resource_removals@,
            evicted: self.evicted_resource_count,
            preload_evicted: self.preload_evicted_resource_count,
            deferrals: self.preload_budget_deferral_count,
        }
    }
}

/// The entry with its state replaced.
pub open spec fn with_state(entry: SourceBackedImageEntry, state: SourceBackedImageState) -> SourceBackedImageEntry {
    SourceBackedImageEntry { state, ..entry }
}

/// The resource a state holds live, if any.
pub open spec fn live_of(state: SourceBackedImageState) -> Option<ImageResource> {
    match state {
        SourceBackedImageState::Live(resource) => Some(resource),
        _ => None,
    }
}

/// Status of a request given the platform's held resources.
pub open spec fn status_of(
    view: SourceBackedImageStoreView,
    request: u64,
    resident: Set<u64>,
) -> SourceBackedImageRequestStatus {
    if !view.requests.contains_key(request) {
        SourceBackedImageRequestStatus::Missing
    } else {
        match view.requests[request].state {
            SourceBackedImageState::Loading => SourceBackedImageRequestStatus::Loading,
            SourceBackedImageState::Ready(_) => SourceBackedImageRequestStatus::ReadyForUpload,
            SourceBackedImageState::Live(resource) => if resident.contains(resource.id.0) {
                SourceBackedImageRequestStatus::Live
            } else {
                SourceBackedImageRequestStatus::Loading
            },
            SourceBackedImageState::BudgetDeferred { .. } => SourceBackedImageRequestStatus::BudgetDeferred,
            SourceBackedImageState::Failed => SourceBackedImageRequestStatus::Failed,
        }
    }
}

/// Whether two device-pixel values differ by at most the reuse tolerance.
pub open spec fn within_tolerance(a: DevicePixels, b: DevicePixels) -> bool {
    -(SOURCE_BACKED_IMAGE_RESOURCE_REUSE_DEVICE_PIXEL_TOLERANCE as int) <= a.0 - b.0
        <= SOURCE_BACKED_IMAGE_RESOURCE_REUSE_DEVICE_PIXEL_TOLERANCE as int
}

/// Whether a live resource of the given size can serve a request of the given size.
pub open spec fn size_matches(resource: Size<DevicePixels>, requested: Size<DevicePixels>) -> bool {
    within_tolerance(resource.width, requested.width) && within_tolerance(
        resource.height,
        requested.height,
    )
}

fn device_pixel_delta_within_tolerance(a: DevicePixels, b: DevicePixels) -> (within: bool)
    ensures
        within == within_tolerance(a, b),
{
    let delta: i64 = a.0 as i64 - b.0 as i64;
    -2 <= delta && delta <= 2
}

/// Whether a live resource of the given size can serve a request of the given size.
pub fn source_backed_resource_matches_request(
    resource_size: Size<DevicePixels>,
    requested_size: Size<DevicePixels>,
) -> (matches: bool)
    ensures
        matches == size_matches(resource_size, requested_size),
{
    device_pixel_delta_within_tolerance(resource_size.width, requested_size.width)
        && device_pixel_delta_within_tolerance(resource_size.height, requested_size.height)
}

/// The keys of a map, each once.
pub(crate) fn map_keys<V>(map: &HashMap<u64, V>) -> (keys: Vec<u64>)
    ensures
        keys@.no_duplicates(),
        keys@.to_set() == map@.dom(),
{
    let mut keys: Vec<u64> = Vec::new();
    for key in it: map.keys()
        invariant
            keys@ == it.seq().take(it.index()).unref(),
            it.seq() == map.keys().remaining(),
    {
        keys.push(*key);
    }
    assert(keys@ == map.keys().remaining().unref());
    keys
}

/// The members of a set, each once.
fn set_members(set: &HashSet<u64>) -> (members: Vec<u64>)
    ensures
        members@.no_duplicates(),
        members@.to_set() == set@,
{
    let mut members: Vec<u64> = Vec::new();
    for member in it: set.iter()
        invariant
            members@ == it.seq().take(it.index()).unref(),
            it.seq() == set.iter().remaining(),
    {
        members.push(*member);
    }
    assert(members@ == set.iter().remaining().unref());
    members
}

impl SourceBackedImageStore {
    /// An empty store.
    pub fn new() -> (store: Self)
        ensures
            store@.requests == Map::<u64, SourceBackedImageEntry>::empty(),
            store@.latest == Map::<u64, ImageResource>::empty(),
            store@.known_sizes == Map::<u64, Size<DevicePixels>>::empty(),
            store@.failed == Set::<u64>::empty(),
            store@.requested == Set::<u64>::empty(),
            store@.preload_requested == Set::<u64>::empty(),
            store@.referenced == Set::<u64>::empty(),
            store@.referenced_bytes == 0,
            store@.preloaded == Set::<u64>::empty(),
            store@.preloaded_bytes == 0,
            store@.preloaded_last == Set::<u64>::empty(),
            store@.pending == Set::<u64>::empty(),
            store@.evicted == 0,
            store@.preload_evicted == 0,
            store@.deferrals == 0,
    {
        SourceBackedImageStore {
            requests: HashMap::new(),
            latest_live_by_source: HashMap::new(),
            known_size_by_source: HashMap::new(),
            failed_sources: HashSet::new(),
            requested_this_frame: HashSet::new(),
            preload_requested_this_frame: HashSet::new(),
            referenced_this_frame: HashSet::new(),
            referenced_gpu_bytes_this_frame: 0,
            preloaded_resource_ids_this_frame: HashSet::new(),
            preloaded_gpu_bytes_this_frame: 0,
            preloaded_resource_ids_last_frame: HashSet::new(),
            pending_resource_removals: HashSet::new(),
            evicted_resource_count: 0,
            preload_evicted_resource_count: 0,
            preload_budget_deferral_count: 0,
        }
    }

    /// Starts a frame: forgets this frame's requests, references and preloads.
    pub fn begin_frame(&mut self)
        ensures
            final(self)@ == (SourceBackedImageStoreView {
                requested: Set::empty(),
                preload_requested: Set::empty(),
                referenced: Set::empty(),
                referenced_bytes: 0,
                preloaded: Set::empty(),
                preloaded_bytes: 0,
                ..old(self)@
            }),
    {
        self.requested_this_frame.clear();
        self.preload_requested_this_frame.clear();
        self.referenced_this_frame.clear();
        self.referenced_gpu_bytes_this_frame = 0;
        self.preloaded_resource_ids_this_frame.clear();
        self.preloaded_gpu_bytes_this_frame = 0;
    }

    /// The last known size of a source: its last prepared size, or else the size of its latest
    /// live resource while the platform still holds it.
    pub fn latest_size<R: PlatformImageResources>(
        &self,
        source_id: ImageSourceId,
        image_resources: &R,
    ) -> (size: Option<Size<DevicePixels>>)
        ensures
            size == if self@.known_sizes.contains_key(source_id.value()) {
                Some(self@.known_sizes[source_id.value()])
            } else if self@.latest.contains_key(source_id.value()) && image_resources.resident().contains(
                self@.latest[source_id.value()].id.0,
            ) {
                Some(self@.latest[source_id.value()].size)
            } else {
                None
            },
    {
        let key = source_id.as_u64();
        match self.known_size_by_source.get(&key) {
            Some(size) => {
                return Some(*size);
            },
            None => {},
        }
        match self.latest_live_by_source.get(&key) {
            Some(resource) => if image_resources.contains(resource.id) {
                Some(resource.size)
            } else {
                None
            },
            None => None,
        }
    }

    /// The latest live resource of a source while the platform holds it; a lost one is forgotten.
    pub fn latest_resource<R: PlatformImageResources>(
        &mut self,
        source_id: ImageSourceId,
        image_resources: &R,
    ) -> (resource: Option<ImageResource>)
        ensures
            ({
                let key = source_id.value();
                if !old(self)@.latest.contains_key(key) {
                    resource is None && final(self)@ == old(self)@
                } else if image_resources.resident().contains(old(self)@.latest[key].id.0) {
                    resource == Some(old(self)@.latest[key]) && final(self)@ == old(self)@
                } else {
                    resource is None && final(self)@ == (SourceBackedImageStoreView {
                        latest: old(self)@.latest.remove(key),
                        ..old(self)@
                    })
                }
            }),
    {
        let key = source_id.as_u64();
        let resource = match self.latest_live_by_source.get(&key) {
            Some(resource) => *resource,
            None => {
                return None;
            },
        };
        if image_resources.contains(resource.id) {
            Some(resource)
        } else {
            self.latest_live_by_source.remove(&key);
            None
        }
    }

    /// Whether a source's preparation failed.
    pub fn has_failed(&self, source_id: ImageSourceId) -> (failed: bool)
        ensures
            failed == self@.failed.contains(source_id.value()),
    {
        self.failed_sources.contains(&source_id.as_u64())
    }

    /// Status of a request given the platform's held resources.
    pub fn request_status<R: PlatformImageResources>(
        &self,
        request_id: ImageRenderRequestId,
        image_resources: &R,
    ) -> (status: SourceBackedImageRequestStatus)
        ensures
            status == status_of(self@, request_id.value(), image_resources.resident()),
    {
        let entry = match self.requests.get(&request_id.as_u64()) {
            Some(entry) => entry,
            None => {
                return SourceBackedImageRequestStatus::Missing;
            },
        };
        match &entry.state {
            SourceBackedImageState::Loading => SourceBackedImageRequestStatus::Loading,
            SourceBackedImageState::Ready(_) => SourceBackedImageRequestStatus::ReadyForUpload,
            SourceBackedImageState::Live(resource) => if image_resources.contains(resource.id) {
                SourceBackedImageRequestStatus::Live
            } else {
                SourceBackedImageRequestStatus::Loading
            },
            SourceBackedImageState::BudgetDeferred { .. } => SourceBackedImageRequestStatus::BudgetDeferred,
            SourceBackedImageState::Failed => SourceBackedImageRequestStatus::Failed,
        }
    }
}/// Requests with the state of one request replaced, when it is tracked.
pub open spec fn updated_state(
    requests: Map<u64, SourceBackedImageEntry>,
    key: u64,
    state: SourceBackedImageState,
) -> Map<u64, SourceBackedImageEntry> {
    if requests.contains_key(key) {
        requests.insert(key, with_state(requests[key], state))
    } else {
        requests
    }
}

/// The live resource of a tracked request, if any.
pub open spec fn tracked_live(view: SourceBackedImageStoreView, key: u64) -> Option<ImageResource> {
    if view.requests.contains_key(key) {
        live_of(view.requests[key].state)
    } else {
        None
    }
}

/// Latest live resources without a source's entry when that entry is the given resource.
pub open spec fn without_latest_matching(
    latest: Map<u64, ImageResource>,
    source: u64,
    resource: ImageResourceId,
) -> Map<u64, ImageResource> {
    if latest.contains_key(source) && latest[source].id == resource {
        latest.remove(source)
    } else {
        latest
    }
}

/// The latest live resource of a source, as a removal list.
pub open spec fn latest_removal(view: SourceBackedImageStoreView, source: u64) -> Seq<ImageResourceId> {
    if view.latest.contains_key(source) {
        seq![view.latest[source].id]
    } else {
        Seq::empty()
    }
}

/// Resources released when a request of a source fails: the source's latest live resource, then
/// the request's own live resource unless it is the same one.
pub open spec fn failed_removals(
    view: SourceBackedImageStoreView,
    key: u64,
    source: u64,
) -> Seq<ImageResourceId> {
    let first = latest_removal(view, source);
    match tracked_live(view, key) {
        Some(resource) => if first.contains(resource.id) {
            first
        } else {
            first.push(resource.id)
        },
        None => first,
    }
}

/// State after recording a held resource as serving a request and as its source's latest live
/// resource.
pub open spec fn live_outcome(
    view: SourceBackedImageStoreView,
    key: u64,
    source_id: ImageSourceId,
    resource: ImageResource,
) -> SourceBackedImageStoreView {
    SourceBackedImageStoreView {
        failed: view.failed.remove(source_id.value()),
        known_sizes: view.known_sizes.insert(source_id.value(), resource.size),
        latest: view.latest.insert(source_id.value(), resource),
        requests: updated_state(view.requests, key, SourceBackedImageState::Live(resource)),
        ..view
    }
}

/// Released resources and state after a request of a source fails.
pub open spec fn failed_outcome(
    view: SourceBackedImageStoreView,
    key: u64,
    source_id: ImageSourceId,
) -> (Seq<ImageResourceId>, SourceBackedImageStoreView) {
    (
        failed_removals(view, key, source_id.value()),
        SourceBackedImageStoreView {
            failed: view.failed.insert(source_id.value()),
            latest: view.latest.remove(source_id.value()),
            requests: updated_state(view.requests, key, SourceBackedImageState::Failed),
            ..view
        },
    )
}

/// Released resources and state after a budget defers a request: its live resource, if any, is
/// released (and forgotten as its source's latest); a preload deferral is counted.
pub open spec fn deferred_outcome(
    view: SourceBackedImageStoreView,
    key: u64,
    source_id: ImageSourceId,
    preload: bool,
) -> (Seq<ImageResourceId>, SourceBackedImageStoreView) {
    (
        match tracked_live(view, key) {
            Some(resource) => seq![resource.id],
            None => Seq::<ImageResourceId>::empty(),
        },
        SourceBackedImageStoreView {
            failed: view.failed.remove(source_id.value()),
            deferrals: if preload {
                sat_add(view.deferrals, 1)
            } else {
                view.deferrals
            },
            requests: updated_state(
                view.requests,
                key,
                SourceBackedImageState::BudgetDeferred { preload },
            ),
            latest: match tracked_live(view, key) {
                Some(resource) => without_latest_matching(view.latest, source_id.value(), resource.id),
                None => view.latest,
            },
            ..view
        },
    )
}

/// State after recording a resource as kept live by a preload, counting its bytes once.
pub open spec fn preloaded_outcome(
    view: SourceBackedImageStoreView,
    resource: ImageResource,
) -> SourceBackedImageStoreView {
    SourceBackedImageStoreView {
        preloaded: view.preloaded.insert(resource.id.0),
        preloaded_bytes: if view.preloaded.contains(resource.id.0) {
            view.preloaded_bytes
        } else {
            sat_add(view.preloaded_bytes, resource_bytes(resource.size))
        },
        ..view
    }
}

/// What a paint of a request can use, and the state after asking: a ready buffer is handed out
/// (the request waits for its upload); a live resource the platform no longer holds sends the
/// request back to loading and is forgotten as its source's latest.
pub open spec fn candidate_outcome(
    view: SourceBackedImageStoreView,
    key: u64,
    resident: Set<u64>,
) -> (SourceBackedPaintCandidate, SourceBackedImageStoreView) {
    if !view.requests.contains_key(key) {
        (SourceBackedPaintCandidate::Unavailable, view)
    } else {
        let entry = view.requests[key];
        match entry.state {
            SourceBackedImageState::Ready(upload) => (
                SourceBackedPaintCandidate::Ready { source_id: entry.source_id, upload },
                SourceBackedImageStoreView {
                    requests: view.requests.insert(
                        key,
                        with_state(entry, SourceBackedImageState::Loading),
                    ),
                    ..view
                },
            ),
            SourceBackedImageState::Live(resource) => if resident.contains(resource.id.0) {
                (SourceBackedPaintCandidate::Live(resource), view)
            } else {
                (
                    SourceBackedPaintCandidate::Loading { source_id: entry.source_id },
                    SourceBackedImageStoreView {
                        latest: view.latest.remove(entry.source_id.value()),
                        requests: view.requests.insert(
                            key,
                            with_state(entry, SourceBackedImageState::Loading),
                        ),
                        ..view
                    },
                )
            },
            SourceBackedImageState::Loading => (
                SourceBackedPaintCandidate::Loading { source_id: entry.source_id },
                view,
            ),
            _ => (SourceBackedPaintCandidate::Unavailable, view),
        }
    }
}

/// Whether a resource fits this frame's paint budget.
pub open spec fn paint_allowed(
    view: SourceBackedImageStoreView,
    resource: ImageResource,
    budget: SourceBackedImageBudget,
) -> bool {
    let bytes = resource_bytes(resource.size);
    view.referenced.contains(resource.id.0) || (budget.count_limit() != 0 && bytes
        <= budget.byte_limit() && view.referenced.len() < budget.count_limit() && sat_add(
        view.referenced_bytes,
        bytes,
    ) <= budget.byte_limit())
}

/// Whether a resource fits this frame's paint and preload budgets as a preload.
pub open spec fn preload_allowed(
    view: SourceBackedImageStoreView,
    resource: ImageResource,
    budget: SourceBackedImageBudget,
    preload_budget: SourceBackedImageBudget,
) -> bool {
    let bytes = resource_bytes(resource.size);
    view.referenced.contains(resource.id.0) || view.preloaded.contains(resource.id.0) || (
    budget.count_limit() != 0 && preload_budget.count_limit() != 0 && bytes <= budget.byte_limit()
        && bytes <= preload_budget.byte_limit() && view.referenced.len() + view.preloaded.len()
        < budget.count_limit() && view.preloaded.len() < preload_budget.count_limit() && sat_add(
        sat_add(view.referenced_bytes, view.preloaded_bytes),
        bytes,
    ) <= budget.byte_limit() && sat_add(view.preloaded_bytes, bytes) <= preload_budget.byte_limit())
}

/// A resource not yet referenced or preloaded this frame is preloaded only within both budgets:
/// fewer resources are preloaded than the preload budget's count limit, the frame's referenced
/// and preloaded resources stay under the frame budget's count limit, the bytes fit both byte
/// limits, and such a preload would also be allowed to paint.
pub proof fn lemma_new_preloads_fit_both_budgets(
    view: SourceBackedImageStoreView,
    resource: ImageResource,
    budget: SourceBackedImageBudget,
    preload_budget: SourceBackedImageBudget,
)
    requires
        preload_allowed(view, resource, budget, preload_budget),
        !view.referenced.contains(resource.id.0),
        !view.preloaded.contains(resource.id.0),
    ensures
        view.preloaded.len() < preload_budget.count_limit(),
        view.referenced.len() + view.preloaded.len() < budget.count_limit(),
        resource_bytes(resource.size) <= preload_budget.byte_limit(),
        sat_add(view.preloaded_bytes, resource_bytes(resource.size)) <= preload_budget.byte_limit(),
        sat_add(view.referenced_bytes, resource_bytes(resource.size)) <= budget.byte_limit(),
        paint_allowed(view, resource, budget),
{
}

impl SourceBackedImageStore {
    /// Replaces a tracked request's state, returning the previous state.
    fn replace_state(&mut self, key: u64, state: SourceBackedImageState) -> (previous: Option<
        SourceBackedImageState,
    >)
        ensures
            match previous {
                None => !old(self)@.requests.contains_key(key) && final(self)@ == old(self)@,
                Some(previous) => {
                    &&& old(self)@.requests.contains_key(key)
                    &&& previous == old(self)@.requests[key].state
                    &&& final(self)@ == (SourceBackedImageStoreView {
                        requests: old(self)@.requests.insert(
                            key,
                            with_state(old(self)@.requests[key], state),
                        ),
                        ..old(self)@
                    })
                },
            },
    {
        let ghost before = self@;
        match self.requests.remove(&key) {
            None => {
                assert(self@.requests =~= before.requests);
                None
            },
            Some(entry) => {
                let SourceBackedImageEntry { source_id, requested_size, state: previous } = entry;
                self.requests.insert(key, SourceBackedImageEntry { source_id, requested_size, state });
                assert(self@.requests =~= before.requests.insert(
                    key,
                    with_state(before.requests[key], state),
                ));
                Some(previous)
            },
        }
    }

    /// Forgets a source's latest live resource when it is the given resource.
    fn remove_latest_if_matches(&mut self, source_id: ImageSourceId, resource_id: ImageResourceId)
        ensures
            final(self)@ == (SourceBackedImageStoreView {
                latest: without_latest_matching(old(self)@.latest, source_id.value(), resource_id),
                ..old(self)@
            }),
    {
        let key = source_id.as_u64();
        let matches = match self.latest_live_by_source.get(&key) {
            Some(resource) => resource.id == resource_id,
            None => false,
        };
        if matches {
            self.latest_live_by_source.remove(&key);
        }
    }

    /// Records a held resource as serving a request and as its source's latest live resource.
    pub fn mark_live(
        &mut self,
        request_id: ImageRenderRequestId,
        source_id: ImageSourceId,
        resource: ImageResource,
    )
        ensures
            final(self)@ == live_outcome(old(self)@, request_id.value(), source_id, resource),
    {
        let key = source_id.as_u64();
        self.failed_sources.remove(&key);
        self.known_size_by_source.insert(key, resource.size);
        self.latest_live_by_source.insert(key, resource);
        self.replace_state(request_id.as_u64(), SourceBackedImageState::Live(resource));
    }

    /// Records a failed request of a source and returns the resources to release.
    pub fn mark_failed(&mut self, request_id: ImageRenderRequestId, source_id: ImageSourceId) -> (removed:
        Vec<ImageResourceId>)
        ensures
            (removed@, final(self)@) == failed_outcome(old(self)@, request_id.value(), source_id),
    {
        let key = source_id.as_u64();
        self.failed_sources.insert(key);
        let mut removed: Vec<ImageResourceId> = Vec::new();
        match self.latest_live_by_source.remove(&key) {
            Some(resource) => {
                removed.push(resource.id);
            },
            None => {},
        }
        assert(removed@ == latest_removal(old(self)@, key));
        match self.replace_state(request_id.as_u64(), SourceBackedImageState::Failed) {
            Some(SourceBackedImageState::Live(resource)) => {
                let already = removed.len() == 1 && removed[0] == resource.id;
                assert(already == removed@.contains(resource.id));
                if !already {
                    removed.push(resource.id);
                }
            },
            _ => {},
        }
        removed
    }

    /// Records a request deferred by a budget and returns the live resource it releases.
    pub fn mark_budget_deferred(
        &mut self,
        request_id: ImageRenderRequestId,
        source_id: ImageSourceId,
        preload: bool,
    ) -> (removed: Vec<ImageResourceId>)
        ensures
            (removed@, final(self)@) == deferred_outcome(
                old(self)@,
                request_id.value(),
                source_id,
                preload,
            ),
    {
        self.failed_sources.remove(&source_id.as_u64());
        if preload {
            self.preload_budget_deferral_count = saturating_add(self.preload_budget_deferral_count, 1);
        }
        let mut removed: Vec<ImageResourceId> = Vec::new();
        match self.replace_state(
            request_id.as_u64(),
            SourceBackedImageState::BudgetDeferred { preload },
        ) {
            Some(SourceBackedImageState::Live(resource)) => {
                removed.push(resource.id);
                self.remove_latest_if_matches(source_id, resource.id);
            },
            _ => {},
        }
        removed
    }

    /// Applies a preparation outcome to its request: a ready buffer awaits upload and records the
    /// source's size; a failure marks the source failed and releases its latest live resource.
    /// Outcomes of untracked requests are dropped.
    pub fn complete(&mut self, outcome: ImagePreparationOutcome) -> (removed: Vec<ImageResourceId>)
        ensures
            ({
                let key = crate::image_prepare::outcome_request(outcome).request_id().value();
                if !old(self)@.requests.contains_key(key) {
                    removed@ == Seq::<ImageResourceId>::empty() && final(self)@ == old(self)@
                } else {
                    let entry = old(self)@.requests[key];
                    let source = entry.source_id.value();
                    match outcome {
                        ImagePreparationOutcome::Ready(upload) => {
                            &&& removed@ == Seq::<ImageResourceId>::empty()
                            &&& final(self)@ == (SourceBackedImageStoreView {
                                failed: old(self)@.failed.remove(source),
                                known_sizes: old(self)@.known_sizes.insert(
                                    source,
                                    upload.upload_size(),
                                ),
                                requests: old(self)@.requests.insert(
                                    key,
                                    with_state(entry, SourceBackedImageState::Ready(upload)),
                                ),
                                ..old(self)@
                            })
                        },
                        ImagePreparationOutcome::Failed(_) => {
                            &&& removed@ == latest_removal(old(self)@, source)
                            &&& final(self)@ == (SourceBackedImageStoreView {
                                failed: old(self)@.failed.insert(source),
                                latest: old(self)@.latest.remove(source),
                                requests: old(self)@.requests.insert(
                                    key,
                                    with_state(entry, SourceBackedImageState::Failed),
                                ),
                                ..old(self)@
                            })
                        },
                    }
                }
            }),
    {
        let ghost before = self@;
        let key = outcome.request_id().as_u64();
        let entry = match self.requests.remove(&key) {
            Some(entry) => entry,
            None => {
                assert(self@.requests =~= before.requests);
                return Vec::new();
            },
        };
        let SourceBackedImageEntry { source_id, requested_size, state: _ } = entry;
        let source = source_id.as_u64();
        match outcome {
            ImagePreparationOutcome::Ready(upload) => {
                self.failed_sources.remove(&source);
                self.known_size_by_source.insert(source, upload.size());
                self.requests.insert(
                    key,
                    SourceBackedImageEntry {
                        source_id,
                        requested_size,
                        state: SourceBackedImageState::Ready(upload),
                    },
                );
                assert(self@.requests =~= before.requests.insert(
                    key,
                    with_state(before.requests[key], SourceBackedImageState::Ready(upload)),
                ));
                Vec::new()
            },
            ImagePreparationOutcome::Failed(_) => {
                self.failed_sources.insert(source);
                let mut removed: Vec<ImageResourceId> = Vec::new();
                match self.latest_live_by_source.remove(&source) {
                    Some(resource) => {
                        removed.push(resource.id);
                    },
                    None => {},
                }
                self.requests.insert(
                    key,
                    SourceBackedImageEntry {
                        source_id,
                        requested_size,
                        state: SourceBackedImageState::Failed,
                    },
                );
                assert(self@.requests =~= before.requests.insert(
                    key,
                    with_state(before.requests[key], SourceBackedImageState::Failed),
                ));
                removed
            },
        }
    }

    /// What a paint of a request can use. A ready buffer is handed out (the request waits for it
    /// to be uploaded); a lost live resource sends the request back to loading.
    pub fn candidate<R: PlatformImageResources>(
        &mut self,
        request_id: ImageRenderRequestId,
        image_resources: &R,
    ) -> (candidate: SourceBackedPaintCandidate)
        ensures
            (candidate, final(self)@) == candidate_outcome(
                old(self)@,
                request_id.value(),
                image_resources.resident(),
            ),
    {
        let ghost before = self@;
        let key = request_id.as_u64();
        let entry = match self.requests.remove(&key) {
            Some(entry) => entry,
            None => {
                assert(self@.requests =~= before.requests);
                return SourceBackedPaintCandidate::Unavailable;
            },
        };
        let SourceBackedImageEntry { source_id, requested_size, state } = entry;
        match state {
            SourceBackedImageState::Ready(upload) => {
                self.requests.insert(
                    key,
                    SourceBackedImageEntry {
                        source_id,
                        requested_size,
                        state: SourceBackedImageState::Loading,
                    },
                );
                assert(self@.requests =~= before.requests.insert(
                    key,
                    with_state(before.requests[key], SourceBackedImageState::Loading),
                ));
                SourceBackedPaintCandidate::Ready { source_id, upload }
            },
            SourceBackedImageState::Live(resource) => {
                if image_resources.contains(resource.id) {
                    self.requests.insert(
                        key,
                        SourceBackedImageEntry {
                            source_id,
                            requested_size,
                            state: SourceBackedImageState::Live(resource),
                        },
                    );
                    assert(self@.requests =~= before.requests);
                    SourceBackedPaintCandidate::Live(resource)
                } else {
                    self.latest_live_by_source.remove(&source_id.as_u64());
                    self.requests.insert(
                        key,
                        SourceBackedImageEntry {
                            source_id,
                            requested_size,
                            state: SourceBackedImageState::Loading,
                        },
                    );
                    assert(self@.requests =~= before.requests.insert(
                        key,
                        with_state(before.requests[key], SourceBackedImageState::Loading),
                    ));
                    SourceBackedPaintCandidate::Loading { source_id }
                }
            },
            SourceBackedImageState::Loading => {
                self.requests.insert(
                    key,
                    SourceBackedImageEntry {
                        source_id,
                        requested_size,
                        state: SourceBackedImageState::Loading,
                    },
                );
                assert(self@.requests =~= before.requests);
                SourceBackedPaintCandidate::Loading { source_id }
            },
            SourceBackedImageState::BudgetDeferred { preload } => {
                self.requests.insert(
                    key,
                    SourceBackedImageEntry {
                        source_id,
                        requested_size,
                        state: SourceBackedImageState::BudgetDeferred { preload },
                    },
                );
                assert(self@.requests =~= before.requests);
                SourceBackedPaintCandidate::Unavailable
            },
            SourceBackedImageState::Failed => {
                self.requests.insert(
                    key,
                    SourceBackedImageEntry {
                        source_id,
                        requested_size,
                        state: SourceBackedImageState::Failed,
                    },
                );
                assert(self@.requests =~= before.requests);
                SourceBackedPaintCandidate::Unavailable
            },
        }
    }

    /// Whether a resource fits this frame's paint budget (resources already referenced always do).
    pub fn can_paint(&self, resource: &ImageResource, budget: SourceBackedImageBudget) -> (allowed:
        bool)
        ensures
            allowed == paint_allowed(self@, *resource, budget),
    {
        if self.referenced_this_frame.contains(&resource.id.0) {
            return true;
        }
        let resource_bytes = resource.gpu_bytes_estimate();
        if budget.max_resource_count == 0 || resource_bytes > budget.max_gpu_bytes {
            return false;
        }
        self.referenced_this_frame.len() < budget.max_resource_count && saturating_add(
            self.referenced_gpu_bytes_this_frame,
            resource_bytes,
        ) <= budget.max_gpu_bytes
    }

    /// Whether a resource fits this frame's paint and preload budgets as a preload (resources
    /// already referenced or preloaded always do).
    pub fn can_preload(
        &self,
        resource: &ImageResource,
        budget: SourceBackedImageBudget,
        preload_budget: SourceBackedImageBudget,
    ) -> (allowed: bool)
        ensures
            allowed == preload_allowed(self@, *resource, budget, preload_budget),
    {
        if self.referenced_this_frame.contains(&resource.id.0)
            || self.preloaded_resource_ids_this_frame.contains(&resource.id.0) {
            return true;
        }
        let resource_bytes = resource.gpu_bytes_estimate();
        if budget.max_resource_count == 0 || preload_budget.max_resource_count == 0
            || resource_bytes > budget.max_gpu_bytes || resource_bytes
            > preload_budget.max_gpu_bytes {
            return false;
        }
        let referenced_count = self.referenced_this_frame.len();
        let preloaded_count = self.preloaded_resource_ids_this_frame.len();
        let total_resource_count: usize = match referenced_count.checked_add(preloaded_count) {
            Some(total) => total,
            None => usize::MAX,
        };
        total_resource_count < budget.max_resource_count && preloaded_count
            < preload_budget.max_resource_count && saturating_add(
            saturating_add(self.referenced_gpu_bytes_this_frame, self.preloaded_gpu_bytes_this_frame),
            resource_bytes,
        ) <= budget.max_gpu_bytes && saturating_add(self.preloaded_gpu_bytes_this_frame, resource_bytes)
            <= preload_budget.max_gpu_bytes
    }

    /// Records a resource as referenced by this frame's scene, counting its bytes once.
    pub fn mark_referenced(&mut self, resource: &ImageResource)
        ensures
            final(self)@ == (SourceBackedImageStoreView {
                referenced: old(self)@.referenced.insert(resource.id.0),
                referenced_bytes: if old(self)@.referenced.contains(resource.id.0) {
                    old(self)@.referenced_bytes
                } else {
                    sat_add(old(self)@.referenced_bytes, resource_bytes(resource.size))
                },
                ..old(self)@
            }),
    {
        if self.referenced_this_frame.insert(resource.id.0) {
            self.referenced_gpu_bytes_this_frame = saturating_add(
                self.referenced_gpu_bytes_this_frame,
                resource.gpu_bytes_estimate(),
            );
        }
    }

    /// Records a resource as kept live by a preload this frame, counting its bytes once.
    fn mark_preloaded(&mut self, resource: &ImageResource)
        ensures
            final(self)@ == preloaded_outcome(old(self)@, *resource),
    {
        if self.preloaded_resource_ids_this_frame.insert(resource.id.0) {
            self.preloaded_gpu_bytes_this_frame = saturating_add(
                self.preloaded_gpu_bytes_this_frame,
                resource.gpu_bytes_estimate(),
            );
        }
    }
}
/// Whether an entry holds the given resource live.
pub open spec fn is_live_with(entry: SourceBackedImageEntry, resource: ImageResourceId) -> bool {
    match entry.state {
        SourceBackedImageState::Live(live) => live.id == resource,
        _ => false,
    }
}

/// Requests without the entries, other than the retained one, that hold the given resource live.
pub open spec fn without_live_duplicates(
    requests: Map<u64, SourceBackedImageEntry>,
    retained: u64,
    resource: ImageResourceId,
) -> Map<u64, SourceBackedImageEntry> {
    Map::new(
        |key: u64|
            requests.contains_key(key) && (key == retained || !is_live_with(requests[key], resource)),
        |key: u64| requests[key],
    )
}

/// The view with one more request recorded for this frame, as a paint or as a preload.
pub open spec fn record_request(
    view: SourceBackedImageStoreView,
    key: u64,
    preload: bool,
) -> SourceBackedImageStoreView {
    if preload {
        SourceBackedImageStoreView { preload_requested: view.preload_requested.insert(key), ..view }
    } else {
        SourceBackedImageStoreView { requested: view.requested.insert(key), ..view }
    }
}

/// Outcome of requesting a render of a source at a size: whether preparation must be spawned,
/// and the new state.
///
/// A tracked request is resized; it is sent back to loading (and must be prepared) when its live
/// resource is no longer held or a budget had deferred it. An untracked request reuses the
/// source's latest live resource when it is held and within the size tolerance (a paint then
/// retires other requests holding that resource); otherwise it starts loading.
pub open spec fn request_outcome(
    view: SourceBackedImageStoreView,
    source_id: ImageSourceId,
    key: u64,
    size: Size<DevicePixels>,
    resident: Set<u64>,
    preload: bool,
) -> (bool, SourceBackedImageStoreView) {
    let source = source_id.value();
    let recorded = record_request(view, key, preload);
    let loading = SourceBackedImageEntry {
        source_id,
        requested_size: size,
        state: SourceBackedImageState::Loading,
    };
    if recorded.requests.contains_key(key) {
        let entry = recorded.requests[key];
        let resized = SourceBackedImageEntry { requested_size: size, ..entry };
        match entry.state {
            SourceBackedImageState::Live(resource) => if !resident.contains(resource.id.0) {
                (
                    true,
                    SourceBackedImageStoreView {
                        requests: recorded.requests.insert(
                            key,
                            with_state(resized, SourceBackedImageState::Loading),
                        ),
                        failed: recorded.failed.remove(source),
                        latest: without_latest_matching(
                            recorded.latest,
                            entry.source_id.value(),
                            resource.id,
                        ),
                        ..recorded
                    },
                )
            } else {
                (
                    false,
                    SourceBackedImageStoreView {
                        requests: recorded.requests.insert(key, resized),
                        ..recorded
                    },
                )
            },
            SourceBackedImageState::BudgetDeferred { .. } => (
                true,
                SourceBackedImageStoreView {
                    requests: recorded.requests.insert(
                        key,
                        with_state(resized, SourceBackedImageState::Loading),
                    ),
                    failed: recorded.failed.remove(source),
                    ..recorded
                },
            ),
            _ => (
                false,
                SourceBackedImageStoreView {
                    requests: recorded.requests.insert(key, resized),
                    ..recorded
                },
            ),
        }
    } else {
        let cleared = SourceBackedImageStoreView { failed: recorded.failed.remove(source), ..recorded };
        if cleared.latest.contains_key(source) && resident.contains(cleared.latest[source].id.0) {
            let resource = cleared.latest[source];
            if size_matches(resource.size, size) {
                let requests = cleared.requests.insert(
                    key,
                    SourceBackedImageEntry {
                        source_id,
                        requested_size: size,
                        state: SourceBackedImageState::Live(resource),
                    },
                );
                (
                    false,
                    SourceBackedImageStoreView {
                        requests: if preload {
                            requests
                        } else {
                            without_live_duplicates(requests, key, resource.id)
                        },
                        ..cleared
                    },
                )
            } else {
                (
                    true,
                    SourceBackedImageStoreView {
                        requests: cleared.requests.insert(key, loading),
                        ..cleared
                    },
                )
            }
        } else if cleared.latest.contains_key(source) {
            (
                true,
                SourceBackedImageStoreView {
                    latest: cleared.latest.remove(source),
                    requests: cleared.requests.insert(key, loading),
                    ..cleared
                },
            )
        } else {
            (
                true,
                SourceBackedImageStoreView {
                    requests: cleared.requests.insert(key, loading),
                    ..cleared
                },
            )
        }
    }
}

impl SourceBackedImageStore {
    /// Retires every request other than `retained` that holds the given resource live.
    fn remove_live_request_duplicates(&mut self, retained: u64, resource_id: ImageResourceId)
        ensures
            final(self)@ == (SourceBackedImageStoreView {
                requests: without_live_duplicates(old(self)@.requests, retained, resource_id),
                ..old(self)@
            }),
    {
        let keys = map_keys(&self.requests);
        let ghost initial = self@;
        let mut index: usize = 0;
        while index < keys.len()
            invariant
                keys@.no_duplicates(),
                keys@.to_set() == initial.requests.dom(),
                index <= keys.len(),
                self@ == (SourceBackedImageStoreView { requests: self@.requests, ..initial }),
                forall|key: u64|
                    #[trigger] self@.requests.contains_key(key) <==> (initial.requests.contains_key(
                        key,
                    ) && (!keys@.subrange(0, index as int).contains(key) || key == retained
                        || !is_live_with(initial.requests[key], resource_id))),
                forall|key: u64|
                    #[trigger] self@.requests.contains_key(key) ==> self@.requests[key]
                        == initial.requests[key],
            decreases keys.len() - index,
        {
            let key = keys[index];
            proof {
                assert(keys@.to_set().contains(key));
                assert(!keys@.subrange(0, index as int).contains(key)) by {
                    if keys@.subrange(0, index as int).contains(key) {
                        let j = choose|j: int| 0 <= j < index && keys@.subrange(0, index as int)[j]
                            == key;
                        assert(keys@[j] == keys@[index as int]);
                    }
                }
                assert(keys@.subrange(0, index + 1) =~= keys@.subrange(0, index as int).push(key));
            }
            let ghost before = self@.requests;
            assert(before.contains_key(key));
            let remove = key != retained && match self.requests.get(&key) {
                Some(entry) => match &entry.state {
                    SourceBackedImageState::Live(live) => live.id == resource_id,
                    _ => false,
                },
                None => false,
            };
            if remove {
                self.requests.remove(&key);
            }
            proof {
                assert forall|k: u64|
                    #[trigger] self@.requests.contains_key(k) <==> (initial.requests.contains_key(k)
                        && (!keys@.subrange(0, index + 1).contains(k) || k == retained
                        || !is_live_with(initial.requests[k], resource_id))) by {
                    if k != key {
                        assert(keys@.subrange(0, index + 1).contains(k) <==> keys@.subrange(
                            0,
                            index as int,
                        ).contains(k));
                        assert(before.contains_key(k) == self@.requests.contains_key(k));
                    } else {
                        assert(keys@.subrange(0, index + 1)[index as int] == k);
                        assert(keys@.subrange(0, index + 1).contains(k));
                        assert(before[k] == initial.requests[k]);
                    }
                }
            }
            index = index + 1;
        }
        proof {
            assert(keys@.subrange(0, keys@.len() as int) =~= keys@);
            assert(self@.requests =~= without_live_duplicates(initial.requests, retained, resource_id));
        }
    }

    /// Requests a render of a source at a size for this frame's scene; returns whether
    /// preparation must be spawned.
    pub fn request<R: PlatformImageResources>(
        &mut self,
        source_id: ImageSourceId,
        request_id: ImageRenderRequestId,
        requested_size: Size<DevicePixels>,
        image_resources: &R,
    ) -> (spawn: bool)
        ensures
            (spawn, final(self)@) == request_outcome(
                old(self)@,
                source_id,
                request_id.value(),
                requested_size,
                image_resources.resident(),
                false,
            ),
    {
        self.request_source_backed_image(source_id, request_id, requested_size, image_resources, false)
    }

    /// Requests a render of a source at a size as a preload; returns whether preparation must be
    /// spawned.
    pub fn preload<R: PlatformImageResources>(
        &mut self,
        source_id: ImageSourceId,
        request_id: ImageRenderRequestId,
        requested_size: Size<DevicePixels>,
        image_resources: &R,
    ) -> (spawn: bool)
        ensures
            (spawn, final(self)@) == request_outcome(
                old(self)@,
                source_id,
                request_id.value(),
                requested_size,
                image_resources.resident(),
                true,
            ),
    {
        self.request_source_backed_image(source_id, request_id, requested_size, image_resources, true)
    }

    fn request_source_backed_image<R: PlatformImageResources>(
        &mut self,
        source_id: ImageSourceId,
        request_id: ImageRenderRequestId,
        requested_size: Size<DevicePixels>,
        image_resources: &R,
        preload: bool,
    ) -> (spawn: bool)
        ensures
            (spawn, final(self)@) == request_outcome(
                old(self)@,
                source_id,
                request_id.value(),
                requested_size,
                image_resources.resident(),
                preload,
            ),
    {
        let key = request_id.as_u64();
        let source = source_id.as_u64();
        if preload {
            self.preload_requested_this_frame.insert(key);
        } else {
            self.requested_this_frame.insert(key);
        }
        let ghost recorded = self@;
        assert(recorded == record_request(old(self)@, key, preload));
        match self.requests.remove(&key) {
            Some(entry) => {
                let SourceBackedImageEntry { source_id: entry_source, requested_size: _, state } =
                    entry;
                match state {
                    SourceBackedImageState::Live(resource) => {
                        if image_resources.contains(resource.id) {
                            self.requests.insert(
                                key,
                                SourceBackedImageEntry {
                                    source_id: entry_source,
                                    requested_size,
                                    state: SourceBackedImageState::Live(resource),
                                },
                            );
                            assert(self@.requests =~= recorded.requests.insert(
                                key,
                                SourceBackedImageEntry { requested_size, ..recorded.requests[key] },
                            ));
                            return false;
                        }
                        self.requests.insert(
                            key,
                            SourceBackedImageEntry {
                                source_id: entry_source,
                                requested_size,
                                state: SourceBackedImageState::Loading,
                            },
                        );
                        assert(self@.requests =~= recorded.requests.insert(
                            key,
                            with_state(
                                SourceBackedImageEntry { requested_size, ..recorded.requests[key] },
                                SourceBackedImageState::Loading,
                            ),
                        ));
                        self.failed_sources.remove(&source);
                        self.remove_latest_if_matches(entry_source, resource.id);
                        return true;
                    },
                    SourceBackedImageState::BudgetDeferred { preload: _ } => {
                        self.requests.insert(
                            key,
                            SourceBackedImageEntry {
                                source_id: entry_source,
                                requested_size,
                                state: SourceBackedImageState::Loading,
                            },
                        );
                        assert(self@.requests =~= recorded.requests.insert(
                            key,
                            with_state(
                                SourceBackedImageEntry { requested_size, ..recorded.requests[key] },
                                SourceBackedImageState::Loading,
                            ),
                        ));
                        self.failed_sources.remove(&source);
                        return true;
                    },
                    other => {
                        self.requests.insert(
                            key,
                            SourceBackedImageEntry { source_id: entry_source, requested_size, state: other },
                        );
                        assert(self@.requests =~= recorded.requests.insert(
                            key,
                            SourceBackedImageEntry { requested_size, ..recorded.requests[key] },
                        ));
                        return false;
                    },
                }
            },
            None => {
                assert(self@.requests =~= recorded.requests);
            },
        }
        self.failed_sources.remove(&source);
        let latest = match self.latest_live_by_source.get(&source) {
            Some(resource) => Some(*resource),
            None => None,
        };
        match latest {
            Some(resource) => {
                if image_resources.contains(resource.id) {
                    if source_backed_resource_matches_request(resource.size, requested_size) {
                        self.requests.insert(
                            key,
                            SourceBackedImageEntry {
                                source_id,
                                requested_size,
                                state: SourceBackedImageState::Live(resource),
                            },
                        );
                        if !preload {
                            self.remove_live_request_duplicates(key, resource.id);
                        }
                        return false;
                    }
                } else {
                    self.latest_live_by_source.remove(&source);
                }
            },
            None => {},
        }
        self.requests.insert(
            key,
            SourceBackedImageEntry {
                source_id,
                requested_size,
                state: SourceBackedImageState::Loading,
            },
        );
        true
    }
}
/// Some tracked request holds a resource with the given identity live.
pub open spec fn held_live(view: SourceBackedImageStoreView, resource: u64) -> bool {
    exists|key: u64|
        #[trigger] view.requests.contains_key(key) && is_live_with(
            view.requests[key],
            ImageResourceId(resource),
        )
}

/// Some source's latest live resource has the given identity.
pub open spec fn held_latest(view: SourceBackedImageStoreView, resource: u64) -> bool {
    exists|source: u64| #[trigger] view.latest.contains_key(source) && view.latest[source].id.0 == resource
}

/// A resource with the given identity is known to the store.
pub open spec fn findable(view: SourceBackedImageStoreView, resource: u64) -> bool {
    held_live(view, resource) || held_latest(view, resource)
}

/// `found` is a resource the store knows under the identity: one held live by a request when
/// there is one, else a source's latest live resource.
pub open spec fn lookup_ok(view: SourceBackedImageStoreView, resource: u64, found: ImageResource) -> bool {
    &&& found.id.0 == resource
    &&& if held_live(view, resource) {
        exists|key: u64|
            #[trigger] view.requests.contains_key(key) && view.requests[key].state
                == SourceBackedImageState::Live(found)
    } else {
        exists|source: u64| #[trigger] view.latest.contains_key(source) && view.latest[source] == found
    }
}

impl SourceBackedImageStore {
    /// A resource the store knows under the identity (see [`lookup_ok`]).
    fn resource_for_id(&self, resource_id: ImageResourceId) -> (found: Option<ImageResource>)
        ensures
            match found {
                Some(resource) => lookup_ok(self@, resource_id.0, resource),
                None => !findable(self@, resource_id.0),
            },
    {
        let keys = map_keys(&self.requests);
        let mut index: usize = 0;
        while index < keys.len()
            invariant
                keys@.to_set() == self@.requests.dom(),
                index <= keys.len(),
                forall|j: int|
                    0 <= j < index ==> !is_live_with(
                        self@.requests[#[trigger] keys@[j]],
                        resource_id,
                    ),
            decreases keys.len() - index,
        {
            let key = keys[index];
            proof {
                assert(keys@.to_set().contains(key));
            }
            match self.requests.get(&key) {
                Some(entry) => match &entry.state {
                    SourceBackedImageState::Live(resource) => {
                        if resource.id == resource_id {
                            assert(held_live(self@, resource_id.0));
                            return Some(*resource);
                        }
                    },
                    _ => {},
                },
                None => {},
            }
            index = index + 1;
        }
        proof {
            assert forall|key: u64| #[trigger]
                self@.requests.contains_key(key) implies !is_live_with(
                self@.requests[key],
                resource_id,
            ) by {
                assert(keys@.to_set().contains(key));
                let j = choose|j: int| 0 <= j < keys@.len() && keys@[j] == key;
                assert(!is_live_with(self@.requests[keys@[j]], resource_id));
            }
        }
        let sources = map_keys(&self.latest_live_by_source);
        let mut index: usize = 0;
        while index < sources.len()
            invariant
                sources@.to_set() == self@.latest.dom(),
                index <= sources.len(),
                !held_live(self@, resource_id.0),
                forall|j: int|
                    0 <= j < index ==> self@.latest[#[trigger] sources@[j]].id != resource_id,
            decreases sources.len() - index,
        {
            let source = sources[index];
            proof {
                assert(sources@.to_set().contains(source));
            }
            match self.latest_live_by_source.get(&source) {
                Some(resource) => {
                    if resource.id == resource_id {
                        return Some(*resource);
                    }
                },
                None => {},
            }
            index = index + 1;
        }
        proof {
            assert forall|source: u64| #[trigger]
                self@.latest.contains_key(source) implies self@.latest[source].id != resource_id by {
                assert(sources@.to_set().contains(source));
                let j = choose|j: int| 0 <= j < sources@.len() && sources@[j] == source;
                assert(self@.latest[sources@[j]].id != resource_id);
            }
        }
        None
    }

    /// Records a resource known to the store as referenced by this frame's scene, counting the
    /// bytes of the resource found for it once; identities the store does not know are ignored.
    fn mark_referenced_resource_id(&mut self, resource_id: ImageResourceId)
        ensures
            if old(self)@.referenced.contains(resource_id.0) || !findable(old(self)@, resource_id.0) {
                final(self)@ == old(self)@
            } else {
                exists|found: ImageResource|
                    lookup_ok(old(self)@, resource_id.0, found) && final(self)@ == (
                    SourceBackedImageStoreView {
                        referenced: old(self)@.referenced.insert(resource_id.0),
                        referenced_bytes: sat_add(
                            old(self)@.referenced_bytes,
                            resource_bytes(found.size),
                        ),
                        ..old(self)@
                    })
            },
    {
        if self.referenced_this_frame.contains(&resource_id.0) {
            return;
        }
        let resource = match self.resource_for_id(resource_id) {
            Some(resource) => resource,
            None => {
                return;
            },
        };
        let resource_bytes = resource.gpu_bytes_estimate();
        if self.referenced_this_frame.insert(resource_id.0) {
            self.referenced_gpu_bytes_this_frame = saturating_add(
                self.referenced_gpu_bytes_this_frame,
                resource_bytes,
            );
        }
    }

    /// Records each known resource identity as referenced by this frame's scene, charging the
    /// bytes of each newly referenced one to the frame's referenced total (see
    /// [`referenced_after`]): the total is that of some resources the store knows under the
    /// identities, and it is fixed whenever each identity names resources of one byte size.
    pub fn mark_referenced_resource_ids(&mut self, resource_ids: Vec<ImageResourceId>)
        ensures
            final(self)@ == (SourceBackedImageStoreView {
                referenced: final(self)@.referenced,
                referenced_bytes: final(self)@.referenced_bytes,
                ..old(self)@
            }),
            forall|resource: u64|
                #[trigger] final(self)@.referenced.contains(resource) <==> (
                old(self)@.referenced.contains(resource) || (findable(old(self)@, resource)
                    && resource_ids@.map_values(|id: ImageResourceId| id.0).contains(resource))),
            exists|found: Seq<ImageResource>|
                found_for(old(self)@, id_values(resource_ids@), found)
                && referenced_after(old(self)@, id_values(resource_ids@), found) == (
                final(self)@.referenced,
                final(self)@.referenced_bytes,
            ),
            bytes_determined(old(self)@, id_values(resource_ids@)) ==> final(self)@.referenced_bytes
                == referenced_after(
                old(self)@,
                id_values(resource_ids@),
                chosen_found(old(self)@, id_values(resource_ids@)),
            ).1,
    {
        let ghost initial = self@;
        let ghost mut found: Seq<ImageResource> = Seq::empty();
        let mut index: usize = 0;
        while index < resource_ids.len()
            invariant
                index <= resource_ids.len(),
                found.len() == index,
                found_for(initial, id_values(resource_ids@).take(index as int), found),
                referenced_after(initial, id_values(resource_ids@).take(index as int), found) == (
                    self@.referenced,
                    self@.referenced_bytes,
                ),
                self@ == (SourceBackedImageStoreView {
                    referenced: self@.referenced,
                    referenced_bytes: self@.referenced_bytes,
                    ..initial
                }),
                forall|resource: u64|
                    #[trigger] self@.referenced.contains(resource) <==> (initial.referenced.contains(
                        resource,
                    ) || (findable(initial, resource) && resource_ids@.subrange(
                        0,
                        index as int,
                    ).map_values(|id: ImageResourceId| id.0).contains(resource))),
            decreases resource_ids.len() - index,
        {
            let resource_id = resource_ids[index];
            let ghost before = self@;
            assert(before.requests == initial.requests && before.latest == initial.latest);
            assert(findable(before, resource_id.0) == findable(initial, resource_id.0));
            assert(forall|found: ImageResource|
                lookup_ok(before, resource_id.0, found) == lookup_ok(initial, resource_id.0, found));
            self.mark_referenced_resource_id(resource_id);
            proof {
                let ids = id_values(resource_ids@);
                let witness: ImageResource = if !before.referenced.contains(resource_id.0)
                    && findable(before, resource_id.0) {
                    choose|f: ImageResource|
                        lookup_ok(before, resource_id.0, f) && self@ == (SourceBackedImageStoreView {
                            referenced: before.referenced.insert(resource_id.0),
                            referenced_bytes: sat_add(before.referenced_bytes, resource_bytes(f.size)),
                            ..before
                        })
                } else {
                    choose|f: ImageResource| lookup_ok(initial, resource_id.0, f)
                };
                if findable(initial, resource_id.0) {
                    lemma_findable_has_lookup(initial, resource_id.0);
                }
                let grown = found.push(witness);
                assert(ids.take(index + 1).drop_last() =~= ids.take(index as int));
                assert(grown.drop_last() =~= found);
                assert(ids.take(index + 1).last() == resource_id.0);
                assert forall|i: int|
                    0 <= i < index + 1 && findable(initial, #[trigger] ids.take(index + 1)[i]) implies lookup_ok(
                    initial,
                    ids.take(index + 1)[i],
                    grown[i],
                ) by {
                    if i < index {
                        assert(ids.take(index + 1)[i] == ids.take(index as int)[i]);
                    }
                }
                found = grown;
                let prefix = resource_ids@.subrange(0, index as int).map_values(
                    |id: ImageResourceId| id.0,
                );
                let next = resource_ids@.subrange(0, index + 1).map_values(
                    |id: ImageResourceId| id.0,
                );
                assert(next =~= prefix.push(resource_id.0));
                assert forall|resource: u64| #[trigger]
                    self@.referenced.contains(resource) <==> (initial.referenced.contains(resource)
                        || (findable(initial, resource) && next.contains(resource))) by {
                    if resource == resource_id.0 {
                        assert(next[index as int] == resource);
                    } else {
                        assert(next.contains(resource) <==> prefix.contains(resource)) by {
                            if next.contains(resource) {
                                let j = choose|j: int| 0 <= j < next.len() && next[j] == resource;
                                assert(prefix[j] == resource);
                            }
                            if prefix.contains(resource) {
                                let j = choose|j: int| 0 <= j < prefix.len() && prefix[j] == resource;
                                assert(next[j] == resource);
                            }
                        }
                    }
                }
            }
            index = index + 1;
        }
        proof {
            assert(resource_ids@.subrange(0, resource_ids@.len() as int) =~= resource_ids@);
            let ids = id_values(resource_ids@);
            assert(ids.take(ids.len() as int) =~= ids);
            if bytes_determined(initial, ids) {
                lemma_chosen_found(initial, ids);
                lemma_referenced_after_agrees(initial, ids, found, chosen_found(initial, ids));
            }
        }
    }
}

/// The view with this frame's referenced resources and total reset.
pub open spec fn frame_reset(view: SourceBackedImageStoreView) -> SourceBackedImageStoreView {
    SourceBackedImageStoreView { referenced: Set::empty(), referenced_bytes: 0, ..view }
}

/// Each findable identity of the list is paired with a resource the store knows under it.
pub open spec fn found_for(view: SourceBackedImageStoreView, ids: Seq<u64>, found: Seq<ImageResource>) -> bool {
    &&& found.len() == ids.len()
    &&& forall|i: int|
        0 <= i < ids.len() && findable(view, #[trigger] ids[i]) ==> lookup_ok(view, ids[i], found[i])
}

/// The referenced identities and referenced byte total after marking `ids` in order from
/// `view`: each findable identity not yet referenced joins, and the bytes of the resource found
/// for it are added, saturating.
pub open spec fn referenced_after(
    view: SourceBackedImageStoreView,
    ids: Seq<u64>,
    found: Seq<ImageResource>,
) -> (Set<u64>, u64)
    decreases ids.len(),
{
    if ids.len() == 0 {
        (view.referenced, view.referenced_bytes)
    } else {
        let (referenced, bytes) = referenced_after(view, ids.drop_last(), found.drop_last());
        let id = ids.last();
        if referenced.contains(id) || !findable(view, id) {
            (referenced, bytes)
        } else {
            (referenced.insert(id), sat_add(bytes, resource_bytes(found[ids.len() - 1].size)))
        }
    }
}

/// Every resource the store knows under each listed identity has the same byte size.
pub open spec fn bytes_determined(view: SourceBackedImageStoreView, ids: Seq<u64>) -> bool {
    forall|i: int, a: ImageResource, b: ImageResource|
        0 <= i < ids.len() && #[trigger] lookup_ok(view, ids[i], a) && #[trigger] lookup_ok(view, ids[i], b)
            ==> resource_bytes(a.size) == resource_bytes(b.size)
}

/// Some resource the store knows under each listed identity.
pub open spec fn chosen_found(view: SourceBackedImageStoreView, ids: Seq<u64>) -> Seq<ImageResource> {
    Seq::new(ids.len(), |i: int| choose|f: ImageResource| lookup_ok(view, ids[i], f))
}

/// A findable identity names some resource the store knows.
proof fn lemma_findable_has_lookup(view: SourceBackedImageStoreView, resource: u64)
    requires
        findable(view, resource),
    ensures
        exists|f: ImageResource| lookup_ok(view, resource, f),
{
    if held_live(view, resource) {
        let key = choose|key: u64|
            #[trigger] view.requests.contains_key(key) && is_live_with(view.requests[key], ImageResourceId(resource));
        match view.requests[key].state {
            SourceBackedImageState::Live(live) => {
                assert(lookup_ok(view, resource, live));
            },
            _ => {},
        }
    } else {
        let source = choose|source: u64| #[trigger] view.latest.contains_key(source) && view.latest[source].id.0 == resource;
        assert(lookup_ok(view, resource, view.latest[source]));
    }
}

/// The chosen resources are found for the identities.
proof fn lemma_chosen_found(view: SourceBackedImageStoreView, ids: Seq<u64>)
    ensures
        found_for(view, ids, chosen_found(view, ids)),
{
    assert forall|i: int| 0 <= i < ids.len() && findable(view, #[trigger] ids[i]) implies lookup_ok(
        view,
        ids[i],
        chosen_found(view, ids)[i],
    ) by {
        lemma_findable_has_lookup(view, ids[i]);
    }
}

/// When each identity names resources of one byte size, any resources found for the
/// identities give the same referenced identities and total.
proof fn lemma_referenced_after_agrees(
    view: SourceBackedImageStoreView,
    ids: Seq<u64>,
    a: Seq<ImageResource>,
    b: Seq<ImageResource>,
)
    requires
        found_for(view, ids, a),
        found_for(view, ids, b),
        bytes_determined(view, ids),
    ensures
        referenced_after(view, ids, a) == referenced_after(view, ids, b),
    decreases ids.len(),
{
    if ids.len() > 0 {
        let n = ids.len() - 1;
        assert forall|i: int|
            0 <= i < ids.drop_last().len() && findable(view, #[trigger] ids.drop_last()[i]) implies lookup_ok(
            view,
            ids.drop_last()[i],
            a.drop_last()[i],
        ) && lookup_ok(view, ids.drop_last()[i], b.drop_last()[i]) by {
            assert(ids.drop_last()[i] == ids[i]);
        }
        assert forall|i: int, x: ImageResource, y: ImageResource|
            0 <= i < ids.drop_last().len() && #[trigger] lookup_ok(view, ids.drop_last()[i], x)
                && #[trigger] lookup_ok(view, ids.drop_last()[i], y) implies resource_bytes(x.size)
            == resource_bytes(y.size) by {
            assert(ids.drop_last()[i] == ids[i]);
        }
        lemma_referenced_after_agrees(view, ids.drop_last(), a.drop_last(), b.drop_last());
        if findable(view, ids[n]) {
            assert(lookup_ok(view, ids[n], a[n]));
            assert(lookup_ok(view, ids[n], b[n]));
        }
    }
}
/// Whether `finish_frame` keeps a tracked request: a live one while the final scene or a preload
/// uses its resource, any other while it was requested or preloaded this frame.
pub open spec fn request_kept(view: SourceBackedImageStoreView, scene: Set<u64>, key: u64) -> bool {
    match view.requests[key].state {
        SourceBackedImageState::Live(resource) => scene.contains(resource.id.0) || view.preloaded.contains(
            resource.id.0,
        ),
        _ => view.requested.contains(key) || view.preload_requested.contains(key),
    }
}

/// The requests `finish_frame` keeps.
pub open spec fn kept_requests(
    view: SourceBackedImageStoreView,
    scene: Set<u64>,
) -> Map<u64, SourceBackedImageEntry> {
    Map::new(
        |key: u64| view.requests.contains_key(key) && request_kept(view, scene, key),
        |key: u64| view.requests[key],
    )
}

/// Resources of the live requests `finish_frame` drops.
pub open spec fn dropped_live(view: SourceBackedImageStoreView, scene: Set<u64>) -> Set<u64> {
    Set::new(
        |resource: u64|
            exists|key: u64|
                #[trigger] view.requests.contains_key(key) && !request_kept(view, scene, key)
                    && is_live_with(view.requests[key], ImageResourceId(resource)),
    )
}

/// Identities of the resources the given requests hold live.
pub open spec fn live_ids(requests: Map<u64, SourceBackedImageEntry>) -> Set<u64> {
    Set::new(
        |resource: u64|
            exists|key: u64|
                #[trigger] requests.contains_key(key) && is_live_with(
                    requests[key],
                    ImageResourceId(resource),
                ),
    )
}

/// Latest live resources still held live by a request.
pub open spec fn kept_latest(latest: Map<u64, ImageResource>, live: Set<u64>) -> Map<u64, ImageResource> {
    Map::new(
        |source: u64| latest.contains_key(source) && live.contains(latest[source].id.0),
        |source: u64| latest[source],
    )
}

/// Latest live resources no request holds live any more.
pub open spec fn dropped_latest(latest: Map<u64, ImageResource>, live: Set<u64>) -> Set<u64> {
    Set::new(
        |resource: u64|
            exists|source: u64|
                #[trigger] latest.contains_key(source) && !live.contains(latest[source].id.0)
                    && latest[source].id.0 == resource,
    )
}

/// Sources still named by a request or a latest live resource.
pub open spec fn retained_sources(
    requests: Map<u64, SourceBackedImageEntry>,
    latest: Map<u64, ImageResource>,
) -> Set<u64> {
    Set::new(
        |source: u64|
            (exists|key: u64| #[trigger]
                requests.contains_key(key) && requests[key].source_id.value() == source)
                || latest.contains_key(source),
    )
}

/// A counter advanced by `count` and saturating at `u64::MAX`.
pub open spec fn sat_count(base: u64, count: nat) -> u64 {
    if base + count > u64::MAX { u64::MAX } else { (base + count) as u64 }
}

/// The identities of a list of resource identities.
pub open spec fn id_values(ids: Seq<ImageResourceId>) -> Seq<u64> {
    ids.map_values(|id: ImageResourceId| id.0)
}

/// A set holding the members of a list.
fn set_from_members(members: &Vec<u64>) -> (set: HashSet<u64>)
    ensures
        set@ == members@.to_set(),
{
    let mut set: HashSet<u64> = HashSet::new();
    let mut index: usize = 0;
    while index < members.len()
        invariant
            index <= members.len(),
            set@ == members@.subrange(0, index as int).to_set(),
        decreases members.len() - index,
    {
        proof {
            assert(members@.subrange(0, index + 1) =~= members@.subrange(0, index as int).push(
                members@[index as int],
            ));
            members@.subrange(0, index as int).lemma_push_to_set_commute(members@[index as int]);
        }
        set.insert(members[index]);
        index = index + 1;
    }
    assert(members@.subrange(0, members@.len() as int) =~= members@);
    set
}

impl SourceBackedImageStore {
    /// Records the final scene's resources as this frame's referenced ones, afresh: the
    /// referenced set and total are reset and every listed resource is marked in order (see
    /// [`referenced_after`]); returns the scene's identities.
    fn sync_final_scene_references(&mut self, resource_ids: Vec<ImageResourceId>) -> (scene:
        HashSet<u64>)
        ensures
            scene@ == id_values(resource_ids@).to_set(),
            final(self)@ == (SourceBackedImageStoreView {
                referenced: scene@.filter(|resource: u64| findable(old(self)@, resource)),
                referenced_bytes: final(self)@.referenced_bytes,
                ..old(self)@
            }),
            exists|found: Seq<ImageResource>|
                found_for(frame_reset(old(self)@), id_values(resource_ids@), found)
                && referenced_after(frame_reset(old(self)@), id_values(resource_ids@), found) == (
                final(self)@.referenced,
                final(self)@.referenced_bytes,
            ),
            bytes_determined(frame_reset(old(self)@), id_values(resource_ids@))
                ==> final(self)@.referenced_bytes == referenced_after(
                frame_reset(old(self)@),
                id_values(resource_ids@),
                chosen_found(frame_reset(old(self)@), id_values(resource_ids@)),
            ).1,
    {
        let mut values: Vec<u64> = Vec::new();
        let mut index: usize = 0;
        while index < resource_ids.len()
            invariant
                index <= resource_ids.len(),
                values@ == id_values(resource_ids@.subrange(0, index as int)),
            decreases resource_ids.len() - index,
        {
            values.push(resource_ids[index].0);
            proof {
                assert(id_values(resource_ids@.subrange(0, index + 1)) =~= id_values(
                    resource_ids@.subrange(0, index as int),
                ).push(resource_ids@[index as int].0));
            }
            index = index + 1;
        }
        assert(resource_ids@.subrange(0, resource_ids@.len() as int) =~= resource_ids@);
        let scene = set_from_members(&values);
        self.referenced_this_frame.clear();
        self.referenced_gpu_bytes_this_frame = 0;
        assert(self@ == frame_reset(old(self)@));
        let ghost ids = resource_ids@;
        self.mark_referenced_resource_ids(resource_ids);
        proof {
            assert(self@.referenced =~= scene@.filter(|resource: u64| findable(old(self)@, resource))) by {
                assert forall|resource: u64| self@.referenced.contains(resource) <==> scene@.filter(
                    |resource: u64| findable(old(self)@, resource),
                ).contains(resource) by {
                    assert(id_values(ids) == ids.map_values(|id: ImageResourceId| id.0));
                }
            }
        }
        scene
    }

    /// Drops from the pending removals every resource the final scene or a preload uses.
    fn release_used_from_pending(&mut self, scene: &HashSet<u64>)
        ensures
            final(self)@ == (SourceBackedImageStoreView {
                pending: old(self)@.pending.difference(scene@).difference(old(self)@.preloaded),
                ..old(self)@
            }),
    {
        let ghost initial = self@;
        let used = set_members(scene);
        let mut index: usize = 0;
        while index < used.len()
            invariant
                index <= used.len(),
                used@.to_set() == scene@,
                self@ == (SourceBackedImageStoreView { pending: self@.pending, ..initial }),
                self@.pending == initial.pending.difference(used@.subrange(0, index as int).to_set()),
            decreases used.len() - index,
        {
            proof {
                assert(used@.subrange(0, index + 1) =~= used@.subrange(0, index as int).push(
                    used@[index as int],
                ));
                used@.subrange(0, index as int).lemma_push_to_set_commute(used@[index as int]);
            }
            self.pending_resource_removals.remove(&used[index]);
            proof {
                assert(self@.pending =~= initial.pending.difference(
                    used@.subrange(0, index + 1).to_set(),
                ));
            }
            index = index + 1;
        }
        assert(used@.subrange(0, used@.len() as int) =~= used@);
        let ghost middle = self@;
        let preloaded = set_members(&self.preloaded_resource_ids_this_frame);
        let mut index: usize = 0;
        while index < preloaded.len()
            invariant
                index <= preloaded.len(),
                preloaded@.to_set() == initial.preloaded,
                self@ == (SourceBackedImageStoreView { pending: self@.pending, ..initial }),
                self@.pending == middle.pending.difference(
                    preloaded@.subrange(0, index as int).to_set(),
                ),
            decreases preloaded.len() - index,
        {
            proof {
                assert(preloaded@.subrange(0, index + 1) =~= preloaded@.subrange(
                    0,
                    index as int,
                ).push(preloaded@[index as int]));
                preloaded@.subrange(0, index as int).lemma_push_to_set_commute(preloaded@[index as int]);
            }
            self.pending_resource_removals.remove(&preloaded[index]);
            proof {
                assert(self@.pending =~= middle.pending.difference(
                    preloaded@.subrange(0, index + 1).to_set(),
                ));
            }
            index = index + 1;
        }
        assert(preloaded@.subrange(0, preloaded@.len() as int) =~= preloaded@);
        assert(self@.pending =~= initial.pending.difference(scene@).difference(initial.preloaded));
    }
}
/// Resources of the live requests among `keys` that `finish_frame` drops.
pub open spec fn dropped_live_among(
    view: SourceBackedImageStoreView,
    scene: Set<u64>,
    keys: Seq<u64>,
) -> Set<u64> {
    Set::new(
        |resource: u64|
            exists|j: int|
                0 <= j < keys.len() && !request_kept(view, scene, #[trigger] keys[j]) && is_live_with(
                    view.requests[keys[j]],
                    ImageResourceId(resource),
                ),
    )
}

impl SourceBackedImageStore {
    /// Drops the requests `finish_frame` does not keep, adding their live resources to `removed`.
    fn retain_requests(&mut self, scene: &HashSet<u64>, removed: &mut HashSet<u64>)
        ensures
            final(self)@ == (SourceBackedImageStoreView {
                requests: kept_requests(old(self)@, scene@),
                ..old(self)@
            }),
            final(removed)@ == old(removed)@.union(dropped_live(old(self)@, scene@)),
    {
        let keys = map_keys(&self.requests);
        let ghost initial = self@;
        let ghost removed0 = removed@;
        let mut index: usize = 0;
        while index < keys.len()
            invariant
                keys@.no_duplicates(),
                keys@.to_set() == initial.requests.dom(),
                index <= keys.len(),
                self@ == (SourceBackedImageStoreView { requests: self@.requests, ..initial }),
                forall|key: u64|
                    #[trigger] self@.requests.contains_key(key) <==> (initial.requests.contains_key(
                        key,
                    ) && (!keys@.subrange(0, index as int).contains(key) || request_kept(
                        initial,
                        scene@,
                        key,
                    ))),
                forall|key: u64|
                    #[trigger] self@.requests.contains_key(key) ==> self@.requests[key]
                        == initial.requests[key],
                removed@ == removed0.union(
                    dropped_live_among(initial, scene@, keys@.subrange(0, index as int)),
                ),
            decreases keys.len() - index,
        {
            let key = keys[index];
            let ghost before = self@.requests;
            proof {
                assert(keys@.to_set().contains(key));
                assert(!keys@.subrange(0, index as int).contains(key)) by {
                    if keys@.subrange(0, index as int).contains(key) {
                        let j = choose|j: int| 0 <= j < index && keys@.subrange(0, index as int)[j]
                            == key;
                        assert(keys@[j] == keys@[index as int]);
                    }
                }
                assert(before.contains_key(key));
            }
            let (keep, live): (bool, Option<u64>) = match self.requests.get(&key) {
                Some(entry) => match &entry.state {
                    SourceBackedImageState::Live(resource) => (
                        scene.contains(&resource.id.0)
                            || self.preloaded_resource_ids_this_frame.contains(&resource.id.0),
                        Some(resource.id.0),
                    ),
                    _ => (
                        self.requested_this_frame.contains(&key)
                            || self.preload_requested_this_frame.contains(&key),
                        None,
                    ),
                },
                None => (true, None),
            };
            assert(keep == request_kept(initial, scene@, key));
            if !keep {
                self.requests.remove(&key);
                match live {
                    Some(resource) => {
                        removed.insert(resource);
                    },
                    None => {},
                }
            }
            proof {
                let prefix = keys@.subrange(0, index as int);
                let next = keys@.subrange(0, index + 1);
                assert(next =~= prefix.push(key));
                assert forall|k: u64| #[trigger]
                    self@.requests.contains_key(k) <==> (initial.requests.contains_key(k) && (
                    !next.contains(k) || request_kept(initial, scene@, k))) by {
                    if k != key {
                        assert(next.contains(k) <==> prefix.contains(k)) by {
                            if next.contains(k) {
                                let j = choose|j: int| 0 <= j < next.len() && next[j] == k;
                                assert(prefix[j] == k);
                            }
                            if prefix.contains(k) {
                                let j = choose|j: int| 0 <= j < prefix.len() && prefix[j] == k;
                                assert(next[j] == k);
                            }
                        }
                        assert(before.contains_key(k) == self@.requests.contains_key(k));
                    } else {
                        assert(next[index as int] == k);
                    }
                }
                assert forall|resource: u64|
                    dropped_live_among(initial, scene@, next).contains(resource) <==> (
                    dropped_live_among(initial, scene@, prefix).contains(resource) || (!keep
                        && is_live_with(initial.requests[key], ImageResourceId(resource)))) by {
                    if dropped_live_among(initial, scene@, next).contains(resource) {
                        let j = choose|j: int|
                            0 <= j < next.len() && !request_kept(initial, scene@, #[trigger] next[j])
                                && is_live_with(
                                initial.requests[next[j]],
                                ImageResourceId(resource),
                            );
                        if j < prefix.len() {
                            assert(prefix[j] == next[j]);
                        }
                    }
                    if dropped_live_among(initial, scene@, prefix).contains(resource) {
                        let j = choose|j: int|
                            0 <= j < prefix.len() && !request_kept(
                                initial,
                                scene@,
                                #[trigger] prefix[j],
                            ) && is_live_with(
                                initial.requests[prefix[j]],
                                ImageResourceId(resource),
                            );
                        assert(next[j] == prefix[j]);
                    }
                    if !keep && is_live_with(initial.requests[key], ImageResourceId(resource)) {
                        assert(next[index as int] == key);
                    }
                }
                assert(removed@ =~= removed0.union(dropped_live_among(initial, scene@, next)));
            }
            index = index + 1;
        }
        proof {
            assert(keys@.subrange(0, keys@.len() as int) =~= keys@);
            assert(self@.requests =~= kept_requests(initial, scene@));
            assert forall|resource: u64|
                dropped_live_among(initial, scene@, keys@).contains(resource) <==> dropped_live(
                    initial,
                    scene@,
                ).contains(resource) by {
                if dropped_live(initial, scene@).contains(resource) {
                    let key = choose|key: u64|
                        #[trigger] initial.requests.contains_key(key) && !request_kept(
                            initial,
                            scene@,
                            key,
                        ) && is_live_with(initial.requests[key], ImageResourceId(resource));
                    assert(keys@.to_set().contains(key));
                    let j = choose|j: int| 0 <= j < keys@.len() && keys@[j] == key;
                    assert(!request_kept(initial, scene@, keys@[j]));
                }
                if dropped_live_among(initial, scene@, keys@).contains(resource) {
                    let j = choose|j: int|
                        0 <= j < keys@.len() && !request_kept(initial, scene@, #[trigger] keys@[j])
                            && is_live_with(initial.requests[keys@[j]], ImageResourceId(resource));
                    assert(keys@.to_set().contains(keys@[j]));
                    assert(initial.requests.contains_key(keys@[j]));
                }
            }
            assert(removed@ =~= removed0.union(dropped_live(initial, scene@)));
        }
    }
}
/// Identities of the resources the requests named by `keys` hold live.
pub open spec fn live_ids_among(requests: Map<u64, SourceBackedImageEntry>, keys: Seq<u64>) -> Set<u64> {
    Set::new(
        |resource: u64|
            exists|j: int|
                0 <= j < keys.len() && is_live_with(
                    requests[#[trigger] keys[j]],
                    ImageResourceId(resource),
                ),
    )
}

/// Latest live resources among the sources `keys` that no request holds live any more.
pub open spec fn dropped_latest_among(
    latest: Map<u64, ImageResource>,
    live: Set<u64>,
    keys: Seq<u64>,
) -> Set<u64> {
    Set::new(
        |resource: u64|
            exists|j: int|
                0 <= j < keys.len() && !live.contains(latest[#[trigger] keys[j]].id.0)
                    && latest[keys[j]].id.0 == resource,
    )
}

/// Sources named by the requests `keys` or the latest live resources `sources`.
pub open spec fn sources_among(
    requests: Map<u64, SourceBackedImageEntry>,
    keys: Seq<u64>,
    sources: Seq<u64>,
) -> Set<u64> {
    Set::new(
        |source: u64|
            (exists|j: int|
                0 <= j < keys.len() && requests[#[trigger] keys[j]].source_id.value() == source)
                || sources.contains(source),
    )
}

/// Membership in a sequence extended by one element.
proof fn lemma_push_contains<A>(prefix: Seq<A>, member: A, x: A)
    ensures
        prefix.push(member).contains(x) <==> (prefix.contains(x) || x == member),
{
    if prefix.push(member).contains(x) {
        let j = choose|j: int| 0 <= j < prefix.push(member).len() && prefix.push(member)[j] == x;
        if j < prefix.len() {
            assert(prefix[j] == x);
        }
    }
    if prefix.contains(x) {
        let j = choose|j: int| 0 <= j < prefix.len() && prefix[j] == x;
        assert(prefix.push(member)[j] == x);
    }
    if x == member {
        assert(prefix.push(member)[prefix.len() as int] == x);
    }
}

/// Counting a new, distinct member outside a set.
proof fn lemma_count_step(prefix: Seq<u64>, member: u64, outside: Set<u64>)
    requires
        prefix.push(member).no_duplicates(),
    ensures
        prefix.to_set().difference(outside).finite(),
        !prefix.to_set().difference(outside).contains(member),
        prefix.push(member).to_set().difference(outside) == if outside.contains(member) {
            prefix.to_set().difference(outside)
        } else {
            prefix.to_set().difference(outside).insert(member)
        },
{
    prefix.lemma_push_to_set_commute(member);
    vstd::seq_lib::seq_to_set_is_finite(prefix);
    assert(!prefix.contains(member)) by {
        if prefix.contains(member) {
            let j = choose|j: int| 0 <= j < prefix.len() && prefix[j] == member;
            assert(prefix.push(member)[j] == prefix.push(member)[prefix.len() as int]);
        }
    }
    if outside.contains(member) {
        assert(prefix.push(member).to_set().difference(outside) =~= prefix.to_set().difference(
            outside,
        ));
    } else {
        assert(prefix.push(member).to_set().difference(outside) =~= prefix.to_set().difference(
            outside,
        ).insert(member));
    }
}

impl SourceBackedImageStore {
    /// Identities of the resources the tracked requests hold live.
    fn live_resource_ids(&self) -> (live: HashSet<u64>)
        ensures
            live@ == live_ids(self@.requests),
    {
        let keys = map_keys(&self.requests);
        let mut live: HashSet<u64> = HashSet::new();
        let mut index: usize = 0;
        while index < keys.len()
            invariant
                keys@.to_set() == self@.requests.dom(),
                index <= keys.len(),
                live@ == live_ids_among(self@.requests, keys@.subrange(0, index as int)),
            decreases keys.len() - index,
        {
            let key = keys[index];
            proof {
                assert(keys@.to_set().contains(key));
            }
            let found: Option<u64> = match self.requests.get(&key) {
                Some(entry) => match &entry.state {
                    SourceBackedImageState::Live(resource) => Some(resource.id.0),
                    _ => None,
                },
                None => None,
            };
            match found {
                Some(resource) => {
                    live.insert(resource);
                },
                None => {},
            }
            proof {
                let prefix = keys@.subrange(0, index as int);
                let next = keys@.subrange(0, index + 1);
                assert forall|resource: u64|
                    live_ids_among(self@.requests, next).contains(resource) <==> (live_ids_among(
                        self@.requests,
                        prefix,
                    ).contains(resource) || found == Some(resource)) by {
                    if live_ids_among(self@.requests, next).contains(resource) {
                        let j = choose|j: int|
                            0 <= j < next.len() && is_live_with(
                                self@.requests[#[trigger] next[j]],
                                ImageResourceId(resource),
                            );
                        if j < prefix.len() {
                            assert(prefix[j] == next[j]);
                        }
                    }
                    if live_ids_among(self@.requests, prefix).contains(resource) {
                        let j = choose|j: int|
                            0 <= j < prefix.len() && is_live_with(
                                self@.requests[#[trigger] prefix[j]],
                                ImageResourceId(resource),
                            );
                        assert(next[j] == prefix[j]);
                    }
                    if found == Some(resource) {
                        assert(next[index as int] == key);
                    }
                }
                assert(live@ =~= live_ids_among(self@.requests, next));
            }
            index = index + 1;
        }
        proof {
            assert(keys@.subrange(0, keys@.len() as int) =~= keys@);
            assert forall|resource: u64|
                live_ids_among(self@.requests, keys@).contains(resource) <==> live_ids(
                    self@.requests,
                ).contains(resource) by {
                if live_ids(self@.requests).contains(resource) {
                    let key = choose|key: u64|
                        #[trigger] self@.requests.contains_key(key) && is_live_with(
                            self@.requests[key],
                            ImageResourceId(resource),
                        );
                    assert(keys@.to_set().contains(key));
                    let j = choose|j: int| 0 <= j < keys@.len() && keys@[j] == key;
                    assert(is_live_with(self@.requests[keys@[j]], ImageResourceId(resource)));
                }
                if live_ids_among(self@.requests, keys@).contains(resource) {
                    let j = choose|j: int|
                        0 <= j < keys@.len() && is_live_with(
                            self@.requests[#[trigger] keys@[j]],
                            ImageResourceId(resource),
                        );
                    assert(keys@.to_set().contains(keys@[j]));
                }
            }
            assert(live@ =~= live_ids(self@.requests));
        }
        live
    }

    /// Forgets latest live resources no request holds live, adding them to `removed`.
    fn retain_latest(&mut self, live: &HashSet<u64>, removed: &mut HashSet<u64>)
        ensures
            final(self)@ == (SourceBackedImageStoreView {
                latest: kept_latest(old(self)@.latest, live@),
                ..old(self)@
            }),
            final(removed)@ == old(removed)@.union(dropped_latest(old(self)@.latest, live@)),
    {
        let keys = map_keys(&self.latest_live_by_source);
        let ghost initial = self@;
        let ghost removed0 = removed@;
        let mut index: usize = 0;
        while index < keys.len()
            invariant
                keys@.no_duplicates(),
                keys@.to_set() == initial.latest.dom(),
                index <= keys.len(),
                self@ == (SourceBackedImageStoreView { latest: self@.latest, ..initial }),
                forall|key: u64|
                    #[trigger] self@.latest.contains_key(key) <==> (initial.latest.contains_key(key)
                        && (!keys@.subrange(0, index as int).contains(key) || live@.contains(
                        initial.latest[key].id.0,
                    ))),
                forall|key: u64|
                    #[trigger] self@.latest.contains_key(key) ==> self@.latest[key]
                        == initial.latest[key],
                removed@ == removed0.union(
                    dropped_latest_among(initial.latest, live@, keys@.subrange(0, index as int)),
                ),
            decreases keys.len() - index,
        {
            let key = keys[index];
            let ghost before = self@.latest;
            proof {
                assert(keys@.to_set().contains(key));
                assert(!keys@.subrange(0, index as int).contains(key)) by {
                    if keys@.subrange(0, index as int).contains(key) {
                        let j = choose|j: int| 0 <= j < index && keys@.subrange(0, index as int)[j]
                            == key;
                        assert(keys@[j] == keys@[index as int]);
                    }
                }
                assert(before.contains_key(key));
            }
            let resource = match self.latest_live_by_source.get(&key) {
                Some(resource) => resource.id.0,
                None => 0,
            };
            let keep = live.contains(&resource);
            if !keep {
                self.latest_live_by_source.remove(&key);
                removed.insert(resource);
            }
            proof {
                let prefix = keys@.subrange(0, index as int);
                let next = keys@.subrange(0, index + 1);
                assert(next =~= prefix.push(key));
                assert forall|k: u64| #[trigger]
                    self@.latest.contains_key(k) <==> (initial.latest.contains_key(k) && (
                    !next.contains(k) || live@.contains(initial.latest[k].id.0))) by {
                    if k != key {
                        assert(next.contains(k) <==> prefix.contains(k)) by {
                            if next.contains(k) {
                                let j = choose|j: int| 0 <= j < next.len() && next[j] == k;
                                assert(prefix[j] == k);
                            }
                            if prefix.contains(k) {
                                let j = choose|j: int| 0 <= j < prefix.len() && prefix[j] == k;
                                assert(next[j] == k);
                            }
                        }
                        assert(before.contains_key(k) == self@.latest.contains_key(k));
                    } else {
                        assert(next[index as int] == k);
                    }
                }
                assert forall|r: u64|
                    dropped_latest_among(initial.latest, live@, next).contains(r) <==> (
                    dropped_latest_among(initial.latest, live@, prefix).contains(r) || (!keep
                        && resource == r)) by {
                    if dropped_latest_among(initial.latest, live@, next).contains(r) {
                        let j = choose|j: int|
                            0 <= j < next.len() && !live@.contains(
                                initial.latest[#[trigger] next[j]].id.0,
                            ) && initial.latest[next[j]].id.0 == r;
                        if j < prefix.len() {
                            assert(prefix[j] == next[j]);
                        }
                    }
                    if dropped_latest_among(initial.latest, live@, prefix).contains(r) {
                        let j = choose|j: int|
                            0 <= j < prefix.len() && !live@.contains(
                                initial.latest[#[trigger] prefix[j]].id.0,
                            ) && initial.latest[prefix[j]].id.0 == r;
                        assert(next[j] == prefix[j]);
                    }
                    if !keep && resource == r {
                        assert(next[index as int] == key);
                    }
                }
                assert(removed@ =~= removed0.union(dropped_latest_among(initial.latest, live@, next)));
            }
            index = index + 1;
        }
        proof {
            assert(keys@.subrange(0, keys@.len() as int) =~= keys@);
            assert(self@.latest =~= kept_latest(initial.latest, live@));
            assert forall|r: u64|
                dropped_latest_among(initial.latest, live@, keys@).contains(r) <==> dropped_latest(
                    initial.latest,
                    live@,
                ).contains(r) by {
                if dropped_latest(initial.latest, live@).contains(r) {
                    let source = choose|source: u64|
                        #[trigger] initial.latest.contains_key(source) && !live@.contains(
                            initial.latest[source].id.0,
                        ) && initial.latest[source].id.0 == r;
                    assert(keys@.to_set().contains(source));
                    let j = choose|j: int| 0 <= j < keys@.len() && keys@[j] == source;
                    assert(!live@.contains(initial.latest[keys@[j]].id.0));
                }
                if dropped_latest_among(initial.latest, live@, keys@).contains(r) {
                    let j = choose|j: int|
                        0 <= j < keys@.len() && !live@.contains(
                            initial.latest[#[trigger] keys@[j]].id.0,
                        ) && initial.latest[keys@[j]].id.0 == r;
                    assert(keys@.to_set().contains(keys@[j]));
                }
            }
            assert(removed@ =~= removed0.union(dropped_latest(initial.latest, live@)));
        }
    }
}
/// Known sizes of the given sources only.
pub open spec fn sizes_of_sources(
    known: Map<u64, Size<DevicePixels>>,
    sources: Set<u64>,
) -> Map<u64, Size<DevicePixels>> {
    Map::new(|source: u64| known.contains_key(source) && sources.contains(source), |source: u64| known[source])
}

impl SourceBackedImageStore {
    /// Sources still named by a request or a latest live resource.
    fn retained_source_ids(&self) -> (sources: HashSet<u64>)
        ensures
            sources@ == retained_sources(self@.requests, self@.latest),
    {
        let keys = map_keys(&self.requests);
        let latest_keys = map_keys(&self.latest_live_by_source);
        let mut sources: HashSet<u64> = HashSet::new();
        let mut index: usize = 0;
        while index < keys.len()
            invariant
                keys@.to_set() == self@.requests.dom(),
                index <= keys.len(),
                sources@ == sources_among(
                    self@.requests,
                    keys@.subrange(0, index as int),
                    Seq::<u64>::empty(),
                ),
            decreases keys.len() - index,
        {
            let key = keys[index];
            proof {
                assert(keys@.to_set().contains(key));
            }
            let source = match self.requests.get(&key) {
                Some(entry) => entry.source_id.as_u64(),
                None => 0,
            };
            sources.insert(source);
            proof {
                let prefix = keys@.subrange(0, index as int);
                let next = keys@.subrange(0, index + 1);
                assert forall|s: u64|
                    sources_among(self@.requests, next, Seq::<u64>::empty()).contains(s) <==> (
                    sources_among(self@.requests, prefix, Seq::<u64>::empty()).contains(s) || s
                        == source) by {
                    if sources_among(self@.requests, next, Seq::<u64>::empty()).contains(s) {
                        let j = choose|j: int|
                            0 <= j < next.len() && self@.requests[#[trigger] next[j]].source_id.value()
                                == s;
                        if j < prefix.len() {
                            assert(prefix[j] == next[j]);
                        }
                    }
                    if sources_among(self@.requests, prefix, Seq::<u64>::empty()).contains(s) {
                        let j = choose|j: int|
                            0 <= j < prefix.len() && self@.requests[#[trigger] prefix[j]].source_id.value()
                                == s;
                        assert(next[j] == prefix[j]);
                    }
                    if s == source {
                        assert(next[index as int] == key);
                    }
                }
                assert(sources@ =~= sources_among(self@.requests, next, Seq::<u64>::empty()));
            }
            index = index + 1;
        }
        assert(keys@.subrange(0, keys@.len() as int) =~= keys@);
        let mut index: usize = 0;
        while index < latest_keys.len()
            invariant
                keys@.to_set() == self@.requests.dom(),
                latest_keys@.to_set() == self@.latest.dom(),
                index <= latest_keys.len(),
                sources@ == sources_among(
                    self@.requests,
                    keys@,
                    latest_keys@.subrange(0, index as int),
                ),
            decreases latest_keys.len() - index,
        {
            let source = latest_keys[index];
            sources.insert(source);
            proof {
                let prefix = latest_keys@.subrange(0, index as int);
                let next = latest_keys@.subrange(0, index + 1);
                assert(next =~= prefix.push(source));
                assert forall|x: u64| next.contains(x) <==> (prefix.contains(x) || x == source) by {
                    lemma_push_contains(prefix, source, x);
                }
                assert(sources@ =~= sources_among(self@.requests, keys@, next));
            }
            index = index + 1;
        }
        proof {
            assert(latest_keys@.subrange(0, latest_keys@.len() as int) =~= latest_keys@);
            assert forall|s: u64|
                sources_among(self@.requests, keys@, latest_keys@).contains(s) <==> retained_sources(
                    self@.requests,
                    self@.latest,
                ).contains(s) by {
                if exists|key: u64| #[trigger]
                    self@.requests.contains_key(key) && self@.requests[key].source_id.value() == s {
                    let key = choose|key: u64| #[trigger]
                        self@.requests.contains_key(key) && self@.requests[key].source_id.value()
                            == s;
                    assert(keys@.to_set().contains(key));
                    let j = choose|j: int| 0 <= j < keys@.len() && keys@[j] == key;
                    assert(self@.requests[keys@[j]].source_id.value() == s);
                }
                if exists|j: int|
                    0 <= j < keys@.len() && self@.requests[#[trigger] keys@[j]].source_id.value()
                        == s {
                    let j = choose|j: int|
                        0 <= j < keys@.len() && self@.requests[#[trigger] keys@[j]].source_id.value()
                            == s;
                    assert(keys@.to_set().contains(keys@[j]));
                }
                if latest_keys@.contains(s) {
                    assert(latest_keys@.to_set().contains(s));
                }
                if self@.latest.contains_key(s) {
                    assert(latest_keys@.to_set().contains(s));
                }
            }
            assert(sources@ =~= retained_sources(self@.requests, self@.latest));
        }
        sources
    }

    /// Forgets known sizes and failures of sources no request or latest live resource names.
    fn retain_sources(&mut self)
        ensures
            ({
                let sources = retained_sources(old(self)@.requests, old(self)@.latest);
                final(self)@ == (SourceBackedImageStoreView {
                    known_sizes: sizes_of_sources(old(self)@.known_sizes, sources),
                    failed: old(self)@.failed.intersect(sources),
                    ..old(self)@
                })
            }),
    {
        let sources = self.retained_source_ids();
        let ghost initial = self@;
        let keys = map_keys(&self.known_size_by_source);
        let mut index: usize = 0;
        while index < keys.len()
            invariant
                keys@.no_duplicates(),
                keys@.to_set() == initial.known_sizes.dom(),
                index <= keys.len(),
                self@ == (SourceBackedImageStoreView { known_sizes: self@.known_sizes, ..initial }),
                forall|key: u64|
                    #[trigger] self@.known_sizes.contains_key(key) <==> (
                    initial.known_sizes.contains_key(key) && (!keys@.subrange(
                        0,
                        index as int,
                    ).contains(key) || sources@.contains(key))),
                forall|key: u64|
                    #[trigger] self@.known_sizes.contains_key(key) ==> self@.known_sizes[key]
                        == initial.known_sizes[key],
            decreases keys.len() - index,
        {
            let key = keys[index];
            let ghost before = self@.known_sizes;
            proof {
                assert(keys@.to_set().contains(key));
            }
            if !sources.contains(&key) {
                self.known_size_by_source.remove(&key);
            }
            proof {
                let prefix = keys@.subrange(0, index as int);
                let next = keys@.subrange(0, index + 1);
                assert(next =~= prefix.push(key));
                assert forall|k: u64| #[trigger]
                    self@.known_sizes.contains_key(k) <==> (initial.known_sizes.contains_key(k) && (
                    !next.contains(k) || sources@.contains(k))) by {
                    if k != key {
                        assert(next.contains(k) <==> prefix.contains(k)) by {
                            if next.contains(k) {
                                let j = choose|j: int| 0 <= j < next.len() && next[j] == k;
                                assert(prefix[j] == k);
                            }
                            if prefix.contains(k) {
                                let j = choose|j: int| 0 <= j < prefix.len() && prefix[j] == k;
                                assert(next[j] == k);
                            }
                        }
                        assert(before.contains_key(k) == self@.known_sizes.contains_key(k));
                    } else {
                        assert(next[index as int] == k);
                    }
                }
            }
            index = index + 1;
        }
        proof {
            assert(keys@.subrange(0, keys@.len() as int) =~= keys@);
            assert(self@.known_sizes =~= sizes_of_sources(initial.known_sizes, sources@));
        }
        let ghost middle = self@;
        let failed = set_members(&self.failed_sources);
        let mut index: usize = 0;
        while index < failed.len()
            invariant
                failed@.to_set() == middle.failed,
                index <= failed.len(),
                self@ == (SourceBackedImageStoreView { failed: self@.failed, ..middle }),
                forall|source: u64|
                    #[trigger] self@.failed.contains(source) <==> (middle.failed.contains(source) && (
                    !failed@.subrange(0, index as int).contains(source) || sources@.contains(
                        source,
                    ))),
            decreases failed.len() - index,
        {
            let source = failed[index];
            let ghost before = self@.failed;
            if !sources.contains(&source) {
                self.failed_sources.remove(&source);
            }
            proof {
                let prefix = failed@.subrange(0, index as int);
                let next = failed@.subrange(0, index + 1);
                assert(next =~= prefix.push(source));
                assert forall|s: u64| #[trigger]
                    self@.failed.contains(s) <==> (middle.failed.contains(s) && (!next.contains(s)
                        || sources@.contains(s))) by {
                    if s != source {
                        assert(next.contains(s) <==> prefix.contains(s)) by {
                            if next.contains(s) {
                                let j = choose|j: int| 0 <= j < next.len() && next[j] == s;
                                assert(prefix[j] == s);
                            }
                            if prefix.contains(s) {
                                let j = choose|j: int| 0 <= j < prefix.len() && prefix[j] == s;
                                assert(next[j] == s);
                            }
                        }
                        assert(before.contains(s) == self@.failed.contains(s));
                    } else {
                        assert(next[index as int] == s);
                    }
                }
            }
            index = index + 1;
        }
        proof {
            assert(failed@.subrange(0, failed@.len() as int) =~= failed@);
            assert forall|s: u64| #[trigger] self@.failed.contains(s) <==> initial.failed.intersect(
                sources@,
            ).contains(s) by {
                if middle.failed.contains(s) {
                    assert(failed@.to_set().contains(s));
                }
            }
            assert(self@.failed =~= initial.failed.intersect(sources@));
        }
    }

    /// Counts the previously preloaded resources among `removed` that are not already queued.
    fn queue_preload_removal_ids(&mut self, removed: &HashSet<u64>)
        ensures
            final(self)@ == (SourceBackedImageStoreView {
                preload_evicted: sat_count(
                    old(self)@.preload_evicted,
                    removed@.intersect(old(self)@.preloaded_last).difference(old(self)@.pending).len(),
                ),
                ..old(self)@
            }),
    {
        let ghost initial = self@;
        let members = set_members(removed);
        let mut index: usize = 0;
        assert(members@.subrange(0, 0).to_set().intersect(initial.preloaded_last).difference(
            initial.pending,
        ) =~= Set::<u64>::empty());
        while index < members.len()
            invariant
                members@.no_duplicates(),
                members@.to_set() == removed@,
                index <= members.len(),
                self@ == (SourceBackedImageStoreView {
                    preload_evicted: self@.preload_evicted,
                    ..initial
                }),
                self@.preload_evicted == sat_count(
                    initial.preload_evicted,
                    members@.subrange(0, index as int).to_set().intersect(
                        initial.preloaded_last,
                    ).difference(initial.pending).len(),
                ),
            decreases members.len() - index,
        {
            let member = members[index];
            let ghost prefix = members@.subrange(0, index as int);
            proof {
                assert(members@.subrange(0, index + 1) =~= prefix.push(member));
                assert(prefix.push(member).no_duplicates()) by {
                    assert forall|i: int, j: int|
                        0 <= i < prefix.push(member).len() && 0 <= j < prefix.push(member).len()
                            && i != j implies prefix.push(member)[i] != prefix.push(member)[j] by {
                        assert(prefix.push(member)[i] == members@[i]);
                        assert(prefix.push(member)[j] == members@[j]);
                    }
                }
                let outside = initial.pending.union(
                    Set::new(|r: u64| !initial.preloaded_last.contains(r)),
                );
                lemma_count_step(prefix, member, outside);
                assert(prefix.to_set().intersect(initial.preloaded_last).difference(initial.pending)
                    =~= prefix.to_set().difference(outside));
                assert(prefix.push(member).to_set().intersect(initial.preloaded_last).difference(
                    initial.pending,
                ) =~= prefix.push(member).to_set().difference(outside));
            }
            if self.preloaded_resource_ids_last_frame.contains(&member)
                && !self.pending_resource_removals.contains(&member) {
                self.preload_evicted_resource_count = saturating_add(
                    self.preload_evicted_resource_count,
                    1,
                );
            }
            index = index + 1;
        }
        assert(members@.subrange(0, members@.len() as int) =~= members@);
    }

    /// Queues each of `removed` for removal, counting those not already queued.
    fn queue_removal_ids(&mut self, removed: &HashSet<u64>)
        ensures
            final(self)@ == (SourceBackedImageStoreView {
                pending: old(self)@.pending.union(removed@),
                evicted: sat_count(
                    old(self)@.evicted,
                    removed@.difference(old(self)@.pending).len(),
                ),
                ..old(self)@
            }),
    {
        let ghost initial = self@;
        let members = set_members(removed);
        let mut index: usize = 0;
        assert(members@.subrange(0, 0).to_set() =~= Set::<u64>::empty());
        assert(members@.subrange(0, 0).to_set().difference(initial.pending) =~= Set::<u64>::empty());
        assert(initial.pending.union(Set::<u64>::empty()) =~= initial.pending);
        while index < members.len()
            invariant
                members@.no_duplicates(),
                members@.to_set() == removed@,
                index <= members.len(),
                self@ == (SourceBackedImageStoreView {
                    pending: self@.pending,
                    evicted: self@.evicted,
                    ..initial
                }),
                self@.pending == initial.pending.union(members@.subrange(0, index as int).to_set()),
                self@.evicted == sat_count(
                    initial.evicted,
                    members@.subrange(0, index as int).to_set().difference(initial.pending).len(),
                ),
            decreases members.len() - index,
        {
            let member = members[index];
            let ghost prefix = members@.subrange(0, index as int);
            proof {
                assert(members@.subrange(0, index + 1) =~= prefix.push(member));
                assert(prefix.push(member).no_duplicates()) by {
                    assert forall|i: int, j: int|
                        0 <= i < prefix.push(member).len() && 0 <= j < prefix.push(member).len()
                            && i != j implies prefix.push(member)[i] != prefix.push(member)[j] by {
                        assert(prefix.push(member)[i] == members@[i]);
                        assert(prefix.push(member)[j] == members@[j]);
                    }
                }
                lemma_count_step(prefix, member, initial.pending);
                prefix.lemma_push_to_set_commute(member);
                assert(!prefix.to_set().contains(member)) by {
                    if prefix.to_set().contains(member) {
                        let j = choose|j: int| 0 <= j < prefix.len() && prefix[j] == member;
                        assert(members@[j] == members@[index as int]);
                    }
                }
            }
            if self.pending_resource_removals.insert(member) {
                self.evicted_resource_count = saturating_add(self.evicted_resource_count, 1);
            }
            proof {
                assert(self@.pending =~= initial.pending.union(prefix.push(member).to_set()));
            }
            index = index + 1;
        }
        assert(members@.subrange(0, members@.len() as int) =~= members@);
    }

    /// Queues resources for removal from the platform.
    pub fn queue_removals(&mut self, resource_ids: Vec<ImageResourceId>)
        ensures
            final(self)@ == (SourceBackedImageStoreView {
                pending: old(self)@.pending.union(id_values(resource_ids@).to_set()),
                evicted: sat_count(
                    old(self)@.evicted,
                    id_values(resource_ids@).to_set().difference(old(self)@.pending).len(),
                ),
                ..old(self)@
            }),
    {
        let mut values: Vec<u64> = Vec::new();
        let mut index: usize = 0;
        while index < resource_ids.len()
            invariant
                index <= resource_ids.len(),
                values@ == id_values(resource_ids@.subrange(0, index as int)),
            decreases resource_ids.len() - index,
        {
            values.push(resource_ids[index].0);
            proof {
                assert(id_values(resource_ids@.subrange(0, index + 1)) =~= id_values(
                    resource_ids@.subrange(0, index as int),
                ).push(resource_ids@[index as int].0));
            }
            index = index + 1;
        }
        assert(resource_ids@.subrange(0, resource_ids@.len() as int) =~= resource_ids@);
        let removed = set_from_members(&values);
        self.queue_removal_ids(&removed);
    }

    /// Takes every queued removal, each once.
    pub fn drain_pending_removals(&mut self) -> (drained: Vec<ImageResourceId>)
        ensures
            id_values(drained@).no_duplicates(),
            id_values(drained@).to_set() == old(self)@.pending,
            final(self)@ == (SourceBackedImageStoreView { pending: Set::empty(), ..old(self)@ }),
    {
        let members = set_members(&self.pending_resource_removals);
        let mut drained: Vec<ImageResourceId> = Vec::new();
        let mut index: usize = 0;
        while index < members.len()
            invariant
                index <= members.len(),
                drained@.len() == index,
                forall|i: int| 0 <= i < index ==> #[trigger] drained@[i].0 == members@[i],
            decreases members.len() - index,
        {
            drained.push(ImageResourceId(members[index]));
            index = index + 1;
        }
        assert(id_values(drained@) =~= members@);
        self.pending_resource_removals.clear();
        drained
    }

    /// Ends a frame: syncs the final scene's references; keeps live requests the final scene or
    /// a preload uses and other requests made this frame; keeps latest live resources still
    /// held live and the sizes and failures of sources still named; queues every released
    /// resource for removal (cancelling queued removals of resources still in use); and
    /// remembers this frame's preloads.
    pub fn finish_frame(&mut self, final_scene_resource_ids: Vec<ImageResourceId>)
        ensures
            ({
                let old_view = old(self)@;
                let scene = id_values(final_scene_resource_ids@).to_set();
                let requests = kept_requests(old_view, scene);
                let live = live_ids(requests);
                let latest = kept_latest(old_view.latest, live);
                let removed = dropped_live(old_view, scene).union(
                    dropped_latest(old_view.latest, live),
                );
                let sources = retained_sources(requests, latest);
                let pending = old_view.pending.difference(scene).difference(old_view.preloaded);
                final(self)@ == (SourceBackedImageStoreView {
                    requests,
                    latest,
                    known_sizes: sizes_of_sources(old_view.known_sizes, sources),
                    failed: old_view.failed.intersect(sources),
                    referenced: scene.filter(|resource: u64| findable(old_view, resource)),
                    referenced_bytes: final(self)@.referenced_bytes,
                    pending: pending.union(removed),
                    evicted: sat_count(old_view.evicted, removed.difference(pending).len()),
                    preload_evicted: sat_count(
                        old_view.preload_evicted,
                        removed.intersect(old_view.preloaded_last).difference(pending).len(),
                    ),
                    preloaded_last: old_view.preloaded,
                    ..old_view
                })
            }),
            exists|found: Seq<ImageResource>|
                found_for(frame_reset(old(self)@), id_values(final_scene_resource_ids@), found)
                && referenced_after(frame_reset(old(self)@), id_values(final_scene_resource_ids@), found).1
                == final(self)@.referenced_bytes,
            bytes_determined(frame_reset(old(self)@), id_values(final_scene_resource_ids@))
                ==> final(self)@.referenced_bytes == referenced_after(
                frame_reset(old(self)@),
                id_values(final_scene_resource_ids@),
                chosen_found(frame_reset(old(self)@), id_values(final_scene_resource_ids@)),
            ).1,
    {
        let scene = self.sync_final_scene_references(final_scene_resource_ids);
        let ghost synced = self@;
        self.release_used_from_pending(&scene);
        let ghost released = self@;
        proof {
            assert(kept_requests(released, scene@) =~= kept_requests(old(self)@, scene@));
            assert(dropped_live(released, scene@) =~= dropped_live(old(self)@, scene@));
        }
        let mut removed: HashSet<u64> = HashSet::new();
        self.retain_requests(&scene, &mut removed);
        let live = self.live_resource_ids();
        self.retain_latest(&live, &mut removed);
        self.retain_sources();
        self.queue_preload_removal_ids(&removed);
        self.queue_removal_ids(&removed);
        let preloaded = set_members(&self.preloaded_resource_ids_this_frame);
        self.preloaded_resource_ids_last_frame = set_from_members(&preloaded);
        proof {
            assert(Set::<u64>::empty().union(dropped_live(old(self)@, scene@)) =~= dropped_live(
                old(self)@,
                scene@,
            ));
            assert(removed@ =~= dropped_live(old(self)@, scene@).union(
                dropped_latest(old(self)@.latest, live@),
            ));
            assert(self@.referenced_bytes == synced.referenced_bytes);
        }
    }
}
/// Lifecycle state reported by a request diagnostic.
#[derive(Clone, Copy, Debug, PartialEq, Eq, Structural)]
pub enum SourceBackedImageRequestState {
    /// Preparation is pending.
    Loading,
    /// A prepared buffer awaits upload.
    Ready,
    /// A resource serves the request.
    Live,
    /// A budget deferred the request.
    BudgetDeferred,
    /// Preparation failed.
    Failed,
}

/// Why a request is retained, as reported by a request diagnostic.
#[derive(Clone, Copy, Debug, PartialEq, Eq, Structural)]
pub enum SourceBackedImageRetentionKind {
    /// Awaiting preparation or upload for the scene.
    Loading,
    /// Retained by a preload.
    Preload,
    /// Retained by the final scene.
    FinalScene,
    /// Retained by both the final scene and a preload.
    Both,
    /// Live without this frame's scene or preloads.
    Live,
    /// Failed.
    Failed,
}

/// Content-free facts about one tracked request.
#[derive(Clone, Copy, Debug, PartialEq, Eq, Structural)]
pub struct SourceBackedImageRequestDiagnostic {
    /// Request identity.
    pub request_id: u64,
    /// Source identity.
    pub source_id: u64,
    /// Lifecycle state.
    pub state: SourceBackedImageRequestState,
    /// Requested width (negative counts as zero).
    pub requested_width: u32,
    /// Requested height (negative counts as zero).
    pub requested_height: u32,
    /// Live resource identity.
    pub resource_id: Option<u64>,
    /// Estimated GPU bytes of the live resource or pending upload.
    pub gpu_bytes_estimate: Option<u64>,
    /// Bytes of the prepared buffer awaiting upload.
    pub decoded_cpu_bytes_estimate: Option<u64>,
    /// Retention reason.
    pub retention_kind: SourceBackedImageRetentionKind,
}

/// Per-state counts over the tracked requests.
#[derive(Clone, Copy, Debug, PartialEq, Eq, Structural)]
pub struct SourceBackedImageRequestTally {
    /// Requests awaiting preparation.
    pub pending_decode_count: usize,
    /// Preloaded requests awaiting preparation.
    pub preload_pending_decode_count: usize,
    /// Requests with a buffer awaiting upload.
    pub pending_upload_count: usize,
    /// Bytes of the buffers awaiting upload (saturating).
    pub pending_upload_decoded_cpu_bytes_estimate: u64,
    /// Preloaded requests with a buffer awaiting upload.
    pub preload_pending_upload_count: usize,
    /// Live requests.
    pub live_count: usize,
    /// Estimated GPU bytes of the live requests' resources (saturating).
    pub live_gpu_bytes_estimate: u64,
    /// Budget-deferred requests.
    pub budget_deferred_count: usize,
    /// Requests deferred by the preload budget.
    pub preload_budget_deferred_count: usize,
    /// Failed requests.
    pub failed_count: usize,
}

/// Content-free facts about a store's requests, resources and budgets.
#[derive(Clone, Debug)]
pub struct SourceBackedImageDiagnosticSnapshot {
    /// Tracked requests.
    pub request_count: usize,
    /// Sources with a known size.
    pub known_source_count: usize,
    /// Failed sources.
    pub failed_source_count: usize,
    /// Requests painted this frame.
    pub requested_this_frame_count: usize,
    /// Requests preloaded this frame.
    pub preload_request_count: usize,
    /// Resources painted this frame.
    pub painted_resource_count: usize,
    /// Resources in this frame's final scene.
    pub final_scene_resource_count: usize,
    /// Resources kept live by preloads this frame.
    pub preload_live_count: usize,
    /// Estimated GPU bytes of the preloaded resources.
    pub preload_gpu_bytes_estimate: u64,
    /// Preload budget deferrals so far.
    pub preload_budget_deferral_count: u64,
    /// Preload resource-count limit.
    pub preload_max_resource_count: usize,
    /// Preload GPU-byte limit.
    pub preload_max_gpu_bytes: u64,
    /// Queued resource removals.
    pub pending_resource_removal_count: usize,
    /// Resources ever queued for removal.
    pub evicted_resource_count: u64,
    /// Previously preloaded resources evicted.
    pub preload_evicted_resource_count: u64,
    /// Per-state counts over the tracked requests.
    pub tally: SourceBackedImageRequestTally,
    /// Diagnostics of at most [`MAX_SOURCE_BACKED_IMAGE_DIAGNOSTIC_ITEMS`] requests.
    pub items: Vec<SourceBackedImageRequestDiagnostic>,
    /// Whether requests were left out of `items`.
    pub truncated: bool,
}

/// The empty tally.
pub open spec fn empty_tally() -> SourceBackedImageRequestTally {
    SourceBackedImageRequestTally {
        pending_decode_count: 0,
        preload_pending_decode_count: 0,
        pending_upload_count: 0,
        pending_upload_decoded_cpu_bytes_estimate: 0,
        preload_pending_upload_count: 0,
        live_count: 0,
        live_gpu_bytes_estimate: 0,
        budget_deferred_count: 0,
        preload_budget_deferred_count: 0,
        failed_count: 0,
    }
}

/// A count advanced by one, saturating at `usize::MAX`.
pub open spec fn bump(count: usize) -> usize {
    if count == usize::MAX { count } else { (count + 1) as usize }
}

/// The tally after counting one tracked request.
pub open spec fn tally_step(
    tally: SourceBackedImageRequestTally,
    view: SourceBackedImageStoreView,
    key: u64,
) -> SourceBackedImageRequestTally {
    let preload = view.preload_requested.contains(key);
    match view.requests[key].state {
        SourceBackedImageState::Loading => SourceBackedImageRequestTally {
            pending_decode_count: bump(tally.pending_decode_count),
            preload_pending_decode_count: if preload {
                bump(tally.preload_pending_decode_count)
            } else {
                tally.preload_pending_decode_count
            },
            ..tally
        },
        SourceBackedImageState::Ready(upload) => SourceBackedImageRequestTally {
            pending_upload_count: bump(tally.pending_upload_count),
            pending_upload_decoded_cpu_bytes_estimate: sat_add(
                tally.pending_upload_decoded_cpu_bytes_estimate,
                upload.bytes().len() as u64,
            ),
            preload_pending_upload_count: if preload {
                bump(tally.preload_pending_upload_count)
            } else {
                tally.preload_pending_upload_count
            },
            ..tally
        },
        SourceBackedImageState::Live(resource) => SourceBackedImageRequestTally {
            live_count: bump(tally.live_count),
            live_gpu_bytes_estimate: sat_add(
                tally.live_gpu_bytes_estimate,
                resource_bytes(resource.size),
            ),
            ..tally
        },
        SourceBackedImageState::BudgetDeferred { preload: deferred_preload } => SourceBackedImageRequestTally {
            budget_deferred_count: bump(tally.budget_deferred_count),
            preload_budget_deferred_count: if deferred_preload {
                bump(tally.preload_budget_deferred_count)
            } else {
                tally.preload_budget_deferred_count
            },
            ..tally
        },
        SourceBackedImageState::Failed => SourceBackedImageRequestTally {
            failed_count: bump(tally.failed_count),
            ..tally
        },
    }
}

/// The tally of the tracked requests `keys`, counted in order.
pub open spec fn tally_of(view: SourceBackedImageStoreView, keys: Seq<u64>) -> SourceBackedImageRequestTally
    decreases keys.len(),
{
    if keys.len() == 0 {
        empty_tally()
    } else {
        tally_step(tally_of(view, keys.drop_last()), view, keys.last())
    }
}

/// The diagnostic of one tracked request.
pub open spec fn request_diagnostic(
    view: SourceBackedImageStoreView,
    key: u64,
) -> SourceBackedImageRequestDiagnostic {
    let entry = view.requests[key];
    let preload = view.preload_requested.contains(key);
    let base = SourceBackedImageRequestDiagnostic {
        request_id: key,
        source_id: entry.source_id.value(),
        state: SourceBackedImageRequestState::Loading,
        requested_width: crate::resources::extent(entry.requested_size.width),
        requested_height: crate::resources::extent(entry.requested_size.height),
        resource_id: None,
        gpu_bytes_estimate: None,
        decoded_cpu_bytes_estimate: None,
        retention_kind: SourceBackedImageRetentionKind::Loading,
    };
    match entry.state {
        SourceBackedImageState::Loading => base,
        SourceBackedImageState::Ready(upload) => SourceBackedImageRequestDiagnostic {
            state: SourceBackedImageRequestState::Ready,
            retention_kind: if preload {
                SourceBackedImageRetentionKind::Preload
            } else {
                SourceBackedImageRetentionKind::Loading
            },
            gpu_bytes_estimate: Some(resource_bytes(upload.upload_size())),
            decoded_cpu_bytes_estimate: Some(upload.bytes().len() as u64),
            ..base
        },
        SourceBackedImageState::Live(resource) => SourceBackedImageRequestDiagnostic {
            state: SourceBackedImageRequestState::Live,
            retention_kind: if view.referenced.contains(resource.id.0) && view.preloaded.contains(
                resource.id.0,
            ) {
                SourceBackedImageRetentionKind::Both
            } else if view.referenced.contains(resource.id.0) {
                SourceBackedImageRetentionKind::FinalScene
            } else if view.preloaded.contains(resource.id.0) {
                SourceBackedImageRetentionKind::Preload
            } else {
                SourceBackedImageRetentionKind::Live
            },
            resource_id: Some(resource.id.0),
            gpu_bytes_estimate: Some(resource_bytes(resource.size)),
            ..base
        },
        SourceBackedImageState::BudgetDeferred { preload: deferred_preload } => SourceBackedImageRequestDiagnostic {
            state: SourceBackedImageRequestState::BudgetDeferred,
            retention_kind: if deferred_preload {
                SourceBackedImageRetentionKind::Preload
            } else {
                SourceBackedImageRetentionKind::FinalScene
            },
            ..base
        },
        SourceBackedImageState::Failed => SourceBackedImageRequestDiagnostic {
            state: SourceBackedImageRequestState::Failed,
            retention_kind: if preload {
                SourceBackedImageRetentionKind::Preload
            } else {
                SourceBackedImageRetentionKind::Failed
            },
            ..base
        },
    }
}

fn bump_count(count: usize) -> (next: usize)
    ensures
        next == bump(count),
{
    if count == usize::MAX {
        count
    } else {
        count + 1
    }
}

impl SourceBackedImageStore {
    /// Counts one tracked request into the tally and describes it.
    fn tally_request(&self, tally: &mut SourceBackedImageRequestTally, key: u64) -> (diagnostic:
        SourceBackedImageRequestDiagnostic)
        requires
            self@.requests.contains_key(key),
        ensures
            *final(tally) == tally_step(*old(tally), self@, key),
            diagnostic == request_diagnostic(self@, key),
    {
        let entry = match self.requests.get(&key) {
            Some(entry) => entry,
            None => {
                return SourceBackedImageRequestDiagnostic {
                    request_id: key,
                    source_id: 0,
                    state: SourceBackedImageRequestState::Loading,
                    requested_width: 0,
                    requested_height: 0,
                    resource_id: None,
                    gpu_bytes_estimate: None,
                    decoded_cpu_bytes_estimate: None,
                    retention_kind: SourceBackedImageRetentionKind::Loading,
                };
            },
        };
        let preload_requested = self.preload_requested_this_frame.contains(&key);
        let width: u32 = if entry.requested_size.width.0 < 0 {
            0
        } else {
            entry.requested_size.width.0 as u32
        };
        let height: u32 = if entry.requested_size.height.0 < 0 {
            0
        } else {
            entry.requested_size.height.0 as u32
        };
        let mut item = SourceBackedImageRequestDiagnostic {
            request_id: key,
            source_id: entry.source_id.as_u64(),
            state: SourceBackedImageRequestState::Loading,
            requested_width: width,
            requested_height: height,
            resource_id: None,
            gpu_bytes_estimate: None,
            decoded_cpu_bytes_estimate: None,
            retention_kind: SourceBackedImageRetentionKind::Loading,
        };
        match &entry.state {
            SourceBackedImageState::Loading => {
                tally.pending_decode_count = bump_count(tally.pending_decode_count);
                if preload_requested {
                    tally.preload_pending_decode_count = bump_count(tally.preload_pending_decode_count);
                }
            },
            SourceBackedImageState::Ready(upload) => {
                let decoded_bytes = upload.pixels().len() as u64;
                tally.pending_upload_count = bump_count(tally.pending_upload_count);
                tally.pending_upload_decoded_cpu_bytes_estimate = saturating_add(
                    tally.pending_upload_decoded_cpu_bytes_estimate,
                    decoded_bytes,
                );
                if preload_requested {
                    tally.preload_pending_upload_count = bump_count(tally.preload_pending_upload_count);
                }
                item.state = SourceBackedImageRequestState::Ready;
                item.retention_kind = if preload_requested {
                    SourceBackedImageRetentionKind::Preload
                } else {
                    SourceBackedImageRetentionKind::Loading
                };
                item.gpu_bytes_estimate = Some(crate::resources::image_resource_bytes(upload.size()));
                item.decoded_cpu_bytes_estimate = Some(decoded_bytes);
            },
            SourceBackedImageState::Live(resource) => {
                tally.live_count = bump_count(tally.live_count);
                tally.live_gpu_bytes_estimate = saturating_add(
                    tally.live_gpu_bytes_estimate,
                    resource.gpu_bytes_estimate(),
                );
                item.state = SourceBackedImageRequestState::Live;
                let referenced = self.referenced_this_frame.contains(&resource.id.0);
                let preloaded = self.preloaded_resource_ids_this_frame.contains(&resource.id.0);
                item.retention_kind = if referenced && preloaded {
                    SourceBackedImageRetentionKind::Both
                } else if referenced {
                    SourceBackedImageRetentionKind::FinalScene
                } else if preloaded {
                    SourceBackedImageRetentionKind::Preload
                } else {
                    SourceBackedImageRetentionKind::Live
                };
                item.resource_id = Some(resource.id.0);
                item.gpu_bytes_estimate = Some(resource.gpu_bytes_estimate());
            },
            SourceBackedImageState::BudgetDeferred { preload } => {
                tally.budget_deferred_count = bump_count(tally.budget_deferred_count);
                if *preload {
                    tally.preload_budget_deferred_count = bump_count(
                        tally.preload_budget_deferred_count,
                    );
                }
                item.state = SourceBackedImageRequestState::BudgetDeferred;
                item.retention_kind = if *preload {
                    SourceBackedImageRetentionKind::Preload
                } else {
                    SourceBackedImageRetentionKind::FinalScene
                };
            },
            SourceBackedImageState::Failed => {
                tally.failed_count = bump_count(tally.failed_count);
                item.state = SourceBackedImageRequestState::Failed;
                item.retention_kind = if preload_requested {
                    SourceBackedImageRetentionKind::Preload
                } else {
                    SourceBackedImageRetentionKind::Failed
                };
            },
        }
        item
    }

    /// Content-free facts about the store. The tracked requests are enumerated once, in some
    /// order: the tally counts all of them and `items` describes the first
    /// [`MAX_SOURCE_BACKED_IMAGE_DIAGNOSTIC_ITEMS`], with `truncated` set when there were more.
    pub fn diagnostic_snapshot(&self, preload_budget: SourceBackedImageBudget) -> (snapshot:
        SourceBackedImageDiagnosticSnapshot)
        ensures
            snapshot.request_count == self@.requests.len(),
            snapshot.known_source_count == self@.known_sizes.len(),
            snapshot.failed_source_count == self@.failed.len(),
            snapshot.requested_this_frame_count == self@.requested.len(),
            snapshot.preload_request_count == self@.preload_requested.len(),
            snapshot.painted_resource_count == self@.referenced.len(),
            snapshot.final_scene_resource_count == self@.referenced.len(),
            snapshot.preload_live_count == self@.preloaded.len(),
            snapshot.preload_gpu_bytes_estimate == self@.preloaded_bytes,
            snapshot.preload_budget_deferral_count == self@.deferrals,
            snapshot.preload_max_resource_count == preload_budget.count_limit(),
            snapshot.preload_max_gpu_bytes == preload_budget.byte_limit(),
            snapshot.pending_resource_removal_count == self@.pending.len(),
            snapshot.evicted_resource_count == self@.evicted,
            snapshot.preload_evicted_resource_count == self@.preload_evicted,
            exists|order: Seq<u64>|
                {
                    &&& order.no_duplicates()
                    &&& order.to_set() == self@.requests.dom()
                    &&& snapshot.tally == tally_of(self@, order)
                    &&& snapshot.items@ == order.take(
                        if order.len() < MAX_SOURCE_BACKED_IMAGE_DIAGNOSTIC_ITEMS {
                            order.len() as int
                        } else {
                            MAX_SOURCE_BACKED_IMAGE_DIAGNOSTIC_ITEMS as int
                        },
                    ).map_values(|key: u64| request_diagnostic(self@, key))
                    &&& snapshot.truncated == (order.len() > MAX_SOURCE_BACKED_IMAGE_DIAGNOSTIC_ITEMS)
                },
    {
        let keys = map_keys(&self.requests);
        let mut tally = SourceBackedImageRequestTally {
            pending_decode_count: 0,
            preload_pending_decode_count: 0,
            pending_upload_count: 0,
            pending_upload_decoded_cpu_bytes_estimate: 0,
            preload_pending_upload_count: 0,
            live_count: 0,
            live_gpu_bytes_estimate: 0,
            budget_deferred_count: 0,
            preload_budget_deferred_count: 0,
            failed_count: 0,
        };
        let mut items: Vec<SourceBackedImageRequestDiagnostic> = Vec::new();
        let mut truncated = false;
        let mut index: usize = 0;
        while index < keys.len()
            invariant
                keys@.to_set() == self@.requests.dom(),
                index <= keys.len(),
                tally == tally_of(self@, keys@.take(index as int)),
                items@ == keys@.take(
                    if index < MAX_SOURCE_BACKED_IMAGE_DIAGNOSTIC_ITEMS {
                        index as int
                    } else {
                        MAX_SOURCE_BACKED_IMAGE_DIAGNOSTIC_ITEMS as int
                    },
                ).map_values(|key: u64| request_diagnostic(self@, key)),
                truncated == (index > MAX_SOURCE_BACKED_IMAGE_DIAGNOSTIC_ITEMS),
            decreases keys.len() - index,
        {
            let key = keys[index];
            proof {
                assert(keys@.to_set().contains(key));
                assert(keys@.take(index + 1).drop_last() =~= keys@.take(index as int));
            }
            let item = self.tally_request(&mut tally, key);
            if items.len() < MAX_SOURCE_BACKED_IMAGE_DIAGNOSTIC_ITEMS {
                items.push(item);
            } else {
                truncated = true;
            }
            proof {
                if index < MAX_SOURCE_BACKED_IMAGE_DIAGNOSTIC_ITEMS {
                    assert(keys@.take(index + 1).map_values(|key: u64| request_diagnostic(self@, key))
                        =~= keys@.take(index as int).map_values(
                        |key: u64| request_diagnostic(self@, key),
                    ).push(item));
                }
            }
            index = index + 1;
        }
        assert(keys@.take(keys@.len() as int) =~= keys@);
        SourceBackedImageDiagnosticSnapshot {
            request_count: self.requests.len(),
            known_source_count: self.known_size_by_source.len(),
            failed_source_count: self.failed_sources.len(),
            requested_this_frame_count: self.requested_this_frame.len(),
            preload_request_count: self.preload_requested_this_frame.len(),
            painted_resource_count: self.referenced_this_frame.len(),
            final_scene_resource_count: self.referenced_this_frame.len(),
            preload_live_count: self.preloaded_resource_ids_this_frame.len(),
            preload_gpu_bytes_estimate: self.preloaded_gpu_bytes_this_frame,
            preload_budget_deferral_count: self.preload_budget_deferral_count,
            preload_max_resource_count: preload_budget.max_resource_count(),
            preload_max_gpu_bytes: preload_budget.max_gpu_bytes(),
            pending_resource_removal_count: self.pending_resource_removals.len(),
            evicted_resource_count: self.evicted_resource_count,
            preload_evicted_resource_count: self.preload_evicted_resource_count,
            tally,
            items,
            truncated,
        }
    }
}
/// One preload serviced: the state, the platform's held resources and the released resources
/// after servicing the preload of `key`, where `upload_ok` says whether an attempted upload
/// succeeded.
///
/// A ready buffer is uploaded and kept live as a preload when it fits the budgets, and deferred
/// by the preload budget otherwise; a failed upload fails the request. A live resource not in
/// the scene is kept as a preload when it fits the budgets, and deferred otherwise.
pub open spec fn preload_step(
    view: SourceBackedImageStoreView,
    resident: Set<u64>,
    key: u64,
    budget: SourceBackedImageBudget,
    preload_budget: SourceBackedImageBudget,
    upload_ok: bool,
) -> (SourceBackedImageStoreView, Set<u64>, Seq<ImageResourceId>) {
    let (candidate, asked) = candidate_outcome(view, key, resident);
    match candidate {
        SourceBackedPaintCandidate::Ready { source_id, upload } => {
            let pending = upload_resource(upload);
            if !preload_allowed(asked, pending, budget, preload_budget) {
                let (removed, deferred) = deferred_outcome(asked, key, source_id, true);
                (deferred, resident, removed)
            } else if upload_ok {
                (
                    preloaded_outcome(live_outcome(asked, key, source_id, pending), pending),
                    resident.insert(pending.id.0),
                    Seq::empty(),
                )
            } else {
                let (removed, failed) = failed_outcome(asked, key, source_id);
                (failed, resident, removed)
            }
        },
        SourceBackedPaintCandidate::Live(resource) => if asked.referenced.contains(resource.id.0) {
            (asked, resident, Seq::empty())
        } else if preload_allowed(asked, resource, budget, preload_budget) {
            (preloaded_outcome(asked, resource), resident, Seq::empty())
        } else {
            let (removed, deferred) = deferred_outcome(asked, key, resource.source_id, true);
            (deferred, resident, removed)
        },
        _ => (asked, resident, Seq::empty()),
    }
}

/// The preloads `keys` serviced in order, with the outcomes `uploads_ok` of their attempted
/// uploads.
pub open spec fn preload_fold(
    view: SourceBackedImageStoreView,
    resident: Set<u64>,
    keys: Seq<u64>,
    uploads_ok: Seq<bool>,
    budget: SourceBackedImageBudget,
    preload_budget: SourceBackedImageBudget,
) -> (SourceBackedImageStoreView, Set<u64>, Seq<ImageResourceId>)
    decreases keys.len(),
{
    if keys.len() == 0 {
        (view, resident, Seq::empty())
    } else {
        let (before, held, removed) = preload_fold(
            view,
            resident,
            keys.drop_last(),
            uploads_ok.drop_last(),
            budget,
            preload_budget,
        );
        let (after, now_held, more) = preload_step(
            before,
            held,
            keys.last(),
            budget,
            preload_budget,
            uploads_ok.last(),
        );
        (after, now_held, removed + more)
    }
}

/// The members of a set in increasing order.
fn sorted_members(set: &HashSet<u64>) -> (sorted: Vec<u64>)
    ensures
        sorted@.to_set() == set@,
        forall|i: int, j: int| 0 <= i < j < sorted@.len() ==> sorted@[i] < sorted@[j],
{
    let members = set_members(set);
    let mut sorted: Vec<u64> = Vec::new();
    let mut index: usize = 0;
    while index < members.len()
        invariant
            members@.no_duplicates(),
            members@.to_set() == set@,
            index <= members.len(),
            sorted@.to_set() == members@.subrange(0, index as int).to_set(),
            forall|i: int, j: int| 0 <= i < j < sorted@.len() ==> sorted@[i] < sorted@[j],
        decreases members.len() - index,
    {
        let member = members[index];
        proof {
            assert(!sorted@.contains(member)) by {
                if sorted@.contains(member) {
                    assert(sorted@.to_set().contains(member));
                    let j = choose|j: int| 0 <= j < index && members@.subrange(0, index as int)[j]
                        == member;
                    assert(members@[j] == members@[index as int]);
                }
            }
        }
        let mut position: usize = 0;
        while position < sorted.len() && sorted[position] < member
            invariant
                position <= sorted.len(),
                forall|i: int| 0 <= i < position ==> sorted@[i] < member,
            decreases sorted.len() - position,
        {
            position = position + 1;
        }
        let ghost before = sorted@;
        proof {
            assert forall|i: int| position <= i < before.len() implies before[i] > member by {
                assert(before[position as int] >= member);
                if i > position {
                    assert(before[position as int] < before[i]);
                }
                assert(before[i] != member) by {
                    if before[i] == member {
                        assert(before.contains(member));
                    }
                }
            }
        }
        sorted.insert(position, member);
        proof {
            assert(sorted@ == before.insert(position as int, member));
            assert forall|i: int, j: int| 0 <= i < j < sorted@.len() implies sorted@[i]
                < sorted@[j] by {
                if j < position {
                    assert(sorted@[i] == before[i] && sorted@[j] == before[j]);
                } else if j == position {
                    assert(sorted@[i] == before[i]);
                } else if i < position {
                    assert(sorted@[i] == before[i] && sorted@[j] == before[j - 1]);
                } else if i == position {
                    assert(sorted@[j] == before[j - 1]);
                } else {
                    assert(sorted@[i] == before[i - 1] && sorted@[j] == before[j - 1]);
                }
            }
            assert(members@.subrange(0, index + 1) =~= members@.subrange(0, index as int).push(
                member,
            ));
            members@.subrange(0, index as int).lemma_push_to_set_commute(member);
            assert forall|x: u64| sorted@.to_set().contains(x) <==> before.to_set().insert(
                member,
            ).contains(x) by {
                if sorted@.contains(x) {
                    let k = choose|k: int| 0 <= k < sorted@.len() && sorted@[k] == x;
                    if k < position {
                        assert(before[k] == x);
                    } else if k > position {
                        assert(before[k - 1] == x);
                    }
                }
                if before.contains(x) {
                    let k = choose|k: int| 0 <= k < before.len() && before[k] == x;
                    if k < position {
                        assert(sorted@[k] == x);
                    } else {
                        assert(sorted@[k + 1] == x);
                    }
                }
                if x == member {
                    assert(sorted@[position as int] == x);
                }
            }
            assert(sorted@.to_set() =~= members@.subrange(0, index + 1).to_set());
        }
        index = index + 1;
    }
    assert(members@.subrange(0, members@.len() as int) =~= members@);
    sorted
}

impl SourceBackedImageStore {
    /// Services this frame's preloads in increasing request order against the paint and
    /// preload budgets (see [`preload_step`]); returns the resources to release.
    pub fn service_preloads<R: PlatformImageResources>(
        &mut self,
        image_resources: &mut R,
        budget: SourceBackedImageBudget,
        preload_budget: SourceBackedImageBudget,
    ) -> (removed: Vec<ImageResourceId>)
        ensures
            exists|order: Seq<u64>, uploads_ok: Seq<bool>|
                {
                    &&& order.to_set() == old(self)@.preload_requested
                    &&& (forall|i: int, j: int| 0 <= i < j < order.len() ==> order[i] < order[j])
                    &&& uploads_ok.len() == order.len()
                    &&& (final(self)@, final(image_resources).resident(), removed@) == preload_fold(
                        old(self)@,
                        old(image_resources).resident(),
                        order,
                        uploads_ok,
                        budget,
                        preload_budget,
                    )
                },
    {
        let request_ids = sorted_members(&self.preload_requested_this_frame);
        let ghost initial = self@;
        let ghost resident0 = image_resources.resident();
        let ghost mut uploads_ok: Seq<bool> = Seq::empty();
        let mut removed: Vec<ImageResourceId> = Vec::new();
        let mut index: usize = 0;
        while index < request_ids.len()
            invariant
                index <= request_ids.len(),
                uploads_ok.len() == index,
                (self@, image_resources.resident(), removed@) == preload_fold(
                    initial,
                    resident0,
                    request_ids@.take(index as int),
                    uploads_ok,
                    budget,
                    preload_budget,
                ),
            decreases request_ids.len() - index,
        {
            let key = request_ids[index];
            let request_id = ImageRenderRequestId::from_u64(key);
            let ghost before = self@;
            let ghost held = image_resources.resident();
            let ghost removed_before = removed@;
            let mut upload_ok = true;
            let candidate = self.candidate(request_id, image_resources);
            match candidate {
                SourceBackedPaintCandidate::Ready { source_id, upload } => {
                    let pending = ImageResource::from_upload(&upload);
                    if !self.can_preload(&pending, budget, preload_budget) {
                        let mut more = self.mark_budget_deferred(request_id, source_id, true);
                        removed.append(&mut more);
                    } else {
                        match image_resources.upsert(upload) {
                            Ok(resource) => {
                                self.mark_live(request_id, source_id, resource);
                                self.mark_preloaded(&resource);
                            },
                            Err(_) => {
                                upload_ok = false;
                                let mut more = self.mark_failed(request_id, source_id);
                                removed.append(&mut more);
                            },
                        }
                    }
                },
                SourceBackedPaintCandidate::Live(resource) => {
                    if !self.referenced_this_frame.contains(&resource.id.0) {
                        if self.can_preload(&resource, budget, preload_budget) {
                            self.mark_preloaded(&resource);
                        } else {
                            let mut more = self.mark_budget_deferred(
                                request_id,
                                resource.source_id,
                                true,
                            );
                            removed.append(&mut more);
                        }
                    }
                },
                _ => {},
            }
            proof {
                let step = preload_step(before, held, key, budget, preload_budget, upload_ok);
                assert(self@ == step.0);
                assert(image_resources.resident() == step.1);
                assert(removed@ =~= removed_before + step.2);
                let uploads_before = uploads_ok;
                uploads_ok = uploads_ok.push(upload_ok);
                assert(request_ids@.take(index + 1).drop_last() =~= request_ids@.take(index as int));
                assert(request_ids@.take(index + 1).last() == key);
                assert(uploads_ok.drop_last() =~= uploads_before);
                assert(uploads_ok.last() == upload_ok);
            }
            index = index + 1;
        }
        assert(request_ids@.take(request_ids@.len() as int) =~= request_ids@);
        removed
    }
}

} // verus!
