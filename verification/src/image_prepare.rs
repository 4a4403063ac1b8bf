use vstd::prelude::*;
use crate::geometry::{DevicePixels, Size};
use crate::image_source::{ImageRenderRequest, ImageRenderRequestId, ImageSourceId};

verus! {

/// Default upper bound for source pixels decoded by source-backed image preparation.
pub const DEFAULT_MAX_SOURCE_IMAGE_PIXELS: u64 = 64 * 1024 * 1024;

/// Default upper bound for pixels in one prepared image upload buffer.
pub const DEFAULT_MAX_IMAGE_UPLOAD_PIXELS: u64 = 64 * 1024 * 1024;

/// Bounds used while preparing source-backed image upload buffers.
#[derive(Clone, Debug, Eq, PartialEq, Structural)]
pub struct ImagePreparationLimits {
    max_source_pixels: u64,
    max_upload_pixels: u64,
}

impl Default for ImagePreparationLimits {
    fn default() -> (limits: Self)
        ensures
            limits.source_limit() == DEFAULT_MAX_SOURCE_IMAGE_PIXELS,
            limits.upload_limit() == DEFAULT_MAX_IMAGE_UPLOAD_PIXELS,
    {
        Self {
            max_source_pixels: DEFAULT_MAX_SOURCE_IMAGE_PIXELS,
            max_upload_pixels: DEFAULT_MAX_IMAGE_UPLOAD_PIXELS,
        }
    }
}

impl ImagePreparationLimits {
    /// The maximum source pixel count that may be decoded.
    pub closed spec fn source_limit(&self) -> u64 {
        self.max_source_pixels
    }

    /// The maximum prepared upload pixel count.
    pub closed spec fn upload_limit(&self) -> u64 {
        self.max_upload_pixels
    }

    /// Sets the maximum source pixel count that may be decoded.
    pub fn with_max_source_pixels(self, max_source_pixels: u64) -> (limits: Self)
        ensures
            limits.source_limit() == max_source_pixels,
            limits.upload_limit() == self.upload_limit(),
    {
        Self { max_source_pixels, ..self }
    }

    /// Sets the maximum prepared upload pixel count.
    pub fn with_max_upload_pixels(self, max_upload_pixels: u64) -> (limits: Self)
        ensures
            limits.source_limit() == self.source_limit(),
            limits.upload_limit() == max_upload_pixels,
    {
        Self { max_upload_pixels, ..self }
    }

    /// Returns the maximum source pixel count that may be decoded.
    pub fn max_source_pixels(&self) -> (max: u64)
        ensures
            max == self.source_limit(),
    {
        self.max_source_pixels
    }

    /// Returns the maximum prepared upload pixel count.
    pub fn max_upload_pixels(&self) -> (max: u64)
        ensures
            max == self.upload_limit(),
    {
        self.max_upload_pixels
    }
}

/// A reason reported by an image source, decoder or renderer.
#[derive(Clone, Debug)]
pub struct ImageCacheError {
    pub(crate) description: String,
}

impl ImageCacheError {
    /// An error with the given human-readable description.
    pub fn new(description: String) -> (error: Self)
        ensures
            error.text() == description@,
    {
        ImageCacheError { description }
    }

    /// The error's description.
    pub closed spec fn text(&self) -> Seq<char> {
        self.description@
    }

    /// The error's human-readable description.
    pub fn description(&self) -> (description: &str)
        ensures
            description@ == self.text(),
    {
        self.description.as_str()
    }
}

/// The stable failure states produced by source-backed image preparation.
#[derive(Clone, Debug)]
pub enum ImagePreparationFailureKind {
    /// The source could not be opened or read.
    Unavailable(ImageCacheError),
    /// The source format is not supported by the image preparation path.
    Unsupported(ImageCacheError),
    /// The source or requested upload exceeded configured limits.
    TooLarge {
        /// The initial source frame size when known.
        source_size: Size<DevicePixels>,
        /// The requested render size.
        requested_size: Size<DevicePixels>,
        /// The configured pixel limit that was exceeded.
        max_pixels: u64,
    },
    /// The requested size is empty or invalid.
    InvalidRequestedSize(Size<DevicePixels>),
    /// The render request does not match the supplied source.
    SourceMismatch,
    /// The requested frame is not available for this source.
    FrameUnavailable {
        /// The requested frame index.
        frame_index: usize,
    },
    /// The source was recognized but decoding failed.
    DecodeFailed(ImageCacheError),
}

/// A failed source-backed image preparation result.
#[derive(Clone, Debug)]
pub struct ImagePreparationFailure {
    request: ImageRenderRequest,
    kind: ImagePreparationFailureKind,
}

impl ImagePreparationFailure {
    /// The render request that failed.
    pub closed spec fn failed_request(&self) -> ImageRenderRequest {
        self.request
    }

    /// The failure kind.
    pub closed spec fn failure(&self) -> ImagePreparationFailureKind {
        self.kind
    }

    /// A failure of the given request with the given kind.
    pub fn new(request: ImageRenderRequest, kind: ImagePreparationFailureKind) -> (failure: Self)
        ensures
            failure.failed_request() == request,
            failure.failure() == kind,
    {
        Self { request, kind }
    }

    /// Returns the render request that failed.
    pub fn request(&self) -> (request: ImageRenderRequest)
        ensures
            request == self.failed_request(),
    {
        self.request
    }

    /// Returns the failure kind.
    pub fn kind(&self) -> (kind: &ImagePreparationFailureKind)
        ensures
            *kind == self.failure(),
    {
        &self.kind
    }
}

/// A temporary BGRA image buffer prepared for upload.
pub struct PreparedImageUpload {
    request: ImageRenderRequest,
    source_size: Size<DevicePixels>,
    size: Size<DevicePixels>,
    pixels: Vec<u8>,
    prepared_on_main_thread: bool,
}

impl PreparedImageUpload {
    /// The render request this upload buffer satisfies.
    pub closed spec fn satisfied_request(&self) -> ImageRenderRequest {
        self.request
    }

    /// The initial source frame size.
    pub closed spec fn original_size(&self) -> Size<DevicePixels> {
        self.source_size
    }

    /// The prepared upload size.
    pub closed spec fn upload_size(&self) -> Size<DevicePixels> {
        self.size
    }

    /// The prepared BGRA upload bytes.
    pub closed spec fn bytes(&self) -> Seq<u8> {
        self.pixels@
    }

    /// Whether preparation ran on the main thread.
    pub closed spec fn on_main_thread(&self) -> bool {
        self.prepared_on_main_thread
    }

    /// Returns the render request this upload buffer satisfies.
    pub fn request(&self) -> (request: ImageRenderRequest)
        ensures
            request == self.satisfied_request(),
    {
        self.request
    }

    /// Returns the initial source frame size in device pixels.
    pub fn source_size(&self) -> (size: Size<DevicePixels>)
        ensures
            size == self.original_size(),
    {
        self.source_size
    }

    /// Returns the prepared upload size in device pixels.
    pub fn size(&self) -> (size: Size<DevicePixels>)
        ensures
            size == self.upload_size(),
    {
        self.size
    }

    /// Returns the prepared BGRA upload bytes.
    pub fn pixels(&self) -> (pixels: &[u8])
        ensures
            pixels@ == self.bytes(),
    {
        self.pixels.as_slice()
    }

    /// Consumes this upload buffer and returns its BGRA bytes.
    pub fn into_pixels(self) -> (pixels: Vec<u8>)
        ensures
            pixels@ == self.bytes(),
    {
        self.pixels
    }

    /// Returns whether preparation ran while the dispatcher considered itself on the main thread.
    pub fn prepared_on_main_thread_for_test(&self) -> (on_main_thread: bool)
        ensures
            on_main_thread == self.on_main_thread(),
    {
        self.prepared_on_main_thread
    }
}

/// The outcome of preparing one source-backed image request.
pub enum ImagePreparationOutcome {
    /// A BGRA upload buffer is ready.
    Ready(PreparedImageUpload),
    /// Preparation failed with a stable fallback reason.
    Failed(ImagePreparationFailure),
}

/// The render request an outcome answers.
pub open spec fn outcome_request(outcome: ImagePreparationOutcome) -> ImageRenderRequest {
    match outcome {
        ImagePreparationOutcome::Ready(upload) => upload.satisfied_request(),
        ImagePreparationOutcome::Failed(failure) => failure.failed_request(),
    }
}

impl ImagePreparationOutcome {
    /// Returns the render request represented by this outcome.
    pub fn request(&self) -> (request: ImageRenderRequest)
        ensures
            request == outcome_request(*self),
    {
        match self {
            ImagePreparationOutcome::Ready(upload) => upload.request(),
            ImagePreparationOutcome::Failed(failure) => failure.request(),
        }
    }

    /// Returns the render request identity represented by this outcome.
    pub fn request_id(&self) -> (id: ImageRenderRequestId)
        ensures
            id == outcome_request(*self).request_id(),
    {
        self.request().id()
    }

    /// Returns this outcome's failure kind, when preparation failed.
    pub fn failure_kind(&self) -> (kind: Option<&ImagePreparationFailureKind>)
        ensures
            match *self {
                ImagePreparationOutcome::Ready(_) => kind is None,
                ImagePreparationOutcome::Failed(failure) => kind == Some(&failure.failure()),
            },
    {
        match self {
            ImagePreparationOutcome::Ready(_) => None,
            ImagePreparationOutcome::Failed(failure) => Some(failure.kind()),
        }
    }
}

/// A successful outcome for `request` carrying a prepared BGRA buffer.
pub fn ready(
    request: ImageRenderRequest,
    source_size: Size<DevicePixels>,
    size: Size<DevicePixels>,
    pixels: Vec<u8>,
    prepared_on_main_thread: bool,
) -> (outcome: ImagePreparationOutcome)
    ensures
        outcome matches ImagePreparationOutcome::Ready(upload) && upload.satisfied_request()
            == request && upload.original_size() == source_size && upload.upload_size() == size
            && upload.bytes() == pixels@ && upload.on_main_thread() == prepared_on_main_thread,
{
    ImagePreparationOutcome::Ready(
        PreparedImageUpload { request, source_size, size, pixels, prepared_on_main_thread },
    )
}

/// A failed outcome for `request` with the given kind.
pub fn failed(request: ImageRenderRequest, kind: ImagePreparationFailureKind) -> (outcome:
    ImagePreparationOutcome)
    ensures
        outcome matches ImagePreparationOutcome::Failed(failure) && failure.failed_request()
            == request && failure.failure() == kind,
{
    ImagePreparationOutcome::Failed(ImagePreparationFailure::new(request, kind))
}

/// Tracks the currently wanted render request for one image presentation slot.
pub struct ImageRenderRequestSlot {
    wanted_request: Option<ImageRenderRequestId>,
    live_request: Option<ImageRenderRequestId>,
    calls: Ghost<Seq<SlotEvent>>,
}

impl Default for ImageRenderRequestSlot {
    fn default() -> (slot: Self)
        ensures
            slot.wanted() is None,
            slot.live() is None,
            slot.history() == Seq::<SlotEvent>::empty(),
    {
        Self { wanted_request: None, live_request: None, calls: Ghost(Seq::empty()) }
    }
}

impl ImageRenderRequestSlot {
    /// The live request is always the last accepted one of the slot's call history.
    #[verifier::type_invariant]
    spec fn live_is_last_accepted(self) -> bool {
        self.live_request == last_accepted(self.calls@)
    }

    /// The newest request wanted by this slot.
    pub closed spec fn wanted(&self) -> Option<ImageRenderRequestId> {
        self.wanted_request
    }

    /// The request whose prepared upload is live in this slot.
    pub closed spec fn live(&self) -> Option<ImageRenderRequestId> {
        self.live_request
    }

    /// The calls made on this slot since it was made, as their effect on the live request.
    pub closed spec fn history(&self) -> Seq<SlotEvent> {
        self.calls@
    }

    /// Records the newest request wanted by this slot.
    pub fn request(&mut self, request: ImageRenderRequest)
        ensures
            final(self).wanted() == Some(request.request_id()),
            final(self).live() == old(self).live(),
            final(self).history() == old(self).history().push(SlotEvent::Requested),
    {
        proof {
            use_type_invariant(&*self);
        }
        let ghost calls = self.calls@.push(SlotEvent::Requested);
        assert(calls.drop_last() =~= self.calls@);
        *self = Self { wanted_request: Some(request.id()), live_request: self.live_request, calls: Ghost(calls) };
    }

    /// Clears the slot so later preparation results cannot become live.
    pub fn release(&mut self)
        ensures
            final(self).wanted() is None,
            final(self).live() is None,
            final(self).history() == old(self).history().push(SlotEvent::Released),
    {
        let ghost calls = self.calls@.push(SlotEvent::Released);
        *self = Self { wanted_request: None, live_request: None, calls: Ghost(calls) };
    }

    /// Accepts a preparation outcome only when it is ready and matches the newest wanted request;
    /// every other outcome is handed back unchanged and leaves the slot unchanged.
    pub fn accept_ready(&mut self, outcome: ImagePreparationOutcome) -> (result: Result<
        PreparedImageUpload,
        ImagePreparationOutcome,
    >)
        ensures
            final(self).wanted() == old(self).wanted(),
            match result {
                Ok(upload) => {
                    &&& outcome == ImagePreparationOutcome::Ready(upload)
                    &&& old(self).wanted() == Some(upload.satisfied_request().request_id())
                    &&& final(self).live() == old(self).wanted()
                    &&& final(self).history() == old(self).history().push(
                        SlotEvent::Accepted(upload.satisfied_request().request_id()),
                    )
                },
                Err(returned) => {
                    &&& returned == outcome
                    &&& final(self).live() == old(self).live()
                    &&& final(self).history() == old(self).history().push(SlotEvent::Refused)
                    &&& (old(self).wanted() != Some(outcome_request(outcome).request_id())
                        || outcome is Failed)
                },
            },
    {
        proof {
            use_type_invariant(&*self);
        }
        let request_id = outcome.request_id();
        let wanted_matches = match self.wanted_request {
            Some(wanted) => wanted == request_id,
            None => false,
        };
        let ghost refused = self.calls@.push(SlotEvent::Refused);
        assert(refused.drop_last() =~= self.calls@);
        if !wanted_matches {
            *self = Self { wanted_request: self.wanted_request, live_request: self.live_request, calls: Ghost(refused) };
            return Err(outcome);
        }
        match outcome {
            ImagePreparationOutcome::Ready(upload) => {
                let ghost calls = self.calls@.push(SlotEvent::Accepted(request_id));
                *self = Self { wanted_request: self.wanted_request, live_request: Some(request_id), calls: Ghost(calls) };
                Ok(upload)
            },
            ImagePreparationOutcome::Failed(failure) => {
                *self = Self { wanted_request: self.wanted_request, live_request: self.live_request, calls: Ghost(refused) };
                Err(ImagePreparationOutcome::Failed(failure))
            },
        }
    }

    /// Returns the currently live request, if any: the request of the last accepted ready
    /// upload since the slot was made or last released.
    pub fn live_request(&self) -> (live: Option<ImageRenderRequestId>)
        ensures
            live == self.live(),
            live == last_accepted(self.history()),
    {
        proof {
            use_type_invariant(self);
        }
        self.live_request
    }
}

/// One call on a request slot, as its effect on the live request: a new wanted request, a
/// release, an accepted ready upload for a request, or a refused outcome.
#[derive(Clone, Copy, Debug, PartialEq, Eq, Structural)]
pub enum SlotEvent {
    /// `request` recorded a newly wanted request.
    Requested,
    /// `release` cleared the slot.
    Released,
    /// `accept_ready` returned a ready upload for this request.
    Accepted(ImageRenderRequestId),
    /// `accept_ready` handed the outcome back.
    Refused,
}

/// The request of the last accepted upload with no release after it, if any.
pub open spec fn last_accepted(events: Seq<SlotEvent>) -> Option<ImageRenderRequestId>
    decreases events.len(),
{
    if events.len() == 0 {
        None
    } else {
        match events.last() {
            SlotEvent::Accepted(id) => Some(id),
            SlotEvent::Released => None,
            _ => last_accepted(events.drop_last()),
        }
    }
}

/// Number of pixels of a device-pixel size; negative dimensions count as zero and the product
/// saturates at `u64::MAX`.
pub open spec fn pixel_count_spec(size: Size<DevicePixels>) -> u64 {
    let width = if size.width.0 < 0 { 0int } else { size.width.0 as int };
    let height = if size.height.0 < 0 { 0int } else { size.height.0 as int };
    if width * height > u64::MAX { u64::MAX } else { (width * height) as u64 }
}

/// Number of pixels of a device-pixel size.
pub fn pixel_count(size: Size<DevicePixels>) -> (count: u64)
    ensures
        count == pixel_count_spec(size),
{
    let width: u64 = if size.width.0 < 0 { 0 } else { size.width.0 as u64 };
    let height: u64 = if size.height.0 < 0 { 0 } else { size.height.0 as u64 };
    match width.checked_mul(height) {
        Some(count) => count,
        None => u64::MAX,
    }
}

/// The failure, if any, that rejects a request before its source bytes are read: a request for
/// another source, or a requested size with a non-positive dimension.
pub fn request_failure(source_id: ImageSourceId, request: &ImageRenderRequest) -> (failure: Option<
    ImagePreparationFailureKind,
>)
    ensures
        if source_id != request.source() {
            failure == Some(ImagePreparationFailureKind::SourceMismatch)
        } else if request.size().width.0 <= 0 || request.size().height.0 <= 0 {
            failure == Some(ImagePreparationFailureKind::InvalidRequestedSize(request.size()))
        } else {
            failure is None
        },
{
    if source_id != request.source_id() {
        return Some(ImagePreparationFailureKind::SourceMismatch);
    }
    let requested_size = request.requested_size();
    if requested_size.width.0 <= 0 || requested_size.height.0 <= 0 {
        return Some(ImagePreparationFailureKind::InvalidRequestedSize(requested_size));
    }
    None
}

/// The failure, if any, for a decoded-source size over the source pixel limit.
pub fn source_pixels_failure(
    source_size: Size<DevicePixels>,
    request: &ImageRenderRequest,
    limits: &ImagePreparationLimits,
) -> (failure: Option<ImagePreparationFailureKind>)
    ensures
        if pixel_count_spec(source_size) > limits.source_limit() {
            failure == Some(
                ImagePreparationFailureKind::TooLarge {
                    source_size,
                    requested_size: request.size(),
                    max_pixels: limits.source_limit(),
                },
            )
        } else {
            failure is None
        },
{
    if pixel_count(source_size) > limits.max_source_pixels {
        Some(
            ImagePreparationFailureKind::TooLarge {
                source_size,
                requested_size: request.requested_size(),
                max_pixels: limits.max_source_pixels,
            },
        )
    } else {
        None
    }
}

/// The failure, if any, for a prepared upload size over the upload pixel limit.
pub fn upload_pixels_failure(
    source_size: Size<DevicePixels>,
    target_size: Size<DevicePixels>,
    request: &ImageRenderRequest,
    limits: &ImagePreparationLimits,
) -> (failure: Option<ImagePreparationFailureKind>)
    ensures
        if pixel_count_spec(target_size) > limits.upload_limit() {
            failure == Some(
                ImagePreparationFailureKind::TooLarge {
                    source_size,
                    requested_size: request.size(),
                    max_pixels: limits.upload_limit(),
                },
            )
        } else {
            failure is None
        },
{
    if pixel_count(target_size) > limits.max_upload_pixels {
        Some(
            ImagePreparationFailureKind::TooLarge {
                source_size,
                requested_size: request.requested_size(),
                max_pixels: limits.max_upload_pixels,
            },
        )
    } else {
        None
    }
}

/// The failure, if any, that rejects a vector-source request before rendering: vector sources
/// have exactly one frame, and the requested size must fit the upload pixel limit.
pub fn svg_request_failure(request: &ImageRenderRequest, limits: &ImagePreparationLimits) -> (failure:
    Option<ImagePreparationFailureKind>)
    ensures
        if request.frame() != 0 {
            failure == Some(
                ImagePreparationFailureKind::FrameUnavailable { frame_index: request.frame() },
            )
        } else if pixel_count_spec(request.size()) > limits.upload_limit() {
            failure == Some(
                ImagePreparationFailureKind::TooLarge {
                    source_size: request.size(),
                    requested_size: request.size(),
                    max_pixels: limits.upload_limit(),
                },
            )
        } else {
            failure is None
        },
{
    if request.frame_index() != 0 {
        return Some(
            ImagePreparationFailureKind::FrameUnavailable { frame_index: request.frame_index() },
        );
    }
    let requested_size = request.requested_size();
    if pixel_count(requested_size) > limits.max_upload_pixels {
        return Some(
            ImagePreparationFailureKind::TooLarge {
                source_size: requested_size,
                requested_size,
                max_pixels: limits.max_upload_pixels,
            },
        );
    }
    None
}

/// The byte at `index` after swapping the first and third byte of every complete four-byte pixel
/// of `bytes` (RGBA to BGRA); a trailing partial pixel is kept.
pub open spec fn swapped_red_blue_byte(bytes: Seq<u8>, index: int) -> u8 {
    let complete = bytes.len() - bytes.len() % 4;
    if index < complete && index % 4 == 0 {
        bytes[index + 2]
    } else if index < complete && index % 4 == 2 {
        bytes[index - 2]
    } else {
        bytes[index]
    }
}

/// Converts RGBA pixels to BGRA in place by swapping the red and blue byte of every complete pixel.
pub fn swap_red_blue(pixels: &mut Vec<u8>)
    ensures
        final(pixels)@.len() == old(pixels)@.len(),
        forall|index: int|
            0 <= index < old(pixels)@.len() ==> #[trigger] final(pixels)@[index]
                == swapped_red_blue_byte(old(pixels)@, index),
{
    let ghost initial = pixels@;
    let length = pixels.len();
    let complete = length - length % 4;
    let mut start: usize = 0;
    while start < complete
        invariant
            pixels@.len() == initial.len(),
            length == initial.len(),
            complete == length - length % 4,
            start % 4 == 0,
            start <= complete,
            forall|index: int|
                0 <= index < start ==> #[trigger] pixels@[index] == swapped_red_blue_byte(
                    initial,
                    index,
                ),
            forall|index: int| start <= index < length ==> #[trigger] pixels@[index] == initial[index],
        decreases complete - start,
    {
        let red = pixels[start];
        let blue = pixels[start + 2];
        pixels.set(start, blue);
        pixels.set(start + 2, red);
        start = start + 4;
    }
}

} // verus!
