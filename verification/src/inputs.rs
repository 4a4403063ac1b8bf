use vstd::prelude::*;
use std::ops::Range;
use vstd::string::StringSliceAdditionalSpecFns;
use vstd::utf8::is_char_boundary;
use crate::error::{StreamingLayoutComponent, StreamingLayoutError, StreamingLayoutMetric};
use crate::geometry::{PixelClass, PixelOrdering, Pixels};
use crate::position::{
    gap_is_valid, StreamingLayoutPosition, StreamingObjectEdge, StreamingObjectId,
    StreamingObjectOrder,
};
use crate::session::{header_check, source_range_check, StreamingLayoutContinuation, StreamingLayoutSession};

verus! {

/// One ordered ordinary canonical segment: its exact source range, its text and the byte lengths
/// of its style runs.
#[derive(Debug)]
pub struct StreamingTextSegment {
    /// Immutable-input identity.
    pub input_id: u64,
    /// Canonical segment-policy identity.
    pub segment_policy_id: u64,
    /// Next ordered input ordinal.
    pub ordinal: u64,
    /// Exact nonempty composite source range.
    pub logical_range: Range<StreamingLayoutPosition>,
    /// Segment text, without line breaks.
    pub text: String,
    /// Byte lengths of the style runs covering the text, in order.
    pub run_lengths: Vec<usize>,
}

/// Bounded presentation for an indivisible nonempty source range.
#[derive(Debug)]
pub struct StreamingOversizeAtom {
    /// Immutable-input identity.
    pub input_id: u64,
    /// Canonical segment-policy identity.
    pub segment_policy_id: u64,
    /// Next ordered input ordinal.
    pub ordinal: u64,
    /// Exact nonempty composite source range.
    pub logical_range: Range<StreamingLayoutPosition>,
    /// Bounded presentation, not source content.
    pub presentation: String,
    /// Byte lengths of the presentation's style runs, in order.
    pub run_lengths: Vec<usize>,
    /// Exact inline extent.
    pub width: Pixels,
    /// Exact block extent.
    pub height: Pixels,
    /// Baseline offset from the top edge.
    pub baseline: Pixels,
}

/// Bounded app-neutral presentation for one source-zero-width object.
#[derive(Clone, Debug)]
pub struct StreamingInlineObject {
    /// Immutable-input identity.
    pub input_id: u64,
    /// Canonical segment-policy identity.
    pub segment_policy_id: u64,
    /// Next ordered input ordinal.
    pub ordinal: u64,
    /// Stable opaque object identity.
    pub id: StreamingObjectId,
    /// Stable same-anchor order key.
    pub order: StreamingObjectOrder,
    /// Exact adjacent gap before the object.
    pub leading: StreamingLayoutPosition,
    /// Exact adjacent gap after the object.
    pub trailing: StreamingLayoutPosition,
    /// Bounded app-neutral presentation.
    pub presentation: String,
    /// Byte lengths of the presentation's style runs, in order.
    pub run_lengths: Vec<usize>,
    /// Exact inline extent.
    pub width: Pixels,
    /// Exact block extent.
    pub height: Pixels,
    /// Baseline offset from the top edge.
    pub baseline: Pixels,
}

/// Sign classes of an inline presentation's extents and how its baseline compares with its
/// height.
#[derive(Clone, Copy, Debug, PartialEq, Eq, Structural)]
pub struct StreamingInlineMetrics {
    /// Class of the inline extent.
    pub width: PixelClass,
    /// Class of the block extent.
    pub height: PixelClass,
    /// Class of the baseline offset.
    pub baseline: PixelClass,
    /// The baseline compared with the height.
    pub baseline_to_height: PixelOrdering,
}

/// Sum of the first `count` run lengths.
pub open spec fn run_prefix(lengths: Seq<usize>, count: int) -> int
    decreases count,
{
    if count <= 0 {
        0
    } else {
        run_prefix(lengths, count - 1) + lengths[count - 1]
    }
}

/// The runs describe the text exactly: every cumulative run length is a UTF-8 scalar boundary of
/// the text, and the lengths add up to the text's length.
pub open spec fn runs_cover_text(bytes: Seq<u8>, lengths: Seq<usize>) -> bool {
    &&& forall|count: int|
        1 <= count <= lengths.len() ==> is_char_boundary(bytes, #[trigger] run_prefix(lengths, count))
    &&& run_prefix(lengths, lengths.len() as int) == bytes.len()
}

/// Accepts run lengths that describe the text exactly; otherwise the segment is invalid.
pub fn validate_style_run_boundaries(text: &str, run_lengths: &[usize]) -> (result: Result<
    (),
    StreamingLayoutError,
>)
    ensures
        result is Ok <==> runs_cover_text(text.spec_bytes(), run_lengths@),
        result is Err ==> result == Err::<(), _>(StreamingLayoutError::InvalidSegment),
{
    let length = text.as_bytes().len();
    proof {
        vstd::utf8::encode_utf8_valid_utf8(text@);
    }
    let mut cumulative: usize = 0;
    let mut index: usize = 0;
    while index < run_lengths.len()
        invariant
            length == text.spec_bytes().len(),
            vstd::utf8::valid_utf8(text.spec_bytes()),
            index <= run_lengths@.len(),
            cumulative == run_prefix(run_lengths@, index as int),
            forall|count: int|
                1 <= count <= index ==> is_char_boundary(
                    text.spec_bytes(),
                    #[trigger] run_prefix(run_lengths@, count),
                ),
        decreases run_lengths@.len() - index,
    {
        assert(run_prefix(run_lengths@, index + 1) == cumulative + run_lengths@[index as int]);
        let next = match cumulative.checked_add(run_lengths[index]) {
            Some(next) => next,
            None => {
                proof {
                    reveal_with_fuel(is_char_boundary, 1);
                    assert(!is_char_boundary(text.spec_bytes(), run_prefix(run_lengths@, index + 1)));
                }
                return Err(StreamingLayoutError::InvalidSegment);
            },
        };
        if !text.is_char_boundary(next) {
            return Err(StreamingLayoutError::InvalidSegment);
        }
        cumulative = next;
        index = index + 1;
    }
    if cumulative != length {
        return Err(StreamingLayoutError::InvalidSegment);
    }
    Ok(())
}

/// UTF-8 bytes of a text.
pub open spec fn text_bytes(text: String) -> Seq<u8> {
    vstd::utf8::encode_utf8(text@)
}

/// The object's adjacent gaps are exact: both well formed, at one byte offset, naming the object
/// as the leading gap's following edge and the trailing gap's preceding edge, with only an outer
/// edge or a distinct lower-ordered object before it and only an outer edge or a distinct
/// higher-ordered object after it.
pub open spec fn object_edges_valid(object: StreamingInlineObject) -> bool {
    let admitted = StreamingObjectEdge::Object { id: object.id, order: object.order };
    &&& gap_is_valid(object.leading.gap)
    &&& gap_is_valid(object.trailing.gap)
    &&& object.leading.byte_offset == object.trailing.byte_offset
    &&& object.leading.gap.following == admitted
    &&& object.trailing.gap.preceding == admitted
    &&& match object.leading.gap.preceding {
        StreamingObjectEdge::BeforeAll => true,
        StreamingObjectEdge::Object { id, order } => id != object.id && order.0 < object.order.0,
        _ => false,
    }
    &&& match object.trailing.gap.following {
        StreamingObjectEdge::AfterAll => true,
        StreamingObjectEdge::Object { id, order } => id != object.id && order.0 > object.order.0,
        _ => false,
    }
}

/// Outcome of the checks an inline presentation passes before it is shaped: its extents, its
/// size and its style runs.
pub open spec fn inline_presentation_check(
    segment_bytes: usize,
    runs: usize,
    metrics: StreamingInlineMetrics,
    bytes: Seq<u8>,
    run_lengths: Seq<usize>,
) -> Result<(), StreamingLayoutError> {
    if !metrics.width.is_nonnegative() {
        Err(StreamingLayoutError::InvalidMetric(StreamingLayoutMetric::AtomWidth))
    } else if !metrics.height.is_positive() {
        Err(StreamingLayoutError::InvalidMetric(StreamingLayoutMetric::AtomHeight))
    } else if !metrics.baseline.is_nonnegative() || metrics.baseline_to_height is Greater {
        Err(StreamingLayoutError::InvalidMetric(StreamingLayoutMetric::AtomBaseline))
    } else if bytes.len() > segment_bytes {
        Err(StreamingLayoutError::CapacityExceeded(StreamingLayoutComponent::Fragments))
    } else if run_lengths.len() > runs {
        Err(StreamingLayoutError::CapacityExceeded(StreamingLayoutComponent::Runs))
    } else if !runs_cover_text(bytes, run_lengths) {
        Err(StreamingLayoutError::InvalidSegment)
    } else {
        Ok(())
    }
}

/// Outcome of the checks an ordinary segment passes before it is shaped: the ordered header, the
/// source range, the text's size, that the text exactly spans the range without a line break,
/// and the style runs.
pub open spec fn text_segment_check(
    session: StreamingLayoutSession,
    segment: StreamingTextSegment,
) -> Result<StreamingLayoutContinuation, StreamingLayoutError> {
    let binding = session.bound();
    let range = segment.logical_range;
    let bytes = text_bytes(segment.text);
    match header_check(
        binding,
        session.live(),
        segment.input_id,
        segment.segment_policy_id,
        segment.ordinal,
        range.start,
    ) {
        Err(error) => Err(error),
        Ok(prior) => match source_range_check(range) {
            Err(error) => Err(error),
            Ok(()) => if bytes.len() > binding.limits.segment_bytes {
                Err(StreamingLayoutError::CapacityExceeded(StreamingLayoutComponent::SegmentText))
            } else if range.end.byte_offset - range.start.byte_offset != bytes.len()
                || bytes.contains(10u8) {
                Err(StreamingLayoutError::InvalidSegment)
            } else if segment.run_lengths@.len() > binding.limits.runs {
                Err(StreamingLayoutError::CapacityExceeded(StreamingLayoutComponent::Runs))
            } else if !runs_cover_text(bytes, segment.run_lengths@) {
                Err(StreamingLayoutError::InvalidSegment)
            } else {
                Ok(prior)
            },
        },
    }
}

/// Outcome of the checks an oversize atom passes before its presentation is shaped.
pub open spec fn oversize_atom_check(
    session: StreamingLayoutSession,
    atom: StreamingOversizeAtom,
    metrics: StreamingInlineMetrics,
) -> Result<StreamingLayoutContinuation, StreamingLayoutError> {
    let binding = session.bound();
    match header_check(
        binding,
        session.live(),
        atom.input_id,
        atom.segment_policy_id,
        atom.ordinal,
        atom.logical_range.start,
    ) {
        Err(error) => Err(error),
        Ok(prior) => match source_range_check(atom.logical_range) {
            Err(error) => Err(error),
            Ok(()) => match inline_presentation_check(
                binding.limits.segment_bytes,
                binding.limits.runs,
                metrics,
                text_bytes(atom.presentation),
                atom.run_lengths@,
            ) {
                Err(error) => Err(error),
                Ok(()) => Ok(prior),
            },
        },
    }
}

/// Outcome of the checks an inline object passes before its presentation is shaped.
pub open spec fn inline_object_check(
    session: StreamingLayoutSession,
    object: StreamingInlineObject,
    metrics: StreamingInlineMetrics,
) -> Result<StreamingLayoutContinuation, StreamingLayoutError> {
    let binding = session.bound();
    match header_check(
        binding,
        session.live(),
        object.input_id,
        object.segment_policy_id,
        object.ordinal,
        object.leading,
    ) {
        Err(error) => Err(error),
        Ok(prior) => if !object_edges_valid(object) {
            Err(StreamingLayoutError::InvalidPosition)
        } else {
            match inline_presentation_check(
                binding.limits.segment_bytes,
                binding.limits.runs,
                metrics,
                text_bytes(object.presentation),
                object.run_lengths@,
            ) {
                Err(error) => Err(error),
                Ok(()) => Ok(prior),
            }
        },
    }
}

/// Whether the bytes hold a line feed.
fn holds_line_feed(bytes: &[u8]) -> (found: bool)
    ensures
        found == bytes@.contains(10u8),
{
    let mut index: usize = 0;
    while index < bytes.len()
        invariant
            index <= bytes@.len(),
            forall|j: int| 0 <= j < index ==> bytes@[j] != 10u8,
        decreases bytes@.len() - index,
    {
        if bytes[index] == 10u8 {
            return true;
        }
        index = index + 1;
    }
    false
}

impl<'a> StreamingLayoutSession<'a> {
    /// Validates the exact adjacent gaps of an inline object.
    pub fn validate_object_edges(&self, object: &StreamingInlineObject) -> (result: Result<
        (),
        StreamingLayoutError,
    >)
        ensures
            result is Ok <==> object_edges_valid(*object),
            result is Err ==> result == Err::<(), _>(StreamingLayoutError::InvalidPosition),
    {
        if object.leading.validate().is_err() || object.trailing.validate().is_err() {
            return Err(StreamingLayoutError::InvalidPosition);
        }
        if object.leading.byte_offset != object.trailing.byte_offset {
            return Err(StreamingLayoutError::InvalidPosition);
        }
        let admitted = StreamingObjectEdge::Object { id: object.id, order: object.order };
        if object.leading.gap.following != admitted || object.trailing.gap.preceding != admitted {
            return Err(StreamingLayoutError::InvalidPosition);
        }
        match object.leading.gap.preceding {
            StreamingObjectEdge::BeforeAll => {},
            StreamingObjectEdge::Object { id, order } => {
                if id == object.id || order.0 >= object.order.0 {
                    return Err(StreamingLayoutError::InvalidPosition);
                }
            },
            _ => {
                return Err(StreamingLayoutError::InvalidPosition);
            },
        }
        match object.trailing.gap.following {
            StreamingObjectEdge::AfterAll => {},
            StreamingObjectEdge::Object { id, order } => {
                if id == object.id || order.0 <= object.order.0 {
                    return Err(StreamingLayoutError::InvalidPosition);
                }
            },
            _ => {
                return Err(StreamingLayoutError::InvalidPosition);
            },
        }
        Ok(())
    }

    /// Checks an inline presentation's extents, size and style runs before it is shaped.
    pub fn check_inline_presentation(
        &self,
        metrics: StreamingInlineMetrics,
        presentation: &str,
        run_lengths: &[usize],
    ) -> (result: Result<(), StreamingLayoutError>)
        ensures
            result == inline_presentation_check(
                self.bound().limits.segment_bytes,
                self.bound().limits.runs,
                metrics,
                presentation.spec_bytes(),
                run_lengths@,
            ),
    {
        let limits = self.binding().limits;
        if !matches!(metrics.width, PixelClass::Zero | PixelClass::Positive) {
            return Err(StreamingLayoutError::InvalidMetric(StreamingLayoutMetric::AtomWidth));
        }
        if !matches!(metrics.height, PixelClass::Positive) {
            return Err(StreamingLayoutError::InvalidMetric(StreamingLayoutMetric::AtomHeight));
        }
        if !matches!(metrics.baseline, PixelClass::Zero | PixelClass::Positive) || metrics.baseline_to_height == PixelOrdering::Greater {
            return Err(StreamingLayoutError::InvalidMetric(StreamingLayoutMetric::AtomBaseline));
        }
        if presentation.as_bytes().len() > limits.segment_bytes {
            return Err(StreamingLayoutError::CapacityExceeded(StreamingLayoutComponent::Fragments));
        }
        if run_lengths.len() > limits.runs {
            return Err(StreamingLayoutError::CapacityExceeded(StreamingLayoutComponent::Runs));
        }
        match validate_style_run_boundaries(presentation, run_lengths) {
            Ok(()) => Ok(()),
            Err(_) => Err(StreamingLayoutError::InvalidSegment),
        }
    }

    /// Checks an ordinary segment before it is shaped and returns the continuation it follows.
    pub fn check_text_segment(&self, segment: &StreamingTextSegment) -> (result: Result<
        StreamingLayoutContinuation,
        StreamingLayoutError,
    >)
        requires
            self.wf(),
        ensures
            result == text_segment_check(*self, *segment),
    {
        let prior = match self.validate_header(
            segment.input_id,
            segment.segment_policy_id,
            segment.ordinal,
            segment.logical_range.start,
        ) {
            Ok(prior) => prior,
            Err(error) => {
                return Err(error);
            },
        };
        match self.validate_source_range(&segment.logical_range) {
            Ok(()) => {},
            Err(error) => {
                return Err(error);
            },
        }
        let limits = self.binding().limits;
        let text = segment.text.as_str();
        let bytes = text.as_bytes();
        if bytes.len() > limits.segment_bytes {
            return Err(StreamingLayoutError::CapacityExceeded(StreamingLayoutComponent::SegmentText));
        }
        let range = &segment.logical_range;
        if range.end.byte_offset - range.start.byte_offset != bytes.len() as u64 || holds_line_feed(bytes) {
            return Err(StreamingLayoutError::InvalidSegment);
        }
        if segment.run_lengths.len() > limits.runs {
            return Err(StreamingLayoutError::CapacityExceeded(StreamingLayoutComponent::Runs));
        }
        match validate_style_run_boundaries(text, segment.run_lengths.as_slice()) {
            Ok(()) => Ok(prior),
            Err(error) => Err(error),
        }
    }

    /// Checks an oversize atom before its presentation is shaped and returns the continuation it
    /// follows.
    pub fn check_oversize_atom(&self, atom: &StreamingOversizeAtom, metrics: StreamingInlineMetrics) -> (result:
        Result<StreamingLayoutContinuation, StreamingLayoutError>)
        requires
            self.wf(),
        ensures
            result == oversize_atom_check(*self, *atom, metrics),
    {
        let prior = match self.validate_header(
            atom.input_id,
            atom.segment_policy_id,
            atom.ordinal,
            atom.logical_range.start,
        ) {
            Ok(prior) => prior,
            Err(error) => {
                return Err(error);
            },
        };
        match self.validate_source_range(&atom.logical_range) {
            Ok(()) => {},
            Err(error) => {
                return Err(error);
            },
        }
        match self.check_inline_presentation(metrics, atom.presentation.as_str(), atom.run_lengths.as_slice()) {
            Ok(()) => Ok(prior),
            Err(error) => Err(error),
        }
    }

    /// Checks an inline object before its presentation is shaped and returns the continuation it
    /// follows.
    pub fn check_inline_object(&self, object: &StreamingInlineObject, metrics: StreamingInlineMetrics) -> (result:
        Result<StreamingLayoutContinuation, StreamingLayoutError>)
        requires
            self.wf(),
        ensures
            result == inline_object_check(*self, *object, metrics),
    {
        let prior = match self.validate_header(
            object.input_id,
            object.segment_policy_id,
            object.ordinal,
            object.leading,
        ) {
            Ok(prior) => prior,
            Err(error) => {
                return Err(error);
            },
        };
        match self.validate_object_edges(object) {
            Ok(()) => {},
            Err(error) => {
                return Err(error);
            },
        }
        match self.check_inline_presentation(
            metrics,
            object.presentation.as_str(),
            object.run_lengths.as_slice(),
        ) {
            Ok(()) => Ok(prior),
            Err(error) => Err(error),
        }
    }
}

} // verus!
