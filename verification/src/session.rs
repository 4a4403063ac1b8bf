use vstd::prelude::*;
use std::ops::Range;
use crate::charge::{
    charge_sum, item_sum, positions_object_edges, position_facts, zero_item_charge,
    StreamingLayoutCharge, StreamingLayoutItemCharge,
};
use crate::checked::{checked_mul, seq_sum};
use crate::error::{StreamingLayoutComponent, StreamingLayoutError, StreamingLayoutMetric};
use crate::fragments::{StreamingAtomFragment, StreamingObjectFragment, StreamingTextFragment};
use crate::geometry::{PixelClass, PixelOrdering, Pixels, Point};
use crate::position::{
    gap_is_source_range_end, gap_is_terminal, gap_is_valid, gap_object_edges,
    StreamingLayoutPosition, StreamingObjectEdge,
};

verus! {

/// Finite admission limits for one bounded streaming text-layout session.
#[derive(Clone, Copy, Debug, PartialEq, Eq, Structural)]
pub struct StreamingLayoutLimits {
    /// Maximum UTF-8 bytes in one text or presentation payload.
    pub segment_bytes: usize,
    /// Maximum caller style runs.
    pub runs: usize,
    /// Maximum retained decoration runs.
    pub decorations: usize,
    /// Maximum retained shaped glyphs.
    pub glyphs: usize,
    /// Maximum retained wrap facts.
    pub wraps: usize,
    /// Maximum retained caret and hit maps.
    pub maps: usize,
    /// Maximum fragments returned by one admission.
    pub fragments: usize,
    /// Maximum exact semantic records retained by one admission.
    pub retained_items: usize,
    /// Maximum exact retained payload bytes.
    pub retained_bytes: usize,
}

/// Immutable glyph- and placement-affecting inputs for a streaming session.
#[derive(Clone, Copy, Debug, PartialEq, Eq, Structural)]
pub struct StreamingLayoutBinding {
    /// Stable identity of all immutable shaping inputs.
    pub input_id: u64,
    /// Stable identity of the canonical segmentation policy.
    pub segment_policy_id: u64,
    /// Exact first composite position of the ordered stream.
    pub start_position: StreamingLayoutPosition,
    /// Width available to each visual line.
    pub wrap_width: Pixels,
    /// Font size used for shaping.
    pub font_size: Pixels,
    /// Minimum visual-line block extent.
    pub line_height: Pixels,
    /// Finite admission limits.
    pub limits: StreamingLayoutLimits,
}

/// Sign classes of a binding's pixel metrics.
#[derive(Clone, Copy, Debug, PartialEq, Eq, Structural)]
pub struct StreamingBindingMetrics {
    /// Class of the wrapping width.
    pub wrap_width: PixelClass,
    /// Class of the font size.
    pub font_size: PixelClass,
    /// Class of the line height.
    pub line_height: PixelClass,
}

/// Compact bounded placement state carried between independent shaping segments.
#[derive(Clone, Copy, Debug, PartialEq, Eq, Structural)]
pub struct StreamingLayoutContinuation {
    /// Immutable-input identity required by a resumed session.
    pub input_id: u64,
    /// Canonical segment-policy identity required by a resumed session.
    pub segment_policy_id: u64,
    /// Ordinal required by the next admission.
    pub next_ordinal: u64,
    /// Exact composite position required by the next admission.
    pub next_position: StreamingLayoutPosition,
    /// Current visual-line inline placement.
    pub inline_offset: Pixels,
    /// Current visual-line block placement.
    pub block_offset: Pixels,
    /// Maximum block extent contributed by content on the current visual line.
    pub line_block_extent: Pixels,
    /// Whether the current visual line contains an admitted item, including a zero-width item.
    pub line_has_content: bool,
    /// Number of completed visual lines.
    pub visual_lines: u64,
    /// Number of explicitly finalized logical lines.
    pub finalized_logical_lines: u64,
    /// Whether the preceding ordered input was an explicit line finalization.
    pub line_finalized: bool,
    /// Whether end of source has been accepted.
    pub ended: bool,
}

/// Sign classes of a continuation's carried placement, and how its line extent compares with the
/// bound line height.
#[derive(Clone, Copy, Debug, PartialEq, Eq, Structural)]
pub struct StreamingPlacementMetrics {
    /// Class of the inline offset.
    pub inline_offset: PixelClass,
    /// Class of the block offset.
    pub block_offset: PixelClass,
    /// Class of the current line's block extent.
    pub line_block_extent: PixelClass,
    /// The current line's block extent compared with the bound line height.
    pub line_block_extent_to_line_height: PixelOrdering,
}

/// A pixel value together with its sign class.
#[derive(Clone, Copy, Debug, PartialEq, Eq, Structural)]
pub struct MeasuredPixels {
    /// The pixel value.
    pub value: Pixels,
    /// Its sign class.
    pub class: PixelClass,
}

/// A compact exact source-to-inline placement fact.
#[derive(Clone, Copy, Debug, PartialEq, Eq, Structural)]
pub struct StreamingLayoutMap {
    /// Exact composite stream position.
    pub logical_position: StreamingLayoutPosition,
    /// Position relative to the session origin.
    pub position: Point<Pixels>,
}

/// Exact result owned by one fragment's hit-test geometry.
#[derive(Clone, Copy, Debug, PartialEq, Eq, Structural)]
pub enum StreamingLayoutHit {
    /// The point resolves to an exact composite gap owned by this fragment.
    Gap(StreamingLayoutPosition),
    /// The point resolves to one realized source-zero-width object.
    Object(crate::position::StreamingObjectId),
}

/// Kind of explicit stream boundary represented by a boundary fragment.
#[derive(Clone, Copy, Debug, PartialEq, Eq, Structural)]
pub enum StreamingBoundaryKind {
    /// One explicitly finalized logical line.
    LogicalLine,
    /// The terminal remaining logical line.
    EndOfSource,
}

/// Immutable caret geometry for an explicit stream boundary.
#[derive(Clone, Debug)]
pub struct StreamingBoundaryFragment {
    /// Boundary transition represented by this fragment.
    pub kind: StreamingBoundaryKind,
    maps: Vec<StreamingLayoutMap>,
}

/// An immutable admitted fragment.
#[derive(Debug)]
pub enum StreamingLayoutFragment {
    /// Ordinary text shaped independently for one segment.
    Text(StreamingTextFragment),
    /// Bounded presentation for one indivisible source range.
    OversizeAtom(StreamingAtomFragment),
    /// Bounded presentation for one source-zero-width object.
    InlineObject(StreamingObjectFragment),
    /// Explicit logical-line or end-of-source boundary geometry.
    Boundary(StreamingBoundaryFragment),
}

/// One atomically admitted result. Errors leave the prior continuation untouched.
#[derive(Debug)]
pub struct StreamingLayoutAdmission {
    /// Immutable admitted fragments.
    pub fragments: Vec<StreamingLayoutFragment>,
    /// Continuation to be used by the next ordered admission.
    pub continuation: StreamingLayoutContinuation,
    /// Exact retained component charges.
    pub charge: StreamingLayoutCharge,
    /// Exact retained semantic-record counts.
    pub item_charge: StreamingLayoutItemCharge,
}

/// Explicit ordered completion of one logical line.
#[derive(Clone, Debug)]
pub struct StreamingLineFinalization {
    /// Immutable-input identity.
    pub input_id: u64,
    /// Canonical segment-policy identity.
    pub segment_policy_id: u64,
    /// Next ordered input ordinal.
    pub ordinal: u64,
    /// Exact delimiter range, or `None` when the source has no delimiter range.
    pub delimiter_range: Option<Range<StreamingLayoutPosition>>,
    /// Exact position of the next logical line.
    pub next_position: StreamingLayoutPosition,
}

/// Exact terminal fact for one complete source revision.
#[derive(Clone, Copy, Debug)]
pub struct StreamingEndOfSource {
    /// Immutable-input identity.
    pub input_id: u64,
    /// Canonical segment-policy identity.
    pub segment_policy_id: u64,
    /// Next ordered input ordinal.
    pub ordinal: u64,
    /// Exact source UTF-8 extent.
    pub source_extent: u64,
    /// Exact terminal composite position.
    pub position: StreamingLayoutPosition,
}

// ---------------------------------------------------------------------------------------------
// Specifications
// ---------------------------------------------------------------------------------------------

/// Outcome of validating a binding: its start position, pixel metrics and every finite limit.
pub open spec fn binding_check(binding: StreamingLayoutBinding, metrics: StreamingBindingMetrics) -> Result<
    (),
    StreamingLayoutError,
> {
    let limits = binding.limits;
    if !gap_is_valid(binding.start_position.gap) {
        Err(StreamingLayoutError::InvalidPosition)
    } else if !metrics.wrap_width.is_positive() {
        Err(StreamingLayoutError::InvalidMetric(StreamingLayoutMetric::WrapWidth))
    } else if !metrics.font_size.is_positive() {
        Err(StreamingLayoutError::InvalidMetric(StreamingLayoutMetric::FontSize))
    } else if !metrics.line_height.is_positive() {
        Err(StreamingLayoutError::InvalidMetric(StreamingLayoutMetric::LineHeight))
    } else if limits.segment_bytes == 0 || limits.runs == 0 || limits.decorations == 0
        || limits.glyphs == 0 || limits.wraps == 0 || limits.maps == 0 || limits.fragments == 0
        || limits.retained_items == 0 || limits.retained_bytes == 0 {
        Err(StreamingLayoutError::InvalidConfiguration)
    } else {
        Ok(())
    }
}

/// Outcome of validating a continuation: its position, carried metrics, and a consistent
/// ordinal / content / finalization / terminal phase.
pub open spec fn continuation_check(
    continuation: StreamingLayoutContinuation,
    metrics: StreamingPlacementMetrics,
) -> Result<(), StreamingLayoutError> {
    let c = continuation;
    if !gap_is_valid(c.next_position.gap) {
        Err(StreamingLayoutError::InvalidPosition)
    } else if !metrics.inline_offset.is_nonnegative() {
        Err(StreamingLayoutError::InvalidMetric(StreamingLayoutMetric::InlineOffset))
    } else if !metrics.block_offset.is_nonnegative() {
        Err(StreamingLayoutError::InvalidMetric(StreamingLayoutMetric::BlockOffset))
    } else if !metrics.line_block_extent.is_positive() {
        Err(StreamingLayoutError::InvalidMetric(StreamingLayoutMetric::LineBlockExtent))
    } else if metrics.line_block_extent_to_line_height is Less {
        Err(StreamingLayoutError::InvalidMetric(StreamingLayoutMetric::LineBlockExtent))
    } else if c.finalized_logical_lines > c.visual_lines || (c.line_finalized
        && c.finalized_logical_lines == 0) || (c.ended && !c.line_finalized) {
        Err(StreamingLayoutError::InvalidSegment)
    } else if c.next_ordinal == 0 && (c.line_has_content || c.line_finalized || c.ended
        || c.visual_lines != 0 || c.finalized_logical_lines != 0) {
        Err(StreamingLayoutError::InvalidSegment)
    } else if c.next_ordinal != 0 && !c.line_has_content && !c.line_finalized {
        Err(StreamingLayoutError::InvalidSegment)
    } else if c.line_finalized && !(metrics.inline_offset is Zero) {
        Err(StreamingLayoutError::InvalidMetric(StreamingLayoutMetric::InlineOffset))
    } else if c.line_finalized && !(metrics.line_block_extent_to_line_height is Equal) {
        Err(StreamingLayoutError::InvalidMetric(StreamingLayoutMetric::LineBlockExtent))
    } else if c.line_finalized && c.line_has_content {
        Err(StreamingLayoutError::InvalidSegment)
    } else if !c.line_finalized && !c.line_has_content && !(metrics.inline_offset is Zero) {
        Err(StreamingLayoutError::InvalidSegment)
    } else if c.ended && !gap_is_terminal(c.next_position.gap) {
        Err(StreamingLayoutError::InvalidPosition)
    } else {
        Ok(())
    }
}

/// Semantic records retained by a live continuation alone.
pub open spec fn continuation_items(continuation: StreamingLayoutContinuation) -> StreamingLayoutItemCharge {
    let edges = gap_object_edges(continuation.next_position.gap) as usize;
    StreamingLayoutItemCharge {
        positions: 1,
        gap_witnesses: 1,
        object_ids: edges,
        object_orders: edges,
        continuations: 1,
        ..zero_item_charge()
    }
}

/// Outcome of checking that a continuation alone fits the binding's retained limits.
pub open spec fn capacity_check(
    binding: StreamingLayoutBinding,
    continuation: StreamingLayoutContinuation,
) -> Result<(), StreamingLayoutError> {
    if vstd::layout::size_of::<StreamingLayoutContinuation>() > binding.limits.retained_bytes
        || item_sum(continuation_items(continuation)) > binding.limits.retained_items {
        Err(StreamingLayoutError::CapacityExceeded(StreamingLayoutComponent::Total))
    } else {
        Ok(())
    }
}

/// The continuation with which a fresh session starts.
pub open spec fn fresh_continuation(binding: StreamingLayoutBinding) -> StreamingLayoutContinuation {
    StreamingLayoutContinuation {
        input_id: binding.input_id,
        segment_policy_id: binding.segment_policy_id,
        next_ordinal: 0,
        next_position: binding.start_position,
        inline_offset: Pixels(0),
        block_offset: Pixels(0),
        line_block_extent: binding.line_height,
        line_has_content: false,
        visual_lines: 0,
        finalized_logical_lines: 0,
        line_finalized: false,
        ended: false,
    }
}

/// Carried metrics of a continuation whose inline offset is zero and whose line extent is the
/// bound line height.
pub open spec fn reset_line_metrics(block_offset: PixelClass) -> StreamingPlacementMetrics {
    StreamingPlacementMetrics {
        inline_offset: PixelClass::Zero,
        block_offset,
        line_block_extent: PixelClass::Positive,
        line_block_extent_to_line_height: PixelOrdering::Equal,
    }
}

/// Outcome of validating the ordered header of one admission against the session's state.
pub open spec fn header_check(
    binding: StreamingLayoutBinding,
    continuation: Option<StreamingLayoutContinuation>,
    input_id: u64,
    segment_policy_id: u64,
    ordinal: u64,
    start: StreamingLayoutPosition,
) -> Result<StreamingLayoutContinuation, StreamingLayoutError> {
    match continuation {
        None => Err(StreamingLayoutError::Cancelled),
        Some(prior) => if prior.ended {
            Err(StreamingLayoutError::Ended)
        } else if input_id != binding.input_id {
            Err(StreamingLayoutError::InputMismatch)
        } else if segment_policy_id != binding.segment_policy_id {
            Err(StreamingLayoutError::SegmentPolicyMismatch)
        } else if !gap_is_valid(start.gap) {
            Err(StreamingLayoutError::InvalidPosition)
        } else if ordinal != prior.next_ordinal || start != prior.next_position {
            Err(StreamingLayoutError::OutOfOrder)
        } else {
            Ok(prior)
        },
    }
}

/// Outcome of validating a nonempty source-covering range.
pub open spec fn source_range_check(range: Range<StreamingLayoutPosition>) -> Result<
    (),
    StreamingLayoutError,
> {
    if !gap_is_valid(range.start.gap) || !gap_is_valid(range.end.gap) {
        Err(StreamingLayoutError::InvalidPosition)
    } else if range.start.byte_offset >= range.end.byte_offset {
        Err(StreamingLayoutError::InvalidSegment)
    } else if !gap_is_terminal(range.start.gap) || !gap_is_source_range_end(range.end.gap) {
        Err(StreamingLayoutError::InvalidPosition)
    } else {
        Ok(())
    }
}

/// Byte charge retained by one boundary admission with the given number of maps.
pub open spec fn boundary_charge(map_count: nat) -> StreamingLayoutCharge {
    StreamingLayoutCharge {
        segment_text: 0,
        runs: 0,
        decorations: 0,
        glyphs: 0,
        wrap_facts: 0,
        maps: (map_count * vstd::layout::size_of::<StreamingLayoutMap>()) as usize,
        objects: 0,
        fragments: vstd::layout::size_of::<StreamingBoundaryKind>() as usize,
        continuation: vstd::layout::size_of::<StreamingLayoutContinuation>() as usize,
    }
}

/// The composite positions retained by one boundary admission: its maps' positions followed by
/// the continuation's next position.
pub open spec fn boundary_positions(
    maps: Seq<StreamingLayoutMap>,
    continuation: StreamingLayoutContinuation,
) -> Seq<StreamingLayoutPosition> {
    maps.map_values(|map: StreamingLayoutMap| map.logical_position).push(
        continuation.next_position,
    )
}

/// Semantic records retained by one boundary admission.
pub open spec fn boundary_items(
    maps: Seq<StreamingLayoutMap>,
    continuation: StreamingLayoutContinuation,
) -> StreamingLayoutItemCharge {
    let positions = boundary_positions(maps, continuation);
    let objects = positions_object_edges(positions) as usize;
    StreamingLayoutItemCharge {
        maps: maps.len() as usize,
        positions: positions.len() as usize,
        gap_witnesses: positions.len() as usize,
        object_ids: objects,
        object_orders: objects,
        fragments: 1,
        continuations: 1,
        ..zero_item_charge()
    }
}

/// Outcome of the final atomic checks of an admission: the produced continuation is valid and
/// the retained byte and item totals fit their exact limits.
pub open spec fn admission_check(
    binding: StreamingLayoutBinding,
    continuation: StreamingLayoutContinuation,
    metrics: StreamingPlacementMetrics,
    charge: StreamingLayoutCharge,
    items: StreamingLayoutItemCharge,
) -> Result<(), StreamingLayoutError> {
    if continuation_check(continuation, metrics) is Err {
        continuation_check(continuation, metrics)
    } else if charge_sum(charge) > usize::MAX {
        Err(StreamingLayoutError::Overflow(StreamingLayoutComponent::Total))
    } else if charge_sum(charge) > binding.limits.retained_bytes {
        Err(StreamingLayoutError::CapacityExceeded(StreamingLayoutComponent::Total))
    } else if item_sum(items) > usize::MAX {
        Err(StreamingLayoutError::Overflow(StreamingLayoutComponent::Total))
    } else if item_sum(items) > binding.limits.retained_items {
        Err(StreamingLayoutError::CapacityExceeded(StreamingLayoutComponent::Total))
    } else {
        Ok(())
    }
}

/// The position at which a line finalization starts: its delimiter's start, or its next position
/// when it has no delimiter.
pub open spec fn finalization_start(finalization: StreamingLineFinalization) -> StreamingLayoutPosition {
    match finalization.delimiter_range {
        Some(range) => range.start,
        None => finalization.next_position,
    }
}

/// Caret maps of a line finalization: the delimiter's start at the prior placement (when there
/// is a delimiter), then the next line's start at the new block offset.
pub open spec fn finalization_maps(
    prior: StreamingLayoutContinuation,
    finalization: StreamingLineFinalization,
    next_block: Pixels,
) -> Seq<StreamingLayoutMap> {
    let next = StreamingLayoutMap {
        logical_position: finalization.next_position,
        position: Point { x: Pixels(0), y: next_block },
    };
    match finalization.delimiter_range {
        None => seq![next],
        Some(range) => seq![
            StreamingLayoutMap {
                logical_position: range.start,
                position: Point { x: prior.inline_offset, y: prior.block_offset },
            },
            next,
        ],
    }
}

/// The continuation after one boundary: the next line starts empty at the new block offset with
/// the bound line height, one more visual and one more finalized logical line.
pub open spec fn boundary_continuation(
    binding: StreamingLayoutBinding,
    prior: StreamingLayoutContinuation,
    next_position: StreamingLayoutPosition,
    next_block: Pixels,
    ended: bool,
) -> StreamingLayoutContinuation {
    StreamingLayoutContinuation {
        next_ordinal: (prior.next_ordinal + 1) as u64,
        next_position,
        inline_offset: Pixels(0),
        block_offset: next_block,
        line_block_extent: binding.line_height,
        line_has_content: false,
        visual_lines: (prior.visual_lines + 1) as u64,
        finalized_logical_lines: (prior.finalized_logical_lines + 1) as u64,
        line_finalized: true,
        ended,
        ..prior
    }
}

/// Whether the ordinal and line counters of a continuation can each advance by one.
pub open spec fn counters_can_advance(prior: StreamingLayoutContinuation) -> bool {
    prior.next_ordinal + 1 <= u64::MAX && prior.visual_lines + 1 <= u64::MAX
        && prior.finalized_logical_lines + 1 <= u64::MAX
}

/// The error reported when a continuation's counters cannot advance.
pub open spec fn counter_overflow() -> StreamingLayoutError {
    StreamingLayoutError::Overflow(StreamingLayoutComponent::Continuation)
}

/// Complete outcome of finalizing one logical line: the new continuation, or the exact error.
pub open spec fn finalization_outcome(
    binding: StreamingLayoutBinding,
    continuation: Option<StreamingLayoutContinuation>,
    finalization: StreamingLineFinalization,
    next_block: Result<MeasuredPixels, StreamingLayoutError>,
) -> Result<StreamingLayoutContinuation, StreamingLayoutError> {
    let start = finalization_start(finalization);
    match header_check(
        binding,
        continuation,
        finalization.input_id,
        finalization.segment_policy_id,
        finalization.ordinal,
        start,
    ) {
        Err(error) => Err(error),
        Ok(prior) => if !gap_is_valid(finalization.next_position.gap) {
            Err(StreamingLayoutError::InvalidPosition)
        } else if finalization.delimiter_range is Some && source_range_check(
            finalization.delimiter_range.unwrap(),
        ) is Err {
            Err(source_range_check(finalization.delimiter_range.unwrap())->Err_0)
        } else if finalization.delimiter_range is Some && (
        finalization.delimiter_range.unwrap().end != finalization.next_position
            || !gap_is_terminal(finalization.delimiter_range.unwrap().start.gap)) {
            Err(StreamingLayoutError::InvalidPosition)
        } else if finalization.delimiter_range is None && finalization.next_position
            != prior.next_position {
            Err(StreamingLayoutError::InvalidPosition)
        } else {
            match next_block {
                Err(error) => Err(error),
                Ok(next_block) => {
                    let maps = finalization_maps(prior, finalization, next_block.value);
                    if maps.len() > binding.limits.maps {
                        Err(StreamingLayoutError::CapacityExceeded(StreamingLayoutComponent::Maps))
                    } else if 1 > binding.limits.fragments {
                        Err(
                            StreamingLayoutError::CapacityExceeded(
                                StreamingLayoutComponent::Fragments,
                            ),
                        )
                    } else if !counters_can_advance(prior) {
                        Err(counter_overflow())
                    } else {
                        let next = boundary_continuation(
                            binding,
                            prior,
                            finalization.next_position,
                            next_block.value,
                            false,
                        );
                        match admission_check(
                            binding,
                            next,
                            reset_line_metrics(next_block.class),
                            boundary_charge(maps.len()),
                            boundary_items(maps, next),
                        ) {
                            Err(error) => Err(error),
                            Ok(()) => Ok(next),
                        }
                    }
                },
            }
        },
    }
}

/// Caret map of end of source: the terminal position at the prior placement.
pub open spec fn end_maps(
    prior: StreamingLayoutContinuation,
    end: StreamingEndOfSource,
) -> Seq<StreamingLayoutMap> {
    seq![
        StreamingLayoutMap {
            logical_position: end.position,
            position: Point { x: prior.inline_offset, y: prior.block_offset },
        },
    ]
}

/// Complete outcome of accepting end of source: the terminal continuation, or the exact error.
pub open spec fn end_outcome(
    binding: StreamingLayoutBinding,
    continuation: Option<StreamingLayoutContinuation>,
    end: StreamingEndOfSource,
    next_block: Result<MeasuredPixels, StreamingLayoutError>,
) -> Result<StreamingLayoutContinuation, StreamingLayoutError> {
    match header_check(
        binding,
        continuation,
        end.input_id,
        end.segment_policy_id,
        end.ordinal,
        end.position,
    ) {
        Err(error) => Err(error),
        Ok(prior) => if end.position.byte_offset != end.source_extent || !gap_is_terminal(
            end.position.gap,
        ) {
            Err(StreamingLayoutError::InvalidPosition)
        } else {
            match next_block {
                Err(error) => Err(error),
                Ok(next_block) => if !counters_can_advance(prior) {
                    Err(counter_overflow())
                } else {
                    let next = boundary_continuation(
                        binding,
                        prior,
                        prior.next_position,
                        next_block.value,
                        true,
                    );
                    let maps = end_maps(prior, end);
                    match admission_check(
                        binding,
                        next,
                        reset_line_metrics(next_block.class),
                        boundary_charge(maps.len()),
                        boundary_items(maps, next),
                    ) {
                        Err(error) => Err(error),
                        Ok(()) => Ok(next),
                    }
                },
            }
        },
    }
}

// ---------------------------------------------------------------------------------------------
// Executable validation
// ---------------------------------------------------------------------------------------------

/// Validates a binding's start position, pixel metrics and limits.
pub fn validate_binding(binding: &StreamingLayoutBinding, metrics: StreamingBindingMetrics) -> (result:
    Result<(), StreamingLayoutError>)
    ensures
        result == binding_check(*binding, metrics),
{
    if binding.start_position.validate().is_err() {
        return Err(StreamingLayoutError::InvalidPosition);
    }
    let limits = binding.limits;
    if !matches!(metrics.wrap_width, PixelClass::Positive) {
        return Err(StreamingLayoutError::InvalidMetric(StreamingLayoutMetric::WrapWidth));
    }
    if !matches!(metrics.font_size, PixelClass::Positive) {
        return Err(StreamingLayoutError::InvalidMetric(StreamingLayoutMetric::FontSize));
    }
    if !matches!(metrics.line_height, PixelClass::Positive) {
        return Err(StreamingLayoutError::InvalidMetric(StreamingLayoutMetric::LineHeight));
    }
    if limits.segment_bytes == 0 || limits.runs == 0 || limits.decorations == 0 || limits.glyphs
        == 0 || limits.wraps == 0 || limits.maps == 0 || limits.fragments == 0
        || limits.retained_items == 0 || limits.retained_bytes == 0 {
        return Err(StreamingLayoutError::InvalidConfiguration);
    }
    Ok(())
}

/// Validates a continuation's position, carried metrics and phase.
pub fn validate_continuation(
    continuation: StreamingLayoutContinuation,
    metrics: StreamingPlacementMetrics,
) -> (result: Result<(), StreamingLayoutError>)
    ensures
        result == continuation_check(continuation, metrics),
{
    let c = continuation;
    if c.next_position.validate().is_err() {
        return Err(StreamingLayoutError::InvalidPosition);
    }
    if !matches!(metrics.inline_offset, PixelClass::Zero | PixelClass::Positive) {
        return Err(StreamingLayoutError::InvalidMetric(StreamingLayoutMetric::InlineOffset));
    }
    if !matches!(metrics.block_offset, PixelClass::Zero | PixelClass::Positive) {
        return Err(StreamingLayoutError::InvalidMetric(StreamingLayoutMetric::BlockOffset));
    }
    if !matches!(metrics.line_block_extent, PixelClass::Positive) {
        return Err(StreamingLayoutError::InvalidMetric(StreamingLayoutMetric::LineBlockExtent));
    }
    if matches!(metrics.line_block_extent_to_line_height, PixelOrdering::Less) {
        return Err(StreamingLayoutError::InvalidMetric(StreamingLayoutMetric::LineBlockExtent));
    }
    if c.finalized_logical_lines > c.visual_lines || (c.line_finalized
        && c.finalized_logical_lines == 0) || (c.ended && !c.line_finalized) {
        return Err(StreamingLayoutError::InvalidSegment);
    }
    if c.next_ordinal == 0 {
        if c.line_has_content || c.line_finalized || c.ended || c.visual_lines != 0
            || c.finalized_logical_lines != 0 {
            return Err(StreamingLayoutError::InvalidSegment);
        }
    } else if !c.line_has_content && !c.line_finalized {
        return Err(StreamingLayoutError::InvalidSegment);
    }
    let inline_is_zero = matches!(metrics.inline_offset, PixelClass::Zero);
    if c.line_finalized {
        if !inline_is_zero {
            return Err(StreamingLayoutError::InvalidMetric(StreamingLayoutMetric::InlineOffset));
        }
        if !matches!(metrics.line_block_extent_to_line_height, PixelOrdering::Equal) {
            return Err(
                StreamingLayoutError::InvalidMetric(StreamingLayoutMetric::LineBlockExtent),
            );
        }
        if c.line_has_content {
            return Err(StreamingLayoutError::InvalidSegment);
        }
    } else if !c.line_has_content && !inline_is_zero {
        return Err(StreamingLayoutError::InvalidSegment);
    }
    if c.ended && !c.next_position.gap.is_terminal() {
        return Err(StreamingLayoutError::InvalidPosition);
    }
    Ok(())
}

/// Semantic records retained by a live continuation alone.
pub fn continuation_item_charge(continuation: StreamingLayoutContinuation) -> (charge:
    StreamingLayoutItemCharge)
    ensures
        charge == continuation_items(continuation),
        item_sum(charge) <= 7,
{
    let edges = crate::charge::position_object_edges(continuation.next_position);
    let mut charge = StreamingLayoutItemCharge::zero();
    charge.positions = 1;
    charge.gap_witnesses = 1;
    charge.object_ids = edges;
    charge.object_orders = edges;
    charge.continuations = 1;
    proof {
        crate::charge::lemma_item_sum_fields(charge);
    }
    charge
}

fn validate_continuation_capacity(
    binding: &StreamingLayoutBinding,
    continuation: StreamingLayoutContinuation,
) -> (result: Result<(), StreamingLayoutError>)
    ensures
        result == capacity_check(*binding, continuation),
{
    let continuation_bytes = core::mem::size_of::<StreamingLayoutContinuation>();
    if continuation_bytes > binding.limits.retained_bytes {
        return Err(StreamingLayoutError::CapacityExceeded(StreamingLayoutComponent::Total));
    }
    let items = continuation_item_charge(continuation);
    let total = match items.total() {
        Ok(total) => total,
        Err(error) => {
            return Err(error);
        },
    };
    if total > binding.limits.retained_items {
        Err(StreamingLayoutError::CapacityExceeded(StreamingLayoutComponent::Total))
    } else {
        Ok(())
    }
}


// ---------------------------------------------------------------------------------------------
// Fragments
// ---------------------------------------------------------------------------------------------

impl StreamingBoundaryFragment {
    /// The boundary's exact caret maps, in admission order.
    pub closed spec fn boundary_maps(self) -> Seq<StreamingLayoutMap> {
        self.maps@
    }

    /// Boundary transition represented by this fragment.
    pub closed spec fn boundary_kind(self) -> StreamingBoundaryKind {
        self.kind
    }

    /// Exact boundary caret maps.
    pub fn maps(&self) -> (maps: &[StreamingLayoutMap])
        ensures
            maps@ == self.boundary_maps(),
    {
        self.maps.as_slice()
    }

    /// Constant-time lookup for boundary positions owned by this fragment: a logical-line
    /// boundary owns the start of its delimiter, and end of source owns its terminal position.
    pub fn position_for_logical_position(&self, position: StreamingLayoutPosition) -> (result:
        Option<Point<Pixels>>)
        ensures
            result == (if self.boundary_maps().len() == 0 {
                None
            } else {
                let first = self.boundary_maps()[0];
                if first.logical_position == position && (self.boundary_kind() is EndOfSource
                    || self.boundary_maps().len() > 1) {
                    Some(first.position)
                } else {
                    None
                }
            }),
    {
        if self.maps.len() == 0 {
            return None;
        }
        let first = self.maps[0];
        match self.kind {
            StreamingBoundaryKind::LogicalLine => {
                if self.maps.len() > 1 && first.logical_position == position {
                    Some(first.position)
                } else {
                    None
                }
            },
            StreamingBoundaryKind::EndOfSource => {
                if first.logical_position == position {
                    Some(first.position)
                } else {
                    None
                }
            },
        }
    }
}

impl StreamingBoundaryFragment {
    /// Hit-tests the boundary's exact geometry: `point_finite` says whether both coordinates of
    /// the point are finite, `at_first` and `at_last` whether it equals the first and last map's
    /// position. A logical-line boundary owns only its delimiter's start; end of source owns its
    /// first and its terminal position.
    pub fn closest_logical_position_for_position(
        &self,
        point_finite: bool,
        at_first: bool,
        at_last: bool,
    ) -> (result: Result<Option<StreamingLayoutHit>, StreamingLayoutError>)
        ensures
            result == (if !point_finite {
                Err(StreamingLayoutError::InvalidMetric(StreamingLayoutMetric::HitPosition))
            } else if self.boundary_maps().len() == 0 {
                Err(StreamingLayoutError::InvalidSegment)
            } else if self.boundary_kind() is LogicalLine && self.boundary_maps().len() == 1 {
                Ok(None)
            } else if at_first {
                Ok(Some(StreamingLayoutHit::Gap(self.boundary_maps()[0].logical_position)))
            } else if self.boundary_kind() is EndOfSource && at_last {
                Ok(Some(StreamingLayoutHit::Gap(self.boundary_maps().last().logical_position)))
            } else {
                Ok(None)
            }),
    {
        if !point_finite {
            return Err(StreamingLayoutError::InvalidMetric(StreamingLayoutMetric::HitPosition));
        }
        if self.maps.len() == 0 {
            return Err(StreamingLayoutError::InvalidSegment);
        }
        let first = self.maps[0];
        if self.kind == StreamingBoundaryKind::LogicalLine && self.maps.len() == 1 {
            return Ok(None);
        }
        if at_first {
            return Ok(Some(StreamingLayoutHit::Gap(first.logical_position)));
        }
        let last = self.maps[self.maps.len() - 1];
        if self.kind == StreamingBoundaryKind::EndOfSource && at_last {
            Ok(Some(StreamingLayoutHit::Gap(last.logical_position)))
        } else {
            Ok(None)
        }
    }
}

// ---------------------------------------------------------------------------------------------
// Sessions
// ---------------------------------------------------------------------------------------------

/// Window-affine handle from which bounded streaming sessions are started and resumed.
///
/// Sessions borrow it, so a session cannot outlive the window's shaping context.
#[derive(Debug)]
pub struct WindowTextSystem {
    window: u64,
}

impl WindowTextSystem {
    /// A text-system handle for the window with the given identity.
    pub fn new(window: u64) -> (text_system: Self)
        ensures
            text_system.window_id() == window,
    {
        WindowTextSystem { window }
    }

    /// Identity of the window this text system belongs to.
    pub closed spec fn window_id(&self) -> u64 {
        self.window
    }
}

/// A window-affine bounded streaming layout session.
pub struct StreamingLayoutSession<'a> {
    text_system: &'a WindowTextSystem,
    binding: StreamingLayoutBinding,
    continuation: Option<StreamingLayoutContinuation>,
    placement: StreamingPlacementMetrics,
}

impl<'a> StreamingLayoutSession<'a> {
    /// The session's immutable binding.
    pub closed spec fn bound(&self) -> StreamingLayoutBinding {
        self.binding
    }

    /// The session's live continuation, or `None` after cancellation.
    pub closed spec fn live(&self) -> Option<StreamingLayoutContinuation> {
        self.continuation
    }

    /// Carried metrics of the live continuation.
    pub closed spec fn live_metrics(&self) -> StreamingPlacementMetrics {
        self.placement
    }

    /// The live continuation, when there is one, is a valid continuation of its carried metrics.
    pub closed spec fn wf(&self) -> bool {
        self.continuation matches Some(c) ==> continuation_check(c, self.placement) is Ok
    }
}

impl WindowTextSystem {
    /// Starts a bounded session tied to this window's text system.
    ///
    /// Canonical segments remain independent shaping contexts. Only exact placement state crosses
    /// calls.
    pub fn streaming_layout_session(
        &self,
        binding: StreamingLayoutBinding,
        metrics: StreamingBindingMetrics,
    ) -> (result: Result<StreamingLayoutSession<'_>, StreamingLayoutError>)
        ensures
            match result {
                Ok(session) => {
                    &&& binding_check(binding, metrics) is Ok
                    &&& capacity_check(binding, fresh_continuation(binding)) is Ok
                    &&& session.wf()
                    &&& session.bound() == binding
                    &&& session.live() == Some(fresh_continuation(binding))
                    &&& session.live_metrics() == reset_line_metrics(PixelClass::Zero)
                },
                Err(error) => binding_check(binding, metrics) == Err::<(), _>(error) || (
                binding_check(binding, metrics) is Ok && capacity_check(
                    binding,
                    fresh_continuation(binding),
                ) == Err::<(), _>(error)),
            },
    {
        match validate_binding(&binding, metrics) {
            Ok(()) => {},
            Err(error) => {
                return Err(error);
            },
        }
        let continuation = StreamingLayoutContinuation {
            input_id: binding.input_id,
            segment_policy_id: binding.segment_policy_id,
            next_ordinal: 0,
            next_position: binding.start_position,
            inline_offset: Pixels::zero(),
            block_offset: Pixels::zero(),
            line_block_extent: binding.line_height,
            line_has_content: false,
            visual_lines: 0,
            finalized_logical_lines: 0,
            line_finalized: false,
            ended: false,
        };
        match validate_continuation_capacity(&binding, continuation) {
            Ok(()) => {},
            Err(error) => {
                return Err(error);
            },
        }
        Ok(
            StreamingLayoutSession {
                text_system: self,
                binding,
                continuation: Some(continuation),
                placement: StreamingPlacementMetrics {
                    inline_offset: PixelClass::Zero,
                    block_offset: PixelClass::Zero,
                    line_block_extent: PixelClass::Positive,
                    line_block_extent_to_line_height: PixelOrdering::Equal,
                },
            },
        )
    }

    /// Resumes a bounded session from caller-retained compact placement state.
    ///
    /// The caller pairs the continuation with the binding that produced it; mismatched
    /// identities and invalid carried metrics are rejected.
    pub fn resume_streaming_layout_session(
        &self,
        binding: StreamingLayoutBinding,
        metrics: StreamingBindingMetrics,
        continuation: StreamingLayoutContinuation,
        placement: StreamingPlacementMetrics,
    ) -> (result: Result<StreamingLayoutSession<'_>, StreamingLayoutError>)
        ensures
            result is Ok <==> (binding_check(binding, metrics) is Ok && continuation_check(
                continuation,
                placement,
            ) is Ok && continuation.input_id == binding.input_id
                && continuation.segment_policy_id == binding.segment_policy_id && capacity_check(
                binding,
                continuation,
            ) is Ok),
            match result {
                Ok(session) => {
                    &&& session.wf()
                    &&& session.bound() == binding
                    &&& session.live() == Some(continuation)
                    &&& session.live_metrics() == placement
                },
                Err(error) => if binding_check(binding, metrics) is Err {
                    binding_check(binding, metrics) == Err::<(), _>(error)
                } else if continuation_check(continuation, placement) is Err {
                    continuation_check(continuation, placement) == Err::<(), _>(error)
                } else if continuation.input_id != binding.input_id {
                    error == StreamingLayoutError::InputMismatch
                } else if continuation.segment_policy_id != binding.segment_policy_id {
                    error == StreamingLayoutError::SegmentPolicyMismatch
                } else {
                    capacity_check(binding, continuation) == Err::<(), _>(error)
                },
            },
    {
        match validate_binding(&binding, metrics) {
            Ok(()) => {},
            Err(error) => {
                return Err(error);
            },
        }
        match validate_continuation(continuation, placement) {
            Ok(()) => {},
            Err(error) => {
                return Err(error);
            },
        }
        if continuation.input_id != binding.input_id {
            return Err(StreamingLayoutError::InputMismatch);
        }
        if continuation.segment_policy_id != binding.segment_policy_id {
            return Err(StreamingLayoutError::SegmentPolicyMismatch);
        }
        match validate_continuation_capacity(&binding, continuation) {
            Ok(()) => {},
            Err(error) => {
                return Err(error);
            },
        }
        Ok(
            StreamingLayoutSession {
                text_system: self,
                binding,
                continuation: Some(continuation),
                placement,
            },
        )
    }
}

impl<'a> StreamingLayoutSession<'a> {
    /// Immutable session binding.
    pub fn binding(&self) -> (binding: &StreamingLayoutBinding)
        ensures
            *binding == self.bound(),
    {
        &self.binding
    }

    /// Current compact continuation, or `None` after cancellation.
    pub fn continuation(&self) -> (continuation: Option<StreamingLayoutContinuation>)
        ensures
            continuation == self.live(),
    {
        self.continuation
    }

    /// Carried metrics of the current continuation.
    pub fn placement_metrics(&self) -> (metrics: StreamingPlacementMetrics)
        ensures
            metrics == self.live_metrics(),
    {
        self.placement
    }

    /// Exact bytes retained by the active session itself: one continuation record while live.
    pub fn retained_charge(&self) -> (charge: StreamingLayoutCharge)
        ensures
            charge == (StreamingLayoutCharge {
                continuation: if self.live() is Some {
                    vstd::layout::size_of::<StreamingLayoutContinuation>() as usize
                } else {
                    0
                },
                ..StreamingLayoutCharge::zero_spec()
            }),
    {
        let mut charge = StreamingLayoutCharge::zero();
        if self.continuation.is_some() {
            charge.continuation = core::mem::size_of::<StreamingLayoutContinuation>();
        }
        charge
    }

    /// Exact semantic records retained by the active session itself: the live continuation's
    /// records, or none after cancellation.
    pub fn retained_item_charge(&self) -> (charge: StreamingLayoutItemCharge)
        ensures
            charge == match self.live() {
                Some(continuation) => continuation_items(continuation),
                None => zero_item_charge(),
            },
    {
        match self.continuation {
            Some(continuation) => continuation_item_charge(continuation),
            None => StreamingLayoutItemCharge::zero(),
        }
    }

    /// Cancels the session and releases its compact continuation.
    pub fn cancel(&mut self)
        ensures
            final(self).live() is None,
            final(self).bound() == old(self).bound(),
            final(self).wf(),
    {
        self.continuation = None;
    }

    /// Validates the ordered header of one admission and returns the prior continuation.
    pub fn validate_header(
        &self,
        input_id: u64,
        segment_policy_id: u64,
        ordinal: u64,
        start: StreamingLayoutPosition,
    ) -> (result: Result<StreamingLayoutContinuation, StreamingLayoutError>)
        requires
            self.wf(),
        ensures
            result == header_check(
                self.bound(),
                self.live(),
                input_id,
                segment_policy_id,
                ordinal,
                start,
            ),
    {
        let prior = match self.continuation {
            Some(prior) => prior,
            None => {
                return Err(StreamingLayoutError::Cancelled);
            },
        };
        if prior.ended {
            return Err(StreamingLayoutError::Ended);
        }
        if input_id != self.binding.input_id {
            return Err(StreamingLayoutError::InputMismatch);
        }
        if segment_policy_id != self.binding.segment_policy_id {
            return Err(StreamingLayoutError::SegmentPolicyMismatch);
        }
        if start.validate().is_err() {
            return Err(StreamingLayoutError::InvalidPosition);
        }
        if ordinal != prior.next_ordinal || start != prior.next_position {
            return Err(StreamingLayoutError::OutOfOrder);
        }
        match validate_continuation(prior, self.placement) {
            Ok(()) => {},
            Err(error) => {
                return Err(error);
            },
        }
        Ok(prior)
    }

    /// Validates a nonempty source-covering range.
    pub fn validate_source_range(&self, range: &Range<StreamingLayoutPosition>) -> (result: Result<
        (),
        StreamingLayoutError,
    >)
        ensures
            result == source_range_check(*range),
    {
        if range.start.validate().is_err() || range.end.validate().is_err() {
            return Err(StreamingLayoutError::InvalidPosition);
        }
        if range.start.byte_offset >= range.end.byte_offset {
            return Err(StreamingLayoutError::InvalidSegment);
        }
        if !range.start.gap.is_terminal() || !range.end.gap.is_source_range_end() {
            return Err(StreamingLayoutError::InvalidPosition);
        }
        Ok(())
    }

    fn finish_boundary(
        &mut self,
        kind: StreamingBoundaryKind,
        maps: Vec<StreamingLayoutMap>,
        continuation: StreamingLayoutContinuation,
        metrics: StreamingPlacementMetrics,
    ) -> (result: Result<StreamingLayoutAdmission, StreamingLayoutError>)
        requires
            old(self).wf(),
            maps@.len() <= 2,
        ensures
            final(self).binding == old(self).binding,
            final(self).wf(),
            match result {
                Ok(admission) => {
                    &&& admission_check(
                        old(self).binding,
                        continuation,
                        metrics,
                        boundary_charge(maps@.len()),
                        boundary_items(maps@, continuation),
                    ) is Ok
                    &&& admission.continuation == continuation
                    &&& admission.charge == boundary_charge(maps@.len())
                    &&& admission.item_charge == boundary_items(maps@, continuation)
                    &&& admission.fragments@.len() == 1
                    &&& admission.fragments@[0] matches StreamingLayoutFragment::Boundary(fragment)
                        && fragment.kind == kind && fragment.boundary_maps() == maps@
                    &&& final(self).continuation == Some(continuation)
                    &&& final(self).placement == metrics
                },
                Err(error) => {
                    &&& admission_check(
                        old(self).binding,
                        continuation,
                        metrics,
                        boundary_charge(maps@.len()),
                        boundary_items(maps@, continuation),
                    ) == Err::<(), _>(error)
                    &&& *final(self) == *old(self)
                },
            },
    {
        let mut positions: Vec<StreamingLayoutPosition> = Vec::new();
        let mut index: usize = 0;
        while index < maps.len()
            invariant
                index <= maps@.len(),
                positions@ =~= maps@.take(index as int).map_values(
                    |map: StreamingLayoutMap| map.logical_position,
                ),
            decreases maps@.len() - index,
        {
            positions.push(maps[index].logical_position);
            index = index + 1;
        }
        positions.push(continuation.next_position);
        assert(maps@.take(maps@.len() as int) =~= maps@);
        assert(positions@ =~= boundary_positions(maps@, continuation));
        let (position_count, object_facts) = match position_facts(positions.as_slice()) {
            Ok(facts) => facts,
            Err(error) => {
                proof {
                    crate::charge::lemma_positions_object_edges_bound(positions@);
                }
                return Err(error);
            },
        };
        vstd::layout::layout_for_type_is_valid::<StreamingLayoutMap>();
        let map_size = core::mem::size_of::<StreamingLayoutMap>();
        assert(maps@.len() * map_size <= usize::MAX) by (nonlinear_arith)
            requires
                maps@.len() <= 2,
                map_size <= isize::MAX,
        ;
        let map_bytes = match checked_mul(
            maps.len(),
            core::mem::size_of::<StreamingLayoutMap>(),
            StreamingLayoutComponent::Maps,
        ) {
            Ok(bytes) => bytes,
            Err(error) => {
                return Err(error);
            },
        };
        let mut charge = StreamingLayoutCharge::zero();
        charge.maps = map_bytes;
        charge.fragments = core::mem::size_of::<StreamingBoundaryKind>();
        charge.continuation = core::mem::size_of::<StreamingLayoutContinuation>();
        let mut items = StreamingLayoutItemCharge::zero();
        items.maps = maps.len();
        items.positions = position_count;
        items.gap_witnesses = position_count;
        items.object_ids = object_facts;
        items.object_orders = object_facts;
        items.fragments = 1;
        items.continuations = 1;
        assert(charge == boundary_charge(maps@.len()));
        assert(items == boundary_items(maps@, continuation));
        match validate_continuation(continuation, metrics) {
            Ok(()) => {},
            Err(error) => {
                return Err(error);
            },
        }
        let total = match charge.total() {
            Ok(total) => total,
            Err(error) => {
                return Err(error);
            },
        };
        if total > self.binding.limits.retained_bytes {
            return Err(StreamingLayoutError::CapacityExceeded(StreamingLayoutComponent::Total));
        }
        let item_total = match items.total() {
            Ok(total) => total,
            Err(error) => {
                return Err(error);
            },
        };
        if item_total > self.binding.limits.retained_items {
            return Err(StreamingLayoutError::CapacityExceeded(StreamingLayoutComponent::Total));
        }
        let mut fragments: Vec<StreamingLayoutFragment> = Vec::new();
        fragments.push(StreamingLayoutFragment::Boundary(StreamingBoundaryFragment { kind, maps }));
        self.continuation = Some(continuation);
        self.placement = metrics;
        Ok(StreamingLayoutAdmission { fragments, continuation, charge, item_charge: items })
    }
}


impl<'a> StreamingLayoutSession<'a> {
    /// Atomically admits one shaped text, atom or object fragment: the produced continuation must
    /// be valid under its placement `metrics`, and the retained bytes and records must fit the
    /// session's exact limits. On success the session moves to the continuation; on rejection it
    /// is left as it was.
    pub fn finish_admission(
        &mut self,
        fragment: StreamingLayoutFragment,
        continuation: StreamingLayoutContinuation,
        metrics: StreamingPlacementMetrics,
        charge: StreamingLayoutCharge,
        item_charge: StreamingLayoutItemCharge,
    ) -> (result: Result<StreamingLayoutAdmission, StreamingLayoutError>)
        requires
            old(self).wf(),
        ensures
            final(self).bound() == old(self).bound(),
            final(self).wf(),
            match result {
                Ok(admission) => {
                    &&& admission_check(old(self).bound(), continuation, metrics, charge, item_charge)
                        is Ok
                    &&& admission.fragments@ == seq![fragment]
                    &&& admission.continuation == continuation
                    &&& admission.charge == charge
                    &&& admission.item_charge == item_charge
                    &&& final(self).live() == Some(continuation)
                    &&& final(self).live_metrics() == metrics
                },
                Err(error) => {
                    &&& admission_check(old(self).bound(), continuation, metrics, charge, item_charge)
                        == Err::<(), _>(error)
                    &&& *final(self) == *old(self)
                },
            },
    {
        match validate_continuation(continuation, metrics) {
            Ok(()) => {},
            Err(error) => {
                return Err(error);
            },
        }
        let total = match charge.total() {
            Ok(total) => total,
            Err(error) => {
                return Err(error);
            },
        };
        if total > self.binding.limits.retained_bytes {
            return Err(StreamingLayoutError::CapacityExceeded(StreamingLayoutComponent::Total));
        }
        let item_total = match item_charge.total() {
            Ok(total) => total,
            Err(error) => {
                return Err(error);
            },
        };
        if item_total > self.binding.limits.retained_items {
            return Err(StreamingLayoutError::CapacityExceeded(StreamingLayoutComponent::Total));
        }
        let mut fragments: Vec<StreamingLayoutFragment> = Vec::new();
        fragments.push(fragment);
        self.continuation = Some(continuation);
        self.placement = metrics;
        Ok(StreamingLayoutAdmission { fragments, continuation, charge, item_charge })
    }
}

impl<'a> StreamingLayoutSession<'a> {
    /// Atomically finalizes one logical line and consumes its exact delimiter when present.
    ///
    /// `next_block` is the block offset of the following line: the prior block offset plus the
    /// prior line's block extent, or the overflow that computing it reported.
    pub fn finalize_logical_line(
        &mut self,
        finalization: StreamingLineFinalization,
        next_block: Result<MeasuredPixels, StreamingLayoutError>,
    ) -> (result: Result<StreamingLayoutAdmission, StreamingLayoutError>)
        requires
            old(self).wf(),
        ensures
            final(self).wf(),
            final(self).bound() == old(self).bound(),
            match result {
                Ok(admission) => {
                    let prior = old(self).live().unwrap();
                    let next_block = next_block.unwrap();
                    &&& finalization_outcome(
                        old(self).bound(),
                        old(self).live(),
                        finalization,
                        Ok(next_block),
                    ) == Ok::<_, StreamingLayoutError>(admission.continuation)
                    &&& final(self).live() == Some(admission.continuation)
                    &&& final(self).live_metrics() == reset_line_metrics(next_block.class)
                    &&& admission.charge == boundary_charge(
                        finalization_maps(prior, finalization, next_block.value).len(),
                    )
                    &&& admission.item_charge == boundary_items(
                        finalization_maps(prior, finalization, next_block.value),
                        admission.continuation,
                    )
                    &&& admission.fragments@.len() == 1
                    &&& admission.fragments@[0] matches StreamingLayoutFragment::Boundary(fragment)
                        && fragment.boundary_kind() is LogicalLine && fragment.boundary_maps()
                        == finalization_maps(prior, finalization, next_block.value)
                },
                Err(error) => {
                    &&& finalization_outcome(
                        old(self).bound(),
                        old(self).live(),
                        finalization,
                        next_block,
                    ) == Err::<StreamingLayoutContinuation, _>(error)
                    &&& *final(self) == *old(self)
                },
            },
    {
        let start = match &finalization.delimiter_range {
            Some(range) => range.start,
            None => finalization.next_position,
        };
        let prior = match self.validate_header(
            finalization.input_id,
            finalization.segment_policy_id,
            finalization.ordinal,
            start,
        ) {
            Ok(prior) => prior,
            Err(error) => {
                return Err(error);
            },
        };
        if finalization.next_position.validate().is_err() {
            return Err(StreamingLayoutError::InvalidPosition);
        }
        match &finalization.delimiter_range {
            Some(range) => {
                match self.validate_source_range(range) {
                    Ok(()) => {},
                    Err(error) => {
                        return Err(error);
                    },
                }
                if range.end != finalization.next_position || !range.start.gap.is_terminal() {
                    return Err(StreamingLayoutError::InvalidPosition);
                }
            },
            None => {
                if finalization.next_position != prior.next_position {
                    return Err(StreamingLayoutError::InvalidPosition);
                }
            },
        }
        let next_block = match next_block {
            Ok(next_block) => next_block,
            Err(error) => {
                return Err(error);
            },
        };
        let next_map = StreamingLayoutMap {
            logical_position: finalization.next_position,
            position: Point { x: Pixels::zero(), y: next_block.value },
        };
        let mut maps: Vec<StreamingLayoutMap> = Vec::new();
        if finalization.delimiter_range.is_some() {
            maps.push(
                StreamingLayoutMap {
                    logical_position: start,
                    position: Point { x: prior.inline_offset, y: prior.block_offset },
                },
            );
        }
        maps.push(next_map);
        assert(maps@ =~= finalization_maps(prior, finalization, next_block.value));
        if maps.len() > self.binding.limits.maps {
            return Err(StreamingLayoutError::CapacityExceeded(StreamingLayoutComponent::Maps));
        }
        if 1 > self.binding.limits.fragments {
            return Err(StreamingLayoutError::CapacityExceeded(StreamingLayoutComponent::Fragments));
        }
        let next_ordinal = match prior.next_ordinal.checked_add(1) {
            Some(value) => value,
            None => {
                return Err(StreamingLayoutError::Overflow(StreamingLayoutComponent::Continuation));
            },
        };
        let visual_lines = match prior.visual_lines.checked_add(1) {
            Some(value) => value,
            None => {
                return Err(StreamingLayoutError::Overflow(StreamingLayoutComponent::Continuation));
            },
        };
        let finalized_logical_lines = match prior.finalized_logical_lines.checked_add(1) {
            Some(value) => value,
            None => {
                return Err(StreamingLayoutError::Overflow(StreamingLayoutComponent::Continuation));
            },
        };
        let continuation = StreamingLayoutContinuation {
            next_ordinal,
            next_position: finalization.next_position,
            inline_offset: Pixels::zero(),
            block_offset: next_block.value,
            line_block_extent: self.binding.line_height,
            line_has_content: false,
            visual_lines,
            finalized_logical_lines,
            line_finalized: true,
            ..prior
        };
        let metrics = StreamingPlacementMetrics {
            inline_offset: PixelClass::Zero,
            block_offset: next_block.class,
            line_block_extent: PixelClass::Positive,
            line_block_extent_to_line_height: PixelOrdering::Equal,
        };
        self.finish_boundary(StreamingBoundaryKind::LogicalLine, maps, continuation, metrics)
    }

    /// Atomically accepts end of source and finalizes the remaining logical line exactly once.
    ///
    /// `next_block` is the prior block offset plus the prior line's block extent, or the overflow
    /// that computing it reported.
    pub fn end_source(
        &mut self,
        end: StreamingEndOfSource,
        next_block: Result<MeasuredPixels, StreamingLayoutError>,
    ) -> (result: Result<StreamingLayoutAdmission, StreamingLayoutError>)
        requires
            old(self).wf(),
        ensures
            final(self).wf(),
            final(self).bound() == old(self).bound(),
            match result {
                Ok(admission) => {
                    let prior = old(self).live().unwrap();
                    let next_block = next_block.unwrap();
                    &&& end_outcome(old(self).bound(), old(self).live(), end, Ok(next_block))
                        == Ok::<_, StreamingLayoutError>(admission.continuation)
                    &&& final(self).live() == Some(admission.continuation)
                    &&& final(self).live_metrics() == reset_line_metrics(next_block.class)
                    &&& admission.charge == boundary_charge(1)
                    &&& admission.item_charge == boundary_items(
                        end_maps(prior, end),
                        admission.continuation,
                    )
                    &&& admission.fragments@.len() == 1
                    &&& admission.fragments@[0] matches StreamingLayoutFragment::Boundary(fragment)
                        && fragment.boundary_kind() is EndOfSource && fragment.boundary_maps()
                        == end_maps(prior, end)
                },
                Err(error) => {
                    &&& end_outcome(old(self).bound(), old(self).live(), end, next_block) == Err::<
                        StreamingLayoutContinuation,
                        _,
                    >(error)
                    &&& *final(self) == *old(self)
                },
            },
    {
        let prior = match self.validate_header(
            end.input_id,
            end.segment_policy_id,
            end.ordinal,
            end.position,
        ) {
            Ok(prior) => prior,
            Err(error) => {
                return Err(error);
            },
        };
        if end.position.byte_offset != end.source_extent || !end.position.gap.is_terminal() {
            return Err(StreamingLayoutError::InvalidPosition);
        }
        let next_block = match next_block {
            Ok(next_block) => next_block,
            Err(error) => {
                return Err(error);
            },
        };
        let mut maps: Vec<StreamingLayoutMap> = Vec::new();
        maps.push(
            StreamingLayoutMap {
                logical_position: end.position,
                position: Point { x: prior.inline_offset, y: prior.block_offset },
            },
        );
        assert(maps@ =~= end_maps(prior, end));
        let next_ordinal = match prior.next_ordinal.checked_add(1) {
            Some(value) => value,
            None => {
                return Err(StreamingLayoutError::Overflow(StreamingLayoutComponent::Continuation));
            },
        };
        let visual_lines = match prior.visual_lines.checked_add(1) {
            Some(value) => value,
            None => {
                return Err(StreamingLayoutError::Overflow(StreamingLayoutComponent::Continuation));
            },
        };
        let finalized_logical_lines = match prior.finalized_logical_lines.checked_add(1) {
            Some(value) => value,
            None => {
                return Err(StreamingLayoutError::Overflow(StreamingLayoutComponent::Continuation));
            },
        };
        let continuation = StreamingLayoutContinuation {
            next_ordinal,
            inline_offset: Pixels::zero(),
            block_offset: next_block.value,
            line_block_extent: self.binding.line_height,
            line_has_content: false,
            visual_lines,
            finalized_logical_lines,
            line_finalized: true,
            ended: true,
            ..prior
        };
        let metrics = StreamingPlacementMetrics {
            inline_offset: PixelClass::Zero,
            block_offset: next_block.class,
            line_block_extent: PixelClass::Positive,
            line_block_extent_to_line_height: PixelOrdering::Equal,
        };
        self.finish_boundary(StreamingBoundaryKind::EndOfSource, maps, continuation, metrics)
    }
}


// ---------------------------------------------------------------------------------------------
// Laws
// ---------------------------------------------------------------------------------------------

/// The live continuation after one call: the admitted continuation after a success, the prior
/// one after a rejection (as every admission, line finalization and end of source states).
pub open spec fn after_call(
    before: Option<StreamingLayoutContinuation>,
    result: Result<StreamingLayoutContinuation, StreamingLayoutError>,
) -> Option<StreamingLayoutContinuation> {
    match result {
        Ok(continuation) => Some(continuation),
        Err(_) => before,
    }
}

/// The continuation a session holds after a sequence of calls from `start` with the given
/// results: that of the last success, or `start` when every call was rejected.
pub open spec fn last_admitted(
    start: StreamingLayoutContinuation,
    results: Seq<Result<StreamingLayoutContinuation, StreamingLayoutError>>,
) -> StreamingLayoutContinuation
    decreases results.len(),
{
    if results.len() == 0 {
        start
    } else {
        match results.last() {
            Ok(continuation) => continuation,
            Err(_) => last_admitted(start, results.drop_last()),
        }
    }
}

/// Only cancellation ends a session: along any sequence of admissions, line finalizations and
/// ends of source from a live continuation `start` (each moving the session as [`after_call`]
/// says), the session stays live and holds the continuation of the last success, or `start`
/// when every call was rejected.
pub proof fn lemma_continuation_is_the_last_admitted(
    start: StreamingLayoutContinuation,
    results: Seq<Result<StreamingLayoutContinuation, StreamingLayoutError>>,
    states: Seq<Option<StreamingLayoutContinuation>>,
)
    requires
        states.len() == results.len() + 1,
        states[0] == Some(start),
        forall|i: int| 0 <= i < results.len() ==> #[trigger] states[i + 1] == after_call(states[i], results[i]),
    ensures
        forall|i: int| 0 <= i < states.len() ==> #[trigger] states[i] is Some,
        states.last() == Some(last_admitted(start, results)),
    decreases results.len(),
{
    if results.len() > 0 {
        let n = results.len() - 1;
        lemma_continuation_is_the_last_admitted(start, results.drop_last(), states.drop_last());
        assert(states[n + 1] == after_call(states[n], results[n]));
        assert(states.drop_last().last() == states[n]);
        assert(results.last() == results[n]);
        assert forall|i: int| 0 <= i < states.len() implies #[trigger] states[i] is Some by {
            if i <= n {
                assert(states.drop_last()[i] == states[i]);
            }
        }
    }
}

/// One call on a session, as its effect on the live continuation: a cancellation, or any
/// admission, line finalization or end of source with its result.
#[derive(Clone, Copy, Debug)]
pub enum SessionStep {
    /// `cancel` was called.
    Cancel,
    /// An admission, line finalization or end of source returned this continuation or error.
    Returned(Result<StreamingLayoutContinuation, StreamingLayoutError>),
}

/// The live continuation after one call, as each session method states: none after a
/// cancellation, otherwise as [`after_call`] says.
pub open spec fn after_step(
    before: Option<StreamingLayoutContinuation>,
    step: SessionStep,
) -> Option<StreamingLayoutContinuation> {
    match step {
        SessionStep::Cancel => None,
        SessionStep::Returned(result) => after_call(before, result),
    }
}

/// The continuation is `None` exactly after `cancel`: along any sequence of calls from a live
/// session (each moving it as [`after_step`] says, and a cancelled session rejecting every
/// other call, see [`lemma_cancelled_session_rejects`]), the session has no continuation after
/// a call exactly when some earlier call was a cancellation.
pub proof fn lemma_continuation_is_none_exactly_after_cancel(
    start: StreamingLayoutContinuation,
    steps: Seq<SessionStep>,
    states: Seq<Option<StreamingLayoutContinuation>>,
)
    requires
        states.len() == steps.len() + 1,
        states[0] == Some(start),
        forall|i: int| 0 <= i < steps.len() ==> #[trigger] states[i + 1] == after_step(states[i], steps[i]),
        forall|i: int|
            0 <= i < steps.len() && states[i] is None ==> !(#[trigger] steps[i] matches SessionStep::Returned(
                Ok(_),
            )),
    ensures
        forall|k: int|
            0 <= k < states.len() ==> (#[trigger] states[k] is None <==> exists|i: int|
                0 <= i < k && #[trigger] steps[i] == SessionStep::Cancel),
    decreases steps.len(),
{
    if steps.len() > 0 {
        let n = steps.len() - 1;
        let shorter_steps = steps.drop_last();
        let shorter_states = states.drop_last();
        assert forall|i: int| 0 <= i < shorter_steps.len() implies #[trigger] shorter_states[i + 1]
            == after_step(shorter_states[i], shorter_steps[i]) by {
            assert(shorter_states[i + 1] == states[i + 1]);
        }
        assert forall|i: int|
            0 <= i < shorter_steps.len() && shorter_states[i] is None implies !(
            #[trigger] shorter_steps[i] matches SessionStep::Returned(Ok(_))) by {
            assert(shorter_steps[i] == steps[i]);
        }
        lemma_continuation_is_none_exactly_after_cancel(start, shorter_steps, shorter_states);
        assert forall|k: int| 0 <= k < states.len() implies (#[trigger] states[k] is None <==> exists|i: int|
            0 <= i < k && #[trigger] steps[i] == SessionStep::Cancel) by {
            if k <= n {
                assert(shorter_states[k] == states[k]);
                if exists|i: int| 0 <= i < k && #[trigger] steps[i] == SessionStep::Cancel {
                    let i = choose|i: int| 0 <= i < k && #[trigger] steps[i] == SessionStep::Cancel;
                    assert(shorter_steps[i] == steps[i]);
                }
                if exists|i: int| 0 <= i < k && #[trigger] shorter_steps[i] == SessionStep::Cancel {
                    let i = choose|i: int| 0 <= i < k && #[trigger] shorter_steps[i] == SessionStep::Cancel;
                    assert(steps[i] == shorter_steps[i]);
                }
            } else {
                assert(states[n + 1] == after_step(states[n], steps[n]));
                assert(shorter_states[n] == states[n]);
                if steps[n] == SessionStep::Cancel {
                    assert(steps[n] == SessionStep::Cancel);
                } else {
                    if exists|i: int| 0 <= i < k && #[trigger] steps[i] == SessionStep::Cancel {
                        let i = choose|i: int| 0 <= i < k && #[trigger] steps[i] == SessionStep::Cancel;
                        assert(shorter_steps[i] == steps[i]);
                    }
                    if exists|i: int| 0 <= i < n && #[trigger] shorter_steps[i] == SessionStep::Cancel {
                        let i = choose|i: int| 0 <= i < n && #[trigger] shorter_steps[i] == SessionStep::Cancel;
                        assert(steps[i] == shorter_steps[i]);
                    }
                }
            }
        }
    }
}

/// A line finalization's caret maps: with a delimiter, the delimiter's start stands exactly
/// where the prior line's content ended (the prior continuation's inline and block offsets) and
/// the next line's start at inline zero on the new block offset; without one, only the next
/// line's start. End of source places its terminal caret where the content ended.
pub proof fn lemma_boundary_carets_stand_where_the_line_ended(
    prior: StreamingLayoutContinuation,
    finalization: StreamingLineFinalization,
    end: StreamingEndOfSource,
    next_block: Pixels,
)
    ensures
        ({
            let maps = finalization_maps(prior, finalization, next_block);
            let next = StreamingLayoutMap {
                logical_position: finalization.next_position,
                position: Point { x: Pixels(0), y: next_block },
            };
            match finalization.delimiter_range {
                Some(range) => maps.len() == 2 && maps[0].logical_position == range.start
                    && maps[0].position.x == prior.inline_offset && maps[0].position.y == prior.block_offset
                    && maps[1] == next,
                None => maps.len() == 1 && maps[0] == next,
            }
        }),
        end_maps(prior, end).len() == 1,
        end_maps(prior, end)[0].logical_position == end.position,
        end_maps(prior, end)[0].position.x == prior.inline_offset,
        end_maps(prior, end)[0].position.y == prior.block_offset,
{
}

/// A cancelled session rejects every ordered admission as cancelled.
pub proof fn lemma_cancelled_session_rejects(
    binding: StreamingLayoutBinding,
    input_id: u64,
    segment_policy_id: u64,
    ordinal: u64,
    start: StreamingLayoutPosition,
    finalization: StreamingLineFinalization,
    end: StreamingEndOfSource,
    next_block: Result<MeasuredPixels, StreamingLayoutError>,
)
    ensures
        header_check(binding, None, input_id, segment_policy_id, ordinal, start) == Err::<
            StreamingLayoutContinuation,
            _,
        >(StreamingLayoutError::Cancelled),
        finalization_outcome(binding, None, finalization, next_block) == Err::<
            StreamingLayoutContinuation,
            _,
        >(StreamingLayoutError::Cancelled),
        end_outcome(binding, None, end, next_block) == Err::<StreamingLayoutContinuation, _>(
            StreamingLayoutError::Cancelled,
        ),
{
}

/// Once end of source is accepted the session is terminal: the accepted terminal position lies at
/// the exact source extent after every object at that anchor, the continuation records the end,
/// and every later finalization or end of source is rejected as ended.
pub proof fn lemma_end_of_source_is_terminal(
    binding: StreamingLayoutBinding,
    continuation: Option<StreamingLayoutContinuation>,
    end: StreamingEndOfSource,
    next_block: Result<MeasuredPixels, StreamingLayoutError>,
    later_finalization: StreamingLineFinalization,
    later_end: StreamingEndOfSource,
    later_block: Result<MeasuredPixels, StreamingLayoutError>,
)
    requires
        end_outcome(binding, continuation, end, next_block) is Ok,
    ensures
        ({
            let terminal = end_outcome(binding, continuation, end, next_block)->Ok_0;
            &&& end.position.byte_offset == end.source_extent
            &&& gap_is_terminal(end.position.gap)
            &&& terminal.ended
            &&& terminal.line_finalized
            &&& terminal.next_position == end.position
            &&& finalization_outcome(binding, Some(terminal), later_finalization, later_block)
                == Err::<StreamingLayoutContinuation, _>(StreamingLayoutError::Ended)
            &&& end_outcome(binding, Some(terminal), later_end, later_block) == Err::<
                StreamingLayoutContinuation,
                _,
            >(StreamingLayoutError::Ended)
        }),
{
}

/// Every accepted boundary advances the ordered stream by exactly one input, completes exactly
/// one visual line and one logical line, and resets inline placement to an empty line at the
/// bound line height; a boundary without a delimiter consumes no source bytes, and one with a
/// delimiter consumes exactly its nonempty range.
pub proof fn lemma_line_finalization_advances_once(
    binding: StreamingLayoutBinding,
    prior: StreamingLayoutContinuation,
    finalization: StreamingLineFinalization,
    next_block: Result<MeasuredPixels, StreamingLayoutError>,
)
    requires
        finalization_outcome(binding, Some(prior), finalization, next_block) is Ok,
    ensures
        ({
            let next = finalization_outcome(binding, Some(prior), finalization, next_block)->Ok_0;
            &&& next.next_ordinal == prior.next_ordinal + 1
            &&& next.visual_lines == prior.visual_lines + 1
            &&& next.finalized_logical_lines == prior.finalized_logical_lines + 1
            &&& next.inline_offset == Pixels(0)
            &&& next.line_block_extent == binding.line_height
            &&& !next.line_has_content
            &&& next.line_finalized
            &&& !next.ended
            &&& next.input_id == prior.input_id
            &&& next.segment_policy_id == prior.segment_policy_id
            &&& match finalization.delimiter_range {
                None => next.next_position == prior.next_position,
                Some(range) => {
                    &&& range.start == prior.next_position
                    &&& next.next_position == range.end
                    &&& range.start.byte_offset < range.end.byte_offset
                },
            }
        }),
{
}

/// The retained byte limit accepts an admission whose exact total fits and rejects, as a total
/// capacity failure, the same admission under a limit one byte smaller; likewise for the
/// semantic-item limit.
pub proof fn lemma_exact_caps_accept_fit_and_reject_one_under(
    binding: StreamingLayoutBinding,
    continuation: StreamingLayoutContinuation,
    metrics: StreamingPlacementMetrics,
    charge: StreamingLayoutCharge,
    items: StreamingLayoutItemCharge,
)
    requires
        continuation_check(continuation, metrics) is Ok,
        charge_sum(charge) == binding.limits.retained_bytes,
        item_sum(items) == binding.limits.retained_items,
    ensures
        admission_check(binding, continuation, metrics, charge, items) is Ok,
        binding.limits.retained_bytes > 0 ==> admission_check(
            StreamingLayoutBinding {
                limits: StreamingLayoutLimits {
                    retained_bytes: (binding.limits.retained_bytes - 1) as usize,
                    ..binding.limits
                },
                ..binding
            },
            continuation,
            metrics,
            charge,
            items,
        ) == Err::<(), _>(StreamingLayoutError::CapacityExceeded(StreamingLayoutComponent::Total)),
        binding.limits.retained_items > 0 ==> admission_check(
            StreamingLayoutBinding {
                limits: StreamingLayoutLimits {
                    retained_items: (binding.limits.retained_items - 1) as usize,
                    ..binding.limits
                },
                ..binding
            },
            continuation,
            metrics,
            charge,
            items,
        ) == Err::<(), _>(StreamingLayoutError::CapacityExceeded(StreamingLayoutComponent::Total)),
{
}

/// Every retained object identity fact is paired with exactly one order fact, and every
/// composite position with exactly one gap witness.
pub proof fn lemma_object_identity_and_order_facts_pair(
    maps: Seq<StreamingLayoutMap>,
    continuation: StreamingLayoutContinuation,
)
    ensures
        boundary_items(maps, continuation).object_ids == boundary_items(
            maps,
            continuation,
        ).object_orders,
        boundary_items(maps, continuation).positions == boundary_items(
            maps,
            continuation,
        ).gap_witnesses,
        continuation_items(continuation).object_ids == continuation_items(
            continuation,
        ).object_orders,
        continuation_items(continuation).positions == continuation_items(
            continuation,
        ).gap_witnesses,
{
}

/// A freshly started session's continuation is valid and its only retained records are one
/// continuation, one position and one gap witness (plus the start gap's object facts).
pub proof fn lemma_fresh_continuation_is_valid(binding: StreamingLayoutBinding, metrics: StreamingBindingMetrics)
    requires
        binding_check(binding, metrics) is Ok,
    ensures
        continuation_check(fresh_continuation(binding), reset_line_metrics(PixelClass::Zero)) is Ok,
        continuation_items(fresh_continuation(binding)).continuations == 1,
        continuation_items(fresh_continuation(binding)).positions == 1,
{
}

} // verus!
