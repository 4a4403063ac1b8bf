use gpui_bounded::charge::{StreamingLayoutCharge, StreamingLayoutItemCharge};
use gpui_bounded::error::{StreamingLayoutComponent, StreamingLayoutError, StreamingLayoutMetric};
use gpui_bounded::geometry::{PixelClass, PixelOrdering, Pixels};
use gpui_bounded::position::{
    StreamingLayoutPosition, StreamingObjectEdge, StreamingObjectGap, StreamingObjectId,
    StreamingObjectOrder,
};
use gpui_bounded::session::{
    MeasuredPixels, StreamingBindingMetrics, StreamingBoundaryKind, StreamingEndOfSource,
    StreamingLayoutBinding, StreamingLayoutContinuation, StreamingLayoutFragment,
    StreamingLayoutLimits, StreamingLineFinalization, StreamingPlacementMetrics,
    WindowTextSystem,
};

fn px(value: f32) -> Pixels {
    Pixels(value.to_bits())
}

fn class_of(value: f32) -> PixelClass {
    if !value.is_finite() {
        PixelClass::NonFinite
    } else if value < 0.0 {
        PixelClass::Negative
    } else if value == 0.0 {
        PixelClass::Zero
    } else {
        PixelClass::Positive
    }
}

fn measured(value: f32) -> MeasuredPixels {
    MeasuredPixels { value: px(value), class: class_of(value) }
}

fn limits() -> StreamingLayoutLimits {
    StreamingLayoutLimits {
        segment_bytes: 256,
        runs: 16,
        decorations: 16,
        glyphs: 256,
        wraps: 64,
        maps: 257,
        fragments: 1,
        retained_items: 4096,
        retained_bytes: 128 * 1024,
    }
}

fn binding(start_position: StreamingLayoutPosition, wrap_width: f32) -> StreamingLayoutBinding {
    StreamingLayoutBinding {
        input_id: 7,
        segment_policy_id: 11,
        start_position,
        wrap_width: px(wrap_width),
        font_size: px(10.),
        line_height: px(14.),
        limits: limits(),
    }
}

fn metrics(wrap_width: f32) -> StreamingBindingMetrics {
    StreamingBindingMetrics {
        wrap_width: class_of(wrap_width),
        font_size: class_of(10.),
        line_height: class_of(14.),
    }
}

fn pos(byte_offset: u64) -> StreamingLayoutPosition {
    StreamingLayoutPosition::at(byte_offset)
}

fn next_block(continuation: &StreamingLayoutContinuation) -> MeasuredPixels {
    let block = f32::from_bits(continuation.block_offset.0);
    let extent = f32::from_bits(continuation.line_block_extent.0);
    measured(block + extent)
}

fn finalization(
    ordinal: u64,
    delimiter: Option<(StreamingLayoutPosition, StreamingLayoutPosition)>,
    next_position: StreamingLayoutPosition,
) -> StreamingLineFinalization {
    StreamingLineFinalization {
        input_id: 7,
        segment_policy_id: 11,
        ordinal,
        delimiter_range: delimiter.map(|(start, end)| start..end),
        next_position,
    }
}

fn end(ordinal: u64, source_extent: u64, position: StreamingLayoutPosition) -> StreamingEndOfSource {
    StreamingEndOfSource { input_id: 7, segment_policy_id: 11, ordinal, source_extent, position }
}

#[test]
fn streaming_text_layout_test_binary_builds_without_test_support() {}

#[test]
fn composite_values_and_continuation_have_no_heap_ownership() {
    assert!(!std::mem::needs_drop::<StreamingObjectId>());
    assert!(!std::mem::needs_drop::<StreamingObjectOrder>());
    assert!(!std::mem::needs_drop::<StreamingObjectGap>());
    assert!(!std::mem::needs_drop::<StreamingLayoutPosition>());
    assert!(!std::mem::needs_drop::<StreamingLayoutContinuation>());
    assert!(std::mem::size_of::<StreamingLayoutContinuation>() <= 256);
}

#[test]
fn aggregate_charge_arithmetic_is_checked() {
    assert_eq!(
        StreamingLayoutCharge { segment_text: usize::MAX, runs: 1, ..Default::default() }.total(),
        Err(StreamingLayoutError::Overflow(StreamingLayoutComponent::Total))
    );
}

#[test]
fn item_charge_total_is_checked() {
    assert_eq!(
        StreamingLayoutItemCharge { text_payloads: usize::MAX, style_runs: 1, ..Default::default() }
            .total(),
        Err(StreamingLayoutError::Overflow(StreamingLayoutComponent::Total))
    );
}

#[test]
fn charge_totals_sum_every_component() {
    let charge = StreamingLayoutCharge {
        segment_text: 1,
        runs: 2,
        decorations: 3,
        glyphs: 4,
        wrap_facts: 5,
        maps: 6,
        objects: 7,
        fragments: 8,
        continuation: 9,
    };
    assert_eq!(charge.total(), Ok(45));
    assert_eq!(StreamingLayoutCharge::zero().total(), Ok(0));
    let items = StreamingLayoutItemCharge { text_payloads: 3, style_runs: 4, ..Default::default() };
    assert_eq!(items.total(), Ok(7));
}

#[test]
fn empty_source_has_one_explicit_terminal_logical_line() {
    let text_system = WindowTextSystem::new(1);
    let mut session = text_system.streaming_layout_session(binding(pos(0), 80.), metrics(80.)).unwrap();
    let prior = session.continuation().unwrap();
    let ended = session.end_source(end(0, 0, pos(0)), Ok(next_block(&prior))).unwrap();
    assert_eq!(ended.continuation.visual_lines, 1);
    assert_eq!(ended.continuation.finalized_logical_lines, 1);
    assert!(ended.continuation.ended);
    assert!(matches!(ended.fragments[0], StreamingLayoutFragment::Boundary(_)));
    let terminal = session.continuation().unwrap();
    assert_eq!(
        session.end_source(end(1, 0, pos(0)), Ok(next_block(&terminal))).unwrap_err(),
        StreamingLayoutError::Ended
    );
}

#[test]
fn terminal_delimiter_creates_and_eof_finalizes_the_empty_final_line() {
    let text_system = WindowTextSystem::new(1);
    let mut session = text_system.streaming_layout_session(binding(pos(0), 80.), metrics(80.)).unwrap();
    let prior = session.continuation().unwrap();
    let line = session
        .finalize_logical_line(finalization(0, Some((pos(0), pos(1))), pos(1)), Ok(next_block(&prior)))
        .unwrap();
    assert_eq!(line.continuation.visual_lines, 1);
    assert_eq!(line.continuation.next_position, pos(1));
    assert_eq!(line.continuation.block_offset, px(14.));
    let eof = session.end_source(end(1, 1, pos(1)), Ok(next_block(&line.continuation))).unwrap();
    assert_eq!(eof.continuation.visual_lines, 2);
    assert_eq!(eof.continuation.finalized_logical_lines, 2);
    assert_eq!(eof.continuation.block_offset, px(28.));
}

#[test]
fn consecutive_delimiters_finalize_consecutive_empty_lines() {
    let text_system = WindowTextSystem::new(1);
    let mut session = text_system.streaming_layout_session(binding(pos(0), 80.), metrics(80.)).unwrap();
    for ordinal in 0..2u64 {
        let prior = session.continuation().unwrap();
        session
            .finalize_logical_line(
                finalization(ordinal, Some((pos(ordinal), pos(ordinal + 1))), pos(ordinal + 1)),
                Ok(next_block(&prior)),
            )
            .unwrap();
    }
    assert_eq!(session.continuation().unwrap().visual_lines, 2);
    assert_eq!(session.continuation().unwrap().finalized_logical_lines, 2);
    assert_eq!(session.continuation().unwrap().next_ordinal, 2);
}

#[test]
fn eof_before_remaining_object_and_mismatched_delimiter_are_atomic() {
    let identity = StreamingObjectId(1);
    let object_order = StreamingObjectOrder(1);
    let leading =
        StreamingLayoutPosition::with_gap(0, StreamingObjectGap::before(identity, object_order));
    let text_system = WindowTextSystem::new(1);
    let mut session =
        text_system.streaming_layout_session(binding(leading, 80.), metrics(80.)).unwrap();
    let prior = session.continuation();
    let block = next_block(&prior.unwrap());
    assert_eq!(
        session.end_source(end(0, 0, leading), Ok(block)).unwrap_err(),
        StreamingLayoutError::InvalidPosition
    );
    assert_eq!(
        session
            .finalize_logical_line(finalization(0, Some((leading, pos(1))), pos(2)), Ok(block))
            .unwrap_err(),
        StreamingLayoutError::InvalidPosition
    );
    assert_eq!(session.continuation(), prior);
}

#[test]
fn delimiterless_finalization_keeps_the_position_and_maps_only_the_next_line() {
    let text_system = WindowTextSystem::new(1);
    let mut session = text_system.streaming_layout_session(binding(pos(0), 80.), metrics(80.)).unwrap();
    let prior = session.continuation().unwrap();
    let admitted =
        session.finalize_logical_line(finalization(0, None, pos(0)), Ok(next_block(&prior))).unwrap();
    assert_eq!(admitted.continuation.next_position, pos(0));
    assert_eq!(admitted.continuation.next_ordinal, 1);
    match &admitted.fragments[0] {
        StreamingLayoutFragment::Boundary(boundary) => {
            assert_eq!(boundary.kind, StreamingBoundaryKind::LogicalLine);
            assert_eq!(boundary.maps().len(), 1);
            assert_eq!(boundary.maps()[0].position.y, px(14.));
            assert_eq!(boundary.position_for_logical_position(pos(0)), None);
        }
        _ => panic!("expected a boundary fragment"),
    }
    assert_eq!(admitted.item_charge.maps, 1);
    assert_eq!(admitted.item_charge.positions, 2);
    assert_eq!(admitted.item_charge.fragments, 1);
    assert_eq!(admitted.item_charge.continuations, 1);
}

#[test]
fn delimited_boundary_owns_its_delimiter_start() {
    let text_system = WindowTextSystem::new(1);
    let mut session = text_system.streaming_layout_session(binding(pos(0), 80.), metrics(80.)).unwrap();
    let prior = session.continuation().unwrap();
    let admitted = session
        .finalize_logical_line(finalization(0, Some((pos(0), pos(2))), pos(2)), Ok(next_block(&prior)))
        .unwrap();
    match &admitted.fragments[0] {
        StreamingLayoutFragment::Boundary(boundary) => {
            assert_eq!(boundary.maps().len(), 2);
            assert_eq!(boundary.position_for_logical_position(pos(0)), Some(boundary.maps()[0].position));
            assert_eq!(boundary.position_for_logical_position(pos(2)), None);
        }
        _ => panic!("expected a boundary fragment"),
    }
}

#[test]
fn out_of_order_and_mismatched_inputs_are_rejected() {
    let text_system = WindowTextSystem::new(1);
    let mut session = text_system.streaming_layout_session(binding(pos(0), 80.), metrics(80.)).unwrap();
    let prior = session.continuation().unwrap();
    let block = next_block(&prior);
    assert_eq!(
        session.finalize_logical_line(finalization(1, None, pos(0)), Ok(block)).unwrap_err(),
        StreamingLayoutError::OutOfOrder
    );
    let mut wrong_input = finalization(0, None, pos(0));
    wrong_input.input_id = 8;
    assert_eq!(
        session.finalize_logical_line(wrong_input, Ok(block)).unwrap_err(),
        StreamingLayoutError::InputMismatch
    );
    let mut wrong_policy = finalization(0, None, pos(0));
    wrong_policy.segment_policy_id = 12;
    assert_eq!(
        session.finalize_logical_line(wrong_policy, Ok(block)).unwrap_err(),
        StreamingLayoutError::SegmentPolicyMismatch
    );
    assert_eq!(
        session
            .finalize_logical_line(finalization(0, Some((pos(1), pos(0))), pos(0)), Ok(block))
            .unwrap_err(),
        StreamingLayoutError::OutOfOrder
    );
    assert_eq!(
        session.end_source(end(0, 3, pos(0)), Ok(block)).unwrap_err(),
        StreamingLayoutError::InvalidPosition
    );
    let overflow = StreamingLayoutError::Overflow(StreamingLayoutComponent::Continuation);
    assert_eq!(
        session.finalize_logical_line(finalization(0, None, pos(0)), Err(overflow)).unwrap_err(),
        overflow
    );
    assert_eq!(session.continuation(), Some(prior));
}

#[test]
fn cancelled_session_rejects_and_releases_its_continuation() {
    let text_system = WindowTextSystem::new(1);
    let mut session = text_system.streaming_layout_session(binding(pos(0), 80.), metrics(80.)).unwrap();
    assert_eq!(session.retained_item_charge().continuations, 1);
    assert_eq!(
        session.retained_charge().continuation,
        std::mem::size_of::<StreamingLayoutContinuation>()
    );
    session.cancel();
    assert_eq!(session.continuation(), None);
    assert_eq!(session.retained_charge().total(), Ok(0));
    assert_eq!(session.retained_item_charge().total(), Ok(0));
    assert_eq!(
        session.end_source(end(0, 0, pos(0)), Ok(measured(14.))).unwrap_err(),
        StreamingLayoutError::Cancelled
    );
}

#[test]
fn fresh_session_continuation_caps_accept_exact_and_reject_one_under() {
    let text_system = WindowTextSystem::new(1);
    let source = text_system.streaming_layout_session(binding(pos(0), 80.), metrics(80.)).unwrap();
    let exact_bytes = source.retained_charge().total().unwrap();
    let exact_items = source.retained_item_charge().total().unwrap();
    let mut exact = binding(pos(0), 80.);
    exact.limits.retained_bytes = exact_bytes;
    exact.limits.retained_items = exact_items;
    assert!(text_system.streaming_layout_session(exact, metrics(80.)).is_ok());
    let mut byte_under = exact;
    byte_under.limits.retained_bytes = exact_bytes - 1;
    assert_eq!(
        text_system.streaming_layout_session(byte_under, metrics(80.)).err().unwrap(),
        StreamingLayoutError::CapacityExceeded(StreamingLayoutComponent::Total)
    );
    let mut item_under = exact;
    item_under.limits.retained_items = exact_items - 1;
    assert_eq!(
        text_system.streaming_layout_session(item_under, metrics(80.)).err().unwrap(),
        StreamingLayoutError::CapacityExceeded(StreamingLayoutComponent::Total)
    );
}

#[test]
fn invalid_binding_metrics_and_limits_are_typed() {
    let text_system = WindowTextSystem::new(1);
    let mut wrap = metrics(80.);
    wrap.wrap_width = class_of(0.);
    assert_eq!(
        text_system.streaming_layout_session(binding(pos(0), 0.), wrap).err().unwrap(),
        StreamingLayoutError::InvalidMetric(StreamingLayoutMetric::WrapWidth)
    );
    let mut font = metrics(80.);
    font.font_size = class_of(f32::NAN);
    assert_eq!(
        text_system.streaming_layout_session(binding(pos(0), 80.), font).err().unwrap(),
        StreamingLayoutError::InvalidMetric(StreamingLayoutMetric::FontSize)
    );
    let mut height = metrics(80.);
    height.line_height = class_of(-1.);
    assert_eq!(
        text_system.streaming_layout_session(binding(pos(0), 80.), height).err().unwrap(),
        StreamingLayoutError::InvalidMetric(StreamingLayoutMetric::LineHeight)
    );
    let mut zero_limit = binding(pos(0), 80.);
    zero_limit.limits.glyphs = 0;
    assert_eq!(
        text_system.streaming_layout_session(zero_limit, metrics(80.)).err().unwrap(),
        StreamingLayoutError::InvalidConfiguration
    );
    let invalid_gap = StreamingObjectGap {
        preceding: StreamingObjectEdge::AfterAll,
        following: StreamingObjectEdge::BeforeAll,
    };
    assert_eq!(
        text_system
            .streaming_layout_session(
                binding(StreamingLayoutPosition::with_gap(0, invalid_gap), 80.),
                metrics(80.)
            )
            .err()
            .unwrap(),
        StreamingLayoutError::InvalidPosition
    );
}

#[test]
fn resume_rejects_mismatched_immutable_inputs() {
    let text_system = WindowTextSystem::new(1);
    let mut session = text_system.streaming_layout_session(binding(pos(0), 80.), metrics(80.)).unwrap();
    let prior = session.continuation().unwrap();
    let line = session
        .finalize_logical_line(finalization(0, Some((pos(0), pos(1))), pos(1)), Ok(next_block(&prior)))
        .unwrap();
    let placement = session.placement_metrics();
    let continuation = line.continuation;
    let resumed = text_system
        .resume_streaming_layout_session(binding(pos(0), 80.), metrics(80.), continuation, placement)
        .unwrap();
    assert_eq!(resumed.continuation(), Some(continuation));

    let mut other_input = binding(pos(0), 80.);
    other_input.input_id = 8;
    assert_eq!(
        text_system
            .resume_streaming_layout_session(other_input, metrics(80.), continuation, placement)
            .err()
            .unwrap(),
        StreamingLayoutError::InputMismatch
    );
    let mut other_policy = binding(pos(0), 80.);
    other_policy.segment_policy_id = 12;
    assert_eq!(
        text_system
            .resume_streaming_layout_session(other_policy, metrics(80.), continuation, placement)
            .err()
            .unwrap(),
        StreamingLayoutError::SegmentPolicyMismatch
    );
}

#[test]
fn impossible_continuation_phases_are_rejected() {
    let text_system = WindowTextSystem::new(1);
    let session = text_system.streaming_layout_session(binding(pos(0), 80.), metrics(80.)).unwrap();
    let fresh = session.continuation().unwrap();
    let placement = session.placement_metrics();

    let mut ended_unfinalized = fresh;
    ended_unfinalized.ended = true;
    assert_eq!(
        text_system
            .resume_streaming_layout_session(binding(pos(0), 80.), metrics(80.), ended_unfinalized, placement)
            .err()
            .unwrap(),
        StreamingLayoutError::InvalidSegment
    );

    let mut more_logical_than_visual = fresh;
    more_logical_than_visual.finalized_logical_lines = 1;
    assert_eq!(
        text_system
            .resume_streaming_layout_session(
                binding(pos(0), 80.),
                metrics(80.),
                more_logical_than_visual,
                placement
            )
            .err()
            .unwrap(),
        StreamingLayoutError::InvalidSegment
    );

    let short_extent = StreamingPlacementMetrics {
        line_block_extent_to_line_height: PixelOrdering::Less,
        ..placement
    };
    assert_eq!(
        text_system
            .resume_streaming_layout_session(binding(pos(0), 80.), metrics(80.), fresh, short_extent)
            .err()
            .unwrap(),
        StreamingLayoutError::InvalidMetric(StreamingLayoutMetric::LineBlockExtent)
    );

    let negative_inline =
        StreamingPlacementMetrics { inline_offset: PixelClass::Negative, ..placement };
    assert_eq!(
        text_system
            .resume_streaming_layout_session(binding(pos(0), 80.), metrics(80.), fresh, negative_inline)
            .err()
            .unwrap(),
        StreamingLayoutError::InvalidMetric(StreamingLayoutMetric::InlineOffset)
    );
}

#[test]
fn boundary_maps_limit_and_fragment_caps_are_enforced() {
    let text_system = WindowTextSystem::new(1);
    let mut one_map = binding(pos(0), 80.);
    one_map.limits.maps = 1;
    let mut session = text_system.streaming_layout_session(one_map, metrics(80.)).unwrap();
    let prior = session.continuation().unwrap();
    assert_eq!(
        session
            .finalize_logical_line(finalization(0, Some((pos(0), pos(1))), pos(1)), Ok(next_block(&prior)))
            .unwrap_err(),
        StreamingLayoutError::CapacityExceeded(StreamingLayoutComponent::Maps)
    );
    assert!(session.finalize_logical_line(finalization(0, None, pos(0)), Ok(next_block(&prior))).is_ok());
}

#[test]
fn boundary_hits_belong_to_the_delimiter_start_and_the_terminal_position() {
    let text_system = WindowTextSystem::new(1);
    let mut session = text_system.streaming_layout_session(binding(pos(0), 80.), metrics(80.)).unwrap();
    let prior = session.continuation().unwrap();
    let delimited = session
        .finalize_logical_line(finalization(0, Some((pos(0), pos(2))), pos(2)), Ok(next_block(&prior)))
        .unwrap();
    match &delimited.fragments[0] {
        StreamingLayoutFragment::Boundary(boundary) => {
            assert_eq!(
                boundary.closest_logical_position_for_position(true, true, false),
                Ok(Some(gpui_bounded::session::StreamingLayoutHit::Gap(pos(0))))
            );
            assert_eq!(boundary.closest_logical_position_for_position(true, false, true), Ok(None));
            assert_eq!(
                boundary.closest_logical_position_for_position(false, true, true),
                Err(StreamingLayoutError::InvalidMetric(StreamingLayoutMetric::HitPosition))
            );
        }
        _ => panic!("expected a boundary fragment"),
    }
    let next = session.continuation().unwrap();
    let ended = session.end_source(end(1, 2, pos(2)), Ok(next_block(&next))).unwrap();
    match &ended.fragments[0] {
        StreamingLayoutFragment::Boundary(boundary) => {
            let last = boundary.maps()[boundary.maps().len() - 1].logical_position;
            assert_eq!(
                boundary.closest_logical_position_for_position(true, false, true),
                Ok(Some(gpui_bounded::session::StreamingLayoutHit::Gap(last)))
            );
        }
        _ => panic!("expected a boundary fragment"),
    }
}
