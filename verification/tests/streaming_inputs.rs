use gpui_bounded::error::{StreamingLayoutComponent, StreamingLayoutError, StreamingLayoutMetric};
use gpui_bounded::geometry::{PixelClass, PixelOrdering, Pixels};
use gpui_bounded::inputs::{
    validate_style_run_boundaries, StreamingInlineMetrics, StreamingInlineObject,
    StreamingOversizeAtom, StreamingTextSegment,
};
use gpui_bounded::position::{
    StreamingLayoutPosition, StreamingObjectGap, StreamingObjectId, StreamingObjectOrder,
};
use gpui_bounded::session::{
    StreamingBindingMetrics, StreamingLayoutBinding, StreamingLayoutLimits, WindowTextSystem,
};

fn px(value: f32) -> Pixels {
    Pixels(value.to_bits())
}

fn limits(runs: usize) -> StreamingLayoutLimits {
    StreamingLayoutLimits {
        segment_bytes: 256,
        runs,
        decorations: 16,
        glyphs: 256,
        wraps: 64,
        maps: 257,
        fragments: 1,
        retained_items: 4096,
        retained_bytes: 128 * 1024,
    }
}

fn binding(start_position: StreamingLayoutPosition, runs: usize) -> StreamingLayoutBinding {
    StreamingLayoutBinding {
        input_id: 7,
        segment_policy_id: 11,
        start_position,
        wrap_width: px(80.),
        font_size: px(10.),
        line_height: px(14.),
        limits: limits(runs),
    }
}

fn binding_metrics() -> StreamingBindingMetrics {
    StreamingBindingMetrics {
        wrap_width: PixelClass::Positive,
        font_size: PixelClass::Positive,
        line_height: PixelClass::Positive,
    }
}

fn pos(byte_offset: u64) -> StreamingLayoutPosition {
    StreamingLayoutPosition::at(byte_offset)
}

fn segment(ordinal: u64, start: u64, end: u64, text: &str, run_lengths: Vec<usize>) -> StreamingTextSegment {
    StreamingTextSegment {
        input_id: 7,
        segment_policy_id: 11,
        ordinal,
        logical_range: pos(start)..pos(end),
        text: text.to_string(),
        run_lengths,
    }
}

fn inline_metrics() -> StreamingInlineMetrics {
    StreamingInlineMetrics {
        width: PixelClass::Positive,
        height: PixelClass::Positive,
        baseline: PixelClass::Positive,
        baseline_to_height: PixelOrdering::Less,
    }
}

fn atom(presentation: &str, run_lengths: Vec<usize>) -> StreamingOversizeAtom {
    StreamingOversizeAtom {
        input_id: 7,
        segment_policy_id: 11,
        ordinal: 0,
        logical_range: pos(0)..pos(1),
        presentation: presentation.to_string(),
        run_lengths,
        width: px(20.),
        height: px(20.),
        baseline: px(12.),
    }
}

fn object(
    leading: StreamingLayoutPosition,
    trailing: StreamingLayoutPosition,
    run_lengths: Vec<usize>,
) -> StreamingInlineObject {
    StreamingInlineObject {
        input_id: 7,
        segment_policy_id: 11,
        ordinal: 0,
        id: StreamingObjectId(5),
        order: StreamingObjectOrder(7),
        leading,
        trailing,
        presentation: "éx".to_string(),
        run_lengths,
        width: px(20.),
        height: px(20.),
        baseline: px(12.),
    }
}

#[test]
fn style_run_boundaries_must_be_utf8_scalar_boundaries() {
    assert_eq!(validate_style_run_boundaries("éx", &[1, 2]), Err(StreamingLayoutError::InvalidSegment));
    assert_eq!(validate_style_run_boundaries("éx", &[2, 1]), Ok(()));
    assert_eq!(validate_style_run_boundaries("éx", &[2]), Err(StreamingLayoutError::InvalidSegment));
    assert_eq!(validate_style_run_boundaries("éx", &[2, 1, 1]), Err(StreamingLayoutError::InvalidSegment));
    assert_eq!(validate_style_run_boundaries("", &[]), Ok(()));
    assert_eq!(validate_style_run_boundaries("x", &[usize::MAX, 2]), Err(StreamingLayoutError::InvalidSegment));

    let text_system = WindowTextSystem::new(1);
    let session = text_system.streaming_layout_session(binding(pos(0), 16), binding_metrics()).unwrap();
    assert_eq!(
        session.check_text_segment(&segment(0, 0, 3, "éx", vec![1, 2])),
        Err(StreamingLayoutError::InvalidSegment)
    );
    assert_eq!(session.check_text_segment(&segment(0, 0, 3, "éx", vec![2, 1])), Ok(session.continuation().unwrap()));
    assert_eq!(
        session.check_oversize_atom(&atom("éx", vec![1, 2]), inline_metrics()),
        Err(StreamingLayoutError::InvalidSegment)
    );
    assert_eq!(session.check_oversize_atom(&atom("éx", vec![2, 1]), inline_metrics()), Ok(session.continuation().unwrap()));

    let identity = StreamingObjectId(5);
    let order = StreamingObjectOrder(7);
    let leading = StreamingLayoutPosition::with_gap(0, StreamingObjectGap::before(identity, order));
    let trailing = StreamingLayoutPosition::with_gap(0, StreamingObjectGap::after(identity, order));
    let object_session = text_system.streaming_layout_session(binding(leading, 16), binding_metrics()).unwrap();
    assert_eq!(
        object_session.check_inline_object(&object(leading, trailing, vec![1, 2]), inline_metrics()),
        Err(StreamingLayoutError::InvalidSegment)
    );
    assert_eq!(
        object_session.check_inline_object(&object(leading, trailing, vec![2, 1]), inline_metrics()),
        Ok(object_session.continuation().unwrap())
    );
}

#[test]
fn style_run_count_cap_rejects_before_boundary_scan() {
    let text_system = WindowTextSystem::new(1);
    let session = text_system.streaming_layout_session(binding(pos(0), 1), binding_metrics()).unwrap();
    assert_eq!(
        session.check_text_segment(&segment(0, 0, 3, "éx", vec![1, 2])),
        Err(StreamingLayoutError::CapacityExceeded(StreamingLayoutComponent::Runs))
    );
    assert_eq!(
        session.check_oversize_atom(&atom("éx", vec![1, 2]), inline_metrics()),
        Err(StreamingLayoutError::CapacityExceeded(StreamingLayoutComponent::Runs))
    );

    let identity = StreamingObjectId(13);
    let order = StreamingObjectOrder(17);
    let leading = StreamingLayoutPosition::with_gap(0, StreamingObjectGap::before(identity, order));
    let trailing = StreamingLayoutPosition::with_gap(0, StreamingObjectGap::after(identity, order));
    let object_session = text_system.streaming_layout_session(binding(leading, 1), binding_metrics()).unwrap();
    let candidate = StreamingInlineObject { id: identity, order, ..object(leading, trailing, vec![1, 2]) };
    assert_eq!(
        object_session.check_inline_object(&candidate, inline_metrics()),
        Err(StreamingLayoutError::CapacityExceeded(StreamingLayoutComponent::Runs))
    );
}

#[test]
fn text_segments_must_span_their_range_without_line_breaks() {
    let text_system = WindowTextSystem::new(1);
    let session = text_system.streaming_layout_session(binding(pos(0), 16), binding_metrics()).unwrap();
    assert_eq!(
        session.check_text_segment(&segment(0, 0, 4, "abc", vec![3])),
        Err(StreamingLayoutError::InvalidSegment)
    );
    assert_eq!(
        session.check_text_segment(&segment(0, 0, 3, "a\nc", vec![3])),
        Err(StreamingLayoutError::InvalidSegment)
    );
    assert_eq!(
        session.check_text_segment(&segment(1, 0, 3, "abc", vec![3])),
        Err(StreamingLayoutError::OutOfOrder)
    );
    assert_eq!(
        session.check_text_segment(&segment(0, 0, 0, "", vec![])),
        Err(StreamingLayoutError::InvalidSegment)
    );
    let long = "x".repeat(257);
    assert_eq!(
        session.check_text_segment(&segment(0, 0, 257, &long, vec![257])),
        Err(StreamingLayoutError::CapacityExceeded(StreamingLayoutComponent::SegmentText))
    );
}

#[test]
fn inline_metrics_are_checked_in_order() {
    let text_system = WindowTextSystem::new(1);
    let session = text_system.streaming_layout_session(binding(pos(0), 16), binding_metrics()).unwrap();
    let negative_width = StreamingInlineMetrics { width: PixelClass::Negative, ..inline_metrics() };
    assert_eq!(
        session.check_inline_presentation(negative_width, "x", &[1]),
        Err(StreamingLayoutError::InvalidMetric(StreamingLayoutMetric::AtomWidth))
    );
    let zero_height = StreamingInlineMetrics { height: PixelClass::Zero, ..inline_metrics() };
    assert_eq!(
        session.check_inline_presentation(zero_height, "x", &[1]),
        Err(StreamingLayoutError::InvalidMetric(StreamingLayoutMetric::AtomHeight))
    );
    let low_baseline = StreamingInlineMetrics { baseline_to_height: PixelOrdering::Greater, ..inline_metrics() };
    assert_eq!(
        session.check_inline_presentation(low_baseline, "x", &[1]),
        Err(StreamingLayoutError::InvalidMetric(StreamingLayoutMetric::AtomBaseline))
    );
    let long = "x".repeat(257);
    assert_eq!(
        session.check_inline_presentation(inline_metrics(), &long, &[257]),
        Err(StreamingLayoutError::CapacityExceeded(StreamingLayoutComponent::Fragments))
    );
    assert_eq!(session.check_inline_presentation(inline_metrics(), "", &[]), Ok(()));
}

#[test]
fn inline_object_edges_must_name_the_object_between_its_neighbours() {
    let text_system = WindowTextSystem::new(1);
    let identity = StreamingObjectId(5);
    let order = StreamingObjectOrder(7);
    let leading = StreamingLayoutPosition::with_gap(3, StreamingObjectGap::before(identity, order));
    let trailing = StreamingLayoutPosition::with_gap(3, StreamingObjectGap::after(identity, order));
    let session = text_system.streaming_layout_session(binding(leading, 16), binding_metrics()).unwrap();
    assert_eq!(session.validate_object_edges(&object(leading, trailing, vec![3])), Ok(()));

    let moved = StreamingLayoutPosition::with_gap(4, StreamingObjectGap::after(identity, order));
    assert_eq!(
        session.validate_object_edges(&object(leading, moved, vec![3])),
        Err(StreamingLayoutError::InvalidPosition)
    );

    let other = StreamingObjectId(9);
    let before_other = StreamingLayoutPosition::with_gap(
        3,
        StreamingObjectGap::between(identity, order, other, StreamingObjectOrder(8)),
    );
    assert_eq!(session.validate_object_edges(&object(leading, before_other, vec![3])), Ok(()));
    let out_of_order = StreamingLayoutPosition::with_gap(
        3,
        StreamingObjectGap::between(identity, order, other, StreamingObjectOrder(6)),
    );
    assert_eq!(
        session.validate_object_edges(&object(leading, out_of_order, vec![3])),
        Err(StreamingLayoutError::InvalidPosition)
    );
    assert_eq!(
        session.validate_object_edges(&object(pos(3), trailing, vec![3])),
        Err(StreamingLayoutError::InvalidPosition)
    );
}
