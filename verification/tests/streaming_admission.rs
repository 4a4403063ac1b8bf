use gpui_bounded::admission::{
    InlinePlacementFacts, ShapedInlineFacts, ShapedRecordSizes, ShapedTextFacts, TextPlacementFacts,
};
use gpui_bounded::error::{StreamingLayoutComponent, StreamingLayoutError, StreamingLayoutMetric};
use gpui_bounded::geometry::{PixelClass, PixelOrdering, Pixels, Point};
use gpui_bounded::maps::{text_boundary_indices, text_maps};
use gpui_bounded::inputs::{
    StreamingInlineMetrics, StreamingInlineObject, StreamingOversizeAtom, StreamingTextSegment,
};
use gpui_bounded::position::{
    StreamingLayoutPosition, StreamingObjectGap, StreamingObjectId, StreamingObjectOrder,
};
use gpui_bounded::session::{
    StreamingBindingMetrics, StreamingLayoutBinding, StreamingLayoutFragment, StreamingLayoutLimits,
    StreamingLayoutMap, StreamingLayoutSession, StreamingPlacementMetrics, WindowTextSystem,
};

fn px(value: f32) -> Pixels {
    Pixels(value.to_bits())
}

fn pos(byte_offset: u64) -> StreamingLayoutPosition {
    StreamingLayoutPosition::at(byte_offset)
}

fn limits() -> StreamingLayoutLimits {
    StreamingLayoutLimits {
        segment_bytes: 256,
        runs: 16,
        decorations: 16,
        glyphs: 256,
        wraps: 64,
        maps: 257,
        fragments: 1,
        retained_items: 4096,
        retained_bytes: 1 << 20,
    }
}

fn session(text_system: &WindowTextSystem, limits: StreamingLayoutLimits) -> StreamingLayoutSession<'_> {
    text_system
        .streaming_layout_session(
            StreamingLayoutBinding {
                input_id: 7,
                segment_policy_id: 11,
                start_position: pos(4),
                wrap_width: px(80.),
                font_size: px(10.),
                line_height: px(14.),
                limits,
            },
            StreamingBindingMetrics {
                wrap_width: PixelClass::Positive,
                font_size: PixelClass::Positive,
                line_height: PixelClass::Positive,
            },
        )
        .unwrap()
}

fn sizes() -> ShapedRecordSizes {
    ShapedRecordSizes { shaped_run: 32, glyph: 24, decoration: 40, wrap: 16, background: 20 }
}

fn hello(ordinal: u64, start: u64) -> StreamingTextSegment {
    StreamingTextSegment {
        input_id: 7,
        segment_policy_id: 11,
        ordinal,
        logical_range: pos(start)..pos(start + 5),
        text: "hello".to_string(),
        run_lengths: vec![2, 3],
    }
}

fn hello_maps(start: u64, x0: f32) -> Vec<StreamingLayoutMap> {
    (0..6)
        .map(|i| StreamingLayoutMap {
            logical_position: pos(start + i),
            position: Point { x: px(x0 + 6. * i as f32), y: px(0.) },
        })
        .collect()
}

fn hello_boundaries(x0: f32) -> Vec<(usize, Option<Point<Pixels>>)> {
    (0..6).map(|i| (i, Some(Point { x: px(x0 + 6. * i as f32), y: px(0.) }))).collect()
}

fn shaped_hello(_start: u64, wraps: usize, leading_wrap: bool) -> ShapedTextFacts {
    ShapedTextFacts {
        layout_metrics: Ok(()),
        wraps: Ok(wraps),
        leading_wrap,
        decorations: Ok(1),
        shaped_runs: 1,
        glyphs: Ok(5),
        style_run_bytes: Ok(96),
        sizes: sizes(),
        boundaries: Ok(hello_boundaries(0.)),
    }
}

fn on_first_line(inline_end: f32) -> TextPlacementFacts {
    TextPlacementFacts {
        next_line_block: Ok(px(14.)),
        inline_offset: Ok(px(inline_end)),
        line_block_extent: Ok(px(14.)),
        block_offset: Ok(px(0.)),
        metrics: StreamingPlacementMetrics {
            inline_offset: PixelClass::Positive,
            block_offset: PixelClass::Zero,
            line_block_extent: PixelClass::Positive,
            line_block_extent_to_line_height: PixelOrdering::Equal,
        },
    }
}

fn map_bytes() -> usize {
    std::mem::size_of::<StreamingLayoutMap>()
}

fn inline_metrics() -> StreamingInlineMetrics {
    StreamingInlineMetrics {
        width: PixelClass::Positive,
        height: PixelClass::Positive,
        baseline: PixelClass::Positive,
        baseline_to_height: PixelOrdering::Less,
    }
}

fn shaped_inline() -> ShapedInlineFacts {
    ShapedInlineFacts {
        layout_metrics: Ok(()),
        decorations: Ok(1),
        shaped_runs: 1,
        glyphs: Ok(1),
        baseline_to_ascent: PixelOrdering::Greater,
        descent_end_to_height: Ok(PixelOrdering::Less),
        sizes: sizes(),
    }
}

fn wrapping_placement() -> InlinePlacementFacts {
    InlinePlacementFacts {
        proposed_to_wrap_width: Ok(PixelOrdering::Greater),
        next_line_block: Ok(px(14.)),
        inline_end: Ok(px(70.)),
        line_block_extent: px(20.),
        metrics: StreamingPlacementMetrics {
            inline_offset: PixelClass::Positive,
            block_offset: PixelClass::Positive,
            line_block_extent: PixelClass::Positive,
            line_block_extent_to_line_height: PixelOrdering::Greater,
        },
    }
}

#[test]
fn a_shaped_segment_is_admitted_with_its_exact_charges() {
    let text_system = WindowTextSystem::new(1);
    let mut session = session(&text_system, limits());
    let admission = session.admit_shaped_text(hello(0, 4), shaped_hello(4, 0, false), on_first_line(30.)).unwrap();
    let continuation = admission.continuation;
    assert_eq!(continuation.next_ordinal, 1);
    assert_eq!(continuation.next_position, pos(9));
    assert_eq!(continuation.inline_offset, px(30.));
    assert!(continuation.line_has_content);
    assert_eq!(continuation.visual_lines, 0);
    assert_eq!(session.continuation(), Some(continuation));
    assert_eq!(admission.fragments.len(), 1);
    match &admission.fragments[0] {
        StreamingLayoutFragment::Text(fragment) => {
            assert_eq!(fragment.logical_range(), pos(4)..pos(9));
            assert_eq!(fragment.text(), "hello");
            assert_eq!(fragment.origin(), Point { x: px(0.), y: px(0.) });
            assert_eq!(fragment.maps().to_vec(), hello_maps(4, 0.));
        },
        _ => panic!("expected a text fragment"),
    }
    let items = admission.item_charge;
    assert_eq!(items.text_payloads, 1);
    assert_eq!(items.style_runs, 2);
    assert_eq!(items.shaped_runs, 1);
    assert_eq!(items.glyphs, 5);
    assert_eq!(items.decorations, 1);
    assert_eq!(items.wrap_facts, 0);
    assert_eq!(items.maps, 6);
    assert_eq!(items.positions, 9);
    assert_eq!(items.gap_witnesses, 9);
    assert_eq!(items.object_ids, 0);
    assert_eq!(items.fragments, 1);
    assert_eq!(items.continuations, 1);
    let charge = admission.charge;
    assert_eq!(charge.segment_text, 5);
    assert_eq!(charge.runs, 96);
    assert_eq!(charge.decorations, 40);
    assert_eq!(charge.glyphs, 32 + 5 * 24);
    assert_eq!(charge.wrap_facts, 0);
    assert_eq!(charge.maps, 6 * map_bytes());
    assert_eq!(charge.objects, 0);
    assert_eq!(charge.continuation, std::mem::size_of::<gpui_bounded::session::StreamingLayoutContinuation>());
}

#[test]
fn retained_item_caps_accept_an_exact_fit_and_reject_one_under_it() {
    let text_system = WindowTextSystem::new(1);
    let mut probe = session(&text_system, limits());
    let total = probe
        .admit_shaped_text(hello(0, 4), shaped_hello(4, 0, false), on_first_line(30.))
        .unwrap()
        .item_charge
        .total()
        .unwrap();
    let mut exact = session(&text_system, StreamingLayoutLimits { retained_items: total, ..limits() });
    assert!(exact.admit_shaped_text(hello(0, 4), shaped_hello(4, 0, false), on_first_line(30.)).is_ok());
    let mut under = session(&text_system, StreamingLayoutLimits { retained_items: total - 1, ..limits() });
    let before = under.continuation();
    assert_eq!(
        under.admit_shaped_text(hello(0, 4), shaped_hello(4, 0, false), on_first_line(30.)).unwrap_err(),
        StreamingLayoutError::CapacityExceeded(StreamingLayoutComponent::Total)
    );
    assert_eq!(under.continuation(), before);
}

#[test]
fn rejected_segments_leave_the_continuation_untouched() {
    let text_system = WindowTextSystem::new(1);
    let mut session = session(&text_system, StreamingLayoutLimits { glyphs: 4, ..limits() });
    let before = session.continuation();
    assert_eq!(
        session.admit_shaped_text(hello(0, 4), shaped_hello(4, 0, false), on_first_line(30.)).unwrap_err(),
        StreamingLayoutError::CapacityExceeded(StreamingLayoutComponent::Glyphs)
    );
    assert_eq!(session.continuation(), before);
    assert_eq!(
        session.admit_shaped_text(hello(1, 4), shaped_hello(4, 0, false), on_first_line(30.)).unwrap_err(),
        StreamingLayoutError::OutOfOrder
    );
    let mut roomy = self::session(&text_system, limits());
    let fresh = roomy.continuation();
    let mut broken = shaped_hello(4, 0, false);
    broken.boundaries = Err(StreamingLayoutError::InvalidSegment);
    assert_eq!(
        roomy.admit_shaped_text(hello(0, 4), broken, on_first_line(30.)).unwrap_err(),
        StreamingLayoutError::InvalidSegment
    );
    assert_eq!(roomy.continuation(), fresh);
}

#[test]
fn a_leading_wrap_moves_a_segment_to_the_next_visual_line() {
    let text_system = WindowTextSystem::new(1);
    let mut session = session(&text_system, limits());
    session.admit_shaped_text(hello(0, 4), shaped_hello(4, 0, false), on_first_line(60.)).unwrap();
    let mut placement = on_first_line(30.);
    placement.block_offset = Ok(px(14.));
    placement.metrics.block_offset = PixelClass::Positive;
    let admission = session.admit_shaped_text(hello(1, 9), shaped_hello(9, 1, true), placement).unwrap();
    assert_eq!(admission.continuation.visual_lines, 1);
    assert_eq!(admission.continuation.block_offset, px(14.));
    assert_eq!(admission.item_charge.wrap_facts, 0);
    match &admission.fragments[0] {
        StreamingLayoutFragment::Text(fragment) => {
            assert_eq!(fragment.origin(), Point { x: px(0.), y: px(14.) })
        },
        _ => panic!("expected a text fragment"),
    }
}

#[test]
fn an_oversize_atom_wraps_after_content_and_is_charged_exactly() {
    let text_system = WindowTextSystem::new(1);
    let mut session = session(&text_system, limits());
    session.admit_shaped_text(hello(0, 4), shaped_hello(4, 0, false), on_first_line(60.)).unwrap();
    let atom = StreamingOversizeAtom {
        input_id: 7,
        segment_policy_id: 11,
        ordinal: 1,
        logical_range: pos(9)..pos(900),
        presentation: "[…]".to_string(),
        run_lengths: vec![5],
        width: px(70.),
        height: px(20.),
        baseline: px(15.),
    };
    let admission = session
        .admit_shaped_oversize_atom(atom, inline_metrics(), shaped_inline(), wrapping_placement())
        .unwrap();
    let continuation = admission.continuation;
    assert_eq!(continuation.next_position, pos(900));
    assert_eq!(continuation.visual_lines, 1);
    assert_eq!(continuation.inline_offset, px(70.));
    assert_eq!(continuation.block_offset, px(14.));
    assert_eq!(continuation.line_block_extent, px(20.));
    match &admission.fragments[0] {
        StreamingLayoutFragment::OversizeAtom(fragment) => {
            assert_eq!(fragment.bounds.origin, Point { x: px(0.), y: px(14.) });
            assert_eq!(fragment.maps()[1].position, Point { x: px(70.), y: px(14.) });
            assert_eq!(fragment.maps()[1].logical_position, pos(900));
        },
        _ => panic!("expected an atom fragment"),
    }
    assert_eq!(admission.charge.maps, 2 * map_bytes());
    assert_eq!(admission.charge.glyphs, 32 + 24);
    assert_eq!(admission.charge.objects, 0);
    assert_eq!(admission.item_charge.maps, 2);
    assert_eq!(admission.item_charge.positions, 5);
    assert_eq!(admission.item_charge.text_payloads, 1);
}

#[test]
fn an_inline_presentation_whose_ascent_rises_above_its_baseline_is_rejected() {
    let text_system = WindowTextSystem::new(1);
    let mut session = session(&text_system, limits());
    let before = session.continuation();
    let atom = StreamingOversizeAtom {
        input_id: 7,
        segment_policy_id: 11,
        ordinal: 0,
        logical_range: pos(4)..pos(90),
        presentation: "…".to_string(),
        run_lengths: vec![3],
        width: px(10.),
        height: px(20.),
        baseline: px(15.),
    };
    let shaped = ShapedInlineFacts { baseline_to_ascent: PixelOrdering::Less, ..shaped_inline() };
    assert_eq!(
        session.admit_shaped_oversize_atom(atom, inline_metrics(), shaped, wrapping_placement()).unwrap_err(),
        StreamingLayoutError::InvalidMetric(StreamingLayoutMetric::AtomBaseline)
    );
    assert_eq!(session.continuation(), before);
}

#[test]
fn an_inline_object_is_admitted_between_its_gaps_and_counts_its_identity() {
    let text_system = WindowTextSystem::new(1);
    let mut session = session(&text_system, limits());
    let id = StreamingObjectId(5);
    let order = StreamingObjectOrder(7);
    let leading = StreamingLayoutPosition::with_gap(9, StreamingObjectGap::before(id, order));
    let trailing = StreamingLayoutPosition::with_gap(9, StreamingObjectGap::after(id, order));
    let segment = StreamingTextSegment { logical_range: pos(4)..leading, ..hello(0, 4) };
    let shaped = shaped_hello(4, 0, false);
    session.admit_shaped_text(segment, shaped, on_first_line(30.)).unwrap();
    let object = StreamingInlineObject {
        input_id: 7,
        segment_policy_id: 11,
        ordinal: 1,
        id,
        order,
        leading,
        trailing,
        presentation: String::new(),
        run_lengths: vec![],
        width: px(12.),
        height: px(14.),
        baseline: px(10.),
    };
    let placement = InlinePlacementFacts {
        proposed_to_wrap_width: Ok(PixelOrdering::Less),
        inline_end: Ok(px(42.)),
        line_block_extent: px(14.),
        metrics: StreamingPlacementMetrics {
            inline_offset: PixelClass::Positive,
            block_offset: PixelClass::Zero,
            line_block_extent: PixelClass::Positive,
            line_block_extent_to_line_height: PixelOrdering::Equal,
        },
        ..wrapping_placement()
    };
    let admission = session
        .admit_shaped_inline_object(object, inline_metrics(), shaped_inline(), placement)
        .unwrap();
    assert_eq!(admission.continuation.next_position, trailing);
    assert_eq!(admission.continuation.visual_lines, 0);
    assert_eq!(admission.continuation.inline_offset, px(42.));
    match &admission.fragments[0] {
        StreamingLayoutFragment::InlineObject(fragment) => {
            assert_eq!(fragment.id, id);
            assert_eq!(fragment.bounds.origin, Point { x: px(30.), y: px(0.) });
        },
        _ => panic!("expected an object fragment"),
    }
    // leading and trailing each name the object once, twice over, plus the next position and
    // the object's own identity.
    assert_eq!(admission.item_charge.object_ids, 6);
    assert_eq!(
        admission.charge.objects,
        std::mem::size_of::<StreamingObjectId>() + std::mem::size_of::<StreamingObjectOrder>()
            + 2 * std::mem::size_of::<StreamingLayoutPosition>()
    );
}

#[test]
fn segment_maps_are_built_from_boundaries_that_reach_the_segment_end() {
    let text_system = WindowTextSystem::new(1);
    let mut session = session(&text_system, limits());
    let before = session.continuation();
    let mut short = shaped_hello(4, 0, false);
    short.boundaries = Ok(hello_boundaries(0.)[..5].to_vec());
    assert_eq!(
        session.admit_shaped_text(hello(0, 4), short, on_first_line(30.)).unwrap_err(),
        StreamingLayoutError::InvalidSegment
    );
    let mut unplaced = shaped_hello(4, 0, false);
    let mut boundaries = hello_boundaries(0.);
    boundaries[2].1 = None;
    unplaced.boundaries = Ok(boundaries);
    assert_eq!(
        session.admit_shaped_text(hello(0, 4), unplaced, on_first_line(30.)).unwrap_err(),
        StreamingLayoutError::InvalidSegment
    );
    assert_eq!(session.continuation(), before);
    let mut ligature = shaped_hello(4, 0, false);
    ligature.boundaries = Ok(vec![
        (0, Some(Point { x: px(0.), y: px(0.) })),
        (3, Some(Point { x: px(12.), y: px(0.) })),
        (5, Some(Point { x: px(30.), y: px(0.) })),
    ]);
    let admission = session.admit_shaped_text(hello(0, 4), ligature, on_first_line(30.)).unwrap();
    match &admission.fragments[0] {
        StreamingLayoutFragment::Text(fragment) => {
            let positions: Vec<_> = fragment.maps().iter().map(|map| map.logical_position).collect();
            assert_eq!(positions, vec![pos(4), pos(7), pos(9)]);
        },
        _ => panic!("expected a text fragment"),
    }
    assert_eq!(admission.item_charge.maps, 3);
}

#[test]
fn boundary_indices_are_the_ascending_glyph_indices_and_the_line_end() {
    let runs = vec![vec![4, 0, 2], vec![2, 7]];
    assert_eq!(text_boundary_indices(&runs, 9), vec![0, 2, 4, 7, 9]);
    assert_eq!(text_boundary_indices(&vec![], 3), vec![3]);
    assert_eq!(text_boundary_indices(&vec![vec![0, 3]], 3), vec![0, 3]);
}

#[test]
fn text_maps_place_each_boundary_at_its_composite_position() {
    let end = StreamingLayoutPosition::with_gap(
        14,
        StreamingObjectGap::before(StreamingObjectId(1), StreamingObjectOrder(1)),
    );
    let point = |x: f32| Some(Point { x: px(x), y: px(0.) });
    let maps = text_maps(&(pos(10)..end), 4, &vec![(0, point(0.)), (2, point(5.)), (4, point(9.))]).unwrap();
    assert_eq!(maps.iter().map(|map| map.logical_position).collect::<Vec<_>>(), vec![pos(10), pos(12), end]);
    assert_eq!(maps[1].position, Point { x: px(5.), y: px(0.) });
    assert_eq!(
        text_maps(&(pos(10)..end), 4, &vec![(0, point(0.)), (4, None)]),
        Err(StreamingLayoutError::InvalidSegment)
    );
    assert_eq!(
        text_maps(&(pos(u64::MAX - 1)..pos(u64::MAX)), 4, &vec![(0, point(0.)), (4, point(1.))]),
        Err(StreamingLayoutError::Overflow(StreamingLayoutComponent::Maps))
    );
}
