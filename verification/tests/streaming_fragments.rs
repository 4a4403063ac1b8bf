use gpui_bounded::charge::{StreamingLayoutCharge, StreamingLayoutItemCharge};
use gpui_bounded::error::{StreamingLayoutComponent, StreamingLayoutError, StreamingLayoutMetric};
use gpui_bounded::fragments::{
    item_charge_atom, item_charge_object, item_charge_text, StreamingAtomFragment,
    StreamingHitFacts, StreamingObjectFragment, StreamingTextFragment,
};
use gpui_bounded::geometry::{Bounds, PixelClass, PixelOrdering, Pixels, Point, Size};
use gpui_bounded::position::{
    StreamingLayoutPosition, StreamingObjectGap, StreamingObjectId, StreamingObjectOrder,
};
use gpui_bounded::session::{
    StreamingBindingMetrics, StreamingLayoutBinding, StreamingLayoutFragment, StreamingLayoutHit,
    StreamingLayoutLimits, StreamingLayoutMap, WindowTextSystem,
};

fn px(value: f32) -> Pixels {
    Pixels(value.to_bits())
}

fn pos(byte_offset: u64) -> StreamingLayoutPosition {
    StreamingLayoutPosition::at(byte_offset)
}

fn map(position: StreamingLayoutPosition, x: f32) -> StreamingLayoutMap {
    StreamingLayoutMap { logical_position: position, position: Point { x: px(x), y: px(0.) } }
}

fn bounds() -> Bounds<Pixels> {
    Bounds { origin: Point { x: px(10.), y: px(0.) }, size: Size { width: px(20.), height: px(14.) } }
}

fn inside() -> StreamingHitFacts {
    StreamingHitFacts {
        point_finite: true,
        right: PixelClass::Positive,
        bottom: PixelClass::Positive,
        y_to_top: PixelOrdering::Greater,
        x_to_left: PixelOrdering::Greater,
        y_to_bottom: PixelOrdering::Less,
        x_to_right: PixelOrdering::Less,
    }
}

fn atom() -> StreamingAtomFragment {
    StreamingAtomFragment::new(pos(4)..pos(9), "…".to_string(), bounds(), px(10.), [map(pos(4), 10.), map(pos(9), 30.)])
}

fn object() -> StreamingObjectFragment {
    let id = StreamingObjectId(5);
    let order = StreamingObjectOrder(7);
    let leading = StreamingLayoutPosition::with_gap(4, StreamingObjectGap::before(id, order));
    let trailing = StreamingLayoutPosition::with_gap(4, StreamingObjectGap::after(id, order));
    StreamingObjectFragment::new(id, order, leading, trailing, "[o]".to_string(), bounds(), px(10.), [
        map(leading, 10.),
        map(trailing, 30.),
    ])
}

#[test]
fn atoms_own_their_leading_boundary_and_split_hits_at_the_midpoint() {
    let atom = atom();
    assert_eq!(atom.position_for_logical_position(pos(4)), Some(Point { x: px(10.), y: px(0.) }));
    assert_eq!(atom.position_for_logical_position(pos(9)), None);
    assert_eq!(atom.baseline(), px(10.));
    assert_eq!(
        atom.closest_logical_position_for_position(inside(), PixelClass::Positive, PixelOrdering::Less),
        Ok(Some(StreamingLayoutHit::Gap(pos(4))))
    );
    assert_eq!(
        atom.closest_logical_position_for_position(inside(), PixelClass::Positive, PixelOrdering::Equal),
        Ok(None)
    );
    let below = StreamingHitFacts { y_to_bottom: PixelOrdering::Equal, ..inside() };
    assert_eq!(atom.closest_logical_position_for_position(below, PixelClass::Positive, PixelOrdering::Less), Ok(None));
    let non_finite = StreamingHitFacts { point_finite: false, ..inside() };
    assert_eq!(
        atom.closest_logical_position_for_position(non_finite, PixelClass::Positive, PixelOrdering::Less),
        Err(StreamingLayoutError::InvalidMetric(StreamingLayoutMetric::HitPosition))
    );
    let overflowed = StreamingHitFacts { right: PixelClass::NonFinite, ..inside() };
    assert_eq!(
        atom.closest_logical_position_for_position(overflowed, PixelClass::Positive, PixelOrdering::Less),
        Err(StreamingLayoutError::Overflow(StreamingLayoutComponent::Maps))
    );
}

#[test]
fn objects_own_their_leading_gap_and_their_interior() {
    let object = object();
    assert_eq!(object.position_for_logical_position(object.leading), Some(Point { x: px(10.), y: px(0.) }));
    assert_eq!(object.position_for_logical_position(object.trailing), None);
    assert_eq!(object.closest_logical_position_for_position(inside()), Ok(Some(StreamingLayoutHit::Object(object.id))));
    let left_edge = StreamingHitFacts { x_to_left: PixelOrdering::Equal, ..inside() };
    assert_eq!(object.closest_logical_position_for_position(left_edge), Ok(Some(StreamingLayoutHit::Gap(object.leading))));
    let right_edge = StreamingHitFacts { x_to_right: PixelOrdering::Equal, ..inside() };
    assert_eq!(object.closest_logical_position_for_position(right_edge), Ok(None));
    let above = StreamingHitFacts { y_to_top: PixelOrdering::Less, ..inside() };
    assert_eq!(object.closest_logical_position_for_position(above), Ok(None));
}

#[test]
fn text_fragments_map_positions_to_line_indices_and_back() {
    let maps = vec![map(pos(4), 0.), map(pos(5), 6.), map(pos(8), 24.)];
    let fragment = StreamingTextFragment::new(pos(4)..pos(8), "abcd".to_string(), Point { x: px(0.), y: px(0.) }, px(0.), px(14.), px(14.), maps);
    assert_eq!(fragment.logical_range(), pos(4)..pos(8));
    assert_eq!(fragment.maps().len(), 3);
    assert_eq!(fragment.layout_index_for_logical_position(pos(4)), Ok(Some(0)));
    assert_eq!(fragment.layout_index_for_logical_position(pos(6)), Ok(Some(2)));
    assert_eq!(fragment.layout_index_for_logical_position(pos(8)), Ok(None));
    assert_eq!(fragment.layout_index_for_logical_position(pos(3)), Ok(None));
    let broken = StreamingLayoutPosition::with_gap(
        6,
        StreamingObjectGap::between(StreamingObjectId(1), StreamingObjectOrder(2), StreamingObjectId(1), StreamingObjectOrder(3)),
    );
    assert_eq!(fragment.layout_index_for_logical_position(broken), Err(StreamingLayoutError::InvalidPosition));
    assert_eq!(fragment.hit_for_layout_index(0), Ok(Some(StreamingLayoutHit::Gap(pos(4)))));
    assert_eq!(fragment.hit_for_layout_index(3), Ok(Some(StreamingLayoutHit::Gap(pos(7)))));
    assert_eq!(fragment.hit_for_layout_index(4), Ok(None));
    assert_eq!(
        fragment.hit_for_layout_index(usize::MAX),
        Err(StreamingLayoutError::Overflow(StreamingLayoutComponent::Maps))
    );
}

#[test]
fn item_charges_count_positions_and_object_facts() {
    let text_system = WindowTextSystem::new(1);
    let session = text_system
        .streaming_layout_session(
            StreamingLayoutBinding {
                input_id: 7,
                segment_policy_id: 11,
                start_position: pos(4),
                wrap_width: px(80.),
                font_size: px(10.),
                line_height: px(14.),
                limits: StreamingLayoutLimits {
                    segment_bytes: 256,
                    runs: 16,
                    decorations: 16,
                    glyphs: 256,
                    wraps: 64,
                    maps: 257,
                    fragments: 1,
                    retained_items: 4096,
                    retained_bytes: 128 * 1024,
                },
            },
            StreamingBindingMetrics {
                wrap_width: PixelClass::Positive,
                font_size: PixelClass::Positive,
                line_height: PixelClass::Positive,
            },
        )
        .unwrap();
    let continuation = session.continuation().unwrap();
    let atom_items = item_charge_atom(&atom(), continuation, 1, 3, 1).unwrap();
    assert_eq!(atom_items.positions, 5);
    assert_eq!(atom_items.object_ids, 0);
    assert_eq!(atom_items.glyphs, 3);
    let object_items = item_charge_object(&object(), continuation, 1, 3, 1).unwrap();
    assert_eq!(object_items.positions, 5);
    assert_eq!(object_items.object_ids, 5);
    assert_eq!(object_items.maps, 2);
    let maps = vec![map(pos(4), 0.), map(pos(8), 24.)];
    let fragment = StreamingTextFragment::new(pos(4)..pos(8), "abcd".to_string(), Point { x: px(0.), y: px(0.) }, px(0.), px(14.), px(14.), maps);
    let text_items = item_charge_text(&fragment, continuation, 2, 1, 4, 1, 0).unwrap();
    assert_eq!(text_items.positions, 5);
    assert_eq!(text_items.maps, 2);
    assert_eq!(text_items.style_runs, 2);
    assert_eq!(text_items.text_payloads, 1);
}

#[test]
fn finished_admissions_commit_only_when_they_fit() {
    let text_system = WindowTextSystem::new(1);
    let mut session = text_system
        .streaming_layout_session(
            StreamingLayoutBinding {
                input_id: 7,
                segment_policy_id: 11,
                start_position: pos(4),
                wrap_width: px(80.),
                font_size: px(10.),
                line_height: px(14.),
                limits: StreamingLayoutLimits {
                    segment_bytes: 256,
                    runs: 16,
                    decorations: 16,
                    glyphs: 256,
                    wraps: 64,
                    maps: 257,
                    fragments: 1,
                    retained_items: 10,
                    retained_bytes: 128 * 1024,
                },
            },
            StreamingBindingMetrics {
                wrap_width: PixelClass::Positive,
                font_size: PixelClass::Positive,
                line_height: PixelClass::Positive,
            },
        )
        .unwrap();
    let prior = session.continuation().unwrap();
    let metrics = session.placement_metrics();
    let mut next = prior;
    next.next_ordinal = 1;
    next.next_position = pos(9);
    next.line_has_content = true;
    next.inline_offset = px(30.);
    let placed = gpui_bounded::session::StreamingPlacementMetrics { inline_offset: PixelClass::Positive, ..metrics };
    let items = item_charge_atom(&atom(), next, 1, 3, 1).unwrap();
    let rejected = session.finish_admission(
        StreamingLayoutFragment::OversizeAtom(atom()),
        next,
        placed,
        StreamingLayoutCharge::zero(),
        items,
    );
    assert_eq!(rejected.unwrap_err(), StreamingLayoutError::CapacityExceeded(StreamingLayoutComponent::Total));
    assert_eq!(session.continuation(), Some(prior));
    let admitted = session
        .finish_admission(StreamingLayoutFragment::OversizeAtom(atom()), next, placed, StreamingLayoutCharge::zero(), StreamingLayoutItemCharge::zero())
        .unwrap();
    assert_eq!(admitted.continuation, next);
    assert!(matches!(admitted.fragments[0], StreamingLayoutFragment::OversizeAtom(_)));
    assert_eq!(session.continuation(), Some(next));
}

#[test]
fn text_hits_beyond_the_fragment_end_are_not_owned() {
    let maps = vec![map(pos(4), 0.), map(pos(7), 18.)];
    let fragment = StreamingTextFragment::new(pos(4)..pos(7), "abc".to_string(), Point { x: px(0.), y: px(0.) }, px(0.), px(14.), px(14.), maps);
    assert_eq!(fragment.hit_for_layout_index(2), Ok(Some(StreamingLayoutHit::Gap(pos(6)))));
    assert_eq!(fragment.hit_for_layout_index(3), Ok(None));
    assert_eq!(fragment.hit_for_layout_index(6), Ok(None));
}

fn text_hit(index: usize) -> gpui_bounded::fragments::TextHitFacts {
    gpui_bounded::fragments::TextHitFacts {
        point_finite: true,
        at_start: false,
        at_end: false,
        start_block_end: PixelClass::Positive,
        y_to_start: PixelOrdering::Greater,
        y_to_start_block_end: PixelOrdering::Less,
        x_to_start: PixelOrdering::Greater,
        end_block_end: PixelClass::Positive,
        y_to_end: PixelOrdering::Greater,
        y_to_end_block_end: PixelOrdering::Less,
        x_to_end: PixelOrdering::Less,
        y_to_origin: PixelOrdering::Greater,
        block_end: PixelClass::Positive,
        y_to_block_end: PixelOrdering::Less,
        line_point: Ok(()),
        index,
    }
}

#[test]
fn text_points_resolve_through_their_closest_line_index() {
    let maps = vec![map(pos(4), 0.), map(pos(7), 18.)];
    let fragment = StreamingTextFragment::new(pos(4)..pos(7), "abc".to_string(), Point { x: px(0.), y: px(0.) }, px(0.), px(14.), px(14.), maps);
    assert_eq!(fragment.text(), "abc");
    assert_eq!(fragment.closest_logical_position_for_position(text_hit(1)), Ok(Some(StreamingLayoutHit::Gap(pos(5)))));
    let start = gpui_bounded::fragments::TextHitFacts { at_start: true, ..text_hit(2) };
    assert_eq!(fragment.closest_logical_position_for_position(start), Ok(Some(StreamingLayoutHit::Gap(pos(4)))));
    let end = gpui_bounded::fragments::TextHitFacts { at_end: true, ..text_hit(1) };
    assert_eq!(fragment.closest_logical_position_for_position(end), Ok(None));
    let after_end = gpui_bounded::fragments::TextHitFacts { x_to_end: PixelOrdering::Greater, ..text_hit(1) };
    assert_eq!(fragment.closest_logical_position_for_position(after_end), Ok(None));
    let below = gpui_bounded::fragments::TextHitFacts { y_to_block_end: PixelOrdering::Equal, ..text_hit(1) };
    assert_eq!(fragment.closest_logical_position_for_position(below), Ok(None));
    let non_finite = gpui_bounded::fragments::TextHitFacts { point_finite: false, ..text_hit(1) };
    assert_eq!(
        fragment.closest_logical_position_for_position(non_finite),
        Err(StreamingLayoutError::InvalidMetric(StreamingLayoutMetric::HitPosition))
    );
    let overflowed = gpui_bounded::fragments::TextHitFacts { block_end: PixelClass::NonFinite, ..text_hit(1) };
    assert_eq!(
        fragment.closest_logical_position_for_position(overflowed),
        Err(StreamingLayoutError::Overflow(StreamingLayoutComponent::Maps))
    );
}
