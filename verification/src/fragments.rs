use vstd::prelude::*;
use std::ops::Range;
use crate::charge::{positions_object_edges, position_facts, StreamingLayoutItemCharge};
use crate::checked::checked_add;
use crate::error::{StreamingLayoutComponent, StreamingLayoutError, StreamingLayoutMetric};
use crate::geometry::{Bounds, PixelClass, PixelOrdering, Pixels, Point};
use crate::position::{StreamingLayoutPosition, StreamingObjectEdge, StreamingObjectGap, StreamingObjectId, StreamingObjectOrder};
use crate::session::{StreamingLayoutContinuation, StreamingLayoutHit, StreamingLayoutMap};

verus! {

/// How a hit-test point compares with one fragment's rectangle: whether the point is finite,
/// the classes of the rectangle's right and bottom edges (origin plus extent), and the orderings
/// of the point's coordinates against the rectangle's edges.
#[derive(Clone, Copy, Debug, PartialEq, Eq, Structural)]
pub struct StreamingHitFacts {
    /// Both coordinates of the point are finite.
    pub point_finite: bool,
    /// Class of the right edge.
    pub right: PixelClass,
    /// Class of the bottom edge.
    pub bottom: PixelClass,
    /// The point's vertical coordinate against the top edge.
    pub y_to_top: PixelOrdering,
    /// The point's horizontal coordinate against the left edge.
    pub x_to_left: PixelOrdering,
    /// The point's vertical coordinate against the bottom edge.
    pub y_to_bottom: PixelOrdering,
    /// The point's horizontal coordinate against the right edge.
    pub x_to_right: PixelOrdering,
}

/// Outcome of hit-testing a rectangle before its interior is resolved: `Err` for an invalid
/// point or edge, `Ok(false)` for a point outside the rectangle (above, left, at or below the
/// bottom, or right of it), `Ok(true)` for a point within it.
pub open spec fn rectangle_hit(facts: StreamingHitFacts) -> Result<bool, StreamingLayoutError> {
    if !facts.point_finite {
        Err(StreamingLayoutError::InvalidMetric(StreamingLayoutMetric::HitPosition))
    } else if !facts.right.is_nonnegative() || !facts.bottom.is_nonnegative() {
        Err(StreamingLayoutError::Overflow(StreamingLayoutComponent::Maps))
    } else if facts.y_to_top is Less || facts.x_to_left is Less {
        Ok(false)
    } else if facts.y_to_bottom is Greater || facts.y_to_bottom is Equal || facts.x_to_right is Greater {
        Ok(false)
    } else {
        Ok(true)
    }
}

/// A rectangle owns only points within it: a hit point is finite, on or right of the left edge,
/// on or below the top edge, not right of the right edge and not on or below the bottom edge;
/// with a finite point and edges, a point right of the right edge, left of the left edge, above
/// the top edge or on or below the bottom edge is not owned.
pub proof fn lemma_rectangle_hits_lie_within(facts: StreamingHitFacts)
    ensures
        rectangle_hit(facts) == Ok::<bool, StreamingLayoutError>(true) ==> {
            &&& facts.point_finite
            &&& !(facts.x_to_right is Greater)
            &&& !(facts.x_to_left is Less)
            &&& !(facts.y_to_top is Less)
            &&& !(facts.y_to_bottom is Greater)
            &&& !(facts.y_to_bottom is Equal)
        },
        facts.point_finite && facts.right.is_nonnegative() && facts.bottom.is_nonnegative() && (
        facts.x_to_right is Greater || facts.x_to_left is Less || facts.y_to_top is Less
            || facts.y_to_bottom is Greater || facts.y_to_bottom is Equal) ==> rectangle_hit(facts)
            == Ok::<bool, StreamingLayoutError>(false),
{
}

fn check_rectangle_hit(facts: StreamingHitFacts) -> (result: Result<bool, StreamingLayoutError>)
    ensures
        result == rectangle_hit(facts),
{
    if !facts.point_finite {
        return Err(StreamingLayoutError::InvalidMetric(StreamingLayoutMetric::HitPosition));
    }
    if !matches!(facts.right, PixelClass::Zero | PixelClass::Positive) || !matches!(
        facts.bottom,
        PixelClass::Zero | PixelClass::Positive
    ) {
        return Err(StreamingLayoutError::Overflow(StreamingLayoutComponent::Maps));
    }
    if facts.y_to_top == PixelOrdering::Less || facts.x_to_left == PixelOrdering::Less {
        return Ok(false);
    }
    if facts.y_to_bottom == PixelOrdering::Greater || facts.y_to_bottom == PixelOrdering::Equal
        || facts.x_to_right == PixelOrdering::Greater {
        return Ok(false);
    }
    Ok(true)
}

/// Immutable geometry and bounded presentation for one oversize atom.
#[derive(Debug)]
pub struct StreamingAtomFragment {
    /// Exact consumer logical range represented without source bytes.
    pub logical_range: Range<StreamingLayoutPosition>,
    /// Bounded presentation placeholder.
    pub presentation: String,
    /// Exact bounds relative to the streaming session origin.
    pub bounds: Bounds<Pixels>,
    baseline: Pixels,
    maps: [StreamingLayoutMap; 2],
}

impl StreamingAtomFragment {
    /// The atom's logical range.
    pub closed spec fn atom_range(&self) -> Range<StreamingLayoutPosition> {
        self.logical_range
    }

    /// The atom's bounds.
    pub closed spec fn atom_bounds(&self) -> Bounds<Pixels> {
        self.bounds
    }

    /// The atom's presentation.
    pub closed spec fn atom_presentation(&self) -> Seq<char> {
        self.presentation@
    }

    /// The caret maps at the atom's start and end.
    pub closed spec fn atom_maps(&self) -> [StreamingLayoutMap; 2] {
        self.maps
    }

    /// The baseline offset from the atom's top edge.
    pub closed spec fn atom_baseline(&self) -> Pixels {
        self.baseline
    }

    /// An atom fragment with the given geometry and caret maps.
    pub fn new(
        logical_range: Range<StreamingLayoutPosition>,
        presentation: String,
        bounds: Bounds<Pixels>,
        baseline: Pixels,
        maps: [StreamingLayoutMap; 2],
    ) -> (fragment: Self)
        ensures
            fragment.atom_range() == logical_range,
            fragment.atom_presentation() == presentation@,
            fragment.atom_bounds() == bounds,
            fragment.atom_baseline() == baseline,
            fragment.atom_maps() == maps,
    {
        StreamingAtomFragment { logical_range, presentation, bounds, baseline, maps }
    }

    /// Exact hit-test/caret facts at the atom's logical boundaries.
    pub fn maps(&self) -> (maps: &[StreamingLayoutMap; 2])
        ensures
            *maps == self.atom_maps(),
    {
        &self.maps
    }

    /// Baseline offset from the atom's top edge.
    pub fn baseline(&self) -> (baseline: Pixels)
        ensures
            baseline == self.atom_baseline(),
    {
        self.baseline
    }

    /// The caret position of the atom's owned leading boundary; no other position is owned.
    pub fn position_for_logical_position(&self, position: StreamingLayoutPosition) -> (result:
        Option<Point<Pixels>>)
        ensures
            result == (if position == self.atom_range().start {
                Some(self.atom_maps()[0].position)
            } else {
                None
            }),
    {
        if position == self.logical_range.start {
            Some(self.maps[0].position)
        } else {
            None
        }
    }

    /// Hit-tests the atom: a point within it and left of its midpoint (`midpoint` is the class
    /// of left plus half the width, `x_to_midpoint` the point's horizontal coordinate against
    /// it) is the atom's leading gap; elsewhere nothing is owned.
    pub fn closest_logical_position_for_position(
        &self,
        facts: StreamingHitFacts,
        midpoint: PixelClass,
        x_to_midpoint: PixelOrdering,
    ) -> (result: Result<Option<StreamingLayoutHit>, StreamingLayoutError>)
        ensures
            result == match rectangle_hit(facts) {
                Err(error) => Err(error),
                Ok(false) => Ok(None),
                Ok(true) => if !midpoint.is_nonnegative() {
                    Err(StreamingLayoutError::Overflow(StreamingLayoutComponent::Maps))
                } else if x_to_midpoint is Less {
                    Ok(Some(StreamingLayoutHit::Gap(self.atom_range().start)))
                } else {
                    Ok(None)
                },
            },
    {
        match check_rectangle_hit(facts) {
            Err(error) => Err(error),
            Ok(false) => Ok(None),
            Ok(true) => {
                if !matches!(midpoint, PixelClass::Zero | PixelClass::Positive) {
                    Err(StreamingLayoutError::Overflow(StreamingLayoutComponent::Maps))
                } else if x_to_midpoint == PixelOrdering::Less {
                    Ok(Some(StreamingLayoutHit::Gap(self.logical_range.start)))
                } else {
                    Ok(None)
                }
            },
        }
    }
}

/// Immutable geometry and interaction facts for one zero-width object.
#[derive(Debug)]
pub struct StreamingObjectFragment {
    /// Stable opaque identity.
    pub id: StreamingObjectId,
    /// Stable same-anchor order key.
    pub order: StreamingObjectOrder,
    /// Exact leading composite gap.
    pub leading: StreamingLayoutPosition,
    /// Exact trailing composite gap.
    pub trailing: StreamingLayoutPosition,
    /// Bounded presentation placeholder.
    pub presentation: String,
    /// Exact bounds relative to the streaming session origin.
    pub bounds: Bounds<Pixels>,
    baseline: Pixels,
    maps: [StreamingLayoutMap; 2],
}

impl StreamingObjectFragment {
    /// The object's identity.
    pub closed spec fn object_id(&self) -> StreamingObjectId {
        self.id
    }

    /// The object's order key.
    pub closed spec fn object_order(&self) -> StreamingObjectOrder {
        self.order
    }

    /// The object's leading gap.
    pub closed spec fn object_leading(&self) -> StreamingLayoutPosition {
        self.leading
    }

    /// The object's trailing gap.
    pub closed spec fn object_trailing(&self) -> StreamingLayoutPosition {
        self.trailing
    }

    /// The object's bounds.
    pub closed spec fn object_bounds(&self) -> Bounds<Pixels> {
        self.bounds
    }

    /// The object's presentation.
    pub closed spec fn object_presentation(&self) -> Seq<char> {
        self.presentation@
    }

    /// The caret maps at the object's leading and trailing gaps.
    pub closed spec fn object_maps(&self) -> [StreamingLayoutMap; 2] {
        self.maps
    }

    /// The baseline offset from the object's top edge.
    pub closed spec fn object_baseline(&self) -> Pixels {
        self.baseline
    }

    /// An object fragment with the given identity, gaps, geometry and caret maps.
    pub fn new(
        id: StreamingObjectId,
        order: StreamingObjectOrder,
        leading: StreamingLayoutPosition,
        trailing: StreamingLayoutPosition,
        presentation: String,
        bounds: Bounds<Pixels>,
        baseline: Pixels,
        maps: [StreamingLayoutMap; 2],
    ) -> (fragment: Self)
        ensures
            fragment.object_id() == id,
            fragment.object_order() == order,
            fragment.object_leading() == leading,
            fragment.object_trailing() == trailing,
            fragment.object_presentation() == presentation@,
            fragment.object_bounds() == bounds,
            fragment.object_baseline() == baseline,
            fragment.object_maps() == maps,
    {
        StreamingObjectFragment { id, order, leading, trailing, presentation, bounds, baseline, maps }
    }

    /// Exact leading and trailing caret maps.
    pub fn maps(&self) -> (maps: &[StreamingLayoutMap; 2])
        ensures
            *maps == self.object_maps(),
    {
        &self.maps
    }

    /// Baseline offset from the object's top edge.
    pub fn baseline(&self) -> (baseline: Pixels)
        ensures
            baseline == self.object_baseline(),
    {
        self.baseline
    }

    /// The caret position of the object's owned leading gap; no other position is owned.
    pub fn position_for_logical_position(&self, position: StreamingLayoutPosition) -> (result:
        Option<Point<Pixels>>)
        ensures
            result == (if position == self.object_leading() {
                Some(self.object_maps()[0].position)
            } else {
                None
            }),
    {
        if position == self.leading {
            Some(self.maps[0].position)
        } else {
            None
        }
    }

    /// Hit-tests the object: its exact left edge is the leading gap, its exact right edge is not
    /// owned, and any other point within it is the object itself.
    pub fn closest_logical_position_for_position(&self, facts: StreamingHitFacts) -> (result:
        Result<Option<StreamingLayoutHit>, StreamingLayoutError>)
        ensures
            result == match rectangle_hit(facts) {
                Err(error) => Err(error),
                Ok(false) => Ok(None),
                Ok(true) => if facts.x_to_left is Equal {
                    Ok(Some(StreamingLayoutHit::Gap(self.object_leading())))
                } else if facts.x_to_right is Equal {
                    Ok(None)
                } else {
                    Ok(Some(StreamingLayoutHit::Object(self.object_id())))
                },
            },
    {
        match check_rectangle_hit(facts) {
            Err(error) => Err(error),
            Ok(false) => Ok(None),
            Ok(true) => {
                if facts.x_to_left == PixelOrdering::Equal {
                    Ok(Some(StreamingLayoutHit::Gap(self.leading)))
                } else if facts.x_to_right == PixelOrdering::Equal {
                    Ok(None)
                } else {
                    Ok(Some(StreamingLayoutHit::Object(self.id)))
                }
            },
        }
    }
}

/// Immutable geometry of one independently shaped ordinary segment.
#[derive(Debug)]
pub struct StreamingTextFragment {
    logical_range: Range<StreamingLayoutPosition>,
    text: String,
    origin: Point<Pixels>,
    first_line_inline_offset: Pixels,
    line_height: Pixels,
    first_line_block_extent: Pixels,
    maps: Vec<StreamingLayoutMap>,
}

/// The index into a text fragment's shaped line of a composite position: the start is index
/// zero, an object-free position strictly inside the range is its byte distance from the start,
/// and the end and every other position are not owned.
pub open spec fn text_layout_index(
    range: Range<StreamingLayoutPosition>,
    position: StreamingLayoutPosition,
) -> Result<Option<usize>, StreamingLayoutError> {
    if !crate::position::gap_is_valid(position.gap) {
        Err(StreamingLayoutError::InvalidPosition)
    } else if position == range.end {
        Ok(None)
    } else if position == range.start {
        Ok(Some(0))
    } else if position.gap.preceding is NoObject && position.gap.following is NoObject
        && range.start.byte_offset < position.byte_offset < range.end.byte_offset {
        if position.byte_offset - range.start.byte_offset > usize::MAX {
            Err(StreamingLayoutError::Overflow(StreamingLayoutComponent::Maps))
        } else {
            Ok(Some((position.byte_offset - range.start.byte_offset) as usize))
        }
    } else {
        Ok(None)
    }
}

/// The hit owned by a text fragment for the shaped-line index closest to a point: the position
/// that many bytes after the start (the range's own start or end when it falls on them), unless
/// that is the end, which the following fragment owns.
pub open spec fn text_index_hit(range: Range<StreamingLayoutPosition>, index: usize) -> Result<
    Option<StreamingLayoutHit>,
    StreamingLayoutError,
> {
    let byte_offset = range.start.byte_offset + index;
    if byte_offset > u64::MAX {
        Err(StreamingLayoutError::Overflow(StreamingLayoutComponent::Maps))
    } else if byte_offset == range.start.byte_offset {
        if range.start == range.end {
            Ok(None)
        } else {
            Ok(Some(StreamingLayoutHit::Gap(range.start)))
        }
    } else if byte_offset >= range.end.byte_offset {
        Ok(None)
    } else {
        Ok(
            Some(
                StreamingLayoutHit::Gap(
                    StreamingLayoutPosition {
                        byte_offset: byte_offset as u64,
                        gap: StreamingObjectGap {
                            preceding: StreamingObjectEdge::NoObject,
                            following: StreamingObjectEdge::NoObject,
                        },
                    },
                ),
            ),
        )
    }
}

/// How a hit-test point compares with a text fragment's caret geometry: whether it is finite,
/// whether it is exactly the first or the last map's point, the classes of the block ends placement
/// summed (the first map's block plus the first line's extent, the last map's block plus the
/// last line's extent, and the lowest map block plus the last line's extent), the point's
/// orderings against those and against the first and last maps and the fragment's origin, the
/// outcome of moving the point onto the shaped line, and the line index closest to it there.
#[derive(Clone, Copy, Debug)]
pub struct TextHitFacts {
    /// Both coordinates of the point are finite.
    pub point_finite: bool,
    /// The point is exactly the first map's point.
    pub at_start: bool,
    /// The point is exactly the last map's point.
    pub at_end: bool,
    /// Class of the first map's block plus the first line's block extent.
    pub start_block_end: PixelClass,
    /// The point's block against the first map's block.
    pub y_to_start: PixelOrdering,
    /// The point's block against the first line's block end.
    pub y_to_start_block_end: PixelOrdering,
    /// The point's inline coordinate against the first map's.
    pub x_to_start: PixelOrdering,
    /// Class of the last map's block plus the last line's block extent.
    pub end_block_end: PixelClass,
    /// The point's block against the last map's block.
    pub y_to_end: PixelOrdering,
    /// The point's block against the last line's block end.
    pub y_to_end_block_end: PixelOrdering,
    /// The point's inline coordinate against the last map's.
    pub x_to_end: PixelOrdering,
    /// The point's block against the fragment's origin.
    pub y_to_origin: PixelOrdering,
    /// Class of the lowest map block plus the last line's block extent.
    pub block_end: PixelClass,
    /// The point's block against that block end.
    pub y_to_block_end: PixelOrdering,
    /// Whether moving the point onto the shaped line succeeded, or the overflow it reported.
    pub line_point: Result<(), StreamingLayoutError>,
    /// The shaped-line index closest to the moved point.
    pub index: usize,
}

/// The hit a text fragment owns for a point: an invalid point is rejected; the first map's point
/// is the range's start and the last map's point is not owned; points above or before the first
/// line, after the last map on the last line, above the origin or below the last line are not
/// owned; any other point resolves through its closest line index (see [`text_index_hit`]).
pub open spec fn text_point_hit(
    range: Range<StreamingLayoutPosition>,
    map_count: nat,
    facts: TextHitFacts,
) -> Result<Option<StreamingLayoutHit>, StreamingLayoutError> {
    if !facts.point_finite {
        Err(StreamingLayoutError::InvalidMetric(StreamingLayoutMetric::HitPosition))
    } else if map_count == 0 {
        Err(StreamingLayoutError::InvalidSegment)
    } else if facts.at_start {
        Ok(Some(StreamingLayoutHit::Gap(range.start)))
    } else if facts.at_end {
        Ok(None)
    } else if facts.start_block_end is NonFinite {
        Err(StreamingLayoutError::Overflow(StreamingLayoutComponent::Maps))
    } else if facts.y_to_start is Less || (facts.y_to_start_block_end is Less && facts.x_to_start is Less) {
        Ok(None)
    } else if facts.end_block_end is NonFinite {
        Err(StreamingLayoutError::Overflow(StreamingLayoutComponent::Maps))
    } else if (facts.y_to_end is Greater || facts.y_to_end is Equal) && facts.y_to_end_block_end is Less
        && facts.x_to_end is Greater {
        Ok(None)
    } else if facts.y_to_origin is Less {
        Ok(None)
    } else if facts.block_end is NonFinite {
        Err(StreamingLayoutError::Overflow(StreamingLayoutComponent::Maps))
    } else if facts.y_to_block_end is Greater || facts.y_to_block_end is Equal {
        Ok(None)
    } else if facts.line_point is Err {
        Err(facts.line_point->Err_0)
    } else {
        text_index_hit(range, facts.index)
    }
}

impl StreamingTextFragment {
    /// The fragment's logical range.
    pub closed spec fn text_range(&self) -> Range<StreamingLayoutPosition> {
        self.logical_range
    }

    /// The segment text the fragment was shaped from.
    pub closed spec fn text_content(&self) -> Seq<char> {
        self.text@
    }

    /// The fragment's origin relative to the session origin.
    pub closed spec fn text_origin(&self) -> Point<Pixels> {
        self.origin
    }

    /// The fragment's caret maps.
    pub closed spec fn text_maps(&self) -> Seq<StreamingLayoutMap> {
        self.maps@
    }

    /// The first line's inline offset, the line height and the first line's block extent.
    pub closed spec fn text_line_metrics(&self) -> (Pixels, Pixels, Pixels) {
        (self.first_line_inline_offset, self.line_height, self.first_line_block_extent)
    }

    /// A text fragment with the given range, segment text, placement and caret maps.
    pub fn new(
        logical_range: Range<StreamingLayoutPosition>,
        text: String,
        origin: Point<Pixels>,
        first_line_inline_offset: Pixels,
        line_height: Pixels,
        first_line_block_extent: Pixels,
        maps: Vec<StreamingLayoutMap>,
    ) -> (fragment: Self)
        ensures
            fragment.text_range() == logical_range,
            fragment.text_content() == text@,
            fragment.text_origin() == origin,
            fragment.text_line_metrics() == (first_line_inline_offset, line_height, first_line_block_extent),
            fragment.text_maps() == maps@,
    {
        StreamingTextFragment {
            logical_range,
            text,
            origin,
            first_line_inline_offset,
            line_height,
            first_line_block_extent,
            maps,
        }
    }

    /// Exact consumer logical range represented by this fragment.
    pub fn logical_range(&self) -> (range: Range<StreamingLayoutPosition>)
        ensures
            range == self.text_range(),
    {
        self.logical_range.start..self.logical_range.end
    }

    /// The segment text this fragment was shaped from.
    pub fn text(&self) -> (text: &str)
        ensures
            text@ == self.text_content(),
    {
        self.text.as_str()
    }

    /// Exact fragment origin relative to the streaming session origin.
    pub fn origin(&self) -> (origin: Point<Pixels>)
        ensures
            origin == self.text_origin(),
    {
        self.origin
    }

    /// Exact caret/hit-test map facts at every shaped glyph boundary and segment end.
    pub fn maps(&self) -> (maps: &[StreamingLayoutMap])
        ensures
            maps@ == self.text_maps(),
    {
        self.maps.as_slice()
    }

    /// The shaped-line index of a composite position this fragment owns.
    pub fn layout_index_for_logical_position(&self, position: StreamingLayoutPosition) -> (result:
        Result<Option<usize>, StreamingLayoutError>)
        ensures
            result == text_layout_index(self.text_range(), position),
    {
        if position.validate().is_err() {
            return Err(StreamingLayoutError::InvalidPosition);
        }
        let start = self.logical_range.start;
        let end = self.logical_range.end;
        if position == end {
            return Ok(None);
        }
        if position == start {
            return Ok(Some(0));
        }
        if matches!(position.gap.preceding, StreamingObjectEdge::NoObject) && matches!(
            position.gap.following,
            StreamingObjectEdge::NoObject
        ) && position.byte_offset > start.byte_offset && position.byte_offset < end.byte_offset {
            let distance = position.byte_offset - start.byte_offset;
            if distance > usize::MAX as u64 {
                return Err(StreamingLayoutError::Overflow(StreamingLayoutComponent::Maps));
            }
            return Ok(Some(distance as usize));
        }
        Ok(None)
    }

    /// Hit-tests the fragment at a point described by `facts` (see [`text_point_hit`]).
    pub fn closest_logical_position_for_position(&self, facts: TextHitFacts) -> (result: Result<
        Option<StreamingLayoutHit>,
        StreamingLayoutError,
    >)
        ensures
            result == text_point_hit(self.text_range(), self.text_maps().len(), facts),
    {
        if !facts.point_finite {
            return Err(StreamingLayoutError::InvalidMetric(StreamingLayoutMetric::HitPosition));
        }
        if self.maps.len() == 0 {
            return Err(StreamingLayoutError::InvalidSegment);
        }
        if facts.at_start {
            return Ok(Some(StreamingLayoutHit::Gap(self.logical_range.start)));
        }
        if facts.at_end {
            return Ok(None);
        }
        if facts.start_block_end == PixelClass::NonFinite {
            return Err(StreamingLayoutError::Overflow(StreamingLayoutComponent::Maps));
        }
        if facts.y_to_start == PixelOrdering::Less || (facts.y_to_start_block_end == PixelOrdering::Less
            && facts.x_to_start == PixelOrdering::Less) {
            return Ok(None);
        }
        if facts.end_block_end == PixelClass::NonFinite {
            return Err(StreamingLayoutError::Overflow(StreamingLayoutComponent::Maps));
        }
        if (facts.y_to_end == PixelOrdering::Greater || facts.y_to_end == PixelOrdering::Equal)
            && facts.y_to_end_block_end == PixelOrdering::Less && facts.x_to_end == PixelOrdering::Greater {
            return Ok(None);
        }
        if facts.y_to_origin == PixelOrdering::Less {
            return Ok(None);
        }
        if facts.block_end == PixelClass::NonFinite {
            return Err(StreamingLayoutError::Overflow(StreamingLayoutComponent::Maps));
        }
        if facts.y_to_block_end == PixelOrdering::Greater || facts.y_to_block_end == PixelOrdering::Equal {
            return Ok(None);
        }
        match facts.line_point {
            Err(error) => Err(error),
            Ok(()) => self.hit_for_layout_index(facts.index),
        }
    }

    /// The hit owned by this fragment for the shaped-line index closest to a point.
    pub fn hit_for_layout_index(&self, index: usize) -> (result: Result<
        Option<StreamingLayoutHit>,
        StreamingLayoutError,
    >)
        ensures
            result == text_index_hit(self.text_range(), index),
    {
        let start = self.logical_range.start;
        let end = self.logical_range.end;
        let byte_offset = match start.byte_offset.checked_add(index as u64) {
            Some(byte_offset) => byte_offset,
            None => {
                return Err(StreamingLayoutError::Overflow(StreamingLayoutComponent::Maps));
            },
        };
        if byte_offset == start.byte_offset {
            if start == end {
                Ok(None)
            } else {
                Ok(Some(StreamingLayoutHit::Gap(start)))
            }
        } else if byte_offset >= end.byte_offset {
            Ok(None)
        } else {
            Ok(Some(StreamingLayoutHit::Gap(StreamingLayoutPosition::at(byte_offset))))
        }
    }
}

/// The semantic records of one inline fragment with two caret maps, whose presentation was
/// shaped into `shaped_runs` runs of `glyphs` glyphs with `decorations` decoration runs, and
/// whose retained positions name `object_facts` object identities.
pub open spec fn inline_items(
    shaped_runs: usize,
    glyphs: usize,
    decorations: usize,
    object_facts: int,
) -> StreamingLayoutItemCharge {
    StreamingLayoutItemCharge {
        text_payloads: 1,
        style_runs: 0,
        shaped_runs,
        glyphs,
        decorations,
        wrap_facts: 0,
        maps: 2,
        positions: 5,
        gap_witnesses: 5,
        object_ids: object_facts as usize,
        object_orders: object_facts as usize,
        fragments: 1,
        continuations: 1,
    }
}

/// The positions an atom admission retains: its two map positions, its range's ends and the
/// continuation's next position.
pub open spec fn atom_positions(
    fragment: StreamingAtomFragment,
    continuation: StreamingLayoutContinuation,
) -> Seq<StreamingLayoutPosition> {
    seq![
        fragment.atom_maps()[0].logical_position,
        fragment.atom_maps()[1].logical_position,
        fragment.atom_range().start,
        fragment.atom_range().end,
        continuation.next_position,
    ]
}

/// The positions an object admission retains: its two map positions, its gaps and the
/// continuation's next position.
pub open spec fn object_positions(
    fragment: StreamingObjectFragment,
    continuation: StreamingLayoutContinuation,
) -> Seq<StreamingLayoutPosition> {
    seq![
        fragment.object_maps()[0].logical_position,
        fragment.object_maps()[1].logical_position,
        fragment.object_leading(),
        fragment.object_trailing(),
        continuation.next_position,
    ]
}

/// The positions a text admission retains: its map positions, its range's ends and the
/// continuation's next position.
pub open spec fn text_positions(
    fragment: StreamingTextFragment,
    continuation: StreamingLayoutContinuation,
) -> Seq<StreamingLayoutPosition> {
    fragment.text_maps().map_values(|map: StreamingLayoutMap| map.logical_position) + seq![
        fragment.text_range().start,
        fragment.text_range().end,
        continuation.next_position,
    ]
}

/// Exact semantic records retained by one atom admission.
pub fn item_charge_atom(
    fragment: &StreamingAtomFragment,
    continuation: StreamingLayoutContinuation,
    shaped_runs: usize,
    glyphs: usize,
    decorations: usize,
) -> (result: Result<StreamingLayoutItemCharge, StreamingLayoutError>)
    ensures
        result == Ok::<StreamingLayoutItemCharge, StreamingLayoutError>(
            inline_items(shaped_runs, glyphs, decorations, positions_object_edges(atom_positions(*fragment, continuation))),
        ),
{
    let positions = vec![
        fragment.maps[0].logical_position,
        fragment.maps[1].logical_position,
        fragment.logical_range.start,
        fragment.logical_range.end,
        continuation.next_position,
    ];
    proof {
        assert(positions@ =~= atom_positions(*fragment, continuation));
        crate::charge::lemma_positions_object_edges_bound(positions@);
    }
    let (position_count, object_facts) = match position_facts(positions.as_slice()) {
        Ok(facts) => facts,
        Err(error) => {
            return Err(error);
        },
    };
    Ok(
        StreamingLayoutItemCharge {
            text_payloads: 1,
            style_runs: 0,
            shaped_runs,
            glyphs,
            decorations,
            wrap_facts: 0,
            maps: 2,
            positions: position_count,
            gap_witnesses: position_count,
            object_ids: object_facts,
            object_orders: object_facts,
            fragments: 1,
            continuations: 1,
        },
    )
}

/// Exact semantic records retained by one object admission: the object's own identity and order
/// are counted besides those its positions name.
pub fn item_charge_object(
    fragment: &StreamingObjectFragment,
    continuation: StreamingLayoutContinuation,
    shaped_runs: usize,
    glyphs: usize,
    decorations: usize,
) -> (result: Result<StreamingLayoutItemCharge, StreamingLayoutError>)
    ensures
        result == Ok::<StreamingLayoutItemCharge, StreamingLayoutError>(
            inline_items(
                shaped_runs,
                glyphs,
                decorations,
                positions_object_edges(object_positions(*fragment, continuation)) + 1,
            ),
        ),
{
    let positions = vec![
        fragment.maps[0].logical_position,
        fragment.maps[1].logical_position,
        fragment.leading,
        fragment.trailing,
        continuation.next_position,
    ];
    proof {
        assert(positions@ =~= object_positions(*fragment, continuation));
        crate::charge::lemma_positions_object_edges_bound(positions@);
    }
    let (position_count, position_object_facts) = match position_facts(positions.as_slice()) {
        Ok(facts) => facts,
        Err(error) => {
            return Err(error);
        },
    };
    let object_facts = match checked_add(position_object_facts, 1, StreamingLayoutComponent::Objects) {
        Ok(total) => total,
        Err(error) => {
            return Err(error);
        },
    };
    Ok(
        StreamingLayoutItemCharge {
            text_payloads: 1,
            style_runs: 0,
            shaped_runs,
            glyphs,
            decorations,
            wrap_facts: 0,
            maps: 2,
            positions: position_count,
            gap_witnesses: position_count,
            object_ids: object_facts,
            object_orders: object_facts,
            fragments: 1,
            continuations: 1,
        },
    )
}

/// Exact semantic records retained by one text admission, given the segment's style runs and
/// the shaped line's runs, glyphs, decoration runs and wrap facts.
pub fn item_charge_text(
    fragment: &StreamingTextFragment,
    continuation: StreamingLayoutContinuation,
    style_runs: usize,
    shaped_runs: usize,
    glyphs: usize,
    decorations: usize,
    wrap_facts: usize,
) -> (result: Result<StreamingLayoutItemCharge, StreamingLayoutError>)
    ensures
        result == (if positions_object_edges(text_positions(*fragment, continuation)) <= usize::MAX {
            Ok::<StreamingLayoutItemCharge, StreamingLayoutError>(
                StreamingLayoutItemCharge {
                    text_payloads: 1,
                    style_runs,
                    shaped_runs,
                    glyphs,
                    decorations,
                    wrap_facts,
                    maps: fragment.text_maps().len() as usize,
                    positions: text_positions(*fragment, continuation).len() as usize,
                    gap_witnesses: text_positions(*fragment, continuation).len() as usize,
                    object_ids: positions_object_edges(text_positions(*fragment, continuation)) as usize,
                    object_orders: positions_object_edges(text_positions(*fragment, continuation)) as usize,
                    fragments: 1,
                    continuations: 1,
                },
            )
        } else {
            Err(StreamingLayoutError::Overflow(StreamingLayoutComponent::Objects))
        }),
{
    let mut positions: Vec<StreamingLayoutPosition> = Vec::new();
    let mut index: usize = 0;
    while index < fragment.maps.len()
        invariant
            index <= fragment.maps@.len(),
            positions@ =~= fragment.maps@.take(index as int).map_values(
                |map: StreamingLayoutMap| map.logical_position,
            ),
        decreases fragment.maps@.len() - index,
    {
        positions.push(fragment.maps[index].logical_position);
        index = index + 1;
    }
    assert(fragment.maps@.take(fragment.maps@.len() as int) =~= fragment.maps@);
    positions.push(fragment.logical_range.start);
    positions.push(fragment.logical_range.end);
    positions.push(continuation.next_position);
    assert(positions@ =~= text_positions(*fragment, continuation));
    let (position_count, object_facts) = match position_facts(positions.as_slice()) {
        Ok(facts) => facts,
        Err(error) => {
            return Err(error);
        },
    };
    Ok(
        StreamingLayoutItemCharge {
            text_payloads: 1,
            style_runs,
            shaped_runs,
            glyphs,
            decorations,
            wrap_facts,
            maps: fragment.maps.len(),
            positions: position_count,
            gap_witnesses: position_count,
            object_ids: object_facts,
            object_orders: object_facts,
            fragments: 1,
            continuations: 1,
        },
    )
}

} // verus!
