use vstd::prelude::*;
use std::ops::Range;
use vstd::string::StringSliceAdditionalSpecFns;
use crate::charge::StreamingLayoutCharge;
use crate::checked::{checked_add, checked_mul};
use crate::advance::{
    after_inline, after_text, continue_after_inline, continue_after_text, inline_start, start_inline,
    StreamingInlineStart,
};
use crate::charge::{positions_object_edges, StreamingLayoutItemCharge};
use crate::fragments::{
    inline_items, item_charge_atom, item_charge_object, item_charge_text, StreamingAtomFragment,
    StreamingObjectFragment, StreamingTextFragment,
};
use crate::maps::{boundaries_end_at, check_boundaries, text_maps, text_maps_of};
use crate::inputs::{
    object_edges_valid, text_bytes, text_segment_check, StreamingInlineObject, StreamingOversizeAtom,
    StreamingTextSegment,
};
use crate::error::{StreamingLayoutComponent, StreamingLayoutError, StreamingLayoutMetric};
use crate::geometry::{Bounds, PixelOrdering, Pixels, Point, Size};
use crate::inputs::{inline_presentation_check, StreamingInlineMetrics};
use crate::position::{StreamingLayoutPosition, StreamingObjectId, StreamingObjectOrder};
use crate::session::{
    admission_check, header_check, source_range_check, StreamingLayoutAdmission, StreamingLayoutFragment,
    StreamingLayoutBinding, StreamingLayoutContinuation, StreamingLayoutMap, StreamingLayoutSession,
    StreamingPlacementMetrics,
};

verus! {

/// Byte sizes of the records the platform text system retains for one shaped line.
#[derive(Clone, Copy, Debug, PartialEq, Eq, Structural)]
pub struct ShapedRecordSizes {
    /// One shaped-run record.
    pub shaped_run: usize,
    /// One shaped-glyph record.
    pub glyph: usize,
    /// One decoration-run record.
    pub decoration: usize,
    /// One wrap-boundary record.
    pub wrap: usize,
    /// The optional background colour of an inline presentation.
    pub background: usize,
}

/// What the platform text system reported after shaping one ordinary segment.
#[derive(Debug)]
pub struct ShapedTextFacts {
    /// Whether every shaped metric and glyph position is usable, or the metric that is not.
    pub layout_metrics: Result<(), StreamingLayoutError>,
    /// Number of wrap boundaries placement computed for the line, or the error it reported.
    pub wraps: Result<usize, StreamingLayoutError>,
    /// Whether the first wrap boundary falls before the line's first glyph.
    pub leading_wrap: bool,
    /// Number of merged decoration runs, or the overflow merging reported.
    pub decorations: Result<usize, StreamingLayoutError>,
    /// Number of shaped runs.
    pub shaped_runs: usize,
    /// Number of shaped glyphs, or the overflow counting them reported.
    pub glyphs: Result<usize, StreamingLayoutError>,
    /// Bytes of the retained style runs and their variable font metadata, or the overflow
    /// summing them reported.
    pub style_run_bytes: Result<usize, StreamingLayoutError>,
    /// Byte sizes of the retained shaping records.
    pub sizes: ShapedRecordSizes,
    /// Each caret boundary of the shaped line (see [`crate::maps::text_boundary_indices`])
    /// with the point placement gave it, or the error placing them reported.
    pub boundaries: Result<Vec<(usize, Option<Point<Pixels>>)>, StreamingLayoutError>,
}

/// Pixel sums placement computed for one ordinary segment, with their classes.
#[derive(Clone, Copy, Debug)]
pub struct TextPlacementFacts {
    /// The prior block offset plus the prior line's block extent, used when the segment starts
    /// with a wrap.
    pub next_line_block: Result<Pixels, StreamingLayoutError>,
    /// Inline offset after the segment.
    pub inline_offset: Result<Pixels, StreamingLayoutError>,
    /// Block extent of the segment's last visual line.
    pub line_block_extent: Result<Pixels, StreamingLayoutError>,
    /// Block offset of the segment's last visual line.
    pub block_offset: Result<Pixels, StreamingLayoutError>,
    /// Classes of the continuation's carried metrics after the segment.
    pub metrics: StreamingPlacementMetrics,
}

/// What the platform text system reported after shaping one inline presentation.
#[derive(Clone, Copy, Debug)]
pub struct ShapedInlineFacts {
    /// Whether every shaped metric and glyph position is usable, or the metric that is not.
    pub layout_metrics: Result<(), StreamingLayoutError>,
    /// Number of merged decoration runs, or the overflow merging reported.
    pub decorations: Result<usize, StreamingLayoutError>,
    /// Number of shaped runs.
    pub shaped_runs: usize,
    /// Number of shaped glyphs, or the overflow counting them reported.
    pub glyphs: Result<usize, StreamingLayoutError>,
    /// The presentation's baseline compared with the shaped ascent.
    pub baseline_to_ascent: PixelOrdering,
    /// The baseline plus the shaped descent compared with the presentation's height, or the
    /// overflow the sum reported.
    pub descent_end_to_height: Result<PixelOrdering, StreamingLayoutError>,
    /// Byte sizes of the retained shaping records.
    pub sizes: ShapedRecordSizes,
}

/// Pixel sums placement computed for one inline presentation, with their classes.
#[derive(Clone, Copy, Debug)]
pub struct InlinePlacementFacts {
    /// The prior inline offset plus the presentation's width compared with the wrap width, or the
    /// overflow the sum reported.
    pub proposed_to_wrap_width: Result<PixelOrdering, StreamingLayoutError>,
    /// The prior block offset plus the prior line's block extent, used when the presentation
    /// wraps.
    pub next_line_block: Result<Pixels, StreamingLayoutError>,
    /// The presentation's start plus its width.
    pub inline_end: Result<Pixels, StreamingLayoutError>,
    /// The larger of the line's block extent before the presentation and its height.
    pub line_block_extent: Pixels,
    /// Classes of the continuation's carried metrics after the presentation.
    pub metrics: StreamingPlacementMetrics,
}

/// `count` records of `size` bytes each, or an overflow of `component`.
pub open spec fn record_bytes(count: usize, size: usize, component: StreamingLayoutComponent) -> Result<
    usize,
    StreamingLayoutError,
> {
    if count * size > usize::MAX {
        Err(StreamingLayoutError::Overflow(component))
    } else {
        Ok((count * size) as usize)
    }
}

/// Bytes of the shaped runs and glyphs of one line.
pub open spec fn glyph_bytes(shaped_runs: usize, glyphs: usize, sizes: ShapedRecordSizes) -> Result<
    usize,
    StreamingLayoutError,
> {
    match record_bytes(shaped_runs, sizes.shaped_run, StreamingLayoutComponent::Glyphs) {
        Err(error) => Err(error),
        Ok(runs) => match record_bytes(glyphs, sizes.glyph, StreamingLayoutComponent::Glyphs) {
            Err(error) => Err(error),
            Ok(glyph_records) => if runs + glyph_records > usize::MAX {
                Err(StreamingLayoutError::Overflow(StreamingLayoutComponent::Glyphs))
            } else {
                Ok((runs + glyph_records) as usize)
            },
        },
    }
}

/// Bytes of one shaped line's layout metadata: four pixel metrics and its length.
pub open spec fn line_metadata_bytes() -> nat {
    4 * vstd::layout::size_of::<Pixels>() + vstd::layout::size_of::<usize>()
}

/// Bytes of a text fragment's own record: its range, origin, three placement metrics, optional
/// wrap width and line metadata.
pub open spec fn text_fragment_bytes() -> nat {
    vstd::layout::size_of::<Range<StreamingLayoutPosition>>() + vstd::layout::size_of::<Point<Pixels>>()
        + 3 * vstd::layout::size_of::<Pixels>() + vstd::layout::size_of::<Option<Pixels>>()
        + line_metadata_bytes()
}

/// Bytes of an inline fragment's own record besides `additional`: its presentation of
/// `presentation` bytes, bounds, baseline, optional background and line metadata.
pub open spec fn inline_fragment_bytes(presentation: usize, background: usize, additional: nat) -> nat {
    (presentation as nat) + vstd::layout::size_of::<Bounds<Pixels>>() + vstd::layout::size_of::<Pixels>()
        + (background as nat) + line_metadata_bytes() + additional
}

/// Bytes of an object's identity, order and two adjacent gaps.
pub open spec fn object_fact_bytes() -> nat {
    vstd::layout::size_of::<StreamingObjectId>() + vstd::layout::size_of::<StreamingObjectOrder>()
        + 2 * vstd::layout::size_of::<StreamingLayoutPosition>()
}

/// Exact retained bytes of one text admission: the segment's text, style runs, decoration runs,
/// shaped runs and glyphs, wrap facts, maps, fragment record and continuation.
pub open spec fn text_charge(
    text_bytes: usize,
    style_run_bytes: usize,
    decorations: usize,
    shaped_runs: usize,
    glyphs: usize,
    wraps: usize,
    maps: usize,
    sizes: ShapedRecordSizes,
) -> Result<StreamingLayoutCharge, StreamingLayoutError> {
    match record_bytes(decorations, sizes.decoration, StreamingLayoutComponent::Decorations) {
        Err(error) => Err(error),
        Ok(decoration_bytes) => match glyph_bytes(shaped_runs, glyphs, sizes) {
            Err(error) => Err(error),
            Ok(glyph_total) => match record_bytes(wraps, sizes.wrap, StreamingLayoutComponent::WrapFacts) {
                Err(error) => Err(error),
                Ok(wrap_bytes) => match record_bytes(
                    maps,
                    vstd::layout::size_of::<StreamingLayoutMap>() as usize,
                    StreamingLayoutComponent::Maps,
                ) {
                    Err(error) => Err(error),
                    Ok(map_bytes) => if text_fragment_bytes() > usize::MAX {
                        Err(StreamingLayoutError::Overflow(StreamingLayoutComponent::Fragments))
                    } else {
                        Ok(
                            StreamingLayoutCharge {
                                segment_text: text_bytes,
                                runs: style_run_bytes,
                                decorations: decoration_bytes,
                                glyphs: glyph_total,
                                wrap_facts: wrap_bytes,
                                maps: map_bytes,
                                objects: 0,
                                fragments: text_fragment_bytes() as usize,
                                continuation: vstd::layout::size_of::<StreamingLayoutContinuation>() as usize,
                            },
                        )
                    },
                },
            },
        },
    }
}

/// Exact retained bytes of one inline admission: its decoration runs, shaped runs and glyphs,
/// two maps, fragment record with `additional` bytes, object facts when it is an object, and
/// continuation.
pub open spec fn inline_charge(
    presentation: usize,
    decorations: usize,
    shaped_runs: usize,
    glyphs: usize,
    sizes: ShapedRecordSizes,
    additional: nat,
    object: bool,
) -> Result<StreamingLayoutCharge, StreamingLayoutError> {
    match record_bytes(decorations, sizes.decoration, StreamingLayoutComponent::Decorations) {
        Err(error) => Err(error),
        Ok(decoration_bytes) => match glyph_bytes(shaped_runs, glyphs, sizes) {
            Err(error) => Err(error),
            Ok(glyph_total) => match record_bytes(
                2,
                vstd::layout::size_of::<StreamingLayoutMap>() as usize,
                StreamingLayoutComponent::Maps,
            ) {
                Err(error) => Err(error),
                Ok(map_bytes) => if inline_fragment_bytes(presentation, sizes.background, additional)
                    > usize::MAX {
                    Err(StreamingLayoutError::Overflow(StreamingLayoutComponent::Fragments))
                } else if object && object_fact_bytes() > usize::MAX {
                    Err(StreamingLayoutError::Overflow(StreamingLayoutComponent::Objects))
                } else {
                    Ok(
                        StreamingLayoutCharge {
                            segment_text: 0,
                            runs: 0,
                            decorations: decoration_bytes,
                            glyphs: glyph_total,
                            wrap_facts: 0,
                            maps: map_bytes,
                            objects: if object {
                                object_fact_bytes() as usize
                            } else {
                                0
                            },
                            fragments: inline_fragment_bytes(presentation, sizes.background, additional)
                                as usize,
                            continuation: vstd::layout::size_of::<StreamingLayoutContinuation>() as usize,
                        },
                    )
                },
            },
        },
    }
}

/// Computes [`record_bytes`].
fn records(count: usize, size: usize, component: StreamingLayoutComponent) -> (result: Result<
    usize,
    StreamingLayoutError,
>)
    ensures
        result == record_bytes(count, size, component),
{
    checked_mul(count, size, component)
}

/// Computes [`glyph_bytes`].
fn glyph_records(shaped_runs: usize, glyphs: usize, sizes: ShapedRecordSizes) -> (result: Result<
    usize,
    StreamingLayoutError,
>)
    ensures
        result == glyph_bytes(shaped_runs, glyphs, sizes),
{
    let runs = match records(shaped_runs, sizes.shaped_run, StreamingLayoutComponent::Glyphs) {
        Ok(bytes) => bytes,
        Err(error) => {
            return Err(error);
        },
    };
    let glyph_total = match records(glyphs, sizes.glyph, StreamingLayoutComponent::Glyphs) {
        Ok(bytes) => bytes,
        Err(error) => {
            return Err(error);
        },
    };
    checked_add(runs, glyph_total, StreamingLayoutComponent::Glyphs)
}

/// A sum of byte counts, failing with an overflow of `component` exactly when the mathematical
/// sum does not fit.
fn add_bytes(left: Result<usize, StreamingLayoutError>, right: usize, component: StreamingLayoutComponent)
    -> (result: Result<usize, StreamingLayoutError>)
    ensures
        match left {
            Err(_) => result == left,
            Ok(left) => result == (if left + right > usize::MAX {
                Err(StreamingLayoutError::Overflow(component))
            } else {
                Ok::<usize, StreamingLayoutError>((left + right) as usize)
            }),
        },
{
    match left {
        Err(error) => Err(error),
        Ok(left) => checked_add(left, right, component),
    }
}

/// Bytes of one shaped line's layout metadata (see [`line_metadata_bytes`]).
fn line_metadata() -> (result: Result<usize, StreamingLayoutError>)
    ensures
        match result {
            Ok(bytes) => line_metadata_bytes() <= usize::MAX && bytes == line_metadata_bytes(),
            Err(error) => line_metadata_bytes() > usize::MAX && error == StreamingLayoutError::Overflow(
                StreamingLayoutComponent::Fragments,
            ),
        },
{
    let pixels = records(4, core::mem::size_of::<Pixels>(), StreamingLayoutComponent::Fragments);
    add_bytes(pixels, core::mem::size_of::<usize>(), StreamingLayoutComponent::Fragments)
}

/// Exact retained bytes of one text admission (see [`text_charge`]).
pub fn charge_text_admission(
    text_bytes: usize,
    style_run_bytes: usize,
    decorations: usize,
    shaped_runs: usize,
    glyphs: usize,
    wraps: usize,
    maps: usize,
    sizes: ShapedRecordSizes,
) -> (result: Result<StreamingLayoutCharge, StreamingLayoutError>)
    ensures
        result == text_charge(text_bytes, style_run_bytes, decorations, shaped_runs, glyphs, wraps, maps, sizes),
{
    let decoration_bytes = match records(decorations, sizes.decoration, StreamingLayoutComponent::Decorations) {
        Ok(bytes) => bytes,
        Err(error) => {
            return Err(error);
        },
    };
    let glyph_total = match glyph_records(shaped_runs, glyphs, sizes) {
        Ok(bytes) => bytes,
        Err(error) => {
            return Err(error);
        },
    };
    let wrap_bytes = match records(wraps, sizes.wrap, StreamingLayoutComponent::WrapFacts) {
        Ok(bytes) => bytes,
        Err(error) => {
            return Err(error);
        },
    };
    let map_bytes = match records(maps, core::mem::size_of::<StreamingLayoutMap>(), StreamingLayoutComponent::Maps) {
        Ok(bytes) => bytes,
        Err(error) => {
            return Err(error);
        },
    };
    let component = StreamingLayoutComponent::Fragments;
    let pixels = records(3, core::mem::size_of::<Pixels>(), component);
    let sum = add_bytes(Ok(core::mem::size_of::<Range<StreamingLayoutPosition>>()), core::mem::size_of::<Point<Pixels>>(), component);
    let sum = match pixels {
        Ok(pixels) => add_bytes(sum, pixels, component),
        Err(error) => Err(error),
    };
    let sum = add_bytes(sum, core::mem::size_of::<Option<Pixels>>(), component);
    let sum = match line_metadata() {
        Ok(metadata) => add_bytes(sum, metadata, component),
        Err(error) => Err(error),
    };
    let fragment_bytes = match sum {
        Ok(bytes) => bytes,
        Err(error) => {
            return Err(error);
        },
    };
    let mut charge = StreamingLayoutCharge::zero();
    charge.segment_text = text_bytes;
    charge.runs = style_run_bytes;
    charge.decorations = decoration_bytes;
    charge.glyphs = glyph_total;
    charge.wrap_facts = wrap_bytes;
    charge.maps = map_bytes;
    charge.fragments = fragment_bytes;
    charge.continuation = core::mem::size_of::<StreamingLayoutContinuation>();
    Ok(charge)
}

/// Exact retained bytes of one inline admission (see [`inline_charge`]).
pub fn charge_inline_admission(
    presentation: usize,
    decorations: usize,
    shaped_runs: usize,
    glyphs: usize,
    sizes: ShapedRecordSizes,
    additional: usize,
    object: bool,
) -> (result: Result<StreamingLayoutCharge, StreamingLayoutError>)
    ensures
        result == inline_charge(presentation, decorations, shaped_runs, glyphs, sizes, additional as nat, object),
{
    let decoration_bytes = match records(decorations, sizes.decoration, StreamingLayoutComponent::Decorations) {
        Ok(bytes) => bytes,
        Err(error) => {
            return Err(error);
        },
    };
    let glyph_total = match glyph_records(shaped_runs, glyphs, sizes) {
        Ok(bytes) => bytes,
        Err(error) => {
            return Err(error);
        },
    };
    let map_bytes = match records(2, core::mem::size_of::<StreamingLayoutMap>(), StreamingLayoutComponent::Maps) {
        Ok(bytes) => bytes,
        Err(error) => {
            return Err(error);
        },
    };
    let component = StreamingLayoutComponent::Fragments;
    let sum = add_bytes(Ok(presentation), core::mem::size_of::<Bounds<Pixels>>(), component);
    let sum = add_bytes(sum, core::mem::size_of::<Pixels>(), component);
    let sum = add_bytes(sum, sizes.background, component);
    let sum = match line_metadata() {
        Ok(metadata) => add_bytes(sum, metadata, component),
        Err(error) => Err(error),
    };
    let sum = add_bytes(sum, additional, component);
    let fragment_bytes = match sum {
        Ok(bytes) => bytes,
        Err(error) => {
            return Err(error);
        },
    };
    let mut object_bytes: usize = 0;
    if object {
        let component = StreamingLayoutComponent::Objects;
        let positions = records(2, core::mem::size_of::<StreamingLayoutPosition>(), component);
        let sum = add_bytes(Ok(core::mem::size_of::<StreamingObjectId>()), core::mem::size_of::<StreamingObjectOrder>(), component);
        let sum = match positions {
            Ok(positions) => add_bytes(sum, positions, component),
            Err(error) => Err(error),
        };
        object_bytes = match sum {
            Ok(bytes) => bytes,
            Err(error) => {
                return Err(error);
            },
        };
    }
    let mut charge = StreamingLayoutCharge::zero();
    charge.decorations = decoration_bytes;
    charge.glyphs = glyph_total;
    charge.maps = map_bytes;
    charge.objects = object_bytes;
    charge.fragments = fragment_bytes;
    charge.continuation = core::mem::size_of::<StreamingLayoutContinuation>();
    Ok(charge)
}

/// An inline presentation placed on its visual line, before its fragment is built.
#[derive(Clone, Copy, Debug, PartialEq, Eq, Structural)]
pub struct PreparedInline {
    /// Where the presentation starts.
    pub start: StreamingInlineStart,
    /// The presentation's bounds.
    pub bounds: Bounds<Pixels>,
    /// Inline offset where the presentation ends.
    pub inline_end: Pixels,
    /// Block extent of the presentation's visual line with it.
    pub line_block_extent: Pixels,
    /// Merged decoration runs of the shaped presentation.
    pub decorations: usize,
    /// Glyphs of the shaped presentation.
    pub glyphs: usize,
}

/// Outcome of placing one inline presentation of `width` by `height` after `prior`: its extents,
/// size and style runs are checked, its merged decoration runs must fit their limit, it starts
/// where [`inline_start`] places it and ends at the reported inline end; a nonempty
/// presentation's shaped ascent must lie above its baseline and its descent within its height;
/// its glyphs, two maps and one fragment must fit their limits.
pub open spec fn prepared_inline(
    binding: StreamingLayoutBinding,
    prior: StreamingLayoutContinuation,
    metrics: StreamingInlineMetrics,
    width: Pixels,
    height: Pixels,
    bytes: Seq<u8>,
    run_lengths: Seq<usize>,
    shaped: ShapedInlineFacts,
    placement: InlinePlacementFacts,
) -> Result<PreparedInline, StreamingLayoutError> {
    let limits = binding.limits;
    if inline_presentation_check(limits.segment_bytes, limits.runs, metrics, bytes, run_lengths) is Err {
        Err(inline_presentation_check(limits.segment_bytes, limits.runs, metrics, bytes, run_lengths)->Err_0)
    } else if shaped.decorations is Err {
        Err(shaped.decorations->Err_0)
    } else if shaped.decorations->Ok_0 > limits.decorations {
        Err(StreamingLayoutError::CapacityExceeded(StreamingLayoutComponent::Decorations))
    } else if placement.proposed_to_wrap_width is Err {
        Err(placement.proposed_to_wrap_width->Err_0)
    } else {
        match inline_start(prior, binding.line_height, placement.proposed_to_wrap_width->Ok_0, placement.next_line_block) {
            Err(error) => Err(error),
            Ok(start) => if placement.inline_end is Err {
                Err(placement.inline_end->Err_0)
            } else if shaped.layout_metrics is Err {
                Err(shaped.layout_metrics->Err_0)
            } else if bytes.len() > 0 && shaped.baseline_to_ascent is Less {
                Err(StreamingLayoutError::InvalidMetric(StreamingLayoutMetric::AtomBaseline))
            } else if bytes.len() > 0 && shaped.descent_end_to_height is Err {
                Err(shaped.descent_end_to_height->Err_0)
            } else if bytes.len() > 0 && shaped.descent_end_to_height == Ok::<PixelOrdering, StreamingLayoutError>(PixelOrdering::Greater) {
                Err(StreamingLayoutError::InvalidMetric(StreamingLayoutMetric::AtomHeight))
            } else if shaped.glyphs is Err {
                Err(shaped.glyphs->Err_0)
            } else if shaped.glyphs->Ok_0 > limits.glyphs {
                Err(StreamingLayoutError::CapacityExceeded(StreamingLayoutComponent::Glyphs))
            } else if 2 > limits.maps {
                Err(StreamingLayoutError::CapacityExceeded(StreamingLayoutComponent::Maps))
            } else if 1 > limits.fragments {
                Err(StreamingLayoutError::CapacityExceeded(StreamingLayoutComponent::Fragments))
            } else {
                Ok(
                    PreparedInline {
                        start,
                        bounds: Bounds {
                            origin: Point { x: start.inline_offset, y: start.block_offset },
                            size: Size { width, height },
                        },
                        inline_end: placement.inline_end->Ok_0,
                        line_block_extent: placement.line_block_extent,
                        decorations: shaped.decorations->Ok_0,
                        glyphs: shaped.glyphs->Ok_0,
                    },
                )
            },
        }
    }
}

impl<'a> StreamingLayoutSession<'a> {
    /// Places one shaped inline presentation after `prior` (see [`prepared_inline`]).
    fn prepare_shaped_inline(
        &self,
        prior: StreamingLayoutContinuation,
        metrics: StreamingInlineMetrics,
        width: Pixels,
        height: Pixels,
        presentation: &str,
        run_lengths: &[usize],
        shaped: ShapedInlineFacts,
        placement: InlinePlacementFacts,
    ) -> (result: Result<PreparedInline, StreamingLayoutError>)
        ensures
            result == prepared_inline(
                self.bound(),
                prior,
                metrics,
                width,
                height,
                presentation.spec_bytes(),
                run_lengths@,
                shaped,
                placement,
            ),
    {
        match self.check_inline_presentation(metrics, presentation, run_lengths) {
            Ok(()) => {},
            Err(error) => {
                return Err(error);
            },
        }
        let limits = self.binding().limits;
        let decorations = match shaped.decorations {
            Ok(count) => count,
            Err(error) => {
                return Err(error);
            },
        };
        if decorations > limits.decorations {
            return Err(StreamingLayoutError::CapacityExceeded(StreamingLayoutComponent::Decorations));
        }
        let proposed = match placement.proposed_to_wrap_width {
            Ok(ordering) => ordering,
            Err(error) => {
                return Err(error);
            },
        };
        let start = match start_inline(prior, self.binding().line_height, proposed, placement.next_line_block) {
            Ok(start) => start,
            Err(error) => {
                return Err(error);
            },
        };
        let inline_end = match placement.inline_end {
            Ok(end) => end,
            Err(error) => {
                return Err(error);
            },
        };
        match shaped.layout_metrics {
            Ok(()) => {},
            Err(error) => {
                return Err(error);
            },
        }
        if presentation.as_bytes().len() > 0 {
            if shaped.baseline_to_ascent == PixelOrdering::Less {
                return Err(StreamingLayoutError::InvalidMetric(StreamingLayoutMetric::AtomBaseline));
            }
            match shaped.descent_end_to_height {
                Err(error) => {
                    return Err(error);
                },
                Ok(ordering) => {
                    if ordering == PixelOrdering::Greater {
                        return Err(StreamingLayoutError::InvalidMetric(StreamingLayoutMetric::AtomHeight));
                    }
                },
            }
        }
        let glyphs = match shaped.glyphs {
            Ok(count) => count,
            Err(error) => {
                return Err(error);
            },
        };
        if glyphs > limits.glyphs {
            return Err(StreamingLayoutError::CapacityExceeded(StreamingLayoutComponent::Glyphs));
        }
        if 2 > limits.maps {
            return Err(StreamingLayoutError::CapacityExceeded(StreamingLayoutComponent::Maps));
        }
        if 1 > limits.fragments {
            return Err(StreamingLayoutError::CapacityExceeded(StreamingLayoutComponent::Fragments));
        }
        Ok(
            PreparedInline {
                start,
                bounds: Bounds {
                    origin: Point { x: start.inline_offset, y: start.block_offset },
                    size: Size { width, height },
                },
                inline_end,
                line_block_extent: placement.line_block_extent,
                decorations,
                glyphs,
            },
        )
    }
}

/// The caret maps of an inline presentation placed as `prepared`: its leading position at the
/// top-left corner, its trailing position at the inline end on the same block offset.
pub open spec fn inline_maps(
    leading: StreamingLayoutPosition,
    trailing: StreamingLayoutPosition,
    prepared: PreparedInline,
) -> [StreamingLayoutMap; 2] {
    [
        StreamingLayoutMap { logical_position: leading, position: prepared.bounds.origin },
        StreamingLayoutMap {
            logical_position: trailing,
            position: Point { x: prepared.inline_end, y: prepared.bounds.origin.y },
        },
    ]
}

/// Semantic records of one inline admission whose fragment retains the positions `leading` and
/// `trailing` twice (as map positions and as its own edges) besides the continuation's next
/// position, and `own_objects` object identities of its own.
pub open spec fn inline_admission_items(
    leading: StreamingLayoutPosition,
    trailing: StreamingLayoutPosition,
    next: StreamingLayoutContinuation,
    prepared: PreparedInline,
    shaped_runs: usize,
    own_objects: int,
) -> StreamingLayoutItemCharge {
    inline_items(
        shaped_runs,
        prepared.glyphs,
        prepared.decorations,
        positions_object_edges(seq![leading, trailing, leading, trailing, next.next_position]) + own_objects,
    )
}

/// Outcome of admitting one oversize atom whose presentation was shaped into `shaped` and
/// placed as `placement` reports: the ordered header and source range are checked, the
/// presentation is placed (see [`prepared_inline`]), the continuation advances past the atom,
/// and the exact charges must fit the session's limits; the result is the next continuation.
pub open spec fn atom_admission(
    binding: StreamingLayoutBinding,
    live: Option<StreamingLayoutContinuation>,
    atom: StreamingOversizeAtom,
    metrics: StreamingInlineMetrics,
    shaped: ShapedInlineFacts,
    placement: InlinePlacementFacts,
) -> Result<StreamingLayoutContinuation, StreamingLayoutError> {
    let range = atom.logical_range;
    let bytes = text_bytes(atom.presentation);
    match header_check(binding, live, atom.input_id, atom.segment_policy_id, atom.ordinal, range.start) {
        Err(error) => Err(error),
        Ok(prior) => if source_range_check(range) is Err {
            Err(source_range_check(range)->Err_0)
        } else {
            match prepared_inline(binding, prior, metrics, atom.width, atom.height, bytes, atom.run_lengths@, shaped, placement) {
                Err(error) => Err(error),
                Ok(prepared) => match after_inline(prior, prepared.start, range.end, prepared.inline_end, prepared.line_block_extent) {
                    Err(error) => Err(error),
                    Ok(next) => match inline_charge(
                        bytes.len() as usize,
                        prepared.decorations,
                        shaped.shaped_runs,
                        prepared.glyphs,
                        shaped.sizes,
                        vstd::layout::size_of::<Range<StreamingLayoutPosition>>(),
                        false,
                    ) {
                        Err(error) => Err(error),
                        Ok(charge) => match admission_check(
                            binding,
                            next,
                            placement.metrics,
                            charge,
                            inline_admission_items(range.start, range.end, next, prepared, shaped.shaped_runs, 0),
                        ) {
                            Err(error) => Err(error),
                            Ok(_) => Ok(next),
                        },
                    },
                },
            }
        },
    }
}

impl<'a> StreamingLayoutSession<'a> {
    /// Atomically admits one ordered compact nonempty source-covering atom whose presentation
    /// the platform text system shaped into `shaped`, placed as `placement` reports. On success
    /// the session moves to the returned continuation and the admission holds exactly one atom
    /// fragment and its exact charges; on any rejection the session is left as it was.
    pub fn admit_shaped_oversize_atom(
        &mut self,
        atom: StreamingOversizeAtom,
        metrics: StreamingInlineMetrics,
        shaped: ShapedInlineFacts,
        placement: InlinePlacementFacts,
    ) -> (result: Result<StreamingLayoutAdmission, StreamingLayoutError>)
        requires
            old(self).wf(),
        ensures
            final(self).wf(),
            final(self).bound() == old(self).bound(),
            match result {
                Ok(admission) => {
                    let prior = old(self).live()->Some_0;
                    let prepared = prepared_inline(
                        old(self).bound(),
                        prior,
                        metrics,
                        atom.width,
                        atom.height,
                        text_bytes(atom.presentation),
                        atom.run_lengths@,
                        shaped,
                        placement,
                    )->Ok_0;
                    &&& atom_admission(old(self).bound(), old(self).live(), atom, metrics, shaped, placement)
                        == Ok::<_, StreamingLayoutError>(admission.continuation)
                    &&& final(self).live() == Some(admission.continuation)
                    &&& final(self).live_metrics() == placement.metrics
                    &&& admission.fragments@.len() == 1
                    &&& admission.fragments@[0] matches StreamingLayoutFragment::OversizeAtom(fragment)
                        && fragment.atom_range() == atom.logical_range
                        && fragment.atom_presentation() == atom.presentation@
                        && fragment.atom_bounds() == prepared.bounds
                        && fragment.atom_baseline() == atom.baseline
                        && fragment.atom_maps() == inline_maps(
                        atom.logical_range.start,
                        atom.logical_range.end,
                        prepared,
                    )
                    &&& Ok::<_, StreamingLayoutError>(admission.charge) == inline_charge(
                        text_bytes(atom.presentation).len() as usize,
                        prepared.decorations,
                        shaped.shaped_runs,
                        prepared.glyphs,
                        shaped.sizes,
                        vstd::layout::size_of::<Range<StreamingLayoutPosition>>(),
                        false,
                    )
                    &&& admission.item_charge == inline_admission_items(
                        atom.logical_range.start,
                        atom.logical_range.end,
                        admission.continuation,
                        prepared,
                        shaped.shaped_runs,
                        0,
                    )
                },
                Err(error) => {
                    &&& atom_admission(old(self).bound(), old(self).live(), atom, metrics, shaped, placement)
                        == Err::<StreamingLayoutContinuation, _>(error)
                    &&& *final(self) == *old(self)
                },
            },
    {
        let prior = match self.validate_header(
            atom.input_id,
            atom.segment_policy_id,
            atom.ordinal,
            atom.logical_range.start,
        ) {
            Ok(prior) => prior,
            Err(error) => {
                return Err(error);
            },
        };
        match self.validate_source_range(&atom.logical_range) {
            Ok(()) => {},
            Err(error) => {
                return Err(error);
            },
        }
        let prepared = match self.prepare_shaped_inline(
            prior,
            metrics,
            atom.width,
            atom.height,
            atom.presentation.as_str(),
            atom.run_lengths.as_slice(),
            shaped,
            placement,
        ) {
            Ok(prepared) => prepared,
            Err(error) => {
                return Err(error);
            },
        };
        let start = atom.logical_range.start;
        let end = atom.logical_range.end;
        let maps = [
            StreamingLayoutMap { logical_position: start, position: prepared.bounds.origin },
            StreamingLayoutMap {
                logical_position: end,
                position: Point { x: prepared.inline_end, y: prepared.bounds.origin.y },
            },
        ];
        let continuation = match continue_after_inline(
            prior,
            prepared.start,
            end,
            prepared.inline_end,
            prepared.line_block_extent,
        ) {
            Ok(continuation) => continuation,
            Err(error) => {
                return Err(error);
            },
        };
        let presentation_bytes = atom.presentation.as_str().as_bytes().len();
        vstd::layout::layout_for_type_is_valid::<Range<StreamingLayoutPosition>>();
        let charge = match charge_inline_admission(
            presentation_bytes,
            prepared.decorations,
            shaped.shaped_runs,
            prepared.glyphs,
            shaped.sizes,
            core::mem::size_of::<Range<StreamingLayoutPosition>>(),
            false,
        ) {
            Ok(charge) => charge,
            Err(error) => {
                return Err(error);
            },
        };
        let fragment = StreamingAtomFragment::new(start..end, atom.presentation, prepared.bounds, atom.baseline, maps);
        let item_charge = match item_charge_atom(
            &fragment,
            continuation,
            shaped.shaped_runs,
            prepared.glyphs,
            prepared.decorations,
        ) {
            Ok(items) => items,
            Err(error) => {
                return Err(error);
            },
        };
        self.finish_admission(
            StreamingLayoutFragment::OversizeAtom(fragment),
            continuation,
            placement.metrics,
            charge,
            item_charge,
        )
    }
}

/// Outcome of admitting one inline object whose presentation was shaped into `shaped` and
/// placed as `placement` reports: the ordered header and the object's adjacent gaps are checked,
/// the presentation is placed (see [`prepared_inline`]), the continuation advances to the
/// trailing gap, and the exact charges, which count the object's identity and order, must fit
/// the session's limits; the result is the next continuation.
pub open spec fn object_admission(
    binding: StreamingLayoutBinding,
    live: Option<StreamingLayoutContinuation>,
    object: StreamingInlineObject,
    metrics: StreamingInlineMetrics,
    shaped: ShapedInlineFacts,
    placement: InlinePlacementFacts,
) -> Result<StreamingLayoutContinuation, StreamingLayoutError> {
    let bytes = text_bytes(object.presentation);
    match header_check(binding, live, object.input_id, object.segment_policy_id, object.ordinal, object.leading) {
        Err(error) => Err(error),
        Ok(prior) => if !object_edges_valid(object) {
            Err(StreamingLayoutError::InvalidPosition)
        } else {
            match prepared_inline(binding, prior, metrics, object.width, object.height, bytes, object.run_lengths@, shaped, placement) {
                Err(error) => Err(error),
                Ok(prepared) => match after_inline(prior, prepared.start, object.trailing, prepared.inline_end, prepared.line_block_extent) {
                    Err(error) => Err(error),
                    Ok(next) => match inline_charge(
                        bytes.len() as usize,
                        prepared.decorations,
                        shaped.shaped_runs,
                        prepared.glyphs,
                        shaped.sizes,
                        0,
                        true,
                    ) {
                        Err(error) => Err(error),
                        Ok(charge) => match admission_check(
                            binding,
                            next,
                            placement.metrics,
                            charge,
                            inline_admission_items(object.leading, object.trailing, next, prepared, shaped.shaped_runs, 1),
                        ) {
                            Err(error) => Err(error),
                            Ok(_) => Ok(next),
                        },
                    },
                },
            }
        },
    }
}

impl<'a> StreamingLayoutSession<'a> {
    /// Atomically admits one ordered source-zero-width opaque object whose presentation the
    /// platform text system shaped into `shaped`, placed as `placement` reports. On success the
    /// session moves to the returned continuation and the admission holds exactly one object
    /// fragment and its exact charges; on any rejection the session is left as it was.
    pub fn admit_shaped_inline_object(
        &mut self,
        object: StreamingInlineObject,
        metrics: StreamingInlineMetrics,
        shaped: ShapedInlineFacts,
        placement: InlinePlacementFacts,
    ) -> (result: Result<StreamingLayoutAdmission, StreamingLayoutError>)
        requires
            old(self).wf(),
        ensures
            final(self).wf(),
            final(self).bound() == old(self).bound(),
            match result {
                Ok(admission) => {
                    let prior = old(self).live()->Some_0;
                    let prepared = prepared_inline(
                        old(self).bound(),
                        prior,
                        metrics,
                        object.width,
                        object.height,
                        text_bytes(object.presentation),
                        object.run_lengths@,
                        shaped,
                        placement,
                    )->Ok_0;
                    &&& object_admission(old(self).bound(), old(self).live(), object, metrics, shaped, placement)
                        == Ok::<_, StreamingLayoutError>(admission.continuation)
                    &&& final(self).live() == Some(admission.continuation)
                    &&& final(self).live_metrics() == placement.metrics
                    &&& admission.fragments@.len() == 1
                    &&& admission.fragments@[0] matches StreamingLayoutFragment::InlineObject(fragment)
                        && fragment.object_id() == object.id
                        && fragment.object_order() == object.order
                        && fragment.object_leading() == object.leading
                        && fragment.object_trailing() == object.trailing
                        && fragment.object_presentation() == object.presentation@
                        && fragment.object_bounds() == prepared.bounds
                        && fragment.object_baseline() == object.baseline
                        && fragment.object_maps() == inline_maps(object.leading, object.trailing, prepared)
                    &&& Ok::<_, StreamingLayoutError>(admission.charge) == inline_charge(
                        text_bytes(object.presentation).len() as usize,
                        prepared.decorations,
                        shaped.shaped_runs,
                        prepared.glyphs,
                        shaped.sizes,
                        0,
                        true,
                    )
                    &&& admission.item_charge == inline_admission_items(
                        object.leading,
                        object.trailing,
                        admission.continuation,
                        prepared,
                        shaped.shaped_runs,
                        1,
                    )
                },
                Err(error) => {
                    &&& object_admission(old(self).bound(), old(self).live(), object, metrics, shaped, placement)
                        == Err::<StreamingLayoutContinuation, _>(error)
                    &&& *final(self) == *old(self)
                },
            },
    {
        let prior = match self.validate_header(
            object.input_id,
            object.segment_policy_id,
            object.ordinal,
            object.leading,
        ) {
            Ok(prior) => prior,
            Err(error) => {
                return Err(error);
            },
        };
        match self.validate_object_edges(&object) {
            Ok(()) => {},
            Err(error) => {
                return Err(error);
            },
        }
        let prepared = match self.prepare_shaped_inline(
            prior,
            metrics,
            object.width,
            object.height,
            object.presentation.as_str(),
            object.run_lengths.as_slice(),
            shaped,
            placement,
        ) {
            Ok(prepared) => prepared,
            Err(error) => {
                return Err(error);
            },
        };
        let maps = [
            StreamingLayoutMap { logical_position: object.leading, position: prepared.bounds.origin },
            StreamingLayoutMap {
                logical_position: object.trailing,
                position: Point { x: prepared.inline_end, y: prepared.bounds.origin.y },
            },
        ];
        let continuation = match continue_after_inline(
            prior,
            prepared.start,
            object.trailing,
            prepared.inline_end,
            prepared.line_block_extent,
        ) {
            Ok(continuation) => continuation,
            Err(error) => {
                return Err(error);
            },
        };
        let presentation_bytes = object.presentation.as_str().as_bytes().len();
        let charge = match charge_inline_admission(
            presentation_bytes,
            prepared.decorations,
            shaped.shaped_runs,
            prepared.glyphs,
            shaped.sizes,
            0,
            true,
        ) {
            Ok(charge) => charge,
            Err(error) => {
                return Err(error);
            },
        };
        let fragment = StreamingObjectFragment::new(
            object.id,
            object.order,
            object.leading,
            object.trailing,
            object.presentation,
            prepared.bounds,
            object.baseline,
            maps,
        );
        let item_charge = match item_charge_object(
            &fragment,
            continuation,
            shaped.shaped_runs,
            prepared.glyphs,
            prepared.decorations,
        ) {
            Ok(items) => items,
            Err(error) => {
                return Err(error);
            },
        };
        self.finish_admission(
            StreamingLayoutFragment::InlineObject(fragment),
            continuation,
            placement.metrics,
            charge,
            item_charge,
        )
    }
}

/// How a segment's first glyph compares with the wrap width for placement: beyond it exactly
/// when placement put a wrap boundary before the first glyph.
pub open spec fn text_start_ordering(wraps: usize, leading_wrap: bool) -> PixelOrdering {
    if leading_wrap && wraps > 0 {
        PixelOrdering::Greater
    } else {
        PixelOrdering::Equal
    }
}

/// The prior continuation as a segment placed at `start` sees it.
pub open spec fn placed_prior(prior: StreamingLayoutContinuation, start: StreamingInlineStart) -> StreamingLayoutContinuation {
    StreamingLayoutContinuation {
        inline_offset: start.inline_offset,
        block_offset: start.block_offset,
        line_block_extent: start.line_block_extent,
        line_has_content: prior.line_has_content && !start.wrapped,
        visual_lines: start.visual_lines,
        ..prior
    }
}

/// The positions a text admission retains: its map positions, its range's ends and the next
/// position.
pub open spec fn text_admission_positions(
    range: Range<StreamingLayoutPosition>,
    maps: Seq<StreamingLayoutMap>,
    next: StreamingLayoutContinuation,
) -> Seq<StreamingLayoutPosition> {
    maps.map_values(|map: StreamingLayoutMap| map.logical_position) + seq![range.start, range.end, next.next_position]
}

/// Semantic records of one text admission.
pub open spec fn text_admission_items(
    range: Range<StreamingLayoutPosition>,
    maps: Seq<StreamingLayoutMap>,
    next: StreamingLayoutContinuation,
    style_runs: usize,
    shaped_runs: usize,
    glyphs: usize,
    decorations: usize,
    wraps: usize,
) -> Result<StreamingLayoutItemCharge, StreamingLayoutError> {
    let positions = text_admission_positions(range, maps, next);
    if positions_object_edges(positions) > usize::MAX {
        Err(StreamingLayoutError::Overflow(StreamingLayoutComponent::Objects))
    } else {
        Ok(
            StreamingLayoutItemCharge {
                text_payloads: 1,
                style_runs,
                shaped_runs,
                glyphs,
                decorations,
                wrap_facts: wraps,
                maps: maps.len() as usize,
                positions: positions.len() as usize,
                gap_witnesses: positions.len() as usize,
                object_ids: positions_object_edges(positions) as usize,
                object_orders: positions_object_edges(positions) as usize,
                fragments: 1,
                continuations: 1,
            },
        )
    }
}

/// The caret maps of an admitted segment: built from its shaped boundaries (see
/// [`text_maps_of`]), which must strictly increase up to the segment's byte length.
pub open spec fn admitted_maps(segment: StreamingTextSegment, shaped: ShapedTextFacts) -> Result<
    Seq<StreamingLayoutMap>,
    StreamingLayoutError,
> {
    let line_len = text_bytes(segment.text).len() as usize;
    match shaped.boundaries {
        Err(error) => Err(error),
        Ok(boundaries) => if !boundaries_end_at(boundaries@, line_len) {
            Err(StreamingLayoutError::InvalidSegment)
        } else {
            text_maps_of(segment.logical_range, line_len, boundaries@)
        },
    }
}

/// Where a shaped segment starts (see [`inline_start`]): on the next visual line when
/// placement put a wrap boundary before its first glyph and the current line has content.
pub open spec fn text_start(
    binding: StreamingLayoutBinding,
    prior: StreamingLayoutContinuation,
    shaped: ShapedTextFacts,
    placement: TextPlacementFacts,
) -> Result<StreamingInlineStart, StreamingLayoutError> {
    inline_start(
        prior,
        binding.line_height,
        text_start_ordering(shaped.wraps->Ok_0, shaped.leading_wrap),
        placement.next_line_block,
    )
}

/// Wrap facts a segment retains: those placement computed, less a leading wrap that moved the
/// segment to the next line.
pub open spec fn kept_wraps(shaped: ShapedTextFacts, start: StreamingInlineStart) -> usize {
    (shaped.wraps->Ok_0 - if start.wrapped { 1int } else { 0int }) as usize
}

/// Outcome of admitting one ordinary segment that the platform text system shaped into `shaped`
/// and placement laid out as `placement` reports: the segment is checked before shaping (see
/// [`text_segment_check`]), the shaped metrics must be usable, a leading wrap moves the segment
/// to the next line, the wrap facts, decoration runs, glyphs, maps and one fragment must fit
/// their limits, the continuation advances past the segment's last visual line, and the exact
/// charges must fit the session's limits; the result is the next continuation.
pub open spec fn text_admission(
    session: StreamingLayoutSession,
    segment: StreamingTextSegment,
    shaped: ShapedTextFacts,
    placement: TextPlacementFacts,
) -> Result<StreamingLayoutContinuation, StreamingLayoutError> {
    let binding = session.bound();
    let limits = binding.limits;
    let range = segment.logical_range;
    match text_segment_check(session, segment) {
        Err(error) => Err(error),
        Ok(prior) => if shaped.layout_metrics is Err {
            Err(shaped.layout_metrics->Err_0)
        } else if shaped.wraps is Err {
            Err(shaped.wraps->Err_0)
        } else {
            match text_start(binding, prior, shaped, placement) {
                Err(error) => Err(error),
                Ok(start) => {
                    let wraps = kept_wraps(shaped, start);
                    if wraps > limits.wraps {
                        Err(StreamingLayoutError::CapacityExceeded(StreamingLayoutComponent::WrapFacts))
                    } else if shaped.decorations is Err {
                        Err(shaped.decorations->Err_0)
                    } else if shaped.decorations->Ok_0 > limits.decorations {
                        Err(StreamingLayoutError::CapacityExceeded(StreamingLayoutComponent::Decorations))
                    } else if shaped.glyphs is Err {
                        Err(shaped.glyphs->Err_0)
                    } else if shaped.glyphs->Ok_0 > limits.glyphs {
                        Err(StreamingLayoutError::CapacityExceeded(StreamingLayoutComponent::Glyphs))
                    } else if admitted_maps(segment, shaped) is Err {
                        Err(admitted_maps(segment, shaped)->Err_0)
                    } else if admitted_maps(segment, shaped)->Ok_0.len() > limits.maps {
                        Err(StreamingLayoutError::CapacityExceeded(StreamingLayoutComponent::Maps))
                    } else if 1 > limits.fragments {
                        Err(StreamingLayoutError::CapacityExceeded(StreamingLayoutComponent::Fragments))
                    } else {
                        match after_text(
                            placed_prior(prior, start),
                            range.end,
                            wraps,
                            placement.inline_offset,
                            placement.line_block_extent,
                            placement.block_offset,
                            placement.metrics,
                        ) {
                            Err(error) => Err(error),
                            Ok(next) => if shaped.style_run_bytes is Err {
                                Err(shaped.style_run_bytes->Err_0)
                            } else {
                                match text_charge(
                                    text_bytes(segment.text).len() as usize,
                                    shaped.style_run_bytes->Ok_0,
                                    shaped.decorations->Ok_0,
                                    shaped.shaped_runs,
                                    shaped.glyphs->Ok_0,
                                    wraps,
                                    admitted_maps(segment, shaped)->Ok_0.len() as usize,
                                    shaped.sizes,
                                ) {
                                    Err(error) => Err(error),
                                    Ok(charge) => match text_admission_items(
                                        range,
                                        admitted_maps(segment, shaped)->Ok_0,
                                        next,
                                        segment.run_lengths@.len() as usize,
                                        shaped.shaped_runs,
                                        shaped.glyphs->Ok_0,
                                        shaped.decorations->Ok_0,
                                        wraps,
                                    ) {
                                        Err(error) => Err(error),
                                        Ok(items) => match admission_check(binding, next, placement.metrics, charge, items) {
                                            Err(error) => Err(error),
                                            Ok(_) => Ok(next),
                                        },
                                    },
                                }
                            },
                        }
                    }
                },
            }
        },
    }
}

impl<'a> StreamingLayoutSession<'a> {
    /// Atomically admits one ordered ordinary canonical segment that the platform text system
    /// shaped into `shaped`, laid out as `placement` reports. The segment is its own shaping
    /// context: only the compact continuation crosses calls. On success the session moves to
    /// the returned continuation and the admission holds exactly one text fragment and its
    /// exact charges; on any rejection the session is left as it was.
    #[verifier::rlimit(40)]
    pub fn admit_shaped_text(
        &mut self,
        segment: StreamingTextSegment,
        shaped: ShapedTextFacts,
        placement: TextPlacementFacts,
    ) -> (result: Result<StreamingLayoutAdmission, StreamingLayoutError>)
        requires
            old(self).wf(),
        ensures
            final(self).wf(),
            final(self).bound() == old(self).bound(),
            match result {
                Ok(admission) => {
                    let prior = old(self).live()->Some_0;
                    let start = text_start(old(self).bound(), prior, shaped, placement)->Ok_0;
                    let maps = admitted_maps(segment, shaped)->Ok_0;
                    &&& text_admission(*old(self), segment, shaped, placement)
                        == Ok::<_, StreamingLayoutError>(admission.continuation)
                    &&& final(self).live() == Some(admission.continuation)
                    &&& final(self).live_metrics() == placement.metrics
                    &&& admission.fragments@.len() == 1
                    &&& admission.fragments@[0] matches StreamingLayoutFragment::Text(fragment)
                        && fragment.text_range() == segment.logical_range
                        && fragment.text_content() == segment.text@
                        && fragment.text_origin() == (Point { x: Pixels(0), y: start.block_offset })
                        && fragment.text_line_metrics() == (
                        start.inline_offset,
                        old(self).bound().line_height,
                        start.line_block_extent,
                    ) && fragment.text_maps() == maps
                    &&& Ok::<_, StreamingLayoutError>(admission.charge) == text_charge(
                        text_bytes(segment.text).len() as usize,
                        shaped.style_run_bytes->Ok_0,
                        shaped.decorations->Ok_0,
                        shaped.shaped_runs,
                        shaped.glyphs->Ok_0,
                        kept_wraps(shaped, start),
                        maps.len() as usize,
                        shaped.sizes,
                    )
                    &&& Ok::<_, StreamingLayoutError>(admission.item_charge) == text_admission_items(
                        segment.logical_range,
                        maps,
                        admission.continuation,
                        segment.run_lengths@.len() as usize,
                        shaped.shaped_runs,
                        shaped.glyphs->Ok_0,
                        shaped.decorations->Ok_0,
                        kept_wraps(shaped, start),
                    )
                },
                Err(error) => {
                    &&& text_admission(*old(self), segment, shaped, placement)
                        == Err::<StreamingLayoutContinuation, _>(error)
                    &&& *final(self) == *old(self)
                },
            },
    {
        let prior = match self.check_text_segment(&segment) {
            Ok(prior) => prior,
            Err(error) => {
                return Err(error);
            },
        };
        let limits = self.binding().limits;
        let line_height = self.binding().line_height;
        match shaped.layout_metrics {
            Ok(()) => {},
            Err(error) => {
                return Err(error);
            },
        }
        let computed_wraps = match shaped.wraps {
            Ok(count) => count,
            Err(error) => {
                return Err(error);
            },
        };
        let ordering = if shaped.leading_wrap && computed_wraps > 0 {
            PixelOrdering::Greater
        } else {
            PixelOrdering::Equal
        };
        let start = match start_inline(prior, line_height, ordering, placement.next_line_block) {
            Ok(start) => start,
            Err(error) => {
                return Err(error);
            },
        };
        let wraps = if start.wrapped {
            computed_wraps - 1
        } else {
            computed_wraps
        };
        if wraps > limits.wraps {
            return Err(StreamingLayoutError::CapacityExceeded(StreamingLayoutComponent::WrapFacts));
        }
        let decorations = match shaped.decorations {
            Ok(count) => count,
            Err(error) => {
                return Err(error);
            },
        };
        if decorations > limits.decorations {
            return Err(StreamingLayoutError::CapacityExceeded(StreamingLayoutComponent::Decorations));
        }
        let glyphs = match shaped.glyphs {
            Ok(count) => count,
            Err(error) => {
                return Err(error);
            },
        };
        if glyphs > limits.glyphs {
            return Err(StreamingLayoutError::CapacityExceeded(StreamingLayoutComponent::Glyphs));
        }
        let boundaries = match shaped.boundaries {
            Ok(boundaries) => boundaries,
            Err(error) => {
                return Err(error);
            },
        };
        let line_len = segment.text.as_str().as_bytes().len();
        if !check_boundaries(&boundaries, line_len) {
            return Err(StreamingLayoutError::InvalidSegment);
        }
        assert(line_len == text_bytes(segment.text).len());
        let maps = match text_maps(&segment.logical_range, line_len, &boundaries) {
            Ok(maps) => maps,
            Err(error) => {
                return Err(error);
            },
        };
        assert(admitted_maps(segment, shaped) == Ok::<_, StreamingLayoutError>(maps@));
        if maps.len() > limits.maps {
            return Err(StreamingLayoutError::CapacityExceeded(StreamingLayoutComponent::Maps));
        }
        if 1 > limits.fragments {
            return Err(StreamingLayoutError::CapacityExceeded(StreamingLayoutComponent::Fragments));
        }
        let placed = StreamingLayoutContinuation {
            inline_offset: start.inline_offset,
            block_offset: start.block_offset,
            line_block_extent: start.line_block_extent,
            line_has_content: prior.line_has_content && !start.wrapped,
            visual_lines: start.visual_lines,
            ..prior
        };
        let range_start = segment.logical_range.start;
        let range_end = segment.logical_range.end;
        let continuation = match continue_after_text(
            placed,
            range_end,
            wraps,
            placement.inline_offset,
            placement.line_block_extent,
            placement.block_offset,
            placement.metrics,
        ) {
            Ok(continuation) => continuation,
            Err(error) => {
                return Err(error);
            },
        };
        let style_run_bytes = match shaped.style_run_bytes {
            Ok(bytes) => bytes,
            Err(error) => {
                return Err(error);
            },
        };
        let charge = match charge_text_admission(
            segment.text.as_str().as_bytes().len(),
            style_run_bytes,
            decorations,
            shaped.shaped_runs,
            glyphs,
            wraps,
            maps.len(),
            shaped.sizes,
        ) {
            Ok(charge) => charge,
            Err(error) => {
                return Err(error);
            },
        };
        let style_runs = segment.run_lengths.len();
        let ghost map_view = maps@;
        let fragment = StreamingTextFragment::new(
            range_start..range_end,
            segment.text,
            Point { x: Pixels::zero(), y: start.block_offset },
            start.inline_offset,
            line_height,
            start.line_block_extent,
            maps,
        );
        proof {
            assert(text_admission_positions(segment.logical_range, map_view, continuation)
                =~= crate::fragments::text_positions(fragment, continuation));
        }
        let item_charge = match item_charge_text(
            &fragment,
            continuation,
            style_runs,
            shaped.shaped_runs,
            glyphs,
            decorations,
            wraps,
        ) {
            Ok(items) => items,
            Err(error) => {
                return Err(error);
            },
        };
        self.finish_admission(
            StreamingLayoutFragment::Text(fragment),
            continuation,
            placement.metrics,
            charge,
            item_charge,
        )
    }
}

/// A cancelled session rejects every shaped text, atom and object admission as cancelled.
pub proof fn lemma_cancelled_session_rejects_admissions(
    session: StreamingLayoutSession,
    segment: StreamingTextSegment,
    shaped_text: ShapedTextFacts,
    text_placement: TextPlacementFacts,
    atom: StreamingOversizeAtom,
    object: StreamingInlineObject,
    metrics: StreamingInlineMetrics,
    shaped: ShapedInlineFacts,
    placement: InlinePlacementFacts,
)
    requires
        session.live() is None,
    ensures
        text_admission(session, segment, shaped_text, text_placement) == Err::<
            StreamingLayoutContinuation,
            _,
        >(StreamingLayoutError::Cancelled),
        atom_admission(session.bound(), session.live(), atom, metrics, shaped, placement) == Err::<
            StreamingLayoutContinuation,
            _,
        >(StreamingLayoutError::Cancelled),
        object_admission(session.bound(), session.live(), object, metrics, shaped, placement)
            == Err::<StreamingLayoutContinuation, _>(StreamingLayoutError::Cancelled),
{
}

/// Every admitted text fragment's caret maps lie in order along its segment: the last maps the
/// segment's end, byte offsets strictly increase within the range, a boundary at index zero maps
/// its start, and every interior boundary maps an object-free position.
pub proof fn lemma_admitted_text_maps_are_ordered(
    session: StreamingLayoutSession,
    segment: StreamingTextSegment,
    shaped: ShapedTextFacts,
    placement: TextPlacementFacts,
)
    requires
        text_admission(session, segment, shaped, placement) is Ok,
    ensures
        ({
            let maps = admitted_maps(segment, shaped)->Ok_0;
            let range = segment.logical_range;
            let boundaries = shaped.boundaries->Ok_0@;
            &&& maps.len() > 0
            &&& maps.last().logical_position == range.end
            &&& boundaries[0].0 == 0 ==> maps[0].logical_position == range.start
            &&& forall|i: int, j: int|
                0 <= i < j < maps.len() ==> maps[i].logical_position.byte_offset
                    < maps[j].logical_position.byte_offset
            &&& forall|i: int|
                0 <= i < maps.len() ==> range.start.byte_offset <= #[trigger] maps[i].logical_position.byte_offset
                    <= range.end.byte_offset
            &&& forall|i: int|
                0 <= i < maps.len() && 0 < boundaries[i].0 < text_bytes(segment.text).len()
                    ==> #[trigger] maps[i].logical_position.gap == (crate::position::StreamingObjectGap {
                    preceding: crate::position::StreamingObjectEdge::NoObject,
                    following: crate::position::StreamingObjectEdge::NoObject,
                })
        }),
{
    let line_len = text_bytes(segment.text).len() as usize;
    crate::maps::lemma_text_maps_are_ordered(segment.logical_range, line_len, shaped.boundaries->Ok_0@);
}

} // verus!
