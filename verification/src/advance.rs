use vstd::prelude::*;
use crate::error::{StreamingLayoutComponent, StreamingLayoutError};
use crate::geometry::{PixelOrdering, Pixels};
use crate::position::StreamingLayoutPosition;
use crate::session::{
    continuation_check, validate_continuation, StreamingLayoutContinuation,
    StreamingPlacementMetrics,
};

verus! {

/// Where an inline item starts: on the current visual line, or at the start of the next one.
#[derive(Clone, Copy, Debug, PartialEq, Eq, Structural)]
pub struct StreamingInlineStart {
    /// Whether the item starts a new visual line.
    pub wrapped: bool,
    /// Inline offset at which the item starts.
    pub inline_offset: Pixels,
    /// Block offset of the item's visual line.
    pub block_offset: Pixels,
    /// Block extent of the item's visual line before the item.
    pub line_block_extent: Pixels,
    /// Completed visual lines before the item's line.
    pub visual_lines: u64,
}

/// Where an inline item starts after `prior`: an item that would end beyond the wrap width
/// (`proposed_to_wrap_width` compares its proposed end with the wrap width) starts the next
/// visual line, at the block offset `next_line_block`, only when the current line already has
/// content; otherwise, and in particular on an empty line however wide the item is, it starts
/// where the prior item ended.
pub open spec fn inline_start(
    prior: StreamingLayoutContinuation,
    line_height: Pixels,
    proposed_to_wrap_width: PixelOrdering,
    next_line_block: Result<Pixels, StreamingLayoutError>,
) -> Result<StreamingInlineStart, StreamingLayoutError> {
    if prior.line_has_content && proposed_to_wrap_width is Greater {
        match next_line_block {
            Err(error) => Err(error),
            Ok(block) => if prior.visual_lines == u64::MAX {
                Err(StreamingLayoutError::Overflow(StreamingLayoutComponent::Continuation))
            } else {
                Ok(
                    StreamingInlineStart {
                        wrapped: true,
                        inline_offset: Pixels(0),
                        block_offset: block,
                        line_block_extent: line_height,
                        visual_lines: (prior.visual_lines + 1) as u64,
                    },
                )
            },
        }
    } else {
        Ok(
            StreamingInlineStart {
                wrapped: false,
                inline_offset: prior.inline_offset,
                block_offset: prior.block_offset,
                line_block_extent: prior.line_block_extent,
                visual_lines: prior.visual_lines,
            },
        )
    }
}

/// Places one inline item (see [`inline_start`]).
pub fn start_inline(
    prior: StreamingLayoutContinuation,
    line_height: Pixels,
    proposed_to_wrap_width: PixelOrdering,
    next_line_block: Result<Pixels, StreamingLayoutError>,
) -> (result: Result<StreamingInlineStart, StreamingLayoutError>)
    ensures
        result == inline_start(prior, line_height, proposed_to_wrap_width, next_line_block),
{
    if prior.line_has_content && proposed_to_wrap_width == PixelOrdering::Greater {
        let block = match next_line_block {
            Ok(block) => block,
            Err(error) => {
                return Err(error);
            },
        };
        if prior.visual_lines == u64::MAX {
            return Err(StreamingLayoutError::Overflow(StreamingLayoutComponent::Continuation));
        }
        Ok(
            StreamingInlineStart {
                wrapped: true,
                inline_offset: Pixels(0),
                block_offset: block,
                line_block_extent: line_height,
                visual_lines: prior.visual_lines + 1,
            },
        )
    } else {
        Ok(
            StreamingInlineStart {
                wrapped: false,
                inline_offset: prior.inline_offset,
                block_offset: prior.block_offset,
                line_block_extent: prior.line_block_extent,
                visual_lines: prior.visual_lines,
            },
        )
    }
}

/// The continuation after an inline item placed at `start` and ending at `inline_end`, on a line
/// whose block extent is now `line_block_extent`: the next ordinal and position, the line marked
/// nonempty and not finalized, and every other fact carried over.
pub open spec fn after_inline(
    prior: StreamingLayoutContinuation,
    start: StreamingInlineStart,
    next_position: StreamingLayoutPosition,
    inline_end: Pixels,
    line_block_extent: Pixels,
) -> Result<StreamingLayoutContinuation, StreamingLayoutError> {
    if prior.next_ordinal == u64::MAX {
        Err(StreamingLayoutError::Overflow(StreamingLayoutComponent::Continuation))
    } else {
        Ok(
            StreamingLayoutContinuation {
                next_ordinal: (prior.next_ordinal + 1) as u64,
                next_position,
                inline_offset: inline_end,
                block_offset: start.block_offset,
                line_block_extent,
                line_has_content: true,
                visual_lines: start.visual_lines,
                line_finalized: false,
                ..prior
            },
        )
    }
}

/// The continuation after one admitted oversize atom or inline object (see [`after_inline`]).
pub fn continue_after_inline(
    prior: StreamingLayoutContinuation,
    start: StreamingInlineStart,
    next_position: StreamingLayoutPosition,
    inline_end: Pixels,
    line_block_extent: Pixels,
) -> (result: Result<StreamingLayoutContinuation, StreamingLayoutError>)
    ensures
        result == after_inline(prior, start, next_position, inline_end, line_block_extent),
{
    if prior.next_ordinal == u64::MAX {
        return Err(StreamingLayoutError::Overflow(StreamingLayoutComponent::Continuation));
    }
    Ok(
        StreamingLayoutContinuation {
            next_ordinal: prior.next_ordinal + 1,
            next_position,
            inline_offset: inline_end,
            block_offset: start.block_offset,
            line_block_extent,
            line_has_content: true,
            visual_lines: start.visual_lines,
            line_finalized: false,
            ..prior
        },
    )
}

/// The continuation after one shaped text segment that wrapped `wrap_count` times: its inline
/// offset, its block offset and its line's block extent as placement computed them (or the
/// overflow it reported), the next ordinal and position, the line marked nonempty and not
/// finalized, `wrap_count` more completed visual lines, and the result valid under `metrics`.
pub open spec fn after_text(
    prior: StreamingLayoutContinuation,
    next_position: StreamingLayoutPosition,
    wrap_count: usize,
    inline_offset: Result<Pixels, StreamingLayoutError>,
    line_block_extent: Result<Pixels, StreamingLayoutError>,
    block_offset: Result<Pixels, StreamingLayoutError>,
    metrics: StreamingPlacementMetrics,
) -> Result<StreamingLayoutContinuation, StreamingLayoutError> {
    match (inline_offset, line_block_extent) {
        (Err(error), _) => Err(error),
        (Ok(_), Err(error)) => Err(error),
        (Ok(inline), Ok(extent)) => if prior.next_ordinal == u64::MAX {
            Err(StreamingLayoutError::Overflow(StreamingLayoutComponent::Continuation))
        } else {
            match block_offset {
                Err(error) => Err(error),
                Ok(block) => if prior.visual_lines + wrap_count > u64::MAX {
                    Err(StreamingLayoutError::Overflow(StreamingLayoutComponent::Continuation))
                } else {
                    let next = StreamingLayoutContinuation {
                        next_ordinal: (prior.next_ordinal + 1) as u64,
                        next_position,
                        inline_offset: inline,
                        block_offset: block,
                        line_block_extent: extent,
                        line_has_content: true,
                        visual_lines: (prior.visual_lines + wrap_count) as u64,
                        line_finalized: false,
                        ..prior
                    };
                    match continuation_check(next, metrics) {
                        Err(error) => Err(error),
                        Ok(()) => Ok(next),
                    }
                },
            }
        },
    }
}

/// The continuation after one shaped text segment (see [`after_text`]).
pub fn continue_after_text(
    prior: StreamingLayoutContinuation,
    next_position: StreamingLayoutPosition,
    wrap_count: usize,
    inline_offset: Result<Pixels, StreamingLayoutError>,
    line_block_extent: Result<Pixels, StreamingLayoutError>,
    block_offset: Result<Pixels, StreamingLayoutError>,
    metrics: StreamingPlacementMetrics,
) -> (result: Result<StreamingLayoutContinuation, StreamingLayoutError>)
    ensures
        result == after_text(
            prior,
            next_position,
            wrap_count,
            inline_offset,
            line_block_extent,
            block_offset,
            metrics,
        ),
{
    let inline = match inline_offset {
        Ok(inline) => inline,
        Err(error) => {
            return Err(error);
        },
    };
    let extent = match line_block_extent {
        Ok(extent) => extent,
        Err(error) => {
            return Err(error);
        },
    };
    if prior.next_ordinal == u64::MAX {
        return Err(StreamingLayoutError::Overflow(StreamingLayoutComponent::Continuation));
    }
    let block = match block_offset {
        Ok(block) => block,
        Err(error) => {
            return Err(error);
        },
    };
    let visual_lines = match prior.visual_lines.checked_add(wrap_count as u64) {
        Some(lines) => lines,
        None => {
            return Err(StreamingLayoutError::Overflow(StreamingLayoutComponent::Continuation));
        },
    };
    let next = StreamingLayoutContinuation {
        next_ordinal: prior.next_ordinal + 1,
        next_position,
        inline_offset: inline,
        block_offset: block,
        line_block_extent: extent,
        line_has_content: true,
        visual_lines,
        line_finalized: false,
        ..prior
    };
    match validate_continuation(next, metrics) {
        Ok(()) => Ok(next),
        Err(error) => Err(error),
    }
}

/// Every admitted text segment, atom or object leaves its visual line nonempty and not
/// finalized, advances the ordinal by one and keeps the immutable-input identities, the
/// finalized-line count and the terminal state; an inline item wraps exactly when its line
/// already had content and it would overflow the wrap width, and wrapping completes exactly one
/// visual line.
pub proof fn lemma_admitted_items_occupy_their_line(
    prior: StreamingLayoutContinuation,
    line_height: Pixels,
    proposed_to_wrap_width: PixelOrdering,
    next_line_block: Result<Pixels, StreamingLayoutError>,
    next_position: StreamingLayoutPosition,
    inline_end: Pixels,
    line_block_extent: Pixels,
)
    requires
        inline_start(prior, line_height, proposed_to_wrap_width, next_line_block) is Ok,
    ensures
        ({
            let start = inline_start(prior, line_height, proposed_to_wrap_width, next_line_block)->Ok_0;
            &&& start.wrapped == (prior.line_has_content && proposed_to_wrap_width is Greater)
            &&& start.visual_lines == prior.visual_lines + (if start.wrapped { 1int } else { 0int })
            &&& (start.wrapped ==> start.inline_offset == Pixels(0) && start.line_block_extent
                == line_height)
            &&& match after_inline(prior, start, next_position, inline_end, line_block_extent) {
                Ok(next) => {
                    &&& next.line_has_content
                    &&& !next.line_finalized
                    &&& next.next_ordinal == prior.next_ordinal + 1
                    &&& next.input_id == prior.input_id
                    &&& next.segment_policy_id == prior.segment_policy_id
                    &&& next.finalized_logical_lines == prior.finalized_logical_lines
                    &&& next.ended == prior.ended
                    &&& next.visual_lines == start.visual_lines
                },
                Err(error) => prior.next_ordinal == u64::MAX && error
                    == StreamingLayoutError::Overflow(StreamingLayoutComponent::Continuation),
            }
        }),
{
}

/// A shaped text segment leaves its last visual line nonempty and not finalized, advances the
/// ordinal by one, and completes exactly as many visual lines as it wrapped.
pub proof fn lemma_text_segments_occupy_their_line(
    prior: StreamingLayoutContinuation,
    next_position: StreamingLayoutPosition,
    wrap_count: usize,
    inline_offset: Result<Pixels, StreamingLayoutError>,
    line_block_extent: Result<Pixels, StreamingLayoutError>,
    block_offset: Result<Pixels, StreamingLayoutError>,
    metrics: StreamingPlacementMetrics,
)
    requires
        after_text(prior, next_position, wrap_count, inline_offset, line_block_extent, block_offset, metrics) is Ok,
    ensures
        ({
            let next = after_text(
                prior,
                next_position,
                wrap_count,
                inline_offset,
                line_block_extent,
                block_offset,
                metrics,
            )->Ok_0;
            &&& next.line_has_content
            &&& !next.line_finalized
            &&& next.next_ordinal == prior.next_ordinal + 1
            &&& next.next_position == next_position
            &&& next.visual_lines == prior.visual_lines + wrap_count
            &&& next.finalized_logical_lines == prior.finalized_logical_lines
            &&& next.input_id == prior.input_id
            &&& next.segment_policy_id == prior.segment_policy_id
            &&& continuation_check(next, metrics) is Ok
        }),
{
}

/// The continuation after a text segment carries exactly the placement the segment reported:
/// its inline offset, its last line's block extent (the line height whenever it wrapped) and
/// block offset, and the segment's end as the next position. An inline item's continuation
/// likewise ends at its inline end on its own line with the line's new block extent.
pub proof fn lemma_continuations_carry_the_reported_placement(
    prior: StreamingLayoutContinuation,
    next_position: StreamingLayoutPosition,
    wrap_count: usize,
    inline_offset: Result<Pixels, StreamingLayoutError>,
    line_block_extent: Result<Pixels, StreamingLayoutError>,
    block_offset: Result<Pixels, StreamingLayoutError>,
    metrics: StreamingPlacementMetrics,
    start: StreamingInlineStart,
    inline_end: Pixels,
    inline_extent: Pixels,
)
    ensures
        after_text(prior, next_position, wrap_count, inline_offset, line_block_extent, block_offset, metrics)
            is Ok ==> {
            let next = after_text(
                prior,
                next_position,
                wrap_count,
                inline_offset,
                line_block_extent,
                block_offset,
                metrics,
            )->Ok_0;
            &&& inline_offset is Ok && line_block_extent is Ok && block_offset is Ok
            &&& next.inline_offset == inline_offset->Ok_0
            &&& next.line_block_extent == line_block_extent->Ok_0
            &&& next.block_offset == block_offset->Ok_0
            &&& next.next_position == next_position
        },
        after_inline(prior, start, next_position, inline_end, inline_extent) is Ok ==> {
            let next = after_inline(prior, start, next_position, inline_end, inline_extent)->Ok_0;
            &&& next.inline_offset == inline_end
            &&& next.line_block_extent == inline_extent
            &&& next.block_offset == start.block_offset
            &&& next.next_position == next_position
        },
{
}

} // verus!
