use gpui_bounded::advance::{continue_after_inline, continue_after_text, start_inline, StreamingInlineStart};
use gpui_bounded::error::{StreamingLayoutComponent, StreamingLayoutError, StreamingLayoutMetric};
use gpui_bounded::geometry::{PixelClass, PixelOrdering, Pixels};
use gpui_bounded::position::StreamingLayoutPosition;
use gpui_bounded::session::{StreamingLayoutContinuation, StreamingPlacementMetrics};

fn px(value: f32) -> Pixels {
    Pixels(value.to_bits())
}

fn pos(byte_offset: u64) -> StreamingLayoutPosition {
    StreamingLayoutPosition::at(byte_offset)
}

fn prior(line_has_content: bool) -> StreamingLayoutContinuation {
    StreamingLayoutContinuation {
        input_id: 7,
        segment_policy_id: 11,
        next_ordinal: if line_has_content { 1 } else { 0 },
        next_position: pos(3),
        inline_offset: if line_has_content { px(70.) } else { px(0.) },
        block_offset: px(0.),
        line_block_extent: px(14.),
        line_has_content,
        visual_lines: 0,
        finalized_logical_lines: 0,
        line_finalized: false,
        ended: false,
    }
}

fn metrics() -> StreamingPlacementMetrics {
    StreamingPlacementMetrics {
        inline_offset: PixelClass::Positive,
        block_offset: PixelClass::Zero,
        line_block_extent: PixelClass::Positive,
        line_block_extent_to_line_height: PixelOrdering::Equal,
    }
}

#[test]
fn overflowing_items_wrap_only_after_content() {
    let wrapped = start_inline(prior(true), px(14.), PixelOrdering::Greater, Ok(px(14.))).unwrap();
    assert_eq!(
        wrapped,
        StreamingInlineStart {
            wrapped: true,
            inline_offset: px(0.),
            block_offset: px(14.),
            line_block_extent: px(14.),
            visual_lines: 1,
        }
    );
    let first = start_inline(prior(false), px(14.), PixelOrdering::Greater, Ok(px(14.))).unwrap();
    assert!(!first.wrapped);
    assert_eq!(first.inline_offset, px(0.));
    assert_eq!(first.visual_lines, 0);
    let fitting = start_inline(prior(true), px(14.), PixelOrdering::Equal, Ok(px(14.))).unwrap();
    assert!(!fitting.wrapped);
    assert_eq!(fitting.inline_offset, px(70.));
    let overflow = Err(StreamingLayoutError::Overflow(StreamingLayoutComponent::Continuation));
    assert_eq!(
        start_inline(prior(true), px(14.), PixelOrdering::Greater, overflow),
        Err(StreamingLayoutError::Overflow(StreamingLayoutComponent::Continuation))
    );
    let mut saturated = prior(true);
    saturated.visual_lines = u64::MAX;
    assert_eq!(
        start_inline(saturated, px(14.), PixelOrdering::Greater, Ok(px(14.))),
        Err(StreamingLayoutError::Overflow(StreamingLayoutComponent::Continuation))
    );
}

#[test]
fn admitted_items_mark_their_line_nonempty() {
    let start = start_inline(prior(false), px(14.), PixelOrdering::Less, Ok(px(14.))).unwrap();
    let next = continue_after_inline(prior(false), start, pos(3), px(0.), px(20.)).unwrap();
    assert!(next.line_has_content);
    assert!(!next.line_finalized);
    assert_eq!(next.next_ordinal, 1);
    assert_eq!(next.inline_offset, px(0.));
    assert_eq!(next.line_block_extent, px(20.));
    let mut last = prior(true);
    last.next_ordinal = u64::MAX;
    assert_eq!(
        continue_after_inline(last, start, pos(3), px(0.), px(20.)),
        Err(StreamingLayoutError::Overflow(StreamingLayoutComponent::Continuation))
    );
}

#[test]
fn text_segments_complete_one_visual_line_per_wrap() {
    let next = continue_after_text(prior(true), pos(9), 2, Ok(px(12.)), Ok(px(14.)), Ok(px(28.)), StreamingPlacementMetrics {
        block_offset: PixelClass::Positive,
        ..metrics()
    })
    .unwrap();
    assert_eq!(next.visual_lines, 2);
    assert_eq!(next.next_ordinal, 2);
    assert_eq!(next.next_position, pos(9));
    assert!(next.line_has_content);
    assert_eq!(
        continue_after_text(prior(true), pos(9), 0, Ok(px(12.)), Ok(px(14.)), Ok(px(0.)), StreamingPlacementMetrics {
            inline_offset: PixelClass::Negative,
            ..metrics()
        }),
        Err(StreamingLayoutError::InvalidMetric(StreamingLayoutMetric::InlineOffset))
    );
    let overflow = StreamingLayoutError::Overflow(StreamingLayoutComponent::Continuation);
    assert_eq!(
        continue_after_text(prior(true), pos(9), 0, Err(overflow), Ok(px(14.)), Ok(px(0.)), metrics()),
        Err(overflow)
    );
}
