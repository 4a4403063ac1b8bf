use vstd::prelude::*;

verus! {

/// Pixel input identified by a typed invalid-metric rejection.
#[derive(Clone, Copy, Debug, PartialEq, Eq, Structural)]
pub enum StreamingLayoutMetric {
    /// Session wrapping width.
    WrapWidth,
    /// Session shaping font size.
    FontSize,
    /// Session visual-line height.
    LineHeight,
    /// Carried inline placement.
    InlineOffset,
    /// Carried block placement.
    BlockOffset,
    /// Current visual line's maximum block extent.
    LineBlockExtent,
    /// Oversize atom width.
    AtomWidth,
    /// Oversize atom height.
    AtomHeight,
    /// Oversize atom baseline.
    AtomBaseline,
    /// A paint origin coordinate.
    PaintOrigin,
    /// A hit-test coordinate.
    HitPosition,
}

/// Retained-payload component used by admission errors and exact charges.
#[derive(Clone, Copy, Debug, PartialEq, Eq, Structural)]
pub enum StreamingLayoutComponent {
    /// Ordinary segment UTF-8 text.
    SegmentText,
    /// Style-run records and their variable font metadata.
    Runs,
    /// Decoration-run records.
    Decorations,
    /// Shaped glyph records.
    Glyphs,
    /// Wrap-placement facts.
    WrapFacts,
    /// Caret and hit-test map facts.
    Maps,
    /// Inline-object identity, order, and geometry facts.
    Objects,
    /// Fragment records.
    Fragments,
    /// Compact continuation record.
    Continuation,
    /// Total retained component payload.
    Total,
}

/// Typed streaming-layout rejection. Rejection never advances session continuation.
#[derive(Clone, Copy, Debug, PartialEq, Eq, Structural)]
pub enum StreamingLayoutError {
    /// A configured limit was zero or a metric was not positive.
    InvalidConfiguration,
    /// A pixel input was non-finite, or zero/negative where forbidden.
    InvalidMetric(StreamingLayoutMetric),
    /// The submitted immutable-input identity differs from the session binding.
    InputMismatch,
    /// The submitted segment policy differs from the session binding.
    SegmentPolicyMismatch,
    /// The ordinal or exact logical range is not the next ordered input.
    OutOfOrder,
    /// A composite position or adjacent-object witness is malformed.
    InvalidPosition,
    /// Text or style runs do not exactly describe the logical range.
    InvalidSegment,
    /// The session already accepted end of source.
    Ended,
    /// Actual retained component payload would exceed a finite limit.
    CapacityExceeded(StreamingLayoutComponent),
    /// Exact arithmetic or an integer conversion could not be represented.
    Overflow(StreamingLayoutComponent),
    /// The session was cancelled.
    Cancelled,
}

} // verus!
