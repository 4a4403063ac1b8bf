use vstd::prelude::*;
use crate::error::StreamingLayoutError;

verus! {

/// Stable fixed-size identity for one source-zero-width object.
#[derive(Clone, Copy, Debug, Default, PartialEq, Eq, Hash, Structural)]
pub struct StreamingObjectId(pub u128);

/// Stable fixed-size order key for one object at its UTF-8 anchor.
#[derive(Clone, Copy, Debug, Default, PartialEq, Eq, PartialOrd, Ord, Hash, Structural)]
pub struct StreamingObjectOrder(pub u128);

/// One edge of an exact adjacent-object gap witness.
#[derive(Clone, Copy, Debug, PartialEq, Eq, Hash, Structural)]
pub enum StreamingObjectEdge {
    /// No objects exist at this byte offset.
    NoObject,
    /// The gap is before the first object at this byte offset.
    BeforeAll,
    /// An immediately adjacent object.
    Object {
        /// Opaque object identity.
        id: StreamingObjectId,
        /// Object order key at this anchor.
        order: StreamingObjectOrder,
    },
    /// The gap is after the last object at this byte offset.
    AfterAll,
}

/// Constant-size exact witness for one gap between adjacent zero-width objects.
#[derive(Clone, Copy, Debug, PartialEq, Eq, Hash, Structural)]
pub struct StreamingObjectGap {
    /// Immediately preceding object or explicit outer edge.
    pub preceding: StreamingObjectEdge,
    /// Immediately following object or explicit outer edge.
    pub following: StreamingObjectEdge,
}

/// A gap witness is well formed: the sole gap of an object-free anchor, the gap before the first
/// object, the gap after the last object, or a gap between two distinct objects in strictly
/// increasing order.
pub open spec fn gap_is_valid(gap: StreamingObjectGap) -> bool {
    match (gap.preceding, gap.following) {
        (StreamingObjectEdge::NoObject, StreamingObjectEdge::NoObject) => true,
        (StreamingObjectEdge::BeforeAll, StreamingObjectEdge::Object { .. }) => true,
        (StreamingObjectEdge::Object { .. }, StreamingObjectEdge::AfterAll) => true,
        (
            StreamingObjectEdge::Object { id: preceding_id, order: preceding },
            StreamingObjectEdge::Object { id: following_id, order: following },
        ) => preceding_id != following_id && preceding.0 < following.0,
        _ => false,
    }
}

/// The gap lies after every object at its anchor (or the anchor has none).
pub open spec fn gap_is_terminal(gap: StreamingObjectGap) -> bool {
    (gap.preceding is NoObject && gap.following is NoObject) || gap.following is AfterAll
}

/// The gap lies before every object at its anchor (or the anchor has none).
pub open spec fn gap_is_source_range_end(gap: StreamingObjectGap) -> bool {
    (gap.preceding is NoObject && gap.following is NoObject) || gap.preceding is BeforeAll
}

/// Number of object edges a gap names (each named edge carries one identity and one order key).
pub open spec fn gap_object_edges(gap: StreamingObjectGap) -> nat {
    (if gap.preceding is Object { 1nat } else { 0nat }) + (if gap.following is Object {
        1nat
    } else {
        0nat
    })
}

impl StreamingObjectGap {
    /// The sole position at an anchor with no zero-width objects.
    pub fn no_objects() -> (gap: Self)
        ensures
            gap.preceding == StreamingObjectEdge::NoObject,
            gap.following == StreamingObjectEdge::NoObject,
    {
        Self { preceding: StreamingObjectEdge::NoObject, following: StreamingObjectEdge::NoObject }
    }

    /// The gap before the first named object.
    pub fn before(id: StreamingObjectId, order: StreamingObjectOrder) -> (gap: Self)
        ensures
            gap.preceding == StreamingObjectEdge::BeforeAll,
            gap.following == (StreamingObjectEdge::Object { id, order }),
    {
        Self {
            preceding: StreamingObjectEdge::BeforeAll,
            following: StreamingObjectEdge::Object { id, order },
        }
    }

    /// The gap between two stated adjacent objects.
    pub fn between(
        preceding_id: StreamingObjectId,
        preceding_order: StreamingObjectOrder,
        following_id: StreamingObjectId,
        following_order: StreamingObjectOrder,
    ) -> (gap: Self)
        ensures
            gap.preceding == (StreamingObjectEdge::Object {
                id: preceding_id,
                order: preceding_order,
            }),
            gap.following == (StreamingObjectEdge::Object {
                id: following_id,
                order: following_order,
            }),
    {
        Self {
            preceding: StreamingObjectEdge::Object { id: preceding_id, order: preceding_order },
            following: StreamingObjectEdge::Object { id: following_id, order: following_order },
        }
    }

    /// The gap after the last named object.
    pub fn after(id: StreamingObjectId, order: StreamingObjectOrder) -> (gap: Self)
        ensures
            gap.preceding == (StreamingObjectEdge::Object { id, order }),
            gap.following == StreamingObjectEdge::AfterAll,
    {
        Self {
            preceding: StreamingObjectEdge::Object { id, order },
            following: StreamingObjectEdge::AfterAll,
        }
    }

    /// Accepts exactly the well-formed gap witnesses.
    pub fn validate(self) -> (result: Result<(), StreamingLayoutError>)
        ensures
            result is Ok <==> gap_is_valid(self),
            result is Err ==> result == Err::<(), _>(StreamingLayoutError::InvalidPosition),
    {
        match (self.preceding, self.following) {
            (StreamingObjectEdge::NoObject, StreamingObjectEdge::NoObject) => Ok(()),
            (StreamingObjectEdge::BeforeAll, StreamingObjectEdge::Object { .. }) => Ok(()),
            (StreamingObjectEdge::Object { .. }, StreamingObjectEdge::AfterAll) => Ok(()),
            (
                StreamingObjectEdge::Object { id: preceding_id, order: preceding },
                StreamingObjectEdge::Object { id: following_id, order: following },
            ) => {
                if preceding_id.0 != following_id.0 && preceding.0 < following.0 {
                    Ok(())
                } else {
                    Err(StreamingLayoutError::InvalidPosition)
                }
            },
            _ => Err(StreamingLayoutError::InvalidPosition),
        }
    }

    /// Whether the gap lies after every object at its anchor.
    pub fn is_terminal(self) -> (result: bool)
        ensures
            result == gap_is_terminal(self),
    {
        match (self.preceding, self.following) {
            (StreamingObjectEdge::NoObject, StreamingObjectEdge::NoObject) => true,
            (_, StreamingObjectEdge::AfterAll) => true,
            _ => false,
        }
    }

    /// Whether the gap lies before every object at its anchor.
    pub fn is_source_range_end(self) -> (result: bool)
        ensures
            result == gap_is_source_range_end(self),
    {
        match (self.preceding, self.following) {
            (StreamingObjectEdge::NoObject, StreamingObjectEdge::NoObject) => true,
            (StreamingObjectEdge::BeforeAll, _) => true,
            _ => false,
        }
    }
}

/// Canonical position in the ordered text-and-object stream.
#[derive(Clone, Copy, Debug, PartialEq, Eq, Hash, Structural)]
pub struct StreamingLayoutPosition {
    /// Exact logical UTF-8 byte offset.
    pub byte_offset: u64,
    /// Exact adjacent-object gap at that offset.
    pub gap: StreamingObjectGap,
}

impl StreamingLayoutPosition {
    /// Creates a position at an anchor with no zero-width objects.
    pub fn at(byte_offset: u64) -> (position: Self)
        ensures
            position.byte_offset == byte_offset,
            position.gap.preceding == StreamingObjectEdge::NoObject,
            position.gap.following == StreamingObjectEdge::NoObject,
    {
        Self { byte_offset, gap: StreamingObjectGap::no_objects() }
    }

    /// Creates a position with an explicit adjacent-object gap.
    pub fn with_gap(byte_offset: u64, gap: StreamingObjectGap) -> (position: Self)
        ensures
            position == (Self { byte_offset, gap }),
    {
        Self { byte_offset, gap }
    }

    /// Accepts exactly the positions whose gap witness is well formed.
    pub fn validate(self) -> (result: Result<(), StreamingLayoutError>)
        ensures
            result is Ok <==> gap_is_valid(self.gap),
            result is Err ==> result == Err::<(), _>(StreamingLayoutError::InvalidPosition),
    {
        self.gap.validate()
    }
}

/// Every constructor of a gap witness other than `between` yields a well-formed witness, and a
/// gap between two objects is well formed exactly when the objects are distinct and their order
/// keys strictly increase.
pub proof fn lemma_gap_constructors_are_valid(
    id: StreamingObjectId,
    order: StreamingObjectOrder,
    other_id: StreamingObjectId,
    other_order: StreamingObjectOrder,
)
    ensures
        gap_is_valid(
            StreamingObjectGap {
                preceding: StreamingObjectEdge::NoObject,
                following: StreamingObjectEdge::NoObject,
            },
        ),
        gap_is_valid(
            StreamingObjectGap {
                preceding: StreamingObjectEdge::BeforeAll,
                following: StreamingObjectEdge::Object { id, order },
            },
        ),
        gap_is_valid(
            StreamingObjectGap {
                preceding: StreamingObjectEdge::Object { id, order },
                following: StreamingObjectEdge::AfterAll,
            },
        ),
        gap_is_valid(
            StreamingObjectGap {
                preceding: StreamingObjectEdge::Object { id, order },
                following: StreamingObjectEdge::Object { id: other_id, order: other_order },
            },
        ) <==> (id != other_id && order.0 < other_order.0),
{
}

/// Every well-formed gap is terminal or a source-range end (or both, at an object-free anchor),
/// except a gap strictly between two objects, which is neither.
pub proof fn lemma_valid_gap_edges(gap: StreamingObjectGap)
    requires
        gap_is_valid(gap),
    ensures
        (gap.preceding is Object && gap.following is Object) <==> (!gap_is_terminal(gap)
            && !gap_is_source_range_end(gap)),
{
}

} // verus!
