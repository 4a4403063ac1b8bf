use vstd::prelude::*;
use crate::checked::{checked_add, checked_sum, seq_sum, lemma_seq_sum_prefix_le};
use crate::error::{StreamingLayoutComponent, StreamingLayoutError};
use crate::position::{gap_object_edges, StreamingLayoutPosition, StreamingObjectEdge};

verus! {

/// Exact retained payload according to the component accounting model.
///
/// The model counts each initialized semantic record exactly once using its public record type's
/// `size_of`, plus variable UTF-8/string payload owned or logically retained by that record.
/// Enclosing enum, smart-pointer, vector/container, allocator, and spare-capacity bookkeeping is
/// excluded, as are shared-cache storage and global process residency.
#[derive(Clone, Copy, Debug, Default, PartialEq, Eq, Structural)]
pub struct StreamingLayoutCharge {
    /// Segment text bytes.
    pub segment_text: usize,
    /// Style-run records and variable font metadata.
    pub runs: usize,
    /// Decoration-run records.
    pub decorations: usize,
    /// Shaped glyph records.
    pub glyphs: usize,
    /// Wrap facts.
    pub wrap_facts: usize,
    /// Caret/hit-test map facts.
    pub maps: usize,
    /// Inline-object identity, order, and geometry facts.
    pub objects: usize,
    /// Fragment records and bounded atom presentation.
    pub fragments: usize,
    /// Compact continuation record.
    pub continuation: usize,
}

/// The component byte counts of a charge, in accounting order.
pub open spec fn charge_components(charge: StreamingLayoutCharge) -> Seq<usize> {
    seq![
        charge.segment_text,
        charge.runs,
        charge.decorations,
        charge.glyphs,
        charge.wrap_facts,
        charge.maps,
        charge.objects,
        charge.fragments,
        charge.continuation,
    ]
}

/// Exact mathematical total of a charge.
pub open spec fn charge_sum(charge: StreamingLayoutCharge) -> int {
    seq_sum(charge_components(charge))
}

/// A charge's total is the plain sum of its components.
pub proof fn lemma_charge_sum_fields(charge: StreamingLayoutCharge)
    ensures
        charge_sum(charge) == charge.segment_text + charge.runs + charge.decorations + charge.glyphs
            + charge.wrap_facts + charge.maps + charge.objects + charge.fragments
            + charge.continuation,
{
    let s = charge_components(charge);
    assert(s.drop_last().drop_last().drop_last().drop_last().drop_last().drop_last().drop_last().drop_last().drop_last() =~= Seq::<usize>::empty());
    reveal_with_fuel(seq_sum, 10);
}

impl StreamingLayoutCharge {
    /// A charge with every component zero.
    pub open spec fn zero_spec() -> Self {
        StreamingLayoutCharge {
            segment_text: 0,
            runs: 0,
            decorations: 0,
            glyphs: 0,
            wrap_facts: 0,
            maps: 0,
            objects: 0,
            fragments: 0,
            continuation: 0,
        }
    }

    /// A charge with every component zero.
    pub fn zero() -> (charge: Self)
        ensures
            charge_sum(charge) == 0,
            charge == (StreamingLayoutCharge {
                segment_text: 0,
                runs: 0,
                decorations: 0,
                glyphs: 0,
                wrap_facts: 0,
                maps: 0,
                objects: 0,
                fragments: 0,
                continuation: 0,
            }),
    {
        let charge = StreamingLayoutCharge {
            segment_text: 0,
            runs: 0,
            decorations: 0,
            glyphs: 0,
            wrap_facts: 0,
            maps: 0,
            objects: 0,
            fragments: 0,
            continuation: 0,
        };
        proof {
            reveal_with_fuel(seq_sum, 10);
        }
        charge
    }

    /// Total exactly charged component payload bytes; fails exactly when the total does not fit.
    pub fn total(self) -> (result: Result<usize, StreamingLayoutError>)
        ensures
            match result {
                Ok(total) => charge_sum(self) <= usize::MAX && total == charge_sum(self),
                Err(error) => charge_sum(self) > usize::MAX && error
                    == StreamingLayoutError::Overflow(StreamingLayoutComponent::Total),
            },
    {
        let values = vec![
            self.segment_text,
            self.runs,
            self.decorations,
            self.glyphs,
            self.wrap_facts,
            self.maps,
            self.objects,
            self.fragments,
            self.continuation,
        ];
        assert(values@ =~= charge_components(self));
        checked_sum(values.as_slice(), StreamingLayoutComponent::Total)
    }
}

/// Exact retained semantic-record counts for one streaming-layout graph.
///
/// Input-only records that are discarded before an admission is returned are excluded. Each
/// fragment has one logical text or presentation payload record, including for an empty payload.
#[derive(Clone, Copy, Debug, Default, PartialEq, Eq, Structural)]
pub struct StreamingLayoutItemCharge {
    /// Retained logical text or bounded-presentation payload records.
    pub text_payloads: usize,
    /// Caller style-run records retained by ordinary text fragments.
    pub style_runs: usize,
    /// Private shaped-run records retained by shaped line layouts.
    pub shaped_runs: usize,
    /// Shaped glyph records retained by shaped runs.
    pub glyphs: usize,
    /// Decoration records retained by shaped lines.
    pub decorations: usize,
    /// Wrap-boundary facts retained by wrapped text lines.
    pub wrap_facts: usize,
    /// Caret and hit-test map records.
    pub maps: usize,
    /// Composite-position records.
    pub positions: usize,
    /// Adjacent-object gap-witness records.
    pub gap_witnesses: usize,
    /// Retained object-identity records.
    pub object_ids: usize,
    /// Retained object-order records.
    pub object_orders: usize,
    /// Text or oversize-atom fragment records.
    pub fragments: usize,
    /// Compact continuation records.
    pub continuations: usize,
}

/// The record counts of an item charge, in accounting order.
pub open spec fn item_components(charge: StreamingLayoutItemCharge) -> Seq<usize> {
    seq![
        charge.text_payloads,
        charge.style_runs,
        charge.shaped_runs,
        charge.glyphs,
        charge.decorations,
        charge.wrap_facts,
        charge.maps,
        charge.positions,
        charge.gap_witnesses,
        charge.object_ids,
        charge.object_orders,
        charge.fragments,
        charge.continuations,
    ]
}

/// Exact mathematical total of an item charge.
pub open spec fn item_sum(charge: StreamingLayoutItemCharge) -> int {
    seq_sum(item_components(charge))
}

/// An item charge with every count zero.
pub open spec fn zero_item_charge() -> StreamingLayoutItemCharge {
    StreamingLayoutItemCharge {
        text_payloads: 0,
        style_runs: 0,
        shaped_runs: 0,
        glyphs: 0,
        decorations: 0,
        wrap_facts: 0,
        maps: 0,
        positions: 0,
        gap_witnesses: 0,
        object_ids: 0,
        object_orders: 0,
        fragments: 0,
        continuations: 0,
    }
}

/// An item charge's total is the plain sum of its counts.
pub proof fn lemma_item_sum_fields(charge: StreamingLayoutItemCharge)
    ensures
        item_sum(charge) == charge.text_payloads + charge.style_runs + charge.shaped_runs
            + charge.glyphs + charge.decorations + charge.wrap_facts + charge.maps
            + charge.positions + charge.gap_witnesses + charge.object_ids + charge.object_orders
            + charge.fragments + charge.continuations,
{
    let s = item_components(charge);
    assert(s.drop_last().drop_last().drop_last().drop_last().drop_last().drop_last().drop_last().drop_last().drop_last().drop_last().drop_last().drop_last().drop_last() =~= Seq::<usize>::empty());
    reveal_with_fuel(seq_sum, 14);
}

impl StreamingLayoutItemCharge {
    /// An item charge with every count zero.
    pub fn zero() -> (charge: Self)
        ensures
            charge == zero_item_charge(),
            item_sum(charge) == 0,
    {
        proof {
            reveal_with_fuel(seq_sum, 14);
        }
        StreamingLayoutItemCharge {
            text_payloads: 0,
            style_runs: 0,
            shaped_runs: 0,
            glyphs: 0,
            decorations: 0,
            wrap_facts: 0,
            maps: 0,
            positions: 0,
            gap_witnesses: 0,
            object_ids: 0,
            object_orders: 0,
            fragments: 0,
            continuations: 0,
        }
    }

    /// Checked total of all retained semantic records; fails exactly when it does not fit.
    pub fn total(self) -> (result: Result<usize, StreamingLayoutError>)
        ensures
            match result {
                Ok(total) => item_sum(self) <= usize::MAX && total == item_sum(self),
                Err(error) => item_sum(self) > usize::MAX && error
                    == StreamingLayoutError::Overflow(StreamingLayoutComponent::Total),
            },
    {
        let values = vec![
            self.text_payloads,
            self.style_runs,
            self.shaped_runs,
            self.glyphs,
            self.decorations,
            self.wrap_facts,
            self.maps,
            self.positions,
            self.gap_witnesses,
            self.object_ids,
            self.object_orders,
            self.fragments,
            self.continuations,
        ];
        assert(values@ =~= item_components(self));
        checked_sum(values.as_slice(), StreamingLayoutComponent::Total)
    }
}

/// Total object-identity (equivalently object-order) facts named by a sequence of positions.
pub open spec fn positions_object_edges(positions: Seq<StreamingLayoutPosition>) -> int
    decreases positions.len(),
{
    if positions.len() == 0 {
        0
    } else {
        positions_object_edges(positions.drop_last()) + gap_object_edges(positions.last().gap)
    }
}

proof fn lemma_positions_object_edges_prefix(positions: Seq<StreamingLayoutPosition>, i: int)
    requires
        0 <= i <= positions.len(),
    ensures
        0 <= positions_object_edges(positions.take(i)) <= positions_object_edges(positions),
    decreases positions.len() - i,
{
    if i == positions.len() {
        assert(positions.take(i) =~= positions);
        lemma_positions_object_edges_nonnegative(positions);
    } else {
        lemma_positions_object_edges_prefix(positions, i + 1);
        assert(positions.take(i + 1).drop_last() =~= positions.take(i));
        lemma_positions_object_edges_nonnegative(positions.take(i));
    }
}

/// Each position names at most two object edges.
pub proof fn lemma_positions_object_edges_bound(positions: Seq<StreamingLayoutPosition>)
    ensures
        0 <= positions_object_edges(positions) <= 2 * positions.len(),
    decreases positions.len(),
{
    if positions.len() > 0 {
        lemma_positions_object_edges_bound(positions.drop_last());
    }
}

proof fn lemma_positions_object_edges_nonnegative(positions: Seq<StreamingLayoutPosition>)
    ensures
        positions_object_edges(positions) >= 0,
    decreases positions.len(),
{
    if positions.len() > 0 {
        lemma_positions_object_edges_nonnegative(positions.drop_last());
    }
}

/// Number of object edges named by one position's gap witness.
pub fn position_object_edges(position: StreamingLayoutPosition) -> (edges: usize)
    ensures
        edges == gap_object_edges(position.gap),
{
    let preceding: usize = match position.gap.preceding {
        StreamingObjectEdge::Object { .. } => 1,
        _ => 0,
    };
    let following: usize = match position.gap.following {
        StreamingObjectEdge::Object { .. } => 1,
        _ => 0,
    };
    preceding + following
}

/// Counts retained composite positions and the object identity facts their gap witnesses name.
pub fn position_facts(positions: &[StreamingLayoutPosition]) -> (result: Result<
    (usize, usize),
    StreamingLayoutError,
>)
    ensures
        result == (if positions_object_edges(positions@) <= usize::MAX {
            Ok::<(usize, usize), StreamingLayoutError>(
                (positions@.len() as usize, positions_object_edges(positions@) as usize),
            )
        } else {
            Err(StreamingLayoutError::Overflow(StreamingLayoutComponent::Objects))
        }),
{
    let mut count: usize = 0;
    let mut objects: usize = 0;
    let mut index: usize = 0;
    while index < positions.len()
        invariant
            index <= positions@.len(),
            count == index,
            objects == positions_object_edges(positions@.take(index as int)),
        decreases positions@.len() - index,
    {
        assert(positions@.take(index + 1).drop_last() =~= positions@.take(index as int));
        let edges = position_object_edges(positions[index]);
        count = match checked_add(count, 1, StreamingLayoutComponent::Maps) {
            Ok(next) => next,
            Err(error) => {
                return Err(error);
            },
        };
        objects = match checked_add(objects, edges, StreamingLayoutComponent::Objects) {
            Ok(next) => next,
            Err(error) => {
                proof {
                    lemma_positions_object_edges_prefix(positions@, index + 1);
                }
                return Err(error);
            },
        };
        index = index + 1;
    }
    assert(positions@.take(index as int) =~= positions@);
    Ok((count, objects))
}

} // verus!
