use vstd::prelude::*;
use std::ops::Range;
use crate::error::{StreamingLayoutComponent, StreamingLayoutError};
use crate::geometry::{Pixels, Point};
use crate::position::{StreamingLayoutPosition, StreamingObjectEdge, StreamingObjectGap};
use crate::session::StreamingLayoutMap;

verus! {

/// The values strictly increase.
pub open spec fn strictly_ascending(values: Seq<usize>) -> bool {
    forall|i: int, j: int| 0 <= i < j < values.len() ==> values[i] < values[j]
}

/// Some run of a shaped line has a glyph at byte index `index`.
pub open spec fn holds_glyph_index(runs: Seq<Vec<usize>>, index: usize) -> bool {
    exists|r: int, g: int| 0 <= r < runs.len() && 0 <= g < runs[r]@.len() && #[trigger] runs[r]@[g] == index
}

/// Inserts `value` into strictly ascending values, keeping them strictly ascending.
fn insert_ascending(values: &mut Vec<usize>, value: usize)
    requires
        strictly_ascending(old(values)@),
    ensures
        strictly_ascending(final(values)@),
        forall|x: usize| #[trigger] final(values)@.contains(x) <==> (old(values)@.contains(x) || x == value),
{
    let mut position: usize = 0;
    while position < values.len() && values[position] < value
        invariant
            position <= values@.len(),
            forall|i: int| 0 <= i < position ==> values@[i] < value,
        decreases values@.len() - position,
    {
        position = position + 1;
    }
    if position < values.len() && values[position] == value {
        return;
    }
    let ghost before = values@;
    values.insert(position, value);
    proof {
        before.insert_ensures(position as int, value);
        assert forall|x: usize| #[trigger] values@.contains(x) <==> (before.contains(x) || x == value) by {
            if values@.contains(x) {
                let k = choose|k: int| 0 <= k < values@.len() && values@[k] == x;
                if k < position {
                    assert(before[k] == x);
                } else if k > position {
                    assert(before[k - 1] == x);
                }
            }
            if before.contains(x) {
                let k = choose|k: int| 0 <= k < before.len() && before[k] == x;
                if k < position {
                    assert(values@[k] == x);
                } else {
                    assert(values@[k + 1] == x);
                }
            }
            if x == value {
                assert(values@[position as int] == x);
            }
        }
        assert forall|i: int, j: int| 0 <= i < j < values@.len() implies values@[i] < values@[j] by {
            if j < position {
            } else if j == position {
            } else if i < position {
                assert(values@[j] == before[j - 1]);
                assert(before[position as int] > value);
                if j - 1 > position {
                    assert(before[position as int] < before[j - 1]);
                }
            } else if i == position {
                assert(values@[j] == before[j - 1]);
                if j - 1 > position {
                    assert(before[position as int] < before[j - 1]);
                }
            } else {
                assert(values@[i] == before[i - 1]);
                assert(values@[j] == before[j - 1]);
            }
        }
    }
}

/// The byte indices at which a shaped line's caret maps stand: every glyph's index and the
/// line's length, each once, in increasing order.
pub fn text_boundary_indices(run_glyph_indices: &Vec<Vec<usize>>, line_len: usize) -> (indices: Vec<usize>)
    ensures
        strictly_ascending(indices@),
        forall|x: usize|
            #[trigger] indices@.contains(x) <==> (x == line_len || holds_glyph_index(run_glyph_indices@, x)),
{
    let mut indices: Vec<usize> = Vec::new();
    indices.push(line_len);
    proof {
        assert forall|x: usize| #[trigger] indices@.contains(x) <==> x == line_len by {
            if x == line_len {
                assert(indices@[0] == x);
            }
        }
    }
    let mut run: usize = 0;
    while run < run_glyph_indices.len()
        invariant
            run <= run_glyph_indices@.len(),
            strictly_ascending(indices@),
            forall|x: usize|
                #[trigger] indices@.contains(x) <==> (x == line_len || exists|r: int, g: int|
                    0 <= r < run && 0 <= g < run_glyph_indices@[r]@.len()
                        && #[trigger] run_glyph_indices@[r]@[g] == x),
        decreases run_glyph_indices@.len() - run,
    {
        let glyphs = &run_glyph_indices[run];
        let mut glyph: usize = 0;
        while glyph < glyphs.len()
            invariant
                run < run_glyph_indices@.len(),
                glyphs@ == run_glyph_indices@[run as int]@,
                glyph <= glyphs@.len(),
                strictly_ascending(indices@),
                forall|x: usize|
                    #[trigger] indices@.contains(x) <==> (x == line_len || (exists|r: int, g: int|
                        0 <= r < run && 0 <= g < run_glyph_indices@[r]@.len()
                            && #[trigger] run_glyph_indices@[r]@[g] == x) || exists|g: int|
                        0 <= g < glyph && #[trigger] glyphs@[g] == x),
            decreases glyphs@.len() - glyph,
        {
            let ghost before = indices@;
            insert_ascending(&mut indices, glyphs[glyph]);
            proof {
                assert forall|x: usize| #[trigger] indices@.contains(x) <==> (x == line_len || (exists|r: int, g: int|
                    0 <= r < run && 0 <= g < run_glyph_indices@[r]@.len()
                        && #[trigger] run_glyph_indices@[r]@[g] == x) || exists|g: int|
                    0 <= g < glyph + 1 && #[trigger] glyphs@[g] == x) by {
                    if x == glyphs@[glyph as int] {
                        assert(glyphs@[glyph as int] == x);
                    }
                    if exists|g: int| 0 <= g < glyph + 1 && #[trigger] glyphs@[g] == x {
                        let g = choose|g: int| 0 <= g < glyph + 1 && #[trigger] glyphs@[g] == x;
                        if g < glyph {
                            assert(before.contains(x));
                        }
                    }
                }
            }
            glyph = glyph + 1;
        }
        proof {
            assert forall|x: usize| #[trigger] indices@.contains(x) <==> (x == line_len || exists|r: int, g: int|
                0 <= r < run + 1 && 0 <= g < run_glyph_indices@[r]@.len()
                    && #[trigger] run_glyph_indices@[r]@[g] == x) by {
                if exists|r: int, g: int|
                    0 <= r < run + 1 && 0 <= g < run_glyph_indices@[r]@.len()
                        && #[trigger] run_glyph_indices@[r]@[g] == x {
                    let (r, g) = choose|r: int, g: int|
                        0 <= r < run + 1 && 0 <= g < run_glyph_indices@[r]@.len()
                            && #[trigger] run_glyph_indices@[r]@[g] == x;
                    if r == run {
                        assert(glyphs@[g] == x);
                    }
                }
                if exists|g: int| 0 <= g < glyph && #[trigger] glyphs@[g] == x {
                    let g = choose|g: int| 0 <= g < glyph && #[trigger] glyphs@[g] == x;
                    assert(run_glyph_indices@[run as int]@[g] == x);
                }
            }
        }
        run = run + 1;
    }
    indices
}

/// The boundaries strictly increase in index and end at the line's length.
pub open spec fn boundaries_end_at(boundaries: Seq<(usize, Option<Point<Pixels>>)>, line_len: usize) -> bool {
    &&& boundaries.len() > 0
    &&& boundaries.last().0 == line_len
    &&& forall|i: int, j: int| 0 <= i < j < boundaries.len() ==> boundaries[i].0 < boundaries[j].0
}

/// The composite position of byte index `index` of a segment's shaped line: the range's start
/// at index zero, its end at the line's length, and the object-free position that many bytes
/// after the start otherwise.
pub open spec fn boundary_position(
    range: Range<StreamingLayoutPosition>,
    line_len: usize,
    index: usize,
) -> StreamingLayoutPosition {
    if index == 0 {
        range.start
    } else if index == line_len {
        range.end
    } else {
        StreamingLayoutPosition {
            byte_offset: (range.start.byte_offset + index) as u64,
            gap: StreamingObjectGap {
                preceding: StreamingObjectEdge::NoObject,
                following: StreamingObjectEdge::NoObject,
            },
        }
    }
}

/// The caret map of one boundary: rejected when placement gave it no point, an overflow when
/// its byte offset does not fit.
pub open spec fn boundary_map(
    range: Range<StreamingLayoutPosition>,
    line_len: usize,
    boundary: (usize, Option<Point<Pixels>>),
) -> Result<StreamingLayoutMap, StreamingLayoutError> {
    match boundary.1 {
        None => Err(StreamingLayoutError::InvalidSegment),
        Some(point) => if range.start.byte_offset + boundary.0 > u64::MAX {
            Err(StreamingLayoutError::Overflow(StreamingLayoutComponent::Maps))
        } else {
            Ok(StreamingLayoutMap { logical_position: boundary_position(range, line_len, boundary.0), position: point })
        },
    }
}

/// The caret maps of the boundaries in order, or the first boundary's rejection.
pub open spec fn text_maps_of(
    range: Range<StreamingLayoutPosition>,
    line_len: usize,
    boundaries: Seq<(usize, Option<Point<Pixels>>)>,
) -> Result<Seq<StreamingLayoutMap>, StreamingLayoutError>
    decreases boundaries.len(),
{
    if boundaries.len() == 0 {
        Ok(Seq::empty())
    } else {
        match text_maps_of(range, line_len, boundaries.drop_last()) {
            Err(error) => Err(error),
            Ok(maps) => match boundary_map(range, line_len, boundaries.last()) {
                Err(error) => Err(error),
                Ok(map) => Ok(maps.push(map)),
            },
        }
    }
}

/// Successful maps pair each boundary with its composite position and its point.
pub proof fn lemma_text_maps_pointwise(
    range: Range<StreamingLayoutPosition>,
    line_len: usize,
    boundaries: Seq<(usize, Option<Point<Pixels>>)>,
)
    requires
        text_maps_of(range, line_len, boundaries) is Ok,
    ensures
        ({
            let maps = text_maps_of(range, line_len, boundaries)->Ok_0;
            &&& maps.len() == boundaries.len()
            &&& forall|i: int|
                0 <= i < boundaries.len() ==> boundaries[i].1 is Some && #[trigger] maps[i] == (
                StreamingLayoutMap {
                    logical_position: boundary_position(range, line_len, boundaries[i].0),
                    position: boundaries[i].1->Some_0,
                }) && range.start.byte_offset + boundaries[i].0 <= u64::MAX
        }),
    decreases boundaries.len(),
{
    if boundaries.len() > 0 {
        lemma_text_maps_pointwise(range, line_len, boundaries.drop_last());
        let maps = text_maps_of(range, line_len, boundaries)->Ok_0;
        assert forall|i: int| 0 <= i < boundaries.len() implies boundaries[i].1 is Some && #[trigger] maps[i]
            == (StreamingLayoutMap {
            logical_position: boundary_position(range, line_len, boundaries[i].0),
            position: boundaries[i].1->Some_0,
        }) && range.start.byte_offset + boundaries[i].0 <= u64::MAX by {
            if i < boundaries.len() - 1 {
                assert(boundaries.drop_last()[i] == boundaries[i]);
            }
        }
    }
}

/// The maps of an admitted segment are in order along it: when the boundaries strictly increase
/// up to the line's length and the range spans exactly that many bytes, the first boundary at
/// index zero maps the range's start, the last maps its end, byte offsets strictly increase
/// within the range, and every interior boundary maps an object-free position.
pub proof fn lemma_text_maps_are_ordered(
    range: Range<StreamingLayoutPosition>,
    line_len: usize,
    boundaries: Seq<(usize, Option<Point<Pixels>>)>,
)
    requires
        boundaries_end_at(boundaries, line_len),
        line_len > 0,
        range.start.byte_offset + line_len == range.end.byte_offset,
        text_maps_of(range, line_len, boundaries) is Ok,
    ensures
        ({
            let maps = text_maps_of(range, line_len, boundaries)->Ok_0;
            &&& maps.len() == boundaries.len()
            &&& maps.last().logical_position == range.end
            &&& boundaries[0].0 == 0 ==> maps[0].logical_position == range.start
            &&& forall|i: int, j: int|
                0 <= i < j < maps.len() ==> maps[i].logical_position.byte_offset
                    < maps[j].logical_position.byte_offset
            &&& forall|i: int|
                0 <= i < maps.len() ==> range.start.byte_offset <= #[trigger] maps[i].logical_position.byte_offset
                    <= range.end.byte_offset
            &&& forall|i: int|
                0 <= i < maps.len() && 0 < boundaries[i].0 < line_len ==> #[trigger] maps[i].logical_position.gap
                    == (StreamingObjectGap {
                    preceding: StreamingObjectEdge::NoObject,
                    following: StreamingObjectEdge::NoObject,
                })
        }),
{
    lemma_text_maps_pointwise(range, line_len, boundaries);
    let maps = text_maps_of(range, line_len, boundaries)->Ok_0;
    assert forall|i: int| 0 <= i < maps.len() implies #[trigger] maps[i].logical_position.byte_offset
        == range.start.byte_offset + boundaries[i].0 && boundaries[i].0 <= line_len by {
        if i < boundaries.len() - 1 {
            assert(boundaries[i].0 < boundaries[boundaries.len() - 1].0);
        }
    }
    assert(maps.last() == maps[maps.len() - 1]);
}

/// The caret maps of a segment's shaped boundaries (see [`text_maps_of`]).
pub fn text_maps(
    logical_range: &Range<StreamingLayoutPosition>,
    line_len: usize,
    boundaries: &Vec<(usize, Option<Point<Pixels>>)>,
) -> (maps: Result<Vec<StreamingLayoutMap>, StreamingLayoutError>)
    requires
        boundaries_end_at(boundaries@, line_len),
    ensures
        match maps {
            Ok(maps) => text_maps_of(*logical_range, line_len, boundaries@) == Ok::<_, StreamingLayoutError>(maps@)
                && maps@.len() == boundaries@.len() && forall|i: int|
                0 <= i < boundaries@.len() ==> #[trigger] maps@[i] == (StreamingLayoutMap {
                    logical_position: boundary_position(*logical_range, line_len, boundaries@[i].0),
                    position: boundaries@[i].1->Some_0,
                }),
            Err(error) => text_maps_of(*logical_range, line_len, boundaries@) == Err::<Seq<StreamingLayoutMap>, _>(error),
        },
{
    let start = logical_range.start;
    let end = logical_range.end;
    let mut maps: Vec<StreamingLayoutMap> = Vec::new();
    let mut index: usize = 0;
    while index < boundaries.len()
        invariant
            index <= boundaries@.len(),
            start == logical_range.start,
            end == logical_range.end,
            text_maps_of(*logical_range, line_len, boundaries@.take(index as int)) == Ok::<_, StreamingLayoutError>(maps@),
        decreases boundaries@.len() - index,
    {
        let ghost prefix = boundaries@.take(index + 1);
        assert(prefix.drop_last() =~= boundaries@.take(index as int));
        assert(prefix.last() == boundaries@[index as int]);
        let (at, point) = boundaries[index];
        let point = match point {
            Some(point) => point,
            None => {
                proof {
                    lemma_prefix_error_persists(*logical_range, line_len, boundaries@, index as int + 1);
                }
                return Err(StreamingLayoutError::InvalidSegment);
            },
        };
        let byte_offset = match start.byte_offset.checked_add(at as u64) {
            Some(offset) => offset,
            None => {
                proof {
                    lemma_prefix_error_persists(*logical_range, line_len, boundaries@, index as int + 1);
                }
                return Err(StreamingLayoutError::Overflow(StreamingLayoutComponent::Maps));
            },
        };
        let logical_position = if at == 0 {
            start
        } else if at == line_len {
            end
        } else {
            StreamingLayoutPosition::at(byte_offset)
        };
        maps.push(StreamingLayoutMap { logical_position, position: point });
        index = index + 1;
    }
    assert(boundaries@.take(boundaries@.len() as int) =~= boundaries@);
    proof {
        lemma_text_maps_pointwise(*logical_range, line_len, boundaries@);
    }
    Ok(maps)
}

/// A rejection of a prefix of the boundaries is the rejection of all of them.
proof fn lemma_prefix_error_persists(
    range: Range<StreamingLayoutPosition>,
    line_len: usize,
    boundaries: Seq<(usize, Option<Point<Pixels>>)>,
    count: int,
)
    requires
        0 <= count <= boundaries.len(),
        text_maps_of(range, line_len, boundaries.take(count)) is Err,
    ensures
        text_maps_of(range, line_len, boundaries) == text_maps_of(range, line_len, boundaries.take(count)),
    decreases boundaries.len() - count,
{
    if count < boundaries.len() {
        assert(boundaries.take(count + 1).drop_last() =~= boundaries.take(count));
        lemma_prefix_error_persists(range, line_len, boundaries, count + 1);
    } else {
        assert(boundaries.take(count) =~= boundaries);
    }
}

/// Whether the boundaries strictly increase in index and end at the line's length.
pub fn check_boundaries(boundaries: &Vec<(usize, Option<Point<Pixels>>)>, line_len: usize) -> (valid: bool)
    ensures
        valid == boundaries_end_at(boundaries@, line_len),
{
    if boundaries.len() == 0 {
        return false;
    }
    let mut index: usize = 1;
    while index < boundaries.len()
        invariant
            1 <= index <= boundaries@.len(),
            forall|i: int, j: int| 0 <= i < j < index ==> boundaries@[i].0 < boundaries@[j].0,
        decreases boundaries@.len() - index,
    {
        if boundaries[index - 1].0 >= boundaries[index].0 {
            return false;
        }
        proof {
            assert forall|i: int, j: int| 0 <= i < j < index + 1 implies boundaries@[i].0 < boundaries@[j].0 by {
                if j == index && i < index - 1 {
                    assert(boundaries@[i].0 < boundaries@[index - 1].0);
                }
            }
        }
        index = index + 1;
    }
    boundaries[boundaries.len() - 1].0 == line_len
}

} // verus!
