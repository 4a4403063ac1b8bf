use vstd::prelude::*;
use crate::error::{StreamingLayoutComponent, StreamingLayoutError};

verus! {

/// Exact mathematical sum of a sequence of counts.
pub open spec fn seq_sum(values: Seq<usize>) -> int
    decreases values.len(),
{
    if values.len() == 0 {
        0
    } else {
        seq_sum(values.drop_last()) + values.last()
    }
}

/// A sum never shrinks when further counts are appended.
pub proof fn lemma_seq_sum_prefix_le(values: Seq<usize>, i: int)
    requires
        0 <= i <= values.len(),
    ensures
        0 <= seq_sum(values.take(i)) <= seq_sum(values),
    decreases values.len() - i,
{
    if i == values.len() {
        assert(values.take(i) =~= values);
        lemma_seq_sum_nonnegative(values);
    } else {
        lemma_seq_sum_prefix_le(values, i + 1);
        assert(values.take(i + 1).drop_last() =~= values.take(i));
        lemma_seq_sum_nonnegative(values.take(i));
    }
}

/// Sums of counts are never negative.
pub proof fn lemma_seq_sum_nonnegative(values: Seq<usize>)
    ensures
        seq_sum(values) >= 0,
    decreases values.len(),
{
    if values.len() > 0 {
        lemma_seq_sum_nonnegative(values.drop_last());
    }
}

/// Checked `usize` addition that names the component whose arithmetic overflowed.
pub fn checked_add(left: usize, right: usize, component: StreamingLayoutComponent) -> (result:
    Result<usize, StreamingLayoutError>)
    ensures
        match result {
            Ok(value) => left + right <= usize::MAX && value == left + right,
            Err(error) => left + right > usize::MAX && error == StreamingLayoutError::Overflow(
                component,
            ),
        },
{
    match left.checked_add(right) {
        Some(value) => Ok(value),
        None => Err(StreamingLayoutError::Overflow(component)),
    }
}

/// Checked `usize` multiplication that names the component whose arithmetic overflowed.
pub fn checked_mul(left: usize, right: usize, component: StreamingLayoutComponent) -> (result:
    Result<usize, StreamingLayoutError>)
    ensures
        match result {
            Ok(value) => left * right <= usize::MAX && value == left * right,
            Err(error) => left * right > usize::MAX && error == StreamingLayoutError::Overflow(
                component,
            ),
        },
{
    match left.checked_mul(right) {
        Some(value) => Ok(value),
        None => Err(StreamingLayoutError::Overflow(component)),
    }
}

/// Checked sum of counts: fails exactly when the mathematical total exceeds `usize::MAX`.
pub fn checked_sum(values: &[usize], component: StreamingLayoutComponent) -> (result: Result<
    usize,
    StreamingLayoutError,
>)
    ensures
        match result {
            Ok(total) => seq_sum(values@) <= usize::MAX && total == seq_sum(values@),
            Err(error) => seq_sum(values@) > usize::MAX && error == StreamingLayoutError::Overflow(
                component,
            ),
        },
{
    let mut total: usize = 0;
    let mut index: usize = 0;
    while index < values.len()
        invariant
            index <= values@.len(),
            total == seq_sum(values@.take(index as int)),
        decreases values@.len() - index,
    {
        assert(values@.take(index + 1).drop_last() =~= values@.take(index as int));
        match checked_add(total, values[index], component) {
            Ok(next) => {
                total = next;
            },
            Err(error) => {
                proof {
                    lemma_seq_sum_prefix_le(values@, index + 1);
                }
                return Err(error);
            },
        }
        index = index + 1;
    }
    assert(values@.take(index as int) =~= values@);
    Ok(total)
}

/// Converts a `usize` count to `u64`, rejecting values that do not fit.
pub fn usize_to_u64(value: usize, component: StreamingLayoutComponent) -> (result: Result<
    u64,
    StreamingLayoutError,
>)
    ensures
        match result {
            Ok(converted) => converted == value,
            Err(error) => value > u64::MAX && error == StreamingLayoutError::Overflow(component),
        },
{
    if value as u128 <= u64::MAX as u128 {
        Ok(value as u64)
    } else {
        Err(StreamingLayoutError::Overflow(component))
    }
}

/// Converts a `usize` count to `u32`, rejecting values that do not fit.
pub fn usize_to_u32(value: usize, component: StreamingLayoutComponent) -> (result: Result<
    u32,
    StreamingLayoutError,
>)
    ensures
        match result {
            Ok(converted) => converted == value,
            Err(error) => value > u32::MAX && error == StreamingLayoutError::Overflow(component),
        },
{
    if value <= u32::MAX as usize {
        Ok(value as u32)
    } else {
        Err(StreamingLayoutError::Overflow(component))
    }
}

/// Checked `u64` addition that names the component whose arithmetic overflowed.
pub fn checked_u64_add(left: u64, right: u64, component: StreamingLayoutComponent) -> (result:
    Result<u64, StreamingLayoutError>)
    ensures
        match result {
            Ok(value) => left + right <= u64::MAX && value == left + right,
            Err(error) => left + right > u64::MAX && error == StreamingLayoutError::Overflow(
                component,
            ),
        },
{
    match left.checked_add(right) {
        Some(value) => Ok(value),
        None => Err(StreamingLayoutError::Overflow(component)),
    }
}

} // verus!
