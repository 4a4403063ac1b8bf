use vstd::prelude::*;

verus! {

/// A logical pixel quantity, held as the IEEE-754 binary32 bit pattern of its value.
///
/// The library carries pixel values through its state without interpreting them; every decision
/// that depends on a pixel value receives that value's [`PixelClass`] or [`PixelOrdering`].
#[derive(Clone, Copy, Debug, Default, PartialEq, Eq, Structural)]
pub struct Pixels(pub u32);

impl Pixels {
    /// The positive zero pixel quantity.
    pub fn zero() -> (zero: Pixels)
        ensures
            zero.0 == 0,
    {
        Pixels(0)
    }
}

/// Sign and finiteness class of one pixel value.
#[derive(Clone, Copy, Debug, PartialEq, Eq, Structural)]
pub enum PixelClass {
    /// Infinite or not a number.
    NonFinite,
    /// Finite and strictly below zero.
    Negative,
    /// Positive or negative zero.
    Zero,
    /// Finite and strictly above zero.
    Positive,
}

impl PixelClass {
    /// Finite and not below zero.
    pub open spec fn is_nonnegative(self) -> bool {
        self is Zero || self is Positive
    }

    /// Finite and strictly above zero.
    pub open spec fn is_positive(self) -> bool {
        self is Positive
    }

    /// Finite.
    pub open spec fn is_finite(self) -> bool {
        !(self is NonFinite)
    }
}

/// Outcome of comparing two pixel values.
#[derive(Clone, Copy, Debug, PartialEq, Eq, Structural)]
pub enum PixelOrdering {
    /// The first value is smaller.
    Less,
    /// Both values are equal.
    Equal,
    /// The first value is larger.
    Greater,
    /// At least one value is not a number.
    Unordered,
}

/// Integer device pixels.
#[derive(Clone, Copy, Debug, Default, PartialEq, Eq, Hash, Structural)]
pub struct DevicePixels(pub i32);

/// A two-dimensional point.
#[derive(Clone, Copy, Debug, Default, PartialEq, Eq, Structural)]
pub struct Point<T> {
    /// Horizontal coordinate.
    pub x: T,
    /// Vertical coordinate.
    pub y: T,
}

/// A two-dimensional extent.
#[derive(Clone, Copy, Debug, Default, PartialEq, Eq, Structural)]
pub struct Size<T> {
    /// Horizontal extent.
    pub width: T,
    /// Vertical extent.
    pub height: T,
}

/// An axis-aligned rectangle given by its origin and size.
#[derive(Clone, Copy, Debug, Default, PartialEq, Eq, Structural)]
pub struct Bounds<T> {
    /// Top-left corner.
    pub origin: Point<T>,
    /// Extent from the origin.
    pub size: Size<T>,
}

/// Builds a point.
pub fn point<T>(x: T, y: T) -> (result: Point<T>)
    ensures
        result == (Point { x, y }),
{
    Point { x, y }
}

/// Builds a size.
pub fn size<T>(width: T, height: T) -> (result: Size<T>)
    ensures
        result == (Size { width, height }),
{
    Size { width, height }
}

} // verus!
