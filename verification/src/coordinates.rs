//! Points, sizes and rectangles tagged by coordinate space, and the eight
//! output transforms of the Wayland protocol.

use vstd::prelude::*;
use std::marker::PhantomData;

verus! {

/// A point with coordinates of type `T` in the space `U`.
#[derive(Debug, Copy)]
pub struct Point<T, U = ()> {
    pub x: T,
    pub y: T,
    pub _phantom: PhantomData<U>,
}

impl<T, U> Point<T, U> {
    /// The point `(x, y)`.
    pub fn new(x: T, y: T) -> (p: Self)
        ensures
            p.x == x,
            p.y == y,
    {
        Point { x, y, _phantom: PhantomData }
    }
}

/// A size with width `w` and height `h` in the space `U`.
#[derive(Debug, Copy)]
pub struct Size<T, U = ()> {
    pub w: T,
    pub h: T,
    pub _phantom: PhantomData<U>,
}

impl<T, U> Size<T, U> {
    /// The size `w` by `h`.
    pub fn new(w: T, h: T) -> (s: Self)
        ensures
            s.w == w,
            s.h == h,
    {
        Size { w, h, _phantom: PhantomData }
    }

    /// The size whose width is the tuple's first element and height its second.
    pub fn from(tuple: (T, T)) -> (s: Self)
        ensures
            s.w == tuple.0,
            s.h == tuple.1,
    {
        Size { w: tuple.0, h: tuple.1, _phantom: PhantomData }
    }
}

/// A rectangle given by its corner and its size.
#[derive(Debug, Copy)]
pub struct Rectangle<T, U = ()> where T: Clone, U: Clone {
    pub loc: Point<T, U>,
    pub size: Size<T, U>,
    pub _phantom: PhantomData<U>,
}

impl<T: Clone, U: Clone> Rectangle<T, U> {
    /// The rectangle at `loc` of size `size`.
    pub fn from_loc_and_size(loc: Point<T, U>, size: Size<T, U>) -> (r: Self)
        ensures
            r.loc == loc,
            r.size == size,
    {
        Rectangle { loc, size, _phantom: PhantomData }
    }
}

impl<T: Clone, U> Clone for Point<T, U> {
    fn clone(&self) -> (r: Self)
        ensures
            cloned::<T>(self.x, r.x),
            cloned::<T>(self.y, r.y),
    {
        Point { x: self.x.clone(), y: self.y.clone(), _phantom: PhantomData }
    }
}

impl<T: Clone, U> Clone for Size<T, U> {
    fn clone(&self) -> (r: Self)
        ensures
            cloned::<T>(self.w, r.w),
            cloned::<T>(self.h, r.h),
    {
        Size { w: self.w.clone(), h: self.h.clone(), _phantom: PhantomData }
    }
}

impl<T: Clone, U: Clone> Clone for Rectangle<T, U> {
    fn clone(&self) -> (r: Self)
        ensures
            cloned::<T>(self.loc.x, r.loc.x),
            cloned::<T>(self.loc.y, r.loc.y),
            cloned::<T>(self.size.w, r.size.w),
            cloned::<T>(self.size.h, r.size.h),
    {
        Rectangle { loc: self.loc.clone(), size: self.size.clone(), _phantom: PhantomData }
    }
}

/// The transforms of a Wayland output or surface buffer.
#[derive(Debug, Clone, Copy, PartialEq, Eq, Structural)]
pub enum Transform {
    Normal,
    _90,
    _180,
    _270,
    Flipped,
    Flipped90,
    Flipped180,
    Flipped270,
}

/// Marker of logical (scale-independent) coordinates.
#[derive(Debug, Clone, Copy)]
pub struct Logical;

/// Marker of physical (pixel) coordinates.
#[derive(Debug, Clone, Copy)]
pub struct Physical;

/// How a transform moves a point: the new x is the old y when `swap` is
/// set and the old x otherwise, negated when `negate_x` is set; the new y
/// likewise from the other coordinate and `negate_y`.
#[derive(Debug, Clone, Copy, PartialEq, Eq, Structural)]
pub struct AxisMap {
    pub swap: bool,
    pub negate_x: bool,
    pub negate_y: bool,
}

/// Whether a transform turns the picture by a quarter or three quarters.
pub open spec fn swaps_axes(t: Transform) -> bool {
    match t {
        Transform::_90 | Transform::_270 | Transform::Flipped90 | Transform::Flipped270 => true,
        _ => false,
    }
}

/// The axis map of each transform.
pub open spec fn axis_map_of(t: Transform) -> AxisMap {
    match t {
        Transform::Normal => AxisMap { swap: false, negate_x: false, negate_y: false },
        Transform::_90 => AxisMap { swap: true, negate_x: true, negate_y: false },
        Transform::_180 => AxisMap { swap: false, negate_x: true, negate_y: true },
        Transform::_270 => AxisMap { swap: true, negate_x: false, negate_y: true },
        Transform::Flipped => AxisMap { swap: false, negate_x: true, negate_y: false },
        Transform::Flipped90 => AxisMap { swap: true, negate_x: true, negate_y: true },
        Transform::Flipped180 => AxisMap { swap: false, negate_x: false, negate_y: true },
        Transform::Flipped270 => AxisMap { swap: true, negate_x: false, negate_y: false },
    }
}

impl Transform {
    /// How this transform moves a point of a surface.
    pub fn axis_map(&self) -> (m: AxisMap)
        ensures
            m == axis_map_of(*self),
    {
        match self {
            Transform::Normal => AxisMap { swap: false, negate_x: false, negate_y: false },
            Transform::_90 => AxisMap { swap: true, negate_x: true, negate_y: false },
            Transform::_180 => AxisMap { swap: false, negate_x: true, negate_y: true },
            Transform::_270 => AxisMap { swap: true, negate_x: false, negate_y: true },
            Transform::Flipped => AxisMap { swap: false, negate_x: true, negate_y: false },
            Transform::Flipped90 => AxisMap { swap: true, negate_x: true, negate_y: true },
            Transform::Flipped180 => AxisMap { swap: false, negate_x: false, negate_y: true },
            Transform::Flipped270 => AxisMap { swap: true, negate_x: false, negate_y: false },
        }
    }

    /// The size of a surface after this transform: width and height trade
    /// places for the quarter turns.
    pub fn transform_size<T, U>(&self, size: Size<T, U>) -> (s: Size<T, U>)
        ensures
            swaps_axes(*self) ==> s.w == size.h && s.h == size.w,
            !swaps_axes(*self) ==> s == size,
    {
        match self {
            Transform::Normal | Transform::_180 | Transform::Flipped | Transform::Flipped180 => size,
            Transform::_90 | Transform::_270 | Transform::Flipped90 | Transform::Flipped270 => {
                Size::from((size.h, size.w))
            },
        }
    }
}

/// Law: a transform moves points with swapped coordinates exactly when it
/// trades the width and height of sizes.
pub proof fn law_point_and_size_transforms_agree(t: Transform)
    ensures
        axis_map_of(t).swap == swaps_axes(t),
{
}

/// Where an axis map moves the point `p`.
pub open spec fn map_point(m: AxisMap, p: (int, int)) -> (int, int) {
    let (x, y) = if m.swap { (p.1, p.0) } else { (p.0, p.1) };
    (if m.negate_x { -x } else { x }, if m.negate_y { -y } else { y })
}

/// Where transform `t` moves the point `p`.
pub open spec fn transform_point(t: Transform, p: (int, int)) -> (int, int) {
    map_point(axis_map_of(t), p)
}

/// Law: the transforms move points as the turns and mirror images they
/// name. `Normal` leaves every point in place; `_90` turns it a quarter
/// counter-clockwise, from (x, y) to (-y, x); `_180` and `_270` are that
/// quarter turn done twice and three times; `Flipped` mirrors x; and each
/// flipped turn mirrors first and then turns.
pub proof fn law_transforms_compose(p: (int, int))
    ensures
        transform_point(Transform::Normal, p) == p,
        transform_point(Transform::_90, p) == (-p.1, p.0),
        transform_point(Transform::Flipped, p) == (-p.0, p.1),
        transform_point(Transform::_180, p)
            == transform_point(Transform::_90, transform_point(Transform::_90, p)),
        transform_point(Transform::_270, p)
            == transform_point(Transform::_90, transform_point(Transform::_180, p)),
        transform_point(Transform::_90, transform_point(Transform::_270, p)) == p,
        transform_point(Transform::Flipped90, p)
            == transform_point(Transform::_90, transform_point(Transform::Flipped, p)),
        transform_point(Transform::Flipped180, p)
            == transform_point(Transform::_180, transform_point(Transform::Flipped, p)),
        transform_point(Transform::Flipped270, p)
            == transform_point(Transform::_270, transform_point(Transform::Flipped, p)),
        transform_point(Transform::Flipped, transform_point(Transform::Flipped, p)) == p,
{
}

/// Law: transforming a size twice by the same transform gives it back.
pub proof fn law_size_transform_involutive<T, U>(t: Transform, size: Size<T, U>, once: Size<T, U>, twice: Size<T, U>)
    requires
        swaps_axes(t) ==> once.w == size.h && once.h == size.w,
        !swaps_axes(t) ==> once == size,
        swaps_axes(t) ==> twice.w == once.h && twice.h == once.w,
        !swaps_axes(t) ==> twice == once,
    ensures
        twice.w == size.w && twice.h == size.h,
{
}

} // verus!
