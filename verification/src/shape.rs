//! Row-major linearization of 3D coordinates, through `ndshape`'s `RuntimeShape`.
//!
//! `RuntimeShape::<u32, 3>::new([x, y, z])` stores the strides `[1, x, x * y]` and the size
//! `x * y * z`; `linearize` and `delinearize` use those strides. The items below state that
//! arithmetic, as `ndshape`'s source (version 0.3) writes it, for the inputs on which it
//! neither overflows nor divides by zero.
use vstd::prelude::*;
use ndshape::{RuntimeShape, Shape};

verus! {

#[verifier::external_type_specification]
#[verifier::external_body]
#[verifier::reject_recursive_types(C)]
pub struct ExRuntimeShape<C, const N: usize>(RuntimeShape<C, N>);

/// The extents `[x, y, z]` that a 3D shape was made with.
pub uninterp spec fn shape_dims(shape: RuntimeShape<u32, 3>) -> Seq<u32>;

/// The linear index of `p` in a row-major grid of extents `d`: `p.x + d.x * p.y + d.x * d.y * p.z`.
pub open spec fn row_major_index(d: Seq<u32>, p: Seq<u32>) -> int {
    p[0] + d[0] * p[1] + (d[0] * d[1]) * p[2]
}

/// Whether `d` (three extents) has a product that fits in a `u32`, as do the strides.
pub open spec fn dims_fit(d: Seq<u32>) -> bool {
    &&& d.len() == 3
    &&& d[0] * d[1] <= u32::MAX
    &&& (d[0] * d[1]) * d[2] <= u32::MAX
}

/// `RuntimeShape::<u32, 3>::new`: a shape with the extents `dims`.
/// Its multiplications overflow (and panic in debug builds) unless the product fits.
#[verifier::external_body]
pub(crate) fn shape3_new(dims: [u32; 3]) -> (shape: RuntimeShape<u32, 3>)
    requires
        dims_fit(dims@),
    ensures
        shape_dims(shape) == dims@,
{
    RuntimeShape::<u32, 3>::new(dims)
}

/// `Shape::usize` on a 3D shape: the number of cells, `x * y * z`.
#[verifier::external_body]
pub(crate) fn shape3_usize(shape: &RuntimeShape<u32, 3>) -> (n: usize)
    requires
        dims_fit(shape_dims(*shape)),
    ensures
        n == (shape_dims(*shape)[0] * shape_dims(*shape)[1]) * shape_dims(*shape)[2],
{
    shape.usize()
}

/// `Shape::linearize` on a 3D shape: the row-major index of `p`. The additions panic in debug
/// builds unless the index fits in a `u32`.
#[verifier::external_body]
pub(crate) fn shape3_linearize(shape: &RuntimeShape<u32, 3>, p: [u32; 3]) -> (i: u32)
    requires
        dims_fit(shape_dims(*shape)),
        row_major_index(shape_dims(*shape), p@) <= u32::MAX,
    ensures
        i == row_major_index(shape_dims(*shape), p@),
{
    shape.linearize(p)
}

/// `Shape::delinearize` on a 3D shape: `z = i / (x * y)`, then from the remainder
/// `y = r / x` and `x = r % x`. It divides by `x` and by `x * y`, which must not be zero.
#[verifier::external_body]
pub(crate) fn shape3_delinearize(shape: &RuntimeShape<u32, 3>, i: u32) -> (p: [u32; 3])
    requires
        dims_fit(shape_dims(*shape)),
        shape_dims(*shape)[0] > 0,
        shape_dims(*shape)[1] > 0,
    ensures
        p@[0] == (i as int % (shape_dims(*shape)[0] * shape_dims(*shape)[1])) % shape_dims(*shape)[0] as int,
        p@[1] == (i as int % (shape_dims(*shape)[0] * shape_dims(*shape)[1])) / shape_dims(*shape)[0] as int,
        p@[2] == i as int / (shape_dims(*shape)[0] * shape_dims(*shape)[1]),
{
    shape.delinearize(i)
}

} // verus!
