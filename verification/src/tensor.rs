//! The N-dimensional array the decoder fills: a thin verified boundary
//! around `ndarray`'s dynamic-dimensional array.
//!
//! The array itself lives behind `#[verifier::external_body]`; its contents
//! and shape are named by two uninterpreted spec functions, and a small set
//! of trusted wrappers states what each `ndarray` call does to them. The
//! arrays held here are always in `ndarray`'s default (standard, row-major)
//! layout: every constructor below builds one that way, and no method
//! changes the layout, so a coordinate vector addresses the element at its
//! row-major flat position.

use crate::scalar::IdxData;
use crate::shape::count_elems;
use crate::shape::flat_index;
use crate::shape::nonzero_prod;
use crate::shape::valid_coords;
use vstd::prelude::*;

verus! {

/// An N-dimensional array of [`IdxData`], shaped by a dimension vector and
/// owned by the caller once a decode returns it.
#[verifier::external_body]
pub struct Tensor {
    arr: ndarray::ArrayD<IdxData>,
}

/// The elements of a tensor in row-major order (the order `ndarray` stores
/// a standard-layout array in).
pub uninterp spec fn tensor_elems(t: Tensor) -> Seq<IdxData>;

/// The dimension sizes a tensor was allocated with.
pub uninterp spec fn tensor_shape(t: Tensor) -> Seq<usize>;

impl Tensor {
    /// Allocate a tensor of the given shape with every element absent.
    ///
    /// Relies on `ndarray::ArrayD::from_elem`, which builds a
    /// standard-layout array of exactly the given shape, holding the
    /// product-of-sizes many copies of the element, and panics only when
    /// the product of the non-zero sizes overflows `isize` (the bound
    /// required here keeps that product well below any platform's limit,
    /// byte size included).
    #[verifier::external_body]
    pub(crate) fn new(shape: &Vec<usize>) -> (t: Tensor)
        requires
            nonzero_prod(shape@) <= usize::MAX as int / 64,
        ensures
            tensor_shape(t) == shape@,
            tensor_elems(t) == Seq::new(
                count_elems(shape@) as nat,
                |k: int| IdxData::Absent,
            ),
    {
        Tensor { arr: ndarray::ArrayD::from_elem(ndarray::IxDyn(shape.as_slice()), IdxData::Absent) }
    }

    /// Write one element at a coordinate vector.
    ///
    /// Relies on `ndarray`'s indexed assignment (`IndexMut` with a
    /// `&[usize]` index), which replaces exactly the addressed element; in
    /// the standard layout every tensor here keeps, that element sits at
    /// the coordinate's row-major flat position.
    #[verifier::external_body]
    pub(crate) fn set(&mut self, idx: &Vec<usize>, v: IdxData)
        requires
            valid_coords(tensor_shape(*old(self)), idx@),
        ensures
            tensor_shape(*final(self)) == tensor_shape(*old(self)),
            tensor_elems(*final(self)) == tensor_elems(*old(self)).update(
                flat_index(tensor_shape(*old(self)), idx@),
                v,
            ),
    {
        self.arr[idx.as_slice()] = v;
    }

    /// Read one element at a coordinate vector.
    ///
    /// Relies on `ndarray`'s indexing (`Index` with a `&[usize]` index),
    /// which returns the addressed element: in the standard layout, the one
    /// at the coordinate's row-major flat position.
    #[verifier::external_body]
    fn get(&self, idx: &Vec<usize>) -> (v: IdxData)
        requires
            valid_coords(tensor_shape(*self), idx@),
        ensures
            v == tensor_elems(*self)[flat_index(tensor_shape(*self), idx@)],
    {
        self.arr[idx.as_slice()]
    }

    /// Read the element at a flat row-major position.
    ///
    /// Relies on `ndarray::ArrayBase::iter`, which yields the elements in
    /// logical (row-major) order.
    #[verifier::external_body]
    fn get_flat(&self, i: usize) -> (v: IdxData)
        requires
            (i as int) < tensor_elems(*self).len(),
        ensures
            v == tensor_elems(*self)[i as int],
    {
        *self.arr.iter().nth(i).unwrap()
    }

    /// The dimension sizes of this tensor.
    ///
    /// Relies on `ndarray::ArrayBase::shape`, which returns the dimension
    /// sizes the array was created with.
    #[verifier::external_body]
    pub fn shape(&self) -> (s: Vec<usize>)
        ensures
            s@ == tensor_shape(*self),
    {
        self.arr.shape().to_vec()
    }

    /// The number of elements this tensor holds.
    ///
    /// Relies on `ndarray::ArrayBase::len`, which returns the total element
    /// count: the product of the dimension sizes.
    #[verifier::external_body]
    pub fn num_elements(&self) -> (n: usize)
        ensures
            n as int == tensor_elems(*self).len(),
            n as int == count_elems(tensor_shape(*self)),
    {
        self.arr.len()
    }

    /// Read the element a coordinate vector addresses, or `None` when the
    /// coordinates do not name an element of this tensor's shape.
    pub fn at(&self, coords: &Vec<usize>) -> (r: Option<IdxData>)
        ensures
            r is Some <==> valid_coords(tensor_shape(*self), coords@),
            r is Some ==> r->Some_0 == tensor_elems(*self)[flat_index(
                tensor_shape(*self),
                coords@,
            )],
    {
        let shape = self.shape();
        let n = coords.len();
        if n != shape.len() {
            return Option::None;
        }
        let mut k: usize = 0;
        while k < n
            invariant
                k <= n,
                n == coords@.len(),
                n == shape@.len(),
                shape@ == tensor_shape(*self),
                forall|m: int| 0 <= m < k ==> (coords@[m] as int) < (shape@[m] as int),
            decreases n - k,
        {
            if coords[k] >= shape[k] {
                return Option::None;
            }
            k = k + 1;
        }
        Option::Some(self.get(coords))
    }

    /// Read the element at a flat row-major position, or `None` past the
    /// last element.
    pub fn at_flat(&self, i: usize) -> (r: Option<IdxData>)
        ensures
            r is Some <==> (i as int) < tensor_elems(*self).len(),
            r is Some ==> r->Some_0 == tensor_elems(*self)[i as int],
    {
        let n = self.num_elements();
        if i < n {
            Option::Some(self.get_flat(i))
        } else {
            Option::None
        }
    }
}

} // verus!
