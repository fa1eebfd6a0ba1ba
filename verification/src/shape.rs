//! Dimension vectors and row-major coordinates: the number of elements a
//! shape declares, the flat position a coordinate vector names, and the
//! odometer step that walks all coordinates in row-major order.

use vstd::prelude::*;

verus! {

/// The number of elements a shape holds: the product of all dimension
/// sizes, and 1 for the zero-dimensional shape.
pub open spec fn count_elems(dims: Seq<usize>) -> int
    decreases dims.len(),
{
    if dims.len() == 0 {
        1
    } else {
        count_elems(dims.drop_last()) * (dims.last() as int)
    }
}

/// The product of the non-zero dimension sizes alone. This is the quantity
/// the tensor allocator is sensitive to, even when a zero-sized dimension
/// makes the element count itself zero.
pub open spec fn nonzero_prod(dims: Seq<usize>) -> int
    decreases dims.len(),
{
    if dims.len() == 0 {
        1
    } else {
        nonzero_prod(dims.drop_last()) * (if dims.last() == 0 {
            1int
        } else {
            dims.last() as int
        })
    }
}

pub proof fn lemma_nonzero_prod_pos(dims: Seq<usize>)
    ensures
        nonzero_prod(dims) >= 1,
    decreases dims.len(),
{
    if dims.len() > 0 {
        lemma_nonzero_prod_pos(dims.drop_last());
        let p = nonzero_prod(dims.drop_last());
        let f = if dims.last() == 0 {
            1int
        } else {
            dims.last() as int
        };
        assert(p * f >= 1) by (nonlinear_arith)
            requires
                p >= 1,
                f >= 1,
        ;
    }
}

/// A prefix of a shape never has a larger non-zero product than the whole.
pub proof fn lemma_nonzero_prod_prefix(dims: Seq<usize>, j: int)
    requires
        0 <= j <= dims.len(),
    ensures
        nonzero_prod(dims.subrange(0, j)) <= nonzero_prod(dims),
    decreases dims.len(),
{
    if j == dims.len() {
        assert(dims.subrange(0, j) =~= dims);
    } else {
        assert(dims.drop_last().subrange(0, j) =~= dims.subrange(0, j));
        lemma_nonzero_prod_prefix(dims.drop_last(), j);
        lemma_nonzero_prod_pos(dims.drop_last());
        let p = nonzero_prod(dims.drop_last());
        let f = if dims.last() == 0 {
            1int
        } else {
            dims.last() as int
        };
        assert(p * f >= p) by (nonlinear_arith)
            requires
                p >= 1,
                f >= 1,
        ;
    }
}

/// A coordinate vector addresses one element of a shape: one index per
/// dimension, each within its dimension's size.
pub open spec fn valid_coords(dims: Seq<usize>, c: Seq<usize>) -> bool {
    &&& c.len() == dims.len()
    &&& forall|k: int| 0 <= k < c.len() ==> (c[k] as int) < (dims[k] as int)
}

/// The flat row-major position of a coordinate vector: the last dimension
/// varies fastest.
pub open spec fn flat_index(dims: Seq<usize>, c: Seq<usize>) -> int
    decreases c.len(),
{
    if c.len() == 0 {
        0
    } else {
        flat_index(dims.drop_last(), c.drop_last()) * (dims.last() as int) + c.last()
    }
}

pub proof fn lemma_count_elems_nonneg(dims: Seq<usize>)
    ensures
        count_elems(dims) >= 0,
    decreases dims.len(),
{
    if dims.len() > 0 {
        lemma_count_elems_nonneg(dims.drop_last());
        let c = count_elems(dims.drop_last());
        let d = dims.last() as int;
        assert(c * d >= 0) by (nonlinear_arith)
            requires
                c >= 0,
                d >= 0,
        ;
    }
}

/// A positive element count means every dimension size is positive.
pub proof fn lemma_count_pos_dims(dims: Seq<usize>)
    requires
        count_elems(dims) > 0,
    ensures
        forall|k: int| 0 <= k < dims.len() ==> (dims[k] as int) > 0,
    decreases dims.len(),
{
    if dims.len() > 0 {
        let c = count_elems(dims.drop_last());
        let d = dims.last() as int;
        lemma_count_elems_nonneg(dims.drop_last());
        assert(c > 0 && d > 0) by (nonlinear_arith)
            requires
                c * d > 0,
                c >= 0,
                d >= 0,
        ;
        lemma_count_pos_dims(dims.drop_last());
        assert(forall|k: int| 0 <= k < dims.len() - 1 ==> dims[k] == dims.drop_last()[k]);
    }
}

/// A coordinate vector of all zeros names the first element in row-major
/// order.
pub proof fn lemma_flat_index_zero(dims: Seq<usize>, c: Seq<usize>)
    requires
        c.len() == dims.len(),
        forall|k: int| 0 <= k < c.len() ==> c[k] == 0,
    ensures
        flat_index(dims, c) == 0,
    decreases c.len(),
{
    if c.len() > 0 {
        lemma_flat_index_zero(dims.drop_last(), c.drop_last());
    }
}

/// The coordinate vector whose every index is at its maximum names the very
/// last element in row-major order.
pub proof fn lemma_flat_index_all_max(dims: Seq<usize>, c: Seq<usize>)
    requires
        valid_coords(dims, c),
        forall|k: int| 0 <= k < c.len() ==> (c[k] as int) == (dims[k] as int) - 1,
    ensures
        flat_index(dims, c) == count_elems(dims) - 1,
    decreases c.len(),
{
    if c.len() == 0 {
    } else {
        assert(valid_coords(dims.drop_last(), c.drop_last()));
        lemma_flat_index_all_max(dims.drop_last(), c.drop_last());
        let cnt = count_elems(dims.drop_last());
        let d = dims.last() as int;
        assert((cnt - 1) * d + (d - 1) == cnt * d - 1) by (nonlinear_arith);
    }
}

/// The coordinate vector after one odometer step at position `p`: the index
/// there rises by one and every later index returns to zero.
pub open spec fn inc_at(c: Seq<usize>, p: int) -> Seq<usize> {
    Seq::new(
        c.len(),
        |k: int|
            if k < p {
                c[k]
            } else if k == p {
                (c[p] + 1) as usize
            } else {
                0usize
            },
    )
}

/// One odometer step moves the flat row-major position forward by exactly
/// one: if every index after position `p` is at its maximum and the index at
/// `p` has room, raising it and zeroing the rest names the next element.
pub proof fn lemma_flat_index_inc(dims: Seq<usize>, c: Seq<usize>, p: int)
    requires
        valid_coords(dims, c),
        0 <= p < c.len(),
        (c[p] as int) + 1 < (dims[p] as int),
        forall|k: int| p < k < c.len() ==> (c[k] as int) == (dims[k] as int) - 1,
    ensures
        valid_coords(dims, inc_at(c, p)),
        flat_index(dims, inc_at(c, p)) == flat_index(dims, c) + 1,
    decreases c.len(),
{
    let c2 = inc_at(c, p);
    if p == c.len() - 1 {
        assert(c2.drop_last() =~= c.drop_last());
    } else {
        assert(c2.drop_last() =~= inc_at(c.drop_last(), p));
        assert(valid_coords(dims.drop_last(), c.drop_last()));
        lemma_flat_index_inc(dims.drop_last(), c.drop_last(), p);
        let f = flat_index(dims.drop_last(), c.drop_last());
        let d = dims.last() as int;
        assert((f + 1) * d == f * d + d) by (nonlinear_arith);
    }
}

/// Compute the element count a shape declares, guarding the tensor
/// allocator's limit: `None` exactly when the product of the non-zero
/// dimension sizes is too large to allocate.
pub fn compute_size(dims: &Vec<usize>) -> (r: Option<usize>)
    ensures
        r is Some <==> nonzero_prod(dims@) <= usize::MAX as int / 64,
        r is Some ==> r.unwrap() as int == count_elems(dims@),
{
    let n = dims.len();
    let mut np: usize = 1;
    let mut zero_seen: bool = false;
    let mut j: usize = 0;
    proof {
        assert(dims@.subrange(0, 0) =~= Seq::<usize>::empty());
    }
    while j < n
        invariant
            j <= n,
            n == dims@.len(),
            np as int == nonzero_prod(dims@.subrange(0, j as int)),
            np as int <= usize::MAX as int / 64,
            (if zero_seen {
                0int
            } else {
                np as int
            }) == count_elems(dims@.subrange(0, j as int)),
        decreases n - j,
    {
        let d = dims[j];
        proof {
            let pre = dims@.subrange(0, j as int);
            let nxt = dims@.subrange(0, j as int + 1);
            assert(nxt.drop_last() =~= pre);
            assert(count_elems(pre) == 0 ==> count_elems(nxt) == 0) by (nonlinear_arith)
                requires
                    count_elems(nxt) == count_elems(pre) * (nxt.last() as int),
            ;
        }
        if d == 0 {
            zero_seen = true;
        } else {
            match np.checked_mul(d) {
                Option::Some(x) => {
                    if x > usize::MAX / 64 {
                        proof {
                            lemma_nonzero_prod_prefix(dims@, j as int + 1);
                        }
                        return Option::None;
                    }
                    np = x;
                }
                Option::None => {
                    proof {
                        lemma_nonzero_prod_prefix(dims@, j as int + 1);
                    }
                    return Option::None;
                }
            }
        }
        j = j + 1;
    }
    proof {
        assert(dims@.subrange(0, n as int) =~= dims@);
    }
    if zero_seen {
        Option::Some(0)
    } else {
        Option::Some(np)
    }
}

/// Advance a coordinate vector to the next element in row-major order.
/// Returns true exactly when the odometer rolls over, which happens at the
/// coordinates of the last element.
pub fn next_coords(c: &mut Vec<usize>, dims: &Vec<usize>) -> (carry: bool)
    requires
        valid_coords(dims@, old(c)@),
    ensures
        final(c)@.len() == old(c)@.len(),
        !carry ==> valid_coords(dims@, final(c)@) && flat_index(dims@, final(c)@) == flat_index(
            dims@,
            old(c)@,
        ) + 1,
        carry ==> flat_index(dims@, old(c)@) == count_elems(dims@) - 1,
{
    let n = c.len();
    let mut j: usize = n;
    while j > 0
        invariant
            j <= n,
            n == c@.len(),
            n == old(c)@.len(),
            n == dims@.len(),
            valid_coords(dims@, old(c)@),
            forall|k: int| 0 <= k < j ==> c@[k] == old(c)@[k],
            forall|k: int| j <= k < n ==> c@[k] == 0,
            forall|k: int| j <= k < n ==> (old(c)@[k] as int) == (dims@[k] as int) - 1,
        decreases j,
    {
        let cur = c[j - 1];
        if cur + 1 < dims[j - 1] {
            c.set(j - 1, cur + 1);
            proof {
                assert(c@ =~= inc_at(old(c)@, j as int - 1));
                lemma_flat_index_inc(dims@, old(c)@, j as int - 1);
            }
            return false;
        }
        c.set(j - 1, 0);
        j = j - 1;
    }
    proof {
        lemma_flat_index_all_max(dims@, old(c)@);
    }
    true
}

} // verus!
