//! Tensors of field elements: a flat row-major vector of values and the
//! shape that it is read by.

use crate::felt::Felt;
use vstd::prelude::*;

verus! {

/// The number of elements of a tensor of shape `dims`: the product of its
/// dimensions, which is one for the empty shape of a scalar.
pub open spec fn shape_len(dims: Seq<usize>) -> nat
    decreases dims.len(),
{
    if dims.len() == 0 {
        1
    } else {
        shape_len(dims.drop_last()) * dims.last() as nat
    }
}

/// Whether some dimension of `dims` is zero.
pub open spec fn has_zero_dim(dims: Seq<usize>) -> bool {
    exists|i: int| 0 <= i < dims.len() && dims[i] == 0
}

/// A shape with a zero dimension holds no element.
pub proof fn lemma_zero_dim_is_empty(dims: Seq<usize>)
    requires
        has_zero_dim(dims),
    ensures
        shape_len(dims) == 0,
    decreases dims.len(),
{
    let i = choose|i: int| 0 <= i < dims.len() && dims[i] == 0;
    if i < dims.len() - 1 {
        assert(dims.drop_last()[i] == 0);
        lemma_zero_dim_is_empty(dims.drop_last());
        assert(0 * dims.last() as nat == 0);
    } else {
        assert(shape_len(dims.drop_last()) * 0 == 0) by (nonlinear_arith);
    }
}

/// Without a zero dimension the element count only grows as dimensions are
/// added: that of a prefix is at most that of the whole shape.
pub proof fn lemma_prefix_len_bounded(dims: Seq<usize>, n: int)
    requires
        !has_zero_dim(dims),
        0 <= n <= dims.len(),
    ensures
        1 <= shape_len(dims.take(n)) <= shape_len(dims),
    decreases dims.len() - n,
{
    lemma_shape_len_positive(dims.take(n));
    if n == dims.len() {
        assert(dims.take(n) == dims);
    } else {
        lemma_prefix_len_bounded(dims, n + 1);
        let next = dims.take(n + 1);
        assert(next.drop_last() == dims.take(n));
        assert(next.last() == dims[n]);
        assert(dims[n] >= 1);
        assert(shape_len(dims.take(n)) <= shape_len(dims.take(n)) * dims[n] as nat)
            by (nonlinear_arith)
            requires
                dims[n] >= 1,
        ;
    }
}

proof fn lemma_shape_len_positive(dims: Seq<usize>)
    requires
        !has_zero_dim(dims),
    ensures
        shape_len(dims) >= 1,
    decreases dims.len(),
{
    if dims.len() > 0 {
        let front = dims.drop_last();
        assert forall|i: int| 0 <= i < front.len() implies front[i] != 0 by {
            assert(front[i] == dims[i]);
        }
        lemma_shape_len_positive(front);
        assert(dims[dims.len() - 1] != 0);
        assert(shape_len(front) * dims.last() as nat >= 1) by (nonlinear_arith)
            requires
                shape_len(front) >= 1,
                dims.last() >= 1,
        ;
    }
}

/// The element count of the shape `dims`, where it fits in `usize`.
pub fn checked_shape_len(dims: &Vec<usize>) -> (r: Option<usize>)
    ensures
        r is Some <==> shape_len(dims@) <= usize::MAX,
        r is Some ==> r->0 == shape_len(dims@),
{
    let mut i: usize = 0;
    while i < dims.len()
        invariant
            i <= dims.len(),
            forall|j: int| 0 <= j < i ==> dims@[j] != 0,
        decreases dims.len() - i,
    {
        if dims[i] == 0 {
            proof {
                lemma_zero_dim_is_empty(dims@);
            }
            return Some(0);
        }
        i = i + 1;
    }
    let mut acc: usize = 1;
    let mut k: usize = 0;
    assert(dims@.take(0).len() == 0);
    while k < dims.len()
        invariant
            k <= dims.len(),
            !has_zero_dim(dims@),
            acc == shape_len(dims@.take(k as int)),
        decreases dims.len() - k,
    {
        proof {
            let next = dims@.take(k + 1);
            assert(next.drop_last() == dims@.take(k as int));
            assert(next.last() == dims@[k as int]);
            lemma_prefix_len_bounded(dims@, k + 1);
        }
        match acc.checked_mul(dims[k]) {
            Some(product) => {
                acc = product;
            },
            None => {
                return None;
            },
        }
        k = k + 1;
    }
    assert(dims@.take(k as int) == dims@);
    Some(acc)
}

/// A copy of a vector of plain values.
pub fn copy_of<T: Copy>(v: &Vec<T>) -> (r: Vec<T>)
    ensures
        r@ == v@,
{
    let mut r: Vec<T> = Vec::new();
    let mut i: usize = 0;
    while i < v.len()
        invariant
            i <= v.len(),
            r@ == v@.take(i as int),
        decreases v.len() - i,
    {
        r.push(v[i]);
        assert(v@.take(i + 1) == v@.take(i as int).push(v@[i as int]));
        i = i + 1;
    }
    assert(v@.take(i as int) == v@);
    r
}

/// A tensor of field elements. It holds exactly as many values as its shape
/// has elements, in row-major order.
#[derive(Debug)]
pub struct Tensor {
    inner: Vec<Felt>,
    dims: Vec<usize>,
}

impl Tensor {
    #[verifier::type_invariant]
    spec fn consistent(self) -> bool {
        self.inner@.len() == shape_len(self.dims@)
    }

    /// The values, in row-major order.
    pub closed spec fn values(self) -> Seq<Felt> {
        self.inner@
    }

    /// The shape.
    pub closed spec fn shape(self) -> Seq<usize> {
        self.dims@
    }

    /// A tensor holds as many values as its shape has elements.
    pub open spec fn wf(self) -> bool {
        self.values().len() == shape_len(self.shape())
    }

    /// The values of a tensor are held in memory, so there are no more of
    /// them than `usize` counts.
    pub proof fn lemma_len_fits(self)
        ensures
            self.values().len() <= usize::MAX,
    {
        assert(self.inner.len() == self.inner@.len());
    }

    /// Whether every value is zero.
    pub open spec fn is_zero(self) -> bool {
        forall|i: int| 0 <= i < self.values().len() ==> (#[trigger] self.values()[i]).value() == 0
    }

    /// A tensor of shape `dims` whose values are all zero, where the element
    /// count of the shape fits in `usize`.
    pub fn placeholder(dims: &Vec<usize>) -> (r: Option<Tensor>)
        ensures
            r is Some <==> shape_len(dims@) <= usize::MAX,
            r is Some ==> r->0.wf() && r->0.shape() == dims@ && r->0.is_zero(),
    {
        match checked_shape_len(dims) {
            None => None,
            Some(n) => {
                let mut inner: Vec<Felt> = Vec::new();
                let mut i: usize = 0;
                while i < n
                    invariant
                        i <= n,
                        inner@.len() == i,
                        forall|j: int| 0 <= j < i ==> (#[trigger] inner@[j]).value() == 0,
                    decreases n - i,
                {
                    inner.push(Felt::zero());
                    i = i + 1;
                }
                Some(Tensor { inner, dims: copy_of(dims) })
            },
        }
    }

    /// The tensor that reads the flat vector `values` by the shape `dims`,
    /// where the vector holds exactly as many values as the shape has
    /// elements.
    pub fn from_values(values: Vec<Felt>, dims: &Vec<usize>) -> (r: Option<Tensor>)
        ensures
            r is Some <==> values@.len() == shape_len(dims@),
            r is Some ==> r->0.wf() && r->0.shape() == dims@ && r->0.values() == values@,
    {
        let found = values.len();
        match checked_shape_len(dims) {
            None => None,
            Some(n) => {
                if found == n {
                    Some(Tensor { inner: values, dims: copy_of(dims) })
                } else {
                    None
                }
            },
        }
    }

    /// The number of values.
    pub fn len(&self) -> (n: usize)
        ensures
            n == self.values().len(),
            self.wf(),
    {
        proof {
            use_type_invariant(self);
        }
        self.inner.len()
    }

    /// The shape.
    pub fn dims(&self) -> (r: &Vec<usize>)
        ensures
            r@ == self.shape(),
            self.wf(),
    {
        proof {
            use_type_invariant(self);
        }
        &self.dims
    }

    /// The values, in row-major order.
    pub fn to_vec(&self) -> (r: Vec<Felt>)
        ensures
            r@ == self.values(),
            self.wf(),
    {
        proof {
            use_type_invariant(self);
        }
        copy_of(&self.inner)
    }

    /// A copy of the tensor.
    pub fn duplicate(&self) -> (r: Tensor)
        ensures
            r.values() == self.values(),
            r.shape() == self.shape(),
            r.wf(),
    {
        proof {
            use_type_invariant(self);
        }
        Tensor { inner: copy_of(&self.inner), dims: copy_of(&self.dims) }
    }
}

impl Clone for Tensor {
    fn clone(&self) -> (r: Tensor)
        ensures
            r.values() == self.values(),
            r.shape() == self.shape(),
    {
        self.duplicate()
    }
}

} // verus!
