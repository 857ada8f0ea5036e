//! Fixed-width lane vectors and sparse index lists.
use vstd::prelude::*;
use crate::activation::Activation;
use crate::arith::{lane_add, lane_mul, lane_sub, wrap};

verus! {

broadcast use vstd::array::group_array_axioms;

/// Lane-wise wrapping sum.
pub open spec fn lanes_add(a: Seq<i32>, b: Seq<i32>) -> Seq<i32> {
    Seq::new(a.len(), |i: int| wrap(a[i] + b[i]))
}

/// Lane-wise wrapping difference.
pub open spec fn lanes_sub(a: Seq<i32>, b: Seq<i32>) -> Seq<i32> {
    Seq::new(a.len(), |i: int| wrap(a[i] - b[i]))
}

/// Lane-wise wrapping product.
pub open spec fn lanes_mul(a: Seq<i32>, b: Seq<i32>) -> Seq<i32> {
    Seq::new(a.len(), |i: int| wrap(a[i] * b[i]))
}

/// `a + s * b`, lane-wise and wrapping.
pub open spec fn lanes_madd(a: Seq<i32>, b: Seq<i32>, s: i32) -> Seq<i32> {
    Seq::new(a.len(), |i: int| wrap(a[i] + b[i] * s))
}

/// The activation applied to every lane.
pub open spec fn lanes_activate<T: Activation>(a: Seq<i32>) -> Seq<i32> {
    Seq::new(a.len(), |i: int| T::spec_activate(a[i]))
}

/// The activation's derivative applied to every lane.
pub open spec fn lanes_derivative<T: Activation>(a: Seq<i32>) -> Seq<i32> {
    Seq::new(a.len(), |i: int| T::spec_derivative(a[i]))
}

/// All-zero lanes.
pub open spec fn lanes_zero(n: nat) -> Seq<i32> {
    Seq::new(n, |i: int| 0i32)
}

/// A vector of `N` lanes.
#[derive(Clone, Copy)]
pub struct Vector<const N: usize> {
    pub lanes: [i32; N],
}

impl<const N: usize> View for Vector<N> {
    type V = Seq<i32>;

    open spec fn view(&self) -> Seq<i32> {
        self.lanes@
    }
}

impl<const N: usize> Vector<N> {
    pub fn from_raw(lanes: [i32; N]) -> (r: Self)
        ensures
            r@ == lanes@,
    {
        Vector { lanes }
    }

    pub fn zeroed() -> (r: Self)
        ensures
            r@ == lanes_zero(N as nat),
    {
        let lanes: [i32; N] = vstd::array::array_fill_for_copy_types(0i32);
        let r = Vector { lanes };
        assert(r@ =~= lanes_zero(N as nat));
        r
    }

    /// Lane `i` is `f(i)`.
    pub fn from_fn<F: Fn(usize) -> i32>(f: F) -> (r: Self)
        requires
            forall|i: usize| i < N ==> f.requires((i,)),
        ensures
            forall|i: usize| i < N ==> f.ensures((i,), #[trigger] r@[i as int]),
    {
        let mut r = Self::zeroed();
        let mut i: usize = 0;
        while i < N
            invariant
                i <= N,
                r@.len() == N,
                forall|i: usize| i < N ==> f.requires((i,)),
                forall|k: usize| k < i ==> f.ensures((k,), #[trigger] r@[k as int]),
            decreases N - i,
        {
            let v = f(i);
            r.lanes[i] = v;
            i += 1;
        }
        r
    }

    pub fn get(&self, i: usize) -> (r: i32)
        requires
            i < N,
        ensures
            r == self@[i as int],
    {
        self.lanes[i]
    }

    pub fn set(&mut self, i: usize, v: i32)
        requires
            i < N,
        ensures
            final(self)@ == old(self)@.update(i as int, v),
    {
        self.lanes[i] = v;
    }

    /// Lane-wise sum.
    pub fn add(&self, rhs: &Self) -> (r: Self)
        ensures
            r@ == lanes_add(self@, rhs@),
    {
        let mut r = *self;
        let mut i: usize = 0;
        while i < N
            invariant
                i <= N,
                r@.len() == N,
                self@.len() == N,
                rhs@.len() == N,
                forall|k: int| 0 <= k < i ==> r@[k] == wrap(self@[k] + rhs@[k]),
                forall|k: int| i <= k < N ==> r@[k] == self@[k],
            decreases N - i,
        {
            let v = lane_add(r.lanes[i], rhs.lanes[i]);
            r.lanes[i] = v;
            i += 1;
        }
        assert(r@ =~= lanes_add(self@, rhs@));
        r
    }

    /// Lane-wise difference.
    pub fn sub(&self, rhs: &Self) -> (r: Self)
        ensures
            r@ == lanes_sub(self@, rhs@),
    {
        let mut r = *self;
        let mut i: usize = 0;
        while i < N
            invariant
                i <= N,
                r@.len() == N,
                self@.len() == N,
                rhs@.len() == N,
                forall|k: int| 0 <= k < i ==> r@[k] == wrap(self@[k] - rhs@[k]),
                forall|k: int| i <= k < N ==> r@[k] == self@[k],
            decreases N - i,
        {
            let v = lane_sub(r.lanes[i], rhs.lanes[i]);
            r.lanes[i] = v;
            i += 1;
        }
        assert(r@ =~= lanes_sub(self@, rhs@));
        r
    }

    /// Lane-wise product.
    pub fn mul(&self, rhs: &Self) -> (r: Self)
        ensures
            r@ == lanes_mul(self@, rhs@),
    {
        let mut r = *self;
        let mut i: usize = 0;
        while i < N
            invariant
                i <= N,
                r@.len() == N,
                self@.len() == N,
                rhs@.len() == N,
                forall|k: int| 0 <= k < i ==> r@[k] == wrap(self@[k] * rhs@[k]),
                forall|k: int| i <= k < N ==> r@[k] == self@[k],
            decreases N - i,
        {
            let v = lane_mul(r.lanes[i], rhs.lanes[i]);
            r.lanes[i] = v;
            i += 1;
        }
        assert(r@ =~= lanes_mul(self@, rhs@));
        r
    }

    /// `self += rhs`, lane-wise.
    pub fn add_assign(&mut self, rhs: &Self)
        ensures
            final(self)@ == lanes_add(old(self)@, rhs@),
    {
        *self = self.add(rhs);
    }

    /// `self += s * rhs`, lane-wise.
    pub fn madd(&mut self, rhs: &Self, s: i32)
        ensures
            final(self)@ == lanes_madd(old(self)@, rhs@, s),
    {
        let ghost start = self@;
        let mut i: usize = 0;
        while i < N
            invariant
                i <= N,
                self@.len() == N,
                start.len() == N,
                rhs@.len() == N,
                forall|k: int| 0 <= k < i ==> self@[k] == wrap(start[k] + rhs@[k] * s),
                forall|k: int| i <= k < N ==> self@[k] == start[k],
            decreases N - i,
        {
            let p = lane_mul(rhs.lanes[i], s);
            let v = lane_add(self.lanes[i], p);
            proof {
                crate::arith::lemma_wrap_add(start[i as int] as int, rhs@[i as int] * s);
            }
            self.lanes[i] = v;
            i += 1;
        }
        assert(self@ =~= lanes_madd(start, rhs@, s));
    }

    /// Appends the lanes to `out`.
    pub fn write_lanes(&self, out: &mut Vec<i32>)
        ensures
            final(out)@ == old(out)@ + self@,
    {
        let ghost start = out@;
        let mut i: usize = 0;
        while i < N
            invariant
                i <= N,
                self@.len() == N,
                out@ == start + self@.subrange(0, i as int),
            decreases N - i,
        {
            out.push(self.lanes[i]);
            i += 1;
            assert(out@ =~= start + self@.subrange(0, i as int));
        }
        assert(self@.subrange(0, N as int) =~= self@);
    }

    /// Overwrites every lane with the `N` lanes of `src` from `pos` on.
    pub fn read_lanes(&mut self, src: &Vec<i32>, pos: usize) -> (next: usize)
        requires
            pos + N <= src@.len(),
        ensures
            final(self)@ == src@.subrange(pos as int, pos + N),
            next == pos + N,
    {
        let len = src.len();
        let mut i: usize = 0;
        while i < N
            invariant
                i <= N,
                len == src@.len(),
                pos + N <= src@.len(),
                self@.len() == N,
                forall|k: int| 0 <= k < i ==> self@[k] == src@[pos + k],
            decreases N - i,
        {
            self.lanes[i] = src[pos + i];
            i += 1;
        }
        assert(self@ =~= src@.subrange(pos as int, pos + N));
        pos + N
    }

    /// The activation applied to every lane.
    pub fn activate<T: Activation>(&self) -> (r: Self)
        ensures
            r@ == lanes_activate::<T>(self@),
    {
        let mut r = *self;
        let mut i: usize = 0;
        while i < N
            invariant
                i <= N,
                r@.len() == N,
                self@.len() == N,
                forall|k: int| 0 <= k < i ==> r@[k] == T::spec_activate(self@[k]),
                forall|k: int| i <= k < N ==> r@[k] == self@[k],
            decreases N - i,
        {
            let v = T::activate(r.lanes[i]);
            r.lanes[i] = v;
            i += 1;
        }
        assert(r@ =~= lanes_activate::<T>(self@));
        r
    }

    /// The activation's derivative applied to every lane.
    pub fn derivative<T: Activation>(&self) -> (r: Self)
        ensures
            r@ == lanes_derivative::<T>(self@),
    {
        let mut r = *self;
        let mut i: usize = 0;
        while i < N
            invariant
                i <= N,
                r@.len() == N,
                self@.len() == N,
                forall|k: int| 0 <= k < i ==> r@[k] == T::spec_derivative(self@[k]),
                forall|k: int| i <= k < N ==> r@[k] == self@[k],
            decreases N - i,
        {
            let v = T::derivative(r.lanes[i]);
            r.lanes[i] = v;
            i += 1;
        }
        assert(r@ =~= lanes_derivative::<T>(self@));
        r
    }
}

} // verus!

verus! {

/// The active features of a sparse input: indices whose implicit value is 1.
/// An index may occur more than once; its occurrences add up.
pub struct SparseVector {
    indices: Vec<usize>,
}

impl View for SparseVector {
    type V = Seq<usize>;

    closed spec fn view(&self) -> Seq<usize> {
        self.indices@
    }
}

impl SparseVector {
    /// An empty list; `capacity` is only a hint for how many pushes follow.
    pub fn with_capacity(capacity: usize) -> (r: Self)
        ensures
            r@ == Seq::<usize>::empty(),
    {
        SparseVector { indices: Vec::with_capacity(capacity) }
    }

    /// Appends one active feature.
    pub fn push(&mut self, idx: usize)
        ensures
            final(self)@ == old(self)@.push(idx),
    {
        self.indices.push(idx);
    }

    pub fn len(&self) -> (r: usize)
        ensures
            r == self@.len(),
    {
        self.indices.len()
    }

    /// The `i`-th active feature, in order of insertion.
    pub fn get(&self, i: usize) -> (r: usize)
        requires
            i < self@.len(),
        ensures
            r == self@[i as int],
    {
        self.indices[i]
    }

    pub fn clone(&self) -> (r: Self)
        ensures
            r@ == self@,
    {
        SparseVector { indices: self.indices.clone() }
    }

    /// The features of `self` followed by those of `rhs`.
    pub fn concat(&self, rhs: &Self) -> (r: Self)
        ensures
            r@ == self@ + rhs@,
    {
        let mut indices = self.indices.clone();
        let mut i: usize = 0;
        while i < rhs.indices.len()
            invariant
                i <= rhs@.len(),
                indices@ == self@ + rhs@.subrange(0, i as int),
            decreases rhs@.len() - i,
        {
            indices.push(rhs.indices[i]);
            i += 1;
            assert(indices@ =~= self@ + rhs@.subrange(0, i as int));
        }
        assert(rhs@.subrange(0, rhs@.len() as int) =~= rhs@);
        SparseVector { indices }
    }
}

} // verus!
