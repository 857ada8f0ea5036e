//! Fully connected layer with a sparse input.
use vstd::prelude::*;
use std::marker::PhantomData;
use crate::activation::Activation;
use crate::arith::{lemma_wrap_add, wrap};
use crate::dense::local_err;
use crate::matrix::{lemma_concat_injective, lemma_concat_len, rows_add, Matrix};
use crate::network::{lemma_split, FeedForwardNetwork, OutputLayer};
use crate::vector::{lanes_activate, lanes_add, lanes_sub, lanes_zero, SparseVector, Vector};

verus! {

/// Lane `j` of the weight rows of the active features, summed exactly.
pub open spec fn feature_sum(w: Seq<Seq<i32>>, idx: Seq<usize>, j: int) -> int
    decreases idx.len(),
{
    if idx.len() == 0 {
        0
    } else {
        feature_sum(w, idx.drop_last(), j) + w[idx.last() as int][j]
    }
}

/// The pre-activation of a sparse layer: `bias + sum of the active rows`.
pub open spec fn sparse_pre(w: Seq<Seq<i32>>, b: Seq<i32>, idx: Seq<usize>) -> Seq<i32> {
    Seq::new(b.len(), |j: int| wrap(b[j] + feature_sum(w, idx, j)))
}

/// Every active feature is a row of the layer.
pub open spec fn in_range(idx: Seq<usize>, m: nat) -> bool {
    forall|k: int| 0 <= k < idx.len() ==> idx[k] < m
}

/// Adds `err` to the row of each active feature, in order.
pub open spec fn scatter_add(w: Seq<Seq<i32>>, idx: Seq<usize>, err: Seq<i32>) -> Seq<Seq<i32>>
    decreases idx.len(),
{
    if idx.len() == 0 {
        w
    } else {
        let prev = scatter_add(w, idx.drop_last(), err);
        let f = idx.last() as int;
        prev.update(f, lanes_add(prev[f], err))
    }
}

/// Fully connected layer whose input is the list of active features among
/// `M`, each of value 1, with `N` outputs and activation `T`.
///
/// The weights hold one row per input feature: output `j` is
/// `T(bias[j] + sum of weights[f][j] over the active features f)`.
pub struct SparseConnected<T: Activation, const M: usize, const N: usize> {
    pub weights: Matrix<M, N>,
    pub bias: Vector<N>,
    pub phantom: PhantomData<T>,
}

impl<T: Activation, const M: usize, const N: usize> Clone for SparseConnected<T, M, N> {
    fn clone(&self) -> (r: Self)
        ensures
            r == *self,
    {
        SparseConnected { weights: self.weights, bias: self.bias, phantom: PhantomData }
    }
}

impl<T: Activation, const M: usize, const N: usize> Copy for SparseConnected<T, M, N> {

}

/// The forward cache of a sparse layer: its activated output.
pub struct SparseConnectedLayers<const N: usize> {
    pub out: Vector<N>,
}

impl<const N: usize> OutputLayer for SparseConnectedLayers<N> {
    type Type = Vector<N>;

    open spec fn spec_output(&self) -> Seq<i32> {
        self.out@
    }

    fn output_layer(&self) -> (r: Vector<N>) {
        self.out
    }
}

impl<T: Activation, const M: usize, const N: usize> SparseConnected<T, M, N> {
    /// All weights and biases zero.
    pub fn zeroed() -> (r: Self)
        ensures
            r.is_zero(),
    {
        <Self as FeedForwardNetwork>::zeroed()
    }

    pub fn from_raw(weights: Matrix<M, N>, bias: Vector<N>) -> (r: Self)
        ensures
            r.weights@ == weights@,
            r.bias@ == bias@,
    {
        SparseConnected { weights, bias, phantom: PhantomData }
    }

    /// The weights of input feature `idx`.
    pub fn weights_row(&self, idx: usize) -> (r: Vector<N>)
        requires
            idx < M,
        ensures
            r@ == self.weights@[idx as int],
    {
        self.weights.row(idx)
    }

    pub fn weights_row_mut(&mut self, idx: usize) -> (r: &mut Vector<N>)
        requires
            idx < M,
        ensures
            r@ == old(self).weights@[idx as int],
            final(self).weights@ == old(self).weights@.update(idx as int, final(r)@),
            final(self).bias == old(self).bias,
    {
        &mut self.weights.rows[idx]
    }

    /// Builds the layer from functions: `w(f, j)` is lane `j` of the row of feature `f`, and
    /// `b(j)` is the bias of output `j`.
    pub fn from_fn<W: Fn(usize, usize) -> i32, B: Fn(usize) -> i32>(w: W, b: B) -> (r: Self)
        requires
            forall|x: usize, y: usize| x < M && y < N ==> w.requires((x, y)),
            forall|j: usize| j < N ==> b.requires((j,)),
        ensures
            forall|x: usize, y: usize|
                x < M && y < N ==> w.ensures((x, y), #[trigger] r.weights@[x as int][y as int]),
            forall|j: usize| j < N ==> b.ensures((j,), #[trigger] r.bias@[j as int]),
    {
        SparseConnected { weights: Matrix::from_fn(w), bias: Vector::from_fn(b), phantom: PhantomData }
    }

    pub fn bias(&self) -> (r: Vector<N>)
        ensures
            r@ == self.bias@,
    {
        self.bias
    }

    pub fn bias_mut(&mut self) -> (r: &mut Vector<N>)
        ensures
            *r == old(self).bias,
            final(self).bias == *final(r),
            final(self).weights == old(self).weights,
    {
        &mut self.bias
    }

    /// Incremental evaluation: feature `idx` becomes active, so its row is
    /// added to the pre-activation accumulator.
    pub fn add_feature(&self, acc: &mut Vector<N>, idx: usize)
        requires
            idx < M,
        ensures
            final(acc)@ == lanes_add(old(acc)@, self.weights@[idx as int]),
    {
        acc.add_assign(&self.weights.rows[idx]);
    }

    /// Incremental evaluation: feature `idx` stops being active, so its row
    /// is taken off the pre-activation accumulator.
    pub fn sub_feature(&self, acc: &mut Vector<N>, idx: usize)
        requires
            idx < M,
        ensures
            final(acc)@ == lanes_sub(old(acc)@, self.weights@[idx as int]),
    {
        *acc = acc.sub(&self.weights.rows[idx]);
    }

    /// The pre-activation for the active features of `input`.
    pub fn accumulate(&self, input: &SparseVector) -> (r: Vector<N>)
        requires
            in_range(input@, M as nat),
        ensures
            r@ == sparse_pre(self.weights@, self.bias@, input@),
    {
        let mut res = self.bias;
        let mut k: usize = 0;
        while k < input.len()
            invariant
                k <= input@.len(),
                in_range(input@, M as nat),
                res@.len() == N,
                self.bias@.len() == N,
                self.weights@.len() == M,
                forall|j: int|
                    0 <= j < N ==> res@[j] == wrap(
                        self.bias@[j] + feature_sum(self.weights@, input@.subrange(0, k as int), j),
                    ),
            decreases input@.len() - k,
        {
            let f = input.get(k);
            let ghost before = res@;
            self.add_feature(&mut res, f);
            proof {
                let s = input@.subrange(0, k as int + 1);
                assert(s.drop_last() =~= input@.subrange(0, k as int));
                assert forall|j: int| 0 <= j < N implies res@[j] == wrap(
                    self.bias@[j] + feature_sum(self.weights@, s, j),
                ) by {
                    let fs = feature_sum(self.weights@, input@.subrange(0, k as int), j);
                    lemma_wrap_add(self.bias@[j] + fs, self.weights@[f as int][j] as int);
                }
            }
            k += 1;
        }
        assert(input@.subrange(0, input@.len() as int) =~= input@);
        assert(res@ =~= sparse_pre(self.weights@, self.bias@, input@));
        res
    }
}

impl<T: Activation, const M: usize, const N: usize> FeedForwardNetwork for SparseConnected<
    T,
    M,
    N,
> {
    type InputType = SparseVector;

    type OutputType = Vector<N>;

    type Layers = SparseConnectedLayers<N>;

    open spec fn accepts(input: Seq<usize>) -> bool {
        in_range(input, M as nat)
    }

    open spec fn spec_out(&self, input: Seq<usize>) -> Seq<i32> {
        lanes_activate::<T>(sparse_pre(self.weights@, self.bias@, input))
    }

    open spec fn is_zero(&self) -> bool {
        &&& self.weights@ == Seq::new(M as nat, |j: int| lanes_zero(N as nat))
        &&& self.bias@ == lanes_zero(N as nat)
    }

    open spec fn is_sum(&self, a: &Self, b: &Self) -> bool {
        &&& self.weights@ == rows_add(a.weights@, b.weights@)
        &&& self.bias@ == lanes_add(a.bias@, b.bias@)
    }

    open spec fn is_grad_step(
        &self,
        input: Seq<usize>,
        out_err: Seq<i32>,
        layers: &SparseConnectedLayers<N>,
        before: &Self,
        after: &Self,
    ) -> bool {
        let err = local_err::<T>(out_err, layers.out@);
        &&& after.weights@ == scatter_add(before.weights@, input, err)
        &&& after.bias@ == lanes_add(before.bias@, err)
    }

    open spec fn is_cache(&self, input: Seq<usize>, layers: &SparseConnectedLayers<N>) -> bool {
        layers.out@ == self.spec_out(input)
    }

    proof fn lemma_cache_output(&self, input: Seq<usize>, layers: &SparseConnectedLayers<N>) {
        assert(layers.spec_output() == layers.out@);
    }

    proof fn lemma_cache_determines(
        &self,
        input: Seq<usize>,
        out_err: Seq<i32>,
        l1: &SparseConnectedLayers<N>,
        l2: &SparseConnectedLayers<N>,
        before: &Self,
        after: &Self,
    ) {
        assert(l1.out@ == l2.out@);
        assert(self.spec_input_grad(input, out_err, l1) == Seq::<usize>::empty());
        assert(self.spec_input_grad(input, out_err, l2) == Seq::<usize>::empty());
    }

    /// A sparse input is terminal: no gradient flows back into it.
    open spec fn spec_input_grad(
        &self,
        input: Seq<usize>,
        out_err: Seq<i32>,
        layers: &SparseConnectedLayers<N>,
    ) -> Seq<usize> {
        Seq::empty()
    }

    open spec fn spec_lanes(&self) -> Seq<i32> {
        self.weights.spec_lanes() + self.bias@
    }

    open spec fn lane_count() -> nat {
        (M * N + N) as nat
    }

    proof fn lemma_lane_count(&self) {
        self.weights.lemma_shape();
        lemma_concat_len(self.weights@, M as int, N as nat);
    }

    proof fn lemma_lanes_determine_out(&self, other: &Self, input: Seq<usize>) {
        self.weights.lemma_shape();
        other.weights.lemma_shape();
        lemma_concat_len(self.weights@, M as int, N as nat);
        lemma_concat_len(other.weights@, M as int, N as nat);
        lemma_split(self.weights.spec_lanes(), self.bias@, other.weights.spec_lanes(), other.bias@);
        lemma_concat_injective(self.weights@, other.weights@, M as int, N as nat);
        assert(self.weights@ =~= other.weights@);
    }

    fn lane_len() -> (r: Option<usize>) {
        match M.checked_mul(N) {
            None => None,
            Some(w) => w.checked_add(N),
        }
    }

    fn write_lanes(&self, out: &mut Vec<i32>) {
        let ghost start = out@;
        self.weights.write_lanes(out);
        self.bias.write_lanes(out);
        assert(out@ =~= start + self.spec_lanes());
    }

    fn read_lanes(&mut self, src: &Vec<i32>, pos: usize) -> (next: usize) {
        let mid = self.weights.read_lanes(src, pos);
        let next = self.bias.read_lanes(src, mid);
        assert(self.spec_lanes() =~= src@.subrange(pos as int, next as int));
        next
    }

    fn zeroed() -> (r: Self) {
        SparseConnected { weights: Matrix::zeroed(), bias: Vector::zeroed(), phantom: PhantomData }
    }

    fn add_assign(&mut self, rhs: &Self) {
        self.weights.add_assign(&rhs.weights);
        self.bias.add_assign(&rhs.bias);
    }

    fn out_with_layers(&self, input: &SparseVector) -> (r: SparseConnectedLayers<N>) {
        let pre = self.accumulate(input);
        let r = SparseConnectedLayers { out: pre.activate::<T>() };
        assert(r.spec_output() == r.out@);
        assert(r.out@ == self.spec_out(input@));
        assert(self.is_cache(input@, &r));
        r
    }

    fn backprop(
        &self,
        input: &SparseVector,
        grad: &mut Self,
        out_err: Vector<N>,
        layers: &SparseConnectedLayers<N>,
    ) -> (r: SparseVector) {
        let err = out_err.mul(&layers.out.derivative::<T>());
        let ghost start = grad.weights@;
        let mut k: usize = 0;
        while k < input.len()
            invariant
                k <= input@.len(),
                in_range(input@, M as nat),
                start == old(grad).weights@,
                grad.bias@ == old(grad).bias@,
                grad.weights@ == scatter_add(start, input@.subrange(0, k as int), err@),
            decreases input@.len() - k,
        {
            let f = input.get(k);
            let mut row = grad.weights.row(f);
            row.add_assign(&err);
            grad.weights.set_row(f, row);
            proof {
                let s = input@.subrange(0, k as int + 1);
                assert(s.drop_last() =~= input@.subrange(0, k as int));
            }
            k += 1;
        }
        assert(input@.subrange(0, input@.len() as int) =~= input@);
        grad.bias.add_assign(&err);
        SparseVector::with_capacity(0)
    }
}

} // verus!
