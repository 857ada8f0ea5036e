//! Fully connected layer.
use vstd::prelude::*;
use std::marker::PhantomData;
use crate::activation::Activation;
use crate::matrix::{lemma_concat_injective, lemma_concat_len, rows_add, rows_mul, rows_transpose_mul, Matrix};
use crate::network::{lemma_split, FeedForwardNetwork, OutputLayer};
use crate::vector::{
    lanes_activate, lanes_add, lanes_derivative, lanes_madd, lanes_mul, lanes_zero, Vector,
};

verus! {

/// Fully connected layer from `M` inputs to `N` outputs with activation `T`.
///
/// The weights hold one row per output: output `j` is
/// `T(bias[j] + weights[j] . input)`.
pub struct DenseConnected<T: Activation, const M: usize, const N: usize> {
    pub weights: Matrix<N, M>,
    pub bias: Vector<N>,
    pub phantom: PhantomData<T>,
}

impl<T: Activation, const M: usize, const N: usize> Clone for DenseConnected<T, M, N> {
    fn clone(&self) -> (r: Self)
        ensures
            r == *self,
    {
        DenseConnected { weights: self.weights, bias: self.bias, phantom: PhantomData }
    }
}

impl<T: Activation, const M: usize, const N: usize> Copy for DenseConnected<T, M, N> {

}

/// The forward cache of a dense layer: its activated output.
pub struct DenseConnectedLayers<const N: usize> {
    pub out: Vector<N>,
}

impl<const N: usize> OutputLayer for DenseConnectedLayers<N> {
    type Type = Vector<N>;

    open spec fn spec_output(&self) -> Seq<i32> {
        self.out@
    }

    fn output_layer(&self) -> (r: Vector<N>) {
        self.out
    }
}

/// The output error scaled by the activation's derivative at the cached output.
pub open spec fn local_err<T: Activation>(out_err: Seq<i32>, out: Seq<i32>) -> Seq<i32> {
    lanes_mul(out_err, lanes_derivative::<T>(out))
}

/// The dense output: `T(weights . input + bias)`.
pub open spec fn dense_out<T: Activation>(w: Seq<Seq<i32>>, b: Seq<i32>, x: Seq<i32>) -> Seq<i32> {
    lanes_activate::<T>(lanes_add(rows_mul(w, x), b))
}

/// Row `j` of the weight gradient is `err[j] * input`.
pub open spec fn outer_step(w: Seq<Seq<i32>>, err: Seq<i32>, x: Seq<i32>) -> Seq<Seq<i32>> {
    Seq::new(w.len(), |j: int| lanes_madd(w[j], x, err[j]))
}

impl<T: Activation, const M: usize, const N: usize> DenseConnected<T, M, N> {
    /// All weights and biases zero.
    pub fn zeroed() -> (r: Self)
        ensures
            r.is_zero(),
    {
        <Self as FeedForwardNetwork>::zeroed()
    }

    pub fn from_raw(weights: Matrix<N, M>, bias: Vector<N>) -> (r: Self)
        ensures
            r.weights@ == weights@,
            r.bias@ == bias@,
    {
        DenseConnected { weights, bias, phantom: PhantomData }
    }

    /// The weights that feed output `idx`: row `idx` of the
    /// output-major weight matrix, one lane per input.
    pub fn weights_col(&self, idx: usize) -> (r: Vector<M>)
        requires
            idx < N,
        ensures
            r@ == self.weights@[idx as int],
    {
        self.weights.row(idx)
    }

    pub fn weights_col_mut(&mut self, idx: usize) -> (r: &mut Vector<M>)
        requires
            idx < N,
        ensures
            r@ == old(self).weights@[idx as int],
            final(self).weights@ == old(self).weights@.update(idx as int, final(r)@),
            final(self).bias == old(self).bias,
    {
        &mut self.weights.rows[idx]
    }

    /// Builds the layer from functions: `w(i, j)` is the weight from input
    /// `i` to output `j`, and `b(j)` is the bias of output `j`.
    pub fn from_fn<W: Fn(usize, usize) -> i32, B: Fn(usize) -> i32>(w: W, b: B) -> (r: Self)
        requires
            forall|i: usize, j: usize| i < M && j < N ==> w.requires((i, j)),
            forall|j: usize| j < N ==> b.requires((j,)),
        ensures
            forall|i: usize, j: usize|
                i < M && j < N ==> w.ensures((i, j), #[trigger] r.weights@[j as int][i as int]),
            forall|j: usize| j < N ==> b.ensures((j,), #[trigger] r.bias@[j as int]),
    {
        let mut weights = Matrix::<N, M>::zeroed();
        let mut j: usize = 0;
        while j < N
            invariant
                j <= N,
                weights@.len() == N,
                forall|i: usize, j: usize| i < M && j < N ==> w.requires((i, j)),
                forall|i: usize, k: usize|
                    i < M && k < j ==> w.ensures((i, k), #[trigger] weights@[k as int][i as int]),
            decreases N - j,
        {
            let mut row = Vector::<M>::zeroed();
            let mut i: usize = 0;
            while i < M
                invariant
                    i <= M,
                    j < N,
                    row@.len() == M,
                    forall|i: usize, j: usize| i < M && j < N ==> w.requires((i, j)),
                    forall|k: usize| k < i ==> w.ensures((k, j), #[trigger] row@[k as int]),
                decreases M - i,
            {
                let v = w(i, j);
                row.lanes[i] = v;
                i += 1;
            }
            weights.set_row(j, row);
            j += 1;
        }
        DenseConnected { weights, bias: Vector::from_fn(b), phantom: PhantomData }
    }

    pub fn bias(&self) -> (r: Vector<N>)
        ensures
            r@ == self.bias@,
    {
        self.bias
    }

    pub fn bias_mut(&mut self) -> (r: &mut Vector<N>)
        ensures
            *r == old(self).bias,
            final(self).bias == *final(r),
            final(self).weights == old(self).weights,
    {
        &mut self.bias
    }
}

impl<T: Activation, const M: usize, const N: usize> FeedForwardNetwork for DenseConnected<T, M, N> {
    type InputType = Vector<M>;

    type OutputType = Vector<N>;

    type Layers = DenseConnectedLayers<N>;

    open spec fn accepts(input: Seq<i32>) -> bool {
        true
    }

    open spec fn spec_out(&self, input: Seq<i32>) -> Seq<i32> {
        dense_out::<T>(self.weights@, self.bias@, input)
    }

    open spec fn is_zero(&self) -> bool {
        &&& self.weights@ == Seq::new(N as nat, |j: int| lanes_zero(M as nat))
        &&& self.bias@ == lanes_zero(N as nat)
    }

    open spec fn is_sum(&self, a: &Self, b: &Self) -> bool {
        &&& self.weights@ == rows_add(a.weights@, b.weights@)
        &&& self.bias@ == lanes_add(a.bias@, b.bias@)
    }

    open spec fn is_grad_step(
        &self,
        input: Seq<i32>,
        out_err: Seq<i32>,
        layers: &DenseConnectedLayers<N>,
        before: &Self,
        after: &Self,
    ) -> bool {
        let err = local_err::<T>(out_err, layers.out@);
        &&& after.weights@ == outer_step(before.weights@, err, input)
        &&& after.bias@ == lanes_add(before.bias@, err)
    }

    open spec fn is_cache(&self, input: Seq<i32>, layers: &DenseConnectedLayers<N>) -> bool {
        layers.out@ == self.spec_out(input)
    }

    proof fn lemma_cache_output(&self, input: Seq<i32>, layers: &DenseConnectedLayers<N>) {
        assert(layers.spec_output() == layers.out@);
    }

    proof fn lemma_cache_determines(
        &self,
        input: Seq<i32>,
        out_err: Seq<i32>,
        l1: &DenseConnectedLayers<N>,
        l2: &DenseConnectedLayers<N>,
        before: &Self,
        after: &Self,
    ) {
        assert(l1.out@ == l2.out@);
        assert(self.spec_input_grad(input, out_err, l1) == rows_transpose_mul(self.weights@, local_err::<T>(out_err, l1.out@), M as nat));
        assert(self.spec_input_grad(input, out_err, l2) == rows_transpose_mul(self.weights@, local_err::<T>(out_err, l2.out@), M as nat));
    }

    open spec fn spec_input_grad(
        &self,
        input: Seq<i32>,
        out_err: Seq<i32>,
        layers: &DenseConnectedLayers<N>,
    ) -> Seq<i32> {
        rows_transpose_mul(self.weights@, local_err::<T>(out_err, layers.out@), M as nat)
    }

    open spec fn spec_lanes(&self) -> Seq<i32> {
        self.weights.spec_lanes() + self.bias@
    }

    open spec fn lane_count() -> nat {
        (N * M + N) as nat
    }

    proof fn lemma_lane_count(&self) {
        self.weights.lemma_shape();
        lemma_concat_len(self.weights@, N as int, M as nat);
    }

    proof fn lemma_lanes_determine_out(&self, other: &Self, input: Seq<i32>) {
        self.weights.lemma_shape();
        other.weights.lemma_shape();
        lemma_concat_len(self.weights@, N as int, M as nat);
        lemma_concat_len(other.weights@, N as int, M as nat);
        lemma_split(self.weights.spec_lanes(), self.bias@, other.weights.spec_lanes(), other.bias@);
        lemma_concat_injective(self.weights@, other.weights@, N as int, M as nat);
        assert(self.weights@ =~= other.weights@);
    }

    fn lane_len() -> (r: Option<usize>) {
        match N.checked_mul(M) {
            None => None,
            Some(w) => w.checked_add(N),
        }
    }

    fn write_lanes(&self, out: &mut Vec<i32>) {
        let ghost start = out@;
        self.weights.write_lanes(out);
        self.bias.write_lanes(out);
        assert(out@ =~= start + self.spec_lanes());
    }

    fn read_lanes(&mut self, src: &Vec<i32>, pos: usize) -> (next: usize) {
        let mid = self.weights.read_lanes(src, pos);
        let next = self.bias.read_lanes(src, mid);
        assert(self.spec_lanes() =~= src@.subrange(pos as int, next as int));
        next
    }

    fn zeroed() -> (r: Self) {
        DenseConnected { weights: Matrix::zeroed(), bias: Vector::zeroed(), phantom: PhantomData }
    }

    fn add_assign(&mut self, rhs: &Self) {
        self.weights.add_assign(&rhs.weights);
        self.bias.add_assign(&rhs.bias);
    }

    fn out_with_layers(&self, input: &Vector<M>) -> (r: DenseConnectedLayers<N>) {
        let pre = self.weights.mul(input).add(&self.bias);
        let r = DenseConnectedLayers { out: pre.activate::<T>() };
        assert(r.out@ == dense_out::<T>(self.weights@, self.bias@, input@));
        assert(r.spec_output() == r.out@);
        assert(r.out@ == self.spec_out(input@));
        assert(self.is_cache(input@, &r));
        r
    }

    fn backprop(
        &self,
        input: &Vector<M>,
        grad: &mut Self,
        out_err: Vector<N>,
        layers: &DenseConnectedLayers<N>,
    ) -> (r: Vector<M>) {
        let err = out_err.mul(&layers.out.derivative::<T>());
        let ghost start = grad.weights@;
        let mut j: usize = 0;
        while j < N
            invariant
                j <= N,
                start.len() == N,
                grad.weights@.len() == N,
                err@.len() == N,
                grad.bias@ == old(grad).bias@,
                start == old(grad).weights@,
                forall|k: int| 0 <= k < j ==> grad.weights@[k] == lanes_madd(start[k], input@, err@[k]),
                forall|k: int| j <= k < N ==> grad.weights@[k] == start[k],
            decreases N - j,
        {
            let mut row = grad.weights.row(j);
            row.madd(input, err.get(j));
            let ghost prev = grad.weights@;
            grad.weights.set_row(j, row);
            j += 1;
        }
        assert(grad.weights@ =~= outer_step(start, err@, input@));
        grad.bias.add_assign(&err);
        self.weights.transpose_mul(&err)
    }
}

} // verus!
