//! Depthwise one-dimensional convolution.
use vstd::prelude::*;
use std::marker::PhantomData;
use crate::activation::Activation;
use crate::arith::{lane_add, lane_mul, lemma_wrap_add, lemma_wrap_small, wrap};
use crate::dense::local_err;
use crate::network::{lemma_split, FeedForwardNetwork, OutputLayer};
use crate::vector::{lanes_activate, lanes_add, lanes_zero, Vector};

verus! {

broadcast use vstd::array::group_array_axioms;

/// `x[i]*w[0] + ... + x[i+n-1]*w[n-1]`, exactly.
pub open spec fn window_sum(w: Seq<i32>, x: Seq<i32>, i: int, n: int) -> int
    decreases n,
{
    if n <= 0 {
        0
    } else {
        window_sum(w, x, i, n - 1) + x[i + n - 1] * w[n - 1]
    }
}

/// `err[0]*x[j] + ... + err[n-1]*x[n-1+j]`, exactly: the gradient of
/// kernel tap `j`.
pub open spec fn tap_grad(err: Seq<i32>, x: Seq<i32>, j: int, n: int) -> int
    decreases n,
{
    if n <= 0 {
        0
    } else {
        tap_grad(err, x, j, n - 1) + err[n - 1] * x[n - 1 + j]
    }
}

/// The contributions to input position `p` from kernel taps `0..n`: tap
/// `t` reached `p` from output `p - t`, where that output exists.
pub open spec fn back_sum(err: Seq<i32>, w: Seq<i32>, p: int, n: int) -> int
    decreases n,
{
    if n <= 0 {
        0
    } else {
        back_sum(err, w, p, n - 1) + (if 0 <= p - (n - 1) < err.len() {
            err[p - (n - 1)] * w[n - 1]
        } else {
            0
        })
    }
}

/// Kernel width of a convolution from `m` inputs to `n` outputs. With no
/// outputs no tap is ever used; the width is then capped at `m`.
pub open spec fn kernel_width(m: int, n: int) -> int {
    if n == 0 {
        m
    } else {
        m - n + 1
    }
}

/// Convolution from `M` inputs to `N` outputs with one shared kernel of
/// width `M - N + 1` (the first lanes of `weights`), stride 1, no padding.
pub struct Conv1D<T: Activation, const M: usize, const N: usize> {
    pub weights: Vector<M>,
    pub bias: Vector<N>,
    pub phantom: PhantomData<T>,
}

impl<T: Activation, const M: usize, const N: usize> Clone for Conv1D<T, M, N> {
    fn clone(&self) -> (r: Self)
        ensures
            r == *self,
    {
        Conv1D { weights: self.weights, bias: self.bias, phantom: PhantomData }
    }
}

impl<T: Activation, const M: usize, const N: usize> Copy for Conv1D<T, M, N> {

}

/// The forward cache of a convolution: its activated output.
pub struct Conv1DLayers<const N: usize> {
    pub out: Vector<N>,
}

impl<const N: usize> OutputLayer for Conv1DLayers<N> {
    type Type = Vector<N>;

    open spec fn spec_output(&self) -> Seq<i32> {
        self.out@
    }

    fn output_layer(&self) -> (r: Vector<N>) {
        self.out
    }
}

impl<T: Activation, const M: usize, const N: usize> Conv1D<T, M, N> {
    /// All weights and biases zero.
    pub fn zeroed() -> (r: Self)
        ensures
            r.is_zero(),
    {
        <Self as FeedForwardNetwork>::zeroed()
    }

    pub fn from_raw(weights: Vector<M>, bias: Vector<N>) -> (r: Self)
        ensures
            r.weights@ == weights@,
            r.bias@ == bias@,
    {
        Conv1D { weights, bias, phantom: PhantomData }
    }
}

impl<T: Activation, const M: usize, const N: usize> FeedForwardNetwork for Conv1D<T, M, N> {
    type InputType = Vector<M>;

    type OutputType = Vector<N>;

    type Layers = Conv1DLayers<N>;

    /// Defined where the output is no wider than the input.
    open spec fn accepts(input: Seq<i32>) -> bool {
        N <= M
    }

    open spec fn spec_out(&self, input: Seq<i32>) -> Seq<i32> {
        lanes_activate::<T>(
            Seq::new(
                N as nat,
                |i: int|
                    wrap(
                        self.bias@[i] + window_sum(
                            self.weights@,
                            input,
                            i,
                            kernel_width(M as int, N as int),
                        ),
                    ),
            ),
        )
    }

    open spec fn is_zero(&self) -> bool {
        &&& self.weights@ == lanes_zero(M as nat)
        &&& self.bias@ == lanes_zero(N as nat)
    }

    open spec fn is_sum(&self, a: &Self, b: &Self) -> bool {
        &&& self.weights@ == lanes_add(a.weights@, b.weights@)
        &&& self.bias@ == lanes_add(a.bias@, b.bias@)
    }

    open spec fn is_grad_step(
        &self,
        input: Seq<i32>,
        out_err: Seq<i32>,
        layers: &Conv1DLayers<N>,
        before: &Self,
        after: &Self,
    ) -> bool {
        let err = local_err::<T>(out_err, layers.out@);
        let k = kernel_width(M as int, N as int);
        &&& after.weights@ == Seq::new(
            M as nat,
            |j: int|
                if j < k {
                    wrap(before.weights@[j] + tap_grad(err, input, j, N as int))
                } else {
                    before.weights@[j]
                },
        )
        &&& after.bias@ == lanes_add(before.bias@, err)
    }

    open spec fn is_cache(&self, input: Seq<i32>, layers: &Conv1DLayers<N>) -> bool {
        layers.out@ == self.spec_out(input)
    }

    proof fn lemma_cache_output(&self, input: Seq<i32>, layers: &Conv1DLayers<N>) {
        assert(layers.spec_output() == layers.out@);
    }

    proof fn lemma_cache_determines(
        &self,
        input: Seq<i32>,
        out_err: Seq<i32>,
        l1: &Conv1DLayers<N>,
        l2: &Conv1DLayers<N>,
        before: &Self,
        after: &Self,
    ) {
        assert(l1.out@ == l2.out@);
    }

    open spec fn spec_input_grad(
        &self,
        input: Seq<i32>,
        out_err: Seq<i32>,
        layers: &Conv1DLayers<N>,
    ) -> Seq<i32> {
        let err = local_err::<T>(out_err, layers.out@);
        Seq::new(
            M as nat,
            |p: int| wrap(back_sum(err, self.weights@, p, kernel_width(M as int, N as int))),
        )
    }

    open spec fn spec_lanes(&self) -> Seq<i32> {
        self.weights@ + self.bias@
    }

    open spec fn lane_count() -> nat {
        (M + N) as nat
    }

    proof fn lemma_lane_count(&self) {
    }

    proof fn lemma_lanes_determine_out(&self, other: &Self, input: Seq<i32>) {
        lemma_split(self.weights@, self.bias@, other.weights@, other.bias@);
    }

    fn lane_len() -> (r: Option<usize>) {
        M.checked_add(N)
    }

    fn write_lanes(&self, out: &mut Vec<i32>) {
        let ghost start = out@;
        self.weights.write_lanes(out);
        self.bias.write_lanes(out);
        assert(out@ =~= start + self.spec_lanes());
    }

    fn read_lanes(&mut self, src: &Vec<i32>, pos: usize) -> (next: usize) {
        let mid = self.weights.read_lanes(src, pos);
        let next = self.bias.read_lanes(src, mid);
        assert(self.spec_lanes() =~= src@.subrange(pos as int, next as int));
        next
    }

    fn zeroed() -> (r: Self) {
        Conv1D { weights: Vector::zeroed(), bias: Vector::zeroed(), phantom: PhantomData }
    }

    fn add_assign(&mut self, rhs: &Self) {
        self.weights.add_assign(&rhs.weights);
        self.bias.add_assign(&rhs.bias);
    }

    fn out_with_layers(&self, input: &Vector<M>) -> (r: Conv1DLayers<N>) {
        let k = if N == 0 { M } else { M - N + 1 };
        let mut pre = self.bias;
        let mut i: usize = 0;
        while i < N
            invariant
                N <= M,
                k == kernel_width(M as int, N as int),
                i <= N,
                pre@.len() == N,
                forall|q: int|
                    0 <= q < i ==> pre@[q] == wrap(
                        self.bias@[q] + window_sum(self.weights@, input@, q, k as int),
                    ),
                forall|q: int| i <= q < N ==> pre@[q] == self.bias@[q],
            decreases N - i,
        {
            let mut val = self.bias.lanes[i];
            let mut j: usize = 0;
            proof {
                lemma_wrap_small(self.bias@[i as int] as int);
            }
            while j < k
                invariant
                    N <= M,
                    k == kernel_width(M as int, N as int),
                    i < N,
                    j <= k,
                    val == wrap(self.bias@[i as int] + window_sum(self.weights@, input@, i as int, j as int)),
                decreases k - j,
            {
                let p = lane_mul(input.lanes[i + j], self.weights.lanes[j]);
                proof {
                    let d = self.bias@[i as int] + window_sum(self.weights@, input@, i as int, j as int);
                    let t = input@[i + j] * self.weights@[j as int];
                    lemma_wrap_add(d, t);
                    lemma_wrap_add(wrap(d) as int, t);
                }
                val = lane_add(val, p);
                j += 1;
            }
            pre.lanes[i] = val;
            i += 1;
        }
        let r = Conv1DLayers { out: pre.activate::<T>() };
        assert(pre@ =~= Seq::new(
            N as nat,
            |q: int| wrap(self.bias@[q] + window_sum(self.weights@, input@, q, k as int)),
        ));
        assert(r.spec_output() == r.out@);
        assert(r.out@ == self.spec_out(input@));
        assert(self.is_cache(input@, &r));
        r
    }

    fn backprop(
        &self,
        input: &Vector<M>,
        grad: &mut Self,
        out_err: Vector<N>,
        layers: &Conv1DLayers<N>,
    ) -> (r: Vector<M>) {
        let k = if N == 0 { M } else { M - N + 1 };
        let err = out_err.mul(&layers.out.derivative::<T>());
        grad.bias.add_assign(&err);
        let ghost start = grad.weights@;
        let mut j: usize = 0;
        while j < k
            invariant
                N <= M,
                k == kernel_width(M as int, N as int),
                j <= k,
                start == old(grad).weights@,
                start.len() == M,
                grad.weights@.len() == M,
                grad.bias@ == lanes_add(old(grad).bias@, err@),
                forall|q: int|
                    0 <= q < j ==> grad.weights@[q] == wrap(start[q] + tap_grad(err@, input@, q, N as int)),
                forall|q: int| j <= q < M ==> grad.weights@[q] == start[q],
            decreases k - j,
        {
            let mut val = grad.weights.lanes[j];
            let mut i: usize = 0;
            proof {
                lemma_wrap_small(start[j as int] as int);
            }
            while i < N
                invariant
                    N <= M,
                    k == kernel_width(M as int, N as int),
                    j < k,
                    i <= N,
                    val == wrap(start[j as int] + tap_grad(err@, input@, j as int, i as int)),
                decreases N - i,
            {
                let p = lane_mul(err.lanes[i], input.lanes[i + j]);
                proof {
                    let d = start[j as int] + tap_grad(err@, input@, j as int, i as int);
                    let t = err@[i as int] * input@[i + j];
                    lemma_wrap_add(d, t);
                    lemma_wrap_add(wrap(d) as int, t);
                }
                val = lane_add(val, p);
                i += 1;
            }
            grad.weights.lanes[j] = val;
            j += 1;
        }
        let mut back = Vector::<M>::zeroed();
        let mut p: usize = 0;
        while p < M
            invariant
                N <= M,
                k == kernel_width(M as int, N as int),
                p <= M,
                back@.len() == M,
                err@.len() == N,
                forall|q: int| 0 <= q < p ==> back@[q] == wrap(back_sum(err@, self.weights@, q, k as int)),
            decreases M - p,
        {
            let mut val: i32 = 0;
            let mut t: usize = 0;
            proof {
                lemma_wrap_small(0);
            }
            while t < k
                invariant
                    N <= M,
                    k == kernel_width(M as int, N as int),
                    p < M,
                    t <= k,
                    err@.len() == N,
                    val == wrap(back_sum(err@, self.weights@, p as int, t as int)),
                decreases k - t,
            {
                if t <= p && p - t < N {
                    let c = lane_mul(err.lanes[p - t], self.weights.lanes[t]);
                    proof {
                        let d = back_sum(err@, self.weights@, p as int, t as int);
                        let e = err@[p - t] * self.weights@[t as int];
                        lemma_wrap_add(d, e);
                        lemma_wrap_add(wrap(d) as int, e);
                    }
                    val = lane_add(val, c);
                }
                t += 1;
            }
            back.lanes[p] = val;
            p += 1;
        }
        let ghost k_int = kernel_width(M as int, N as int);
        assert(grad.weights@ =~= Seq::new(
            M as nat,
            |q: int|
                if q < k_int {
                    wrap(start[q] + tap_grad(err@, input@, q, N as int))
                } else {
                    start[q]
                },
        ));
        assert(back@ =~= Seq::new(
            M as nat,
            |q: int| wrap(back_sum(err@, self.weights@, q, k_int)),
        ));
        back
    }
}

} // verus!
