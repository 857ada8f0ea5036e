//! Gradient checks: raising one parameter by one lane unit changes the
//! output by exactly the gradient entry that `backprop` accumulates for
//! it, wherever the activation has no kink between the pre-activations
//! before and after the change.
use vstd::prelude::*;
use crate::activation::{Activation, Identity, ReLU};
use crate::arith::{lemma_wrap_add, lemma_wrap_idem, lemma_wrap_mul, lemma_wrap_small, lemma_wrap_sub, wrap};
use crate::conv1d::{kernel_width, tap_grad, window_sum, Conv1D, Conv1DLayers};
use crate::dense::{local_err, DenseConnected, DenseConnectedLayers};
use crate::laws::count_of;
use crate::matrix::{dot, rows_mul};
use crate::network::FeedForwardNetwork;
use crate::sparse::{feature_sum, in_range, scatter_add, sparse_pre, SparseConnected, SparseConnectedLayers};
use crate::vector::{lanes_add, lanes_sub};

verus! {

/// Lane `j` singled out: `x` there, 0 elsewhere.
pub open spec fn single_lane(n: nat, j: int, x: i32) -> Seq<i32> {
    Seq::new(n, |k: int| if k == j { x } else { 0i32 })
}

/// Between the pre-activations `z` and `z2` the activation is a straight
/// line whose slope is the derivative that `backprop` uses at `z`.
pub open spec fn no_kink<T: Activation>(z: i32, z2: i32) -> bool {
    T::spec_activate(z2) - T::spec_activate(z) == T::spec_derivative(T::spec_activate(z)) * (z2 - z)
}

/// The identity has no kink; the rectifier has none between two positive
/// pre-activations, nor between a negative one and one that is not positive.
pub proof fn lemma_no_kink(z: i32, z2: i32)
    ensures
        no_kink::<Identity>(z, z2),
        (z > 0 && z2 > 0) || (z < 0 && z2 <= 0) ==> no_kink::<ReLU>(z, z2),
{
    assert(1 * (z2 - z) == z2 - z);
    assert(0 * (z2 - z) == 0);
}

/// The dense pre-activation: `weights . input + bias`.
pub open spec fn dense_pre(w: Seq<Seq<i32>>, b: Seq<i32>, x: Seq<i32>) -> Seq<i32> {
    lanes_add(rows_mul(w, x), b)
}

/// The convolution's pre-activation.
pub open spec fn conv_pre(w: Seq<i32>, b: Seq<i32>, x: Seq<i32>, k: int) -> Seq<i32> {
    Seq::new(b.len(), |i: int| wrap(b[i] + window_sum(w, x, i, k)))
}

/// An activated lane moves by `delta` times the derivative at `z` when
/// its pre-activation moves from `z` to `z + delta`, wrapped.
proof fn lemma_lane_check<T: Activation>(z: i32, z2: i32, delta: int)
    requires
        z2 == wrap(z + delta),
        no_kink::<T>(z, z2),
    ensures
        wrap(T::spec_activate(z2) - T::spec_activate(z)) == wrap(
            delta * T::spec_derivative(T::spec_activate(z)),
        ),
{
    let d = T::spec_derivative(T::spec_activate(z)) as int;
    lemma_wrap_sub(z + delta, z as int);
    assert(z + delta - z == delta);
    lemma_wrap_mul(d, z2 - z);
    lemma_wrap_mul(d, delta);
    assert(wrap(z2 - z) == wrap(delta));
    assert(d * delta == delta * d) by (nonlinear_arith);
}

/// A lane error of 1 scaled by the derivative, wrapped, then multiplied by
/// `c`: the same as `c` times the derivative.
proof fn lemma_scaled_unit(c: int, d: i32)
    ensures
        wrap(c * wrap(1 * d)) == wrap(c * d),
        wrap(0 + wrap(1 * d)) == wrap(1 * d),
        wrap(1 * d) == d,
{
    lemma_wrap_small(d as int);
    lemma_wrap_idem(d as int);
}

/// Raising weight `w[f]` by one raises the product with `x` by `x[f]`.
proof fn lemma_dot_bump_weight(w: Seq<i32>, v: Seq<i32>, x: Seq<i32>, f: int, n: int)
    requires
        forall|i: int| 0 <= i < n && i != f ==> w[i] == v[i],
        0 <= f < n ==> v[f] == w[f] + 1,
    ensures
        dot(v, x, n) == dot(w, x, n) + (if 0 <= f < n { x[f] as int } else { 0int }),
    decreases n,
{
    if n > 0 {
        lemma_dot_bump_weight(w, v, x, f, n - 1);
        if f == n - 1 {
            assert(v[f] * x[f] == w[f] * x[f] + x[f]) by (nonlinear_arith)
                requires
                    v[f] == w[f] + 1,
            ;
        }
    }
}

/// Gradient check of a dense layer, weight from input `i` to output `j`:
/// raising it by one changes output `j`, and no other, by the entry that
/// `backprop` adds to its gradient for the output error 1 at `j`, after a
/// forward pass, wherever the activation has no kink in between.
pub proof fn lemma_dense_gradient_check<T: Activation, const M: usize, const N: usize>(
    layer: &DenseConnected<T, M, N>,
    bumped: &DenseConnected<T, M, N>,
    grad: &DenseConnected<T, M, N>,
    after: &DenseConnected<T, M, N>,
    layers: &DenseConnectedLayers<N>,
    x: Seq<i32>,
    j: int,
    i: int,
)
    requires
        x.len() == M,
        0 <= j < N,
        0 <= i < M,
        layer.weights@[j][i] < i32::MAX,
        bumped.bias@ == layer.bias@,
        bumped.weights@ == layer.weights@.update(
            j,
            layer.weights@[j].update(i, (layer.weights@[j][i] + 1) as i32),
        ),
        no_kink::<T>(
            dense_pre(layer.weights@, layer.bias@, x)[j],
            dense_pre(bumped.weights@, bumped.bias@, x)[j],
        ),
        layer.is_cache(x, layers),
        grad.is_zero(),
        layer.is_grad_step(x, single_lane(N as nat, j, 1), layers, grad, after),
    ensures
        lanes_sub(bumped.spec_out(x), layer.spec_out(x)) == single_lane(
            N as nat,
            j,
            after.weights@[j][i],
        ),
{
    layer.weights.lemma_shape();
    bumped.weights.lemma_shape();
    let pre = dense_pre(layer.weights@, layer.bias@, x);
    let pre2 = dense_pre(bumped.weights@, bumped.bias@, x);
    let d = T::spec_derivative(T::spec_activate(pre[j]));
    assert(layers.out@[j] == T::spec_activate(pre[j]));
    lemma_scaled_unit(x[i] as int, d);
    assert(after.weights@[j][i] == wrap(x[i] * d));
    let diff = lanes_sub(bumped.spec_out(x), layer.spec_out(x));
    assert forall|k: int| 0 <= k < N implies diff[k] == single_lane(N as nat, j, after.weights@[j][i])[k] by {
        let b = layer.bias@[k] as int;
        let s = dot(layer.weights@[k], x, M as int);
        let t = dot(bumped.weights@[k], x, M as int);
        lemma_wrap_add(s, b);
        lemma_wrap_add(t, b);
        if k == j {
            lemma_dot_bump_weight(layer.weights@[k], bumped.weights@[k], x, i, M as int);
            lemma_wrap_add(s + b, x[i] as int);
            assert(pre2[k] == wrap(pre[k] + x[i]));
            lemma_lane_check::<T>(pre[k], pre2[k], x[i] as int);
        } else {
            assert(pre2[k] == pre[k]);
            lemma_wrap_small(0);
        }
    }
    assert(diff =~= single_lane(N as nat, j, after.weights@[j][i]));
}

/// Gradient check of a dense layer, bias of output `j`: raising it by one
/// changes output `j`, and no other, by the entry that `backprop` adds to
/// its gradient for the output error 1 at `j`, after a forward pass,
/// wherever the activation has no kink in between.
pub proof fn lemma_dense_bias_gradient_check<T: Activation, const M: usize, const N: usize>(
    layer: &DenseConnected<T, M, N>,
    bumped: &DenseConnected<T, M, N>,
    grad: &DenseConnected<T, M, N>,
    after: &DenseConnected<T, M, N>,
    layers: &DenseConnectedLayers<N>,
    x: Seq<i32>,
    j: int,
)
    requires
        x.len() == M,
        0 <= j < N,
        layer.bias@[j] < i32::MAX,
        bumped.weights@ == layer.weights@,
        bumped.bias@ == layer.bias@.update(j, (layer.bias@[j] + 1) as i32),
        no_kink::<T>(
            dense_pre(layer.weights@, layer.bias@, x)[j],
            dense_pre(bumped.weights@, bumped.bias@, x)[j],
        ),
        layer.is_cache(x, layers),
        grad.is_zero(),
        layer.is_grad_step(x, single_lane(N as nat, j, 1), layers, grad, after),
    ensures
        lanes_sub(bumped.spec_out(x), layer.spec_out(x)) == single_lane(N as nat, j, after.bias@[j]),
{
    let pre = dense_pre(layer.weights@, layer.bias@, x);
    let pre2 = dense_pre(bumped.weights@, bumped.bias@, x);
    let d = T::spec_derivative(T::spec_activate(pre[j]));
    assert(layers.out@[j] == T::spec_activate(pre[j]));
    lemma_scaled_unit(1, d);
    assert(after.bias@[j] == wrap(1 * d));
    let diff = lanes_sub(bumped.spec_out(x), layer.spec_out(x));
    assert forall|k: int| 0 <= k < N implies diff[k] == single_lane(N as nat, j, after.bias@[j])[k] by {
        let s = wrap(dot(layer.weights@[k], x, M as int)) as int;
        if k == j {
            lemma_wrap_add(s + layer.bias@[k], 1);
            assert(pre2[k] == wrap(pre[k] + 1));
            lemma_lane_check::<T>(pre[k], pre2[k], 1);
        } else {
            assert(pre2[k] == pre[k]);
            lemma_wrap_small(0);
        }
    }
    assert(diff =~= single_lane(N as nat, j, after.bias@[j]));
}

proof fn lemma_feature_sum_bump(w: Seq<Seq<i32>>, v: Seq<Seq<i32>>, idx: Seq<usize>, f: int, j: int, k: int)
    requires
        in_range(idx, w.len()),
        forall|g: int| 0 <= g < w.len() && g != f ==> v[g][k] == w[g][k],
        0 <= f < w.len(),
        v[f][k] == w[f][k] + (if k == j { 1int } else { 0int }),
    ensures
        feature_sum(v, idx, k) == feature_sum(w, idx, k) + (if k == j { count_of(idx, f) } else { 0int }),
    decreases idx.len(),
{
    if idx.len() > 0 {
        lemma_feature_sum_bump(w, v, idx.drop_last(), f, j, k);
    }
}

proof fn lemma_scatter_count<const N: usize>(
    w: Seq<Seq<i32>>,
    idx: Seq<usize>,
    err: Seq<i32>,
    f: int,
    j: int,
)
    requires
        in_range(idx, w.len()),
        0 <= f < w.len(),
        0 <= j < N,
        err.len() == N,
        forall|g: int| 0 <= g < w.len() ==> #[trigger] w[g].len() == N,
    ensures
        scatter_add(w, idx, err).len() == w.len(),
        forall|g: int| 0 <= g < w.len() ==> #[trigger] scatter_add(w, idx, err)[g].len() == N,
        scatter_add(w, idx, err)[f][j] == wrap(w[f][j] + count_of(idx, f) * err[j]),
    decreases idx.len(),
{
    if idx.len() == 0 {
        lemma_wrap_small(w[f][j] as int);
        assert(count_of(idx, f) * err[j] == 0);
    } else {
        let prev = idx.drop_last();
        lemma_scatter_count::<N>(w, prev, err, f, j);
        let c = count_of(prev, f);
        if idx.last() == f {
            lemma_wrap_add(w[f][j] + c * err[j], err[j] as int);
            assert((c + 1) * err[j] == c * err[j] + err[j]) by (nonlinear_arith);
        }
    }
}

/// Gradient check of a sparse layer, lane `j` of the row of feature `f`:
/// raising it by one changes output `j`, and no other, by the entry that
/// `backprop` adds to its gradient for the output error 1 at `j`, after a
/// forward pass, wherever the activation has no kink in between.
pub proof fn lemma_sparse_gradient_check<T: Activation, const M: usize, const N: usize>(
    layer: &SparseConnected<T, M, N>,
    bumped: &SparseConnected<T, M, N>,
    grad: &SparseConnected<T, M, N>,
    after: &SparseConnected<T, M, N>,
    layers: &SparseConnectedLayers<N>,
    input: Seq<usize>,
    f: int,
    j: int,
)
    requires
        in_range(input, M as nat),
        0 <= f < M,
        0 <= j < N,
        layer.weights@[f][j] < i32::MAX,
        bumped.bias@ == layer.bias@,
        bumped.weights@ == layer.weights@.update(
            f,
            layer.weights@[f].update(j, (layer.weights@[f][j] + 1) as i32),
        ),
        no_kink::<T>(
            sparse_pre(layer.weights@, layer.bias@, input)[j],
            sparse_pre(bumped.weights@, bumped.bias@, input)[j],
        ),
        layer.is_cache(input, layers),
        grad.is_zero(),
        layer.is_grad_step(input, single_lane(N as nat, j, 1), layers, grad, after),
    ensures
        lanes_sub(bumped.spec_out(input), layer.spec_out(input)) == single_lane(
            N as nat,
            j,
            after.weights@[f][j],
        ),
{
    layer.weights.lemma_shape();
    grad.weights.lemma_shape();
    let pre = sparse_pre(layer.weights@, layer.bias@, input);
    let pre2 = sparse_pre(bumped.weights@, bumped.bias@, input);
    let c = count_of(input, f);
    let d = T::spec_derivative(T::spec_activate(pre[j]));
    assert(layers.out@[j] == T::spec_activate(pre[j]));
    let err = local_err::<T>(single_lane(N as nat, j, 1), layers.out@);
    lemma_scatter_count::<N>(grad.weights@, input, err, f, j);
    lemma_scaled_unit(c, d);
    lemma_wrap_small(0);
    assert(after.weights@[f][j] == wrap(c * d));
    let diff = lanes_sub(bumped.spec_out(input), layer.spec_out(input));
    assert forall|k: int| 0 <= k < N implies diff[k] == single_lane(N as nat, j, after.weights@[f][j])[k] by {
        let b = layer.bias@[k] as int;
        assert forall|g: int| 0 <= g < M && g != f implies bumped.weights@[g][k] == layer.weights@[g][k] by {
        }
        assert(bumped.weights@[f][k] == layer.weights@[f][k] + (if k == j { 1int } else { 0int }));
        lemma_feature_sum_bump(layer.weights@, bumped.weights@, input, f, j, k);
        let s = feature_sum(layer.weights@, input, k);
        if k == j {
            lemma_wrap_add(b + s, c);
            assert(pre2[k] == wrap(pre[k] + c));
            lemma_lane_check::<T>(pre[k], pre2[k], c);
        } else {
            assert(pre2[k] == pre[k]);
        }
    }
    assert(diff =~= single_lane(N as nat, j, after.weights@[f][j]));
}

/// Gradient check of a sparse layer, bias of output `j`: raising it by
/// one changes output `j`, and no other, by the entry that `backprop`
/// adds to its gradient for the output error 1 at `j`, after a forward
/// pass, wherever the activation has no kink in between.
pub proof fn lemma_sparse_bias_gradient_check<T: Activation, const M: usize, const N: usize>(
    layer: &SparseConnected<T, M, N>,
    bumped: &SparseConnected<T, M, N>,
    grad: &SparseConnected<T, M, N>,
    after: &SparseConnected<T, M, N>,
    layers: &SparseConnectedLayers<N>,
    input: Seq<usize>,
    j: int,
)
    requires
        in_range(input, M as nat),
        0 <= j < N,
        layer.bias@[j] < i32::MAX,
        bumped.weights@ == layer.weights@,
        bumped.bias@ == layer.bias@.update(j, (layer.bias@[j] + 1) as i32),
        no_kink::<T>(
            sparse_pre(layer.weights@, layer.bias@, input)[j],
            sparse_pre(bumped.weights@, bumped.bias@, input)[j],
        ),
        layer.is_cache(input, layers),
        grad.is_zero(),
        layer.is_grad_step(input, single_lane(N as nat, j, 1), layers, grad, after),
    ensures
        lanes_sub(bumped.spec_out(input), layer.spec_out(input)) == single_lane(
            N as nat,
            j,
            after.bias@[j],
        ),
{
    let pre = sparse_pre(layer.weights@, layer.bias@, input);
    let pre2 = sparse_pre(bumped.weights@, bumped.bias@, input);
    let d = T::spec_derivative(T::spec_activate(pre[j]));
    assert(layers.out@[j] == T::spec_activate(pre[j]));
    lemma_scaled_unit(1, d);
    assert(after.bias@[j] == wrap(1 * d));
    let diff = lanes_sub(bumped.spec_out(input), layer.spec_out(input));
    assert forall|k: int| 0 <= k < N implies diff[k] == single_lane(N as nat, j, after.bias@[j])[k] by {
        let s = feature_sum(layer.weights@, input, k);
        if k == j {
            lemma_wrap_add(layer.bias@[k] + s, 1);
            assert(layer.bias@[k] + 1 + s == layer.bias@[k] + s + 1);
            assert(pre2[k] == wrap(pre[k] + 1));
            lemma_lane_check::<T>(pre[k], pre2[k], 1);
        } else {
            assert(pre2[k] == pre[k]);
            lemma_wrap_small(0);
        }
    }
    assert(diff =~= single_lane(N as nat, j, after.bias@[j]));
}

/// Raising tap `t` by one raises the window sum at `i` by `x[i + t]`.
proof fn lemma_window_bump(w: Seq<i32>, v: Seq<i32>, x: Seq<i32>, i: int, t: int, n: int)
    requires
        forall|l: int| 0 <= l < n && l != t ==> v[l] == w[l],
        0 <= t < n ==> v[t] == w[t] + 1,
    ensures
        window_sum(v, x, i, n) == window_sum(w, x, i, n) + (if 0 <= t < n { x[i + t] as int } else { 0int }),
    decreases n,
{
    if n > 0 {
        lemma_window_bump(w, v, x, i, t, n - 1);
        if t == n - 1 {
            assert(x[i + t] * v[t] == x[i + t] * w[t] + x[i + t]) by (nonlinear_arith)
                requires
                    v[t] == w[t] + 1,
            ;
        }
    }
}

/// With an error only at output `i0`, the gradient of tap `t` is that
/// error times `x[i0 + t]`.
proof fn lemma_tap_grad_one(err: Seq<i32>, x: Seq<i32>, t: int, i0: int, n: int)
    requires
        0 <= i0,
        n <= err.len(),
        forall|k: int| 0 <= k < err.len() && k != i0 ==> err[k] == 0,
    ensures
        tap_grad(err, x, t, n) == (if i0 < n { err[i0] * x[i0 + t] } else { 0int }),
    decreases n,
{
    if n > 0 {
        lemma_tap_grad_one(err, x, t, i0, n - 1);
        if n - 1 != i0 {
            assert(err[n - 1] == 0);
        }
    }
}

/// Gradient check of a convolution, kernel tap `t`: raising it by one
/// changes output `i` by the entry that `backprop` adds to the tap's
/// gradient for the output error 1 at `i`, after a forward pass, wherever
/// the activation has no kink in between.
pub proof fn lemma_conv1d_gradient_check<T: Activation, const M: usize, const N: usize>(
    layer: &Conv1D<T, M, N>,
    bumped: &Conv1D<T, M, N>,
    grad: &Conv1D<T, M, N>,
    after: &Conv1D<T, M, N>,
    layers: &Conv1DLayers<N>,
    x: Seq<i32>,
    t: int,
    i: int,
)
    requires
        N <= M,
        x.len() == M,
        0 <= t < kernel_width(M as int, N as int),
        0 <= i < N,
        layer.weights@[t] < i32::MAX,
        bumped.bias@ == layer.bias@,
        bumped.weights@ == layer.weights@.update(t, (layer.weights@[t] + 1) as i32),
        no_kink::<T>(
            conv_pre(layer.weights@, layer.bias@, x, kernel_width(M as int, N as int))[i],
            conv_pre(bumped.weights@, bumped.bias@, x, kernel_width(M as int, N as int))[i],
        ),
        layer.is_cache(x, layers),
        grad.is_zero(),
        layer.is_grad_step(x, single_lane(N as nat, i, 1), layers, grad, after),
    ensures
        lanes_sub(bumped.spec_out(x), layer.spec_out(x))[i] == after.weights@[t],
{
    let k_w = kernel_width(M as int, N as int);
    let pre = conv_pre(layer.weights@, layer.bias@, x, k_w);
    let pre2 = conv_pre(bumped.weights@, bumped.bias@, x, k_w);
    let d = T::spec_derivative(T::spec_activate(pre[i]));
    assert(layers.out@[i] == T::spec_activate(pre[i]));
    let err = local_err::<T>(single_lane(N as nat, i, 1), layers.out@);
    assert forall|k: int| 0 <= k < err.len() && k != i implies err[k] == 0 by {
        lemma_wrap_small(0);
        assert(0 * T::spec_derivative(layers.out@[k]) == 0);
    }
    lemma_tap_grad_one(err, x, t, i, N as int);
    lemma_scaled_unit(x[i + t] as int, d);
    lemma_wrap_small(0);
    assert(err[i] == wrap(1 * d));
    assert(wrap(err[i] * x[i + t]) == wrap(x[i + t] * err[i])) by {
        assert(err[i] * x[i + t] == x[i + t] * err[i]) by (nonlinear_arith);
    }
    assert(after.weights@[t] == wrap(0 + tap_grad(err, x, t, N as int)));
    assert(after.weights@[t] == wrap(x[i + t] * d));
    let b = layer.bias@[i] as int;
    let s = window_sum(layer.weights@, x, i, k_w);
    lemma_window_bump(layer.weights@, bumped.weights@, x, i, t, k_w);
    lemma_wrap_add(b + s, x[i + t] as int);
    assert(pre2[i] == wrap(pre[i] + x[i + t]));
    lemma_lane_check::<T>(pre[i], pre2[i], x[i + t] as int);
    assert(bumped.spec_out(x)[i] == T::spec_activate(pre2[i]));
    assert(layer.spec_out(x)[i] == T::spec_activate(pre[i]));
}

/// Gradient check of a convolution, bias of output `i`: raising it by one
/// changes output `i`, and no other, by the entry that `backprop` adds to
/// its gradient for the output error 1 at `i`, after a forward pass,
/// wherever the activation has no kink in between.
pub proof fn lemma_conv1d_bias_gradient_check<T: Activation, const M: usize, const N: usize>(
    layer: &Conv1D<T, M, N>,
    bumped: &Conv1D<T, M, N>,
    grad: &Conv1D<T, M, N>,
    after: &Conv1D<T, M, N>,
    layers: &Conv1DLayers<N>,
    x: Seq<i32>,
    i: int,
)
    requires
        N <= M,
        x.len() == M,
        0 <= i < N,
        layer.bias@[i] < i32::MAX,
        bumped.weights@ == layer.weights@,
        bumped.bias@ == layer.bias@.update(i, (layer.bias@[i] + 1) as i32),
        no_kink::<T>(
            conv_pre(layer.weights@, layer.bias@, x, kernel_width(M as int, N as int))[i],
            conv_pre(bumped.weights@, bumped.bias@, x, kernel_width(M as int, N as int))[i],
        ),
        layer.is_cache(x, layers),
        grad.is_zero(),
        layer.is_grad_step(x, single_lane(N as nat, i, 1), layers, grad, after),
    ensures
        lanes_sub(bumped.spec_out(x), layer.spec_out(x)) == single_lane(N as nat, i, after.bias@[i]),
{
    let k_w = kernel_width(M as int, N as int);
    let pre = conv_pre(layer.weights@, layer.bias@, x, k_w);
    let pre2 = conv_pre(bumped.weights@, bumped.bias@, x, k_w);
    let d = T::spec_derivative(T::spec_activate(pre[i]));
    assert(layers.out@[i] == T::spec_activate(pre[i]));
    lemma_scaled_unit(1, d);
    assert(after.bias@[i] == wrap(1 * d));
    let diff = lanes_sub(bumped.spec_out(x), layer.spec_out(x));
    assert forall|k: int| 0 <= k < N implies diff[k] == single_lane(N as nat, i, after.bias@[i])[k] by {
        let s = window_sum(layer.weights@, x, k, k_w);
        assert(bumped.spec_out(x)[k] == T::spec_activate(pre2[k]));
        assert(layer.spec_out(x)[k] == T::spec_activate(pre[k]));
        if k == i {
            lemma_wrap_add(layer.bias@[k] + s, 1);
            assert(layer.bias@[k] + 1 + s == layer.bias@[k] + s + 1);
            assert(pre2[k] == wrap(pre[k] + 1));
            lemma_lane_check::<T>(pre[k], pre2[k], 1);
        } else {
            assert(pre2[k] == pre[k]);
            lemma_wrap_small(0);
        }
    }
    assert(diff =~= single_lane(N as nat, i, after.bias@[i]));
}

} // verus!
