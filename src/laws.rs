//! Laws that relate the layers to one another.
use vstd::prelude::*;
use crate::activation::Activation;
use crate::add::Add;
use crate::compose::{Chain, ChainLayers};
use crate::codec::{decode, encode, lemma_decode_encode};
use crate::arith::{lemma_wrap_add, lemma_wrap_small, lemma_wrap_sub};
use crate::dense::DenseConnected;
use crate::matrix::dot;
use crate::network::{FeedForwardNetwork, Tensor};
use crate::sparse::{feature_sum, in_range, sparse_pre, SparseConnected};
use crate::vector::{lanes_add, lanes_sub};

verus! {

/// The parallel sum computes the sum of its branches' outputs; for one
/// output error, each branch takes its own gradient step on that same
/// error, and the input error handed back is the sum of the branches'.
pub proof fn lemma_add_is_sum<A, B>(
    net: &Add<A, B>,
    input: <A::InputType as View>::V,
    out_err: <A::OutputType as View>::V,
    layers: &<Add<A, B> as FeedForwardNetwork>::Layers,
    before: &Add<A, B>,
    after: &Add<A, B>,
) where
    A: FeedForwardNetwork,
    B: FeedForwardNetwork<InputType = A::InputType, OutputType = A::OutputType>,

    ensures
        net.spec_out(input) == A::OutputType::spec_plus(net.a.spec_out(input), net.b.spec_out(input)),
        net.spec_input_grad(input, out_err, layers) == A::InputType::spec_plus(
            net.a.spec_input_grad(input, out_err, &layers.a),
            net.b.spec_input_grad(input, out_err, &layers.b),
        ),
        net.is_grad_step(input, out_err, layers, before, after) <==> (net.a.is_grad_step(
            input,
            out_err,
            &layers.a,
            &before.a,
            &after.a,
        ) && net.b.is_grad_step(input, out_err, &layers.b, &before.b, &after.b)),
{
}

/// Occurrences of feature `i` among the active features.
pub open spec fn count_of(idx: Seq<usize>, i: int) -> int
    decreases idx.len(),
{
    if idx.len() == 0 {
        0
    } else {
        count_of(idx.drop_last(), i) + (if idx.last() == i { 1int } else { 0int })
    }
}

/// The dense input with lane `i` holding the number of occurrences of
/// feature `i`: the one-hot expansion of a sparse input.
pub open spec fn expand(idx: Seq<usize>, m: nat) -> Seq<i32> {
    Seq::new(m, |i: int| count_of(idx, i) as i32)
}

proof fn lemma_count_bound(idx: Seq<usize>, i: int)
    ensures
        0 <= count_of(idx, i) <= idx.len(),
    decreases idx.len(),
{
    if idx.len() > 0 {
        lemma_count_bound(idx.drop_last(), i);
    }
}

proof fn lemma_dot_zero(w: Seq<i32>, x: Seq<i32>, n: int)
    requires
        forall|i: int| 0 <= i < n ==> x[i] == 0,
    ensures
        dot(w, x, n) == 0,
    decreases n,
{
    if n > 0 {
        lemma_dot_zero(w, x, n - 1);
    }
}

/// Raising lane `f` of the input by one raises the product by `w[f]`.
proof fn lemma_dot_bump(w: Seq<i32>, x: Seq<i32>, y: Seq<i32>, f: int, n: int)
    requires
        forall|i: int| 0 <= i < n && i != f ==> x[i] == y[i],
        0 <= f < n ==> y[f] == x[f] + 1,
    ensures
        dot(w, y, n) == dot(w, x, n) + (if 0 <= f < n { w[f] as int } else { 0int }),
    decreases n,
{
    if n > 0 {
        lemma_dot_bump(w, x, y, f, n - 1);
        if f == n - 1 {
            assert(w[f] * y[f] == w[f] * x[f] + w[f]) by (nonlinear_arith)
                requires
                    y[f] == x[f] + 1,
            ;
        }
    }
}

/// The product of a dense row with the expansion of a sparse input sums
/// the row's weights at the active features.
proof fn lemma_dot_expand(w: Seq<i32>, idx: Seq<usize>, m: nat)
    requires
        in_range(idx, m),
        forall|i: int| 0 <= i < m ==> #[trigger] count_of(idx, i) <= i32::MAX,
    ensures
        dot(w, expand(idx, m), m as int) == feature_sum(
            Seq::new(m, |i: int| seq![w[i]]),
            idx,
            0,
        ),
    decreases idx.len(),
{
    let rows = Seq::new(m, |i: int| seq![w[i]]);
    if idx.len() == 0 {
        lemma_dot_zero(w, expand(idx, m), m as int);
    } else {
        let prev = idx.drop_last();
        let f = idx.last() as int;
        assert forall|i: int| 0 <= i < m implies #[trigger] count_of(prev, i) <= i32::MAX by {
            assert(count_of(idx, i) >= count_of(prev, i));
        }
        lemma_dot_expand(w, prev, m);
        assert forall|i: int| 0 <= i < m implies #[trigger] expand(idx, m)[i] == count_of(idx, i) && expand(prev, m)[i] == count_of(prev, i) by {
            lemma_count_bound(idx, i);
            lemma_count_bound(prev, i);
        }
        lemma_dot_bump(w, expand(prev, m), expand(idx, m), f, m as int);
        assert(rows[f][0] == w[f]);
    }
}

/// A sparse layer gives the same output as the dense layer with the
/// transposed weights and the same bias, evaluated on the expansion of
/// the sparse input that counts each feature's occurrences (where every
/// count fits a lane).
pub proof fn lemma_sparse_matches_dense<T: Activation, const M: usize, const N: usize>(
    sparse: &SparseConnected<T, M, N>,
    dense: &DenseConnected<T, M, N>,
    input: Seq<usize>,
)
    requires
        in_range(input, M as nat),
        forall|i: int| 0 <= i < M ==> #[trigger] count_of(input, i) <= i32::MAX,
        dense.bias@ == sparse.bias@,
        forall|j: int, i: int|
            0 <= j < N && 0 <= i < M ==> dense.weights@[j][i] == sparse.weights@[i][j],
    ensures
        sparse.spec_out(input) == dense.spec_out(expand(input, M as nat)),
{
    sparse.weights.lemma_shape();
    dense.weights.lemma_shape();
    let x = expand(input, M as nat);
    let pre_d = lanes_add(crate::matrix::rows_mul(dense.weights@, x), dense.bias@);
    let pre_s = sparse_pre(sparse.weights@, sparse.bias@, input);
    assert forall|j: int| 0 <= j < N implies pre_d[j] == pre_s[j] by {
        let w = dense.weights@[j];
        lemma_dot_expand(w, input, M as nat);
        lemma_feature_sum_column(sparse.weights@, w, input, j);
        let d = dot(w, x, M as int);
        lemma_wrap_add(d, sparse.bias@[j] as int);
    }
    assert(pre_d =~= pre_s);
}

/// The dense input with 1 at the active features and 0 elsewhere.
pub open spec fn one_hot(idx: Seq<usize>, m: nat) -> Seq<i32> {
    Seq::new(m, |i: int| if idx.contains(i as usize) { 1i32 } else { 0i32 })
}

/// Without repeated features, each feature occurs once or not at all.
proof fn lemma_count_distinct(idx: Seq<usize>, i: int)
    requires
        idx.no_duplicates(),
        0 <= i <= usize::MAX,
    ensures
        count_of(idx, i) == (if idx.contains(i as usize) { 1int } else { 0int }),
    decreases idx.len(),
{
    if idx.len() > 0 {
        let prev = idx.drop_last();
        let n = idx.len() - 1;
        assert(prev.no_duplicates()) by {
            assert forall|a: int, b: int| 0 <= a < prev.len() && 0 <= b < prev.len() && a != b implies prev[a] != prev[b] by {
                assert(prev[a] == idx[a] && prev[b] == idx[b]);
            }
        }
        lemma_count_distinct(prev, i);
        if idx.last() == i {
            assert(idx[n] == i as usize);
            if prev.contains(i as usize) {
                let k = choose|k: int| 0 <= k < prev.len() && prev[k] == i as usize;
                assert(idx[k] == idx[n]);
            }
        } else {
            if idx.contains(i as usize) {
                let k = choose|k: int| 0 <= k < idx.len() && idx[k] == i as usize;
                assert(k < n);
                assert(prev[k] == i as usize);
            }
            if prev.contains(i as usize) {
                let k = choose|k: int| 0 <= k < prev.len() && prev[k] == i as usize;
                assert(idx[k] == i as usize);
            }
        }
    }
}

/// A sparse layer gives the same output as the dense layer with the
/// transposed weights and the same bias, evaluated on the one-hot
/// expansion of a set of active features.
pub proof fn lemma_sparse_matches_dense_one_hot<T: Activation, const M: usize, const N: usize>(
    sparse: &SparseConnected<T, M, N>,
    dense: &DenseConnected<T, M, N>,
    input: Seq<usize>,
)
    requires
        in_range(input, M as nat),
        input.no_duplicates(),
        dense.bias@ == sparse.bias@,
        forall|j: int, i: int|
            0 <= j < N && 0 <= i < M ==> dense.weights@[j][i] == sparse.weights@[i][j],
    ensures
        sparse.spec_out(input) == dense.spec_out(one_hot(input, M as nat)),
{
    assert forall|i: int| 0 <= i < M implies #[trigger] count_of(input, i) <= i32::MAX by {
        lemma_count_distinct(input, i);
    }
    lemma_sparse_matches_dense(sparse, dense, input);
    assert forall|i: int| 0 <= i < M implies #[trigger] expand(input, M as nat)[i] == one_hot(input, M as nat)[i] by {
        lemma_count_distinct(input, i);
    }
    assert(expand(input, M as nat) =~= one_hot(input, M as nat));
}

/// Summing lane `j` of the active rows equals summing the one-lane rows
/// cut from column `j`.
proof fn lemma_feature_sum_column(w: Seq<Seq<i32>>, col: Seq<i32>, idx: Seq<usize>, j: int)
    requires
        col.len() == w.len(),
        forall|i: int| 0 <= i < w.len() ==> col[i] == w[i][j],
        in_range(idx, w.len()),
    ensures
        feature_sum(Seq::new(w.len(), |i: int| seq![col[i]]), idx, 0) == feature_sum(w, idx, j),
    decreases idx.len(),
{
    if idx.len() > 0 {
        lemma_feature_sum_column(w, col, idx.drop_last(), j);
        let f = idx.last() as int;
        assert(Seq::new(w.len(), |i: int| seq![col[i]])[f][0] == col[f]);
    }
}

/// Removing one occurrence of a feature takes its row off the sum.
pub proof fn lemma_feature_sum_remove(w: Seq<Seq<i32>>, idx: Seq<usize>, p: int, j: int)
    requires
        0 <= p < idx.len(),
    ensures
        feature_sum(w, idx, j) == feature_sum(w, idx.remove(p), j) + w[idx[p] as int][j],
    decreases idx.len(),
{
    let rest = idx.remove(p);
    if p == idx.len() - 1 {
        assert(rest =~= idx.drop_last());
    } else {
        let prev = idx.drop_last();
        lemma_feature_sum_remove(w, prev, p, j);
        assert(rest.drop_last() =~= prev.remove(p));
        assert(rest.last() == idx.last());
    }
}

/// One feature toggle: `true` makes the feature active, `false` takes
/// one occurrence of it away.
pub open spec fn apply_toggles(acc: Seq<i32>, w: Seq<Seq<i32>>, toggles: Seq<(bool, usize)>) -> Seq<i32>
    decreases toggles.len(),
{
    if toggles.len() == 0 {
        acc
    } else {
        let prev = apply_toggles(acc, w, toggles.drop_last());
        let (on, f) = toggles.last();
        if on {
            lanes_add(prev, w[f as int])
        } else {
            lanes_sub(prev, w[f as int])
        }
    }
}

/// The active features after a sequence of toggles.
pub open spec fn active_after(active: Seq<usize>, toggles: Seq<(bool, usize)>) -> Seq<usize>
    decreases toggles.len(),
{
    if toggles.len() == 0 {
        active
    } else {
        let prev = active_after(active, toggles.drop_last());
        let (on, f) = toggles.last();
        if on {
            prev.push(f)
        } else {
            prev.remove(prev.index_of(f))
        }
    }
}

/// Every toggled feature is a row, and every feature switched off was active.
pub open spec fn toggles_valid(active: Seq<usize>, toggles: Seq<(bool, usize)>, m: nat) -> bool
    decreases toggles.len(),
{
    if toggles.len() == 0 {
        in_range(active, m)
    } else {
        let (on, f) = toggles.last();
        &&& toggles_valid(active, toggles.drop_last(), m)
        &&& f < m
        &&& (on || active_after(active, toggles.drop_last()).contains(f))
    }
}

proof fn lemma_active_in_range(active: Seq<usize>, toggles: Seq<(bool, usize)>, m: nat)
    requires
        toggles_valid(active, toggles, m),
    ensures
        in_range(active_after(active, toggles), m),
    decreases toggles.len(),
{
    if toggles.len() > 0 {
        let prev = active_after(active, toggles.drop_last());
        lemma_active_in_range(active, toggles.drop_last(), m);
        let (on, f) = toggles.last();
        if !on {
            let p = prev.index_of(f);
            let rest = prev.remove(p);
            assert forall|k: int| 0 <= k < rest.len() implies rest[k] < m by {
                if k < p {
                    assert(rest[k] == prev[k]);
                } else {
                    assert(rest[k] == prev[k + 1]);
                }
            }
        }
    }
}

/// Incremental evaluation agrees with full evaluation: starting from the
/// pre-activation of some active features (the bias, for none), applying
/// any valid sequence of `add_feature` / `sub_feature` steps yields the
/// pre-activation recomputed from scratch over the features active after
/// those steps.
pub proof fn lemma_incremental_matches_full<T: Activation, const M: usize, const N: usize>(
    layer: &SparseConnected<T, M, N>,
    active: Seq<usize>,
    toggles: Seq<(bool, usize)>,
)
    requires
        toggles_valid(active, toggles, M as nat),
    ensures
        apply_toggles(sparse_pre(layer.weights@, layer.bias@, active), layer.weights@, toggles)
            == sparse_pre(layer.weights@, layer.bias@, active_after(active, toggles)),
        sparse_pre(layer.weights@, layer.bias@, Seq::empty()) == layer.bias@,
    decreases toggles.len(),
{
    let w = layer.weights@;
    let b = layer.bias@;
    layer.weights.lemma_shape();
    assert(sparse_pre(w, b, Seq::empty()) =~= b) by {
        assert forall|j: int| 0 <= j < b.len() implies sparse_pre(w, b, Seq::empty())[j] == b[j] by {
            lemma_wrap_small(b[j] as int);
        }
    }
    if toggles.len() > 0 {
        let rest = toggles.drop_last();
        lemma_incremental_matches_full(layer, active, rest);
        lemma_active_in_range(active, rest, M as nat);
        let prev = active_after(active, rest);
        let acc = sparse_pre(w, b, prev);
        let (on, f) = toggles.last();
        if on {
            let next = prev.push(f);
            assert(next.drop_last() =~= prev);
            assert forall|j: int| 0 <= j < N implies lanes_add(acc, w[f as int])[j] == sparse_pre(w, b, next)[j] by {
                lemma_wrap_add(b[j] + feature_sum(w, prev, j), w[f as int][j] as int);
            }
            assert(lanes_add(acc, w[f as int]) =~= sparse_pre(w, b, next));
        } else {
            let p = prev.index_of(f);
            let next = prev.remove(p);
            assert forall|j: int| 0 <= j < N implies lanes_sub(acc, w[f as int])[j] == sparse_pre(w, b, next)[j] by {
                lemma_feature_sum_remove(w, prev, p, j);
                lemma_wrap_sub(b[j] + feature_sum(w, prev, j), w[f as int][j] as int);
            }
            assert(lanes_sub(acc, w[f as int]) =~= sparse_pre(w, b, next));
        }
    }
}

/// Round trip of the byte image: the image of a network's parameters has
/// the length that `load_from_bin` accepts, and a network of the same type
/// (a zeroed one, say) that loads it computes the same outputs as the
/// network that wrote it, on every input.
pub proof fn lemma_round_trip<Net: FeedForwardNetwork>(
    net: &Net,
    reloaded: &Net,
    input: <Net::InputType as View>::V,
)
    requires
        reloaded.spec_lanes() == decode(encode(net.spec_lanes())),
    ensures
        encode(net.spec_lanes()).len() == 4 * Net::lane_count(),
        reloaded.spec_out(input) == net.spec_out(input),
{
    lemma_decode_encode(net.spec_lanes());
    net.lemma_lane_count();
    reloaded.lemma_lanes_determine_out(net, input);
}

/// Sequential composition is associative: `(A then B) then C` and
/// `A then (B then C)` with the same parameters compute the same output,
/// and after a forward pass each hands back the same input error and
/// takes the same gradient step in every stage.
pub proof fn lemma_chain_associative<A, B, C>(
    left: &Chain<Chain<A, B>, C>,
    right: &Chain<A, Chain<B, C>>,
    input: <A::InputType as View>::V,
    out_err: <C::OutputType as View>::V,
    left_layers: &ChainLayers<Chain<A, B>, C>,
    right_layers: &ChainLayers<A, Chain<B, C>>,
    left_before: &Chain<Chain<A, B>, C>,
    left_after: &Chain<Chain<A, B>, C>,
    right_before: &Chain<A, Chain<B, C>>,
    right_after: &Chain<A, Chain<B, C>>,
) where
    A: FeedForwardNetwork,
    B: FeedForwardNetwork<InputType = A::OutputType>,
    C: FeedForwardNetwork<InputType = B::OutputType>,

    requires
        left.first.first == right.first,
        left.first.second == right.second.first,
        left.second == right.second.second,
        left_before.first.first == right_before.first,
        left_before.first.second == right_before.second.first,
        left_before.second == right_before.second.second,
        left_after.first.first == right_after.first,
        left_after.first.second == right_after.second.first,
        left_after.second == right_after.second.second,
        left.is_cache(input, left_layers),
        right.is_cache(input, right_layers),
    ensures
        left.spec_out(input) == right.spec_out(input),
        left.spec_input_grad(input, out_err, left_layers) == right.spec_input_grad(
            input,
            out_err,
            right_layers,
        ),
        left.is_grad_step(input, out_err, left_layers, left_before, left_after)
            <==> right.is_grad_step(input, out_err, right_layers, right_before, right_after),
{
    let a = &right.first;
    let b = &right.second.first;
    let c = &right.second.second;
    let la = &left_layers.first.first;
    let lb = &left_layers.first.second;
    let lc = &left_layers.second;
    let ra = &right_layers.first;
    let rb = &right_layers.second.first;
    let rc = &right_layers.second.second;
    a.lemma_cache_output(input, la);
    a.lemma_cache_output(input, ra);
    let x1 = a.spec_out(input);
    b.lemma_cache_output(x1, lb);
    b.lemma_cache_output(x1, rb);
    let x2 = b.spec_out(x1);
    c.lemma_cache_determines(x2, out_err, lc, rc, &left_before.second, &left_after.second);
    let e2 = c.spec_input_grad(x2, out_err, lc);
    b.lemma_cache_determines(x1, e2, lb, rb, &left_before.first.second, &left_after.first.second);
    let e1 = b.spec_input_grad(x1, e2, lb);
    a.lemma_cache_determines(input, e1, la, ra, &left_before.first.first, &left_after.first.first);
}

} // verus!
