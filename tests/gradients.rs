use goober::{
    Conv1D, DenseConnected, FeedForwardNetwork, Identity, Perspective, ReLU, SparseConnected,
    SparseVector, Vector,
};

// A small linear congruential generator for repeatable samples.
fn next(seed: &mut u32) -> i32 {
    *seed = seed.wrapping_mul(1_103_515_245).wrapping_add(12_345);
    ((*seed >> 16) % 21) as i32 - 10
}

#[test]
fn dense_gradient_matches_finite_differences() {
    let mut seed = 7u32;
    for _ in 0..3 {
        let layer: DenseConnected<Identity, 3, 2> = DenseConnected::from_fn(|_, _| 0, |_| 0);
        let mut layer = layer;
        for j in 0..2 {
            for i in 0..3 {
                layer.weights_col_mut(j).set(i, next(&mut seed));
            }
            layer.bias_mut().set(j, next(&mut seed));
        }
        let x = Vector::from_raw([next(&mut seed), next(&mut seed), next(&mut seed)]);
        let base = layer.out(&x);
        for j in 0..2 {
            let layers = layer.out_with_layers(&x);
            let mut grad: DenseConnected<Identity, 3, 2> = DenseConnected::zeroed();
            let mut err = [0; 2];
            err[j] = 1;
            layer.backprop(&x, &mut grad, Vector::from_raw(err), &layers);
            for i in 0..3 {
                let mut bumped = layer;
                let w = bumped.weights_col(j).get(i);
                bumped.weights_col_mut(j).set(i, w + 1);
                let diff = bumped.out(&x).lanes[j] - base.lanes[j];
                assert_eq!(diff, grad.weights_col(j).get(i));
                assert_eq!(diff, x.lanes[i]);
            }
        }
    }
}

#[test]
fn sparse_gradient_matches_finite_differences() {
    let mut seed = 11u32;
    for _ in 0..3 {
        let mut layer: SparseConnected<Identity, 4, 2> = SparseConnected::zeroed();
        for f in 0..4 {
            for j in 0..2 {
                layer.weights_row_mut(f).set(j, next(&mut seed));
            }
        }
        let mut input = SparseVector::with_capacity(3);
        input.push(1);
        input.push(3);
        input.push(1);
        let base = layer.out(&input);
        let layers = layer.out_with_layers(&input);
        let mut grad: SparseConnected<Identity, 4, 2> = SparseConnected::zeroed();
        layer.backprop(&input, &mut grad, Vector::from_raw([1, 0]), &layers);
        for f in 0..4 {
            let mut bumped = layer;
            let w = bumped.weights_row(f).get(0);
            bumped.weights_row_mut(f).set(0, w + 1);
            let diff = bumped.out(&input).lanes[0] - base.lanes[0];
            assert_eq!(diff, grad.weights_row(f).get(0));
            assert_eq!(bumped.out(&input).lanes[1], base.lanes[1]);
        }
        assert_eq!(grad.weights_row(1).lanes, [2, 0]);
        assert_eq!(grad.weights_row(0).lanes, [0, 0]);
    }
}

#[test]
fn conv1d_gradient_matches_finite_differences() {
    let mut seed = 3u32;
    for _ in 0..3 {
        let weights = Vector::from_fn(|_| 0);
        let mut layer: Conv1D<Identity, 5, 3> = Conv1D::from_raw(weights, Vector::from_raw([1, 2, 3]));
        for t in 0..3 {
            layer.weights.set(t, next(&mut seed));
        }
        let x = Vector::from_raw([
            next(&mut seed),
            next(&mut seed),
            next(&mut seed),
            next(&mut seed),
            next(&mut seed),
        ]);
        let base = layer.out(&x);
        for i in 0..3 {
            let layers = layer.out_with_layers(&x);
            let mut grad: Conv1D<Identity, 5, 3> = Conv1D::zeroed();
            let mut err = [0; 3];
            err[i] = 1;
            layer.backprop(&x, &mut grad, Vector::from_raw(err), &layers);
            for t in 0..3 {
                let mut bumped = layer;
                let w = bumped.weights.get(t);
                bumped.weights.set(t, w + 1);
                let diff = bumped.out(&x).lanes[i] - base.lanes[i];
                assert_eq!(diff, grad.weights.get(t));
                assert_eq!(diff, x.lanes[i + t]);
            }
        }
    }
}

#[test]
fn from_fn_fills_every_lane() {
    let dense: DenseConnected<ReLU, 3, 2> =
        DenseConnected::from_fn(|i, j| (10 * j + i) as i32, |j| -(j as i32));
    assert_eq!(dense.weights_col(0).lanes, [0, 1, 2]);
    assert_eq!(dense.weights_col(1).lanes, [10, 11, 12]);
    assert_eq!(dense.bias().lanes, [0, -1]);
    let sparse: SparseConnected<ReLU, 2, 3> = SparseConnected::from_fn(|f, j| (f * j) as i32, |_| 4);
    assert_eq!(sparse.weights_row(1).lanes, [0, 1, 2]);
    assert_eq!(sparse.bias().lanes, [4, 4, 4]);
}

#[test]
fn perspective_backprop_splits_one_error() {
    type Side = SparseConnected<ReLU, 4, 1>;
    let mut own: Side = SparseConnected::zeroed();
    own.weights_row_mut(1).set(0, 2);
    let mut other: Side = SparseConnected::zeroed();
    other.weights_row_mut(2).set(0, -2);
    let pair = Perspective::from_raw(own, other);

    let mut own_in = SparseVector::with_capacity(1);
    own_in.push(1);
    let mut other_in = SparseVector::with_capacity(1);
    other_in.push(2);
    assert_eq!(pair.out(&own_in, &other_in), (2, 0));

    let layers = pair.out_with_layers(&own_in, &other_in);
    let mut grad = Perspective::<Side>::zeroed();
    pair.backprop(&own_in, &other_in, &mut grad, 3, &layers);
    // The own side is active and learns; the other side is clipped.
    assert_eq!(grad.own.weights_row(1).lanes, [3]);
    assert_eq!(grad.own.bias().lanes, [3]);
    assert_eq!(grad.other.weights_row(2).lanes, [0]);
    assert_eq!(grad.other.bias().lanes, [0]);
}

#[test]
fn relu_and_bias_gradients_match_finite_differences() {
    let layer: DenseConnected<ReLU, 2, 2> = DenseConnected::from_fn(
        |i, j| [[3, -4], [1, 2]][j][i],
        |j| [1, -10][j],
    );
    let x = Vector::from_raw([2, 1]);
    // Pre-activations: [3*2 - 4*1 + 1, 1*2 + 2*1 - 10] = [3, -6]; a unit
    // bump moves neither across the kink at 0.
    let base = layer.out(&x);
    assert_eq!(base.lanes, [3, 0]);
    for j in 0..2 {
        let layers = layer.out_with_layers(&x);
        let mut grad: DenseConnected<ReLU, 2, 2> = DenseConnected::zeroed();
        let mut err = [0; 2];
        err[j] = 1;
        layer.backprop(&x, &mut grad, Vector::from_raw(err), &layers);

        let mut bumped = layer;
        let b = bumped.bias().get(j);
        bumped.bias_mut().set(j, b + 1);
        let diff = bumped.out(&x).lanes[j] - base.lanes[j];
        assert_eq!(diff, grad.bias().get(j));

        for i in 0..2 {
            let mut bumped = layer;
            let w = bumped.weights_col(j).get(i);
            bumped.weights_col_mut(j).set(i, w + 1);
            let diff = bumped.out(&x).lanes[j] - base.lanes[j];
            assert_eq!(diff, grad.weights_col(j).get(i));
        }
    }
}

#[test]
fn conv1d_without_outputs() {
    let layer: Conv1D<ReLU, 3, 0> = Conv1D::from_raw(Vector::from_raw([1, 2, 3]), Vector::from_raw([]));
    let x = Vector::from_raw([4, 5, 6]);
    let layers = layer.out_with_layers(&x);
    let mut grad: Conv1D<ReLU, 3, 0> = Conv1D::zeroed();
    let back = layer.backprop(&x, &mut grad, Vector::from_raw([]), &layers);
    assert_eq!(back.lanes, [0, 0, 0]);
    assert_eq!(grad.weights.lanes, [0, 0, 0]);
}
