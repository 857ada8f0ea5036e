use goober::{
    Conv1D, DenseConnected, FeedForwardNetwork, Identity, Matrix, OutputLayer, ReLU,
    SparseConnected, SparseVector, Vector,
};

// Lanes are fixed point with one decimal: 11 stands for 1.1.
fn dense_3x3() -> DenseConnected<ReLU, 3, 3> {
    DenseConnected::from_raw(
        Matrix::from_raw([
            Vector::from_raw([10, 10, 10]),
            Vector::from_raw([10, 10, 0]),
            Vector::from_raw([0, 10, 10]),
        ]),
        Vector::from_raw([1, 1, 2]),
    )
}

#[test]
fn dense_connected() {
    let layer = dense_3x3();

    let inputs = [
        Vector::from_raw([1, 0, 0]),
        Vector::from_raw([1, 1, 1]),
        Vector::from_raw([5, 3, -2]),
    ];

    let expected = [[11, 11, 2], [31, 21, 22], [61, 81, 12]];

    for (i, e) in inputs.iter().zip(expected.iter()) {
        assert_eq!(*e, layer.out(i).lanes);
    }
}

#[test]
fn dense_clips_negative_outputs() {
    let layer = dense_3x3();
    let out = layer.out(&Vector::from_raw([-1, 0, 0]));
    assert_eq!(out.lanes, [0, 0, 2]);
}

#[test]
fn sparse_connected() {
    let layer: SparseConnected<ReLU, 3, 3> = SparseConnected::from_raw(
        Matrix::from_raw([
            Vector::from_raw([10, 10, 0]),
            Vector::from_raw([10, 10, 10]),
            Vector::from_raw([10, 0, 10]),
        ]),
        Vector::from_raw([1, 1, 2]),
    );

    let mut input = SparseVector::with_capacity(8);
    input.push(0);
    input.push(1);
    input.push(2);

    assert_eq!([31, 21, 22], layer.out(&input).lanes);
}

#[test]
fn sparse_sums_all_rows_plus_bias() {
    let layer: SparseConnected<ReLU, 3, 3> = SparseConnected::from_raw(
        Matrix::from_raw([
            Vector::from_raw([10, 10, 10]),
            Vector::from_raw([10, 10, 0]),
            Vector::from_raw([0, 10, 10]),
        ]),
        Vector::from_raw([1, 1, 2]),
    );
    let mut input = SparseVector::with_capacity(3);
    input.push(0);
    input.push(1);
    input.push(2);
    assert_eq!(layer.out(&input).lanes, [21, 31, 22]);
}

#[test]
fn sparse_duplicates_accumulate() {
    let layer: SparseConnected<Identity, 2, 2> = SparseConnected::from_raw(
        Matrix::from_raw([Vector::from_raw([1, 2]), Vector::from_raw([3, 4])]),
        Vector::from_raw([0, 0]),
    );
    let mut input = SparseVector::with_capacity(3);
    input.push(1);
    input.push(1);
    input.push(0);
    assert_eq!(layer.out(&input).lanes, [7, 10]);
    let empty = SparseVector::with_capacity(0);
    assert_eq!(layer.out(&empty).lanes, [0, 0]);
}

#[test]
fn lanes_wrap_on_overflow() {
    let layer: DenseConnected<Identity, 1, 1> = DenseConnected::from_raw(
        Matrix::from_raw([Vector::from_raw([i32::MAX])]),
        Vector::from_raw([1]),
    );
    let out = layer.out(&Vector::from_raw([1]));
    assert_eq!(out.lanes, [i32::MIN]);
    let out = layer.out(&Vector::from_raw([2]));
    assert_eq!(out.lanes, [-1]);
}

#[test]
fn dense_backprop_values() {
    let layer: DenseConnected<Identity, 2, 2> = DenseConnected::from_raw(
        Matrix::from_raw([Vector::from_raw([1, 2]), Vector::from_raw([3, 4])]),
        Vector::from_raw([0, 0]),
    );
    let input = Vector::from_raw([5, 6]);
    let layers = layer.out_with_layers(&input);
    assert_eq!(layers.output_layer().lanes, [17, 39]);

    let mut grad: DenseConnected<Identity, 2, 2> = DenseConnected::zeroed();
    let back = layer.backprop(&input, &mut grad, Vector::from_raw([1, 2]), &layers);
    // Transposed product: [1*1 + 3*2, 2*1 + 4*2].
    assert_eq!(back.lanes, [7, 10]);
    assert_eq!(grad.weights_col(0).lanes, [5, 6]);
    assert_eq!(grad.weights_col(1).lanes, [10, 12]);
    assert_eq!(grad.bias().lanes, [1, 2]);

    // A second call accumulates rather than overwrites.
    layer.backprop(&input, &mut grad, Vector::from_raw([1, 2]), &layers);
    assert_eq!(grad.weights_col(1).lanes, [20, 24]);
    assert_eq!(grad.bias().lanes, [2, 4]);
}

#[test]
fn relu_backprop_stops_at_inactive_outputs() {
    let layer: DenseConnected<ReLU, 2, 2> = DenseConnected::from_raw(
        Matrix::from_raw([Vector::from_raw([1, 0]), Vector::from_raw([-1, 0])]),
        Vector::from_raw([0, 0]),
    );
    let input = Vector::from_raw([3, 4]);
    let layers = layer.out_with_layers(&input);
    let mut grad: DenseConnected<ReLU, 2, 2> = DenseConnected::zeroed();
    let back = layer.backprop(&input, &mut grad, Vector::from_raw([5, 7]), &layers);
    assert_eq!(back.lanes, [5, 0]);
    assert_eq!(grad.weights_col(0).lanes, [15, 20]);
    assert_eq!(grad.weights_col(1).lanes, [0, 0]);
    assert_eq!(grad.bias().lanes, [5, 0]);
}

#[test]
fn sparse_backprop_scatters_rows() {
    let layer: SparseConnected<Identity, 3, 2> = SparseConnected::from_raw(
        Matrix::from_raw([
            Vector::from_raw([1, 1]),
            Vector::from_raw([2, 2]),
            Vector::from_raw([3, 3]),
        ]),
        Vector::from_raw([0, 0]),
    );
    let mut input = SparseVector::with_capacity(2);
    input.push(2);
    input.push(2);
    let layers = layer.out_with_layers(&input);
    let mut grad: SparseConnected<Identity, 3, 2> = SparseConnected::zeroed();
    let back = layer.backprop(&input, &mut grad, Vector::from_raw([4, -1]), &layers);
    assert_eq!(back.len(), 0);
    assert_eq!(grad.weights_row(0).lanes, [0, 0]);
    assert_eq!(grad.weights_row(2).lanes, [8, -2]);
    assert_eq!(grad.bias().lanes, [4, -1]);
}

#[test]
fn conv1d_forward_and_backward() {
    // Kernel width 5 - 3 + 1 = 3: taps [1, 2, 3].
    let layer: Conv1D<Identity, 5, 3> =
        Conv1D::from_raw(Vector::from_raw([1, 2, 3, 0, 0]), Vector::from_raw([10, 20, 30]));
    let input = Vector::from_raw([1, 1, 2, 0, -1]);
    let layers = layer.out_with_layers(&input);
    // out[i] = bias[i] + x[i] + 2 x[i+1] + 3 x[i+2]
    assert_eq!(layers.output_layer().lanes, [19, 25, 29]);

    let mut grad: Conv1D<Identity, 5, 3> = Conv1D::zeroed();
    let back = layer.backprop(&input, &mut grad, Vector::from_raw([1, 10, 100]), &layers);
    // back[p] = sum over taps t of err[p - t] * w[t]
    assert_eq!(back.lanes, [1, 12, 123, 230, 300]);
    // tap t: sum over outputs i of err[i] * x[i + t]
    assert_eq!(grad.weights.lanes, [211, 21, -98, 0, 0]);
    assert_eq!(grad.bias.lanes, [1, 10, 100]);
}

#[test]
fn conv1d_relu_output() {
    let layer: Conv1D<ReLU, 3, 2> =
        Conv1D::from_raw(Vector::from_raw([1, -1, 0]), Vector::from_raw([0, 0]));
    let out = layer.out(&Vector::from_raw([1, 2, 0]));
    assert_eq!(out.lanes, [0, 2]);
}

#[test]
fn accessors_read_and_write() {
    let mut layer = dense_3x3();
    assert_eq!(layer.bias().lanes, [1, 1, 2]);
    layer.bias_mut().set(2, 5);
    layer.weights_col_mut(0).set(1, -4);
    assert_eq!(layer.bias().lanes, [1, 1, 5]);
    assert_eq!(layer.weights_col(0).lanes, [10, -4, 10]);

    let mut sparse: SparseConnected<Identity, 2, 2> = SparseConnected::zeroed();
    sparse.weights_row_mut(1).set(0, 9);
    sparse.bias_mut().set(1, 3);
    assert_eq!(sparse.weights_row(1).lanes, [9, 0]);
    assert_eq!(sparse.bias().lanes, [0, 3]);
}

#[test]
fn gradients_accumulate_with_add_assign() {
    let mut a = dense_3x3();
    let b = dense_3x3();
    a.add_assign(&b);
    assert_eq!(a.weights_col(0).lanes, [20, 20, 20]);
    assert_eq!(a.bias().lanes, [2, 2, 4]);
}
