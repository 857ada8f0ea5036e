use goober::{
    Add, Chain, DenseConnected, FeedForwardNetwork, Identity, Matrix, OutputLayer, ReLU, SideNet,
    SparseConnected, SparseVector, SubNet, Vector,
};

type SubTestNet = Chain<SparseConnected<ReLU, 768, 16>, DenseConnected<ReLU, 16, 1>>;

#[test]
fn add() {
    type TestNet = Add<SparseConnected<ReLU, 768, 1>, SubTestNet>;
    let net = TestNet::boxed_and_zeroed();

    let mut input = SparseVector::with_capacity(8);
    input.push(5);
    let out = net.out(&input);
    assert_eq!(out.lanes, [0]);
}

#[test]
fn connected() {
    type TestNet = Chain<
        SparseConnected<ReLU, 768, 32>,
        Chain<DenseConnected<ReLU, 32, 16>, DenseConnected<ReLU, 16, 1>>,
    >;
    let net = TestNet::boxed_and_zeroed();

    let mut input = SparseVector::with_capacity(8);
    input.push(5);
    let out = net.out(&input);
    assert_eq!(out.lanes, [0]);
}

fn small_chain() -> Chain<SparseConnected<ReLU, 3, 2>, DenseConnected<Identity, 2, 1>> {
    let ft = SparseConnected::from_raw(
        Matrix::from_raw([
            Vector::from_raw([1, -2]),
            Vector::from_raw([2, 3]),
            Vector::from_raw([-4, 1]),
        ]),
        Vector::from_raw([1, 0]),
    );
    let l2 = DenseConnected::from_raw(Matrix::from_raw([Vector::from_raw([3, 5])]), Vector::from_raw([7]));
    Chain::from_raw(ft, l2)
}

#[test]
fn chain_forward_threads_activations() {
    let net = small_chain();
    let mut input = SparseVector::with_capacity(2);
    input.push(0);
    input.push(1);
    // Hidden: relu([1 + 1 + 2, 0 - 2 + 3]) = [4, 1]; output 3*4 + 5*1 + 7.
    let layers = net.out_with_layers(&input);
    assert_eq!(layers.first.output_layer().lanes, [4, 1]);
    assert_eq!(layers.output_layer().lanes, [24]);
    assert_eq!(net.out(&input).lanes, [24]);
}

#[test]
fn chain_backprop_runs_in_reverse() {
    let net = small_chain();
    let mut input = SparseVector::with_capacity(2);
    input.push(0);
    input.push(1);
    let layers = net.out_with_layers(&input);
    let mut grad = Chain::<SparseConnected<ReLU, 3, 2>, DenseConnected<Identity, 2, 1>>::zeroed();
    let back = net.backprop(&input, &mut grad, Vector::from_raw([2]), &layers);
    assert_eq!(back.len(), 0);
    // The dense layer sees the hidden activation [4, 1] and error 2.
    assert_eq!(grad.second.weights_col(0).lanes, [8, 2]);
    assert_eq!(grad.second.bias().lanes, [2]);
    // It hands back [3*2, 5*2] to the sparse layer, both lanes active.
    assert_eq!(grad.first.weights_row(0).lanes, [6, 10]);
    assert_eq!(grad.first.weights_row(1).lanes, [6, 10]);
    assert_eq!(grad.first.weights_row(2).lanes, [0, 0]);
    assert_eq!(grad.first.bias().lanes, [6, 10]);
}

#[test]
fn add_sums_branch_outputs_and_gradients() {
    let a: DenseConnected<Identity, 2, 2> = DenseConnected::from_raw(
        Matrix::from_raw([Vector::from_raw([1, 0]), Vector::from_raw([0, 1])]),
        Vector::from_raw([1, 1]),
    );
    let b: DenseConnected<Identity, 2, 2> = DenseConnected::from_raw(
        Matrix::from_raw([Vector::from_raw([2, 1]), Vector::from_raw([1, 2])]),
        Vector::from_raw([0, -1]),
    );
    let x = Vector::from_raw([3, 4]);
    let net = Add::from_raw(a, b);
    let sum = net.out(&x);
    let oa = a.out(&x);
    let ob = b.out(&x);
    assert_eq!(sum.lanes, [oa.lanes[0] + ob.lanes[0], oa.lanes[1] + ob.lanes[1]]);
    assert_eq!(sum.lanes, [14, 15]);

    let err = Vector::from_raw([1, -1]);
    let layers = net.out_with_layers(&x);
    let mut grad = Add::<DenseConnected<Identity, 2, 2>, DenseConnected<Identity, 2, 2>>::zeroed();
    let back = net.backprop(&x, &mut grad, err, &layers);

    let la = a.out_with_layers(&x);
    let lb = b.out_with_layers(&x);
    let mut ga: DenseConnected<Identity, 2, 2> = DenseConnected::zeroed();
    let mut gb: DenseConnected<Identity, 2, 2> = DenseConnected::zeroed();
    let back_a = a.backprop(&x, &mut ga, err, &la);
    let back_b = b.backprop(&x, &mut gb, err, &lb);
    assert_eq!(back.lanes, back_a.add(&back_b).lanes);
    assert_eq!(back.lanes, [2, -2]);
    assert_eq!(grad.a.weights_col(1).lanes, ga.weights_col(1).lanes);
    assert_eq!(grad.b.weights_col(0).lanes, gb.weights_col(0).lanes);
}

#[test]
fn sparse_matches_dense_on_one_hot_input() {
    let w = [[1, -2, 3], [4, 5, -6], [7, 8, 9], [-1, 0, 2]];
    let sparse: SparseConnected<ReLU, 4, 3> = SparseConnected::from_raw(
        Matrix::from_raw([
            Vector::from_raw(w[0]),
            Vector::from_raw(w[1]),
            Vector::from_raw(w[2]),
            Vector::from_raw(w[3]),
        ]),
        Vector::from_raw([1, -20, 3]),
    );
    let col = |j: usize| Vector::from_raw([w[0][j], w[1][j], w[2][j], w[3][j]]);
    let dense: DenseConnected<ReLU, 4, 3> = DenseConnected::from_raw(
        Matrix::from_raw([col(0), col(1), col(2)]),
        Vector::from_raw([1, -20, 3]),
    );
    for mask in 0..16u32 {
        let mut input = SparseVector::with_capacity(4);
        let mut hot = [0; 4];
        for i in 0..4 {
            if mask & (1 << i) != 0 {
                input.push(i);
                hot[i] = 1;
            }
        }
        assert_eq!(sparse.out(&input).lanes, dense.out(&Vector::from_raw(hot)).lanes);
    }
}

#[test]
fn incremental_updates_match_recomputation() {
    let net = small_chain();
    let mut acc = net.first.bias();
    net.add_feature(&mut acc, 0);
    net.add_feature(&mut acc, 2);
    net.add_feature(&mut acc, 1);
    net.sub_feature(&mut acc, 2);

    let mut active = SparseVector::with_capacity(2);
    active.push(0);
    active.push(1);
    assert_eq!(acc.lanes, net.first.accumulate(&active).lanes);
    assert_eq!(acc.lanes, [4, 1]);
    assert_eq!(net.out_from_first(&acc).lanes, net.out(&active).lanes);

    net.sub_feature(&mut acc, 0);
    net.sub_feature(&mut acc, 1);
    assert_eq!(acc.lanes, net.first.bias().lanes);
}

#[test]
fn side_net_incremental_path() {
    let mut net = SideNet::boxed_and_zeroed();
    net.ft.weights_row_mut(3).set(0, 5);
    net.ft.weights_row_mut(3).set(1, -5);
    net.l2.weights_col_mut(0).set(0, 2);
    net.l2.bias_mut().set(0, 1);

    let mut input = SparseVector::with_capacity(1);
    input.push(3);
    let mut acc = net.ft.bias();
    net.add_feature(&mut acc, 3);
    assert_eq!(net.out_from_first(&acc).lanes, [11]);
    assert_eq!(net.out(&input).lanes, [11]);
    net.sub_feature(&mut acc, 3);
    assert_eq!(net.out_from_first(&acc).lanes, [1]);
}

#[test]
fn sub_net_forward() {
    let mut net = SubNet::boxed_and_zeroed();
    net.ft.bias_mut().set(4, 3);
    net.ft.weights_row_mut(10).set(4, -1);
    let mut input = SparseVector::with_capacity(1);
    input.push(10);
    let layers = net.out_with_layers(&input);
    assert_eq!(layers.output_layer().lanes[4], 2);
    assert_eq!(layers.output_layer().lanes[5], 0);
}
