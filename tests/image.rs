use goober::{
    Chain, Conv1D, DenseConnected, FeedForwardNetwork, Identity, Matrix, ReLU, SparseConnected,
    SparseVector, Vector,
};
use goober::codec::{decode_lanes, encode_lanes};

#[test]
fn lanes_encode_little_endian() {
    let bytes = encode_lanes(&vec![1, -1, 0x01020304]);
    assert_eq!(bytes, vec![1, 0, 0, 0, 255, 255, 255, 255, 4, 3, 2, 1]);
    assert_eq!(decode_lanes(&bytes), Some(vec![1, -1, 0x01020304]));
    assert_eq!(decode_lanes(&vec![1, 2, 3]), None);
    assert_eq!(decode_lanes(&vec![]), Some(vec![]));
}

#[test]
fn dense_image_is_weights_then_bias() {
    let layer: DenseConnected<Identity, 2, 1> =
        DenseConnected::from_raw(Matrix::from_raw([Vector::from_raw([2, 3])]), Vector::from_raw([-2]));
    let bytes = layer.write_to_bin();
    assert_eq!(bytes, vec![2, 0, 0, 0, 3, 0, 0, 0, 254, 255, 255, 255]);
}

#[test]
fn reload_reproduces_outputs() {
    type Net = Chain<SparseConnected<ReLU, 4, 3>, Chain<DenseConnected<ReLU, 3, 2>, Conv1D<Identity, 2, 1>>>;
    let ft = SparseConnected::from_raw(
        Matrix::from_raw([
            Vector::from_raw([1, 2, 3]),
            Vector::from_raw([-4, 5, 6]),
            Vector::from_raw([7, -8, 9]),
            Vector::from_raw([10, 11, -12]),
        ]),
        Vector::from_raw([1, 2, 3]),
    );
    let l2 = DenseConnected::from_raw(
        Matrix::from_raw([Vector::from_raw([1, -1, 2]), Vector::from_raw([3, 1, -1])]),
        Vector::from_raw([5, -5]),
    );
    let l3 = Conv1D::from_raw(Vector::from_raw([2, 7]), Vector::from_raw([1]));
    let net: Net = Chain::from_raw(ft, Chain::from_raw(l2, l3));

    let bytes = net.write_to_bin();
    assert_eq!(bytes.len(), 4 * (12 + 3 + 6 + 2 + 2 + 1));

    let mut reloaded = Net::boxed_and_zeroed();
    assert!(reloaded.load_from_bin(&bytes));
    assert_eq!(reloaded.write_to_bin(), bytes);
    for mask in 0..16u32 {
        let mut input = SparseVector::with_capacity(4);
        for i in 0..4 {
            if mask & (1 << i) != 0 {
                input.push(i);
            }
        }
        assert_eq!(reloaded.out(&input).lanes, net.out(&input).lanes);
    }
}

#[test]
fn load_rejects_wrong_length() {
    let mut layer: DenseConnected<Identity, 2, 1> =
        DenseConnected::from_raw(Matrix::from_raw([Vector::from_raw([2, 3])]), Vector::from_raw([4]));
    assert!(!layer.load_from_bin(&vec![0; 8]));
    assert!(!layer.load_from_bin(&vec![0; 13]));
    assert_eq!(layer.weights_col(0).lanes, [2, 3]);
    assert!(layer.load_from_bin(&vec![0; 12]));
    assert_eq!(layer.weights_col(0).lanes, [0, 0]);
    assert_eq!(layer.bias().lanes, [0]);
}
