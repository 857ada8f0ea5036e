use goober::{Activation, Identity, ReLU};

#[test]
fn relu_and_its_derivative() {
    assert_eq!(ReLU::activate(5), 5);
    assert_eq!(ReLU::activate(-5), 0);
    assert_eq!(ReLU::activate(0), 0);
    assert_eq!(ReLU::derivative(5), 1);
    assert_eq!(ReLU::derivative(-5), 0);
    assert_eq!(ReLU::derivative(0), 0);
    assert_eq!(ReLU::derivative(i32::MIN), 0);
    assert_eq!(ReLU::derivative(i32::MAX), 1);
}

#[test]
fn identity_and_its_derivative() {
    for x in [i32::MIN, -3, 0, 7, i32::MAX] {
        assert_eq!(Identity::activate(x), x);
        assert_eq!(Identity::derivative(x), 1);
    }
}
