//! Activation functions applied lane by lane, with their derivatives.
use vstd::prelude::*;

verus! {

/// An activation `f` together with its derivative `f'`.
///
/// Layers cache activated outputs, so `derivative` is evaluated on
/// `f(x)`; each activation here has `f'(f(x)) == f'(x)`.
pub trait Activation: Copy {
    spec fn spec_activate(x: i32) -> i32;

    spec fn spec_derivative(x: i32) -> i32;

    fn activate(x: i32) -> (r: i32)
        ensures
            r == Self::spec_activate(x),
    ;

    fn derivative(x: i32) -> (r: i32)
        ensures
            r == Self::spec_derivative(x),
    ;
}

/// `f(x) = x`.
#[derive(Clone, Copy)]
pub struct Identity;

impl Activation for Identity {
    open spec fn spec_activate(x: i32) -> i32 {
        x
    }

    open spec fn spec_derivative(x: i32) -> i32 {
        1
    }

    fn activate(x: i32) -> (r: i32) {
        x
    }

    fn derivative(x: i32) -> (r: i32) {
        1
    }
}

/// Rectified linear unit: `f(x) = max(x, 0)`; its derivative is taken
/// to be 0 at the kink `x = 0`.
#[derive(Clone, Copy)]
pub struct ReLU;

impl Activation for ReLU {
    open spec fn spec_activate(x: i32) -> i32 {
        if x > 0 { x } else { 0 }
    }

    open spec fn spec_derivative(x: i32) -> i32 {
        if x > 0 { 1 } else { 0 }
    }

    fn activate(x: i32) -> (r: i32) {
        if x > 0 { x } else { 0 }
    }

    fn derivative(x: i32) -> (r: i32) {
        if x > 0 {
            1
        } else {
            0
        }
    }
}

/// The derivative of each activation, evaluated on a value or on its
/// activated image, is the analytic one (1 for the identity; for the
/// rectifier 1 on positive inputs, 0 elsewhere, the kink included).
pub proof fn lemma_derivatives(x: i32)
    ensures
        Identity::spec_derivative(x) == 1,
        Identity::spec_derivative(Identity::spec_activate(x)) == 1,
        ReLU::spec_derivative(x) == (if x > 0 { 1i32 } else { 0i32 }),
        ReLU::spec_derivative(ReLU::spec_activate(x)) == ReLU::spec_derivative(x),
        ReLU::spec_activate(x) >= 0,
        x <= 0 ==> ReLU::spec_activate(x) == 0,
        x > 0 ==> ReLU::spec_activate(x) == x,
{
}

} // verus!
