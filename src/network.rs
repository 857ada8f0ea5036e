//! The layer protocol that every layer and every composed network follows.
use vstd::prelude::*;
use crate::codec::{decode, decode_lanes, encode, encode_lanes};
use crate::vector::{lanes_add, SparseVector, Vector};

verus! {

/// Two concatenations with first parts of one length have equal parts.
pub proof fn lemma_split<A>(x1: Seq<A>, y1: Seq<A>, x2: Seq<A>, y2: Seq<A>)
    requires
        x1 + y1 == x2 + y2,
        x1.len() == x2.len(),
    ensures
        x1 == x2,
        y1 == y2,
{
    assert(x1 =~= (x1 + y1).subrange(0, x1.len() as int));
    assert(x2 =~= (x2 + y2).subrange(0, x2.len() as int));
    assert(y1 =~= (x1 + y1).subrange(x1.len() as int, (x1 + y1).len() as int));
    assert(y2 =~= (x2 + y2).subrange(x2.len() as int, (x2 + y2).len() as int));
}

/// Values that flow between layers and can be summed: activations,
/// errors and input gradients.
pub trait Tensor: View + Sized {
    spec fn spec_plus(a: Self::V, b: Self::V) -> Self::V;

    fn plus(&self, rhs: &Self) -> (r: Self)
        ensures
            r@ == Self::spec_plus(self@, rhs@),
    ;

    fn duplicate(&self) -> (r: Self)
        ensures
            r@ == self@,
    ;
}

impl<const N: usize> Tensor for Vector<N> {
    open spec fn spec_plus(a: Seq<i32>, b: Seq<i32>) -> Seq<i32> {
        lanes_add(a, b)
    }

    fn plus(&self, rhs: &Self) -> (r: Self) {
        self.add(rhs)
    }

    fn duplicate(&self) -> (r: Self) {
        *self
    }
}

/// Two sparse inputs sum by joining their active features.
impl Tensor for SparseVector {
    open spec fn spec_plus(a: Seq<usize>, b: Seq<usize>) -> Seq<usize> {
        a + b
    }

    fn plus(&self, rhs: &Self) -> (r: Self) {
        self.concat(rhs)
    }

    fn duplicate(&self) -> (r: Self) {
        self.clone()
    }
}

/// Marks the type that a network takes as input.
pub trait InputLayer {
    type Type;
}

/// The cache of a forward pass, which exposes the network's output.
pub trait OutputLayer {
    type Type: View;

    spec fn spec_output(&self) -> <Self::Type as View>::V;

    fn output_layer(&self) -> (r: Self::Type)
        ensures
            r@ == self.spec_output(),
    ;
}

/// A layer, or a network composed of layers.
///
/// `out_with_layers` evaluates the network and keeps every activation
/// that `backprop` needs. `backprop` adds the network's parameter gradient
/// for one output error into an accumulator of the network's own shape,
/// and returns the error with respect to the input.
pub trait FeedForwardNetwork: Sized {
    type InputType: Tensor;

    type OutputType: Tensor;

    type Layers: OutputLayer<Type = Self::OutputType>;

    /// Inputs the network is defined on.
    spec fn accepts(input: <Self::InputType as View>::V) -> bool;

    /// What the network computes on `input`.
    spec fn spec_out(&self, input: <Self::InputType as View>::V) -> <Self::OutputType as View>::V;

    /// Every parameter is zero.
    spec fn is_zero(&self) -> bool;

    /// Every parameter of `self` is the wrapped sum of the matching
    /// parameters of `a` and `b`.
    spec fn is_sum(&self, a: &Self, b: &Self) -> bool;

    /// `after` is `before` plus the parameter gradient of `self` at
    /// `input` for the output error `out_err`, given the forward cache.
    spec fn is_grad_step(
        &self,
        input: <Self::InputType as View>::V,
        out_err: <Self::OutputType as View>::V,
        layers: &Self::Layers,
        before: &Self,
        after: &Self,
    ) -> bool;

    /// `layers` is the forward cache of `self` at `input`: every part of it
    /// holds what the matching part of the network computes on the input
    /// that reaches it.
    spec fn is_cache(&self, input: <Self::InputType as View>::V, layers: &Self::Layers) -> bool;

    /// A forward cache exposes the network's output.
    proof fn lemma_cache_output(&self, input: <Self::InputType as View>::V, layers: &Self::Layers)
        requires
            self.is_cache(input, layers),
        ensures
            layers.spec_output() == self.spec_out(input),
    ;

    /// Two forward caches at one input give the same input error and the
    /// same gradient step.
    proof fn lemma_cache_determines(
        &self,
        input: <Self::InputType as View>::V,
        out_err: <Self::OutputType as View>::V,
        l1: &Self::Layers,
        l2: &Self::Layers,
        before: &Self,
        after: &Self,
    )
        requires
            self.is_cache(input, l1),
            self.is_cache(input, l2),
        ensures
            self.spec_input_grad(input, out_err, l1) == self.spec_input_grad(input, out_err, l2),
            self.is_grad_step(input, out_err, l1, before, after) <==> self.is_grad_step(
                input,
                out_err,
                l2,
                before,
                after,
            ),
    ;

    /// The error with respect to the input.
    spec fn spec_input_grad(
        &self,
        input: <Self::InputType as View>::V,
        out_err: <Self::OutputType as View>::V,
        layers: &Self::Layers,
    ) -> <Self::InputType as View>::V;

    /// The parameters as flat lanes, in field order.
    spec fn spec_lanes(&self) -> Seq<i32>;

    /// How many lanes the parameters take.
    spec fn lane_count() -> nat;

    proof fn lemma_lane_count(&self)
        ensures
            self.spec_lanes().len() == Self::lane_count(),
    ;

    /// Networks with the same parameter lanes compute the same outputs.
    proof fn lemma_lanes_determine_out(&self, other: &Self, input: <Self::InputType as View>::V)
        requires
            self.spec_lanes() == other.spec_lanes(),
        ensures
            self.spec_out(input) == other.spec_out(input),
    ;

    /// The number of parameter lanes, where it fits a `usize`.
    fn lane_len() -> (r: Option<usize>)
        ensures
            r matches Some(n) ==> n == Self::lane_count(),
            r is None ==> Self::lane_count() > usize::MAX,
    ;

    /// Appends the parameter lanes to `out`.
    fn write_lanes(&self, out: &mut Vec<i32>)
        ensures
            final(out)@ == old(out)@ + self.spec_lanes(),
    ;

    /// Overwrites every parameter with the lanes of `src` from `pos` on,
    /// and returns the position after them.
    fn read_lanes(&mut self, src: &Vec<i32>, pos: usize) -> (next: usize)
        requires
            pos + Self::lane_count() <= src@.len(),
        ensures
            final(self).spec_lanes() == src@.subrange(pos as int, pos + Self::lane_count()),
            next == pos + Self::lane_count(),
    ;

    /// The byte image of the parameters.
    fn write_to_bin(&self) -> (r: Vec<u8>)
        ensures
            r@ == encode(self.spec_lanes()),
    {
        let mut lanes: Vec<i32> = Vec::new();
        self.write_lanes(&mut lanes);
        assert(lanes@ =~= self.spec_lanes());
        encode_lanes(&lanes)
    }

    /// Loads the parameters from a byte image of the right length, and
    /// leaves them untouched otherwise.
    fn load_from_bin(&mut self, bytes: &Vec<u8>) -> (ok: bool)
        ensures
            ok <==> bytes@.len() == 4 * Self::lane_count(),
            ok ==> final(self).spec_lanes() == decode(bytes@),
            !ok ==> *final(self) == *old(self),
    {
        let len = bytes.len();
        match Self::lane_len() {
            None => false,
            Some(n) => match decode_lanes(bytes) {
                None => false,
                Some(lanes) => {
                    if lanes.len() == n {
                        self.read_lanes(&lanes, 0);
                        assert(lanes@.subrange(0, n as int) =~= lanes@);
                        true
                    } else {
                        false
                    }
                },
            },
        }
    }

    fn zeroed() -> (r: Self)
        ensures
            r.is_zero(),
    ;

    /// A zeroed network on the heap.
    fn boxed_and_zeroed() -> (r: Box<Self>)
        ensures
            r.is_zero(),
    {
        Box::new(Self::zeroed())
    }

    /// Gradient accumulation: `self += rhs`.
    fn add_assign(&mut self, rhs: &Self)
        ensures
            final(self).is_sum(old(self), rhs),
    ;

    fn out_with_layers(&self, input: &Self::InputType) -> (r: Self::Layers)
        requires
            Self::accepts(input@),
        ensures
            self.is_cache(input@, &r),
            r.spec_output() == self.spec_out(input@),
    ;

    fn out(&self, input: &Self::InputType) -> (r: Self::OutputType)
        requires
            Self::accepts(input@),
        ensures
            r@ == self.spec_out(input@),
    {
        self.out_with_layers(input).output_layer()
    }

    fn backprop(
        &self,
        input: &Self::InputType,
        grad: &mut Self,
        out_err: Self::OutputType,
        layers: &Self::Layers,
    ) -> (r: Self::InputType)
        requires
            Self::accepts(input@),
        ensures
            self.is_grad_step(input@, out_err@, layers, old(grad), final(grad)),
            r@ == self.spec_input_grad(input@, out_err@, layers),
    ;
}

} // verus!
