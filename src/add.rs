//! Parallel sum of two networks over the same input.
use vstd::prelude::*;
use crate::network::{lemma_split, FeedForwardNetwork, OutputLayer, Tensor};

verus! {

/// Two networks with the same input and output types whose outputs are summed.
pub struct Add<A, B> {
    pub a: A,
    pub b: B,
}

impl<A, B> Add<A, B> {
    pub fn from_raw(a: A, b: B) -> (r: Self)
        ensures
            r.a == a,
            r.b == b,
    {
        Add { a, b }
    }
}

/// The forward caches of both branches.
pub struct AddLayers<A: FeedForwardNetwork, B: FeedForwardNetwork> {
    pub a: A::Layers,
    pub b: B::Layers,
}

impl<A, B> OutputLayer for AddLayers<A, B> where
    A: FeedForwardNetwork,
    B: FeedForwardNetwork<InputType = A::InputType, OutputType = A::OutputType>,
 {
    type Type = A::OutputType;

    open spec fn spec_output(&self) -> <A::OutputType as View>::V {
        A::OutputType::spec_plus(self.a.spec_output(), self.b.spec_output())
    }

    fn output_layer(&self) -> (r: A::OutputType) {
        let x = self.a.output_layer();
        let y = self.b.output_layer();
        x.plus(&y)
    }
}

impl<A, B> FeedForwardNetwork for Add<A, B> where
    A: FeedForwardNetwork,
    B: FeedForwardNetwork<InputType = A::InputType, OutputType = A::OutputType>,
 {
    type InputType = A::InputType;

    type OutputType = A::OutputType;

    type Layers = AddLayers<A, B>;

    open spec fn accepts(input: <A::InputType as View>::V) -> bool {
        A::accepts(input) && B::accepts(input)
    }

    open spec fn spec_out(&self, input: <A::InputType as View>::V) -> <A::OutputType as View>::V {
        A::OutputType::spec_plus(self.a.spec_out(input), self.b.spec_out(input))
    }

    open spec fn is_zero(&self) -> bool {
        self.a.is_zero() && self.b.is_zero()
    }

    open spec fn is_sum(&self, x: &Self, y: &Self) -> bool {
        self.a.is_sum(&x.a, &y.a) && self.b.is_sum(&x.b, &y.b)
    }

    open spec fn is_grad_step(
        &self,
        input: <A::InputType as View>::V,
        out_err: <A::OutputType as View>::V,
        layers: &AddLayers<A, B>,
        before: &Self,
        after: &Self,
    ) -> bool {
        &&& self.a.is_grad_step(input, out_err, &layers.a, &before.a, &after.a)
        &&& self.b.is_grad_step(input, out_err, &layers.b, &before.b, &after.b)
    }

    open spec fn is_cache(&self, input: <A::InputType as View>::V, layers: &AddLayers<A, B>) -> bool {
        self.a.is_cache(input, &layers.a) && self.b.is_cache(input, &layers.b)
    }

    proof fn lemma_cache_output(&self, input: <A::InputType as View>::V, layers: &AddLayers<A, B>) {
        self.a.lemma_cache_output(input, &layers.a);
        self.b.lemma_cache_output(input, &layers.b);
    }

    proof fn lemma_cache_determines(
        &self,
        input: <A::InputType as View>::V,
        out_err: <A::OutputType as View>::V,
        l1: &AddLayers<A, B>,
        l2: &AddLayers<A, B>,
        before: &Self,
        after: &Self,
    ) {
        self.a.lemma_cache_determines(input, out_err, &l1.a, &l2.a, &before.a, &after.a);
        self.b.lemma_cache_determines(input, out_err, &l1.b, &l2.b, &before.b, &after.b);
    }

    open spec fn spec_input_grad(
        &self,
        input: <A::InputType as View>::V,
        out_err: <A::OutputType as View>::V,
        layers: &AddLayers<A, B>,
    ) -> <A::InputType as View>::V {
        A::InputType::spec_plus(
            self.a.spec_input_grad(input, out_err, &layers.a),
            self.b.spec_input_grad(input, out_err, &layers.b),
        )
    }

    open spec fn spec_lanes(&self) -> Seq<i32> {
        self.a.spec_lanes() + self.b.spec_lanes()
    }

    open spec fn lane_count() -> nat {
        A::lane_count() + B::lane_count()
    }

    proof fn lemma_lane_count(&self) {
        self.a.lemma_lane_count();
        self.b.lemma_lane_count();
    }

    proof fn lemma_lanes_determine_out(&self, other: &Self, input: <A::InputType as View>::V) {
        self.a.lemma_lane_count();
        other.a.lemma_lane_count();
        lemma_split(self.a.spec_lanes(), self.b.spec_lanes(), other.a.spec_lanes(), other.b.spec_lanes());
        self.a.lemma_lanes_determine_out(&other.a, input);
        self.b.lemma_lanes_determine_out(&other.b, input);
    }

    fn lane_len() -> (r: Option<usize>) {
        match A::lane_len() {
            None => None,
            Some(x) => match B::lane_len() {
                None => None,
                Some(y) => x.checked_add(y),
            },
        }
    }

    fn write_lanes(&self, out: &mut Vec<i32>) {
        let ghost start = out@;
        self.a.write_lanes(out);
        self.b.write_lanes(out);
        assert(out@ =~= start + self.spec_lanes());
    }

    fn read_lanes(&mut self, src: &Vec<i32>, pos: usize) -> (next: usize) {
        let mid = self.a.read_lanes(src, pos);
        let next = self.b.read_lanes(src, mid);
        assert(self.spec_lanes() =~= src@.subrange(pos as int, next as int));
        next
    }

    fn zeroed() -> (r: Self) {
        Add { a: A::zeroed(), b: B::zeroed() }
    }

    fn add_assign(&mut self, rhs: &Self) {
        self.a.add_assign(&rhs.a);
        self.b.add_assign(&rhs.b);
    }

    fn out_with_layers(&self, input: &A::InputType) -> (r: AddLayers<A, B>) {
        let a = self.a.out_with_layers(input);
        let b = self.b.out_with_layers(input);
        let r = AddLayers::<A, B> { a, b };
        assert(self.a.is_cache(input@, &r.a));
        assert(self.b.is_cache(input@, &r.b));
        assert(self.is_cache(input@, &r));
        assert(r.spec_output() == A::OutputType::spec_plus(r.a.spec_output(), r.b.spec_output()));
        r
    }

    fn backprop(
        &self,
        input: &A::InputType,
        grad: &mut Self,
        out_err: A::OutputType,
        layers: &AddLayers<A, B>,
    ) -> (r: A::InputType) {
        let a_back = self.a.backprop(input, &mut grad.a, out_err.duplicate(), &layers.a);
        let b_back = self.b.backprop(input, &mut grad.b, out_err, &layers.b);
        a_back.plus(&b_back)
    }
}

} // verus!
