//! Sequential composition: the output of one network feeds the next.
use vstd::prelude::*;
use crate::activation::Activation;
use crate::network::{lemma_split, FeedForwardNetwork, OutputLayer};
use crate::sparse::{sparse_pre, SparseConnected};
use crate::vector::{lanes_activate, lanes_add, lanes_sub, Vector};

verus! {

/// `first` followed by `second`. Longer chains nest: `Chain<A, Chain<B, C>>`.
pub struct Chain<A, B> {
    pub first: A,
    pub second: B,
}

impl<A, B> Chain<A, B> {
    pub fn from_raw(first: A, second: B) -> (r: Self)
        ensures
            r.first == first,
            r.second == second,
    {
        Chain { first, second }
    }
}

/// The forward caches of both stages; the output is that of the second.
pub struct ChainLayers<A: FeedForwardNetwork, B: FeedForwardNetwork> {
    pub first: A::Layers,
    pub second: B::Layers,
}

impl<A, B> OutputLayer for ChainLayers<A, B> where
    A: FeedForwardNetwork,
    B: FeedForwardNetwork<InputType = A::OutputType>,
 {
    type Type = B::OutputType;

    open spec fn spec_output(&self) -> <B::OutputType as View>::V {
        self.second.spec_output()
    }

    fn output_layer(&self) -> (r: B::OutputType) {
        self.second.output_layer()
    }
}

impl<A, B> FeedForwardNetwork for Chain<A, B> where
    A: FeedForwardNetwork,
    B: FeedForwardNetwork<InputType = A::OutputType>,
 {
    type InputType = A::InputType;

    type OutputType = B::OutputType;

    type Layers = ChainLayers<A, B>;

    /// The second stage must take every output of the first.
    open spec fn accepts(input: <A::InputType as View>::V) -> bool {
        A::accepts(input) && forall|v: <A::OutputType as View>::V| B::accepts(v)
    }

    open spec fn spec_out(&self, input: <A::InputType as View>::V) -> <B::OutputType as View>::V {
        self.second.spec_out(self.first.spec_out(input))
    }

    open spec fn is_zero(&self) -> bool {
        self.first.is_zero() && self.second.is_zero()
    }

    open spec fn is_sum(&self, x: &Self, y: &Self) -> bool {
        self.first.is_sum(&x.first, &y.first) && self.second.is_sum(&x.second, &y.second)
    }

    /// The second stage learns from `out_err` at the first stage's cached
    /// output; the first stage learns from the error that the second
    /// stage hands back.
    open spec fn is_grad_step(
        &self,
        input: <A::InputType as View>::V,
        out_err: <B::OutputType as View>::V,
        layers: &ChainLayers<A, B>,
        before: &Self,
        after: &Self,
    ) -> bool {
        let mid = layers.first.spec_output();
        let mid_err = self.second.spec_input_grad(mid, out_err, &layers.second);
        &&& self.second.is_grad_step(mid, out_err, &layers.second, &before.second, &after.second)
        &&& self.first.is_grad_step(input, mid_err, &layers.first, &before.first, &after.first)
    }

    open spec fn is_cache(&self, input: <A::InputType as View>::V, layers: &ChainLayers<A, B>) -> bool {
        self.first.is_cache(input, &layers.first) && self.second.is_cache(
            layers.first.spec_output(),
            &layers.second,
        )
    }

    proof fn lemma_cache_output(&self, input: <A::InputType as View>::V, layers: &ChainLayers<A, B>) {
        self.first.lemma_cache_output(input, &layers.first);
        self.second.lemma_cache_output(layers.first.spec_output(), &layers.second);
    }

    proof fn lemma_cache_determines(
        &self,
        input: <A::InputType as View>::V,
        out_err: <B::OutputType as View>::V,
        l1: &ChainLayers<A, B>,
        l2: &ChainLayers<A, B>,
        before: &Self,
        after: &Self,
    ) {
        self.first.lemma_cache_output(input, &l1.first);
        self.first.lemma_cache_output(input, &l2.first);
        let mid = l1.first.spec_output();
        self.second.lemma_cache_determines(mid, out_err, &l1.second, &l2.second, &before.second, &after.second);
        let mid_err = self.second.spec_input_grad(mid, out_err, &l1.second);
        self.first.lemma_cache_determines(input, mid_err, &l1.first, &l2.first, &before.first, &after.first);
    }

    open spec fn spec_input_grad(
        &self,
        input: <A::InputType as View>::V,
        out_err: <B::OutputType as View>::V,
        layers: &ChainLayers<A, B>,
    ) -> <A::InputType as View>::V {
        let mid = layers.first.spec_output();
        let mid_err = self.second.spec_input_grad(mid, out_err, &layers.second);
        self.first.spec_input_grad(input, mid_err, &layers.first)
    }

    open spec fn spec_lanes(&self) -> Seq<i32> {
        self.first.spec_lanes() + self.second.spec_lanes()
    }

    open spec fn lane_count() -> nat {
        A::lane_count() + B::lane_count()
    }

    proof fn lemma_lane_count(&self) {
        self.first.lemma_lane_count();
        self.second.lemma_lane_count();
    }

    proof fn lemma_lanes_determine_out(&self, other: &Self, input: <A::InputType as View>::V) {
        self.first.lemma_lane_count();
        other.first.lemma_lane_count();
        lemma_split(self.first.spec_lanes(), self.second.spec_lanes(), other.first.spec_lanes(), other.second.spec_lanes());
        self.first.lemma_lanes_determine_out(&other.first, input);
        self.second.lemma_lanes_determine_out(&other.second, self.first.spec_out(input));
    }

    fn lane_len() -> (r: Option<usize>) {
        match A::lane_len() {
            None => None,
            Some(x) => match B::lane_len() {
                None => None,
                Some(y) => x.checked_add(y),
            },
        }
    }

    fn write_lanes(&self, out: &mut Vec<i32>) {
        let ghost start = out@;
        self.first.write_lanes(out);
        self.second.write_lanes(out);
        assert(out@ =~= start + self.spec_lanes());
    }

    fn read_lanes(&mut self, src: &Vec<i32>, pos: usize) -> (next: usize) {
        let mid = self.first.read_lanes(src, pos);
        let next = self.second.read_lanes(src, mid);
        assert(self.spec_lanes() =~= src@.subrange(pos as int, next as int));
        next
    }

    fn zeroed() -> (r: Self) {
        Chain { first: A::zeroed(), second: B::zeroed() }
    }

    fn add_assign(&mut self, rhs: &Self) {
        self.first.add_assign(&rhs.first);
        self.second.add_assign(&rhs.second);
    }

    fn out_with_layers(&self, input: &A::InputType) -> (r: ChainLayers<A, B>) {
        let first = self.first.out_with_layers(input);
        let mid = first.output_layer();
        let second = self.second.out_with_layers(&mid);
        let r = ChainLayers::<A, B> { first, second };
        assert(self.first.is_cache(input@, &r.first));
        assert(self.second.is_cache(r.first.spec_output(), &r.second));
        assert(self.is_cache(input@, &r));
        assert(r.spec_output() == r.second.spec_output());
        r
    }

    fn backprop(
        &self,
        input: &A::InputType,
        grad: &mut Self,
        out_err: B::OutputType,
        layers: &ChainLayers<A, B>,
    ) -> (r: A::InputType) {
        let mid = layers.first.output_layer();
        let mid_err = self.second.backprop(&mid, &mut grad.second, out_err, &layers.second);
        self.first.backprop(input, &mut grad.first, mid_err, &layers.first)
    }
}

/// Incremental evaluation of a chain that starts with a sparse layer.
///
/// A caller keeps the sparse layer's pre-activation in an accumulator,
/// starting from its bias, toggles features with `add_feature` and
/// `sub_feature`, and finishes the evaluation with `out_from_first`.
impl<T, B, const M: usize, const N: usize> Chain<SparseConnected<T, M, N>, B> where
    T: Activation,
    B: FeedForwardNetwork<InputType = Vector<N>>,
 {
    pub fn add_feature(&self, acc: &mut Vector<N>, idx: usize)
        requires
            idx < M,
        ensures
            final(acc)@ == lanes_add(old(acc)@, self.first.weights@[idx as int]),
    {
        self.first.add_feature(acc, idx);
    }

    pub fn sub_feature(&self, acc: &mut Vector<N>, idx: usize)
        requires
            idx < M,
        ensures
            final(acc)@ == lanes_sub(old(acc)@, self.first.weights@[idx as int]),
    {
        self.first.sub_feature(acc, idx);
    }

    /// Runs the rest of the chain on the activated accumulator.
    pub fn out_from_first(&self, acc: &Vector<N>) -> (r: B::OutputType)
        requires
            B::accepts(lanes_activate::<T>(acc@)),
        ensures
            r@ == self.second.spec_out(lanes_activate::<T>(acc@)),
            forall|active: Seq<usize>|
                acc@ == sparse_pre(self.first.weights@, self.first.bias@, active) ==> r@
                    == #[trigger] self.spec_out(active),
    {
        let x = acc.activate::<T>();
        self.second.out(&x)
    }
}

} // verus!
