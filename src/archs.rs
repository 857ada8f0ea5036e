//! Concrete networks: one perspective of a two-perspective evaluator.
use vstd::prelude::*;
use crate::activation::{Identity, ReLU};
use crate::dense::{DenseConnected, DenseConnectedLayers};
use crate::network::{lemma_split, FeedForwardNetwork, OutputLayer};
use crate::sparse::{in_range, sparse_pre, SparseConnected, SparseConnectedLayers};
use crate::vector::{lanes_activate, lanes_add, lanes_sub, SparseVector, Vector};

verus! {

/// A single sparse feature transformer of 768 features into 16 outputs.
pub struct SubNet {
    pub ft: SparseConnected<ReLU, 768, 16>,
}

/// The forward cache of a `SubNet`.
pub struct SubNetLayers {
    pub ft: SparseConnectedLayers<16>,
}

impl OutputLayer for SubNetLayers {
    type Type = Vector<16>;

    open spec fn spec_output(&self) -> Seq<i32> {
        self.ft.spec_output()
    }

    fn output_layer(&self) -> (r: Vector<16>) {
        self.ft.output_layer()
    }
}

impl FeedForwardNetwork for SubNet {
    type InputType = SparseVector;

    type OutputType = Vector<16>;

    type Layers = SubNetLayers;

    open spec fn accepts(input: Seq<usize>) -> bool {
        in_range(input, 768)
    }

    open spec fn spec_out(&self, input: Seq<usize>) -> Seq<i32> {
        self.ft.spec_out(input)
    }

    open spec fn is_zero(&self) -> bool {
        self.ft.is_zero()
    }

    open spec fn is_sum(&self, a: &Self, b: &Self) -> bool {
        self.ft.is_sum(&a.ft, &b.ft)
    }

    open spec fn is_grad_step(
        &self,
        input: Seq<usize>,
        out_err: Seq<i32>,
        layers: &SubNetLayers,
        before: &Self,
        after: &Self,
    ) -> bool {
        self.ft.is_grad_step(input, out_err, &layers.ft, &before.ft, &after.ft)
    }

    open spec fn is_cache(&self, input: Seq<usize>, layers: &SubNetLayers) -> bool {
        self.ft.is_cache(input, &layers.ft)
    }

    proof fn lemma_cache_output(&self, input: Seq<usize>, layers: &SubNetLayers) {
        self.ft.lemma_cache_output(input, &layers.ft);
    }

    proof fn lemma_cache_determines(
        &self,
        input: Seq<usize>,
        out_err: Seq<i32>,
        l1: &SubNetLayers,
        l2: &SubNetLayers,
        before: &Self,
        after: &Self,
    ) {
        self.ft.lemma_cache_determines(input, out_err, &l1.ft, &l2.ft, &before.ft, &after.ft);
    }

    open spec fn spec_input_grad(
        &self,
        input: Seq<usize>,
        out_err: Seq<i32>,
        layers: &SubNetLayers,
    ) -> Seq<usize> {
        self.ft.spec_input_grad(input, out_err, &layers.ft)
    }

    open spec fn spec_lanes(&self) -> Seq<i32> {
        self.ft.spec_lanes()
    }

    open spec fn lane_count() -> nat {
        SparseConnected::<ReLU, 768, 16>::lane_count()
    }

    proof fn lemma_lane_count(&self) {
        self.ft.lemma_lane_count();
    }

    proof fn lemma_lanes_determine_out(&self, other: &Self, input: Seq<usize>) {
        self.ft.lemma_lanes_determine_out(&other.ft, input);
    }

    fn lane_len() -> (r: Option<usize>) {
        SparseConnected::<ReLU, 768, 16>::lane_len()
    }

    fn write_lanes(&self, out: &mut Vec<i32>) {
        self.ft.write_lanes(out);
    }

    fn read_lanes(&mut self, src: &Vec<i32>, pos: usize) -> (next: usize) {
        self.ft.read_lanes(src, pos)
    }

    fn zeroed() -> (r: Self) {
        SubNet { ft: SparseConnected::zeroed() }
    }

    fn add_assign(&mut self, rhs: &Self) {
        self.ft.add_assign(&rhs.ft);
    }

    fn out_with_layers(&self, input: &SparseVector) -> (r: SubNetLayers) {
        let ft = self.ft.out_with_layers(input);
        let r = SubNetLayers { ft };
        assert(self.ft.is_cache(input@, &r.ft));
        assert(self.is_cache(input@, &r));
        assert(r.spec_output() == r.ft.spec_output());
        r
    }

    fn backprop(
        &self,
        input: &SparseVector,
        grad: &mut Self,
        out_err: Vector<16>,
        layers: &SubNetLayers,
    ) -> (r: SparseVector) {
        self.ft.backprop(input, &mut grad.ft, out_err, &layers.ft)
    }
}

/// A sparse feature transformer of 768 features into 512 hidden lanes,
/// followed by a dense layer down to one output.
pub struct SideNet {
    pub ft: SparseConnected<ReLU, 768, 512>,
    pub l2: DenseConnected<Identity, 512, 1>,
}

/// The forward cache of a `SideNet`, one entry per layer.
pub struct SideNetLayers {
    pub ft: SparseConnectedLayers<512>,
    pub l2: DenseConnectedLayers<1>,
}

impl OutputLayer for SideNetLayers {
    type Type = Vector<1>;

    open spec fn spec_output(&self) -> Seq<i32> {
        self.l2.spec_output()
    }

    fn output_layer(&self) -> (r: Vector<1>) {
        self.l2.output_layer()
    }
}

impl FeedForwardNetwork for SideNet {
    type InputType = SparseVector;

    type OutputType = Vector<1>;

    type Layers = SideNetLayers;

    open spec fn accepts(input: Seq<usize>) -> bool {
        in_range(input, 768)
    }

    open spec fn spec_out(&self, input: Seq<usize>) -> Seq<i32> {
        self.l2.spec_out(self.ft.spec_out(input))
    }

    open spec fn is_zero(&self) -> bool {
        self.ft.is_zero() && self.l2.is_zero()
    }

    open spec fn is_sum(&self, a: &Self, b: &Self) -> bool {
        self.ft.is_sum(&a.ft, &b.ft) && self.l2.is_sum(&a.l2, &b.l2)
    }

    open spec fn is_grad_step(
        &self,
        input: Seq<usize>,
        out_err: Seq<i32>,
        layers: &SideNetLayers,
        before: &Self,
        after: &Self,
    ) -> bool {
        let mid = layers.ft.spec_output();
        let mid_err = self.l2.spec_input_grad(mid, out_err, &layers.l2);
        &&& self.l2.is_grad_step(mid, out_err, &layers.l2, &before.l2, &after.l2)
        &&& self.ft.is_grad_step(input, mid_err, &layers.ft, &before.ft, &after.ft)
    }

    open spec fn is_cache(&self, input: Seq<usize>, layers: &SideNetLayers) -> bool {
        self.ft.is_cache(input, &layers.ft) && self.l2.is_cache(layers.ft.spec_output(), &layers.l2)
    }

    proof fn lemma_cache_output(&self, input: Seq<usize>, layers: &SideNetLayers) {
        self.ft.lemma_cache_output(input, &layers.ft);
        self.l2.lemma_cache_output(layers.ft.spec_output(), &layers.l2);
    }

    proof fn lemma_cache_determines(
        &self,
        input: Seq<usize>,
        out_err: Seq<i32>,
        l1: &SideNetLayers,
        l2: &SideNetLayers,
        before: &Self,
        after: &Self,
    ) {
        self.ft.lemma_cache_output(input, &l1.ft);
        self.ft.lemma_cache_output(input, &l2.ft);
        let mid = l1.ft.spec_output();
        self.l2.lemma_cache_determines(mid, out_err, &l1.l2, &l2.l2, &before.l2, &after.l2);
        let mid_err = self.l2.spec_input_grad(mid, out_err, &l1.l2);
        self.ft.lemma_cache_determines(input, mid_err, &l1.ft, &l2.ft, &before.ft, &after.ft);
    }

    open spec fn spec_input_grad(
        &self,
        input: Seq<usize>,
        out_err: Seq<i32>,
        layers: &SideNetLayers,
    ) -> Seq<usize> {
        let mid = layers.ft.spec_output();
        let mid_err = self.l2.spec_input_grad(mid, out_err, &layers.l2);
        self.ft.spec_input_grad(input, mid_err, &layers.ft)
    }

    open spec fn spec_lanes(&self) -> Seq<i32> {
        self.ft.spec_lanes() + self.l2.spec_lanes()
    }

    open spec fn lane_count() -> nat {
        SparseConnected::<ReLU, 768, 512>::lane_count() + DenseConnected::<Identity, 512, 1>::lane_count()
    }

    proof fn lemma_lane_count(&self) {
        self.ft.lemma_lane_count();
        self.l2.lemma_lane_count();
    }

    proof fn lemma_lanes_determine_out(&self, other: &Self, input: Seq<usize>) {
        self.ft.lemma_lane_count();
        other.ft.lemma_lane_count();
        lemma_split(self.ft.spec_lanes(), self.l2.spec_lanes(), other.ft.spec_lanes(), other.l2.spec_lanes());
        self.ft.lemma_lanes_determine_out(&other.ft, input);
        self.l2.lemma_lanes_determine_out(&other.l2, self.ft.spec_out(input));
    }

    fn lane_len() -> (r: Option<usize>) {
        match SparseConnected::<ReLU, 768, 512>::lane_len() {
            None => None,
            Some(x) => match DenseConnected::<Identity, 512, 1>::lane_len() {
                None => None,
                Some(y) => x.checked_add(y),
            },
        }
    }

    fn write_lanes(&self, out: &mut Vec<i32>) {
        let ghost start = out@;
        self.ft.write_lanes(out);
        self.l2.write_lanes(out);
        assert(out@ =~= start + self.spec_lanes());
    }

    fn read_lanes(&mut self, src: &Vec<i32>, pos: usize) -> (next: usize) {
        let mid = self.ft.read_lanes(src, pos);
        let next = self.l2.read_lanes(src, mid);
        assert(self.spec_lanes() =~= src@.subrange(pos as int, next as int));
        next
    }

    fn zeroed() -> (r: Self) {
        SideNet { ft: SparseConnected::zeroed(), l2: DenseConnected::zeroed() }
    }

    fn add_assign(&mut self, rhs: &Self) {
        self.ft.add_assign(&rhs.ft);
        self.l2.add_assign(&rhs.l2);
    }

    fn out_with_layers(&self, input: &SparseVector) -> (r: SideNetLayers) {
        let ft = self.ft.out_with_layers(input);
        let l2 = self.l2.out_with_layers(&ft.output_layer());
        let r = SideNetLayers { ft, l2 };
        assert(self.ft.is_cache(input@, &r.ft));
        assert(self.l2.is_cache(r.ft.spec_output(), &r.l2));
        assert(self.is_cache(input@, &r));
        assert(r.spec_output() == r.l2.spec_output());
        r
    }

    fn backprop(
        &self,
        input: &SparseVector,
        grad: &mut Self,
        out_err: Vector<1>,
        layers: &SideNetLayers,
    ) -> (r: SparseVector) {
        let err = self.l2.backprop(&layers.ft.output_layer(), &mut grad.l2, out_err, &layers.l2);
        self.ft.backprop(input, &mut grad.ft, err, &layers.ft)
    }
}

impl SideNet {
    /// Incremental evaluation: feature `idx` becomes active.
    pub fn add_feature(&self, acc: &mut Vector<512>, idx: usize)
        requires
            idx < 768,
        ensures
            final(acc)@ == lanes_add(old(acc)@, self.ft.weights@[idx as int]),
    {
        self.ft.add_feature(acc, idx);
    }

    /// Incremental evaluation: feature `idx` stops being active.
    pub fn sub_feature(&self, acc: &mut Vector<512>, idx: usize)
        requires
            idx < 768,
        ensures
            final(acc)@ == lanes_sub(old(acc)@, self.ft.weights@[idx as int]),
    {
        self.ft.sub_feature(acc, idx);
    }

    /// The layers after the feature transformer, run on its accumulator.
    pub fn out_from_first(&self, acc: &Vector<512>) -> (r: Vector<1>)
        ensures
            r@ == self.l2.spec_out(lanes_activate::<ReLU>(acc@)),
            forall|active: Seq<usize>|
                acc@ == sparse_pre(self.ft.weights@, self.ft.bias@, active) ==> r@
                    == #[trigger] self.spec_out(active),
    {
        let x = acc.activate::<ReLU>();
        self.l2.out(&x)
    }
}

} // verus!
