//! Two structurally identical networks, one per side, each evaluated on
//! its own sparse input. The caller combines their single outputs.
use vstd::prelude::*;
use crate::network::FeedForwardNetwork;
use crate::network::OutputLayer;
use crate::vector::Vector;

verus! {

broadcast use vstd::array::group_array_axioms;

/// The network of the side to move (`own`) and of its opponent (`other`).
/// The two never share parameters or gradients.
pub struct Perspective<Net> {
    pub own: Net,
    pub other: Net,
}

/// The forward caches of both sides.
pub struct PerspectiveLayers<Net: FeedForwardNetwork> {
    pub own: Net::Layers,
    pub other: Net::Layers,
}

impl<Net> Perspective<Net> where Net: FeedForwardNetwork<OutputType = Vector<1>> {
    pub fn from_raw(own: Net, other: Net) -> (r: Self)
        ensures
            r.own == own,
            r.other == other,
    {
        Perspective { own, other }
    }

    pub fn zeroed() -> (r: Self)
        ensures
            r.own.is_zero(),
            r.other.is_zero(),
    {
        Perspective { own: Net::zeroed(), other: Net::zeroed() }
    }

    /// Gradient accumulation, side by side.
    pub fn add_assign(&mut self, rhs: &Self)
        ensures
            final(self).own.is_sum(&old(self).own, &rhs.own),
            final(self).other.is_sum(&old(self).other, &rhs.other),
    {
        self.own.add_assign(&rhs.own);
        self.other.add_assign(&rhs.other);
    }

    pub fn out_with_layers(
        &self,
        own_input: &Net::InputType,
        other_input: &Net::InputType,
    ) -> (r: PerspectiveLayers<Net>)
        requires
            Net::accepts(own_input@),
            Net::accepts(other_input@),
        ensures
            self.own.is_cache(own_input@, &r.own),
            self.other.is_cache(other_input@, &r.other),
            r.own.spec_output() == self.own.spec_out(own_input@),
            r.other.spec_output() == self.other.spec_out(other_input@),
    {
        let own = self.own.out_with_layers(own_input);
        let other = self.other.out_with_layers(other_input);
        PerspectiveLayers { own, other }
    }

    /// The single output of each side.
    pub fn out(&self, own_input: &Net::InputType, other_input: &Net::InputType) -> (r: (i32, i32))
        requires
            Net::accepts(own_input@),
            Net::accepts(other_input@),
        ensures
            r.0 == self.own.spec_out(own_input@)[0],
            r.1 == self.other.spec_out(other_input@)[0],
    {
        let own = self.own.out(own_input);
        let other = self.other.out(other_input);
        (own.lanes[0], other.lanes[0])
    }

    /// Back-propagates one scalar error into each side independently;
    /// returns the input errors of both sides.
    pub fn backprop(
        &self,
        own_input: &Net::InputType,
        other_input: &Net::InputType,
        grad: &mut Self,
        err: i32,
        layers: &PerspectiveLayers<Net>,
    ) -> (r: (Net::InputType, Net::InputType))
        requires
            Net::accepts(own_input@),
            Net::accepts(other_input@),
        ensures
            self.own.is_grad_step(own_input@, seq![err], &layers.own, &old(grad).own, &final(grad).own),
            self.other.is_grad_step(
                other_input@,
                seq![err],
                &layers.other,
                &old(grad).other,
                &final(grad).other,
            ),
            r.0@ == self.own.spec_input_grad(own_input@, seq![err], &layers.own),
            r.1@ == self.other.spec_input_grad(other_input@, seq![err], &layers.other),
    {
        let e = Vector::from_raw([err]);
        assert(e@ =~= seq![err]);
        let own = self.own.backprop(own_input, &mut grad.own, e, &layers.own);
        let other = self.other.backprop(other_input, &mut grad.other, e, &layers.other);
        (own, other)
    }
}

} // verus!
