use vstd::prelude::*;

verus! {

/// Phase of an advice column or a challenge.
///
/// Values are only built through the marker types `FirstPhase`,
/// `SecondPhase` and `ThirdPhase`, or by the library itself.
#[derive(Clone, Copy, Debug, PartialEq, Eq, Structural, PartialOrd, Ord, Hash)]
pub struct Phase(pub(crate) u8);

impl Phase {
    /// The number of this phase, counted from zero.
    pub open(crate) spec fn number(&self) -> u8 {
        self.0
    }

    /// The phase that comes right before this one, if any.
    pub fn prev(&self) -> (r: Option<Phase>)
        ensures
            self.number() == 0 ==> r is None,
            self.number() > 0 ==> r is Some && r->0.number() == self.number() - 1,
    {
        if self.0 == 0 {
            None
        } else {
            Some(Phase(self.0 - 1))
        }
    }
}

/// Conversion of a phase marker into its `Phase` value.
pub trait SealedPhase: Sized {
    /// The number of the phase that this marker stands for.
    spec fn phase_number(&self) -> u8;

    fn to_sealed(self) -> (r: Phase)
        ensures
            r.number() == self.phase_number(),
    ;
}

impl SealedPhase for Phase {
    open spec fn phase_number(&self) -> u8 {
        self.number()
    }

    fn to_sealed(self) -> (r: Phase) {
        self
    }
}

} // verus!
