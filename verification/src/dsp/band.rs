use vstd::prelude::*;

use crate::control::control_utils::ControlTarget;

verus! {

/// Parameters of a band (peaking) filter slot.
#[derive(Clone, Copy, Debug, PartialEq)]
pub struct BF<F> {
    pub index: u8,
    pub freq: ControlTarget<F>,
    pub bypass: ControlTarget<F>,
    pub amp: ControlTarget<F>,
    pub q: ControlTarget<F>,
}

impl<F: Copy> BF<F> {
    /// Each parameter holds the kind of value it is named for.
    pub open spec fn wf(&self) -> bool {
        &&& self.freq is freq
        &&& self.bypass is bypass
        &&& self.amp is amp
        &&& self.q is q
    }

    pub open spec fn spec_new(index: u8, unity: F) -> Self {
        BF {
            index,
            freq: ControlTarget::freq(500),
            bypass: ControlTarget::bypass(false),
            amp: ControlTarget::amp(unity),
            q: ControlTarget::q(unity),
        }
    }

    /// A band filter on channel `index` at 500 Hz, with gain and Q both
    /// `unity` (the value one), not bypassed.
    pub fn new(index: u8, unity: F) -> (r: Self)
        ensures
            r == Self::spec_new(index, unity),
            r.wf(),
            r.index == index,
            r.freq == ControlTarget::<F>::freq(500),
            r.bypass == ControlTarget::<F>::bypass(false),
            r.amp == ControlTarget::<F>::amp(unity),
            r.q == ControlTarget::<F>::q(unity),
    {
        BF {
            index,
            freq: ControlTarget::freq(500),
            bypass: ControlTarget::bypass(false),
            amp: ControlTarget::amp(unity),
            q: ControlTarget::q(unity),
        }
    }
}

} // verus!
