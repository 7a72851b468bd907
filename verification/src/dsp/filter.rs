use vstd::prelude::*;

use crate::control::control_utils::ControlTarget;

verus! {

/// Parameters of a low-pass filter slot.
#[derive(Clone, Copy, Debug, PartialEq)]
pub struct LPF<F> {
    pub index: u8,
    pub freq: ControlTarget<F>,
    pub bypass: ControlTarget<F>,
}

/// Parameters of a high-pass filter slot.
#[derive(Clone, Copy, Debug, PartialEq)]
pub struct HPF<F> {
    pub index: u8,
    pub freq: ControlTarget<F>,
    pub bypass: ControlTarget<F>,
}

impl<F: Copy> LPF<F> {
    /// Each parameter holds the kind of value it is named for.
    pub open spec fn wf(&self) -> bool {
        &&& self.freq is freq
        &&& self.bypass is bypass
    }

    pub open spec fn spec_new(index: u8) -> Self {
        LPF { index, freq: ControlTarget::freq(20000), bypass: ControlTarget::bypass(false) }
    }

    /// A low-pass filter on channel `index`, at 20 kHz, not bypassed.
    pub fn new(index: u8) -> (r: Self)
        ensures
            r == Self::spec_new(index),
            r.wf(),
            r.index == index,
            r.freq == ControlTarget::<F>::freq(20000),
            r.bypass == ControlTarget::<F>::bypass(false),
    {
        LPF { index, freq: ControlTarget::freq(20000), bypass: ControlTarget::bypass(false) }
    }
}

impl<F: Copy> HPF<F> {
    /// Each parameter holds the kind of value it is named for.
    pub open spec fn wf(&self) -> bool {
        &&& self.freq is freq
        &&& self.bypass is bypass
    }

    pub open spec fn spec_new(index: u8) -> Self {
        HPF { index, freq: ControlTarget::freq(20), bypass: ControlTarget::bypass(false) }
    }

    /// A high-pass filter on channel `index`, at 20 Hz, not bypassed.
    pub fn new(index: u8) -> (r: Self)
        ensures
            r == Self::spec_new(index),
            r.wf(),
            r.index == index,
            r.freq == ControlTarget::<F>::freq(20),
            r.bypass == ControlTarget::<F>::bypass(false),
    {
        HPF { index, freq: ControlTarget::freq(20), bypass: ControlTarget::bypass(false) }
    }
}

} // verus!
