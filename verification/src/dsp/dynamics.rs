use vstd::prelude::*;

use crate::control::control_utils::ControlTarget;
use crate::SYSTEM_DSP_CHANNEL_BUFFER;

verus! {

/// Kind of dynamics processor.
#[allow(non_camel_case_types)]
#[derive(Clone, Copy, Debug, PartialEq, Eq, Structural)]
pub enum DynModel {
    compressor,
    limiter,
    brickwall,
}

/// Parameters of a dynamics slot.
#[derive(Clone, Copy, Debug, PartialEq)]
pub struct Dyn<F> {
    pub index: u8,
    pub model: DynModel,
    pub ratio: ControlTarget<F>,
    pub threshhold: ControlTarget<F>,
    pub attack: ControlTarget<F>,
    pub release: ControlTarget<F>,
    pub makeup: ControlTarget<F>,
    pub bypass: ControlTarget<F>,
}

impl<F: Copy> Dyn<F> {
    pub open spec fn spec_new_compressor(index: u8, unity: F) -> Self {
        Dyn {
            index,
            model: DynModel::compressor,
            ratio: ControlTarget::ratio(unity),
            threshhold: ControlTarget::thsh(0),
            attack: ControlTarget::atk(40),
            release: ControlTarget::rel(200),
            makeup: ControlTarget::amp(unity),
            bypass: ControlTarget::bypass(false),
        }
    }

    /// A compressor on channel `index`: ratio and make-up gain `unity` (the
    /// value one), threshold 0, attack 40, release 200, not bypassed.
    pub fn new_compressor(index: u8, unity: F) -> (r: Self)
        ensures
            r == Self::spec_new_compressor(index, unity),
    {
        Dyn {
            index,
            model: DynModel::compressor,
            ratio: ControlTarget::ratio(unity),
            threshhold: ControlTarget::thsh(0),
            attack: ControlTarget::atk(40),
            release: ControlTarget::rel(200),
            makeup: ControlTarget::amp(unity),
            bypass: ControlTarget::bypass(false),
        }
    }

    /// The compressor stage: it reads its settings and, as it stands, leaves
    /// the block and itself unchanged.
    pub fn compressor(&mut self, buffer: &mut [i32; SYSTEM_DSP_CHANNEL_BUFFER])
        ensures
            *final(self) == *old(self),
            *final(buffer) == *old(buffer),
    {
    }
}

} // verus!
