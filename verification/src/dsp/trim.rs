use vstd::prelude::*;

use crate::control::control_utils::ControlTarget;

verus! {

/// Parameters of an input gain (trim) slot.
#[derive(Clone, Copy, Debug, PartialEq)]
pub struct Trim<F> {
    pub index: u8,
    pub amp: ControlTarget<F>,
}

impl<F: Copy> Trim<F> {
    /// The gain parameter holds a gain.
    pub open spec fn wf(&self) -> bool {
        self.amp is amp
    }

    pub open spec fn spec_new(index: u8, unity: F) -> Self {
        Trim { index, amp: ControlTarget::amp(unity) }
    }

    /// A trim on channel `index` with gain `unity` (the value one).
    pub fn new(index: u8, unity: F) -> (r: Self)
        ensures
            r == Self::spec_new(index, unity),
            r.wf(),
            r.index == index,
            r.amp == ControlTarget::<F>::amp(unity),
    {
        Trim { index, amp: ControlTarget::amp(unity) }
    }
}

} // verus!
