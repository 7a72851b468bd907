use vstd::prelude::*;

verus! {

/// A level meter slot.
#[derive(Clone, Copy, Debug, PartialEq)]
pub struct Meter {
    pub index: u8,
}

impl Meter {
    /// A meter on channel `index`.
    pub fn new(index: u8) -> (r: Self)
        ensures
            r == (Meter { index }),
    {
        Meter { index }
    }
}

} // verus!
