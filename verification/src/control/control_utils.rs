use vstd::prelude::*;

use crate::dsp::eq::EqModel;
use crate::text::str_eq;

verus! {

/// A parameter value of a processing slot. `F` is the numeric type of gains,
/// Q factors and ratios.
#[allow(non_camel_case_types)]
#[derive(Clone, Copy, Debug, PartialEq)]
pub enum ControlTarget<F> {
    bypass(bool),
    freq(i32),
    amp(F),
    q(F),
    ratio(F),
    thsh(i32),
    atk(i32),
    rel(i32),
    eqmodel(EqModel),
}

/// The model that a model name selects: `"hpf"`, `"lpf"`, and `Bell` for
/// anything else.
pub open spec fn eqmodel_of(s: Seq<char>) -> EqModel {
    if s == "hpf"@ {
        EqModel::HighPass
    } else if s == "lpf"@ {
        EqModel::LowPass
    } else {
        EqModel::Bell
    }
}

impl<F: Copy> ControlTarget<F> {
    pub fn bypass_from_bool(b: bool) -> (r: ControlTarget<F>)
        ensures
            r == ControlTarget::<F>::bypass(b),
    {
        ControlTarget::bypass(b)
    }

    pub fn freq_from_i32(freq: i32) -> (r: ControlTarget<F>)
        ensures
            r == ControlTarget::<F>::freq(freq),
    {
        ControlTarget::freq(freq)
    }

    /// The flag of a `bypass` value.
    pub fn inner_bypass(&self) -> (r: bool)
        requires
            self is bypass,
        ensures
            r == self->bypass_0,
    {
        match self {
            ControlTarget::bypass(b) => *b,
            _ => false,
        }
    }

    pub fn gain_from_f32(amp: F) -> (r: ControlTarget<F>)
        ensures
            r == ControlTarget::<F>::amp(amp),
    {
        ControlTarget::amp(amp)
    }

    pub fn q_from_f32(q: F) -> (r: ControlTarget<F>)
        ensures
            r == ControlTarget::<F>::q(q),
    {
        ControlTarget::q(q)
    }

    /// The filter model named by `s`.
    pub fn eqmodel_from_string(s: &str) -> (r: ControlTarget<F>)
        ensures
            r == ControlTarget::<F>::eqmodel(eqmodel_of(s@)),
    {
        if str_eq(s, "hpf") {
            ControlTarget::eqmodel(EqModel::HighPass)
        } else if str_eq(s, "lpf") {
            ControlTarget::eqmodel(EqModel::LowPass)
        } else {
            ControlTarget::eqmodel(EqModel::Bell)
        }
    }
}

} // verus!
