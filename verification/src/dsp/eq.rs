use vstd::prelude::*;

use crate::control::control_utils::ControlTarget;

verus! {

/// Response of one equaliser band.
#[derive(Clone, Copy, Debug, PartialEq, Eq, Structural)]
pub enum EqModel {
    HighPass,
    LowPass,
    Bell,
}

/// Parameters of one equaliser band.
#[derive(Clone, Copy, Debug, PartialEq)]
pub struct Band<F> {
    pub model: ControlTarget<F>,
    pub freq: ControlTarget<F>,
    pub bypass: ControlTarget<F>,
    pub amp: ControlTarget<F>,
    pub q: ControlTarget<F>,
}

impl<F: Copy> Band<F> {
    /// Each parameter holds the kind of value it is named for.
    pub open spec fn wf(&self) -> bool {
        &&& self.model is eqmodel
        &&& self.freq is freq
        &&& self.bypass is bypass
        &&& self.amp is amp
        &&& self.q is q
    }

    pub fn new(
        model: ControlTarget<F>,
        freq: ControlTarget<F>,
        bypass: ControlTarget<F>,
        amp: ControlTarget<F>,
        q: ControlTarget<F>,
    ) -> (r: Self)
        ensures
            r == (Band { model, freq, bypass, amp, q }),
    {
        Band { model, freq, bypass, amp, q }
    }

    /// The band's settings: model, frequency, gain, Q and the bypass flag.
    pub fn extract_params(&self) -> (r: (EqModel, i32, F, F, bool))
        requires
            self.wf(),
        ensures
            r == (self.model->eqmodel_0, self.freq->freq_0, self.amp->amp_0, self.q->q_0,
                self.bypass->bypass_0),
    {
        match (self.model, self.freq, self.amp, self.q, self.bypass) {
            (
                ControlTarget::eqmodel(model),
                ControlTarget::freq(freq),
                ControlTarget::amp(amp),
                ControlTarget::q(q),
                ControlTarget::bypass(b),
            ) => (model, freq, amp, q, b),
            _ => vstd::pervasive::unreached(),
        }
    }
}


/// Parameters of a six-band equaliser slot.
#[derive(Clone, Copy, Debug, PartialEq)]
pub struct Eq<F> {
    pub index: u8,
    pub band1: Band<F>,
    pub band2: Band<F>,
    pub band3: Band<F>,
    pub band4: Band<F>,
    pub band5: Band<F>,
    pub band6: Band<F>,
}

/// The band an equaliser starts with: `model` at `freq`, flag set, gain and
/// Q `unity`.
pub open spec fn default_band<F>(model: EqModel, freq: i32, unity: F) -> Band<F> {
    Band {
        model: ControlTarget::eqmodel(model),
        freq: ControlTarget::freq(freq),
        bypass: ControlTarget::bypass(true),
        amp: ControlTarget::amp(unity),
        q: ControlTarget::q(unity),
    }
}

impl<F: Copy> Eq<F> {
    /// Every band is well formed.
    pub open spec fn wf(&self) -> bool {
        &&& self.band1.wf()
        &&& self.band2.wf()
        &&& self.band3.wf()
        &&& self.band4.wf()
        &&& self.band5.wf()
        &&& self.band6.wf()
    }

    pub open spec fn spec_new(index: u8, unity: F) -> Self {
        Eq {
            index,
            band1: default_band(EqModel::HighPass, 120, unity),
            band2: default_band(EqModel::Bell, 340, unity),
            band3: default_band(EqModel::Bell, 600, unity),
            band4: default_band(EqModel::Bell, 1500, unity),
            band5: default_band(EqModel::Bell, 3000, unity),
            band6: default_band(EqModel::LowPass, 20000, unity),
        }
    }

    /// An equaliser on channel `index`: a high-pass at 120 Hz, bells at 340,
    /// 600, 1500 and 3000 Hz and a low-pass at 20 kHz, each with gain and Q
    /// `unity` (the value one) and its flag set.
    pub fn new(index: u8, unity: F) -> (r: Self)
        ensures
            r == Self::spec_new(index, unity),
            r.wf(),
    {
        let one = ControlTarget::amp(unity);
        let q = ControlTarget::q(unity);
        let on = ControlTarget::bypass(true);
        Eq {
            index,
            band1: Band::new(ControlTarget::eqmodel(EqModel::HighPass), ControlTarget::freq(120), on, one, q),
            band2: Band::new(ControlTarget::eqmodel(EqModel::Bell), ControlTarget::freq(340), on, one, q),
            band3: Band::new(ControlTarget::eqmodel(EqModel::Bell), ControlTarget::freq(600), on, one, q),
            band4: Band::new(ControlTarget::eqmodel(EqModel::Bell), ControlTarget::freq(1500), on, one, q),
            band5: Band::new(ControlTarget::eqmodel(EqModel::Bell), ControlTarget::freq(3000), on, one, q),
            band6: Band::new(ControlTarget::eqmodel(EqModel::LowPass), ControlTarget::freq(20000), on, one, q),
        }
    }
}

} // verus!
