use realtime_dsp::audio_core::{invoke_from_init, stream_step, PcmState, StreamStep};
use realtime_dsp::control::control_utils::ControlTarget;
use realtime_dsp::dsp::dynamics::{Dyn, DynModel};
use realtime_dsp::dsp::eq::{Band, EqModel};
use realtime_dsp::dsp::filter::{HPF, LPF};
use realtime_dsp::dsp::{dsp_handler, Dsp, DspKind};
use realtime_dsp::{SYSTEM_DSP_BUFFER_LENGTH, SYSTEM_DSP_CHANNEL_BUFFER};

fn kinds(v: &Vec<Dsp<f32>>) -> Vec<(DspKind, u8)> {
    v.iter()
        .map(|d| match d {
            Dsp::LPF(x) => (DspKind::LPF, x.index),
            Dsp::HPF(x) => (DspKind::HPF, x.index),
            Dsp::BF(x) => (DspKind::BF, x.index),
            Dsp::Trim(x) => (DspKind::Trim, x.index),
            Dsp::Meter(x) => (DspKind::Meter, x.index),
            Dsp::EQ(x) => (DspKind::EQ, x.index),
        })
        .collect()
}

#[test]
fn init_list_sets_up_one_slot_per_channel_in_order() {
    let slots = invoke_from_init("trim,lpf,hpf,band,meter".to_string(), 1.0f32).unwrap();
    assert_eq!(
        kinds(&slots),
        vec![
            (DspKind::Trim, 0),
            (DspKind::Trim, 1),
            (DspKind::LPF, 0),
            (DspKind::LPF, 1),
            (DspKind::HPF, 0),
            (DspKind::HPF, 1),
            (DspKind::BF, 0),
            (DspKind::BF, 1),
            (DspKind::Meter, 0),
            (DspKind::Meter, 1),
        ]
    );
    assert_eq!(slots[2], Dsp::LPF(LPF { index: 0, freq: ControlTarget::freq(20000), bypass: ControlTarget::bypass(false) }));
    assert_eq!(slots[5], Dsp::HPF(HPF { index: 1, freq: ControlTarget::freq(20), bypass: ControlTarget::bypass(false) }));
    match slots[0] {
        Dsp::Trim(t) => assert_eq!(t.amp, ControlTarget::amp(1.0)),
        _ => panic!("expected a trim"),
    }
    match slots[6] {
        Dsp::BF(b) => {
            assert_eq!(b.freq, ControlTarget::freq(500));
            assert_eq!(b.amp, ControlTarget::amp(1.0));
            assert_eq!(b.q, ControlTarget::q(1.0));
        },
        _ => panic!("expected a band filter"),
    }
}

#[test]
fn init_list_is_trimmed_as_a_whole() {
    let slots = invoke_from_init("  eq\n".to_string(), 1.0f32).unwrap();
    assert_eq!(kinds(&slots), vec![(DspKind::EQ, 0), (DspKind::EQ, 1)]);
    assert!(invoke_from_init("eq, meter".to_string(), 1.0f32).is_none());
}

#[test]
fn init_list_with_an_unknown_or_empty_name_fails() {
    assert!(invoke_from_init("trim,reverb".to_string(), 1.0f32).is_none());
    assert!(invoke_from_init("".to_string(), 1.0f32).is_none());
    assert!(invoke_from_init("trim,,meter".to_string(), 1.0f32).is_none());
    assert!(invoke_from_init("Trim".to_string(), 1.0f32).is_none());
}

#[test]
fn equaliser_starts_with_its_six_bands() {
    let slots = invoke_from_init("eq".to_string(), 1.0f32).unwrap();
    let e = match slots[1] {
        Dsp::EQ(e) => e,
        _ => panic!("expected an equaliser"),
    };
    assert_eq!(e.index, 1);
    assert_eq!(e.band1.extract_params(), (EqModel::HighPass, 120, 1.0, 1.0, true));
    assert_eq!(e.band2.extract_params(), (EqModel::Bell, 340, 1.0, 1.0, true));
    assert_eq!(e.band3.extract_params(), (EqModel::Bell, 600, 1.0, 1.0, true));
    assert_eq!(e.band4.extract_params(), (EqModel::Bell, 1500, 1.0, 1.0, true));
    assert_eq!(e.band5.extract_params(), (EqModel::Bell, 3000, 1.0, 1.0, true));
    assert_eq!(e.band6.extract_params(), (EqModel::LowPass, 20000, 1.0, 1.0, true));
}

#[test]
fn band_params_come_out_in_order() {
    let b = Band::new(
        ControlTarget::eqmodel(EqModel::Bell),
        ControlTarget::freq(880),
        ControlTarget::bypass(false),
        ControlTarget::amp(2.5f32),
        ControlTarget::q(0.7f32),
    );
    assert_eq!(b.extract_params(), (EqModel::Bell, 880, 2.5, 0.7, false));
}

#[test]
fn control_values_wrap_their_argument() {
    assert_eq!(ControlTarget::<f32>::bypass_from_bool(true), ControlTarget::bypass(true));
    assert_eq!(ControlTarget::<f32>::freq_from_i32(-3), ControlTarget::freq(-3));
    assert_eq!(ControlTarget::gain_from_f32(0.5f32), ControlTarget::amp(0.5));
    assert_eq!(ControlTarget::q_from_f32(4.0f32), ControlTarget::q(4.0));
    assert!(ControlTarget::<f32>::bypass(true).inner_bypass());
    assert!(!ControlTarget::<f32>::bypass(false).inner_bypass());
}

#[test]
fn eq_model_names() {
    assert_eq!(ControlTarget::<f32>::eqmodel_from_string("hpf"), ControlTarget::eqmodel(EqModel::HighPass));
    assert_eq!(ControlTarget::<f32>::eqmodel_from_string("lpf"), ControlTarget::eqmodel(EqModel::LowPass));
    assert_eq!(ControlTarget::<f32>::eqmodel_from_string("bell"), ControlTarget::eqmodel(EqModel::Bell));
    assert_eq!(ControlTarget::<f32>::eqmodel_from_string("shelf"), ControlTarget::eqmodel(EqModel::Bell));
    assert_eq!(ControlTarget::<f32>::eqmodel_from_string(" hpf"), ControlTarget::eqmodel(EqModel::Bell));
}

#[test]
fn compressor_defaults_and_no_op_stage() {
    let mut d = Dyn::new_compressor(1, 1.0f32);
    assert_eq!(d.model, DynModel::compressor);
    assert_eq!(d.ratio, ControlTarget::ratio(1.0));
    assert_eq!(d.threshhold, ControlTarget::thsh(0));
    assert_eq!(d.attack, ControlTarget::atk(40));
    assert_eq!(d.release, ControlTarget::rel(200));
    assert_eq!(d.makeup, ControlTarget::amp(1.0));
    assert_eq!(d.bypass, ControlTarget::bypass(false));
    let before = d;
    let mut block = [7i32; SYSTEM_DSP_CHANNEL_BUFFER];
    d.compressor(&mut block);
    assert_eq!(block, [7i32; SYSTEM_DSP_CHANNEL_BUFFER]);
    assert_eq!(d, before);
}

#[test]
fn handler_sign_extends_and_schedules_per_channel() {
    let mut slots = invoke_from_init("trim,lpf,meter".to_string(), 1.0f32).unwrap();
    // bypass the right-channel low-pass
    if let Dsp::LPF(ref mut l) = slots[3] {
        l.bypass = ControlTarget::bypass(true);
    }
    let mut block = [0i32; SYSTEM_DSP_BUFFER_LENGTH];
    block[0] = 0xff_ffff;
    block[1] = 0x12;
    block[3] = 0x80_0000;
    let pass = dsp_handler(&block, &slots);
    assert_eq!(pass.channels.index, 0);
    assert_eq!(pass.channels.buf[0][0], -1);
    assert_eq!(pass.channels.buf[1][0], 0x12);
    assert_eq!(pass.channels.buf[1][1], -8388608);
    assert_eq!(pass.schedule.len(), 2);
    assert_eq!(pass.schedule[0], vec![0, 2, 4]);
    assert_eq!(pass.schedule[1], vec![1, 5]);
}

#[test]
fn handler_with_no_slots_schedules_nothing() {
    let slots: Vec<Dsp<f32>> = Vec::new();
    let block = [5i32; SYSTEM_DSP_BUFFER_LENGTH];
    let mut pass = dsp_handler(&block, &slots);
    assert!(pass.schedule[0].is_empty() && pass.schedule[1].is_empty());
    assert_eq!(pass.channels.interleave(), block);
}

#[test]
fn stream_steps_by_state() {
    assert_eq!(stream_step(PcmState::Running), Some(StreamStep::Ready));
    assert_eq!(stream_step(PcmState::Prepared), Some(StreamStep::Start));
    assert_eq!(stream_step(PcmState::XRun), Some(StreamStep::Recover));
    assert_eq!(stream_step(PcmState::Suspended), Some(StreamStep::Recover));
    assert_eq!(stream_step(PcmState::Open), None);
    assert_eq!(stream_step(PcmState::Disconnected), None);
}
