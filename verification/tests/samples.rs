use realtime_dsp::audio_core::NonInterleavedBuffer;
use realtime_dsp::math_utils::{clamp_s24, s24_to_i32};
use realtime_dsp::{SYSTEM_DSP_BUFFER_LENGTH, SYSTEM_DSP_CHANNEL_BUFFER};

#[test]
fn s24_positive_word_is_unchanged() {
    assert_eq!(s24_to_i32(&0x7f_ffff), 8388607);
    assert_eq!(s24_to_i32(&0), 0);
    assert_eq!(s24_to_i32(&1234), 1234);
}

#[test]
fn s24_negative_word_is_sign_extended() {
    assert_eq!(s24_to_i32(&0xff_ffff), -1);
    assert_eq!(s24_to_i32(&0x80_0000), -8388608);
    assert_eq!(s24_to_i32(&0x80_0001), -8388607);
}

#[test]
fn s24_signed_samples_are_left_alone() {
    assert_eq!(s24_to_i32(&-1), -1);
    assert_eq!(s24_to_i32(&-8388608), -8388608);
    assert_eq!(s24_to_i32(&-5), -5);
}

#[test]
fn clamp_s24_limits_both_ends() {
    let mut a = 9_000_000;
    clamp_s24(&mut a);
    assert_eq!(a, 8388607);
    let mut b = -9_000_000;
    clamp_s24(&mut b);
    assert_eq!(b, -8388608);
    let mut c = 42;
    clamp_s24(&mut c);
    assert_eq!(c, 42);
    let mut d = i32::MIN;
    clamp_s24(&mut d);
    assert_eq!(d, -8388608);
}

fn ramp() -> [i32; SYSTEM_DSP_BUFFER_LENGTH] {
    let mut b = [0i32; SYSTEM_DSP_BUFFER_LENGTH];
    for (k, s) in b.iter_mut().enumerate() {
        *s = (k as i32) * 3 - 100;
    }
    b
}

#[test]
fn deinterleave_splits_left_and_right() {
    let b = ramp();
    let n = NonInterleavedBuffer::deinterleave(&b);
    assert_eq!(n.index, 0);
    for i in 0..SYSTEM_DSP_CHANNEL_BUFFER {
        assert_eq!(n.buf[0][i], b[2 * i]);
        assert_eq!(n.buf[1][i], b[2 * i + 1]);
    }
}

#[test]
fn interleave_after_deinterleave_gives_back_the_block() {
    let b = ramp();
    let mut n = NonInterleavedBuffer::deinterleave(&b);
    let out = n.interleave();
    assert_eq!(out, b);
}

#[test]
fn deinterleave_after_interleave_gives_back_the_channels() {
    let mut buf = [[0i32; SYSTEM_DSP_CHANNEL_BUFFER]; 2];
    for i in 0..SYSTEM_DSP_CHANNEL_BUFFER {
        buf[0][i] = i as i32;
        buf[1][i] = -(i as i32) - 7;
    }
    let mut n = NonInterleavedBuffer { buf, index: 0 };
    let out = n.interleave();
    assert_eq!(out[0], 0);
    assert_eq!(out[1], -7);
    assert_eq!(out[3], -8);
    let back = NonInterleavedBuffer::deinterleave(&out);
    assert_eq!(back.buf, buf);
}

#[test]
fn next_channel_yields_first_channel_then_wraps() {
    let b = ramp();
    let mut n = NonInterleavedBuffer::deinterleave(&b);
    let first = n.next_channel();
    assert_eq!(first, Some(n.buf[0]));
    assert_eq!(n.index, 1);
    assert_eq!(n.next_channel(), None);
    assert_eq!(n.index, 0);
}

#[test]
fn sign_extension_twice_is_once() {
    for s in [0, 1, 0x7f_ffff, 0x80_0000, 0xff_ffff, 0x1ff_ffff, -1, -8388608, i32::MAX, i32::MIN, 0x0123_4567] {
        let once = s24_to_i32(&s);
        assert_eq!(s24_to_i32(&once), once);
    }
}

#[test]
fn clamped_sample_stays_clamped() {
    for s in [i32::MIN, -8388609, -8388608, 0, 8388607, 8388608, i32::MAX] {
        let mut a = s;
        clamp_s24(&mut a);
        assert!((-8388608..=8388607).contains(&a));
        let mut b = a;
        clamp_s24(&mut b);
        assert_eq!(a, b);
    }
}
