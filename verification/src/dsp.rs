//! Processing slots: what each one is, and which ones a block goes through.

use vstd::prelude::*;

use crate::audio_core::{interleaves, NonInterleavedBuffer};
use crate::control::control_utils::ControlTarget;
use crate::math_utils::{s24_to_i32, spec_s24_to_i32};
use crate::{SYSTEM_DSP_BUFFER_LENGTH, SYSTEM_DSP_CHANNELS, SYSTEM_DSP_CHANNEL_BUFFER};

pub mod band;
pub mod dynamics;
pub mod eq;
pub mod filter;
pub mod metering;
pub mod trim;

verus! {

broadcast use vstd::array::group_array_axioms;

/// One processing slot of the engine, with its parameters. LPF, HPF and BF
/// are the older filters that the equaliser replaces.
#[derive(Clone, Copy, Debug, PartialEq)]
pub enum Dsp<F> {
    LPF(filter::LPF<F>),
    HPF(filter::HPF<F>),
    BF(band::BF<F>),
    Trim(trim::Trim<F>),
    Meter(metering::Meter),
    EQ(eq::Eq<F>),
}

/// The kinds of processing slot.
#[derive(Clone, Copy, Debug, PartialEq, Eq, Structural)]
pub enum DspKind {
    LPF,
    HPF,
    BF,
    Trim,
    Meter,
    EQ,
}

impl<F: Copy> Dsp<F> {
    /// The slot's parameters each hold the kind of value they are named for.
    pub open spec fn wf(&self) -> bool {
        match self {
            Dsp::LPF(x) => x.wf(),
            Dsp::HPF(x) => x.wf(),
            Dsp::BF(x) => x.wf(),
            Dsp::Trim(x) => x.wf(),
            Dsp::Meter(_) => true,
            Dsp::EQ(x) => x.wf(),
        }
    }

    /// The channel the slot works on.
    pub open spec fn channel(&self) -> u8 {
        match self {
            Dsp::LPF(x) => x.index,
            Dsp::HPF(x) => x.index,
            Dsp::BF(x) => x.index,
            Dsp::Trim(x) => x.index,
            Dsp::Meter(x) => x.index,
            Dsp::EQ(x) => x.index,
        }
    }

    pub open spec fn kind(&self) -> DspKind {
        match self {
            Dsp::LPF(_) => DspKind::LPF,
            Dsp::HPF(_) => DspKind::HPF,
            Dsp::BF(_) => DspKind::BF,
            Dsp::Trim(_) => DspKind::Trim,
            Dsp::Meter(_) => DspKind::Meter,
            Dsp::EQ(_) => DspKind::EQ,
        }
    }

    /// Whether the slot processes blocks: the older filters only when not
    /// bypassed, every other slot always.
    pub open spec fn active(&self) -> bool {
        match self {
            Dsp::LPF(x) => !x.bypass->bypass_0,
            Dsp::HPF(x) => !x.bypass->bypass_0,
            Dsp::BF(x) => !x.bypass->bypass_0,
            _ => true,
        }
    }

    /// A freshly made slot of kind `kind` on channel `index`; `unity` is the
    /// value one of `F`.
    pub open spec fn spec_new_slot(kind: DspKind, index: u8, unity: F) -> Self {
        match kind {
            DspKind::LPF => Dsp::LPF(filter::LPF::spec_new(index)),
            DspKind::HPF => Dsp::HPF(filter::HPF::spec_new(index)),
            DspKind::BF => Dsp::BF(band::BF::spec_new(index, unity)),
            DspKind::Trim => Dsp::Trim(trim::Trim::spec_new(index, unity)),
            DspKind::Meter => Dsp::Meter(metering::Meter { index }),
            DspKind::EQ => Dsp::EQ(eq::Eq::spec_new(index, unity)),
        }
    }

    /// Makes a slot of kind `kind` on channel `index`.
    pub fn new_slot(kind: DspKind, index: u8, unity: F) -> (r: Self)
        ensures
            r == Self::spec_new_slot(kind, index, unity),
            r.wf(),
            r.channel() == index,
            r.kind() == kind,
    {
        match kind {
            DspKind::LPF => Dsp::LPF(filter::LPF::new(index)),
            DspKind::HPF => Dsp::HPF(filter::HPF::new(index)),
            DspKind::BF => Dsp::BF(band::BF::new(index, unity)),
            DspKind::Trim => Dsp::Trim(trim::Trim::new(index, unity)),
            DspKind::Meter => Dsp::Meter(metering::Meter::new(index)),
            DspKind::EQ => Dsp::EQ(eq::Eq::new(index, unity)),
        }
    }

    /// The kind of the slot.
    pub fn kind_of(&self) -> (r: DspKind)
        ensures
            r == self.kind(),
    {
        match self {
            Dsp::LPF(_) => DspKind::LPF,
            Dsp::HPF(_) => DspKind::HPF,
            Dsp::BF(_) => DspKind::BF,
            Dsp::Trim(_) => DspKind::Trim,
            Dsp::Meter(_) => DspKind::Meter,
            Dsp::EQ(_) => DspKind::EQ,
        }
    }

    /// Whether the slot runs on channel `channel`.
    pub fn runs_on(&self, channel: usize) -> (r: bool)
        requires
            self.wf(),
        ensures
            r == (self.channel() == channel && self.active()),
            r == runs_on_channel(*self, channel as int),
    {
        match self {
            Dsp::LPF(x) => channel == x.index as usize && !x.bypass.inner_bypass(),
            Dsp::HPF(x) => channel == x.index as usize && !x.bypass.inner_bypass(),
            Dsp::BF(x) => channel == x.index as usize && !x.bypass.inner_bypass(),
            Dsp::Trim(x) => channel == x.index as usize,
            Dsp::Meter(x) => channel == x.index as usize,
            Dsp::EQ(x) => channel == x.index as usize,
        }
    }
}

/// A slot runs on channel `c` when it is assigned to that channel and, for
/// the older filters (low-pass, high-pass, band), its bypass flag is false.
pub open spec fn runs_on_channel<F>(d: Dsp<F>, c: int) -> bool {
    match d {
        Dsp::LPF(x) => x.index == c && x.bypass == ControlTarget::<F>::bypass(false),
        Dsp::HPF(x) => x.index == c && x.bypass == ControlTarget::<F>::bypass(false),
        Dsp::BF(x) => x.index == c && x.bypass == ControlTarget::<F>::bypass(false),
        Dsp::Trim(x) => x.index == c,
        Dsp::Meter(x) => x.index == c,
        Dsp::EQ(x) => x.index == c,
    }
}

/// Every slot is well formed.
pub open spec fn all_wf<F: Copy>(slots: Seq<Dsp<F>>) -> bool {
    forall|j: int| 0 <= j < slots.len() ==> #[trigger] slots[j].wf()
}

/// Positions, in order, of the slots that process channel `c`.
pub open spec fn schedule_of<F: Copy>(slots: Seq<Dsp<F>>, c: int) -> Seq<usize>
    decreases slots.len(),
{
    if slots.len() == 0 {
        Seq::empty()
    } else {
        let prev = schedule_of(slots.drop_last(), c);
        if slots.last().channel() == c && slots.last().active() {
            prev.push((slots.len() - 1) as usize)
        } else {
            prev
        }
    }
}

/// The schedule of a channel lists, in increasing order, exactly the
/// positions of the slots that run on that channel: the older filters on it
/// whose bypass flag is false, and every other slot on it.
pub proof fn lemma_schedule_law<F: Copy>(slots: Seq<Dsp<F>>, c: int)
    requires
        all_wf(slots),
        slots.len() <= usize::MAX,
    ensures
        forall|j: int| 0 <= j < slots.len() ==> (schedule_of(slots, c).contains(j as usize) <==> #[trigger] runs_on_channel(slots[j], c)),
        forall|k: int| 0 <= k < schedule_of(slots, c).len() ==> #[trigger] schedule_of(slots, c)[k] < slots.len(),
        forall|k1: int, k2: int| 0 <= k1 < k2 < schedule_of(slots, c).len() ==> schedule_of(slots, c)[k1] < schedule_of(slots, c)[k2],
    decreases slots.len(),
{
    if slots.len() > 0 {
        let prev = slots.drop_last();
        assert(all_wf(prev)) by {
            assert forall|j: int| 0 <= j < prev.len() implies #[trigger] prev[j].wf() by {
                assert(prev[j] == slots[j]);
            }
        }
        lemma_schedule_law(prev, c);
        let sp = schedule_of(prev, c);
        let n = (slots.len() - 1) as usize;
        let last = slots.last();
        assert(last.wf()) by {
            assert(slots[slots.len() - 1].wf());
        }
        assert((last.channel() == c && last.active()) == runs_on_channel(last, c));
        assert forall|j: int| 0 <= j < slots.len() implies (schedule_of(slots, c).contains(j as usize) <==> #[trigger] runs_on_channel(slots[j], c)) by {
            if j < prev.len() {
                assert(prev[j] == slots[j]);
                if schedule_of(slots, c).contains(j as usize) {
                    let k = choose|k: int| 0 <= k < schedule_of(slots, c).len() && schedule_of(slots, c)[k] == j as usize;
                    if k < sp.len() {
                        assert(sp[k] == j as usize);
                    }
                }
                if sp.contains(j as usize) {
                    let k = choose|k: int| 0 <= k < sp.len() && sp[k] == j as usize;
                    assert(schedule_of(slots, c)[k] == j as usize);
                }
            } else {
                assert(j == n);
                if schedule_of(slots, c).contains(j as usize) {
                    let k = choose|k: int| 0 <= k < schedule_of(slots, c).len() && schedule_of(slots, c)[k] == j as usize;
                    if k < sp.len() {
                        assert(sp[k] < prev.len());
                    }
                }
                if runs_on_channel(last, c) {
                    assert(schedule_of(slots, c)[sp.len() as int] == n);
                }
            }
        }
    }
}

/// One block made ready for processing: the channel buffers, with every
/// sample sign-extended from 24 bits, and per channel the positions of the
/// slots that process it, in the order they run.
pub struct DspPass {
    pub channels: NonInterleavedBuffer,
    pub schedule: Vec<Vec<usize>>,
}

/// Positions of the slots that process channel `c`.
fn channel_schedule<F: Copy>(dsp_slots: &Vec<Dsp<F>>, c: usize) -> (r: Vec<usize>)
    requires
        all_wf(dsp_slots@),
    ensures
        r@ == schedule_of(dsp_slots@, c as int),
{
    let mut r: Vec<usize> = Vec::new();
    let mut j: usize = 0;
    assert(dsp_slots@.take(0) =~= Seq::<Dsp<F>>::empty());
    while j < dsp_slots.len()
        invariant
            all_wf(dsp_slots@),
            j <= dsp_slots@.len(),
            r@ == schedule_of(dsp_slots@.take(j as int), c as int),
        decreases dsp_slots@.len() - j,
    {
        let ghost t = dsp_slots@.take(j + 1);
        assert(t.drop_last() =~= dsp_slots@.take(j as int));
        assert(t.last() == dsp_slots@[j as int]);
        if dsp_slots[j].runs_on(c) {
            r.push(j);
        }
        j = j + 1;
    }
    assert(dsp_slots@.take(dsp_slots@.len() as int) =~= dsp_slots@);
    r
}

/// Prepares one interleaved block for the slots: splits it into channels,
/// sign-extends every sample from 24 bits, and lists for each channel the
/// slots that process it (those on that channel, bypassed older filters
/// left out), in slot order. The caller runs them and interleaves the
/// channels back.
pub fn dsp_handler<F: Copy>(buffer: &[i32; SYSTEM_DSP_BUFFER_LENGTH], dsp_slots: &Vec<Dsp<F>>) -> (r:
    DspPass)
    requires
        all_wf(dsp_slots@),
    ensures
        r.channels.index == 0,
        forall|c: int, i: int|
            0 <= c < SYSTEM_DSP_CHANNELS && 0 <= i < SYSTEM_DSP_CHANNEL_BUFFER ==> #[trigger] r.channels.buf[c][i]
                == spec_s24_to_i32(buffer[SYSTEM_DSP_CHANNELS * i + c]),
        r.schedule@.len() == SYSTEM_DSP_CHANNELS,
        forall|c: int| 0 <= c < SYSTEM_DSP_CHANNELS ==> #[trigger] r.schedule@[c]@ == schedule_of(dsp_slots@, c),
        forall|c: int, j: int|
            0 <= c < SYSTEM_DSP_CHANNELS && 0 <= j < dsp_slots@.len() ==> (r.schedule@[c]@.contains(j as usize)
                <==> #[trigger] runs_on_channel(dsp_slots@[j], c)),
{
    proof {
        assert forall|c: int, j: int|
            0 <= c < SYSTEM_DSP_CHANNELS && 0 <= j < dsp_slots@.len() implies (schedule_of(dsp_slots@, c).contains(j as usize)
                <==> #[trigger] runs_on_channel(dsp_slots@[j], c)) by {
            assert(dsp_slots.len() == dsp_slots@.len());
            lemma_schedule_law(dsp_slots@, c);
        }
    }
    let mut n_buffers = NonInterleavedBuffer::deinterleave(buffer);
    let ghost raw = n_buffers.buf;
    let mut schedule: Vec<Vec<usize>> = Vec::new();
    let mut c: usize = 0;
    while c < SYSTEM_DSP_CHANNELS
        invariant
            c <= SYSTEM_DSP_CHANNELS,
            all_wf(dsp_slots@),
            n_buffers.index == 0,
            forall|d: int, i: int|
                0 <= d < SYSTEM_DSP_CHANNELS && 0 <= i < SYSTEM_DSP_CHANNEL_BUFFER ==> #[trigger] raw[d][i]
                    == buffer[SYSTEM_DSP_CHANNELS * i + d],
            forall|d: int, i: int|
                0 <= d < c && 0 <= i < SYSTEM_DSP_CHANNEL_BUFFER ==> #[trigger] n_buffers.buf[d][i]
                    == spec_s24_to_i32(raw[d][i]),
            forall|d: int, i: int|
                c <= d < SYSTEM_DSP_CHANNELS && 0 <= i < SYSTEM_DSP_CHANNEL_BUFFER ==> #[trigger] n_buffers.buf[d][i]
                    == raw[d][i],
            schedule@.len() == c,
            forall|d: int| 0 <= d < c ==> #[trigger] schedule@[d]@ == schedule_of(dsp_slots@, d),
        decreases SYSTEM_DSP_CHANNELS - c,
    {
        let mut row = n_buffers.buf[c];
        let mut i: usize = 0;
        while i < SYSTEM_DSP_CHANNEL_BUFFER
            invariant
                c < SYSTEM_DSP_CHANNELS,
                i <= SYSTEM_DSP_CHANNEL_BUFFER,
                forall|j: int| 0 <= j < i ==> #[trigger] row[j] == spec_s24_to_i32(raw[c as int][j]),
                forall|j: int| i <= j < SYSTEM_DSP_CHANNEL_BUFFER ==> #[trigger] row[j] == raw[c as int][j],
            decreases SYSTEM_DSP_CHANNEL_BUFFER - i,
        {
            let s = s24_to_i32(&row[i]);
            row[i] = s;
            i = i + 1;
        }
        n_buffers.buf[c] = row;
        schedule.push(channel_schedule(dsp_slots, c));
        c = c + 1;
    }
    DspPass { channels: n_buffers, schedule }
}


/// A block that no slot processes comes back from a pass, once its channels
/// are interleaved again, as the input block sign-extended sample by sample.
pub proof fn lemma_unprocessed_pass(
    buffer: [i32; SYSTEM_DSP_BUFFER_LENGTH],
    channels: [[i32; SYSTEM_DSP_CHANNEL_BUFFER]; SYSTEM_DSP_CHANNELS],
    out: [i32; SYSTEM_DSP_BUFFER_LENGTH],
)
    requires
        forall|c: int, i: int|
            0 <= c < SYSTEM_DSP_CHANNELS && 0 <= i < SYSTEM_DSP_CHANNEL_BUFFER ==> #[trigger] channels[c][i]
                == spec_s24_to_i32(buffer[SYSTEM_DSP_CHANNELS * i + c]),
        interleaves(channels, out),
    ensures
        forall|k: int| 0 <= k < SYSTEM_DSP_BUFFER_LENGTH ==> #[trigger] out[k] == spec_s24_to_i32(buffer[k]),
{
    assert forall|k: int| 0 <= k < SYSTEM_DSP_BUFFER_LENGTH implies #[trigger] out[k] == spec_s24_to_i32(buffer[k]) by {
        let c = k % SYSTEM_DSP_CHANNELS as int;
        let i = k / SYSTEM_DSP_CHANNELS as int;
        assert(channels[c][i] == spec_s24_to_i32(buffer[SYSTEM_DSP_CHANNELS * i + c]));
        assert(SYSTEM_DSP_CHANNELS * i + c == k);
    }
}

} // verus!
