use vstd::prelude::*;

use crate::control::control_utils::ControlTarget;
use crate::dsp::{all_wf, Dsp, DspKind};
use crate::text::{split, split_char, str_eq, trim, trim_ws};
use crate::{SYSTEM_DSP_BUFFER_LENGTH, SYSTEM_DSP_CHANNELS, SYSTEM_DSP_CHANNEL_BUFFER};

verus! {

broadcast use vstd::array::group_array_axioms;

/// `chs` holds, channel by channel, the frames of the interleaved `frames`:
/// sample `i` of channel `c` is `frames[2 * i + c]`.
pub open spec fn deinterleaves(
    frames: [i32; SYSTEM_DSP_BUFFER_LENGTH],
    chs: [[i32; SYSTEM_DSP_CHANNEL_BUFFER]; SYSTEM_DSP_CHANNELS],
) -> bool {
    forall|c: int, i: int|
        0 <= c < SYSTEM_DSP_CHANNELS && 0 <= i < SYSTEM_DSP_CHANNEL_BUFFER ==> #[trigger] chs[c][i]
            == frames[SYSTEM_DSP_CHANNELS * i + c]
}

/// `frames` interleaves the channels `chs`: entry `k` is sample `k / 2` of
/// channel `k % 2`.
pub open spec fn interleaves(
    chs: [[i32; SYSTEM_DSP_CHANNEL_BUFFER]; SYSTEM_DSP_CHANNELS],
    frames: [i32; SYSTEM_DSP_BUFFER_LENGTH],
) -> bool {
    forall|k: int|
        0 <= k < SYSTEM_DSP_BUFFER_LENGTH ==> #[trigger] frames[k] == chs[k
            % SYSTEM_DSP_CHANNELS as int][k / SYSTEM_DSP_CHANNELS as int]
}

/// One block of audio split into one buffer per channel.
#[derive(Copy, Clone, Debug)]
pub struct NonInterleavedBuffer {
    pub buf: [[i32; SYSTEM_DSP_CHANNEL_BUFFER]; SYSTEM_DSP_CHANNELS],
    pub index: usize,
}

impl NonInterleavedBuffer {
    /// Splits an interleaved block (left, right, left, right, ...) into one
    /// buffer per channel.
    pub fn deinterleave(i_buffer: &[i32; SYSTEM_DSP_BUFFER_LENGTH]) -> (r: Self)
        ensures
            deinterleaves(*i_buffer, r.buf),
            r.index == 0,
    {
        let mut n_buffers: [[i32; SYSTEM_DSP_CHANNEL_BUFFER]; SYSTEM_DSP_CHANNELS] = [[0i32; 128]; 2];
        let mut c: usize = 0;
        while c < SYSTEM_DSP_CHANNELS
            invariant
                c <= SYSTEM_DSP_CHANNELS,
                forall|d: int, i: int|
                    0 <= d < c && 0 <= i < SYSTEM_DSP_CHANNEL_BUFFER ==> #[trigger] n_buffers[d][i]
                        == i_buffer[SYSTEM_DSP_CHANNELS * i + d],
            decreases SYSTEM_DSP_CHANNELS - c,
        {
            let mut row: [i32; SYSTEM_DSP_CHANNEL_BUFFER] = [0i32; 128];
            let mut i: usize = 0;
            while i < SYSTEM_DSP_CHANNEL_BUFFER
                invariant
                    c < SYSTEM_DSP_CHANNELS,
                    i <= SYSTEM_DSP_CHANNEL_BUFFER,
                    forall|j: int| 0 <= j < i ==> #[trigger] row[j] == i_buffer[SYSTEM_DSP_CHANNELS * j + c],
                decreases SYSTEM_DSP_CHANNEL_BUFFER - i,
            {
                row[i] = i_buffer[SYSTEM_DSP_CHANNELS * i + c];
                i = i + 1;
            }
            n_buffers[c] = row;
            c = c + 1;
        }
        NonInterleavedBuffer { buf: n_buffers, index: 0 }
    }

    /// Joins the channel buffers back into one interleaved block.
    pub fn interleave(&mut self) -> (r: [i32; SYSTEM_DSP_BUFFER_LENGTH])
        ensures
            *final(self) == *old(self),
            interleaves(old(self).buf, r),
    {
        let mut o_buffer: [i32; SYSTEM_DSP_BUFFER_LENGTH] = [0i32; 256];
        let mut k: usize = 0;
        while k < SYSTEM_DSP_BUFFER_LENGTH
            invariant
                k <= SYSTEM_DSP_BUFFER_LENGTH,
                forall|j: int|
                    0 <= j < k ==> #[trigger] o_buffer[j] == self.buf[j
                        % SYSTEM_DSP_CHANNELS as int][j / SYSTEM_DSP_CHANNELS as int],
            decreases SYSTEM_DSP_BUFFER_LENGTH - k,
        {
            let c: usize = k % SYSTEM_DSP_CHANNELS;
            let i: usize = k / SYSTEM_DSP_CHANNELS;
            o_buffer[k] = self.buf[c][i];
            k = k + 1;
        }
        o_buffer
    }

    /// Steps through the channel buffers, one call at a time:
    /// it yields the buffer at `index` and moves on, but at the last channel
    /// it returns `None` and starts again from the first one.
    pub fn next_channel(&mut self) -> (r: Option<[i32; SYSTEM_DSP_CHANNEL_BUFFER]>)
        requires
            old(self).index < SYSTEM_DSP_CHANNELS,
        ensures
            final(self).buf == old(self).buf,
            old(self).index < SYSTEM_DSP_CHANNELS - 1 ==> r == Some(old(self).buf[old(self).index as int])
                && final(self).index == old(self).index + 1,
            old(self).index == SYSTEM_DSP_CHANNELS - 1 ==> r is None && final(self).index == 0,
    {
        let item = self.buf[self.index];
        if self.index < SYSTEM_DSP_CHANNELS - 1 {
            self.index = self.index + 1;
        } else {
            self.index = 0;
            return None;
        }
        Some(item)
    }
}

/// Interleaving the channels that a deinterleaving produced gives back the
/// block it came from.
pub proof fn lemma_interleave_deinterleave(
    frames: [i32; SYSTEM_DSP_BUFFER_LENGTH],
    chs: [[i32; SYSTEM_DSP_CHANNEL_BUFFER]; SYSTEM_DSP_CHANNELS],
    out: [i32; SYSTEM_DSP_BUFFER_LENGTH],
)
    requires
        deinterleaves(frames, chs),
        interleaves(chs, out),
    ensures
        out == frames,
{
    assert forall|k: int| 0 <= k < SYSTEM_DSP_BUFFER_LENGTH implies out[k] == frames[k] by {
        let c = k % SYSTEM_DSP_CHANNELS as int;
        let i = k / SYSTEM_DSP_CHANNELS as int;
        assert(chs[c][i] == frames[SYSTEM_DSP_CHANNELS * i + c]);
    }
    assert(out@ =~= frames@);
}

/// Deinterleaving an interleaved block gives back the channels it was made
/// of.
pub proof fn lemma_deinterleave_interleave(
    chs: [[i32; SYSTEM_DSP_CHANNEL_BUFFER]; SYSTEM_DSP_CHANNELS],
    frames: [i32; SYSTEM_DSP_BUFFER_LENGTH],
    chs2: [[i32; SYSTEM_DSP_CHANNEL_BUFFER]; SYSTEM_DSP_CHANNELS],
)
    requires
        interleaves(chs, frames),
        deinterleaves(frames, chs2),
    ensures
        chs2 == chs,
{
    assert forall|c: int| 0 <= c < SYSTEM_DSP_CHANNELS implies chs2[c] == chs[c] by {
        assert forall|i: int| 0 <= i < SYSTEM_DSP_CHANNEL_BUFFER implies chs2[c][i] == chs[c][i] by {
            let k = SYSTEM_DSP_CHANNELS * i + c;
            assert(frames[k] == chs[k % SYSTEM_DSP_CHANNELS as int][k / SYSTEM_DSP_CHANNELS as int]);
            assert(k % SYSTEM_DSP_CHANNELS as int == c);
            assert(k / SYSTEM_DSP_CHANNELS as int == i);
        }
        assert(chs2[c]@ =~= chs[c]@);
    }
    assert(chs2@ =~= chs@);
}

/// The states of a PCM stream.
#[derive(Clone, Copy, Debug, PartialEq, Eq, Structural)]
pub enum PcmState {
    Open,
    Setup,
    Prepared,
    Running,
    XRun,
    Draining,
    Paused,
    Suspended,
    Disconnected,
}

/// What the engine does after a read or a write, by the stream's state.
#[derive(Clone, Copy, Debug, PartialEq, Eq, Structural)]
pub enum StreamStep {
    /// The stream runs: go on.
    Ready,
    /// The stream is prepared: start it, then wait for the next block.
    Start,
    /// The stream is suspended or overran: wait for the next block.
    Recover,
}

/// The step the engine takes in each stream state; none for a state that
/// should not occur while streaming.
pub open spec fn stream_step_of(state: PcmState) -> Option<StreamStep> {
    match state {
        PcmState::Running => Some(StreamStep::Ready),
        PcmState::Prepared => Some(StreamStep::Start),
        PcmState::Suspended | PcmState::XRun => Some(StreamStep::Recover),
        _ => None,
    }
}

/// The step the engine takes in a stream state.
pub fn stream_step(state: PcmState) -> (r: Option<StreamStep>)
    ensures
        r == stream_step_of(state),
{
    match state {
        PcmState::Running => Some(StreamStep::Ready),
        PcmState::Prepared => Some(StreamStep::Start),
        PcmState::Suspended | PcmState::XRun => Some(StreamStep::Recover),
        _ => None,
    }
}

/// Kinds of mixing bus.
pub enum BusType {
    Master,
    Group,
    Aux,
    Track,
    DirectOut,
}

/// A reference to a buffer that lives elsewhere.
pub struct DspIo {
    pub buffer_index: u8,
}

/// A signal path.
pub struct Path {
    pub index: u8,
    pub label: Option<String>,
    pub leg_width: u8,
}

/// A mixing bus.
pub struct Bus {
    pub index: u8,
    pub label: Option<String>,
    pub leg_with: u8,
    pub bus_type: BusType,
}


/// The kind of slot that a name in the start-up list stands for.
pub open spec fn slot_kind_of(tok: Seq<char>) -> Option<DspKind> {
    if tok == "lpf"@ {
        Some(DspKind::LPF)
    } else if tok == "hpf"@ {
        Some(DspKind::HPF)
    } else if tok == "trim"@ {
        Some(DspKind::Trim)
    } else if tok == "band"@ {
        Some(DspKind::BF)
    } else if tok == "meter"@ {
        Some(DspKind::Meter)
    } else if tok == "eq"@ {
        Some(DspKind::EQ)
    } else {
        None
    }
}

/// The slots of one kind: one per channel, in channel order.
pub open spec fn kind_slots<F: Copy>(kind: DspKind, unity: F) -> Seq<Dsp<F>> {
    Seq::new(SYSTEM_DSP_CHANNELS as nat, |c: int| Dsp::spec_new_slot(kind, c as u8, unity))
}

/// The slots that a list of names sets up, or `None` when a name is
/// unknown.
pub open spec fn init_slots<F: Copy>(toks: Seq<Seq<char>>, unity: F) -> Option<Seq<Dsp<F>>>
    decreases toks.len(),
{
    if toks.len() == 0 {
        Some(Seq::empty())
    } else {
        match init_slots(toks.drop_last(), unity) {
            None => None,
            Some(prev) => match slot_kind_of(toks.last()) {
                None => None,
                Some(k) => Some(prev + kind_slots(k, unity)),
            },
        }
    }
}

proof fn lemma_init_slots_prefix_fails<F: Copy>(toks: Seq<Seq<char>>, unity: F, j: int)
    requires
        0 <= j <= toks.len(),
        init_slots(toks.take(j), unity) is None,
    ensures
        init_slots(toks, unity) is None,
    decreases toks.len() - j,
{
    if j < toks.len() {
        assert(toks.take(j + 1).drop_last() =~= toks.take(j));
        lemma_init_slots_prefix_fails(toks, unity, j + 1);
    } else {
        assert(toks.take(j) =~= toks);
    }
}

/// A name of the start-up list that stands for a slot kind.
pub open spec fn known_slot_name(tok: Seq<char>) -> bool {
    tok == "lpf"@ || tok == "hpf"@ || tok == "trim"@ || tok == "band"@ || tok == "meter"@ || tok
        == "eq"@
}

/// `d` is the slot that the name `tok` sets up on channel `c`: a low-pass at
/// 20 kHz, a high-pass at 20 Hz, a band filter at 500 Hz with gain and Q
/// `unity`, each of these not bypassed; a trim with gain `unity`; a meter;
/// an equaliser with its six bands at 120, 340, 600, 1500, 3000 and 20000 Hz.
pub open spec fn starts_as<F>(d: Dsp<F>, tok: Seq<char>, c: u8, unity: F) -> bool {
    if tok == "lpf"@ {
        d == Dsp::LPF(
            crate::dsp::filter::LPF {
                index: c,
                freq: ControlTarget::<F>::freq(20000),
                bypass: ControlTarget::<F>::bypass(false),
            },
        )
    } else if tok == "hpf"@ {
        d == Dsp::HPF(
            crate::dsp::filter::HPF {
                index: c,
                freq: ControlTarget::<F>::freq(20),
                bypass: ControlTarget::<F>::bypass(false),
            },
        )
    } else if tok == "trim"@ {
        d == Dsp::Trim(crate::dsp::trim::Trim { index: c, amp: ControlTarget::<F>::amp(unity) })
    } else if tok == "band"@ {
        d == Dsp::BF(
            crate::dsp::band::BF {
                index: c,
                freq: ControlTarget::<F>::freq(500),
                bypass: ControlTarget::<F>::bypass(false),
                amp: ControlTarget::<F>::amp(unity),
                q: ControlTarget::<F>::q(unity),
            },
        )
    } else if tok == "meter"@ {
        d == Dsp::<F>::Meter(crate::dsp::metering::Meter { index: c })
    } else if tok == "eq"@ {
        d matches Dsp::EQ(e) && e.index == c && e.band1.freq == ControlTarget::<F>::freq(120)
            && e.band2.freq == ControlTarget::<F>::freq(340) && e.band3.freq == ControlTarget::<F>::freq(600)
            && e.band4.freq == ControlTarget::<F>::freq(1500) && e.band5.freq == ControlTarget::<F>::freq(3000)
            && e.band6.freq == ControlTarget::<F>::freq(20000)
    } else {
        false
    }
}

/// The start-up list sets up slots exactly when every name in it is known;
/// it then holds two slots per name, in order, the first on channel 0 and the
/// second on channel 1, each as `starts_as` describes (in particular, the
/// older filters start active).
pub proof fn lemma_init_slots_law<F: Copy>(toks: Seq<Seq<char>>, unity: F)
    ensures
        (init_slots(toks, unity) is Some) <==> (forall|i: int| 0 <= i < toks.len() ==> #[trigger] known_slot_name(toks[i])),
        init_slots(toks, unity) matches Some(s) ==> {
            &&& s.len() == 2 * toks.len()
            &&& forall|j: int| 0 <= j < s.len() ==> #[trigger] starts_as(s[j], toks[j / 2], (j % 2) as u8, unity)
        },
    decreases toks.len(),
{
    reveal_strlit("lpf");
    reveal_strlit("hpf");
    reveal_strlit("trim");
    reveal_strlit("band");
    reveal_strlit("meter");
    reveal_strlit("eq");
    if toks.len() > 0 {
        let prev = toks.drop_last();
        lemma_init_slots_law(prev, unity);
        assert forall|i: int| 0 <= i < prev.len() implies #[trigger] prev[i] == toks[i] by {}
        if (forall|i: int| 0 <= i < toks.len() ==> #[trigger] known_slot_name(toks[i])) {
            assert forall|i: int| 0 <= i < prev.len() implies #[trigger] known_slot_name(prev[i]) by {
                assert(known_slot_name(toks[i]));
            }
            assert(known_slot_name(toks[toks.len() - 1]));
        }
        if !(forall|i: int| 0 <= i < toks.len() ==> #[trigger] known_slot_name(toks[i])) {
            let i = choose|i: int| 0 <= i < toks.len() && !known_slot_name(#[trigger] toks[i]);
            if i < prev.len() {
                assert(!known_slot_name(prev[i]));
            }
        }
        if let Some(s) = init_slots(toks, unity) {
            let ps = init_slots(prev, unity)->0;
            let k = slot_kind_of(toks.last());
            assert(s == ps + kind_slots(k->0, unity));
            assert forall|j: int| 0 <= j < s.len() implies #[trigger] starts_as(s[j], toks[j / 2], (j % 2) as u8, unity) by {
                if j < ps.len() {
                    assert(starts_as(ps[j], prev[j / 2], (j % 2) as u8, unity));
                    assert(prev[j / 2] == toks[j / 2]);
                    assert(s[j] == ps[j]);
                } else {
                    assert(ps.len() == 2 * prev.len());
                    assert(j / 2 == toks.len() - 1);
                    assert(toks[j / 2] == toks.last());
                    let c = (j - ps.len()) as u8;
                    assert(c == (j % 2) as u8);
                    assert(s[j] == kind_slots(k->0, unity)[j - ps.len()]);
                    assert(s[j] == Dsp::spec_new_slot(k->0, c, unity));
                    let t = toks.last();
                    if t == "lpf"@ {
                        assert(k->0 == DspKind::LPF);
                    } else if t == "hpf"@ {
                        assert(k->0 == DspKind::HPF);
                    } else if t == "trim"@ {
                        assert(k->0 == DspKind::Trim);
                    } else if t == "band"@ {
                        assert(k->0 == DspKind::BF);
                    } else if t == "meter"@ {
                        assert(k->0 == DspKind::Meter);
                    } else if t == "eq"@ {
                        assert(k->0 == DspKind::EQ);
                    }
                    assert(starts_as(s[j], t, c, unity));
                }
            }
        }
    }
}

/// The kind of slot a name stands for.
fn slot_kind(tok: &str) -> (r: Option<DspKind>)
    ensures
        r == slot_kind_of(tok@),
{
    if str_eq(tok, "lpf") {
        Some(DspKind::LPF)
    } else if str_eq(tok, "hpf") {
        Some(DspKind::HPF)
    } else if str_eq(tok, "trim") {
        Some(DspKind::Trim)
    } else if str_eq(tok, "band") {
        Some(DspKind::BF)
    } else if str_eq(tok, "meter") {
        Some(DspKind::Meter)
    } else if str_eq(tok, "eq") {
        Some(DspKind::EQ)
    } else {
        None
    }
}

/// Sets up the slots named in a comma-separated list (after trimming the
/// whole list): for each name in order, one slot per channel. Names are
/// `lpf`, `hpf`, `trim`, `band`, `meter` and `eq`; any other name, an
/// empty one included, makes the whole set-up fail. `unity` is the value one
/// of `F`, the start gain and Q.
pub fn invoke_from_init<F: Copy>(init: String, unity: F) -> (r: Option<Vec<Dsp<F>>>)
    ensures
        ({
            let toks = split_char(trim_ws(init@), ',');
            match r {
                Some(v) => init_slots(toks, unity) == Some(v@),
                None => init_slots(toks, unity) is None,
            }
        }),
        r matches Some(v) ==> {
            &&& all_wf(v@)
            &&& v@.len() == SYSTEM_DSP_CHANNELS * split_char(trim_ws(init@), ',').len()
            &&& forall|j: int| 0 <= j < v@.len() ==> #[trigger] v@[j].channel() == j % SYSTEM_DSP_CHANNELS as int
            &&& forall|j: int| 0 <= j < v@.len() ==> #[trigger] starts_as(
                v@[j],
                split_char(trim_ws(init@), ',')[j / 2],
                (j % 2) as u8,
                unity,
            )
        },
        r is Some <==> forall|i: int| 0 <= i < split_char(trim_ws(init@), ',').len() ==> #[trigger] known_slot_name(
            split_char(trim_ws(init@), ',')[i],
        ),
{
    proof {
        lemma_init_slots_law(split_char(trim_ws(init@), ','), unity);
    }
    let trimmed = trim(init.as_str());
    let toks = split(trimmed, ',');
    let ghost stoks = split_char(trim_ws(init@), ',');
    assert(toks@.map_values(|t: &str| t@) =~= stoks);
    let mut slots: Vec<Dsp<F>> = Vec::new();
    let mut k: usize = 0;
    assert(stoks.take(0) =~= Seq::<Seq<char>>::empty());
    while k < toks.len()
        invariant
            stoks == split_char(trim_ws(init@), ','),
            toks@.len() == stoks.len(),
            forall|m: int| 0 <= m < toks@.len() ==> #[trigger] toks@[m]@ == stoks[m],
            k <= toks@.len(),
            init_slots(stoks.take(k as int), unity) == Some(slots@),
            all_wf(slots@),
            slots@.len() == SYSTEM_DSP_CHANNELS * k,
            forall|j: int| 0 <= j < slots@.len() ==> #[trigger] slots@[j].channel() == j % SYSTEM_DSP_CHANNELS as int,
        decreases toks@.len() - k,
    {
        let ghost t = stoks.take(k + 1);
        assert(t.drop_last() =~= stoks.take(k as int));
        assert(t.last() == stoks[k as int]);
        match slot_kind(toks[k]) {
            None => {
                proof {
                    lemma_init_slots_prefix_fails(stoks, unity, k + 1);
                    lemma_init_slots_law(stoks, unity);
                }
                return None;
            },
            Some(kind) => {
                let ghost before = slots@;
                let mut c: usize = 0;
                while c < SYSTEM_DSP_CHANNELS
                    invariant
                        c <= SYSTEM_DSP_CHANNELS,
                        before.len() == SYSTEM_DSP_CHANNELS * k,
                        all_wf(slots@),
                        slots@ == before + kind_slots(kind, unity).take(c as int),
                        forall|j: int| 0 <= j < slots@.len() ==> #[trigger] slots@[j].channel() == j % SYSTEM_DSP_CHANNELS as int,
                    decreases SYSTEM_DSP_CHANNELS - c,
                {
                    let slot = Dsp::new_slot(kind, c as u8, unity);
                    slots.push(slot);
                    c = c + 1;
                    assert(kind_slots(kind, unity).take(c as int) =~= kind_slots(kind, unity).take(c - 1).push(slot));
                }
                assert(kind_slots(kind, unity).take(SYSTEM_DSP_CHANNELS as int) =~= kind_slots(kind, unity));
            },
        }
        k = k + 1;
    }
    assert(stoks.take(toks@.len() as int) =~= stoks);
    Some(slots)
}

} // verus!
