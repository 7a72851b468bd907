//! Commands of the socket control channel: `target:param:value` strings.

use vstd::prelude::*;

use crate::control::control_utils::ControlTarget;
use crate::dsp::{all_wf, Dsp, DspKind};
use crate::text::{parse_bool, parse_bool_spec, parse_i32, parse_i32_spec, split, split_char, str_eq, trim, trim_ws};

verus! {

/// The setting a socket command changes on each slot of its kind.
#[derive(Clone, Copy, Debug, PartialEq, Eq, Structural)]
pub enum ControlEdit {
    Bypass,
    Freq,
    Gain,
    Q,
    Unknown,
}

/// The kind of slot a socket command's target names.
pub open spec fn control_kind_of(target: Seq<char>) -> Option<DspKind> {
    if target == "lpf"@ {
        Some(DspKind::LPF)
    } else if target == "hpf"@ {
        Some(DspKind::HPF)
    } else if target == "trim"@ {
        Some(DspKind::Trim)
    } else if target == "band"@ {
        Some(DspKind::BF)
    } else {
        None
    }
}

/// The setting a parameter name selects on a kind of slot.
pub open spec fn control_edit_of(kind: DspKind, param: Seq<char>) -> ControlEdit {
    match kind {
        DspKind::LPF | DspKind::HPF => if param == "bypass"@ {
            ControlEdit::Bypass
        } else if param == "freq"@ {
            ControlEdit::Freq
        } else {
            ControlEdit::Unknown
        },
        DspKind::Trim => if param == "amp"@ {
            ControlEdit::Gain
        } else {
            ControlEdit::Unknown
        },
        _ => if param == "bypass"@ {
            ControlEdit::Bypass
        } else if param == "freq"@ {
            ControlEdit::Freq
        } else if param == "amp"@ {
            ControlEdit::Gain
        } else if param == "q"@ {
            ControlEdit::Q
        } else {
            ControlEdit::Unknown
        },
    }
}

/// The notice printed for each slot when a parameter name is unknown.
pub open spec fn unknown_param_notice(kind: DspKind) -> Seq<char> {
    match kind {
        DspKind::LPF => "Unknown parameters for lpf filter !!"@,
        DspKind::HPF => "Unknown parameters for hpf filter !!"@,
        DspKind::Trim => "Unknown parameters for trim !!"@,
        _ => "Unknown parameters for band filter !!"@,
    }
}

/// The value a socket command sets.
#[derive(Clone, Copy, Debug)]
pub enum ControlValue<F> {
    Flag(bool),
    Hz(i32),
    Level(F),
}

/// A slot after a socket command: the older filters take a flag or a
/// frequency, trims and band filters a gain, band filters a Q. Other slots,
/// and settings a slot does not have, stay as they are.
pub open spec fn control_slot<F>(slot: Dsp<F>, edit: ControlEdit, val: ControlValue<F>) -> Dsp<F> {
    match (slot, edit, val) {
        (Dsp::LPF(x), ControlEdit::Bypass, ControlValue::Flag(b)) => Dsp::LPF(crate::dsp::filter::LPF { bypass: ControlTarget::bypass(b), ..x }),
        (Dsp::LPF(x), ControlEdit::Freq, ControlValue::Hz(f)) => Dsp::LPF(crate::dsp::filter::LPF { freq: ControlTarget::freq(f), ..x }),
        (Dsp::HPF(x), ControlEdit::Bypass, ControlValue::Flag(b)) => Dsp::HPF(crate::dsp::filter::HPF { bypass: ControlTarget::bypass(b), ..x }),
        (Dsp::HPF(x), ControlEdit::Freq, ControlValue::Hz(f)) => Dsp::HPF(crate::dsp::filter::HPF { freq: ControlTarget::freq(f), ..x }),
        (Dsp::Trim(x), ControlEdit::Gain, ControlValue::Level(v)) => Dsp::Trim(crate::dsp::trim::Trim { amp: ControlTarget::amp(v), ..x }),
        (Dsp::BF(x), ControlEdit::Bypass, ControlValue::Flag(b)) => Dsp::BF(crate::dsp::band::BF { bypass: ControlTarget::bypass(b), ..x }),
        (Dsp::BF(x), ControlEdit::Freq, ControlValue::Hz(f)) => Dsp::BF(crate::dsp::band::BF { freq: ControlTarget::freq(f), ..x }),
        (Dsp::BF(x), ControlEdit::Gain, ControlValue::Level(v)) => Dsp::BF(crate::dsp::band::BF { amp: ControlTarget::amp(v), ..x }),
        (Dsp::BF(x), ControlEdit::Q, ControlValue::Level(v)) => Dsp::BF(crate::dsp::band::BF { q: ControlTarget::q(v), ..x }),
        _ => slot,
    }
}

/// Number of slots of a kind.
pub open spec fn count_kind<F: Copy>(slots: Seq<Dsp<F>>, kind: DspKind) -> nat
    decreases slots.len(),
{
    if slots.len() == 0 {
        0
    } else {
        count_kind(slots.drop_last(), kind) + if slots.last().kind() == kind {
            1nat
        } else {
            0
        }
    }
}

/// The slots with every slot of kind `kind` changed by `control_slot`.
pub open spec fn control_all<F: Copy>(
    slots: Seq<Dsp<F>>,
    kind: DspKind,
    edit: ControlEdit,
    val: ControlValue<F>,
) -> Seq<Dsp<F>> {
    slots.map_values(
        |s: Dsp<F>|
            if s.kind() == kind {
                control_slot(s, edit, val)
            } else {
                s
            },
    )
}

/// A socket command can be carried out: it has three `:`-separated parts,
/// and when slots of its kind exist, its value reads as the flag or the
/// frequency that the setting needs.
pub open spec fn control_command_ok<F: Copy>(s: Seq<char>, slots: Seq<Dsp<F>>) -> bool {
    let parts = split_char(s, ':');
    &&& parts.len() >= 3
    &&& match control_kind_of(trim_ws(parts[0])) {
        None => true,
        Some(kind) => {
            let edit = control_edit_of(kind, trim_ws(parts[1]));
            let value = trim_ws(parts[2]);
            count_kind(slots, kind) > 0 ==> {
                &&& edit == ControlEdit::Bypass ==> parse_bool_spec(value) is Some
                &&& edit == ControlEdit::Freq ==> parse_i32_spec(value) is Some
            }
        },
    }
}

fn control_kind(target: &str) -> (r: Option<DspKind>)
    ensures
        r == control_kind_of(target@),
{
    if str_eq(target, "lpf") {
        Some(DspKind::LPF)
    } else if str_eq(target, "hpf") {
        Some(DspKind::HPF)
    } else if str_eq(target, "trim") {
        Some(DspKind::Trim)
    } else if str_eq(target, "band") {
        Some(DspKind::BF)
    } else {
        None
    }
}

fn control_edit(kind: DspKind, param: &str) -> (r: ControlEdit)
    ensures
        r == control_edit_of(kind, param@),
{
    match kind {
        DspKind::LPF | DspKind::HPF => if str_eq(param, "bypass") {
            ControlEdit::Bypass
        } else if str_eq(param, "freq") {
            ControlEdit::Freq
        } else {
            ControlEdit::Unknown
        },
        DspKind::Trim => if str_eq(param, "amp") {
            ControlEdit::Gain
        } else {
            ControlEdit::Unknown
        },
        _ => if str_eq(param, "bypass") {
            ControlEdit::Bypass
        } else if str_eq(param, "freq") {
            ControlEdit::Freq
        } else if str_eq(param, "amp") {
            ControlEdit::Gain
        } else if str_eq(param, "q") {
            ControlEdit::Q
        } else {
            ControlEdit::Unknown
        },
    }
}

fn unknown_notice(kind: DspKind) -> (r: &'static str)
    ensures
        r@ == unknown_param_notice(kind),
{
    match kind {
        DspKind::LPF => "Unknown parameters for lpf filter !!",
        DspKind::HPF => "Unknown parameters for hpf filter !!",
        DspKind::Trim => "Unknown parameters for trim !!",
        _ => "Unknown parameters for band filter !!",
    }
}

fn apply_control<F: Copy>(slot: Dsp<F>, edit: ControlEdit, val: ControlValue<F>) -> (r: Dsp<F>)
    ensures
        r == control_slot(slot, edit, val),
{
    match (slot, edit, val) {
        (Dsp::LPF(mut x), ControlEdit::Bypass, ControlValue::Flag(b)) => {
            x.bypass = ControlTarget::bypass_from_bool(b);
            Dsp::LPF(x)
        },
        (Dsp::LPF(mut x), ControlEdit::Freq, ControlValue::Hz(f)) => {
            x.freq = ControlTarget::freq_from_i32(f);
            Dsp::LPF(x)
        },
        (Dsp::HPF(mut x), ControlEdit::Bypass, ControlValue::Flag(b)) => {
            x.bypass = ControlTarget::bypass_from_bool(b);
            Dsp::HPF(x)
        },
        (Dsp::HPF(mut x), ControlEdit::Freq, ControlValue::Hz(f)) => {
            x.freq = ControlTarget::freq_from_i32(f);
            Dsp::HPF(x)
        },
        (Dsp::Trim(mut x), ControlEdit::Gain, ControlValue::Level(v)) => {
            x.amp = ControlTarget::gain_from_f32(v);
            Dsp::Trim(x)
        },
        (Dsp::BF(mut x), ControlEdit::Bypass, ControlValue::Flag(b)) => {
            x.bypass = ControlTarget::bypass_from_bool(b);
            Dsp::BF(x)
        },
        (Dsp::BF(mut x), ControlEdit::Freq, ControlValue::Hz(f)) => {
            x.freq = ControlTarget::freq_from_i32(f);
            Dsp::BF(x)
        },
        (Dsp::BF(mut x), ControlEdit::Gain, ControlValue::Level(v)) => {
            x.amp = ControlTarget::gain_from_f32(v);
            Dsp::BF(x)
        },
        (Dsp::BF(mut x), ControlEdit::Q, ControlValue::Level(v)) => {
            x.q = ControlTarget::q_from_f32(v);
            Dsp::BF(x)
        },
        _ => slot,
    }
}

/// Two racks hold the same slots: same number, and slot by slot the same
/// kind on the same channel.
pub open spec fn slots_match<F: Copy>(a: Seq<Dsp<F>>, b: Seq<Dsp<F>>) -> bool {
    &&& a.len() == b.len()
    &&& forall|j: int| 0 <= j < a.len() ==> #[trigger] b[j].kind() == a[j].kind() && b[j].channel() == a[j].channel()
}

proof fn lemma_control_slot_keeps<F: Copy>(s: Dsp<F>, edit: ControlEdit, val: ControlValue<F>)
    ensures
        s.wf() ==> control_slot(s, edit, val).wf(),
        control_slot(s, edit, val).kind() == s.kind(),
        control_slot(s, edit, val).channel() == s.channel(),
{
}

proof fn lemma_count_kind_zero<F: Copy>(slots: Seq<Dsp<F>>, kind: DspKind)
    requires
        count_kind(slots, kind) == 0,
    ensures
        forall|j: int| 0 <= j < slots.len() ==> #[trigger] slots[j].kind() != kind,
    decreases slots.len(),
{
    if slots.len() > 0 {
        lemma_count_kind_zero(slots.drop_last(), kind);
        assert forall|j: int| 0 <= j < slots.len() implies #[trigger] slots[j].kind() != kind by {
            if j < slots.len() - 1 {
                assert(slots.drop_last()[j] == slots[j]);
            }
        }
    }
}

/// The slot holds the value a socket command sets: the bypass flag `b` or
/// the frequency `f` for the older filters, the gain `v` for trims and band
/// filters, the Q `v` for band filters. True of slots without that setting.
pub open spec fn holds_setting<F>(d: Dsp<F>, edit: ControlEdit, val: ControlValue<F>) -> bool {
    match (edit, val) {
        (ControlEdit::Bypass, ControlValue::Flag(b)) => match d {
            Dsp::LPF(x) => x.bypass == ControlTarget::<F>::bypass(b),
            Dsp::HPF(x) => x.bypass == ControlTarget::<F>::bypass(b),
            Dsp::BF(x) => x.bypass == ControlTarget::<F>::bypass(b),
            _ => true,
        },
        (ControlEdit::Freq, ControlValue::Hz(f)) => match d {
            Dsp::LPF(x) => x.freq == ControlTarget::<F>::freq(f),
            Dsp::HPF(x) => x.freq == ControlTarget::<F>::freq(f),
            Dsp::BF(x) => x.freq == ControlTarget::<F>::freq(f),
            _ => true,
        },
        (ControlEdit::Gain, ControlValue::Level(v)) => match d {
            Dsp::Trim(x) => x.amp == ControlTarget::<F>::amp(v),
            Dsp::BF(x) => x.amp == ControlTarget::<F>::amp(v),
            _ => true,
        },
        (ControlEdit::Q, ControlValue::Level(v)) => match d {
            Dsp::BF(x) => x.q == ControlTarget::<F>::q(v),
            _ => true,
        },
        _ => true,
    }
}

/// The other settings of a slot are those of `d`: a change of `edit` on `e`
/// touched nothing else.
pub open spec fn same_but<F>(d: Dsp<F>, e: Dsp<F>, edit: ControlEdit) -> bool {
    match (d, e) {
        (Dsp::LPF(x), Dsp::LPF(y)) => x.index == y.index && (edit != ControlEdit::Bypass ==> x.bypass
            == y.bypass) && (edit != ControlEdit::Freq ==> x.freq == y.freq),
        (Dsp::HPF(x), Dsp::HPF(y)) => x.index == y.index && (edit != ControlEdit::Bypass ==> x.bypass
            == y.bypass) && (edit != ControlEdit::Freq ==> x.freq == y.freq),
        (Dsp::BF(x), Dsp::BF(y)) => x.index == y.index && (edit != ControlEdit::Bypass ==> x.bypass
            == y.bypass) && (edit != ControlEdit::Freq ==> x.freq == y.freq) && (edit != ControlEdit::Gain
            ==> x.amp == y.amp) && (edit != ControlEdit::Q ==> x.q == y.q),
        (Dsp::Trim(x), Dsp::Trim(y)) => x.index == y.index && (edit != ControlEdit::Gain ==> x.amp == y.amp),
        _ => d == e,
    }
}

/// A socket command changes every slot of the named kind so that it holds
/// the value given, changes nothing else on those slots, and leaves the
/// slots of other kinds as they are.
pub proof fn lemma_control_all_law<F: Copy>(
    slots: Seq<Dsp<F>>,
    kind: DspKind,
    edit: ControlEdit,
    val: ControlValue<F>,
)
    ensures
        control_all(slots, kind, edit, val).len() == slots.len(),
        forall|j: int|
            0 <= j < slots.len() && slots[j].kind() == kind ==> #[trigger] holds_setting(
                control_all(slots, kind, edit, val)[j],
                edit,
                val,
            ) && same_but(slots[j], control_all(slots, kind, edit, val)[j], edit),
        forall|j: int|
            0 <= j < slots.len() && slots[j].kind() != kind ==> #[trigger] control_all(slots, kind, edit, val)[j]
                == slots[j],
{
}

/// Changing every slot of a kind keeps the rack's slots, each well formed
/// if it was.
pub proof fn lemma_control_all_keeps<F: Copy>(
    slots: Seq<Dsp<F>>,
    kind: DspKind,
    edit: ControlEdit,
    val: ControlValue<F>,
)
    ensures
        slots_match(slots, control_all(slots, kind, edit, val)),
        all_wf(slots) ==> all_wf(control_all(slots, kind, edit, val)),
{
    let r = control_all(slots, kind, edit, val);
    assert forall|j: int| 0 <= j < slots.len() implies #[trigger] r[j].kind() == slots[j].kind()
        && r[j].channel() == slots[j].channel() by {
        lemma_control_slot_keeps(slots[j], edit, val);
    }
    if all_wf(slots) {
        assert forall|j: int| 0 <= j < r.len() implies #[trigger] r[j].wf() by {
            assert(slots[j].wf());
            lemma_control_slot_keeps(slots[j], edit, val);
        }
    }
}

/// Changes every slot of kind `kind`.
fn control_every<F: Copy>(dsp_slots: &mut Vec<Dsp<F>>, kind: DspKind, edit: ControlEdit, val: ControlValue<F>)
    ensures
        final(dsp_slots)@ == control_all(old(dsp_slots)@, kind, edit, val),
        slots_match(old(dsp_slots)@, final(dsp_slots)@),
        forall|j: int|
            0 <= j < old(dsp_slots)@.len() && old(dsp_slots)@[j].kind() == kind ==> #[trigger] holds_setting(
                final(dsp_slots)@[j],
                edit,
                val,
            ),
        all_wf(old(dsp_slots)@) ==> all_wf(final(dsp_slots)@),
{
    let ghost old_slots = dsp_slots@;
    let mut j: usize = 0;
    while j < dsp_slots.len()
        invariant
            old_slots == old(dsp_slots)@,
            j <= dsp_slots@.len(),
            dsp_slots@.len() == old_slots.len(),
            forall|m: int| 0 <= m < j ==> #[trigger] dsp_slots@[m] == (if old_slots[m].kind() == kind {
                control_slot(old_slots[m], edit, val)
            } else {
                old_slots[m]
            }),
            forall|m: int| j <= m < dsp_slots@.len() ==> #[trigger] dsp_slots@[m] == old_slots[m],
        decreases dsp_slots@.len() - j,
    {
        let slot = dsp_slots[j];
        if slot.kind_of() == kind {
            let s = apply_control(slot, edit, val);
            dsp_slots[j] = s;
        }
        j = j + 1;
    }
    assert(dsp_slots@ =~= control_all(old_slots, kind, edit, val));
    proof {
        lemma_control_all_keeps(old_slots, kind, edit, val);
        lemma_control_all_law(old_slots, kind, edit, val);
    }
}

/// Number of slots of a kind.
fn slots_of_kind<F: Copy>(dsp_slots: &Vec<Dsp<F>>, kind: DspKind) -> (r: usize)
    ensures
        r == count_kind(dsp_slots@, kind),
{
    let mut n: usize = 0;
    let mut j: usize = 0;
    assert(dsp_slots@.take(0) =~= Seq::<Dsp<F>>::empty());
    while j < dsp_slots.len()
        invariant
            j <= dsp_slots@.len(),
            n == count_kind(dsp_slots@.take(j as int), kind),
            n <= j,
        decreases dsp_slots@.len() - j,
    {
        let ghost t = dsp_slots@.take(j + 1);
        assert(t.drop_last() =~= dsp_slots@.take(j as int));
        assert(t.last() == dsp_slots@[j as int]);
        if dsp_slots[j].kind_of() == kind {
            n = n + 1;
        }
        j = j + 1;
    }
    assert(dsp_slots@.take(dsp_slots@.len() as int) =~= dsp_slots@);
    n
}

/// Whether a socket command can be carried out on these slots (see
/// `control_command_ok`).
pub fn control_command_is_complete<F: Copy>(string: &str, dsp_slots: &Vec<Dsp<F>>) -> (r: bool)
    ensures
        r == control_command_ok(string@, dsp_slots@),
{
    let parcel = split(string, ':');
    if parcel.len() < 3 {
        return false;
    }
    match control_kind(trim(parcel[0])) {
        None => true,
        Some(kind) => {
            let edit = control_edit(kind, trim(parcel[1]));
            let value = trim(parcel[2]);
            if slots_of_kind(dsp_slots, kind) == 0 {
                true
            } else if edit == ControlEdit::Bypass {
                parse_bool(value).is_some()
            } else if edit == ControlEdit::Freq {
                parse_i32(value).is_some()
            } else {
                true
            }
        },
    }
}

/// Carries out a socket command `target:param:value` (each part trimmed) on
/// the slots: `lpf`/`hpf` take `bypass` (`true`/`false`) and `freq` (an
/// integer), `trim` takes `amp`, `band` takes `bypass`, `freq`, `amp` and
/// `q`; gains and Qs are read by `parse_gain`, which is called once, when a
/// slot of the kind exists. Every slot of the named kind changes; an unknown
/// target changes nothing. For an unknown parameter the slots stay as they
/// are and the result holds one notice per slot of the kind, to be printed.
pub fn parse_command<F: Copy>(
    string: &str,
    dsp_slots: &mut Vec<Dsp<F>>,
    parse_gain: impl Fn(&str) -> F,
) -> (r: Vec<&'static str>)
    requires
        control_command_ok(string@, old(dsp_slots)@),
        forall|x: &str| #[trigger] call_requires(parse_gain, (x,)),
    ensures
        ({
            let parts = split_char(string@, ':');
            let value = trim_ws(parts[2]);
            match control_kind_of(trim_ws(parts[0])) {
                None => r@.len() == 0 && final(dsp_slots)@ == old(dsp_slots)@,
                Some(kind) => {
                    let edit = control_edit_of(kind, trim_ws(parts[1]));
                    if edit == ControlEdit::Unknown {
                        &&& final(dsp_slots)@ == old(dsp_slots)@
                        &&& r@.len() == count_kind(old(dsp_slots)@, kind)
                        &&& forall|i: int| 0 <= i < r@.len() ==> #[trigger] r@[i]@ == unknown_param_notice(kind)
                    } else if count_kind(old(dsp_slots)@, kind) == 0 {
                        r@.len() == 0 && final(dsp_slots)@ == old(dsp_slots)@
                    } else if edit == ControlEdit::Bypass {
                        r@.len() == 0 && final(dsp_slots)@ == control_all(
                            old(dsp_slots)@,
                            kind,
                            edit,
                            ControlValue::Flag(parse_bool_spec(value)->0),
                        )
                    } else if edit == ControlEdit::Freq {
                        r@.len() == 0 && final(dsp_slots)@ == control_all(
                            old(dsp_slots)@,
                            kind,
                            edit,
                            ControlValue::Hz(parse_i32_spec(value)->0),
                        )
                    } else {
                        &&& r@.len() == 0
                        &&& exists|x: &str, v: F|
                            x@ == value && call_ensures(parse_gain, (x,), v) && final(dsp_slots)@
                                == control_all(old(dsp_slots)@, kind, edit, ControlValue::Level(v))
                    }
                },
            }
        }),
        all_wf(old(dsp_slots)@) ==> all_wf(final(dsp_slots)@),
        slots_match(old(dsp_slots)@, final(dsp_slots)@),
        ({
            let parts = split_char(string@, ':');
            let value = trim_ws(parts[2]);
            control_kind_of(trim_ws(parts[0])) matches Some(kind) ==> forall|j: int|
                0 <= j < old(dsp_slots)@.len() && old(dsp_slots)@[j].kind() == kind ==> {
                    &&& control_edit_of(kind, trim_ws(parts[1])) == ControlEdit::Bypass ==> #[trigger] holds_setting(
                        final(dsp_slots)@[j],
                        ControlEdit::Bypass,
                        ControlValue::Flag(parse_bool_spec(value)->0),
                    )
                    &&& control_edit_of(kind, trim_ws(parts[1])) == ControlEdit::Freq ==> holds_setting(
                        final(dsp_slots)@[j],
                        ControlEdit::Freq,
                        ControlValue::Hz(parse_i32_spec(value)->0),
                    )
                }
        }),
{
    let parcel = split(string, ':');
    let ghost parts = split_char(string@, ':');
    let target = trim(parcel[0]);
    let param = trim(parcel[1]);
    let value = trim(parcel[2]);
    let mut notices: Vec<&'static str> = Vec::new();
    match control_kind(target) {
        None => notices,
        Some(kind) => {
            let edit = control_edit(kind, param);
            let n = slots_of_kind(dsp_slots, kind);
            if edit == ControlEdit::Unknown {
                let msg = unknown_notice(kind);
                let mut i: usize = 0;
                while i < n
                    invariant
                        i <= n,
                        notices@.len() == i,
                        msg@ == unknown_param_notice(kind),
                        forall|m: int| 0 <= m < i ==> #[trigger] notices@[m]@ == unknown_param_notice(kind),
                    decreases n - i,
                {
                    notices.push(msg);
                    i = i + 1;
                }
                notices
            } else if n == 0 {
                proof {
                    lemma_count_kind_zero(dsp_slots@, kind);
                }
                notices
            } else if edit == ControlEdit::Bypass {
                let b = match parse_bool(value) {
                    Some(b) => b,
                    None => vstd::pervasive::unreached(),
                };
                control_every(dsp_slots, kind, edit, ControlValue::Flag(b));
                notices
            } else if edit == ControlEdit::Freq {
                let f = match parse_i32(value) {
                    Some(f) => f,
                    None => vstd::pervasive::unreached(),
                };
                control_every(dsp_slots, kind, edit, ControlValue::Hz(f));
                notices
            } else {
                let v = parse_gain(value);
                control_every(dsp_slots, kind, edit, ControlValue::Level(v));
                notices
            }
        },
    }
}

} // verus!
