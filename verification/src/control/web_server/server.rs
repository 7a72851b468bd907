//! The HTTP control API: request heads, static file paths, and the
//! commands that `/api/dsp/...` requests carry.
//!
//! API paths: `/api/dsp/<channel>/<target>/<subtarget>/<param>/`,
//! `/api/ping/` and `/api/state/<target>`. The channel part is read but not
//! used.

use vstd::prelude::*;

use crate::control::control_utils::ControlTarget;
use crate::dsp::eq::Band;
use crate::dsp::trim::Trim;
use crate::dsp::{all_wf, Dsp, DspKind};
use crate::errors::{CmdError, HttpError};
use crate::text::{
    append_decimal, decimal, append_str, string_of, to_chars, trim_start_matches_str, trim_start_str, trim_end_char, trim_end_matches_char, trim_start_char, trim_start_matches_char, parse_usize, parse_usize_spec, split, split_char, split_whitespace, starts_with, str_eq, trim,
    trim_ws, words,
};

verus! {

/// The methods the server answers.
#[derive(Debug, PartialEq, Eq, Structural)]
pub enum HttpMethod {
    GET,
    POST,
}

/// The body of an API request: a target name and a value.
pub struct ApiRequest<F> {
    pub target: String,
    pub value: F,
}

/// The method of a request: the first word of its first line.
pub open spec fn req_type_of(first_word: Seq<char>) -> Result<HttpMethod, HttpError> {
    if first_word == "GET"@ {
        Ok(HttpMethod::GET)
    } else if first_word == "POST"@ {
        Ok(HttpMethod::POST)
    } else {
        Err(HttpError::InvalidMethod)
    }
}

/// The method of a request, from its head lines.
pub fn get_req_type(req: &Vec<String>) -> (r: Result<HttpMethod, HttpError>)
    requires
        req@.len() > 0,
        words(req@[0]@).len() > 0,
    ensures
        r == req_type_of(words(req@[0]@)[0]),
{
    let w = split_whitespace(req[0].as_str());
    let req_type = w[0];
    if str_eq(req_type, "GET") {
        Ok(HttpMethod::GET)
    } else if str_eq(req_type, "POST") {
        Ok(HttpMethod::POST)
    } else {
        Err(HttpError::InvalidMethod)
    }
}

/// The path of a request: the second word of its first line.
pub fn request_path(req: &Vec<String>) -> (r: &str)
    requires
        req@.len() > 0,
        words(req@[0]@).len() > 1,
    ensures
        r@ == words(req@[0]@)[1],
{
    let w = split_whitespace(req[0].as_str());
    w[1]
}

/// Position of the first line that starts with `p`.
pub open spec fn first_with_prefix(lines: Seq<Seq<char>>, p: Seq<char>) -> Option<int>
    decreases lines.len(),
{
    if lines.len() == 0 {
        None
    } else {
        match first_with_prefix(lines.drop_last(), p) {
            Some(k) => Some(k),
            None => if p.is_prefix_of(lines.last()) {
                Some(lines.len() - 1)
            } else {
                None
            },
        }
    }
}

/// The body length a request head announces: the first `Content-Length:`
/// line, its second `:`-separated piece, trimmed and read as a number; 0
/// when there is no such line or the number does not read.
pub open spec fn content_length_of(lines: Seq<Seq<char>>) -> usize {
    match first_with_prefix(lines, "Content-Length:"@) {
        None => 0,
        Some(k) => {
            let pieces = split_char(lines[k], ':');
            if pieces.len() < 2 {
                0
            } else {
                match parse_usize_spec(trim_ws(pieces[1])) {
                    Some(v) => v,
                    None => 0,
                }
            }
        },
    }
}

/// The body length a request head announces.
pub fn payload_len(http_req: &Vec<String>) -> (r: usize)
    ensures
        r == content_length_of(http_req@.map_values(|l: String| l@)),
{
    let ghost lines = http_req@.map_values(|l: String| l@);
    let mut k: usize = 0;
    assert(lines.take(0) =~= Seq::<Seq<char>>::empty());
    while k < http_req.len()
        invariant
            lines == http_req@.map_values(|l: String| l@),
            k <= http_req@.len(),
            first_with_prefix(lines.take(k as int), "Content-Length:"@) is None,
        decreases http_req@.len() - k,
    {
        let ghost t = lines.take(k + 1);
        assert(t.drop_last() =~= lines.take(k as int));
        assert(t.last() == http_req@[k as int]@);
        if starts_with(http_req[k].as_str(), "Content-Length:") {
            proof {
                lemma_first_with_prefix_extends(lines, "Content-Length:"@, k as int + 1, k as int);
            }
            let pieces = split(http_req[k].as_str(), ':');
            if pieces.len() < 2 {
                return 0;
            }
            return match parse_usize(trim(pieces[1])) {
                Some(v) => v,
                None => 0,
            };
        }
        k = k + 1;
    }
    assert(lines.take(http_req@.len() as int) =~= lines);
    0
}

proof fn lemma_first_with_prefix_extends(lines: Seq<Seq<char>>, p: Seq<char>, j: int, m: int)
    requires
        0 < j <= lines.len(),
        first_with_prefix(lines.take(j), p) == Some(m),
    ensures
        first_with_prefix(lines, p) == Some(m),
    decreases lines.len() - j,
{
    if j < lines.len() {
        let t = lines.take(j + 1);
        assert(t.drop_last() =~= lines.take(j));
        lemma_first_with_prefix_extends(lines, p, j + 1, m);
    } else {
        assert(lines.take(j) =~= lines);
    }
}


/// The setting that a `/dsp` command changes.
#[derive(Clone, Copy, Debug, PartialEq, Eq, Structural)]
pub enum Param {
    TrimAmp,
    BandFreq(u8),
    BandAmp(u8),
    BandQ(u8),
}

/// What a `/dsp` command does to each slot of the kind it addresses.
#[derive(Clone, Copy, Debug, PartialEq, Eq, Structural)]
pub enum SlotEdit {
    /// Change a setting.
    Change(Param),
    /// Leave the slot as it is.
    Keep,
    /// Refuse the command.
    Reject,
    /// The path lacks the part that names the setting.
    Missing,
}

/// What an API path asks for.
#[derive(Clone, Copy, Debug, PartialEq, Eq, Structural)]
pub enum Route {
    /// Nothing to change (`ping`, `state`).
    Done,
    /// An unknown command.
    Fail,
    /// A `dsp` path without a target part.
    Broken,
    /// An edit of every slot of a kind.
    Each(DspKind, SlotEdit),
}

/// The parts of an API path: trimmed, slashes removed at both ends, split
/// at `/`.
pub open spec fn command_parts(path: Seq<char>) -> Seq<Seq<char>> {
    split_char(trim_end_char(trim_start_char(trim_ws(path), '/'), '/'), '/')
}

/// The number of the equaliser band that `s` names.
pub open spec fn band_no(s: Seq<char>) -> Option<u8> {
    if s == "band1"@ {
        Some(1u8)
    } else if s == "band2"@ {
        Some(2u8)
    } else if s == "band3"@ {
        Some(3u8)
    } else if s == "band4"@ {
        Some(4u8)
    } else if s == "band5"@ {
        Some(5u8)
    } else if s == "band6"@ {
        Some(6u8)
    } else {
        None
    }
}

/// The edit of an equaliser band that the setting name `s` asks for.
pub open spec fn band_edit_of(b: u8, s: Seq<char>) -> SlotEdit {
    if s == "freq"@ {
        SlotEdit::Change(Param::BandFreq(b))
    } else if s == "amp"@ {
        SlotEdit::Change(Param::BandAmp(b))
    } else if s == "q"@ {
        SlotEdit::Change(Param::BandQ(b))
    } else if s == "model"@ {
        SlotEdit::Keep
    } else {
        SlotEdit::Reject
    }
}

/// What the parts of an API path ask for.
pub open spec fn route_of(p: Seq<Seq<char>>) -> Route {
    if p[0] == "dsp"@ {
        if p.len() < 3 {
            Route::Broken
        } else if p[2] == "trim"@ {
            Route::Each(
                DspKind::Trim,
                if p.len() < 5 {
                    SlotEdit::Missing
                } else if p[4] == "amp"@ {
                    SlotEdit::Change(Param::TrimAmp)
                } else {
                    SlotEdit::Reject
                },
            )
        } else if p[2] == "eq"@ {
            Route::Each(
                DspKind::EQ,
                if p.len() < 4 {
                    SlotEdit::Missing
                } else {
                    match band_no(p[3]) {
                        None => SlotEdit::Reject,
                        Some(b) => if p.len() < 5 {
                            SlotEdit::Missing
                        } else {
                            band_edit_of(b, p[4])
                        },
                    }
                },
            )
        } else {
            Route::Fail
        }
    } else if p[0] == "ping"@ || p[0] == "state"@ {
        Route::Done
    } else {
        Route::Fail
    }
}

/// Band `b` (1 to 6) of an equaliser.
pub open spec fn band_of<F>(e: crate::dsp::eq::Eq<F>, b: u8) -> Band<F> {
    if b == 1 {
        e.band1
    } else if b == 2 {
        e.band2
    } else if b == 3 {
        e.band3
    } else if b == 4 {
        e.band4
    } else if b == 5 {
        e.band5
    } else {
        e.band6
    }
}

/// The equaliser with band `b` (1 to 6) replaced.
pub open spec fn with_band<F>(e: crate::dsp::eq::Eq<F>, b: u8, band: Band<F>) -> crate::dsp::eq::Eq<F> {
    if b == 1 {
        crate::dsp::eq::Eq { band1: band, ..e }
    } else if b == 2 {
        crate::dsp::eq::Eq { band2: band, ..e }
    } else if b == 3 {
        crate::dsp::eq::Eq { band3: band, ..e }
    } else if b == 4 {
        crate::dsp::eq::Eq { band4: band, ..e }
    } else if b == 5 {
        crate::dsp::eq::Eq { band5: band, ..e }
    } else {
        crate::dsp::eq::Eq { band6: band, ..e }
    }
}

/// A slot after a setting is changed: a trim's gain becomes `value`; a band's
/// frequency becomes `freq`, its gain or its Q `value`. Any other slot is
/// left as it is.
pub open spec fn edit_slot<F>(slot: Dsp<F>, p: Param, value: F, freq: i32) -> Dsp<F> {
    match (slot, p) {
        (Dsp::Trim(t), Param::TrimAmp) => Dsp::Trim(Trim { amp: ControlTarget::amp(value), ..t }),
        (Dsp::EQ(e), Param::BandFreq(b)) => Dsp::EQ(
            with_band(e, b, Band { freq: ControlTarget::freq(freq), ..band_of(e, b) }),
        ),
        (Dsp::EQ(e), Param::BandAmp(b)) => Dsp::EQ(
            with_band(e, b, Band { amp: ControlTarget::amp(value), ..band_of(e, b) }),
        ),
        (Dsp::EQ(e), Param::BandQ(b)) => Dsp::EQ(
            with_band(e, b, Band { q: ControlTarget::q(value), ..band_of(e, b) }),
        ),
        _ => slot,
    }
}

/// Some slot has kind `kind`.
pub open spec fn has_kind<F: Copy>(slots: Seq<Dsp<F>>, kind: DspKind) -> bool {
    exists|j: int| 0 <= j < slots.len() && #[trigger] slots[j].kind() == kind
}

/// The command cannot run: its path lacks a part that the slots make it
/// read.
pub open spec fn command_panics<F: Copy>(route: Route, slots: Seq<Dsp<F>>) -> bool {
    ||| route is Broken
    ||| (route matches Route::Each(k, SlotEdit::Missing) && has_kind(slots, k))
}

/// The slots after a command, or the error it gives (the slots then stay
/// as they were).
pub open spec fn command_result<F: Copy>(route: Route, slots: Seq<Dsp<F>>, value: F, freq: i32) -> Result<
    Seq<Dsp<F>>,
    CmdError,
> {
    match route {
        Route::Done => Ok(slots),
        Route::Fail => Err(CmdError {  }),
        Route::Broken => Ok(slots),
        Route::Each(kind, edit) => match edit {
            SlotEdit::Change(p) => Ok(slots.map_values(|s: Dsp<F>| edit_slot(s, p, value, freq))),
            SlotEdit::Keep => Ok(slots),
            SlotEdit::Reject => if has_kind(slots, kind) {
                Err(CmdError {  })
            } else {
                Ok(slots)
            },
            SlotEdit::Missing => Ok(slots),
        },
    }
}

/// The kind of slot a setting belongs to.
pub open spec fn param_kind(p: Param) -> DspKind {
    match p {
        Param::TrimAmp => DspKind::Trim,
        _ => DspKind::EQ,
    }
}

/// A command never adds, removes, moves or changes the kind of a slot, and
/// keeps well-formed slots well formed.
pub proof fn lemma_command_keeps_slots<F: Copy>(route: Route, slots: Seq<Dsp<F>>, value: F, freq: i32)
    ensures
        command_result(route, slots, value, freq) matches Ok(s) ==> {
            &&& crate::control::socket_handler::slots_match(slots, s)
            &&& all_wf(slots) ==> all_wf(s)
        },
{
    if let Ok(s) = command_result(route, slots, value, freq) {
        assert(s.len() == slots.len());
        assert forall|j: int| 0 <= j < slots.len() implies #[trigger] s[j].kind() == slots[j].kind()
            && s[j].channel() == slots[j].channel() by {
            if let Route::Each(k, SlotEdit::Change(p)) = route {
                lemma_edit_slot_keeps(slots[j], p, value, freq);
            }
        }
        if all_wf(slots) {
            assert forall|j: int| 0 <= j < s.len() implies #[trigger] s[j].wf() by {
                assert(slots[j].wf());
                if let Route::Each(k, SlotEdit::Change(p)) = route {
                    lemma_edit_slot_keeps(slots[j], p, value, freq);
                }
            }
        }
    }
}

/// A band after a setting named `param` (`freq`, `amp` or `q`) is set: the
/// frequency becomes `freq`, the gain or the Q `value`.
pub open spec fn band_after<F>(b: Band<F>, param: Seq<char>, value: F, freq: i32) -> Band<F> {
    if param == "freq"@ {
        Band { freq: ControlTarget::<F>::freq(freq), ..b }
    } else if param == "amp"@ {
        Band { amp: ControlTarget::<F>::amp(value), ..b }
    } else {
        Band { q: ControlTarget::<F>::q(value), ..b }
    }
}

/// `e2` is the equaliser `e` after band number `n` (1 to 6) had `param` set:
/// that band changed as `band_after` says, the other five as they were.
pub open spec fn eq_band_set<F>(
    e: crate::dsp::eq::Eq<F>,
    e2: crate::dsp::eq::Eq<F>,
    n: int,
    param: Seq<char>,
    value: F,
    freq: i32,
) -> bool {
    &&& e2.index == e.index
    &&& e2.band1 == (if n == 1 { band_after(e.band1, param, value, freq) } else { e.band1 })
    &&& e2.band2 == (if n == 2 { band_after(e.band2, param, value, freq) } else { e.band2 })
    &&& e2.band3 == (if n == 3 { band_after(e.band3, param, value, freq) } else { e.band3 })
    &&& e2.band4 == (if n == 4 { band_after(e.band4, param, value, freq) } else { e.band4 })
    &&& e2.band5 == (if n == 5 { band_after(e.band5, param, value, freq) } else { e.band5 })
    &&& e2.band6 == (if n == 6 { band_after(e.band6, param, value, freq) } else { e.band6 })
}

/// An equaliser command `dsp/<c>/eq/bandN/<param>` with `N` a digit from 1
/// to 6 and `param` one of `freq`, `amp`, `q` succeeds; it sets that setting
/// of band `N` (the band whose number the path holds) of every equaliser,
/// leaves their other bands as they were, and leaves every other slot as
/// it was.
pub proof fn lemma_eq_band_command<F: Copy>(
    p: Seq<Seq<char>>,
    slots: Seq<Dsp<F>>,
    value: F,
    freq: i32,
    digit: char,
)
    requires
        p.len() >= 5,
        p[0] == "dsp"@,
        p[2] == "eq"@,
        0x31 <= (digit as u32) <= 0x36,
        p[3] == "band"@.push(digit),
        p[4] == "freq"@ || p[4] == "amp"@ || p[4] == "q"@,
    ensures
        command_result(route_of(p), slots, value, freq) matches Ok(s) && s.len() == slots.len() && forall|j: int|
            0 <= j < slots.len() ==> match (#[trigger] slots[j], s[j]) {
                (Dsp::EQ(e), Dsp::EQ(e2)) => eq_band_set(e, e2, (digit as u32) - 0x30, p[4], value, freq),
                (Dsp::EQ(_), _) => false,
                (d, d2) => d2 == d,
            },
{
    reveal_strlit("band");
    reveal_strlit("band1");
    reveal_strlit("band2");
    reveal_strlit("band3");
    reveal_strlit("band4");
    reveal_strlit("band5");
    reveal_strlit("band6");
    reveal_strlit("freq");
    reveal_strlit("amp");
    reveal_strlit("q");
    reveal_strlit("model");
    let n: int = (digit as u32) - 0x30;
    let t = p[3];
    if n == 1 {
        assert(digit == '1');
        assert(t =~= "band1"@);
    } else if n == 2 {
        assert(digit == '2');
        assert(t =~= "band2"@);
    } else if n == 3 {
        assert(digit == '3');
        assert(t =~= "band3"@);
    } else if n == 4 {
        assert(digit == '4');
        assert(t =~= "band4"@);
    } else if n == 5 {
        assert(digit == '5');
        assert(t =~= "band5"@);
    } else {
        assert(digit == '6');
        assert(t =~= "band6"@);
    }
    assert(t[4] == digit);
    assert(t != "band1"@ || n == 1) by {
        assert("band1"@[4] == '1');
    }
    assert(t != "band2"@ || n == 2) by {
        assert("band2"@[4] == '2');
    }
    assert(t != "band3"@ || n == 3) by {
        assert("band3"@[4] == '3');
    }
    assert(t != "band4"@ || n == 4) by {
        assert("band4"@[4] == '4');
    }
    assert(t != "band5"@ || n == 5) by {
        assert("band5"@[4] == '5');
    }
    assert(band_no(t) == Some(n as u8));
    assert(p[4] != "model"@) by {
        assert("model"@.len() == 5);
    }
    reveal_strlit("trim");
    reveal_strlit("eq");
    assert(p[2] != "trim"@) by {
        assert("trim"@.len() == 4);
        assert("eq"@.len() == 2);
    }
    assert("freq"@.len() == 4 && "amp"@.len() == 3 && "q"@.len() == 1);
    let param = if p[4] == "freq"@ {
        Param::BandFreq(n as u8)
    } else if p[4] == "amp"@ {
        Param::BandAmp(n as u8)
    } else {
        Param::BandQ(n as u8)
    };
    assert(band_edit_of(n as u8, p[4]) == SlotEdit::Change(param));
    assert(route_of(p) == Route::Each(DspKind::EQ, SlotEdit::Change(param)));
    let s = command_result(route_of(p), slots, value, freq)->Ok_0;
    assert forall|j: int| 0 <= j < slots.len() implies match (#[trigger] slots[j], s[j]) {
        (Dsp::EQ(e), Dsp::EQ(e2)) => eq_band_set(e, e2, n, p[4], value, freq),
        (Dsp::EQ(_), _) => false,
        (d, d2) => d2 == d,
    } by {
        assert(s.len() == slots.len());
        assert(s[j] == edit_slot(slots[j], param, value, freq));
    }
}

/// The channel part of an API path (its second part) is read but not used:
/// whatever it holds, the command is the same.
pub proof fn lemma_channel_part_ignored(p: Seq<Seq<char>>, channel: Seq<char>)
    requires
        p.len() > 1,
    ensures
        route_of(p.update(1, channel)) == route_of(p),
{
    let q = p.update(1, channel);
    assert(q[0] == p[0]);
    if p.len() > 2 {
        assert(q[2] == p[2]);
    }
    if p.len() > 3 {
        assert(q[3] == p[3]);
    }
    if p.len() > 4 {
        assert(q[4] == p[4]);
    }
}

proof fn lemma_route_kinds(p: Seq<Seq<char>>)
    ensures
        route_of(p) matches Route::Each(k, SlotEdit::Change(param)) ==> param_kind(param) == k && (
        param matches Param::BandFreq(b) ==> 1 <= b <= 6) && (param matches Param::BandAmp(b) ==> 1
            <= b <= 6) && (param matches Param::BandQ(b) ==> 1 <= b <= 6),
{
}

proof fn lemma_edit_other_kind<F: Copy>(s: Dsp<F>, p: Param, value: F, freq: i32)
    requires
        s.kind() != param_kind(p),
    ensures
        edit_slot(s, p, value, freq) == s,
{
}

proof fn lemma_edit_slot_keeps<F: Copy>(s: Dsp<F>, p: Param, value: F, freq: i32)
    ensures
        s.wf() ==> edit_slot(s, p, value, freq).wf(),
        edit_slot(s, p, value, freq).kind() == s.kind(),
        edit_slot(s, p, value, freq).channel() == s.channel(),
{
}

/// The parts of an API path.
fn command_parts_of(path: &str) -> (v: Vec<&str>)
    ensures
        v@.len() == command_parts(path@).len(),
        forall|k: int| 0 <= k < v@.len() ==> #[trigger] v@[k]@ == command_parts(path@)[k],
{
    let t = trim(path);
    let t = trim_start_matches_char(t, '/');
    let t = trim_end_matches_char(t, '/');
    split(t, '/')
}

fn band_number(s: &str) -> (r: Option<u8>)
    ensures
        r == band_no(s@),
{
    if str_eq(s, "band1") {
        Some(1)
    } else if str_eq(s, "band2") {
        Some(2)
    } else if str_eq(s, "band3") {
        Some(3)
    } else if str_eq(s, "band4") {
        Some(4)
    } else if str_eq(s, "band5") {
        Some(5)
    } else if str_eq(s, "band6") {
        Some(6)
    } else {
        None
    }
}

fn band_edit(b: u8, s: &str) -> (r: SlotEdit)
    ensures
        r == band_edit_of(b, s@),
{
    if str_eq(s, "freq") {
        SlotEdit::Change(Param::BandFreq(b))
    } else if str_eq(s, "amp") {
        SlotEdit::Change(Param::BandAmp(b))
    } else if str_eq(s, "q") {
        SlotEdit::Change(Param::BandQ(b))
    } else if str_eq(s, "model") {
        SlotEdit::Keep
    } else {
        SlotEdit::Reject
    }
}

/// What the parts of an API path ask for.
fn route(p: &Vec<&str>) -> (r: Route)
    requires
        p@.len() > 0,
    ensures
        r == route_of(p@.map_values(|s: &str| s@)),
{
    let ghost v = p@.map_values(|s: &str| s@);
    if str_eq(p[0], "dsp") {
        if p.len() < 3 {
            Route::Broken
        } else if str_eq(p[2], "trim") {
            let edit = if p.len() < 5 {
                SlotEdit::Missing
            } else if str_eq(p[4], "amp") {
                SlotEdit::Change(Param::TrimAmp)
            } else {
                SlotEdit::Reject
            };
            Route::Each(DspKind::Trim, edit)
        } else if str_eq(p[2], "eq") {
            let edit = if p.len() < 4 {
                SlotEdit::Missing
            } else {
                match band_number(p[3]) {
                    None => SlotEdit::Reject,
                    Some(b) => if p.len() < 5 {
                        SlotEdit::Missing
                    } else {
                        band_edit(b, p[4])
                    },
                }
            };
            Route::Each(DspKind::EQ, edit)
        } else {
            Route::Fail
        }
    } else if str_eq(p[0], "ping") || str_eq(p[0], "state") {
        Route::Done
    } else {
        Route::Fail
    }
}

/// The route of an API path.
fn path_route(path: &str) -> (r: Route)
    ensures
        r == route_of(command_parts(path@)),
{
    let parts = command_parts_of(path);
    proof {
        crate::text::lemma_split_char_nonempty(
            trim_end_char(trim_start_char(trim_ws(path@), '/'), '/'),
            '/',
        );
    }
    assert(parts@.map_values(|s: &str| s@) =~= command_parts(path@));
    route(&parts)
}

/// Applies a setting change to one slot.
fn apply_edit<F: Copy>(slot: Dsp<F>, p: Param, value: F, freq: i32) -> (r: Dsp<F>)
    requires
        p matches Param::BandFreq(b) ==> 1 <= b <= 6,
        p matches Param::BandAmp(b) ==> 1 <= b <= 6,
        p matches Param::BandQ(b) ==> 1 <= b <= 6,
    ensures
        r == edit_slot(slot, p, value, freq),
{
    match (slot, p) {
        (Dsp::Trim(mut t), Param::TrimAmp) => {
            t.amp = ControlTarget::gain_from_f32(value);
            Dsp::Trim(t)
        },
        (Dsp::EQ(mut e), Param::BandFreq(b)) => {
            let f = ControlTarget::freq_from_i32(freq);
            if b == 1 {
                e.band1.freq = f;
            } else if b == 2 {
                e.band2.freq = f;
            } else if b == 3 {
                e.band3.freq = f;
            } else if b == 4 {
                e.band4.freq = f;
            } else if b == 5 {
                e.band5.freq = f;
            } else {
                e.band6.freq = f;
            }
            Dsp::EQ(e)
        },
        (Dsp::EQ(mut e), Param::BandAmp(b)) => {
            let a = ControlTarget::gain_from_f32(value);
            if b == 1 {
                e.band1.amp = a;
            } else if b == 2 {
                e.band2.amp = a;
            } else if b == 3 {
                e.band3.amp = a;
            } else if b == 4 {
                e.band4.amp = a;
            } else if b == 5 {
                e.band5.amp = a;
            } else {
                e.band6.amp = a;
            }
            Dsp::EQ(e)
        },
        (Dsp::EQ(mut e), Param::BandQ(b)) => {
            let q = ControlTarget::q_from_f32(value);
            if b == 1 {
                e.band1.q = q;
            } else if b == 2 {
                e.band2.q = q;
            } else if b == 3 {
                e.band3.q = q;
            } else if b == 4 {
                e.band4.q = q;
            } else if b == 5 {
                e.band5.q = q;
            } else {
                e.band6.q = q;
            }
            Dsp::EQ(e)
        },
        _ => slot,
    }
}

/// Whether the slots let a command with this path run to its end: false
/// when the path is a `dsp` one without a target part, or lacks the part
/// naming the setting while a slot of the addressed kind exists.
pub fn dsp_command_is_complete<F: Copy>(path: &str, dsp_slots: &Vec<Dsp<F>>) -> (r: bool)
    ensures
        r == !command_panics(route_of(command_parts(path@)), dsp_slots@),
{
    let rt = path_route(path);
    match rt {
        Route::Broken => false,
        Route::Each(kind, SlotEdit::Missing) => {
            let mut j: usize = 0;
            while j < dsp_slots.len()
                invariant
                    rt == route_of(command_parts(path@)),
                    rt == Route::Each(kind, SlotEdit::Missing),
                    j <= dsp_slots@.len(),
                    forall|m: int| 0 <= m < j ==> #[trigger] dsp_slots@[m].kind() != kind,
                decreases dsp_slots@.len() - j,
            {
                if dsp_slots[j].kind_of() == kind {
                    assert(dsp_slots@[j as int].kind() == kind);
                    return false;
                }
                j = j + 1;
            }
            true
        },
        _ => true,
    }
}

/// Runs an API command on the slots. `path` is the part after `/api`;
/// `req.value` is the new gain or Q, and `freq` the new frequency (the
/// value converted to an integer). The result says whether the command
/// exists; on an error the slots stay as they were. A command that addresses
/// a kind of slot the rack does not hold succeeds without a change.
pub fn run_dsp_command<F: Copy>(
    req: ApiRequest<F>,
    freq: i32,
    path: &str,
    dsp_slots: &mut Vec<Dsp<F>>,
) -> (r: Result<(), CmdError>)
    requires
        !command_panics(route_of(command_parts(path@)), old(dsp_slots)@),
    ensures
        match command_result(route_of(command_parts(path@)), old(dsp_slots)@, req.value, freq) {
            Ok(s) => r is Ok && final(dsp_slots)@ == s,
            Err(_) => r is Err && final(dsp_slots)@ == old(dsp_slots)@,
        },
        all_wf(old(dsp_slots)@) ==> all_wf(final(dsp_slots)@),
{
    let value = req.value;
    let rt = path_route(path);
    let ghost old_slots = dsp_slots@;
    proof {
        lemma_route_kinds(command_parts(path@));
    }
    match rt {
        Route::Done => Ok(()),
        Route::Fail => Err(CmdError {  }),
        Route::Broken => Ok(()),
        Route::Each(kind, edit) => {
            let mut j: usize = 0;
            while j < dsp_slots.len()
                invariant
                    old_slots == old(dsp_slots)@,
                    value == req.value,
                    rt == route_of(command_parts(path@)),
                    rt == Route::Each(kind, edit),
                    !command_panics(rt, old_slots),
                    edit matches SlotEdit::Change(p) ==> param_kind(p) == kind,
                    edit matches SlotEdit::Change(p) ==> (p matches Param::BandFreq(b) ==> 1 <= b <= 6),
                    edit matches SlotEdit::Change(p) ==> (p matches Param::BandAmp(b) ==> 1 <= b <= 6),
                    edit matches SlotEdit::Change(p) ==> (p matches Param::BandQ(b) ==> 1 <= b <= 6),
                    j <= dsp_slots@.len(),
                    dsp_slots@.len() == old_slots.len(),
                    forall|m: int| 0 <= m < j ==> #[trigger] dsp_slots@[m] == (match edit {
                        SlotEdit::Change(p) => edit_slot(old_slots[m], p, value, freq),
                        _ => old_slots[m],
                    }),
                    forall|m: int| j <= m < dsp_slots@.len() ==> #[trigger] dsp_slots@[m] == old_slots[m],
                    edit is Reject ==> forall|m: int| 0 <= m < j ==> #[trigger] old_slots[m].kind() != kind,
                decreases dsp_slots@.len() - j,
            {
                let slot = dsp_slots[j];
                if slot.kind_of() == kind {
                    match edit {
                        SlotEdit::Change(p) => {
                            let s = apply_edit(slot, p, value, freq);
                            dsp_slots[j] = s;
                        },
                        SlotEdit::Keep => {},
                        SlotEdit::Reject => {
                            assert(old_slots[j as int].kind() == kind);
                            assert(has_kind(old_slots, kind));
                            assert(dsp_slots@ =~= old_slots);
                            return Err(CmdError {  });
                        },
                        SlotEdit::Missing => {
                            assert(old_slots[j as int].kind() == kind);
                            assert(has_kind(old_slots, kind));
                            vstd::pervasive::unreached::<()>();
                        },
                    }
                } else {
                    proof {
                        if let SlotEdit::Change(p) = edit {
                            lemma_edit_other_kind(slot, p, value, freq);
                        }
                    }
                }
                j = j + 1;
            }
            match edit {
                SlotEdit::Change(p) => {
                    assert(dsp_slots@ =~= old_slots.map_values(|s: Dsp<F>| edit_slot(s, p, value, freq)));
                    assert forall|m: int| 0 <= m < dsp_slots@.len() implies (old_slots[m].wf() ==> #[trigger] dsp_slots@[m].wf()) by {
                        lemma_edit_slot_keeps(old_slots[m], p, value, freq);
                    }
                },
                _ => {
                    assert(dsp_slots@ =~= old_slots);
                },
            }
            Ok(())
        },
    }
}


/// The last component of a path that is neither empty nor `.`.
pub open spec fn last_normal(comps: Seq<Seq<char>>) -> Option<Seq<char>>
    decreases comps.len(),
{
    if comps.len() == 0 {
        None
    } else if comps.last().len() == 0 || comps.last() == "."@ {
        last_normal(comps.drop_last())
    } else {
        Some(comps.last())
    }
}

/// The file name of a `/`-separated path (`Path::file_name`): its last
/// component, empty and `.` components skipped; none when that is `..`.
pub open spec fn file_name_of(p: Seq<char>) -> Option<Seq<char>> {
    match last_normal(split_char(p, '/')) {
        Some(n) => if n == ".."@ {
            None
        } else {
            Some(n)
        },
        None => None,
    }
}

/// Position of the last `.` in a text.
pub open spec fn last_dot(s: Seq<char>) -> Option<int>
    decreases s.len(),
{
    if s.len() == 0 {
        None
    } else if s.last() == '.' {
        Some(s.len() - 1)
    } else {
        last_dot(s.drop_last())
    }
}

/// The extension of a path (`Path::extension`): what follows the last `.`
/// of the file name, unless that dot opens the name.
pub open spec fn extension_of(p: Seq<char>) -> Option<Seq<char>> {
    match file_name_of(p) {
        None => None,
        Some(n) => match last_dot(n) {
            None => None,
            Some(k) => if k == 0 {
                None
            } else {
                Some(n.skip(k + 1))
            },
        },
    }
}

/// The content type served for a file extension.
pub open spec fn mime_of(ext: Option<Seq<char>>) -> Seq<char> {
    match ext {
        Some(e) => if e == "html"@ {
            "text/html; charset=utf-8"@
        } else if e == "css"@ {
            "text/css; charset=utf-8"@
        } else if e == "js"@ {
            "application/javascript; charset=utf-8"@
        } else {
            "application/octet-stream"@
        },
        None => "application/octet-stream"@,
    }
}

/// The file name of a path.
fn file_name<'a>(path: &'a str) -> (r: Option<&'a str>)
    ensures
        match r {
            Some(n) => file_name_of(path@) == Some(n@),
            None => file_name_of(path@) is None,
        },
{
    let comps = split(path, '/');
    let ghost sc = split_char(path@, '/');
    assert(comps@.map_values(|c: &str| c@) =~= sc);
    let mut k: usize = comps.len();
    assert(sc.take(k as int) =~= sc);
    while k > 0
        invariant
            sc == split_char(path@, '/'),
            comps@.len() == sc.len(),
            forall|m: int| 0 <= m < comps@.len() ==> #[trigger] comps@[m]@ == sc[m],
            k <= comps@.len(),
            last_normal(sc) == last_normal(sc.take(k as int)),
        decreases k,
    {
        let ghost t = sc.take(k as int);
        assert(t.drop_last() =~= sc.take(k - 1));
        assert(t.last() == sc[k - 1]);
        let c = comps[k - 1];
        if c.unicode_len() == 0 || str_eq(c, ".") {
            k = k - 1;
        } else {
            if str_eq(c, "..") {
                return None;
            }
            return Some(c);
        }
    }
    None
}

/// The extension of a path.
fn extension<'a>(path: &'a str) -> (r: Option<&'a str>)
    ensures
        match r {
            Some(e) => extension_of(path@) == Some(e@),
            None => extension_of(path@) is None,
        },
{
    match file_name(path) {
        None => None,
        Some(n) => {
            let cs = to_chars(n);
            let mut k: usize = cs.len();
            assert(cs@.take(k as int) =~= cs@);
            while k > 0 && cs[k - 1] != '.'
                invariant
                    cs@ == n@,
                    k <= cs@.len(),
                    last_dot(cs@) == last_dot(cs@.take(k as int)),
                decreases k,
            {
                let ghost t = cs@.take(k as int);
                assert(t.drop_last() =~= cs@.take(k - 1));
                k = k - 1;
            }
            if k == 0 {
                return None;
            }
            let ghost t = cs@.take(k as int);
            assert(t.last() == cs@[k - 1]);
            if k == 1 {
                return None;
            }
            Some(n.substring_char(k, cs.len()))
        },
    }
}

/// The content type of the file at `path`, by its extension.
pub fn get_mime_type(path: &str) -> (r: &'static str)
    ensures
        r@ == mime_of(extension_of(path@)),
{
    match extension(path) {
        Some(e) => if str_eq(e, "html") {
            "text/html; charset=utf-8"
        } else if str_eq(e, "css") {
            "text/css; charset=utf-8"
        } else if str_eq(e, "js") {
            "application/javascript; charset=utf-8"
        } else {
            "application/octet-stream"
        },
        None => "application/octet-stream",
    }
}

/// The directory the static files are served from, with a trailing `/`.
pub open spec fn static_root() -> Seq<char> {
    "src/control/web_server/html/"@
}

/// Where the file a request path names lies: the path, its leading `/`s
/// removed, under the static directory. When that is a directory, the
/// server sends its `index.html` (see `index_file_path`).
pub fn get_full_path(relative_path: &str) -> (r: String)
    ensures
        r@ == static_root() + trim_start_char(relative_path@, '/'),
{
    let safe_path = trim_start_matches_char(relative_path, '/');
    let mut p = string_of("src/control/web_server/html/");
    append_str(&mut p, safe_path);
    p
}

/// The `index.html` file of a directory path (joined as `Path::join` does:
/// with a `/` between them unless the path is empty or ends with one).
pub fn index_file_path(dir: &str) -> (r: String)
    ensures
        r@ == (if dir@.len() > 0 && dir@.last() != '/' {
            dir@ + "/index.html"@
        } else {
            dir@ + "index.html"@
        }),
{
    let cs = to_chars(dir);
    let mut p = string_of(dir);
    if cs.len() > 0 && cs[cs.len() - 1] != '/' {
        append_str(&mut p, "/index.html");
    } else {
        append_str(&mut p, "index.html");
    }
    p
}

/// The head of the answer that serves a file of `len` bytes with content
/// type `mime`.
pub fn file_response_head(mime: &str, len: usize) -> (r: String)
    ensures
        r@ == "HTTP/1.1 200 OK\r\nContent-Type: "@ + mime@ + "\r\nContent-Length: "@ + decimal(
            len as nat,
        ) + "\r\n\r\n"@,
{
    let mut r = string_of("HTTP/1.1 200 OK\r\nContent-Type: ");
    append_str(&mut r, mime);
    append_str(&mut r, "\r\nContent-Length: ");
    append_decimal(&mut r, len);
    append_str(&mut r, "\r\n\r\n");
    r
}

/// The answer when a requested file cannot be opened.
pub fn file_not_found_response() -> (r: &'static str)
    ensures
        r@ == api_not_found_response(),
{
    "HTTP/1.1 404 NOT FOUND\r\nContent-Type: text/plain\r\n\r\n404 Not Found"
}

/// The answer to an API command that ran.
pub open spec fn api_ok_response() -> Seq<char> {
    "HTTP/1.1 200 OK\r\nContent-Type: text/plain\r\n\r\nCommand Success"@
}

/// The answer to an API command that does not exist.
pub open spec fn api_not_found_response() -> Seq<char> {
    "HTTP/1.1 404 NOT FOUND\r\nContent-Type: text/plain\r\n\r\n404 Not Found"@
}

/// The part of a request path after its leading `/api`s.
pub open spec fn api_path_of(path: Seq<char>) -> Seq<char> {
    trim_start_str(path, "/api"@)
}

/// Handles an API request with the body `req` (none when the request has no
/// body): runs the command the path names and gives the answer to send
/// back, none for a request without a body. The error part is always
/// `UnsupportedReq`. `freq` is the request value converted to an integer.
pub fn handle_api_request<F: Copy>(
    path: &str,
    req: Option<ApiRequest<F>>,
    freq: i32,
    dsp_slots: &mut Vec<Dsp<F>>,
) -> (r: (Option<&'static str>, HttpError))
    requires
        req is Some ==> !command_panics(route_of(command_parts(api_path_of(path@))), old(dsp_slots)@),
    ensures
        r.1 == HttpError::UnsupportedReq,
        match req {
            None => r.0 is None && final(dsp_slots)@ == old(dsp_slots)@,
            Some(q) => match command_result(
                route_of(command_parts(api_path_of(path@))),
                old(dsp_slots)@,
                q.value,
                freq,
            ) {
                Ok(s) => r.0 matches Some(t) && t@ == api_ok_response() && final(dsp_slots)@ == s,
                Err(_) => r.0 matches Some(t) && t@ == api_not_found_response() && final(dsp_slots)@
                    == old(dsp_slots)@,
            },
        },
        all_wf(old(dsp_slots)@) ==> all_wf(final(dsp_slots)@),
{
    match req {
        None => (None, HttpError::UnsupportedReq),
        Some(q) => {
            let api_path = trim_start_matches_str(path, "/api");
            match run_dsp_command(q, freq, api_path, dsp_slots) {
                Ok(_) => (
                    Some("HTTP/1.1 200 OK\r\nContent-Type: text/plain\r\n\r\nCommand Success"),
                    HttpError::UnsupportedReq,
                ),
                Err(_) => (
                    Some("HTTP/1.1 404 NOT FOUND\r\nContent-Type: text/plain\r\n\r\n404 Not Found"),
                    HttpError::UnsupportedReq,
                ),
            }
        },
    }
}

} // verus!
