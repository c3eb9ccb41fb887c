//! Recording: which input configuration of the microphone is used, at which
//! rate it is captured, and how the 16-bit samples become a WAV file.

use vstd::prelude::*;
use crate::text::concat;
use crate::text::owned;
use crate::text::string_of;

verus! {

#[verifier::external_type_specification]
#[verifier::external_body]
pub struct ExHoundError(hound::Error);

/// The sample formats an input device can offer.
#[derive(Clone, Copy, Debug, PartialEq, Eq, Structural)]
pub enum SampleFormat {
    I8,
    I16,
    I32,
    I64,
    U8,
    U16,
    U32,
    U64,
    F32,
    F64,
    /// A format this library does not know by name.
    Unknown,
}

/// One configuration range an input device supports.
#[derive(Clone, Copy, Debug, PartialEq, Eq, Structural)]
pub struct InputConfig {
    pub format: SampleFormat,
    pub channels: u16,
    pub min_rate: u32,
    pub max_rate: u32,
}

/// The sample rate the speech recogniser expects.
pub const TARGET_RATE: u32 = 16000;

/// The formats tried, best first: no conversion, then the common integer
/// formats.
pub open spec fn format_priority() -> Seq<SampleFormat> {
    seq![SampleFormat::F32, SampleFormat::I16, SampleFormat::U16, SampleFormat::I32, SampleFormat::U8]
}

/// A configuration of format `f` with one to four channels.
pub open spec fn usable(c: InputConfig, f: SampleFormat) -> bool {
    1 <= c.channels <= 4 && c.format == f
}

pub open spec fn has_usable(cs: Seq<InputConfig>, f: SampleFormat) -> bool {
    exists|j: int| 0 <= j < cs.len() && usable(#[trigger] cs[j], f)
}

pub open spec fn abs(x: int) -> int {
    if x < 0 {
        -x
    } else {
        x
    }
}

/// How far a configuration's rate range is from 16 kHz: 0 when it contains
/// it, otherwise the distance from the nearer end.
pub open spec fn rate_distance(c: InputConfig) -> int {
    if c.min_rate <= 16000 && c.max_rate >= 16000 {
        0
    } else {
        let a = abs(c.min_rate - 16000);
        let b = abs(c.max_rate - 16000);
        if a <= b {
            a
        } else {
            b
        }
    }
}

/// The first format, in order of priority, that some usable configuration
/// has.
pub open spec fn chosen_format(cs: Seq<InputConfig>) -> Option<SampleFormat> {
    if has_usable(cs, SampleFormat::F32) {
        Some(SampleFormat::F32)
    } else if has_usable(cs, SampleFormat::I16) {
        Some(SampleFormat::I16)
    } else if has_usable(cs, SampleFormat::U16) {
        Some(SampleFormat::U16)
    } else if has_usable(cs, SampleFormat::I32) {
        Some(SampleFormat::I32)
    } else if has_usable(cs, SampleFormat::U8) {
        Some(SampleFormat::U8)
    } else {
        None
    }
}

/// Whether format `f` is looked at: it is one of the priority formats and
/// none before it has a usable configuration.
pub open spec fn tried(cs: Seq<InputConfig>, f: SampleFormat) -> bool {
    ||| f == SampleFormat::F32
    ||| f == SampleFormat::I16 && !has_usable(cs, SampleFormat::F32)
    ||| f == SampleFormat::U16 && !has_usable(cs, SampleFormat::F32) && !has_usable(
        cs,
        SampleFormat::I16,
    )
    ||| f == SampleFormat::I32 && !has_usable(cs, SampleFormat::F32) && !has_usable(
        cs,
        SampleFormat::I16,
    ) && !has_usable(cs, SampleFormat::U16)
    ||| f == SampleFormat::U8 && !has_usable(cs, SampleFormat::F32) && !has_usable(
        cs,
        SampleFormat::I16,
    ) && !has_usable(cs, SampleFormat::U16) && !has_usable(cs, SampleFormat::I32)
}

/// The rate ranges of the configurations whose distance to 16 kHz is
/// computed fit in `i32`, as the computation needs.
pub open spec fn rates_in_range(cs: Seq<InputConfig>) -> bool {
    forall|i: int|
        0 <= i < cs.len() && 1 <= #[trigger] cs[i].channels <= 4 && tried(cs, cs[i].format)
            ==> cs[i].min_rate <= i32::MAX && cs[i].max_rate <= i32::MAX
}

/// Every usable configuration of format `f` has its rate range in `i32`.
pub open spec fn format_rates_fit(cs: Seq<InputConfig>, f: SampleFormat) -> bool {
    forall|i: int|
        0 <= i < cs.len() && usable(#[trigger] cs[i], f) ==> cs[i].min_rate <= i32::MAX
            && cs[i].max_rate <= i32::MAX
}

/// Whether some configuration is usable with `f`, and whether those that are
/// have their rate ranges in `i32`.
fn format_check(configs: &Vec<InputConfig>, f: SampleFormat) -> (r: (bool, bool))
    ensures
        r.0 == has_usable(configs@, f),
        r.1 == format_rates_fit(configs@, f),
{
    let mut found = false;
    let mut fits = true;
    let mut i: usize = 0;
    while i < configs.len()
        invariant
            i <= configs@.len(),
            found == exists|j: int| 0 <= j < i && usable(#[trigger] configs@[j], f),
            fits == forall|j: int|
                0 <= j < i && usable(#[trigger] configs@[j], f) ==> configs@[j].min_rate
                    <= i32::MAX && configs@[j].max_rate <= i32::MAX,
        decreases configs@.len() - i,
    {
        let c = &configs[i];
        if 1 <= c.channels && c.channels <= 4 && c.format == f {
            found = true;
            if c.min_rate > 2147483647 || c.max_rate > 2147483647 {
                fits = false;
            }
        }
        i += 1;
    }
    (found, fits)
}

/// Whether the configurations meet what `select_input_config` needs: the
/// rate ranges of those whose distance to 16 kHz it computes fit in `i32`.
pub fn rates_fit(configs: &Vec<InputConfig>) -> (b: bool)
    ensures
        b == rates_in_range(configs@),
{
    let cs = Ghost(configs@);
    let formats = [SampleFormat::F32, SampleFormat::I16, SampleFormat::U16, SampleFormat::I32, SampleFormat::U8];
    let mut k: usize = 0;
    while k < 5
        invariant
            k <= 5,
            cs@ == configs@,
            formats@ == format_priority(),
            forall|m: int| 0 <= m < k ==> #[trigger] tried(cs@, formats@[m]),
            forall|m: int| 0 <= m < k ==> format_rates_fit(cs@, #[trigger] formats@[m]),
            k < 5 ==> tried(cs@, formats@[k as int]),
        decreases 5 - k,
    {
        let (found, fits) = format_check(configs, formats[k]);
        if !fits {
            proof {
                let f = formats@[k as int];
                let i = choose|i: int|
                    0 <= i < cs@.len() && usable(#[trigger] cs@[i], f) && !(cs@[i].min_rate
                        <= i32::MAX && cs@[i].max_rate <= i32::MAX);
                assert(1 <= cs@[i].channels <= 4 && tried(cs@, cs@[i].format));
            }
            return false;
        }
        if found {
            proof {
                assert forall|i: int|
                    0 <= i < cs@.len() && 1 <= #[trigger] cs@[i].channels <= 4 && tried(
                        cs@,
                        cs@[i].format,
                    ) implies cs@[i].min_rate <= i32::MAX && cs@[i].max_rate <= i32::MAX by {
                    let g = cs@[i].format;
                    let m = choose|m: int| 0 <= m <= k && formats@[m] == g;
                    assert(usable(cs@[i], formats@[m]));
                }
            }
            return true;
        }
        k += 1;
    }
    proof {
        assert forall|i: int|
            0 <= i < cs@.len() && 1 <= #[trigger] cs@[i].channels <= 4 && tried(
                cs@,
                cs@[i].format,
            ) implies cs@[i].min_rate <= i32::MAX && cs@[i].max_rate <= i32::MAX by {
            let g = cs@[i].format;
            let m = choose|m: int| 0 <= m < 5 && formats@[m] == g;
            assert(usable(cs@[i], formats@[m]));
        }
    }
    true
}

/// Configuration `i` is usable with format `f` and is the first of those
/// nearest to 16 kHz.
pub open spec fn best_of_format(cs: Seq<InputConfig>, f: SampleFormat, i: int) -> bool {
    &&& 0 <= i < cs.len()
    &&& usable(cs[i], f)
    &&& forall|j: int|
        0 <= j < cs.len() && usable(#[trigger] cs[j], f) ==> rate_distance(cs[i])
            <= rate_distance(cs[j])
    &&& forall|j: int|
        0 <= j < i && usable(#[trigger] cs[j], f) ==> rate_distance(cs[i]) < rate_distance(cs[j])
}

fn distance(c: &InputConfig) -> (d: u32)
    requires
        c.min_rate <= i32::MAX,
        c.max_rate <= i32::MAX,
    ensures
        d == rate_distance(*c),
{
    if c.min_rate <= TARGET_RATE && c.max_rate >= TARGET_RATE {
        0
    } else {
        let a: u32 = if c.min_rate >= TARGET_RATE {
            c.min_rate - TARGET_RATE
        } else {
            TARGET_RATE - c.min_rate
        };
        let b: u32 = if c.max_rate >= TARGET_RATE {
            c.max_rate - TARGET_RATE
        } else {
            TARGET_RATE - c.max_rate
        };
        if a <= b {
            a
        } else {
            b
        }
    }
}

/// The first usable configuration of format `f` nearest to 16 kHz, if any
/// (`Iterator::min_by_key` keeps the first of equal minima).
fn best_for_format(configs: &Vec<InputConfig>, f: SampleFormat) -> (r: Option<usize>)
    requires
        tried(configs@, f),
        rates_in_range(configs@),
    ensures
        match r {
            Some(i) => best_of_format(configs@, f, i as int),
            None => !has_usable(configs@, f),
        },
{
    let mut best: Option<usize> = None;
    let mut best_d: u32 = 0;
    let mut i: usize = 0;
    while i < configs.len()
        invariant
            i <= configs@.len(),
            tried(configs@, f),
            rates_in_range(configs@),
            match best {
                Some(b) => {
                    &&& b < i
                    &&& usable(configs@[b as int], f)
                    &&& best_d == rate_distance(configs@[b as int])
                    &&& forall|j: int|
                        0 <= j < i && usable(#[trigger] configs@[j], f) ==> best_d
                            <= rate_distance(configs@[j])
                    &&& forall|j: int|
                        0 <= j < b && usable(#[trigger] configs@[j], f) ==> best_d
                            < rate_distance(configs@[j])
                },
                None => forall|j: int| 0 <= j < i ==> !usable(#[trigger] configs@[j], f),
            },
        decreases configs.len() - i,
    {
        let c = &configs[i];
        if c.channels >= 1 && c.channels <= 4 && c.format == f {
            assert(configs@[i as int] == *c);
            let d = distance(c);
            match best {
                Some(_) => {
                    if d < best_d {
                        best = Some(i);
                        best_d = d;
                    }
                },
                None => {
                    best = Some(i);
                    best_d = d;
                },
            }
        }
        i += 1;
    }
    best
}

/// Chooses the input configuration: the formats are tried in the order
/// F32, I16, U16, I32, U8, and of the first that has configurations with
/// one to four channels, the first one nearest to 16 kHz is taken.
pub fn select_input_config(configs: &Vec<InputConfig>) -> (r: Option<usize>)
    requires
        rates_in_range(configs@),
    ensures
        r is None <==> chosen_format(configs@) is None,
        r matches Some(i) ==> best_of_format(configs@, chosen_format(configs@)->0, i as int),
        r matches Some(i) ==> ((forall|j: int| 0 <= j < configs@.len() ==> #[trigger] configs@[j].min_rate
            <= configs@[j].max_rate) && (exists|j: int|
            0 <= j < configs@.len() && 1 <= #[trigger] configs@[j].channels <= 4
                && configs@[j].format == configs@[i as int].format && configs@[j].min_rate <= 16000
                <= configs@[j].max_rate) ==> configs@[i as int].min_rate <= 16000
            <= configs@[i as int].max_rate),
{
    let r = select_format_in_order(configs);
    proof {
        if let Some(i) = r {
            lemma_chosen_config_is_nearest(configs@, i as int);
        }
    }
    r
}

fn select_format_in_order(configs: &Vec<InputConfig>) -> (r: Option<usize>)
    requires
        rates_in_range(configs@),
    ensures
        r is None <==> chosen_format(configs@) is None,
        r matches Some(i) ==> best_of_format(configs@, chosen_format(configs@)->0, i as int),
{
    let r = best_for_format(configs, SampleFormat::F32);
    if r.is_some() {
        return r;
    }
    let r = best_for_format(configs, SampleFormat::I16);
    if r.is_some() {
        return r;
    }
    let r = best_for_format(configs, SampleFormat::U16);
    if r.is_some() {
        return r;
    }
    let r = best_for_format(configs, SampleFormat::I32);
    if r.is_some() {
        return r;
    }
    best_for_format(configs, SampleFormat::U8)
}

/// The configuration chosen is nearest to 16 kHz among the usable ones of
/// the chosen format, and the first of those: a range that contains 16 kHz
/// is no distance away, any other is as far as its nearer end. In
/// particular, when a usable configuration of that format can capture at
/// 16 kHz, so can the chosen one (of ranges that run from low to high, as a
/// device lists them).
pub proof fn lemma_chosen_config_is_nearest(cs: Seq<InputConfig>, i: int)
    requires
        chosen_format(cs) is Some,
        best_of_format(cs, chosen_format(cs)->0, i),
    ensures
        0 <= i < cs.len(),
        1 <= cs[i].channels <= 4,
        cs[i].format == chosen_format(cs)->0,
        forall|j: int|
            #![trigger cs[j]]
            0 <= j < cs.len() && 1 <= cs[j].channels <= 4 && cs[j].format == cs[i].format ==> {
                let gi = if cs[i].min_rate <= 16000 <= cs[i].max_rate {
                    0
                } else if abs(cs[i].min_rate - 16000) <= abs(cs[i].max_rate - 16000) {
                    abs(cs[i].min_rate - 16000)
                } else {
                    abs(cs[i].max_rate - 16000)
                };
                let gj = if cs[j].min_rate <= 16000 <= cs[j].max_rate {
                    0
                } else if abs(cs[j].min_rate - 16000) <= abs(cs[j].max_rate - 16000) {
                    abs(cs[j].min_rate - 16000)
                } else {
                    abs(cs[j].max_rate - 16000)
                };
                &&& gi <= gj
                &&& j < i ==> gi < gj
            },
        (forall|j: int| 0 <= j < cs.len() ==> #[trigger] cs[j].min_rate <= cs[j].max_rate) && (
        exists|j: int|
            0 <= j < cs.len() && 1 <= #[trigger] cs[j].channels <= 4 && cs[j].format == cs[i].format
                && cs[j].min_rate <= 16000 <= cs[j].max_rate) ==> cs[i].min_rate <= 16000
            <= cs[i].max_rate,
{
    let f = chosen_format(cs)->0;
    assert forall|j: int|
        #![trigger cs[j]]
        0 <= j < cs.len() && 1 <= cs[j].channels <= 4 && cs[j].format == cs[i].format implies
            rate_distance(cs[i]) <= rate_distance(cs[j]) && (j < i ==> rate_distance(cs[i])
            < rate_distance(cs[j])) by {
        assert(usable(cs[j], f));
    }
    if exists|j: int|
        0 <= j < cs.len() && 1 <= #[trigger] cs[j].channels <= 4 && cs[j].format == cs[i].format
            && cs[j].min_rate <= 16000 <= cs[j].max_rate {
        let j = choose|j: int|
            0 <= j < cs.len() && 1 <= #[trigger] cs[j].channels <= 4 && cs[j].format == cs[i].format
                && cs[j].min_rate <= 16000 <= cs[j].max_rate;
        assert(usable(cs[j], f));
        assert(rate_distance(cs[j]) == 0);
        assert(rate_distance(cs[i]) == 0);
        assert(usable(cs[i], f));
    }
}

/// The capture rate for a configuration: 16 kHz when its range contains it,
/// otherwise its range's nearest point to 44.1 kHz, never below its
/// minimum.
pub open spec fn capture_rate_spec(min_rate: u32, max_rate: u32) -> u32 {
    if min_rate <= 16000 && max_rate >= 16000 {
        16000
    } else {
        let capped: u32 = if max_rate <= 44100 {
            max_rate
        } else {
            44100
        };
        if min_rate >= capped {
            min_rate
        } else {
            capped
        }
    }
}

pub fn capture_rate(min_rate: u32, max_rate: u32) -> (r: u32)
    ensures
        r == capture_rate_spec(min_rate, max_rate),
{
    if min_rate <= TARGET_RATE && max_rate >= TARGET_RATE {
        TARGET_RATE
    } else {
        let capped = if max_rate <= 44100 {
            max_rate
        } else {
            44100
        };
        if min_rate >= capped {
            min_rate
        } else {
            capped
        }
    }
}

/// The decimal digit for `d` in `0..10`.
pub open spec fn digit_char(d: int) -> char {
    seq!['0', '1', '2', '3', '4', '5', '6', '7', '8', '9'][d]
}

/// The decimal notation of `n`, without leading zeros.
pub open spec fn decimal(n: nat) -> Seq<char>
    decreases n,
{
    if n < 10 {
        seq![digit_char(n as int)]
    } else {
        decimal(n / 10).push(digit_char((n % 10) as int))
    }
}

fn decimal_chars(n: u32) -> (v: Vec<char>)
    ensures
        v@ == decimal(n as nat),
    decreases n,
{
    let digits: [char; 10] = ['0', '1', '2', '3', '4', '5', '6', '7', '8', '9'];
    assert(digits@ == seq!['0', '1', '2', '3', '4', '5', '6', '7', '8', '9']);
    if n < 10 {
        let mut v: Vec<char> = Vec::new();
        v.push(digits[n as usize]);
        v
    } else {
        let mut v = decimal_chars(n / 10);
        v.push(digits[(n % 10) as usize]);
        v
    }
}

/// `n` in decimal notation (what `{}` prints for it).
pub fn decimal_string(n: u32) -> (s: String)
    ensures
        s@ == decimal(n as nat),
{
    string_of(&decimal_chars(n))
}

/// The name of a sample format, as `{:?}` prints it.
pub open spec fn format_name(f: SampleFormat) -> Seq<char> {
    match f {
        SampleFormat::I8 => "I8"@,
        SampleFormat::I16 => "I16"@,
        SampleFormat::I32 => "I32"@,
        SampleFormat::I64 => "I64"@,
        SampleFormat::U8 => "U8"@,
        SampleFormat::U16 => "U16"@,
        SampleFormat::U32 => "U32"@,
        SampleFormat::U64 => "U64"@,
        SampleFormat::F32 => "F32"@,
        SampleFormat::F64 => "F64"@,
        SampleFormat::Unknown => "Unknown"@,
    }
}

fn format_name_str(f: SampleFormat) -> (s: &'static str)
    ensures
        s@ == format_name(f),
{
    match f {
        SampleFormat::I8 => "I8",
        SampleFormat::I16 => "I16",
        SampleFormat::I32 => "I32",
        SampleFormat::I64 => "I64",
        SampleFormat::U8 => "U8",
        SampleFormat::U16 => "U16",
        SampleFormat::U32 => "U32",
        SampleFormat::U64 => "U64",
        SampleFormat::F32 => "F32",
        SampleFormat::F64 => "F64",
        SampleFormat::Unknown => "Unknown",
    }
}

/// A configuration as the diagnostics list it: `F32 (2ch, 44100-48000Hz)`.
pub open spec fn describe_spec(c: InputConfig) -> Seq<char> {
    format_name(c.format) + " ("@ + decimal(c.channels as nat) + "ch, "@ + decimal(
        c.min_rate as nat,
    ) + "-"@ + decimal(c.max_rate as nat) + "Hz)"@
}

pub fn describe(c: &InputConfig) -> (s: String)
    ensures
        s@ == describe_spec(*c),
{
    let mut s = owned(format_name_str(c.format));
    s.append(" (");
    s.append(decimal_string(c.channels as u32).as_str());
    s.append("ch, ");
    s.append(decimal_string(c.min_rate).as_str());
    s.append("-");
    s.append(decimal_string(c.max_rate).as_str());
    s.append("Hz)");
    s
}

/// The descriptions of the configurations, separated by a line break and two
/// spaces.
pub open spec fn describe_all(cs: Seq<InputConfig>) -> Seq<char>
    decreases cs.len(),
{
    if cs.len() == 0 {
        Seq::empty()
    } else if cs.len() == 1 {
        describe_spec(cs[0])
    } else {
        describe_all(cs.drop_last()) + "\n  "@ + describe_spec(cs.last())
    }
}

/// The message when no configuration can be used.
pub open spec fn no_suitable_config_message(cs: Seq<InputConfig>) -> Seq<char> {
    "No suitable input config found.\nRequired: 1-4 channels\nAvailable formats on device:\n  "@
        + describe_all(cs)
}

fn describe_configs(configs: &Vec<InputConfig>) -> (s: String)
    ensures
        s@ == describe_all(configs@),
{
    let mut s = String::new();
    let mut i: usize = 0;
    while i < configs.len()
        invariant
            i <= configs@.len(),
            s@ == describe_all(configs@.take(i as int)),
        decreases configs.len() - i,
    {
        let d = describe(&configs[i]);
        proof {
            let t = configs@.take(i + 1);
            assert(t.drop_last() == configs@.take(i as int));
            assert(t.last() == configs@[i as int]);
        }
        if i > 0 {
            s.append("\n  ");
        } else {
            assert(configs@.take(0) == Seq::<InputConfig>::empty());
        }
        s.append(d.as_str());
        i += 1;
    }
    assert(configs@.take(configs.len() as int) == configs@);
    s
}

/// Chooses the input configuration to record with, or says why none can be
/// used: the device offers none, or none has a priority format with one to
/// four channels (the message then lists what the device offers).
pub fn choose_input_config(configs: &Vec<InputConfig>) -> (r: Result<usize, String>)
    requires
        rates_in_range(configs@),
    ensures
        configs@.len() == 0 ==> (r matches Err(e) && e@
            == "No input configurations available on device"@),
        configs@.len() > 0 && chosen_format(configs@) is None ==> (r matches Err(e) && e@
            == no_suitable_config_message(configs@)),
        configs@.len() > 0 && chosen_format(configs@) is Some ==> (r matches Ok(i)
            && best_of_format(configs@, chosen_format(configs@)->0, i as int)),
        r matches Ok(i) ==> ((forall|j: int| 0 <= j < configs@.len() ==> #[trigger] configs@[j].min_rate
            <= configs@[j].max_rate) && (exists|j: int|
            0 <= j < configs@.len() && 1 <= #[trigger] configs@[j].channels <= 4
                && configs@[j].format == configs@[i as int].format && configs@[j].min_rate <= 16000
                <= configs@[j].max_rate) ==> configs@[i as int].min_rate <= 16000
            <= configs@[i as int].max_rate),
{
    if configs.len() == 0 {
        return Err(owned("No input configurations available on device"));
    }
    match select_input_config(configs) {
        Some(i) => Ok(i),
        None => {
            let list = describe_configs(configs);
            Err(
                concat(
                    "No suitable input config found.\nRequired: 1-4 channels\nAvailable formats on device:\n  ",
                    list.as_str(),
                ),
            )
        },
    }
}

/// Whether the recorder is capturing, and at which rate it last captured.
pub struct RecorderState {
    is_recording: bool,
    sample_rate: u32,
}

impl View for RecorderState {
    type V = (bool, u32);

    closed spec fn view(&self) -> (bool, u32) {
        (self.is_recording, self.sample_rate)
    }
}

impl RecorderState {
    /// Not recording, at the speech recogniser's 16 kHz.
    pub fn new() -> (r: RecorderState)
        ensures
            r@ == (false, 16000u32),
    {
        RecorderState { is_recording: false, sample_rate: TARGET_RATE }
    }

    pub fn is_recording(&self) -> (b: bool)
        ensures
            b == self@.0,
    {
        self.is_recording
    }

    /// Whether a request to start recording must open the input device:
    /// not while a recording is running, where the request does nothing.
    pub fn begin(&self) -> (open_device: bool)
        ensures
            open_device == !self@.0,
    {
        !self.is_recording
    }

    pub fn sample_rate(&self) -> (r: u32)
        ensures
            r == self@.1,
    {
        self.sample_rate
    }

    /// The rate the next capture uses, chosen before its stream is opened.
    pub fn set_rate(&mut self, rate: u32)
        ensures
            final(self)@ == (old(self)@.0, rate),
    {
        self.sample_rate = rate;
    }

    /// The capture stream is running.
    pub fn started(&mut self)
        ensures
            final(self)@ == (true, old(self)@.1),
    {
        self.is_recording = true;
    }

    /// Stops recording after `captured` samples: an error when nothing was
    /// recording or nothing was captured, otherwise whether the samples must
    /// be resampled to 16 kHz. Recording has stopped either way.
    pub fn stop(&mut self, captured: usize) -> (r: Result<bool, String>)
        ensures
            final(self)@ == (false, old(self)@.1),
            !old(self)@.0 ==> (r matches Err(e) && e@ == "Not recording"@),
            old(self)@.0 && captured == 0 ==> (r matches Err(e) && e@ == "No audio captured"@),
            old(self)@.0 && captured > 0 ==> r == Ok::<bool, String>(old(self)@.1 != 16000),
    {
        if !self.is_recording {
            return Err(owned("Not recording"));
        }
        self.is_recording = false;
        if captured == 0 {
            return Err(owned("No audio captured"));
        }
        Ok(self.sample_rate != TARGET_RATE)
    }
}

/// The little-endian bytes of a 16-bit value.
pub open spec fn le16(x: int) -> Seq<u8> {
    seq![(x % 256) as u8, (x / 256 % 256) as u8]
}

/// The little-endian bytes of a 32-bit value.
pub open spec fn le32(x: int) -> Seq<u8> {
    seq![(x % 256) as u8, (x / 256 % 256) as u8, (x / 65536 % 256) as u8, (x / 16777216 % 256) as u8]
}

/// The header of a mono, 16-bit PCM WAV file with `n` samples at `rate`
/// samples a second: `RIFF`, the size, `WAVE`, the 16-byte `fmt ` chunk
/// (format 1, one channel, the rate, the byte rate, a block of two bytes,
/// 16 bits), and the `data` chunk header.
pub open spec fn wav_header(rate: nat, n: nat) -> Seq<u8> {
    seq![82u8, 73, 70, 70] + le32(36 + 2 * n as int) + seq![87u8, 65, 86, 69] + seq![
        102u8,
        109,
        116,
        32,
    ] + le32(16) + le16(1) + le16(1) + le32(rate as int) + le32(2 * rate as int) + le16(2)
        + le16(16) + seq![100u8, 97, 116, 97] + le32(2 * n as int)
}

/// The samples as 16-bit two's complement, little endian.
pub open spec fn pcm16_le(samples: Seq<i16>) -> Seq<u8>
    decreases samples.len(),
{
    if samples.len() == 0 {
        Seq::empty()
    } else {
        pcm16_le(samples.drop_last()) + le16(unsigned16(samples.last() as int))
    }
}

/// A 16-bit two's complement value read as unsigned.
pub open spec fn unsigned16(s: int) -> int {
    if s < 0 {
        s + 65536
    } else {
        s
    }
}

/// A mono, 16-bit PCM WAV file holding `samples` at `rate` samples a second.
pub open spec fn wav_file(rate: nat, samples: Seq<i16>) -> Seq<u8> {
    wav_header(rate, samples.len()) + pcm16_le(samples)
}

/// The most samples a WAV file can hold: the file's size must fit the
/// 32-bit size fields.
pub open spec fn wav_capacity() -> nat {
    2147483629
}

/// `hound::WavWriter::new` on an in-memory cursor with the spec made of
/// `channels`, `sample_rate`, `bits_per_sample` and integer (or float)
/// samples, `write_sample` for each sample, then `finalize`. For one channel
/// of 16-bit integers hound writes the 44-byte PCM header (`RIFF`, `WAVE`, a
/// 16-byte `fmt ` chunk with format 1, the rate, twice the rate as byte rate,
/// `data`) followed by each sample as 16-bit little endian, and fills in both
/// sizes on `finalize`. None of these steps fails on an in-memory cursor while
/// the sizes and the byte rate fit in `u32`; a rate of zero would divide by
/// zero.
#[verifier::external_body]
fn hound_write_wav(
    channels: u16,
    sample_rate: u32,
    bits_per_sample: u16,
    integer_samples: bool,
    samples: &[i16],
) -> (r: Result<Vec<u8>, hound::Error>)
    requires
        channels == 1,
        bits_per_sample == 16,
        integer_samples,
        0 < sample_rate <= u32::MAX / 2,
        samples@.len() <= wav_capacity(),
    ensures
        r is Ok,
        r matches Ok(b) ==> b@ == wav_file(sample_rate as nat, samples@),
{
    let sample_format = if integer_samples {
        hound::SampleFormat::Int
    } else {
        hound::SampleFormat::Float
    };
    let spec = hound::WavSpec { channels, sample_rate, bits_per_sample, sample_format };
    let mut buffer = std::io::Cursor::new(Vec::new());
    let mut writer = hound::WavWriter::new(&mut buffer, spec)?;
    for &s in samples {
        writer.write_sample(s)?;
    }
    writer.finalize()?;
    Ok(buffer.into_inner())
}

/// The recording as a mono, 16 kHz, 16-bit PCM WAV file, which reads back
/// as exactly these samples.
pub fn encode_wav(samples: &Vec<i16>) -> (b: Vec<u8>)
    requires
        samples@.len() <= wav_capacity(),
    ensures
        b@ == wav_file(16000, samples@),
        wav_reads_as(b@, 1, 16000, 16, samples@),
{
    proof {
        lemma_wav_reads_back(16000, samples@);
    }
    match hound_write_wav(1, TARGET_RATE, 16, true, samples.as_slice()) {
        Ok(b) => b,
        Err(_) => {
            proof {
                assert(false);
            }
            Vec::new()
        },
    }
}

/// The 16-bit little-endian value at `i`.
pub open spec fn le16_at(b: Seq<u8>, i: int) -> int {
    b[i] as int + 256 * b[i + 1]
}

/// The 32-bit little-endian value at `i`.
pub open spec fn le32_at(b: Seq<u8>, i: int) -> int {
    le16_at(b, i) + 65536 * le16_at(b, i + 2)
}

/// A 16-bit unsigned value read as two's complement.
pub open spec fn signed16(u: int) -> int {
    if u >= 32768 {
        u - 65536
    } else {
        u
    }
}

/// What a reader of a canonical 44-byte-header PCM WAV file finds in `file`:
/// the `RIFF`/`WAVE`/`fmt `/`data` tags, a RIFF size that covers the rest of
/// the file, a 16-byte `fmt ` chunk of format 1 with `channels`, `rate` and
/// `bits` (and the byte rate and block size that follow from them), a data
/// chunk of exactly the sample bytes, and each sample read back as 16-bit
/// two's complement, little endian.
pub open spec fn wav_reads_as(file: Seq<u8>, channels: int, rate: int, bits: int, samples: Seq<i16>) -> bool {
    &&& file.len() == 44 + 2 * samples.len()
    &&& file.subrange(0, 4) == seq![82u8, 73, 70, 70]
    &&& le32_at(file, 4) == file.len() - 8
    &&& file.subrange(8, 16) == seq![87u8, 65, 86, 69, 102, 109, 116, 32]
    &&& le32_at(file, 16) == 16
    &&& le16_at(file, 20) == 1
    &&& le16_at(file, 22) == channels
    &&& le32_at(file, 24) == rate
    &&& le32_at(file, 28) == rate * channels * (bits / 8)
    &&& le16_at(file, 32) == channels * (bits / 8)
    &&& le16_at(file, 34) == bits
    &&& file.subrange(36, 40) == seq![100u8, 97, 116, 97]
    &&& le32_at(file, 40) == 2 * samples.len()
    &&& forall|k: int| 0 <= k < samples.len() ==> signed16(#[trigger] le16_at(file, 44 + 2 * k)) == samples[k]
}

proof fn lemma_le16_reads_back(x: int)
    requires
        0 <= x < 65536,
    ensures
        le16_at(le16(x), 0) == x,
{
    assert((x % 256) + 256 * (x / 256 % 256) == x) by (nonlinear_arith)
        requires
            0 <= x < 65536,
    ;
}

proof fn lemma_le32_reads_back(x: int)
    requires
        0 <= x < 4294967296,
    ensures
        le32_at(le32(x), 0) == x,
{
    assert((x % 256) + 256 * (x / 256 % 256) + 65536 * ((x / 65536 % 256) + 256 * (x / 16777216
        % 256)) == x) by (nonlinear_arith)
        requires
            0 <= x < 4294967296,
    ;
}

proof fn lemma_pcm16_le_bytes(samples: Seq<i16>)
    ensures
        pcm16_le(samples).len() == 2 * samples.len(),
        forall|k: int|
            0 <= k < samples.len() ==> #[trigger] pcm16_le(samples).subrange(2 * k, 2 * k + 2)
                == le16(unsigned16(samples[k] as int)),
    decreases samples.len(),
{
    if samples.len() > 0 {
        let init = samples.drop_last();
        lemma_pcm16_le_bytes(init);
        let p = pcm16_le(samples);
        assert forall|k: int| 0 <= k < samples.len() implies #[trigger] p.subrange(2 * k, 2 * k + 2)
            == le16(unsigned16(samples[k] as int)) by {
            if k < init.len() {
                assert(p.subrange(2 * k, 2 * k + 2) =~= pcm16_le(init).subrange(2 * k, 2 * k + 2));
            } else {
                assert(p.subrange(2 * k, 2 * k + 2) =~= le16(unsigned16(samples.last() as int)));
            }
        }
    }
}

/// A WAV file that `encode_wav` makes at `rate` reads back as one channel of
/// 16-bit samples at `rate`: exactly the samples it was given, in order.
#[verifier::spinoff_prover]
#[verifier::rlimit(50)]
pub proof fn lemma_wav_reads_back(rate: nat, samples: Seq<i16>)
    requires
        0 < rate <= u32::MAX / 2,
        samples.len() <= wav_capacity(),
    ensures
        wav_reads_as(wav_file(rate, samples), 1, rate as int, 16, samples),
{
    let n = samples.len();
    let f = wav_file(rate, samples);
    let h = wav_header(rate, n);
    lemma_pcm16_le_bytes(samples);
    assert(h.len() == 44);
    assert(f.subrange(0, 4) =~= seq![82u8, 73, 70, 70]);
    assert(f.subrange(8, 16) =~= seq![87u8, 65, 86, 69, 102, 109, 116, 32]);
    assert(f.subrange(36, 40) =~= seq![100u8, 97, 116, 97]);
    assert(f.subrange(4, 8) =~= le32(36 + 2 * n as int));
    assert(f.subrange(16, 20) =~= le32(16));
    assert(f.subrange(20, 22) =~= le16(1));
    assert(f.subrange(22, 24) =~= le16(1));
    assert(f.subrange(24, 28) =~= le32(rate as int));
    assert(f.subrange(28, 32) =~= le32(2 * rate as int));
    assert(f.subrange(32, 34) =~= le16(2));
    assert(f.subrange(34, 36) =~= le16(16));
    assert(f.subrange(40, 44) =~= le32(2 * n as int));
    lemma_le32_reads_back(36 + 2 * n as int);
    lemma_le32_reads_back(16);
    lemma_le16_reads_back(1);
    lemma_le32_reads_back(rate as int);
    lemma_le32_reads_back(2 * rate as int);
    lemma_le16_reads_back(2);
    lemma_le16_reads_back(16);
    lemma_le32_reads_back(2 * n as int);
    assert forall|k: int| 0 <= k < n implies signed16(#[trigger] le16_at(f, 44 + 2 * k)) == samples[k] by {
        let u = unsigned16(samples[k] as int);
        assert(f.subrange(44 + 2 * k, 44 + 2 * k + 2) =~= pcm16_le(samples).subrange(2 * k, 2 * k + 2));
        lemma_le16_reads_back(u);
    }
}

} // verus!
