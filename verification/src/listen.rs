//! Audio capture for `tendril listen`: which recorders a platform offers, the
//! argument vectors each recorder is run with, how ffmpeg's device listing is
//! read, and how the attempts to record add up to an outcome. Spawning the
//! recorders, waiting for them and looking at the file they wrote is done by
//! the caller.
use vstd::prelude::*;

use crate::error::{is_invalid, TendrilError};
use crate::model::{AudioFormat, AudioSourceKind, ListenInput};
use crate::platform::{audio_backend_name_spec, platform_name_spec, AudioBackend, PlatformKind};
use crate::text::{self, contains, decimal, joined, lines, owned, strings_view, trim};

verus! {

/// A recorded audio file.
#[derive(Debug, Clone, PartialEq, Eq)]
pub struct ListenArtifact {
    /// Path of the WAV file holding the captured audio.
    pub path: String,
    /// MIME type of the artifact (always `audio/wav`).
    pub media_type: String,
    /// Number of bytes written.
    pub byte_size: u64,
    pub sample_rate_hz: u32,
    pub channels: u8,
    /// The recorder program that produced the artifact.
    pub recorder: String,
}

/// Why no recorder was run.
#[derive(Debug, Clone, Copy, PartialEq, Eq, Structural)]
pub enum ListenSkipReason {
    UnsupportedPlatform,
    UnsupportedFormat,
    UnsupportedSource,
    RecorderUnavailable,
}

/// The outcome of a capture attempt.
#[derive(Debug, Clone, PartialEq, Eq)]
pub enum ListenCaptureResult {
    Captured { artifact: ListenArtifact, notes: Vec<String> },
    Skipped { reason: ListenSkipReason, notes: Vec<String> },
    Failed { recorder: String, message: String, notes: Vec<String> },
}

impl ListenCaptureResult {
    /// The recorded artifact, if any.
    pub fn artifact(&self) -> (r: Option<&ListenArtifact>)
        ensures
            match self {
                ListenCaptureResult::Captured { artifact, .. } => r == Some(artifact),
                _ => r is None,
            },
    {
        match self {
            ListenCaptureResult::Captured { artifact, .. } => Some(artifact),
            _ => None,
        }
    }

    /// The notes of any outcome.
    pub fn notes(&self) -> (r: &Vec<String>)
        ensures
            *r == match self {
                ListenCaptureResult::Captured { notes, .. } => *notes,
                ListenCaptureResult::Skipped { notes, .. } => *notes,
                ListenCaptureResult::Failed { notes, .. } => *notes,
            },
    {
        match self {
            ListenCaptureResult::Captured { notes, .. } => notes,
            ListenCaptureResult::Skipped { notes, .. } => notes,
            ListenCaptureResult::Failed { notes, .. } => notes,
        }
    }
}

// ---------------------------------------------------------------------------
// ffmpeg's AVFoundation device listing
// ---------------------------------------------------------------------------

/// An audio input device as ffmpeg's AVFoundation listing numbers it.
#[derive(Debug, Clone, PartialEq, Eq)]
pub struct AvfAudioDevice {
    pub index: u32,
    pub name: String,
}

/// A device line `[AVFoundation indev @ 0x..] [N] Name`: after the last
/// `] [`, the number up to the next `]`, then the trimmed name.
pub open spec fn avf_device_line(line: Seq<char>) -> Option<(u32, Seq<char>)> {
    match text::last_occurrence(line, "] ["@) {
        None => None,
        Some(t) => avf_device_tail(line.skip(t + 2)),
    }
}

/// The audio devices of a listing: device lines after the audio header
/// and before a video header.
pub open spec fn avf_devices(ls: Seq<Seq<char>>, in_audio: bool) -> Seq<(u32, Seq<char>)>
    decreases ls.len(),
{
    if ls.len() == 0 {
        seq![]
    } else {
        let l = ls[0];
        let rest = ls.drop_first();
        if contains(l, "AVFoundation audio devices:"@) {
            avf_devices(rest, true)
        } else if contains(l, "AVFoundation video devices:"@) {
            avf_devices(rest, false)
        } else if !in_audio {
            avf_devices(rest, false)
        } else {
            match avf_device_line(l) {
                Some(d) => seq![d] + avf_devices(rest, true),
                None => avf_devices(rest, true),
            }
        }
    }
}

/// What follows the `] ` before the device number: `[N] Name`.
pub open spec fn avf_device_tail(rest: Seq<char>) -> Option<(u32, Seq<char>)> {
    match text::index_of(rest, ']') {
        None => None,
        Some(c) => match text::parse_u32_spec(trim(rest.subrange(1, c))) {
            None => None,
            Some(index) => {
                let name = trim(rest.skip(c + 1));
                if name.len() == 0 {
                    None
                } else {
                    Some((index, name))
                }
            },
        },
    }
}

fn parse_avf_device_tail(rest: &[char]) -> (r: Option<(u32, Vec<char>)>)
    requires
        rest@.len() > 0 && rest@[0] == '[',
    ensures
        match r {
            Some((i, n)) => avf_device_tail(rest@) == Some((i, n@)),
            None => avf_device_tail(rest@) is None,
        },
{
    let c = text::index_of_char(rest, ']')?;
    let n = rest.len();
    assert(c >= 1 && c < n);
    let digits = text::slice_vec(rest, 1, c);
    let tail = text::slice_vec(rest, c + 1, n);
    assert(tail@ =~= rest@.skip(c + 1));
    let index = text::parse_u32(text::trimmed(digits.as_slice()).as_slice())?;
    let name = text::trimmed(tail.as_slice());
    if name.len() == 0 {
        return None;
    }
    Some((index, name))
}

fn parse_avf_device_line(line: &[char]) -> (r: Option<(u32, Vec<char>)>)
    ensures
        match r {
            Some((i, n)) => avf_device_line(line@) == Some((i, n@)),
            None => avf_device_line(line@) is None,
        },
{
    proof {
        reveal_strlit("] [");
    }
    let t = text::rfind_lit(line, "] [")?;
    let n = line.len();
    assert(t + 3 <= n);
    assert(line@[t + 2] == line@.subrange(t as int, t + 3)[2]);
    let rest = text::slice_vec(line, t + 2, n);
    assert(rest@ =~= line@.skip(t + 2));
    parse_avf_device_tail(rest.as_slice())
}

/// Reads the audio devices from ffmpeg's `-list_devices` standard error.
#[verifier::spinoff_prover]
#[verifier::rlimit(60)]
pub fn parse_avfoundation_audio_devices(stderr: &str) -> (r: Vec<AvfAudioDevice>)
    ensures
        ({
            let ds = avf_devices(lines(stderr@), false);
            &&& r@.len() == ds.len()
            &&& forall|k: int| 0 <= k < ds.len() ==> (#[trigger] r@[k]).index == ds[k].0 && r@[k].name@ == ds[k].1
        }),
{
    let ls = text::text_lines(stderr);
    let ghost lv = strings_view(ls@);
    let ghost all = avf_devices(lv, false);
    let mut devices: Vec<AvfAudioDevice> = Vec::new();
    let ghost mut found: Seq<(u32, Seq<char>)> = seq![];
    let mut in_audio = false;
    let mut i: usize = 0;
    assert(lv.skip(0) =~= lv);
    while i < ls.len()
        invariant
            lv == strings_view(ls@),
            lv == lines(stderr@),
            all == avf_devices(lv, false),
            i <= ls@.len(),
            found + avf_devices(lv.skip(i as int), in_audio) == all,
            devices@.len() == found.len(),
            forall|k: int| 0 <= k < found.len() ==> (#[trigger] devices@[k]).index == found[k].0 && devices@[k].name@ == found[k].1,
        decreases ls.len() - i,
    {
        let line = text::chars_of(ls[i].as_str());
        assert(lv.skip(i as int).drop_first() =~= lv.skip(i + 1));
        assert(lv.skip(i as int)[0] == line@);
        if text::contains_lit(line.as_slice(), "AVFoundation audio devices:") {
            in_audio = true;
        } else if text::contains_lit(line.as_slice(), "AVFoundation video devices:") {
            in_audio = false;
        } else if in_audio {
            match parse_avf_device_line(line.as_slice()) {
                Some((index, name)) => {
                    devices.push(AvfAudioDevice { index, name: text::string_of(name.as_slice()) });
                    proof {
                        let d = (index, name@);
                        assert(found.push(d) + avf_devices(lv.skip(i + 1), true) =~= found + (seq![d] + avf_devices(
                            lv.skip(i + 1),
                            true,
                        )));
                        found = found.push(d);
                    }
                },
                None => {},
            }
        }
        i += 1;
    }
    devices
}

/// Name fragments of virtual devices that loop system output back.
pub open spec fn loopback_hints() -> Seq<Seq<char>> {
    seq!["blackhole"@, "loopback"@, "soundflower"@, "aggregate"@, "multi-output"@, "multi output"@]
}

/// A device whose Unicode-lower-cased name mentions a loopback hint.
pub open spec fn is_loopback_name(name: Seq<char>) -> bool {
    exists|h: int| 0 <= h < loopback_hints().len() && contains(text::unicode_lower(name), #[trigger] loopback_hints()[h])
}

fn loopback_name(name: &str) -> (r: bool)
    ensures
        r == is_loopback_name(name@),
{
    let l = text::to_unicode_lowercase(name);
    let v = text::chars_of(l.as_str());
    let hints: [&str; 6] = ["blackhole", "loopback", "soundflower", "aggregate", "multi-output", "multi output"];
    assert(hints@.map_values(|h: &str| h@) =~= loopback_hints());
    let mut k: usize = 0;
    while k < 6
        invariant
            k <= 6,
            v@ == text::unicode_lower(name@),
            hints@.map_values(|h: &str| h@) == loopback_hints(),
            forall|j: int| 0 <= j < k ==> !contains(v@, #[trigger] loopback_hints()[j]),
        decreases 6 - k,
    {
        assert(hints@[k as int]@ == loopback_hints()[k as int]);
        if text::contains_lit(v.as_slice(), hints[k]) {
            return true;
        }
        k += 1;
    }
    false
}

/// The first device that looks like a virtual loopback device.
pub fn find_loopback_device(devices: &[AvfAudioDevice]) -> (r: Option<AvfAudioDevice>)
    ensures
        match r {
            Some(d) => exists|k: int|
                0 <= k < devices@.len() && d == devices@[k] && is_loopback_name(devices@[k].name@) && forall|j: int|
                    0 <= j < k ==> !is_loopback_name(#[trigger] devices@[j].name@),
            None => forall|j: int| 0 <= j < devices@.len() ==> !is_loopback_name(#[trigger] devices@[j].name@),
        },
{
    let mut k: usize = 0;
    while k < devices.len()
        invariant
            k <= devices@.len(),
            forall|j: int| 0 <= j < k ==> !is_loopback_name(#[trigger] devices@[j].name@),
        decreases devices.len() - k,
    {
        if loopback_name(devices[k].name.as_str()) {
            let d = AvfAudioDevice { index: devices[k].index, name: devices[k].name.clone() };
            assert(d == devices@[k as int]);
            return Some(d);
        }
        k += 1;
    }
    None
}

// ---------------------------------------------------------------------------
// Recorders
// ---------------------------------------------------------------------------

/// The recorder programs Tendril knows.
#[derive(Debug, Clone, Copy, PartialEq, Eq, Structural)]
pub enum Recorder {
    Ffmpeg,
    Afrecord,
    PwRecord,
    Parecord,
}

pub open spec fn recorder_program(r: Recorder) -> Seq<char> {
    match r {
        Recorder::Ffmpeg => "ffmpeg"@,
        Recorder::Afrecord => "afrecord"@,
        Recorder::PwRecord => "pw-record"@,
        Recorder::Parecord => "parecord"@,
    }
}

/// A recorder with the format it records in.
#[derive(Debug, Clone, Copy, PartialEq, Eq, Structural)]
pub struct RecorderPlan {
    pub recorder: Recorder,
    pub sample_rate_hz: u32,
    pub channels: u8,
}

impl RecorderPlan {
    /// The recorder's program name.
    pub fn program(&self) -> (r: &'static str)
        ensures
            r@ == recorder_program(self.recorder),
    {
        match self.recorder {
            Recorder::Ffmpeg => "ffmpeg",
            Recorder::Afrecord => "afrecord",
            Recorder::PwRecord => "pw-record",
            Recorder::Parecord => "parecord",
        }
    }
}

/// The recorders tried on a platform, in order of preference: ffmpeg then
/// afrecord on macOS; parecord on PulseAudio; pw-record then parecord on
/// other Linux backends; none on Windows or Android.
pub open spec fn recorders_spec(platform: PlatformKind, backend: Option<AudioBackend>) -> Seq<RecorderPlan> {
    match platform {
        PlatformKind::MacOs => seq![
            RecorderPlan { recorder: Recorder::Ffmpeg, sample_rate_hz: 44_100, channels: 2 },
            RecorderPlan { recorder: Recorder::Afrecord, sample_rate_hz: 44_100, channels: 1 },
        ],
        PlatformKind::Linux => if backend == Some(AudioBackend::PulseAudio) {
            seq![RecorderPlan { recorder: Recorder::Parecord, sample_rate_hz: 48_000, channels: 2 }]
        } else {
            seq![
                RecorderPlan { recorder: Recorder::PwRecord, sample_rate_hz: 48_000, channels: 2 },
                RecorderPlan { recorder: Recorder::Parecord, sample_rate_hz: 48_000, channels: 2 },
            ]
        },
        _ => seq![],
    }
}

pub fn recorders_for(platform: PlatformKind, backend: Option<AudioBackend>) -> (r: Vec<RecorderPlan>)
    ensures
        r@ == recorders_spec(platform, backend),
{
    let mut r: Vec<RecorderPlan> = Vec::new();
    match platform {
        PlatformKind::MacOs => {
            r.push(RecorderPlan { recorder: Recorder::Ffmpeg, sample_rate_hz: 44_100, channels: 2 });
            r.push(RecorderPlan { recorder: Recorder::Afrecord, sample_rate_hz: 44_100, channels: 1 });
        },
        PlatformKind::Linux => {
            if backend == Some(AudioBackend::PulseAudio) {
                r.push(RecorderPlan { recorder: Recorder::Parecord, sample_rate_hz: 48_000, channels: 2 });
            } else {
                r.push(RecorderPlan { recorder: Recorder::PwRecord, sample_rate_hz: 48_000, channels: 2 });
                r.push(RecorderPlan { recorder: Recorder::Parecord, sample_rate_hz: 48_000, channels: 2 });
            }
        },
        _ => {},
    }
    assert(r@ =~= recorders_spec(platform, backend));
    r
}

/// What a listen probe reports of audio capture on a platform: the adapter's
/// backend, and the sample rate and channel count of each recorder that
/// would be tried, in order; no permission needs probing.
pub fn audio_capability(adapter: crate::platform::AdapterInfo) -> (r: crate::platform::AudioCapabilityReport)
    ensures
        r.backend == adapter.audio_backend,
        r.supported_sample_rates_hz@ == recorders_spec(adapter.platform, adapter.audio_backend).map_values(
            |p: RecorderPlan| p.sample_rate_hz,
        ),
        r.supported_channel_counts@ == recorders_spec(adapter.platform, adapter.audio_backend).map_values(
            |p: RecorderPlan| p.channels,
        ),
        r.permissions@.len() == 0,
{
    let plans = recorders_for(adapter.platform, adapter.audio_backend);
    let mut rates: Vec<u32> = Vec::new();
    let mut channels: Vec<u8> = Vec::new();
    let mut i: usize = 0;
    while i < plans.len()
        invariant
            i <= plans@.len(),
            rates@ == plans@.take(i as int).map_values(|p: RecorderPlan| p.sample_rate_hz),
            channels@ == plans@.take(i as int).map_values(|p: RecorderPlan| p.channels),
        decreases plans.len() - i,
    {
        rates.push(plans[i].sample_rate_hz);
        channels.push(plans[i].channels);
        i += 1;
        assert(rates@ =~= plans@.take(i as int).map_values(|p: RecorderPlan| p.sample_rate_hz));
        assert(channels@ =~= plans@.take(i as int).map_values(|p: RecorderPlan| p.channels));
    }
    assert(plans@.take(i as int) =~= plans@);
    crate::platform::AudioCapabilityReport {
        backend: adapter.audio_backend,
        supported_sample_rates_hz: rates,
        supported_channel_counts: channels,
        permissions: Vec::new(),
    }
}

/// Samples covering a duration, rounded up (the product saturating).
pub open spec fn sample_count_spec(sample_rate_hz: u32, duration_ms: u64) -> u64 {
    let product: int = if sample_rate_hz * duration_ms > u64::MAX { u64::MAX as int } else { sample_rate_hz * duration_ms };
    ((product + 999) / 1000) as u64
}

pub fn sample_count_for(sample_rate_hz: u32, duration_ms: u64) -> (r: u64)
    ensures
        r == sample_count_spec(sample_rate_hz, duration_ms),
{
    let product: u64 = match (sample_rate_hz as u64).checked_mul(duration_ms) {
        Some(p) => p,
        None => u64::MAX,
    };
    product / 1000 + if product % 1000 == 0 { 0 } else { 1 }
}

/// Recorders that keep recording until terminated (the others stop at the
/// requested duration by themselves).
pub fn program_runs_until_killed(program: &str) -> (r: bool)
    ensures
        r == (program@ == "parecord"@),
{
    let v = text::chars_of(program);
    text::is(v.as_slice(), "parecord")
}

/// A recorder's exit is acceptable when it succeeded, or when it is one that
/// is terminated on purpose.
pub fn is_acceptable_exit(program: &str, success: bool) -> (r: bool)
    ensures
        r == (success || program@ == "parecord"@),
{
    success || program_runs_until_killed(program)
}

/// A duration in seconds: whole seconds as an integer, otherwise with three
/// decimals.
pub open spec fn seconds_text(ms: nat) -> Seq<char> {
    if ms % 1000 == 0 {
        decimal(ms / 1000)
    } else {
        decimal(ms / 1000) + seq!['.'] + seq![
            text::digit_char(((ms % 1000) / 100) as int),
            text::digit_char(((ms % 100) / 10) as int),
            text::digit_char((ms % 10) as int),
        ]
    }
}

fn digit(d: u64) -> (c: char)
    requires
        d < 10,
    ensures
        c == text::digit_char(d as int),
{
    match d {
        0 => '0',
        1 => '1',
        2 => '2',
        3 => '3',
        4 => '4',
        5 => '5',
        6 => '6',
        7 => '7',
        8 => '8',
        _ => '9',
    }
}

/// The duration argument for recorders that take seconds.
pub fn format_seconds(duration_ms: u64) -> (r: String)
    ensures
        r@ == seconds_text(duration_ms as nat),
{
    let mut r = text::format_u64(duration_ms / 1000);
    let frac = duration_ms % 1000;
    if frac != 0 {
        text::push_char(&mut r, '.');
        text::push_char(&mut r, digit(frac / 100));
        text::push_char(&mut r, digit((duration_ms % 100) / 10));
        text::push_char(&mut r, digit(duration_ms % 10));
        assert(r@ =~= seconds_text(duration_ms as nat));
    }
    r
}

pub open spec fn ffmpeg_args_spec(audio_spec: Seq<char>, output: Seq<char>, duration_secs: Seq<char>, rate: u32, channels: u8) -> Seq<Seq<char>> {
    seq![
        "-hide_banner"@,
        "-nostdin"@,
        "-loglevel"@,
        "error"@,
        "-f"@,
        "avfoundation"@,
        "-i"@,
        ":"@ + audio_spec,
        "-t"@,
        duration_secs,
        "-ar"@,
        decimal(rate as nat),
        "-ac"@,
        decimal(channels as nat),
        "-y"@,
        output,
    ]
}

/// ffmpeg's arguments for an audio-only AVFoundation capture of `audio_spec`
/// (a device index or `default`) to a WAV file, bounded by the duration.
pub fn ffmpeg_avfoundation_audio_args(audio_spec: &str, output: &str, duration_secs: &str, sample_rate_hz: u32, channels: u8) -> (r: Vec<String>)
    ensures
        strings_view(r@) == ffmpeg_args_spec(audio_spec@, output@, duration_secs@, sample_rate_hz, channels),
{
    let mut r: Vec<String> = Vec::new();
    r.push(owned("-hide_banner"));
    r.push(owned("-nostdin"));
    r.push(owned("-loglevel"));
    r.push(owned("error"));
    r.push(owned("-f"));
    r.push(owned("avfoundation"));
    r.push(owned("-i"));
    let mut input = owned(":");
    text::push_str(&mut input, audio_spec);
    r.push(input);
    r.push(owned("-t"));
    r.push(owned(duration_secs));
    r.push(owned("-ar"));
    r.push(text::format_u64(sample_rate_hz as u64));
    r.push(owned("-ac"));
    r.push(text::format_u64(channels as u64));
    r.push(owned("-y"));
    r.push(owned(output));
    assert(strings_view(r@) =~= ffmpeg_args_spec(audio_spec@, output@, duration_secs@, sample_rate_hz, channels));
    r
}

/// The PipeWire/PulseAudio node a source records from.
pub open spec fn pulse_target(kind: AudioSourceKind) -> Seq<char> {
    match kind {
        AudioSourceKind::System => "@DEFAULT_MONITOR@"@,
        _ => "@DEFAULT_SOURCE@"@,
    }
}

fn pulse_target_exec(kind: AudioSourceKind) -> (r: &'static str)
    ensures
        r@ == pulse_target(kind),
{
    match kind {
        AudioSourceKind::System => "@DEFAULT_MONITOR@",
        _ => "@DEFAULT_SOURCE@",
    }
}

/// The arguments each recorder is run with.
pub open spec fn recorder_args_spec(plan: RecorderPlan, input: ListenInput, output: Seq<char>, duration_secs: Seq<char>, loopback_index: Option<u32>) -> Seq<Seq<char>> {
    match plan.recorder {
        Recorder::Ffmpeg => ffmpeg_args_spec(
            if input.source.kind == AudioSourceKind::System {
                match loopback_index {
                    Some(i) => decimal(i as nat),
                    None => "default"@,
                }
            } else {
                "default"@
            },
            output,
            duration_secs,
            plan.sample_rate_hz,
            plan.channels,
        ),
        Recorder::PwRecord => seq![
            "--target"@,
            pulse_target(input.source.kind),
            "--rate"@,
            decimal(plan.sample_rate_hz as nat),
            "--channels"@,
            decimal(plan.channels as nat),
            "--format=s16"@,
            "-n"@,
            decimal(sample_count_spec(plan.sample_rate_hz, input.duration_ms) as nat),
            output,
        ],
        Recorder::Parecord => seq![
            "--device"@,
            pulse_target(input.source.kind),
            "--rate"@,
            decimal(plan.sample_rate_hz as nat),
            "--channels"@,
            decimal(plan.channels as nat),
            "--format=s16le"@,
            "--file-format=wav"@,
            output,
        ],
        Recorder::Afrecord => seq!["-f"@, "WAVE"@, "-d"@, "LEI16"@, "-t"@, duration_secs, output],
    }
}

impl RecorderPlan {
    /// The recorder's argument vector for a capture to `output`. ffmpeg
    /// records system audio from the loopback device, when one was found.
    pub fn build_args(&self, input: &ListenInput, output: &str, duration_secs: &str, loopback_index: Option<u32>) -> (r: Vec<String>)
        ensures
            strings_view(r@) == recorder_args_spec(*self, *input, output@, duration_secs@, loopback_index),
    {
        match self.recorder {
            Recorder::Ffmpeg => {
                let spec = match input.source.kind {
                    AudioSourceKind::System => match loopback_index {
                        Some(i) => text::format_u64(i as u64),
                        None => owned("default"),
                    },
                    _ => owned("default"),
                };
                ffmpeg_avfoundation_audio_args(spec.as_str(), output, duration_secs, self.sample_rate_hz, self.channels)
            },
            Recorder::PwRecord => {
                let mut r: Vec<String> = Vec::new();
                r.push(owned("--target"));
                r.push(owned(pulse_target_exec(input.source.kind)));
                r.push(owned("--rate"));
                r.push(text::format_u64(self.sample_rate_hz as u64));
                r.push(owned("--channels"));
                r.push(text::format_u64(self.channels as u64));
                r.push(owned("--format=s16"));
                r.push(owned("-n"));
                r.push(text::format_u64(sample_count_for(self.sample_rate_hz, input.duration_ms)));
                r.push(owned(output));
                assert(strings_view(r@) =~= recorder_args_spec(*self, *input, output@, duration_secs@, loopback_index));
                r
            },
            Recorder::Parecord => {
                let mut r: Vec<String> = Vec::new();
                r.push(owned("--device"));
                r.push(owned(pulse_target_exec(input.source.kind)));
                r.push(owned("--rate"));
                r.push(text::format_u64(self.sample_rate_hz as u64));
                r.push(owned("--channels"));
                r.push(text::format_u64(self.channels as u64));
                r.push(owned("--format=s16le"));
                r.push(owned("--file-format=wav"));
                r.push(owned(output));
                assert(strings_view(r@) =~= recorder_args_spec(*self, *input, output@, duration_secs@, loopback_index));
                r
            },
            Recorder::Afrecord => {
                let mut r: Vec<String> = Vec::new();
                r.push(owned("-f"));
                r.push(owned("WAVE"));
                r.push(owned("-d"));
                r.push(owned("LEI16"));
                r.push(owned("-t"));
                r.push(owned(duration_secs));
                r.push(owned(output));
                assert(strings_view(r@) =~= recorder_args_spec(*self, *input, output@, duration_secs@, loopback_index));
                r
            },
        }
    }
}

// ---------------------------------------------------------------------------
// Capture attempts
// ---------------------------------------------------------------------------

pub open spec fn format_debug_name(f: AudioFormat) -> Seq<char> {
    match f {
        AudioFormat::Wav => "Wav"@,
        AudioFormat::Flac => "Flac"@,
        AudioFormat::Opus => "Opus"@,
    }
}

/// `{:?}` of an optional backend.
pub open spec fn backend_debug(b: Option<AudioBackend>) -> Seq<char> {
    match b {
        Some(x) => "Some("@ + audio_backend_name_spec(x) + ")"@,
        None => "None"@,
    }
}

pub open spec fn skipped(r: ListenCaptureResult, reason: ListenSkipReason, note: Seq<char>) -> bool {
    r matches ListenCaptureResult::Skipped { reason: why, notes } && why == reason && strings_view(notes@) == seq![note]
}

/// Capture runs only for WAV, for the system or microphone source, on a
/// platform with recorders; otherwise the outcome is a skip, with a note.
pub open spec fn plan_spec(input: ListenInput, platform: PlatformKind, backend: Option<AudioBackend>, r: Result<Vec<RecorderPlan>, ListenCaptureResult>) -> bool {
    if input.format != AudioFormat::Wav {
        r matches Err(s) && skipped(
            s,
            ListenSkipReason::UnsupportedFormat,
            "listen capture currently emits only WAV; requested "@ + format_debug_name(input.format)
                + " format is not yet implemented."@,
        )
    } else if input.source.kind == AudioSourceKind::Device {
        r matches Err(s) && skipped(
            s,
            ListenSkipReason::UnsupportedSource,
            "explicit device:<id> selection is not implemented for real capture; pass --source microphone or --source system instead."@,
        )
    } else if recorders_spec(platform, backend).len() == 0 {
        r matches Err(s) && skipped(
            s,
            ListenSkipReason::UnsupportedPlatform,
            "no audio recorder is wired for platform="@ + platform_name_spec(platform) + ", backend="@ + backend_debug(
                backend,
            ) + "; capture remains probe-only here."@,
        )
    } else {
        r matches Ok(plans) && plans@ == recorders_spec(platform, backend)
    }
}

fn one_note(note: String) -> (r: Vec<String>)
    ensures
        strings_view(r@) == seq![note@],
{
    let mut r: Vec<String> = Vec::new();
    r.push(note);
    assert(strings_view(r@) =~= seq![note@]);
    r
}

fn format_debug(f: AudioFormat) -> (r: &'static str)
    ensures
        r@ == format_debug_name(f),
{
    match f {
        AudioFormat::Wav => "Wav",
        AudioFormat::Flac => "Flac",
        AudioFormat::Opus => "Opus",
    }
}

/// The recorders to try for a request, or why none is run.
pub fn plan_listen_capture(input: &ListenInput, platform: PlatformKind, backend: Option<AudioBackend>) -> (r: Result<Vec<RecorderPlan>, ListenCaptureResult>)
    ensures
        plan_spec(*input, platform, backend, r),
{
    if input.format != AudioFormat::Wav {
        let mut note = owned("listen capture currently emits only WAV; requested ");
        text::push_str(&mut note, format_debug(input.format));
        text::push_str(&mut note, " format is not yet implemented.");
        return Err(ListenCaptureResult::Skipped { reason: ListenSkipReason::UnsupportedFormat, notes: one_note(note) });
    }
    if input.source.kind == AudioSourceKind::Device {
        let note = owned(
            "explicit device:<id> selection is not implemented for real capture; pass --source microphone or --source system instead.",
        );
        return Err(ListenCaptureResult::Skipped { reason: ListenSkipReason::UnsupportedSource, notes: one_note(note) });
    }
    let recorders = recorders_for(platform, backend);
    if recorders.len() == 0 {
        let mut note = owned("no audio recorder is wired for platform=");
        text::push_str(&mut note, crate::platform::platform_name(platform));
        text::push_str(&mut note, ", backend=");
        match backend {
            Some(b) => {
                text::push_str(&mut note, "Some(");
                text::push_str(&mut note, crate::platform::audio_backend_name(b));
                text::push_str(&mut note, ")");
            },
            None => text::push_str(&mut note, "None"),
        }
        assert(note@ =~= "no audio recorder is wired for platform="@ + platform_name_spec(platform) + ", backend="@
            + backend_debug(backend));
        text::push_str(&mut note, "; capture remains probe-only here.");
        return Err(ListenCaptureResult::Skipped { reason: ListenSkipReason::UnsupportedPlatform, notes: one_note(note) });
    }
    Ok(recorders)
}

/// What happened when one recorder was tried.
#[derive(Debug, Clone, PartialEq, Eq)]
pub enum RecorderOutcome {
    /// The program is not on `PATH`.
    NotFound,
    /// It ran but did not produce a recording.
    Failed { message: String },
    Recorded { artifact: ListenArtifact },
}

#[derive(Debug, Clone, PartialEq, Eq)]
pub struct RecorderAttempt {
    pub program: String,
    pub outcome: RecorderOutcome,
}

/// How an attempt is listed among the recorders tried.
pub open spec fn tried_entry(a: RecorderAttempt) -> Seq<char> {
    match a.outcome {
        RecorderOutcome::NotFound => a.program@ + " (not found on PATH)"@,
        _ => a.program@,
    }
}

pub open spec fn tried_entries(attempts: Seq<RecorderAttempt>) -> Seq<Seq<char>>
    decreases attempts.len(),
{
    if attempts.len() == 0 {
        seq![]
    } else {
        tried_entries(attempts.drop_last()).push(tried_entry(attempts.last()))
    }
}

/// The index of the first attempt that recorded.
pub open spec fn first_recorded(attempts: Seq<RecorderAttempt>) -> Option<int> {
    if exists|k: int| 0 <= k < attempts.len() && attempts[k].outcome is Recorded {
        Some(
            choose|k: int|
                0 <= k < attempts.len() && attempts[k].outcome is Recorded && forall|j: int|
                    0 <= j < k ==> !(attempts[j].outcome is Recorded),
        )
    } else {
        None
    }
}

/// The last attempt that failed.
pub open spec fn last_failure(attempts: Seq<RecorderAttempt>) -> Option<(Seq<char>, Seq<char>)>
    decreases attempts.len(),
{
    if attempts.len() == 0 {
        None
    } else {
        match attempts.last().outcome {
            RecorderOutcome::Failed { message } => Some((attempts.last().program@, message@)),
            _ => last_failure(attempts.drop_last()),
        }
    }
}

/// The number of bytes of a WAV file with headers and no samples.
pub const WAV_HEADER_ONLY_BYTES: u64 = 44;

/// The notes of a recording.
pub open spec fn captured_notes(artifact: ListenArtifact, tried: Seq<Seq<char>>) -> Seq<Seq<char>> {
    seq!["captured "@ + decimal(artifact.byte_size as nat) + " bytes to "@ + artifact.path@ + " via "@ + artifact.recorder@]
        + (if artifact.byte_size <= WAV_HEADER_ONLY_BYTES {
        seq![
            "warning: artifact contains only WAV header bytes ("@ + decimal(artifact.byte_size as nat)
                + " <= 44); the source likely produced no samples (suspended monitor, muted mic, or no audio playing)."@,
        ]
    } else {
        seq![]
    }) + (if tried.len() > 1 {
        seq!["recorder candidates considered: "@ + joined(tried, ", "@)]
    } else {
        seq![]
    })
}

/// The outcome of the attempts, in order: the first recording wins; without
/// one, the last failure is reported; without failures, no recorder was
/// usable.
pub open spec fn attempts_outcome(attempts: Seq<RecorderAttempt>, r: ListenCaptureResult) -> bool {
    match first_recorded(attempts) {
        Some(k) => r matches ListenCaptureResult::Captured { artifact, notes } && attempts[k].outcome
            == (RecorderOutcome::Recorded { artifact }) && strings_view(notes@) == captured_notes(
            artifact,
            tried_entries(attempts.take(k + 1)),
        ),
        None => match last_failure(attempts) {
            Some((program, message)) => r matches ListenCaptureResult::Failed { recorder, message: m, notes }
                && recorder@ == program && m@ == message && strings_view(notes@) == seq![
                "all recorder attempts failed; tried: "@ + joined(tried_entries(attempts), ", "@),
            ],
            None => skipped(
                r,
                ListenSkipReason::RecorderUnavailable,
                "no usable recorder found; looked for: "@ + joined(tried_entries(attempts), ", "@),
            ),
        },
    }
}

fn tried_entry_exec(a: &RecorderAttempt) -> (r: String)
    ensures
        r@ == tried_entry(*a),
{
    let mut r = a.program.clone();
    match a.outcome {
        RecorderOutcome::NotFound => text::push_str(&mut r, " (not found on PATH)"),
        _ => {},
    }
    r
}

fn captured_notes_exec(artifact: &ListenArtifact, tried: &Vec<String>) -> (r: Vec<String>)
    ensures
        strings_view(r@) == captured_notes(*artifact, strings_view(tried@)),
{
    let mut first = owned("captured ");
    let b = text::format_u64(artifact.byte_size);
    text::push_str(&mut first, b.as_str());
    text::push_str(&mut first, " bytes to ");
    text::push_str(&mut first, artifact.path.as_str());
    text::push_str(&mut first, " via ");
    text::push_str(&mut first, artifact.recorder.as_str());
    let mut notes: Vec<String> = Vec::new();
    notes.push(first);
    let ghost n1 = strings_view(notes@);
    if artifact.byte_size <= WAV_HEADER_ONLY_BYTES {
        let mut w = owned("warning: artifact contains only WAV header bytes (");
        text::push_str(&mut w, b.as_str());
        text::push_str(
            &mut w,
            " <= 44); the source likely produced no samples (suspended monitor, muted mic, or no audio playing).",
        );
        notes.push(w);
    }
    let ghost n2 = strings_view(notes@);
    if tried.len() > 1 {
        let mut c = owned("recorder candidates considered: ");
        let j = text::join_strings(tried, ", ");
        text::push_str(&mut c, j.as_str());
        notes.push(c);
    }
    assert(strings_view(notes@) =~= captured_notes(*artifact, strings_view(tried@)));
    notes
}

/// Adds up the attempts made with the planned recorders.
pub fn summarize_attempts(attempts: Vec<RecorderAttempt>) -> (r: ListenCaptureResult)
    ensures
        attempts_outcome(attempts@, r),
{
    let ghost all = attempts@;
    let mut tried: Vec<String> = Vec::new();
    let mut failure: Option<(String, String)> = None;
    let mut rest = attempts;
    let mut i: usize = 0;
    let len = rest.len();
    assert(all.skip(0) =~= all);
    assert(all.take(0) =~= Seq::<RecorderAttempt>::empty());
    while rest.len() > 0
        invariant
            all == attempts@,
            all.len() == len,
            i <= len,
            rest@ == all.skip(i as int),
            strings_view(tried@) == tried_entries(all.take(i as int)),
            forall|j: int| 0 <= j < i ==> !(all[j].outcome is Recorded),
            match failure {
                Some((p, m)) => last_failure(all.take(i as int)) == Some((p@, m@)),
                None => last_failure(all.take(i as int)) is None,
            },
        decreases rest.len(),
    {
        let a = rest.remove(0);
        assert(a == all[i as int]);
        assert(all.take(i + 1).drop_last() =~= all.take(i as int));
        assert(all.take(i + 1).last() == a);
        let entry = tried_entry_exec(&a);
        let ghost before = strings_view(tried@);
        tried.push(entry);
        assert(strings_view(tried@) =~= tried_entries(all.take(i + 1)));
        match a.outcome {
            RecorderOutcome::Recorded { artifact } => {
                proof {
                    assert(first_recorded(all) == Some(i as int)) by {
                        let k = choose|k: int|
                            0 <= k < all.len() && all[k].outcome is Recorded && forall|j: int|
                                0 <= j < k ==> !(all[j].outcome is Recorded);
                        if k < i {
                        } else if k > i {
                        }
                    }
                }
                let notes = captured_notes_exec(&artifact, &tried);
                return ListenCaptureResult::Captured { artifact, notes };
            },
            RecorderOutcome::Failed { message } => {
                failure = Some((a.program, message));
            },
            RecorderOutcome::NotFound => {},
        }
        i += 1;
        assert(rest@ =~= all.skip(i as int));
    }
    assert(all.take(i as int) =~= all);
    assert(first_recorded(all) is None);
    let joined_tried = text::join_strings(&tried, ", ");
    match failure {
        Some((recorder, message)) => {
            let mut note = owned("all recorder attempts failed; tried: ");
            text::push_str(&mut note, joined_tried.as_str());
            ListenCaptureResult::Failed { recorder, message, notes: one_note(note) }
        },
        None => {
            let mut note = owned("no usable recorder found; looked for: ");
            text::push_str(&mut note, joined_tried.as_str());
            ListenCaptureResult::Skipped { reason: ListenSkipReason::RecorderUnavailable, notes: one_note(note) }
        },
    }
}

/// The outcome of a capture request: the skip decided by the plan, or
/// what the attempts with the planned recorders add up to.
pub fn execute_listen_capture(
    input: &ListenInput,
    platform: PlatformKind,
    backend: Option<AudioBackend>,
    attempts: Vec<RecorderAttempt>,
) -> (r: ListenCaptureResult)
    ensures
        ({
            let plan = if input.format != AudioFormat::Wav || input.source.kind == AudioSourceKind::Device
                || recorders_spec(platform, backend).len() == 0 {
                false
            } else {
                true
            };
            &&& !plan ==> plan_spec(*input, platform, backend, Err::<Vec<RecorderPlan>, ListenCaptureResult>(r))
            &&& plan ==> attempts_outcome(attempts@, r)
        }),
{
    match plan_listen_capture(input, platform, backend) {
        Err(skip) => skip,
        Ok(_) => summarize_attempts(attempts),
    }
}

/// Checks what a recorder left behind: an acceptable exit and a non-empty
/// file make the artifact; otherwise the failure is described.
pub fn finish_recording(
    plan: &RecorderPlan,
    output: &str,
    exit_success: bool,
    status: &str,
    stderr: &str,
    file_len: Result<u64, String>,
) -> (r: Result<ListenArtifact, String>)
    ensures
        ({
            let program = recorder_program(plan.recorder);
            let acceptable = exit_success || program == "parecord"@;
            &&& !acceptable ==> (r matches Err(m) && m@ == program + " exited with status "@ + status@ + (if trim(
                stderr@,
            ).len() == 0 {
                seq![]
            } else {
                ": "@ + trim(stderr@)
            }))
            &&& acceptable ==> match file_len {
                Err(e) => r matches Err(m) && m@ == program + " reported success but produced no file at "@ + output@
                    + ": "@ + e@,
                Ok(n) => if n == 0 {
                    r matches Err(m) && m@ == program + " produced an empty file at "@ + output@
                } else {
                    r matches Ok(a) && a.path@ == output@ && a.media_type@ == "audio/wav"@ && a.byte_size == n
                        && a.sample_rate_hz == plan.sample_rate_hz && a.channels == plan.channels && a.recorder@
                        == program
                },
            }
        }),
{
    let program = plan.program();
    if !is_acceptable_exit(program, exit_success) {
        let mut m = owned(program);
        text::push_str(&mut m, " exited with status ");
        text::push_str(&mut m, status);
        let t = text::trimmed(text::chars_of(stderr).as_slice());
        if t.len() > 0 {
            text::push_str(&mut m, ": ");
            text::push_chars(&mut m, t.as_slice());
        }
        return Err(m);
    }
    match file_len {
        Err(e) => {
            let mut m = owned(program);
            text::push_str(&mut m, " reported success but produced no file at ");
            text::push_str(&mut m, output);
            text::push_str(&mut m, ": ");
            text::push_str(&mut m, e.as_str());
            Err(m)
        },
        Ok(n) => {
            if n == 0 {
                let mut m = owned(program);
                text::push_str(&mut m, " produced an empty file at ");
                text::push_str(&mut m, output);
                return Err(m);
            }
            Ok(
                ListenArtifact {
                    path: owned(output),
                    media_type: owned("audio/wav"),
                    byte_size: n,
                    sample_rate_hz: plan.sample_rate_hz,
                    channels: plan.channels,
                    recorder: owned(program),
                },
            )
        },
    }
}

/// An explicit output path is accepted when its parent directory exists
/// (or it has none).
pub fn check_output_parent(parent: &str, parent_exists: bool) -> (r: Result<(), TendrilError>)
    ensures
        r is Ok <==> (parent@.len() == 0 || parent_exists),
        r matches Err(e) ==> is_invalid(
            e,
            "invalid_listen_input"@,
            "output"@,
            "listen --output parent directory `"@ + parent@ + "` does not exist"@,
        ),
{
    if parent.is_empty() || parent_exists {
        return Ok(());
    }
    let mut m = owned("listen --output parent directory `");
    text::push_str(&mut m, parent);
    text::push_str(&mut m, "` does not exist");
    Err(TendrilError::invalid(m, "invalid_listen_input", "output"))
}

/// The file name of a recording with no explicit output path.
pub fn default_output_name(pid: u32, unique: &str) -> (r: String)
    ensures
        r@ == "tendril-listen-"@ + decimal(pid as nat) + "-"@ + unique@ + ".wav"@,
{
    let mut r = owned("tendril-listen-");
    let p = text::format_u64(pid as u64);
    text::push_str(&mut r, p.as_str());
    text::push_str(&mut r, "-");
    text::push_str(&mut r, unique);
    text::push_str(&mut r, ".wav");
    r
}

} // verus!
