//! Choosing the sound devices, and describing recordings.
use vstd::prelude::*;

verus! {

/// The samples per second that the microphone is opened with.
pub const INPUT_SAMPLE_RATE: u32 = 48000;

/// How a sound device represents a sample.
#[derive(Clone, Copy, Debug, PartialEq, Eq, Structural)]
pub enum StreamSampleFormat {
    I8,
    I16,
    I32,
    I64,
    U8,
    U16,
    U32,
    U64,
    F32,
    F64,
}

impl StreamSampleFormat {
    /// The bytes of a sample.
    pub open spec fn bytes(self) -> int {
        match self {
            StreamSampleFormat::I8 | StreamSampleFormat::U8 => 1,
            StreamSampleFormat::I16 | StreamSampleFormat::U16 => 2,
            StreamSampleFormat::I32 | StreamSampleFormat::U32 | StreamSampleFormat::F32 => 4,
            StreamSampleFormat::I64 | StreamSampleFormat::U64 | StreamSampleFormat::F64 => 8,
        }
    }

    /// Whether samples are floating-point numbers.
    pub fn is_float(&self) -> (float: bool)
        ensures
            float == (*self is F32 || *self is F64),
    {
        matches!(self, StreamSampleFormat::F32 | StreamSampleFormat::F64)
    }

    /// The bytes of a sample.
    pub fn sample_size(&self) -> (size: usize)
        ensures
            size == self.bytes(),
    {
        match self {
            StreamSampleFormat::I8 | StreamSampleFormat::U8 => 1,
            StreamSampleFormat::I16 | StreamSampleFormat::U16 => 2,
            StreamSampleFormat::I32 | StreamSampleFormat::U32 | StreamSampleFormat::F32 => 4,
            StreamSampleFormat::I64 | StreamSampleFormat::U64 | StreamSampleFormat::F64 => 8,
        }
    }
}

/// What a sound device is opened with.
#[derive(Clone, Copy, Debug, PartialEq, Eq, Structural)]
pub struct StreamConfig {
    pub channels: u16,
    pub sample_rate: u32,
    pub sample_format: StreamSampleFormat,
}

/// What a sound device can be opened with: any sample rate between two.
#[derive(Clone, Copy, Debug, PartialEq, Eq, Structural)]
pub struct StreamConfigRange {
    pub channels: u16,
    pub min_sample_rate: u32,
    pub max_sample_rate: u32,
    pub sample_format: StreamSampleFormat,
}

/// How a recording represents a sample.
#[derive(Clone, Copy, Debug, PartialEq, Eq, Structural)]
pub enum WavSampleFormat {
    Float,
    Int,
}

/// The properties of a recording.
#[derive(Clone, Copy, Debug, PartialEq, Eq, Structural)]
pub struct WavSpec {
    pub channels: u16,
    pub sample_rate: u32,
    pub bits_per_sample: u16,
    pub sample_format: WavSampleFormat,
}

/// How a recording represents the samples of a device.
pub fn sample_format(format: StreamSampleFormat) -> (wav: WavSampleFormat)
    ensures
        wav is Float <==> format is F32 || format is F64,
{
    if format.is_float() {
        WavSampleFormat::Float
    } else {
        WavSampleFormat::Int
    }
}

/// The properties of a recording that keeps what a device delivers.
pub fn wav_spec_from_config(config: &StreamConfig) -> (spec: WavSpec)
    ensures
        spec.channels == config.channels,
        spec.sample_rate == config.sample_rate,
        spec.bits_per_sample == 8 * config.sample_format.bytes(),
        spec.sample_format is Float <==> config.sample_format is F32 || config.sample_format is F64,
        match config.sample_format {
            StreamSampleFormat::I8 | StreamSampleFormat::U8 => spec.bits_per_sample == 8,
            StreamSampleFormat::I16 | StreamSampleFormat::U16 => spec.bits_per_sample == 16,
            StreamSampleFormat::I32 | StreamSampleFormat::U32 | StreamSampleFormat::F32 =>
                spec.bits_per_sample == 32,
            StreamSampleFormat::I64 | StreamSampleFormat::U64 | StreamSampleFormat::F64 =>
                spec.bits_per_sample == 64,
        },
{
    WavSpec {
        channels: config.channels,
        sample_rate: config.sample_rate,
        bits_per_sample: (config.sample_format.sample_size() * 8) as u16,
        sample_format: sample_format(config.sample_format),
    }
}

/// The properties of a recording of speech.
pub fn speech_wav_spec() -> (spec: WavSpec)
    ensures
        spec == (WavSpec {
            channels: 1,
            sample_rate: INPUT_SAMPLE_RATE,
            bits_per_sample: 16,
            sample_format: WavSampleFormat::Int,
        }),
{
    WavSpec {
        channels: 1,
        sample_rate: INPUT_SAMPLE_RATE,
        bits_per_sample: 16,
        sample_format: WavSampleFormat::Int,
    }
}

/// Whether a text occurs in another.
pub open spec fn occurs_in(part: Seq<char>, text: Seq<char>) -> bool {
    exists|i: int|
        0 <= i <= text.len() - part.len() && #[trigger] text.subrange(i, i + part.len()) == part
}

/// Whether a text occurs in another, by `str::contains`: whether the pattern
/// matches a part of the string.
#[verifier::external_body]
fn contains(text: &str, part: &str) -> (found: bool)
    ensures
        found == occurs_in(part@, text@),
{
    text.contains(part)
}

/// Whether a device can be told to be the wanted one: its name is known and
/// holds the wanted text.
pub open spec fn is_wanted(name: Option<String>, wanted: Seq<char>) -> bool {
    match name {
        Some(name) => occurs_in(wanted, name@),
        None => false,
    }
}

/// The first of the devices that is the wanted one.
pub fn find_device(names: &Vec<Option<String>>, wanted: &str) -> (found: Option<usize>)
    ensures
        match found {
            Some(i) => {
                &&& i < names@.len()
                &&& is_wanted(names@[i as int], wanted@)
                &&& forall|j: int| 0 <= j < i ==> !is_wanted(#[trigger] names@[j], wanted@)
            },
            None => forall|j: int|
                0 <= j < names@.len() ==> !is_wanted(#[trigger] names@[j], wanted@),
        },
{
    for i in 0..names.len()
        invariant
            forall|j: int| 0 <= j < i ==> !is_wanted(#[trigger] names@[j], wanted@),
    {
        if let Some(name) = &names[i] {
            if contains(name.as_str(), wanted) {
                return Some(i);
            }
        }
    }
    None
}

/// Why a microphone cannot be used.
#[derive(Clone, Copy, Debug, PartialEq, Eq, Structural)]
pub enum ConfigError {
    /// It has no 16-bit samples.
    NoSixteenBitSamples,
    /// It has 16-bit samples, but not at the rate that is needed.
    RateOutOfRange,
}

/// Whether the configuration at `i` is the first one with 16-bit samples.
pub open spec fn is_first_sixteen_bit(configs: Seq<StreamConfigRange>, i: int) -> bool {
    &&& 0 <= i < configs.len()
    &&& configs[i].sample_format is I16
    &&& forall|j: int| 0 <= j < i ==> !((#[trigger] configs[j]).sample_format is I16)
}

/// Whether a device can be opened at the rate that is needed.
pub open spec fn has_input_rate(config: StreamConfigRange) -> bool {
    config.min_sample_rate <= INPUT_SAMPLE_RATE <= config.max_sample_rate
}

/// What the microphone is opened with, and where among its configurations it
/// comes from: the first one with 16-bit samples, at the rate that is needed.
pub fn select_input_config(configs: &Vec<StreamConfigRange>) -> (selected: Result<
    (usize, StreamConfig),
    ConfigError,
>)
    ensures
        match selected {
            Ok((i, config)) => {
                &&& is_first_sixteen_bit(configs@, i as int)
                &&& has_input_rate(configs@[i as int])
                &&& config.channels == configs@[i as int].channels
                &&& config.sample_rate == INPUT_SAMPLE_RATE
                &&& config.sample_format is I16
            },
            Err(ConfigError::RateOutOfRange) => exists|i: int| #[trigger]
                is_first_sixteen_bit(configs@, i) && !has_input_rate(configs@[i]),
            Err(ConfigError::NoSixteenBitSamples) => forall|i: int|
                0 <= i < configs@.len() ==> !((#[trigger] configs@[i]).sample_format is I16),
        },
        selected matches Ok((i, config)) ==> {
            &&& i < configs@.len()
            &&& configs@[i as int].sample_format is I16
            &&& forall|j: int| 0 <= j < i ==> !((#[trigger] configs@[j]).sample_format is I16)
            &&& configs@[i as int].min_sample_rate <= 48000 <= configs@[i as int].max_sample_rate
            &&& config.sample_rate == 48000
        },
        selected == Err::<(usize, StreamConfig), ConfigError>(ConfigError::RateOutOfRange)
            ==> exists|i: int|
            {
                &&& 0 <= i < configs@.len()
                &&& (#[trigger] configs@[i]).sample_format is I16
                &&& forall|j: int| 0 <= j < i ==> !((#[trigger] configs@[j]).sample_format is I16)
                &&& !(configs@[i].min_sample_rate <= 48000 <= configs@[i].max_sample_rate)
            },
{
    for i in 0..configs.len()
        invariant
            forall|j: int| 0 <= j < i ==> !((#[trigger] configs@[j]).sample_format is I16),
    {
        let range: StreamConfigRange = configs[i];
        if let StreamSampleFormat::I16 = range.sample_format {
            assert(is_first_sixteen_bit(configs@, i as int));
            if range.min_sample_rate <= INPUT_SAMPLE_RATE && INPUT_SAMPLE_RATE
                <= range.max_sample_rate {
                let config = StreamConfig {
                    channels: range.channels,
                    sample_rate: INPUT_SAMPLE_RATE,
                    sample_format: range.sample_format,
                };
                return Ok((i, config));
            }
            return Err(ConfigError::RateOutOfRange);
        }
    }
    Err(ConfigError::NoSixteenBitSamples)
}

/// Samples of one byte are the smallest, each kind of integer is twice the one
/// before, a sign takes no room, and floating-point numbers are as large as the
/// two largest integers.
pub proof fn sample_sizes_double()
    ensures
        StreamSampleFormat::I8.bytes() == 1,
        StreamSampleFormat::I16.bytes() == 2 * StreamSampleFormat::I8.bytes(),
        StreamSampleFormat::I32.bytes() == 2 * StreamSampleFormat::I16.bytes(),
        StreamSampleFormat::I64.bytes() == 2 * StreamSampleFormat::I32.bytes(),
        StreamSampleFormat::U8.bytes() == StreamSampleFormat::I8.bytes(),
        StreamSampleFormat::U16.bytes() == StreamSampleFormat::I16.bytes(),
        StreamSampleFormat::U32.bytes() == StreamSampleFormat::I32.bytes(),
        StreamSampleFormat::U64.bytes() == StreamSampleFormat::I64.bytes(),
        StreamSampleFormat::F32.bytes() == StreamSampleFormat::I32.bytes(),
        StreamSampleFormat::F64.bytes() == StreamSampleFormat::I64.bytes(),
{
}

/// A device is the wanted one where its name is the wanted text with some text
/// before it and some behind it, be they empty, and only there. One whose name
/// is not known never is.
pub proof fn wanted_name_holds_the_text(name: String, wanted: Seq<char>)
    ensures
        is_wanted(Some(name), wanted) <==> exists|before: Seq<char>, behind: Seq<char>| #[trigger]
            (before + wanted + behind) == name@,
        !is_wanted(None, wanted),
{
    let text = name@;
    if is_wanted(Some(name), wanted) {
        let i = choose|i: int|
            0 <= i <= text.len() - wanted.len() && #[trigger] text.subrange(i, i + wanted.len())
                == wanted;
        let before = text.take(i);
        let behind = text.skip(i + wanted.len());
        assert(before + wanted + behind =~= text) by {
            assert(before + text.subrange(i, i + wanted.len()) + behind =~= text);
        }
    }
    if exists|before: Seq<char>, behind: Seq<char>| #[trigger] (before + wanted + behind) == name@ {
        let (before, behind) = choose|before: Seq<char>, behind: Seq<char>| #[trigger]
            (before + wanted + behind) == name@;
        let i = before.len() as int;
        assert((before + wanted + behind).subrange(i, i + wanted.len()) =~= wanted);
        assert(text.subrange(i, i + wanted.len()) == wanted);
    }
}

/// A device can be opened at 48 kHz exactly where that lies between its lowest
/// and its highest rate; how many channels it has and how it represents samples
/// has no bearing on it.
pub proof fn input_rate_lies_in_the_range(config: StreamConfigRange)
    ensures
        has_input_rate(config) <==> config.min_sample_rate <= 48000 && 48000
            <= config.max_sample_rate,
{
}

/// There is one first configuration with 16-bit samples at most, and none
/// before it has them.
pub proof fn first_sixteen_bit_is_the_first(configs: Seq<StreamConfigRange>, i: int, j: int)
    requires
        0 <= i < configs.len(),
        configs[i].sample_format is I16,
        is_first_sixteen_bit(configs, j),
    ensures
        0 <= j <= i,
        configs[j].sample_format is I16,
        is_first_sixteen_bit(configs, i) ==> i == j,
{
}

} // verus!
