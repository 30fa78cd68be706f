use stackchan::audio::{
    find_device, sample_format, select_input_config, speech_wav_spec, wav_spec_from_config,
    ConfigError, StreamConfig, StreamConfigRange, StreamSampleFormat, WavSampleFormat, WavSpec,
};

const ALL: [(StreamSampleFormat, u16, bool); 10] = [
    (StreamSampleFormat::I8, 8, false),
    (StreamSampleFormat::I16, 16, false),
    (StreamSampleFormat::I32, 32, false),
    (StreamSampleFormat::I64, 64, false),
    (StreamSampleFormat::U8, 8, false),
    (StreamSampleFormat::U16, 16, false),
    (StreamSampleFormat::U32, 32, false),
    (StreamSampleFormat::U64, 64, false),
    (StreamSampleFormat::F32, 32, true),
    (StreamSampleFormat::F64, 64, true),
];

fn range(min: u32, max: u32, sample_format: StreamSampleFormat) -> StreamConfigRange {
    StreamConfigRange { channels: 2, min_sample_rate: min, max_sample_rate: max, sample_format }
}

#[test]
fn floats_stay_floats() {
    for (format, _, float) in ALL {
        let expected = if float { WavSampleFormat::Float } else { WavSampleFormat::Int };
        assert_eq!(sample_format(format), expected);
        assert_eq!(format.is_float(), float);
    }
}

#[test]
fn recording_keeps_what_the_device_delivers() {
    for (format, bits, float) in ALL {
        let config = StreamConfig { channels: 3, sample_rate: 44100, sample_format: format };
        let spec = wav_spec_from_config(&config);
        assert_eq!(spec.channels, 3);
        assert_eq!(spec.sample_rate, 44100);
        assert_eq!(spec.bits_per_sample, bits);
        assert_eq!(spec.sample_format == WavSampleFormat::Float, float);
        assert_eq!(format.sample_size() * 8, bits as usize);
    }
}

#[test]
fn speech_is_recorded_in_mono() {
    let expected = WavSpec {
        channels: 1,
        sample_rate: 48000,
        bits_per_sample: 16,
        sample_format: WavSampleFormat::Int,
    };
    assert_eq!(speech_wav_spec(), expected);
}

#[test]
fn first_device_with_the_wanted_name_is_found() {
    let names = vec![
        Some("default".to_string()),
        None,
        Some("hw:CARD=Speaker,DEV=0".to_string()),
        Some("plughw:CARD=Speaker,DEV=0".to_string()),
    ];
    assert_eq!(find_device(&names, "Speaker"), Some(2));
    assert_eq!(find_device(&names, "plughw"), Some(3));
    assert_eq!(find_device(&names, ""), Some(0));
    assert_eq!(find_device(&names, "speaker"), None);
    assert_eq!(find_device(&vec![None], ""), None);
    assert_eq!(find_device(&vec![], "x"), None);
}

#[test]
fn names_beyond_ascii_are_found() {
    let names = vec![Some("マイク".to_string()), Some("スピーカー".to_string())];
    assert_eq!(find_device(&names, "ピー"), Some(1));
}

#[test]
fn first_sixteen_bit_configuration_is_selected() {
    let configs = vec![
        range(8000, 96000, StreamSampleFormat::F32),
        range(8000, 48000, StreamSampleFormat::I16),
        range(48000, 96000, StreamSampleFormat::I16),
    ];
    let (index, config) = select_input_config(&configs).unwrap();
    assert_eq!(index, 1);
    assert_eq!(
        config,
        StreamConfig { channels: 2, sample_rate: 48000, sample_format: StreamSampleFormat::I16 }
    );
}

#[test]
fn microphone_without_sixteen_bits_is_refused() {
    let configs = vec![range(8000, 96000, StreamSampleFormat::U16)];
    assert_eq!(select_input_config(&configs), Err(ConfigError::NoSixteenBitSamples));
    assert_eq!(select_input_config(&vec![]), Err(ConfigError::NoSixteenBitSamples));
}

#[test]
fn only_the_first_sixteen_bit_configuration_counts() {
    let configs = vec![
        range(8000, 44100, StreamSampleFormat::I16),
        range(8000, 96000, StreamSampleFormat::I16),
    ];
    assert_eq!(select_input_config(&configs), Err(ConfigError::RateOutOfRange));
    let configs = vec![range(48001, 96000, StreamSampleFormat::I16)];
    assert_eq!(select_input_config(&configs), Err(ConfigError::RateOutOfRange));
}
