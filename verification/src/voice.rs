//! Telling voice from silence, segment by segment.
use crate::audio::INPUT_SAMPLE_RATE;
use vstd::prelude::*;

verus! {

/// The length of a segment.
pub const DURATION_PER_CHUNK_MS: usize = 30;

/// The number of samples in a segment.
pub const VAD_CHUNK_LENGTH: usize = INPUT_SAMPLE_RATE as usize * DURATION_PER_CHUNK_MS / 1000;

/// The sample rates that a voice detector can be made for.
#[derive(Clone, Copy, Debug, PartialEq, Eq, Structural)]
pub enum DetectorRate {
    Rate8kHz,
    Rate16kHz,
    Rate32kHz,
    Rate48kHz,
}

impl DetectorRate {
    /// Samples in a millisecond.
    pub open spec fn samples_per_ms(self) -> int {
        match self {
            DetectorRate::Rate8kHz => 8,
            DetectorRate::Rate16kHz => 16,
            DetectorRate::Rate32kHz => 32,
            DetectorRate::Rate48kHz => 48,
        }
    }
}

/// How hard it is to convince a voice detector, from easy to hard.
#[derive(Clone, Copy, Debug, PartialEq, Eq, Structural)]
pub enum DetectorMode {
    Quality,
    LowBitrate,
    Aggressive,
    VeryAggressive,
}

/// The voice detector of the `webrtc_vad` crate.
#[verifier::external_type_specification]
#[verifier::external_body]
pub struct ExVad(webrtc_vad::Vad);

/// The rate and the mode that a detector was made with.
pub uninterp spec fn detector_settings(vad: webrtc_vad::Vad) -> (DetectorRate, DetectorMode);

/// The segments that a detector has decided on, from the first one.
pub uninterp spec fn segments_heard(vad: webrtc_vad::Vad) -> Seq<Seq<i16>>;

/// What a detector with the given settings decides on a segment after the
/// segments that it has heard.
pub uninterp spec fn voice_decision(
    rate: DetectorRate,
    mode: DetectorMode,
    heard: Seq<Seq<i16>>,
    segment: Seq<i16>,
) -> bool;

/// Segments of ten, twenty and thirty milliseconds can be decided on.
pub open spec fn valid_segment(rate: DetectorRate, len: int) -> bool {
    ||| len == 10 * rate.samples_per_ms()
    ||| len == 20 * rate.samples_per_ms()
    ||| len == 30 * rate.samples_per_ms()
}

/// A detector by `Vad::new_with_rate_and_mode`: it has the given settings and
/// has heard nothing.
#[verifier::external_body]
fn new_vad(rate: DetectorRate, mode: DetectorMode) -> (vad: webrtc_vad::Vad)
    ensures
        detector_settings(vad) == (rate, mode),
        segments_heard(vad) == Seq::<Seq<i16>>::empty(),
{
    let rate = match rate {
        DetectorRate::Rate8kHz => webrtc_vad::SampleRate::Rate8kHz,
        DetectorRate::Rate16kHz => webrtc_vad::SampleRate::Rate16kHz,
        DetectorRate::Rate32kHz => webrtc_vad::SampleRate::Rate32kHz,
        DetectorRate::Rate48kHz => webrtc_vad::SampleRate::Rate48kHz,
    };
    let mode = match mode {
        DetectorMode::Quality => webrtc_vad::VadMode::Quality,
        DetectorMode::LowBitrate => webrtc_vad::VadMode::LowBitrate,
        DetectorMode::Aggressive => webrtc_vad::VadMode::Aggressive,
        DetectorMode::VeryAggressive => webrtc_vad::VadMode::VeryAggressive,
    };
    webrtc_vad::Vad::new_with_rate_and_mode(rate, mode)
}

/// The decision of `Vad::is_voice_segment`.
///
/// It is an error on a segment of a length that the detector does not take,
/// which the detector then has not heard. Otherwise it follows from the
/// settings, the segments heard before and this one, which the detector has
/// then heard. It has no answer to an empty segment.
#[verifier::external_body]
fn is_voice_segment(vad: &mut webrtc_vad::Vad, segment: &[i16]) -> (decision: Result<bool, ()>)
    requires
        segment@.len() > 0,
    ensures
        detector_settings(*final(vad)) == detector_settings(*old(vad)),
        decision is Ok <==> valid_segment(detector_settings(*old(vad)).0, segment@.len() as int),
        decision matches Ok(speech) ==> speech == voice_decision(
            detector_settings(*old(vad)).0,
            detector_settings(*old(vad)).1,
            segments_heard(*old(vad)),
            segment@,
        ),
        segments_heard(*final(vad)) == if decision is Ok {
            segments_heard(*old(vad)).push(segment@)
        } else {
            segments_heard(*old(vad))
        },
{
    vad.is_voice_segment(segment)
}

/// Whether a segment holds speech, after the segments heard before it.
pub open spec fn is_speech(heard: Seq<Seq<i16>>, segment: Seq<i16>) -> bool {
    voice_decision(DetectorRate::Rate48kHz, DetectorMode::Aggressive, heard, segment)
}

/// Decides on segments of speech as the microphone delivers it.
pub struct VoiceDetector {
    vad: webrtc_vad::Vad,
}

impl VoiceDetector {
    /// The segments decided on so far.
    pub closed spec fn heard(&self) -> Seq<Seq<i16>> {
        segments_heard(self.vad)
    }

    /// The detector is made for the microphone's rate, and is not convinced
    /// easily.
    pub closed spec fn wf(&self) -> bool {
        detector_settings(self.vad) == (DetectorRate::Rate48kHz, DetectorMode::Aggressive)
    }

    /// A detector that has heard nothing.
    pub fn new() -> (detector: Self)
        ensures
            detector.wf(),
            detector.heard() == Seq::<Seq<i16>>::empty(),
    {
        VoiceDetector { vad: new_vad(DetectorRate::Rate48kHz, DetectorMode::Aggressive) }
    }

    /// Whether a segment holds speech. The decision counts what was heard
    /// before.
    pub fn hear(&mut self, segment: &[i16]) -> (speech: bool)
        requires
            old(self).wf(),
            segment@.len() == VAD_CHUNK_LENGTH,
        ensures
            final(self).wf(),
            speech == is_speech(old(self).heard(), segment@),
            speech == voice_decision(
                DetectorRate::Rate48kHz,
                DetectorMode::Aggressive,
                old(self).heard(),
                segment@,
            ),
            final(self).heard() == old(self).heard().push(segment@),
    {
        is_voice_segment(&mut self.vad, segment).unwrap()
    }
}

/// Speech is what the detector for 48 kHz in its aggressive mode decides, of
/// every segment and whatever was heard before: nothing else makes a segment
/// speech, and nothing keeps it from being speech.
pub proof fn speech_is_the_decision_of_the_detector(heard: Seq<Seq<i16>>, segment: Seq<i16>)
    ensures
        is_speech(heard, segment) == voice_decision(
            DetectorRate::Rate48kHz,
            DetectorMode::Aggressive,
            heard,
            segment,
        ),
{
}

/// A segment lasts thirty milliseconds at 48 kHz, which the detector takes.
pub proof fn segment_suits_the_detector()
    ensures
        VAD_CHUNK_LENGTH * 1000 == 48000 * 30,
        valid_segment(DetectorRate::Rate48kHz, VAD_CHUNK_LENGTH as int),
{
}

} // verus!
