use stackchan::avatar::{face, timestamp_milliseconds, FaceExpression, Speaker, SpeakerAction};
use stackchan::speech::SpeechRecognitionState;

#[test]
fn face_sleeps_until_someone_speaks() {
    let idle = face(SpeechRecognitionState::Idle);
    assert_eq!(idle.text, None);
    assert_eq!(idle.expression, FaceExpression::Sleepy);
}

#[test]
fn face_tells_that_it_listens() {
    let listening = face(SpeechRecognitionState::Detected);
    assert_eq!(listening.text, Some("Listening..."));
    assert_eq!(listening.expression, FaceExpression::Neutral);
}

#[test]
fn face_tells_that_it_thinks() {
    for state in [SpeechRecognitionState::Recognizing, SpeechRecognitionState::Thinking] {
        let thinking = face(state);
        assert_eq!(thinking.text, Some("Thinking..."));
        assert_eq!(thinking.expression, FaceExpression::Neutral);
    }
}

#[test]
fn new_speech_replaces_the_speech_before() {
    let mut speaker = Speaker::new();
    assert_eq!(speaker.on_speech(false), SpeakerAction::Leave);
    assert_eq!(speaker.on_speech(true), SpeakerAction::Play);
    assert_eq!(speaker.on_speech(true), SpeakerAction::Replace);
    assert_eq!(speaker.on_speech(false), SpeakerAction::Leave);
    assert_eq!(speaker.on_speech(true), SpeakerAction::Replace);
}

#[test]
fn timestamp_keeps_the_lower_bits() {
    assert_eq!(timestamp_milliseconds(1_700_000_000_123), 1_700_000_000_123);
    assert_eq!(timestamp_milliseconds(u64::MAX as u128 + 6), 5);
}
