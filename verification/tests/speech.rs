use stackchan::speech::{
    Action, ChatMessage, Choice, Completion, MessageRole, Session, SpeechRecognitionState,
    SpeechRecognizer,
};
use stackchan::voice::{VoiceDetector, VAD_CHUNK_LENGTH};

fn silence() -> Vec<i16> {
    vec![0; VAD_CHUNK_LENGTH]
}

/// A buzzing sound, rich in overtones.
fn voice(offset: usize) -> Vec<i16> {
    (0..VAD_CHUNK_LENGTH)
        .map(|i| {
            let t = (i + offset) as f64 / 48000.0;
            let mut sum = 0.0;
            for k in 1..20 {
                sum += (2.0 * std::f64::consts::PI * 150.0 * k as f64 * t).sin() / k as f64;
            }
            (sum * 8000.0) as i16
        })
        .collect()
}

fn said(messages: &Vec<ChatMessage>) -> Vec<(MessageRole, String)> {
    messages.iter().map(|message| (message.role, message.content.clone())).collect()
}

/// A conversation in which someone has just spoken and stopped.
fn spoken() -> Session {
    let mut session = Session::new();
    session.on_segment(true);
    for _ in 0..17 {
        session.on_segment(false);
    }
    session
}

#[test]
fn segment_has_thirty_milliseconds() {
    assert_eq!(VAD_CHUNK_LENGTH, 1440);
}

#[test]
fn conversation_begins_with_waiting() {
    let session = Session::new();
    assert_eq!(session.state(), SpeechRecognitionState::Idle);
    assert!(session.messages().is_empty());
}

#[test]
fn silence_keeps_waiting() {
    let mut session = Session::new();
    for _ in 0..100 {
        assert_eq!(session.on_segment(false), Action::Wait);
        assert_eq!(session.state(), SpeechRecognitionState::Idle);
    }
}

#[test]
fn speech_starts_a_recording() {
    let mut session = Session::new();
    assert_eq!(session.on_segment(true), Action::StartRecording);
    assert_eq!(session.state(), SpeechRecognitionState::Detected);
    assert_eq!(session.number_of_chunks(), 1);
}

#[test]
fn seventeenth_silent_segment_ends_speech() {
    let mut session = Session::new();
    session.on_segment(true);
    for _ in 0..16 {
        assert_eq!(session.on_segment(false), Action::Record);
        assert_eq!(session.state(), SpeechRecognitionState::Detected);
    }
    assert_eq!(session.on_segment(false), Action::StopRecording);
    assert_eq!(session.state(), SpeechRecognitionState::Recognizing);
    assert_eq!(session.number_of_chunks(), 18);
}

#[test]
fn short_pauses_do_not_end_speech() {
    let mut session = Session::new();
    session.on_segment(true);
    for _ in 0..5 {
        for _ in 0..16 {
            assert_eq!(session.on_segment(false), Action::Record);
        }
        assert_eq!(session.on_segment(true), Action::Record);
    }
    assert_eq!(session.state(), SpeechRecognitionState::Detected);
    assert_eq!(session.number_of_chunks(), 1 + 5 * 17);
}

#[test]
fn new_recording_counts_from_the_beginning() {
    let mut session = spoken();
    session.on_transcription(None);
    assert_eq!(session.on_segment(true), Action::StartRecording);
    assert_eq!(session.number_of_chunks(), 1);
    for _ in 0..16 {
        assert_eq!(session.on_segment(false), Action::Record);
    }
}

#[test]
fn turn_adds_question_and_answer() {
    let mut session = spoken();
    session.on_transcription(Some("こんにちは".to_string()));
    assert_eq!(session.state(), SpeechRecognitionState::Thinking);
    assert_eq!(said(session.messages()), vec![(MessageRole::User, "こんにちは".to_string())]);
    let spoken = session.on_completion(Completion::Answered(vec![
        Choice { role: MessageRole::Assistant, content: Some("はい".to_string()) },
        Choice { role: MessageRole::Assistant, content: Some("いいえ".to_string()) },
    ]));
    assert_eq!(spoken, Some("はい".to_string()));
    assert_eq!(session.state(), SpeechRecognitionState::Idle);
    assert_eq!(
        said(session.messages()),
        vec![
            (MessageRole::User, "こんにちは".to_string()),
            (MessageRole::Assistant, "はい".to_string()),
        ]
    );
}

#[test]
fn listening_keeps_the_messages() {
    let mut session = spoken();
    session.on_transcription(Some("a".to_string()));
    session.on_completion(Completion::Failed);
    for i in 0..100 {
        if session.state() == SpeechRecognitionState::Recognizing {
            break;
        }
        session.on_segment(i % 40 == 3);
        assert_eq!(said(session.messages()), vec![(MessageRole::User, "a".to_string())]);
    }
    assert_eq!(session.state(), SpeechRecognitionState::Recognizing);
}

#[test]
fn failed_transcription_is_forgotten() {
    let mut session = spoken();
    session.on_transcription(None);
    assert_eq!(session.state(), SpeechRecognitionState::Idle);
    assert!(session.messages().is_empty());
}

#[test]
fn failed_completion_keeps_the_question() {
    let mut session = spoken();
    session.on_transcription(Some("a".to_string()));
    assert_eq!(session.on_completion(Completion::Failed), None);
    assert_eq!(session.state(), SpeechRecognitionState::Idle);
    assert_eq!(said(session.messages()), vec![(MessageRole::User, "a".to_string())]);
}

#[test]
fn answer_without_text_is_not_spoken() {
    let mut session = spoken();
    session.on_transcription(Some("a".to_string()));
    let choices = vec![Choice { role: MessageRole::Tool, content: None }];
    assert_eq!(session.on_completion(Completion::Answered(choices)), None);
    assert_eq!(session.state(), SpeechRecognitionState::Idle);
    assert_eq!(said(session.messages()), vec![(MessageRole::User, "a".to_string())]);
}

#[test]
fn answer_keeps_its_role() {
    let mut session = spoken();
    session.on_transcription(Some("a".to_string()));
    let choices = vec![Choice { role: MessageRole::System, content: Some(String::new()) }];
    assert_eq!(session.on_completion(Completion::Answered(choices)), Some(String::new()));
    assert_eq!(said(session.messages())[1], (MessageRole::System, String::new()));
}

#[test]
fn detector_tells_voice_from_silence() {
    let mut detector = VoiceDetector::new();
    assert!(!detector.hear(&silence()));
    let mut speech = false;
    for i in 0..20 {
        speech = detector.hear(&voice(i * VAD_CHUNK_LENGTH));
    }
    assert!(speech);
    for _ in 0..50 {
        speech = detector.hear(&silence());
    }
    assert!(!speech);
}

#[test]
fn detectors_that_heard_the_same_decide_the_same() {
    let mut one = VoiceDetector::new();
    let mut other = VoiceDetector::new();
    for i in 0..60 {
        let segment = if i / 7 % 2 == 0 { silence() } else { voice(i * VAD_CHUNK_LENGTH) };
        assert_eq!(one.hear(&segment), other.hear(&segment));
    }
}

#[test]
fn recognizer_follows_a_whole_turn() {
    let mut recognizer = SpeechRecognizer::new();
    assert_eq!(recognizer.on_chunk(&silence()), Action::Wait);
    let mut actions = Vec::new();
    for i in 0..10 {
        actions.push(recognizer.on_chunk(&voice(i * VAD_CHUNK_LENGTH)));
    }
    assert!(actions.contains(&Action::StartRecording));
    assert_eq!(recognizer.session.state(), SpeechRecognitionState::Detected);
    let mut silent = 0;
    while recognizer.on_chunk(&silence()) != Action::StopRecording {
        silent += 1;
        assert!(silent < 100);
    }
    assert!(silent >= 16);
    assert_eq!(recognizer.on_chunk(&voice(0)), Action::Transcribe);
    recognizer.session.on_transcription(Some("a".to_string()));
    assert_eq!(recognizer.on_chunk(&voice(0)), Action::Complete);
    assert_eq!(recognizer.session.on_completion(Completion::Failed), None);
    assert_eq!(recognizer.on_chunk(&silence()), Action::Wait);
}
