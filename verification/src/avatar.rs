//! What the robot shows and says.
use crate::speech::SpeechRecognitionState;
use vstd::prelude::*;

verus! {

/// Where speech is kept until it is played.
pub const SPEECH_PATH: &'static str = "/tmp/stackchan_speech.mp3";

/// The look of the robot's face.
#[derive(Clone, Copy, Debug, PartialEq, Eq, Structural)]
pub enum FaceExpression {
    Sleepy,
    Neutral,
}

/// The robot's face, and the text in its speech balloon.
#[derive(Clone, Copy, Debug)]
pub struct Face {
    pub text: Option<&'static str>,
    pub expression: FaceExpression,
}

/// The face for what the robot is doing: asleep until someone speaks, then
/// awake and telling whether it listens or thinks.
pub fn face(state: SpeechRecognitionState) -> (face: Face)
    ensures
        face.expression is Sleepy <==> state is Idle,
        match state {
            SpeechRecognitionState::Idle => face.text is None,
            SpeechRecognitionState::Detected => face.text is Some && face.text->0@
                == "Listening..."@,
            _ => face.text is Some && face.text->0@ == "Thinking..."@,
        },
{
    match state {
        SpeechRecognitionState::Idle => Face { text: None, expression: FaceExpression::Sleepy },
        SpeechRecognitionState::Detected => Face {
            text: Some("Listening..."),
            expression: FaceExpression::Neutral,
        },
        SpeechRecognitionState::Recognizing => Face {
            text: Some("Thinking..."),
            expression: FaceExpression::Neutral,
        },
        SpeechRecognitionState::Thinking => Face {
            text: Some("Thinking..."),
            expression: FaceExpression::Neutral,
        },
    }
}

/// What is to be done with the loudspeaker.
#[derive(Clone, Copy, Debug, PartialEq, Eq, Structural)]
pub enum SpeakerAction {
    /// Leave it as it is.
    Leave,
    /// Play the new speech.
    Play,
    /// Stop the speech before, and play the new one.
    Replace,
}

/// The loudspeaker: it plays one speech at most.
pub struct Speaker {
    started: bool,
}

impl Speaker {
    /// Whether a speech was played and not replaced.
    pub closed spec fn started(&self) -> bool {
        self.started
    }

    /// A loudspeaker that has played nothing.
    pub fn new() -> (speaker: Self)
        ensures
            !speaker.started(),
    {
        Speaker { started: false }
    }

    /// Takes whether a text was turned into speech, and says what to do with
    /// the loudspeaker: new speech replaces the speech before, and where there
    /// is none the speech before goes on.
    pub fn on_speech(&mut self, succeeded: bool) -> (action: SpeakerAction)
        ensures
            final(self).started() == (old(self).started() || succeeded),
            action == if !succeeded {
                SpeakerAction::Leave
            } else if old(self).started() {
                SpeakerAction::Replace
            } else {
                SpeakerAction::Play
            },
    {
        if succeeded {
            let action = if self.started {
                SpeakerAction::Replace
            } else {
                SpeakerAction::Play
            };
            self.started = true;
            action
        } else {
            SpeakerAction::Leave
        }
    }
}

/// The time by which the face moves: milliseconds since a fixed moment, as far
/// as 64 bits hold them.
pub fn timestamp_milliseconds(milliseconds: u128) -> (timestamp: u64)
    ensures
        timestamp == milliseconds % 0x1_0000_0000_0000_0000,
{
    assert(milliseconds as u64 == milliseconds % 0x1_0000_0000_0000_0000) by (bit_vector);
    #[verifier::truncate]
    (milliseconds as u64)
}

} // verus!
