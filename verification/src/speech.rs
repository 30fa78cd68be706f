//! The course of a conversation: waiting for speech, recording it, having it
//! transcribed, and having it answered.
use crate::voice::{
    is_speech, voice_decision, DetectorMode, DetectorRate, VoiceDetector, DURATION_PER_CHUNK_MS,
    VAD_CHUNK_LENGTH,
};
use vstd::prelude::*;

verus! {

/// Where the recording is kept until it is transcribed.
pub const RECORDING_PATH: &'static str = "/tmp/speech.wav";

/// The language in which recordings are transcribed.
pub const RECORDING_LANGUAGE: &'static str = "ja";

/// Speech is over once more silent segments than this follow each other.
pub const END_OF_SPEECH_INACTIVE_CHUNKS: usize = 500 / DURATION_PER_CHUNK_MS;

/// A recording is worth transcribing once it has more segments than this.
pub const MINIMUM_SPEECH_CHUNKS: usize = 500 / DURATION_PER_CHUNK_MS;

/// What the robot is doing.
#[derive(Clone, Copy, Debug, PartialEq, Eq, Structural)]
pub enum SpeechRecognitionState {
    /// Waiting for someone to speak.
    Idle,
    /// Recording what is said.
    Detected,
    /// About to have the recording transcribed.
    Recognizing,
    /// About to have the conversation continued.
    Thinking,
}

/// Who says a message.
#[derive(Clone, Copy, Debug, PartialEq, Eq, Structural)]
pub enum MessageRole {
    User,
    System,
    Assistant,
    Function,
    Tool,
}

/// A message of the conversation.
#[derive(Debug)]
pub struct ChatMessage {
    pub role: MessageRole,
    pub content: String,
}

/// A message as a value: who says it and what.
pub struct Message {
    pub role: MessageRole,
    pub text: Seq<char>,
}

impl View for ChatMessage {
    type V = Message;

    open spec fn view(&self) -> Message {
        Message { role: self.role, text: self.content@ }
    }
}

/// One of the ways in which the chat service continues the conversation.
#[derive(Debug)]
pub struct Choice {
    pub role: MessageRole,
    pub content: Option<String>,
}

/// What came of asking the chat service to continue the conversation.
#[derive(Debug)]
pub enum Completion {
    Failed,
    Answered(Vec<Choice>),
}

/// What is to be done about a segment of sound.
#[derive(Clone, Copy, Debug, PartialEq, Eq, Structural)]
pub enum Action {
    /// Nothing.
    Wait,
    /// Begin a recording with the segment.
    StartRecording,
    /// Add the segment to the recording.
    Record,
    /// Add the segment to the recording and close it.
    StopRecording,
    /// Leave the segment, and have the recording transcribed.
    Transcribe,
    /// Leave the segment, and have the conversation continued.
    Complete,
}

/// A conversation as a value.
pub struct Conversation {
    pub state: SpeechRecognitionState,
    /// The number of segments in the recording.
    pub chunks: int,
    /// The number of silent segments at the recording's end.
    pub inactive: int,
    pub messages: Seq<Message>,
}

impl Conversation {
    /// While speech is recorded the pause at its end is short and is not all of
    /// it, and the conversation is continued only behind a message of the user.
    pub open spec fn wf(self) -> bool {
        &&& self.state is Detected ==> 0 <= self.inactive <= END_OF_SPEECH_INACTIVE_CHUNKS
            && self.inactive < self.chunks
        &&& self.state is Thinking ==> self.messages.len() > 0 && self.messages.last().role is User
    }

    /// A segment is listened to while the robot waits for speech or records it.
    pub open spec fn listens(self) -> bool {
        self.state is Idle || self.state is Detected
    }

    /// The conversation behind one more segment that was listened to.
    pub open spec fn after_segment(self, speech: bool) -> Conversation {
        let inactive = if speech {
            0
        } else {
            self.inactive + 1
        };
        if self.state is Idle && speech {
            Conversation {
                state: SpeechRecognitionState::Detected,
                chunks: 1,
                inactive: 0,
                ..self
            }
        } else if self.state is Detected {
            Conversation {
                state: if inactive <= END_OF_SPEECH_INACTIVE_CHUNKS {
                    SpeechRecognitionState::Detected
                } else if self.chunks + 1 > MINIMUM_SPEECH_CHUNKS {
                    SpeechRecognitionState::Recognizing
                } else {
                    SpeechRecognitionState::Idle
                },
                chunks: self.chunks + 1,
                inactive,
                ..self
            }
        } else {
            self
        }
    }

    /// What is done about a segment that was listened to: all of a recording's
    /// segments are kept, from its first to the one that ends it.
    pub open spec fn action_on_segment(self, speech: bool) -> Action {
        if self.state is Idle {
            if speech {
                Action::StartRecording
            } else {
                Action::Wait
            }
        } else if self.after_segment(speech).state is Detected {
            Action::Record
        } else {
            Action::StopRecording
        }
    }

    /// The conversation behind the transcription, if it succeeded, of what the
    /// user said.
    pub open spec fn after_transcription(self, text: Option<Seq<char>>) -> Conversation {
        match text {
            Some(text) => Conversation {
                state: SpeechRecognitionState::Thinking,
                messages: self.messages.push(Message { role: MessageRole::User, text }),
                ..self
            },
            None => Conversation { state: SpeechRecognitionState::Idle, ..self },
        }
    }

    /// The conversation behind the answer, if there is one.
    pub open spec fn after_answer(self, answer: Option<Message>) -> Conversation {
        Conversation {
            state: SpeechRecognitionState::Idle,
            messages: match answer {
                Some(message) => self.messages.push(message),
                None => self.messages,
            },
            ..self
        }
    }
}

impl Completion {
    /// The answer: the first of the choices, where it has a text.
    pub open spec fn answer(self) -> Option<Message> {
        match self {
            Completion::Failed => None,
            Completion::Answered(choices) => match choices@[0].content {
                Some(content) => Some(Message { role: choices@[0].role, text: content@ }),
                None => None,
            },
        }
    }
}

/// A conversation.
pub struct Session {
    state: SpeechRecognitionState,
    number_of_chunks: usize,
    number_of_inactive_chunks: usize,
    completion_messages: Vec<ChatMessage>,
}

impl View for Session {
    type V = Conversation;

    closed spec fn view(&self) -> Conversation {
        Conversation {
            state: self.state,
            chunks: self.number_of_chunks as int,
            inactive: self.number_of_inactive_chunks as int,
            messages: self.completion_messages@.map_values(|message: ChatMessage| message@),
        }
    }
}

impl Session {
    /// A conversation that has not begun.
    pub fn new() -> (session: Self)
        ensures
            session@.wf(),
            session@.state is Idle,
            session@.chunks == 0,
            session@.inactive == 0,
            session@.messages == Seq::<Message>::empty(),
    {
        let session = Session {
            state: SpeechRecognitionState::Idle,
            number_of_chunks: 0,
            number_of_inactive_chunks: 0,
            completion_messages: Vec::new(),
        };
        assert(session@.messages =~= Seq::<Message>::empty());
        session
    }

    /// What the robot is doing.
    pub fn state(&self) -> (state: SpeechRecognitionState)
        ensures
            state == self@.state,
    {
        self.state
    }

    /// The number of segments in the recording.
    pub fn number_of_chunks(&self) -> (count: usize)
        ensures
            count == self@.chunks,
    {
        self.number_of_chunks
    }

    /// The messages so far, which the chat service is asked to continue.
    pub fn messages(&self) -> (messages: &Vec<ChatMessage>)
        ensures
            messages@.map_values(|message: ChatMessage| message@) == self@.messages,
            messages@.len() == self@.messages.len(),
            forall|i: int|
                0 <= i < messages@.len() ==> (#[trigger] messages@[i]).role
                    == self@.messages[i].role && messages@[i].content@ == self@.messages[i].text,
    {
        &self.completion_messages
    }

    /// Takes note of a segment that was listened to, and says what to do about
    /// it. A recording can have as many segments as can be counted.
    pub fn on_segment(&mut self, speech: bool) -> (action: Action)
        requires
            old(self)@.wf(),
            old(self)@.listens(),
            old(self)@.state is Detected ==> old(self)@.chunks < usize::MAX,
        ensures
            final(self)@.wf(),
            final(self)@ == old(self)@.after_segment(speech),
            action == old(self)@.action_on_segment(speech),
            final(self)@.messages == old(self)@.messages,
            old(self)@.state is Idle && !speech ==> {
                &&& action is Wait
                &&& final(self)@ == old(self)@
            },
            old(self)@.state is Idle && speech ==> {
                &&& action is StartRecording
                &&& final(self)@.state is Detected
                &&& final(self)@.chunks == 1
                &&& final(self)@.inactive == 0
            },
            old(self)@.state is Detected ==> {
                &&& final(self)@.chunks == old(self)@.chunks + 1
                &&& final(self)@.inactive == if speech {
                    0
                } else {
                    old(self)@.inactive + 1
                }
            },
            old(self)@.state is Detected && final(self)@.inactive * 30 <= 500 ==> {
                &&& action is Record
                &&& final(self)@.state is Detected
            },
            old(self)@.state is Detected && final(self)@.inactive * 30 > 500 ==> {
                &&& action is StopRecording
                &&& final(self)@.state is Recognizing
            },
    {
        if let SpeechRecognitionState::Idle = self.state {
            if speech {
                self.number_of_chunks = 1;
                self.number_of_inactive_chunks = 0;
                self.state = SpeechRecognitionState::Detected;
                Action::StartRecording
            } else {
                Action::Wait
            }
        } else {
            self.number_of_chunks += 1;
            if speech {
                self.number_of_inactive_chunks = 0;
            } else {
                self.number_of_inactive_chunks += 1;
            }
            if self.number_of_inactive_chunks > END_OF_SPEECH_INACTIVE_CHUNKS {
                self.state = if self.number_of_chunks > MINIMUM_SPEECH_CHUNKS {
                    SpeechRecognitionState::Recognizing
                } else {
                    SpeechRecognitionState::Idle
                };
                Action::StopRecording
            } else {
                Action::Record
            }
        }
    }

    /// Takes the text of the recording, or that it could not be had.
    pub fn on_transcription(&mut self, text: Option<String>)
        requires
            old(self)@.wf(),
            old(self)@.state is Recognizing,
        ensures
            final(self)@.wf(),
            final(self)@ == old(self)@.after_transcription(
                match text {
                    Some(text) => Some(text@),
                    None => None,
                },
            ),
            final(self)@.chunks == old(self)@.chunks,
            final(self)@.inactive == old(self)@.inactive,
            match text {
                Some(text) => {
                    &&& final(self)@.state is Thinking
                    &&& final(self)@.messages == old(self)@.messages.push(
                        Message { role: MessageRole::User, text: text@ },
                    )
                },
                None => {
                    &&& final(self)@.state is Idle
                    &&& final(self)@.messages == old(self)@.messages
                },
            },
    {
        match text {
            Some(content) => {
                self.say(MessageRole::User, content);
                self.state = SpeechRecognitionState::Thinking;
            },
            None => {
                self.state = SpeechRecognitionState::Idle;
            },
        }
    }

    /// Takes how the chat service continues the conversation, and hands out
    /// what is to be spoken.
    pub fn on_completion(&mut self, completion: Completion) -> (spoken: Option<String>)
        requires
            old(self)@.wf(),
            old(self)@.state is Thinking,
            completion matches Completion::Answered(choices) ==> choices@.len() > 0,
        ensures
            final(self)@.wf(),
            final(self)@ == old(self)@.after_answer(completion.answer()),
            match (spoken, completion.answer()) {
                (Some(spoken), Some(answer)) => spoken@ == answer.text,
                (None, None) => true,
                _ => false,
            },
            final(self)@.state is Idle,
            final(self)@.chunks == old(self)@.chunks,
            final(self)@.inactive == old(self)@.inactive,
            match completion {
                Completion::Answered(choices) => match choices@[0].content {
                    Some(content) => {
                        &&& spoken is Some
                        &&& spoken->0@ == content@
                        &&& final(self)@.messages == old(self)@.messages.push(
                            Message { role: choices@[0].role, text: content@ },
                        )
                    },
                    None => spoken is None && final(self)@.messages == old(self)@.messages,
                },
                Completion::Failed => spoken is None && final(self)@.messages
                    == old(self)@.messages,
            },
    {
        self.state = SpeechRecognitionState::Idle;
        match completion {
            Completion::Answered(choices) => {
                let role: MessageRole = choices[0].role;
                match &choices[0].content {
                    Some(content) => {
                        self.say(role, content.clone());
                        Some(content.clone())
                    },
                    None => None,
                }
            },
            Completion::Failed => None,
        }
    }

    /// Adds a message.
    fn say(&mut self, role: MessageRole, content: String)
        ensures
            final(self)@ == (Conversation {
                messages: old(self)@.messages.push(Message { role, text: content@ }),
                ..old(self)@
            }),
    {
        let ghost message = ChatMessage { role, content };
        let ghost before = self.completion_messages@;
        self.completion_messages.push(ChatMessage { role, content });
        assert(self@.messages =~= before.map_values(|message: ChatMessage| message@).push(
            message@,
        ));
    }
}

/// A conversation and the ear that follows it.
pub struct SpeechRecognizer {
    pub session: Session,
    pub detector: VoiceDetector,
}

impl SpeechRecognizer {
    /// The segments that were listened to.
    pub open spec fn heard(&self) -> Seq<Seq<i16>> {
        self.detector.heard()
    }

    /// The conversation and the detector are each in order.
    pub open spec fn wf(&self) -> bool {
        self.session@.wf() && self.detector.wf()
    }

    /// A recogniser that has heard nothing.
    pub fn new() -> (recognizer: Self)
        ensures
            recognizer.wf(),
            recognizer.session@.state is Idle,
            recognizer.session@.chunks == 0,
            recognizer.session@.inactive == 0,
            recognizer.session@.messages == Seq::<Message>::empty(),
            recognizer.heard() == Seq::<Seq<i16>>::empty(),
    {
        SpeechRecognizer { session: Session::new(), detector: VoiceDetector::new() }
    }

    /// Says what to do about a segment of sound.
    ///
    /// Segments that come while a recording waits to be transcribed or
    /// answered are not listened to.
    pub fn on_chunk(&mut self, chunk: &[i16]) -> (action: Action)
        requires
            old(self).wf(),
            chunk@.len() == VAD_CHUNK_LENGTH,
            old(self).session@.state is Detected ==> old(self).session@.chunks < usize::MAX,
        ensures
            final(self).wf(),
            old(self).session@.listens() ==> {
                let speech = is_speech(old(self).heard(), chunk@);
                &&& final(self).session@ == old(self).session@.after_segment(speech)
                &&& action == old(self).session@.action_on_segment(speech)
                &&& final(self).heard() == old(self).heard().push(chunk@)
            },
            !old(self).session@.listens() ==> {
                &&& final(self).session@ == old(self).session@
                &&& final(self).heard() == old(self).heard()
            },
            old(self).session@.state is Recognizing ==> action is Transcribe,
            old(self).session@.state is Thinking ==> action is Complete,
            old(self).session@.state is Recognizing || old(self).session@.state is Thinking ==> {
                &&& final(self).session@ == old(self).session@
                &&& final(self).detector.heard() == old(self).detector.heard()
            },
            old(self).session@.state is Idle || old(self).session@.state is Detected ==> {
                let speech = voice_decision(
                    DetectorRate::Rate48kHz,
                    DetectorMode::Aggressive,
                    old(self).detector.heard(),
                    chunk@,
                );
                &&& final(self).detector.heard() == old(self).detector.heard().push(chunk@)
                &&& final(self).session@.messages == old(self).session@.messages
                &&& old(self).session@.state is Idle && !speech ==> action is Wait
                    && final(self).session@ == old(self).session@
                &&& old(self).session@.state is Idle && speech ==> action is StartRecording
                    && final(self).session@.state is Detected && final(self).session@.chunks == 1
                    && final(self).session@.inactive == 0
                &&& old(self).session@.state is Detected ==> final(self).session@.chunks == old(
                    self,
                ).session@.chunks + 1 && final(self).session@.inactive == if speech {
                    0
                } else {
                    old(self).session@.inactive + 1
                }
                &&& old(self).session@.state is Detected && final(self).session@.inactive * 30
                    <= 500 ==> action is Record && final(self).session@.state is Detected
                &&& old(self).session@.state is Detected && final(self).session@.inactive * 30
                    > 500 ==> action is StopRecording && final(self).session@.state is Recognizing
            },
    {
        match self.session.state() {
            SpeechRecognitionState::Recognizing => Action::Transcribe,
            SpeechRecognitionState::Thinking => Action::Complete,
            _ => {
                let speech: bool = self.detector.hear(chunk);
                self.session.on_segment(speech)
            },
        }
    }
}

impl Conversation {
    /// The conversation behind segments that were listened to one after
    /// another.
    pub open spec fn after_segments(self, decisions: Seq<bool>) -> Conversation
        decreases decisions.len(),
    {
        if decisions.len() == 0 {
            self
        } else {
            self.after_segments(decisions.drop_last()).after_segment(decisions.last())
        }
    }

    /// What is done about the segment behind the first `i` ones.
    pub open spec fn action_at(self, decisions: Seq<bool>, i: int) -> Action {
        self.after_segments(decisions.take(i)).action_on_segment(decisions[i])
    }
}

/// The number of silent segments at the end of a recording that ended with
/// `inactive` of them before.
pub open spec fn pause(inactive: int, decisions: Seq<bool>) -> int
    decreases decisions.len(),
{
    if decisions.len() == 0 {
        inactive
    } else if decisions.last() {
        0
    } else {
        pause(inactive, decisions.drop_last()) + 1
    }
}

/// No pause is longer than speech can have, up to the first `count` segments.
pub open spec fn pauses_are_short(inactive: int, decisions: Seq<bool>, count: int) -> bool {
    forall|i: int|
        0 <= i <= count ==> pause(inactive, #[trigger] decisions.take(i))
            <= END_OF_SPEECH_INACTIVE_CHUNKS
}

/// While nobody speaks the robot waits.
pub proof fn silence_keeps_waiting(conversation: Conversation, decisions: Seq<bool>)
    requires
        conversation.state is Idle,
        forall|i: int| 0 <= i < decisions.len() ==> !decisions[i],
    ensures
        conversation.after_segments(decisions) == conversation,
    decreases decisions.len(),
{
    if decisions.len() > 0 {
        silence_keeps_waiting(conversation, decisions.drop_last());
        assert(!decisions[decisions.len() - 1]);
    }
}

/// Speech is recorded for as long as its pauses are short, and every segment
/// is counted.
pub proof fn short_pauses_do_not_end_speech(conversation: Conversation, decisions: Seq<bool>)
    requires
        conversation.wf(),
        conversation.state is Detected,
        pauses_are_short(conversation.inactive, decisions, decisions.len() as int),
    ensures
        conversation.after_segments(decisions) == (Conversation {
            chunks: conversation.chunks + decisions.len(),
            inactive: pause(conversation.inactive, decisions),
            ..conversation
        }),
        conversation.after_segments(decisions).wf(),
    decreases decisions.len(),
{
    if decisions.len() > 0 {
        let shorter = decisions.drop_last();
        assert forall|i: int| 0 <= i <= shorter.len() implies pause(
            conversation.inactive,
            #[trigger] shorter.take(i),
        ) <= END_OF_SPEECH_INACTIVE_CHUNKS by {
            assert(shorter.take(i) =~= decisions.take(i));
        }
        short_pauses_do_not_end_speech(conversation, shorter);
        assert(decisions.take(decisions.len() as int) =~= decisions);
    }
}

/// The first pause that is too long ends the recording, and what was recorded
/// is always transcribed: a recording that ends is never too short.
pub proof fn first_long_pause_ends_speech(conversation: Conversation, decisions: Seq<bool>)
    requires
        conversation.wf(),
        conversation.state is Detected,
        decisions.len() > 0,
        pauses_are_short(conversation.inactive, decisions, decisions.len() - 1),
        pause(conversation.inactive, decisions) > END_OF_SPEECH_INACTIVE_CHUNKS,
    ensures
        conversation.after_segments(decisions).state is Recognizing,
        conversation.after_segments(decisions).chunks == conversation.chunks + decisions.len(),
        conversation.after_segments(decisions).messages == conversation.messages,
        pause(conversation.inactive, decisions) == END_OF_SPEECH_INACTIVE_CHUNKS + 1,
{
    let shorter = decisions.drop_last();
    assert forall|i: int| 0 <= i <= shorter.len() implies pause(
        conversation.inactive,
        #[trigger] shorter.take(i),
    ) <= END_OF_SPEECH_INACTIVE_CHUNKS by {
        assert(shorter.take(i) =~= decisions.take(i));
    }
    short_pauses_do_not_end_speech(conversation, shorter);
    assert(shorter.take(shorter.len() as int) =~= shorter);
}

/// A recording that ends is transcribed, whatever was heard last.
pub proof fn ended_speech_is_recognized(conversation: Conversation, speech: bool)
    requires
        conversation.wf(),
        conversation.state is Detected,
    ensures
        conversation.after_segment(speech).state is Detected || conversation.after_segment(
            speech,
        ).state is Recognizing,
{
}

/// A recording begins with the segment in which speech was first heard, and
/// takes in every segment from there to the one that ends it.
pub proof fn no_segment_of_speech_is_missed(
    conversation: Conversation,
    decisions: Seq<bool>,
    i: int,
)
    requires
        conversation.state is Idle,
        0 <= i < decisions.len(),
        decisions[0],
        pauses_are_short(0, decisions.skip(1), decisions.len() - 2),
    ensures
        i == 0 ==> conversation.action_at(decisions, i) is StartRecording,
        0 < i < decisions.len() - 1 ==> conversation.action_at(decisions, i) is Record,
        0 < i == decisions.len() - 1 ==> conversation.action_at(decisions, i) == if pause(
            0,
            decisions.skip(1),
        ) <= END_OF_SPEECH_INACTIVE_CHUNKS {
            Action::Record
        } else {
            Action::StopRecording
        },
{
    if i == 0 {
        assert(conversation.after_segments(decisions.take(0)) == conversation);
    } else {
        let rest = decisions.skip(1);
        let begun = conversation.after_segment(true);
        let before = rest.take(i - 1);
        assert forall|k: int| 0 <= k <= before.len() implies pause(0, #[trigger] before.take(k))
            <= END_OF_SPEECH_INACTIVE_CHUNKS by {
            assert(before.take(k) =~= rest.take(k));
        }
        short_pauses_do_not_end_speech(begun, before);
        segments_in_parts(conversation, decisions.take(1), before);
        assert(decisions.take(i) =~= decisions.take(1) + before);
        assert(decisions.take(1).drop_last() =~= Seq::<bool>::empty());
        assert(conversation.after_segments(Seq::<bool>::empty()) == conversation);
        assert(conversation.after_segments(decisions.take(1)) == begun);
        let now = rest.take(i);
        assert(now.drop_last() =~= before);
        assert(now.last() == decisions[i]);
        if i == decisions.len() - 1 {
            assert(now =~= rest);
        } else {
            assert(pause(0, rest.take(i)) <= END_OF_SPEECH_INACTIVE_CHUNKS);
        }
    }
}

/// Listening to segments in two parts is listening to them at once.
pub proof fn segments_in_parts(conversation: Conversation, first: Seq<bool>, second: Seq<bool>)
    ensures
        conversation.after_segments(first + second) == conversation.after_segments(
            first,
        ).after_segments(second),
    decreases second.len(),
{
    if second.len() == 0 {
        assert(first + second =~= first);
    } else {
        assert((first + second).drop_last() =~= first + second.drop_last());
        segments_in_parts(conversation, first, second.drop_last());
    }
}

/// Listening never touches what has been said, and keeps the conversation in
/// order.
pub proof fn listening_keeps_the_messages(conversation: Conversation, decisions: Seq<bool>)
    requires
        conversation.wf(),
    ensures
        conversation.after_segments(decisions).wf(),
        conversation.after_segments(decisions).messages == conversation.messages,
    decreases decisions.len(),
{
    if decisions.len() > 0 {
        listening_keeps_the_messages(conversation, decisions.drop_last());
    }
}

/// A turn that goes well adds what the user said and the answer to it, in this
/// order, and the robot waits again.
pub proof fn turn_adds_question_and_answer(
    conversation: Conversation,
    text: Seq<char>,
    answer: Message,
)
    requires
        conversation.state is Recognizing,
    ensures
        conversation.after_transcription(Some(text)).after_answer(Some(answer)).state is Idle,
        conversation.after_transcription(Some(text)).after_answer(Some(answer)).messages
            == conversation.messages + seq![Message { role: MessageRole::User, text }, answer],
{
    assert(conversation.messages.push(Message { role: MessageRole::User, text }).push(answer)
        =~= conversation.messages + seq![Message { role: MessageRole::User, text }, answer]);
}

/// A turn that fails leaves the robot waiting, with all that was said before
/// it; what the user said stays where it was transcribed.
pub proof fn failed_turn_forgets_nothing(conversation: Conversation, text: Seq<char>)
    requires
        conversation.state is Recognizing,
    ensures
        conversation.after_transcription(None).state is Idle,
        conversation.after_transcription(None).messages == conversation.messages,
        conversation.after_transcription(Some(text)).after_answer(None).state is Idle,
        conversation.after_transcription(Some(text)).after_answer(None).messages
            == conversation.messages.push(Message { role: MessageRole::User, text }),
{
}

/// A message shown as a value is the message: its role and its text.
pub proof fn message_is_its_role_and_text(message: ChatMessage)
    ensures
        message@.role == message.role,
        message@.text == message.content@,
{
}

/// A segment lasts thirty milliseconds, a pause within speech half a second at
/// most, and a recording is long enough from half a second on.
pub proof fn half_a_second_counts()
    ensures
        DURATION_PER_CHUNK_MS == 30,
        END_OF_SPEECH_INACTIVE_CHUNKS * 30 <= 500 < (END_OF_SPEECH_INACTIVE_CHUNKS + 1) * 30,
        MINIMUM_SPEECH_CHUNKS * 30 <= 500 < (MINIMUM_SPEECH_CHUNKS + 1) * 30,
{
}

/// Sound is listened to exactly while the robot waits or records.
pub proof fn listens_while_waiting_or_recording(conversation: Conversation)
    ensures
        conversation.listens() <==> !(conversation.state is Recognizing) && !(
        conversation.state is Thinking),
{
}

/// Whatever was said and counted before, a silent segment changes nothing
/// about a robot that waits, and nothing is done about it.
pub proof fn silent_segment_while_waiting_does_nothing(conversation: Conversation)
    requires
        conversation.state is Idle,
    ensures
        conversation.action_on_segment(false) is Wait,
        conversation.after_segment(false) == conversation,
{
}

/// Whatever was said and counted before, speech wakes a robot that waits: a
/// recording of one segment begins.
pub proof fn speech_while_waiting_starts_a_recording(conversation: Conversation)
    requires
        conversation.state is Idle,
    ensures
        conversation.action_on_segment(true) is StartRecording,
        conversation.after_segment(true).state is Detected,
        conversation.after_segment(true).chunks == 1,
        conversation.after_segment(true).inactive == 0,
        conversation.after_segment(true).messages == conversation.messages,
{
}

/// No segment that is listened to has a recording transcribed or a conversation
/// continued, and none is followed by thinking.
pub proof fn listening_asks_nothing_of_the_services(conversation: Conversation, speech: bool)
    requires
        conversation.state is Idle || conversation.state is Detected,
    ensures
        !(conversation.action_on_segment(speech) is Transcribe),
        !(conversation.action_on_segment(speech) is Complete),
        !(conversation.after_segment(speech).state is Thinking),
{
}

/// What is done about a segment tells how the robot's doing changes: it waits
/// where it goes on waiting, starts a recording where it begins to record,
/// records where it goes on recording, and stops where it no longer does.
pub proof fn action_tells_the_change(conversation: Conversation, speech: bool)
    requires
        conversation.state is Idle || conversation.state is Detected,
    ensures
        conversation.action_on_segment(speech) is Wait <==> conversation.state is Idle
            && conversation.after_segment(speech).state is Idle,
        conversation.action_on_segment(speech) is StartRecording <==> conversation.state is Idle
            && conversation.after_segment(speech).state is Detected,
        conversation.action_on_segment(speech) is Record <==> conversation.state is Detected
            && conversation.after_segment(speech).state is Detected,
        conversation.action_on_segment(speech) is StopRecording <==> conversation.state is Detected
            && !(conversation.after_segment(speech).state is Detected),
{
}

/// A recording goes on until the pause at its end is longer than half a second,
/// and counts every segment and every silent one at its end.
pub proof fn recording_goes_on_for_half_a_second(conversation: Conversation, speech: bool)
    requires
        conversation.state is Detected,
        0 <= conversation.inactive < conversation.chunks,
        conversation.inactive * 30 <= 500,
    ensures
        speech ==> {
            &&& conversation.action_on_segment(speech) is Record
            &&& conversation.after_segment(speech).state is Detected
            &&& conversation.after_segment(speech).inactive == 0
        },
        !speech && (conversation.inactive + 1) * 30 <= 500 ==> {
            &&& conversation.action_on_segment(speech) is Record
            &&& conversation.after_segment(speech).state is Detected
        },
        !speech && (conversation.inactive + 1) * 30 > 500 ==> {
            &&& conversation.action_on_segment(speech) is StopRecording
            &&& conversation.after_segment(speech).state is Recognizing
        },
        !speech ==> conversation.after_segment(speech).inactive == conversation.inactive + 1,
        conversation.after_segment(speech).chunks == conversation.chunks + 1,
        conversation.after_segment(speech).messages == conversation.messages,
{
}

/// What was said before has no bearing on how sound is followed: conversations
/// that differ in their messages alone are followed alike.
pub proof fn messages_do_not_sway_listening(
    one: Conversation,
    other: Conversation,
    speech: bool,
)
    requires
        one.state == other.state,
        one.chunks == other.chunks,
        one.inactive == other.inactive,
    ensures
        one.action_on_segment(speech) == other.action_on_segment(speech),
        one.after_segment(speech).state == other.after_segment(speech).state,
        one.after_segment(speech).chunks == other.after_segment(speech).chunks,
        one.after_segment(speech).inactive == other.after_segment(speech).inactive,
{
}

/// The counts of a recording that is over have no bearing on the next one:
/// whatever they are, robots that wait follow sound alike.
pub proof fn old_counts_do_not_sway_waiting(one: Conversation, other: Conversation, speech: bool)
    requires
        one.state is Idle,
        other.state is Idle,
    ensures
        one.action_on_segment(speech) == other.action_on_segment(speech),
        one.after_segment(speech).state == other.after_segment(speech).state,
{
}

/// Whatever was said before, a transcription that succeeds adds the text as the
/// user's message behind all the others and goes on to the chat service, and
/// one that fails adds nothing and leaves the robot waiting.
pub proof fn every_transcription_is_answered(conversation: Conversation, text: Seq<char>)
    requires
        conversation.state is Recognizing,
    ensures
        conversation.after_transcription(Some(text)).state is Thinking,
        conversation.after_transcription(Some(text)).messages.len() == conversation.messages.len()
            + 1,
        conversation.after_transcription(Some(text)).messages.drop_last() == conversation.messages,
        conversation.after_transcription(Some(text)).messages.last().role is User,
        conversation.after_transcription(Some(text)).messages.last().text == text,
        conversation.after_transcription(None).state is Idle,
        conversation.after_transcription(None).messages == conversation.messages,
{
    assert(conversation.after_transcription(Some(text)).messages.drop_last()
        =~= conversation.messages);
}

/// The answer is the first choice, of whatever role and however many choices
/// there are, exactly where that choice has a text.
pub proof fn answer_is_the_first_choice(choices: Vec<Choice>)
    requires
        choices@.len() > 0,
    ensures
        Completion::Answered(choices).answer() is Some <==> choices@[0].content is Some,
        choices@[0].content matches Some(content) ==> {
            &&& Completion::Answered(choices).answer()->0.role == choices@[0].role
            &&& Completion::Answered(choices).answer()->0.text == content@
        },
        Completion::Failed.answer() is None,
{
}

/// The choices behind the first one have no bearing on the answer.
pub proof fn later_choices_do_not_sway_the_answer(one: Vec<Choice>, other: Vec<Choice>)
    requires
        one@.len() > 0,
        other@.len() > 0,
        one@[0] == other@[0],
    ensures
        Completion::Answered(one).answer() == Completion::Answered(other).answer(),
{
}

/// Whatever was said before, an answer is added behind all the other messages
/// as it came, and with or without one the robot waits again.
pub proof fn every_answer_is_remembered(conversation: Conversation, answer: Message)
    ensures
        conversation.after_answer(Some(answer)).state is Idle,
        conversation.after_answer(Some(answer)).messages.len() == conversation.messages.len() + 1,
        conversation.after_answer(Some(answer)).messages.drop_last() == conversation.messages,
        conversation.after_answer(Some(answer)).messages.last() == answer,
        conversation.after_answer(None).state is Idle,
        conversation.after_answer(None).messages == conversation.messages,
{
    assert(conversation.after_answer(Some(answer)).messages.drop_last()
        =~= conversation.messages);
}

} // verus!
