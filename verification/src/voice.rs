//! The voice pipeline's decisions and text side: the order of one interaction (wake
//! word, transcription, reply, speech), whether local voice backends are present, and
//! the commands that run whisper.cpp (speech to text) and Piper (text to speech).
//! Listening, running the programs and playing audio are the caller's part.
use vstd::prelude::*;
use crate::common::Error;
use crate::launcher::{shell_quoted, shq};
use crate::text::{append_chars, append_str, chars_of, string_of};

verus! {

/// Blocks until the wake word is heard; `false` when listening stopped.
pub trait WakeWord {
    fn wait_for_wake(&mut self) -> bool;
}

/// Whether local voice backends are installed (for graceful degradation).
#[derive(Debug, Clone, Copy)]
pub struct VoiceAvailability {
    pub whisper: bool,
    pub piper: bool,
}

impl VoiceAvailability {
    /// Local voice works only with both speech-to-text and text-to-speech.
    pub fn ready(&self) -> (r: bool)
        ensures
            r == (self.whisper && self.piper),
    {
        self.whisper && self.piper
    }
}

/// Speech to text via whisper.cpp (`whisper-cli -m model -f audio -nt -otxt`).
#[derive(Debug)]
pub struct WhisperCli {
    pub binary: String,
    pub model: String,
}

/// Text to speech via Piper, piped to an audio player.
#[derive(Debug)]
pub struct PiperTts {
    pub binary: String,
    pub model: String,
    /// e.g. `aplay` or `paplay`
    pub player: String,
}

/// Where Piper writes the speech before it is played.
pub const TTS_WAV: &'static str = "/tmp/zenvx_tts.wav";

fn owned(s: &str) -> (r: String)
    ensures
        r@ == s@,
{
    string_of(&chars_of(s))
}

impl WhisperCli {
    /// The arguments whisper.cpp is run with to transcribe `audio_path`.
    pub fn args(&self, audio_path: &str) -> (r: Vec<String>)
        ensures
            r@.map_values(|a: String| a@) == seq![
                "-m"@,
                self.model@,
                "-f"@,
                audio_path@,
                "-nt"@,
                "-otxt"@,
            ],
    {
        let mut r: Vec<String> = Vec::new();
        r.push(owned("-m"));
        r.push(owned(self.model.as_str()));
        r.push(owned("-f"));
        r.push(owned(audio_path));
        r.push(owned("-nt"));
        r.push(owned("-otxt"));
        assert(r@.map_values(|a: String| a@) =~= seq![
            "-m"@,
            self.model@,
            "-f"@,
            audio_path@,
            "-nt"@,
            "-otxt"@,
        ]);
        r
    }
}

/// The shell command that speaks `text`: Piper writes it to `TTS_WAV`, the player
/// plays it; every value is single-quoted.
pub open spec fn piper_text(binary: Seq<char>, model: Seq<char>, player: Seq<char>, text: Seq<
    char,
>) -> Seq<char> {
    "echo "@ + shell_quoted(text) + " | "@ + shell_quoted(binary) + " -m "@ + shell_quoted(model)
        + " --output_file "@ + TTS_WAV@ + " && "@ + shell_quoted(player) + " "@ + TTS_WAV@
}

impl PiperTts {
    /// The shell command that speaks `text`.
    pub fn command(&self, text: &str) -> (r: String)
        ensures
            r@ == piper_text(self.binary@, self.model@, self.player@, text@),
    {
        let mut v = chars_of("echo ");
        append_chars(&mut v, &chars_of(shq(text).as_str()));
        append_str(&mut v, " | ");
        append_chars(&mut v, &chars_of(shq(self.binary.as_str()).as_str()));
        append_str(&mut v, " -m ");
        append_chars(&mut v, &chars_of(shq(self.model.as_str()).as_str()));
        append_str(&mut v, " --output_file ");
        append_str(&mut v, TTS_WAV);
        append_str(&mut v, " && ");
        append_chars(&mut v, &chars_of(shq(self.player.as_str()).as_str()));
        append_str(&mut v, " ");
        append_str(&mut v, TTS_WAV);
        string_of(&v)
    }
}

/// The shell command that tells whether a program is installed.
pub fn probe_command(bin: &str) -> (r: String)
    ensures
        r@ == "command -v "@ + shell_quoted(bin@),
{
    let mut v = chars_of("command -v ");
    append_chars(&mut v, &chars_of(shq(bin).as_str()));
    string_of(&v)
}

/// Where one voice interaction stands: waiting for the wake word, transcribing the
/// recording, asking the agent about the transcript, or speaking the reply (the
/// transcript kept for the result).
#[derive(Debug, PartialEq, Eq)]
pub enum VoiceStep {
    Wake,
    Transcribe,
    Respond(String),
    Speak(String, String),
}

/// What the caller's work at a step came to: whether the wake word was heard, the
/// text that transcribing or responding gave, or how speaking went.
#[derive(Debug, PartialEq, Eq)]
pub enum VoiceEvent {
    Woken(bool),
    Text(Result<String, Error>),
    Spoken(Result<(), Error>),
}

/// What follows: another step, or the end of the interaction with its outcome
/// (`None` when not woken, else the transcript and the reply).
#[derive(Debug, PartialEq, Eq)]
pub enum VoiceNext {
    Go(VoiceStep),
    Finish(Result<Option<(String, String)>, Error>),
}

/// The event that answers the work of each step.
pub open spec fn answers(step: VoiceStep, event: VoiceEvent) -> bool {
    match step {
        VoiceStep::Wake => event is Woken,
        VoiceStep::Transcribe | VoiceStep::Respond(_) => event is Text,
        VoiceStep::Speak(_, _) => event is Spoken,
    }
}

/// One interaction, in order: wake word, transcription, reply, speech; it ends early
/// when not woken, and at the first error, with that error.
pub open spec fn voice_after(step: VoiceStep, event: VoiceEvent) -> VoiceNext {
    match event {
        VoiceEvent::Woken(w) => if w {
            VoiceNext::Go(VoiceStep::Transcribe)
        } else {
            VoiceNext::Finish(Ok(None))
        },
        VoiceEvent::Text(Err(e)) => VoiceNext::Finish(Err(e)),
        VoiceEvent::Spoken(Err(e)) => VoiceNext::Finish(Err(e)),
        VoiceEvent::Text(Ok(text)) => match step {
            VoiceStep::Respond(transcript) => VoiceNext::Go(VoiceStep::Speak(transcript, text)),
            _ => VoiceNext::Go(VoiceStep::Respond(text)),
        },
        VoiceEvent::Spoken(Ok(_)) => match step {
            VoiceStep::Speak(transcript, reply) => VoiceNext::Finish(Ok(Some((transcript, reply)))),
            _ => VoiceNext::Finish(Ok(None)),
        },
    }
}

/// The step after the caller's work at `step` came to `event`.
pub fn voice_next(step: VoiceStep, event: VoiceEvent) -> (r: VoiceNext)
    requires
        answers(step, event),
    ensures
        r == voice_after(step, event),
{
    match event {
        VoiceEvent::Woken(w) => if w {
            VoiceNext::Go(VoiceStep::Transcribe)
        } else {
            VoiceNext::Finish(Ok(None))
        },
        VoiceEvent::Text(Err(e)) => VoiceNext::Finish(Err(e)),
        VoiceEvent::Spoken(Err(e)) => VoiceNext::Finish(Err(e)),
        VoiceEvent::Text(Ok(text)) => match step {
            VoiceStep::Respond(transcript) => VoiceNext::Go(VoiceStep::Speak(transcript, text)),
            _ => VoiceNext::Go(VoiceStep::Respond(text)),
        },
        VoiceEvent::Spoken(Ok(_)) => match step {
            VoiceStep::Speak(transcript, reply) => VoiceNext::Finish(Ok(Some((transcript, reply)))),
            _ => VoiceNext::Finish(Ok(None)),
        },
    }
}

} // verus!
