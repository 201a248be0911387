use zenvx::config::Provider;
use zenvx::setup::{
    config_for_key, first_listed_model, is_yes, local_config, setup_step, unconfigured, SetupAction,
    SetupStage,
};
use zenvx::common::Error;
use zenvx::voice::{
    probe_command, voice_next, PiperTts, VoiceAvailability, VoiceEvent, VoiceNext, VoiceStep, WhisperCli,
};

#[test]
fn voice_readiness() {
    assert!(VoiceAvailability { whisper: true, piper: true }.ready());
    assert!(!VoiceAvailability { whisper: true, piper: false }.ready());
}

#[test]
fn voice_commands() {
    let w = WhisperCli { binary: "whisper-cli".into(), model: "m.bin".into() };
    assert_eq!(w.args("rec.wav"), vec!["-m", "m.bin", "-f", "rec.wav", "-nt", "-otxt"]);
    let p = PiperTts { binary: "piper".into(), model: "v.onnx".into(), player: "aplay".into() };
    assert_eq!(
        p.command("it's on"),
        "echo 'it'\\''s on' | 'piper' -m 'v.onnx' --output_file /tmp/zenvx_tts.wav && 'aplay' /tmp/zenvx_tts.wav"
    );
    assert_eq!(probe_command("piper"), "command -v 'piper'");
}

#[test]
fn first_boot_choices() {
    let c = config_for_key("  sk-1 ").unwrap();
    assert_eq!(c.provider, Provider::OpenRouter);
    assert_eq!(c.openrouter_key.as_deref(), Some("sk-1"));
    assert_eq!(c.model.as_deref(), Some("openrouter/auto"));
    assert!(config_for_key("   ").is_none());
    assert!(is_yes(" Yes "));
    assert!(is_yes("y"));
    assert!(!is_yes("no"));
    let l = local_config(None);
    assert_eq!(l.provider, Provider::Ollama);
    assert_eq!(l.model.as_deref(), Some("llama3.2:1b"));
    assert_eq!(local_config(Some("qwen".into())).model.as_deref(), Some("qwen"));
    assert!(unconfigured().openrouter_key.is_none());
    let out = "NAME ID SIZE\n\nllama3.2:1b abc 1.3 GB\nphi x 2 GB\n";
    assert_eq!(first_listed_model(out).as_deref(), Some("llama3.2:1b"));
    assert_eq!(first_listed_model("NAME ID\n"), None);
}

#[test]
fn first_boot_flow_steps() {
    // an entered key finishes with OpenRouter
    match setup_step(SetupStage::AskKey, Some("sk-or-1")) {
        SetupAction::Done(c) => {
            assert_eq!(c.provider, Provider::OpenRouter);
            assert_eq!(c.openrouter_key.as_deref(), Some("sk-or-1"));
            assert_eq!(c.model.as_deref(), Some("openrouter/auto"));
        }
        other => panic!("unexpected {other:?}"),
    }
    // a blank key leads to the local question
    assert!(matches!(setup_step(SetupStage::AskKey, Some("")), SetupAction::Ask(SetupStage::AskLocal)));
    assert!(matches!(setup_step(SetupStage::AskKey, Some("  ")), SetupAction::Ask(SetupStage::AskLocal)));
    // yes goes local; no (or anything else) asks for the key again
    assert!(matches!(setup_step(SetupStage::AskLocal, Some("Y")), SetupAction::UseLocal));
    assert!(matches!(setup_step(SetupStage::AskLocal, Some("yes")), SetupAction::UseLocal));
    assert!(matches!(setup_step(SetupStage::AskLocal, Some("n")), SetupAction::Ask(SetupStage::AskKey)));
    assert!(matches!(setup_step(SetupStage::AskLocal, Some("")), SetupAction::Ask(SetupStage::AskKey)));
    // the end of input, at either question, finishes with OpenRouter and no key
    for stage in [SetupStage::AskKey, SetupStage::AskLocal] {
        match setup_step(stage, None) {
            SetupAction::Done(c) => {
                assert_eq!(c.provider, Provider::OpenRouter);
                assert!(c.openrouter_key.is_none());
                assert_eq!(c.model.as_deref(), Some("openrouter/auto"));
            }
            other => panic!("unexpected {other:?}"),
        }
    }
}

/// Drives one voice interaction with a scripted wake word and transcript, recording
/// what is spoken.
fn run_voice(
    woken: bool,
    heard: &str,
    respond: &mut dyn FnMut(&str) -> Result<String, Error>,
    spoken: &mut Vec<String>,
) -> Result<Option<(String, String)>, Error> {
    let mut step = VoiceStep::Wake;
    loop {
        let event = match &step {
            VoiceStep::Wake => VoiceEvent::Woken(woken),
            VoiceStep::Transcribe => VoiceEvent::Text(Ok(heard.to_string())),
            VoiceStep::Respond(t) => VoiceEvent::Text(respond(t)),
            VoiceStep::Speak(_, r) => {
                spoken.push(r.clone());
                VoiceEvent::Spoken(Ok(()))
            }
        };
        match voice_next(step, event) {
            VoiceNext::Go(next) => step = next,
            VoiceNext::Finish(outcome) => return outcome,
        }
    }
}

#[test]
fn wake_gate_blocks_when_not_woken() {
    let mut spoken = vec![];
    let r = run_voice(false, "hi", &mut |_| Ok("ignored".into()), &mut spoken).unwrap();
    assert!(r.is_none());
    assert!(spoken.is_empty());
}

#[test]
fn full_flow_transcribes_responds_and_speaks() {
    let mut spoken = vec![];
    let r = run_voice(
        true,
        "open firefox",
        &mut |t| {
            assert_eq!(t, "open firefox");
            Ok(format!("Opening {}", t.trim_start_matches("open ")))
        },
        &mut spoken,
    )
    .unwrap();
    assert_eq!(r, Some(("open firefox".into(), "Opening firefox".into())));
    assert_eq!(spoken, vec!["Opening firefox"]);
}

#[test]
fn voice_stops_at_the_first_error() {
    let mut spoken = vec![];
    let r = run_voice(true, "x", &mut |_| Err(Error::Msg("agent down".into())), &mut spoken);
    assert_eq!(r, Err(Error::Msg("agent down".into())));
    assert!(spoken.is_empty());
    assert_eq!(
        voice_next(VoiceStep::Transcribe, VoiceEvent::Text(Err(Error::Msg("no mic".into())))),
        VoiceNext::Finish(Err(Error::Msg("no mic".into())))
    );
    assert_eq!(
        voice_next(
            VoiceStep::Speak("a".into(), "b".into()),
            VoiceEvent::Spoken(Err(Error::Msg("TTS playback failed".into())))
        ),
        VoiceNext::Finish(Err(Error::Msg("TTS playback failed".into())))
    );
    assert_eq!(
        voice_next(VoiceStep::Respond("hi".into()), VoiceEvent::Text(Ok("hello".into()))),
        VoiceNext::Go(VoiceStep::Speak("hi".into(), "hello".into()))
    );
}
