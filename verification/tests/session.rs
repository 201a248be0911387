use zenvx::agent::{gate_start, StepKind, Tool};
use zenvx::compositor::Rect;
use zenvx::launcher::Capabilities;
use zenvx::common::Error;
use zenvx::session::{app_layout, repl_zone, UiStatus, REPL_COMMAND};
use zenvx::voice::{voice_next, VoiceEvent, VoiceNext, VoiceStep};

/// Drives one voice interaction with a scripted wake word and transcript, recording
/// what is spoken.
fn run_voice(
    heard: &str,
    respond: &mut dyn FnMut(&str) -> Result<String, Error>,
    spoken: &mut Vec<String>,
) -> Result<Option<(String, String)>, Error> {
    let mut step = VoiceStep::Wake;
    loop {
        let event = match &step {
            VoiceStep::Wake => VoiceEvent::Woken(true),
            VoiceStep::Transcribe => VoiceEvent::Text(Ok(heard.to_string())),
            VoiceStep::Respond(t) => VoiceEvent::Text(respond(t)),
            VoiceStep::Speak(_, r) => {
                spoken.push(r.clone());
                VoiceEvent::Spoken(Ok(()))
            }
        };
        match voice_next(step, event) {
            VoiceNext::Go(next) => step = next,
            VoiceNext::Finish(outcome) => return outcome,
        }
    }
}

#[test]
fn voice_open_app_flows_through_launch_ui_and_layout() {
    let mut ui = UiStatus::default();
    let caps = Capabilities { has_kvm: false, ram_mb: 0 };
    let mut ran: Vec<String> = vec![];
    let mut spoken: Vec<String> = vec![];
    // voice -> STT -> session(agent+launcher+UI) -> TTS
    let result = run_voice(
        "open firefox",
        &mut |t| {
            let tool = ui.hear(t);
            assert_eq!(tool, Tool::OpenApp("firefox".into()));
            let (_, step) = gate_start(&tool, &caps);
            assert_eq!(step.kind, StepKind::Run);
            ran.push(step.text.clone());
            match tool {
                Tool::OpenApp(app) => Ok(ui.launched(&app)),
                other => panic!("unexpected {other:?}"),
            }
        },
        &mut spoken,
    )
    .unwrap();
    assert_eq!(result, Some(("open firefox".into(), "Opening firefox".into())));
    // launcher routed firefox through the agent's executor
    assert!(ran[0].contains("'firefox'"));
    // UI status updated
    assert_eq!(ui.last_launched.as_deref(), Some("firefox"));
    assert_eq!(ui.voice, "heard: open firefox");
    // the app got a surface placed in the 80% app zone
    let rects = app_layout((1920, 1080), ui.app_surfaces);
    assert_eq!(rects.len(), 1);
    assert_eq!(rects[0], Rect { x: 0, y: 0, w: 1920, h: 864 });
    // and it was spoken back
    assert_eq!(spoken, vec!["Opening firefox"]);
}

#[test]
fn repl_embedded_in_terminal_zone() {
    let zone = repl_zone((1920, 1080));
    assert_eq!(zone, Rect { x: 0, y: 864, w: 1920, h: 216 }); // the reserved 20% zone
    assert_eq!(REPL_COMMAND, "zenvx-repl"); // REPL is the hosted process
}

#[test]
fn other_speech_runs_as_shell() {
    let mut ui = UiStatus::default();
    assert_eq!(ui.hear("ls -la"), Tool::RunShell("ls -la".into()));
    assert_eq!(ui.voice, "heard: ls -la");
    assert_eq!(ui.app_surfaces, 0);
    assert_eq!(ui.hear("open   vlc  "), Tool::OpenApp("vlc".into()));
}
