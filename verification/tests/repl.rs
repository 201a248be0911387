use zenvx::agent::{gate_answer, gate_start, StepKind, Tool};
use zenvx::launcher::Capabilities;
use zenvx::repl::{parse_tool, read_repl_line, ReplAction, ReplLine, ReplState, MAX_TOOL_HOPS};

/// A model that replies from a script.
struct Mock {
    replies: Vec<String>,
    idx: usize,
}

fn mock(replies: &[&str]) -> Mock {
    Mock { replies: replies.iter().map(|s| s.to_string()).collect(), idx: 0 }
}

struct Scripted {
    answers: Vec<bool>,
    asked: usize,
}

#[derive(Default)]
struct Recording {
    calls: Vec<String>,
}

fn dispatch(c: &mut Scripted, e: &mut Recording, tool: Tool) -> Result<String, zenvx::common::Error> {
    let caps = Capabilities { has_kvm: false, ram_mb: 0 };
    let (mut gate, mut step) = gate_start(&tool, &caps);
    loop {
        match step.kind {
            StepKind::Ask => {
                let yes = c.answers.get(c.asked).copied().unwrap_or(false);
                c.asked += 1;
                let (g, s) = gate_answer(gate, yes);
                gate = g;
                step = s;
            }
            StepKind::Run => {
                e.calls.push(step.text.clone());
                return Ok("ran".into());
            }
            StepKind::Failed => return Err(zenvx::common::Error::Msg(step.text)),
            StepKind::List => return Ok(String::new()),
        }
    }
}

/// One user turn, the way the REPL runs it.
fn handle_turn(
    st: &mut ReplState,
    model: &mut Mock,
    c: &mut Scripted,
    e: &mut Recording,
    input: &str,
    out: &mut String,
) -> String {
    st.begin_turn(input);
    loop {
        let r = model.replies.get(model.idx).cloned().unwrap_or_default();
        model.idx += 1;
        out.push_str(&r);
        match st.after_reply(&r) {
            ReplAction::Done(answer) => return answer,
            ReplAction::Dispatch(tool) => {
                let result = dispatch(c, e, tool);
                let (shown, end) = st.after_tool(&result);
                out.push_str(&shown);
                if let Some(answer) = end {
                    return answer;
                }
            }
        }
    }
}

#[test]
fn runs_safe_tool_then_answers() {
    let (mut c, mut e) = (Scripted { answers: vec![], asked: 0 }, Recording::default());
    let mut st = ReplState::new();
    let mut model = mock(&["@tool run_shell echo hello", "All done!"]);
    let mut out = String::new();
    let final_reply = handle_turn(&mut st, &mut model, &mut c, &mut e, "greet", &mut out);
    assert_eq!(final_reply, "All done!");
    assert_eq!(e.calls, vec!["echo hello"]);
    assert!(out.contains("[tool] ran"));
    assert_eq!(c.asked, 0); // safe -> no confirmation
}

#[test]
fn risky_tool_gated_in_repl() {
    let (mut c, mut e) = (Scripted { answers: vec![true, true], asked: 0 }, Recording::default());
    let mut st = ReplState::new();
    let mut model = mock(&["@tool run_shell sudo reboot", "Rebooting."]);
    let mut out = String::new();
    handle_turn(&mut st, &mut model, &mut c, &mut e, "restart", &mut out);
    assert_eq!(e.calls, vec!["sudo reboot"]);
    assert_eq!(c.asked, 2); // double-confirmed before running
}

#[test]
fn denied_tool_blocked_in_repl() {
    let (mut c, mut e) = (Scripted { answers: vec![true, true], asked: 0 }, Recording::default());
    let mut st = ReplState::new();
    let mut model = mock(&["@tool run_shell rm -rf /", "ok"]);
    let mut out = String::new();
    handle_turn(&mut st, &mut model, &mut c, &mut e, "wipe", &mut out);
    assert!(e.calls.is_empty()); // never executed
    assert!(out.contains("[tool] error")); // blocked message fed back to the model
}

#[test]
fn hop_limit_ends_the_turn() {
    let (mut c, mut e) = (Scripted { answers: vec![], asked: 0 }, Recording::default());
    let mut st = ReplState::new();
    let mut model = mock(&["@tool run_shell echo 1"; 8]);
    let mut out = String::new();
    let answer = handle_turn(&mut st, &mut model, &mut c, &mut e, "loop", &mut out);
    assert_eq!(model.idx, MAX_TOOL_HOPS);
    assert_eq!(e.calls.len(), MAX_TOOL_HOPS);
    assert_eq!(answer, "@tool run_shell echo 1");
    // system, user, then (assistant, tool feedback) per hop
    assert_eq!(st.messages.len(), 2 + 2 * MAX_TOOL_HOPS);
}

#[test]
fn tool_lines_parse() {
    assert_eq!(parse_tool("sure\n  @tool open_app  firefox \nmore"), Some(Tool::OpenApp("firefox".into())));
    assert_eq!(parse_tool("@tool list_files"), Some(Tool::ListFiles(String::new())));
    assert_eq!(parse_tool("@tool run_shell ls -la /tmp"), Some(Tool::RunShell("ls -la /tmp".into())));
    // the first @tool line decides, even when it names no known tool
    assert_eq!(parse_tool("@tool fly away\n@tool run_shell ls"), None);
    assert_eq!(parse_tool("no tools here"), None);
}

#[test]
fn feedback_text() {
    let mut st = ReplState::new();
    st.begin_turn("x");
    let (shown, end) = st.after_tool(&Err(zenvx::common::Error::Msg("nope".into())));
    assert_eq!(shown, "\n[tool] error: nope\n");
    assert!(end.is_none());
    assert_eq!(st.messages.last().unwrap().content, "[tool] error: nope");
    assert_eq!(st.messages.last().unwrap().role, "user");
}

#[test]
fn repl_lines_quit_skip_or_chat() {
    assert_eq!(read_repl_line("exit\n"), ReplLine::Quit);
    assert_eq!(read_repl_line("  quit "), ReplLine::Quit);
    assert_eq!(read_repl_line("\n"), ReplLine::Empty);
    assert_eq!(read_repl_line("   \t"), ReplLine::Empty);
    assert_eq!(read_repl_line(" list my files \n"), ReplLine::Chat("list my files".into()));
    assert_eq!(read_repl_line("exit now"), ReplLine::Chat("exit now".into()));
    assert_eq!(read_repl_line("EXIT"), ReplLine::Chat("EXIT".into()));
}
