use zenvx::common::Error;
use zenvx::tui::{
    launch_notice, on_key, read_input, scroll_offset, App, Input, Key, KeyAction, Role,
};

#[test]
fn assistant_streaming_appends() {
    let mut app = App::new("ollama", "llama3.2:1b");
    app.start_assistant();
    app.append_assistant("Hel");
    app.append_assistant("lo");
    assert_eq!(app.messages.last().unwrap().1, "Hello");
}

#[test]
fn new_app_state() {
    let app = App::new("openrouter", "openrouter/auto");
    assert_eq!(app.status, "ready");
    assert_eq!(app.input, "");
    assert_eq!(app.messages.len(), 1);
    assert!(app.messages[0].0 == Role::System);
}

#[test]
fn append_without_open_line_starts_one() {
    let mut app = App::new("ollama", "m");
    app.push(Role::User, "hi");
    app.append_assistant("yo");
    assert_eq!(app.messages.len(), 3);
    assert!(app.messages[2].0 == Role::Assistant);
    assert_eq!(app.messages[2].1, "yo");
}

#[test]
fn provider_messages_drop_notices_and_empty_replies() {
    let mut app = App::new("ollama", "m");
    app.push(Role::User, "hi");
    app.start_assistant();
    app.push(Role::System, "note");
    app.push(Role::User, "again");
    app.append_assistant("answer");
    let msgs = app.to_messages();
    let got: Vec<(String, String)> = msgs.into_iter().map(|m| (m.role, m.content)).collect();
    assert_eq!(
        got,
        vec![
            ("system".to_string(), "You are the ZenvX OS assistant. Be concise.".to_string()),
            ("user".to_string(), "hi".to_string()),
            ("user".to_string(), "again".to_string()),
            ("assistant".to_string(), "answer".to_string()),
        ]
    );
}

#[test]
fn transcript_rows_split_lines() {
    let mut app = App::new("ollama", "m");
    app.push(Role::Assistant, "a\nb");
    let rows = app.transcript_rows();
    assert_eq!(rows.len(), 3);
    assert_eq!(rows[1].prefix, "ai  ");
    assert_eq!(rows[1].text, "a");
    assert_eq!(rows[2].prefix, "    ");
    assert_eq!(rows[2].text, "b");
}

#[test]
fn input_commands() {
    assert_eq!(read_input("  /quit "), Input::Quit);
    assert_eq!(read_input("   "), Input::Empty);
    assert_eq!(read_input("/launch  firefox "), Input::Launch("firefox".into()));
    assert_eq!(read_input(" hello "), Input::Chat("hello".into()));
}

#[test]
fn keys_edit_submit_and_exit() {
    let mut app = App::new("openrouter", "openrouter/auto");
    assert_eq!(on_key(&mut app, Key::Char('h')), KeyAction::Edited);
    assert_eq!(on_key(&mut app, Key::Char('i')), KeyAction::Edited);
    assert_eq!(on_key(&mut app, Key::Char('x')), KeyAction::Edited);
    assert_eq!(app.input, "hix");
    assert_eq!(on_key(&mut app, Key::Backspace), KeyAction::Edited);
    assert_eq!(app.input, "hi");
    assert_eq!(on_key(&mut app, Key::Other), KeyAction::Ignore);
    assert_eq!(app.input, "hi");
    assert_eq!(on_key(&mut app, Key::Enter), KeyAction::Submit("hi".to_string()));
    assert_eq!(app.input, "");
    assert_eq!(on_key(&mut app, Key::Backspace), KeyAction::Edited);
    assert_eq!(app.input, "");
    assert_eq!(app.messages.len(), 1);
}

#[test]
fn quit_esc_and_ctrl_c_exit() {
    let mut app = App::new("ollama", "llama3.2:1b");
    for c in " /quit ".chars() {
        on_key(&mut app, Key::Char(c));
    }
    assert_eq!(on_key(&mut app, Key::Enter), KeyAction::Exit);
    assert_eq!(app.input, "");
    on_key(&mut app, Key::Char('q'));
    assert_eq!(on_key(&mut app, Key::Esc), KeyAction::Exit);
    assert_eq!(app.input, "q");
    assert_eq!(on_key(&mut app, Key::CtrlC), KeyAction::Exit);
    assert_eq!(app.input, "q");
    on_key(&mut app, Key::Char('\u{e9}'));
    assert_eq!(app.input, "q\u{e9}");
    on_key(&mut app, Key::Backspace);
    assert_eq!(app.input, "q");
}

#[test]
fn reply_status_and_error_note() {
    let mut app = App::new("openrouter", "openrouter/auto");
    app.begin_reply();
    assert_eq!(app.status, "thinking…");
    assert_eq!(app.messages.last().unwrap(), &(Role::Assistant, String::new()));
    app.append_assistant("Hi");
    app.end_reply(None);
    assert_eq!(app.status, "ready");
    assert_eq!(app.messages.last().unwrap().1, "Hi");
    app.begin_reply();
    app.append_assistant("Par");
    app.end_reply(Some(&Error::Msg("timeout".into())));
    assert_eq!(app.status, "ready");
    assert_eq!(app.messages.last().unwrap(), &(Role::Assistant, "Par\n[error: timeout]".to_string()));
    assert_eq!(app.messages.len(), 3);
}

#[test]
fn title_status_and_notices() {
    let app = App::new("openrouter", "openrouter/auto");
    assert_eq!(app.title_text(), "  openrouter · openrouter/auto");
    assert_eq!(app.status_text(), "   [ready]");
    assert_eq!(launch_notice(&Ok("'firefox'".to_string())), "launching: 'firefox'");
    assert_eq!(
        launch_notice(&Err(Error::Msg("not installed".into()))),
        "launch failed: not installed"
    );
}

#[test]
fn scroll_keeps_the_last_rows_in_view() {
    assert_eq!(scroll_offset(10, 12), 0);
    assert_eq!(scroll_offset(30, 12), 20);
    assert_eq!(scroll_offset(3, 1), 3);
    assert_eq!(scroll_offset(0, 0), 0);
    assert_eq!(scroll_offset(65536 + 5, 4), 3);
}
