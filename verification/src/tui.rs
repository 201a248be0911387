//! The full-screen terminal interface's state: the conversation shown, the input
//! line and the status, what each key press does to them, and the texts and
//! transcript rows a renderer draws. Reading keys and drawing are the caller's part.
use vstd::prelude::*;
use crate::ai::Message;
use crate::common::Error;
use crate::repl::messages_view;
use crate::text::{
    append_chars, chars_of, same_chars, slice_chars, split_lines_exec, split_on, starts_with,
    string_of, trim, trim_exec,
};

verus! {

/// Who wrote a line of the conversation.
#[derive(Debug, Clone, Copy, PartialEq, Eq, Structural)]
pub enum Role {
    User,
    Assistant,
    System,
}

/// The TUI state.
pub struct App {
    pub provider: String,
    pub model: String,
    pub status: String,
    pub input: String,
    pub messages: Vec<(Role, String)>,
}

/// The notice the conversation opens with.
pub const WELCOME: &'static str = "Welcome to ZenvX OS. Type to chat, /launch <app> to open something, /quit to exit.";

/// The notice shown at start when no provider is configured.
pub const NO_PROVIDER_HINT: &'static str = "No provider configured — run `zenvx` first to add a key or pick a local model.";

/// The notice shown when a chat message cannot be sent for want of a provider.
pub const NO_PROVIDER: &'static str = "No provider configured.";

/// The system prompt of TUI conversations.
pub const TUI_SYSTEM: &'static str = "You are the ZenvX OS assistant. Be concise.";

/// A conversation as (role, text) pairs.
pub open spec fn lines_view(v: Seq<(Role, String)>) -> Seq<(Role, Seq<char>)> {
    v.map_values(|e: (Role, String)| (e.0, e.1@))
}

/// The provider messages of a conversation: the system prompt, then user lines and
/// non-empty assistant lines, in order (UI-only system notices are dropped).
pub open spec fn provider_messages(v: Seq<(Role, Seq<char>)>) -> Seq<(Seq<char>, Seq<char>)>
    decreases v.len(),
{
    if v.len() == 0 {
        seq![("system"@, TUI_SYSTEM@)]
    } else {
        let init = provider_messages(v.drop_last());
        let (role, text) = v.last();
        match role {
            Role::User => init.push(("user"@, text)),
            Role::Assistant => if text.len() > 0 {
                init.push(("assistant"@, text))
            } else {
                init
            },
            Role::System => init,
        }
    }
}

/// The conversation after `tok` is appended to the assistant line in progress (the
/// last line, when the assistant wrote it), or opens a new assistant line.
pub open spec fn with_assistant_text(c: Seq<(Role, Seq<char>)>, tok: Seq<char>) -> Seq<
    (Role, Seq<char>),
> {
    if c.len() > 0 && c.last().0 == Role::Assistant {
        c.update(c.len() - 1, (Role::Assistant, c.last().1 + tok))
    } else {
        c.push((Role::Assistant, tok))
    }
}

/// The note appended to the reply when the provider fails.
pub open spec fn error_note(msg: Seq<char>) -> Seq<char> {
    "\n[error: "@ + msg + "]"@
}

/// The notice after a launch: the command that runs, or why it failed.
pub open spec fn launch_notice_text(outcome: Result<Seq<char>, Seq<char>>) -> Seq<char> {
    match outcome {
        Ok(cmd) => "launching: "@ + cmd,
        Err(msg) => "launch failed: "@ + msg,
    }
}

/// The tag that starts a message of each role.
pub open spec fn role_tag(r: Role) -> Seq<char> {
    match r {
        Role::User => "you"@,
        Role::Assistant => "ai "@,
        Role::System => "·  "@,
    }
}

/// One row of the transcript: the role (for styling), the prefix, and the text.
#[derive(Debug)]
pub struct TranscriptRow {
    pub role: Role,
    pub prefix: String,
    pub text: String,
}

/// The rows of one message: one per `\n`-separated segment, the first prefixed by
/// the role's tag and a space, the others indented by four spaces.
pub open spec fn message_rows(role: Role, text: Seq<char>) -> Seq<(Role, Seq<char>, Seq<char>)> {
    let segs = split_on(text, '\n');
    Seq::new(
        segs.len(),
        |i: int|
            (role, if i == 0 {
                role_tag(role) + seq![' ']
            } else {
                "    "@
            }, segs[i]),
    )
}

/// The rows of a whole conversation, message after message.
pub open spec fn transcript(v: Seq<(Role, Seq<char>)>) -> Seq<(Role, Seq<char>, Seq<char>)>
    decreases v.len(),
{
    if v.len() == 0 {
        Seq::empty()
    } else {
        transcript(v.drop_last()) + message_rows(v.last().0, v.last().1)
    }
}

fn role_tag_exec(r: Role) -> (t: &'static str)
    ensures
        t@ == role_tag(r),
{
    match r {
        Role::User => "you",
        Role::Assistant => "ai ",
        Role::System => "·  ",
    }
}

impl App {
    /// The conversation as (role, text) pairs.
    pub open spec fn conversation(&self) -> Seq<(Role, Seq<char>)> {
        lines_view(self.messages@)
    }

    /// A fresh TUI for a provider and model: status `ready`, empty input, and the
    /// welcome notice.
    pub fn new(provider: &str, model: &str) -> (a: App)
        ensures
            a.provider@ == provider@,
            a.model@ == model@,
            a.status@ == "ready"@,
            a.input@ == Seq::<char>::empty(),
            a.conversation() == seq![(Role::System, WELCOME@)],
    {
        let mut messages: Vec<(Role, String)> = Vec::new();
        messages.push((Role::System, string_of(&chars_of(WELCOME))));
        let a = App {
            provider: string_of(&chars_of(provider)),
            model: string_of(&chars_of(model)),
            status: string_of(&chars_of("ready")),
            input: string_of(&Vec::new()),
            messages,
        };
        assert(a.conversation() =~= seq![(Role::System, WELCOME@)]);
        a
    }

    /// Add a line to the conversation.
    pub fn push(&mut self, role: Role, text: &str)
        ensures
            final(self).conversation() == old(self).conversation().push((role, text@)),
            final(self).provider == old(self).provider,
            final(self).model == old(self).model,
            final(self).status == old(self).status,
            final(self).input == old(self).input,
    {
        self.messages.push((role, string_of(&chars_of(text))));
        assert(self.conversation() =~= old(self).conversation().push((role, text@)));
    }

    /// Open an empty assistant line that streamed tokens will fill.
    pub fn start_assistant(&mut self)
        ensures
            final(self).conversation() == old(self).conversation().push(
                (Role::Assistant, Seq::<char>::empty()),
            ),
            final(self).provider == old(self).provider,
            final(self).model == old(self).model,
            final(self).status == old(self).status,
            final(self).input == old(self).input,
    {
        self.messages.push((Role::Assistant, string_of(&Vec::new())));
        assert(self.conversation() =~= old(self).conversation().push(
            (Role::Assistant, Seq::<char>::empty()),
        ));
    }

    /// Append a streamed token to the assistant line in progress, or start one.
    pub fn append_assistant(&mut self, tok: &str)
        ensures
            final(self).conversation() == with_assistant_text(old(self).conversation(), tok@),
            final(self).provider == old(self).provider,
            final(self).model == old(self).model,
            final(self).status == old(self).status,
            final(self).input == old(self).input,
    {
        let n = self.messages.len();
        if n > 0 && self.messages[n - 1].0 == Role::Assistant {
            let (role, text) = self.messages.pop().unwrap();
            let mut v = chars_of(text.as_str());
            append_chars(&mut v, &chars_of(tok));
            self.messages.push((role, string_of(&v)));
            let ghost c = old(self).conversation();
            assert(self.conversation() =~= c.update(
                c.len() - 1,
                (Role::Assistant, c.last().1 + tok@),
            ));
        } else {
            self.messages.push((Role::Assistant, string_of(&chars_of(tok))));
            assert(self.conversation() =~= old(self).conversation().push(
                (Role::Assistant, tok@),
            ));
        }
    }

    /// Start a reply: open an empty assistant line and show `thinking…`.
    pub fn begin_reply(&mut self)
        ensures
            final(self).conversation() == old(self).conversation().push(
                (Role::Assistant, Seq::<char>::empty()),
            ),
            final(self).status@ == "thinking…"@,
            final(self).provider == old(self).provider,
            final(self).model == old(self).model,
            final(self).input == old(self).input,
    {
        self.start_assistant();
        self.status = string_of(&chars_of("thinking…"));
    }

    /// End a reply: show `ready` again, and note the provider's error, if any, on the
    /// reply.
    pub fn end_reply(&mut self, failure: Option<&Error>)
        ensures
            final(self).conversation() == match failure {
                None => old(self).conversation(),
                Some(e) => with_assistant_text(old(self).conversation(), error_note(e.msg_view())),
            },
            final(self).status@ == "ready"@,
            final(self).provider == old(self).provider,
            final(self).model == old(self).model,
            final(self).input == old(self).input,
    {
        self.status = string_of(&chars_of("ready"));
        match failure {
            None => {},
            Some(e) => {
                let mut v = chars_of("\n[error: ");
                append_chars(&mut v, &chars_of(e.message().as_str()));
                append_chars(&mut v, &chars_of("]"));
                self.append_assistant(string_of(&v).as_str());
            },
        }
    }

    /// The title bar's text after the brand: provider and model.
    pub fn title_text(&self) -> (r: String)
        ensures
            r@ == "  "@ + self.provider@ + " · "@ + self.model@,
    {
        let mut v = chars_of("  ");
        append_chars(&mut v, &chars_of(self.provider.as_str()));
        append_chars(&mut v, &chars_of(" · "));
        append_chars(&mut v, &chars_of(self.model.as_str()));
        string_of(&v)
    }

    /// The status as the title bar shows it.
    pub fn status_text(&self) -> (r: String)
        ensures
            r@ == "   ["@ + self.status@ + "]"@,
    {
        let mut v = chars_of("   [");
        append_chars(&mut v, &chars_of(self.status.as_str()));
        append_chars(&mut v, &chars_of("]"));
        string_of(&v)
    }

    /// The conversation as provider messages (UI-only system notices are dropped).
    pub fn to_messages(&self) -> (r: Vec<Message>)
        ensures
            messages_view(r@) == provider_messages(self.conversation()),
    {
        let mut out: Vec<Message> = Vec::new();
        out.push(Message::system(TUI_SYSTEM));
        let mut i: usize = 0;
        assert(self.conversation().take(0) =~= Seq::<(Role, Seq<char>)>::empty());
        assert(messages_view(out@) =~= provider_messages(self.conversation().take(0)));
        while i < self.messages.len()
            invariant
                i <= self.messages@.len(),
                messages_view(out@) == provider_messages(self.conversation().take(i as int)),
            decreases self.messages@.len() - i,
        {
            let ghost c = self.conversation();
            assert(c.take(i + 1).drop_last() =~= c.take(i as int));
            assert(c.take(i + 1).last() == c[i as int]);
            let role = self.messages[i].0;
            let text = self.messages[i].1.as_str();
            assert(c[i as int] == (role, text@));
            match role {
                Role::User => {
                    assert(provider_messages(c.take(i + 1)) == provider_messages(c.take(i as int)).push(("user"@, text@)));
                    out.push(Message::user(text));
                    assert(messages_view(out@) =~= provider_messages(c.take(i as int)).push(
                        ("user"@, text@),
                    ));
                },
                Role::Assistant => {
                    if !text.is_empty() {
                        out.push(Message::assistant(text));
                        assert(messages_view(out@) =~= provider_messages(c.take(i as int)).push(
                            ("assistant"@, text@),
                        ));
                    }
                },
                Role::System => {
                    assert(provider_messages(c.take(i + 1)) == provider_messages(c.take(i as int)));
                },
            }
            i = i + 1;
        }
        assert(self.conversation().take(self.messages@.len() as int) =~= self.conversation());
        out
    }

    /// The transcript rows a renderer draws, message after message.
    pub fn transcript_rows(&self) -> (r: Vec<TranscriptRow>)
        ensures
            r@.map_values(|row: TranscriptRow| (row.role, row.prefix@, row.text@)) == transcript(
                self.conversation(),
            ),
    {
        let mut out: Vec<TranscriptRow> = Vec::new();
        let mut i: usize = 0;
        assert(self.conversation().take(0) =~= Seq::<(Role, Seq<char>)>::empty());
        while i < self.messages.len()
            invariant
                i <= self.messages@.len(),
                out@.map_values(|row: TranscriptRow| (row.role, row.prefix@, row.text@))
                    == transcript(self.conversation().take(i as int)),
            decreases self.messages@.len() - i,
        {
            let ghost c = self.conversation();
            assert(c.take(i + 1).drop_last() =~= c.take(i as int));
            let role = self.messages[i].0;
            let tag = chars_of(role_tag_exec(role));
            let segs = split_lines_exec(&chars_of(self.messages[i].1.as_str()));
            let ghost before = out@.map_values(
                |row: TranscriptRow| (row.role, row.prefix@, row.text@),
            );
            let ghost rows = message_rows(role, c[i as int].1);
            let mut j: usize = 0;
            while j < segs.len()
                invariant
                    j <= segs@.len(),
                    segs@.len() == rows.len(),
                    forall|k: int| 0 <= k < segs@.len() ==> #[trigger] segs@[k]@ == rows[k].2,
                    tag@ == role_tag(role),
                    i < self.messages@.len(),
                    c == self.conversation(),
                    rows == message_rows(role, c[i as int].1),
                    out@.map_values(|row: TranscriptRow| (row.role, row.prefix@, row.text@))
                        == before + rows.take(j as int),
                decreases segs@.len() - j,
            {
                let prefix = if j == 0 {
                    let mut p = chars_of(role_tag_exec(role));
                    p.push(' ');
                    string_of(&p)
                } else {
                    string_of(&chars_of("    "))
                };
                assert(prefix@ == rows[j as int].1);
                assert(rows[j as int].0 == role);
                let row = TranscriptRow { role, prefix, text: string_of(&segs[j]) };
                assert((row.role, row.prefix@, row.text@) == rows[j as int]);
                let ghost prev = out@;
                out.push(row);
                assert(out@ == prev.push(row));
                assert(rows.take(j + 1) =~= rows.take(j as int).push(rows[j as int]));
                assert(out@.map_values(|row: TranscriptRow| (row.role, row.prefix@, row.text@))
                    =~= prev.map_values(|row: TranscriptRow| (row.role, row.prefix@, row.text@)).push(rows[j as int]));
                j = j + 1;
            }
            assert(rows.take(segs@.len() as int) =~= rows);
            i = i + 1;
        }
        assert(self.conversation().take(self.messages@.len() as int) =~= self.conversation());
        out
    }
}


/// What an entered line asks for.
#[derive(Debug, PartialEq, Eq)]
pub enum Input {
    /// Nothing was entered.
    Empty,
    /// Leave the TUI.
    Quit,
    /// Open an app (routed through the launcher).
    Launch(String),
    /// Chat with the AI agent.
    Chat(String),
}

/// What an entered line asks for, as (kind, text): 0 empty, 1 quit, 2 launch the
/// (trimmed) target, 3 chat with the trimmed line.
pub open spec fn input_for(line: Seq<char>) -> (int, Seq<char>) {
    let t = trim(line);
    if t == "/quit"@ {
        (1, Seq::<char>::empty())
    } else if t.len() == 0 {
        (0, Seq::<char>::empty())
    } else if starts_with(t, "/launch "@) {
        (2, trim(t.skip(8)))
    } else {
        (3, t)
    }
}

impl Input {
    pub open spec fn view(self) -> (int, Seq<char>) {
        match self {
            Input::Empty => (0, Seq::<char>::empty()),
            Input::Quit => (1, Seq::<char>::empty()),
            Input::Launch(t) => (2, t@),
            Input::Chat(t) => (3, t@),
        }
    }
}

/// Read an entered line: `/quit`, `/launch <app>`, nothing, or a chat message.
pub fn read_input(line: &str) -> (r: Input)
    ensures
        r@ == input_for(line@),
{
    let t = trim_exec(&chars_of(line));
    if same_chars(&t, &chars_of("/quit")) {
        return Input::Quit;
    }
    if t.len() == 0 {
        return Input::Empty;
    }
    let prefix = chars_of("/launch ");
    proof {
        reveal_strlit("/launch ");
    }
    if t.len() >= 8 && same_chars(&slice_chars(&t, 0, 8), &prefix) {
        let n = t.len();
        let rest = slice_chars(&t, 8, n);
        assert(rest@ =~= t@.skip(8));
        return Input::Launch(string_of(&trim_exec(&rest)));
    }
    Input::Chat(string_of(&t))
}

/// A key press, as the TUI loop tells keys apart.
#[derive(Debug, Clone, Copy, PartialEq, Eq, Structural)]
pub enum Key {
    Esc,
    CtrlC,
    Enter,
    Backspace,
    Char(char),
    Other,
}

/// What a key press asks of the TUI loop.
#[derive(Debug, PartialEq, Eq)]
pub enum KeyAction {
    /// Leave the TUI.
    Exit,
    /// Handle this entered line.
    Submit(String),
    /// The input line changed; draw again.
    Edited,
    /// Nothing to do.
    Ignore,
}

/// Handle one key press: Esc and Ctrl-C exit; Enter takes the input line (exiting on
/// `/quit`, else submitting it); Backspace and characters edit the input line; any
/// other key is ignored.
pub fn on_key(app: &mut App, key: Key) -> (a: KeyAction)
    ensures
        final(app).provider == old(app).provider,
        final(app).model == old(app).model,
        final(app).status == old(app).status,
        final(app).messages == old(app).messages,
        match key {
            Key::Esc | Key::CtrlC => a is Exit && final(app).input == old(app).input,
            Key::Enter => {
                &&& final(app).input@ == Seq::<char>::empty()
                &&& if input_for(old(app).input@).0 == 1 {
                    a is Exit
                } else {
                    a matches KeyAction::Submit(line) && line@ == old(app).input@
                }
            },
            Key::Backspace => a is Edited && final(app).input@ == if old(app).input@.len() > 0 {
                old(app).input@.drop_last()
            } else {
                old(app).input@
            },
            Key::Char(c) => a is Edited && final(app).input@ == old(app).input@.push(c),
            Key::Other => a is Ignore && final(app).input == old(app).input,
        },
{
    match key {
        Key::Esc | Key::CtrlC => KeyAction::Exit,
        Key::Enter => {
            let line = string_of(&chars_of(app.input.as_str()));
            app.input = string_of(&Vec::new());
            match read_input(line.as_str()) {
                Input::Quit => KeyAction::Exit,
                _ => KeyAction::Submit(line),
            }
        },
        Key::Backspace => {
            let mut v = chars_of(app.input.as_str());
            if v.len() > 0 {
                v.pop();
            }
            app.input = string_of(&v);
            KeyAction::Edited
        },
        Key::Char(c) => {
            let mut v = chars_of(app.input.as_str());
            v.push(c);
            app.input = string_of(&v);
            KeyAction::Edited
        },
        Key::Other => KeyAction::Ignore,
    }
}

/// The notice after a launch: `launching: <command>`, or `launch failed: <why>`.
pub fn launch_notice(outcome: &Result<String, Error>) -> (r: String)
    ensures
        r@ == launch_notice_text(
            match outcome {
                Ok(c) => Ok(c@),
                Err(e) => Err(e.msg_view()),
            },
        ),
{
    match outcome {
        Ok(c) => {
            let mut v = chars_of("launching: ");
            append_chars(&mut v, &chars_of(c.as_str()));
            string_of(&v)
        },
        Err(e) => {
            let mut v = chars_of("launch failed: ");
            append_chars(&mut v, &chars_of(e.message().as_str()));
            string_of(&v)
        },
    }
}

/// How many transcript rows scroll out of view so that the last ones show, in a
/// bordered area `area_height` rows tall (the row count taken as a `u16`).
pub fn scroll_offset(rows: usize, area_height: u16) -> (r: u16)
    ensures
        ({
            let view: int = if area_height >= 2 { area_height - 2 } else { 0 };
            let n = rows as u16;
            r == if n > view { n - view } else { 0 }
        }),
{
    let view: u16 = if area_height >= 2 { area_height - 2 } else { 0 };
    let n: u16 = rows as u16;
    if n > view {
        n - view
    } else {
        0
    }
}

} // verus!
