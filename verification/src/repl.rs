//! The terminal REPL's turn logic: spotting a tool call in the model's reply, feeding
//! the tool's result back, and bounding the number of round trips per user turn.
//! It also reads the lines the user enters. Talking to the model and running the tool
//! are the caller's part.
use vstd::prelude::*;
use crate::agent::{Tool, ToolKind};
use crate::ai::Message;
use crate::common::Error;
use crate::text::{
    append_chars, chars_of, find, find_exec, occurs_at, same_chars, slice_chars, split_lines_exec,
    split_on, starts_with, string_of, trim, trim_exec, whitespace,
};

verus! {

/// The system prompt that opens every conversation.
pub const SYSTEM: &'static str = "You are the ZenvX OS assistant in a terminal with system access.\nTo use a tool, output one line exactly: `@tool <name> <arg>`\nTools: run_shell <command>, open_app <name>, list_files <path>.\nUse at most one tool per reply; afterwards you receive `[tool] <output>`.\nIf no tool is needed, just answer.";

/// Max tool round-trips per user turn (prevents runaway loops).
pub const MAX_TOOL_HOPS: usize = 5;

/// The tool a `@tool` line's remainder names: the first word (up to a space) is the
/// tool, the rest its argument, both trimmed.
pub open spec fn tool_named(rest: Seq<char>) -> Option<(ToolKind, Seq<char>)> {
    let (name, arg) = match find(rest, seq![' ']) {
        Some(i) => (rest.subrange(0, i), rest.subrange(i + 1, rest.len() as int)),
        None => (rest, Seq::<char>::empty()),
    };
    let name = trim(name);
    let arg = trim(arg);
    if name == "run_shell"@ {
        Some((ToolKind::RunShell, arg))
    } else if name == "open_app"@ {
        Some((ToolKind::OpenApp, arg))
    } else if name == "list_files"@ {
        Some((ToolKind::ListFiles, arg))
    } else {
        None
    }
}

/// The tool call in lines `i..` of a reply: the first line that, trimmed, starts with
/// `@tool ` decides, even when it names no known tool.
pub open spec fn tool_in_lines(lines: Seq<Seq<char>>, i: int) -> Option<(ToolKind, Seq<char>)>
    decreases lines.len() - i,
{
    if i < 0 || i >= lines.len() {
        None
    } else if starts_with(trim(lines[i]), "@tool "@) {
        tool_named(trim(lines[i]).skip(6))
    } else {
        tool_in_lines(lines, i + 1)
    }
}

/// The tool call a reply asks for, if any.
pub open spec fn tool_call(reply: Seq<char>) -> Option<(ToolKind, Seq<char>)> {
    tool_in_lines(split_on(reply, '\n'), 0)
}

fn tool_named_exec(rest: &[char]) -> (r: Option<Tool>)
    ensures
        r matches Some(t) ==> tool_named(rest@) == Some(t@),
        r is None ==> tool_named(rest@) is None,
{
    let sp: Vec<char> = vec![' '];
    assert(sp@ =~= seq![' ']);
    let n = rest.len();
    let (name, arg) = match find_exec(rest, &sp) {
        Some(i) => {
            proof {
                crate::text::lemma_find_contains(rest@, sp@);
                assert(crate::text::occurs_at(rest@, sp@, i as int));
            }
            (slice_chars(rest, 0, i), slice_chars(rest, i + 1, n))
        },
        None => (slice_chars(rest, 0, n), Vec::new()),
    };
    assert(rest@.subrange(0, n as int) =~= rest@);
    let name = trim_exec(&name);
    let arg = string_of(&trim_exec(&arg));
    if same_chars(&name, &chars_of("run_shell")) {
        Some(Tool::RunShell(arg))
    } else if same_chars(&name, &chars_of("open_app")) {
        Some(Tool::OpenApp(arg))
    } else if same_chars(&name, &chars_of("list_files")) {
        Some(Tool::ListFiles(arg))
    } else {
        None
    }
}

/// The tool call a reply asks for, if any (one line: `@tool <name> <arg>`).
pub fn parse_tool(reply: &str) -> (r: Option<Tool>)
    ensures
        r matches Some(t) ==> tool_call(reply@) == Some(t@),
        r is None ==> tool_call(reply@) is None,
{
    let s = chars_of(reply);
    let lines = split_lines_exec(&s);
    let prefix = chars_of("@tool ");
    proof {
        reveal_strlit("@tool ");
    }
    let mut k: usize = 0;
    while k < lines.len()
        invariant
            k <= lines@.len(),
            s@ == reply@,
            prefix@ == "@tool "@,
            "@tool "@.len() == 6,
            lines@.len() == split_on(s@, '\n').len(),
            forall|i: int| 0 <= i < lines@.len() ==> #[trigger] lines@[i]@ == split_on(s@, '\n')[i],
            tool_call(reply@) == tool_in_lines(split_on(s@, '\n'), k as int),
        decreases lines@.len() - k,
    {
        let line = trim_exec(&lines[k]);
        assert(lines@[k as int]@ == split_on(s@, '\n')[k as int]);
        if line.len() >= 6 && same_chars(&slice_chars(&line, 0, 6), &prefix) {
            let n = line.len();
            let rest = slice_chars(&line, 6, n);
            assert(rest@ =~= line@.skip(6));
            return tool_named_exec(&rest);
        }
        k = k + 1;
    }
    None
}


/// The tool each known name calls.
proof fn lemma_tool_names()
    ensures
        "run_shell"@.len() > 0 && !"run_shell"@.contains(' ') && !whitespace("run_shell"@[0])
            && !whitespace("run_shell"@.last()),
        "open_app"@.len() > 0 && !"open_app"@.contains(' ') && !whitespace("open_app"@[0])
            && !whitespace("open_app"@.last()),
        "list_files"@.len() > 0 && !"list_files"@.contains(' ') && !whitespace("list_files"@[0])
            && !whitespace("list_files"@.last()),
        "run_shell"@ != "open_app"@,
        "run_shell"@ != "list_files"@,
        "open_app"@ != "list_files"@,
{
    reveal_strlit("run_shell");
    reveal_strlit("open_app");
    reveal_strlit("list_files");
    assert("run_shell"@[0] != "open_app"@[0]);
    assert("run_shell"@[0] != "list_files"@[0]);
    assert("open_app"@[0] != "list_files"@[0]);
}

/// A `@tool` call `<name> <arg>` naming `run_shell`, `open_app` or `list_files` calls
/// that tool with the text after the first space, trimmed, as its argument, the same
/// way for every tool.
pub proof fn law_tool_argument(name: Seq<char>, arg: Seq<char>)
    requires
        name == "run_shell"@ || name == "open_app"@ || name == "list_files"@,
    ensures
        tool_named(name + seq![' '] + arg) == Some(
            (
                if name == "run_shell"@ {
                    ToolKind::RunShell
                } else if name == "open_app"@ {
                    ToolKind::OpenApp
                } else {
                    ToolKind::ListFiles
                },
                trim(arg),
            ),
        ),
{
    lemma_tool_names();
    let rest = name + seq![' '] + arg;
    let sp = seq![' '];
    let i = name.len() as int;
    assert(rest.subrange(i, i + 1) =~= sp);
    assert forall|j: int| 0 <= j < i implies !occurs_at(rest, sp, j) by {
        assert(rest.subrange(j, j + 1)[0] == name[j]);
    }
    crate::text::lemma_find_first(rest, sp, i);
    assert(rest.subrange(0, i) =~= name);
    assert(rest.subrange(i + 1, rest.len() as int) =~= arg);
    crate::text::lemma_trim_noop(name);
}

/// A reply whose one line is `@tool <name> <arg>`, with a known tool name and an
/// argument without line breaks or surrounding whitespace, asks for that tool with
/// exactly that argument.
pub proof fn law_tool_call_line(name: Seq<char>, arg: Seq<char>)
    requires
        name == "run_shell"@ || name == "open_app"@ || name == "list_files"@,
        arg.len() > 0,
        trim(arg) == arg,
        !arg.contains('\n'),
    ensures
        tool_call("@tool "@ + name + seq![' '] + arg) == Some(
            (
                if name == "run_shell"@ {
                    ToolKind::RunShell
                } else if name == "open_app"@ {
                    ToolKind::OpenApp
                } else {
                    ToolKind::ListFiles
                },
                arg,
            ),
        ),
{
    reveal_strlit("@tool ");
    lemma_tool_names();
    law_tool_argument(name, arg);
    let line = "@tool "@ + name + seq![' '] + arg;
    assert(!line.contains('\n')) by {
        if line.contains('\n') {
            let k = choose|k: int| 0 <= k < line.len() && line[k] == '\n';
            if k < 6 {
            } else if k < 6 + name.len() {
                assert(name[k - 6] == '\n');
                assert(name.contains('\n'));
                reveal_strlit("run_shell");
                reveal_strlit("open_app");
                reveal_strlit("list_files");
            } else if k == 6 + name.len() {
            } else {
                assert(arg[k - 7 - name.len()] == '\n');
            }
        }
    }
    crate::text::lemma_split_on_single(line, '\n');
    crate::text::lemma_trimmed_ends(arg);
    assert(line[0] == '@');
    assert(line.last() == arg.last());
    crate::text::lemma_trim_noop(line);
    assert(line.subrange(0, 6) =~= "@tool "@);
    assert(line.skip(6) =~= name + seq![' '] + arg);
}

/// A message as (role, content).
pub open spec fn message_view(m: Message) -> (Seq<char>, Seq<char>) {
    (m.role@, m.content@)
}

/// A conversation as (role, content) pairs.
pub open spec fn messages_view(v: Seq<Message>) -> Seq<(Seq<char>, Seq<char>)> {
    v.map_values(|m: Message| message_view(m))
}

/// The text fed back to the model after a tool ran: its output, or the error.
pub open spec fn tool_feedback(result: Result<Seq<char>, Seq<char>>) -> Seq<char> {
    "[tool] "@ + match result {
        Ok(out) => out,
        Err(msg) => "error: "@ + msg,
    }
}

/// What to do after a reply of the model.
#[derive(Debug, PartialEq, Eq)]
pub enum ReplAction {
    /// Run this tool through the safety gate, then call `after_tool`.
    Dispatch(Tool),
    /// The turn is over; this is its answer.
    Done(String),
}

/// The conversation and the state of the current turn.
pub struct ReplState {
    pub messages: Vec<Message>,
    /// Replies of the model received in the current turn.
    pub hops: usize,
    /// The latest reply of the current turn.
    pub last: String,
}

impl ReplState {
    /// Replies of the model received in the current turn.
    pub open spec fn hops(self) -> nat {
        self.hops as nat
    }

    /// The latest reply of the current turn.
    pub open spec fn last_reply(self) -> Seq<char> {
        self.last@
    }

    /// A conversation that opens with the system prompt.
    pub fn new() -> (r: ReplState)
        ensures
            messages_view(r.messages@) == seq![("system"@, SYSTEM@)],
            r.hops() == 0,
    {
        let mut messages: Vec<Message> = Vec::new();
        messages.push(Message::system(SYSTEM));
        let r = ReplState { messages, hops: 0, last: string_of(&Vec::new()) };
        assert(messages_view(r.messages@) =~= seq![("system"@, SYSTEM@)]);
        r
    }

    /// Start a user turn: the input joins the conversation.
    pub fn begin_turn(&mut self, input: &str)
        ensures
            messages_view(final(self).messages@) == messages_view(old(self).messages@).push(
                ("user"@, input@),
            ),
            final(self).hops() == 0,
            final(self).last_reply() == Seq::<char>::empty(),
    {
        self.messages.push(Message::user(input));
        self.hops = 0;
        self.last = string_of(&Vec::new());
        assert(messages_view(self.messages@) =~= messages_view(old(self).messages@).push(
            ("user"@, input@),
        ));
    }

    /// Take in a reply of the model: it joins the conversation; if it asks for a
    /// tool, the tool is to be dispatched, otherwise the reply answers the turn.
    /// At most `MAX_TOOL_HOPS` replies are taken per turn.
    pub fn after_reply(&mut self, reply: &str) -> (a: ReplAction)
        requires
            old(self).hops() < MAX_TOOL_HOPS,
        ensures
            messages_view(final(self).messages@) == messages_view(old(self).messages@).push(
                ("assistant"@, reply@),
            ),
            final(self).hops() == old(self).hops() + 1,
            final(self).last_reply() == reply@,
            a matches ReplAction::Dispatch(t) ==> tool_call(reply@) == Some(t@),
            a matches ReplAction::Done(r) ==> tool_call(reply@) is None && r@ == reply@,
    {
        self.messages.push(Message::assistant(reply));
        assert(messages_view(self.messages@) =~= messages_view(old(self).messages@).push(
            ("assistant"@, reply@),
        ));
        self.hops = self.hops + 1;
        self.last = string_of(&chars_of(reply));
        match parse_tool(reply) {
            Some(tool) => ReplAction::Dispatch(tool),
            None => ReplAction::Done(string_of(&chars_of(reply))),
        }
    }

    /// Feed a tool's result back: the feedback joins the conversation and is
    /// returned for display (on lines of its own). The result's second part is the
    /// turn's answer when the round-trip limit is reached (the latest reply), or
    /// `None` when the model is to be asked again.
    pub fn after_tool(&mut self, result: &Result<String, Error>) -> (r: (String, Option<String>))
        ensures
            ({
                let fed = tool_feedback(
                    match result {
                        Ok(out) => Ok(out@),
                        Err(e) => Err(e.msg_view()),
                    },
                );
                &&& messages_view(final(self).messages@) == messages_view(
                    old(self).messages@,
                ).push(("user"@, fed))
                &&& r.0@ == seq!['\n'] + fed + seq!['\n']
            }),
            final(self).hops() == old(self).hops(),
            final(self).last_reply() == old(self).last_reply(),
            r.1 is None <==> old(self).hops() < MAX_TOOL_HOPS,
            r.1 matches Some(ans) ==> ans@ == old(self).last_reply(),
    {
        let mut fed = chars_of("[tool] ");
        match result {
            Ok(out) => {
                append_chars(&mut fed, &chars_of(out.as_str()));
            },
            Err(e) => {
                append_chars(&mut fed, &chars_of("error: "));
                append_chars(&mut fed, &chars_of(e.message().as_str()));
            },
        }
        proof {
            let res = match result {
                Ok(out) => Ok(out@),
                Err(e) => Err(e.msg_view()),
            };
            assert(fed@ =~= tool_feedback(res));
        }
        let fed_text = string_of(&fed);
        self.messages.push(Message::user(fed_text.as_str()));
        assert(messages_view(self.messages@) =~= messages_view(old(self).messages@).push(
            ("user"@, fed@),
        ));
        let mut shown: Vec<char> = vec!['\n'];
        append_chars(&mut shown, &fed);
        shown.push('\n');
        assert(shown@ =~= seq!['\n'] + fed@ + seq!['\n']);
        let ans = if self.hops < MAX_TOOL_HOPS {
            None
        } else {
            Some(string_of(&chars_of(self.last.as_str())))
        };
        (string_of(&shown), ans)
    }
}

/// What a line entered at the REPL prompt asks for.
#[derive(Debug, PartialEq, Eq)]
pub enum ReplLine {
    /// Nothing was entered: prompt again.
    Empty,
    /// `exit` or `quit`: leave the REPL.
    Quit,
    /// Start a turn with this (trimmed) text.
    Chat(String),
}

impl ReplLine {
    pub open spec fn view(self) -> (int, Seq<char>) {
        match self {
            ReplLine::Empty => (0, Seq::<char>::empty()),
            ReplLine::Quit => (1, Seq::<char>::empty()),
            ReplLine::Chat(t) => (2, t@),
        }
    }
}

/// What an entered line asks for, as (kind, text): 0 nothing, 1 quit (`exit` or
/// `quit`, trimmed), 2 chat with the trimmed line.
pub open spec fn repl_line_for(line: Seq<char>) -> (int, Seq<char>) {
    let t = trim(line);
    if t == "exit"@ || t == "quit"@ {
        (1, Seq::<char>::empty())
    } else if t.len() == 0 {
        (0, Seq::<char>::empty())
    } else {
        (2, t)
    }
}

/// Read a line entered at the REPL prompt.
pub fn read_repl_line(line: &str) -> (r: ReplLine)
    ensures
        r@ == repl_line_for(line@),
{
    let t = trim_exec(&chars_of(line));
    if same_chars(&t, &chars_of("exit")) || same_chars(&t, &chars_of("quit")) {
        ReplLine::Quit
    } else if t.len() == 0 {
        ReplLine::Empty
    } else {
        ReplLine::Chat(string_of(&t))
    }
}

} // verus!
