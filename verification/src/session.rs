//! The session's decisions: what a spoken command asks for, what the shell UI
//! overlay shows, and where launched surfaces and the embedded REPL go on screen.
//! Running the tools and spawning panes are the caller's part.
use vstd::prelude::*;
use crate::agent::Tool;
use crate::compositor::{layout, tile, tile_rect, Rect, TERM_PERCENT};
use crate::text::{append_str, chars_of, slice_chars, starts_with, string_of, trim, trim_exec};

verus! {

/// What the shell UI overlay shows.
#[derive(Debug)]
pub struct UiStatus {
    pub voice: String,
    pub last_launched: Option<String>,
    pub app_surfaces: usize,
}

impl Default for UiStatus {
    fn default() -> (u: UiStatus)
        ensures
            u.voice@ == Seq::<char>::empty(),
            u.last_launched is None,
            u.app_surfaces == 0,
    {
        UiStatus { voice: string_of(&Vec::new()), last_launched: None, app_surfaces: 0 }
    }
}

/// The process hosted in the terminal zone.
pub const REPL_COMMAND: &'static str = "zenvx-repl";

/// The tool a transcribed voice command asks for: `open <app>` opens the (trimmed)
/// app; anything else runs as a shell command.
pub open spec fn voice_tool(transcript: Seq<char>) -> (crate::agent::ToolKind, Seq<char>) {
    if starts_with(transcript, "open "@) {
        (crate::agent::ToolKind::OpenApp, trim(transcript.skip(5)))
    } else {
        (crate::agent::ToolKind::RunShell, transcript)
    }
}

/// The status line after hearing a transcript.
pub open spec fn heard_text(transcript: Seq<char>) -> Seq<char> {
    "heard: "@ + transcript
}

/// The reply to a launched app.
pub open spec fn opening_text(app: Seq<char>) -> Seq<char> {
    "Opening "@ + app
}

impl UiStatus {
    /// Show what was heard, and say which tool the command asks for.
    pub fn hear(&mut self, transcript: &str) -> (t: Tool)
        ensures
            final(self).voice@ == heard_text(transcript@),
            final(self).last_launched == old(self).last_launched,
            final(self).app_surfaces == old(self).app_surfaces,
            t@ == voice_tool(transcript@),
    {
        let mut v = chars_of("heard: ");
        append_str(&mut v, transcript);
        self.voice = string_of(&v);
        let s = chars_of(transcript);
        let prefix = chars_of("open ");
        proof {
            reveal_strlit("open ");
        }
        if s.len() >= 5 && crate::text::same_chars(&slice_chars(&s, 0, 5), &prefix) {
            let n = s.len();
            let rest = slice_chars(&s, 5, n);
            assert(rest@ =~= s@.skip(5));
            Tool::OpenApp(string_of(&trim_exec(&rest)))
        } else {
            Tool::RunShell(string_of(&s))
        }
    }

    /// Record a launched app: it is shown as the last launched and gets a surface in
    /// the app zone. Returns the reply to speak.
    pub fn launched(&mut self, app: &str) -> (reply: String)
        requires
            old(self).app_surfaces < usize::MAX,
        ensures
            final(self).voice == old(self).voice,
            final(self).last_launched matches Some(a) && a@ == app@,
            final(self).app_surfaces == old(self).app_surfaces + 1,
            reply@ == opening_text(app@),
    {
        self.last_launched = Some(string_of(&chars_of(app)));
        self.app_surfaces = self.app_surfaces + 1;
        let mut v = chars_of("Opening ");
        append_str(&mut v, app);
        string_of(&v)
    }
}

/// Current tiling of `surfaces` launched app surfaces within the app zone of a
/// `screen` (width, height).
pub fn app_layout(screen: (i32, i32), surfaces: usize) -> (r: Vec<Rect>)
    requires
        i32::MIN <= screen.1 * TERM_PERCENT <= i32::MAX,
        surfaces <= i32::MAX,
    ensures
        ({
            let zone = Rect {
                x: 0,
                y: 0,
                w: screen.0,
                h: (screen.1 - crate::compositor::term_height(screen.1 as int)) as i32,
            };
            &&& r@.len() == surfaces
            &&& forall|k: int| 0 <= k < surfaces ==> #[trigger] r@[k] == tile_rect(zone, surfaces as int, k)
        }),
{
    let l = layout(screen.0, screen.1);
    tile(&l.app_zone, surfaces)
}

/// The zone the REPL is embedded in: the reserved terminal zone of the screen.
pub fn repl_zone(screen: (i32, i32)) -> (z: Rect)
    requires
        i32::MIN <= screen.1 * TERM_PERCENT <= i32::MAX,
    ensures
        z == (Rect {
            x: 0,
            y: (screen.1 - crate::compositor::term_height(screen.1 as int)) as i32,
            w: screen.0,
            h: crate::compositor::term_height(screen.1 as int) as i32,
        }),
{
    layout(screen.0, screen.1).term_zone
}

/// Speech that begins `open ` opens the app it names (the rest, trimmed); any other
/// speech runs as a shell command, word for word.
pub proof fn law_voice_commands(app: Seq<char>, other: Seq<char>)
    requires
        !starts_with(other, "open "@),
    ensures
        voice_tool("open "@ + app) == (crate::agent::ToolKind::OpenApp, trim(app)),
        voice_tool(other) == (crate::agent::ToolKind::RunShell, other),
{
    reveal_strlit("open ");
    assert(("open "@ + app).subrange(0, 5) =~= "open "@);
    assert(("open "@ + app).skip(5) =~= app);
}

} // verus!
