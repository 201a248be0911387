//! The safety gate in front of the agent's tools: risk classification of shell
//! commands, and the confirmation protocol that decides whether a tool runs.
use vstd::prelude::*;
use crate::launcher::{classify_target, kind_for, launch_command, launch_text_of, Capabilities};
use crate::text::{
    append_chars, append_str, chars_of, contains, contains_exec, lemma_skip_ws_span,
    lemma_word_end_span, lowercase, occurs_at, occurs_at_exec, same_chars, skip_ws_exec,
    slice_chars, string_of, to_lowercase, whitespace, word_end, word_end_exec, word_start,
};

verus! {

/// Risk level assigned to a shell command.
#[derive(Debug, PartialEq, Eq, Structural, Clone, Copy)]
pub enum Risk {
    Safe,
    Confirm,
    Denied,
}

/// Catastrophic substrings: never executed, even if the user confirms.
pub open spec fn deny_list() -> Seq<Seq<char>> {
    seq![
        ":(){"@,
        "mkfs"@,
        "wipefs"@,
        "of=/dev/sd"@,
        "of=/dev/nvme"@,
        "of=/dev/vd"@,
        "> /dev/sd"@,
        "--no-preserve-root"@,
    ]
}

/// Root/destructive markers: they require double confirmation.
pub open spec fn confirm_list() -> Seq<Seq<char>> {
    seq![
        "sudo"@,
        "rm "@,
        "rmdir"@,
        "dd "@,
        "shutdown"@,
        "reboot"@,
        "poweroff"@,
        "mount"@,
        "umount"@,
        "pacman"@,
        "systemctl"@,
        "chown"@,
        "chmod"@,
        "kill"@,
        "mkswap"@,
        "fdisk"@,
        "parted"@,
    ]
}

/// The spellings of a forced recursive `rm`, in the order they are looked for.
pub open spec fn rm_forms() -> Seq<Seq<char>> {
    seq!["rm -rf "@, "rm -fr "@, "rm -r -f "@, "rm -f -r "@]
}

/// Top-level targets that make a recursive `rm` catastrophic.
pub open spec fn root_targets() -> Seq<Seq<char>> {
    seq![
        "/"@,
        "/*"@,
        "/etc"@,
        "/usr"@,
        "/bin"@,
        "/sbin"@,
        "/boot"@,
        "/lib"@,
        "/lib64"@,
        "/var"@,
        "/home"@,
        "/root"@,
        "/sys"@,
        "/dev"@,
        "/proc"@,
        "/run"@,
    ]
}

/// Some pattern of `list` occurs in `s`.
pub open spec fn mentions_any(s: Seq<char>, list: Seq<Seq<char>>) -> bool {
    exists|i: int| 0 <= i < list.len() && contains(s, #[trigger] list[i])
}

/// A command separator begins at `p`: `;`, `|` (so also `||`), a line break, or `&&`.
pub open spec fn separator_at(s: Seq<char>, p: int) -> bool {
    &&& 0 <= p < s.len()
    &&& (s[p] == ';' || s[p] == '|' || s[p] == '\n' || (s[p] == '&' && p + 1 < s.len() && s[p
        + 1] == '&'))
}

/// Where the command that goes on at `p` ends: the first separator at or after `p`,
/// or the end of `s`.
pub open spec fn command_end(s: Seq<char>, p: int) -> int
    decreases s.len() - p,
{
    if 0 <= p < s.len() && !separator_at(s, p) {
        command_end(s, p + 1)
    } else {
        p
    }
}

/// The operands of an `rm` whose spelling ends at `b`: the text from `b` up to the end
/// of that command.
pub open spec fn rm_operands(lc: Seq<char>, b: int) -> Seq<char> {
    lc.subrange(b, command_end(lc, b))
}

/// A whitespace-separated word of `s` begins at `j`, and it is a top-level target.
pub open spec fn root_word_at(s: Seq<char>, j: int) -> bool {
    word_start(s, j) && root_targets().contains(s.subrange(j, word_end(s, j)))
}

/// `form` occurs in `lc` at `i`, and the operand of that `rm` that begins at `j` is a
/// top-level target.
pub open spec fn rm_hits(lc: Seq<char>, form: Seq<char>, i: int, j: int) -> bool {
    &&& occurs_at(lc, form, i)
    &&& root_word_at(rm_operands(lc, i + form.len()), j)
}

/// A forced recursive `rm`, in any of its spellings, with the file-system root or a
/// top-level system directory among its own operands.
pub open spec fn catastrophic_rm(lc: Seq<char>) -> bool {
    exists|k: int, i: int, j: int|
        0 <= k < rm_forms().len() && #[trigger] rm_hits(lc, rm_forms()[k], i, j)
}

/// The risk of a lower-cased command.
pub open spec fn risk_of(lc: Seq<char>) -> Risk {
    if catastrophic_rm(lc) || mentions_any(lc, deny_list()) {
        Risk::Denied
    } else if mentions_any(lc, confirm_list()) {
        Risk::Confirm
    } else {
        Risk::Safe
    }
}

fn deny_patterns() -> (v: Vec<&'static str>)
    ensures
        v@.len() == deny_list().len(),
        forall|i: int| 0 <= i < v@.len() ==> #[trigger] v@[i]@ == deny_list()[i],
{
    vec![
        ":(){",
        "mkfs",
        "wipefs",
        "of=/dev/sd",
        "of=/dev/nvme",
        "of=/dev/vd",
        "> /dev/sd",
        "--no-preserve-root",
    ]
}

fn confirm_patterns() -> (v: Vec<&'static str>)
    ensures
        v@.len() == confirm_list().len(),
        forall|i: int| 0 <= i < v@.len() ==> #[trigger] v@[i]@ == confirm_list()[i],
{
    vec![
        "sudo",
        "rm ",
        "rmdir",
        "dd ",
        "shutdown",
        "reboot",
        "poweroff",
        "mount",
        "umount",
        "pacman",
        "systemctl",
        "chown",
        "chmod",
        "kill",
        "mkswap",
        "fdisk",
        "parted",
    ]
}

fn rm_patterns() -> (v: Vec<&'static str>)
    ensures
        v@.len() == rm_forms().len(),
        forall|i: int| 0 <= i < v@.len() ==> #[trigger] v@[i]@ == rm_forms()[i],
{
    vec!["rm -rf ", "rm -fr ", "rm -r -f ", "rm -f -r "]
}

fn root_paths() -> (v: Vec<&'static str>)
    ensures
        v@.len() == root_targets().len(),
        forall|i: int| 0 <= i < v@.len() ==> #[trigger] v@[i]@ == root_targets()[i],
{
    vec![
        "/",
        "/*",
        "/etc",
        "/usr",
        "/bin",
        "/sbin",
        "/boot",
        "/lib",
        "/lib64",
        "/var",
        "/home",
        "/root",
        "/sys",
        "/dev",
        "/proc",
        "/run",
    ]
}

/// Whether some pattern of `pats` occurs in `s`.
fn mentions_any_exec(s: &[char], pats: &Vec<&'static str>, Ghost(list): Ghost<Seq<Seq<char>>>) -> (r: bool)
    requires
        pats@.len() == list.len(),
        forall|i: int| 0 <= i < pats@.len() ==> #[trigger] pats@[i]@ == list[i],
    ensures
        r == mentions_any(s@, list),
{
    let mut k: usize = 0;
    while k < pats.len()
        invariant
            k <= pats@.len(),
            pats@.len() == list.len(),
            forall|i: int| 0 <= i < pats@.len() ==> #[trigger] pats@[i]@ == list[i],
            forall|i: int| 0 <= i < k ==> !contains(s@, #[trigger] list[i]),
        decreases pats@.len() - k,
    {
        let p = chars_of(pats[k]);
        if contains_exec(s, &p) {
            assert(contains(s@, list[k as int]));
            return true;
        }
        k = k + 1;
    }
    false
}

/// Whether `t` is one of the top-level targets.
fn is_root_target(t: &[char]) -> (r: bool)
    ensures
        r == root_targets().contains(t@),
{
    let roots = root_paths();
    let mut k: usize = 0;
    while k < roots.len()
        invariant
            k <= roots@.len(),
            roots@.len() == root_targets().len(),
            forall|i: int| 0 <= i < roots@.len() ==> #[trigger] roots@[i]@ == root_targets()[i],
            forall|i: int| 0 <= i < k ==> root_targets()[i] != t@,
        decreases roots@.len() - k,
    {
        let p = chars_of(roots[k]);
        if same_chars(&p, t) {
            assert(root_targets()[k as int] == t@);
            return true;
        }
        k = k + 1;
    }
    false
}

/// Each spelling of a forced recursive `rm` ends in a space.
/// No spelling of a forced recursive `rm` is empty.
proof fn lemma_rm_forms_nonempty()
    ensures
        forall|k: int| 0 <= k < rm_forms().len() ==> #[trigger] rm_forms()[k].len() >= 1,
{
    reveal_strlit("rm -rf ");
    reveal_strlit("rm -fr ");
    reveal_strlit("rm -r -f ");
    reveal_strlit("rm -f -r ");
}

/// Whether a command separator begins at `p`.
fn is_separator_at(s: &[char], p: usize) -> (r: bool)
    requires
        p < s@.len(),
    ensures
        r == separator_at(s@, p as int),
{
    let c = s[p];
    c == ';' || c == '|' || c == '\n' || (c == '&' && p + 1 < s.len() && s[p + 1] == '&')
}

/// Where the command that goes on at `p` ends.
fn command_end_exec(s: &[char], p: usize) -> (r: usize)
    requires
        p <= s@.len(),
    ensures
        r as int == command_end(s@, p as int),
        p <= r <= s@.len(),
{
    let mut k = p;
    while k < s.len() && !is_separator_at(s, k)
        invariant
            p <= k <= s@.len(),
            command_end(s@, p as int) == command_end(s@, k as int),
        decreases s@.len() - k,
    {
        k = k + 1;
    }
    k
}

/// Whether some whitespace-separated word of `s` is a top-level target.
fn has_root_word(s: &[char]) -> (r: bool)
    ensures
        r == (exists|j: int| #[trigger] root_word_at(s@, j)),
{
    let n = s.len();
    let mut j: usize = 0;
    while j < n
        invariant
            j <= n,
            n == s@.len(),
            0 < j < n ==> whitespace(s@[j - 1]) || whitespace(s@[j as int]),
            forall|p: int| 0 <= p < j ==> !#[trigger] root_word_at(s@, p),
        decreases n - j,
    {
        let a = skip_ws_exec(s, j);
        proof {
            lemma_skip_ws_span(s@, j as int);
        }
        if a == n {
            assert forall|p: int| !#[trigger] root_word_at(s@, p) by {
                if j <= p < n {
                    assert(whitespace(s@[p]));
                }
            }
            return false;
        }
        let e = word_end_exec(s, a);
        proof {
            lemma_word_end_span(s@, a as int);
            assert(word_start(s@, a as int));
            assert forall|p: int| j <= p < a implies !#[trigger] root_word_at(s@, p) by {
                assert(whitespace(s@[p]));
            }
            assert forall|p: int| a < p < e implies !#[trigger] root_word_at(s@, p) by {
                assert(!whitespace(s@[p - 1]));
            }
        }
        let w = slice_chars(s, a, e);
        if is_root_target(&w) {
            assert(root_word_at(s@, a as int));
            return true;
        }
        j = e;
    }
    assert forall|p: int| !#[trigger] root_word_at(s@, p) by {
        if 0 <= p < n {
        }
    }
    false
}

/// Whether the lower-cased command `lc` is a forced recursive `rm` with a top-level
/// target among its own operands.
fn is_catastrophic_rm(lc: &[char]) -> (r: bool)
    ensures
        r == catastrophic_rm(lc@),
{
    let forms = rm_patterns();
    proof {
        lemma_rm_forms_nonempty();
    }
    let n = lc.len();
    let mut i: usize = 0;
    while i < n
        invariant
            i <= n,
            n == lc@.len(),
            forms@.len() == rm_forms().len(),
            forall|q: int| 0 <= q < forms@.len() ==> #[trigger] forms@[q]@ == rm_forms()[q],
            forall|k2: int| 0 <= k2 < rm_forms().len() ==> #[trigger] rm_forms()[k2].len() >= 1,
            forall|k2: int, i2: int, j: int|
                0 <= k2 < rm_forms().len() && i2 < i ==> !#[trigger] rm_hits(
                    lc@,
                    rm_forms()[k2],
                    i2,
                    j,
                ),
        decreases n - i,
    {
        let mut k: usize = 0;
        while k < forms.len()
            invariant
                i < n,
                n == lc@.len(),
                k <= forms@.len(),
                forms@.len() == rm_forms().len(),
                forall|q: int| 0 <= q < forms@.len() ==> #[trigger] forms@[q]@ == rm_forms()[q],
                forall|k2: int, i2: int, j: int|
                    0 <= k2 < rm_forms().len() && i2 < i ==> !#[trigger] rm_hits(
                        lc@,
                        rm_forms()[k2],
                        i2,
                        j,
                    ),
                forall|k2: int, j: int|
                    0 <= k2 < k ==> !#[trigger] rm_hits(lc@, rm_forms()[k2], i as int, j),
            decreases forms@.len() - k,
        {
            let t = chars_of(forms[k]);
            assert(t@ == rm_forms()[k as int]);
            if occurs_at_exec(lc, &t, i) {
                assert(i + t@.len() <= n);
                let b = i + t.len();
                let e = command_end_exec(lc, b);
                let ops = slice_chars(lc, b, e);
                assert(ops@ == rm_operands(lc@, b as int));
                if has_root_word(&ops) {
                    proof {
                        let j = choose|j: int| #[trigger] root_word_at(ops@, j);
                        assert(rm_hits(lc@, rm_forms()[k as int], i as int, j));
                    }
                    return true;
                }
                assert forall|j: int| !#[trigger] rm_hits(lc@, rm_forms()[k as int], i as int, j) by {
                    if rm_hits(lc@, rm_forms()[k as int], i as int, j) {
                        assert(root_word_at(ops@, j));
                    }
                }
            }
            k = k + 1;
        }
        i = i + 1;
    }
    assert forall|k2: int, i2: int, j: int|
        0 <= k2 < rm_forms().len() implies !#[trigger] rm_hits(lc@, rm_forms()[k2], i2, j) by {
        if rm_hits(lc@, rm_forms()[k2], i2, j) {
            assert(i2 < n);
        }
    }
    false
}

/// The risk of a command that is already lower-cased.
pub fn classify_lowercase(lc: &str) -> (r: Risk)
    ensures
        r == risk_of(lc@),
{
    let s = chars_of(lc);
    let deny = deny_patterns();
    let confirm = confirm_patterns();
    if is_catastrophic_rm(&s) || mentions_any_exec(&s, &deny, Ghost(deny_list())) {
        Risk::Denied
    } else if mentions_any_exec(&s, &confirm, Ghost(confirm_list())) {
        Risk::Confirm
    } else {
        Risk::Safe
    }
}

/// Classify a shell command's risk: the command is lower-cased first, then
/// judged by `risk_of`.
pub fn classify(cmd: &str) -> (r: Risk)
    ensures
        r == risk_of(lowercase(cmd@)),
{
    let lc = to_lowercase(cmd);
    classify_lowercase(lc.as_str())
}


/// Asks the user to approve a risky action (called twice for double-confirm).
pub trait Confirmer {
    fn confirm(&mut self, prompt: &str) -> bool;
}

/// Runs commands via `sh -c` (its `Executor` lives with the process-spawning code).
#[derive(Debug, Clone, Copy)]
pub struct ShellExecutor;

/// Tools the agent can invoke on the system.
#[derive(Debug, PartialEq, Eq)]
pub enum Tool {
    RunShell(String),
    OpenApp(String),
    ListFiles(String),
}

/// The kinds of tool, without their argument.
#[derive(Debug, PartialEq, Eq, Structural, Clone, Copy)]
pub enum ToolKind {
    RunShell,
    OpenApp,
    ListFiles,
}

impl Tool {
    /// The kind and argument of this tool call.
    pub open spec fn view(self) -> (ToolKind, Seq<char>) {
        match self {
            Tool::RunShell(s) => (ToolKind::RunShell, s@),
            Tool::OpenApp(s) => (ToolKind::OpenApp, s@),
            Tool::ListFiles(s) => (ToolKind::ListFiles, s@),
        }
    }
}

/// Where a confirmation exchange stands.
#[derive(Debug, PartialEq, Eq, Structural, Clone, Copy)]
pub enum Stage {
    /// No question is pending.
    Idle,
    /// The first of the two questions was asked.
    First,
    /// The second question was asked.
    Second,
}

/// The pending confirmation exchange: the stage and the command it is about.
#[derive(Debug, PartialEq, Eq)]
pub struct Gate {
    pub stage: Stage,
    pub command: String,
}

/// What a step of the confirmation protocol asks of the caller.
#[derive(Debug, PartialEq, Eq, Structural, Clone, Copy)]
pub enum StepKind {
    /// The tool failed: this text is the error message.
    Failed,
    /// Ask the user this question (then call `gate_answer`).
    Ask,
    /// Run this shell command; its output is the tool's reply.
    Run,
    /// List the files of this directory; the listing is the tool's reply.
    List,
}

/// One step of the confirmation protocol: its kind and its text.
#[derive(Debug, PartialEq, Eq)]
pub struct Step {
    pub kind: StepKind,
    pub text: String,
}

/// A gate and step, as mathematical values.
pub type GateView = (Stage, Seq<char>);

pub type StepView = (StepKind, Seq<char>);

impl Gate {
    pub open spec fn view(self) -> GateView {
        (self.stage, self.command@)
    }
}

impl Step {
    pub open spec fn view(self) -> StepView {
        (self.kind, self.text@)
    }
}

/// The reply to a command on the denylist.
pub open spec fn blocked_message(cmd: Seq<char>) -> Seq<char> {
    "blocked: '"@ + cmd + "' is on the denylist and will not run"@
}

/// The first confirmation question.
pub open spec fn first_question(cmd: Seq<char>) -> Seq<char> {
    "This may need root or is destructive:\n  "@ + cmd + "\nConfirm? (1/2)"@
}

/// The second confirmation question.
pub open spec fn second_question() -> Seq<char> {
    "Are you absolutely sure? (2/2)"@
}

/// The reply when the user declines.
pub open spec fn cancelled_message() -> Seq<char> {
    "cancelled by user"@
}

/// The detached launch of a resolved app command.
pub open spec fn detached(cmd: Seq<char>) -> Seq<char> {
    "setsid -f "@ + cmd + " >/dev/null 2>&1"@
}

/// The idle gate.
pub open spec fn idle() -> GateView {
    (Stage::Idle, Seq::<char>::empty())
}

/// What `run_shell` does first with a command.
pub open spec fn shell_start(cmd: Seq<char>) -> (GateView, StepView) {
    match risk_of(lowercase(cmd)) {
        Risk::Denied => (idle(), (StepKind::Failed, blocked_message(cmd))),
        Risk::Safe => (idle(), (StepKind::Run, cmd)),
        Risk::Confirm => ((Stage::First, cmd), (StepKind::Ask, first_question(cmd))),
    }
}

/// What `open_app` does: route the name through the launcher and run it detached.
pub open spec fn app_start(name: Seq<char>, caps: Capabilities) -> StepView {
    match launch_text_of(kind_for(name, lowercase(name)), name, caps) {
        Ok(c) => (StepKind::Run, detached(c)),
        Err(m) => (StepKind::Failed, m),
    }
}

/// The directory `list_files` reads: the path, or `.` when it is empty.
pub open spec fn list_dir(path: Seq<char>) -> Seq<char> {
    if path.len() == 0 {
        "."@
    } else {
        path
    }
}

/// A directory listing as `list_files` reports it: each entry name followed by a line
/// break.
pub open spec fn listing_text(names: Seq<Seq<char>>) -> Seq<char>
    decreases names.len(),
{
    if names.len() == 0 {
        Seq::<char>::empty()
    } else {
        listing_text(names.drop_last()) + names.last() + seq!['\n']
    }
}

/// The exchange after the user answers the pending question.
pub open spec fn answer_next(g: GateView, yes: bool) -> (GateView, StepView) {
    if !yes {
        (idle(), (StepKind::Failed, cancelled_message()))
    } else if g.0 == Stage::First {
        ((Stage::Second, g.1), (StepKind::Ask, second_question()))
    } else {
        (idle(), (StepKind::Run, g.1))
    }
}

/// The shell command that runs a resolved app command detached from the caller.
pub fn detached_command(cmd: &str) -> (r: String)
    ensures
        r@ == detached(cmd@),
{
    let mut v = chars_of("setsid -f ");
    append_str(&mut v, cmd);
    append_str(&mut v, " >/dev/null 2>&1");
    string_of(&v)
}

fn idle_gate() -> (g: Gate)
    ensures
        g@ == idle(),
{
    Gate { stage: Stage::Idle, command: string_of(&Vec::new()) }
}

/// The text `list_files` reports for the entry names of a directory, in the order
/// they were read.
pub fn listing(names: &Vec<String>) -> (r: String)
    ensures
        r@ == listing_text(names@.map_values(|n: String| n@)),
{
    let ghost all = names@.map_values(|n: String| n@);
    let mut v: Vec<char> = Vec::new();
    let mut i: usize = 0;
    while i < names.len()
        invariant
            i <= names@.len(),
            all == names@.map_values(|n: String| n@),
            v@ == listing_text(all.take(i as int)),
        decreases names@.len() - i,
    {
        assert(all.take(i + 1).drop_last() =~= all.take(i as int));
        append_str(&mut v, names[i].as_str());
        v.push('\n');
        i = i + 1;
    }
    assert(all.take(names@.len() as int) =~= all);
    string_of(&v)
}

/// Start dispatching a tool: classify and route it, and say what to do next.
pub fn gate_start(tool: &Tool, caps: &Capabilities) -> (r: (Gate, Step))
    ensures
        tool matches Tool::RunShell(cmd) ==> (r.0@, r.1@) == shell_start(cmd@),
        tool matches Tool::OpenApp(name) ==> r.0@ == idle() && r.1@ == app_start(name@, *caps),
        tool matches Tool::ListFiles(path) ==> r.0@ == idle() && r.1@ == (
        StepKind::List,
        list_dir(path@),
    ),
{
    match tool {
        Tool::RunShell(cmd) => {
            let sc = chars_of(cmd.as_str());
            match classify(cmd.as_str()) {
                Risk::Denied => {
                    let mut v = chars_of("blocked: '");
                    append_chars(&mut v, &sc);
                    append_str(&mut v, "' is on the denylist and will not run");
                    (idle_gate(), Step { kind: StepKind::Failed, text: string_of(&v) })
                },
                Risk::Safe => (idle_gate(), Step { kind: StepKind::Run, text: string_of(&sc) }),
                Risk::Confirm => {
                    let mut v = chars_of("This may need root or is destructive:\n  ");
                    append_chars(&mut v, &sc);
                    append_str(&mut v, "\nConfirm? (1/2)");
                    (
                        Gate { stage: Stage::First, command: string_of(&sc) },
                        Step { kind: StepKind::Ask, text: string_of(&v) },
                    )
                },
            }
        },
        Tool::OpenApp(name) => {
            let target = classify_target(name.as_str());
            match launch_command(&target, caps) {
                Ok(c) => (idle_gate(), Step { kind: StepKind::Run, text: detached_command(c.as_str()) }),
                Err(e) => (idle_gate(), Step { kind: StepKind::Failed, text: e.message() }),
            }
        },
        Tool::ListFiles(path) => {
            let pc = chars_of(path.as_str());
            let dir = if pc.len() == 0 {
                string_of(&chars_of("."))
            } else {
                string_of(&pc)
            };
            (idle_gate(), Step { kind: StepKind::List, text: dir })
        },
    }
}

/// Feed the user's answer to the pending question.
pub fn gate_answer(gate: Gate, yes: bool) -> (r: (Gate, Step))
    requires
        gate.stage != Stage::Idle,
    ensures
        (r.0@, r.1@) == answer_next(gate@, yes),
{
    if !yes {
        (
            idle_gate(),
            Step { kind: StepKind::Failed, text: string_of(&chars_of("cancelled by user")) },
        )
    } else {
        match gate.stage {
            Stage::First => (
                Gate { stage: Stage::Second, command: gate.command },
                Step {
                    kind: StepKind::Ask,
                    text: string_of(&chars_of("Are you absolutely sure? (2/2)")),
                },
            ),
            _ => (idle_gate(), Step { kind: StepKind::Run, text: gate.command }),
        }
    }
}


/// The final step of an exchange when the user gives `answers` in turn, and how
/// many questions were asked.
pub open spec fn drive(g: GateView, s: StepView, answers: Seq<bool>) -> (StepView, nat)
    decreases answers.len(),
{
    if s.0 == StepKind::Ask && g.0 != Stage::Idle && answers.len() > 0 {
        let (g2, s2) = answer_next(g, answers[0]);
        let (fin, asked) = drive(g2, s2, answers.drop_first());
        (fin, asked + 1)
    } else {
        (s, 0)
    }
}

/// A forced recursive `rm` (any spelling) is denied whenever the file-system root or a
/// top-level system directory is among its own operands, the words after it up to the
/// end of that command (`;`, `|`, `||`, `&&` or a line break), wherever it stands there.
pub proof fn law_catastrophic_rm_denied(lc: Seq<char>, k: int, i: int, j: int)
    requires
        0 <= k < rm_forms().len(),
        occurs_at(lc, rm_forms()[k], i),
        root_word_at(rm_operands(lc, i + rm_forms()[k].len()), j),
    ensures
        catastrophic_rm(lc),
        risk_of(lc) == Risk::Denied,
{
    assert(rm_hits(lc, rm_forms()[k], i, j));
}

/// The double-confirmation markers: a lower-cased command that mentions `sudo`, `rm `,
/// `rmdir`, `dd `, `shutdown`, `reboot`, `poweroff`, `mount`, `umount`, `pacman`,
/// `systemctl`, `chown`, `chmod`, `kill`, `mkswap`, `fdisk` or `parted` never runs
/// without confirmation: it is denied, or else it needs confirming.
pub proof fn law_confirm_markers(lc: Seq<char>)
    requires
        contains(lc, "sudo"@) ||
        contains(lc, "rm "@) ||
        contains(lc, "rmdir"@) ||
        contains(lc, "dd "@) ||
        contains(lc, "shutdown"@) ||
        contains(lc, "reboot"@) ||
        contains(lc, "poweroff"@) ||
        contains(lc, "mount"@) ||
        contains(lc, "umount"@) ||
        contains(lc, "pacman"@) ||
        contains(lc, "systemctl"@) ||
        contains(lc, "chown"@) ||
        contains(lc, "chmod"@) ||
        contains(lc, "kill"@) ||
        contains(lc, "mkswap"@) ||
        contains(lc, "fdisk"@) ||
        contains(lc, "parted"@),
    ensures
        risk_of(lc) != Risk::Safe,
        risk_of(lc) != Risk::Denied ==> risk_of(lc) == Risk::Confirm,
{
    assert(confirm_list()[0] == "sudo"@);
    assert(confirm_list()[1] == "rm "@);
    assert(confirm_list()[2] == "rmdir"@);
    assert(confirm_list()[3] == "dd "@);
    assert(confirm_list()[4] == "shutdown"@);
    assert(confirm_list()[5] == "reboot"@);
    assert(confirm_list()[6] == "poweroff"@);
    assert(confirm_list()[7] == "mount"@);
    assert(confirm_list()[8] == "umount"@);
    assert(confirm_list()[9] == "pacman"@);
    assert(confirm_list()[10] == "systemctl"@);
    assert(confirm_list()[11] == "chown"@);
    assert(confirm_list()[12] == "chmod"@);
    assert(confirm_list()[13] == "kill"@);
    assert(confirm_list()[14] == "mkswap"@);
    assert(confirm_list()[15] == "fdisk"@);
    assert(confirm_list()[16] == "parted"@);
}

/// The hard denylist: a lower-cased command that mentions a fork bomb `:(){`, `mkfs`,
/// `wipefs`, a raw write to a disk (`of=/dev/sd`, `of=/dev/nvme`, `of=/dev/vd`,
/// `> /dev/sd`) or `--no-preserve-root` is denied.
pub proof fn law_deny_markers(lc: Seq<char>)
    requires
        contains(lc, ":(){"@) ||
        contains(lc, "mkfs"@) ||
        contains(lc, "wipefs"@) ||
        contains(lc, "of=/dev/sd"@) ||
        contains(lc, "of=/dev/nvme"@) ||
        contains(lc, "of=/dev/vd"@) ||
        contains(lc, "> /dev/sd"@) ||
        contains(lc, "--no-preserve-root"@),
    ensures
        risk_of(lc) == Risk::Denied,
{
    assert(deny_list()[0] == ":(){"@);
    assert(deny_list()[1] == "mkfs"@);
    assert(deny_list()[2] == "wipefs"@);
    assert(deny_list()[3] == "of=/dev/sd"@);
    assert(deny_list()[4] == "of=/dev/nvme"@);
    assert(deny_list()[5] == "of=/dev/vd"@);
    assert(deny_list()[6] == "> /dev/sd"@);
    assert(deny_list()[7] == "--no-preserve-root"@);
}

/// A lower-cased command that mentions none of the denylist and none of the
/// confirmation markers is safe: it runs without a question.
pub proof fn law_unmarked_is_safe(lc: Seq<char>)
    requires
        !(contains(lc, ":(){"@) ||
        contains(lc, "mkfs"@) ||
        contains(lc, "wipefs"@) ||
        contains(lc, "of=/dev/sd"@) ||
        contains(lc, "of=/dev/nvme"@) ||
        contains(lc, "of=/dev/vd"@) ||
        contains(lc, "> /dev/sd"@) ||
        contains(lc, "--no-preserve-root"@) ||
        contains(lc, "sudo"@) ||
        contains(lc, "rm "@) ||
        contains(lc, "rmdir"@) ||
        contains(lc, "dd "@) ||
        contains(lc, "shutdown"@) ||
        contains(lc, "reboot"@) ||
        contains(lc, "poweroff"@) ||
        contains(lc, "mount"@) ||
        contains(lc, "umount"@) ||
        contains(lc, "pacman"@) ||
        contains(lc, "systemctl"@) ||
        contains(lc, "chown"@) ||
        contains(lc, "chmod"@) ||
        contains(lc, "kill"@) ||
        contains(lc, "mkswap"@) ||
        contains(lc, "fdisk"@) ||
        contains(lc, "parted"@)),
    ensures
        risk_of(lc) == Risk::Safe,
{
    assert(deny_list()[0] == ":(){"@);
    assert(deny_list()[1] == "mkfs"@);
    assert(deny_list()[2] == "wipefs"@);
    assert(deny_list()[3] == "of=/dev/sd"@);
    assert(deny_list()[4] == "of=/dev/nvme"@);
    assert(deny_list()[5] == "of=/dev/vd"@);
    assert(deny_list()[6] == "> /dev/sd"@);
    assert(deny_list()[7] == "--no-preserve-root"@);
    assert(confirm_list()[0] == "sudo"@);
    assert(confirm_list()[1] == "rm "@);
    assert(confirm_list()[2] == "rmdir"@);
    assert(confirm_list()[3] == "dd "@);
    assert(confirm_list()[4] == "shutdown"@);
    assert(confirm_list()[5] == "reboot"@);
    assert(confirm_list()[6] == "poweroff"@);
    assert(confirm_list()[7] == "mount"@);
    assert(confirm_list()[8] == "umount"@);
    assert(confirm_list()[9] == "pacman"@);
    assert(confirm_list()[10] == "systemctl"@);
    assert(confirm_list()[11] == "chown"@);
    assert(confirm_list()[12] == "chmod"@);
    assert(confirm_list()[13] == "kill"@);
    assert(confirm_list()[14] == "mkswap"@);
    assert(confirm_list()[15] == "fdisk"@);
    assert(confirm_list()[16] == "parted"@);
    assert(rm_forms()[0] == "rm -rf "@);
    assert(rm_forms()[1] == "rm -fr "@);
    assert(rm_forms()[2] == "rm -r -f "@);
    assert(rm_forms()[3] == "rm -f -r "@);
    assert forall|k: int| 0 <= k < deny_list().len() implies !contains(lc, #[trigger] deny_list()[k]) by {
    }
    assert forall|k: int| 0 <= k < confirm_list().len() implies !contains(lc, #[trigger] confirm_list()[k]) by {
    }
    reveal_strlit("rm ");
    reveal_strlit("rm -rf ");
    reveal_strlit("rm -fr ");
    reveal_strlit("rm -r -f ");
    reveal_strlit("rm -f -r ");
    assert forall|k: int, i: int, j: int| 0 <= k < rm_forms().len() implies !#[trigger] rm_hits(lc, rm_forms()[k], i, j) by {
        if rm_hits(lc, rm_forms()[k], i, j) {
            let f = rm_forms()[k];
            assert(lc.subrange(i, i + 3) =~= lc.subrange(i, i + f.len()).subrange(0, 3));
            assert(f.subrange(0, 3) =~= "rm "@);
            assert(occurs_at(lc, "rm "@, i));
        }
    }
}

/// A forced recursive `rm` (`rm -rf `, `rm -fr `, `rm -r -f ` or `rm -f -r `) with `/`,
/// `/*`, `/etc`, `/usr`, `/bin`, `/sbin`, `/boot`, `/lib`, `/lib64`, `/var`, `/home`,
/// `/root`, `/sys`, `/dev`, `/proc` or `/run` among its own operands is denied.
pub proof fn law_root_targets_denied(lc: Seq<char>, f: Seq<char>, i: int, j: int)
    requires
        f == "rm -rf "@ ||
        f == "rm -fr "@ ||
        f == "rm -r -f "@ ||
        f == "rm -f -r "@,
        occurs_at(lc, f, i),
        word_start(rm_operands(lc, i + f.len()), j),
        ({
            let ops = rm_operands(lc, i + f.len());
            let w = ops.subrange(j, word_end(ops, j));
            w == "/"@ ||
            w == "/*"@ ||
            w == "/etc"@ ||
            w == "/usr"@ ||
            w == "/bin"@ ||
            w == "/sbin"@ ||
            w == "/boot"@ ||
            w == "/lib"@ ||
            w == "/lib64"@ ||
            w == "/var"@ ||
            w == "/home"@ ||
            w == "/root"@ ||
            w == "/sys"@ ||
            w == "/dev"@ ||
            w == "/proc"@ ||
            w == "/run"@
        }),
    ensures
        risk_of(lc) == Risk::Denied,
{
    assert(rm_forms()[0] == "rm -rf "@);
    assert(rm_forms()[1] == "rm -fr "@);
    assert(rm_forms()[2] == "rm -r -f "@);
    assert(rm_forms()[3] == "rm -f -r "@);
    assert(root_targets()[0] == "/"@);
    assert(root_targets()[1] == "/*"@);
    assert(root_targets()[2] == "/etc"@);
    assert(root_targets()[3] == "/usr"@);
    assert(root_targets()[4] == "/bin"@);
    assert(root_targets()[5] == "/sbin"@);
    assert(root_targets()[6] == "/boot"@);
    assert(root_targets()[7] == "/lib"@);
    assert(root_targets()[8] == "/lib64"@);
    assert(root_targets()[9] == "/var"@);
    assert(root_targets()[10] == "/home"@);
    assert(root_targets()[11] == "/root"@);
    assert(root_targets()[12] == "/sys"@);
    assert(root_targets()[13] == "/dev"@);
    assert(root_targets()[14] == "/proc"@);
    assert(root_targets()[15] == "/run"@);
    let ops = rm_operands(lc, i + f.len());
    let w = ops.subrange(j, word_end(ops, j));
    let k: int = if f == "rm -rf "@ { 0 } else if f == "rm -fr "@ { 1 } else if f == "rm -r -f "@ { 2 } else { 3 };
    let t: int = choose|t: int| 0 <= t < root_targets().len() && root_targets()[t] == w;
    assert(root_targets().contains(w));
    assert(rm_hits(lc, rm_forms()[k], i, j));
}

/// The operands of an `rm` end at the first `;`, `|`, line break or `&&` after it: they
/// hold none of these, and what follows them is one, or the end of the command line.
pub proof fn law_operands_end_at_separator(lc: Seq<char>, b: int)
    requires
        0 <= b <= lc.len(),
    ensures
        forall|p: int|
            0 <= p < rm_operands(lc, b).len() ==> #[trigger] rm_operands(lc, b)[p] != ';'
                && rm_operands(lc, b)[p] != '|' && rm_operands(lc, b)[p] != '\n' && !(
            rm_operands(lc, b)[p] == '&' && b + p + 1 < lc.len() && lc[b + p + 1] == '&'),
        ({
            let e = b + rm_operands(lc, b).len();
            e == lc.len() || lc[e] == ';' || lc[e] == '|' || lc[e] == '\n' || (lc[e] == '&' && e
                + 1 < lc.len() && lc[e + 1] == '&')
        }),
{
    lemma_command_end(lc, b);
    let ops = rm_operands(lc, b);
    assert forall|p: int| 0 <= p < ops.len() implies #[trigger] ops[p] != ';' && ops[p] != '|'
        && ops[p] != '\n' && !(ops[p] == '&' && b + p + 1 < lc.len() && lc[b + p + 1] == '&') by {
        assert(!separator_at(lc, b + p));
        assert(ops[p] == lc[b + p]);
    }
}

proof fn lemma_command_end(s: Seq<char>, p: int)
    requires
        0 <= p <= s.len(),
    ensures
        p <= command_end(s, p) <= s.len(),
        forall|q: int| p <= q < command_end(s, p) ==> !#[trigger] separator_at(s, q),
        command_end(s, p) < s.len() ==> separator_at(s, command_end(s, p)),
    decreases s.len() - p,
{
    if p < s.len() && !separator_at(s, p) {
        lemma_command_end(s, p + 1);
    }
}

/// The safety gate's promise for a shell command, whatever the user answers:
/// a denied command is refused without a question and never runs; a safe command
/// runs without a question; a risky command runs only after two "yes" answers, the
/// first "no" ends the exchange after one question, and "yes" then "no" ends it after
/// two, with the command unrun. Whatever runs is the command itself.
pub proof fn law_shell_gate(cmd: Seq<char>, answers: Seq<bool>)
    requires
        answers.len() >= 2,
    ensures
        ({
            let (g, s) = shell_start(cmd);
            let (fin, asked) = drive(g, s, answers);
            let risk = risk_of(lowercase(cmd));
            &&& (fin.0 == StepKind::Run) <==> (risk == Risk::Safe || (risk == Risk::Confirm
                && answers[0] && answers[1]))
            &&& fin.0 == StepKind::Run ==> fin.1 == cmd
            &&& risk == Risk::Denied ==> fin == (StepKind::Failed, blocked_message(cmd))
                && asked == 0
            &&& risk == Risk::Safe ==> asked == 0
            &&& risk == Risk::Confirm ==> asked == (if answers[0] {
                2nat
            } else {
                1nat
            })
            &&& risk == Risk::Confirm && !(answers[0] && answers[1]) ==> fin == (
                StepKind::Failed,
                cancelled_message(),
            )
        }),
{
    reveal_with_fuel(drive, 3);
    let (g, s) = shell_start(cmd);
    if risk_of(lowercase(cmd)) == Risk::Confirm {
        let (g1, s1) = answer_next(g, answers[0]);
        assert(answers.drop_first()[0] == answers[1]);
        if answers[0] {
            let (g2, s2) = answer_next(g1, answers[1]);
            assert(drive(g2, s2, answers.drop_first().drop_first()) == (s2, 0nat));
        }
    }
}

} // verus!
