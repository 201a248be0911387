//! First-boot setup decisions: an OpenRouter key makes OpenRouter the default;
//! without one the user may switch to a local Ollama model (the first one installed,
//! or a small default); when input ends, OpenRouter without a key. Prompting and
//! running `ollama list` are the caller's part.
use vstd::prelude::*;
use crate::config::{Config, ConfigView, Provider};
use crate::text::{
    chars_of, first_word, first_word_exec, lowercase, same_chars, skip_ws, split_lines_exec,
    split_on, string_of, to_lowercase, trim, trim_exec,
};

verus! {

/// Small default local model that fits the low-RAM target machine.
pub const DEFAULT_LOCAL_MODEL: &'static str = "llama3.2:1b";

/// The automatic OpenRouter model.
pub const OPENROUTER_AUTO: &'static str = "openrouter/auto";

/// The configuration an entered key gives: OpenRouter with its automatic model, when
/// the (trimmed) key is not empty.
pub open spec fn key_config(key: Seq<char>) -> Option<ConfigView> {
    let k = trim(key);
    if k.len() > 0 {
        Some((Provider::OpenRouter, Some(OPENROUTER_AUTO@), Some(k)))
    } else {
        None
    }
}

/// A yes answer: `y` or `yes`, trimmed, in any case.
pub open spec fn yes_answer(answer: Seq<char>) -> bool {
    let a = lowercase(trim(answer));
    a == "y"@ || a == "yes"@
}

/// The first installed model in the output of `ollama list`: the first word of the
/// first line after the header that has one.
pub open spec fn listed_model_from(lines: Seq<Seq<char>>, i: int) -> Option<Seq<char>>
    decreases lines.len() - i,
{
    if i < 1 || i >= lines.len() {
        None
    } else if skip_ws(lines[i], 0) < lines[i].len() {
        Some(first_word(lines[i]))
    } else {
        listed_model_from(lines, i + 1)
    }
}

/// The configuration for an entered OpenRouter key, or `None` for an empty entry.
pub fn config_for_key(key: &str) -> (r: Option<Config>)
    ensures
        r matches Some(c) ==> key_config(key@) == Some(c@),
        r is None ==> key_config(key@) is None,
{
    let k = trim_exec(&chars_of(key));
    if k.len() == 0 {
        None
    } else {
        Some(
            Config {
                provider: Provider::OpenRouter,
                model: Some(string_of(&chars_of(OPENROUTER_AUTO))),
                openrouter_key: Some(string_of(&k)),
            },
        )
    }
}

/// Whether a trimmed, lower-cased answer is yes.
pub fn is_yes_word(lc: &str) -> (r: bool)
    ensures
        r == (lc@ == "y"@ || lc@ == "yes"@),
{
    let a = chars_of(lc);
    same_chars(&a, &chars_of("y")) || same_chars(&a, &chars_of("yes"))
}

/// Whether an answer is yes (`y` or `yes`, trimmed, in any case).
pub fn is_yes(answer: &str) -> (r: bool)
    ensures
        r == yes_answer(answer@),
{
    let t = string_of(&trim_exec(&chars_of(answer)));
    let lc = to_lowercase(t.as_str());
    is_yes_word(lc.as_str())
}

/// The local configuration: Ollama with the detected model, or the default one.
pub fn local_config(detected: Option<String>) -> (c: Config)
    ensures
        c@ == (Provider::Ollama, Some(
            match detected {
                Some(m) => m@,
                None => DEFAULT_LOCAL_MODEL@,
            },
        ), None::<Seq<char>>),
{
    let model = match detected {
        Some(m) => m,
        None => string_of(&chars_of(DEFAULT_LOCAL_MODEL)),
    };
    Config { provider: Provider::Ollama, model: Some(model), openrouter_key: None }
}

/// The configuration when input ends without a choice: OpenRouter without a key.
pub fn unconfigured() -> (c: Config)
    ensures
        c@ == (Provider::OpenRouter, Some(OPENROUTER_AUTO@), None::<Seq<char>>),
{
    Config {
        provider: Provider::OpenRouter,
        model: Some(string_of(&chars_of(OPENROUTER_AUTO))),
        openrouter_key: None,
    }
}

/// Where the first-boot flow stands: asking for the OpenRouter key, or asking whether
/// to switch to a local model.
#[derive(Debug, PartialEq, Eq, Structural, Clone, Copy)]
pub enum SetupStage {
    AskKey,
    AskLocal,
}

/// What the first-boot flow does next: ask at a stage, set up the local model (the
/// caller detects it and builds the configuration with `local_config`), or finish with
/// a configuration.
#[derive(Debug)]
pub enum SetupAction {
    Ask(SetupStage),
    UseLocal,
    Done(Config),
}

/// One step of the first-boot flow, from the stage and the answer given there (`None`
/// when input has ended). An entered key finishes with OpenRouter; a blank key leads to
/// the local question; a yes there goes local, anything else asks for the key again; the
/// end of input finishes with OpenRouter without a key.
pub fn setup_step(stage: SetupStage, answer: Option<&str>) -> (a: SetupAction)
    ensures
        answer is None ==> (a matches SetupAction::Done(c) && c@ == (
            Provider::OpenRouter,
            Some(OPENROUTER_AUTO@),
            None::<Seq<char>>,
        )),
        answer matches Some(x) ==> match stage {
            SetupStage::AskKey => match key_config(x@) {
                Some(v) => (a matches SetupAction::Done(c) && c@ == v),
                None => a matches SetupAction::Ask(SetupStage::AskLocal),
            },
            SetupStage::AskLocal => if yes_answer(x@) {
                a matches SetupAction::UseLocal
            } else {
                a matches SetupAction::Ask(SetupStage::AskKey)
            },
        },
{
    match answer {
        None => SetupAction::Done(unconfigured()),
        Some(x) => match stage {
            SetupStage::AskKey => match config_for_key(x) {
                Some(c) => SetupAction::Done(c),
                None => SetupAction::Ask(SetupStage::AskLocal),
            },
            SetupStage::AskLocal => if is_yes(x) {
                SetupAction::UseLocal
            } else {
                SetupAction::Ask(SetupStage::AskKey)
            },
        },
    }
}

/// The first installed model named in the output of `ollama list`.
pub fn first_listed_model(output: &str) -> (r: Option<String>)
    ensures
        r matches Some(m) ==> listed_model_from(split_on(output@, '\n'), 1) == Some(m@),
        r is None ==> listed_model_from(split_on(output@, '\n'), 1) is None,
{
    let s = chars_of(output);
    let lines = split_lines_exec(&s);
    let mut k: usize = 1;
    while k < lines.len()
        invariant
            1 <= k,
            k <= lines@.len() || lines@.len() == 0,
            s@ == output@,
            lines@.len() == split_on(s@, '\n').len(),
            forall|i: int| 0 <= i < lines@.len() ==> #[trigger] lines@[i]@ == split_on(s@, '\n')[i],
            listed_model_from(split_on(s@, '\n'), 1) == listed_model_from(
                split_on(s@, '\n'),
                k as int,
            ),
        decreases lines@.len() - k,
    {
        let line = &lines[k];
        assert(line@ == split_on(s@, '\n')[k as int]);
        let a = crate::text::skip_ws_exec(line, 0);
        if a < line.len() {
            return Some(string_of(&first_word_exec(line)));
        }
        k = k + 1;
    }
    None
}

} // verus!
