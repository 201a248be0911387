//! The AI adapter's logic: chat messages, choosing the backend from the saved
//! configuration, and reading the two streaming formats (OpenRouter's Server-Sent
//! Events and Ollama's newline-delimited JSON) line by line. The HTTP exchange
//! itself is the caller's part.
use vstd::prelude::*;
use crate::common::Error;
use crate::config::{opt_view, Config, ConfigView, Provider};
use crate::text::{
    append_chars, chars_of, same_chars, slice_chars, starts_with, string_of, trim, trim_exec,
};

verus! {

/// Default OpenRouter endpoint.
pub const OPENROUTER_URL: &'static str = "https://openrouter.ai/api/v1";

/// Default local Ollama endpoint.
pub const OLLAMA_URL: &'static str = "http://localhost:11434";

/// One chat message.
#[derive(Debug, Clone)]
pub struct Message {
    pub role: String,
    pub content: String,
}

impl Message {
    /// A message from the user.
    pub fn user(c: &str) -> (m: Message)
        ensures
            m.role@ == "user"@,
            m.content@ == c@,
    {
        Message { role: string_of(&chars_of("user")), content: string_of(&chars_of(c)) }
    }

    /// A system instruction.
    pub fn system(c: &str) -> (m: Message)
        ensures
            m.role@ == "system"@,
            m.content@ == c@,
    {
        Message { role: string_of(&chars_of("system")), content: string_of(&chars_of(c)) }
    }

    /// A reply of the model.
    pub fn assistant(c: &str) -> (m: Message)
        ensures
            m.role@ == "assistant"@,
            m.content@ == c@,
    {
        Message { role: string_of(&chars_of("assistant")), content: string_of(&chars_of(c)) }
    }
}

/// OpenRouter (OpenAI-compatible, Server-Sent-Events stream).
#[derive(Debug)]
pub struct OpenRouter {
    pub base_url: String,
    pub api_key: String,
    pub model: String,
}

/// Local Ollama (newline-delimited JSON stream).
#[derive(Debug)]
pub struct Ollama {
    pub base_url: String,
    pub model: String,
}

/// The active chat backend.
#[derive(Debug)]
pub enum Backend {
    OpenRouter(OpenRouter),
    Ollama(Ollama),
}

/// Model used with OpenRouter when none is configured.
pub open spec fn default_openrouter_model() -> Seq<char> {
    "openrouter/auto"@
}

/// The backend the configuration selects, as (is OpenRouter, base URL, key, model),
/// or the error message. `or_url` and `ol_url` are the URL overrides from the
/// environment, if set.
pub open spec fn backend_for(
    c: ConfigView,
    or_url: Option<Seq<char>>,
    ol_url: Option<Seq<char>>,
) -> Result<(bool, Seq<char>, Seq<char>, Seq<char>), Seq<char>> {
    match c.0 {
        Provider::OpenRouter => match c.2 {
            None => Err("OpenRouter selected but no API key configured"@),
            Some(key) => Ok(
                (
                    true,
                    match or_url {
                        Some(u) => u,
                        None => OPENROUTER_URL@,
                    },
                    key,
                    match c.1 {
                        Some(m) => m,
                        None => default_openrouter_model(),
                    },
                ),
            ),
        },
        Provider::Ollama => match c.1 {
            None => Err("Ollama selected but no model configured"@),
            Some(m) => Ok(
                (
                    false,
                    match ol_url {
                        Some(u) => u,
                        None => OLLAMA_URL@,
                    },
                    Seq::<char>::empty(),
                    m,
                ),
            ),
        },
    }
}

impl Backend {
    pub open spec fn view(self) -> (bool, Seq<char>, Seq<char>, Seq<char>) {
        match self {
            Backend::OpenRouter(o) => (true, o.base_url@, o.api_key@, o.model@),
            Backend::Ollama(o) => (false, o.base_url@, Seq::<char>::empty(), o.model@),
        }
    }
}

fn copy_str(s: &str) -> (r: String)
    ensures
        r@ == s@,
{
    string_of(&chars_of(s))
}

/// Build the active backend from the saved configuration (OpenRouter primary,
/// Ollama fallback). `openrouter_url` and `ollama_url` are the values of
/// `ZENVX_OPENROUTER_URL` and `ZENVX_OLLAMA_URL`, `None` when unset.
pub fn select_backend(cfg: &Config, openrouter_url: Option<&str>, ollama_url: Option<&str>) -> (r:
    Result<Backend, Error>)
    ensures
        r matches Ok(b) ==> backend_for(
            cfg@,
            crate::config::str_opt_view(openrouter_url),
            crate::config::str_opt_view(ollama_url),
        ) == Ok::<(bool, Seq<char>, Seq<char>, Seq<char>), Seq<char>>(b.view()),
        r matches Err(e) ==> backend_for(
            cfg@,
            crate::config::str_opt_view(openrouter_url),
            crate::config::str_opt_view(ollama_url),
        ) == Err::<(bool, Seq<char>, Seq<char>, Seq<char>), Seq<char>>(e.msg_view()),
{
    match cfg.provider {
        Provider::OpenRouter => {
            let api_key = match &cfg.openrouter_key {
                Some(k) => copy_str(k.as_str()),
                None => {
                    return Err(
                        Error::Msg(copy_str("OpenRouter selected but no API key configured")),
                    );
                },
            };
            let model = match &cfg.model {
                Some(m) => copy_str(m.as_str()),
                None => copy_str("openrouter/auto"),
            };
            let base_url = match openrouter_url {
                Some(u) => copy_str(u),
                None => copy_str(OPENROUTER_URL),
            };
            Ok(Backend::OpenRouter(OpenRouter { base_url, api_key, model }))
        },
        Provider::Ollama => {
            let model = match &cfg.model {
                Some(m) => copy_str(m.as_str()),
                None => {
                    return Err(Error::Msg(copy_str("Ollama selected but no model configured")));
                },
            };
            let base_url = match ollama_url {
                Some(u) => copy_str(u),
                None => copy_str(OLLAMA_URL),
            };
            Ok(Backend::Ollama(Ollama { base_url, model }))
        },
    }
}

/// OpenRouter with a key is selected with that key and the configured model, the
/// automatic model `openrouter/auto` only when none is configured, at the overriding
/// URL when one is given and at `https://openrouter.ai/api/v1` otherwise; without a key
/// the selection fails.
pub proof fn law_openrouter_backend(
    c: ConfigView,
    or_url: Option<Seq<char>>,
    ol_url: Option<Seq<char>>,
)
    requires
        c.0 == Provider::OpenRouter,
    ensures
        c.2 is None ==> backend_for(c, or_url, ol_url) is Err,
        c.2 matches Some(key) ==> backend_for(c, or_url, ol_url) matches Ok(b) && b.0 && b.2 == key
            && b.3 == (match c.1 {
            Some(m) => m,
            None => "openrouter/auto"@,
        }) && b.1 == (match or_url {
            Some(u) => u,
            None => "https://openrouter.ai/api/v1"@,
        }),
{
}

/// Ollama is selected with the configured model, no key, at the overriding URL when
/// one is given and at `http://localhost:11434` otherwise; without a model the
/// selection fails.
pub proof fn law_ollama_backend(c: ConfigView, or_url: Option<Seq<char>>, ol_url: Option<Seq<char>>)
    requires
        c.0 == Provider::Ollama,
    ensures
        c.1 is None ==> backend_for(c, or_url, ol_url) is Err,
        c.1 matches Some(m) ==> backend_for(c, or_url, ol_url) matches Ok(b) && !b.0 && b.3 == m
            && b.2.len() == 0 && b.1 == (match ol_url {
            Some(u) => u,
            None => "http://localhost:11434"@,
        }),
{
}

/// What one line of a reply stream contributes: a token to show, and whether the
/// stream is over.
#[derive(Debug, PartialEq, Eq)]
pub struct LineOutcome {
    pub token: Option<String>,
    pub done: bool,
}

impl LineOutcome {
    pub open spec fn view(self) -> (Option<Seq<char>>, bool) {
        (opt_view(self.token), self.done)
    }
}

/// `choices[0].delta.content` of an OpenRouter event payload, when the payload is
/// JSON and that field is a string.
pub uninterp spec fn openrouter_delta(data: Seq<char>) -> Option<Seq<char>>;

/// `message.content` of an Ollama stream line, when the line is JSON and that field
/// is a string.
pub uninterp spec fn ollama_content(line: Seq<char>) -> Option<Seq<char>>;

/// `done` of an Ollama stream line, when the line is JSON and that field is a boolean.
pub uninterp spec fn ollama_done(line: Seq<char>) -> Option<bool>;

/// Parses `data` with `serde_json::from_str` into a `Value` and reads
/// `v["choices"][0]["delta"]["content"].as_str()`. The result is named
/// `openrouter_delta`; how serde_json parses JSON is not restated here.
#[verifier::external_body]
fn openrouter_delta_of(data: &str) -> (r: Option<String>)
    ensures
        opt_view(r) == openrouter_delta(data@),
{
    match serde_json::from_str::<serde_json::Value>(data) {
        Ok(v) => v["choices"][0]["delta"]["content"].as_str().map(String::from),
        Err(_) => None,
    }
}

/// Parses `line` with `serde_json::from_str` into a `Value` and reads
/// `v["message"]["content"].as_str()`. The result is named `ollama_content`.
#[verifier::external_body]
fn ollama_content_of(line: &str) -> (r: Option<String>)
    ensures
        opt_view(r) == ollama_content(line@),
{
    match serde_json::from_str::<serde_json::Value>(line) {
        Ok(v) => v["message"]["content"].as_str().map(String::from),
        Err(_) => None,
    }
}

/// Parses `line` with `serde_json::from_str` into a `Value` and reads
/// `v["done"].as_bool()`. The result is named `ollama_done`.
#[verifier::external_body]
fn ollama_done_of(line: &str) -> (r: Option<bool>)
    ensures
        r == ollama_done(line@),
{
    match serde_json::from_str::<serde_json::Value>(line) {
        Ok(v) => v["done"].as_bool(),
        Err(_) => None,
    }
}

/// What an OpenRouter event-stream line contributes: lines that do not start with
/// `data:` are skipped; the trimmed payload `[DONE]` ends the stream; otherwise the
/// payload's delta content, if any, is a token.
pub open spec fn openrouter_step(line: Seq<char>, delta: Option<Seq<char>>) -> (
    Option<Seq<char>>,
    bool,
) {
    if !starts_with(line, "data:"@) {
        (None, false)
    } else if trim(line.skip(5)) == "[DONE]"@ {
        (None, true)
    } else {
        (delta, false)
    }
}

/// What an Ollama stream line contributes: blank lines are skipped; otherwise the
/// line's message content, if any, is a token, and `done: true` ends the stream.
pub open spec fn ollama_step(line: Seq<char>, content: Option<Seq<char>>, done: Option<bool>) -> (
    Option<Seq<char>>,
    bool,
) {
    if trim(line).len() == 0 {
        (None, false)
    } else {
        (content, done == Some(true))
    }
}

/// What an OpenRouter event-stream line contributes, given the delta content of its
/// payload (`openrouter_delta` of the trimmed text after `data:`).
pub fn openrouter_outcome(line: &str, delta: Option<String>) -> (r: LineOutcome)
    ensures
        r@ == openrouter_step(line@, opt_view(delta)),
{
    let s = chars_of(line);
    let prefix = chars_of("data:");
    proof {
        reveal_strlit("data:");
    }
    if s.len() < 5 || !same_chars(&slice_chars(&s, 0, 5), &prefix) {
        return LineOutcome { token: None, done: false };
    }
    let n = s.len();
    let payload = trim_exec(&slice_chars(&s, 5, n));
    assert(s@.subrange(5, n as int) =~= line@.skip(5));
    if same_chars(&payload, &chars_of("[DONE]")) {
        return LineOutcome { token: None, done: true };
    }
    LineOutcome { token: delta, done: false }
}

/// Read one line of an OpenRouter event stream (the payload is decoded only when
/// the line carries one that is not `[DONE]`).
pub fn openrouter_line(line: &str) -> (r: LineOutcome)
    ensures
        r@ == openrouter_step(line@, openrouter_delta(trim(line@.skip(5)))),
{
    let s = chars_of(line);
    let prefix = chars_of("data:");
    proof {
        reveal_strlit("data:");
    }
    let mut delta: Option<String> = None;
    if s.len() >= 5 && same_chars(&slice_chars(&s, 0, 5), &prefix) {
        let n = s.len();
        let payload = trim_exec(&slice_chars(&s, 5, n));
        assert(s@.subrange(5, n as int) =~= line@.skip(5));
        if !same_chars(&payload, &chars_of("[DONE]")) {
            let text = string_of(&payload);
            delta = openrouter_delta_of(text.as_str());
        }
    }
    openrouter_outcome(line, delta)
}

/// What an Ollama stream line contributes, given its decoded `message.content` and
/// `done` fields.
pub fn ollama_outcome(line: &str, content: Option<String>, done: Option<bool>) -> (r: LineOutcome)
    ensures
        r@ == ollama_step(line@, opt_view(content), done),
{
    let s = chars_of(line);
    if trim_exec(&s).len() == 0 {
        return LineOutcome { token: None, done: false };
    }
    let stop = match done {
        Some(b) => b,
        None => false,
    };
    LineOutcome { token: content, done: stop }
}

/// Read one line of an Ollama stream (the line is decoded only when it is not blank).
pub fn ollama_line(line: &str) -> (r: LineOutcome)
    ensures
        r@ == ollama_step(line@, ollama_content(line@), ollama_done(line@)),
{
    let s = chars_of(line);
    if trim_exec(&s).len() == 0 {
        return LineOutcome { token: None, done: false };
    }
    let content = ollama_content_of(line);
    let done = ollama_done_of(line);
    ollama_outcome(line, content, done)
}

/// A reply being assembled from a stream: the text so far, and whether the stream
/// has ended.
#[derive(Debug)]
pub struct Assembly {
    pub text: String,
    pub done: bool,
}

impl Assembly {
    /// An empty reply.
    pub fn new() -> (a: Assembly)
        ensures
            a.text@ == Seq::<char>::empty(),
            !a.done,
    {
        Assembly { text: string_of(&Vec::new()), done: false }
    }

    /// Take in what a line contributed; the token, if any, is appended to the reply.
    pub fn accept(&mut self, o: &LineOutcome)
        ensures
            final(self).text@ == old(self).text@ + match o.token {
                Some(t) => t@,
                None => Seq::<char>::empty(),
            },
            final(self).done == (old(self).done || o.done),
    {
        match &o.token {
            Some(t) => {
                let mut v = chars_of(self.text.as_str());
                append_chars(&mut v, &chars_of(t.as_str()));
                self.text = string_of(&v);
            },
            None => {
                assert(self.text@ + Seq::<char>::empty() =~= self.text@);
            },
        }
        self.done = self.done || o.done;
    }
}

} // verus!
