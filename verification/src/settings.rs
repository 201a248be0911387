//! Shell UI settings: the model the settings panel binds to, over the saved
//! configuration, with the API key masked for display. Loading and saving the file
//! is the caller's part.
use vstd::prelude::*;
use crate::config::{provider_name, Config, ConfigView, Provider};
use crate::text::{append_chars, chars_of, string_of};

verus! {

/// The settings panel's state.
pub struct Settings {
    pub cfg: Config,
}

/// Bytes a character takes in UTF-8.
pub open spec fn utf8_width(c: char) -> nat {
    let u = c as u32;
    if u < 0x80 {
        1
    } else if u < 0x800 {
        2
    } else if u < 0x10000 {
        3
    } else {
        4
    }
}

/// Bytes a string takes in UTF-8 (`str::len`).
pub open spec fn utf8_len(s: Seq<char>) -> nat
    decreases s.len(),
{
    if s.len() == 0 {
        0
    } else {
        utf8_width(s[0]) + utf8_len(s.drop_first())
    }
}

/// Start of the longest suffix of `k` that ends at the end of `k`, begins at or before
/// `i`, and takes at most four bytes.
pub open spec fn tail_from(k: Seq<char>, i: int) -> int
    decreases i,
{
    if 0 < i <= k.len() && utf8_len(k.skip(i - 1)) <= 4 {
        tail_from(k, i - 1)
    } else {
        i
    }
}

/// The key as the UI shows it: `****` and the longest suffix of at most four bytes,
/// `****` alone for a key of at most four bytes (so no key is ever shown whole), and
/// `(none)` without a key.
pub open spec fn masked(k: Option<Seq<char>>) -> Seq<char> {
    match k {
        None => "(none)"@,
        Some(k) => {
            let j = tail_from(k, k.len() as int);
            if j == 0 {
                "****"@
            } else {
                "****"@ + k.skip(j)
            }
        },
    }
}

/// The configuration used when none is saved: OpenRouter with its automatic model
/// and no key.
pub open spec fn default_config() -> ConfigView {
    (Provider::OpenRouter, Some("openrouter/auto"@), None)
}

proof fn lemma_skip_step(k: Seq<char>, i: int)
    requires
        0 < i <= k.len(),
    ensures
        utf8_len(k.skip(i - 1)) == utf8_width(k[i - 1]) + utf8_len(k.skip(i)),
{
    assert(k.skip(i - 1).drop_first() =~= k.skip(i));
}

fn width_exec(c: char) -> (w: usize)
    ensures
        w == utf8_width(c),
{
    let u = c as u32;
    if u < 0x80 {
        1
    } else if u < 0x800 {
        2
    } else if u < 0x10000 {
        3
    } else {
        4
    }
}

impl Settings {
    /// The saved settings, or the OpenRouter-primary default when nothing is saved.
    pub fn new(saved: Option<Config>) -> (s: Settings)
        ensures
            saved matches Some(c) ==> s.cfg@ == c@,
            saved is None ==> s.cfg@ == default_config(),
    {
        match saved {
            Some(c) => Settings { cfg: c },
            None => Settings {
                cfg: Config {
                    provider: Provider::OpenRouter,
                    model: Some(string_of(&chars_of("openrouter/auto"))),
                    openrouter_key: None,
                },
            },
        }
    }

    /// The active provider's name.
    pub fn provider(&self) -> (r: &'static str)
        ensures
            r@ == provider_name(self.cfg.provider),
    {
        self.cfg.provider.as_str()
    }

    /// The configured model, if any.
    pub fn model(&self) -> (r: Option<&str>)
        ensures
            r matches Some(m) ==> self.cfg@.1 == Some(m@),
            r is None ==> self.cfg@.1 is None,
    {
        match &self.cfg.model {
            Some(m) => Some(m.as_str()),
            None => None,
        }
    }

    /// Key masked for display: the raw key is never surfaced to the UI, only a
    /// proper suffix of it of at most four bytes.
    pub fn masked_key(&self) -> (r: String)
        ensures
            r@ == masked(self.cfg@.2),
            // what follows the stars is a proper suffix of a non-empty key, of at most four bytes
            self.cfg@.2 matches Some(k) ==> k.len() > 0 ==> exists|j: int|
                0 < j <= k.len() && utf8_len(k.skip(j)) <= 4 && r@ == "****"@ + k.skip(j),
    {
        match &self.cfg.openrouter_key {
            None => string_of(&chars_of("(none)")),
            Some(key) => {
                let k = chars_of(key.as_str());
                let n = k.len();
                let mut i = n;
                let mut got: usize = 0;
                proof {
                    assert(k@.skip(n as int) =~= Seq::<char>::empty());
                }
                while i > 0 && got + width_exec(k[i - 1]) <= 4
                    invariant
                        i <= n,
                        n == k@.len(),
                        got as int == utf8_len(k@.skip(i as int)),
                        got <= 4,
                        tail_from(k@, n as int) == tail_from(k@, i as int),
                    decreases i,
                {
                    proof {
                        lemma_skip_step(k@, i as int);
                    }
                    got = got + width_exec(k[i - 1]);
                    i = i - 1;
                }
                proof {
                    if i > 0 {
                        lemma_skip_step(k@, i as int);
                    }
                }
                let mut v = chars_of("****");
                if i == 0 {
                    proof {
                        reveal_strlit("****");
                        assert(v@ =~= "****"@ + k@.skip(n as int));
                    }
                    string_of(&v)
                } else {
                    append_chars(&mut v, &crate::text::slice_chars(&k, i, n));
                    assert(k@.subrange(i as int, n as int) =~= k@.skip(i as int));
                    string_of(&v)
                }
            },
        }
    }

    /// Make OpenRouter the active provider with this key; the model becomes the one
    /// given, or stays, or (if there was none) the automatic one.
    pub fn set_openrouter(&mut self, key: &str, model: Option<&str>)
        ensures
            final(self).cfg@.0 == Provider::OpenRouter,
            final(self).cfg@.2 == Some(key@),
            final(self).cfg@.1 == match model {
                Some(m) => Some(m@),
                None => match old(self).cfg@.1 {
                    Some(old_m) => Some(old_m),
                    None => Some("openrouter/auto"@),
                },
            },
    {
        self.cfg.provider = Provider::OpenRouter;
        self.cfg.openrouter_key = Some(string_of(&chars_of(key)));
        match model {
            Some(m) => {
                self.cfg.model = Some(string_of(&chars_of(m)));
            },
            None => {
                if self.cfg.model.is_none() {
                    self.cfg.model = Some(string_of(&chars_of("openrouter/auto")));
                }
            },
        }
    }

    /// Switch to a local Ollama model (the key is kept).
    pub fn set_local(&mut self, model: &str)
        ensures
            final(self).cfg@ == (Provider::Ollama, Some(model@), old(self).cfg@.2),
    {
        self.cfg.provider = Provider::Ollama;
        self.cfg.model = Some(string_of(&chars_of(model)));
    }
}

} // verus!
