//! ZenvX configuration: which AI provider is the default, with its model and key.
//! The file lives at `$XDG_CONFIG_HOME/zenvx/config`; this module holds its text
//! format (`key=value` lines) and the path rules, not the file I/O.
use vstd::prelude::*;
use crate::text::{
    append_chars, append_str, chars_of, find, find_exec, lemma_find_first, lemma_split_on_concat,
    lemma_split_on_nonempty, lemma_split_on_single, lemma_trim_noop, lemma_trimmed_ends,
    occurs_at, same_chars, slice_chars, split_on, string_of, trim, trim_exec, whitespace,
};

verus! {

/// An AI backend.
#[derive(Debug, Clone, Copy, PartialEq, Eq, Structural)]
pub enum Provider {
    OpenRouter,
    Ollama,
}

/// The name a provider is stored and shown under.
pub open spec fn provider_name(p: Provider) -> Seq<char> {
    match p {
        Provider::OpenRouter => "openrouter"@,
        Provider::Ollama => "ollama"@,
    }
}

/// The provider a stored name denotes.
pub open spec fn provider_named(s: Seq<char>) -> Option<Provider> {
    if s == "openrouter"@ {
        Some(Provider::OpenRouter)
    } else if s == "ollama"@ {
        Some(Provider::Ollama)
    } else {
        None
    }
}

impl Provider {
    /// The name this provider is stored and shown under.
    pub fn as_str(&self) -> (r: &'static str)
        ensures
            r@ == provider_name(*self),
    {
        match self {
            Provider::OpenRouter => "openrouter",
            Provider::Ollama => "ollama",
        }
    }

    /// The provider a stored name denotes, if any.
    pub fn parse(s: &str) -> (r: Option<Provider>)
        ensures
            r == provider_named(s@),
    {
        let sc = chars_of(s);
        if same_chars(&sc, &chars_of("openrouter")) {
            Some(Provider::OpenRouter)
        } else if same_chars(&sc, &chars_of("ollama")) {
            Some(Provider::Ollama)
        } else {
            None
        }
    }
}

/// The saved configuration.
#[derive(Debug, Clone)]
pub struct Config {
    pub provider: Provider,
    pub model: Option<String>,
    pub openrouter_key: Option<String>,
}

/// A configuration as mathematical values: provider, model, OpenRouter key.
pub type ConfigView = (Provider, Option<Seq<char>>, Option<Seq<char>>);

/// What the reader has gathered so far: provider, model, key.
pub type ReadState = (Option<Provider>, Option<Seq<char>>, Option<Seq<char>>);

pub open spec fn opt_view(o: Option<String>) -> Option<Seq<char>> {
    match o {
        Some(s) => Some(s@),
        None => None,
    }
}

impl Config {
    pub open spec fn view(self) -> ConfigView {
        (self.provider, opt_view(self.model), opt_view(self.openrouter_key))
    }
}

/// The effect of one line of the file: blank lines and `#` comments are skipped;
/// `provider=` sets (or, if unknown, clears) the provider; non-empty `model=` and
/// `openrouter_key=` set those; anything else is ignored. Keys and values are trimmed.
pub open spec fn read_line(st: ReadState, raw: Seq<char>) -> ReadState {
    let line = trim(raw);
    if line.len() == 0 || line[0] == '#' {
        st
    } else {
        match find(line, seq!['=']) {
            None => st,
            Some(i) => {
                let k = trim(line.subrange(0, i));
                let v = trim(line.subrange(i + 1, line.len() as int));
                if k == "provider"@ {
                    (provider_named(v), st.1, st.2)
                } else if k == "model"@ && v.len() > 0 {
                    (st.0, Some(v), st.2)
                } else if k == "openrouter_key"@ && v.len() > 0 {
                    (st.0, st.1, Some(v))
                } else {
                    st
                }
            },
        }
    }
}

/// The state after reading `lines` in order.
pub open spec fn read_lines(lines: Seq<Seq<char>>) -> ReadState
    decreases lines.len(),
{
    if lines.len() == 0 {
        (None, None, None)
    } else {
        read_line(read_lines(lines.drop_last()), lines.last())
    }
}

/// The configuration a file holds: `None` when it names no known provider.
pub open spec fn config_from_text(txt: Seq<char>) -> Option<ConfigView> {
    let st = read_lines(split_on(txt, '\n'));
    match st.0 {
        Some(p) => Some((p, st.1, st.2)),
        None => None,
    }
}

/// The text `save` writes for a configuration.
pub open spec fn config_text(c: ConfigView) -> Seq<char> {
    let p = "provider="@ + provider_name(c.0) + seq!['\n'];
    let m = match c.1 {
        Some(m) => "model="@ + m + seq!['\n'],
        None => Seq::<char>::empty(),
    };
    let k = match c.2 {
        Some(k) => "openrouter_key="@ + k + seq!['\n'],
        None => Seq::<char>::empty(),
    };
    p + m + k
}

/// Reader state held in executable values.
struct Reader {
    provider: Option<Provider>,
    model: Option<Vec<char>>,
    key: Option<Vec<char>>,
}

impl Reader {
    spec fn view(self) -> ReadState {
        (
            self.provider,
            match self.model {
                Some(m) => Some(m@),
                None => None,
            },
            match self.key {
                Some(k) => Some(k@),
                None => None,
            },
        )
    }
}

/// Apply one line of the file to the reader state.
fn read_line_exec(st: Reader, raw: &[char]) -> (r: Reader)
    ensures
        r.view() == read_line(st.view(), raw@),
{
    let line = trim_exec(raw);
    if line.len() == 0 || line[0] == '#' {
        return st;
    }
    let eq: Vec<char> = vec!['='];
    assert(eq@ =~= seq!['=']);
    match find_exec(&line, &eq) {
        None => st,
        Some(i) => {
            proof {
                crate::text::lemma_find_contains(line@, eq@);
                assert(crate::text::occurs_at(line@, eq@, i as int));
            }
            let n = line.len();
            let k = trim_exec(&slice_chars(&line, 0, i));
            let v = trim_exec(&slice_chars(&line, i + 1, n));
            if same_chars(&k, &chars_of("provider")) {
                let name = string_of(&v);
                Reader { provider: Provider::parse(name.as_str()), model: st.model, key: st.key }
            } else if same_chars(&k, &chars_of("model")) && v.len() > 0 {
                Reader { provider: st.provider, model: Some(v), key: st.key }
            } else if same_chars(&k, &chars_of("openrouter_key")) && v.len() > 0 {
                Reader { provider: st.provider, model: st.model, key: Some(v) }
            } else {
                st
            }
        },
    }
}

/// The configuration a config file holds, or `None` when it names no known provider
/// (the file-reading half of `Config::load` stays with the caller).
pub fn parse_config(txt: &str) -> (r: Option<Config>)
    ensures
        r matches Some(c) ==> config_from_text(txt@) == Some(c@),
        r is None ==> config_from_text(txt@) is None,
{
    let s = chars_of(txt);
    let mut st = Reader { provider: None, model: None, key: None };
    let mut cur: Vec<char> = Vec::new();
    let mut i: usize = 0;
    assert(split_on(s@.take(0), '\n') =~= seq![Seq::<char>::empty()]);
    assert(split_on(s@.take(0), '\n').drop_last() =~= Seq::<Seq<char>>::empty());
    while i < s.len()
        invariant
            i <= s@.len(),
            st.view() == read_lines(split_on(s@.take(i as int), '\n').drop_last()),
            cur@ == split_on(s@.take(i as int), '\n').last(),
        decreases s@.len() - i,
    {
        let ghost pre = s@.take(i as int);
        let ghost lines = split_on(pre, '\n');
        proof {
            lemma_split_on_nonempty(pre, '\n');
        }
        assert(s@.take(i + 1).drop_last() =~= pre);
        let c = s[i];
        if c == '\n' {
            st = read_line_exec(st, &cur);
            cur = Vec::new();
            proof {
                let next = split_on(s@.take(i + 1), '\n');
                assert(next == lines.push(Seq::<char>::empty()));
                assert(next.drop_last() =~= lines);
                assert(lines.drop_last().push(lines.last()) =~= lines);
            }
        } else {
            cur.push(c);
            proof {
                let next = split_on(s@.take(i + 1), '\n');
                assert(next.drop_last() =~= lines.drop_last());
            }
        }
        i = i + 1;
    }
    assert(s@.take(s@.len() as int) =~= s@);
    proof {
        lemma_split_on_nonempty(s@, '\n');
        let lines = split_on(s@, '\n');
        assert(lines.drop_last().push(lines.last()) =~= lines);
    }
    st = read_line_exec(st, &cur);
    match st.provider {
        Some(p) => Some(
            Config {
                provider: p,
                model: match st.model {
                    Some(m) => Some(string_of(&m)),
                    None => None,
                },
                openrouter_key: match st.key {
                    Some(k) => Some(string_of(&k)),
                    None => None,
                },
            },
        ),
        None => None,
    }
}

/// The text `save` writes for a configuration (the writing itself, with mode 0600,
/// stays with the caller).
pub fn render_config(cfg: &Config) -> (r: String)
    ensures
        r@ == config_text(cfg@),
{
    let mut v = chars_of("provider=");
    append_str(&mut v, cfg.provider.as_str());
    v.push('\n');
    match &cfg.model {
        Some(m) => {
            append_str(&mut v, "model=");
            append_str(&mut v, m.as_str());
            v.push('\n');
        },
        None => {},
    }
    match &cfg.openrouter_key {
        Some(k) => {
            append_str(&mut v, "openrouter_key=");
            append_str(&mut v, k.as_str());
            v.push('\n');
        },
        None => {},
    }
    proof {
        let p = "provider="@ + provider_name(cfg.provider) + seq!['\n'];
        let m = match cfg@.1 {
            Some(m) => "model="@ + m + seq!['\n'],
            None => Seq::<char>::empty(),
        };
        let k = match cfg@.2 {
            Some(k) => "openrouter_key="@ + k + seq!['\n'],
            None => Seq::<char>::empty(),
        };
        assert(v@ =~= p + m + k);
    }
    string_of(&v)
}


/// A value that survives a write and a read: non-empty, already trimmed, one line.
pub open spec fn storable(v: Seq<char>) -> bool {
    v.len() > 0 && trim(v) == v && !v.contains('\n')
}

/// A configuration whose model and key are storable.
pub open spec fn storable_config(c: ConfigView) -> bool {
    &&& (c.1 matches Some(m) ==> storable(m))
    &&& (c.2 matches Some(k) ==> storable(k))
}

proof fn lemma_read_lines_push(lines: Seq<Seq<char>>, x: Seq<char>)
    ensures
        read_lines(lines.push(x)) == read_line(read_lines(lines), x),
{
    assert(lines.push(x).drop_last() =~= lines);
}

proof fn lemma_no_char_concat(a: Seq<char>, b: Seq<char>, c: char)
    requires
        !a.contains(c),
        !b.contains(c),
    ensures
        !(a + b).contains(c),
{
    if (a + b).contains(c) {
        let k = choose|k: int| 0 <= k < (a + b).len() && (a + b)[k] == c;
        if k < a.len() {
            assert(a[k] == c);
        } else {
            assert(b[k - a.len()] == c);
        }
    }
}

/// A `key=value` line reads back as its key and value.
proof fn lemma_key_value_line(key: Seq<char>, v: Seq<char>)
    requires
        key.len() > 0,
        !key.contains('='),
        !whitespace(key[0]),
        key[0] != '#',
        trim(key) == key,
        v.len() > 0,
        trim(v) == v,
    ensures
        ({
            let line = key + seq!['='] + v;
            &&& trim(line) == line
            &&& line.len() > 0
            &&& line[0] != '#'
            &&& find(line, seq!['=']) == Some(key.len() as int)
            &&& line.subrange(0, key.len() as int) == key
            &&& line.subrange(key.len() + 1int, line.len() as int) == v
        }),
{
    let line = key + seq!['='] + v;
    lemma_trimmed_ends(v);
    assert(line.last() == v.last());
    assert(line[0] == key[0]);
    lemma_trim_noop(line);
    assert(line.subrange(key.len() as int, key.len() + 1int) =~= seq!['=']);
    assert forall|j: int| 0 <= j < key.len() implies !occurs_at(line, seq!['='], j) by {
        if occurs_at(line, seq!['='], j) {
            assert(line.subrange(j, j + 1)[0] == '=');
            assert(key[j] == '=');
        }
    }
    lemma_find_first(line, seq!['='], key.len() as int);
    assert(line.subrange(0, key.len() as int) =~= key);
    assert(line.subrange(key.len() + 1int, line.len() as int) =~= v);
}

proof fn lemma_storable_line(lit: Seq<char>, key: Seq<char>, v: Seq<char>)
    requires
        lit == key + seq!['='],
        !key.contains('\n'),
        storable(v),
    ensures
        !(lit + v).contains('\n'),
        lit + v == key + seq!['='] + v,
{
    assert(!seq!['='].contains('\n')) by {
        if seq!['='].contains('\n') {
            assert(seq!['='][0] == '\n');
        }
    }
    lemma_no_char_concat(key, seq!['='], '\n');
    lemma_no_char_concat(lit, v, '\n');
}

/// What `save` writes, `load` reads back: the provider, and the model and key when
/// they are storable (non-empty, already trimmed, on one line).
pub proof fn law_config_roundtrip(c: ConfigView)
    requires
        storable_config(c),
    ensures
        config_from_text(config_text(c)) == Some(c),
{
    reveal_strlit("provider");
    reveal_strlit("model");
    reveal_strlit("openrouter_key");
    reveal_strlit("provider=");
    reveal_strlit("model=");
    reveal_strlit("openrouter_key=");
    reveal_strlit("openrouter");
    reveal_strlit("ollama");
    let pk = "provider"@;
    let mk = "model"@;
    let kk = "openrouter_key"@;
    assert("provider="@ =~= pk + seq!['=']);
    assert("model="@ =~= mk + seq!['=']);
    assert("openrouter_key="@ =~= kk + seq!['=']);
    assert(!pk.contains('=') && !pk.contains('\n')) by {
        if pk.contains('=') || pk.contains('\n') {
            let i = choose|i: int| 0 <= i < pk.len() && (pk[i] == '=' || pk[i] == '\n');
        }
    }
    assert(!mk.contains('=') && !mk.contains('\n')) by {
        if mk.contains('=') || mk.contains('\n') {
            let i = choose|i: int| 0 <= i < mk.len() && (mk[i] == '=' || mk[i] == '\n');
        }
    }
    assert(!kk.contains('=') && !kk.contains('\n')) by {
        if kk.contains('=') || kk.contains('\n') {
            let i = choose|i: int| 0 <= i < kk.len() && (kk[i] == '=' || kk[i] == '\n');
        }
    }
    lemma_trim_noop(pk);
    lemma_trim_noop(mk);
    lemma_trim_noop(kk);
    let pv = provider_name(c.0);
    assert(pv.len() > 0 && !whitespace(pv[0]) && !whitespace(pv.last()));
    lemma_trim_noop(pv);
    assert(!pv.contains('\n')) by {
        if pv.contains('\n') {
            let i = choose|i: int| 0 <= i < pv.len() && pv[i] == '\n';
        }
    }
    lemma_storable_line("provider="@, pk, pv);
    let lp = "provider="@ + pv;
    lemma_key_value_line(pk, pv);
    let empty = Seq::<char>::empty();
    lemma_read_lines_push(Seq::<Seq<char>>::empty(), lp);
    assert(seq![lp] =~= Seq::<Seq<char>>::empty().push(lp));
    let st1 = read_lines(seq![lp]);
    assert(st1 == (Some(c.0), None::<Seq<char>>, None::<Seq<char>>));
    let tail_m = match c.1 {
        Some(m) => "model="@ + m + seq!['\n'],
        None => Seq::<char>::empty(),
    };
    let tail_k = match c.2 {
        Some(k) => "openrouter_key="@ + k + seq!['\n'],
        None => Seq::<char>::empty(),
    };
    // split the text line by line
    lemma_split_on_single(lp, '\n');
    let rest = tail_m + tail_k;
    assert(config_text(c) =~= lp + seq!['\n'] + rest);
    lemma_split_on_concat(lp, rest, '\n');
    let rest_lines = split_on(rest, '\n');
    // the lines of `rest`, and the state after them
    let expect_lines = match (c.1, c.2) {
        (Some(m), Some(k)) => seq!["model="@ + m, "openrouter_key="@ + k, empty],
        (Some(m), None) => seq!["model="@ + m, empty],
        (None, Some(k)) => seq!["openrouter_key="@ + k, empty],
        (None, None) => seq![empty],
    };
    match c.1 {
        Some(m) => {
            lemma_storable_line("model="@, mk, m);
            lemma_key_value_line(mk, m);
            lemma_split_on_single("model="@ + m, '\n');
            assert(rest =~= ("model="@ + m) + seq!['\n'] + tail_k);
            lemma_split_on_concat("model="@ + m, tail_k, '\n');
        },
        None => {
            assert(rest =~= tail_k);
        },
    }
    match c.2 {
        Some(k) => {
            lemma_storable_line("openrouter_key="@, kk, k);
            lemma_key_value_line(kk, k);
            lemma_split_on_single("openrouter_key="@ + k, '\n');
            assert(tail_k =~= ("openrouter_key="@ + k) + seq!['\n'] + empty);
            lemma_split_on_concat("openrouter_key="@ + k, empty, '\n');
        },
        None => {
        },
    }
    assert(split_on(empty, '\n') =~= seq![empty]);
    assert(rest_lines =~= expect_lines);
    let all = seq![lp] + expect_lines;
    assert(split_on(config_text(c), '\n') =~= all);
    assert(trim(empty) =~= empty);
    match (c.1, c.2) {
        (Some(m), Some(k)) => {
            let a = "model="@ + m;
            let b = "openrouter_key="@ + k;
            lemma_read_lines_push(seq![lp], a);
            assert(seq![lp].push(a) =~= seq![lp, a]);
            lemma_read_lines_push(seq![lp, a], b);
            assert(seq![lp, a].push(b) =~= seq![lp, a, b]);
            lemma_read_lines_push(seq![lp, a, b], empty);
            assert(seq![lp, a, b].push(empty) =~= all);
        },
        (Some(m), None) => {
            let a = "model="@ + m;
            lemma_read_lines_push(seq![lp], a);
            assert(seq![lp].push(a) =~= seq![lp, a]);
            lemma_read_lines_push(seq![lp, a], empty);
            assert(seq![lp, a].push(empty) =~= all);
        },
        (None, Some(k)) => {
            let b = "openrouter_key="@ + k;
            lemma_read_lines_push(seq![lp], b);
            assert(seq![lp].push(b) =~= seq![lp, b]);
            lemma_read_lines_push(seq![lp, b], empty);
            assert(seq![lp, b].push(empty) =~= all);
        },
        (None, None) => {
            lemma_read_lines_push(seq![lp], empty);
            assert(seq![lp].push(empty) =~= all);
        },
    }
}


/// `Path::join` of a relative `name` onto `base`, as text: a `/` goes between them
/// unless `base` is empty or already ends with one.
pub open spec fn path_join(base: Seq<char>, name: Seq<char>) -> Seq<char> {
    if base.len() == 0 {
        name
    } else if base.last() == '/' {
        base + name
    } else {
        base + seq!['/'] + name
    }
}

pub open spec fn str_opt_view(o: Option<&str>) -> Option<Seq<char>> {
    match o {
        Some(s) => Some(s@),
        None => None,
    }
}

/// The base configuration directory: `$XDG_CONFIG_HOME`, else `$HOME/.config`,
/// else `./.config`.
pub open spec fn config_base(xdg: Option<Seq<char>>, home: Option<Seq<char>>) -> Seq<char> {
    match xdg {
        Some(x) => x,
        None => match home {
            Some(h) => h + "/.config"@,
            None => "./.config"@,
        },
    }
}

fn path_join_exec(base: &[char], name: &str) -> (r: Vec<char>)
    ensures
        r@ == path_join(base@, name@),
{
    let mut v: Vec<char> = Vec::new();
    append_chars(&mut v, base);
    let n = base.len();
    if n > 0 && base[n - 1] != '/' {
        v.push('/');
    }
    append_str(&mut v, name);
    proof {
        if base@.len() > 0 && base@.last() != '/' {
            assert(v@ =~= base@ + seq!['/'] + name@);
        } else {
            assert(v@ =~= base@ + name@);
        }
    }
    v
}

fn config_dir_chars(xdg: Option<&str>, home: Option<&str>) -> (r: Vec<char>)
    ensures
        r@ == path_join(config_base(str_opt_view(xdg), str_opt_view(home)), "zenvx"@),
{
    let base = match xdg {
        Some(x) => chars_of(x),
        None => {
            let mut h = match home {
                Some(h) => chars_of(h),
                None => chars_of("."),
            };
            append_str(&mut h, "/.config");
            proof {
                reveal_strlit(".");
                reveal_strlit("/.config");
                reveal_strlit("./.config");
                if home is None {
                    assert(h@ =~= "./.config"@);
                }
            }
            h
        },
    };
    path_join_exec(&base, "zenvx")
}

/// The ZenvX configuration directory, given the values of `$XDG_CONFIG_HOME` and
/// `$HOME` (`None` when unset): `<base>/zenvx`.
pub fn config_dir(xdg: Option<&str>, home: Option<&str>) -> (r: String)
    ensures
        r@ == path_join(config_base(str_opt_view(xdg), str_opt_view(home)), "zenvx"@),
{
    string_of(&config_dir_chars(xdg, home))
}

/// The configuration file: `config` in the configuration directory.
pub fn config_path(xdg: Option<&str>, home: Option<&str>) -> (r: String)
    ensures
        r@ == path_join(
            path_join(config_base(str_opt_view(xdg), str_opt_view(home)), "zenvx"@),
            "config"@,
        ),
{
    let dir = config_dir_chars(xdg, home);
    string_of(&path_join_exec(&dir, "config"))
}

/// A stored provider name reads back as the same provider.
pub proof fn law_provider_roundtrip(p: Provider)
    ensures
        provider_named(provider_name(p)) == Some(p),
{
    reveal_strlit("openrouter");
    reveal_strlit("ollama");
    assert("openrouter"@.len() != "ollama"@.len());
}

} // verus!
