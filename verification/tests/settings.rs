use zenvx::config::{Config, Provider};
use zenvx::settings::Settings;

#[test]
fn settings_key_is_masked() {
    let mut s = Settings::new(None);
    assert_eq!(s.provider(), "openrouter");
    assert_eq!(s.model(), Some("openrouter/auto"));
    assert_eq!(s.masked_key(), "(none)");
    s.set_openrouter("sk-or-abcd1234", Some("openrouter/auto"));
    assert_eq!(s.provider(), "openrouter");
    assert_eq!(s.masked_key(), "****1234"); // never shows the full key
    s.set_local("llama3.2:1b");
    assert_eq!(s.provider(), "ollama");
    assert_eq!(s.model(), Some("llama3.2:1b"));
}

#[test]
fn short_and_multibyte_keys() {
    let mut s = Settings::new(Some(Config { provider: Provider::Ollama, model: None, openrouter_key: None }));
    assert_eq!(s.model(), None);
    s.set_openrouter("abc", None);
    assert_eq!(s.masked_key(), "****");
    assert_eq!(s.model(), Some("openrouter/auto"));
    s.set_openrouter("xx\u{e9}\u{e9}", None); // 6 bytes; the last 4 are two 2-byte chars
    assert_eq!(s.masked_key(), "****\u{e9}\u{e9}");
}

#[test]
fn keys_of_four_bytes_or_fewer_are_never_shown() {
    let mut s = Settings::new(None);
    s.set_openrouter("abcd", None);
    assert_eq!(s.masked_key(), "****");
    s.set_openrouter("", None);
    assert_eq!(s.masked_key(), "****");
    s.set_openrouter("\u{e9}\u{e9}", None); // 4 bytes
    assert_eq!(s.masked_key(), "****");
}

#[test]
fn multibyte_keys_are_masked_on_a_char_boundary() {
    let mut s = Settings::new(None);
    s.set_openrouter("\u{e9}123", None); // 4 chars, 5 bytes
    assert_eq!(s.masked_key(), "****123");
    s.set_openrouter("abcde", None);
    assert_eq!(s.masked_key(), "****bcde");
    s.set_openrouter("key\u{1F600}", None); // a 4-byte char at the end
    assert_eq!(s.masked_key(), "****\u{1F600}");
    s.set_openrouter("k\u{20AC}\u{20AC}", None); // two 3-byte chars: only one fits
    assert_eq!(s.masked_key(), "****\u{20AC}");
}
