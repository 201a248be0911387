use zenvx::common::NAME;
use zenvx::config::{config_dir, config_path, parse_config, render_config, Config, Provider};

#[test]
fn provider_roundtrip() {
    assert_eq!(Provider::parse("openrouter"), Some(Provider::OpenRouter));
    assert_eq!(Provider::parse("ollama"), Some(Provider::Ollama));
    assert_eq!(Provider::parse("nope"), None);
    assert_eq!(Provider::OpenRouter.as_str(), "openrouter");
}

#[test]
fn brand_is_stable() {
    assert_eq!(NAME, "ZenvX OS");
}

#[test]
fn config_text_roundtrip() {
    let cfg = Config {
        provider: Provider::OpenRouter,
        model: Some("openrouter/auto".into()),
        openrouter_key: Some("sk-or-abcd1234".into()),
    };
    let text = render_config(&cfg);
    assert_eq!(text, "provider=openrouter\nmodel=openrouter/auto\nopenrouter_key=sk-or-abcd1234\n");
    let back = parse_config(&text).unwrap();
    assert_eq!(back.provider, Provider::OpenRouter);
    assert_eq!(back.model.as_deref(), Some("openrouter/auto"));
    assert_eq!(back.openrouter_key.as_deref(), Some("sk-or-abcd1234"));

    let local = Config { provider: Provider::Ollama, model: Some("llama3.2:1b".into()), openrouter_key: None };
    let back = parse_config(&render_config(&local)).unwrap();
    assert_eq!(back.provider, Provider::Ollama);
    assert_eq!(back.model.as_deref(), Some("llama3.2:1b"));
    assert_eq!(back.openrouter_key, None);
}

#[test]
fn config_reader_skips_comments_and_blanks() {
    let c = parse_config("# saved by zenvx\n\n  provider = ollama \r\nmodel=\nmodel = qwen:0.5b\nbogus line\n").unwrap();
    assert_eq!(c.provider, Provider::Ollama);
    assert_eq!(c.model.as_deref(), Some("qwen:0.5b"));
    assert_eq!(c.openrouter_key, None);
    // no provider, or an unknown one, means no config
    assert!(parse_config("model=x\n").is_none());
    assert!(parse_config("provider=nope\n").is_none());
    assert!(parse_config("").is_none());
    // a later unknown provider clears an earlier one
    assert!(parse_config("provider=ollama\nprovider=other\n").is_none());
}

#[test]
fn config_paths_follow_xdg_then_home() {
    assert_eq!(config_dir(Some("/x/cfg"), Some("/home/u")), "/x/cfg/zenvx");
    assert_eq!(config_dir(Some("/x/cfg/"), None), "/x/cfg/zenvx");
    assert_eq!(config_dir(None, Some("/home/u")), "/home/u/.config/zenvx");
    assert_eq!(config_dir(None, None), "./.config/zenvx");
    assert_eq!(config_path(None, Some("/home/u")), "/home/u/.config/zenvx/config");
}
