use zenvx::ai::{ollama_line, openrouter_line, select_backend, Assembly, Backend, Message};
use zenvx::config::{Config, Provider};

#[test]
fn openrouter_streams_and_assembles() {
    let lines = [
        "data: {\"choices\":[{\"delta\":{\"content\":\"Hel\"}}]}",
        "data: {\"choices\":[{\"delta\":{\"content\":\"lo\"}}]}",
        "data: [DONE]",
        "data: {\"choices\":[{\"delta\":{\"content\":\"late\"}}]}",
    ];
    let mut a = Assembly::new();
    let mut chunks = Vec::new();
    for line in lines {
        let o = openrouter_line(line);
        if let Some(t) = &o.token {
            chunks.push(t.clone());
        }
        a.accept(&o);
        if a.done {
            break;
        }
    }
    assert_eq!(a.text, "Hello");
    assert_eq!(chunks, vec!["Hel", "lo"]);
}

#[test]
fn ollama_streams_and_assembles() {
    let lines = [
        "{\"message\":{\"content\":\"Hel\"},\"done\":false}",
        "{\"message\":{\"content\":\"lo\"},\"done\":false}",
        "{\"done\":true}",
    ];
    let mut a = Assembly::new();
    let mut chunks = Vec::new();
    for line in lines {
        let o = ollama_line(line);
        if let Some(t) = &o.token {
            chunks.push(t.clone());
        }
        a.accept(&o);
        if a.done {
            break;
        }
    }
    assert_eq!(a.text, "Hello");
    assert_eq!(chunks, vec!["Hel", "lo"]);
}

#[test]
fn stream_lines_skip_noise() {
    let o = openrouter_line(": keep-alive");
    assert!(o.token.is_none() && !o.done);
    let o = openrouter_line("data: not json");
    assert!(o.token.is_none() && !o.done);
    let o = openrouter_line("data:   [DONE]  ");
    assert!(o.done);
    let o = ollama_line("   ");
    assert!(o.token.is_none() && !o.done);
    let o = ollama_line("{\"message\":{\"content\":\"x\"},\"done\":true}");
    assert_eq!(o.token.as_deref(), Some("x"));
    assert!(o.done);
}

#[test]
fn messages_have_roles() {
    let m = Message::user("hi");
    assert_eq!((m.role.as_str(), m.content.as_str()), ("user", "hi"));
    let m = Message::system("be brief");
    assert_eq!(m.role, "system");
}

#[test]
fn backend_selection() {
    let or = Config { provider: Provider::OpenRouter, model: None, openrouter_key: Some("k".into()) };
    match select_backend(&or, None, None).unwrap() {
        Backend::OpenRouter(o) => {
            assert_eq!(o.base_url, "https://openrouter.ai/api/v1");
            assert_eq!(o.model, "openrouter/auto");
            assert_eq!(o.api_key, "k");
        }
        _ => panic!("expected OpenRouter"),
    }
    let nokey = Config { provider: Provider::OpenRouter, model: None, openrouter_key: None };
    assert_eq!(
        select_backend(&nokey, None, None).unwrap_err().message(),
        "OpenRouter selected but no API key configured"
    );
    let ol = Config { provider: Provider::Ollama, model: Some("m".into()), openrouter_key: None };
    match select_backend(&ol, None, Some("http://h:1")).unwrap() {
        Backend::Ollama(o) => {
            assert_eq!(o.base_url, "http://h:1");
            assert_eq!(o.model, "m");
        }
        _ => panic!("expected Ollama"),
    }
    let nomodel = Config { provider: Provider::Ollama, model: None, openrouter_key: None };
    assert_eq!(
        select_backend(&nomodel, None, None).unwrap_err().message(),
        "Ollama selected but no model configured"
    );
}
