use leanlayercli::backend::process::{
    effective_ctx_size, failure_message, fetch_ctx_size, gpu_layers, parse_vram, start_expired,
    status_fails, vram_gb, Backend, Credential, Failure, Request, Start,
};
use leanlayercli::backend::protocol::{spoken_messages, BackendMessage, ChatMessage};
use leanlayercli::backend::ratelimit::RateLimiter;
use leanlayercli::backend::stream::{
    change_message, event_message, visible_part, Dialect, Stream,
};
use leanlayercli::backend::wire::{
    are_sendable, is_sendable, serialize_messages_anthropic, serialize_messages_openai, Content,
    Part, WireMessage,
};
use leanlayercli::config::Config;
use leanlayercli::tui::mode::AppMode;

const MS: u128 = 1_000_000;

#[test]
fn test_rate_limiter_allows_under_limit() {
    let mut limiter = RateLimiter::new(40);
    assert_eq!(limiter.check_and_wait("test_provider", 0), None);
}

#[test]
fn test_rate_limiter_blocks_over_limit() {
    let mut limiter = RateLimiter::with_window(2, 200 * MS);
    let start: u128 = 1_000 * MS;
    let mut now = start;
    for _ in 0..3 {
        while let Some(wait) = limiter.check_and_wait("test_provider", now) {
            now += wait;
        }
    }
    let elapsed = now - start;
    assert!(elapsed >= 150 * MS, "Elapsed time was {:?}", elapsed);
    assert_eq!(elapsed, 210 * MS);
}

#[test]
fn requests_leave_the_window() {
    let mut limiter = RateLimiter::with_window(3, 100);
    assert_eq!(limiter.max_rpm(), 3);
    assert_eq!(limiter.remaining("a", 0), 3);
    assert_eq!(limiter.check_and_wait("a", 0), None);
    assert_eq!(limiter.check_and_wait("a", 60), None);
    assert_eq!(limiter.current_rpm("a", 99), 2);
    assert_eq!(limiter.remaining("a", 99), 1);
    assert_eq!(limiter.current_rpm("a", 100), 1);
    assert_eq!(limiter.current_rpm("b", 100), 0);
    assert_eq!(limiter.current_rpm("a", 160), 0);
}

#[test]
fn providers_do_not_share_a_window() {
    let mut limiter = RateLimiter::with_window(1, 100);
    assert_eq!(limiter.check_and_wait("a", 5), None);
    assert_eq!(limiter.check_and_wait("b", 5), None);
    assert_eq!(limiter.check_and_wait("a", 25), Some(80 + 10 * MS));
    assert_eq!(limiter.check_and_wait("b", 105), None);
}

#[test]
fn the_window_rolls() {
    let mut limiter = RateLimiter::with_window(4, 1_000);
    let mut passed: Vec<u128> = Vec::new();
    for now in (0..20_000u128).step_by(37) {
        if limiter.check_and_wait("p", now).is_none() {
            passed.push(now);
        }
        let within = passed.iter().filter(|t| now - **t < 1_000).count();
        assert!(within <= 4);
    }
    assert!(passed.len() > 70);
}

#[test]
fn waiting_as_told_helps() {
    let mut limiter = RateLimiter::with_window(2, 50);
    assert_eq!(limiter.check_and_wait("p", 0), None);
    assert_eq!(limiter.check_and_wait("p", 10), None);
    let wait = limiter.check_and_wait("p", 20).unwrap();
    assert_eq!(wait, 30 + 10 * MS);
    assert_eq!(limiter.check_and_wait("p", 20 + wait), None);
}

#[test]
fn a_limit_of_zero_lets_nobody_through() {
    let mut limiter = RateLimiter::with_window(0, 50);
    assert_eq!(limiter.check_and_wait("p", 1), Some(50 + 10 * MS));
    assert_eq!(limiter.check_and_wait("p", 51 + 10 * MS), Some(50 + 10 * MS));
    assert_eq!(limiter.current_rpm("p", 1), 0);
    assert_eq!(limiter.remaining("p", 1), 0);
}

fn config(provider: &str) -> Config {
    Config {
        model_path: "m.gguf".to_string(),
        vault_path: "/vault".to_string(),
        llama_server_path: None,
        gpu_layers: 99,
        ctx_size: 4096,
        port: 8080,
        summarize_on_exit: true,
        api_provider: provider.to_string(),
        api_key: None,
        api_model: None,
        max_context_nodes: 5,
        trust_level: "ask".to_string(),
        max_agent_iterations: 3,
    }
}

fn ready(provider: &str) -> Backend {
    match Backend::spawn(&config(provider), Some("k".to_string())) {
        Start::Ready(b) => b,
        other => panic!("{:?}", other),
    }
}

#[test]
fn cloud_providers() {
    let expected = [
        ("openai", "https://api.openai.com", 128000),
        ("gemini", "https://generativelanguage.googleapis.com", 2000000),
        ("anthropic", "https://api.anthropic.com", 200000),
        ("openrouter", "https://openrouter.ai/api", 128000),
        ("nvidia", "https://integrate.api.nvidia.com", 128000),
    ];
    for (name, url, size) in expected {
        let b = ready(name);
        assert_eq!(b.base_url, url);
        assert_eq!(b.actual_ctx_size, size);
        assert_eq!(b.max_rpm, 40);
        assert_eq!(b.api_key, Some("k".to_string()));
        assert_eq!(b.api_provider, name);
        assert!(b.send_generate(&Vec::new(), AppMode::Low, "usual-model").is_ok());
    }
}

#[test]
fn starts_that_are_refused() {
    match Backend::spawn(&config("openai"), None) {
        Start::Refused(e) => assert_eq!(
            e,
            "API key required for provider 'openai'. Set it in config.toml or via environment variable."
        ),
        other => panic!("{:?}", other),
    }
    match Backend::spawn(&config("acme"), Some("k".to_string())) {
        Start::Refused(e) => assert_eq!(e, "Unknown API provider: acme"),
        other => panic!("{:?}", other),
    }
    match Backend::health_checked(&config("local"), false, true, 0) {
        Start::Refused(e) => {
            assert!(e.starts_with("llama-server not running on port 8080. Either:\n  1. Start"));
            assert!(e.contains("--port 8080\n  2. Set 'llama_server_path'"));
            assert!(e.ends_with("'openrouter', or 'nvidia'"));
        },
        other => panic!("{:?}", other),
    }
    let mut cfg = config("local");
    cfg.llama_server_path = Some("/bin/ls".to_string());
    match Backend::health_checked(&cfg, false, false, 0) {
        Start::Refused(e) => assert_eq!(
            e,
            "llama-server not found at: /bin/ls. Start it manually or fix llama_server_path in config."
        ),
        other => panic!("{:?}", other),
    }
}

#[test]
fn local_servers() {
    let mut cfg = config("local");
    match Backend::spawn(&cfg, None) {
        Start::CheckHealth(url) => assert_eq!(url, "http://127.0.0.1:8080/health"),
        other => panic!("{:?}", other),
    }
    match Backend::health_checked(&cfg, true, false, 0) {
        Start::FetchProps(url) => assert_eq!(url, "http://127.0.0.1:8080/props"),
        other => panic!("{:?}", other),
    }
    cfg.llama_server_path = Some("llama-server".to_string());
    match Backend::health_checked(&cfg, false, true, 12) {
        Start::Launch { program, args } => {
            assert_eq!(program, "llama-server");
            assert_eq!(
                args,
                vec![
                    "-m", "m.gguf", "--port", "8080", "-ngl", "32", "--ctx-size", "4096",
                    "--no-warmup"
                ]
            );
        },
        other => panic!("{:?}", other),
    }
    let props = "{\"default_generation_settings\":{\"n_ctx\":2048}}";
    assert_eq!(Backend::local_ready(&cfg, None, Some(props)).actual_ctx_size, 2048);
    assert_eq!(Backend::local_ready(&cfg, None, Some("{}")).actual_ctx_size, 4096);
    let b = Backend::local_ready(&cfg, None, None);
    assert_eq!(b.actual_ctx_size, 4096);
    assert_eq!(b.base_url, "http://127.0.0.1:8080");
    assert_eq!(b.max_rpm, 40);
}

#[test]
fn a_model_is_sent_forty_requests_a_minute() {
    let minute: u128 = 60_000_000_000;
    let local = Backend::local_ready(&config("local"), None, None);
    for b in [ready("openai"), local] {
        let mut limiter = b.limiter();
        assert_eq!(limiter.max_rpm(), 40);
        for i in 0..40 {
            assert_eq!(limiter.check_and_wait("p", i), None);
        }
        assert_eq!(limiter.check_and_wait("p", 40), Some(minute - 40 + 10 * MS));
        assert_eq!(limiter.check_and_wait("other", 40), None);
        assert_eq!(limiter.check_and_wait("p", minute), None);
    }
}

#[test]
fn a_missing_key_is_told_of_first() {
    match Backend::spawn(&config("acme"), None) {
        Start::Refused(e) => assert_eq!(
            e,
            "API key required for provider 'acme'. Set it in config.toml or via environment variable."
        ),
        other => panic!("{:?}", other),
    }
    match Backend::spawn(&config("acme"), Some("k".to_string())) {
        Start::Refused(e) => assert_eq!(e, "Unknown API provider: acme"),
        other => panic!("{:?}", other),
    }
}

#[test]
fn layers_by_memory() {
    assert_eq!(gpu_layers(99, 16), 99);
    assert_eq!(gpu_layers(99, 15), 32);
    assert_eq!(gpu_layers(99, 7), 16);
    assert_eq!(gpu_layers(99, 0), 0);
    assert_eq!(gpu_layers(20, 0), 20);
    assert_eq!(parse_vram(" 24576\n"), 24);
    assert_eq!(parse_vram("8000\n8000"), 0);
    assert_eq!(vram_gb(Some(b"12288\n")), 12);
    assert_eq!(vram_gb(Some(b"\xff")), 0);
    assert_eq!(vram_gb(None), 0);
}

#[test]
fn context_sizes() {
    assert_eq!(
        fetch_ctx_size("{\"default_generation_settings\":{\"n_ctx\":32768}}"),
        Some(32768)
    );
    assert_eq!(fetch_ctx_size("{\"default_generation_settings\":{\"n_ctx\":-1}}"), None);
    assert_eq!(fetch_ctx_size("not json"), None);
    assert_eq!(effective_ctx_size(Some(7), 9), 7);
    assert_eq!(effective_ctx_size(None, 9), 9);
}

#[test]
fn servers_have_a_minute() {
    assert_eq!(start_expired(60_000 * MS), None);
    assert_eq!(
        start_expired(60_000 * MS + 1),
        Some("llama-server failed to start within 60 seconds".to_string())
    );
}

fn said(role: &str, content: &str) -> ChatMessage {
    ChatMessage::new(role, content.to_string())
}

fn text_of(m: &WireMessage) -> &str {
    match &m.content {
        Content::Text(s) => s,
        Content::Parts(_) => panic!("{:?}", m),
    }
}

fn request_of(b: &Backend, messages: &Vec<ChatMessage>, mode: AppMode) -> Request {
    match b.send_generate(messages, mode, "usual-model") {
        Ok(r) => r,
        Err(e) => panic!("{}", e),
    }
}

#[test]
fn instructions_are_merged_in_front() {
    let m = vec![
        said("system", "one"),
        said("user", "hi"),
        said("system", "two"),
        said("assistant", "hello"),
    ];
    let w = serialize_messages_openai(&m);
    let roles: Vec<&str> = w.iter().map(|x| x.role.as_str()).collect();
    assert_eq!(roles, vec!["system", "user", "assistant"]);
    assert_eq!(text_of(&w[0]), "one\n\ntwo");
    assert_eq!(text_of(&w[2]), "hello");
    assert_eq!(serialize_messages_openai(&vec![said("user", "x")]).len(), 1);
    let spoken = spoken_messages(&m);
    assert_eq!(spoken.len(), 2);
    assert!(spoken.iter().all(|x| x.role != "system"));
}

fn with_image(uri: &str) -> ChatMessage {
    ChatMessage {
        role: "user".to_string(),
        content: "look".to_string(),
        images: Some(vec![uri.to_string()]),
    }
}

#[test]
fn images_come_before_the_text() {
    let m = vec![with_image("data:image/gif;base64,QUJD")];
    assert!(m[0].has_images());
    assert!(!said("user", "x").has_images());
    match &serialize_messages_openai(&m)[0].content {
        Content::Parts(p) => {
            assert_eq!(p.len(), 2);
            assert!(matches!(&p[0], Part::ImageUrl(u) if u == "data:image/gif;base64,QUJD"));
            assert!(matches!(&p[1], Part::Text(t) if t == "look"));
        },
        other => panic!("{:?}", other),
    }
    let w = serialize_messages_anthropic(&m);
    match &w[0].content {
        Content::Parts(p) => {
            assert_eq!(p.len(), 2);
            assert!(matches!(
                &p[0],
                Part::Image { media_type, data } if media_type == "image/gif" && data == "QUJD"
            ));
        },
        other => panic!("{:?}", other),
    }
    match &serialize_messages_anthropic(&vec![with_image("no comma")])[0].content {
        Content::Parts(p) => assert_eq!(p.len(), 1),
        other => panic!("{:?}", other),
    }
}

#[test]
fn images_that_cannot_be_sent() {
    assert!(is_sendable("data:image/png;base64,AA"));
    assert!(is_sendable("anything"));
    assert!(!is_sendable("ab,c"));
    assert!(!is_sendable("dataé,"));
    assert!(!are_sendable(&vec![said("user", "x"), with_image("a,b")]));
    assert!(are_sendable(&vec![with_image("data:,")]));
    let mut instructions = with_image(",");
    assert!(!are_sendable(&vec![with_image(",")]));
    instructions.role = "system".to_string();
    let m = vec![instructions, said("user", "x")];
    assert!(are_sendable(&m));
    assert_eq!(serialize_messages_anthropic(&m).len(), 1);
}

#[test]
fn anthropic_roles() {
    let m = vec![said("system", "s"), said("tool", "t"), said("assistant", "a")];
    let w = serialize_messages_anthropic(&m);
    let roles: Vec<&str> = w.iter().map(|x| x.role.as_str()).collect();
    assert_eq!(roles, vec!["user", "assistant"]);
}

#[test]
fn requests_by_provider() {
    let m = vec![said("system", "s"), said("user", "u")];
    let mut local = ready("openai");
    local.api_provider = "local".to_string();
    local.base_url = "http://127.0.0.1:1".to_string();
    let r = request_of(&local, &m, AppMode::Ultra);
    assert_eq!(r.url, "http://127.0.0.1:1/v1/chat/completions");
    assert_eq!((r.model.as_str(), r.provider.as_str()), ("local", "local"));
    assert_eq!(r.thinking, Some(true));
    assert!(matches!(r.credential, Credential::Absent));
    assert_eq!(request_of(&local, &m, AppMode::High).thinking, Some(false));

    let r = request_of(&ready("nvidia"), &m, AppMode::Low);
    assert_eq!(r.url, "https://integrate.api.nvidia.com/v1/chat/completions");
    assert_eq!((r.model.as_str(), r.provider.as_str()), ("gpt-4o", "nvidia"));
    assert!(matches!(&r.credential, Credential::Bearer(k) if k == "k"));
    assert_eq!((r.thinking, r.max_tokens), (None, None));
    assert_eq!(r.messages.len(), 2);

    let r = request_of(&ready("gemini"), &m, AppMode::Low);
    assert_eq!(
        r.url,
        "https://generativelanguage.googleapis.com/v1beta/openai/chat/completions"
    );
    assert_eq!(r.model, "gemini-2.5-flash");

    let mut anthropic = ready("anthropic");
    let r = request_of(&anthropic, &m, AppMode::Low);
    assert_eq!(r.url, "https://api.anthropic.com/v1/messages");
    assert_eq!(r.model, "usual-model");
    assert_eq!(r.system, Some("s".to_string()));
    assert_eq!(r.max_tokens, Some(8192));
    assert_eq!(r.dialect, Dialect::Anthropic);
    assert_eq!(r.messages.len(), 1);
    assert!(matches!(&r.credential, Credential::ApiKey(k) if k == "k"));
    anthropic.api_model = Some("other".to_string());
    let r = request_of(&anthropic, &vec![said("user", "u")], AppMode::Low);
    assert_eq!((r.model.as_str(), r.system), ("other", None));

    let mut unknown = ready("openai");
    unknown.api_provider = "acme".to_string();
    match unknown.send_generate(&m, AppMode::Low, "usual-model") {
        Err(e) => assert_eq!(e, "Unknown API provider: acme"),
        Ok(r) => panic!("{:?}", r),
    }
}

#[test]
fn failures_of_requests() {
    let e = || "x".to_string();
    let status = Failure::Status { status: "500 Oops".to_string(), body: "b".to_string() };
    assert_eq!(failure_message(Dialect::OpenAi, &status), "API error (500 Oops): b");
    let f = Failure::Unsent(e());
    assert_eq!(failure_message(Dialect::OpenAi, &f), "OpenAI API error: x");
    assert_eq!(failure_message(Dialect::Anthropic, &f), "Anthropic API error: x");
    let f = Failure::Broken(e());
    assert_eq!(failure_message(Dialect::OpenAi, &f), "OpenAI streaming error: x");
    assert_eq!(failure_message(Dialect::Anthropic, &f), "Anthropic streaming error: x");
    assert!(status_fails(Dialect::OpenAi, 404));
    assert!(!status_fails(Dialect::OpenAi, 204));
    assert!(!status_fails(Dialect::Anthropic, 404));
}

fn show(sent: Vec<BackendMessage>) -> Vec<String> {
    sent.into_iter()
        .map(|m| match m {
            BackendMessage::Token { content } => content,
            BackendMessage::Done => "<done>".to_string(),
            BackendMessage::Error { message } => panic!("{}", message),
        })
        .collect()
}

const OPENAI: &str = "event: x\n\
data: {\"choices\":[{\"delta\":{\"content\":\"Hé\"}}]}\r\n\
data: {\"choices\":[]}\n\
data: nonsense\n\
data:{\"choices\":[{\"delta\":{\"reasoning_content\":\"why \",\"content\":\"<think>no\"}}]}\n\
data: {\"choices\":[{\"delta\":{\"content\":\"hidden\"}}]}\n\
data: {\"choices\":[{\"delta\":{\"content\":\"</think>llo\"}}]}\n\
data: [DONE]\n\
data: {\"choices\":[{\"delta\":{\"content\":\"late\"}}]}\n";

#[test]
fn openai_streams() {
    let mut s = Stream::new(Dialect::OpenAi);
    assert_eq!(show(s.feed(OPENAI.as_bytes())), vec!["Hé", "why ", "llo", "<done>"]);
    assert!(s.is_done());
    assert!(s.feed(b"data: [DONE]\n").is_empty());
}

#[test]
fn streams_of_text() {
    let mut s = Stream::new(Dialect::OpenAi);
    assert_eq!(show(s.feed_text(OPENAI)), vec!["Hé", "why ", "llo", "<done>"]);
}

#[test]
fn streams_can_be_cut_anywhere() {
    for n in [1usize, 3, 7, 50] {
        let chars: Vec<char> = OPENAI.chars().collect();
        let mut s = Stream::new(Dialect::OpenAi);
        let mut sent = Vec::new();
        for piece in chars.chunks(n) {
            let text: String = piece.iter().collect();
            sent.extend(show(s.feed(text.as_bytes())));
        }
        assert_eq!(sent, vec!["Hé", "why ", "llo", "<done>"]);
    }
}

#[test]
fn anthropic_streams() {
    let text = "data: {\"type\":\"message_start\"}\n\
data: {\"type\":\"content_block_delta\",\"delta\":{\"text\":\"Hi\"}}\n\
data: {\"type\":\"content_block_delta\",\"delta\":{\"text\":\"\"}}\n\
data: {\"type\":\"content_block_delta\"}\n\
data: {\"type\":\"message_stop\"}\n";
    let mut s = Stream::new(Dialect::Anthropic);
    assert_eq!(show(s.feed(text.as_bytes())), vec!["Hi", "<done>"]);
    let mut t = Stream::new(Dialect::Anthropic);
    assert!(t.feed(b"data: [DONE]").is_empty());
    assert!(!t.is_done());
    assert_eq!(show(t.feed(b"\n")), vec!["<done>"]);
}

#[test]
fn bytes_that_are_no_text() {
    let mut s = Stream::new(Dialect::OpenAi);
    let mut bytes = b"data: {\"choices\":[{\"delta\":{\"content\":\"a".to_vec();
    bytes.push(0xff);
    bytes.extend(b"\"}}]}\n");
    assert_eq!(show(s.feed(&bytes)), vec!["a\u{fffd}"]);
}

#[test]
fn thoughts_are_hidden() {
    assert_eq!(visible_part("a<think>b".to_string(), false), (String::new(), true));
    assert_eq!(visible_part("b</think>c".to_string(), true), ("bc".to_string(), false));
    assert_eq!(
        visible_part("<think>x</think>y".to_string(), false),
        ("xy".to_string(), false)
    );
    assert_eq!(visible_part("plain".to_string(), false), ("plain".to_string(), false));
    assert_eq!(visible_part("plain".to_string(), true), (String::new(), true));
}

#[test]
fn changes_and_events() {
    let (m, thinking) = change_message(Some("r".to_string()), Some("c".to_string()), true);
    assert!(thinking);
    assert!(matches!(m, Some(BackendMessage::Token { content }) if content == "r"));
    let (m, thinking) = change_message(None, None, false);
    assert!(m.is_none() && !thinking);
    let kind = |k: &str| Some(k.to_string());
    assert!(matches!(event_message(kind("message_stop"), None), Some(BackendMessage::Done)));
    assert!(event_message(kind("ping"), kind("x")).is_none());
    assert!(event_message(None, kind("x")).is_none());
    assert!(event_message(kind("content_block_delta"), None).is_none());
}
