use evo_toolkit::llm::{
    check_stream_content_type, reply_status, stream_reply, streaming_unsupported, success_status,
    OpenAiCompatProvider, ProviderError,
};

#[test]
fn test_supports_model_empty_list() {
    let provider = OpenAiCompatProvider::new(
        "test".into(),
        "http://localhost:11434".into(),
        None,
        vec![],
        120,
    );
    assert!(provider.supports_model("any-model"));
}

#[test]
fn test_supports_model_specific_list() {
    let provider = OpenAiCompatProvider::new(
        "test".into(),
        "http://localhost:11434".into(),
        None,
        vec!["qwen3:14b".into(), "llama3:8b".into()],
        120,
    );
    assert!(provider.supports_model("qwen3:14b"));
    assert!(!provider.supports_model("gpt-4"));
}

#[test]
fn test_base_url_trailing_slash_stripped() {
    let provider = OpenAiCompatProvider::new(
        "test".into(),
        "http://localhost:11434/".into(),
        None,
        vec![],
        120,
    );
    assert_eq!(provider.base_url, "http://localhost:11434");
}

#[test]
fn endpoints_and_name() {
    let provider = OpenAiCompatProvider::new(
        "ollama".into(),
        "http://localhost:11434///".into(),
        Some("key".into()),
        vec![],
        30,
    );
    assert_eq!(provider.name(), "ollama");
    assert_eq!(provider.chat_url(), "http://localhost:11434/v1/chat/completions");
    assert_eq!(provider.models_url(), "http://localhost:11434/v1/models");
    assert_eq!(provider.timeout_seconds, 30);
}

#[test]
fn stream_content_types() {
    assert!(check_stream_content_type("text/event-stream; charset=utf-8").is_ok());
    assert!(check_stream_content_type("text/plain").is_ok());
    assert!(check_stream_content_type("application/x-ndjson").is_ok());
    match check_stream_content_type("application/json") {
        Err(ProviderError::Api { status, message }) => {
            assert_eq!(status, 502);
            assert_eq!(message, "Upstream liefert kein SSE (Content-Type: 'application/json')");
        }
        _ => panic!("expected a 502"),
    }
    match streaming_unsupported("grok") {
        ProviderError::Api { status, message } => {
            assert_eq!(status, 501);
            assert_eq!(message, "Provider 'grok' unterstuetzt kein Streaming");
        }
        _ => panic!("expected a 501"),
    }
}

fn api_error(r: Result<(), ProviderError>) -> Option<(u16, String)> {
    match r {
        Err(ProviderError::Api { status, message }) => Some((status, message)),
        _ => None,
    }
}

#[test]
fn upstream_reply_outcomes() {
    assert!(success_status(200) && success_status(299));
    assert!(!success_status(199) && !success_status(300) && !success_status(503));
    assert!(reply_status(204, String::new()).is_ok());
    assert_eq!(api_error(reply_status(503, "busy".to_string())), Some((503, "busy".to_string())));
    assert_eq!(
        api_error(stream_reply(503, "text/event-stream", "server busy".to_string())),
        Some((503, "server busy".to_string()))
    );
    assert!(stream_reply(200, "text/event-stream; charset=utf-8", String::new()).is_ok());
    assert!(stream_reply(200, "application/x-ndjson", String::new()).is_ok());
    assert_eq!(
        api_error(stream_reply(200, "application/json", String::new())),
        Some((502, "Upstream liefert kein SSE (Content-Type: 'application/json')".to_string()))
    );
}
