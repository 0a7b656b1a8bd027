//! Requests to language models, and their replies.
use watermelon::ai::{
    build_anthropic_body, build_openai_body, openai_reply_with, read_anthropic_reply,
    read_openai_reply, AiError, AiProviderConfig, AiRequest, Provider,
};
use watermelon::value::{Json, Number};

fn text_at<'a>(v: &'a Json, path: &[&str]) -> Option<&'a str> {
    let mut at = v;
    for k in path {
        at = match k.parse::<usize>() {
            Ok(i) => at.item(i)?,
            Err(_) => at.get(k)?,
        };
    }
    at.as_str().map(String::as_str)
}

#[test]
fn anthropic_body_structured_uses_tool_choice() {
    let cfg = AiProviderConfig::anthropic_haiku("haiku-4-5", "k");
    let req = AiRequest {
        system: "sys".to_string(),
        prompt: "hi".to_string(),
        schema: Some(
            Json::empty().with("type", Json::text("object")).with(
                "properties",
                Json::empty().with("x", Json::empty().with("type", Json::text("string"))),
            ),
        ),
    };
    let body = build_anthropic_body(&req, &cfg);
    assert_eq!(text_at(&body, &["model"]), Some("haiku-4-5"));
    assert_eq!(text_at(&body, &["tool_choice", "type"]), Some("tool"));
    assert_eq!(text_at(&body, &["tool_choice", "name"]), Some("emit"));
    assert_eq!(text_at(&body, &["tools", "0", "name"]), Some("emit"));
    let schema = body.get("tools").and_then(|t| t.item(0)).and_then(|t| t.get("input_schema"));
    assert!(matches!(schema, Some(Json::Object(_))));
}

#[test]
fn anthropic_body_text_has_no_tools() {
    let cfg = AiProviderConfig::anthropic_haiku("haiku-4-5", "k");
    let req = AiRequest {
        system: "s".to_string(),
        prompt: "p".to_string(),
        schema: None,
    };
    let body = build_anthropic_body(&req, &cfg);
    assert!(body.get("tools").is_none());
    assert_eq!(text_at(&body, &["messages", "0", "role"]), Some("user"));
}

#[test]
fn anthropic_reply_is_read() {
    let usage = Json::empty()
        .with("input_tokens", Json::from_uint(11))
        .with("output_tokens", Json::from_uint(7));
    let part = |t: &str| {
        Json::empty().with("type", Json::text("text")).with("text", Json::text(t))
    };
    let tool = Json::empty()
        .with("type", Json::text("tool_use"))
        .with("input", Json::empty().with("x", Json::from_uint(1)));
    let v = Json::empty()
        .with("content", Json::Array(vec![part("a"), tool, part("b")]))
        .with("usage", usage);
    let r = read_anthropic_reply(true, "200 OK", &v).unwrap();
    assert_eq!(r.text.as_deref(), Some("ab"));
    assert_eq!(r.json, Some(Json::empty().with("x", Json::from_uint(1))));
    assert_eq!((r.input_tokens, r.output_tokens), (11, 7));
    assert_eq!(
        read_anthropic_reply(false, "401 Unauthorized", &Json::Null),
        Err(AiError("anthropic error 401 Unauthorized: null".to_string()))
    );
}

fn reply(content: &str) -> Json {
    Json::empty().with(
        "choices",
        Json::Array(vec![Json::empty()
            .with("message", Json::empty().with("content", Json::text(content)))]),
    )
}

#[test]
fn openai_reply_is_read() {
    let plain = read_openai_reply(true, "200 OK", &reply("hi"), false).unwrap();
    assert_eq!(plain.text.as_deref(), Some("hi"));
    assert_eq!(plain.json, None);
    let read = read_openai_reply(true, "200 OK", &reply("{\"x\": [1, 2.50, -3]}"), true).unwrap();
    let list = Json::Array(vec![
        Json::from_uint(1),
        Json::Number(Number::Float("2.5".to_string())),
        Json::from_int(-3),
    ]);
    assert_eq!(read.json, Some(Json::empty().with("x", list)));
    let given = openai_reply_with(true, "200 OK", &reply("x"), true, Ok(Json::Bool(true))).unwrap();
    assert_eq!(given.json, Some(Json::Bool(true)));
    assert!(read_openai_reply(false, "500", &Json::Null, false).is_err());
}

#[test]
fn openai_body_and_addresses() {
    let mut cfg = AiProviderConfig::anthropic_haiku("haiku-4-5", "k");
    cfg.provider = Provider::Ollama;
    let req = AiRequest {
        system: "s".to_string(),
        prompt: "p".to_string(),
        schema: None,
    };
    let body = build_openai_body(&req, &cfg);
    assert_eq!(text_at(&body, &["messages", "1", "content"]), Some("p"));
    let mut urls: Vec<String> = Vec::new();
    for p in [Provider::Anthropic, Provider::Openai, Provider::Gemini, Provider::Ollama] {
        cfg.provider = p;
        urls.push(cfg.url());
    }
    urls.sort();
    urls.dedup();
    assert_eq!(urls.len(), 4);
    cfg.base_url = Some("http://my.host".to_string());
    assert!(cfg.url().starts_with("http://my.host"));
}
