use grok2api::api_chat::{
    effort_for_cost, validate_request, ChatCompletionRequest, EffortType, VideoConfig,
};
use grok2api::chat::{ChatRequestBuilder, ChatService, GrokChatService, MessageExtractor};
use grok2api::error::ErrorKind;
use grok2api::json::Json;
use grok2api::model::Cost;

fn s(x: &str) -> Json {
    Json::Str(x.to_string())
}

fn obj(fields: Vec<(&str, Json)>) -> Json {
    Json::Object(fields.into_iter().map(|(k, v)| (k.to_string(), v)).collect())
}

fn msg(role: &str, content: Json) -> Json {
    obj(vec![("role", s(role)), ("content", content)])
}

fn request(messages: Vec<Json>) -> ChatCompletionRequest {
    ChatCompletionRequest {
        model: "grok-4".to_string(),
        messages,
        stream: None,
        thinking: None,
        video_config: None,
    }
}

fn refusal(messages: Vec<Json>) -> (String, Option<String>) {
    let e = validate_request(&request(messages)).unwrap_err();
    assert_eq!(e.kind, ErrorKind::InvalidRequest);
    (e.message, e.param)
}

#[test]
fn valid_request_passes() {
    let m = vec![
        msg("system", s("be brief")),
        msg(
            "user",
            Json::Array(vec![
                obj(vec![("type", s("text")), ("text", s("hi"))]),
                obj(vec![("type", s("image_url")), ("image_url", obj(vec![("url", s("http://x"))]))]),
                obj(vec![("type", s("input_audio")), ("input_audio", obj(vec![("data", s("AAA"))]))]),
                obj(vec![("type", s("file")), ("file", obj(vec![("data", s("BBB"))]))]),
            ]),
        ),
        msg("assistant", Json::Null),
    ];
    assert!(validate_request(&request(m)).is_ok());
}

#[test]
fn unknown_role_is_refused() {
    let (m, p) = refusal(vec![msg("user", s("a")), msg("bot", s("b"))]);
    assert_eq!(
        m,
        "role must be one of [\"developer\", \"system\", \"user\", \"assistant\"]"
    );
    assert_eq!(p, Some("messages.1.role".to_string()));
}

#[test]
fn missing_or_blank_content_is_refused() {
    let (m, p) = refusal(vec![obj(vec![("role", s("user"))])]);
    assert_eq!(m, "Message content cannot be empty");
    assert_eq!(p, Some("messages.0.content".to_string()));
    let (m, _) = refusal(vec![msg("user", s("  \n"))]);
    assert_eq!(m, "Message content cannot be empty");
    let (m, _) = refusal(vec![msg("user", Json::Array(vec![]))]);
    assert_eq!(m, "Message content cannot be an empty array");
}

#[test]
fn block_faults_are_refused() {
    let (m, p) = refusal(vec![msg("user", Json::Array(vec![Json::Null]))]);
    assert_eq!(m, "Content block cannot be empty");
    assert_eq!(p, Some("messages.0.content.0".to_string()));
    let (m, p) = refusal(vec![msg("user", Json::Array(vec![obj(vec![("text", s("x"))])]))]);
    assert_eq!(m, "Content block 'type' cannot be empty");
    assert_eq!(p, Some("messages.0.content.0.type".to_string()));
    let (m, _) = refusal(vec![msg("user", Json::Array(vec![obj(vec![("type", s("video"))])]))]);
    assert_eq!(m, "Invalid content block type: 'video'");
    let (m, p) = refusal(vec![msg(
        "system",
        Json::Array(vec![
            obj(vec![("type", s("text")), ("text", s("ok"))]),
            obj(vec![("type", s("image_url"))]),
        ]),
    )]);
    assert_eq!(m, "The `system` role only supports 'text' type, got 'image_url'");
    assert_eq!(p, Some("messages.0.content.1.type".to_string()));
    let (m, p) = refusal(vec![msg("user", Json::Array(vec![obj(vec![("type", s("text")), ("text", s(" "))])]))]);
    assert_eq!(m, "Text content cannot be empty");
    assert_eq!(p, Some("messages.0.content.0.text".to_string()));
    let (m, p) = refusal(vec![msg("user", Json::Array(vec![obj(vec![("type", s("image_url")), ("image_url", s("u"))])]))]);
    assert_eq!(m, "image_url must have a 'url' field");
    assert_eq!(p, Some("messages.0.content.0.image_url".to_string()));
    let (m, _) = refusal(vec![msg("user", Json::Array(vec![obj(vec![("type", s("input_audio"))])]))]);
    assert_eq!(m, "input_audio must have a 'data' field");
    let (m, p) = refusal(vec![msg("user", Json::Array(vec![obj(vec![("type", s("file")), ("file", obj(vec![]))])]))]);
    assert_eq!(m, "file must have a 'url' or 'data' field");
    assert_eq!(p, Some("messages.0.content.0.file".to_string()));
}

#[test]
fn second_of_many_messages_is_named() {
    let mut m = Vec::new();
    for _ in 0..11 {
        m.push(msg("user", s("ok")));
    }
    m.push(msg("user", Json::Array(vec![Json::Null, Json::Null])));
    let (_, p) = refusal(m);
    assert_eq!(p, Some("messages.11.content.0".to_string()));
}

#[test]
fn extract_renders_prompt_and_attachments() {
    let m = vec![
        msg("system", s("rules")),
        msg("user", s("first")),
        msg("assistant", s("reply")),
        msg(
            "user",
            Json::Array(vec![
                obj(vec![("type", s("text")), ("text", s("look"))]),
                obj(vec![("type", s("text")), ("text", s("  "))]),
                obj(vec![("type", s("text")), ("text", s("here"))]),
                obj(vec![("type", s("image_url")), ("image_url", obj(vec![("url", s("http://img"))]))]),
                obj(vec![("type", s("image_url")), ("image_url", s("http://img2"))]),
                obj(vec![("type", s("input_audio")), ("input_audio", obj(vec![("data", s("AUD"))]))]),
                obj(vec![("type", s("file")), ("file", obj(vec![("url", s("http://f"))]))]),
                obj(vec![("type", s("other"))]),
            ]),
        ),
        obj(vec![("content", s("no role"))]),
        msg("", s("empty role")),
    ];
    let (prompt, attachments) = MessageExtractor::extract(&m, false).unwrap();
    assert_eq!(
        prompt,
        "system: rules\n\nuser: first\n\nassistant: reply\n\nuser: look\nhere\n\nno role\n\nuser: empty role"
    );
    assert_eq!(
        attachments,
        vec![
            ("image".to_string(), "http://img".to_string()),
            ("image".to_string(), "http://img2".to_string()),
            ("audio".to_string(), "AUD".to_string()),
            ("file".to_string(), "http://f".to_string()),
        ]
    );
}

#[test]
fn extract_for_video_refuses_audio_and_files() {
    let audio = vec![msg("user", Json::Array(vec![obj(vec![("type", s("input_audio"))])]))];
    let e = MessageExtractor::extract(&audio, true).unwrap_err();
    assert_eq!(e.kind, ErrorKind::InvalidRequest);
    assert_eq!(e.message, "视频模型不支持 input_audio 类型");
    let file = vec![msg("user", Json::Array(vec![obj(vec![("type", s("file"))])]))];
    assert_eq!(
        MessageExtractor::extract(&file, true).unwrap_err().message,
        "视频模型不支持 file 类型"
    );
    let image = vec![msg(
        "user",
        Json::Array(vec![obj(vec![("type", s("image_url")), ("image_url", obj(vec![("url", s("u"))]))])]),
    )];
    let (_, a) = MessageExtractor::extract(&image, true).unwrap();
    assert_eq!(a, vec![("image".to_string(), "u".to_string())]);
}

#[test]
fn headers_carry_session_cookie() {
    let h = ChatRequestBuilder::build_headers_with_id("sso=abc", "sig", "rid", "");
    assert_eq!(h.len(), 23);
    assert_eq!(h[0], ("Accept".to_string(), "*/*".to_string()));
    assert_eq!(h[20], ("x-statsig-id".to_string(), "sig".to_string()));
    assert_eq!(h[21], ("x-xai-request-id".to_string(), "rid".to_string()));
    assert_eq!(h[22], ("Cookie".to_string(), "sso=abc".to_string()));
    let h = ChatRequestBuilder::build_headers_with_id("abc", "sig", "rid", "cf1");
    assert_eq!(h[22].1, "sso=abc;cf_clearance=cf1");
    let h = ChatRequestBuilder::build_headers("tok", "sig", "");
    let id = &h[21].1;
    assert_eq!(id.len(), 36);
    assert_ne!(id, "tok");
    assert_eq!(id.matches('-').count(), 4);
    let b = id.as_bytes();
    assert_eq!(b[14], b'4');
    assert!(matches!(b[19], b'8' | b'9' | b'a' | b'b'));
}

#[test]
fn payload_names_model_and_attachments() {
    let p = ChatRequestBuilder::build_payload(
        "hello",
        "grok-4",
        "MODEL_MODE_AUTO",
        Some(true),
        true,
        &vec!["f1".to_string()],
        &vec![],
    );
    let Json::Object(fields) = &p else { panic!("not an object") };
    assert_eq!(fields.len(), 24);
    let get = |k: &str| fields.iter().find(|(n, _)| n == k).map(|(_, v)| v).unwrap();
    assert_eq!(get("temporary"), &Json::Bool(true));
    assert_eq!(get("modelName"), &s("grok-4"));
    assert_eq!(get("modelMode"), &s("MODEL_MODE_AUTO"));
    assert_eq!(get("message"), &s("hello"));
    assert_eq!(get("fileAttachments"), &Json::Array(vec![s("f1")]));
    assert_eq!(get("imageAttachments"), &Json::Array(vec![]));
    assert_eq!(get("imageGenerationCount"), &Json::Int(2));
    assert_eq!(
        get("responseMetadata"),
        &obj(vec![
            ("modelConfigOverride", obj(vec![("modelMap", obj(vec![]))])),
            ("requestModelDetails", obj(vec![("modelId", s("grok-4"))])),
        ])
    );
}

#[test]
fn status_check_and_uploads() {
    assert!(GrokChatService::check_status(200, "x", "y").is_ok());
    let e = GrokChatService::check_status(403, "text/html", "denied").unwrap_err();
    assert_eq!(e.kind, ErrorKind::Upstream);
    assert_eq!(
        e.message,
        "Grok API request failed: 403; content-type: text/html; body: denied"
    );
    let uploaded = vec![
        ("image".to_string(), "i1".to_string()),
        ("file".to_string(), "f1".to_string()),
        ("audio".to_string(), "a1".to_string()),
        ("image".to_string(), "i2".to_string()),
    ];
    let (files, images) = GrokChatService::sort_uploads(&uploaded);
    assert_eq!(files, vec!["f1".to_string(), "a1".to_string()]);
    assert_eq!(images, vec!["i1".to_string(), "i2".to_string()]);
}

#[test]
fn thinking_switch_and_settings() {
    assert_eq!(ChatService::think_from_thinking(Some("enabled")), Some(true));
    assert_eq!(ChatService::think_from_thinking(Some("disabled")), Some(false));
    assert_eq!(ChatService::think_from_thinking(Some("auto")), None);
    assert_eq!(ChatService::think_from_thinking(None), None);
    let r = ChatService::chat_request("grok-3", vec![], Some(false), Some("enabled"));
    assert_eq!(r.model, "grok-3");
    assert_eq!(r.think, Some(true));
    assert_eq!(GrokChatService::conversation_settings(&r, true, false), (false, Some(true)));
    let r = ChatService::chat_request("grok-3", vec![], None, None);
    assert_eq!(GrokChatService::conversation_settings(&r, true, false), (true, Some(false)));
}

#[test]
fn effort_and_video_settings() {
    assert_eq!(effort_for_cost(Cost::High), EffortType::High);
    assert_eq!(effort_for_cost(Cost::Low), EffortType::Low);
    assert_eq!(
        VideoConfig::resolve(None),
        ("3:2".to_string(), 6, "SD".to_string(), "custom".to_string())
    );
    let c = VideoConfig {
        aspect_ratio: Some("16:9".to_string()),
        video_length: None,
        resolution: Some("HD".to_string()),
        preset: None,
    };
    assert_eq!(
        VideoConfig::resolve(Some(c)),
        ("16:9".to_string(), 6, "HD".to_string(), "custom".to_string())
    );
}

#[test]
fn sso_prefix_is_optional_in_cookie() {
    for cf in ["", "clear"] {
        let with = ChatRequestBuilder::build_headers_with_id("sso=tok", "s", "r", cf);
        let without = ChatRequestBuilder::build_headers_with_id("tok", "s", "r", cf);
        assert_eq!(with, without);
    }
}
