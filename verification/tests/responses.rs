use grok2api::error::ErrorKind;
use grok2api::json::Json;
use grok2api::responses::{
    build_messages, normalize_message, response_from_collected, response_from_text,
    response_from_text_with_ids, sse_data, sse_payloads, ResponseStream, ResponsesRequest,
};

fn s(x: &str) -> Json {
    Json::Str(x.to_string())
}

fn obj(fields: Vec<(&str, Json)>) -> Json {
    Json::Object(fields.into_iter().map(|(k, v)| (k.to_string(), v)).collect())
}

fn field<'a>(j: &'a Json, k: &str) -> &'a Json {
    let Json::Object(fields) = j else { panic!("not an object") };
    fields.iter().find(|(n, _)| n == k).map(|(_, v)| v).unwrap()
}

fn req(input: Option<Json>, messages: Option<Vec<Json>>) -> ResponsesRequest {
    ResponsesRequest {
        model: "grok-4".to_string(),
        input,
        messages,
        stream: None,
        thinking: None,
        video_config: None,
    }
}

#[test]
fn normalize_rewrites_input_blocks() {
    let m = obj(vec![
        ("role", s("user")),
        (
            "content",
            Json::Array(vec![
                obj(vec![("type", s("input_text")), ("text", s("hi"))]),
                obj(vec![("type", s("input_image")), ("image_url", obj(vec![("url", s("u1"))]))]),
                obj(vec![("type", s("input_image")), ("url", s("u2"))]),
                obj(vec![("type", s("input_image"))]),
                obj(vec![("type", s("text")), ("text", s("kept"))]),
            ]),
        ),
    ]);
    let n = normalize_message(&m);
    let expected = obj(vec![
        ("role", s("user")),
        (
            "content",
            Json::Array(vec![
                obj(vec![("type", s("text")), ("text", s("hi"))]),
                obj(vec![("type", s("image_url")), ("image_url", obj(vec![("url", s("u1"))]))]),
                obj(vec![("type", s("image_url")), ("image_url", obj(vec![("url", s("u2"))]))]),
                obj(vec![("type", s("input_image"))]),
                obj(vec![("type", s("text")), ("text", s("kept"))]),
            ]),
        ),
    ]);
    assert_eq!(n, expected);
    assert_eq!(normalize_message(&n), n);
    let plain = obj(vec![("role", s("user")), ("content", s("text"))]);
    assert_eq!(normalize_message(&plain), plain);
}

#[test]
fn build_messages_from_each_input_form() {
    let user = |t: &str| obj(vec![("role", s("user")), ("content", s(t))]);
    let m = build_messages(&req(Some(s("hello")), None)).unwrap();
    assert_eq!(m, vec![user("hello")]);
    let m = build_messages(&req(Some(Json::Array(vec![s("a"), s("b")])), Some(vec![]))).unwrap();
    assert_eq!(m, vec![user("a"), user("b")]);
    let one = obj(vec![("role", s("system")), ("content", s("x"))]);
    let m = build_messages(&req(Some(one.clone_json()), None)).unwrap();
    assert_eq!(m, vec![one.clone_json()]);
    let m = build_messages(&req(Some(Json::Array(vec![one.clone_json()])), None)).unwrap();
    assert_eq!(m, vec![one.clone_json()]);
    let m = build_messages(&req(Some(s("ignored")), Some(vec![one.clone_json()]))).unwrap();
    assert_eq!(m, vec![one]);
}

#[test]
fn build_messages_refusals() {
    let e = build_messages(&req(Some(s("  ")), None)).unwrap_err();
    assert_eq!(e.kind, ErrorKind::InvalidRequest);
    assert_eq!(e.message, "input cannot be empty");
    assert_eq!(e.param, None);
    let e = build_messages(&req(Some(Json::Array(vec![])), None)).unwrap_err();
    assert_eq!(e.message, "input cannot be empty");
    let e = build_messages(&req(None, None)).unwrap_err();
    assert_eq!(e.message, "input is required");
    let e = build_messages(&req(Some(Json::Array(vec![s("a"), Json::Int(1)])), None)).unwrap_err();
    assert_eq!(e.message, "input is required");
    let e = build_messages(&req(Some(Json::Int(3)), None)).unwrap_err();
    assert_eq!(e.message, "input is required");
}

#[test]
fn text_response_shape_and_usage() {
    let usage = obj(vec![("prompt_tokens", Json::Int(3)), ("completion_tokens", Json::Int(4))]);
    let r = response_from_text_with_ids("grok-4", 100, "answer", Some(&usage), "resp-1", "msg-1");
    assert_eq!(field(&r, "id"), &s("resp-1"));
    assert_eq!(field(&r, "object"), &s("response"));
    assert_eq!(field(&r, "created"), &Json::Int(100));
    assert_eq!(field(&r, "created_at"), &Json::Int(100));
    assert_eq!(field(&r, "status"), &s("completed"));
    assert_eq!(field(&r, "output_text"), &s("answer"));
    assert_eq!(
        field(&r, "usage"),
        &obj(vec![
            ("input_tokens", Json::Int(3)),
            ("output_tokens", Json::Int(4)),
            ("total_tokens", Json::Int(7)),
        ])
    );
    let Json::Array(output) = field(&r, "output") else { panic!() };
    assert_eq!(field(&output[0], "id"), &s("msg-1"));
    assert_eq!(field(&output[0], "role"), &s("assistant"));
    let usage = obj(vec![("total_tokens", Json::Int(9))]);
    let r = response_from_text_with_ids("m", 0, "", Some(&usage), "r", "m");
    assert_eq!(field(field(&r, "usage"), "total_tokens"), &Json::Int(9));
    assert_eq!(field(field(&r, "usage"), "input_tokens"), &Json::Int(0));
}

#[test]
fn fresh_ids_are_prefixed_uuids() {
    let r = response_from_text("grok-4", 5, "x", None);
    let Json::Str(id) = field(&r, "id") else { panic!() };
    assert!(id.starts_with("resp-"));
    assert_eq!(id.len(), 5 + 32);
    assert_eq!(id.as_bytes()[5 + 12], b'4');
    assert!(matches!(id.as_bytes()[5 + 16], b'8' | b'9' | b'a' | b'b'));
    let Json::Array(out) = field(&r, "output") else { panic!() };
    let Json::Str(mid) = field(&out[0], "id") else { panic!() };
    assert!(mid.starts_with("msg-"));
    assert_eq!(mid.len(), 4 + 32);
    assert_eq!(mid.as_bytes()[4 + 12], b'4');
    let r2 = response_from_text("grok-4", 5, "x", None);
    assert_ne!(field(&r2, "id"), field(&r, "id"));
}

#[test]
fn collected_result_becomes_a_response() {
    let result = obj(vec![
        (
            "choices",
            Json::Array(vec![obj(vec![("message", obj(vec![("content", s("done text"))]))])]),
        ),
        ("created", Json::Int(42)),
        ("usage", obj(vec![("prompt_tokens", Json::Int(1)), ("completion_tokens", Json::Int(2)), ("total_tokens", Json::Int(3))])),
    ]);
    let r = response_from_collected("grok-4", &result);
    assert_eq!(field(&r, "output_text"), &s("done text"));
    assert_eq!(field(&r, "created"), &Json::Int(42));
    assert_eq!(field(field(&r, "usage"), "total_tokens"), &Json::Int(3));
    let r = response_from_collected("grok-4", &obj(vec![]));
    assert_eq!(field(&r, "output_text"), &s(""));
    let Json::Int(t) = field(&r, "created") else { panic!() };
    assert!(*t > 1_600_000_000);
}

#[test]
fn stream_accumulates_deltas() {
    let mut st = ResponseStream::with_ids("grok-4", "resp-a", "msg-a", 7);
    let created = st.created_event();
    assert_eq!(field(&created, "type"), &s("response.created"));
    assert_eq!(field(field(&created, "response"), "status"), &s("in_progress"));
    let chunk = |t: &str| {
        obj(vec![(
            "choices",
            Json::Array(vec![obj(vec![("delta", obj(vec![("content", s(t))]))])]),
        )])
    };
    let e = st.on_chunk(&chunk("Hel")).unwrap();
    assert_eq!(field(&e, "delta"), &s("Hel"));
    assert_eq!(field(&e, "response_id"), &s("resp-a"));
    assert!(st.on_chunk(&obj(vec![("choices", Json::Array(vec![]))])).is_none());
    st.on_chunk(&chunk("lo")).unwrap();
    assert_eq!(st.full_text, "Hello");
    assert_eq!(field(&st.done_event(), "text"), &s("Hello"));
    let done = st.completed_event();
    assert_eq!(field(field(&done, "response"), "status"), &s("completed"));
}

#[test]
fn sse_payloads_skip_other_lines_and_done() {
    let chunk = "data: {\"a\":1}\n: comment\n  data: data: x  \ndata: [DONE]\nevent: y\ndata:  \n";
    assert_eq!(
        sse_payloads(chunk),
        vec!["{\"a\":1}".to_string(), "x".to_string()]
    );
    assert_eq!(sse_data("{}"), "data: {}\n\n");
}

#[test]
fn stream_reads_delta_payloads_from_raw_text() {
    let mut st = ResponseStream::with_ids("grok-4", "resp-a", "msg-a", 7);
    let chunk = [
        "data: {\"choices\":[{\"delta\":{\"content\":\"Hel\"}}]}\n",
        "data: not json\n",
        ": keep-alive\n",
        "data: {\"choices\":[{\"delta\":{}}]}\n",
        "data: {\"choices\":[{\"delta\":{\"content\":\"lo\"}}]}\n",
        "data: [DONE]\n",
    ]
    .join("");
    let chunk = chunk.as_str();
    let events = st.on_text(chunk);
    assert_eq!(events.len(), 2);
    assert_eq!(field(&events[0], "type"), &s("response.output_text.delta"));
    assert_eq!(field(&events[0], "delta"), &s("Hel"));
    assert_eq!(field(&events[1], "delta"), &s("lo"));
    assert_eq!(field(&events[1], "response_id"), &s("resp-a"));
    assert_eq!(st.full_text, "Hello");
    assert_eq!(st.response_id, "resp-a");
    assert!(st.on_text("").is_empty());
    assert_eq!(st.full_text, "Hello");
}

#[test]
fn stream_payload_step() {
    let mut st = ResponseStream::with_ids("m", "resp-b", "msg-b", 1);
    let e = st.on_payload("{\"choices\":[{\"delta\":{\"content\":\"x\"}}]}").unwrap();
    assert_eq!(field(&e, "delta"), &s("x"));
    assert!(st.on_payload("{oops").is_none());
    assert!(st.on_payload("{\"choices\":[]}").is_none());
    assert_eq!(st.full_text, "x");
}
