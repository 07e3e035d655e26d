use grok2api::error::{check_endpoint_enabled, ApiError, ErrorKind};
use grok2api::json::Json;
use grok2api::text::{
    body_preview, chars_of, str_eq, decimal_string, is_blank_str, is_ws_char, join_strings, split_chars, trim_chars,
};

#[test]
fn white_space_matches_std() {
    for u in 0u32..0x11000 {
        if let Some(c) = char::from_u32(u) {
            assert_eq!(is_ws_char(c), c.is_whitespace(), "char {u:#x}");
        }
    }
}

#[test]
fn trim_matches_std() {
    for s in ["", "  a b  ", "\u{3000}x\u{2028}", "\t\n", "abc", " \u{85}中 "] {
        let t: String = trim_chars(&chars_of(s)).into_iter().collect();
        assert_eq!(t, s.trim());
        assert_eq!(is_blank_str(s), s.trim().is_empty());
    }
}

#[test]
fn split_matches_std() {
    for s in ["", "a", "a\nb", "\n", "a\n\nb\n"] {
        let parts: Vec<String> = split_chars(&chars_of(s), '\n')
            .into_iter()
            .map(|v| v.into_iter().collect())
            .collect();
        let expected: Vec<String> = s.split('\n').map(|x| x.to_string()).collect();
        assert_eq!(parts, expected);
    }
}

#[test]
fn join_and_decimal() {
    let parts = vec!["a".to_string(), "b".to_string(), "c".to_string()];
    assert_eq!(join_strings(&parts, ", "), "a, b, c");
    assert_eq!(join_strings(&Vec::new(), ", "), "");
    assert_eq!(decimal_string(0), "0");
    assert_eq!(decimal_string(7), "7");
    assert_eq!(decimal_string(120), "120");
    assert_eq!(decimal_string(65535), "65535");
}

#[test]
fn str_eq_compares_characters() {
    assert!(str_eq("abc", "abc"));
    assert!(str_eq("", ""));
    assert!(!str_eq("abc", "abd"));
    assert!(!str_eq("ab", "abc"));
}

#[test]
fn body_preview_keeps_the_first_characters() {
    assert_eq!(body_preview("héllo world", 4), "héll");
    assert_eq!(body_preview("short", 220), "short");
    assert_eq!(body_preview("abc", 0), "");
    assert_eq!(body_preview("", 3), "");
}

#[test]
fn disabled_endpoint_is_not_found() {
    assert!(check_endpoint_enabled(true).is_ok());
    let e = check_endpoint_enabled(false).unwrap_err();
    assert_eq!(e.kind, ErrorKind::NotFound);
    assert_eq!(e.message, "Endpoint disabled");
    assert_eq!(e.param, None);
}

#[test]
fn error_answer_status_and_body() {
    let e = ApiError::invalid_request("bad".to_string()).with_param("messages".to_string());
    assert_eq!(e.status(), 400);
    let inner = Json::Object(vec![
        ("message".to_string(), Json::Str("bad".to_string())),
        ("type".to_string(), Json::Str("invalid_request_error".to_string())),
        ("param".to_string(), Json::Str("messages".to_string())),
    ]);
    assert_eq!(e.body(), Json::Object(vec![("error".to_string(), inner)]));
    let e = check_endpoint_enabled(false).unwrap_err();
    assert_eq!(e.status(), 404);
    let Json::Object(f) = e.body() else { panic!() };
    let Json::Object(g) = &f[0].1 else { panic!() };
    assert_eq!(g[1].1, Json::Str("not_found_error".to_string()));
    assert_eq!(g[2].1, Json::Null);
    assert_eq!(ApiError::upstream("x".to_string()).status(), 502);
}
