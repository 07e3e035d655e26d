use grok2api::error::ErrorKind;
use grok2api::json::Json;
use grok2api::model_source::{
    extract_markdown_code, model_list_json, model_source_result, parse_model_ids_from_readme,
};

#[test]
fn parses_models_from_model_support_tables_only() {
    let readme = r#"
## 模型支持

### Chat

| 模型名 | mode | tier |
| :-- | :-- | :-- |
| `grok-a` | `fast` | `basic` |
| `grok-a` | `fast` | `basic` |

### Image

| 模型名 | mode | tier |
| :-- | :-- | :-- |
| `grok-b` | `auto` | `super` |

## API 一览

| 接口 | 是否鉴权 | 说明 |
| :-- | :-- | :-- |
| `GET /v1/models` | 是 | 列出当前启用模型 |
"#;

    assert_eq!(
        parse_model_ids_from_readme(readme),
        vec!["grok-a".to_string(), "grok-b".to_string()]
    );
}

#[test]
fn readme_without_model_section_lists_nothing() {
    let readme = "# Title\n\n| `grok-x` | a |\n## Other\n| `grok-y` | b |\n";
    assert!(parse_model_ids_from_readme(readme).is_empty());
}

#[test]
fn readme_rows_outside_tables_and_without_code_are_skipped() {
    let readme = "## 模型支持\ntext `grok-z` outside a table\n| plain | x |\n|   ``   | y |\n|| `grok-c` || z |\r\n  | ` grok-d ` |\n";
    assert_eq!(
        parse_model_ids_from_readme(readme),
        vec!["grok-c".to_string(), "grok-d".to_string()]
    );
}

#[test]
fn readme_section_ends_at_next_heading() {
    let readme = "## 模型支持\n| `a` |\n### Sub\n| `b` |\n## Next\n| `c` |\n## 模型支持\n| `d` |\n";
    assert_eq!(
        parse_model_ids_from_readme(readme),
        vec!["a".to_string(), "b".to_string()]
    );
}

#[test]
fn markdown_code_takes_first_span_trimmed() {
    assert_eq!(extract_markdown_code("x `  abc ` `def`"), Some("abc".to_string()));
    assert_eq!(extract_markdown_code("no code"), None);
    assert_eq!(extract_markdown_code("one ` tick"), None);
    assert_eq!(extract_markdown_code("`   `"), None);
    assert_eq!(extract_markdown_code("`模型`"), Some("模型".to_string()));
}

#[test]
fn model_list_has_one_entry_per_id() {
    let ids = vec!["grok-a".to_string(), "grok-b".to_string()];
    let expected = Json::Object(vec![
        ("object".to_string(), Json::Str("list".to_string())),
        (
            "data".to_string(),
            Json::Array(
                ids.iter()
                    .map(|id| {
                        Json::Object(vec![
                            ("id".to_string(), Json::Str(id.clone())),
                            ("object".to_string(), Json::Str("model".to_string())),
                            ("created".to_string(), Json::Int(0)),
                            ("owned_by".to_string(), Json::Str("grok2api".to_string())),
                        ])
                    })
                    .collect(),
            ),
        ),
    ]);
    assert_eq!(model_list_json(&ids), expected);
}

#[test]
fn model_source_failure_names_status_and_preview() {
    let e = model_source_result(false, 503, "oops", "").unwrap_err();
    assert_eq!(e.kind, ErrorKind::Upstream);
    assert_eq!(e.message, "Fetch model source failed: 503; body: oops");
    assert_eq!(e.param, None);
}

#[test]
fn model_source_without_models_is_an_error() {
    let e = model_source_result(true, 200, "", "# nothing").unwrap_err();
    assert_eq!(e.kind, ErrorKind::Upstream);
    assert_eq!(e.message, "No models parsed from model source README");
}

#[test]
fn model_source_success_lists_ids() {
    let ids = model_source_result(true, 200, "", "## 模型支持\n| `m1` |\n| `m2` |\n| `m1` |\n").unwrap();
    assert_eq!(ids, vec!["m1".to_string(), "m2".to_string()]);
}

#[test]
fn later_heading_after_section_hides_the_rest() {
    let a = "intro\n## 模型支持\n| `m1` |";
    let h = "  ## Pricing ";
    let b = "| `m2` |\n## 模型支持\n| `m3` |";
    let whole = format!("{a}\n{h}\n{b}");
    assert_eq!(parse_model_ids_from_readme(&whole), parse_model_ids_from_readme(a));
    assert_eq!(parse_model_ids_from_readme(a), vec!["m1".to_string()]);
}
