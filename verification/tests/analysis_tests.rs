use daily_logger::analysis::{
    build_analysis_request_body, effective_prompt, endpoint_of, handle_analysis_response,
    render_analysis, strip_code_fence, ScreenAnalysis,
};
use daily_logger::errors::CaptureError;

// ── Fence stripping ──

#[test]
fn strip_code_fence_handles_json_fence() {
    let wrapped = "```json\n{\"a\":1}\n```";
    assert_eq!(strip_code_fence(wrapped), "{\"a\":1}");
}

#[test]
fn strip_code_fence_handles_plain_fence() {
    let wrapped = "```\n{\"a\":1}\n```";
    assert_eq!(strip_code_fence(wrapped), "{\"a\":1}");
}

#[test]
fn strip_code_fence_leaves_bare_json_unchanged() {
    let bare = "{\"a\":1}";
    assert_eq!(strip_code_fence(bare), bare);
}

// ── Reply handling ──

#[test]
fn malformed_reply_surfaces_raw_text() {
    let body = "{\"choices\":[{\"message\":{\"content\":\"not json\"}}]}".to_string();
    match handle_analysis_response(200, body) {
        Err(CaptureError::MalformedResponseError { raw }) => assert_eq!(raw, "not json"),
        other => panic!("expected MalformedResponseError, got {:?}", other),
    }
}

#[test]
fn fenced_reply_parses_to_analysis() {
    let body = "{\"choices\":[{\"message\":{\"content\":\"```json\\n{\\\"current_focus\\\":\\\"coding\\\",\\\"active_software\\\":\\\"editor\\\",\\\"context_keywords\\\":[\\\"a\\\",\\\"b\\\"]}\\n```\"}}]}".to_string();
    match handle_analysis_response(200, body) {
        Ok(a) => {
            assert_eq!(a.current_focus, "coding");
            assert_eq!(a.active_software, "editor");
            assert_eq!(a.context_keywords, vec!["a".to_string(), "b".to_string()]);
        }
        other => panic!("expected parsed analysis, got {:?}", other),
    }
}

#[test]
fn reply_without_content_field_is_malformed() {
    let body = "{\"choices\":[]}".to_string();
    match handle_analysis_response(200, body.clone()) {
        Err(CaptureError::MalformedResponseError { raw }) => assert_eq!(raw, body),
        other => panic!("expected MalformedResponseError, got {:?}", other),
    }
}

#[test]
fn service_error_keeps_status_and_body() {
    match handle_analysis_response(500, "boom".to_string()) {
        Err(CaptureError::ServiceError { status, body }) => {
            assert_eq!(status, 500);
            assert_eq!(body, "boom");
        }
        other => panic!("expected ServiceError, got {:?}", other),
    }
}

#[test]
fn unsupported_modality_detected() {
    let body = "unknown variant `image_url`, expected `text`".to_string();
    match handle_analysis_response(400, body.clone()) {
        Err(CaptureError::UnsupportedModalityError { status, body: b }) => {
            assert_eq!(status, 400);
            assert_eq!(b, body);
        }
        other => panic!("expected UnsupportedModalityError, got {:?}", other),
    }
}

// ── Request building ──

#[test]
fn request_body_has_exact_shape() {
    let body = build_analysis_request_body("gpt-4o", "hi \"there\"\n", "AAAA");
    assert_eq!(
        body,
        "{\"model\":\"gpt-4o\",\"messages\":[{\"role\":\"user\",\"content\":[{\"type\":\"text\",\"text\":\"hi \\\"there\\\"\\n\"},{\"type\":\"image_url\",\"image_url\":{\"url\":\"data:image/png;base64,AAAA\"}}]}],\"max_tokens\":500}"
    );
}

#[test]
fn request_body_is_valid_json() {
    let body = build_analysis_request_body("m", "prompt with \t tab and \u{1} control", "Zm9v");
    let v: serde_json::Value = serde_json::from_str(&body).unwrap();
    assert_eq!(v["model"].as_str().unwrap(), "m");
    assert_eq!(
        v["messages"][0]["content"][0]["text"].as_str().unwrap(),
        "prompt with \t tab and \u{1} control"
    );
    assert_eq!(
        v["messages"][0]["content"][1]["image_url"]["url"].as_str().unwrap(),
        "data:image/png;base64,Zm9v"
    );
    assert_eq!(v["max_tokens"].as_u64().unwrap(), 500);
}

#[test]
fn endpoint_appends_chat_completions() {
    assert_eq!(
        endpoint_of("https://api.openai.com/v1"),
        "https://api.openai.com/v1/chat/completions"
    );
}

#[test]
fn prompt_falls_back_to_default() {
    let default = effective_prompt(&None);
    assert!(default.starts_with("Analyze this screenshot"));
    assert_eq!(effective_prompt(&Some(String::new())), default);
    assert_eq!(effective_prompt(&Some("look".to_string())), "look");
}

// ── Record content rendering ──

#[test]
fn rendered_analysis_is_exact_json() {
    let analysis = ScreenAnalysis {
        current_focus: "writing \"docs\"".to_string(),
        active_software: "editor".to_string(),
        context_keywords: vec!["a".to_string(), "b".to_string()],
    };
    let content = render_analysis(&analysis);
    assert_eq!(
        content,
        "{\"active_software\":\"editor\",\"context_keywords\":[\"a\",\"b\"],\"current_focus\":\"writing \\\"docs\\\"\"}"
    );
    let v: serde_json::Value = serde_json::from_str(&content).unwrap();
    assert_eq!(v["current_focus"].as_str().unwrap(), "writing \"docs\"");
    assert_eq!(v["context_keywords"][1].as_str().unwrap(), "b");
}

#[test]
fn rendered_analysis_empty_keywords() {
    let analysis = ScreenAnalysis {
        current_focus: "f".to_string(),
        active_software: "s".to_string(),
        context_keywords: vec![],
    };
    assert_eq!(
        render_analysis(&analysis),
        "{\"active_software\":\"s\",\"context_keywords\":[],\"current_focus\":\"f\"}"
    );
}
