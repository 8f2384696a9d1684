use serde_json::Value;
use vrcs_core::llm_gemini::{
    extract_models, generate_url, list_models_from, model_id, parse_response, process_sse_line,
    quote_json, request_body, response_error, status_error, thinking_for, LlmRequest, SseStream,
    Thinking,
};

fn json(text: &str) -> Value {
    serde_json::from_str(text).unwrap()
}

fn request(model: &str, input: &str, thinking_enabled: bool) -> LlmRequest {
    LlmRequest {
        model: model.into(),
        instructions: "Translate".into(),
        input: input.into(),
        max_output_tokens: 256,
        thinking_enabled,
    }
}

#[test]
fn gemini_thinking_and_output_budgets_follow_model_capabilities() {
    for (model, thinking, expected_config, reserve) in [
        ("gemini-2.5-flash", false, r#"{"thinkingBudget":0}"#, 0),
        ("gemini-2.5-flash", true, r#"{"thinkingBudget":1024}"#, 1024),
        ("gemini-2.5-pro", false, r#"{"thinkingBudget":128}"#, 128),
        ("models/gemini-3.7-flash", false, r#"{"thinkingLevel":"low"}"#, 4096),
    ] {
        let body = json(&request_body(&request(model, "Hello", thinking)));
        assert_eq!(body["generationConfig"]["thinkingConfig"], json(expected_config));
        assert!(
            body["generationConfig"]["maxOutputTokens"]
                .as_u64()
                .unwrap()
                >= 256 + reserve
        );
    }
}

#[test]
fn maps_request_to_native_gemini_shape() {
    let body = json(&request_body(&request("gemini-2.5-flash", "こんにちは", false)));
    assert_eq!(body["systemInstruction"]["parts"][0]["text"], "Translate");
    assert_eq!(body["contents"][0]["parts"][0]["text"], "こんにちは");
    assert_eq!(body["generationConfig"]["maxOutputTokens"], 512);
}

#[test]
fn extracts_text_and_generate_models() {
    let response = r#"{
        "candidates": [{ "finishReason": "STOP", "content": { "parts": [
            { "text": "private reasoning", "thought": true },
            { "text": "hello" }
        ] } }]
    }"#;
    assert_eq!(parse_response(response).unwrap(), "hello");

    let models = extract_models(
        r#"{ "models": [
        { "name": "models/gemini-2.5-flash", "supportedGenerationMethods": ["generateContent"] },
        { "name": "models/embedding-001", "supportedGenerationMethods": ["embedContent"] }
    ] }"#,
    );
    assert_eq!(models, ["gemini-2.5-flash"]);
}

#[test]
fn json_responses_preserve_failure_reasons_and_do_not_merge_candidates() {
    for reason in ["MAX_TOKENS", "SAFETY", "RECITATION"] {
        let response = format!(
            r#"{{"candidates":[{{"finishReason":"{reason}","content":{{"parts":[{{"text":"partial"}}]}}}}]}}"#
        );
        let error = parse_response(&response).unwrap_err();
        assert_eq!(error.code, "llm.request_failed");
        assert!(error.detail.contains(reason));
        assert!(!error.retryable);
    }
    let empty = parse_response(r#"{"candidates":[{"finishReason":"STOP"}]}"#).unwrap_err();
    assert!(empty.detail.contains("without text"));
    assert!(empty.retryable);
    let response = r#"{"candidates":[
        {"index":1,"finishReason":"MAX_TOKENS","content":{"parts":[{"text":"alternative"}]}},
        {"index":0,"finishReason":"STOP","content":{"parts":[{"text":" translation "}]}}
    ]}"#;
    assert_eq!(parse_response(response).unwrap(), "translation");
}

#[test]
fn appends_stream_chunks() {
    let mut output = String::new();
    let mut event_data = String::new();
    let mut snapshots: Vec<String> = Vec::new();
    for line in [
        &br#"data: {"candidates":[{"content":{"parts":[{"text":"hel"}]}}]}"#[..],
        b"\n",
        &br#"data: {"candidates":[{"content":{"parts":[{"text":" lo"}]}}]}"#[..],
        b"\n",
    ] {
        let (_, progressed) = process_sse_line(line, &mut event_data, &mut output).unwrap();
        if progressed {
            snapshots.push(output.clone());
        }
    }
    assert_eq!(output, "hel lo");
    assert_eq!(snapshots, ["hel", "hel lo"]);
}

fn read_stream(chunks: Vec<Vec<u8>>) -> (Vec<String>, Result<String, vrcs_core::llm_gemini::LlmError>) {
    let mut stream = SseStream::new();
    let mut shown = Vec::new();
    for chunk in chunks {
        let (progress, result) = stream.feed(&chunk);
        shown.extend(progress);
        if let Err(error) = result {
            return (shown, Err(error));
        }
    }
    let (progress, result) = stream.end();
    shown.extend(progress);
    (shown, result)
}

#[test]
fn rejects_unsuccessful_or_unfinished_gemini_streams() {
    for (event, reason, retryable) in [
        (r#"{"candidates":[{"finishReason":"MAX_TOKENS"}]}"#, "MAX_TOKENS", false),
        (r#"{"promptFeedback":{"blockReason":"SAFETY"}}"#, "SAFETY", false),
        (
            r#"{"error":{"code":503,"message":"Temporarily unavailable"}}"#,
            "Temporarily unavailable",
            true,
        ),
        (r#"{"usageMetadata":{"totalTokenCount":12}}"#, "completion", true),
    ] {
        let partial =
            "data: {\"candidates\":[{\"content\":{\"parts\":[{\"text\":\"partial\"}]}}]}\n\n";
        let (_, result) = read_stream(vec![format!("{partial}data: {event}\n\n").into_bytes()]);
        let error = result.unwrap_err();
        assert!(error.detail.contains(reason), "{error:?}");
        assert_eq!(error.retryable, retryable);
    }
}

#[test]
fn accepts_complete_gemini_sse_events_across_byte_boundaries() {
    let stream = [
        ": heartbeat\r\n\r\n",
        "data: {\"candidates\":[{\"content\":\n",
        "data: {\"parts\":[{\"text\":\"你好\"}]}}]}\n\n",
        "data: {\"candidates\":[{\"finishReason\":\"STOP\"}]}\n\n",
        "data: {\"usageMetadata\":{\"totalTokenCount\":12}}\n\n",
    ]
    .concat();
    let chunks = stream.as_bytes().iter().map(|byte| vec![*byte]).collect();
    let (shown, result) = read_stream(chunks);
    assert_eq!(result.unwrap(), "你好");
    assert_eq!(shown, ["你好"]);
}

#[test]
fn invalid_stream_bytes_and_json_are_refused() {
    let mut output = String::new();
    let mut event_data = String::new();
    let error = process_sse_line(&[0xff, b'\n'], &mut event_data, &mut output).unwrap_err();
    assert_eq!(error.code, "llm.invalid_response");
    process_sse_line(b"data: {not json", &mut event_data, &mut output).unwrap();
    let error = process_sse_line(b"\r\n", &mut event_data, &mut output).unwrap_err();
    assert_eq!(error.code, "llm.invalid_response");
    assert!(!error.retryable);
}

#[test]
fn non_json_http_errors_preserve_status_and_retryability() {
    for (status, display, code, retryable) in [
        (503, "503 Service Unavailable", "llm.provider_unavailable", true),
        (429, "429 Too Many Requests", "llm.rate_limited", true),
        (403, "403 Forbidden", "llm.authentication_failed", false),
    ] {
        let error = response_error(status, display, "<html>upstream error</html>");
        assert_eq!(error.code, code);
        assert_eq!(error.retryable, retryable);
        assert!(error.detail.contains(&status.to_string()));
    }
    let error = response_error(404, "404 Not Found", r#"{"error":{"message":"no model"}}"#);
    assert_eq!((error.code, error.detail.as_str()), ("llm.model_not_found", "no model"));
    assert_eq!(status_error(418, "{}").code, "llm.request_failed");
    assert_eq!(status_error(408, "{}").detail, "Gemini request failed");
}

#[test]
fn model_ids_are_trimmed_and_validated() {
    assert_eq!(model_id(" models/gemini-2.5-flash ").unwrap(), "gemini-2.5-flash");
    assert_eq!(model_id("gemini_x.1").unwrap(), "gemini_x.1");
    for bad in ["", "models/", "gemini 2", "gémini", &"a".repeat(201)] {
        let error = model_id(bad).unwrap_err();
        assert_eq!(error.code, "llm.invalid_profile");
        assert_eq!(error.detail, "Gemini model ID is invalid");
    }
    assert_eq!(
        generate_url("gemini-2.5-pro", true).unwrap(),
        "https://generativelanguage.googleapis.com/v1beta/models/gemini-2.5-pro:streamGenerateContent?alt=sse"
    );
    assert_eq!(
        generate_url("models/gemini-2.5-pro", false).unwrap(),
        "https://generativelanguage.googleapis.com/v1beta/models/gemini-2.5-pro:generateContent"
    );
}

#[test]
fn thinking_follows_the_model_family() {
    assert_eq!(thinking_for("models/models/gemini-2.5-pro-x", true), (Thinking::Budget(2048), 2048));
    assert_eq!(thinking_for("gemini-3-pro", true), (Thinking::Level(true), 8192));
    assert_eq!(thinking_for("gemini-3.1-flash-image", true), (Thinking::Unset, 0));
    assert_eq!(thinking_for("gpt-4o", false), (Thinking::Unset, 0));
    let body = json(&request_body(&LlmRequest {
        model: "other".into(),
        instructions: "a\"b\\c\n\u{1}".into(),
        input: "x".into(),
        max_output_tokens: u32::MAX,
        thinking_enabled: false,
    }));
    assert_eq!(body["systemInstruction"]["parts"][0]["text"], "a\"b\\c\n\u{1}");
    assert_eq!(body["generationConfig"]["maxOutputTokens"], u32::MAX);
    assert!(body["generationConfig"].get("thinkingConfig").is_none());
    assert_eq!(quote_json("\u{1f}é"), "\"\\u001fé\"");
}

#[test]
fn listings_sort_case_insensitively_and_drop_repeats() {
    let listing = r#"{"models":[
        {"name":"models/b-model","supportedGenerationMethods":["generateContent"]},
        {"name":"models/A-model","supportedGenerationMethods":["countTokens","generateContent"]},
        {"name":"b-model","supportedGenerationMethods":["generateContent"]},
        {"name":"models/  ","supportedGenerationMethods":["generateContent"]},
        {"supportedGenerationMethods":["generateContent"]}
    ]}"#;
    assert_eq!(list_models_from(listing).unwrap(), ["A-model", "b-model"]);
    let error = list_models_from(r#"{"models":[]}"#).unwrap_err();
    assert_eq!(error.code, "llm.invalid_response");
}
