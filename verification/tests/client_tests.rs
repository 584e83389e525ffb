use notebooklm_api::json::{json_at, parse_json, JsonValue};
use notebooklm_api::payloads::{build_generate_audio_params, build_generate_report_params};
use notebooklm_api::responses::{
    csv_row, extract_nested_string, parse_data_table, parse_generation_result,
    parse_share_status, select_completed_artifact, select_mind_map_item,
};
use notebooklm_api::format::extract_app_data_from_html;
use notebooklm_api::transport::{is_retryable_http_status, map_http_error};
use notebooklm_api::{
    AudioFormat, AudioGenerationOptions, AudioLength, Notebook, NotebookLmError, ReportFormat,
    ReportGenerationOptions, ShareAccess, SharePermission,
};

fn json(text: &str) -> JsonValue {
    parse_json(text).expect("test document is JSON")
}

fn first_str(v: &JsonValue) -> Option<&str> {
    v.as_array()
        .and_then(|a| a.first())
        .and_then(|x| x.as_str())
        .map(|s| s.as_str())
}

#[test]
fn extracts_nested_string_by_path() {
    let data = json(r#"[[null, [null, [null, "en"]]]]"#);
    let extracted = extract_nested_string(&data, &[0, 1, 1, 1]);
    assert_eq!(extracted.as_deref(), Some("en"));
}

#[test]
fn parses_share_status_with_users() {
    let data = json(
        r#"[
            [
                ["a@example.com", 3, [], ["Alice", "https://avatar.example/a.png"]],
                ["b@example.com", 2, [], ["Bob", null]]
            ],
            [true],
            1000
        ]"#,
    );

    let status = parse_share_status(&data, "nb123", None);
    assert!(status.is_public);
    assert!(matches!(status.access, ShareAccess::AnyoneWithLink));
    assert_eq!(status.shared_users.len(), 2);
    assert_eq!(status.shared_users[0].email, "a@example.com");
    assert!(matches!(
        status.shared_users[0].permission,
        SharePermission::Viewer
    ));
    assert_eq!(
        status.shared_users[0].display_name.as_deref(),
        Some("Alice")
    );
}

#[test]
fn escapes_csv_rows() {
    let row = vec![
        "plain".to_string(),
        "has,comma".to_string(),
        "has\"quote".to_string(),
        "has\nnewline".to_string(),
    ];
    let csv = csv_row(&row);
    assert_eq!(csv, "plain,\"has,comma\",\"has\"\"quote\",\"has\nnewline\"");
}

#[test]
fn parses_data_table_structure() {
    let raw = json(
        r#"[[[[[
            null,
            null,
            null,
            null,
            [
                null,
                null,
                [[0, 1, ["Col A", "Col B"]], [1, 2, ["V1", "V2"]]]
            ]
        ]]]]]"#,
    );

    let (headers, rows) = parse_data_table(&raw).expect("should parse table");
    assert_eq!(headers, vec!["Col A".to_string(), "Col B".to_string()]);
    assert_eq!(rows.len(), 1);
    assert_eq!(rows[0], vec!["V1".to_string(), "V2".to_string()]);
}

#[test]
fn extracts_app_data_from_html_attribute() {
    let html = r#"<div data-app-data="{&quot;quiz&quot;:[{&quot;question&quot;:&quot;Q1&quot;}]}"></div>"#;
    let app_data = extract_app_data_from_html(html).expect("extract app data");
    let question = app_data
        .get_key("quiz")
        .and_then(|q| q.get(0))
        .and_then(|q| q.get_key("question"))
        .and_then(|q| q.as_str())
        .map(|s| s.as_str());
    assert_eq!(
        question,
        Some("Q1"),
        "question should parse from HTML-encoded JSON"
    );
}

#[test]
fn selects_latest_completed_artifact_when_no_id() {
    let artifacts = vec![
        json(r#"["a1", "Old", 1, null, 3, null, null, null, null, null, null, null, null, null, null, [10]]"#),
        json(r#"["a2", "New", 1, null, 3, null, null, null, null, null, null, null, null, null, null, [20]]"#),
        json(r#"["a3", "Pending", 1, null, 2, null, null, null, null, null, null, null, null, null, null, [30]]"#),
    ];

    let selected = select_completed_artifact(&artifacts, 1, None).expect("selected artifact");
    assert_eq!(first_str(selected), Some("a2"));
}

#[test]
fn parses_generation_result_task_id_and_status() {
    let input = json(r#"[["task-1", "Title", 1, null, 3]]"#);
    let status = parse_generation_result(&input);
    assert_eq!(status.task_id, "task-1");
    assert_eq!(status.status, "completed");
    assert!(!status.is_failed());
}

#[test]
fn maps_auth_error_status() {
    let err = map_http_error(
        "test_method",
        reqwest::StatusCode::UNAUTHORIZED.as_u16(),
        "unauthorized",
        None,
    );
    match err {
        NotebookLmError::Auth(msg) => assert!(msg.contains("test_method")),
        other => panic!("unexpected error variant: {other:?}"),
    }
}

#[test]
fn maps_rate_limit_error_status() {
    let err = map_http_error(
        "test_method",
        reqwest::StatusCode::TOO_MANY_REQUESTS.as_u16(),
        "too many requests",
        Some("120"),
    );
    match err {
        NotebookLmError::RateLimit {
            retry_after: Some(120),
            ..
        } => {}
        other => panic!("unexpected error variant: {other:?}"),
    }
}

#[test]
fn maps_server_error_status() {
    let err = map_http_error(
        "test_method",
        reqwest::StatusCode::BAD_GATEWAY.as_u16(),
        "bad gateway",
        None,
    );
    match err {
        NotebookLmError::Server { status: 502, .. } => {}
        other => panic!("unexpected error variant: {other:?}"),
    }
}

#[test]
fn retryable_status_detection() {
    assert!(is_retryable_http_status(
        reqwest::StatusCode::TOO_MANY_REQUESTS.as_u16()
    ));
    assert!(is_retryable_http_status(reqwest::StatusCode::BAD_GATEWAY.as_u16()));
    assert!(!is_retryable_http_status(reqwest::StatusCode::BAD_REQUEST.as_u16()));
}

#[test]
fn builds_audio_payload_with_typed_options() {
    let options = AudioGenerationOptions {
        source_ids: None,
        language: "en".to_string(),
        instructions: Some("focus on chapter 3".to_string()),
        format: Some(AudioFormat::Debate),
        length: Some(AudioLength::Long),
    };
    let payload =
        build_generate_audio_params("nb_1", &["s1".to_string(), "s2".to_string()], &options);
    assert_eq!(json_at(&payload, &[2, 2]).and_then(|v| v.as_i64()), Some(1));
    assert_eq!(
        json_at(&payload, &[2, 6, 1, 1]).and_then(|v| v.as_i64()),
        Some(3)
    );
    assert_eq!(
        json_at(&payload, &[2, 6, 1, 6]).and_then(|v| v.as_i64()),
        Some(4)
    );
}

#[test]
fn builds_report_payload_for_study_guide() {
    let options = ReportGenerationOptions {
        source_ids: None,
        language: "en".to_string(),
        format: ReportFormat::StudyGuide,
        custom_prompt: None,
    };
    let payload = build_generate_report_params("nb_1", &["s1".to_string()], &options);
    assert_eq!(json_at(&payload, &[2, 2]).and_then(|v| v.as_i64()), Some(2));
    assert_eq!(
        json_at(&payload, &[2, 7, 1, 0])
            .and_then(|v| v.as_str())
            .map(|s| s.as_str()),
        Some("Study Guide")
    );
}

#[test]
fn parse_data_table_returns_decode_shape_for_bad_shape() {
    let value = json(r#"{"not":"table"}"#);
    let err = parse_data_table(&value).expect_err("expected error");
    match err {
        NotebookLmError::DecodeShape { .. } => {}
        other => panic!("unexpected error variant: {other:?}"),
    }
}

#[test]
fn selects_latest_mind_map_by_default() {
    let items = vec![
        json(r#"["m1", ["m1", "{\"name\":\"One\"}", [10], null, "One"]]"#),
        json(r#"["m2", ["m2", "{\"name\":\"Two\"}", [20], null, "Two"]]"#),
    ];
    let selected = select_mind_map_item(&items, None).expect("selected");
    assert_eq!(first_str(selected), Some("m2"));
}

#[test]
fn selects_mind_map_by_id() {
    let items = vec![
        json(r#"["m1", ["m1", "{\"name\":\"One\"}", [10], null, "One"]]"#),
        json(r#"["m2", ["m2", "{\"name\":\"Two\"}", [20], null, "Two"]]"#),
    ];
    let selected = select_mind_map_item(&items, Some("m1")).expect("selected");
    assert_eq!(first_str(selected), Some("m1"));
}

#[test]
fn decodes_minimal_wrb_response() {
    let response = ")]}'\n57\n[[\"wrb.fr\",\"wXbhsf\",\"[[[]]]\",null,null,null,\"generic\"]]";
    let decoded = notebooklm_api::rpc::decode_response(response, "wXbhsf", false)
        .expect("decode should work");
    assert_eq!(decoded, json("[[[]]]"));
}

#[test]
fn parses_fixture_share_status() {
    let value = json(
        r#"[
            [["a@example.com", 2, [], ["Alice", null]]],
            [true],
            1000
        ]"#,
    );
    let status = parse_share_status(&value, "nb_fixture", None);
    assert!(status.is_public);
    assert_eq!(status.shared_users.len(), 1);
    assert_eq!(status.shared_users[0].email, "a@example.com");
}

#[test]
fn parses_fixture_data_table() {
    let value = json(
        r#"[[[[[null, null, null, null,
            [null, null, [[0, 1, ["Col A", "Col B"]], [1, 2, ["V1", "V2"]]]]
        ]]]]]"#,
    );
    let (headers, rows) = parse_data_table(&value).expect("parse fixture data table");
    assert_eq!(headers, vec!["Col A".to_string(), "Col B".to_string()]);
    assert_eq!(rows[0], vec!["V1".to_string(), "V2".to_string()]);
}

#[test]
fn parses_fixture_notebook_list_shape() {
    let value = json(
        r#"[[
            ["My Notebook", [], "nb_123", null, null, [null, false, null, null, null, [1700000000]]]
        ]]"#,
    );
    let first = json_at(&value, &[0, 0]).expect("first notebook");
    let parsed = Notebook::from_api_response(first);
    assert_eq!(parsed.id, "nb_123");
    assert_eq!(parsed.title, "My Notebook");
}
