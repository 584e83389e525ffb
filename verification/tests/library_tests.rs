use notebooklm_api::api::{
    add_url_call, add_user_call, find_source, get_settings_call, history_call,
    list_notebooks_call, parse_added_source, parse_fulltext, parse_notebook, parse_notebook_list,
    parse_output_language, parse_renamed_source, parse_source_list, remove_user_call,
    set_language_call, set_public_call, set_view_level_call, update_user_call, with_view_level,
};
use notebooklm_api::artifacts::{
    copy_artifact, create_note_call, data_table_csv, download_failure_text, export_call,
    filter_mind_map_items, find_artifact, interactive_file, save_mind_map, interactive_html, list_artifacts,
    media_url, mind_map_file, needs_mind_maps, parse_artifact_list, parse_created_note_id,
    read_generated_mind_map, report_markdown, select_interactive, status_from_artifacts,
    MediaKind,
};
use notebooklm_api::auth::{cookies_from_entries, extract_tokens, is_allowed_auth_domain};
use notebooklm_api::chat::{
    extract_answer_from_chunk, extract_chat_answer, finish_ask, history_json, prepare_ask,
    ConversationCache,
};
use notebooklm_api::format::{
    format_flashcards_markdown, format_quiz_markdown, html_unescape_basic,
};
use notebooklm_api::json::{json_at, parse_json, JsonValue};
use notebooklm_api::output::{
    artifact_line, notebook_line, session_prefix, source_line, sources_from_args,
};
use notebooklm_api::research::{
    import_call, parse_imported, parse_poll_result, parse_start_result, poll_call, start_call,
};
use notebooklm_api::rpc::{
    build_query_body, build_query_url, build_rpc_url, next_request_number, RpcMethod,
    REQUEST_NUMBER_START,
};
use notebooklm_api::transport::{
    backoff_delay_ms, http_status_error, is_auth_status, map_transport_error, parse_retry_after,
    status_text, Attempt, Endpoint, Next, RetryLoop, TransportFailure,
};
use notebooklm_api::responses::csv_row;
use notebooklm_api::types::artifact_status_to_str;
use notebooklm_api::{
    Artifact, AuthTokens, InteractiveOutputFormat, MindMapOutputFormat, NotebookLmError,
    ResearchMode, ResearchSource, ResearchSourceType, RetryPolicy, SharePermission,
    ShareViewLevel, Source,
};

fn json(text: &str) -> JsonValue {
    parse_json(text).expect("test document is JSON")
}

fn text_at<'a>(v: &'a JsonValue, path: &[usize]) -> Option<&'a str> {
    json_at(v, path).and_then(|x| x.as_str()).map(|s| s.as_str())
}

fn int_at(v: &JsonValue, path: &[usize]) -> Option<i64> {
    json_at(v, path).and_then(|x| x.as_i64())
}

fn answer_chunk(text: &str, marker: i64) -> String {
    let inner = format!("[[\"{text}\",null,null,null,[1,2,{marker}]]]");
    let escaped = inner.replace('"', "\\\"");
    format!("[[\"wrb.fr\",null,\"{escaped}\"]]")
}

fn answered(status: u16, retry_after: Option<u64>, body: &str) -> Attempt {
    Attempt::Answered { status, retry_after, body: body.to_string() }
}

// ---- Chat ----

#[test]
fn chat_answer_is_longest_marked_answer() {
    let short = answer_chunk("A first answer long enough", 1);
    let long = answer_chunk("A much longer answer that should win the comparison", 1);
    let thought = answer_chunk("A thought that is even longer than both answers above here", 2);
    let response = format!(")]}}'\n\n{}\n{}\n{}\n{}\n", short.len(), short, long, thought);
    let answer = extract_chat_answer(&response);
    assert_eq!(answer, "A much longer answer that should win the comparison");
}

#[test]
fn chat_answer_skips_short_and_non_json_lines() {
    let tiny = answer_chunk("too short", 1);
    let response = format!("not json at all\n{tiny}\n42\n");
    assert_eq!(extract_chat_answer(&response), "");
    assert_eq!(extract_answer_from_chunk("not json"), None);
    assert_eq!(extract_answer_from_chunk("[\"not an array item\"]"), None);
}

#[test]
fn chat_answer_ties_keep_the_first() {
    let a = answer_chunk("First answer of equal length!", 1);
    let b = answer_chunk("Other answer of equal length!", 1);
    let response = format!("{a}\n{b}\n");
    assert_eq!(extract_chat_answer(&response), "First answer of equal length!");
}

#[test]
fn conversation_cache_numbers_turns_and_forgets() {
    let mut cache = ConversationCache::new();
    cache.record_turn("c1", "q1", "a1");
    cache.record_turn("c2", "x", "y");
    cache.record_turn("c1", "q2", "a2");
    let turns = cache.turns("c1");
    assert_eq!(turns.len(), 2);
    assert_eq!(turns[0].turn_number, 1);
    assert_eq!(turns[1].turn_number, 2);
    assert_eq!(turns[1].query, "q2");
    assert_eq!(turns[1].answer, "a2");
    assert_eq!(cache.turns("c2").len(), 1);
    assert!(cache.clear(Some("c1")));
    assert!(cache.turns("c1").is_empty());
    assert!(!cache.clear(Some("c1")));
    assert_eq!(cache.turns("c2").len(), 1);
    assert!(cache.clear(None));
    assert!(cache.turns("c2").is_empty());
}

#[test]
fn follow_up_question_carries_history() {
    let mut cache = ConversationCache::new();
    cache.record_turn("conv", "first question", "first answer");
    let request = prepare_ask(&cache, &["s1".to_string()], "next?", Some("conv"));
    assert!(request.is_follow_up);
    assert_eq!(request.conversation_id, "conv");
    let p = &request.params;
    assert_eq!(text_at(p, &[0, 0, 0, 0]), Some("s1"));
    assert_eq!(text_at(p, &[1]), Some("next?"));
    assert_eq!(text_at(p, &[2, 0, 0]), Some("first answer"));
    assert_eq!(int_at(p, &[2, 0, 2]), Some(2));
    assert_eq!(text_at(p, &[2, 1, 0]), Some("first question"));
    assert_eq!(int_at(p, &[2, 1, 2]), Some(1));
    assert_eq!(int_at(p, &[3, 0]), Some(2));
    assert_eq!(text_at(p, &[4]), Some("conv"));
}

#[test]
fn new_question_gets_fresh_conversation() {
    let cache = ConversationCache::new();
    let request = prepare_ask(&cache, &[], "hello", None);
    assert!(!request.is_follow_up);
    assert_eq!(request.conversation_id.len(), 36);
    assert_eq!(request.conversation_id.chars().nth(8), Some('-'));
    assert_eq!(request.conversation_id.chars().nth(14), Some('4'));
    assert!(matches!(request.conversation_id.chars().nth(19), Some('8' | '9' | 'a' | 'b')));
    assert_eq!(json_at(&request.params, &[2]), Some(&JsonValue::Null));
    assert_eq!(history_json(&Vec::new()), JsonValue::Null);
}

#[test]
fn finishing_a_question_records_the_answer() {
    let mut cache = ConversationCache::new();
    let request = prepare_ask(&cache, &[], "why?", Some("c9"));
    let raw = format!("{}\n", answer_chunk("Because the sources say so, clearly.", 1));
    let result = finish_ask(&mut cache, &request, "why?", &raw);
    assert_eq!(result.answer, "Because the sources say so, clearly.");
    assert_eq!(result.turn_number, 1);
    assert!(result.is_follow_up);
    assert_eq!(result.raw_response, raw);
    let empty = finish_ask(&mut cache, &request, "again?", "nothing here");
    assert_eq!(empty.answer, "");
    assert_eq!(empty.turn_number, 1);
    let long_raw = "x".repeat(1500);
    let cut = finish_ask(&mut cache, &request, "q", &long_raw);
    assert_eq!(cut.raw_response.len(), 1000);
}

// ---- Research ----

#[test]
fn research_poll_reads_first_task() {
    let result = json(
        r#"[[["task1", [null, ["my query"], null,
            [[["http://u", "T1"], [null, "Only title"], ["", ""], "junk"], "Summary text"], 2]]]]"#,
    );
    let polled = parse_poll_result(&result);
    assert_eq!(polled.task_id.as_deref(), Some("task1"));
    assert_eq!(polled.status, "completed");
    assert_eq!(polled.query, "my query");
    assert_eq!(polled.summary, "Summary text");
    assert_eq!(polled.sources.len(), 2);
    assert_eq!(polled.sources[0].url, "http://u");
    assert_eq!(polled.sources[1].url, "");
    assert_eq!(polled.sources[1].title, "Only title");
}

#[test]
fn research_poll_without_tasks() {
    let polled = parse_poll_result(&json("null"));
    assert_eq!(polled.status, "no_research");
    assert!(polled.task_id.is_none());
    let pending = parse_poll_result(&json(r#"[["t", [null, ["q"]]]]"#));
    assert_eq!(pending.status, "in_progress");
    assert_eq!(pending.query, "q");
    let call = poll_call("nb");
    assert_eq!(call.source_path, "/notebook/nb");
    assert_eq!(text_at(&call.params, &[2]), Some("nb"));
}

#[test]
fn research_start_calls_and_results() {
    let fast = start_call("nb", "cats", ResearchSourceType::Web, ResearchMode::Fast).unwrap();
    assert!(matches!(fast.method, RpcMethod::StartFastResearch));
    assert_eq!(fast.params, json(r#"[["cats", 1], null, 1, "nb"]"#));
    let deep = start_call("nb", "cats", ResearchSourceType::Web, ResearchMode::Deep).unwrap();
    assert_eq!(deep.params, json(r#"[null, [1], ["cats", 1], 5, "nb"]"#));
    match start_call("nb", "cats", ResearchSourceType::Drive, ResearchMode::Deep) {
        Err(NotebookLmError::Config(m)) => assert_eq!(m, "deep research only supports web source"),
        other => panic!("unexpected: {:?}", other.map(|c| c.params)),
    }
    let started = parse_start_result(&json(r#"["task-9", "rep-1"]"#), "nb", "cats", ResearchMode::Deep)
        .expect("started");
    assert_eq!(started.task_id, "task-9");
    assert_eq!(started.report_id.as_deref(), Some("rep-1"));
    assert_eq!(started.mode, "deep");
    assert!(parse_start_result(&json(r#"[""]"#), "nb", "q", ResearchMode::Fast).is_none());
    assert!(parse_start_result(&json("[]"), "nb", "q", ResearchMode::Fast).is_none());
}

#[test]
fn research_import_keeps_sources_with_url() {
    let sources = vec![
        ResearchSource { url: String::new(), title: "no url".to_string() },
        ResearchSource { url: "http://x".to_string(), title: String::new() },
    ];
    let call = import_call("nb", "task", &sources).expect("one source to import");
    assert_eq!(text_at(&call.params, &[2]), Some("task"));
    assert_eq!(text_at(&call.params, &[4, 0, 2, 0]), Some("http://x"));
    assert_eq!(text_at(&call.params, &[4, 0, 2, 1]), Some("Untitled"));
    assert_eq!(int_at(&call.params, &[4, 0, 10]), Some(2));
    assert!(json_at(&call.params, &[4, 1]).is_none());
    assert!(import_call("nb", "task", &sources[..1]).is_none());
    let imported = parse_imported(&json(r#"[[[["id1"], "Title 1"], [[""], "no id"], "junk"]]"#));
    assert_eq!(imported.len(), 1);
    assert_eq!(imported[0].id, "id1");
    assert_eq!(imported[0].title, "Title 1");
}

// ---- Transport ----

#[test]
fn retry_loop_waits_then_refreshes_once() {
    let policy = RetryPolicy { max_retries: 2, base_delay_ms: 1, max_delay_ms: 10, jitter_ms: 0 };
    let ep = Endpoint::Rpc(RpcMethod::ListNotebooks);
    let mut lp = RetryLoop::new(&policy);
    assert!(matches!(lp.step(ep, answered(503, Some(3), "busy")), Next::Wait { attempt: 0, retry_after: Some(3) }));
    assert!(matches!(lp.step(ep, answered(401, None, "no")), Next::RefreshAuth));
    match lp.step(ep, answered(403, None, "no")) {
        Next::Failed(NotebookLmError::StaleAuth(m)) => {
            assert_eq!(m, "wXbhsf: authentication failed after token refresh")
        }
        _ => panic!("expected a stale session"),
    }
}

#[test]
fn retry_loop_gives_up_after_the_last_attempt() {
    let policy = RetryPolicy { max_retries: 1, base_delay_ms: 1, max_delay_ms: 10, jitter_ms: 0 };
    let mut lp = RetryLoop::new(&policy);
    assert!(matches!(lp.step(Endpoint::Query, answered(500, None, "oops")), Next::Wait { .. }));
    match lp.step(Endpoint::Query, answered(500, None, "oops")) {
        Next::Failed(NotebookLmError::Server { status: 500, message }) => {
            assert_eq!(message, "query: http status 500 Internal Server Error: oops")
        }
        _ => panic!("expected a server error"),
    }
    let mut lp = RetryLoop::new(&policy);
    assert!(matches!(lp.step(Endpoint::Download, answered(401, None, "")), Next::RefreshAuth));
    assert!(matches!(
        lp.step(Endpoint::Download, answered(429, None, "")),
        Next::Failed(NotebookLmError::RateLimit { .. })
    ));
    let mut lp = RetryLoop::new(&RetryPolicy { max_retries: 0, ..policy });
    assert!(matches!(lp.step(Endpoint::Download, answered(401, None, "")), Next::RefreshAuth));
    match lp.step(Endpoint::Download, answered(200, None, "file")) {
        Next::Succeeded(b) => assert_eq!(b, "file"),
        _ => panic!("the request after the reload goes out"),
    }
}

#[test]
fn retry_loop_transport_failures() {
    let policy = RetryPolicy::default();
    let mut lp = RetryLoop::new(&policy);
    let t = TransportFailure { timeout: true, connect: false, request: false, message: "slow".to_string() };
    assert!(matches!(lp.step(Endpoint::Query, Attempt::Transport(t)), Next::Wait { attempt: 0, retry_after: None }));
    let t = TransportFailure { timeout: false, connect: false, request: false, message: "tls".to_string() };
    match lp.step(Endpoint::Query, Attempt::Transport(t)) {
        Next::Failed(NotebookLmError::Network { operation, message }) => {
            assert_eq!(operation, "query");
            assert_eq!(message, "tls");
        }
        _ => panic!("expected a network error"),
    }
    match lp.step(Endpoint::Query, answered(200, None, "body")) {
        Next::Succeeded(b) => assert_eq!(b, "body"),
        _ => panic!("expected success"),
    }
    let timeout = TransportFailure { timeout: true, connect: false, request: false, message: "t".to_string() };
    assert!(matches!(map_transport_error("op", &timeout), NotebookLmError::Timeout { .. }));
}

#[test]
fn backoff_delays() {
    let policy = RetryPolicy::default();
    assert_eq!(backoff_delay_ms(&policy, 0, None, 0), 250);
    assert_eq!(backoff_delay_ms(&policy, 3, None, 1000), 2000 + 1000 % 201);
    assert_eq!(backoff_delay_ms(&policy, 10, None, 0), 5000);
    assert_eq!(backoff_delay_ms(&policy, 40, None, 0), 5000);
    assert_eq!(backoff_delay_ms(&policy, 0, Some(7), 0), 7000);
    let no_jitter = RetryPolicy { jitter_ms: 0, ..policy };
    assert_eq!(backoff_delay_ms(&no_jitter, 1, None, 999_999), 500);
    let huge = RetryPolicy { base_delay_ms: u64::MAX, max_delay_ms: u64::MAX, ..no_jitter };
    assert_eq!(backoff_delay_ms(&huge, 5, Some(u64::MAX), 0), u64::MAX);
}

#[test]
fn http_errors_carry_status_text() {
    assert_eq!(status_text(404), "404 Not Found");
    assert_eq!(status_text(299), "299 <unknown status code>");
    match http_status_error("m", 404, "nf", None) {
        NotebookLmError::Client { status: 404, message } => {
            assert_eq!(message, "m: http status 404 Not Found: nf")
        }
        other => panic!("unexpected: {other:?}"),
    }
    match http_status_error("m", 302, "moved", None) {
        NotebookLmError::Rpc { method_id, message, code } => {
            assert_eq!(method_id, "m");
            assert_eq!(message, "http status 302 Found: moved");
            assert_eq!(code, Some(302));
        }
        other => panic!("unexpected: {other:?}"),
    }
    assert!(is_auth_status(403));
    assert!(!is_auth_status(404));
    assert_eq!(parse_retry_after(Some("+15")), Some(15));
    assert_eq!(parse_retry_after(Some("soon")), None);
    assert_eq!(parse_retry_after(Some("18446744073709551616")), None);
    assert_eq!(parse_retry_after(None), None);
}

#[test]
fn urls_and_query_body() {
    let auth = AuthTokens {
        cookies: vec![("SID".to_string(), "v".to_string())],
        csrf_token: "tok/en".to_string(),
        session_id: "S1".to_string(),
    };
    let url = build_rpc_url(&auth, RpcMethod::ListNotebooks, "/notebook/x y").unwrap();
    assert_eq!(
        url,
        "https://notebooklm.google.com/_/LabsTailwindUi/data/batchexecute?rpcids=wXbhsf&source-path=%2Fnotebook%2Fx+y&f.sid=S1&rt=c"
    );
    let q = build_query_url(&auth, "200000").unwrap();
    assert!(q.ends_with("?bl=boq_labs-tailwind-frontend_20251221.14_p0&hl=en&_reqid=200000&rt=c&f.sid=S1"));
    let body = build_query_body(&json("[1]"), "tok/en");
    assert_eq!(body, "f.req=%5Bnull%2C%22%5B1%5D%22%5D&at=tok%2Fen&");
    assert_eq!(auth.cookie_header(), "SID=v");
}

// ---- Notebooks, sources, settings, sharing ----

#[test]
fn notebook_calls_and_answers() {
    let call = list_notebooks_call();
    assert_eq!(call.params, json("[null, 1, null, [2]]"));
    assert_eq!(call.source_path, "/");
    assert!(!call.allow_null);
    let listed = parse_notebook_list(&json(
        r#"[[["thought\n  My NB ", null, "nb1", null, null, [null, true, null, null, null, [1700]]]]]"#,
    ));
    assert_eq!(listed.len(), 1);
    assert_eq!(listed[0].id, "nb1");
    assert_eq!(listed[0].title, "My NB");
    assert!(!listed[0].is_owner);
    assert_eq!(listed[0].created_at_unix, Some(1700));
    assert!(parse_notebook_list(&json("{}")).is_empty());
    let nb = parse_notebook(&json(r#"[["T", null, "id9"]]"#));
    assert_eq!(nb.id, "id9");
    assert_eq!(parse_notebook(&json("[]")).id, "");
    assert_eq!(notebook_line(&nb), "id9\tT");
}

#[test]
fn source_calls_and_answers() {
    let yt = add_url_call("nb", "https://youtu.be/abc");
    assert!(yt.allow_null);
    assert_eq!(text_at(&yt.params, &[0, 0, 7, 0]), Some("https://youtu.be/abc"));
    assert_eq!(int_at(&yt.params, &[0, 0, 10]), Some(1));
    assert_eq!(int_at(&yt.params, &[3, 10, 0]), Some(1));
    let web = add_url_call("nb", "https://example.com");
    assert!(!web.allow_null);
    assert_eq!(text_at(&web.params, &[0, 0, 2, 0]), Some("https://example.com"));
    assert!(json_at(&web.params, &[0, 0, 8]).is_none());
    match parse_added_source(&json("null")) {
        Err(NotebookLmError::RpcDecode(m)) => {
            assert_eq!(m, "failed to parse source from add_url response")
        }
        other => panic!("unexpected: {:?}", other.map(|s| s.id)),
    }
    let renamed = parse_renamed_source(&json("null"), "s1", "New");
    assert_eq!(renamed.id, "s1");
    assert_eq!(renamed.title.as_deref(), Some("New"));
    assert_eq!(renamed.status, 2);
    let src = Source { id: "s1".to_string(), title: None, url: None, type_code: None, created_at_unix: None, status: -2 };
    assert_eq!(source_line(&src), "s1\t\t-2");
    let found = find_source(vec![src], "s1");
    assert!(found.is_some());
    assert!(parse_source_list(&json("[]")).is_empty());
}

#[test]
fn fulltext_joins_texts_and_counts_bytes() {
    let result = json(
        r#"[[null, "Title", [null, null, null, null, 5, null, null, ["http://src"]]], null, null,
            [[["héllo", ["", ["wörld"]]], 7]]]"#,
    );
    let ft = parse_fulltext(&result, "s1");
    assert_eq!(ft.title, "Title");
    assert_eq!(ft.type_code, Some(5));
    assert_eq!(ft.url.as_deref(), Some("http://src"));
    assert_eq!(ft.content, "héllo\nwörld");
    assert_eq!(ft.char_count, "héllo\nwörld".len());
}

#[test]
fn settings_calls() {
    let call = get_settings_call();
    assert_eq!(int_at(&call.params, &[1, 0]), Some(1));
    assert_eq!(int_at(&call.params, &[1, 10, 0]), Some(1));
    match set_language_call("") {
        Err(NotebookLmError::Config(m)) => assert_eq!(m, "language cannot be empty"),
        _ => panic!("empty language must be refused"),
    }
    let set = set_language_call("fr").unwrap();
    assert_eq!(text_at(&set.params, &[0, 0, 1, 0, 4, 0]), Some("fr"));
    assert_eq!(parse_output_language(&json(r#"[[null, null, [null, null, null, null, ["de"]]]]"#)).as_deref(), Some("de"));
    let history = history_call("nb", 20);
    assert_eq!(int_at(&history.params, &[3]), Some(20));
}

#[test]
fn sharing_calls() {
    let public = set_public_call("nb", true);
    assert_eq!(int_at(&public.params, &[0, 0, 2, 0]), Some(1));
    assert_eq!(text_at(&public.params, &[0, 0, 3, 1]), Some(""));
    let level = set_view_level_call("nb", ShareViewLevel::ChatOnly);
    assert_eq!(int_at(&level.params, &[1, 0, 8, 0, 0]), Some(1));
    match add_user_call("nb", "a@b", SharePermission::Owner, true, "") {
        Err(NotebookLmError::Config(m)) => assert_eq!(m, "cannot assign owner permission"),
        _ => panic!("owner must be refused"),
    }
    match add_user_call("nb", "a@b", SharePermission::Remove, true, "") {
        Err(NotebookLmError::Config(m)) => assert_eq!(m, "use remove_user for remove operation"),
        _ => panic!("remove must be refused"),
    }
    let add = add_user_call("nb", "a@b", SharePermission::Editor, true, "hi").unwrap();
    assert_eq!(int_at(&add.params, &[0, 0, 1, 0, 2]), Some(2));
    assert_eq!(int_at(&add.params, &[0, 0, 3, 0]), Some(0));
    assert_eq!(int_at(&add.params, &[1]), Some(1));
    let update = update_user_call("nb", "a@b", SharePermission::Viewer).unwrap();
    assert_eq!(int_at(&update.params, &[0, 0, 3, 0]), Some(1));
    assert_eq!(int_at(&update.params, &[1]), Some(0));
    let remove = remove_user_call("nb", "a@b");
    assert_eq!(int_at(&remove.params, &[0, 0, 1, 0, 2]), Some(4));
    let status = notebooklm_api::responses::parse_share_status(&json("[[], [false]]"), "nb", None);
    let changed = with_view_level(status, ShareViewLevel::ChatOnly);
    assert!(matches!(changed.view_level, ShareViewLevel::ChatOnly));
    assert!(changed.share_url.is_none());
}

// ---- Artifacts ----

fn artifact_entry(id: &str, kind: i64, status: i64, created: i64) -> String {
    format!(r#"["{id}", "T {id}", {kind}, null, {status}, null, null, null, null, null, null, null, null, null, null, [{created}]]"#)
}

#[test]
fn artifact_listing_and_status() {
    let raw = vec![json(&artifact_entry("a1", 1, 3, 5)), json(&artifact_entry("a2", 2, 1, 6)), json("7")];
    let mind = vec![json(r#"["m1", ["m1", "{\"nodes\":[]}", [null, null, [9]], null, "Map"]]"#)];
    let all = list_artifacts(&raw, &mind, None);
    assert_eq!(all.len(), 3);
    assert_eq!(all[2].id, "m1");
    assert_eq!(all[2].artifact_type, 5);
    let audio = list_artifacts(&raw, &mind, Some(notebooklm_api::ArtifactKind::Audio));
    assert_eq!(audio.len(), 1);
    assert!(needs_mind_maps(None));
    assert!(!needs_mind_maps(Some(notebooklm_api::ArtifactKind::Report)));
    assert!(find_artifact(&all, "a2").is_some());
    assert_eq!(artifact_line(&all[0]), "a1\tT a1\tcompleted");
    assert_eq!(status_from_artifacts(&raw, "a2").status, "in_progress");
    assert_eq!(status_from_artifacts(&raw, "zz").status, "pending");
    let listed = parse_artifact_list(&json(r#"[[["x"]], 1]"#));
    assert_eq!(listed, vec![json(r#"["x"]"#)]);
}

#[test]
fn mind_map_notes_are_filtered() {
    let notes = json(
        r#"[[
            ["n1", "{\"children\": []}"],
            ["n2", [null, "{\"nodes\": []}"]],
            ["n3", "plain note"],
            ["n4", null, 2],
            "junk"
        ]]"#,
    );
    let kept = filter_mind_map_items(&notes);
    assert_eq!(kept.len(), 2);
    assert_eq!(text_at(&kept[0], &[0]), Some("n1"));
    assert_eq!(text_at(&kept[1], &[0]), Some("n2"));
}

#[test]
fn downloads_read_listings() {
    let mut audio = artifact_entry("a1", 1, 3, 5);
    audio = audio.replacen(
        "null, null, null, null, null, null, null, null, null, null, [5]",
        r#"null, [null, null, null, null, null, [["http://a.mp3", null, "audio/mpeg"], ["http://a.mp4", null, "audio/mp4"]]], null, null, null, null, null, null, null, null, [5]"#,
        1,
    );
    let raw = vec![json(&audio)];
    assert_eq!(media_url(&raw, MediaKind::Audio, None).unwrap(), "http://a.mp4");
    match media_url(&raw, MediaKind::Video, None) {
        Err(NotebookLmError::RpcDecode(m)) => assert_eq!(m, "no completed video artifact found"),
        _ => panic!("no video expected"),
    }
    let report = json(r##"["r1", "R", 2, null, 3, null, null, ["# Report"]]"##);
    assert_eq!(report_markdown(&vec![report], None).unwrap(), "# Report");
    let plain = json(r#"["r1", "R", 2, null, 3, null, null, "text"]"#);
    assert_eq!(report_markdown(&vec![plain], Some("r1")).unwrap(), "text");
    assert!(report_markdown(&vec![], None).is_err());
    assert_eq!(download_failure_text(12), "download failed (12 bytes body)");
}

#[test]
fn data_table_as_csv() {
    let table = json(
        r#"["d1", "D", 9, null, 3, null, null, null, null, null, null, null, null, null, null, [1], null, null,
            [[[[[null, null, null, null, [null, null, [[0, 1, ["Col A", "Col B"]], [1, 2, ["V1", "V,2"]]]]]]]]]]"#,
    );
    assert_eq!(data_table_csv(&vec![table], None).unwrap(), "Col A,Col B\nV1,\"V,2\"\n");
    let missing = json(r#"["d1", "D", 9, null, 3]"#);
    match data_table_csv(&vec![missing], None) {
        Err(NotebookLmError::RpcDecode(m)) => assert_eq!(m, "could not parse data table structure"),
        _ => panic!("missing content expected"),
    }
}

#[test]
fn mind_map_files() {
    let items = vec![json(r#"["m1", ["m1", "{ \"name\" : \"One\" }", [10]]]"#)];
    assert_eq!(mind_map_file(&items, None, MindMapOutputFormat::Json).unwrap(), "{\"name\":\"One\"}");
    assert!(mind_map_file(&items, None, MindMapOutputFormat::PrettyJson).unwrap().contains("\n  \"name\": \"One\""));
    match mind_map_file(&vec![], None, MindMapOutputFormat::Json) {
        Err(NotebookLmError::RpcDecode(m)) => assert_eq!(m, "no mind maps found"),
        _ => panic!("empty list expected"),
    }
    let broken = vec![json(r#"["m1", ["m1", "{oops"]]"#)];
    assert!(matches!(mind_map_file(&broken, None, MindMapOutputFormat::Json), Err(NotebookLmError::Json(_))));
    match mind_map_file(&items, Some("zz"), MindMapOutputFormat::Json) {
        Err(NotebookLmError::RpcDecode(m)) => assert_eq!(m, "mind map zz not found"),
        _ => panic!("unknown id expected"),
    }
}

fn art(id: &str, status: i64, created: Option<i64>) -> Artifact {
    Artifact { id: id.to_string(), title: format!("T{id}"), artifact_type: 4, variant: Some(2), status, created_at_unix: created }
}

#[test]
fn interactive_selection() {
    let arts = vec![art("q1", 3, Some(5)), art("q2", 3, Some(9)), art("q3", 1, Some(20)), art("q4", 3, Some(9))];
    assert_eq!(select_interactive(&arts, None, true).unwrap().id, "q4");
    assert_eq!(select_interactive(&arts, Some("q1"), true).unwrap().id, "q1");
    match select_interactive(&arts, Some("q3"), true) {
        Err(NotebookLmError::RpcDecode(m)) => assert_eq!(m, "artifact q3 not found"),
        _ => panic!("pending artifact must not be chosen"),
    }
    match select_interactive(&vec![art("q9", 1, None)], None, false) {
        Err(NotebookLmError::RpcDecode(m)) => assert_eq!(m, "no completed flashcards artifact found"),
        _ => panic!("nothing completed"),
    }
    let c = copy_artifact(&arts[0]);
    assert_eq!(c.created_at_unix, Some(5));
}

#[test]
fn interactive_files() {
    let html = r#"<div data-app-data="{&quot;quiz&quot;:[{&quot;question&quot;:&quot;Q1&quot;,&quot;answerOptions&quot;:[{&quot;text&quot;:&quot;A&quot;,&quot;isCorrect&quot;:true}]}],&quot;flashcards&quot;:[{&quot;f&quot;:&quot;F&quot;,&quot;b&quot;:&quot;B&quot;}]}"></div>"#;
    assert_eq!(interactive_file(html, "T", InteractiveOutputFormat::Html, true).unwrap(), html);
    assert_eq!(
        interactive_file(html, "T", InteractiveOutputFormat::Markdown, true).unwrap(),
        "# T\n\n## Question 1\nQ1\n\n- [x] A\n"
    );
    let cards = interactive_file(html, "T", InteractiveOutputFormat::Json, false).unwrap();
    let doc = json(&cards);
    assert_eq!(doc.get_key("title").and_then(|t| t.as_str()).map(|s| s.as_str()), Some("T"));
    let first = doc.get_key("cards").and_then(|c| c.get(0)).expect("one card");
    assert_eq!(first.get_key("front").and_then(|t| t.as_str()).map(|s| s.as_str()), Some("F"));
    assert_eq!(first.get_key("back").and_then(|t| t.as_str()).map(|s| s.as_str()), Some("B"));
    match interactive_file("<p>none</p>", "T", InteractiveOutputFormat::Json, true) {
        Err(NotebookLmError::RpcDecode(m)) => assert_eq!(m, "data-app-data attribute not found"),
        _ => panic!("missing data expected"),
    }
    let page = json(r#"[[null, null, null, null, null, null, null, null, null, ["<html>"]]]"#);
    assert_eq!(interactive_html(&page).unwrap(), "<html>");
    assert!(interactive_html(&json("[]")).is_err());
}

#[test]
fn markdown_formats() {
    let qs = vec![json(r#"{"question":"Q1","answerOptions":[{"text":"A","isCorrect":true},{"text":"B"}],"hint":"H"}"#)];
    assert_eq!(
        format_quiz_markdown("T", &qs),
        "# T\n\n## Question 1\nQ1\n\n- [x] A\n- [ ] B\n\n**Hint:** H\n"
    );
    let cards = vec![json(r#"{"f":"F","b":"B"}"#), json("{}")];
    assert_eq!(
        format_flashcards_markdown("T", &cards),
        "# T\n\n## Card 1\n\n**Q:** F\n\n**A:** B\n\n---\n\n## Card 2\n\n**Q:** \n\n**A:** \n\n---\n"
    );
    assert_eq!(html_unescape_basic("&lt;a&gt; &amp;quot; &#39;x&#39; &quot;"), "<a> &quot; 'x' \"");
}

#[test]
fn mind_map_generation_and_notes() {
    let generated = read_generated_mind_map(&json(r#"[["{\"name\":\"Big Map\"}"]]"#)).expect("generated");
    assert_eq!(generated.title, "Big Map");
    assert_eq!(generated.content, "{\"name\":\"Big Map\"}");
    let not_json = read_generated_mind_map(&json(r#"[["plain"]]"#)).expect("generated");
    assert_eq!(not_json.title, "Mind Map");
    assert_eq!(not_json.mind_map, JsonValue::Str("plain".to_string()));
    assert!(read_generated_mind_map(&json("[]")).is_none());
    assert_eq!(parse_created_note_id(&json(r#"[["n1"]]"#)).unwrap(), "n1");
    assert_eq!(parse_created_note_id(&json(r#"["n2"]"#)).unwrap(), "n2");
    match parse_created_note_id(&json("[]")) {
        Err(NotebookLmError::DecodeShape { path, context }) => {
            assert_eq!(path, "[0][0]");
            assert_eq!(context, "create_note did not return a note id");
        }
        _ => panic!("missing id expected"),
    }
    let (update, outcome) = save_mind_map("nb", generated, Ok("n1".to_string()));
    let update = update.expect("the note is written");
    assert_eq!(
        update.params,
        json(r#"["nb", "n1", [[["{\"name\":\"Big Map\"}", "Big Map", [], 0]]]]"#)
    );
    assert_eq!(outcome.note_id.as_deref(), Some("n1"));
    assert!(outcome.mind_map.is_some());
    let (update, outcome) = save_mind_map(
        "nb",
        not_json,
        Err(NotebookLmError::Auth("no".to_string())),
    );
    assert!(update.is_none());
    assert!(outcome.note_id.is_none());
    assert_eq!(outcome.mind_map, Some(JsonValue::Str("plain".to_string())));
    let note = create_note_call("nb");
    assert_eq!(note.params, json(r#"["nb", "", [1], null, "New Note"]"#));
    let export = export_call("nb", Some("a1"), None, "Export", notebooklm_api::ArtifactExportType::DataTable);
    assert_eq!(export.params, json(r#"[null, "a1", null, "Export", 2]"#));
}

// ---- Authentication and command-line text ----

#[test]
fn storage_cookies_and_tokens() {
    let entries = vec![
        ("SID".to_string(), "old".to_string(), ".google.com".to_string()),
        ("SID".to_string(), "new".to_string(), ".google.co.uk".to_string()),
        ("X".to_string(), "x".to_string(), "example.com".to_string()),
    ];
    let cookies = cookies_from_entries(&entries).unwrap();
    assert_eq!(cookies, vec![("SID".to_string(), "new".to_string())]);
    match cookies_from_entries(&entries[2..].to_vec()) {
        Err(NotebookLmError::Auth(m)) => {
            assert_eq!(m, "missing SID cookie in storage state; run `notebooklm login`")
        }
        other => panic!("unexpected: {:?}", other.map(|c| c.len())),
    }
    assert!(is_allowed_auth_domain("notebooklm.google.com"));
    assert!(!is_allowed_auth_domain("google.com"));
    let body = r#"x "SNlM0e":"csrf1" y "FdrFJe":"sid1" z"#;
    let (csrf, sid) = extract_tokens("https://notebooklm.google.com/", body).unwrap();
    assert_eq!(csrf, "csrf1");
    assert_eq!(sid, "sid1");
    match extract_tokens("https://accounts.google.com/signin", body) {
        Err(NotebookLmError::Auth(m)) => assert_eq!(m, "authentication expired; run `notebooklm login`"),
        _ => panic!("expired session expected"),
    }
    match extract_tokens("https://notebooklm.google.com/", "nothing") {
        Err(NotebookLmError::Auth(m)) => assert_eq!(m, "failed to extract CSRF token (SNlM0e)"),
        _ => panic!("missing token expected"),
    }
}

#[test]
fn command_line_text() {
    assert_eq!(session_prefix("abcdefghijklmnop"), "abcdefghijkl");
    assert_eq!(session_prefix("short"), "short");
    let srcs = sources_from_args(&vec!["u1".to_string(), "u2".to_string()], &vec!["t1".to_string()]);
    assert_eq!(srcs[0].title, "t1");
    assert_eq!(srcs[1].title, "Untitled");
}

#[test]
fn backoff_grows_with_attempts() {
    let policy = RetryPolicy { max_retries: 5, base_delay_ms: 100, max_delay_ms: 1000, jitter_ms: 0 };
    let delays: Vec<u64> = (0..6).map(|a| backoff_delay_ms(&policy, a, None, 0)).collect();
    assert_eq!(delays, vec![100, 200, 400, 800, 1000, 1000]);
    assert!(backoff_delay_ms(&RetryPolicy::default(), 2, None, 123_456_789) <= 5000 + 200);
}

#[test]
fn mind_map_selection_finds_existing_items() {
    let items = vec![
        json(r#"["m1", ["m1", "{}", [10]]]"#),
        json(r#"["m2", ["m2", "{}", [5]]]"#),
    ];
    let latest = notebooklm_api::responses::select_mind_map_item(&items, None).unwrap();
    assert_eq!(text_at(latest, &[0]), Some("m1"));
    match notebooklm_api::responses::select_mind_map_item(&[], None) {
        Err(NotebookLmError::RpcDecode(m)) => assert_eq!(m, "no selectable mind maps"),
        _ => panic!("nothing to select"),
    }
}

#[test]
fn status_codes_have_names() {
    assert_eq!(artifact_status_to_str(1), "in_progress");
    assert_eq!(artifact_status_to_str(2), "pending");
    assert_eq!(artifact_status_to_str(3), "completed");
    assert_eq!(artifact_status_to_str(4), "failed");
    assert_eq!(artifact_status_to_str(0), "unknown");
    assert_eq!(artifact_status_to_str(7), "unknown");
}

#[test]
fn request_numbers_step_by_a_hundred_thousand() {
    let (n, text) = next_request_number(REQUEST_NUMBER_START).expect("first number");
    assert_eq!(n, 200000);
    assert_eq!(text, "200000");
    assert_eq!(next_request_number(300000).map(|p| p.1), Some("400000".to_string()));
    assert!(next_request_number(u64::MAX - 99_999).is_none());
    assert_eq!(next_request_number(u64::MAX - 100_000).map(|p| p.0), Some(u64::MAX));
}

#[test]
fn method_ids_are_distinct() {
    let all = [
        RpcMethod::ListNotebooks, RpcMethod::CreateNotebook, RpcMethod::GetNotebook,
        RpcMethod::RenameNotebook, RpcMethod::DeleteNotebook, RpcMethod::Summarize,
        RpcMethod::AddSource, RpcMethod::DeleteSource, RpcMethod::GetSource,
        RpcMethod::RefreshSource, RpcMethod::UpdateSource, RpcMethod::GetConversationHistory,
        RpcMethod::CreateArtifact, RpcMethod::ListArtifacts, RpcMethod::DeleteArtifact,
        RpcMethod::RenameArtifact, RpcMethod::ExportArtifact, RpcMethod::GenerateMindMap,
        RpcMethod::CreateNote, RpcMethod::UpdateNote, RpcMethod::GetInteractiveHtml,
        RpcMethod::GetNotesAndMindMaps, RpcMethod::StartFastResearch,
        RpcMethod::StartDeepResearch, RpcMethod::PollResearch, RpcMethod::ImportResearch,
        RpcMethod::GetUserSettings, RpcMethod::SetUserSettings, RpcMethod::GetShareStatus,
        RpcMethod::ShareNotebook,
    ];
    for (i, a) in all.iter().enumerate() {
        for (j, b) in all.iter().enumerate() {
            assert_eq!(a.id() == b.id(), i == j);
        }
    }
    assert_eq!(RpcMethod::ListNotebooks.id(), "wXbhsf");
    assert_eq!(RpcMethod::CreateArtifact.id(), "R7cb6c");
    assert_eq!(RpcMethod::ShareNotebook.id(), "QDyure");
}

fn read_csv_record(line: &str) -> Vec<String> {
    let chars: Vec<char> = line.chars().collect();
    let mut fields = Vec::new();
    let mut i = 0;
    loop {
        let mut value = String::new();
        if i < chars.len() && chars[i] == '"' {
            i += 1;
            while i < chars.len() {
                if chars[i] == '"' {
                    if i + 1 < chars.len() && chars[i + 1] == '"' {
                        value.push('"');
                        i += 2;
                    } else {
                        i += 1;
                        break;
                    }
                } else {
                    value.push(chars[i]);
                    i += 1;
                }
            }
        } else {
            while i < chars.len() && chars[i] != ',' {
                value.push(chars[i]);
                i += 1;
            }
        }
        fields.push(value);
        if i < chars.len() && chars[i] == ',' {
            i += 1;
        } else {
            return fields;
        }
    }
}

#[test]
fn csv_row_reads_back() {
    let rows = vec![
        vec!["plain".to_string(), "has,comma".to_string(), "has\"quote".to_string()],
        vec!["".to_string()],
        vec!["".to_string(), "".to_string(), "\"\"".to_string()],
        vec!["line\r\nbreak".to_string(), ",".to_string(), "x".to_string()],
    ];
    for row in rows {
        assert_eq!(read_csv_record(&csv_row(&row)), row);
    }
}
