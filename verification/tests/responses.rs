use codexbar_minimax::fetch::{
    config_credentials, env_credentials, first_action, next_action, probe_outcome, retry_region,
    source_label, config_credentials_from_text, ConfigLookup, FetchAction, FetchStep,
};
use codexbar_minimax::json::{value_i64, scalar_string, JsonEntry, JsonNumber, JsonValue};
use codexbar_minimax::numbers::{format_count, parse_count_text};
use codexbar_minimax::provider::{ProviderError, SourceMode};
use codexbar_minimax::region::MiniMaxRegion;
use codexbar_minimax::responses::{
    billing_referer, billing_status_error, clean_number_text, is_auth_refused, is_success_status,
    minimax_base_response_message, origin_from_url, parse_token_plan_response,
    parse_usage_response, response_body_snippet, status_line, token_plan_remaining_keys,
    token_plan_status_error, token_plan_total_keys, token_plan_used_keys, usage_status_error,
};

fn integer(v: i64) -> JsonValue {
    JsonValue::Number(JsonNumber { integer: Some(v), text: v.to_string() })
}

fn text(s: &str) -> JsonValue {
    JsonValue::String(s.to_string())
}

fn object(members: Vec<(&str, JsonValue)>) -> JsonValue {
    JsonValue::Object(
        members
            .into_iter()
            .map(|(k, v)| JsonEntry { key: k.to_string(), value: v })
            .collect(),
    )
}

fn ok_base() -> (&'static str, JsonValue) {
    ("base_resp", object(vec![("status_code", integer(0))]))
}

#[test]
fn parses_plan_title_from_coding_plan_fields() {
    for (field, expected) in [
        ("plan_name", "MiniMax Star"),
        ("current_plan_title", "Coding Plan Pro"),
        ("current_subscribe_title", "Max"),
        ("combo_title", "Combo Star"),
    ] {
        let json = object(vec![
            ok_base(),
            (field, text(expected)),
            ("used_amount", integer(0)),
            ("total_quota", integer(100)),
        ]);
        let reading = parse_usage_response(&json).unwrap();
        assert_eq!(reading.plan, expected);
    }
    let json = object(vec![
        ok_base(),
        ("current_combo_card", object(vec![("title", text("Card Title"))])),
        ("used_amount", integer(0)),
        ("total_quota", integer(100)),
    ]);
    let reading = parse_usage_response(&json).unwrap();
    assert_eq!(reading.plan, "Card Title");
}

#[test]
fn usage_response_fields_and_failures() {
    let json = object(vec![
        ("total_amount", integer(7)),
        ("quota", integer(50)),
        ("plan_type", integer(3)),
        ("type", text("ignored")),
    ]);
    let reading = parse_usage_response(&json).unwrap();
    assert_eq!(reading.used.unwrap().integer, Some(7));
    assert_eq!(reading.limit.unwrap().integer, Some(50));
    // The first plan field present decides, even when it is not text.
    assert_eq!(reading.plan, "MiniMax");

    let json = object(vec![("used_amount", text("3")), ("total_amount", integer(9))]);
    let reading = parse_usage_response(&json).unwrap();
    assert!(reading.used.is_none());
    assert!(reading.limit.is_none());

    let failing = object(vec![(
        "base_resp",
        object(vec![("status_code", integer(1004)), ("status_msg", text("login fail"))]),
    )]);
    match parse_usage_response(&failing) {
        Err(ProviderError::Parse(m)) => assert_eq!(m, "login fail"),
        other => panic!("unexpected {:?}", other),
    }
    let no_code = object(vec![("base_resp", object(vec![]))]);
    match parse_usage_response(&no_code) {
        Err(ProviderError::Parse(m)) => assert_eq!(m, "Unknown error"),
        other => panic!("unexpected {:?}", other),
    }
}

#[test]
fn token_plan_reads_data_and_plan() {
    let json = object(vec![(
        "data",
        object(vec![
            ok_base(),
            ("used", integer(45)),
            ("total", integer(100)),
            ("plan_name", text("Max")),
        ]),
    )]);
    let (data, plan) = parse_token_plan_response(&json);
    assert_eq!(plan.unwrap(), "Max");
    assert!(data.get("used").is_some());
    let flat = object(vec![ok_base(), ("used_tokens", integer(10)), ("total_quota", integer(50))]);
    let (data, plan) = parse_token_plan_response(&flat);
    assert_eq!(plan.unwrap(), "MiniMax");
    assert!(data.get("total_quota").is_some());
    let failing = object(vec![(
        "data",
        object(vec![("base_resp", object(vec![("status_code", integer(2013))]))]),
    )]);
    match parse_token_plan_response(&failing).1 {
        Err(ProviderError::Parse(m)) => assert_eq!(m, "Unknown error"),
        other => panic!("unexpected {:?}", other),
    }
    assert_eq!(token_plan_total_keys()[3], "current_interval_total_count");
    assert_eq!(token_plan_remaining_keys()[7], "current_interval_usage_count");
    assert_eq!(token_plan_used_keys(), vec!["used", "used_amount", "used_tokens"]);
    assert_eq!(clean_number_text(" 1,234 "), "1234");
}

#[test]
fn billing_status_error_prefers_base_response_message() {
    let body = r#"{"base_resp":{"status_code":1001,"status_msg":"missing group"}}"#;
    let message = billing_status_error(500, body);
    assert_eq!(
        message,
        "MiniMax billing returned status 500 Internal Server Error: missing group"
    );
}

#[test]
fn billing_status_error_includes_truncated_body_snippet() {
    let body = format!("<html>{}</html>", "x".repeat(400));
    let message = billing_status_error(502, &body);
    assert!(message.starts_with("MiniMax billing returned status 502 Bad Gateway: <html>"));
    assert!(message.ends_with('…'));
    assert!(message.len() < 380);
}

#[test]
fn status_texts() {
    assert_eq!(status_line(404), "404 Not Found");
    assert_eq!(status_line(999), "999 <unknown status code>");
    assert_eq!(billing_status_error(503, "  "), "MiniMax billing returned status 503 Service Unavailable");
    let blank_message = "{\"base_resp\": {\"status_msg\": \"  \"}}";
    assert_eq!(
        billing_status_error(500, blank_message),
        "MiniMax billing returned status 500 Internal Server Error: {\"base_resp\": {\"status_msg\": \" \"}}"
    );
    assert_eq!(minimax_base_response_message(blank_message), None);
    assert_eq!(
        minimax_base_response_message("{\"base_resp\": {\"status_msg\": \" quota \"}}"),
        Some("quota".to_string())
    );
    assert_eq!(minimax_base_response_message("a\n\tb"), None);
    assert_eq!(
        billing_status_error(500, "a\n\tb"),
        "MiniMax billing returned status 500 Internal Server Error: a b"
    );
    assert_eq!(
        token_plan_status_error(500, &"y".repeat(300)),
        format!("MiniMax token_plan returned status 500 Internal Server Error: {}", "y".repeat(200))
    );
    assert_eq!(usage_status_error(429), "MiniMax API returned status 429 Too Many Requests");
    assert!(is_auth_refused(401) && is_auth_refused(403) && !is_auth_refused(404));
    assert!(is_success_status(204) && !is_success_status(301));
}

#[test]
fn body_snippets() {
    assert_eq!(response_body_snippet(" \n\t "), None);
    assert_eq!(response_body_snippet("  a  b\nc "), Some("a b c".to_string()));
    let exact = "z".repeat(300);
    assert_eq!(response_body_snippet(&exact), Some(exact.clone()));
    let long = "z".repeat(301);
    assert_eq!(response_body_snippet(&long), Some(format!("{}…", exact)));
}

#[test]
fn origins() {
    assert_eq!(
        origin_from_url("https://www.minimaxi.com/account/amount"),
        "https://www.minimaxi.com"
    );
    assert_eq!(origin_from_url("not a url"), "not a url");
    assert_eq!(
        billing_referer("https://platform.minimax.io/account/amount"),
        "https://platform.minimax.io/account"
    );
}

#[test]
fn counts() {
    assert_eq!(format_count(0), "0");
    assert_eq!(format_count(999), "999");
    assert_eq!(format_count(1000), "1,000");
    assert_eq!(format_count(1234567), "1,234,567");
    assert_eq!(format_count(-123), "-,123");
    assert_eq!(format_count(-1234), "-1,234");
    assert_eq!(format_count(i64::MIN), "-9,223,372,036,854,775,808");
    assert_eq!(parse_count_text(" 1,234 "), Some(1234));
    assert_eq!(parse_count_text("-9223372036854775808"), Some(i64::MIN));
    assert_eq!(parse_count_text("9223372036854775808"), None);
    assert_eq!(parse_count_text("+"), None);
    assert_eq!(parse_count_text(""), None);
    assert_eq!(parse_count_text("1 2"), None);
    assert_eq!(parse_count_text("1.5"), None);
}

#[test]
fn json_scalars() {
    assert_eq!(scalar_string(Some(&JsonValue::Bool(false))), Some("false".to_string()));
    assert_eq!(scalar_string(Some(&integer(5))), Some("5".to_string()));
    assert_eq!(scalar_string(Some(&JsonValue::Null)), None);
    assert_eq!(value_i64(Some(&text(" 2,500 "))), Some(2500));
    assert_eq!(value_i64(Some(&JsonValue::Bool(true))), None);
    assert_eq!(value_i64(None), None);
    let duplicated = JsonValue::Object(vec![
        JsonEntry { key: "k".to_string(), value: integer(1) },
        JsonEntry { key: "k".to_string(), value: integer(2) },
    ]);
    assert_eq!(duplicated.get("k").and_then(|v| v.as_i64()), Some(1));
    assert!(integer(3).get("k").is_none());
}

#[test]
fn fetch_decisions() {
    assert_eq!(first_action(SourceMode::Auto, true, true), FetchAction::Run(FetchStep::TokenPlan));
    assert_eq!(first_action(SourceMode::Web, true, false), FetchAction::Run(FetchStep::TokenPlan));
    assert_eq!(first_action(SourceMode::Auto, false, true), FetchAction::Run(FetchStep::CookieBilling));
    assert_eq!(first_action(SourceMode::Web, false, false), FetchAction::Run(FetchStep::LegacyApi));
    assert_eq!(first_action(SourceMode::Cli, true, true), FetchAction::Run(FetchStep::Probe));
    assert_eq!(first_action(SourceMode::OAuth, true, true), FetchAction::Unsupported);
    assert_eq!(next_action(SourceMode::Auto, true, FetchStep::TokenPlan, false), FetchAction::Run(FetchStep::CookieBilling));
    assert_eq!(next_action(SourceMode::Auto, false, FetchStep::TokenPlan, false), FetchAction::Run(FetchStep::LegacyApi));
    assert_eq!(next_action(SourceMode::Auto, true, FetchStep::CookieBilling, false), FetchAction::Run(FetchStep::LegacyApi));
    assert_eq!(next_action(SourceMode::Auto, true, FetchStep::CookieBilling, true), FetchAction::Finish);
    assert_eq!(next_action(SourceMode::Web, true, FetchStep::CookieBilling, false), FetchAction::Finish);
    assert_eq!(next_action(SourceMode::Auto, false, FetchStep::LegacyApi, false), FetchAction::Run(FetchStep::Probe));
    assert_eq!(next_action(SourceMode::Web, false, FetchStep::TokenPlan, false), FetchAction::Finish);
    assert_eq!(next_action(SourceMode::Auto, false, FetchStep::TokenPlan, true), FetchAction::Finish);
    assert_eq!(source_label(FetchStep::CookieBilling), "web-billing");
    assert_eq!(source_label(FetchStep::Probe), "cli");
    assert_eq!(retry_region(MiniMaxRegion::Global, true), Some(MiniMaxRegion::ChinaMainland));
    assert_eq!(retry_region(MiniMaxRegion::ChinaMainland, true), None);
    assert_eq!(retry_region(MiniMaxRegion::Global, false), None);
}

#[test]
fn credential_sources() {
    let c = env_credentials(Some("g".to_string()), Some("k".to_string())).unwrap();
    assert_eq!((c.group_id.as_str(), c.api_key.as_str()), ("g", "k"));
    assert!(env_credentials(None, Some("k".to_string())).is_none());
    match config_credentials(ConfigLookup::NoConfigDir) {
        Err(ProviderError::NotInstalled(m)) => assert_eq!(m, "MiniMax config not found"),
        other => panic!("unexpected {:?}", other),
    }
    assert!(matches!(config_credentials(ConfigLookup::Missing), Err(ProviderError::AuthRequired)));
    match config_credentials(ConfigLookup::Contents("bad".to_string())) {
        Err(ProviderError::Parse(m)) => assert_eq!(m, "expected value at line 1 column 1"),
        other => panic!("unexpected {:?}", other),
    }
    match config_credentials(ConfigLookup::Unreadable("denied".to_string())) {
        Err(ProviderError::Other(m)) => assert_eq!(m, "denied"),
        other => panic!("unexpected {:?}", other),
    }
    let text_file = "{\"group_id\": \"g1\", \"api_key\": \"k1\"}";
    let c = config_credentials(ConfigLookup::Contents(text_file.to_string())).unwrap();
    assert_eq!((c.group_id.as_str(), c.api_key.as_str()), ("g1", "k1"));
    let c = config_credentials_from_text(text_file).unwrap();
    assert_eq!((c.group_id.as_str(), c.api_key.as_str()), ("g1", "k1"));
    assert!(matches!(
        config_credentials_from_text("{\"group_id\": 1, \"api_key\": \"k1\"}"),
        Err(ProviderError::AuthRequired)
    ));
    assert!(matches!(config_credentials_from_text("[1, 2]"), Err(ProviderError::AuthRequired)));
    assert_eq!(probe_outcome(false, true).unwrap(), "MiniMax (configured)");
    assert!(matches!(probe_outcome(false, false), Err(ProviderError::NotInstalled(_))));
}

#[test]
fn format_count_drops_back_to_decimal() {
    for v in [0i64, 7, 999, 1000, 65536, -1, -999, -1000, 123456789, i64::MAX, i64::MIN] {
        let grouped = format_count(v);
        assert_eq!(grouped.replace(',', ""), v.to_string());
        for group in grouped.trim_start_matches('-').split(',').skip(1) {
            assert_eq!(group.len(), 3);
        }
    }
}
