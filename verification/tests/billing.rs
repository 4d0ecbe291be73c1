use chrono::TimeZone;
use codexbar_minimax::billing::{
    aggregate_billing, billing_record_succeeded, billing_read_at, parse_billing_summary, record_date,
    record_token_count, try_aggregate_billing, BillingBaseResponse, BillingPayload, BillingRead, BillingRecord,
};
use codexbar_minimax::dates::Timestamp;
use codexbar_minimax::json::{JsonNumber, JsonValue};
use codexbar_minimax::report::{attach_billing_summary, billing_headlines, WindowDetail};

fn integer(v: i64) -> JsonValue {
    JsonValue::Number(JsonNumber { integer: Some(v), text: v.to_string() })
}

fn float(text: &str) -> JsonValue {
    JsonValue::Number(JsonNumber { integer: None, text: text.to_string() })
}

fn text(s: &str) -> JsonValue {
    JsonValue::String(s.to_string())
}

fn empty_record() -> BillingRecord {
    BillingRecord {
        consume_token: None,
        consume_input_token: None,
        consume_output_token: None,
        consume_cash: None,
        consume_cash_after_voucher: None,
        created_at: None,
        ymd: None,
        consume_time: None,
        method: None,
        model: None,
        result: None,
        status: None,
    }
}

fn at(y: i32, m: u32, d: u32, h: u32) -> Timestamp {
    let t = chrono::Utc.with_ymd_and_hms(y, m, d, h, 0, 0).unwrap();
    Timestamp { secs: t.timestamp(), nanos: 0 }
}

/// The cash a record carries, read as the application reads it.
fn cash_of(value: &Option<JsonValue>) -> Option<f64> {
    match value {
        Some(JsonValue::Number(n)) => n.text.parse().ok(),
        Some(JsonValue::String(s)) => s.trim().replace(',', "").parse().ok(),
        _ => None,
    }
}

fn record_cash(r: &BillingRecord) -> Option<f64> {
    cash_of(&r.consume_cash_after_voucher).or_else(|| cash_of(&r.consume_cash))
}

fn cash_flags(records: &[BillingRecord]) -> Vec<bool> {
    records.iter().map(|r| record_cash(r).is_some()).collect()
}

fn cash_sum(records: &[BillingRecord], positions: &[usize]) -> f64 {
    positions.iter().filter_map(|&i| record_cash(&records[i])).sum()
}

#[test]
fn aggregates_billing_history_records() {
    let records = vec![
        BillingRecord {
            consume_token: Some(integer(1200)),
            consume_cash: Some(text("0.42")),
            ymd: Some("2026-12-16".to_string()),
            method: Some("chat".to_string()),
            model: Some("abab6.5".to_string()),
            result: Some(text("SUCCESS")),
            ..empty_record()
        },
        BillingRecord {
            consume_input_token: Some(integer(300)),
            consume_output_token: Some(integer(500)),
            consume_cash_after_voucher: Some(float("0.21")),
            ymd: Some("2026-12-15".to_string()),
            method: Some("completion".to_string()),
            model: Some("abab6.5".to_string()),
            ..empty_record()
        },
    ];
    let now = at(2026, 12, 16, 12);
    let summary = aggregate_billing(&records, &cash_flags(&records), now);
    assert_eq!(summary.last_30_days_tokens, 2000);
    assert!(summary.last_30_days_has_cash);
    assert!((cash_sum(&records, &summary.last_30_days_records) - 0.63).abs() < 0.001);
    assert_eq!(summary.top_models[0].name, "abab6.5");
    assert_eq!(summary.top_models[0].tokens, 2000);
    assert_eq!(summary.today_tokens, 1200);
    assert_eq!(summary.today_records, vec![0]);
    assert_eq!(summary.last_30_days_records, vec![0, 1]);
}

#[test]
fn filters_failed_billing_records() {
    let record = |tokens: i64, method: &str, model: &str, result: Option<JsonValue>, status: Option<JsonValue>| {
        BillingRecord {
            consume_token: Some(integer(tokens)),
            ymd: Some("2026-05-17".to_string()),
            method: Some(method.to_string()),
            model: Some(model.to_string()),
            result,
            status,
            ..empty_record()
        }
    };
    let records = vec![
        record(1000, "chat", "MiniMax-M1", Some(text("SUCCESS")), None),
        record(2000, "chat", "MiniMax-M1", Some(text("FAILED")), None),
        record(3000, "audio", "speech", None, None),
        record(4000, "video", "video", None, Some(integer(0))),
    ];
    let now = at(2026, 5, 17, 12);
    let summary = aggregate_billing(&records, &cash_flags(&records), now);
    assert_eq!(summary.today_tokens, 4000);
    assert_eq!(summary.last_30_days_tokens, 4000);
    assert_eq!(summary.top_methods.len(), 2);
    assert_eq!(summary.top_methods[0].name, "audio");
    assert_eq!(summary.top_methods[0].tokens, 3000);
    assert_eq!(summary.top_methods[1].name, "chat");
    assert_eq!(summary.top_methods[1].tokens, 1000);
}

#[test]
fn parses_billing_payload_into_result_extras() {
    let today = chrono::Utc::now().format("%Y-%m-%d").to_string();
    let payload = BillingPayload {
        base_resp: Some(BillingBaseResponse { status_code: Some(0), status_msg: None }),
        charge_records: vec![BillingRecord {
            consume_token: Some(text("2500")),
            consume_cash_after_voucher: Some(text("1.25")),
            ymd: Some(today),
            method: Some("chat".to_string()),
            model: Some("abab6.5".to_string()),
            ..empty_record()
        }],
    };
    let flags = cash_flags(&payload.charge_records);
    let summary = match parse_billing_summary(&payload, &flags) {
        BillingRead::Done(Ok(summary)) => summary,
        other => panic!("unexpected {:?}", other),
    };
    // The cost is present exactly when the 30-day window carries cash.
    assert!(summary.last_30_days_has_cash);
    let windows = attach_billing_summary(&summary);
    assert!(windows.iter().any(|window| window.id == "billing-tokens-30d"));
}

#[test]
fn billing_payload_failures() {
    let failed = BillingPayload {
        base_resp: Some(BillingBaseResponse { status_code: Some(1004), status_msg: None }),
        charge_records: vec![],
    };
    match parse_billing_summary(&failed, &vec![]) {
        BillingRead::Done(Err(codexbar_minimax::provider::ProviderError::Other(m))) => {
            assert_eq!(m, "MiniMax billing status 1004")
        }
        other => panic!("unexpected {:?}", other),
    }
    let with_message = BillingPayload {
        base_resp: Some(BillingBaseResponse {
            status_code: Some(-2),
            status_msg: Some("cookie expired".to_string()),
        }),
        charge_records: vec![],
    };
    match parse_billing_summary(&with_message, &vec![]) {
        BillingRead::Done(Err(codexbar_minimax::provider::ProviderError::Other(m))) => assert_eq!(m, "cookie expired"),
        other => panic!("unexpected {:?}", other),
    }
    let empty = BillingPayload { base_resp: None, charge_records: vec![] };
    match parse_billing_summary(&empty, &vec![]) {
        BillingRead::Done(Err(codexbar_minimax::provider::ProviderError::Parse(m))) => {
            assert_eq!(m, "MiniMax billing records not present")
        }
        other => panic!("unexpected {:?}", other),
    }
}

#[test]
fn record_outcomes() {
    let with = |result: Option<JsonValue>, status: Option<JsonValue>| BillingRecord { result, status, ..empty_record() };
    assert!(billing_record_succeeded(&with(None, None)));
    assert!(billing_record_succeeded(&with(Some(text(" success ")), None)));
    assert!(billing_record_succeeded(&with(Some(text("   ")), Some(text("FAILED")))));
    assert!(!billing_record_succeeded(&with(Some(text("FAILED")), None)));
    assert!(!billing_record_succeeded(&with(None, Some(JsonValue::Bool(true)))));
    assert!(!billing_record_succeeded(&with(Some(JsonValue::Null), Some(integer(0)))));
    assert!(billing_record_succeeded(&with(Some(JsonValue::Array(vec![])), None)));
}

#[test]
fn record_token_counts() {
    let r = BillingRecord {
        consume_token: Some(text(" 1,234 ")),
        consume_input_token: Some(integer(5)),
        ..empty_record()
    };
    assert_eq!(record_token_count(&r), 1234);
    let r = BillingRecord {
        consume_token: Some(integer(0)),
        consume_input_token: Some(text("+7")),
        consume_output_token: Some(text("x")),
        ..empty_record()
    };
    assert_eq!(record_token_count(&r), 7);
    let r = BillingRecord { consume_token: Some(float("12.5")), ..empty_record() };
    assert_eq!(record_token_count(&r), 0);
}

#[test]
fn record_dates() {
    let t = at(2026, 5, 17, 0);
    let r = BillingRecord { created_at: Some(integer(t.secs)), ..empty_record() };
    assert_eq!(record_date(&r), Some(t));
    let r = BillingRecord { created_at: Some(integer(t.secs * 1000)), ..empty_record() };
    assert_eq!(record_date(&r), Some(t));
    let r = BillingRecord { ymd: Some(" 20260517 ".to_string()), ..empty_record() };
    assert_eq!(record_date(&r), Some(t));
    let r = BillingRecord { ymd: Some("2026/05/17".to_string()), ..empty_record() };
    assert_eq!(record_date(&r), Some(t));
    let r = BillingRecord {
        ymd: Some("yesterday".to_string()),
        consume_time: Some("2026-05-17 09:00:00".to_string()),
        ..empty_record()
    };
    assert_eq!(record_date(&r), Some(at(2026, 5, 17, 9)));
    let r = BillingRecord { consume_time: Some("2026-05-17T09:00:00+01:00".to_string()), ..empty_record() };
    assert_eq!(record_date(&r), Some(at(2026, 5, 17, 8)));
    let r = BillingRecord {
        created_at: Some(integer(i64::MAX)),
        ymd: Some("2026-05-17".to_string()),
        ..empty_record()
    };
    assert_eq!(record_date(&r), None);
    assert_eq!(record_date(&empty_record()), None);
}

#[test]
fn window_edges_and_ranking() {
    let day = |ymd: &str, tokens: i64, method: &str| BillingRecord {
        consume_token: Some(integer(tokens)),
        ymd: Some(ymd.to_string()),
        method: Some(method.to_string()),
        ..empty_record()
    };
    let records = vec![
        day("2026-04-18", 1, "a"),  // first day of the window
        day("2026-04-17", 10, "b"), // one day too early
        day("2026-05-18", 100, "c"), // after now
        day("2026-05-17", 5, " d "),
        day("2026-05-10", 5, "c"),
        day("2026-05-11", 7, "e"),
        day("2026-05-12", 2, ""),
    ];
    let now = at(2026, 5, 17, 12);
    let summary = aggregate_billing(&records, &cash_flags(&records), now);
    assert_eq!(summary.last_30_days_records, vec![0, 3, 4, 5, 6]);
    assert_eq!(summary.last_30_days_tokens, 20);
    assert_eq!(summary.today_tokens, 5);
    let names: Vec<_> = summary.top_methods.iter().map(|b| (b.name.clone(), b.tokens)).collect();
    assert_eq!(
        names,
        vec![("e".to_string(), 7), ("c".to_string(), 5), ("d".to_string(), 5)]
    );
    assert!(!summary.last_30_days_has_cash);
}

#[test]
fn token_overflow_gives_nothing() {
    let big = |ymd: &str| BillingRecord {
        consume_token: Some(integer(i64::MAX)),
        ymd: Some(ymd.to_string()),
        ..empty_record()
    };
    let records = vec![big("2026-05-16"), big("2026-05-17")];
    let now = at(2026, 5, 17, 12);
    assert!(try_aggregate_billing(&records, &cash_flags(&records), now).is_none());
    let records = vec![big("2026-05-16"), big("2026-01-01")];
    assert!(try_aggregate_billing(&records, &cash_flags(&records), now).is_some());
}

#[test]
fn billing_windows_layout() {
    let records = vec![
        BillingRecord {
            consume_token: Some(integer(1234567)),
            consume_cash: Some(text("2.5")),
            ymd: Some("2026-05-17".to_string()),
            method: Some("chat".to_string()),
            model: Some("m1".to_string()),
            ..empty_record()
        },
        BillingRecord {
            consume_token: Some(integer(10)),
            ymd: Some("2026-05-10".to_string()),
            method: Some("audio".to_string()),
            ..empty_record()
        },
    ];
    let now = at(2026, 5, 17, 12);
    let summary = aggregate_billing(&records, &cash_flags(&records), now);
    let windows = attach_billing_summary(&summary);
    let ids: Vec<_> = windows.iter().map(|w| w.id.as_str()).collect();
    assert_eq!(
        ids,
        vec![
            "billing-tokens-today",
            "billing-tokens-30d",
            "billing-cash-today",
            "billing-cash-30d",
            "billing-method-0",
            "billing-method-1",
            "billing-model-0"
        ]
    );
    match &windows[1].detail {
        WindowDetail::Text(t) => assert_eq!(t, "1,234,577"),
        other => panic!("unexpected {:?}", other),
    }
    assert_eq!(windows[4].label, "Method: chat");
    match &windows[4].detail {
        WindowDetail::TokensAndSpend(t, positions) => {
            assert_eq!(t, "1,234,567");
            assert_eq!(positions, &vec![0]);
        }
        other => panic!("unexpected {:?}", other),
    }
    match &windows[5].detail {
        WindowDetail::Text(t) => assert_eq!(t, "10 tokens"),
        other => panic!("unexpected {:?}", other),
    }
    let (today, window) = billing_headlines(&summary);
    assert_eq!(today, "1,234,567 tokens today");
    assert_eq!(window, "1,234,577 tokens over last 30 days");
}

#[test]
fn totals_match_their_positions() {
    let records: Vec<BillingRecord> = (1..=12)
        .map(|d| BillingRecord {
            consume_token: Some(integer(d * 10)),
            ymd: Some(format!("2026-05-{:02}", d + 6)),
            method: Some(if d % 2 == 0 { "even" } else { "odd" }.to_string()),
            result: Some(text(if d % 5 == 0 { "failed" } else { "Success" })),
            ..empty_record()
        })
        .collect();
    let now = at(2026, 5, 17, 23);
    let summary = aggregate_billing(&records, &cash_flags(&records), now);
    let tokens_at = |positions: &[usize]| -> i64 {
        positions.iter().map(|&p| record_token_count(&records[p])).sum()
    };
    assert_eq!(tokens_at(&summary.last_30_days_records), summary.last_30_days_tokens);
    assert_eq!(tokens_at(&summary.today_records), summary.today_tokens);
    for p in &summary.today_records {
        assert!(summary.last_30_days_records.contains(p));
    }
    for b in &summary.top_methods {
        assert_eq!(tokens_at(&b.records), b.tokens);
    }
    assert!(!summary.last_30_days_records.contains(&4));
    assert!(!summary.last_30_days_records.contains(&9));
    assert_eq!(summary.today_records, vec![10]);
}

#[test]
fn billing_read_at_fixed_instant() {
    let payload = BillingPayload {
        base_resp: Some(BillingBaseResponse { status_code: Some(0), status_msg: None }),
        charge_records: vec![
            BillingRecord {
                consume_token: Some(integer(700)),
                ymd: Some("2026-03-10".to_string()),
                model: Some("m1".to_string()),
                ..empty_record()
            },
            BillingRecord {
                consume_token: Some(integer(300)),
                ymd: Some("2026-02-01".to_string()),
                model: Some("m2".to_string()),
                ..empty_record()
            },
        ],
    };
    let now = at(2026, 3, 10, 8);
    let summary = match billing_read_at(&payload, &vec![false, false], now) {
        BillingRead::Done(Ok(summary)) => summary,
        other => panic!("unexpected {:?}", other),
    };
    assert_eq!(summary.at, now);
    assert_eq!(summary.today_tokens, 700);
    assert_eq!(summary.last_30_days_tokens, 700);
    assert_eq!(summary.last_30_days_records, vec![0]);
    assert_eq!(summary.top_models.len(), 1);
    assert_eq!(summary.top_models[0].name, "m1");
    let refused = BillingPayload {
        base_resp: Some(BillingBaseResponse { status_code: Some(7), status_msg: None }),
        charge_records: vec![],
    };
    match billing_read_at(&refused, &vec![], now) {
        BillingRead::Done(Err(codexbar_minimax::provider::ProviderError::Other(m))) => {
            assert_eq!(m, "MiniMax billing status 7")
        }
        other => panic!("unexpected {:?}", other),
    }
    let earliest = Timestamp { secs: -8334601228800, nanos: 0 };
    match billing_read_at(&payload, &vec![false, false], earliest) {
        BillingRead::Uncomputable(at) => assert_eq!(at, earliest),
        other => panic!("unexpected {:?}", other),
    }
    let huge = BillingPayload {
        base_resp: None,
        charge_records: vec![
            BillingRecord { consume_token: Some(integer(i64::MAX)), ymd: Some("2026-03-10".to_string()), ..empty_record() },
            BillingRecord { consume_token: Some(integer(1)), ymd: Some("2026-03-10".to_string()), ..empty_record() },
        ],
    };
    match billing_read_at(&huge, &vec![false, false], now) {
        BillingRead::Uncomputable(at) => assert_eq!(at, now),
        other => panic!("unexpected {:?}", other),
    }
}

#[test]
fn creation_stamps_within_chrono_range() {
    let stamp = |v: i64| record_date(&BillingRecord { created_at: Some(integer(v)), ..empty_record() });
    assert_eq!(stamp(-8334601228800), Some(Timestamp { secs: -8334601228800, nanos: 0 }));
    assert_eq!(stamp(-8334601228801), None);
    assert_eq!(stamp(8210266876799000), Some(Timestamp { secs: 8210266876799, nanos: 0 }));
    assert_eq!(stamp(8210266876800000), None);
    let now = codexbar_minimax::dates::utc_now().unwrap();
    assert!(now.secs > 1_700_000_000 && now.nanos < 1_000_000_000);
}

#[test]
fn summary_ignores_record_order() {
    let make = |k: usize| {
        let specs = [
            (500, "2026-03-10", "chat", "m1", Some("0.5")),
            (900, "2026-03-01", "audio", "m2", None),
            (200, "2026-03-10", "chat", "m2", None),
            (900, "2026-02-20", "video", "m3", Some("1.0")),
            (50, "2026-01-01", "chat", "m1", Some("2.0")),
        ];
        let (tokens, day, method, model, cash) = specs[k];
        BillingRecord {
            consume_token: Some(integer(tokens)),
            consume_cash: cash.map(text),
            ymd: Some(day.to_string()),
            method: Some(method.to_string()),
            model: Some(model.to_string()),
            ..empty_record()
        }
    };
    let now = at(2026, 3, 10, 12);
    let forward: Vec<BillingRecord> = (0..5).map(make).collect();
    let backward: Vec<BillingRecord> = (0..5).rev().map(make).collect();
    let a = aggregate_billing(&forward, &cash_flags(&forward), now);
    let b = aggregate_billing(&backward, &cash_flags(&backward), now);
    assert_eq!(a.today_tokens, 700);
    assert_eq!(a.last_30_days_tokens, 2500);
    assert_eq!((a.today_tokens, a.last_30_days_tokens), (b.today_tokens, b.last_30_days_tokens));
    assert_eq!((a.today_has_cash, a.last_30_days_has_cash), (b.today_has_cash, b.last_30_days_has_cash));
    let key = |v: &Vec<codexbar_minimax::billing::BillingBreakdown>| {
        v.iter().map(|x| (x.name.clone(), x.tokens, x.has_cash)).collect::<Vec<_>>()
    };
    assert_eq!(key(&a.top_methods), key(&b.top_methods));
    assert_eq!(key(&a.top_models), key(&b.top_models));
    assert_eq!(a.top_methods[0].name, "audio");
    assert_eq!(a.top_models[0].name, "m2");
}
