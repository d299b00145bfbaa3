use crypto_proxy::json::{JsonField, JsonNumber, JsonText, JsonValue};
use crypto_proxy::rest::{
    after_attempt, bar_close_frame, one_minute_tick_frames, is_five_minute_boundary, next_minute_boundary,
    open_interest_from_doc, open_interest_hist_from_entries, premium_index_from_records,
    ratio_metrics_from_entries, report_rest_summary, select_perpetual_symbols,
    send_five_minute_messages, send_one_minute_messages, AttemptOutcome, FetchError,
    FiveMinuteResult, OneMinuteResult, OpenInterestData, OpenInterestHistData, PremiumIndexData,
    RatioMetricsData, RestResult, RestSummaryCollector, RestSummaryStage, RetryStep, SymbolInfo,
};
use crypto_proxy::mkt_msg::RestRequestType;

fn model(v: &serde_json::Value) -> JsonValue {
    match v {
        serde_json::Value::Null => JsonValue::Null,
        serde_json::Value::Bool(b) => JsonValue::Bool(*b),
        serde_json::Value::Number(n) => JsonValue::Number(JsonNumber {
            int: n.as_i64(),
            float: n.as_f64().map(|x| x.to_bits()),
        }),
        serde_json::Value::String(s) => JsonValue::Str(JsonText {
            text: s.clone(),
            int: s.parse::<i64>().ok(),
            float: s.parse::<f64>().ok().map(|x| x.to_bits()),
        }),
        serde_json::Value::Array(a) => JsonValue::Array(a.iter().map(model).collect()),
        serde_json::Value::Object(m) => JsonValue::Object(
            m.iter()
                .map(|(k, v)| JsonField { key: k.clone(), value: model(v) })
                .collect(),
        ),
    }
}

fn doc(text: &str) -> JsonValue {
    model(&serde_json::from_str::<serde_json::Value>(text).unwrap())
}

fn u32_at(f: &[u8], at: usize) -> u32 {
    u32::from_le_bytes(f[at..at + 4].try_into().unwrap())
}

fn i64_at(f: &[u8], at: usize) -> i64 {
    i64::from_le_bytes(f[at..at + 8].try_into().unwrap())
}

fn f64_at(f: &[u8], at: usize) -> f64 {
    f64::from_le_bytes(f[at..at + 8].try_into().unwrap())
}

fn bits(x: f64) -> u64 {
    x.to_bits()
}

#[test]
fn empty_premium_index_still_closes_the_bar() {
    let close_time = 1710000060000;
    let r = premium_index_from_records(&doc("[]"), "BTCUSDT", close_time);
    assert!(matches!(r, Err(FetchError::EmptyResponse)));
    let result = OneMinuteResult {
        close_time,
        premium_index: vec![Err(("BTCUSDT".to_string(), FetchError::EmptyResponse))],
        open_interest: vec![Ok(OpenInterestData { symbol: "BTCUSDT".to_string(), open_interest: bits(5.0), timestamp: 1 })],
    };
    let mut out = Vec::new();
    assert_eq!(send_one_minute_messages(&result, &mut out), 0);
    assert!(out.is_empty());
    let (pi_ok, oi_ok) = result.success_counts();
    assert_eq!(result.premium_index.len() - pi_ok, 1);
    assert_eq!(oi_ok, 1);
    let bar = bar_close_frame(close_time);
    assert_eq!(u32_at(&bar, 0), 1020);
    assert_eq!(i64_at(&bar, 4), close_time);
}

#[test]
fn premium_index_prefers_exact_match() {
    let close = 1710000060000i64;
    let body = r#"[[1709999940000,"1","2","0.5","1.5",1709999999999],[1710000000000,"3","4","2.5","3.5",1710000059999]]"#;
    let d = premium_index_from_records(&doc(body), "BTCUSDT", close).ok().unwrap();
    assert_eq!(d.open_time, 1710000000000);
    assert_eq!(d.open_price, bits(3.0));
    assert_eq!(d.close_price, bits(3.5));
    let older = r#"[[1710000000000,"1","2","0.5","1.5"],[1710000060000,"3","4","2.5","3.5"]]"#;
    let d = premium_index_from_records(&doc(older), "BTCUSDT", close).ok().unwrap();
    assert_eq!(d.open_time, 1710000000000);
    assert_eq!(d.high_price, bits(2.0));
    let neither = r#"[[1,"1","2","0.5","1.5"],[2,"3","4","2.5","3.5"]]"#;
    assert_eq!(premium_index_from_records(&doc(neither), "BTCUSDT", close).ok().unwrap().open_time, 2);
    let numeric = r#"[[1710000000000,1,2,0.5,1.5]]"#;
    assert_eq!(premium_index_from_records(&doc(numeric), "X", close).ok().unwrap().low_price, bits(0.5));
}

#[test]
fn premium_index_errors() {
    let close = 1710000060000i64;
    assert!(matches!(premium_index_from_records(&doc("{}"), "X", close), Err(FetchError::Json(_))));
    assert!(matches!(premium_index_from_records(&doc("[1]"), "X", close), Err(FetchError::Json(_))));
    assert!(matches!(premium_index_from_records(&doc(r#"[["a"]]"#), "X", close), Err(FetchError::MissingField("record"))));
}

#[test]
fn open_interest_reading() {
    let d = open_interest_from_doc(&doc(r#"{"openInterest":"10.5","symbol":"X","time":7}"#), "X").ok().unwrap();
    assert_eq!(d.open_interest, bits(10.5));
    assert_eq!(d.timestamp, 7);
    assert!(matches!(open_interest_from_doc(&doc(r#"{"time":7}"#), "X"), Err(FetchError::MissingField("openInterest"))));
    assert!(matches!(open_interest_from_doc(&doc(r#"{"openInterest":"1"}"#), "X"), Err(FetchError::MissingField("time"))));
    assert!(matches!(open_interest_from_doc(&doc(r#"{"openInterest":"z","time":1}"#), "X"), Err(FetchError::MissingField("openInterest parse"))));
}

#[test]
fn ratio_entries_match_the_bucket() {
    let body = r#"[{"symbol":"X","longAccount":"0.6","shortAccount":"0.4","longShortRatio":"1.5","timestamp":"1710000000000"},
                   {"symbol":"X","longAccount":"0.7","shortAccount":"0.3","longShortRatio":"2.3","timestamp":1710000300001}]"#;
    let r = ratio_metrics_from_entries(&doc(body), "X", "longAccount", "shortAccount", 1710000300000).ok().unwrap();
    assert_eq!(r.long_value, bits(0.7));
    assert_eq!(r.ratio_value, bits(2.3));
    assert_eq!(r.timestamp, 1710000300001);
    let r = ratio_metrics_from_entries(&doc(body), "X", "longAccount", "shortAccount", 1710000000000).ok().unwrap();
    assert_eq!(r.short_value, bits(0.4));
    assert!(matches!(ratio_metrics_from_entries(&doc(body), "X", "longAccount", "shortAccount", 5), Err(FetchError::MatchFailure)));
    assert!(matches!(ratio_metrics_from_entries(&doc("[]"), "X", "a", "b", 5), Err(FetchError::EmptyResponse)));
    assert!(matches!(ratio_metrics_from_entries(&doc(body), "X", "longPosition", "shortAccount", 1710000000000), Err(FetchError::MissingField("longPosition"))));
}

#[test]
fn open_interest_history_reading() {
    let body = r#"[{"symbol":"X","sumOpenInterest":"100","sumOpenInterestValue":"2000","timestamp":300000}]"#;
    let h = open_interest_hist_from_entries(&doc(body), "X", 300000).ok().unwrap();
    assert_eq!(h.sum_open_interest, bits(100.0));
    assert_eq!(h.sum_open_interest_value, bits(2000.0));
    assert_eq!(h.cmc_circulating_supply, 0);
    let missing = r#"[{"sumOpenInterest":"100","timestamp":300000}]"#;
    assert!(matches!(open_interest_hist_from_entries(&doc(missing), "X", 300000), Err(FetchError::MissingField("sumOpenInterestValue"))));
}

fn ratio(symbol: &str, v: f64, ts: i64) -> Result<RatioMetricsData, (String, FetchError)> {
    Ok(RatioMetricsData { symbol: symbol.to_string(), long_value: bits(v), short_value: bits(v), ratio_value: bits(v), timestamp: ts })
}

#[test]
fn one_minute_frames_join_open_interest() {
    let result = OneMinuteResult {
        close_time: 120000,
        premium_index: vec![
            Ok(PremiumIndexData { symbol: "A".to_string(), open_time: 60000, open_price: bits(1.0), high_price: bits(2.0), low_price: bits(3.0), close_price: bits(4.0) }),
            Ok(PremiumIndexData { symbol: "B".to_string(), open_time: 60000, open_price: 0, high_price: 0, low_price: 0, close_price: 0 }),
        ],
        open_interest: vec![
            Ok(OpenInterestData { symbol: "A".to_string(), open_interest: bits(7.0), timestamp: 1 }),
            Ok(OpenInterestData { symbol: "A".to_string(), open_interest: bits(8.0), timestamp: 2 }),
        ],
    };
    let mut out = Vec::new();
    assert_eq!(send_one_minute_messages(&result, &mut out), 2);
    assert_eq!(u32_at(&out[0], 0), 1015);
    assert_eq!(out[0].len(), 65);
    assert_eq!(f64_at(&out[0], 49), 8.0);
    assert_eq!(i64_at(&out[0], 57), 2);
    assert_eq!(i64_at(&out[1], 57), 0);
}

#[test]
fn five_minute_frames_need_all_three_ratios() {
    let result = FiveMinuteResult {
        close_time: 300000,
        top_account: vec![ratio("A", 1.0, 1), ratio("B", 1.0, 1), ratio("A", 2.0, 2), Err(("C".to_string(), FetchError::Timeout))],
        top_position: vec![ratio("A", 3.0, 3), ratio("B", 3.0, 3)],
        global_account: vec![ratio("A", 4.0, 4)],
        open_interest_hist: vec![Ok(OpenInterestHistData { symbol: "A".to_string(), sum_open_interest: bits(5.0), sum_open_interest_value: 0, cmc_circulating_supply: 0, timestamp: 9 })],
    };
    let mut out = Vec::new();
    assert_eq!(send_five_minute_messages(&result, &mut out), 1);
    let f = &out[0][..];
    assert_eq!(u32_at(f, 0), 1017);
    assert_eq!(f.len(), 145);
    assert_eq!(i64_at(f, 9), 300000);
    assert_eq!(f64_at(f, 17), 2.0);
    assert_eq!(f64_at(f, 41), 3.0);
    assert_eq!(f64_at(f, 65), 4.0);
    assert_eq!(i64_at(f, 89), 2);
    assert_eq!(f64_at(f, 113), 5.0);
    assert_eq!(i64_at(f, 137), 9);
    assert_eq!(result.success_counts(), (3, 2, 1, 1));
}

#[test]
fn minute_boundaries() {
    assert_eq!(next_minute_boundary(1710000000000), (1710000060000, 60000));
    assert_eq!(next_minute_boundary(1710000001234), (1710000060000, 58766));
    assert_eq!(next_minute_boundary(0), (60000, 60000));
    assert!(is_five_minute_boundary(1710000300000));
    assert!(!is_five_minute_boundary(1710000060000));
}

#[test]
fn perpetual_symbol_selection() {
    let info = |s: &str, st: &str, q: &str, c: Option<&str>| SymbolInfo {
        symbol: s.to_string(),
        status: st.to_string(),
        quote_asset: q.to_string(),
        contract_type: c.map(|x| x.to_string()),
    };
    let infos = vec![
        info("BTCUSDT", "TRADING", "USDT", Some("PERPETUAL")),
        info("ETHBUSD", "TRADING", "BUSD", Some("PERPETUAL")),
        info("BTCUSDT_240329", "TRADING", "USDT", Some("CURRENT_QUARTER")),
        info("OLDUSDT", "SETTLING", "USDT", Some("PERPETUAL")),
        info("XUSDT", "TRADING", "USDT", None),
        info("ETHUSDT", "TRADING", "USDT", Some("PERPETUAL")),
    ];
    assert_eq!(select_perpetual_symbols(&infos), vec!["BTCUSDT".to_string(), "ETHUSDT".to_string()]);
}

#[test]
fn retries_and_errors() {
    let ok = after_attempt(0, AttemptOutcome::Response { status: 200, body: Ok("[]".to_string()) });
    assert!(matches!(ok, RetryStep::Done(Ok(ref b)) if b == "[]"));
    let again = after_attempt(0, AttemptOutcome::Response { status: 503, body: Ok(String::new()) });
    assert!(matches!(again, RetryStep::Retry(FetchError::Http(503))));
    let last = after_attempt(1, AttemptOutcome::Transport { timeout: true, message: String::new() });
    assert!(matches!(last, RetryStep::Done(Err(FetchError::Timeout))));
    let body = after_attempt(1, AttemptOutcome::Response { status: 200, body: Err("eof".to_string()) });
    assert!(matches!(body, RetryStep::Done(Err(FetchError::Request(ref m))) if m == "eof"));
    assert_eq!(FetchError::Http(404).detail(), "HTTP 404");
    assert_eq!(FetchError::Request("boom".to_string()).detail(), "请求错误: boom");
    assert_eq!(FetchError::MissingField("time").detail(), "缺少字段 time");
    assert_eq!(FetchError::EmptyResponse.detail(), "空响应");
}

#[test]
fn summary_frames_mark_missing_requests() {
    let mut c = RestSummaryCollector::new();
    c.update(RestResult::success(RestRequestType::PremiumIndex, "ts=1".to_string()));
    assert!(c.get(RestRequestType::PremiumIndex).unwrap().success);
    assert!(c.get(RestRequestType::OpenInterest).is_none());
    let f = report_rest_summary("AB", 60000, &c, RestSummaryStage::OneMinute);
    assert_eq!(u32_at(&f, 0), 1018);
    assert_eq!(&f[18..20], &[1, 1]);
    assert_eq!(&f[28..30], &[2, 0]);
    assert_eq!(u32_at(&f, 30), 9);
    assert_eq!(&f[34..43], "未执行".as_bytes());
    assert_eq!(f.len(), 43);
    let g = report_rest_summary("AB", 300000, &c, RestSummaryStage::FiveMinute);
    assert_eq!(u32_at(&g, 0), 1019);
    assert_eq!(g.len(), 18 + 4 * 15);
    assert_eq!(RestSummaryStage::FiveMinute.requests().len(), 4);
    assert_eq!(RestSummaryStage::OneMinute.label(), "1m");
    c.update(RestResult::failure(RestRequestType::PremiumIndex, "x".to_string()));
    assert!(!c.get(RestRequestType::PremiumIndex).unwrap().success);
}

#[test]
fn minute_tick_ends_with_one_bar_close() {
    let result = OneMinuteResult {
        close_time: 1710000060000,
        premium_index: vec![
            Ok(PremiumIndexData { symbol: "A".to_string(), open_time: 1710000000000, open_price: 0, high_price: 0, low_price: 0, close_price: 0 }),
            Err(("B".to_string(), FetchError::MatchFailure)),
        ],
        open_interest: vec![],
    };
    let mut out = Vec::new();
    assert_eq!(one_minute_tick_frames(&result, &mut out), 2);
    assert_eq!(u32_at(&out[0], 0), 1015);
    assert_eq!(u32_at(&out[1], 0), 1020);
    assert_eq!(i64_at(&out[1], 4), 1710000060000);
    assert_eq!(FetchError::MatchFailure.detail(), "匹配失败");
    assert_eq!(FetchError::Timeout.detail(), "请求超时");
}
