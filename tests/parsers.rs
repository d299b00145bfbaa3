use crypto_proxy::json::{JsonField, JsonNumber, JsonText, JsonValue};
use crypto_proxy::parser::{
    BinanceDerivativesMetricsParser, BinanceIncParser, BinanceKlineParser, BinanceSignalParser,
    BinanceSnapshotParser, BinanceTradeParser,
};

fn model(v: &serde_json::Value) -> JsonValue {
    match v {
        serde_json::Value::Null => JsonValue::Null,
        serde_json::Value::Bool(b) => JsonValue::Bool(*b),
        serde_json::Value::Number(n) => JsonValue::Number(JsonNumber {
            int: n.as_i64(),
            float: n.as_f64().map(|x| x.to_bits()),
        }),
        serde_json::Value::String(s) => JsonValue::Str(JsonText {
            text: s.clone(),
            int: s.parse::<i64>().ok(),
            float: s.parse::<f64>().ok().map(|x| x.to_bits()),
        }),
        serde_json::Value::Array(a) => JsonValue::Array(a.iter().map(model).collect()),
        serde_json::Value::Object(m) => JsonValue::Object(
            m.iter()
                .map(|(k, v)| JsonField { key: k.clone(), value: model(v) })
                .collect(),
        ),
    }
}

fn doc(text: &str) -> JsonValue {
    model(&serde_json::from_str::<serde_json::Value>(text).unwrap())
}

fn u32_at(f: &[u8], at: usize) -> u32 {
    u32::from_le_bytes(f[at..at + 4].try_into().unwrap())
}

fn i64_at(f: &[u8], at: usize) -> i64 {
    i64::from_le_bytes(f[at..at + 8].try_into().unwrap())
}

fn f64_at(f: &[u8], at: usize) -> f64 {
    f64::from_le_bytes(f[at..at + 8].try_into().unwrap())
}

const TRADE: &str = r#"{"e":"trade","s":"BTCUSDT","t":42,"p":"100.5","q":"0.01","T":1710000000000,"m":true}"#;
const DEPTH: &str = r#"{"e":"depthUpdate","s":"BTCUSDT","U":10,"u":20,"pu":9,"T":1710000000000,"b":[["100","1"]],"a":[["101","2"]]}"#;
const DEPTH_SPOT: &str = r#"{"e":"depthUpdate","s":"BTCUSDT","U":10,"u":20,"T":1710000000000,"b":[["100","1"]],"a":[["101","2"]]}"#;

#[test]
fn trade_payload_gives_one_55_byte_sell_frame() {
    let mut out = Vec::new();
    let n = BinanceTradeParser::new().parse(&doc(TRADE), &mut out);
    assert_eq!(n, 1);
    assert_eq!(out.len(), 1);
    let f = &out[0][..];
    assert_eq!(f.len(), 55);
    assert_eq!(u32_at(f, 0), 1001);
    assert_eq!(u32_at(f, 4), 7);
    assert_eq!(&f[8..15], b"BTCUSDT");
    assert_eq!(i64_at(f, 15), 42);
    assert_eq!(i64_at(f, 23), 1710000000000);
    assert_eq!(f[31], b'S');
    assert_eq!(&f[32..39], &[0u8; 7]);
    assert_eq!(f64_at(f, 39), 100.5);
    assert_eq!(f64_at(f, 47), 0.01);
}

#[test]
fn trade_buyer_taker_is_buy_side() {
    let mut out = Vec::new();
    let text = TRADE.replace("\"m\":true", "\"m\":false");
    assert_eq!(BinanceTradeParser::new().parse(&doc(&text), &mut out), 1);
    assert_eq!(out[0][31], b'B');
}

#[test]
fn trade_with_zero_or_negative_values_is_dropped() {
    let mut out = Vec::new();
    let zero_price = TRADE.replace("\"100.5\"", "\"0.0\"");
    assert_eq!(BinanceTradeParser::new().parse(&doc(&zero_price), &mut out), 0);
    let negative_qty = TRADE.replace("\"0.01\"", "\"-1\"");
    assert_eq!(BinanceTradeParser::new().parse(&doc(&negative_qty), &mut out), 0);
    let bad_price = TRADE.replace("\"100.5\"", "\"abc\"");
    assert_eq!(BinanceTradeParser::new().parse(&doc(&bad_price), &mut out), 0);
    assert!(out.is_empty());
}

#[test]
fn trade_parser_ignores_other_events_and_missing_fields() {
    let mut out = Vec::new();
    let other = TRADE.replace("\"trade\"", "\"aggTrade\"");
    assert_eq!(BinanceTradeParser::new().parse(&doc(&other), &mut out), 0);
    let missing = TRADE.replace(",\"m\":true", "");
    assert_eq!(BinanceTradeParser::new().parse(&doc(&missing), &mut out), 0);
    assert_eq!(BinanceTradeParser::new().parse(&doc("[1,2]"), &mut out), 0);
    assert!(out.is_empty());
}

#[test]
fn futures_depth_gives_seqno_then_book() {
    let mut out = Vec::new();
    let n = BinanceIncParser::new(true).parse(&doc(DEPTH), &mut out);
    assert_eq!(n, 2);
    let seq = &out[0][..];
    assert_eq!(u32_at(seq, 0), 1016);
    assert_eq!(&seq[8..15], b"BTCUSDT");
    assert_eq!(i64_at(seq, 15), 9);
    assert_eq!(i64_at(seq, 23), 20);
    assert_eq!(i64_at(seq, 31), 10);
    assert_eq!(i64_at(seq, 39), 1710000000000);
    assert_eq!(seq.len(), 47);
    let book = &out[1][..];
    assert_eq!(u32_at(book, 0), 1005);
    assert_eq!(i64_at(book, 15), 10);
    assert_eq!(i64_at(book, 23), 20);
    assert_eq!(i64_at(book, 31), 1710000000000);
    assert_eq!(book[39], 0);
    assert_eq!(u32_at(book, 47), 1);
    assert_eq!(u32_at(book, 51), 1);
    assert_eq!(f64_at(book, 55), 100.0);
    assert_eq!(f64_at(book, 63), 1.0);
    assert_eq!(f64_at(book, 71), 101.0);
    assert_eq!(f64_at(book, 79), 2.0);
    assert_eq!(book.len(), 48 + 7 + 32);
}

#[test]
fn spot_depth_gives_book_only() {
    let mut out = Vec::new();
    let n = BinanceIncParser::new(false).parse(&doc(DEPTH_SPOT), &mut out);
    assert_eq!(n, 1);
    assert_eq!(u32_at(&out[0], 0), 1005);
    assert_eq!(out[0].len(), 87);
}

#[test]
fn futures_depth_without_pu_is_dropped() {
    let mut out = Vec::new();
    assert_eq!(BinanceIncParser::new(true).parse(&doc(DEPTH_SPOT), &mut out), 0);
    assert!(out.is_empty());
}

#[test]
fn depth_uses_event_time_without_trade_time() {
    let mut out = Vec::new();
    let text = DEPTH_SPOT.replace("\"T\":1710000000000", "\"E\":1700000000000");
    assert_eq!(BinanceIncParser::new(false).parse(&doc(&text), &mut out), 1);
    assert_eq!(i64_at(&out[0], 31), 1700000000000);
}

#[test]
fn malformed_levels_become_zero() {
    let mut out = Vec::new();
    let text = r#"{"e":"depthUpdate","s":"X","U":1,"u":2,"E":3,"b":[["1"],["x","2"]],"a":[]}"#;
    assert_eq!(BinanceIncParser::new(false).parse(&doc(text), &mut out), 1);
    let f = &out[0][..];
    assert_eq!(u32_at(f, 41), 2);
    assert_eq!(u32_at(f, 45), 0);
    assert_eq!(f64_at(f, 49), 0.0);
    assert_eq!(f64_at(f, 57), 0.0);
    assert_eq!(f64_at(f, 65), 0.0);
    assert_eq!(f64_at(f, 73), 2.0);
}

#[test]
fn snapshot_gives_one_book_with_next_ids() {
    let mut out = Vec::new();
    let text = r#"{"s":"ETHUSDT","lastUpdateId":99,"bids":[["10","1"],["9","2"]],"asks":[["11","3"]]}"#;
    assert_eq!(BinanceSnapshotParser::new().parse(&doc(text), &mut out), 1);
    let f = &out[0][..];
    assert_eq!(u32_at(f, 0), 1005);
    assert_eq!(i64_at(f, 15), 100);
    assert_eq!(i64_at(f, 23), 100);
    assert_eq!(i64_at(f, 31), 0);
    assert_eq!(f[39], 1);
    assert_eq!(u32_at(f, 47), 2);
    assert_eq!(u32_at(f, 51), 1);
    assert_eq!(f.len(), 55 + 48);
    assert_eq!(f64_at(f, 55 + 32), 11.0);
}

#[test]
fn kline_gives_one_frame_open_or_closed() {
    let text = r#"{"e":"kline","s":"BTCUSDT","k":{"t":1710000000000,"T":1710000059999,"o":"1","h":"2","l":"0.5","c":"1.5","v":"10","q":"15","n":7,"V":"4","Q":"6","x":false}}"#;
    let mut out = Vec::new();
    assert_eq!(BinanceKlineParser::new(true).parse(&doc(text), &mut out), 1);
    let f = &out[0][..];
    assert_eq!(f.len(), 88 + 7);
    assert_eq!(u32_at(f, 0), 1010);
    assert_eq!(f64_at(f, 15), 1.0);
    assert_eq!(f64_at(f, 23), 2.0);
    assert_eq!(f64_at(f, 31), 0.5);
    assert_eq!(f64_at(f, 39), 1.5);
    assert_eq!(f64_at(f, 47), 10.0);
    assert_eq!(f64_at(f, 55), 15.0);
    assert_eq!(i64_at(f, 63), 1710000000000);
    assert_eq!(i64_at(f, 71), 7);
    assert_eq!(f64_at(f, 79), 4.0);
    assert_eq!(f64_at(f, 87), 6.0);
    let missing = text.replace("\"n\":7,", "");
    assert_eq!(BinanceKlineParser::new(false).parse(&doc(&missing), &mut out), 0);
}

#[test]
fn signal_carries_source_and_event_time() {
    let mut out = Vec::new();
    assert_eq!(BinanceSignalParser::new(true).parse(&doc(r#"{"E":123}"#), &mut out), 1);
    assert_eq!(BinanceSignalParser::new(false).parse(&doc(r#"{"E":456}"#), &mut out), 1);
    assert_eq!(BinanceSignalParser::new(false).parse(&doc(r#"{"e":"x"}"#), &mut out), 0);
    assert_eq!(out[0].len(), 16);
    assert_eq!(u32_at(&out[0], 0), 1111);
    assert_eq!(u32_at(&out[0], 4), 1);
    assert_eq!(i64_at(&out[0], 8), 123);
    assert_eq!(u32_at(&out[1], 4), 2);
    assert_eq!(i64_at(&out[1], 8), 456);
}

fn derivatives() -> BinanceDerivativesMetricsParser {
    BinanceDerivativesMetricsParser::new(vec!["btcusdt".to_string()])
}

#[test]
fn mark_price_array_keeps_tracked_symbols_only() {
    let text = r#"[{"e":"markPriceUpdate","E":1,"s":"BTCUSDT","p":"100","i":"99","P":"1","r":"0.0001","T":28800000},
                   {"e":"markPriceUpdate","E":1,"s":"ETHUSDT","p":"10","i":"9","P":"1","r":"0.0002","T":28800000}]"#;
    let mut out = Vec::new();
    assert_eq!(derivatives().parse(&doc(text), &mut out), 3);
    assert_eq!(out.len(), 3);
    assert_eq!(u32_at(&out[0], 0), 1011);
    assert_eq!(u32_at(&out[1], 0), 1012);
    assert_eq!(u32_at(&out[2], 0), 1014);
    for f in &out {
        assert_eq!(&f[8..15], b"BTCUSDT");
    }
    assert_eq!(f64_at(&out[0], 15), 100.0);
    assert_eq!(i64_at(&out[0], 23), 1);
    assert_eq!(f64_at(&out[1], 15), 99.0);
    assert_eq!(f64_at(&out[2], 15), 0.0001);
    assert_eq!(i64_at(&out[2], 23), 28800000);
    assert_eq!(i64_at(&out[2], 31), 1);
    assert_eq!(out[0].len(), 31);
    assert_eq!(out[2].len(), 39);
}

#[test]
fn single_mark_price_update() {
    let text = r#"{"e":"markPriceUpdate","E":5,"s":"btcusdt","p":"1","i":"2","r":"3","T":6}"#;
    let mut out = Vec::new();
    assert_eq!(derivatives().parse(&doc(text), &mut out), 3);
    let untracked = text.replace("btcusdt", "xrpusdt");
    assert_eq!(derivatives().parse(&doc(&untracked), &mut out), 0);
}

#[test]
fn liquidation_sides() {
    let text = r#"{"e":"forceOrder","E":1,"o":{"s":"BTCUSDT","S":"SELL","q":"1","p":"1","ap":"101.5","z":"0.5","T":77}}"#;
    let mut out = Vec::new();
    assert_eq!(derivatives().parse(&doc(text), &mut out), 1);
    let f = &out[0][..];
    assert_eq!(f.len(), 33 + 7);
    assert_eq!(u32_at(f, 0), 1013);
    assert_eq!(f[15], b'S');
    assert_eq!(f64_at(f, 16), 0.5);
    assert_eq!(f64_at(f, 24), 101.5);
    assert_eq!(i64_at(f, 32), 77);
    let buy = text.replace("SELL", "BUY");
    assert_eq!(derivatives().parse(&doc(&buy), &mut out), 1);
    assert_eq!(out[1][15], b'B');
    let odd = text.replace("SELL", "HOLD");
    assert_eq!(derivatives().parse(&doc(&odd), &mut out), 0);
    let other = text.replace("forceOrder", "other");
    assert_eq!(derivatives().parse(&doc(&other), &mut out), 0);
}

#[test]
fn every_frame_has_its_predicted_length() {
    let mut out = Vec::new();
    BinanceTradeParser::new().parse(&doc(TRADE), &mut out);
    BinanceIncParser::new(true).parse(&doc(DEPTH), &mut out);
    BinanceSignalParser::new(true).parse(&doc(r#"{"E":1}"#), &mut out);
    for f in &out {
        let sym = u32_at(f, 4) as usize;
        let expected = match u32_at(f, 0) {
            1001 => 48 + sym,
            1016 => 40 + sym,
            1005 => 48 + sym + 16 * (u32_at(f, 8 + sym + 32) + u32_at(f, 8 + sym + 36)) as usize,
            1111 => 16,
            _ => unreachable!(),
        };
        assert_eq!(f.len(), expected);
    }
}

#[test]
fn empty_symbol_and_largest_ids() {
    let mut out = Vec::new();
    let text = r#"{"e":"trade","s":"","t":9223372036854775807,"p":"1","q":"1","T":-1,"m":false}"#;
    assert_eq!(BinanceTradeParser::new().parse(&doc(text), &mut out), 1);
    assert_eq!(out[0].len(), 48);
    assert_eq!(u32_at(&out[0], 4), 0);
    assert_eq!(i64_at(&out[0], 8), i64::MAX);
    assert_eq!(i64_at(&out[0], 16), -1);
    let snap = r#"{"s":"X","lastUpdateId":9223372036854775807,"bids":[],"asks":[]}"#;
    assert_eq!(BinanceSnapshotParser::new().parse(&doc(snap), &mut out), 0);
    let empty_book = r#"{"s":"X","lastUpdateId":1,"bids":[],"asks":[]}"#;
    assert_eq!(BinanceSnapshotParser::new().parse(&doc(empty_book), &mut out), 1);
    assert_eq!(out[1].len(), 49);
}

#[test]
fn nan_price_is_not_dropped() {
    let mut out = Vec::new();
    let text = TRADE.replace("\"100.5\"", "\"NaN\"");
    assert_eq!(BinanceTradeParser::new().parse(&doc(&text), &mut out), 1);
    assert!(f64_at(&out[0], 39).is_nan());
}

#[test]
fn lowered_symbol_membership() {
    let p = derivatives();
    assert!(p.tracks_lowered("btcusdt"));
    assert!(!p.tracks_lowered("BTCUSDT"));
    assert!(!p.tracks_lowered("ethusdt"));
}
