use crypto_proxy::mkt_msg::{
    BarClose1mMsg, BinanceIncSeqNoMsg, FundingRateMsg, IncMsg, IndexPriceMsg, KlineMsg, Level,
    LiquidationMsg, MarkPriceMsg, MktMsg, MktMsgType, PremiumIndexKlineMsg, RestRequestType,
    RestSummary1mMsg, RestSummary5mMsg, RestSummaryEntry, SignalMsg, SignalSource,
    TopLongShortRatioMsg, TradeMsg,
};

fn u32_at(f: &[u8], at: usize) -> u32 {
    u32::from_le_bytes(f[at..at + 4].try_into().unwrap())
}

fn i64_at(f: &[u8], at: usize) -> i64 {
    i64::from_le_bytes(f[at..at + 8].try_into().unwrap())
}

fn f64_at(f: &[u8], at: usize) -> f64 {
    f64::from_le_bytes(f[at..at + 8].try_into().unwrap())
}

#[test]
fn type_tags() {
    assert_eq!(MktMsgType::TradeInfo.code(), 1001);
    assert_eq!(MktMsgType::OrderBookInc.code(), 1005);
    assert_eq!(MktMsgType::TpReset.code(), 1009);
    assert_eq!(MktMsgType::Kline.code(), 1010);
    assert_eq!(MktMsgType::MarkPrice.code(), 1011);
    assert_eq!(MktMsgType::IndexPrice.code(), 1012);
    assert_eq!(MktMsgType::LiquidationOrder.code(), 1013);
    assert_eq!(MktMsgType::FundingRate.code(), 1014);
    assert_eq!(MktMsgType::PremiumIndexKline.code(), 1015);
    assert_eq!(MktMsgType::BinanceIncSeqNo.code(), 1016);
    assert_eq!(MktMsgType::BinanceTopLongShortRatio.code(), 1017);
    assert_eq!(MktMsgType::RestSummary1m.code(), 1018);
    assert_eq!(MktMsgType::RestSummary5m.code(), 1019);
    assert_eq!(MktMsgType::TimeSignal.code(), 1111);
    assert_eq!(MktMsgType::Error.code(), 2222);
    assert_eq!(SignalSource::Ipc.code(), 1);
    assert_eq!(SignalSource::Tcp.code(), 2);
}

#[test]
fn trade_layout_and_sizes() {
    let m = TradeMsg::create("BTCUSDT".to_string(), -3, 1710000000000, 'B', 100.5f64.to_bits(), 0.01f64.to_bits());
    let b = m.to_bytes();
    assert_eq!(b.len(), 55);
    assert_eq!(m.aligned_size(), 55);
    assert_eq!(i64_at(&b, 15), -3);
    assert_eq!(b[31], b'B');
    assert_eq!(f64_at(&b, 39), 100.5);
    assert_eq!(m.to_bytes(), b);
}

#[test]
fn book_levels_are_placed_bids_then_asks() {
    let mut m = IncMsg::create("ETH".to_string(), 1, 2, 3, false, 2, 1);
    assert_eq!(m.levels.len(), 3);
    m.set_bid_level(1, Level::from_values(5.0f64.to_bits(), 6.0f64.to_bits()));
    m.set_ask_level(0, Level::from_values(7.0f64.to_bits(), 8.0f64.to_bits()));
    m.set_bid_level(2, Level::from_values(9.0f64.to_bits(), 9.0f64.to_bits()));
    m.set_ask_level(1, Level::from_values(9.0f64.to_bits(), 9.0f64.to_bits()));
    let b = m.to_bytes();
    assert_eq!(b.len(), 48 + 3 + 48);
    assert_eq!(m.size(), b.len());
    assert_eq!(u32_at(&b, 43), 2);
    assert_eq!(u32_at(&b, 47), 1);
    assert_eq!(f64_at(&b, 51), 0.0);
    assert_eq!(f64_at(&b, 67), 5.0);
    assert_eq!(f64_at(&b, 75), 6.0);
    assert_eq!(f64_at(&b, 83), 7.0);
    assert_eq!(f64_at(&b, 91), 8.0);
    assert_eq!(m.to_bytes(), b);
}

#[test]
fn seqno_and_signal_layouts() {
    let s = BinanceIncSeqNoMsg::create("AB".to_string(), 9, 20, 10, 77).to_bytes();
    assert_eq!(s.len(), 42);
    assert_eq!(u32_at(&s, 0), 1016);
    assert_eq!(u32_at(&s, 4), 2);
    assert_eq!(i64_at(&s, 10), 9);
    assert_eq!(i64_at(&s, 18), 20);
    assert_eq!(i64_at(&s, 26), 10);
    assert_eq!(i64_at(&s, 34), 77);
    let g = SignalMsg::create(SignalSource::Tcp, -5).to_bytes();
    assert_eq!(&g[..], &[0x57, 0x04, 0, 0, 2, 0, 0, 0, 0xfb, 0xff, 0xff, 0xff, 0xff, 0xff, 0xff, 0xff]);
}

#[test]
fn kline_defaults_and_binance_fields() {
    let mut k = KlineMsg::create("X".to_string(), 1.0f64.to_bits(), 2.0f64.to_bits(), 3.0f64.to_bits(), 4.0f64.to_bits(), 5.0f64.to_bits(), 6.0f64.to_bits(), 7);
    assert_eq!(k.trade_num, 0);
    let b0 = k.to_bytes();
    assert_eq!(i64_at(&b0, 65), 0);
    k.set_binance_fields(11, 12.0f64.to_bits(), 13.0f64.to_bits());
    let b = k.to_bytes();
    assert_eq!(b.len(), 89);
    assert_eq!(i64_at(&b, 57), 7);
    assert_eq!(i64_at(&b, 65), 11);
    assert_eq!(f64_at(&b, 73), 12.0);
    assert_eq!(f64_at(&b, 81), 13.0);
}

#[test]
fn price_frames() {
    let m = MarkPriceMsg::create("A".to_string(), 1.5f64.to_bits(), 9).to_bytes();
    assert_eq!(m.len(), 25);
    assert_eq!(u32_at(&m, 0), 1011);
    assert_eq!(f64_at(&m, 9), 1.5);
    let x = IndexPriceMsg::create("A".to_string(), 2.5f64.to_bits(), 9).to_bytes();
    assert_eq!(u32_at(&x, 0), 1012);
    assert_eq!(f64_at(&x, 9), 2.5);
    let f = FundingRateMsg::create("A".to_string(), 0.5f64.to_bits(), 100, 9).to_bytes();
    assert_eq!(f.len(), 33);
    assert_eq!(i64_at(&f, 17), 100);
    assert_eq!(i64_at(&f, 25), 9);
    let l = LiquidationMsg::create("A".to_string(), 'S', 3.0f64.to_bits(), 4.0f64.to_bits(), 5).to_bytes();
    assert_eq!(l.len(), 34);
    assert_eq!(l[9], b'S');
}

#[test]
fn premium_and_ratio_frames() {
    let mut p = PremiumIndexKlineMsg::create("AB".to_string(), 1.0f64.to_bits(), 2.0f64.to_bits(), 3.0f64.to_bits(), 4.0f64.to_bits(), 60000);
    assert_eq!(p.open_interest, 0);
    p.set_open_interest(5.0f64.to_bits(), 61000);
    let b = p.to_bytes();
    assert_eq!(b.len(), 66);
    assert_eq!(i64_at(&b, 42), 60000);
    assert_eq!(f64_at(&b, 50), 5.0);
    assert_eq!(i64_at(&b, 58), 61000);
    let mut r = TopLongShortRatioMsg::create("AB".to_string(), 300000, 1, 2, 3, 4, 5, 6, 7, 8, 9, 10, 11, 12);
    let r0 = r.to_bytes();
    assert_eq!(r0.len(), 146);
    assert_eq!(i64_at(&r0, 138), 0);
    r.set_open_interest_hist(13, 14, 15, 16);
    let r1 = r.to_bytes();
    assert_eq!(i64_at(&r1, 10), 300000);
    assert_eq!(u32_at(&r1, 18), 1);
    assert_eq!(i64_at(&r1, 90), 10);
    assert_eq!(i64_at(&r1, 138), 16);
}

#[test]
fn envelope_and_reset() {
    let m = MktMsg::create(MktMsgType::Kline, bytes::Bytes::from(vec![1u8, 2, 3]));
    assert_eq!(m.msg_length, 3);
    assert_eq!(&m.to_bytes()[..], &[0xf2, 0x03, 0, 0, 3, 0, 0, 0, 1, 2, 3]);
    let r = MktMsg::tp_reset();
    assert_eq!(&r.to_bytes()[..], &[0xf1, 0x03, 0, 0, 0, 0, 0, 0]);
    let c = BarClose1mMsg::create(1710000060000).to_bytes();
    assert_eq!(c.len(), 12);
    assert_eq!(i64_at(&c, 4), 1710000060000);
}

#[test]
fn rest_summary_frames() {
    let a = RestSummaryEntry::new(RestRequestType::PremiumIndex, true, "ts=1".to_string());
    let b = RestSummaryEntry::new(RestRequestType::OpenInterest, false, "".to_string());
    assert_eq!(a.detail_len(), 4);
    let m = RestSummary1mMsg::create("AB".to_string(), 5, a.clone(), b.clone()).to_bytes();
    assert_eq!(m.len(), 4 + 4 + 2 + 8 + (6 + 4) + 6);
    assert_eq!(u32_at(&m, 0), 1018);
    assert_eq!(&m[18..24], &[1, 1, 4, 0, 0, 0]);
    assert_eq!(&m[24..28], b"ts=1");
    assert_eq!(&m[28..34], &[2, 0, 0, 0, 0, 0]);
    let f = RestSummary5mMsg::create("AB".to_string(), 5, a.clone(), b.clone(), a, b).to_bytes();
    assert_eq!(u32_at(&f, 0), 1019);
    assert_eq!(f.len(), 18 + 2 * 10 + 2 * 6);
    assert_eq!(RestRequestType::OpenInterestHist.as_str(), "open-interest-hist");
    assert_eq!(RestRequestType::TopAccount.code(), 3);
}
