//! REST bar aggregation: reading endpoint responses into records, matching
//! them to bar boundaries, composing the derived frames, and the
//! wall-clock arithmetic of the minute scheduler.

use vstd::prelude::*;
use crate::json::{JsonValue, str_eq, str_at, i64_at, get_i64};
use crate::mkt_msg::{
    bytes_view, bar_close_layout, head, PremiumIndexKlineMsg, TopLongShortRatioMsg,
    BarClose1mMsg, MktMsgType, RestRequestType, RestSummaryEntry, RestSummary1mMsg,
    RestSummary5mMsg,
};
use crate::wire::{le32, le64, lei64, len32, utf8};
use crate::parser::{views, emit};

verus! {

pub const ONE_MINUTE_MILLIS: i64 = 60_000;
pub const FIVE_MINUTE_MILLIS: i64 = 300_000;
/// Delay after the minute boundary before the one-minute requests.
pub const REQUEST_DELAY_MS: u64 = 1000;
/// Extra delay before the five-minute ratio requests.
pub const FIVE_MIN_REQUEST_DELAY_SECS: u64 = 180;
/// Attempts per HTTP request.
pub const MAX_RETRIES: u32 = 2;
/// Pause between two attempts.
pub const RETRY_PAUSE_MS: u64 = 100;

/// Why one REST request produced no record.
#[derive(Debug, Clone)]
pub enum FetchError {
    Request(String),
    Http(u16),
    Json(String),
    EmptyResponse,
    MatchFailure,
    MissingField(&'static str),
    Timeout,
}

/// Decimal digits of an unsigned number.
pub open spec fn decimal(n: nat) -> Seq<char>
    decreases n,
{
    if n < 10 {
        seq![digit_char(n)]
    } else {
        decimal(n / 10) + seq![digit_char(n % 10)]
    }
}

pub open spec fn digit_char(d: nat) -> char {
    if d == 0 { '0' } else if d == 1 { '1' } else if d == 2 { '2' } else if d == 3 { '3' }
    else if d == 4 { '4' } else if d == 5 { '5' } else if d == 6 { '6' } else if d == 7 { '7' }
    else if d == 8 { '8' } else { '9' }
}

fn digit_text(d: u16) -> (r: &'static str)
    requires
        d < 10,
    ensures
        r@ == seq![digit_char(d as nat)],
{
    proof {
        reveal_strlit("0");
        reveal_strlit("1");
        reveal_strlit("2");
        reveal_strlit("3");
        reveal_strlit("4");
        reveal_strlit("5");
        reveal_strlit("6");
        reveal_strlit("7");
        reveal_strlit("8");
        reveal_strlit("9");
    }
    if d == 0 { "0" } else if d == 1 { "1" } else if d == 2 { "2" } else if d == 3 { "3" }
    else if d == 4 { "4" } else if d == 5 { "5" } else if d == 6 { "6" } else if d == 7 { "7" }
    else if d == 8 { "8" } else { "9" }
}

/// The decimal digits of `n`.
fn u16_text(n: u16) -> (r: String)
    ensures
        r@ == decimal(n as nat),
    decreases n,
{
    if n < 10 {
        text_of(digit_text(n))
    } else {
        let mut s = u16_text(n / 10);
        push_text(&mut s, digit_text(n % 10));
        s
    }
}

fn text_of(s: &str) -> (r: String)
    ensures
        r@ == s@,
{
    s.to_owned()
}

/// Relies on `String::push_str`: appends the characters of `s`.
#[verifier::external_body]
fn push_text(buf: &mut String, s: &str)
    ensures
        final(buf)@ == old(buf)@ + s@,
{
    buf.push_str(s)
}

impl FetchError {
    pub open spec fn spec_detail(&self) -> Seq<char> {
        match self {
            FetchError::Request(e) => "请求错误: "@ + e@,
            FetchError::Http(code) => "HTTP "@ + decimal(*code as nat),
            FetchError::Json(e) => "JSON错误: "@ + e@,
            FetchError::EmptyResponse => "空响应"@,
            FetchError::MatchFailure => "匹配失败"@,
            FetchError::MissingField(f) => "缺少字段 "@ + f@,
            FetchError::Timeout => "请求超时"@,
        }
    }

    /// A one-line description for summaries.
    pub fn detail(&self) -> (r: String)
        ensures
            r@ == self.spec_detail(),
    {
        match self {
            FetchError::Request(e) => {
                let mut s = text_of("请求错误: ");
                push_text(&mut s, e.as_str());
                s
            },
            FetchError::Http(code) => {
                let mut s = text_of("HTTP ");
                let digits = u16_text(*code);
                push_text(&mut s, digits.as_str());
                s
            },
            FetchError::Json(e) => {
                let mut s = text_of("JSON错误: ");
                push_text(&mut s, e.as_str());
                s
            },
            FetchError::EmptyResponse => text_of("空响应"),
            FetchError::MatchFailure => text_of("匹配失败"),
            FetchError::MissingField(f) => {
                let mut s = text_of("缺少字段 ");
                push_text(&mut s, f);
                s
            },
            FetchError::Timeout => text_of("请求超时"),
        }
    }
}

/// One premium-index bar.
#[derive(Debug)]
pub struct PremiumIndexData {
    pub symbol: String,
    pub open_time: i64,
    pub open_price: u64,
    pub high_price: u64,
    pub low_price: u64,
    pub close_price: u64,
}

/// Open interest at a moment.
#[derive(Debug)]
pub struct OpenInterestData {
    pub symbol: String,
    pub open_interest: u64,
    pub timestamp: i64,
}

/// One long/short ratio record (top accounts, top positions or all accounts).
#[derive(Debug)]
pub struct RatioMetricsData {
    pub symbol: String,
    pub long_value: u64,
    pub short_value: u64,
    pub ratio_value: u64,
    pub timestamp: i64,
}

/// One open-interest history record.
#[derive(Debug)]
pub struct OpenInterestHistData {
    pub symbol: String,
    pub sum_open_interest: u64,
    pub sum_open_interest_value: u64,
    pub cmc_circulating_supply: u64,
    pub timestamp: i64,
}

/// A premium-index record: open time and the four prices.
pub type PremiumRecord = (i64, u64, u64, u64, u64);

/// `[open_time, open, high, low, close, ...]`: the time an integer (or a
/// string that reads as one), the prices numbers (or strings that read as one).
pub open spec fn premium_record_of(rec: Seq<JsonValue>) -> Option<PremiumRecord> {
    if rec.len() >= 5 && rec[0].spec_int_like() is Some && rec[1].spec_float_like() is Some
        && rec[2].spec_float_like() is Some && rec[3].spec_float_like() is Some
        && rec[4].spec_float_like() is Some {
        Some(
            (
                rec[0].spec_int_like()->Some_0,
                rec[1].spec_float_like()->Some_0,
                rec[2].spec_float_like()->Some_0,
                rec[3].spec_float_like()->Some_0,
                rec[4].spec_float_like()->Some_0,
            ),
        )
    } else {
        None
    }
}

fn read_premium_record(rec: &Vec<JsonValue>) -> (r: Option<PremiumRecord>)
    ensures
        r == premium_record_of(rec@),
{
    if rec.len() < 5 {
        return None;
    }
    match (
        rec[0].int_like(),
        rec[1].float_like(),
        rec[2].float_like(),
        rec[3].float_like(),
        rec[4].float_like(),
    ) {
        (Some(t), Some(o), Some(h), Some(l), Some(c)) => Some((t, o, h, l, c)),
        _ => None,
    }
}

/// Every item is an array.
pub open spec fn all_arrays(items: Seq<JsonValue>) -> bool {
    forall|i: int| 0 <= i < items.len() ==> (#[trigger] items[i]).spec_as_array() is Some
}

fn check_all_arrays(items: &Vec<JsonValue>) -> (r: bool)
    ensures
        r == all_arrays(items@),
{
    let mut i: usize = 0;
    while i < items.len()
        invariant
            i <= items@.len(),
            forall|j: int| 0 <= j < i ==> (#[trigger] items@[j]).spec_as_array() is Some,
        decreases items@.len() - i,
    {
        if items[i].as_array().is_none() {
            return false;
        }
        i = i + 1;
    }
    true
}

/// The record chosen for a bar that opened at `expected`: the second record
/// when it opened then, else the first when it did, else the later of the two
/// (the first alone when the second does not read).
pub open spec fn select_premium(primary: PremiumRecord, secondary: Option<PremiumRecord>, expected: int) -> PremiumRecord {
    match secondary {
        Some(sec) => {
            if sec.0 == expected {
                sec
            } else if primary.0 == expected {
                primary
            } else if sec.0 > primary.0 {
                sec
            } else {
                primary
            }
        },
        None => primary,
    }
}

/// Why a response body yields no record.
pub enum Failure {
    /// The body is not shaped as the endpoint documents.
    Shape,
    Empty,
    MissingField(Seq<char>),
    NoMatch,
}

impl FetchError {
    /// The body-level reason this error reports, if it is one.
    pub open spec fn failure(&self) -> Option<Failure> {
        match self {
            FetchError::Json(_) => Some(Failure::Shape),
            FetchError::EmptyResponse => Some(Failure::Empty),
            FetchError::MissingField(f) => Some(Failure::MissingField(f@)),
            FetchError::MatchFailure => Some(Failure::NoMatch),
            _ => None,
        }
    }
}

/// What a `premiumIndexKlines` response yields for the bar closing at
/// `close_time`.
pub open spec fn premium_index_outcome(doc: JsonValue, close_time: i64) -> Result<PremiumRecord, Failure> {
    match doc.spec_as_array() {
        Some(records) => {
            if !all_arrays(records) {
                Err(Failure::Shape)
            } else if records.len() == 0 {
                Err(Failure::Empty)
            } else {
                match premium_record_of(records[0].spec_as_array()->Some_0) {
                    Some(primary) => {
                        let secondary = if records.len() > 1 {
                            premium_record_of(records[1].spec_as_array()->Some_0)
                        } else {
                            None
                        };
                        Ok(select_premium(primary, secondary, close_time - ONE_MINUTE_MILLIS))
                    },
                    None => Err(Failure::MissingField("record"@)),
                }
            }
        },
        None => Err(Failure::Shape),
    }
}

/// The premium-index bar for `symbol` that closes at `close_time`, read from
/// a `premiumIndexKlines` response.
pub fn premium_index_from_records(doc: &JsonValue, symbol: &str, close_time: i64) -> (r: Result<
    PremiumIndexData,
    FetchError,
>)
    ensures
        match premium_index_outcome(*doc, close_time) {
            Ok(rec) => r is Ok && r->Ok_0.symbol@ == symbol@ && r->Ok_0.open_time == rec.0
                && r->Ok_0.open_price == rec.1 && r->Ok_0.high_price == rec.2
                && r->Ok_0.low_price == rec.3 && r->Ok_0.close_price == rec.4,
            Err(f) => r is Err && r->Err_0.failure() == Some(f),
        },
{
    let records = match doc.as_array() {
        Some(records) => records,
        None => {
            return Err(FetchError::Json(text_of("expected an array of records")));
        },
    };
    if !check_all_arrays(records) {
        return Err(FetchError::Json(text_of("expected an array of records")));
    }
    if records.len() == 0 {
        return Err(FetchError::EmptyResponse);
    }
    let first = match records[0].as_array() {
        Some(a) => a,
        None => {
            return Err(FetchError::Json(text_of("expected an array of records")));
        },
    };
    let primary = match read_premium_record(first) {
        Some(p) => p,
        None => {
            return Err(FetchError::MissingField("record"));
        },
    };
    let secondary = if records.len() > 1 {
        match records[1].as_array() {
            Some(a) => read_premium_record(a),
            None => None,
        }
    } else {
        None
    };
    let expected = close_time as i128 - 60_000i128;
    let selected = match secondary {
        Some(sec) => {
            if sec.0 as i128 == expected {
                sec
            } else if primary.0 as i128 == expected {
                primary
            } else if sec.0 > primary.0 {
                sec
            } else {
                primary
            }
        },
        None => primary,
    };
    Ok(
        PremiumIndexData {
            symbol: text_of(symbol),
            open_time: selected.0,
            open_price: selected.1,
            high_price: selected.2,
            low_price: selected.3,
            close_price: selected.4,
        },
    )
}

/// What an `openInterest` response yields: the `openInterest` string's
/// binary64 reading and the integer `time`.
pub open spec fn open_interest_outcome(doc: JsonValue) -> Result<(u64, i64), Failure> {
    match str_at(doc, "openInterest"@) {
        None => Err(Failure::MissingField("openInterest"@)),
        Some(_) => match i64_at(doc, "time"@) {
            None => Err(Failure::MissingField("time"@)),
            Some(t) => match doc.spec_get("openInterest"@)->Some_0.spec_str_float() {
                Some(oi) => Ok((oi, t)),
                None => Err(Failure::MissingField("openInterest parse"@)),
            },
        },
    }
}

pub fn open_interest_from_doc(doc: &JsonValue, symbol: &str) -> (r: Result<OpenInterestData, FetchError>)
    ensures
        match open_interest_outcome(*doc) {
            Ok(v) => r is Ok && r->Ok_0.symbol@ == symbol@ && r->Ok_0.open_interest == v.0
                && r->Ok_0.timestamp == v.1,
            Err(f) => r is Err && r->Err_0.failure() == Some(f),
        },
{
    let oi_value = match doc.get("openInterest") {
        Some(v) => v,
        None => {
            return Err(FetchError::MissingField("openInterest"));
        },
    };
    if oi_value.as_str().is_none() {
        return Err(FetchError::MissingField("openInterest"));
    }
    let time = match get_i64(doc, "time") {
        Some(t) => t,
        None => {
            return Err(FetchError::MissingField("time"));
        },
    };
    match oi_value.str_float() {
        Some(oi) => Ok(OpenInterestData { symbol: text_of(symbol), open_interest: oi, timestamp: time }),
        None => Err(FetchError::MissingField("openInterest parse")),
    }
}

/// `doc[key]` as a number, or a string that reads as one.
pub open spec fn float_at(doc: JsonValue, key: Seq<char>) -> Option<u64> {
    match doc.spec_get(key) {
        Some(v) => v.spec_float_like(),
        None => None,
    }
}

/// `doc[key]` as an integer, or a string that reads as one.
pub open spec fn int_at(doc: JsonValue, key: Seq<char>) -> Option<i64> {
    match doc.spec_get(key) {
        Some(v) => v.spec_int_like(),
        None => None,
    }
}

fn get_float_like(doc: &JsonValue, key: &str) -> (r: Option<u64>)
    ensures
        r == float_at(*doc, key@),
{
    match doc.get(key) {
        Some(v) => v.float_like(),
        None => None,
    }
}

fn get_int_like(doc: &JsonValue, key: &str) -> (r: Option<i64>)
    ensures
        r == int_at(*doc, key@),
{
    match doc.get(key) {
        Some(v) => v.int_like(),
        None => None,
    }
}

/// An entry stamped with the bucket closing at `close_time` (or one
/// millisecond later).
pub open spec fn at_bucket(entry: JsonValue, close_time: i64) -> bool {
    match int_at(entry, "timestamp"@) {
        Some(t) => t == close_time || t == close_time + 1,
        None => false,
    }
}

/// Index of the first entry, from `start` on, stamped with the bucket.
pub open spec fn first_at_bucket(entries: Seq<JsonValue>, close_time: i64, start: int) -> Option<int>
    decreases entries.len() - start,
{
    if start < 0 || start >= entries.len() {
        None
    } else if at_bucket(entries[start], close_time) {
        Some(start)
    } else {
        first_at_bucket(entries, close_time, start + 1)
    }
}

proof fn lemma_first_at_bucket(entries: Seq<JsonValue>, close_time: i64, start: int)
    ensures
        first_at_bucket(entries, close_time, start) is Some ==> {
            let i = first_at_bucket(entries, close_time, start)->Some_0;
            &&& start <= i < entries.len()
            &&& at_bucket(entries[i], close_time)
        },
    decreases entries.len() - start,
{
    if 0 <= start < entries.len() && !at_bucket(entries[start], close_time) {
        lemma_first_at_bucket(entries, close_time, start + 1);
    }
}

fn is_at_bucket(entry: &JsonValue, close_time: i64) -> (r: bool)
    ensures
        r == at_bucket(*entry, close_time),
{
    match get_int_like(entry, "timestamp") {
        Some(t) => t as i128 == close_time as i128 || t as i128 == close_time as i128 + 1,
        None => false,
    }
}

fn find_at_bucket(entries: &Vec<JsonValue>, close_time: i64) -> (r: Option<usize>)
    ensures
        r is Some <==> first_at_bucket(entries@, close_time, 0) is Some,
        r is Some ==> r->Some_0 == first_at_bucket(entries@, close_time, 0)->Some_0,
        r is Some ==> r->Some_0 < entries@.len() && at_bucket(entries@[r->Some_0 as int], close_time),
{
    proof {
        lemma_first_at_bucket(entries@, close_time, 0);
    }
    let mut i: usize = 0;
    while i < entries.len()
        invariant
            i <= entries@.len(),
            first_at_bucket(entries@, close_time, 0) == first_at_bucket(entries@, close_time, i as int),
        decreases entries@.len() - i,
    {
        if is_at_bucket(&entries[i], close_time) {
            return Some(i);
        }
        i = i + 1;
    }
    None
}

/// What a long/short ratio response yields for the bucket closing at
/// `close_time`: long, short, ratio and the entry's timestamp.
pub open spec fn ratio_outcome(doc: JsonValue, long_key: Seq<char>, short_key: Seq<char>, close_time: i64) -> Result<(u64, u64, u64, i64), Failure> {
    match doc.spec_as_array() {
        None => Err(Failure::Shape),
        Some(entries) => {
            if entries.len() == 0 {
                Err(Failure::Empty)
            } else {
                match first_at_bucket(entries, close_time, 0) {
                    None => Err(Failure::NoMatch),
                    Some(i) => {
                        let e = entries[i];
                        match (float_at(e, long_key), float_at(e, short_key), float_at(e, "longShortRatio"@)) {
                            (None, _, _) => Err(Failure::MissingField(long_key)),
                            (Some(_), None, _) => Err(Failure::MissingField(short_key)),
                            (Some(_), Some(_), None) => Err(Failure::MissingField("longShortRatio"@)),
                            (Some(l), Some(sh), Some(r)) => Ok((l, sh, r, int_at(e, "timestamp"@)->Some_0)),
                        }
                    },
                }
            }
        },
    }
}

/// The ratio record for `symbol` in the bucket closing at `close_time`.
pub fn ratio_metrics_from_entries(
    doc: &JsonValue,
    symbol: &str,
    long_key: &'static str,
    short_key: &'static str,
    close_time: i64,
) -> (r: Result<RatioMetricsData, FetchError>)
    ensures
        match ratio_outcome(*doc, long_key@, short_key@, close_time) {
            Ok(v) => r is Ok && r->Ok_0.symbol@ == symbol@ && r->Ok_0.long_value == v.0
                && r->Ok_0.short_value == v.1 && r->Ok_0.ratio_value == v.2
                && r->Ok_0.timestamp == v.3,
            Err(f) => r is Err && r->Err_0.failure() == Some(f),
        },
{
    let entries = match doc.as_array() {
        Some(e) => e,
        None => {
            return Err(FetchError::Json(text_of("expected an array of records")));
        },
    };
    if entries.len() == 0 {
        return Err(FetchError::EmptyResponse);
    }
    let i = match find_at_bucket(entries, close_time) {
        Some(i) => i,
        None => {
            return Err(FetchError::MatchFailure);
        },
    };
    let entry = &entries[i];
    let long_value = match get_float_like(entry, long_key) {
        Some(v) => v,
        None => {
            return Err(FetchError::MissingField(long_key));
        },
    };
    let short_value = match get_float_like(entry, short_key) {
        Some(v) => v,
        None => {
            return Err(FetchError::MissingField(short_key));
        },
    };
    let ratio_value = match get_float_like(entry, "longShortRatio") {
        Some(v) => v,
        None => {
            return Err(FetchError::MissingField("longShortRatio"));
        },
    };
    let timestamp = match get_int_like(entry, "timestamp") {
        Some(t) => t,
        None => close_time,
    };
    Ok(RatioMetricsData { symbol: text_of(symbol), long_value, short_value, ratio_value, timestamp })
}

/// What an open-interest history response yields for the bucket closing at
/// `close_time`: the two sums, the circulating supply (zero when absent) and
/// the entry's timestamp.
pub open spec fn open_interest_hist_outcome(doc: JsonValue, close_time: i64) -> Result<(u64, u64, u64, i64), Failure> {
    match doc.spec_as_array() {
        None => Err(Failure::Shape),
        Some(entries) => {
            if entries.len() == 0 {
                Err(Failure::Empty)
            } else {
                match first_at_bucket(entries, close_time, 0) {
                    None => Err(Failure::NoMatch),
                    Some(i) => {
                        let e = entries[i];
                        match (float_at(e, "sumOpenInterest"@), float_at(e, "sumOpenInterestValue"@)) {
                            (None, _) => Err(Failure::MissingField("sumOpenInterest"@)),
                            (Some(_), None) => Err(Failure::MissingField("sumOpenInterestValue"@)),
                            (Some(a), Some(b)) => Ok(
                                (
                                    a,
                                    b,
                                    match float_at(e, "CMCCirculatingSupply"@) {
                                        Some(c) => c,
                                        None => 0,
                                    },
                                    int_at(e, "timestamp"@)->Some_0,
                                ),
                            ),
                        }
                    },
                }
            }
        },
    }
}

/// The open-interest history record for `symbol` in the bucket closing at
/// `close_time`.
pub fn open_interest_hist_from_entries(doc: &JsonValue, symbol: &str, close_time: i64) -> (r: Result<
    OpenInterestHistData,
    FetchError,
>)
    ensures
        match open_interest_hist_outcome(*doc, close_time) {
            Ok(v) => r is Ok && r->Ok_0.symbol@ == symbol@ && r->Ok_0.sum_open_interest == v.0
                && r->Ok_0.sum_open_interest_value == v.1 && r->Ok_0.cmc_circulating_supply == v.2
                && r->Ok_0.timestamp == v.3,
            Err(f) => r is Err && r->Err_0.failure() == Some(f),
        },
{
    let entries = match doc.as_array() {
        Some(e) => e,
        None => {
            return Err(FetchError::Json(text_of("expected an array of records")));
        },
    };
    if entries.len() == 0 {
        return Err(FetchError::EmptyResponse);
    }
    let i = match find_at_bucket(entries, close_time) {
        Some(i) => i,
        None => {
            return Err(FetchError::MatchFailure);
        },
    };
    let entry = &entries[i];
    let sum_open_interest = match get_float_like(entry, "sumOpenInterest") {
        Some(v) => v,
        None => {
            return Err(FetchError::MissingField("sumOpenInterest"));
        },
    };
    let sum_open_interest_value = match get_float_like(entry, "sumOpenInterestValue") {
        Some(v) => v,
        None => {
            return Err(FetchError::MissingField("sumOpenInterestValue"));
        },
    };
    let cmc_circulating_supply = match get_float_like(entry, "CMCCirculatingSupply") {
        Some(v) => v,
        None => 0,
    };
    let timestamp = match get_int_like(entry, "timestamp") {
        Some(t) => t,
        None => close_time,
    };
    Ok(
        OpenInterestHistData {
            symbol: text_of(symbol),
            sum_open_interest,
            sum_open_interest_value,
            cmc_circulating_supply,
            timestamp,
        },
    )
}

/// Results of one minute's requests, one slot per symbol and request.
pub struct OneMinuteResult {
    pub close_time: i64,
    pub premium_index: Vec<Result<PremiumIndexData, (String, FetchError)>>,
    pub open_interest: Vec<Result<OpenInterestData, (String, FetchError)>>,
}

/// Results of one five-minute bucket's requests.
pub struct FiveMinuteResult {
    pub close_time: i64,
    pub top_account: Vec<Result<RatioMetricsData, (String, FetchError)>>,
    pub top_position: Vec<Result<RatioMetricsData, (String, FetchError)>>,
    pub global_account: Vec<Result<RatioMetricsData, (String, FetchError)>>,
    pub open_interest_hist: Vec<Result<OpenInterestHistData, (String, FetchError)>>,
}

/// The last successful open-interest record of `symbol`.
pub open spec fn last_oi(rs: Seq<Result<OpenInterestData, (String, FetchError)>>, symbol: Seq<char>) -> Option<OpenInterestData>
    decreases rs.len(),
{
    if rs.len() == 0 {
        None
    } else {
        match rs.last() {
            Ok(d) => if d.symbol@ == symbol { Some(d) } else { last_oi(rs.drop_last(), symbol) },
            Err(_) => last_oi(rs.drop_last(), symbol),
        }
    }
}

/// The last successful ratio record of `symbol`.
pub open spec fn last_ratio(rs: Seq<Result<RatioMetricsData, (String, FetchError)>>, symbol: Seq<char>) -> Option<RatioMetricsData>
    decreases rs.len(),
{
    if rs.len() == 0 {
        None
    } else {
        match rs.last() {
            Ok(d) => if d.symbol@ == symbol { Some(d) } else { last_ratio(rs.drop_last(), symbol) },
            Err(_) => last_ratio(rs.drop_last(), symbol),
        }
    }
}

/// The last successful open-interest history record of `symbol`.
pub open spec fn last_hist(rs: Seq<Result<OpenInterestHistData, (String, FetchError)>>, symbol: Seq<char>) -> Option<OpenInterestHistData>
    decreases rs.len(),
{
    if rs.len() == 0 {
        None
    } else {
        match rs.last() {
            Ok(d) => if d.symbol@ == symbol { Some(d) } else { last_hist(rs.drop_last(), symbol) },
            Err(_) => last_hist(rs.drop_last(), symbol),
        }
    }
}

fn find_oi<'a>(rs: &'a Vec<Result<OpenInterestData, (String, FetchError)>>, symbol: &String) -> (r: Option<&'a OpenInterestData>)
    ensures
        r is Some <==> last_oi(rs@, symbol@) is Some,
        r is Some ==> *r->Some_0 == last_oi(rs@, symbol@)->Some_0,
{
    let mut i: usize = rs.len();
    assert(rs@.subrange(0, rs@.len() as int) =~= rs@);
    while i > 0
        invariant
            i <= rs@.len(),
            last_oi(rs@, symbol@) == last_oi(rs@.subrange(0, i as int), symbol@),
        decreases i,
    {
        assert(rs@.subrange(0, i as int).drop_last() =~= rs@.subrange(0, i - 1));
        match &rs[i - 1] {
            Ok(d) => {
                if d.symbol == *symbol {
                    return Some(d);
                }
            },
            Err(_) => {},
        }
        i = i - 1;
    }
    assert(rs@.subrange(0, 0) =~= Seq::<Result<OpenInterestData, (String, FetchError)>>::empty());
    None
}

fn find_ratio<'a>(rs: &'a Vec<Result<RatioMetricsData, (String, FetchError)>>, symbol: &String) -> (r: Option<&'a RatioMetricsData>)
    ensures
        r is Some <==> last_ratio(rs@, symbol@) is Some,
        r is Some ==> *r->Some_0 == last_ratio(rs@, symbol@)->Some_0,
{
    let mut i: usize = rs.len();
    assert(rs@.subrange(0, rs@.len() as int) =~= rs@);
    while i > 0
        invariant
            i <= rs@.len(),
            last_ratio(rs@, symbol@) == last_ratio(rs@.subrange(0, i as int), symbol@),
        decreases i,
    {
        assert(rs@.subrange(0, i as int).drop_last() =~= rs@.subrange(0, i - 1));
        match &rs[i - 1] {
            Ok(d) => {
                if d.symbol == *symbol {
                    return Some(d);
                }
            },
            Err(_) => {},
        }
        i = i - 1;
    }
    assert(rs@.subrange(0, 0) =~= Seq::<Result<RatioMetricsData, (String, FetchError)>>::empty());
    None
}

fn find_hist<'a>(rs: &'a Vec<Result<OpenInterestHistData, (String, FetchError)>>, symbol: &String) -> (r: Option<&'a OpenInterestHistData>)
    ensures
        r is Some <==> last_hist(rs@, symbol@) is Some,
        r is Some ==> *r->Some_0 == last_hist(rs@, symbol@)->Some_0,
{
    let mut i: usize = rs.len();
    assert(rs@.subrange(0, rs@.len() as int) =~= rs@);
    while i > 0
        invariant
            i <= rs@.len(),
            last_hist(rs@, symbol@) == last_hist(rs@.subrange(0, i as int), symbol@),
        decreases i,
    {
        assert(rs@.subrange(0, i as int).drop_last() =~= rs@.subrange(0, i - 1));
        match &rs[i - 1] {
            Ok(d) => {
                if d.symbol == *symbol {
                    return Some(d);
                }
            },
            Err(_) => {},
        }
        i = i - 1;
    }
    assert(rs@.subrange(0, 0) =~= Seq::<Result<OpenInterestHistData, (String, FetchError)>>::empty());
    None
}

/// The premium-index frame of a bar, joined with the symbol's open interest
/// (zeros without one).
pub open spec fn premium_frame(d: PremiumIndexData, oi: Option<OpenInterestData>) -> Seq<u8> {
    head(MktMsgType::PremiumIndexKline, len32(d.symbol@), d.symbol@) + le64(d.open_price) + le64(
        d.high_price,
    ) + le64(d.low_price) + le64(d.close_price) + lei64(d.open_time) + le64(
        match oi {
            Some(o) => o.open_interest,
            None => 0,
        },
    ) + lei64(
        match oi {
            Some(o) => o.timestamp,
            None => 0,
        },
    )
}

/// One premium-index frame per successful bar, in order.
pub open spec fn one_minute_frames(
    pis: Seq<Result<PremiumIndexData, (String, FetchError)>>,
    ois: Seq<Result<OpenInterestData, (String, FetchError)>>,
) -> Seq<Seq<u8>>
    decreases pis.len(),
{
    if pis.len() == 0 {
        seq![]
    } else {
        one_minute_frames(pis.drop_last(), ois) + match pis.last() {
            Ok(d) => seq![premium_frame(d, last_oi(ois, d.symbol@))],
            Err(_) => seq![],
        }
    }
}

/// Appends the premium-index frames of a minute; returns how many.
pub fn send_one_minute_messages(result: &OneMinuteResult, out: &mut Vec<bytes::Bytes>) -> (n: usize)
    ensures
        views(final(out)@) == views(old(out)@) + one_minute_frames(result.premium_index@, result.open_interest@),
        n == one_minute_frames(result.premium_index@, result.open_interest@).len(),
{
    let ghost start = views(out@);
    let start_len = out.len();
    let mut i: usize = 0;
    while i < result.premium_index.len()
        invariant
            i <= result.premium_index@.len(),
            start.len() == start_len,
            views(out@) == start + one_minute_frames(
                result.premium_index@.subrange(0, i as int),
                result.open_interest@,
            ),
        decreases result.premium_index@.len() - i,
    {
        assert(result.premium_index@.subrange(0, i + 1).drop_last() =~= result.premium_index@.subrange(0, i as int));
        match &result.premium_index[i] {
            Ok(d) => {
                let mut msg = PremiumIndexKlineMsg::create(
                    d.symbol.clone(),
                    d.open_price,
                    d.high_price,
                    d.low_price,
                    d.close_price,
                    d.open_time,
                );
                match find_oi(&result.open_interest, &d.symbol) {
                    Some(oi) => msg.set_open_interest(oi.open_interest, oi.timestamp),
                    None => {},
                }
                emit(out, msg.to_bytes());
            },
            Err(_) => {},
        }
        i = i + 1;
        assert(views(out@) =~= start + one_minute_frames(
            result.premium_index@.subrange(0, i as int),
            result.open_interest@,
        ));
    }
    assert(result.premium_index@.subrange(0, result.premium_index@.len() as int) =~= result.premium_index@);
    out.len() - start_len
}

/// The frame marking the end of the minute.
pub fn bar_close_frame(close_time: i64) -> (r: bytes::Bytes)
    ensures
        bytes_view(r) == bar_close_layout(close_time),
{
    BarClose1mMsg::create(close_time).to_bytes()
}

/// Symbols of the successful top-account records, each once, in order of
/// first appearance.
pub open spec fn ok_symbols(rs: Seq<Result<RatioMetricsData, (String, FetchError)>>) -> Seq<Seq<char>>
    decreases rs.len(),
{
    if rs.len() == 0 {
        seq![]
    } else {
        let prev = ok_symbols(rs.drop_last());
        match rs.last() {
            Ok(d) => if prev.contains(d.symbol@) { prev } else { prev.push(d.symbol@) },
            Err(_) => prev,
        }
    }
}

impl FiveMinuteResult {
    /// Account, position and global records are all present for `symbol`.
    pub open spec fn complete(&self, symbol: Seq<char>) -> bool {
        &&& last_ratio(self.top_account@, symbol) is Some
        &&& last_ratio(self.top_position@, symbol) is Some
        &&& last_ratio(self.global_account@, symbol) is Some
    }

    /// The symbols among `syms` that get a ratio frame.
    pub open spec fn emitted(&self, syms: Seq<Seq<char>>) -> Seq<Seq<char>>
        decreases syms.len(),
    {
        if syms.len() == 0 {
            seq![]
        } else {
            self.emitted(syms.drop_last()) + if self.complete(syms.last()) {
                seq![syms.last()]
            } else {
                seq![]
            }
        }
    }

    /// The symbols that get a ratio frame, in order.
    pub open spec fn ratio_symbols(&self) -> Seq<Seq<char>> {
        self.emitted(ok_symbols(self.top_account@))
    }

    /// The ratio frame of a complete symbol.
    pub open spec fn ratio_frame(&self, symbol: Seq<char>) -> Seq<u8> {
        let a = last_ratio(self.top_account@, symbol)->Some_0;
        let p = last_ratio(self.top_position@, symbol)->Some_0;
        let g = last_ratio(self.global_account@, symbol)->Some_0;
        let h = last_hist(self.open_interest_hist@, symbol);
        head(MktMsgType::BinanceTopLongShortRatio, len32(symbol), symbol) + lei64(self.close_time)
            + le64(a.long_value) + le64(a.short_value) + le64(a.ratio_value) + le64(p.long_value)
            + le64(p.short_value) + le64(p.ratio_value) + le64(g.long_value) + le64(g.short_value)
            + le64(g.ratio_value) + lei64(a.timestamp) + lei64(p.timestamp) + lei64(g.timestamp)
            + le64(match h { Some(x) => x.sum_open_interest, None => 0 })
            + le64(match h { Some(x) => x.sum_open_interest_value, None => 0 })
            + le64(match h { Some(x) => x.cmc_circulating_supply, None => 0 })
            + lei64(match h { Some(x) => x.timestamp, None => 0 })
    }

    pub open spec fn frames(&self) -> Seq<Seq<u8>> {
        self.ratio_symbols().map_values(|s: Seq<char>| self.ratio_frame(s))
    }

    /// Successful results per category: top account, top position, global
    /// account, open-interest history.
    pub fn success_counts(&self) -> (r: (usize, usize, usize, usize))
        ensures
            r.0 == ok_count(self.top_account@),
            r.1 == ok_count(self.top_position@),
            r.2 == ok_count(self.global_account@),
            r.3 == ok_count(self.open_interest_hist@),
    {
        (
            count_ok(&self.top_account),
            count_ok(&self.top_position),
            count_ok(&self.global_account),
            count_ok(&self.open_interest_hist),
        )
    }
}

impl OneMinuteResult {
    /// Successful premium-index and open-interest results.
    pub fn success_counts(&self) -> (r: (usize, usize))
        ensures
            r.0 == ok_count(self.premium_index@),
            r.1 == ok_count(self.open_interest@),
    {
        (count_ok(&self.premium_index), count_ok(&self.open_interest))
    }
}

/// How many results succeeded.
pub open spec fn ok_count<T, E>(rs: Seq<Result<T, E>>) -> nat
    decreases rs.len(),
{
    if rs.len() == 0 {
        0
    } else {
        ok_count(rs.drop_last()) + if rs.last() is Ok { 1nat } else { 0nat }
    }
}

pub fn count_ok<T, E>(rs: &Vec<Result<T, E>>) -> (r: usize)
    ensures
        r == ok_count(rs@),
{
    let mut n: usize = 0;
    let mut i: usize = 0;
    while i < rs.len()
        invariant
            i <= rs@.len(),
            n == ok_count(rs@.subrange(0, i as int)),
            n <= i,
        decreases rs@.len() - i,
    {
        assert(rs@.subrange(0, i + 1).drop_last() =~= rs@.subrange(0, i as int));
        if rs[i].is_ok() {
            n = n + 1;
        }
        i = i + 1;
    }
    assert(rs@.subrange(0, rs@.len() as int) =~= rs@);
    n
}

fn contains_text(v: &Vec<String>, s: &String) -> (r: bool)
    ensures
        r == v@.map_values(|x: String| x@).contains(s@),
{
    let mut i: usize = 0;
    while i < v.len()
        invariant
            i <= v@.len(),
            forall|j: int| 0 <= j < i ==> v@[j]@ != s@,
        decreases v@.len() - i,
    {
        if v[i] == *s {
            assert(v@.map_values(|x: String| x@)[i as int] == s@);
            return true;
        }
        i = i + 1;
    }
    proof {
        if v@.map_values(|x: String| x@).contains(s@) {
            let j = v@.map_values(|x: String| x@).index_of(s@);
            assert(v@[j]@ == s@);
        }
    }
    false
}

fn collect_ok_symbols(rs: &Vec<Result<RatioMetricsData, (String, FetchError)>>) -> (r: Vec<String>)
    ensures
        r@.map_values(|x: String| x@) == ok_symbols(rs@),
{
    let mut syms: Vec<String> = Vec::new();
    let mut i: usize = 0;
    while i < rs.len()
        invariant
            i <= rs@.len(),
            syms@.map_values(|x: String| x@) == ok_symbols(rs@.subrange(0, i as int)),
        decreases rs@.len() - i,
    {
        assert(rs@.subrange(0, i + 1).drop_last() =~= rs@.subrange(0, i as int));
        match &rs[i] {
            Ok(d) => {
                if !contains_text(&syms, &d.symbol) {
                    syms.push(d.symbol.clone());
                }
            },
            Err(_) => {},
        }
        i = i + 1;
        assert(syms@.map_values(|x: String| x@) =~= ok_symbols(rs@.subrange(0, i as int)));
    }
    assert(rs@.subrange(0, rs@.len() as int) =~= rs@);
    syms
}

/// Appends one long/short ratio frame per symbol whose account, position
/// and global records are all present; returns how many.
pub fn send_five_minute_messages(result: &FiveMinuteResult, out: &mut Vec<bytes::Bytes>) -> (n: usize)
    ensures
        views(final(out)@) == views(old(out)@) + result.frames(),
        n == result.frames().len(),
{
    let ghost start = views(out@);
    let start_len = out.len();
    let syms = collect_ok_symbols(&result.top_account);
    let ghost all = syms@.map_values(|x: String| x@);
    let mut i: usize = 0;
    while i < syms.len()
        invariant
            i <= syms@.len(),
            all == syms@.map_values(|x: String| x@),
            all == ok_symbols(result.top_account@),
            start.len() == start_len,
            views(out@) == start + result.emitted(all.subrange(0, i as int)).map_values(
                |s: Seq<char>| result.ratio_frame(s),
            ),
        decreases syms@.len() - i,
    {
        let ghost sym = syms@[i as int]@;
        assert(all.subrange(0, i + 1).drop_last() =~= all.subrange(0, i as int));
        assert(all.subrange(0, i + 1).last() == sym);
        match (
            find_ratio(&result.top_account, &syms[i]),
            find_ratio(&result.top_position, &syms[i]),
            find_ratio(&result.global_account, &syms[i]),
        ) {
            (Some(a), Some(p), Some(g)) => {
                let mut msg = TopLongShortRatioMsg::create(
                    syms[i].clone(),
                    result.close_time,
                    a.long_value,
                    a.short_value,
                    a.ratio_value,
                    p.long_value,
                    p.short_value,
                    p.ratio_value,
                    g.long_value,
                    g.short_value,
                    g.ratio_value,
                    a.timestamp,
                    p.timestamp,
                    g.timestamp,
                );
                match find_hist(&result.open_interest_hist, &syms[i]) {
                    Some(h) => msg.set_open_interest_hist(
                        h.sum_open_interest,
                        h.sum_open_interest_value,
                        h.cmc_circulating_supply,
                        h.timestamp,
                    ),
                    None => {},
                }
                emit(out, msg.to_bytes());
            },
            _ => {},
        }
        i = i + 1;
        assert(views(out@) =~= start + result.emitted(all.subrange(0, i as int)).map_values(
            |s: Seq<char>| result.ratio_frame(s),
        ));
    }
    assert(all.subrange(0, all.len() as int) =~= all);
    out.len() - start_len
}

proof fn lemma_push_fresh<T>(s: Seq<T>, x: T)
    requires
        s.no_duplicates(),
        !s.contains(x),
    ensures
        s.push(x).no_duplicates(),
{
    let t = s.push(x);
    assert forall|i: int, j: int| 0 <= i < t.len() && 0 <= j < t.len() && i != j implies t[i] != t[j] by {
        if i == s.len() as int {
            assert(t[j] == s[j]);
        } else if j == s.len() as int {
            assert(t[i] == s[i]);
        }
    }
}

proof fn lemma_ok_symbols_no_dup(rs: Seq<Result<RatioMetricsData, (String, FetchError)>>)
    ensures
        ok_symbols(rs).no_duplicates(),
    decreases rs.len(),
{
    if rs.len() > 0 {
        lemma_ok_symbols_no_dup(rs.drop_last());
        let prev = ok_symbols(rs.drop_last());
        match rs.last() {
            Ok(d) => {
                if !prev.contains(d.symbol@) {
                    lemma_push_fresh(prev, d.symbol@);
                }
            },
            Err(_) => {},
        }
    }
}

proof fn lemma_emitted(result: FiveMinuteResult, syms: Seq<Seq<char>>)
    ensures
        forall|x: Seq<char>| #[trigger] result.emitted(syms).contains(x) ==> syms.contains(x) && result.complete(x),
        syms.no_duplicates() ==> result.emitted(syms).no_duplicates(),
    decreases syms.len(),
{
    if syms.len() > 0 {
        let init = syms.drop_last();
        lemma_emitted(result, init);
        let prev = result.emitted(init);
        assert forall|x: Seq<char>| result.emitted(syms).contains(x) implies syms.contains(x)
            && result.complete(x) by {
            let k = result.emitted(syms).index_of(x);
            let tail = if result.complete(syms.last()) { seq![syms.last()] } else { Seq::<Seq<char>>::empty() };
            assert(result.emitted(syms) == prev + tail);
            if k < prev.len() {
                assert((prev + tail)[k] == prev[k]);
                assert(prev.contains(x));
                assert(init.contains(x));
                let m = init.index_of(x);
                assert(init[m] == x);
                assert(syms[m] == init[m]);
            } else {
                assert(x == syms.last());
                assert(syms[syms.len() - 1] == x);
            }
        }
        if syms.no_duplicates() {
            assert(init.no_duplicates()) by {
                assert forall|i: int, j: int| 0 <= i < init.len() && 0 <= j < init.len() && i != j implies init[i] != init[j] by {
                    assert(init[i] == syms[i] && init[j] == syms[j]);
                }
            }
            if result.complete(syms.last()) {
                if prev.contains(syms.last()) {
                    let m = init.index_of(syms.last());
                    assert(syms[m] == syms[syms.len() - 1]);
                }
                lemma_push_fresh(prev, syms.last());
                assert(result.emitted(syms) =~= prev.push(syms.last()));
            } else {
                assert(result.emitted(syms) =~= prev);
            }
        }
    }
}

/// A five-minute tick writes at most one ratio frame per symbol, only for
/// symbols whose account, position and global records are all present, and
/// none for a symbol that lacks any of them.
pub proof fn lemma_five_minute_frames(result: FiveMinuteResult)
    ensures
        result.ratio_symbols().no_duplicates(),
        forall|i: int| 0 <= i < result.ratio_symbols().len() ==> result.complete(#[trigger] result.ratio_symbols()[i]),
        forall|s: Seq<char>| !result.complete(s) ==> !result.ratio_symbols().contains(s),
        result.frames().len() == result.ratio_symbols().len(),
        forall|i: int| 0 <= i < result.frames().len() ==> #[trigger] result.frames()[i] == result.ratio_frame(result.ratio_symbols()[i]),
{
    lemma_ok_symbols_no_dup(result.top_account@);
    lemma_emitted(result, ok_symbols(result.top_account@));
    assert forall|i: int| 0 <= i < result.ratio_symbols().len() implies result.complete(#[trigger] result.ratio_symbols()[i]) by {
        assert(result.ratio_symbols().contains(result.ratio_symbols()[i]));
    }
}

// ---------------------------------------------------------------- clock

/// The first whole minute (in milliseconds since the epoch) after `now_ms`.
pub open spec fn next_boundary(now_ms: int) -> int {
    (now_ms / 60_000 + 1) * 60_000
}

/// The next whole-minute boundary strictly after `now_ms`, and the wait
/// until it.
pub fn next_minute_boundary(now_ms: i64) -> (r: (i64, i64))
    requires
        0 <= now_ms <= i64::MAX - ONE_MINUTE_MILLIS,
    ensures
        r.0 == next_boundary(now_ms as int),
        r.1 == r.0 - now_ms,
{
    proof {
        lemma_close_time_alignment(now_ms as int);
    }
    let current_minute = now_ms / ONE_MINUTE_MILLIS;
    let next = (current_minute + 1) * ONE_MINUTE_MILLIS;
    (next, next - now_ms)
}

/// A close time on a five-minute boundary.
pub fn is_five_minute_boundary(close_time: i64) -> (r: bool)
    ensures
        r == (close_time % FIVE_MINUTE_MILLIS == 0),
{
    close_time % FIVE_MINUTE_MILLIS == 0
}

/// Every close time the scheduler computes is a whole minute, strictly
/// after the present and at most a minute ahead.
pub proof fn lemma_close_time_alignment(now_ms: int)
    requires
        0 <= now_ms,
    ensures
        next_boundary(now_ms) % 60_000 == 0,
        now_ms < next_boundary(now_ms) <= now_ms + 60_000,
{
    let q = now_ms / 60_000;
    assert(next_boundary(now_ms) == now_ms - now_ms % 60_000 + 60_000) by (nonlinear_arith)
        requires
            q == now_ms / 60_000,
            next_boundary(now_ms) == (q + 1) * 60_000,
            now_ms >= 0,
    ;
    assert(next_boundary(now_ms) % 60_000 == 0) by (nonlinear_arith)
        requires
            next_boundary(now_ms) == (q + 1) * 60_000,
            q >= 0,
    ;
}

/// Appends a minute's frames: its premium-index frames, then exactly one
/// frame closing the bar; returns how many were appended.
pub fn one_minute_tick_frames(result: &OneMinuteResult, out: &mut Vec<bytes::Bytes>) -> (n: usize)
    ensures
        views(final(out)@) == views(old(out)@) + one_minute_frames(result.premium_index@, result.open_interest@)
            + seq![bar_close_layout(result.close_time)],
        n == one_minute_frames(result.premium_index@, result.open_interest@).len() + 1,
{
    let ghost start = views(out@);
    let start_len = out.len();
    send_one_minute_messages(result, out);
    emit(out, bar_close_frame(result.close_time));
    assert(views(out@) =~= start + one_minute_frames(result.premium_index@, result.open_interest@)
        + seq![bar_close_layout(result.close_time)]);
    out.len() - start_len
}

// ---------------------------------------------------------------- summaries

/// The outcome of one request, as a summary reports it.
pub struct RestResult {
    pub request: RestRequestType,
    pub success: bool,
    pub detail: String,
}

impl RestResult {
    pub fn success(request: RestRequestType, detail: String) -> (r: Self)
        ensures
            r.request == request,
            r.success,
            r.detail@ == detail@,
    {
        RestResult { request, success: true, detail }
    }

    pub fn failure(request: RestRequestType, detail: String) -> (r: Self)
        ensures
            r.request == request,
            !r.success,
            r.detail@ == detail@,
    {
        RestResult { request, success: false, detail }
    }
}

/// Which set of requests a summary covers.
#[derive(Debug, Clone, Copy, PartialEq, Eq, Structural)]
pub enum RestSummaryStage {
    OneMinute,
    FiveMinute,
}

impl RestSummaryStage {
    pub open spec fn spec_requests(self) -> Seq<RestRequestType> {
        match self {
            RestSummaryStage::OneMinute => seq![RestRequestType::PremiumIndex, RestRequestType::OpenInterest],
            RestSummaryStage::FiveMinute => seq![
                RestRequestType::TopAccount,
                RestRequestType::TopPosition,
                RestRequestType::GlobalAccount,
                RestRequestType::OpenInterestHist,
            ],
        }
    }

    /// The requests of the stage, in summary order.
    pub fn requests(&self) -> (r: Vec<RestRequestType>)
        ensures
            r@ == self.spec_requests(),
    {
        match self {
            RestSummaryStage::OneMinute => {
                let r = vec![RestRequestType::PremiumIndex, RestRequestType::OpenInterest];
                assert(r@ =~= self.spec_requests());
                r
            },
            RestSummaryStage::FiveMinute => {
                let r = vec![
                    RestRequestType::TopAccount,
                    RestRequestType::TopPosition,
                    RestRequestType::GlobalAccount,
                    RestRequestType::OpenInterestHist,
                ];
                assert(r@ =~= self.spec_requests());
                r
            },
        }
    }

    pub fn label(&self) -> (r: &'static str)
        ensures
            r@ == (match self {
                RestSummaryStage::OneMinute => "1m"@,
                RestSummaryStage::FiveMinute => "5m"@,
            }),
    {
        match self {
            RestSummaryStage::OneMinute => "1m",
            RestSummaryStage::FiveMinute => "5m",
        }
    }
}

/// The latest outcome of each request kind for one symbol and bucket.
pub struct RestSummaryCollector {
    pub premium_index: Option<RestResult>,
    pub open_interest: Option<RestResult>,
    pub top_account: Option<RestResult>,
    pub top_position: Option<RestResult>,
    pub global_account: Option<RestResult>,
    pub open_interest_hist: Option<RestResult>,
}

impl RestSummaryCollector {
    pub open spec fn spec_get(&self, request: RestRequestType) -> Option<RestResult> {
        match request {
            RestRequestType::PremiumIndex => self.premium_index,
            RestRequestType::OpenInterest => self.open_interest,
            RestRequestType::TopAccount => self.top_account,
            RestRequestType::TopPosition => self.top_position,
            RestRequestType::GlobalAccount => self.global_account,
            RestRequestType::OpenInterestHist => self.open_interest_hist,
        }
    }

    pub fn new() -> (r: Self)
        ensures
            forall|q: RestRequestType| r.spec_get(q) is None,
    {
        RestSummaryCollector {
            premium_index: None,
            open_interest: None,
            top_account: None,
            top_position: None,
            global_account: None,
            open_interest_hist: None,
        }
    }

    /// Records `result` in the slot of its request kind.
    pub fn update(&mut self, result: RestResult)
        ensures
            final(self).spec_get(result.request) == Some(result),
            forall|q: RestRequestType| q != result.request ==> final(self).spec_get(q) == old(self).spec_get(q),
    {
        match result.request {
            RestRequestType::PremiumIndex => self.premium_index = Some(result),
            RestRequestType::OpenInterest => self.open_interest = Some(result),
            RestRequestType::TopAccount => self.top_account = Some(result),
            RestRequestType::TopPosition => self.top_position = Some(result),
            RestRequestType::GlobalAccount => self.global_account = Some(result),
            RestRequestType::OpenInterestHist => self.open_interest_hist = Some(result),
        }
    }

    pub fn get(&self, request: RestRequestType) -> (r: Option<&RestResult>)
        ensures
            r is Some <==> self.spec_get(request) is Some,
            r is Some ==> *r->Some_0 == self.spec_get(request)->Some_0,
    {
        match request {
            RestRequestType::PremiumIndex => self.premium_index.as_ref(),
            RestRequestType::OpenInterest => self.open_interest.as_ref(),
            RestRequestType::TopAccount => self.top_account.as_ref(),
            RestRequestType::TopPosition => self.top_position.as_ref(),
            RestRequestType::GlobalAccount => self.global_account.as_ref(),
            RestRequestType::OpenInterestHist => self.open_interest_hist.as_ref(),
        }
    }

    /// Bytes of the summary entry for `request`: its recorded outcome, or a
    /// failure whose detail is the "not executed" text.
    pub open spec fn entry_bytes(&self, request: RestRequestType) -> Seq<u8> {
        match self.spec_get(request) {
            Some(r) => seq![r.request.spec_code(), if r.success { 1u8 } else { 0u8 }]
                + le32(len32(r.detail@)) + utf8(r.detail@),
            None => seq![request.spec_code(), 0u8] + le32(len32("未执行"@))
                + utf8("未执行"@),
        }
    }

    fn entry(&self, request: RestRequestType) -> (r: RestSummaryEntry)
        ensures
            r.encoding() == self.entry_bytes(request),
    {
        match self.get(request) {
            Some(result) => RestSummaryEntry::new(result.request, result.success, result.detail.clone()),
            None => RestSummaryEntry::new(request, false, text_of("未执行")),
        }
    }
}

/// The summary frame of a stage for one symbol and close time.
pub open spec fn summary_frame(symbol: Seq<char>, close_time: i64, c: RestSummaryCollector, stage: RestSummaryStage) -> Seq<u8> {
    match stage {
        RestSummaryStage::OneMinute => head(MktMsgType::RestSummary1m, len32(symbol), symbol) + lei64(
            close_time,
        ) + c.entry_bytes(RestRequestType::PremiumIndex) + c.entry_bytes(
            RestRequestType::OpenInterest,
        ),
        RestSummaryStage::FiveMinute => head(MktMsgType::RestSummary5m, len32(symbol), symbol) + lei64(
            close_time,
        ) + c.entry_bytes(RestRequestType::TopAccount) + c.entry_bytes(RestRequestType::TopPosition)
            + c.entry_bytes(RestRequestType::GlobalAccount) + c.entry_bytes(
            RestRequestType::OpenInterestHist,
        ),
    }
}

/// Builds the summary frame of `stage` for `symbol` at `close_time`.
pub fn report_rest_summary(
    symbol: &str,
    close_time: i64,
    collector: &RestSummaryCollector,
    stage: RestSummaryStage,
) -> (r: bytes::Bytes)
    ensures
        bytes_view(r) == summary_frame(symbol@, close_time, *collector, stage),
{
    match stage {
        RestSummaryStage::OneMinute => {
            let msg = RestSummary1mMsg::create(
                text_of(symbol),
                close_time,
                collector.entry(RestRequestType::PremiumIndex),
                collector.entry(RestRequestType::OpenInterest),
            );
            msg.to_bytes()
        },
        RestSummaryStage::FiveMinute => {
            let msg = RestSummary5mMsg::create(
                text_of(symbol),
                close_time,
                collector.entry(RestRequestType::TopAccount),
                collector.entry(RestRequestType::TopPosition),
                collector.entry(RestRequestType::GlobalAccount),
                collector.entry(RestRequestType::OpenInterestHist),
            );
            msg.to_bytes()
        },
    }
}

// ---------------------------------------------------------------- symbols

/// One instrument of the futures `exchangeInfo` listing.
pub struct SymbolInfo {
    pub symbol: String,
    pub status: String,
    pub quote_asset: String,
    pub contract_type: Option<String>,
}

/// A USDT-quoted perpetual contract that is trading.
pub open spec fn is_usdt_perpetual(i: SymbolInfo) -> bool {
    &&& i.quote_asset@ == "USDT"@
    &&& i.status@ == "TRADING"@
    &&& i.contract_type is Some
    &&& i.contract_type->Some_0@ == "PERPETUAL"@
}

/// Symbols of the USDT perpetual contracts that are trading, in listing order.
pub open spec fn perpetual_symbols(infos: Seq<SymbolInfo>) -> Seq<Seq<char>>
    decreases infos.len(),
{
    if infos.len() == 0 {
        seq![]
    } else {
        perpetual_symbols(infos.drop_last()) + if is_usdt_perpetual(infos.last()) {
            seq![infos.last().symbol@]
        } else {
            seq![]
        }
    }
}

pub fn select_perpetual_symbols(infos: &Vec<SymbolInfo>) -> (r: Vec<String>)
    ensures
        r@.map_values(|x: String| x@) == perpetual_symbols(infos@),
{
    let mut out: Vec<String> = Vec::new();
    let mut i: usize = 0;
    while i < infos.len()
        invariant
            i <= infos@.len(),
            out@.map_values(|x: String| x@) == perpetual_symbols(infos@.subrange(0, i as int)),
        decreases infos@.len() - i,
    {
        assert(infos@.subrange(0, i + 1).drop_last() =~= infos@.subrange(0, i as int));
        let info = &infos[i];
        let perpetual = match &info.contract_type {
            Some(c) => str_eq(c.as_str(), "PERPETUAL"),
            None => false,
        };
        if str_eq(info.quote_asset.as_str(), "USDT") && str_eq(info.status.as_str(), "TRADING") && perpetual {
            out.push(info.symbol.clone());
        }
        i = i + 1;
        assert(out@.map_values(|x: String| x@) =~= perpetual_symbols(infos@.subrange(0, i as int)));
    }
    assert(infos@.subrange(0, infos@.len() as int) =~= infos@);
    out
}

// ---------------------------------------------------------------- retries

/// What one HTTP attempt gave.
pub enum AttemptOutcome {
    /// A response with its status and its body (or why the body could not be read).
    Response { status: u16, body: Result<String, String> },
    /// No response: the request timed out, or failed for another reason.
    Transport { timeout: bool, message: String },
}

/// What to do after an attempt.
pub enum RetryStep {
    Done(Result<String, FetchError>),
    /// Pause, then attempt again; the error stands if no attempt succeeds.
    Retry(FetchError),
}

/// `e` is the error an unsuccessful attempt records: the status of a
/// non-2xx response, the body's read error, a timeout, or the transport's
/// message.
pub open spec fn attempt_error_matches(outcome: AttemptOutcome, e: FetchError) -> bool {
    match outcome {
        AttemptOutcome::Response { status, body } => {
            if 200 <= status < 300 {
                match body {
                    Ok(_) => false,
                    Err(m) => e == FetchError::Request(m),
                }
            } else {
                e == FetchError::Http(status)
            }
        },
        AttemptOutcome::Transport { timeout, message } => {
            if timeout {
                e == FetchError::Timeout
            } else {
                e == FetchError::Request(message)
            }
        },
    }
}

/// Decides after attempt number `attempt` (from zero): a 2xx response with a
/// readable body ends the fetch; any other outcome is retried while
/// attempts remain, and otherwise ends it with the attempt's error.
pub fn after_attempt(attempt: u32, outcome: AttemptOutcome) -> (r: RetryStep)
    ensures
        match outcome {
            AttemptOutcome::Response { status, body: Ok(b) } => 200 <= status < 300 ==> r == RetryStep::Done(Ok(b)),
            _ => true,
        },
        (r is Retry) <==> (attempt + 1 < MAX_RETRIES && !(outcome matches AttemptOutcome::Response { status, body: Ok(_) } && 200 <= status < 300)),
        match r {
            RetryStep::Retry(e) => attempt_error_matches(outcome, e),
            RetryStep::Done(Err(e)) => attempt_error_matches(outcome, e),
            RetryStep::Done(Ok(_)) => true,
        },
        r matches RetryStep::Done(Ok(b)) ==> (outcome matches AttemptOutcome::Response { status, body: Ok(b2) } && 200 <= status < 300 && b == b2),
{
    let error = match outcome {
        AttemptOutcome::Response { status, body } => {
            if 200 <= status && status < 300 {
                match body {
                    Ok(b) => {
                        return RetryStep::Done(Ok(b));
                    },
                    Err(m) => FetchError::Request(m),
                }
            } else {
                FetchError::Http(status)
            }
        },
        AttemptOutcome::Transport { timeout, message } => {
            if timeout {
                FetchError::Timeout
            } else {
                FetchError::Request(message)
            }
        },
    };
    if attempt < MAX_RETRIES - 1 {
        RetryStep::Retry(error)
    } else {
        RetryStep::Done(Err(error))
    }
}

} // verus!
