//! Binance stream parsers: each turns one decoded payload into zero or more
//! frames, appended in order to the caller's output.

use vstd::prelude::*;
use crate::json::{
    JsonValue, str_eq, str_at, i64_at, bool_at, array_at, strf_at, get_str, get_i64, get_bool,
    get_array, get_str_float,
};
use crate::mkt_msg::{
    declared_size, short_symbol, lemma_trade_size, lemma_seqno_size, lemma_book_size,
    lemma_kline_size, lemma_price_sizes, lemma_liquidation_size, lemma_signal_and_bar_close_sizes,
    read_u32, read_symbol, lemma_read_head, lemma_field_lengths, head, MktMsgType, levels_bytes,
    bytes_view, trade_layout, seqno_layout, book_layout, kline_layout, mark_price_layout,
    index_price_layout, funding_rate_layout, liquidation_layout, signal_layout, Level, TradeMsg,
    IncMsg, BinanceIncSeqNoMsg, KlineMsg, MarkPriceMsg, IndexPriceMsg, FundingRateMsg,
    LiquidationMsg, SignalMsg, SignalSource,
};

verus! {

/// The frames held by a list of buffers.
pub open spec fn views(v: Seq<bytes::Bytes>) -> Seq<Seq<u8>> {
    v.map_values(|b: bytes::Bytes| bytes_view(b))
}

pub(crate) fn emit(out: &mut Vec<bytes::Bytes>, frame: bytes::Bytes)
    ensures
        views(final(out)@) == views(old(out)@).push(bytes_view(frame)),
{
    out.push(frame);
    assert(views(final(out)@) =~= views(old(out)@).push(bytes_view(frame)));
}

/// A binary64 bit pattern whose value is `<= 0` (zeros, negatives, negative
/// infinity; never a NaN).
pub open spec fn binary64_le_zero(b: u64) -> bool {
    b == 0 || (0x8000_0000_0000_0000u64 <= b && b <= 0xFFF0_0000_0000_0000u64)
}

pub fn is_le_zero(b: u64) -> (r: bool)
    ensures
        r == binary64_le_zero(b),
{
    b == 0 || (0x8000_0000_0000_0000u64 <= b && b <= 0xFFF0_0000_0000_0000u64)
}

/// The characters of a string after lower-casing.
pub uninterp spec fn lower_of(s: Seq<char>) -> Seq<char>;

/// Relies on `str::to_lowercase`: Unicode lower-casing, which depends on the
/// characters alone.
#[verifier::external_body]
pub(crate) fn to_lower(s: &str) -> (r: String)
    ensures
        r@ == lower_of(s@),
{
    s.to_lowercase()
}

// ---------------------------------------------------------------- trade

/// Trade stream parser.
pub struct BinanceTradeParser;

impl BinanceTradeParser {
    pub fn new() -> (r: Self) {
        BinanceTradeParser
    }

    /// Frames for a `trade` event: one trade frame when every field is
    /// present and both price and quantity are positive.
    pub open spec fn event_frames(doc: JsonValue) -> Seq<Seq<u8>> {
        match (
            str_at(doc, "s"@),
            i64_at(doc, "t"@),
            strf_at(doc, "p"@),
            strf_at(doc, "q"@),
            i64_at(doc, "T"@),
            bool_at(doc, "m"@),
        ) {
            (Some(s), Some(id), Some(p), Some(q), Some(ts), Some(m)) => {
                if binary64_le_zero(p) || binary64_le_zero(q) {
                    seq![]
                } else {
                    seq![trade_layout(s, id, ts, if m { 'S' } else { 'B' }, p, q)]
                }
            },
            _ => seq![],
        }
    }

    pub open spec fn frames(doc: JsonValue) -> Seq<Seq<u8>> {
        if str_at(doc, "e"@) == Some("trade"@) {
            Self::event_frames(doc)
        } else {
            seq![]
        }
    }

    pub fn parse(&self, doc: &JsonValue, out: &mut Vec<bytes::Bytes>) -> (n: usize)
        ensures
            views(final(out)@) == views(old(out)@) + Self::frames(*doc),
            n == Self::frames(*doc).len(),
    {
        match get_str(doc, "e") {
            Some(e) => {
                if str_eq(e, "trade") {
                    return self.parse_trade_event(doc, out);
                }
            },
            None => {},
        }
        assert(views(final(out)@) =~= views(old(out)@) + Self::frames(*doc));
        0
    }

    fn parse_trade_event(&self, doc: &JsonValue, out: &mut Vec<bytes::Bytes>) -> (n: usize)
        ensures
            views(final(out)@) == views(old(out)@) + Self::event_frames(*doc),
            n == Self::event_frames(*doc).len(),
    {
        match (
            get_str(doc, "s"),
            get_i64(doc, "t"),
            get_str_float(doc, "p"),
            get_str_float(doc, "q"),
            get_i64(doc, "T"),
            get_bool(doc, "m"),
        ) {
            (Some(symbol), Some(id), Some(price), Some(amount), Some(ts), Some(is_maker)) => {
                if is_le_zero(price) || is_le_zero(amount) {
                    assert(views(final(out)@) =~= views(old(out)@) + Self::event_frames(*doc));
                    return 0;
                }
                let side = if is_maker { 'S' } else { 'B' };
                let msg = TradeMsg::create(symbol.to_owned(), id, ts, side, price, amount);
                emit(out, msg.to_bytes());
                assert(views(final(out)@) =~= views(old(out)@) + Self::event_frames(*doc));
                1
            },
            _ => {
                assert(views(final(out)@) =~= views(old(out)@) + Self::event_frames(*doc));
                0
            },
        }
    }
}

// ---------------------------------------------------------------- order book

/// The level read from one `[price, amount]` entry: each string's binary64
/// reading, zero where it does not read as a number; an entry that is not
/// an array of at least two strings gives the zero level.
pub open spec fn level_of(item: JsonValue) -> Level {
    match item.spec_as_array() {
        Some(xs) => {
            if xs.len() >= 2 && xs[0].spec_as_str() is Some && xs[1].spec_as_str() is Some {
                Level {
                    price: match xs[0].spec_str_float() {
                        Some(b) => b,
                        None => 0,
                    },
                    amount: match xs[1].spec_str_float() {
                        Some(b) => b,
                        None => 0,
                    },
                }
            } else {
                Level { price: 0, amount: 0 }
            }
        },
        None => Level { price: 0, amount: 0 },
    }
}

/// Bids then asks, one level per entry.
pub open spec fn book_levels(bids: Seq<JsonValue>, asks: Seq<JsonValue>) -> Seq<Level> {
    bids.map_values(|x: JsonValue| level_of(x)) + asks.map_values(|x: JsonValue| level_of(x))
}

fn read_level(item: &JsonValue) -> (r: Level)
    ensures
        r == level_of(*item),
{
    match item.as_array() {
        Some(xs) => {
            if xs.len() >= 2 {
                match (xs[0].as_str(), xs[1].as_str()) {
                    (Some(_), Some(_)) => {
                        let price = match xs[0].str_float() {
                            Some(b) => b,
                            None => 0,
                        };
                        let amount = match xs[1].str_float() {
                            Some(b) => b,
                            None => 0,
                        };
                        Level { price, amount }
                    },
                    _ => Level { price: 0, amount: 0 },
                }
            } else {
                Level { price: 0, amount: 0 }
            }
        },
        None => Level { price: 0, amount: 0 },
    }
}

/// Fills the levels of a freshly created book from the bid and ask entries.
fn parse_order_book_levels(bids: &Vec<JsonValue>, asks: &Vec<JsonValue>, msg: &mut IncMsg)
    requires
        old(msg).well_formed(),
        old(msg).bids_count == bids@.len(),
        old(msg).asks_count == asks@.len(),
        forall|i: int|
            0 <= i < old(msg).levels@.len() ==> old(msg).levels@[i] == (Level { price: 0, amount: 0 }),
    ensures
        final(msg).well_formed(),
        final(msg).levels@ == book_levels(bids@, asks@),
        final(msg).symbol == old(msg).symbol,
        final(msg).first_update_id == old(msg).first_update_id,
        final(msg).final_update_id == old(msg).final_update_id,
        final(msg).timestamp == old(msg).timestamp,
        final(msg).is_snapshot == old(msg).is_snapshot,
        final(msg).bids_count == old(msg).bids_count,
        final(msg).asks_count == old(msg).asks_count,
{
    let ghost m0 = *msg;
    let ghost nb = bids@.len() as int;
    let mut i: usize = 0;
    while i < bids.len()
        invariant
            i <= bids@.len(),
            msg.well_formed(),
            msg.bids_count == m0.bids_count,
            msg.asks_count == m0.asks_count,
            msg.symbol == m0.symbol,
            msg.first_update_id == m0.first_update_id,
            msg.final_update_id == m0.final_update_id,
            msg.timestamp == m0.timestamp,
            msg.is_snapshot == m0.is_snapshot,
            m0.bids_count == bids@.len(),
            m0.asks_count == asks@.len(),
            nb == bids@.len(),
            forall|j: int| 0 <= j < i ==> msg.levels@[j] == level_of(bids@[j]),
            forall|j: int|
                i <= j < msg.levels@.len() ==> msg.levels@[j] == (Level { price: 0, amount: 0 }),
        decreases bids@.len() - i,
    {
        let level = read_level(&bids[i]);
        msg.set_bid_level(i, level);
        i = i + 1;
    }
    let mut k: usize = 0;
    while k < asks.len()
        invariant
            k <= asks@.len(),
            msg.well_formed(),
            msg.bids_count == m0.bids_count,
            msg.asks_count == m0.asks_count,
            msg.symbol == m0.symbol,
            msg.first_update_id == m0.first_update_id,
            msg.final_update_id == m0.final_update_id,
            msg.timestamp == m0.timestamp,
            msg.is_snapshot == m0.is_snapshot,
            m0.bids_count == bids@.len(),
            m0.asks_count == asks@.len(),
            nb == bids@.len(),
            forall|j: int| 0 <= j < nb ==> msg.levels@[j] == level_of(bids@[j]),
            forall|j: int| 0 <= j < k ==> msg.levels@[nb + j] == level_of(asks@[j]),
            forall|j: int|
                nb + k <= j < msg.levels@.len() ==> msg.levels@[j] == (Level { price: 0, amount: 0 }),
        decreases asks@.len() - k,
    {
        let level = read_level(&asks[k]);
        msg.set_ask_level(k, level);
        k = k + 1;
    }
    assert(msg.levels@ =~= book_levels(bids@, asks@));
}

/// Depth-diff stream parser; the futures stream carries sequence markers.
pub struct BinanceIncParser {
    pub is_futures: bool,
}

impl BinanceIncParser {
    pub fn new(is_futures: bool) -> (r: Self)
        ensures
            r.is_futures == is_futures,
    {
        BinanceIncParser { is_futures }
    }

    /// The event-time key: `T` where the payload has it, else `E`.
    pub open spec fn time_key(doc: JsonValue) -> Seq<char> {
        if doc.spec_get("T"@) is Some {
            "T"@
        } else {
            "E"@
        }
    }

    /// Frames for a `depthUpdate` event: on futures a sequence-marker frame
    /// then the book frame (nothing without `pu`); on spot the book frame
    /// alone. A book whose level count does not fit the 32-bit counts is dropped.
    pub open spec fn event_frames(&self, doc: JsonValue) -> Seq<Seq<u8>> {
        match (
            str_at(doc, "s"@),
            i64_at(doc, "U"@),
            i64_at(doc, "u"@),
            i64_at(doc, Self::time_key(doc)),
            array_at(doc, "b"@),
            array_at(doc, "a"@),
        ) {
            (Some(s), Some(first), Some(last), Some(ts), Some(b), Some(a)) => {
                if b.len() + a.len() > u32::MAX {
                    seq![]
                } else {
                    let book = book_layout(
                        s,
                        first,
                        last,
                        ts,
                        false,
                        b.len() as u32,
                        a.len() as u32,
                        book_levels(b, a),
                    );
                    if self.is_futures {
                        match i64_at(doc, "pu"@) {
                            Some(pu) => seq![seqno_layout(s, pu, last, first, ts), book],
                            None => seq![],
                        }
                    } else {
                        seq![book]
                    }
                }
            },
            _ => seq![],
        }
    }

    pub open spec fn frames(&self, doc: JsonValue) -> Seq<Seq<u8>> {
        if str_at(doc, "e"@) == Some("depthUpdate"@) {
            self.event_frames(doc)
        } else {
            seq![]
        }
    }

    pub fn parse(&self, doc: &JsonValue, out: &mut Vec<bytes::Bytes>) -> (n: usize)
        ensures
            views(final(out)@) == views(old(out)@) + self.frames(*doc),
            n == self.frames(*doc).len(),
    {
        match get_str(doc, "e") {
            Some(e) => {
                if str_eq(e, "depthUpdate") {
                    return self.parse_inc_event(doc, out);
                }
            },
            None => {},
        }
        assert(views(final(out)@) =~= views(old(out)@) + self.frames(*doc));
        0
    }

    fn parse_inc_event(&self, doc: &JsonValue, out: &mut Vec<bytes::Bytes>) -> (n: usize)
        ensures
            views(final(out)@) == views(old(out)@) + self.event_frames(*doc),
            n == self.event_frames(*doc).len(),
    {
        let time_key = match doc.get("T") {
            Some(_) => "T",
            None => "E",
        };
        assert(time_key@ == Self::time_key(*doc));
        match (
            get_str(doc, "s"),
            get_i64(doc, "U"),
            get_i64(doc, "u"),
            get_i64(doc, time_key),
            get_array(doc, "b"),
            get_array(doc, "a"),
        ) {
            (Some(symbol), Some(first), Some(last), Some(ts), Some(bids), Some(asks)) => {
                if bids.len() as u64 > 0xFFFF_FFFFu64 || asks.len() as u64 > 0xFFFF_FFFFu64 - bids.len() as u64 {
                    assert(views(final(out)@) =~= views(old(out)@) + self.event_frames(*doc));
                    return 0;
                }
                let mut count: usize = 0;
                if self.is_futures {
                    match get_i64(doc, "pu") {
                        Some(pu) => {
                            let seq_msg = BinanceIncSeqNoMsg::create(symbol.to_owned(), pu, last, first, ts);
                            emit(out, seq_msg.to_bytes());
                            count = 1;
                        },
                        None => {
                            assert(views(final(out)@) =~= views(old(out)@) + self.event_frames(*doc));
                            return 0;
                        },
                    }
                }
                let mut msg = IncMsg::create(
                    symbol.to_owned(),
                    first,
                    last,
                    ts,
                    false,
                    bids.len() as u32,
                    asks.len() as u32,
                );
                parse_order_book_levels(bids, asks, &mut msg);
                emit(out, msg.to_bytes());
                assert(views(final(out)@) =~= views(old(out)@) + self.event_frames(*doc));
                count + 1
            },
            _ => {
                assert(views(final(out)@) =~= views(old(out)@) + self.event_frames(*doc));
                0
            },
        }
    }
}

/// REST order-book snapshot parser.
pub struct BinanceSnapshotParser;

impl BinanceSnapshotParser {
    pub fn new() -> (r: Self) {
        BinanceSnapshotParser
    }

    /// One snapshot frame with both update ids `lastUpdateId + 1` and a zero
    /// timestamp; nothing when a field is missing, the id is `i64::MAX`, or
    /// the level count does not fit the 32-bit counts.
    pub open spec fn frames(doc: JsonValue) -> Seq<Seq<u8>> {
        match (
            str_at(doc, "s"@),
            i64_at(doc, "lastUpdateId"@),
            array_at(doc, "bids"@),
            array_at(doc, "asks"@),
        ) {
            (Some(s), Some(last), Some(b), Some(a)) => {
                if last == i64::MAX || b.len() + a.len() > u32::MAX {
                    seq![]
                } else {
                    seq![
                        book_layout(
                            s,
                            (last + 1) as i64,
                            (last + 1) as i64,
                            0,
                            true,
                            b.len() as u32,
                            a.len() as u32,
                            book_levels(b, a),
                        ),
                    ]
                }
            },
            _ => seq![],
        }
    }

    pub fn parse(&self, doc: &JsonValue, out: &mut Vec<bytes::Bytes>) -> (n: usize)
        ensures
            views(final(out)@) == views(old(out)@) + Self::frames(*doc),
            n == Self::frames(*doc).len(),
    {
        self.parse_snapshot_event(doc, out)
    }

    fn parse_snapshot_event(&self, doc: &JsonValue, out: &mut Vec<bytes::Bytes>) -> (n: usize)
        ensures
            views(final(out)@) == views(old(out)@) + Self::frames(*doc),
            n == Self::frames(*doc).len(),
    {
        match (
            get_str(doc, "s"),
            get_i64(doc, "lastUpdateId"),
            get_array(doc, "bids"),
            get_array(doc, "asks"),
        ) {
            (Some(symbol), Some(last), Some(bids), Some(asks)) => {
                if last == i64::MAX || bids.len() as u64 > 0xFFFF_FFFFu64 || asks.len() as u64
                    > 0xFFFF_FFFFu64 - bids.len() as u64 {
                    assert(views(final(out)@) =~= views(old(out)@) + Self::frames(*doc));
                    return 0;
                }
                let id = last + 1;
                let mut msg = IncMsg::create(
                    symbol.to_owned(),
                    id,
                    id,
                    0,
                    true,
                    bids.len() as u32,
                    asks.len() as u32,
                );
                parse_order_book_levels(bids, asks, &mut msg);
                emit(out, msg.to_bytes());
                assert(views(final(out)@) =~= views(old(out)@) + Self::frames(*doc));
                1
            },
            _ => {
                assert(views(final(out)@) =~= views(old(out)@) + Self::frames(*doc));
                0
            },
        }
    }
}

// ---------------------------------------------------------------- kline

/// Kline stream parser.
pub struct BinanceKlineParser {
    pub is_future: bool,
}

impl BinanceKlineParser {
    pub fn new(is_future: bool) -> (r: Self)
        ensures
            r.is_future == is_future,
    {
        BinanceKlineParser { is_future }
    }

    /// One kline frame from the top-level symbol and the bar object `k`,
    /// whether or not the bar is closed; nothing when a field is missing.
    pub open spec fn frames(doc: JsonValue) -> Seq<Seq<u8>> {
        match (str_at(doc, "s"@), doc.spec_get("k"@)) {
            (Some(s), Some(k)) => match (
                strf_at(k, "o"@),
                strf_at(k, "h"@),
                strf_at(k, "l"@),
                strf_at(k, "c"@),
                strf_at(k, "v"@),
                strf_at(k, "q"@),
                i64_at(k, "t"@),
                i64_at(k, "n"@),
                strf_at(k, "V"@),
                strf_at(k, "Q"@),
            ) {
                (
                    Some(o),
                    Some(h),
                    Some(l),
                    Some(c),
                    Some(v),
                    Some(q),
                    Some(t),
                    Some(n),
                    Some(tv),
                    Some(tq),
                ) => seq![kline_layout(s, o, h, l, c, v, q, t, n, tv, tq)],
                _ => seq![],
            },
            _ => seq![],
        }
    }

    pub fn parse(&self, doc: &JsonValue, out: &mut Vec<bytes::Bytes>) -> (n: usize)
        ensures
            views(final(out)@) == views(old(out)@) + Self::frames(*doc),
            n == Self::frames(*doc).len(),
    {
        match (get_str(doc, "s"), doc.get("k")) {
            (Some(symbol), Some(k)) => {
                match (
                    get_str_float(k, "o"),
                    get_str_float(k, "h"),
                    get_str_float(k, "l"),
                    get_str_float(k, "c"),
                    get_str_float(k, "v"),
                    get_str_float(k, "q"),
                    get_i64(k, "t"),
                    get_i64(k, "n"),
                    get_str_float(k, "V"),
                    get_str_float(k, "Q"),
                ) {
                    (
                        Some(o),
                        Some(h),
                        Some(l),
                        Some(c),
                        Some(v),
                        Some(q),
                        Some(t),
                        Some(n),
                        Some(tv),
                        Some(tq),
                    ) => {
                        let mut msg = KlineMsg::create(symbol.to_owned(), o, h, l, c, v, q, t);
                        msg.set_binance_fields(n, tv, tq);
                        emit(out, msg.to_bytes());
                        assert(views(final(out)@) =~= views(old(out)@) + Self::frames(*doc));
                        1
                    },
                    _ => {
                        assert(views(final(out)@) =~= views(old(out)@) + Self::frames(*doc));
                        0
                    },
                }
            },
            _ => {
                assert(views(final(out)@) =~= views(old(out)@) + Self::frames(*doc));
                0
            },
        }
    }
}

// ---------------------------------------------------------------- signal

/// Emits a time signal for each payload carrying an event time `E`.
pub struct BinanceSignalParser {
    pub source: SignalSource,
}

impl BinanceSignalParser {
    pub fn new(is_ipc: bool) -> (r: Self)
        ensures
            r.source == (if is_ipc { SignalSource::Ipc } else { SignalSource::Tcp }),
    {
        BinanceSignalParser {
            source: if is_ipc {
                SignalSource::Ipc
            } else {
                SignalSource::Tcp
            },
        }
    }

    pub open spec fn frames(&self, doc: JsonValue) -> Seq<Seq<u8>> {
        match i64_at(doc, "E"@) {
            Some(ts) => seq![signal_layout(self.source, ts)],
            None => seq![],
        }
    }

    pub fn parse(&self, doc: &JsonValue, out: &mut Vec<bytes::Bytes>) -> (n: usize)
        ensures
            views(final(out)@) == views(old(out)@) + self.frames(*doc),
            n == self.frames(*doc).len(),
    {
        match get_i64(doc, "E") {
            Some(ts) => {
                let msg = SignalMsg::create(self.source, ts);
                emit(out, msg.to_bytes());
                assert(views(final(out)@) =~= views(old(out)@) + self.frames(*doc));
                1
            },
            None => {
                assert(views(final(out)@) =~= views(old(out)@) + self.frames(*doc));
                0
            },
        }
    }
}

// ---------------------------------------------------------------- derivatives

/// Mark-price and liquidation parser, filtered by the tracked symbol set.
pub struct BinanceDerivativesMetricsParser {
    /// Tracked symbols, lower case.
    pub symbols: Vec<String>,
}

impl BinanceDerivativesMetricsParser {
    pub fn new(symbols_set: Vec<String>) -> (r: Self)
        ensures
            r.symbols@ == symbols_set@,
    {
        BinanceDerivativesMetricsParser { symbols: symbols_set }
    }

    pub open spec fn symbol_set(&self) -> Set<Seq<char>> {
        self.symbols@.map_values(|x: String| x@).to_set()
    }

    /// A symbol is tracked when its lower-cased form is in the set.
    pub open spec fn tracks(&self, symbol: Seq<char>) -> bool {
        self.symbol_set().contains(lower_of(symbol))
    }

    /// Membership of an already lower-cased symbol in the tracked set.
    pub fn tracks_lowered(&self, lower: &str) -> (r: bool)
        ensures
            r == self.symbol_set().contains(lower@),
    {
        let mut i: usize = 0;
        while i < self.symbols.len()
            invariant
                i <= self.symbols@.len(),
                forall|j: int| 0 <= j < i ==> self.symbols@[j]@ != lower@,
            decreases self.symbols@.len() - i,
        {
            if str_eq(self.symbols[i].as_str(), lower) {
                assert(self.symbols@.map_values(|x: String| x@)[i as int] == lower@);
                return true;
            }
            i = i + 1;
        }
        proof {
            if self.symbol_set().contains(lower@) {
                let j = self.symbols@.map_values(|x: String| x@).index_of(lower@);
                assert(self.symbols@[j]@ == lower@);
            }
        }
        false
    }

    fn is_tracked(&self, symbol: &str) -> (r: bool)
        ensures
            r == self.tracks(symbol@),
    {
        let lower = to_lower(symbol);
        self.tracks_lowered(lower.as_str())
    }

    /// Mark price, index price and funding rate frames for one tracked
    /// `markPriceUpdate`.
    pub open spec fn mark_price_frames(&self, item: JsonValue) -> Seq<Seq<u8>> {
        if str_at(item, "e"@) == Some("markPriceUpdate"@) {
            match (
                str_at(item, "s"@),
                strf_at(item, "p"@),
                strf_at(item, "i"@),
                strf_at(item, "r"@),
                i64_at(item, "E"@),
                i64_at(item, "T"@),
            ) {
                (Some(s), Some(p), Some(i), Some(r), Some(e), Some(t)) => {
                    if self.tracks(s) {
                        seq![
                            mark_price_layout(s, p, e),
                            index_price_layout(s, i, e),
                            funding_rate_layout(s, r, t, e),
                        ]
                    } else {
                        seq![]
                    }
                },
                _ => seq![],
            }
        } else {
            seq![]
        }
    }

    /// The frames of each array item, in order.
    pub open spec fn mark_price_array_frames(&self, items: Seq<JsonValue>) -> Seq<Seq<u8>>
        decreases items.len(),
    {
        if items.len() == 0 {
            seq![]
        } else {
            self.mark_price_array_frames(items.drop_last()) + self.mark_price_frames(items.last())
        }
    }

    /// One liquidation frame for a tracked `forceOrder` whose side is `BUY`
    /// or `SELL`.
    pub open spec fn liquidation_frames(&self, doc: JsonValue) -> Seq<Seq<u8>> {
        match doc.spec_get("o"@) {
            Some(o) => match (
                str_at(o, "s"@),
                str_at(o, "S"@),
                strf_at(o, "z"@),
                strf_at(o, "ap"@),
                i64_at(o, "T"@),
            ) {
                (Some(s), Some(side), Some(z), Some(ap), Some(t)) => {
                    if !self.tracks(s) {
                        seq![]
                    } else if side == "BUY"@ {
                        seq![liquidation_layout(s, 'B', z, ap, t)]
                    } else if side == "SELL"@ {
                        seq![liquidation_layout(s, 'S', z, ap, t)]
                    } else {
                        seq![]
                    }
                },
                _ => seq![],
            },
            None => seq![],
        }
    }

    pub open spec fn frames(&self, doc: JsonValue) -> Seq<Seq<u8>> {
        match doc.spec_as_array() {
            Some(items) => self.mark_price_array_frames(items),
            None => {
                if str_at(doc, "e"@) == Some("forceOrder"@) {
                    self.liquidation_frames(doc)
                } else if str_at(doc, "e"@) == Some("markPriceUpdate"@) {
                    self.mark_price_frames(doc)
                } else {
                    seq![]
                }
            },
        }
    }

    pub fn parse(&self, doc: &JsonValue, out: &mut Vec<bytes::Bytes>) -> (n: usize)
        ensures
            views(final(out)@) == views(old(out)@) + self.frames(*doc),
            n == self.frames(*doc).len(),
    {
        match doc.as_array() {
            Some(items) => {
                return self.parse_mark_price_array(items, out);
            },
            None => {},
        }
        match get_str(doc, "e") {
            Some(e) => {
                if str_eq(e, "forceOrder") {
                    return self.parse_liquidation_event(doc, out);
                } else if str_eq(e, "markPriceUpdate") {
                    return self.parse_single_mark_price(doc, out);
                }
            },
            None => {},
        }
        assert(views(final(out)@) =~= views(old(out)@) + self.frames(*doc));
        0
    }

    fn parse_liquidation_event(&self, doc: &JsonValue, out: &mut Vec<bytes::Bytes>) -> (n: usize)
        ensures
            views(final(out)@) == views(old(out)@) + self.liquidation_frames(*doc),
            n == self.liquidation_frames(*doc).len(),
    {
        match doc.get("o") {
            Some(o) => {
                match (
                    get_str(o, "s"),
                    get_str(o, "S"),
                    get_str_float(o, "z"),
                    get_str_float(o, "ap"),
                    get_i64(o, "T"),
                ) {
                    (Some(symbol), Some(side), Some(qty), Some(price), Some(ts)) => {
                        if !self.is_tracked(symbol) {
                            assert(views(final(out)@) =~= views(old(out)@) + self.liquidation_frames(*doc));
                            return 0;
                        }
                        let c = if str_eq(side, "BUY") {
                            'B'
                        } else if str_eq(side, "SELL") {
                            'S'
                        } else {
                            assert(views(final(out)@) =~= views(old(out)@) + self.liquidation_frames(*doc));
                            return 0;
                        };
                        let msg = LiquidationMsg::create(symbol.to_owned(), c, qty, price, ts);
                        emit(out, msg.to_bytes());
                        assert(views(final(out)@) =~= views(old(out)@) + self.liquidation_frames(*doc));
                        1
                    },
                    _ => {
                        assert(views(final(out)@) =~= views(old(out)@) + self.liquidation_frames(*doc));
                        0
                    },
                }
            },
            None => {
                assert(views(final(out)@) =~= views(old(out)@) + self.liquidation_frames(*doc));
                0
            },
        }
    }

    fn parse_mark_price_array(&self, items: &Vec<JsonValue>, out: &mut Vec<bytes::Bytes>) -> (n: usize)
        ensures
            views(final(out)@) == views(old(out)@) + self.mark_price_array_frames(items@),
            n == self.mark_price_array_frames(items@).len(),
    {
        let ghost start = views(out@);
        let start_len = out.len();
        let mut i: usize = 0;
        while i < items.len()
            invariant
                i <= items@.len(),
                start.len() == start_len,
                views(out@) == start + self.mark_price_array_frames(items@.subrange(0, i as int)),
            decreases items@.len() - i,
        {
            proof {
                assert(items@.subrange(0, i + 1).drop_last() =~= items@.subrange(0, i as int));
            }
            self.parse_single_mark_price(&items[i], out);
            i = i + 1;
            assert(views(out@) =~= start + self.mark_price_array_frames(items@.subrange(0, i as int)));
        }
        assert(items@.subrange(0, items@.len() as int) =~= items@);
        out.len() - start_len
    }

    fn parse_single_mark_price(&self, item: &JsonValue, out: &mut Vec<bytes::Bytes>) -> (n: usize)
        ensures
            views(final(out)@) == views(old(out)@) + self.mark_price_frames(*item),
            n == self.mark_price_frames(*item).len(),
            n <= 3,
    {
        match get_str(item, "e") {
            Some(e) => {
                if !str_eq(e, "markPriceUpdate") {
                    assert(views(final(out)@) =~= views(old(out)@) + self.mark_price_frames(*item));
                    return 0;
                }
            },
            None => {
                assert(views(final(out)@) =~= views(old(out)@) + self.mark_price_frames(*item));
                return 0;
            },
        }
        match (
            get_str(item, "s"),
            get_str_float(item, "p"),
            get_str_float(item, "i"),
            get_str_float(item, "r"),
            get_i64(item, "E"),
            get_i64(item, "T"),
        ) {
            (Some(symbol), Some(mark), Some(index), Some(rate), Some(event_time), Some(next_time)) => {
                if !self.is_tracked(symbol) {
                    assert(views(final(out)@) =~= views(old(out)@) + self.mark_price_frames(*item));
                    return 0;
                }
                let m = MarkPriceMsg::create(symbol.to_owned(), mark, event_time);
                emit(out, m.to_bytes());
                let x = IndexPriceMsg::create(symbol.to_owned(), index, event_time);
                emit(out, x.to_bytes());
                let f = FundingRateMsg::create(symbol.to_owned(), rate, next_time, event_time);
                emit(out, f.to_bytes());
                assert(views(final(out)@) =~= views(old(out)@) + self.mark_price_frames(*item));
                3
            },
            _ => {
                assert(views(final(out)@) =~= views(old(out)@) + self.mark_price_frames(*item));
                0
            },
        }
    }
}

// ---------------------------------------------------------------- registry

/// The parser bound to one stream.
pub enum ParserEntry {
    Trade(BinanceTradeParser),
    Inc(BinanceIncParser),
    Snapshot(BinanceSnapshotParser),
    Kline(BinanceKlineParser),
    Derivatives(BinanceDerivativesMetricsParser),
    Signal(BinanceSignalParser),
}

impl ParserEntry {
    pub open spec fn frames(&self, doc: JsonValue) -> Seq<Seq<u8>> {
        match self {
            ParserEntry::Trade(_) => BinanceTradeParser::frames(doc),
            ParserEntry::Inc(p) => p.frames(doc),
            ParserEntry::Snapshot(_) => BinanceSnapshotParser::frames(doc),
            ParserEntry::Kline(_) => BinanceKlineParser::frames(doc),
            ParserEntry::Derivatives(p) => p.frames(doc),
            ParserEntry::Signal(p) => p.frames(doc),
        }
    }

    /// Parses one payload with the bound parser.
    pub fn parse(&self, doc: &JsonValue, out: &mut Vec<bytes::Bytes>) -> (n: usize)
        ensures
            views(final(out)@) == views(old(out)@) + self.frames(*doc),
            n == self.frames(*doc).len(),
    {
        match self {
            ParserEntry::Trade(p) => p.parse(doc, out),
            ParserEntry::Inc(p) => p.parse(doc, out),
            ParserEntry::Snapshot(p) => p.parse(doc, out),
            ParserEntry::Kline(p) => p.parse(doc, out),
            ParserEntry::Derivatives(p) => p.parse(doc, out),
            ParserEntry::Signal(p) => p.parse(doc, out),
        }
    }

    /// The parser of a stream kind: `trade`, `inc`, `snapshot`, `kline`,
    /// `derivatives`, `signal-ipc` or `signal-tcp`; `None` for another name.
    pub fn for_stream(kind: &str, is_futures: bool, symbols: Vec<String>) -> (r: Option<Self>)
        ensures
            r is Some <==> (kind@ == "trade"@ || kind@ == "inc"@ || kind@ == "snapshot"@ || kind@
                == "kline"@ || kind@ == "derivatives"@ || kind@ == "signal-ipc"@ || kind@
                == "signal-tcp"@),
            kind@ == "trade"@ ==> r == Some(ParserEntry::Trade(BinanceTradeParser)),
            kind@ == "inc"@ ==> (r matches Some(ParserEntry::Inc(p)) && p.is_futures == is_futures),
            kind@ == "signal-ipc"@ ==> (r matches Some(ParserEntry::Signal(p)) && p.source == SignalSource::Ipc),
            kind@ == "signal-tcp"@ ==> (r matches Some(ParserEntry::Signal(p)) && p.source == SignalSource::Tcp),
            kind@ == "derivatives"@ ==> (r matches Some(ParserEntry::Derivatives(p)) && p.symbols@ == symbols@),
            kind@ == "kline"@ ==> (r matches Some(ParserEntry::Kline(p)) && p.is_future == is_futures),
            kind@ == "snapshot"@ ==> (r matches Some(ParserEntry::Snapshot(_))),
    {
        proof {
            reveal_strlit("trade");
            reveal_strlit("inc");
            reveal_strlit("snapshot");
            reveal_strlit("kline");
            reveal_strlit("derivatives");
            reveal_strlit("signal-ipc");
            reveal_strlit("signal-tcp");
            assert("inc"@[0] != "trade"@[0]);
            assert("signal-ipc"@[1] != "snapshot"@[1]);
            assert("signal-tcp"@[1] != "snapshot"@[1]);
            assert("signal-ipc"@[0] != "trade"@[0] && "signal-ipc"@[0] != "inc"@[0]
                && "signal-ipc"@[0] != "kline"@[0] && "signal-ipc"@[0] != "derivatives"@[0]);
            assert("signal-tcp"@[0] != "trade"@[0] && "signal-tcp"@[0] != "inc"@[0]
                && "signal-tcp"@[0] != "kline"@[0] && "signal-tcp"@[0] != "derivatives"@[0]);
            assert("signal-tcp"@[7] != "signal-ipc"@[7]);
        }
        if str_eq(kind, "trade") {
            Some(ParserEntry::Trade(BinanceTradeParser::new()))
        } else if str_eq(kind, "inc") {
            Some(ParserEntry::Inc(BinanceIncParser { is_futures }))
        } else if str_eq(kind, "snapshot") {
            Some(ParserEntry::Snapshot(BinanceSnapshotParser::new()))
        } else if str_eq(kind, "kline") {
            Some(ParserEntry::Kline(BinanceKlineParser::new(is_futures)))
        } else if str_eq(kind, "derivatives") {
            Some(ParserEntry::Derivatives(BinanceDerivativesMetricsParser::new(symbols)))
        } else if str_eq(kind, "signal-ipc") {
            Some(ParserEntry::Signal(BinanceSignalParser { source: SignalSource::Ipc }))
        } else if str_eq(kind, "signal-tcp") {
            Some(ParserEntry::Signal(BinanceSignalParser { source: SignalSource::Tcp }))
        } else {
            None
        }
    }
}

// ---------------------------------------------------------------- laws

/// The symbol at `key` of `doc`, if any, fits its 32-bit length field.
pub open spec fn short_symbol_at(doc: JsonValue, key: Seq<char>) -> bool {
    str_at(doc, key) is Some ==> short_symbol(str_at(doc, key)->Some_0)
}

/// Every frame in `frames` has the length its declared type predicts.
pub open spec fn all_sized(frames: Seq<Seq<u8>>) -> bool {
    forall|i: int| 0 <= i < frames.len() ==> declared_size(#[trigger] frames[i]) == frames[i].len()
}

proof fn lemma_book_levels_len(b: Seq<JsonValue>, a: Seq<JsonValue>)
    ensures
        book_levels(b, a).len() == b.len() + a.len(),
{
}

/// The trade parser's frames have the lengths their types predict.
pub proof fn lemma_trade_frames_sized(doc: JsonValue)
    requires
        short_symbol_at(doc, "s"@),
    ensures
        all_sized(BinanceTradeParser::frames(doc)),
{
    let f = BinanceTradeParser::frames(doc);
    if f.len() > 0 {
        let s = str_at(doc, "s"@)->Some_0;
        let id = i64_at(doc, "t"@)->Some_0;
        let ts = i64_at(doc, "T"@)->Some_0;
        let m = bool_at(doc, "m"@)->Some_0;
        lemma_trade_size(s, id, ts, if m { 'S' } else { 'B' }, strf_at(doc, "p"@)->Some_0, strf_at(doc, "q"@)->Some_0);
    }
}

/// The depth parser's frames have the lengths their types predict.
pub proof fn lemma_inc_frames_sized(p: BinanceIncParser, doc: JsonValue)
    requires
        short_symbol_at(doc, "s"@),
    ensures
        all_sized(p.frames(doc)),
{
    let f = p.frames(doc);
    if f.len() > 0 {
        let s = str_at(doc, "s"@)->Some_0;
        let first = i64_at(doc, "U"@)->Some_0;
        let last = i64_at(doc, "u"@)->Some_0;
        let ts = i64_at(doc, BinanceIncParser::time_key(doc))->Some_0;
        let b = array_at(doc, "b"@)->Some_0;
        let a = array_at(doc, "a"@)->Some_0;
        lemma_book_levels_len(b, a);
        lemma_book_size(s, first, last, ts, false, b.len() as u32, a.len() as u32, book_levels(b, a));
        if p.is_futures {
            lemma_seqno_size(s, i64_at(doc, "pu"@)->Some_0, last, first, ts);
        }
    }
}

/// The snapshot parser's frames have the lengths their types predict.
pub proof fn lemma_snapshot_frames_sized(doc: JsonValue)
    requires
        short_symbol_at(doc, "s"@),
    ensures
        all_sized(BinanceSnapshotParser::frames(doc)),
{
    let f = BinanceSnapshotParser::frames(doc);
    if f.len() > 0 {
        let s = str_at(doc, "s"@)->Some_0;
        let last = i64_at(doc, "lastUpdateId"@)->Some_0;
        let b = array_at(doc, "bids"@)->Some_0;
        let a = array_at(doc, "asks"@)->Some_0;
        lemma_book_levels_len(b, a);
        lemma_book_size(s, (last + 1) as i64, (last + 1) as i64, 0, true, b.len() as u32, a.len() as u32, book_levels(b, a));
    }
}

/// The kline parser's frames have the lengths their types predict.
pub proof fn lemma_kline_frames_sized(doc: JsonValue)
    requires
        short_symbol_at(doc, "s"@),
    ensures
        all_sized(BinanceKlineParser::frames(doc)),
{
    let f = BinanceKlineParser::frames(doc);
    if f.len() > 0 {
        let k = doc.spec_get("k"@)->Some_0;
        lemma_kline_size(
            str_at(doc, "s"@)->Some_0,
            strf_at(k, "o"@)->Some_0,
            strf_at(k, "h"@)->Some_0,
            strf_at(k, "l"@)->Some_0,
            strf_at(k, "c"@)->Some_0,
            strf_at(k, "v"@)->Some_0,
            strf_at(k, "q"@)->Some_0,
            i64_at(k, "t"@)->Some_0,
            i64_at(k, "n"@)->Some_0,
            strf_at(k, "V"@)->Some_0,
            strf_at(k, "Q"@)->Some_0,
        );
    }
}

/// The signal parser's frames have the lengths their types predict.
pub proof fn lemma_signal_frames_sized(p: BinanceSignalParser, doc: JsonValue)
    ensures
        all_sized(p.frames(doc)),
{
    if p.frames(doc).len() > 0 {
        lemma_signal_and_bar_close_sizes(p.source, i64_at(doc, "E"@)->Some_0);
    }
}

/// Every symbol a payload carries (top level, in `o`, or in array items)
/// fits its 32-bit length field.
pub open spec fn payload_symbols_short(doc: JsonValue) -> bool {
    &&& short_symbol_at(doc, "s"@)
    &&& (doc.spec_get("o"@) is Some ==> short_symbol_at(doc.spec_get("o"@)->Some_0, "s"@))
    &&& (doc.spec_as_array() is Some ==> forall|i: int|
        0 <= i < doc.spec_as_array()->Some_0.len() ==> short_symbol_at(
            #[trigger] doc.spec_as_array()->Some_0[i],
            "s"@,
        ))
}

proof fn lemma_mark_price_sized(p: BinanceDerivativesMetricsParser, item: JsonValue)
    requires
        short_symbol_at(item, "s"@),
    ensures
        all_sized(p.mark_price_frames(item)),
{
    if p.mark_price_frames(item).len() > 0 {
        lemma_price_sizes(
            str_at(item, "s"@)->Some_0,
            strf_at(item, "p"@)->Some_0,
            strf_at(item, "r"@)->Some_0,
            i64_at(item, "E"@)->Some_0,
            i64_at(item, "T"@)->Some_0,
        );
        lemma_price_sizes(
            str_at(item, "s"@)->Some_0,
            strf_at(item, "i"@)->Some_0,
            strf_at(item, "r"@)->Some_0,
            i64_at(item, "E"@)->Some_0,
            i64_at(item, "T"@)->Some_0,
        );
    }
}

proof fn lemma_mark_price_array_sized(p: BinanceDerivativesMetricsParser, items: Seq<JsonValue>)
    requires
        forall|i: int| 0 <= i < items.len() ==> short_symbol_at(#[trigger] items[i], "s"@),
    ensures
        all_sized(p.mark_price_array_frames(items)),
    decreases items.len(),
{
    if items.len() > 0 {
        lemma_mark_price_array_sized(p, items.drop_last());
        lemma_mark_price_sized(p, items.last());
        let a = p.mark_price_array_frames(items.drop_last());
        let b = p.mark_price_frames(items.last());
        assert forall|i: int| 0 <= i < (a + b).len() implies declared_size(#[trigger] (a + b)[i]) == (a
            + b)[i].len() by {
            if i < a.len() {
                assert((a + b)[i] == a[i]);
            } else {
                assert((a + b)[i] == b[i - a.len()]);
            }
        }
    }
}

/// The derivatives parser's frames have the lengths their types predict.
pub proof fn lemma_derivative_frames_sized(p: BinanceDerivativesMetricsParser, doc: JsonValue)
    requires
        payload_symbols_short(doc),
    ensures
        all_sized(p.frames(doc)),
{
    match doc.spec_as_array() {
        Some(items) => {
            lemma_mark_price_array_sized(p, items);
        },
        None => {
            if str_at(doc, "e"@) == Some("forceOrder"@) {
                if p.liquidation_frames(doc).len() > 0 {
                    let o = doc.spec_get("o"@)->Some_0;
                    let side = str_at(o, "S"@)->Some_0;
                    lemma_liquidation_size(
                        str_at(o, "s"@)->Some_0,
                        if side == "BUY"@ { 'B' } else { 'S' },
                        strf_at(o, "z"@)->Some_0,
                        strf_at(o, "ap"@)->Some_0,
                        i64_at(o, "T"@)->Some_0,
                    );
                }
            } else {
                lemma_mark_price_sized(p, doc);
            }
        },
    }
}

/// Whatever parser a stream is bound to, every frame it appends has the
/// length that the frame's own tag, symbol length and level counts predict.
pub proof fn lemma_parser_frames_sized(p: ParserEntry, doc: JsonValue)
    requires
        payload_symbols_short(doc),
    ensures
        all_sized(p.frames(doc)),
{
    match p {
        ParserEntry::Trade(_) => lemma_trade_frames_sized(doc),
        ParserEntry::Inc(q) => lemma_inc_frames_sized(q, doc),
        ParserEntry::Snapshot(_) => lemma_snapshot_frames_sized(doc),
        ParserEntry::Kline(_) => lemma_kline_frames_sized(doc),
        ParserEntry::Derivatives(q) => lemma_derivative_frames_sized(q, doc),
        ParserEntry::Signal(q) => lemma_signal_frames_sized(q, doc),
    }
}

/// A futures depth diff yields a sequence-marker frame immediately followed
/// by its book frame, both for the payload's symbol, the marker carrying the
/// book's final and first update ids; a spot depth diff yields the book frame
/// alone.
#[verifier::rlimit(50)]
pub proof fn lemma_depth_frame_order(p: BinanceIncParser, doc: JsonValue)
    requires
        short_symbol_at(doc, "s"@),
    ensures
        p.frames(doc).len() > 0 ==> {
            let f = p.frames(doc);
            let s = str_at(doc, "s"@)->Some_0;
            let n = 8 + crate::wire::utf8(s).len() as int;
            &&& p.is_futures ==> f.len() == 2 && read_u32(f[0], 0) == 1016 && read_u32(f[1], 0) == 1005
                && read_symbol(f[0]) == s && read_symbol(f[1]) == s
                && crate::mkt_msg::read_i64(f[0], n + 8) == crate::mkt_msg::read_i64(f[1], n + 8)
                && crate::mkt_msg::read_i64(f[0], n + 16) == crate::mkt_msg::read_i64(f[1], n)
            &&& !p.is_futures ==> f.len() == 1 && read_u32(f[0], 0) == 1005 && read_symbol(f[0]) == s
        },
{
    let f = p.frames(doc);
    if f.len() > 0 {
        lemma_field_lengths();
        let s = str_at(doc, "s"@)->Some_0;
        let first = i64_at(doc, "U"@)->Some_0;
        let last = i64_at(doc, "u"@)->Some_0;
        let ts = i64_at(doc, BinanceIncParser::time_key(doc))->Some_0;
        let b = array_at(doc, "b"@)->Some_0;
        let a = array_at(doc, "a"@)->Some_0;
        let m = crate::wire::utf8(s).len() as int;
        let levels = book_levels(b, a);
        let book_rest = crate::wire::lei64(first) + crate::wire::lei64(last) + crate::wire::lei64(ts)
            + seq![0u8] + crate::wire::zeros(7) + crate::wire::le32(b.len() as u32) + crate::wire::le32(
            a.len() as u32,
        ) + levels_bytes(levels);
        lemma_read_head(MktMsgType::OrderBookInc, s, book_rest);
        let book = crate::mkt_msg::book_layout(s, first, last, ts, false, b.len() as u32, a.len() as u32, levels);
        assert(book =~= head(MktMsgType::OrderBookInc, crate::wire::len32(s), s) + book_rest);
        assert(book.subrange(8 + m, 8 + m + 8) =~= book_rest.subrange(0, 8));
        assert(book_rest.subrange(0, 8) =~= crate::wire::lei64(first));
        if p.is_futures {
            let pu = i64_at(doc, "pu"@)->Some_0;
            let seq_rest = crate::wire::lei64(pu) + crate::wire::lei64(last) + crate::wire::lei64(first)
                + crate::wire::lei64(ts);
            lemma_read_head(MktMsgType::BinanceIncSeqNo, s, seq_rest);
            let marker = crate::mkt_msg::seqno_layout(s, pu, last, first, ts);
            assert(marker =~= head(MktMsgType::BinanceIncSeqNo, crate::wire::len32(s), s) + seq_rest);
            assert(marker.subrange(8 + m + 8, 8 + m + 16) =~= seq_rest.subrange(8, 16));
            assert(seq_rest.subrange(8, 16) =~= crate::wire::lei64(last));
            assert(marker.subrange(8 + m + 16, 8 + m + 24) =~= seq_rest.subrange(16, 24));
            assert(seq_rest.subrange(16, 24) =~= crate::wire::lei64(first));
            assert(book.subrange(8 + m + 8, 8 + m + 16) =~= book_rest.subrange(8, 16));
            assert(book_rest.subrange(8, 16) =~= crate::wire::lei64(last));
        }
    }
}


} // verus!
