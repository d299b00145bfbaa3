//! Normalised frames and their fixed little-endian layouts.
//!
//! Binary64 values (prices, amounts, rates) are carried as their IEEE-754
//! bit patterns (`u64`); the layouts write those eight bytes unchanged.

use vstd::prelude::*;
use crate::wire::{le32, lei64, le64, len32, utf8, zeros, put_u8, put_u32, put_u64, put_i64, put_str, put_slice, str_len32};

verus! {

#[verifier::external_type_specification]
#[verifier::external_body]
pub struct ExBytes(bytes::Bytes);

/// The bytes held by a `bytes::Bytes` buffer.
pub uninterp spec fn bytes_view(b: bytes::Bytes) -> Seq<u8>;

/// Relies on `bytes::Bytes::from(Vec<u8>)`: the buffer takes over the
/// vector's bytes as they are.
#[verifier::external_body]
pub(crate) fn freeze(v: Vec<u8>) -> (r: bytes::Bytes)
    ensures
        bytes_view(r) == v@,
{
    bytes::Bytes::from(v)
}

/// Relies on `bytes::Bytes` dereferencing to its byte slice, copied by
/// `<[u8]>::to_vec`.
#[verifier::external_body]
pub(crate) fn bytes_to_vec(b: &bytes::Bytes) -> (r: Vec<u8>)
    ensures
        r@ == bytes_view(*b),
{
    b.to_vec()
}

/// Relies on `bytes::Bytes::len`: the number of bytes held.
pub assume_specification[ bytes::Bytes::len ](b: &bytes::Bytes) -> (r: usize)
    ensures
        r == bytes_view(*b).len(),
;

/// Relies on `bytes::Bytes::new`: an empty buffer.
pub assume_specification[ bytes::Bytes::new ]() -> (r: bytes::Bytes)
    ensures
        bytes_view(r) == Seq::<u8>::empty(),
;

/// The type tag that opens every frame.
#[derive(Debug, Clone, Copy, PartialEq, Eq, Structural)]
pub enum MktMsgType {
    TimeSignal,
    TradeInfo,
    OrderBookInc,
    TpReset,
    Kline,
    MarkPrice,
    IndexPrice,
    LiquidationOrder,
    FundingRate,
    PremiumIndexKline,
    BinanceIncSeqNo,
    BinanceTopLongShortRatio,
    RestSummary1m,
    RestSummary5m,
    BarClose1m,
    Error,
}

impl MktMsgType {
    pub open spec fn spec_code(self) -> u32 {
        match self {
            MktMsgType::TimeSignal => 1111,
            MktMsgType::TradeInfo => 1001,
            MktMsgType::OrderBookInc => 1005,
            MktMsgType::TpReset => 1009,
            MktMsgType::Kline => 1010,
            MktMsgType::MarkPrice => 1011,
            MktMsgType::IndexPrice => 1012,
            MktMsgType::LiquidationOrder => 1013,
            MktMsgType::FundingRate => 1014,
            MktMsgType::PremiumIndexKline => 1015,
            MktMsgType::BinanceIncSeqNo => 1016,
            MktMsgType::BinanceTopLongShortRatio => 1017,
            MktMsgType::RestSummary1m => 1018,
            MktMsgType::RestSummary5m => 1019,
            MktMsgType::BarClose1m => 1020,
            MktMsgType::Error => 2222,
        }
    }

    /// The 32-bit tag written on the wire.
    pub fn code(&self) -> (r: u32)
        ensures
            r == self.spec_code(),
    {
        match self {
            MktMsgType::TimeSignal => 1111,
            MktMsgType::TradeInfo => 1001,
            MktMsgType::OrderBookInc => 1005,
            MktMsgType::TpReset => 1009,
            MktMsgType::Kline => 1010,
            MktMsgType::MarkPrice => 1011,
            MktMsgType::IndexPrice => 1012,
            MktMsgType::LiquidationOrder => 1013,
            MktMsgType::FundingRate => 1014,
            MktMsgType::PremiumIndexKline => 1015,
            MktMsgType::BinanceIncSeqNo => 1016,
            MktMsgType::BinanceTopLongShortRatio => 1017,
            MktMsgType::RestSummary1m => 1018,
            MktMsgType::RestSummary5m => 1019,
            MktMsgType::BarClose1m => 1020,
            MktMsgType::Error => 2222,
        }
    }
}

/// Which local transport a time signal is routed to.
#[derive(Debug, Clone, Copy, PartialEq, Eq, Structural)]
pub enum SignalSource {
    Ipc,
    Tcp,
}

impl SignalSource {
    pub open spec fn spec_code(self) -> u32 {
        match self {
            SignalSource::Ipc => 1,
            SignalSource::Tcp => 2,
        }
    }

    pub fn code(&self) -> (r: u32)
        ensures
            r == self.spec_code(),
    {
        match self {
            SignalSource::Ipc => 1,
            SignalSource::Tcp => 2,
        }
    }
}

/// The REST endpoints whose outcome a summary frame reports.
#[derive(Debug, Clone, Copy, PartialEq, Eq, Structural)]
pub enum RestRequestType {
    PremiumIndex,
    OpenInterest,
    TopAccount,
    TopPosition,
    GlobalAccount,
    OpenInterestHist,
}

impl RestRequestType {
    pub open spec fn spec_code(self) -> u8 {
        match self {
            RestRequestType::PremiumIndex => 1,
            RestRequestType::OpenInterest => 2,
            RestRequestType::TopAccount => 3,
            RestRequestType::TopPosition => 4,
            RestRequestType::GlobalAccount => 5,
            RestRequestType::OpenInterestHist => 6,
        }
    }

    pub fn code(&self) -> (r: u8)
        ensures
            r == self.spec_code(),
    {
        match self {
            RestRequestType::PremiumIndex => 1,
            RestRequestType::OpenInterest => 2,
            RestRequestType::TopAccount => 3,
            RestRequestType::TopPosition => 4,
            RestRequestType::GlobalAccount => 5,
            RestRequestType::OpenInterestHist => 6,
        }
    }

    pub open spec fn spec_name(self) -> Seq<char> {
        match self {
            RestRequestType::PremiumIndex => "premium-index"@,
            RestRequestType::OpenInterest => "open-interest"@,
            RestRequestType::TopAccount => "top-account"@,
            RestRequestType::TopPosition => "top-position"@,
            RestRequestType::GlobalAccount => "global-account"@,
            RestRequestType::OpenInterestHist => "open-interest-hist"@,
        }
    }

    /// The request's name as it appears in summaries.
    pub fn as_str(&self) -> (r: &'static str)
        ensures
            r@ == self.spec_name(),
    {
        match self {
            RestRequestType::PremiumIndex => "premium-index",
            RestRequestType::OpenInterest => "open-interest",
            RestRequestType::TopAccount => "top-account",
            RestRequestType::TopPosition => "top-position",
            RestRequestType::GlobalAccount => "global-account",
            RestRequestType::OpenInterestHist => "open-interest-hist",
        }
    }
}

/// Opening of every symbol-carrying frame: tag, symbol length, symbol bytes.
pub open spec fn head(t: MktMsgType, len: u32, symbol: Seq<char>) -> Seq<u8> {
    le32(t.spec_code()) + le32(len) + utf8(symbol)
}

fn put_head(buf: &mut Vec<u8>, t: MktMsgType, len: u32, symbol: &String)
    ensures
        final(buf)@ == old(buf)@ + head(t, len, symbol@),
{
    let ghost start = buf@;
    put_u32(buf, t.code());
    put_u32(buf, len);
    put_str(buf, symbol.as_str());
    assert(buf@ =~= start + head(t, len, symbol@));
}

/// One request outcome inside a REST summary frame.
#[derive(Clone)]
pub struct RestSummaryEntry {
    pub request_type: RestRequestType,
    pub success: bool,
    pub detail: String,
}

impl RestSummaryEntry {
    /// `u8 request | u8 success | u32 detail length | detail bytes`.
    pub open spec fn encoding(&self) -> Seq<u8> {
        seq![self.request_type.spec_code(), if self.success { 1u8 } else { 0u8 }]
            + le32(len32(self.detail@)) + utf8(self.detail@)
    }

    pub fn new(request_type: RestRequestType, success: bool, detail: String) -> (r: Self)
        ensures
            r.request_type == request_type,
            r.success == success,
            r.detail@ == detail@,
    {
        RestSummaryEntry { request_type, success, detail }
    }

    pub fn detail_len(&self) -> (r: usize)
        ensures
            r == utf8(self.detail@).len(),
    {
        self.detail.as_str().as_bytes().len()
    }

    pub fn write_to(&self, buf: &mut Vec<u8>)
        ensures
            final(buf)@ == old(buf)@ + self.encoding(),
    {
        let ghost start = buf@;
        put_u8(buf, self.request_type.code());
        put_u8(buf, if self.success { 1u8 } else { 0u8 });
        put_u32(buf, str_len32(self.detail.as_str()));
        put_str(buf, self.detail.as_str());
        assert(buf@ =~= start + self.encoding());
    }
}

/// Outcome of the one-minute REST requests for one symbol.
pub struct RestSummary1mMsg {
    pub msg_type: MktMsgType,
    pub symbol_length: u32,
    pub symbol: String,
    pub close_tp: i64,
    pub premium_index: RestSummaryEntry,
    pub open_interest: RestSummaryEntry,
}

impl RestSummary1mMsg {
    pub open spec fn encoding(&self) -> Seq<u8> {
        head(self.msg_type, self.symbol_length, self.symbol@) + lei64(self.close_tp)
            + self.premium_index.encoding() + self.open_interest.encoding()
    }

    pub fn create(
        symbol: String,
        close_tp: i64,
        premium_index: RestSummaryEntry,
        open_interest: RestSummaryEntry,
    ) -> (r: Self)
        ensures
            r.msg_type == MktMsgType::RestSummary1m,
            r.symbol_length == len32(symbol@),
            r.symbol@ == symbol@,
            r.close_tp == close_tp,
            r.premium_index == premium_index,
            r.open_interest == open_interest,
    {
        let symbol_length = str_len32(symbol.as_str());
        RestSummary1mMsg {
            msg_type: MktMsgType::RestSummary1m,
            symbol_length,
            symbol,
            close_tp,
            premium_index,
            open_interest,
        }
    }

    pub fn to_bytes(&self) -> (r: bytes::Bytes)
        ensures
            bytes_view(r) == self.encoding(),
    {
        let mut buf: Vec<u8> = Vec::new();
        put_head(&mut buf, self.msg_type, self.symbol_length, &self.symbol);
        put_i64(&mut buf, self.close_tp);
        self.premium_index.write_to(&mut buf);
        self.open_interest.write_to(&mut buf);
        assert(buf@ =~= self.encoding());
        freeze(buf)
    }
}

/// Outcome of the five-minute REST requests for one symbol.
pub struct RestSummary5mMsg {
    pub msg_type: MktMsgType,
    pub symbol_length: u32,
    pub symbol: String,
    pub close_tp: i64,
    pub top_account: RestSummaryEntry,
    pub top_position: RestSummaryEntry,
    pub global_account: RestSummaryEntry,
    pub open_interest_hist: RestSummaryEntry,
}

impl RestSummary5mMsg {
    pub open spec fn encoding(&self) -> Seq<u8> {
        head(self.msg_type, self.symbol_length, self.symbol@) + lei64(self.close_tp)
            + self.top_account.encoding() + self.top_position.encoding()
            + self.global_account.encoding() + self.open_interest_hist.encoding()
    }

    pub fn create(
        symbol: String,
        close_tp: i64,
        top_account: RestSummaryEntry,
        top_position: RestSummaryEntry,
        global_account: RestSummaryEntry,
        open_interest_hist: RestSummaryEntry,
    ) -> (r: Self)
        ensures
            r.msg_type == MktMsgType::RestSummary5m,
            r.symbol_length == len32(symbol@),
            r.symbol@ == symbol@,
            r.close_tp == close_tp,
            r.top_account == top_account,
            r.top_position == top_position,
            r.global_account == global_account,
            r.open_interest_hist == open_interest_hist,
    {
        let symbol_length = str_len32(symbol.as_str());
        RestSummary5mMsg {
            msg_type: MktMsgType::RestSummary5m,
            symbol_length,
            symbol,
            close_tp,
            top_account,
            top_position,
            global_account,
            open_interest_hist,
        }
    }

    pub fn to_bytes(&self) -> (r: bytes::Bytes)
        ensures
            bytes_view(r) == self.encoding(),
    {
        let mut buf: Vec<u8> = Vec::new();
        put_head(&mut buf, self.msg_type, self.symbol_length, &self.symbol);
        put_i64(&mut buf, self.close_tp);
        self.top_account.write_to(&mut buf);
        self.top_position.write_to(&mut buf);
        self.global_account.write_to(&mut buf);
        self.open_interest_hist.write_to(&mut buf);
        assert(buf@ =~= self.encoding());
        freeze(buf)
    }
}

/// A time signal: `u32 tag | u32 source | i64 timestamp`.
pub struct SignalMsg {
    pub msg_type: MktMsgType,
    pub source: SignalSource,
    pub timestamp: i64,
}

impl SignalMsg {
    pub open spec fn encoding(&self) -> Seq<u8> {
        le32(self.msg_type.spec_code()) + le32(self.source.spec_code()) + lei64(self.timestamp)
    }

    pub fn create(src: SignalSource, tp: i64) -> (r: Self)
        ensures
            r.msg_type == MktMsgType::TimeSignal,
            r.source == src,
            r.timestamp == tp,
    {
        SignalMsg { msg_type: MktMsgType::TimeSignal, source: src, timestamp: tp }
    }

    pub fn to_bytes(&self) -> (r: bytes::Bytes)
        ensures
            bytes_view(r) == self.encoding(),
    {
        let mut buf: Vec<u8> = Vec::with_capacity(16);
        put_u32(&mut buf, self.msg_type.code());
        put_u32(&mut buf, self.source.code());
        put_i64(&mut buf, self.timestamp);
        assert(buf@ =~= self.encoding());
        freeze(buf)
    }
}

/// End of a one-minute bar: `u32 tag | i64 close_time`.
pub struct BarClose1mMsg {
    pub msg_type: MktMsgType,
    pub close_time: i64,
}

impl BarClose1mMsg {
    pub open spec fn encoding(&self) -> Seq<u8> {
        le32(self.msg_type.spec_code()) + lei64(self.close_time)
    }

    pub fn create(close_time: i64) -> (r: Self)
        ensures
            r.msg_type == MktMsgType::BarClose1m,
            r.close_time == close_time,
    {
        BarClose1mMsg { msg_type: MktMsgType::BarClose1m, close_time }
    }

    pub fn to_bytes(&self) -> (r: bytes::Bytes)
        ensures
            bytes_view(r) == self.encoding(),
    {
        let mut buf: Vec<u8> = Vec::with_capacity(12);
        put_u32(&mut buf, self.msg_type.code());
        put_i64(&mut buf, self.close_time);
        assert(buf@ =~= self.encoding());
        freeze(buf)
    }
}

/// Sequence markers of a futures depth diff.
pub struct BinanceIncSeqNoMsg {
    pub msg_type: MktMsgType,
    pub symbol_length: u32,
    pub symbol: String,
    pub pu: i64,
    pub u: i64,
    pub u_upper: i64,
    pub timestamp: i64,
}

impl BinanceIncSeqNoMsg {
    pub open spec fn encoding(&self) -> Seq<u8> {
        head(self.msg_type, self.symbol_length, self.symbol@) + lei64(self.pu) + lei64(self.u)
            + lei64(self.u_upper) + lei64(self.timestamp)
    }

    pub fn create(symbol: String, pu: i64, u: i64, u_upper: i64, timestamp: i64) -> (r: Self)
        ensures
            r.msg_type == MktMsgType::BinanceIncSeqNo,
            r.symbol_length == len32(symbol@),
            r.symbol@ == symbol@,
            r.pu == pu,
            r.u == u,
            r.u_upper == u_upper,
            r.timestamp == timestamp,
    {
        let symbol_length = str_len32(symbol.as_str());
        BinanceIncSeqNoMsg {
            msg_type: MktMsgType::BinanceIncSeqNo,
            symbol_length,
            symbol,
            pu,
            u,
            u_upper,
            timestamp,
        }
    }

    pub fn to_bytes(&self) -> (r: bytes::Bytes)
        ensures
            bytes_view(r) == self.encoding(),
    {
        let mut buf: Vec<u8> = Vec::new();
        put_head(&mut buf, self.msg_type, self.symbol_length, &self.symbol);
        put_i64(&mut buf, self.pu);
        put_i64(&mut buf, self.u);
        put_i64(&mut buf, self.u_upper);
        put_i64(&mut buf, self.timestamp);
        assert(buf@ =~= self.encoding());
        freeze(buf)
    }
}

/// One price level; both values are binary64 bit patterns.
#[derive(Debug, Clone, Copy, PartialEq, Eq, Structural)]
pub struct Level {
    pub price: u64,
    pub amount: u64,
}

impl Level {
    pub fn from_values(price: u64, amount: u64) -> (r: Self)
        ensures
            r.price == price,
            r.amount == amount,
    {
        Level { price, amount }
    }
}

/// Sixteen bytes per level: price then amount.
pub open spec fn levels_bytes(levels: Seq<Level>) -> Seq<u8>
    decreases levels.len(),
{
    if levels.len() == 0 {
        Seq::empty()
    } else {
        levels_bytes(levels.drop_last()) + le64(levels.last().price) + le64(levels.last().amount)
    }
}

pub proof fn lemma_levels_bytes_len(levels: Seq<Level>)
    ensures
        levels_bytes(levels).len() == 16 * levels.len(),
    decreases levels.len(),
{
    if levels.len() > 0 {
        lemma_levels_bytes_len(levels.drop_last());
        vstd::bytes::lemma_auto_spec_u64_to_from_le_bytes();
    }
}

fn put_levels(buf: &mut Vec<u8>, levels: &Vec<Level>)
    ensures
        final(buf)@ == old(buf)@ + levels_bytes(levels@),
{
    let ghost start = buf@;
    let mut i: usize = 0;
    while i < levels.len()
        invariant
            i <= levels@.len(),
            buf@ == start + levels_bytes(levels@.subrange(0, i as int)),
        decreases levels@.len() - i,
    {
        let l = levels[i];
        put_u64(buf, l.price);
        put_u64(buf, l.amount);
        proof {
            let next = levels@.subrange(0, i + 1);
            assert(next.drop_last() =~= levels@.subrange(0, i as int));
        }
        i = i + 1;
        assert(buf@ =~= start + levels_bytes(levels@.subrange(0, i as int)));
    }
    assert(levels@.subrange(0, levels@.len() as int) =~= levels@);
}

/// An order-book diff or snapshot.
#[derive(Debug, Clone)]
pub struct IncMsg {
    pub msg_type: MktMsgType,
    pub symbol_length: u32,
    pub symbol: String,
    pub first_update_id: i64,
    pub final_update_id: i64,
    pub timestamp: i64,
    pub is_snapshot: bool,
    pub padding: [u8; 7],
    pub bids_count: u32,
    pub asks_count: u32,
    /// Bids first, then asks.
    pub levels: Vec<Level>,
}

impl IncMsg {
    pub open spec fn encoding(&self) -> Seq<u8> {
        head(self.msg_type, self.symbol_length, self.symbol@) + lei64(self.first_update_id)
            + lei64(self.final_update_id) + lei64(self.timestamp)
            + seq![if self.is_snapshot { 1u8 } else { 0u8 }] + self.padding@
            + le32(self.bids_count) + le32(self.asks_count) + levels_bytes(self.levels@)
    }

    /// Counts agree with the level array, padding is zero, the symbol length is exact.
    pub open spec fn well_formed(&self) -> bool {
        &&& self.msg_type == MktMsgType::OrderBookInc
        &&& self.symbol_length == len32(self.symbol@)
        &&& self.padding@ == zeros(7)
        &&& self.levels@.len() == self.bids_count + self.asks_count
    }

    pub fn create(
        symbol: String,
        first_update_id: i64,
        final_update_id: i64,
        timestamp: i64,
        is_snapshot: bool,
        bids_count: u32,
        asks_count: u32,
    ) -> (r: Self)
        requires
            bids_count + asks_count <= usize::MAX,
        ensures
            r.well_formed(),
            r.symbol@ == symbol@,
            r.first_update_id == first_update_id,
            r.final_update_id == final_update_id,
            r.timestamp == timestamp,
            r.is_snapshot == is_snapshot,
            r.bids_count == bids_count,
            r.asks_count == asks_count,
            forall|i: int| 0 <= i < r.levels@.len() ==> r.levels@[i] == (Level { price: 0, amount: 0 }),
    {
        let symbol_length = str_len32(symbol.as_str());
        let total = bids_count as usize + asks_count as usize;
        let mut levels: Vec<Level> = Vec::with_capacity(total);
        let mut i: usize = 0;
        while i < total
            invariant
                i <= total,
                levels@.len() == i,
                forall|j: int| 0 <= j < i ==> levels@[j] == (Level { price: 0, amount: 0 }),
            decreases total - i,
        {
            levels.push(Level { price: 0, amount: 0 });
            i = i + 1;
        }
        let padding = [0u8; 7];
        assert(padding@ =~= zeros(7));
        IncMsg {
            msg_type: MktMsgType::OrderBookInc,
            symbol_length,
            symbol,
            first_update_id,
            final_update_id,
            timestamp,
            is_snapshot,
            padding,
            bids_count,
            asks_count,
            levels,
        }
    }

    /// Stores bid `index`; an index past the bids leaves the message unchanged.
    pub fn set_bid_level(&mut self, index: usize, level: Level)
        ensures
            (index < old(self).bids_count && index < old(self).levels@.len()) ==> final(self).levels@
                == old(self).levels@.update(index as int, level),
            !(index < old(self).bids_count && index < old(self).levels@.len()) ==> final(self).levels@
                == old(self).levels@,
            final(self).msg_type == old(self).msg_type,
            final(self).symbol_length == old(self).symbol_length,
            final(self).symbol == old(self).symbol,
            final(self).first_update_id == old(self).first_update_id,
            final(self).final_update_id == old(self).final_update_id,
            final(self).timestamp == old(self).timestamp,
            final(self).is_snapshot == old(self).is_snapshot,
            final(self).padding == old(self).padding,
            final(self).bids_count == old(self).bids_count,
            final(self).asks_count == old(self).asks_count,
    {
        if (index as u64) < (self.bids_count as u64) && index < self.levels.len() {
            self.levels.set(index, level);
        }
    }

    /// Stores ask `index`, placed after the bids; an index past the asks
    /// leaves the message unchanged.
    pub fn set_ask_level(&mut self, index: usize, level: Level)
        ensures
            (index < old(self).asks_count && old(self).bids_count + index < old(self).levels@.len())
                ==> final(self).levels@ == old(self).levels@.update(
                old(self).bids_count + index,
                level,
            ),
            !(index < old(self).asks_count && old(self).bids_count + index < old(self).levels@.len())
                ==> final(self).levels@ == old(self).levels@,
            final(self).msg_type == old(self).msg_type,
            final(self).symbol_length == old(self).symbol_length,
            final(self).symbol == old(self).symbol,
            final(self).first_update_id == old(self).first_update_id,
            final(self).final_update_id == old(self).final_update_id,
            final(self).timestamp == old(self).timestamp,
            final(self).is_snapshot == old(self).is_snapshot,
            final(self).padding == old(self).padding,
            final(self).bids_count == old(self).bids_count,
            final(self).asks_count == old(self).asks_count,
    {
        let ask_start = self.bids_count as usize;
        if (index as u64) < (self.asks_count as u64) && index < self.levels.len()
            && ask_start < self.levels.len() - index {
            self.levels.set(ask_start + index, level);
        }
    }

    pub fn to_bytes(&self) -> (r: bytes::Bytes)
        ensures
            bytes_view(r) == self.encoding(),
    {
        let mut buf: Vec<u8> = Vec::new();
        put_head(&mut buf, self.msg_type, self.symbol_length, &self.symbol);
        put_i64(&mut buf, self.first_update_id);
        put_i64(&mut buf, self.final_update_id);
        put_i64(&mut buf, self.timestamp);
        put_u8(&mut buf, if self.is_snapshot { 1u8 } else { 0u8 });
        put_slice(&mut buf, &self.padding);
        put_u32(&mut buf, self.bids_count);
        put_u32(&mut buf, self.asks_count);
        put_levels(&mut buf, &self.levels);
        assert(buf@ =~= self.encoding());
        freeze(buf)
    }

    /// Byte length of the encoding, saturated at `usize::MAX`.
    pub fn size(&self) -> (r: usize)
        ensures
            r == if 48 + self.symbol_length + 16 * self.levels@.len() <= usize::MAX {
                48 + self.symbol_length + 16 * self.levels@.len()
            } else {
                usize::MAX as int
            },
    {
        let n = self.levels.len();
        let sym = self.symbol_length as usize;
        if n <= (usize::MAX - 48) / 16 && sym <= usize::MAX - 48 - 16 * n {
            48 + sym + 16 * n
        } else {
            usize::MAX
        }
    }
}

/// The byte written for a side character (its low eight bits).
pub open spec fn side_byte(c: char) -> u8 {
    ((c as u32) % 256) as u8
}

fn side_to_byte(c: char) -> (r: u8)
    ensures
        r == side_byte(c),
{
    let v = c as u32;
    #[verifier::truncate]
    let r = (v % 256) as u8;
    r
}

/// A public trade.
#[derive(Debug, Clone)]
pub struct TradeMsg {
    pub msg_type: MktMsgType,
    pub symbol_length: u32,
    pub symbol: String,
    pub id: i64,
    pub timestamp: i64,
    /// `'B'` buyer-initiated, `'S'` seller-initiated.
    pub side: char,
    pub padding: [u8; 7],
    pub price: u64,
    pub amount: u64,
}

impl TradeMsg {
    pub open spec fn encoding(&self) -> Seq<u8> {
        head(self.msg_type, self.symbol_length, self.symbol@) + lei64(self.id) + lei64(
            self.timestamp,
        ) + seq![side_byte(self.side)] + self.padding@ + le64(self.price) + le64(self.amount)
    }

    pub open spec fn well_formed(&self) -> bool {
        &&& self.msg_type == MktMsgType::TradeInfo
        &&& self.symbol_length == len32(self.symbol@)
        &&& self.padding@ == zeros(7)
    }

    pub fn create(symbol: String, id: i64, timestamp: i64, side: char, price: u64, amount: u64) -> (r:
        Self)
        ensures
            r.well_formed(),
            r.symbol@ == symbol@,
            r.id == id,
            r.timestamp == timestamp,
            r.side == side,
            r.price == price,
            r.amount == amount,
    {
        let symbol_length = str_len32(symbol.as_str());
        let padding = [0u8; 7];
        assert(padding@ =~= zeros(7));
        TradeMsg {
            msg_type: MktMsgType::TradeInfo,
            symbol_length,
            symbol,
            id,
            timestamp,
            side,
            padding,
            price,
            amount,
        }
    }

    pub fn to_bytes(&self) -> (r: bytes::Bytes)
        ensures
            bytes_view(r) == self.encoding(),
    {
        let mut buf: Vec<u8> = Vec::new();
        put_head(&mut buf, self.msg_type, self.symbol_length, &self.symbol);
        put_i64(&mut buf, self.id);
        put_i64(&mut buf, self.timestamp);
        put_u8(&mut buf, side_to_byte(self.side));
        put_slice(&mut buf, &self.padding);
        put_u64(&mut buf, self.price);
        put_u64(&mut buf, self.amount);
        assert(buf@ =~= self.encoding());
        freeze(buf)
    }

    /// Byte length of the encoding, saturated at `usize::MAX`.
    pub fn aligned_size(&self) -> (r: usize)
        ensures
            r == if 48 + self.symbol_length <= usize::MAX {
                48 + self.symbol_length
            } else {
                usize::MAX as int
            },
    {
        let sym = self.symbol_length as usize;
        if sym <= usize::MAX - 48 {
            48 + sym
        } else {
            usize::MAX
        }
    }
}

/// A forced liquidation order.
pub struct LiquidationMsg {
    pub msg_type: MktMsgType,
    pub symbol_length: u32,
    pub symbol: String,
    pub liquidation_side: char,
    pub executed_qty: u64,
    pub price: u64,
    pub timestamp: i64,
}

impl LiquidationMsg {
    pub open spec fn encoding(&self) -> Seq<u8> {
        head(self.msg_type, self.symbol_length, self.symbol@) + seq![side_byte(self.liquidation_side)]
            + le64(self.executed_qty) + le64(self.price) + lei64(self.timestamp)
    }

    pub fn create(
        symbol: String,
        liquidation_side: char,
        executed_qty: u64,
        price: u64,
        timestamp: i64,
    ) -> (r: Self)
        ensures
            r.msg_type == MktMsgType::LiquidationOrder,
            r.symbol_length == len32(symbol@),
            r.symbol@ == symbol@,
            r.liquidation_side == liquidation_side,
            r.executed_qty == executed_qty,
            r.price == price,
            r.timestamp == timestamp,
    {
        let symbol_length = str_len32(symbol.as_str());
        LiquidationMsg {
            msg_type: MktMsgType::LiquidationOrder,
            symbol_length,
            symbol,
            liquidation_side,
            executed_qty,
            price,
            timestamp,
        }
    }

    pub fn to_bytes(&self) -> (r: bytes::Bytes)
        ensures
            bytes_view(r) == self.encoding(),
    {
        let mut buf: Vec<u8> = Vec::new();
        put_head(&mut buf, self.msg_type, self.symbol_length, &self.symbol);
        put_u8(&mut buf, side_to_byte(self.liquidation_side));
        put_u64(&mut buf, self.executed_qty);
        put_u64(&mut buf, self.price);
        put_i64(&mut buf, self.timestamp);
        assert(buf@ =~= self.encoding());
        freeze(buf)
    }
}

/// A candlestick bar.
pub struct KlineMsg {
    pub msg_type: MktMsgType,
    pub symbol_length: u32,
    pub symbol: String,
    pub open_price: u64,
    pub high_price: u64,
    pub low_price: u64,
    pub close_price: u64,
    pub volume: u64,
    pub turnover: u64,
    pub timestamp: i64,
    pub trade_num: i64,
    pub taker_buy_vol: u64,
    pub taker_buy_quote_vol: u64,
}

impl KlineMsg {
    pub open spec fn encoding(&self) -> Seq<u8> {
        head(self.msg_type, self.symbol_length, self.symbol@) + le64(self.open_price) + le64(
            self.high_price,
        ) + le64(self.low_price) + le64(self.close_price) + le64(self.volume) + le64(self.turnover)
            + lei64(self.timestamp) + lei64(self.trade_num) + le64(self.taker_buy_vol) + le64(
            self.taker_buy_quote_vol,
        )
    }

    pub fn create(
        symbol: String,
        open_price: u64,
        high_price: u64,
        low_price: u64,
        close_price: u64,
        volume: u64,
        turnover: u64,
        timestamp: i64,
    ) -> (r: Self)
        ensures
            r.msg_type == MktMsgType::Kline,
            r.symbol_length == len32(symbol@),
            r.symbol@ == symbol@,
            r.open_price == open_price,
            r.high_price == high_price,
            r.low_price == low_price,
            r.close_price == close_price,
            r.volume == volume,
            r.turnover == turnover,
            r.timestamp == timestamp,
            r.trade_num == 0,
            r.taker_buy_vol == 0,
            r.taker_buy_quote_vol == 0,
    {
        let symbol_length = str_len32(symbol.as_str());
        KlineMsg {
            msg_type: MktMsgType::Kline,
            symbol_length,
            symbol,
            open_price,
            high_price,
            low_price,
            close_price,
            volume,
            turnover,
            timestamp,
            trade_num: 0,
            taker_buy_vol: 0,
            taker_buy_quote_vol: 0,
        }
    }

    pub fn set_binance_fields(&mut self, trade_num: i64, taker_buy_vol: u64, taker_buy_quote_vol: u64)
        ensures
            *final(self) == (KlineMsg { trade_num, taker_buy_vol, taker_buy_quote_vol, ..*old(self) }),
    {
        self.trade_num = trade_num;
        self.taker_buy_vol = taker_buy_vol;
        self.taker_buy_quote_vol = taker_buy_quote_vol;
    }

    pub fn to_bytes(&self) -> (r: bytes::Bytes)
        ensures
            bytes_view(r) == self.encoding(),
    {
        let mut buf: Vec<u8> = Vec::new();
        put_head(&mut buf, self.msg_type, self.symbol_length, &self.symbol);
        put_u64(&mut buf, self.open_price);
        put_u64(&mut buf, self.high_price);
        put_u64(&mut buf, self.low_price);
        put_u64(&mut buf, self.close_price);
        put_u64(&mut buf, self.volume);
        put_u64(&mut buf, self.turnover);
        put_i64(&mut buf, self.timestamp);
        put_i64(&mut buf, self.trade_num);
        put_u64(&mut buf, self.taker_buy_vol);
        put_u64(&mut buf, self.taker_buy_quote_vol);
        assert(buf@ =~= self.encoding());
        freeze(buf)
    }
}

/// A premium-index bar joined with the open interest at its close.
pub struct PremiumIndexKlineMsg {
    pub msg_type: MktMsgType,
    pub symbol_length: u32,
    pub symbol: String,
    pub open_price: u64,
    pub high_price: u64,
    pub low_price: u64,
    pub close_price: u64,
    pub timestamp: i64,
    pub open_interest: u64,
    pub transaction_time: i64,
}

impl PremiumIndexKlineMsg {
    pub open spec fn encoding(&self) -> Seq<u8> {
        head(self.msg_type, self.symbol_length, self.symbol@) + le64(self.open_price) + le64(
            self.high_price,
        ) + le64(self.low_price) + le64(self.close_price) + lei64(self.timestamp) + le64(
            self.open_interest,
        ) + lei64(self.transaction_time)
    }

    pub fn create(
        symbol: String,
        open_price: u64,
        high_price: u64,
        low_price: u64,
        close_price: u64,
        timestamp: i64,
    ) -> (r: Self)
        ensures
            r.msg_type == MktMsgType::PremiumIndexKline,
            r.symbol_length == len32(symbol@),
            r.symbol@ == symbol@,
            r.open_price == open_price,
            r.high_price == high_price,
            r.low_price == low_price,
            r.close_price == close_price,
            r.timestamp == timestamp,
            r.open_interest == 0,
            r.transaction_time == 0,
    {
        let symbol_length = str_len32(symbol.as_str());
        PremiumIndexKlineMsg {
            msg_type: MktMsgType::PremiumIndexKline,
            symbol_length,
            symbol,
            open_price,
            high_price,
            low_price,
            close_price,
            timestamp,
            open_interest: 0,
            transaction_time: 0,
        }
    }

    pub fn set_open_interest(&mut self, open_interest: u64, time: i64)
        ensures
            *final(self) == (PremiumIndexKlineMsg {
                open_interest,
                transaction_time: time,
                ..*old(self)
            }),
    {
        self.open_interest = open_interest;
        self.transaction_time = time;
    }

    pub fn to_bytes(&self) -> (r: bytes::Bytes)
        ensures
            bytes_view(r) == self.encoding(),
    {
        let mut buf: Vec<u8> = Vec::new();
        put_head(&mut buf, self.msg_type, self.symbol_length, &self.symbol);
        put_u64(&mut buf, self.open_price);
        put_u64(&mut buf, self.high_price);
        put_u64(&mut buf, self.low_price);
        put_u64(&mut buf, self.close_price);
        put_i64(&mut buf, self.timestamp);
        put_u64(&mut buf, self.open_interest);
        put_i64(&mut buf, self.transaction_time);
        assert(buf@ =~= self.encoding());
        freeze(buf)
    }
}

/// Long/short ratios of one five-minute bucket.
pub struct TopLongShortRatioMsg {
    pub msg_type: MktMsgType,
    pub symbol_length: u32,
    pub symbol: String,
    pub timestamp: i64,
    pub top_account_long: u64,
    pub top_account_short: u64,
    pub top_account_ratio: u64,
    pub top_position_long: u64,
    pub top_position_short: u64,
    pub top_position_ratio: u64,
    pub global_account_long: u64,
    pub global_account_short: u64,
    pub global_account_ratio: u64,
    pub top_account_timestamp: i64,
    pub top_position_timestamp: i64,
    pub global_account_timestamp: i64,
    pub sum_open_interest: u64,
    pub sum_open_interest_value: u64,
    pub cmc_circulating_supply: u64,
    pub open_interest_hist_timestamp: i64,
}

impl TopLongShortRatioMsg {
    pub open spec fn encoding(&self) -> Seq<u8> {
        head(self.msg_type, self.symbol_length, self.symbol@) + lei64(self.timestamp) + le64(
            self.top_account_long,
        ) + le64(self.top_account_short) + le64(self.top_account_ratio) + le64(
            self.top_position_long,
        ) + le64(self.top_position_short) + le64(self.top_position_ratio) + le64(
            self.global_account_long,
        ) + le64(self.global_account_short) + le64(self.global_account_ratio) + lei64(
            self.top_account_timestamp,
        ) + lei64(self.top_position_timestamp) + lei64(self.global_account_timestamp) + le64(
            self.sum_open_interest,
        ) + le64(self.sum_open_interest_value) + le64(self.cmc_circulating_supply) + lei64(
            self.open_interest_hist_timestamp,
        )
    }

    pub fn create(
        symbol: String,
        timestamp: i64,
        top_account_long: u64,
        top_account_short: u64,
        top_account_ratio: u64,
        top_position_long: u64,
        top_position_short: u64,
        top_position_ratio: u64,
        global_account_long: u64,
        global_account_short: u64,
        global_account_ratio: u64,
        top_account_timestamp: i64,
        top_position_timestamp: i64,
        global_account_timestamp: i64,
    ) -> (r: Self)
        ensures
            r.msg_type == MktMsgType::BinanceTopLongShortRatio,
            r.symbol_length == len32(symbol@),
            r.symbol@ == symbol@,
            r.timestamp == timestamp,
            r.top_account_long == top_account_long,
            r.top_account_short == top_account_short,
            r.top_account_ratio == top_account_ratio,
            r.top_position_long == top_position_long,
            r.top_position_short == top_position_short,
            r.top_position_ratio == top_position_ratio,
            r.global_account_long == global_account_long,
            r.global_account_short == global_account_short,
            r.global_account_ratio == global_account_ratio,
            r.top_account_timestamp == top_account_timestamp,
            r.top_position_timestamp == top_position_timestamp,
            r.global_account_timestamp == global_account_timestamp,
            r.sum_open_interest == 0,
            r.sum_open_interest_value == 0,
            r.cmc_circulating_supply == 0,
            r.open_interest_hist_timestamp == 0,
    {
        let symbol_length = str_len32(symbol.as_str());
        TopLongShortRatioMsg {
            msg_type: MktMsgType::BinanceTopLongShortRatio,
            symbol_length,
            symbol,
            timestamp,
            top_account_long,
            top_account_short,
            top_account_ratio,
            top_position_long,
            top_position_short,
            top_position_ratio,
            global_account_long,
            global_account_short,
            global_account_ratio,
            top_account_timestamp,
            top_position_timestamp,
            global_account_timestamp,
            sum_open_interest: 0,
            sum_open_interest_value: 0,
            cmc_circulating_supply: 0,
            open_interest_hist_timestamp: 0,
        }
    }

    pub fn set_open_interest_hist(
        &mut self,
        sum_open_interest: u64,
        sum_open_interest_value: u64,
        cmc_circulating_supply: u64,
        timestamp: i64,
    )
        ensures
            *final(self) == (TopLongShortRatioMsg {
                sum_open_interest,
                sum_open_interest_value,
                cmc_circulating_supply,
                open_interest_hist_timestamp: timestamp,
                ..*old(self)
            }),
    {
        self.sum_open_interest = sum_open_interest;
        self.sum_open_interest_value = sum_open_interest_value;
        self.cmc_circulating_supply = cmc_circulating_supply;
        self.open_interest_hist_timestamp = timestamp;
    }

    pub fn to_bytes(&self) -> (r: bytes::Bytes)
        ensures
            bytes_view(r) == self.encoding(),
    {
        let mut buf: Vec<u8> = Vec::new();
        put_head(&mut buf, self.msg_type, self.symbol_length, &self.symbol);
        put_i64(&mut buf, self.timestamp);
        put_u64(&mut buf, self.top_account_long);
        put_u64(&mut buf, self.top_account_short);
        put_u64(&mut buf, self.top_account_ratio);
        put_u64(&mut buf, self.top_position_long);
        put_u64(&mut buf, self.top_position_short);
        put_u64(&mut buf, self.top_position_ratio);
        put_u64(&mut buf, self.global_account_long);
        put_u64(&mut buf, self.global_account_short);
        put_u64(&mut buf, self.global_account_ratio);
        put_i64(&mut buf, self.top_account_timestamp);
        put_i64(&mut buf, self.top_position_timestamp);
        put_i64(&mut buf, self.global_account_timestamp);
        put_u64(&mut buf, self.sum_open_interest);
        put_u64(&mut buf, self.sum_open_interest_value);
        put_u64(&mut buf, self.cmc_circulating_supply);
        put_i64(&mut buf, self.open_interest_hist_timestamp);
        assert(buf@ =~= self.encoding());
        freeze(buf)
    }
}

/// A funding rate with the next settlement time.
pub struct FundingRateMsg {
    pub msg_type: MktMsgType,
    pub symbol_length: u32,
    pub symbol: String,
    pub funding_rate: u64,
    pub next_funding_time: i64,
    pub timestamp: i64,
}

impl FundingRateMsg {
    pub open spec fn encoding(&self) -> Seq<u8> {
        head(self.msg_type, self.symbol_length, self.symbol@) + le64(self.funding_rate) + lei64(
            self.next_funding_time,
        ) + lei64(self.timestamp)
    }

    pub fn create(symbol: String, funding_rate: u64, next_funding_time: i64, timestamp: i64) -> (r:
        Self)
        ensures
            r.msg_type == MktMsgType::FundingRate,
            r.symbol_length == len32(symbol@),
            r.symbol@ == symbol@,
            r.funding_rate == funding_rate,
            r.next_funding_time == next_funding_time,
            r.timestamp == timestamp,
    {
        let symbol_length = str_len32(symbol.as_str());
        FundingRateMsg {
            msg_type: MktMsgType::FundingRate,
            symbol_length,
            symbol,
            funding_rate,
            next_funding_time,
            timestamp,
        }
    }

    pub fn to_bytes(&self) -> (r: bytes::Bytes)
        ensures
            bytes_view(r) == self.encoding(),
    {
        let mut buf: Vec<u8> = Vec::new();
        put_head(&mut buf, self.msg_type, self.symbol_length, &self.symbol);
        put_u64(&mut buf, self.funding_rate);
        put_i64(&mut buf, self.next_funding_time);
        put_i64(&mut buf, self.timestamp);
        assert(buf@ =~= self.encoding());
        freeze(buf)
    }
}

/// A mark price.
pub struct MarkPriceMsg {
    pub msg_type: MktMsgType,
    pub symbol_length: u32,
    pub symbol: String,
    pub mark_price: u64,
    pub timestamp: i64,
}

impl MarkPriceMsg {
    pub open spec fn encoding(&self) -> Seq<u8> {
        head(self.msg_type, self.symbol_length, self.symbol@) + le64(self.mark_price) + lei64(
            self.timestamp,
        )
    }

    pub fn create(symbol: String, mark_price: u64, timestamp: i64) -> (r: Self)
        ensures
            r.msg_type == MktMsgType::MarkPrice,
            r.symbol_length == len32(symbol@),
            r.symbol@ == symbol@,
            r.mark_price == mark_price,
            r.timestamp == timestamp,
    {
        let symbol_length = str_len32(symbol.as_str());
        MarkPriceMsg { msg_type: MktMsgType::MarkPrice, symbol_length, symbol, mark_price, timestamp }
    }

    pub fn to_bytes(&self) -> (r: bytes::Bytes)
        ensures
            bytes_view(r) == self.encoding(),
    {
        let mut buf: Vec<u8> = Vec::new();
        put_head(&mut buf, self.msg_type, self.symbol_length, &self.symbol);
        put_u64(&mut buf, self.mark_price);
        put_i64(&mut buf, self.timestamp);
        assert(buf@ =~= self.encoding());
        freeze(buf)
    }
}

/// An index price.
pub struct IndexPriceMsg {
    pub msg_type: MktMsgType,
    pub symbol_length: u32,
    pub symbol: String,
    pub index_price: u64,
    pub timestamp: i64,
}

impl IndexPriceMsg {
    pub open spec fn encoding(&self) -> Seq<u8> {
        head(self.msg_type, self.symbol_length, self.symbol@) + le64(self.index_price) + lei64(
            self.timestamp,
        )
    }

    pub fn create(symbol: String, index_price: u64, timestamp: i64) -> (r: Self)
        ensures
            r.msg_type == MktMsgType::IndexPrice,
            r.symbol_length == len32(symbol@),
            r.symbol@ == symbol@,
            r.index_price == index_price,
            r.timestamp == timestamp,
    {
        let symbol_length = str_len32(symbol.as_str());
        IndexPriceMsg { msg_type: MktMsgType::IndexPrice, symbol_length, symbol, index_price, timestamp }
    }

    pub fn to_bytes(&self) -> (r: bytes::Bytes)
        ensures
            bytes_view(r) == self.encoding(),
    {
        let mut buf: Vec<u8> = Vec::new();
        put_head(&mut buf, self.msg_type, self.symbol_length, &self.symbol);
        put_u64(&mut buf, self.index_price);
        put_i64(&mut buf, self.timestamp);
        assert(buf@ =~= self.encoding());
        freeze(buf)
    }
}

/// A generic envelope: `u32 tag | u32 length | payload`.
pub struct MktMsg {
    pub msg_type: MktMsgType,
    pub msg_length: u32,
    pub data: bytes::Bytes,
}

impl MktMsg {
    pub open spec fn encoding(&self) -> Seq<u8> {
        le32(self.msg_type.spec_code()) + le32(self.msg_length) + bytes_view(self.data)
    }

    pub fn create(msg_type: MktMsgType, data: bytes::Bytes) -> (r: Self)
        ensures
            r.msg_type == msg_type,
            r.msg_length == (bytes_view(data).len() % 0x1_0000_0000) as u32,
            bytes_view(r.data) == bytes_view(data),
    {
        let n = data.len();
        #[verifier::truncate]
        let msg_length = (n as u64 % 0x1_0000_0000u64) as u32;
        MktMsg { msg_type, msg_length, data }
    }

    /// An empty envelope tagged as a timestamp reset.
    pub fn tp_reset() -> (r: Self)
        ensures
            r.msg_type == MktMsgType::TpReset,
            r.msg_length == 0,
            bytes_view(r.data) == Seq::<u8>::empty(),
    {
        Self::create(MktMsgType::TpReset, bytes::Bytes::new())
    }

    pub fn to_bytes(&self) -> (r: bytes::Bytes)
        ensures
            bytes_view(r) == self.encoding(),
    {
        let mut buf: Vec<u8> = Vec::new();
        put_u32(&mut buf, self.msg_type.code());
        put_u32(&mut buf, self.msg_length);
        let payload = bytes_to_vec(&self.data);
        put_slice(&mut buf, payload.as_slice());
        assert(buf@ =~= self.encoding());
        freeze(buf)
    }
}

/// Layout of a trade frame built from its values.
pub open spec fn trade_layout(symbol: Seq<char>, id: i64, ts: i64, side: char, price: u64, amount: u64) -> Seq<u8> {
    head(MktMsgType::TradeInfo, len32(symbol), symbol) + lei64(id) + lei64(ts) + seq![side_byte(side)]
        + zeros(7) + le64(price) + le64(amount)
}

/// Layout of a sequence-marker frame built from its values.
pub open spec fn seqno_layout(symbol: Seq<char>, pu: i64, u: i64, u_upper: i64, ts: i64) -> Seq<u8> {
    head(MktMsgType::BinanceIncSeqNo, len32(symbol), symbol) + lei64(pu) + lei64(u) + lei64(u_upper)
        + lei64(ts)
}

/// Layout of an order-book frame built from its values.
pub open spec fn book_layout(
    symbol: Seq<char>,
    first_update_id: i64,
    final_update_id: i64,
    ts: i64,
    is_snapshot: bool,
    bids_count: u32,
    asks_count: u32,
    levels: Seq<Level>,
) -> Seq<u8> {
    head(MktMsgType::OrderBookInc, len32(symbol), symbol) + lei64(first_update_id) + lei64(
        final_update_id,
    ) + lei64(ts) + seq![if is_snapshot { 1u8 } else { 0u8 }] + zeros(7) + le32(bids_count) + le32(
        asks_count,
    ) + levels_bytes(levels)
}

/// Layout of a kline frame built from its values.
pub open spec fn kline_layout(
    symbol: Seq<char>,
    o: u64,
    h: u64,
    l: u64,
    c: u64,
    volume: u64,
    turnover: u64,
    ts: i64,
    trade_num: i64,
    taker_buy_vol: u64,
    taker_buy_quote_vol: u64,
) -> Seq<u8> {
    head(MktMsgType::Kline, len32(symbol), symbol) + le64(o) + le64(h) + le64(l) + le64(c) + le64(
        volume,
    ) + le64(turnover) + lei64(ts) + lei64(trade_num) + le64(taker_buy_vol) + le64(
        taker_buy_quote_vol,
    )
}

/// Layout of a mark-price frame built from its values.
pub open spec fn mark_price_layout(symbol: Seq<char>, price: u64, ts: i64) -> Seq<u8> {
    head(MktMsgType::MarkPrice, len32(symbol), symbol) + le64(price) + lei64(ts)
}

/// Layout of an index-price frame built from its values.
pub open spec fn index_price_layout(symbol: Seq<char>, price: u64, ts: i64) -> Seq<u8> {
    head(MktMsgType::IndexPrice, len32(symbol), symbol) + le64(price) + lei64(ts)
}

/// Layout of a funding-rate frame built from its values.
pub open spec fn funding_rate_layout(symbol: Seq<char>, rate: u64, next_time: i64, ts: i64) -> Seq<u8> {
    head(MktMsgType::FundingRate, len32(symbol), symbol) + le64(rate) + lei64(next_time) + lei64(ts)
}

/// Layout of a liquidation frame built from its values.
pub open spec fn liquidation_layout(symbol: Seq<char>, side: char, qty: u64, price: u64, ts: i64) -> Seq<u8> {
    head(MktMsgType::LiquidationOrder, len32(symbol), symbol) + seq![side_byte(side)] + le64(qty) + le64(
        price,
    ) + lei64(ts)
}

/// Layout of a time-signal frame built from its values.
pub open spec fn signal_layout(source: SignalSource, ts: i64) -> Seq<u8> {
    le32(MktMsgType::TimeSignal.spec_code()) + le32(source.spec_code()) + lei64(ts)
}

/// Layout of a bar-close frame built from its value.
pub open spec fn bar_close_layout(close_time: i64) -> Seq<u8> {
    le32(MktMsgType::BarClose1m.spec_code()) + lei64(close_time)
}

// ---------------------------------------------------------------- reading frames back

/// The unsigned 32-bit field at byte `at`.
pub open spec fn read_u32(f: Seq<u8>, at: int) -> u32 {
    vstd::bytes::spec_u32_from_le_bytes(f.subrange(at, at + 4))
}

/// The unsigned 64-bit field at byte `at`.
pub open spec fn read_u64(f: Seq<u8>, at: int) -> u64 {
    vstd::bytes::spec_u64_from_le_bytes(f.subrange(at, at + 8))
}

/// The signed 64-bit field at byte `at`.
pub open spec fn read_i64(f: Seq<u8>, at: int) -> i64 {
    read_u64(f, at) as i64
}

/// The symbol of a symbol-carrying frame.
pub open spec fn read_symbol(f: Seq<u8>) -> Seq<char> {
    vstd::utf8::decode_utf8(f.subrange(8, 8 + read_u32(f, 4) as int))
}

/// The frame length that the layout of the declared type gives, read from
/// the frame itself: its tag, its symbol length and, for a book, its level
/// counts; `-1` for a tag without a layout here.
pub open spec fn declared_size(f: Seq<u8>) -> int {
    let tag = read_u32(f, 0);
    let sym = read_u32(f, 4) as int;
    if tag == 1111 {
        16
    } else if tag == 1020 {
        12
    } else if tag == 1001 {
        48 + sym
    } else if tag == 1005 {
        48 + sym + 16 * (read_u32(f, 8 + sym + 32) + read_u32(f, 8 + sym + 36))
    } else if tag == 1016 {
        40 + sym
    } else if tag == 1010 {
        88 + sym
    } else if tag == 1011 || tag == 1012 {
        24 + sym
    } else if tag == 1014 {
        32 + sym
    } else if tag == 1013 {
        33 + sym
    } else if tag == 1015 {
        64 + sym
    } else if tag == 1017 {
        144 + sym
    } else {
        -1
    }
}

/// A symbol short enough for its 32-bit length field.
pub open spec fn short_symbol(s: Seq<char>) -> bool {
    utf8(s).len() < 0x1_0000_0000
}

pub proof fn lemma_field_lengths()
    ensures
        forall|x: u32| #[trigger] le32(x).len() == 4,
        forall|x: u64| #[trigger] le64(x).len() == 8,
        forall|x: i64| #[trigger] lei64(x).len() == 8,
        forall|n: nat| #[trigger] zeros(n).len() == n,
{
    vstd::bytes::lemma_auto_spec_u32_to_from_le_bytes();
    vstd::bytes::lemma_auto_spec_u64_to_from_le_bytes();
}

/// The opening fields of a symbol-carrying frame read back as written.
pub proof fn lemma_read_head(t: MktMsgType, s: Seq<char>, rest: Seq<u8>)
    requires
        short_symbol(s),
    ensures
        ({
            let f = head(t, len32(s), s) + rest;
            &&& read_u32(f, 0) == t.spec_code()
            &&& read_u32(f, 4) == utf8(s).len()
            &&& read_symbol(f) == s
            &&& f.subrange(8 + utf8(s).len() as int, f.len() as int) == rest
            &&& f.len() == 8 + utf8(s).len() + rest.len()
        }),
{
    lemma_field_lengths();
    vstd::bytes::lemma_auto_spec_u32_to_from_le_bytes();
    let f = head(t, len32(s), s) + rest;
    let n = utf8(s).len() as int;
    assert(f.subrange(0, 4) =~= le32(t.spec_code()));
    assert(f.subrange(4, 8) =~= le32(len32(s)));
    assert(len32(s) == n);
    assert(f.subrange(8, 8 + n) =~= utf8(s));
    vstd::utf8::encode_utf8_decode_utf8(s);
    assert(f.subrange(8 + n, f.len() as int) =~= rest);
}

/// A frame without a symbol read back as written.
pub proof fn lemma_read_tag(t: MktMsgType, rest: Seq<u8>)
    ensures
        read_u32(le32(t.spec_code()) + rest, 0) == t.spec_code(),
        (le32(t.spec_code()) + rest).subrange(4, 4 + rest.len() as int) == rest,
{
    lemma_field_lengths();
    vstd::bytes::lemma_auto_spec_u32_to_from_le_bytes();
    assert((le32(t.spec_code()) + rest).subrange(0, 4) =~= le32(t.spec_code()));
    assert((le32(t.spec_code()) + rest).subrange(4, 4 + rest.len() as int) =~= rest);
}

/// Every trade frame has the length its declared type predicts.
pub proof fn lemma_trade_size(s: Seq<char>, id: i64, ts: i64, side: char, price: u64, amount: u64)
    requires
        short_symbol(s),
    ensures
        declared_size(trade_layout(s, id, ts, side, price, amount)) == trade_layout(s, id, ts, side, price, amount).len(),
{
    lemma_field_lengths();
    let rest = lei64(id) + lei64(ts) + seq![side_byte(side)] + zeros(7) + le64(price) + le64(amount);
    lemma_read_head(MktMsgType::TradeInfo, s, rest);
    assert(trade_layout(s, id, ts, side, price, amount) =~= head(MktMsgType::TradeInfo, len32(s), s) + rest);
}

pub proof fn lemma_seqno_size(s: Seq<char>, pu: i64, u: i64, u_upper: i64, ts: i64)
    requires
        short_symbol(s),
    ensures
        declared_size(seqno_layout(s, pu, u, u_upper, ts)) == seqno_layout(s, pu, u, u_upper, ts).len(),
{
    lemma_field_lengths();
    let rest = lei64(pu) + lei64(u) + lei64(u_upper) + lei64(ts);
    lemma_read_head(MktMsgType::BinanceIncSeqNo, s, rest);
    assert(seqno_layout(s, pu, u, u_upper, ts) =~= head(MktMsgType::BinanceIncSeqNo, len32(s), s) + rest);
}

pub proof fn lemma_book_size(
    s: Seq<char>,
    first: i64,
    last: i64,
    ts: i64,
    snap: bool,
    bc: u32,
    ac: u32,
    levels: Seq<Level>,
)
    requires
        short_symbol(s),
        levels.len() == bc + ac,
    ensures
        declared_size(book_layout(s, first, last, ts, snap, bc, ac, levels)) == book_layout(
            s,
            first,
            last,
            ts,
            snap,
            bc,
            ac,
            levels,
        ).len(),
        read_u32(book_layout(s, first, last, ts, snap, bc, ac, levels), 8 + utf8(s).len() as int + 32) == bc,
        read_u32(book_layout(s, first, last, ts, snap, bc, ac, levels), 8 + utf8(s).len() as int + 36) == ac,
{
    lemma_field_lengths();
    lemma_levels_bytes_len(levels);
    vstd::bytes::lemma_auto_spec_u32_to_from_le_bytes();
    let rest = lei64(first) + lei64(last) + lei64(ts) + seq![if snap { 1u8 } else { 0u8 }] + zeros(7)
        + le32(bc) + le32(ac) + levels_bytes(levels);
    lemma_read_head(MktMsgType::OrderBookInc, s, rest);
    let f = book_layout(s, first, last, ts, snap, bc, ac, levels);
    assert(f =~= head(MktMsgType::OrderBookInc, len32(s), s) + rest);
    let n = utf8(s).len() as int;
    assert(rest.subrange(32, 36) =~= le32(bc));
    assert(rest.subrange(36, 40) =~= le32(ac));
    assert(f.subrange(8 + n + 32, 8 + n + 36) =~= f.subrange(8 + n, f.len() as int).subrange(32, 36));
    assert(f.subrange(8 + n + 36, 8 + n + 40) =~= f.subrange(8 + n, f.len() as int).subrange(36, 40));
}

pub proof fn lemma_kline_size(
    s: Seq<char>,
    o: u64,
    h: u64,
    l: u64,
    c: u64,
    v: u64,
    q: u64,
    t: i64,
    n: i64,
    tv: u64,
    tq: u64,
)
    requires
        short_symbol(s),
    ensures
        declared_size(kline_layout(s, o, h, l, c, v, q, t, n, tv, tq)) == kline_layout(s, o, h, l, c, v, q, t, n, tv, tq).len(),
{
    lemma_field_lengths();
    let rest = le64(o) + le64(h) + le64(l) + le64(c) + le64(v) + le64(q) + lei64(t) + lei64(n) + le64(tv)
        + le64(tq);
    lemma_read_head(MktMsgType::Kline, s, rest);
    assert(kline_layout(s, o, h, l, c, v, q, t, n, tv, tq) =~= head(MktMsgType::Kline, len32(s), s) + rest);
}

pub proof fn lemma_price_sizes(s: Seq<char>, p: u64, r: u64, e: i64, t: i64)
    requires
        short_symbol(s),
    ensures
        declared_size(mark_price_layout(s, p, e)) == mark_price_layout(s, p, e).len(),
        declared_size(index_price_layout(s, p, e)) == index_price_layout(s, p, e).len(),
        declared_size(funding_rate_layout(s, r, t, e)) == funding_rate_layout(s, r, t, e).len(),
{
    lemma_field_lengths();
    lemma_read_head(MktMsgType::MarkPrice, s, le64(p) + lei64(e));
    assert(mark_price_layout(s, p, e) =~= head(MktMsgType::MarkPrice, len32(s), s) + (le64(p) + lei64(e)));
    lemma_read_head(MktMsgType::IndexPrice, s, le64(p) + lei64(e));
    assert(index_price_layout(s, p, e) =~= head(MktMsgType::IndexPrice, len32(s), s) + (le64(p) + lei64(e)));
    let rest = le64(r) + lei64(t) + lei64(e);
    lemma_read_head(MktMsgType::FundingRate, s, rest);
    assert(funding_rate_layout(s, r, t, e) =~= head(MktMsgType::FundingRate, len32(s), s) + rest);
}

pub proof fn lemma_liquidation_size(s: Seq<char>, side: char, qty: u64, price: u64, ts: i64)
    requires
        short_symbol(s),
    ensures
        declared_size(liquidation_layout(s, side, qty, price, ts)) == liquidation_layout(s, side, qty, price, ts).len(),
{
    lemma_field_lengths();
    let rest = seq![side_byte(side)] + le64(qty) + le64(price) + lei64(ts);
    lemma_read_head(MktMsgType::LiquidationOrder, s, rest);
    assert(liquidation_layout(s, side, qty, price, ts) =~= head(MktMsgType::LiquidationOrder, len32(s), s) + rest);
}

pub proof fn lemma_signal_and_bar_close_sizes(source: SignalSource, ts: i64)
    ensures
        declared_size(signal_layout(source, ts)) == signal_layout(source, ts).len(),
        declared_size(bar_close_layout(ts)) == bar_close_layout(ts).len(),
{
    lemma_field_lengths();
    lemma_read_tag(MktMsgType::TimeSignal, le32(source.spec_code()) + lei64(ts));
    assert(signal_layout(source, ts) =~= le32(MktMsgType::TimeSignal.spec_code()) + (le32(source.spec_code()) + lei64(ts)));
    lemma_read_tag(MktMsgType::BarClose1m, lei64(ts));
}

// ---------------------------------------------------------------- round trips

proof fn lemma_i64_bits(x: i64)
    ensures
        (x as u64) as i64 == x,
{
    assert((x as u64) as i64 == x) by (bit_vector);
}

/// Reading the fields of `f` at `base + offsets` gives back the pieces of
/// `rest`, when `f` carries `rest` from `base` on.
proof fn lemma_piece(f: Seq<u8>, base: int, rest: Seq<u8>, a: int, b: int)
    requires
        0 <= base,
        0 <= a <= b <= rest.len(),
        f.len() == base + rest.len(),
        f.subrange(base, f.len() as int) == rest,
    ensures
        f.subrange(base + a, base + b) == rest.subrange(a, b),
{
    assert(f.subrange(base + a, base + b) =~= rest.subrange(a, b));
}

proof fn lemma_reads()
    ensures
        forall|x: u64| #[trigger] vstd::bytes::spec_u64_from_le_bytes(vstd::bytes::spec_u64_to_le_bytes(x)) == x,
        forall|x: u32| #[trigger] vstd::bytes::spec_u32_from_le_bytes(vstd::bytes::spec_u32_to_le_bytes(x)) == x,
{
    vstd::bytes::lemma_auto_spec_u32_to_from_le_bytes();
    vstd::bytes::lemma_auto_spec_u64_to_from_le_bytes();
    assert forall|x: u32| #[trigger] vstd::bytes::spec_u32_from_le_bytes(vstd::bytes::spec_u32_to_le_bytes(x)) == x by {
        assert(vstd::bytes::spec_u32_to_le_bytes(x).len() == 4);
    }
    assert forall|x: u64| #[trigger] vstd::bytes::spec_u64_from_le_bytes(vstd::bytes::spec_u64_to_le_bytes(x)) == x by {
        assert(vstd::bytes::spec_u64_to_le_bytes(x).len() == 8);
    }
}

impl TradeMsg {
    /// The fields of the message read back from `f`.
    pub open spec fn read_back(&self, f: Seq<u8>) -> bool {
        let n = read_u32(f, 4) as int;
        &&& read_u32(f, 0) == self.msg_type.spec_code()
        &&& read_u32(f, 4) == self.symbol_length
        &&& read_symbol(f) == self.symbol@
        &&& read_i64(f, 8 + n) == self.id
        &&& read_i64(f, 16 + n) == self.timestamp
        &&& f[24 + n] == side_byte(self.side)
        &&& f.subrange(25 + n, 32 + n) == self.padding@
        &&& read_u64(f, 32 + n) == self.price
        &&& read_u64(f, 40 + n) == self.amount
        &&& f.len() == 48 + n
    }
}

/// Decoding a trade frame gives back every field, padding included.
pub proof fn lemma_trade_round_trip(m: TradeMsg)
    requires
        m.well_formed(),
        short_symbol(m.symbol@),
    ensures
        m.read_back(m.encoding()),
{
    lemma_field_lengths();
    lemma_reads();
    lemma_i64_bits(m.id);
    lemma_i64_bits(m.timestamp);
    let s = m.symbol@;
    let rest = lei64(m.id) + lei64(m.timestamp) + seq![side_byte(m.side)] + m.padding@ + le64(m.price)
        + le64(m.amount);
    lemma_read_head(MktMsgType::TradeInfo, s, rest);
    let f = m.encoding();
    assert(f =~= head(MktMsgType::TradeInfo, len32(s), s) + rest);
    let n = utf8(s).len() as int;
    lemma_piece(f, 8 + n, rest, 0, 8);
    assert(rest.subrange(0, 8) =~= lei64(m.id));
    lemma_piece(f, 8 + n, rest, 8, 16);
    assert(rest.subrange(8, 16) =~= lei64(m.timestamp));
    assert(f[24 + n] == rest[16]);
    lemma_piece(f, 8 + n, rest, 17, 24);
    assert(rest.subrange(17, 24) =~= m.padding@);
    lemma_piece(f, 8 + n, rest, 24, 32);
    assert(rest.subrange(24, 32) =~= le64(m.price));
    lemma_piece(f, 8 + n, rest, 32, 40);
    assert(rest.subrange(32, 40) =~= le64(m.amount));
}

impl BinanceIncSeqNoMsg {
    pub open spec fn read_back(&self, f: Seq<u8>) -> bool {
        let n = read_u32(f, 4) as int;
        &&& read_u32(f, 0) == self.msg_type.spec_code()
        &&& read_u32(f, 4) == self.symbol_length
        &&& read_symbol(f) == self.symbol@
        &&& read_i64(f, 8 + n) == self.pu
        &&& read_i64(f, 16 + n) == self.u
        &&& read_i64(f, 24 + n) == self.u_upper
        &&& read_i64(f, 32 + n) == self.timestamp
        &&& f.len() == 40 + n
    }
}

/// Decoding a sequence-marker frame gives back every field.
pub proof fn lemma_seqno_round_trip(m: BinanceIncSeqNoMsg)
    requires
        m.symbol_length == len32(m.symbol@),
        short_symbol(m.symbol@),
    ensures
        m.read_back(m.encoding()),
{
    lemma_field_lengths();
    lemma_reads();
    lemma_i64_bits(m.pu);
    lemma_i64_bits(m.u);
    lemma_i64_bits(m.u_upper);
    lemma_i64_bits(m.timestamp);
    let s = m.symbol@;
    let rest = lei64(m.pu) + lei64(m.u) + lei64(m.u_upper) + lei64(m.timestamp);
    lemma_read_head(m.msg_type, s, rest);
    let f = m.encoding();
    assert(f =~= head(m.msg_type, len32(s), s) + rest);
    let n = utf8(s).len() as int;
    lemma_piece(f, 8 + n, rest, 0, 8);
    assert(rest.subrange(0, 8) =~= lei64(m.pu));
    lemma_piece(f, 8 + n, rest, 8, 16);
    assert(rest.subrange(8, 16) =~= lei64(m.u));
    lemma_piece(f, 8 + n, rest, 16, 24);
    assert(rest.subrange(16, 24) =~= lei64(m.u_upper));
    lemma_piece(f, 8 + n, rest, 24, 32);
    assert(rest.subrange(24, 32) =~= lei64(m.timestamp));
}

impl SignalMsg {
    pub open spec fn read_back(&self, f: Seq<u8>) -> bool {
        &&& read_u32(f, 0) == self.msg_type.spec_code()
        &&& read_u32(f, 4) == self.source.spec_code()
        &&& read_i64(f, 8) == self.timestamp
        &&& f.len() == 16
    }
}

/// Decoding a time-signal frame gives back every field.
pub proof fn lemma_signal_round_trip(m: SignalMsg)
    ensures
        m.read_back(m.encoding()),
{
    lemma_field_lengths();
    lemma_reads();
    lemma_i64_bits(m.timestamp);
    let f = m.encoding();
    assert(f.subrange(0, 4) =~= le32(m.msg_type.spec_code()));
    assert(f.subrange(4, 8) =~= le32(m.source.spec_code()));
    assert(f.subrange(8, 16) =~= lei64(m.timestamp));
}

impl IncMsg {
    pub open spec fn read_back(&self, f: Seq<u8>) -> bool {
        let n = read_u32(f, 4) as int;
        &&& read_u32(f, 0) == self.msg_type.spec_code()
        &&& read_u32(f, 4) == self.symbol_length
        &&& read_symbol(f) == self.symbol@
        &&& read_i64(f, 8 + n) == self.first_update_id
        &&& read_i64(f, 16 + n) == self.final_update_id
        &&& read_i64(f, 24 + n) == self.timestamp
        &&& f[32 + n] == (if self.is_snapshot { 1u8 } else { 0u8 })
        &&& f.subrange(33 + n, 40 + n) == self.padding@
        &&& read_u32(f, 40 + n) == self.bids_count
        &&& read_u32(f, 44 + n) == self.asks_count
        &&& f.len() == 48 + n + 16 * self.levels@.len()
        &&& forall|i: int|
            0 <= i < self.levels@.len() ==> read_u64(f, 48 + n + 16 * i) == (#[trigger] self.levels@[i]).price
                && read_u64(f, 56 + n + 16 * i) == self.levels@[i].amount
    }
}

proof fn lemma_levels_read_back(levels: Seq<Level>)
    ensures
        forall|i: int|
            0 <= i < levels.len() ==> read_u64(levels_bytes(levels), 16 * i) == (#[trigger] levels[i]).price
                && read_u64(levels_bytes(levels), 16 * i + 8) == levels[i].amount,
    decreases levels.len(),
{
    lemma_reads();
    lemma_field_lengths();
    if levels.len() > 0 {
        let init = levels.drop_last();
        lemma_levels_read_back(init);
        lemma_levels_bytes_len(init);
        let a = levels_bytes(init);
        let b = le64(levels.last().price) + le64(levels.last().amount);
        assert(levels_bytes(levels) =~= a + b);
        assert forall|i: int| 0 <= i < levels.len() implies read_u64(levels_bytes(levels), 16 * i) == (
        #[trigger] levels[i]).price && read_u64(levels_bytes(levels), 16 * i + 8) == levels[i].amount by {
            if i < init.len() {
                assert(levels[i] == init[i]);
                assert((a + b).subrange(16 * i, 16 * i + 8) =~= a.subrange(16 * i, 16 * i + 8));
                assert((a + b).subrange(16 * i + 8, 16 * i + 16) =~= a.subrange(16 * i + 8, 16 * i + 16));
            } else {
                assert((a + b).subrange(16 * i, 16 * i + 8) =~= le64(levels.last().price));
                assert((a + b).subrange(16 * i + 8, 16 * i + 16) =~= le64(levels.last().amount));
            }
        }
    }
}

/// Decoding a book frame gives back every field, padding and levels included.
pub proof fn lemma_book_round_trip(m: IncMsg)
    requires
        m.well_formed(),
        short_symbol(m.symbol@),
    ensures
        m.read_back(m.encoding()),
{
    lemma_field_lengths();
    lemma_reads();
    lemma_i64_bits(m.first_update_id);
    lemma_i64_bits(m.final_update_id);
    lemma_i64_bits(m.timestamp);
    lemma_levels_bytes_len(m.levels@);
    lemma_levels_read_back(m.levels@);
    let s = m.symbol@;
    let lv = levels_bytes(m.levels@);
    let rest = lei64(m.first_update_id) + lei64(m.final_update_id) + lei64(m.timestamp) + seq![
        if m.is_snapshot { 1u8 } else { 0u8 },
    ] + m.padding@ + le32(m.bids_count) + le32(m.asks_count) + lv;
    lemma_read_head(MktMsgType::OrderBookInc, s, rest);
    let f = m.encoding();
    assert(f =~= head(MktMsgType::OrderBookInc, len32(s), s) + rest);
    let n = utf8(s).len() as int;
    lemma_piece(f, 8 + n, rest, 0, 8);
    assert(rest.subrange(0, 8) =~= lei64(m.first_update_id));
    lemma_piece(f, 8 + n, rest, 8, 16);
    assert(rest.subrange(8, 16) =~= lei64(m.final_update_id));
    lemma_piece(f, 8 + n, rest, 16, 24);
    assert(rest.subrange(16, 24) =~= lei64(m.timestamp));
    assert(f[32 + n] == rest[24]);
    lemma_piece(f, 8 + n, rest, 25, 32);
    assert(rest.subrange(25, 32) =~= m.padding@);
    lemma_piece(f, 8 + n, rest, 32, 36);
    assert(rest.subrange(32, 36) =~= le32(m.bids_count));
    lemma_piece(f, 8 + n, rest, 36, 40);
    assert(rest.subrange(36, 40) =~= le32(m.asks_count));
    assert forall|i: int| 0 <= i < m.levels@.len() implies read_u64(f, 48 + n + 16 * i) == (
    #[trigger] m.levels@[i]).price && read_u64(f, 56 + n + 16 * i) == m.levels@[i].amount by {
        lemma_piece(f, 8 + n, rest, 40 + 16 * i, 48 + 16 * i);
        assert(rest.subrange(40 + 16 * i, 48 + 16 * i) =~= lv.subrange(16 * i, 16 * i + 8));
        lemma_piece(f, 8 + n, rest, 48 + 16 * i, 56 + 16 * i);
        assert(rest.subrange(48 + 16 * i, 56 + 16 * i) =~= lv.subrange(16 * i + 8, 16 * i + 16));
    }
}

impl KlineMsg {
    pub open spec fn read_back(&self, f: Seq<u8>) -> bool {
        let n = read_u32(f, 4) as int;
        &&& read_u32(f, 0) == self.msg_type.spec_code()
        &&& read_u32(f, 4) == self.symbol_length
        &&& read_symbol(f) == self.symbol@
        &&& read_u64(f, 8 + n) == self.open_price
        &&& read_u64(f, 16 + n) == self.high_price
        &&& read_u64(f, 24 + n) == self.low_price
        &&& read_u64(f, 32 + n) == self.close_price
        &&& read_u64(f, 40 + n) == self.volume
        &&& read_u64(f, 48 + n) == self.turnover
        &&& read_i64(f, 56 + n) == self.timestamp
        &&& read_i64(f, 64 + n) == self.trade_num
        &&& read_u64(f, 72 + n) == self.taker_buy_vol
        &&& read_u64(f, 80 + n) == self.taker_buy_quote_vol
        &&& f.len() == 88 + n
    }
}

/// Decoding a kline frame gives back every field.
pub proof fn lemma_kline_round_trip(m: KlineMsg)
    requires
        m.symbol_length == len32(m.symbol@),
        short_symbol(m.symbol@),
    ensures
        m.read_back(m.encoding()),
{
    lemma_field_lengths();
    lemma_reads();
    lemma_i64_bits(m.timestamp);
    lemma_i64_bits(m.trade_num);
    let s = m.symbol@;
    let rest = le64(m.open_price) + le64(m.high_price) + le64(m.low_price) + le64(m.close_price) + le64(
        m.volume,
    ) + le64(m.turnover) + lei64(m.timestamp) + lei64(m.trade_num) + le64(m.taker_buy_vol) + le64(
        m.taker_buy_quote_vol,
    );
    lemma_read_head(m.msg_type, s, rest);
    let f = m.encoding();
    assert(f =~= head(m.msg_type, len32(s), s) + rest);
    let n = utf8(s).len() as int;
    lemma_piece(f, 8 + n, rest, 0, 8);
    assert(rest.subrange(0, 8) =~= le64(m.open_price));
    lemma_piece(f, 8 + n, rest, 8, 16);
    assert(rest.subrange(8, 16) =~= le64(m.high_price));
    lemma_piece(f, 8 + n, rest, 16, 24);
    assert(rest.subrange(16, 24) =~= le64(m.low_price));
    lemma_piece(f, 8 + n, rest, 24, 32);
    assert(rest.subrange(24, 32) =~= le64(m.close_price));
    lemma_piece(f, 8 + n, rest, 32, 40);
    assert(rest.subrange(32, 40) =~= le64(m.volume));
    lemma_piece(f, 8 + n, rest, 40, 48);
    assert(rest.subrange(40, 48) =~= le64(m.turnover));
    lemma_piece(f, 8 + n, rest, 48, 56);
    assert(rest.subrange(48, 56) =~= lei64(m.timestamp));
    lemma_piece(f, 8 + n, rest, 56, 64);
    assert(rest.subrange(56, 64) =~= lei64(m.trade_num));
    lemma_piece(f, 8 + n, rest, 64, 72);
    assert(rest.subrange(64, 72) =~= le64(m.taker_buy_vol));
    lemma_piece(f, 8 + n, rest, 72, 80);
    assert(rest.subrange(72, 80) =~= le64(m.taker_buy_quote_vol));
}

impl MarkPriceMsg {
    pub open spec fn read_back(&self, f: Seq<u8>) -> bool {
        let n = read_u32(f, 4) as int;
        &&& read_u32(f, 0) == self.msg_type.spec_code()
        &&& read_u32(f, 4) == self.symbol_length
        &&& read_symbol(f) == self.symbol@
        &&& read_u64(f, 8 + n) == self.mark_price
        &&& read_i64(f, 16 + n) == self.timestamp
        &&& f.len() == 24 + n
    }
}

/// Decoding a mark price frame gives back every field.
pub proof fn lemma_mark_price_round_trip(m: MarkPriceMsg)
    requires
        m.symbol_length == len32(m.symbol@),
        short_symbol(m.symbol@),
    ensures
        m.read_back(m.encoding()),
{
    lemma_field_lengths();
    lemma_reads();
    lemma_i64_bits(m.timestamp);
    let s = m.symbol@;
    let rest = le64(m.mark_price) + lei64(m.timestamp);
    lemma_read_head(m.msg_type, s, rest);
    let f = m.encoding();
    assert(f =~= head(m.msg_type, len32(s), s) + rest);
    let n = utf8(s).len() as int;
    lemma_piece(f, 8 + n, rest, 0, 8);
    assert(rest.subrange(0, 8) =~= le64(m.mark_price));
    lemma_piece(f, 8 + n, rest, 8, 16);
    assert(rest.subrange(8, 16) =~= lei64(m.timestamp));
}

impl IndexPriceMsg {
    pub open spec fn read_back(&self, f: Seq<u8>) -> bool {
        let n = read_u32(f, 4) as int;
        &&& read_u32(f, 0) == self.msg_type.spec_code()
        &&& read_u32(f, 4) == self.symbol_length
        &&& read_symbol(f) == self.symbol@
        &&& read_u64(f, 8 + n) == self.index_price
        &&& read_i64(f, 16 + n) == self.timestamp
        &&& f.len() == 24 + n
    }
}

/// Decoding a index price frame gives back every field.
pub proof fn lemma_index_price_round_trip(m: IndexPriceMsg)
    requires
        m.symbol_length == len32(m.symbol@),
        short_symbol(m.symbol@),
    ensures
        m.read_back(m.encoding()),
{
    lemma_field_lengths();
    lemma_reads();
    lemma_i64_bits(m.timestamp);
    let s = m.symbol@;
    let rest = le64(m.index_price) + lei64(m.timestamp);
    lemma_read_head(m.msg_type, s, rest);
    let f = m.encoding();
    assert(f =~= head(m.msg_type, len32(s), s) + rest);
    let n = utf8(s).len() as int;
    lemma_piece(f, 8 + n, rest, 0, 8);
    assert(rest.subrange(0, 8) =~= le64(m.index_price));
    lemma_piece(f, 8 + n, rest, 8, 16);
    assert(rest.subrange(8, 16) =~= lei64(m.timestamp));
}

impl FundingRateMsg {
    pub open spec fn read_back(&self, f: Seq<u8>) -> bool {
        let n = read_u32(f, 4) as int;
        &&& read_u32(f, 0) == self.msg_type.spec_code()
        &&& read_u32(f, 4) == self.symbol_length
        &&& read_symbol(f) == self.symbol@
        &&& read_u64(f, 8 + n) == self.funding_rate
        &&& read_i64(f, 16 + n) == self.next_funding_time
        &&& read_i64(f, 24 + n) == self.timestamp
        &&& f.len() == 32 + n
    }
}

/// Decoding a funding rate frame gives back every field.
pub proof fn lemma_funding_rate_round_trip(m: FundingRateMsg)
    requires
        m.symbol_length == len32(m.symbol@),
        short_symbol(m.symbol@),
    ensures
        m.read_back(m.encoding()),
{
    lemma_field_lengths();
    lemma_reads();
    lemma_i64_bits(m.next_funding_time);
    lemma_i64_bits(m.timestamp);
    let s = m.symbol@;
    let rest = le64(m.funding_rate) + lei64(m.next_funding_time) + lei64(m.timestamp);
    lemma_read_head(m.msg_type, s, rest);
    let f = m.encoding();
    assert(f =~= head(m.msg_type, len32(s), s) + rest);
    let n = utf8(s).len() as int;
    lemma_piece(f, 8 + n, rest, 0, 8);
    assert(rest.subrange(0, 8) =~= le64(m.funding_rate));
    lemma_piece(f, 8 + n, rest, 8, 16);
    assert(rest.subrange(8, 16) =~= lei64(m.next_funding_time));
    lemma_piece(f, 8 + n, rest, 16, 24);
    assert(rest.subrange(16, 24) =~= lei64(m.timestamp));
}

impl LiquidationMsg {
    pub open spec fn read_back(&self, f: Seq<u8>) -> bool {
        let n = read_u32(f, 4) as int;
        &&& read_u32(f, 0) == self.msg_type.spec_code()
        &&& read_u32(f, 4) == self.symbol_length
        &&& read_symbol(f) == self.symbol@
        &&& f[8 + n] == side_byte(self.liquidation_side)
        &&& read_u64(f, 9 + n) == self.executed_qty
        &&& read_u64(f, 17 + n) == self.price
        &&& read_i64(f, 25 + n) == self.timestamp
        &&& f.len() == 33 + n
    }
}

/// Decoding a liquidation frame gives back every field.
pub proof fn lemma_liquidation_round_trip(m: LiquidationMsg)
    requires
        m.symbol_length == len32(m.symbol@),
        short_symbol(m.symbol@),
    ensures
        m.read_back(m.encoding()),
{
    lemma_field_lengths();
    lemma_reads();
    lemma_i64_bits(m.timestamp);
    let s = m.symbol@;
    let rest = seq![side_byte(m.liquidation_side)] + le64(m.executed_qty) + le64(m.price) + lei64(m.timestamp);
    lemma_read_head(m.msg_type, s, rest);
    let f = m.encoding();
    assert(f =~= head(m.msg_type, len32(s), s) + rest);
    let n = utf8(s).len() as int;
    assert(f[8 + n] == rest[0]);
    lemma_piece(f, 8 + n, rest, 1, 9);
    assert(rest.subrange(1, 9) =~= le64(m.executed_qty));
    lemma_piece(f, 8 + n, rest, 9, 17);
    assert(rest.subrange(9, 17) =~= le64(m.price));
    lemma_piece(f, 8 + n, rest, 17, 25);
    assert(rest.subrange(17, 25) =~= lei64(m.timestamp));
}

impl PremiumIndexKlineMsg {
    pub open spec fn read_back(&self, f: Seq<u8>) -> bool {
        let n = read_u32(f, 4) as int;
        &&& read_u32(f, 0) == self.msg_type.spec_code()
        &&& read_u32(f, 4) == self.symbol_length
        &&& read_symbol(f) == self.symbol@
        &&& read_u64(f, 8 + n) == self.open_price
        &&& read_u64(f, 16 + n) == self.high_price
        &&& read_u64(f, 24 + n) == self.low_price
        &&& read_u64(f, 32 + n) == self.close_price
        &&& read_i64(f, 40 + n) == self.timestamp
        &&& read_u64(f, 48 + n) == self.open_interest
        &&& read_i64(f, 56 + n) == self.transaction_time
        &&& f.len() == 64 + n
    }
}

/// Decoding a premium-index frame gives back every field.
pub proof fn lemma_premium_index_kline_round_trip(m: PremiumIndexKlineMsg)
    requires
        m.symbol_length == len32(m.symbol@),
        short_symbol(m.symbol@),
    ensures
        m.read_back(m.encoding()),
{
    lemma_field_lengths();
    lemma_reads();
    lemma_i64_bits(m.timestamp);
    lemma_i64_bits(m.transaction_time);
    let s = m.symbol@;
    let rest = le64(m.open_price) + le64(m.high_price) + le64(m.low_price) + le64(m.close_price) + lei64(m.timestamp) + le64(m.open_interest) + lei64(m.transaction_time);
    lemma_read_head(m.msg_type, s, rest);
    let f = m.encoding();
    assert(f =~= head(m.msg_type, len32(s), s) + rest);
    let n = utf8(s).len() as int;
    lemma_piece(f, 8 + n, rest, 0, 8);
    assert(rest.subrange(0, 8) =~= le64(m.open_price));
    lemma_piece(f, 8 + n, rest, 8, 16);
    assert(rest.subrange(8, 16) =~= le64(m.high_price));
    lemma_piece(f, 8 + n, rest, 16, 24);
    assert(rest.subrange(16, 24) =~= le64(m.low_price));
    lemma_piece(f, 8 + n, rest, 24, 32);
    assert(rest.subrange(24, 32) =~= le64(m.close_price));
    lemma_piece(f, 8 + n, rest, 32, 40);
    assert(rest.subrange(32, 40) =~= lei64(m.timestamp));
    lemma_piece(f, 8 + n, rest, 40, 48);
    assert(rest.subrange(40, 48) =~= le64(m.open_interest));
    lemma_piece(f, 8 + n, rest, 48, 56);
    assert(rest.subrange(48, 56) =~= lei64(m.transaction_time));
}

impl TopLongShortRatioMsg {
    pub open spec fn read_back(&self, f: Seq<u8>) -> bool {
        let n = read_u32(f, 4) as int;
        &&& read_u32(f, 0) == self.msg_type.spec_code()
        &&& read_u32(f, 4) == self.symbol_length
        &&& read_symbol(f) == self.symbol@
        &&& read_i64(f, 8 + n) == self.timestamp
        &&& read_u64(f, 16 + n) == self.top_account_long
        &&& read_u64(f, 24 + n) == self.top_account_short
        &&& read_u64(f, 32 + n) == self.top_account_ratio
        &&& read_u64(f, 40 + n) == self.top_position_long
        &&& read_u64(f, 48 + n) == self.top_position_short
        &&& read_u64(f, 56 + n) == self.top_position_ratio
        &&& read_u64(f, 64 + n) == self.global_account_long
        &&& read_u64(f, 72 + n) == self.global_account_short
        &&& read_u64(f, 80 + n) == self.global_account_ratio
        &&& read_i64(f, 88 + n) == self.top_account_timestamp
        &&& read_i64(f, 96 + n) == self.top_position_timestamp
        &&& read_i64(f, 104 + n) == self.global_account_timestamp
        &&& read_u64(f, 112 + n) == self.sum_open_interest
        &&& read_u64(f, 120 + n) == self.sum_open_interest_value
        &&& read_u64(f, 128 + n) == self.cmc_circulating_supply
        &&& read_i64(f, 136 + n) == self.open_interest_hist_timestamp
        &&& f.len() == 144 + n
    }
}

/// Decoding a long/short ratio frame gives back every field.
#[verifier::rlimit(80)]
pub proof fn lemma_top_long_short_ratio_round_trip(m: TopLongShortRatioMsg)
    requires
        m.symbol_length == len32(m.symbol@),
        short_symbol(m.symbol@),
    ensures
        m.read_back(m.encoding()),
{
    lemma_field_lengths();
    lemma_reads();
    lemma_i64_bits(m.timestamp);
    lemma_i64_bits(m.top_account_timestamp);
    lemma_i64_bits(m.top_position_timestamp);
    lemma_i64_bits(m.global_account_timestamp);
    lemma_i64_bits(m.open_interest_hist_timestamp);
    let s = m.symbol@;
    let rest = lei64(m.timestamp) + le64(m.top_account_long) + le64(m.top_account_short) + le64(m.top_account_ratio) + le64(m.top_position_long) + le64(m.top_position_short) + le64(m.top_position_ratio) + le64(m.global_account_long) + le64(m.global_account_short) + le64(m.global_account_ratio) + lei64(m.top_account_timestamp) + lei64(m.top_position_timestamp) + lei64(m.global_account_timestamp) + le64(m.sum_open_interest) + le64(m.sum_open_interest_value) + le64(m.cmc_circulating_supply) + lei64(m.open_interest_hist_timestamp);
    lemma_read_head(m.msg_type, s, rest);
    let f = m.encoding();
    assert(f =~= head(m.msg_type, len32(s), s) + rest);
    let n = utf8(s).len() as int;
    lemma_piece(f, 8 + n, rest, 0, 8);
    assert(rest.subrange(0, 8) =~= lei64(m.timestamp));
    lemma_piece(f, 8 + n, rest, 8, 16);
    assert(rest.subrange(8, 16) =~= le64(m.top_account_long));
    lemma_piece(f, 8 + n, rest, 16, 24);
    assert(rest.subrange(16, 24) =~= le64(m.top_account_short));
    lemma_piece(f, 8 + n, rest, 24, 32);
    assert(rest.subrange(24, 32) =~= le64(m.top_account_ratio));
    lemma_piece(f, 8 + n, rest, 32, 40);
    assert(rest.subrange(32, 40) =~= le64(m.top_position_long));
    lemma_piece(f, 8 + n, rest, 40, 48);
    assert(rest.subrange(40, 48) =~= le64(m.top_position_short));
    lemma_piece(f, 8 + n, rest, 48, 56);
    assert(rest.subrange(48, 56) =~= le64(m.top_position_ratio));
    lemma_piece(f, 8 + n, rest, 56, 64);
    assert(rest.subrange(56, 64) =~= le64(m.global_account_long));
    lemma_piece(f, 8 + n, rest, 64, 72);
    assert(rest.subrange(64, 72) =~= le64(m.global_account_short));
    lemma_piece(f, 8 + n, rest, 72, 80);
    assert(rest.subrange(72, 80) =~= le64(m.global_account_ratio));
    lemma_piece(f, 8 + n, rest, 80, 88);
    assert(rest.subrange(80, 88) =~= lei64(m.top_account_timestamp));
    lemma_piece(f, 8 + n, rest, 88, 96);
    assert(rest.subrange(88, 96) =~= lei64(m.top_position_timestamp));
    lemma_piece(f, 8 + n, rest, 96, 104);
    assert(rest.subrange(96, 104) =~= lei64(m.global_account_timestamp));
    lemma_piece(f, 8 + n, rest, 104, 112);
    assert(rest.subrange(104, 112) =~= le64(m.sum_open_interest));
    lemma_piece(f, 8 + n, rest, 112, 120);
    assert(rest.subrange(112, 120) =~= le64(m.sum_open_interest_value));
    lemma_piece(f, 8 + n, rest, 120, 128);
    assert(rest.subrange(120, 128) =~= le64(m.cmc_circulating_supply));
    lemma_piece(f, 8 + n, rest, 128, 136);
    assert(rest.subrange(128, 136) =~= lei64(m.open_interest_hist_timestamp));
}

impl BarClose1mMsg {
    pub open spec fn read_back(&self, f: Seq<u8>) -> bool {
        &&& read_u32(f, 0) == self.msg_type.spec_code()
        &&& read_i64(f, 4) == self.close_time
        &&& f.len() == 12
    }
}

/// Decoding a bar-close frame gives back its close time.
pub proof fn lemma_bar_close_round_trip(m: BarClose1mMsg)
    ensures
        m.read_back(m.encoding()),
{
    lemma_field_lengths();
    lemma_reads();
    lemma_i64_bits(m.close_time);
    let f = m.encoding();
    assert(f.subrange(0, 4) =~= le32(m.msg_type.spec_code()));
    assert(f.subrange(4, 12) =~= lei64(m.close_time));
}

impl MktMsg {
    pub open spec fn read_back(&self, f: Seq<u8>) -> bool {
        &&& read_u32(f, 0) == self.msg_type.spec_code()
        &&& read_u32(f, 4) == self.msg_length
        &&& f.subrange(8, f.len() as int) == bytes_view(self.data)
    }
}

/// Decoding an envelope gives back its tag, length and payload.
pub proof fn lemma_envelope_round_trip(m: MktMsg)
    ensures
        m.read_back(m.encoding()),
{
    lemma_field_lengths();
    lemma_reads();
    let f = m.encoding();
    assert(f.subrange(0, 4) =~= le32(m.msg_type.spec_code()));
    assert(f.subrange(4, 8) =~= le32(m.msg_length));
    assert(f.subrange(8, f.len() as int) =~= bytes_view(m.data));
}

impl RestSummaryEntry {
    /// The entry read back from `f` at byte `at`.
    pub open spec fn read_back_at(&self, f: Seq<u8>, at: int) -> bool {
        &&& f[at] == self.request_type.spec_code()
        &&& f[at + 1] == (if self.success { 1u8 } else { 0u8 })
        &&& read_u32(f, at + 2) == len32(self.detail@)
        &&& vstd::utf8::decode_utf8(f.subrange(at + 6, at + 6 + read_u32(f, at + 2) as int)) == self.detail@
    }
}

proof fn lemma_entry_read_back(e: RestSummaryEntry, pre: Seq<u8>, post: Seq<u8>)
    requires
        short_symbol(e.detail@),
    ensures
        e.read_back_at(pre + e.encoding() + post, pre.len() as int),
        e.encoding().len() == 6 + utf8(e.detail@).len(),
{
    lemma_field_lengths();
    lemma_reads();
    let f = pre + e.encoding() + post;
    let at = pre.len() as int;
    let d = utf8(e.detail@).len() as int;
    assert(f.subrange(at + 2, at + 6) =~= le32(len32(e.detail@)));
    assert(f.subrange(at + 6, at + 6 + d) =~= utf8(e.detail@));
    vstd::utf8::encode_utf8_decode_utf8(e.detail@);
}

impl RestSummary1mMsg {
    pub open spec fn read_back(&self, f: Seq<u8>) -> bool {
        let n = read_u32(f, 4) as int;
        let second = 16 + n + 6 + read_u32(f, 16 + n + 2);
        &&& read_u32(f, 0) == self.msg_type.spec_code()
        &&& read_u32(f, 4) == self.symbol_length
        &&& read_symbol(f) == self.symbol@
        &&& read_i64(f, 8 + n) == self.close_tp
        &&& self.premium_index.read_back_at(f, 16 + n)
        &&& self.open_interest.read_back_at(f, second)
        &&& f.len() == second + 6 + read_u32(f, second + 2)
    }
}

/// Decoding a one-minute summary frame gives back every field.
#[verifier::rlimit(60)]
pub proof fn lemma_summary_1m_round_trip(m: RestSummary1mMsg)
    requires
        m.symbol_length == len32(m.symbol@),
        short_symbol(m.symbol@),
        short_symbol(m.premium_index.detail@),
        short_symbol(m.open_interest.detail@),
    ensures
        m.read_back(m.encoding()),
{
    lemma_field_lengths();
    lemma_reads();
    lemma_i64_bits(m.close_tp);
    let s = m.symbol@;
    let hh = head(m.msg_type, len32(s), s);
    let l = lei64(m.close_tp);
    let a = m.premium_index.encoding();
    let b = m.open_interest.encoding();
    let f = m.encoding();
    let rest = l + a + b;
    vstd::seq_lib::lemma_concat_associative(hh, l + a, b);
    vstd::seq_lib::lemma_concat_associative(hh, l, a);
    lemma_read_head(m.msg_type, s, rest);
    let n = utf8(s).len() as int;
    lemma_piece(f, 8 + n, rest, 0, 8);
    assert(rest.subrange(0, 8) =~= l);
    lemma_entry_read_back(m.premium_index, hh + l, b);
    assert(f + Seq::<u8>::empty() =~= f);
    lemma_entry_read_back(m.open_interest, hh + l + a, Seq::<u8>::empty());
}

impl RestSummary5mMsg {
    pub open spec fn read_back(&self, f: Seq<u8>) -> bool {
        let n = read_u32(f, 4) as int;
        let e1 = 16 + n;
        let e2 = e1 + 6 + read_u32(f, e1 + 2);
        let e3 = e2 + 6 + read_u32(f, e2 + 2);
        let e4 = e3 + 6 + read_u32(f, e3 + 2);
        &&& read_u32(f, 0) == self.msg_type.spec_code()
        &&& read_u32(f, 4) == self.symbol_length
        &&& read_symbol(f) == self.symbol@
        &&& read_i64(f, 8 + n) == self.close_tp
        &&& self.top_account.read_back_at(f, e1)
        &&& self.top_position.read_back_at(f, e2)
        &&& self.global_account.read_back_at(f, e3)
        &&& self.open_interest_hist.read_back_at(f, e4)
        &&& f.len() == e4 + 6 + read_u32(f, e4 + 2)
    }
}

/// Decoding a five-minute summary frame gives back every field.
#[verifier::rlimit(100)]
pub proof fn lemma_summary_5m_round_trip(m: RestSummary5mMsg)
    requires
        m.symbol_length == len32(m.symbol@),
        short_symbol(m.symbol@),
        short_symbol(m.top_account.detail@),
        short_symbol(m.top_position.detail@),
        short_symbol(m.global_account.detail@),
        short_symbol(m.open_interest_hist.detail@),
    ensures
        m.read_back(m.encoding()),
{
    lemma_field_lengths();
    lemma_reads();
    lemma_i64_bits(m.close_tp);
    let s = m.symbol@;
    let hh = head(m.msg_type, len32(s), s);
    let l = lei64(m.close_tp);
    let a = m.top_account.encoding();
    let b = m.top_position.encoding();
    let c = m.global_account.encoding();
    let d = m.open_interest_hist.encoding();
    let f = m.encoding();
    let rest = l + a + b + c + d;
    vstd::seq_lib::lemma_concat_associative(hh, l + a + b + c, d);
    vstd::seq_lib::lemma_concat_associative(hh, l + a + b, c);
    vstd::seq_lib::lemma_concat_associative(hh, l + a, b);
    vstd::seq_lib::lemma_concat_associative(hh, l, a);
    lemma_read_head(m.msg_type, s, rest);
    let n = utf8(s).len() as int;
    lemma_piece(f, 8 + n, rest, 0, 8);
    assert(rest.subrange(0, 8) =~= l);
    let p = hh + l;
    vstd::seq_lib::lemma_concat_associative(p + a, b, c);
    vstd::seq_lib::lemma_concat_associative(p + a, b + c, d);
    lemma_entry_read_back(m.top_account, p, b + c + d);
    vstd::seq_lib::lemma_concat_associative(p + a + b, c, d);
    lemma_entry_read_back(m.top_position, p + a, c + d);
    lemma_entry_read_back(m.global_account, p + a + b, d);
    assert(f + Seq::<u8>::empty() =~= f);
    lemma_entry_read_back(m.open_interest_hist, p + a + b + c, Seq::<u8>::empty());
    let e1 = 16 + n;
    assert(p.len() == e1);
    let e2 = e1 + 6 + read_u32(f, e1 + 2);
    assert(e2 == (p + a).len());
    let e3 = e2 + 6 + read_u32(f, e2 + 2);
    assert(e3 == (p + a + b).len());
    let e4 = e3 + 6 + read_u32(f, e3 + 2);
    assert(e4 == (p + a + b + c).len());
    assert(f.len() == e4 + 6 + read_u32(f, e4 + 2));
}

/// Encoding is a function of the message alone: equal messages give equal
/// bytes, so encoding the same frame twice gives the same bytes.
pub proof fn lemma_encoding_deterministic(a: TradeMsg, b: TradeMsg, c: IncMsg, d: IncMsg)
    requires
        a == b,
        c == d,
    ensures
        a.encoding() == b.encoding(),
        c.encoding() == d.encoding(),
{
}

} // verus!
