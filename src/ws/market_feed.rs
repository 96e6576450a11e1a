//! Binary packet codec of the live market feed.
//!
//! Every packet starts with an 8-byte header (response code, total length,
//! segment code, security id); the payload that follows is a packed,
//! little-endian record whose layout the response code selects. Prices are
//! IEEE-754 binary32 values and are carried here as their bit patterns
//! (`f32::from_bits` restores them).

use vstd::prelude::*;
use crate::error::CodecError;
use crate::types::enums::{
    ExchangeSegment, FeedResponseCode, response_code_byte, response_of_byte, segment_of_code,
};

verus! {

/// Length of the packet header in bytes.
pub const HEADER_LEN: usize = 8;

/// A little-endian `u16` at `at`.
pub open spec fn le_u16_at(b: Seq<u8>, at: int) -> u16 {
    (b[at] as int + 256 * b[at + 1] as int) as u16
}

/// A little-endian `u32` at `at`.
pub open spec fn le_u32_at(b: Seq<u8>, at: int) -> u32 {
    (b[at] as int + 256 * b[at + 1] as int + 65536 * b[at + 2] as int + 16777216 * b[
        at + 3
    ] as int) as u32
}

/// A little-endian two's-complement `i16` at `at`.
pub open spec fn le_i16_at(b: Seq<u8>, at: int) -> i16 {
    le_u16_at(b, at) as i16
}

/// A little-endian two's-complement `i32` at `at`.
pub open spec fn le_i32_at(b: Seq<u8>, at: int) -> i32 {
    le_u32_at(b, at) as i32
}

/// Read a `u8` from `data` at `offset`. Advances `offset` by 1.
pub fn read_u8(data: &[u8], offset: &mut usize) -> (r: u8)
    requires
        *old(offset) < data@.len(),
    ensures
        r == data@[*old(offset) as int],
        *final(offset) == *old(offset) + 1,
{
    let v = data[*offset];
    *offset = *offset + 1;
    v
}

/// Read a little-endian `u16` from `data` at `offset`. Advances `offset` by 2.
pub fn read_u16_le(data: &[u8], offset: &mut usize) -> (r: u16)
    requires
        *old(offset) + 2 <= data@.len(),
    ensures
        r == le_u16_at(data@, *old(offset) as int),
        *final(offset) == *old(offset) + 2,
{
    let o = *offset;
    let v = data[o] as u16 + (data[o + 1] as u16) * 256;
    *offset = o + 2;
    v
}

/// Read a little-endian `i16` from `data` at `offset`. Advances `offset` by 2.
pub fn read_i16_le(data: &[u8], offset: &mut usize) -> (r: i16)
    requires
        *old(offset) + 2 <= data@.len(),
    ensures
        r == le_i16_at(data@, *old(offset) as int),
        *final(offset) == *old(offset) + 2,
{
    read_u16_le(data, offset) as i16
}

/// Read a little-endian `u32` from `data` at `offset`. Advances `offset` by 4.
pub fn read_u32_le(data: &[u8], offset: &mut usize) -> (r: u32)
    requires
        *old(offset) + 4 <= data@.len(),
    ensures
        r == le_u32_at(data@, *old(offset) as int),
        *final(offset) == *old(offset) + 4,
{
    let o = *offset;
    let v = data[o] as u32 + (data[o + 1] as u32) * 256 + (data[o + 2] as u32) * 65536 + (data[o
        + 3] as u32) * 16777216;
    *offset = o + 4;
    v
}

/// Read a little-endian `i32` from `data` at `offset`. Advances `offset` by 4.
pub fn read_i32_le(data: &[u8], offset: &mut usize) -> (r: i32)
    requires
        *old(offset) + 4 <= data@.len(),
    ensures
        r == le_i32_at(data@, *old(offset) as int),
        *final(offset) == *old(offset) + 4,
{
    read_u32_le(data, offset) as i32
}

/// Header parsed from the first 8 bytes of every binary market feed packet.
#[derive(Debug, Clone, Copy, PartialEq)]
pub struct PacketHeader {
    /// The response code identifying the packet type.
    pub response_code: FeedResponseCode,
    /// Total message length in bytes (including header).
    pub message_length: u16,
    /// Exchange segment the data belongs to.
    pub exchange_segment: Option<ExchangeSegment>,
    /// Raw exchange segment byte (always available even if the segment is unknown).
    pub exchange_segment_raw: u8,
    /// Security ID of the instrument.
    pub security_id: u32,
}

/// A single level of market depth (bid and ask side) from a Full packet.
#[derive(Debug, Clone, Copy, PartialEq)]
pub struct DepthLevel {
    /// Bid (buy) quantity.
    pub bid_qty: i32,
    /// Ask (sell) quantity.
    pub ask_qty: i32,
    /// Number of bid orders.
    pub bid_orders: i16,
    /// Number of ask orders.
    pub ask_orders: i16,
    /// Bid price, as the bit pattern of an `f32`.
    pub bid_price: u32,
    /// Ask price, as the bit pattern of an `f32`.
    pub ask_price: u32,
}

/// A parsed market feed event. Price fields hold the bit pattern of an `f32`.
#[derive(Debug, Clone, PartialEq)]
pub enum MarketFeedEvent {
    /// Ticker data (last price and time). Response code 2.
    Ticker {
        header: PacketHeader,
        /// Last traded price.
        ltp: u32,
        /// Last trade time (epoch seconds).
        ltt: i32,
    },
    /// Previous close data. Response code 6.
    PrevClose {
        header: PacketHeader,
        /// Previous day closing price.
        prev_close: u32,
        /// Previous day open interest.
        prev_oi: i32,
    },
    /// Quote data with OHLC, volume and pending quantities. Response code 4.
    Quote {
        header: PacketHeader,
        /// Last traded price.
        ltp: u32,
        /// Last traded quantity.
        last_qty: i16,
        /// Last trade time (epoch seconds).
        ltt: i32,
        /// Average trade price.
        atp: u32,
        /// Total traded volume for the day.
        volume: i32,
        /// Total sell quantity pending.
        total_sell_qty: i32,
        /// Total buy quantity pending.
        total_buy_qty: i32,
        /// Day open price.
        open: u32,
        /// Day close price.
        close: u32,
        /// Day high price.
        high: u32,
        /// Day low price.
        low: u32,
    },
    /// Open interest data. Response code 5.
    OI {
        header: PacketHeader,
        /// Current open interest.
        oi: i32,
    },
    /// Quote, open interest and five levels of depth. Response code 8.
    Full {
        header: PacketHeader,
        /// Last traded price.
        ltp: u32,
        /// Last traded quantity.
        last_qty: i16,
        /// Last trade time (epoch seconds).
        ltt: i32,
        /// Average trade price.
        atp: u32,
        /// Total traded volume.
        volume: i32,
        /// Total sell quantity pending.
        total_sell_qty: i32,
        /// Total buy quantity pending.
        total_buy_qty: i32,
        /// Open interest.
        oi: i32,
        /// Day high open interest.
        oi_day_high: i32,
        /// Day low open interest.
        oi_day_low: i32,
        /// Day open price.
        open: u32,
        /// Day close price.
        close: u32,
        /// Day high price.
        high: u32,
        /// Day low price.
        low: u32,
        /// Five levels of market depth.
        depth: [DepthLevel; 5],
    },
    /// Market status packet, payload kept verbatim. Response code 7.
    MarketStatus { header: PacketHeader, raw: Vec<u8> },
    /// Index packet, payload kept verbatim. Response code 1.
    Index { header: PacketHeader, raw: Vec<u8> },
    /// Server-initiated disconnect. Response code 50.
    Disconnect {
        header: PacketHeader,
        /// Disconnect reason code (e.g. 805 = too many connections).
        reason_code: i16,
    },
}

/// Smallest payload, after the header, that each response code requires.
pub open spec fn min_payload_of(c: FeedResponseCode) -> nat {
    match c {
        FeedResponseCode::Index => 0,
        FeedResponseCode::Ticker => 8,
        FeedResponseCode::Quote => 42,
        FeedResponseCode::OI => 4,
        FeedResponseCode::PrevClose => 8,
        FeedResponseCode::MarketStatus => 0,
        FeedResponseCode::Full => 154,
        FeedResponseCode::Disconnect => 2,
    }
}

/// Smallest payload, after the header, that a response code requires.
pub fn min_payload_len(c: FeedResponseCode) -> (r: usize)
    ensures
        r == min_payload_of(c),
{
    match c {
        FeedResponseCode::Index => 0,
        FeedResponseCode::Ticker => 8,
        FeedResponseCode::Quote => 42,
        FeedResponseCode::OI => 4,
        FeedResponseCode::PrevClose => 8,
        FeedResponseCode::MarketStatus => 0,
        FeedResponseCode::Full => 154,
        FeedResponseCode::Disconnect => 2,
    }
}

/// The header fields at offsets 0, 1..2, 3 and 4..7 of `b`.
pub open spec fn header_of(b: Seq<u8>, code: FeedResponseCode) -> PacketHeader {
    PacketHeader {
        response_code: code,
        message_length: le_u16_at(b, 1),
        exchange_segment: segment_of_code(b[3]),
        exchange_segment_raw: b[3],
        security_id: le_u32_at(b, 4),
    }
}

/// What decoding a packet yields: the error, or that the packet is well formed.
pub open spec fn packet_error(b: Seq<u8>) -> Option<CodecError> {
    if b.len() < HEADER_LEN {
        Some(
            CodecError::Truncated {
                code: if b.len() > 0 {
                    b[0]
                } else {
                    0
                },
                have: b.len() as usize,
                need: HEADER_LEN,
            },
        )
    } else {
        match response_of_byte(b[0]) {
            None => Some(CodecError::UnknownCode(b[0])),
            Some(c) => if b.len() < HEADER_LEN + min_payload_of(c) {
                Some(
                    CodecError::Truncated {
                        code: b[0],
                        have: b.len() as usize,
                        need: (HEADER_LEN + min_payload_of(c)) as usize,
                    },
                )
            } else {
                None
            },
        }
    }
}

/// The depth level whose 20 bytes start at `at`.
pub open spec fn depth_at(b: Seq<u8>, at: int) -> DepthLevel {
    DepthLevel {
        bid_qty: le_i32_at(b, at),
        ask_qty: le_i32_at(b, at + 4),
        bid_orders: le_i16_at(b, at + 8),
        ask_orders: le_i16_at(b, at + 10),
        bid_price: le_u32_at(b, at + 12),
        ask_price: le_u32_at(b, at + 16),
    }
}

/// `ev` is what the well-formed packet `b` holds: its header, and each payload
/// field read little-endian at its fixed offset.
pub open spec fn decodes_to(b: Seq<u8>, ev: MarketFeedEvent) -> bool {
    match ev {
        MarketFeedEvent::Ticker { header, ltp, ltt } => {
            &&& response_of_byte(b[0]) == Some(FeedResponseCode::Ticker)
            &&& header == header_of(b, FeedResponseCode::Ticker)
            &&& ltp == le_u32_at(b, 8)
            &&& ltt == le_i32_at(b, 12)
        },
        MarketFeedEvent::PrevClose { header, prev_close, prev_oi } => {
            &&& response_of_byte(b[0]) == Some(FeedResponseCode::PrevClose)
            &&& header == header_of(b, FeedResponseCode::PrevClose)
            &&& prev_close == le_u32_at(b, 8)
            &&& prev_oi == le_i32_at(b, 12)
        },
        MarketFeedEvent::Quote {
            header,
            ltp,
            last_qty,
            ltt,
            atp,
            volume,
            total_sell_qty,
            total_buy_qty,
            open,
            close,
            high,
            low,
        } => {
            &&& response_of_byte(b[0]) == Some(FeedResponseCode::Quote)
            &&& header == header_of(b, FeedResponseCode::Quote)
            &&& ltp == le_u32_at(b, 8)
            &&& last_qty == le_i16_at(b, 12)
            &&& ltt == le_i32_at(b, 14)
            &&& atp == le_u32_at(b, 18)
            &&& volume == le_i32_at(b, 22)
            &&& total_sell_qty == le_i32_at(b, 26)
            &&& total_buy_qty == le_i32_at(b, 30)
            &&& open == le_u32_at(b, 34)
            &&& close == le_u32_at(b, 38)
            &&& high == le_u32_at(b, 42)
            &&& low == le_u32_at(b, 46)
        },
        MarketFeedEvent::OI { header, oi } => {
            &&& response_of_byte(b[0]) == Some(FeedResponseCode::OI)
            &&& header == header_of(b, FeedResponseCode::OI)
            &&& oi == le_i32_at(b, 8)
        },
        MarketFeedEvent::Full {
            header,
            ltp,
            last_qty,
            ltt,
            atp,
            volume,
            total_sell_qty,
            total_buy_qty,
            oi,
            oi_day_high,
            oi_day_low,
            open,
            close,
            high,
            low,
            depth,
        } => {
            &&& response_of_byte(b[0]) == Some(FeedResponseCode::Full)
            &&& header == header_of(b, FeedResponseCode::Full)
            &&& ltp == le_u32_at(b, 8)
            &&& last_qty == le_i16_at(b, 12)
            &&& ltt == le_i32_at(b, 14)
            &&& atp == le_u32_at(b, 18)
            &&& volume == le_i32_at(b, 22)
            &&& total_sell_qty == le_i32_at(b, 26)
            &&& total_buy_qty == le_i32_at(b, 30)
            &&& oi == le_i32_at(b, 34)
            &&& oi_day_high == le_i32_at(b, 38)
            &&& oi_day_low == le_i32_at(b, 42)
            &&& open == le_u32_at(b, 46)
            &&& close == le_u32_at(b, 50)
            &&& high == le_u32_at(b, 54)
            &&& low == le_u32_at(b, 58)
            &&& forall|i: int| 0 <= i < 5 ==> #[trigger] depth@[i] == depth_at(b, 62 + 20 * i)
        },
        MarketFeedEvent::MarketStatus { header, raw } => {
            &&& response_of_byte(b[0]) == Some(FeedResponseCode::MarketStatus)
            &&& header == header_of(b, FeedResponseCode::MarketStatus)
            &&& raw@ == b.subrange(HEADER_LEN as int, b.len() as int)
        },
        MarketFeedEvent::Index { header, raw } => {
            &&& response_of_byte(b[0]) == Some(FeedResponseCode::Index)
            &&& header == header_of(b, FeedResponseCode::Index)
            &&& raw@ == b.subrange(HEADER_LEN as int, b.len() as int)
        },
        MarketFeedEvent::Disconnect { header, reason_code } => {
            &&& response_of_byte(b[0]) == Some(FeedResponseCode::Disconnect)
            &&& header == header_of(b, FeedResponseCode::Disconnect)
            &&& reason_code == le_i16_at(b, 8)
        },
    }
}

/// The header that every event carries.
pub open spec fn event_header(ev: MarketFeedEvent) -> PacketHeader {
    match ev {
        MarketFeedEvent::Ticker { header, .. } => header,
        MarketFeedEvent::PrevClose { header, .. } => header,
        MarketFeedEvent::Quote { header, .. } => header,
        MarketFeedEvent::OI { header, .. } => header,
        MarketFeedEvent::Full { header, .. } => header,
        MarketFeedEvent::MarketStatus { header, .. } => header,
        MarketFeedEvent::Index { header, .. } => header,
        MarketFeedEvent::Disconnect { header, .. } => header,
    }
}

/// Parse the 8-byte packet header.
pub fn parse_header(data: &[u8]) -> (r: Result<PacketHeader, CodecError>)
    ensures
        data@.len() < HEADER_LEN ==> r == Err::<PacketHeader, CodecError>(
            packet_error(data@).unwrap(),
        ),
        data@.len() >= HEADER_LEN ==> match response_of_byte(data@[0]) {
            None => r == Err::<PacketHeader, CodecError>(CodecError::UnknownCode(data@[0])),
            Some(c) => r == Ok::<PacketHeader, CodecError>(header_of(data@, c)),
        },
{
    if data.len() < HEADER_LEN {
        let code: u8 = if data.len() > 0 {
            data[0]
        } else {
            0
        };
        return Err(CodecError::Truncated { code, have: data.len(), need: HEADER_LEN });
    }
    let mut off: usize = 0;
    let response_code_byte = read_u8(data, &mut off);
    let response_code = match FeedResponseCode::from_byte(response_code_byte) {
        Some(c) => c,
        None => {
            return Err(CodecError::UnknownCode(response_code_byte));
        },
    };
    let message_length = read_u16_le(data, &mut off);
    let exchange_segment_raw = read_u8(data, &mut off);
    let exchange_segment = ExchangeSegment::from_segment_code(exchange_segment_raw);
    let security_id = read_u32_le(data, &mut off);
    Ok(PacketHeader {
        response_code,
        message_length,
        exchange_segment,
        exchange_segment_raw,
        security_id,
    })
}

/// Read the 20-byte depth level at `offset`. Advances `offset` by 20.
fn read_depth_level(data: &[u8], offset: &mut usize) -> (r: DepthLevel)
    requires
        *old(offset) + 20 <= data@.len(),
    ensures
        r == depth_at(data@, *old(offset) as int),
        *final(offset) == *old(offset) + 20,
{
    let bid_qty = read_i32_le(data, offset);
    let ask_qty = read_i32_le(data, offset);
    let bid_orders = read_i16_le(data, offset);
    let ask_orders = read_i16_le(data, offset);
    let bid_price = read_u32_le(data, offset);
    let ask_price = read_u32_le(data, offset);
    DepthLevel { bid_qty, ask_qty, bid_orders, ask_orders, bid_price, ask_price }
}

/// Copy of the payload that follows the header.
fn payload_bytes(data: &[u8]) -> (r: Vec<u8>)
    requires
        data@.len() >= HEADER_LEN,
    ensures
        r@ == data@.subrange(HEADER_LEN as int, data@.len() as int),
{
    let mut out: Vec<u8> = Vec::new();
    let mut i: usize = HEADER_LEN;
    while i < data.len()
        invariant
            HEADER_LEN <= i <= data@.len(),
            out@ == data@.subrange(HEADER_LEN as int, i as int),
        decreases data@.len() - i,
    {
        out.push(data[i]);
        i = i + 1;
        assert(out@ =~= data@.subrange(HEADER_LEN as int, i as int));
    }
    out
}

/// Decode a complete binary packet into a [`MarketFeedEvent`].
///
/// Fails with `UnknownCode` when the first byte names no response code, and
/// with `Truncated` when the packet is shorter than its header plus the
/// smallest payload of its code.
pub fn parse_packet(data: &[u8]) -> (r: Result<MarketFeedEvent, CodecError>)
    ensures
        match packet_error(data@) {
            Some(e) => r == Err::<MarketFeedEvent, CodecError>(e),
            None => r matches Ok(ev) && decodes_to(data@, ev),
        },
{
    let header = match parse_header(data) {
        Ok(h) => h,
        Err(e) => {
            return Err(e);
        },
    };
    let need = HEADER_LEN + min_payload_len(header.response_code);
    if data.len() < need {
        return Err(CodecError::Truncated { code: data[0], have: data.len(), need });
    }
    let mut off: usize = HEADER_LEN;
    match header.response_code {
        FeedResponseCode::Ticker => {
            let ltp = read_u32_le(data, &mut off);
            let ltt = read_i32_le(data, &mut off);
            Ok(MarketFeedEvent::Ticker { header, ltp, ltt })
        },
        FeedResponseCode::PrevClose => {
            let prev_close = read_u32_le(data, &mut off);
            let prev_oi = read_i32_le(data, &mut off);
            Ok(MarketFeedEvent::PrevClose { header, prev_close, prev_oi })
        },
        FeedResponseCode::Quote => {
            let ltp = read_u32_le(data, &mut off);
            let last_qty = read_i16_le(data, &mut off);
            let ltt = read_i32_le(data, &mut off);
            let atp = read_u32_le(data, &mut off);
            let volume = read_i32_le(data, &mut off);
            let total_sell_qty = read_i32_le(data, &mut off);
            let total_buy_qty = read_i32_le(data, &mut off);
            let open = read_u32_le(data, &mut off);
            let close = read_u32_le(data, &mut off);
            let high = read_u32_le(data, &mut off);
            let low = read_u32_le(data, &mut off);
            Ok(
                MarketFeedEvent::Quote {
                    header,
                    ltp,
                    last_qty,
                    ltt,
                    atp,
                    volume,
                    total_sell_qty,
                    total_buy_qty,
                    open,
                    close,
                    high,
                    low,
                },
            )
        },
        FeedResponseCode::OI => {
            let oi = read_i32_le(data, &mut off);
            Ok(MarketFeedEvent::OI { header, oi })
        },
        FeedResponseCode::Full => {
            let ltp = read_u32_le(data, &mut off);
            let last_qty = read_i16_le(data, &mut off);
            let ltt = read_i32_le(data, &mut off);
            let atp = read_u32_le(data, &mut off);
            let volume = read_i32_le(data, &mut off);
            let total_sell_qty = read_i32_le(data, &mut off);
            let total_buy_qty = read_i32_le(data, &mut off);
            let oi = read_i32_le(data, &mut off);
            let oi_day_high = read_i32_le(data, &mut off);
            let oi_day_low = read_i32_le(data, &mut off);
            let open = read_u32_le(data, &mut off);
            let close = read_u32_le(data, &mut off);
            let high = read_u32_le(data, &mut off);
            let low = read_u32_le(data, &mut off);
            let d0 = read_depth_level(data, &mut off);
            let d1 = read_depth_level(data, &mut off);
            let d2 = read_depth_level(data, &mut off);
            let d3 = read_depth_level(data, &mut off);
            let d4 = read_depth_level(data, &mut off);
            let depth = [d0, d1, d2, d3, d4];
            assert forall|i: int| 0 <= i < 5 implies #[trigger] depth@[i] == depth_at(
                data@,
                62 + 20 * i,
            ) by {
                if i == 0 {
                } else if i == 1 {
                } else if i == 2 {
                } else if i == 3 {
                } else {
                }
            }
            Ok(
                MarketFeedEvent::Full {
                    header,
                    ltp,
                    last_qty,
                    ltt,
                    atp,
                    volume,
                    total_sell_qty,
                    total_buy_qty,
                    oi,
                    oi_day_high,
                    oi_day_low,
                    open,
                    close,
                    high,
                    low,
                    depth,
                },
            )
        },
        FeedResponseCode::Disconnect => {
            let reason_code = read_i16_le(data, &mut off);
            Ok(MarketFeedEvent::Disconnect { header, reason_code })
        },
        FeedResponseCode::MarketStatus => Ok(
            MarketFeedEvent::MarketStatus { header, raw: payload_bytes(data) },
        ),
        FeedResponseCode::Index => Ok(MarketFeedEvent::Index { header, raw: payload_bytes(data) }),
    }
}

/// A decoded event carries the header bytes of its packet: the response code
/// at offset 0, the length at 1..2, the segment at 3 and the security id at
/// 4..7, all little-endian.
pub proof fn lemma_decoded_header_is_packet_prefix(p: Seq<u8>, ev: MarketFeedEvent)
    requires
        packet_error(p) is None,
        decodes_to(p, ev),
    ensures
        response_code_byte(event_header(ev).response_code) == p[0],
        event_header(ev).message_length == le_u16_at(p, 1),
        event_header(ev).exchange_segment_raw == p[3],
        event_header(ev).exchange_segment == segment_of_code(p[3]),
        event_header(ev).security_id == le_u32_at(p, 4),
{
}

/// A packet shorter than the header plus the smallest payload of its code is
/// rejected as truncated.
pub proof fn lemma_short_packet_is_truncated(p: Seq<u8>)
    requires
        p.len() > 0,
        response_of_byte(p[0]) is Some,
        p.len() < HEADER_LEN + min_payload_of(response_of_byte(p[0]).unwrap()),
    ensures
        packet_error(p) matches Some(CodecError::Truncated { code, have, need }) && code == p[0]
            && have == p.len() && have < need,
{
}

/// An instrument to subscribe to in the market feed: the wire identity of a
/// security on an exchange segment.
#[allow(non_snake_case)]
#[derive(Debug, Clone, PartialEq, Eq, Hash)]
pub struct Instrument {
    /// Exchange segment (e.g. `"NSE_EQ"`, `"NSE_FNO"`).
    pub ExchangeSegment: String,
    /// Exchange standard security ID.
    pub SecurityId: String,
}

/// The value by which instruments are compared: segment name and security id.
pub open spec fn instrument_key(i: Instrument) -> (Seq<char>, Seq<char>) {
    (i.ExchangeSegment@, i.SecurityId@)
}

impl Instrument {
    /// Create a new instrument subscription entry.
    pub fn new(exchange_segment: &str, security_id: &str) -> (r: Instrument)
        ensures
            r.ExchangeSegment@ == exchange_segment@,
            r.SecurityId@ == security_id@,
    {
        Instrument {
            ExchangeSegment: String::from_str(exchange_segment),
            SecurityId: String::from_str(security_id),
        }
    }

    /// A copy of this instrument.
    pub fn duplicate(&self) -> (r: Instrument)
        ensures
            r == *self,
    {
        Instrument { ExchangeSegment: self.ExchangeSegment.clone(), SecurityId: self.SecurityId.clone() }
    }

    /// Whether both instruments name the same segment and security id.
    pub fn same_key(&self, other: &Instrument) -> (r: bool)
        ensures
            r == (instrument_key(*self) == instrument_key(*other)),
    {
        self.ExchangeSegment == other.ExchangeSegment && self.SecurityId == other.SecurityId
    }
}

/// The little-endian bytes of a `u16`.
pub open spec fn u16_le_bytes(x: u16) -> Seq<u8> {
    seq![(x % 256) as u8, (x / 256) as u8]
}

/// The little-endian bytes of a `u32`.
pub open spec fn u32_le_bytes(x: u32) -> Seq<u8> {
    seq![(x % 256) as u8, ((x / 256) % 256) as u8, ((x / 65536) % 256) as u8, (x / 16777216) as u8]
}

/// Reading a `u16` where its little-endian bytes stand gives it back.
proof fn lemma_read_u16_of_bytes(s: Seq<u8>, at: int, x: u16)
    requires
        0 <= at,
        at + 2 <= s.len(),
        s.subrange(at, at + 2) == u16_le_bytes(x),
    ensures
        le_u16_at(s, at) == x,
{
    assert(s[at] == s.subrange(at, at + 2)[0]);
    assert(s[at + 1] == s.subrange(at, at + 2)[1]);
    let v = x as int;
    assert(v == v % 256 + 256 * (v / 256)) by (nonlinear_arith);
}

/// Reading a `u32` where its little-endian bytes stand gives it back.
proof fn lemma_read_u32_of_bytes(s: Seq<u8>, at: int, x: u32)
    requires
        0 <= at,
        at + 4 <= s.len(),
        s.subrange(at, at + 4) == u32_le_bytes(x),
    ensures
        le_u32_at(s, at) == x,
{
    let w = s.subrange(at, at + 4);
    assert(s[at] == w[0] && s[at + 1] == w[1] && s[at + 2] == w[2] && s[at + 3] == w[3]);
    let v = x as int;
    assert(v == v % 256 + 256 * ((v / 256) % 256) + 65536 * ((v / 65536) % 256) + 16777216 * (v
        / 16777216)) by (nonlinear_arith)
        requires
            0 <= v < 0x1_0000_0000,
    ;
}

/// The 42 payload bytes of a Quote packet, fields in wire order.
pub open spec fn quote_payload_bytes(
    ltp: u32,
    last_qty: i16,
    ltt: i32,
    atp: u32,
    volume: i32,
    total_sell_qty: i32,
    total_buy_qty: i32,
    open: u32,
    close: u32,
    high: u32,
    low: u32,
) -> Seq<u8> {
    u32_le_bytes(ltp) + u16_le_bytes(last_qty as u16) + u32_le_bytes(ltt as u32) + u32_le_bytes(atp)
        + u32_le_bytes(volume as u32) + u32_le_bytes(total_sell_qty as u32) + u32_le_bytes(
        total_buy_qty as u32,
    ) + u32_le_bytes(open) + u32_le_bytes(close) + u32_le_bytes(high) + u32_le_bytes(low)
}

/// Decoding inverts encoding: a Quote header followed by the little-endian
/// encoding of any Quote field values decodes to exactly those values, with
/// prices compared bit for bit.
pub proof fn lemma_quote_round_trip(
    h: Seq<u8>,
    ltp: u32,
    last_qty: i16,
    ltt: i32,
    atp: u32,
    volume: i32,
    total_sell_qty: i32,
    total_buy_qty: i32,
    open: u32,
    close: u32,
    high: u32,
    low: u32,
)
    requires
        h.len() == HEADER_LEN,
        h[0] == 4,
    ensures
        ({
            let p = h + quote_payload_bytes(
                ltp,
                last_qty,
                ltt,
                atp,
                volume,
                total_sell_qty,
                total_buy_qty,
                open,
                close,
                high,
                low,
            );
            &&& packet_error(p) is None
            &&& decodes_to(
                p,
                MarketFeedEvent::Quote {
                    header: header_of(p, FeedResponseCode::Quote),
                    ltp,
                    last_qty,
                    ltt,
                    atp,
                    volume,
                    total_sell_qty,
                    total_buy_qty,
                    open,
                    close,
                    high,
                    low,
                },
            )
        }),
{
    let p = h + quote_payload_bytes(
        ltp,
        last_qty,
        ltt,
        atp,
        volume,
        total_sell_qty,
        total_buy_qty,
        open,
        close,
        high,
        low,
    );
    assert(p.len() == 50);
    assert(p[0] == 4);
    assert(p.subrange(8, 12) =~= u32_le_bytes(ltp));
    lemma_read_u32_of_bytes(p, 8, ltp);
    assert(p.subrange(12, 14) =~= u16_le_bytes(last_qty as u16));
    lemma_read_u16_of_bytes(p, 12, last_qty as u16);
    assert(((last_qty as u16) as i16) == last_qty) by (bit_vector);
    assert(p.subrange(14, 18) =~= u32_le_bytes(ltt as u32));
    lemma_read_u32_of_bytes(p, 14, ltt as u32);
    assert(((ltt as u32) as i32) == ltt) by (bit_vector);
    assert(p.subrange(18, 22) =~= u32_le_bytes(atp));
    lemma_read_u32_of_bytes(p, 18, atp);
    assert(p.subrange(22, 26) =~= u32_le_bytes(volume as u32));
    lemma_read_u32_of_bytes(p, 22, volume as u32);
    assert(((volume as u32) as i32) == volume) by (bit_vector);
    assert(p.subrange(26, 30) =~= u32_le_bytes(total_sell_qty as u32));
    lemma_read_u32_of_bytes(p, 26, total_sell_qty as u32);
    assert(((total_sell_qty as u32) as i32) == total_sell_qty) by (bit_vector);
    assert(p.subrange(30, 34) =~= u32_le_bytes(total_buy_qty as u32));
    lemma_read_u32_of_bytes(p, 30, total_buy_qty as u32);
    assert(((total_buy_qty as u32) as i32) == total_buy_qty) by (bit_vector);
    assert(p.subrange(34, 38) =~= u32_le_bytes(open));
    lemma_read_u32_of_bytes(p, 34, open);
    assert(p.subrange(38, 42) =~= u32_le_bytes(close));
    lemma_read_u32_of_bytes(p, 38, close);
    assert(p.subrange(42, 46) =~= u32_le_bytes(high));
    lemma_read_u32_of_bytes(p, 42, high);
    assert(p.subrange(46, 50) =~= u32_le_bytes(low));
    lemma_read_u32_of_bytes(p, 46, low);
}

} // verus!
