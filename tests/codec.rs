use dhan_rs::error::CodecError;
use dhan_rs::types::enums::{ExchangeSegment, FeedResponseCode};
use dhan_rs::ws::market_feed::{parse_header, parse_packet, MarketFeedEvent};

fn header(code: u8, len: u16, segment: u8, security_id: u32) -> Vec<u8> {
    let mut v = vec![code];
    v.extend_from_slice(&len.to_le_bytes());
    v.push(segment);
    v.extend_from_slice(&security_id.to_le_bytes());
    v
}

#[test]
fn ticker_packet_decodes() {
    let bytes = [
        0x02, 0x10, 0x00, 0x01, 0x00, 0x00, 0x05, 0x35, 0x00, 0x00, 0x48, 0x43, 0xE0, 0x37, 0xA2,
        0x65,
    ];
    match parse_packet(&bytes).unwrap() {
        MarketFeedEvent::Ticker { header, ltp, ltt } => {
            assert_eq!(header.response_code, FeedResponseCode::Ticker);
            assert_eq!(header.message_length, 16);
            assert_eq!(header.exchange_segment, Some(ExchangeSegment::NSE_EQ));
            assert_eq!(header.exchange_segment_raw, 1);
            assert_eq!(header.security_id, u32::from_le_bytes([0x00, 0x00, 0x05, 0x35]));
            assert_eq!(f32::from_bits(ltp), 200.0);
            assert_eq!(ltt, i32::from_le_bytes([0xE0, 0x37, 0xA2, 0x65]));
            assert_eq!(ltt, 1705129952);
        }
        other => panic!("expected a ticker, got {other:?}"),
    }
}

fn quote_payload(
    ltp: f32,
    last_qty: i16,
    ltt: i32,
    atp: f32,
    ints: [i32; 3],
    ohlc: [f32; 4],
) -> Vec<u8> {
    let mut p = Vec::new();
    p.extend_from_slice(&ltp.to_le_bytes());
    p.extend_from_slice(&last_qty.to_le_bytes());
    p.extend_from_slice(&ltt.to_le_bytes());
    p.extend_from_slice(&atp.to_le_bytes());
    for i in ints {
        p.extend_from_slice(&i.to_le_bytes());
    }
    for f in ohlc {
        p.extend_from_slice(&f.to_le_bytes());
    }
    p
}

#[test]
fn quote_round_trip_extremes() {
    let cases: [(f32, i16, i32, f32, [i32; 3], [f32; 4]); 2] = [
        (
            f32::MAX,
            i16::MAX,
            i32::MAX,
            -1.5,
            [i32::MAX, -1, 0],
            [f32::MIN, -0.25, 1e-30, 123.5],
        ),
        (
            -2.75,
            i16::MIN,
            i32::MIN,
            f32::MIN_POSITIVE,
            [i32::MIN, 1, -123456],
            [0.0, -0.0, f32::MAX, -99.125],
        ),
    ];
    for (ltp0, qty0, ltt0, atp0, ints, ohlc) in cases {
        let payload = quote_payload(ltp0, qty0, ltt0, atp0, ints, ohlc);
        assert_eq!(payload.len(), 42);
        let mut packet = header(4, 50, 2, 0xDEAD_BEEF);
        packet.extend_from_slice(&payload);
        match parse_packet(&packet).unwrap() {
            MarketFeedEvent::Quote {
                header,
                ltp,
                last_qty,
                ltt,
                atp,
                volume,
                total_sell_qty,
                total_buy_qty,
                open,
                close,
                high,
                low,
            } => {
                assert_eq!(header.security_id, 0xDEAD_BEEF);
                assert_eq!(header.exchange_segment, Some(ExchangeSegment::NSE_FNO));
                assert_eq!(ltp, ltp0.to_bits());
                assert_eq!(last_qty, qty0);
                assert_eq!(ltt, ltt0);
                assert_eq!(atp, atp0.to_bits());
                assert_eq!([volume, total_sell_qty, total_buy_qty], ints);
                assert_eq!(
                    [open, close, high, low],
                    [ohlc[0].to_bits(), ohlc[1].to_bits(), ohlc[2].to_bits(), ohlc[3].to_bits()]
                );
            }
            other => panic!("expected a quote, got {other:?}"),
        }
    }
}

fn full_packet(total: usize) -> Vec<u8> {
    let mut p = header(8, total as u16, 1, 42);
    let mut i: u8 = 0;
    while p.len() < total {
        p.push(i);
        i = i.wrapping_add(1);
    }
    p
}

#[test]
fn full_packet_length_boundary() {
    // header (8) + quote fields (42) + three open-interest fields (12) + depth (100)
    let ok = full_packet(162);
    match parse_packet(&ok).unwrap() {
        MarketFeedEvent::Full { header, depth, oi, .. } => {
            assert_eq!(header.message_length, 162);
            assert_eq!(oi, i32::from_le_bytes([ok[34], ok[35], ok[36], ok[37]]));
            let last = depth[4];
            let at = 62 + 80;
            assert_eq!(last.bid_qty, i32::from_le_bytes([ok[at], ok[at + 1], ok[at + 2], ok[at + 3]]));
            assert_eq!(last.ask_orders, i16::from_le_bytes([ok[at + 10], ok[at + 11]]));
            assert_eq!(
                last.ask_price,
                u32::from_le_bytes([ok[at + 16], ok[at + 17], ok[at + 18], ok[at + 19]])
            );
        }
        other => panic!("expected a full packet, got {other:?}"),
    }
    let short = full_packet(161);
    assert_eq!(
        parse_packet(&short),
        Err(CodecError::Truncated { code: 8, have: 161, need: 162 })
    );
    let shorter = full_packet(154);
    assert!(matches!(parse_packet(&shorter), Err(CodecError::Truncated { code: 8, .. })));
}

#[test]
fn unknown_code_three() {
    let p = header(3, 16, 1, 7);
    assert_eq!(parse_packet(&p), Err(CodecError::UnknownCode(3)));
    assert_eq!(parse_header(&p), Err(CodecError::UnknownCode(3)));
}

#[test]
fn short_packets_are_truncated() {
    for (code, min) in [(2u8, 8usize), (4, 42), (5, 4), (6, 8), (8, 154), (50, 2)] {
        let mut p = header(code, 0, 1, 1);
        p.extend(std::iter::repeat(0u8).take(min - 1));
        assert_eq!(
            parse_packet(&p),
            Err(CodecError::Truncated { code, have: 8 + min - 1, need: 8 + min })
        );
    }
    assert_eq!(parse_packet(&[]), Err(CodecError::Truncated { code: 0, have: 0, need: 8 }));
    assert_eq!(parse_packet(&[2, 0, 0]), Err(CodecError::Truncated { code: 2, have: 3, need: 8 }));
}

#[test]
fn raw_payload_packets_copy_bytes() {
    let mut p = header(7, 11, 0, 5);
    p.extend_from_slice(&[9, 8, 7]);
    assert_eq!(
        parse_packet(&p),
        Ok(MarketFeedEvent::MarketStatus { header: parse_header(&p).unwrap(), raw: vec![9, 8, 7] })
    );
    let idx = header(1, 8, 0, 13);
    match parse_packet(&idx).unwrap() {
        MarketFeedEvent::Index { header, raw } => {
            assert_eq!(header.exchange_segment, Some(ExchangeSegment::IDX_I));
            assert_eq!(header.security_id, 13);
            assert!(raw.is_empty());
        }
        other => panic!("expected an index packet, got {other:?}"),
    }
}

#[test]
fn disconnect_and_small_packets() {
    let mut p = header(50, 10, 1, 1);
    p.extend_from_slice(&805i16.to_le_bytes());
    match parse_packet(&p).unwrap() {
        MarketFeedEvent::Disconnect { reason_code, .. } => assert_eq!(reason_code, 805),
        other => panic!("expected a disconnect, got {other:?}"),
    }
    let mut oi = header(5, 12, 2, 99);
    oi.extend_from_slice(&(-7i32).to_le_bytes());
    match parse_packet(&oi).unwrap() {
        MarketFeedEvent::OI { oi, .. } => assert_eq!(oi, -7),
        other => panic!("expected open interest, got {other:?}"),
    }
    let mut pc = header(6, 16, 4, 3);
    pc.extend_from_slice(&1234.5f32.to_le_bytes());
    pc.extend_from_slice(&77i32.to_le_bytes());
    match parse_packet(&pc).unwrap() {
        MarketFeedEvent::PrevClose { header, prev_close, prev_oi } => {
            assert_eq!(header.exchange_segment, Some(ExchangeSegment::BSE_EQ));
            assert_eq!(f32::from_bits(prev_close), 1234.5);
            assert_eq!(prev_oi, 77);
        }
        other => panic!("expected a previous close, got {other:?}"),
    }
}

#[test]
fn header_fields_match_offsets() {
    let mut p = header(2, 0xBEEF, 6, 0x0102_0304);
    p.extend_from_slice(&[0; 8]);
    let h = parse_header(&p).unwrap();
    assert_eq!(h.response_code, FeedResponseCode::Ticker);
    assert_eq!(h.message_length, u16::from_le_bytes([p[1], p[2]]));
    assert_eq!(h.exchange_segment_raw, p[3]);
    assert_eq!(h.exchange_segment, None);
    assert_eq!(h.security_id, u32::from_le_bytes([p[4], p[5], p[6], p[7]]));
}

#[test]
fn segment_and_response_codes() {
    let all = [
        (ExchangeSegment::IDX_I, 0u8),
        (ExchangeSegment::NSE_EQ, 1),
        (ExchangeSegment::NSE_FNO, 2),
        (ExchangeSegment::NSE_CURRENCY, 3),
        (ExchangeSegment::BSE_EQ, 4),
        (ExchangeSegment::MCX_COMM, 5),
        (ExchangeSegment::BSE_CURRENCY, 7),
        (ExchangeSegment::BSE_FNO, 8),
    ];
    for (s, c) in all {
        assert_eq!(s.segment_code(), c);
        assert_eq!(ExchangeSegment::from_segment_code(c), Some(s));
    }
    assert_eq!(ExchangeSegment::from_segment_code(6), None);
    assert_eq!(FeedResponseCode::from_byte(50), Some(FeedResponseCode::Disconnect));
    assert_eq!(FeedResponseCode::from_byte(8), Some(FeedResponseCode::Full));
    assert_eq!(FeedResponseCode::from_byte(3), None);
}
