use dhan_rs::error::{ApiErrorBody, CodecError};
use dhan_rs::types::enums::FeedRequestCode;
use dhan_rs::ws::connection::{
    feed_step, order_update_step, replay_frames, Delivery, FeedStep, InboundFrame,
    OrderUpdateStep, SlotAction, SlotEvent, SlotLoop, SlotPhase,
};
use dhan_rs::ws::market_feed::{Instrument, MarketFeedEvent};

fn ticker_frame() -> Vec<u8> {
    vec![0x02, 0x10, 0x00, 0x01, 0x00, 0x00, 0x05, 0x35, 0x00, 0x00, 0x48, 0x43, 0xE0, 0x37, 0xA2, 0x65]
}

#[test]
fn reconnect_replays_subscriptions() {
    let mut s = SlotLoop::new(true, 2000, false);
    let table = vec![
        (Instrument::new("NSE_EQ", "I1"), FeedRequestCode::SubscribeTicker),
        (Instrument::new("NSE_EQ", "I2"), FeedRequestCode::SubscribeFull),
    ];
    assert!(matches!(s.step(SlotEvent::Opened(Vec::new())), SlotAction::Replay(f) if f.is_empty()));
    assert_eq!(s.phase, SlotPhase::Streaming);
    assert!(matches!(s.step(SlotEvent::TransportError), SlotAction::Sleep(2000)));
    assert_eq!(s.phase, SlotPhase::Backoff);
    assert!(matches!(s.step(SlotEvent::Slept), SlotAction::Open));
    match s.step(SlotEvent::Opened(table)) {
        SlotAction::Replay(frames) => {
            assert_eq!(frames.len(), 2);
            assert!(frames[0].starts_with("{\"RequestCode\":15,\"InstrumentCount\":1,"));
            assert!(frames[0].contains("\"SecurityId\":\"I1\""));
            assert!(frames[1].starts_with("{\"RequestCode\":21,\"InstrumentCount\":1,"));
            assert!(frames[1].contains("\"SecurityId\":\"I2\""));
        }
        other => panic!("expected a replay, got {other:?}"),
    }
    assert_eq!(s.reconnect_count, 1);
}

#[test]
fn raw_frame_precedes_parsed_event() {
    let mut s = SlotLoop::new(true, 10, true);
    s.step(SlotEvent::Opened(Vec::new()));
    match s.step(SlotEvent::Frame(InboundFrame::Binary(ticker_frame()))) {
        SlotAction::Publish(items) => {
            assert_eq!(items.len(), 2);
            assert!(matches!(&items[0], Delivery::Raw(b) if *b == ticker_frame()));
            assert!(matches!(&items[1], Delivery::Parsed(MarketFeedEvent::Ticker { ltt: 1705129952, .. })));
        }
        other => panic!("expected a publish, got {other:?}"),
    }
    let mut plain = SlotLoop::new(true, 10, false);
    match plain.step(SlotEvent::Frame(InboundFrame::Binary(vec![3, 0, 0, 0, 0, 0, 0, 0]))) {
        SlotAction::Publish(items) => {
            assert_eq!(items.len(), 1);
            assert!(matches!(items[0], Delivery::DecodeFailed(CodecError::UnknownCode(3))));
        }
        other => panic!("expected a publish, got {other:?}"),
    }
}

#[test]
fn session_end_without_reconnect_stops() {
    let mut s = SlotLoop::new(false, 10, false);
    s.step(SlotEvent::Opened(Vec::new()));
    assert!(matches!(s.step(SlotEvent::Frame(InboundFrame::Text("hi".to_string()))), SlotAction::Read));
    assert!(matches!(s.step(SlotEvent::Frame(InboundFrame::Ping)), SlotAction::Read));
    assert!(matches!(s.step(SlotEvent::Frame(InboundFrame::Close)), SlotAction::Exit));
    assert_eq!(s.phase, SlotPhase::Stopped);
    assert!(matches!(s.step(SlotEvent::Slept), SlotAction::Exit));
    assert!(matches!(s.step(SlotEvent::Opened(Vec::new())), SlotAction::Exit));
    assert_eq!(s.reconnect_count, 0);
}

#[test]
fn failed_open_retries_after_delay() {
    let mut s = SlotLoop::new(true, 500, false);
    s.step(SlotEvent::Opened(Vec::new()));
    assert!(matches!(s.step(SlotEvent::StreamEnded), SlotAction::Sleep(500)));
    assert!(matches!(s.step(SlotEvent::Slept), SlotAction::Open));
    assert!(matches!(s.step(SlotEvent::OpenFailed), SlotAction::Sleep(500)));
    assert!(matches!(s.step(SlotEvent::Slept), SlotAction::Open));
    s.step(SlotEvent::Opened(Vec::new()));
    assert_eq!(s.reconnect_count, 1);
}

#[test]
fn replay_groups_and_chunks() {
    let mut table = Vec::new();
    for i in 0..150 {
        table.push((Instrument::new("NSE_EQ", &i.to_string()), FeedRequestCode::SubscribeQuote));
    }
    table.push((Instrument::new("NSE_FNO", "x"), FeedRequestCode::SubscribeTicker));
    let frames = replay_frames(&table).unwrap();
    assert_eq!(frames.len(), 3);
    assert!(frames[0].starts_with("{\"RequestCode\":15,\"InstrumentCount\":1,"));
    assert!(frames[1].starts_with("{\"RequestCode\":17,\"InstrumentCount\":100,"));
    assert!(frames[2].starts_with("{\"RequestCode\":17,\"InstrumentCount\":50,"));
}

#[test]
fn stream_frame_handling() {
    assert!(matches!(feed_step(InboundFrame::Binary(ticker_frame())), FeedStep::Yield(Ok(MarketFeedEvent::Ticker { .. }))));
    assert!(matches!(feed_step(InboundFrame::Binary(vec![2, 0])), FeedStep::Yield(Err(CodecError::Truncated { .. }))));
    assert!(matches!(feed_step(InboundFrame::Text("x".to_string())), FeedStep::Skip));
    assert!(matches!(feed_step(InboundFrame::Pong), FeedStep::Skip));
    assert!(matches!(feed_step(InboundFrame::Close), FeedStep::End));
    assert!(matches!(order_update_step(InboundFrame::Text("{}".to_string())), OrderUpdateStep::Decode(t) if t == "{}"));
    assert!(matches!(order_update_step(InboundFrame::Binary(vec![1])), OrderUpdateStep::Skip));
    assert!(matches!(order_update_step(InboundFrame::Close), OrderUpdateStep::End));
}

#[test]
fn api_error_text() {
    let e = ApiErrorBody {
        error_type: Some("Invalid Authentication".to_string()),
        error_code: Some("DH-901".to_string()),
        error_message: None,
    };
    assert_eq!(e.to_display_string(), "[DH-901] Invalid Authentication: No message");
    let none = ApiErrorBody { error_type: None, error_code: None, error_message: None };
    assert_eq!(none.to_display_string(), "[UNKNOWN] Unknown Error: No message");
}
