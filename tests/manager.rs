use dhan_rs::error::DhanError;
use dhan_rs::types::enums::FeedRequestCode;
use dhan_rs::ws::manager::{
    ConnectionId, DhanFeedConfig, DhanFeedManager, DhanFeedManagerBuilder, OutboundBatch,
};
use dhan_rs::ws::market_feed::Instrument;

fn inst(id: &str) -> Instrument {
    Instrument::new("NSE_EQ", id)
}

fn started(max_connections: u8, max_per: usize) -> DhanFeedManager {
    let mut m = DhanFeedManagerBuilder::new("cid", "tok")
        .max_connections(max_connections)
        .max_instruments_per_connection(max_per)
        .build();
    m.start().unwrap();
    m
}

fn table_ids(m: &DhanFeedManager, slot: u8) -> Vec<String> {
    m.subscriptions(ConnectionId(slot)).unwrap().into_iter().map(|(i, _)| i.SecurityId).collect()
}

fn tables(m: &DhanFeedManager) -> Vec<Vec<(Instrument, FeedRequestCode)>> {
    (0..m.config().max_connections).map(|i| m.subscriptions(ConnectionId(i)).unwrap()).collect()
}

fn invalid(r: Result<Vec<OutboundBatch>, DhanError>) -> String {
    match r {
        Err(DhanError::InvalidArgument(m)) => m,
        other => panic!("expected an invalid-argument error, got {other:?}"),
    }
}

#[test]
fn capacity_rejection_leaves_state() {
    let mut m = started(1, 2);
    let before = tables(&m);
    let msg = invalid(m.subscribe(&[inst("1"), inst("2"), inst("3")], FeedRequestCode::SubscribeTicker));
    assert_eq!(msg, "all connections at capacity");
    assert_eq!(tables(&m), before);
    assert_eq!(m.total_instruments(), 0);
}

#[test]
fn duplicate_suppression() {
    let mut m = started(2, 10);
    let out = m
        .subscribe(&[inst("I1"), inst("I2"), inst("I1")], FeedRequestCode::SubscribeTicker)
        .unwrap();
    assert_eq!(table_ids(&m, 0), vec!["I1"]);
    assert_eq!(table_ids(&m, 1), vec!["I2"]);
    assert_eq!(out.len(), 2);
    assert_eq!(out[0].connection, ConnectionId(0));
    assert_eq!(out[0].frames.len(), 1);
    assert_eq!(out[0].frames[0].matches("\"SecurityId\"").count(), 1);
    assert!(out[0].frames[0].contains("\"SecurityId\":\"I1\""));
    assert!(out[1].frames[0].contains("\"SecurityId\":\"I2\""));
    assert!(out[0].frames[0].starts_with("{\"RequestCode\":15,\"InstrumentCount\":1,"));
}

#[test]
fn least_loaded_slot_takes_next() {
    let mut m = started(3, 10);
    m.subscribe(&[inst("a"), inst("b"), inst("c"), inst("d")], FeedRequestCode::SubscribeQuote).unwrap();
    assert_eq!(table_ids(&m, 0), vec!["a", "d"]);
    assert_eq!(table_ids(&m, 1), vec!["b"]);
    assert_eq!(table_ids(&m, 2), vec!["c"]);
    m.unsubscribe(&[inst("b")], FeedRequestCode::UnsubscribeQuote).unwrap();
    m.subscribe(&[inst("e")], FeedRequestCode::SubscribeQuote).unwrap();
    assert_eq!(table_ids(&m, 1), vec!["e"]);
}

#[test]
fn shutdown_returns_to_pre_start() {
    let mut m = started(3, 5000);
    let ids = ["1", "2", "3", "4", "5"].map(inst);
    m.subscribe(&ids, FeedRequestCode::SubscribeFull).unwrap();
    for i in 0..3 {
        assert!(m.set_connection_status(ConnectionId(i), true, 0));
    }
    assert_eq!(m.health().alive_connections, 3);
    assert_eq!(m.total_instruments(), 5);
    m.shutdown().unwrap();
    assert_eq!(m.health().alive_connections, 0);
    assert_eq!(m.total_instruments(), 0);
    assert!(m.start().is_ok());
}

#[test]
fn subscribe_then_unsubscribe_restores_tables() {
    let mut m = started(2, 10);
    m.subscribe(&[inst("x"), inst("y"), inst("z")], FeedRequestCode::SubscribeTicker).unwrap();
    let before = tables(&m);
    let s = [inst("p"), inst("q"), inst("r")];
    m.subscribe(&s, FeedRequestCode::SubscribeFull).unwrap();
    assert_eq!(m.total_instruments(), 6);
    let out = m.unsubscribe(&s, FeedRequestCode::UnsubscribeFull).unwrap();
    assert_eq!(tables(&m), before);
    assert!(out[0].frames[0].starts_with("{\"RequestCode\":22,"));
    let sent: usize = out.iter().map(|b| b.frames.iter().map(|f| f.matches("SecurityId").count()).sum::<usize>()).sum();
    assert_eq!(sent, 3);
}

#[test]
fn subscribe_twice_is_idempotent() {
    let mut m = started(2, 10);
    let s = [inst("1"), inst("2"), inst("3")];
    m.subscribe(&s, FeedRequestCode::SubscribeTicker).unwrap();
    let once = tables(&m);
    let again = m.subscribe(&s, FeedRequestCode::SubscribeTicker).unwrap();
    assert_eq!(tables(&m), once);
    assert!(again.iter().all(|b| b.frames.is_empty()));
}

#[test]
fn invariants_over_many_subscriptions() {
    let mut m = started(5, 7);
    let s: Vec<Instrument> = (0..40).map(|i| inst(&format!("{}", i % 33))).collect();
    m.subscribe(&s, FeedRequestCode::SubscribeTicker).unwrap();
    let h = m.health();
    let mut seen = std::collections::HashSet::new();
    for t in tables(&m) {
        assert!(t.len() <= 7);
        for (i, _) in t {
            assert!(seen.insert(i.SecurityId));
        }
    }
    assert_eq!(seen.len(), 33);
    assert_eq!(h.total_instruments, 33);
    assert_eq!(h.connections.iter().map(|c| c.instrument_count).sum::<usize>(), m.total_instruments());
    let err = invalid(m.subscribe(&[inst("100"), inst("101"), inst("102")], FeedRequestCode::SubscribeTicker));
    assert_eq!(err, "all connections at capacity");
    assert_eq!(m.total_instruments(), 33);
}

#[test]
fn lifecycle_errors() {
    let mut m = DhanFeedManager::new("c", "t", DhanFeedConfig::default());
    assert_eq!(invalid(m.subscribe(&[inst("1")], FeedRequestCode::SubscribeTicker)), "manager not started");
    assert_eq!(invalid(m.unsubscribe(&[inst("1")], FeedRequestCode::UnsubscribeTicker)), "manager not started");
    m.start().unwrap();
    match m.start() {
        Err(DhanError::InvalidArgument(msg)) => assert_eq!(msg, "manager already started"),
        other => panic!("expected an error, got {other:?}"),
    }
    assert!(!m.set_connection_status(ConnectionId(5), true, 1));
    assert!(m.subscriptions(ConnectionId(5)).is_none());
}

#[test]
fn builder_defaults_and_clamps() {
    let d = DhanFeedConfig::default();
    assert_eq!(d.max_connections, 5);
    assert_eq!(d.max_instruments_per_connection, 5000);
    assert!(!d.enable_raw_frames);
    assert_eq!(d.reconnect_delay_ms, 2000);
    assert_eq!(d.parsed_channel_capacity, 4096);
    assert_eq!(d.raw_channel_capacity, 4096);
    assert!(d.auto_reconnect);
    let m = DhanFeedManagerBuilder::new("c", "t")
        .max_connections(9)
        .max_instruments_per_connection(9000)
        .enable_raw_frames(true)
        .reconnect_delay_ms(10)
        .parsed_channel_capacity(8)
        .raw_channel_capacity(16)
        .auto_reconnect(false)
        .build();
    let c = m.config();
    assert_eq!(c.max_connections, 5);
    assert_eq!(c.max_instruments_per_connection, 5000);
    assert!(c.enable_raw_frames && !c.auto_reconnect);
    assert_eq!((c.reconnect_delay_ms, c.parsed_channel_capacity, c.raw_channel_capacity), (10, 8, 16));
    assert_eq!(m.health().connections.len(), 5);
    assert_eq!(DhanFeedManagerBuilder::new("c", "t").max_connections(0).build().config().max_connections, 1);
    assert_eq!(m.client_id(), "c");
    assert_eq!(m.access_token(), "t");
}

#[test]
fn health_reports_status() {
    let mut m = started(2, 10);
    m.subscribe(&[inst("1"), inst("2"), inst("3")], FeedRequestCode::SubscribeTicker).unwrap();
    assert!(m.set_connection_status(ConnectionId(1), true, 4));
    let h = m.health();
    assert_eq!(h.alive_connections, 1);
    assert_eq!(h.total_instruments, 3);
    assert_eq!(h.connections[0].instrument_count, 2);
    assert!(!h.connections[0].is_alive);
    assert_eq!(h.connections[1].id, ConnectionId(1));
    assert_eq!(h.connections[1].reconnect_count, 4);
    assert_eq!(ConnectionId(3).to_display_string(), "Connection(3)");
}

#[test]
fn large_batches_are_chunked() {
    let mut m = started(1, 5000);
    let s: Vec<Instrument> = (0..230).map(|i| inst(&i.to_string())).collect();
    let out = m.subscribe(&s, FeedRequestCode::SubscribeTicker).unwrap();
    assert_eq!(out[0].frames.len(), 3);
    assert!(out[0].frames[2].contains("\"InstrumentCount\":30,"));
}
