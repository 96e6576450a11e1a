use dhan_rs::ws::market_feed::Instrument;
use dhan_rs::ws::order_update::{individual_auth_message, partner_auth_message};
use dhan_rs::ws::wire::{
    append_decimal, disconnect_message, feed_url, subscription_frames, subscription_message,
};

#[test]
fn subscription_message_text() {
    let list = vec![Instrument::new("NSE_EQ", "1333"), Instrument::new("IDX_I", "13")];
    let m = subscription_message(15, &list).unwrap();
    assert_eq!(
        m,
        "{\"RequestCode\":15,\"InstrumentCount\":2,\"InstrumentList\":[{\"ExchangeSegment\":\"NSE_EQ\",\"SecurityId\":\"1333\"},{\"ExchangeSegment\":\"IDX_I\",\"SecurityId\":\"13\"}]}"
    );
    let empty = subscription_message(21, &[]).unwrap();
    assert_eq!(empty, "{\"RequestCode\":21,\"InstrumentCount\":0,\"InstrumentList\":[]}");
}

#[test]
fn subscription_strings_are_escaped() {
    let list = vec![Instrument::new("NSE\"EQ", "a\\b\n")];
    let m = subscription_message(17, &list).unwrap();
    assert_eq!(
        m,
        "{\"RequestCode\":17,\"InstrumentCount\":1,\"InstrumentList\":[{\"ExchangeSegment\":\"NSE\\\"EQ\",\"SecurityId\":\"a\\\\b\\n\"}]}"
    );
}

#[test]
fn frames_split_at_one_hundred() {
    let list: Vec<Instrument> =
        (0..250).map(|i| Instrument::new("NSE_EQ", &i.to_string())).collect();
    let frames = subscription_frames(15, &list).unwrap();
    assert_eq!(frames.len(), 3);
    assert!(frames[0].contains("\"InstrumentCount\":100,"));
    assert!(frames[1].contains("\"InstrumentCount\":100,"));
    assert!(frames[2].contains("\"InstrumentCount\":50,"));
    assert!(frames[1].contains("\"SecurityId\":\"100\"}"));
    assert!(!frames[1].contains("\"SecurityId\":\"99\"}"));
    assert!(frames[2].ends_with("\"SecurityId\":\"249\"}]}"));
    assert!(subscription_frames(15, &[]).unwrap().is_empty());
    assert_eq!(subscription_frames(15, &list[..100]).unwrap().len(), 1);
    assert_eq!(subscription_frames(15, &list[..101]).unwrap().len(), 2);
}

#[test]
fn decimal_text() {
    let mut s = String::from("n=");
    append_decimal(&mut s, 0);
    s.push(',');
    append_decimal(&mut s, 1705);
    s.push(',');
    append_decimal(&mut s, usize::MAX);
    assert_eq!(s, format!("n=0,1705,{}", usize::MAX));
}

#[test]
fn disconnect_and_url() {
    assert_eq!(disconnect_message(), "{\"RequestCode\":12}");
    assert_eq!(
        feed_url("1000000001", "tok"),
        "wss://api-feed.dhan.co?version=2&token=tok&clientId=1000000001&authType=2"
    );
}

#[test]
fn login_messages() {
    assert_eq!(
        individual_auth_message("1000000001", "jwt").unwrap(),
        "{\"LoginReq\":{\"MsgCode\":42,\"ClientId\":\"1000000001\",\"Token\":\"jwt\"},\"UserType\":\"SELF\"}"
    );
    assert_eq!(
        partner_auth_message("p1", "s\"x").unwrap(),
        "{\"LoginReq\":{\"MsgCode\":42,\"ClientId\":\"p1\"},\"UserType\":\"PARTNER\",\"Secret\":\"s\\\"x\"}"
    );
}

#[test]
fn control_characters_use_lowercase_hex() {
    let list = vec![Instrument::new("\u{1}\u{8}", "\u{1f}\t\u{c}\r")];
    let m = subscription_message(16, &list).unwrap();
    assert!(m.contains("\"ExchangeSegment\":\"\\u0001\\b\""));
    assert!(m.contains("\"SecurityId\":\"\\u001f\\t\\f\\r\""));
}
