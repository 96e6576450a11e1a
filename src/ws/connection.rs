//! The decisions of one connection slot's background task, and of the two
//! streams, as a state machine from events to actions.
//!
//! The caller owns the socket: it performs each action (open a session, send
//! frames, publish, sleep, read) and hands the outcome back as the next event.

use vstd::prelude::*;
use crate::error::{CodecError, DhanError};
use crate::types::enums::{FeedRequestCode, request_code_of};
use crate::ws::manager::SubscriptionTable;
use crate::ws::market_feed::{Instrument, MarketFeedEvent, packet_error, decodes_to, parse_packet};
use crate::ws::wire::{chunk_at, chunk_count, subscription_frames, subscription_json};

verus! {

/// A frame read from a WebSocket.
#[derive(Debug)]
pub enum InboundFrame {
    /// A binary frame.
    Binary(Vec<u8>),
    /// A text frame.
    Text(String),
    /// A ping.
    Ping,
    /// A pong.
    Pong,
    /// The peer closed the connection.
    Close,
}

/// What a market feed stream yields for one frame.
#[derive(Debug)]
pub enum FeedStep {
    /// Yield the decoded event, or why the frame could not be decoded.
    Yield(Result<MarketFeedEvent, CodecError>),
    /// Nothing to yield; read the next frame.
    Skip,
    /// The stream has ended.
    End,
}

/// How a market feed stream handles one frame: binary frames are decoded
/// (a decode error is yielded and the stream goes on), text, ping and pong
/// frames are skipped, and a close ends the stream.
pub fn feed_step(frame: InboundFrame) -> (r: FeedStep)
    ensures
        match frame {
            InboundFrame::Binary(b) => r matches FeedStep::Yield(res) && match packet_error(b@) {
                Some(e) => res == Err::<MarketFeedEvent, CodecError>(e),
                None => res matches Ok(ev) && decodes_to(b@, ev),
            },
            InboundFrame::Close => r is End,
            _ => r is Skip,
        },
{
    match frame {
        InboundFrame::Binary(b) => FeedStep::Yield(parse_packet(b.as_slice())),
        InboundFrame::Close => FeedStep::End,
        _ => FeedStep::Skip,
    }
}

/// What an order-update stream does with one frame.
#[derive(Debug)]
pub enum OrderUpdateStep {
    /// Decode this JSON text as an order update and yield it.
    Decode(String),
    /// Nothing to yield; read the next frame.
    Skip,
    /// The stream has ended.
    End,
}

/// How an order-update stream handles one frame: text frames carry the
/// updates, a close ends the stream, and every other frame is skipped.
pub fn order_update_step(frame: InboundFrame) -> (r: OrderUpdateStep)
    ensures
        match frame {
            InboundFrame::Text(t) => r matches OrderUpdateStep::Decode(d) && d@ == t@,
            InboundFrame::Close => r is End,
            _ => r is Skip,
        },
{
    match frame {
        InboundFrame::Text(t) => OrderUpdateStep::Decode(t),
        InboundFrame::Close => OrderUpdateStep::End,
        _ => OrderUpdateStep::Skip,
    }
}

/// The request codes in ascending order: the order in which a replay sends
/// its groups.
pub open spec fn replay_modes() -> Seq<FeedRequestCode> {
    seq![
        FeedRequestCode::Connect,
        FeedRequestCode::Disconnect,
        FeedRequestCode::SubscribeTicker,
        FeedRequestCode::UnsubscribeTicker,
        FeedRequestCode::SubscribeQuote,
        FeedRequestCode::UnsubscribeQuote,
        FeedRequestCode::SubscribeFull,
        FeedRequestCode::UnsubscribeFull,
        FeedRequestCode::SubscribeFullMarketDepth,
        FeedRequestCode::UnsubscribeFullMarketDepth,
    ]
}

/// The instruments of `t` subscribed in mode `m`, in table order.
pub open spec fn with_mode(t: SubscriptionTable, m: FeedRequestCode) -> Seq<Instrument>
    decreases t.len(),
{
    if t.len() == 0 {
        Seq::empty()
    } else {
        let r = with_mode(t.drop_last(), m);
        if t.last().1 == m {
            r.push(t.last().0)
        } else {
            r
        }
    }
}

/// The texts of the request messages for `s` under `code`, 100 per message.
pub open spec fn chunk_texts(code: u8, s: Seq<Instrument>) -> Seq<Seq<char>> {
    Seq::new(chunk_count(s.len()), |j: int| subscription_json(code, chunk_at(s, j)))
}

/// The texts that replay table `t` under the first `modes`: for each mode in
/// turn, its instruments in runs of 100.
pub open spec fn replay_texts(t: SubscriptionTable, modes: Seq<FeedRequestCode>) -> Seq<Seq<char>>
    decreases modes.len(),
{
    if modes.len() == 0 {
        Seq::empty()
    } else {
        replay_texts(t, modes.drop_last()) + chunk_texts(
            request_code_of(modes.last()),
            with_mode(t, modes.last()),
        )
    }
}

/// The texts of some frames.
pub open spec fn texts_of(frames: Seq<String>) -> Seq<Seq<char>> {
    frames.map_values(|f: String| f@)
}

fn instruments_with_mode(table: &Vec<(Instrument, FeedRequestCode)>, m: FeedRequestCode) -> (r: Vec<
    Instrument,
>)
    ensures
        r@ == with_mode(table@, m),
{
    let mut out: Vec<Instrument> = Vec::new();
    let mut j: usize = 0;
    assert(table@.subrange(0, 0) =~= Seq::<(Instrument, FeedRequestCode)>::empty());
    while j < table.len()
        invariant
            j <= table@.len(),
            out@ == with_mode(table@.subrange(0, j as int), m),
        decreases table@.len() - j,
    {
        let ghost s1 = table@.subrange(0, j + 1);
        assert(s1.drop_last() =~= table@.subrange(0, j as int));
        if table[j].1 == m {
            out.push(table[j].0.duplicate());
        }
        j = j + 1;
    }
    assert(table@.subrange(0, table@.len() as int) =~= table@);
    out
}

/// The subscribe frames that restore `table` on a new session: grouped by
/// mode in ascending code order, each group in runs of at most 100.
pub fn replay_frames(table: &Vec<(Instrument, FeedRequestCode)>) -> (r: Result<
    Vec<String>,
    DhanError,
>)
    ensures
        r matches Ok(frames) && texts_of(frames@) == replay_texts(table@, replay_modes()),
{
    let modes: [FeedRequestCode; 10] = [
        FeedRequestCode::Connect,
        FeedRequestCode::Disconnect,
        FeedRequestCode::SubscribeTicker,
        FeedRequestCode::UnsubscribeTicker,
        FeedRequestCode::SubscribeQuote,
        FeedRequestCode::UnsubscribeQuote,
        FeedRequestCode::SubscribeFull,
        FeedRequestCode::UnsubscribeFull,
        FeedRequestCode::SubscribeFullMarketDepth,
        FeedRequestCode::UnsubscribeFullMarketDepth,
    ];
    assert(modes@ =~= replay_modes());
    let mut frames: Vec<String> = Vec::new();
    let mut i: usize = 0;
    assert(replay_modes().subrange(0, 0) =~= Seq::<FeedRequestCode>::empty());
    while i < 10
        invariant
            i <= 10,
            modes@ == replay_modes(),
            texts_of(frames@) == replay_texts(table@, replay_modes().subrange(0, i as int)),
        decreases 10 - i,
    {
        let m = modes[i];
        let group = instruments_with_mode(table, m);
        let code = m.code();
        let mut more = match subscription_frames(code, group.as_slice()) {
            Ok(f) => f,
            Err(e) => {
                return Err(e);
            },
        };
        let ghost before = frames@;
        let ghost added = more@;
        frames.append(&mut more);
        let ghost ms = replay_modes().subrange(0, i + 1);
        assert(ms.drop_last() =~= replay_modes().subrange(0, i as int));
        assert(ms.last() == m);
        assert(texts_of(added) =~= chunk_texts(code, group@));
        assert(texts_of(frames@) =~= texts_of(before) + texts_of(added));
        i = i + 1;
    }
    assert(replay_modes().subrange(0, 10) =~= replay_modes());
    Ok(frames)
}

/// Where a slot's background task stands.
#[derive(Debug, Clone, Copy, PartialEq, Eq, Structural)]
pub enum SlotPhase {
    /// Opening a session.
    Connecting,
    /// Reading frames from an open session.
    Streaming,
    /// Waiting out the reconnect delay.
    Backoff,
    /// Finished; the task exits.
    Stopped,
}

/// The state of one slot's background task.
#[derive(Debug, Clone, Copy)]
pub struct SlotLoop {
    /// Where the task stands.
    pub phase: SlotPhase,
    /// Whether to reconnect when a session ends.
    pub auto_reconnect: bool,
    /// Delay before each reconnect attempt (milliseconds).
    pub reconnect_delay_ms: u64,
    /// Whether raw frames are published besides decoded events.
    pub enable_raw: bool,
    /// Successful re-opens after the first session.
    pub reconnect_count: u64,
    /// Whether a session has been opened before.
    pub opened_once: bool,
}

/// What the caller observed after performing the last action.
#[derive(Debug)]
pub enum SlotEvent {
    /// A session opened; carries the slot's subscription table at that moment.
    Opened(Vec<(Instrument, FeedRequestCode)>),
    /// Opening a session failed.
    OpenFailed,
    /// A frame arrived.
    Frame(InboundFrame),
    /// The session's stream ended without a close frame.
    StreamEnded,
    /// The transport failed.
    TransportError,
    /// The reconnect delay elapsed.
    Slept,
}

/// One item to publish on the slot's fan-out channels.
#[derive(Debug)]
pub enum Delivery {
    /// The frame's bytes, for the raw channel.
    Raw(Vec<u8>),
    /// The decoded event, for the parsed channel.
    Parsed(MarketFeedEvent),
    /// The frame could not be decoded; nothing goes to the parsed channel.
    DecodeFailed(CodecError),
}

/// What the caller must do next.
#[derive(Debug)]
pub enum SlotAction {
    /// Open a new session and install its writer.
    Open,
    /// Send these frames on the new session, then read.
    Replay(Vec<String>),
    /// Publish these items in order, then read.
    Publish(Vec<Delivery>),
    /// Read the next frame.
    Read,
    /// Sleep this many milliseconds.
    Sleep(u64),
    /// Stop the task.
    Exit,
}

/// `n + 1`, held at `u64::MAX`.
pub open spec fn saturating_inc(n: u64) -> u64 {
    if n < u64::MAX {
        (n + 1) as u64
    } else {
        n
    }
}

/// The item for the parsed channel that frame `b` gives.
pub open spec fn parsed_delivery(b: Seq<u8>, d: Delivery) -> bool {
    match packet_error(b) {
        Some(e) => d == Delivery::DecodeFailed(e),
        None => d matches Delivery::Parsed(ev) && decodes_to(b, ev),
    }
}

/// The items that frame `b` gives: its raw bytes first when raw frames are
/// enabled, then its decoded event.
pub open spec fn deliveries_for(enable_raw: bool, b: Seq<u8>, ds: Seq<Delivery>) -> bool {
    if enable_raw {
        &&& ds.len() == 2
        &&& (ds[0] matches Delivery::Raw(v) && v@ == b)
        &&& parsed_delivery(b, ds[1])
    } else {
        &&& ds.len() == 1
        &&& parsed_delivery(b, ds[0])
    }
}

/// The session ended: back off and reconnect, or stop.
pub open spec fn session_ended(s: SlotLoop, s2: SlotLoop, a: SlotAction) -> bool {
    if s.auto_reconnect {
        s2 == (SlotLoop { phase: SlotPhase::Backoff, ..s }) && a == SlotAction::Sleep(
            s.reconnect_delay_ms,
        )
    } else {
        s2 == (SlotLoop { phase: SlotPhase::Stopped, ..s }) && a is Exit
    }
}

/// One transition of a slot's task.
pub open spec fn slot_step(s: SlotLoop, e: SlotEvent, s2: SlotLoop, a: SlotAction) -> bool {
    if s.phase == SlotPhase::Stopped {
        s2 == s && a is Exit
    } else {
        match e {
            SlotEvent::Opened(t) => {
                &&& s2 == (SlotLoop {
                    phase: SlotPhase::Streaming,
                    opened_once: true,
                    reconnect_count: if s.opened_once {
                        saturating_inc(s.reconnect_count)
                    } else {
                        s.reconnect_count
                    },
                    ..s
                })
                &&& a matches SlotAction::Replay(frames) && texts_of(frames@) == replay_texts(
                    t@,
                    replay_modes(),
                )
            },
            SlotEvent::Slept => s2 == (SlotLoop { phase: SlotPhase::Connecting, ..s }) && a is Open,
            SlotEvent::Frame(InboundFrame::Binary(b)) => s2 == s && (a matches SlotAction::Publish(
                ds,
            ) && deliveries_for(s.enable_raw, b@, ds@)),
            SlotEvent::Frame(InboundFrame::Close) => session_ended(s, s2, a),
            SlotEvent::Frame(_) => s2 == s && a is Read,
            _ => session_ended(s, s2, a),
        }
    }
}

impl SlotLoop {
    /// A task about to open its first session.
    pub fn new(auto_reconnect: bool, reconnect_delay_ms: u64, enable_raw: bool) -> (r: SlotLoop)
        ensures
            r == (SlotLoop {
                phase: SlotPhase::Connecting,
                auto_reconnect,
                reconnect_delay_ms,
                enable_raw,
                reconnect_count: 0,
                opened_once: false,
            }),
    {
        SlotLoop {
            phase: SlotPhase::Connecting,
            auto_reconnect,
            reconnect_delay_ms,
            enable_raw,
            reconnect_count: 0,
            opened_once: false,
        }
    }

    fn end_session(&mut self) -> (r: SlotAction)
        ensures
            session_ended(*old(self), *final(self), r),
    {
        if self.auto_reconnect {
            self.phase = SlotPhase::Backoff;
            SlotAction::Sleep(self.reconnect_delay_ms)
        } else {
            self.phase = SlotPhase::Stopped;
            SlotAction::Exit
        }
    }

    /// Advance the task by one event.
    ///
    /// A new session replays the slot's subscriptions and, unless it is the
    /// first, counts as a reconnect. A binary frame is published raw (when
    /// enabled) strictly before its decoded event; a decode error does not end
    /// the session. A close, an end of stream, a transport error or a failed
    /// open ends the session: the task sleeps the reconnect delay and opens
    /// again, or stops when auto-reconnect is off.
    pub fn step(&mut self, event: SlotEvent) -> (r: SlotAction)
        ensures
            slot_step(*old(self), event, *final(self), r),
    {
        if self.phase == SlotPhase::Stopped {
            return SlotAction::Exit;
        }
        match event {
            SlotEvent::Opened(table) => {
                if self.opened_once {
                    if self.reconnect_count < u64::MAX {
                        self.reconnect_count = self.reconnect_count + 1;
                    }
                }
                self.opened_once = true;
                self.phase = SlotPhase::Streaming;
                match replay_frames(&table) {
                    Ok(frames) => SlotAction::Replay(frames),
                    Err(_) => unreached(),
                }
            },
            SlotEvent::Slept => {
                self.phase = SlotPhase::Connecting;
                SlotAction::Open
            },
            SlotEvent::Frame(InboundFrame::Binary(data)) => {
                let parsed = match parse_packet(data.as_slice()) {
                    Ok(ev) => Delivery::Parsed(ev),
                    Err(e) => Delivery::DecodeFailed(e),
                };
                let mut out: Vec<Delivery> = Vec::new();
                if self.enable_raw {
                    out.push(Delivery::Raw(data));
                }
                out.push(parsed);
                SlotAction::Publish(out)
            },
            SlotEvent::Frame(InboundFrame::Close) => self.end_session(),
            SlotEvent::Frame(_) => SlotAction::Read,
            _ => self.end_session(),
        }
    }
}

} // verus!
