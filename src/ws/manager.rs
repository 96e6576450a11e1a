//! Multi-connection market feed manager.
//!
//! The manager owns a pool of up to five connection slots, each able to carry
//! up to 5,000 instruments. It routes each new instrument to the least loaded
//! slot, suppresses duplicates across slots, enforces the per-slot capacity,
//! and reports health. The sockets, tasks and fan-out channels that run each
//! slot live with the caller; this type holds the state they act on and
//! returns the messages that each slot must send.

use vstd::prelude::*;
use crate::constants::{MAX_CONNECTIONS, MAX_INSTRUMENTS_PER_CONNECTION};
use crate::error::DhanError;
use crate::types::enums::{FeedRequestCode, request_code_of};
use crate::ws::market_feed::{Instrument, instrument_key};
use crate::ws::wire::{frames_for, subscription_frames};

verus! {

/// Identifies one of the managed WebSocket connections (0 to 4).
#[derive(Debug, Clone, Copy, PartialEq, Eq, Hash)]
pub struct ConnectionId(pub u8);

impl ConnectionId {
    /// Renders the id as `Connection(<n>)`.
    pub fn to_display_string(&self) -> (r: String)
        ensures
            r@ == "Connection("@ + crate::ws::wire::decimal(self.0 as nat) + ")"@,
    {
        let mut out = String::from_str("Connection(");
        crate::ws::wire::append_decimal(&mut out, self.0 as usize);
        out.append(")");
        out
    }
}

/// Health status of a single managed connection.
#[derive(Debug, Clone)]
pub struct ConnectionHealth {
    /// Whether the connection's background task is alive.
    pub is_alive: bool,
    /// The connection's identifier.
    pub id: ConnectionId,
    /// Number of instruments currently subscribed on this connection.
    pub instrument_count: usize,
    /// Number of reconnections that have occurred.
    pub reconnect_count: u64,
}

/// Aggregate health summary across all managed connections.
#[derive(Debug, Clone)]
pub struct HealthSummary {
    /// Per-connection health snapshots.
    pub connections: Vec<ConnectionHealth>,
    /// Total instruments subscribed across all connections.
    pub total_instruments: usize,
    /// Number of connections that are alive.
    pub alive_connections: usize,
}

/// Configuration for the [`DhanFeedManager`].
#[derive(Debug, Clone, Copy, PartialEq, Eq)]
pub struct DhanFeedConfig {
    /// Maximum number of concurrent WebSocket connections (1 to 5).
    pub max_connections: u8,
    /// Maximum instruments per connection (up to 5,000).
    pub max_instruments_per_connection: usize,
    /// Whether raw binary frames should also be broadcast.
    pub enable_raw_frames: bool,
    /// Delay before attempting reconnection (milliseconds).
    pub reconnect_delay_ms: u64,
    /// Broadcast channel capacity for parsed events per connection.
    pub parsed_channel_capacity: usize,
    /// Broadcast channel capacity for raw frames per connection.
    pub raw_channel_capacity: usize,
    /// Whether to automatically reconnect on disconnect.
    pub auto_reconnect: bool,
}

/// The default configuration.
pub open spec fn default_config() -> DhanFeedConfig {
    DhanFeedConfig {
        max_connections: 5,
        max_instruments_per_connection: 5000,
        enable_raw_frames: false,
        reconnect_delay_ms: 2000,
        parsed_channel_capacity: 4096,
        raw_channel_capacity: 4096,
        auto_reconnect: true,
    }
}

impl Default for DhanFeedConfig {
    fn default() -> (r: DhanFeedConfig)
        ensures
            r == default_config(),
    {
        DhanFeedConfig {
            max_connections: 5,
            max_instruments_per_connection: 5000,
            enable_raw_frames: false,
            reconnect_delay_ms: 2000,
            parsed_channel_capacity: 4096,
            raw_channel_capacity: 4096,
            auto_reconnect: true,
        }
    }
}

/// `n` clamped to `1..=5`.
pub open spec fn clamp_connections(n: u8) -> u8 {
    if n > MAX_CONNECTIONS {
        MAX_CONNECTIONS
    } else if n < 1 {
        1
    } else {
        n
    }
}

/// `n` clamped to at most 5,000.
pub open spec fn clamp_instruments(n: usize) -> usize {
    if n > MAX_INSTRUMENTS_PER_CONNECTION {
        MAX_INSTRUMENTS_PER_CONNECTION
    } else {
        n
    }
}

/// The configuration with its limits clamped to the ranges the server allows.
pub open spec fn clamped(c: DhanFeedConfig) -> DhanFeedConfig {
    DhanFeedConfig {
        max_connections: clamp_connections(c.max_connections),
        max_instruments_per_connection: clamp_instruments(c.max_instruments_per_connection),
        ..c
    }
}

fn clamp_config(c: DhanFeedConfig) -> (r: DhanFeedConfig)
    ensures
        r == clamped(c),
{
    let max_connections = if c.max_connections > MAX_CONNECTIONS {
        MAX_CONNECTIONS
    } else if c.max_connections < 1 {
        1
    } else {
        c.max_connections
    };
    let max_instruments_per_connection = if c.max_instruments_per_connection
        > MAX_INSTRUMENTS_PER_CONNECTION {
        MAX_INSTRUMENTS_PER_CONNECTION
    } else {
        c.max_instruments_per_connection
    };
    DhanFeedConfig { max_connections, max_instruments_per_connection, ..c }
}

/// Builder for constructing a [`DhanFeedManager`] with custom configuration.
pub struct DhanFeedManagerBuilder {
    client_id: String,
    access_token: String,
    config: DhanFeedConfig,
}

impl DhanFeedManagerBuilder {
    /// The configuration built so far.
    pub closed spec fn spec_config(&self) -> DhanFeedConfig {
        self.config
    }

    /// The client id given to the builder.
    pub closed spec fn spec_client_id(&self) -> Seq<char> {
        self.client_id@
    }

    /// The access token given to the builder.
    pub closed spec fn spec_access_token(&self) -> Seq<char> {
        self.access_token@
    }

    /// Create a new builder with the given credentials and the default configuration.
    pub fn new(client_id: &str, access_token: &str) -> (r: DhanFeedManagerBuilder)
        ensures
            r.spec_config() == default_config(),
            r.spec_client_id() == client_id@,
            r.spec_access_token() == access_token@,
    {
        DhanFeedManagerBuilder {
            client_id: String::from_str(client_id),
            access_token: String::from_str(access_token),
            config: DhanFeedConfig::default(),
        }
    }

    /// Set maximum number of connections, clamped to 1 to 5. Default: 5.
    pub fn max_connections(self, n: u8) -> (r: DhanFeedManagerBuilder)
        ensures
            r.spec_config() == (DhanFeedConfig {
                max_connections: clamp_connections(n),
                ..self.spec_config()
            }),
            r.spec_client_id() == self.spec_client_id(),
            r.spec_access_token() == self.spec_access_token(),
    {
        let mut b = self;
        b.config.max_connections = if n > MAX_CONNECTIONS {
            MAX_CONNECTIONS
        } else if n < 1 {
            1
        } else {
            n
        };
        b
    }

    /// Set maximum instruments per connection, at most 5,000. Default: 5,000.
    pub fn max_instruments_per_connection(self, n: usize) -> (r: DhanFeedManagerBuilder)
        ensures
            r.spec_config() == (DhanFeedConfig {
                max_instruments_per_connection: clamp_instruments(n),
                ..self.spec_config()
            }),
            r.spec_client_id() == self.spec_client_id(),
            r.spec_access_token() == self.spec_access_token(),
    {
        let mut b = self;
        b.config.max_instruments_per_connection = if n > MAX_INSTRUMENTS_PER_CONNECTION {
            MAX_INSTRUMENTS_PER_CONNECTION
        } else {
            n
        };
        b
    }

    /// Enable or disable raw binary frame broadcasting. Default: false.
    pub fn enable_raw_frames(self, enable: bool) -> (r: DhanFeedManagerBuilder)
        ensures
            r.spec_config() == (DhanFeedConfig { enable_raw_frames: enable, ..self.spec_config() }),
            r.spec_client_id() == self.spec_client_id(),
            r.spec_access_token() == self.spec_access_token(),
    {
        let mut b = self;
        b.config.enable_raw_frames = enable;
        b
    }

    /// Set the reconnect delay in milliseconds. Default: 2,000.
    pub fn reconnect_delay_ms(self, ms: u64) -> (r: DhanFeedManagerBuilder)
        ensures
            r.spec_config() == (DhanFeedConfig { reconnect_delay_ms: ms, ..self.spec_config() }),
            r.spec_client_id() == self.spec_client_id(),
            r.spec_access_token() == self.spec_access_token(),
    {
        let mut b = self;
        b.config.reconnect_delay_ms = ms;
        b
    }

    /// Set the broadcast channel capacity for parsed events. Default: 4,096.
    pub fn parsed_channel_capacity(self, cap: usize) -> (r: DhanFeedManagerBuilder)
        ensures
            r.spec_config() == (DhanFeedConfig {
                parsed_channel_capacity: cap,
                ..self.spec_config()
            }),
            r.spec_client_id() == self.spec_client_id(),
            r.spec_access_token() == self.spec_access_token(),
    {
        let mut b = self;
        b.config.parsed_channel_capacity = cap;
        b
    }

    /// Set the broadcast channel capacity for raw frames. Default: 4,096.
    pub fn raw_channel_capacity(self, cap: usize) -> (r: DhanFeedManagerBuilder)
        ensures
            r.spec_config() == (DhanFeedConfig { raw_channel_capacity: cap, ..self.spec_config() }),
            r.spec_client_id() == self.spec_client_id(),
            r.spec_access_token() == self.spec_access_token(),
    {
        let mut b = self;
        b.config.raw_channel_capacity = cap;
        b
    }

    /// Enable or disable auto-reconnect on disconnect. Default: true.
    pub fn auto_reconnect(self, enable: bool) -> (r: DhanFeedManagerBuilder)
        ensures
            r.spec_config() == (DhanFeedConfig { auto_reconnect: enable, ..self.spec_config() }),
            r.spec_client_id() == self.spec_client_id(),
            r.spec_access_token() == self.spec_access_token(),
    {
        let mut b = self;
        b.config.auto_reconnect = enable;
        b
    }

    /// Build the [`DhanFeedManager`].
    pub fn build(self) -> (r: DhanFeedManager)
        ensures
            r.wf(),
            r@.config == clamped(self.spec_config()),
            !r@.started,
            r@.client_id == self.spec_client_id(),
            r@.access_token == self.spec_access_token(),
            forall|i: int| 0 <= i < r@.tables.len() ==> #[trigger] r@.tables[i].len() == 0,
            forall|i: int| 0 <= i < r@.alive.len() ==> !#[trigger] r@.alive[i],
            forall|i: int| 0 <= i < r@.reconnects.len() ==> #[trigger] r@.reconnects[i] == 0,
    {
        DhanFeedManager::new(self.client_id.as_str(), self.access_token.as_str(), self.config)
    }
}

/// The subscriptions of one slot: each instrument with the mode it was
/// subscribed in.
pub type SubscriptionTable = Seq<(Instrument, FeedRequestCode)>;

/// Whether `t` holds an instrument with key `k`.
pub open spec fn table_has(t: SubscriptionTable, k: (Seq<char>, Seq<char>)) -> bool {
    exists|j: int| 0 <= j < t.len() && #[trigger] instrument_key(t[j].0) == k
}

/// Whether any of the tables holds an instrument with key `k`.
pub open spec fn tables_have(ts: Seq<SubscriptionTable>, k: (Seq<char>, Seq<char>)) -> bool {
    exists|i: int| 0 <= i < ts.len() && #[trigger] table_has(ts[i], k)
}

/// No key occurs twice within one table.
pub open spec fn distinct_keys(t: SubscriptionTable) -> bool {
    forall|a: int, b: int|
        0 <= a < b < t.len() ==> #[trigger] instrument_key(t[a].0) != #[trigger] instrument_key(
            t[b].0,
        )
}

/// No key occurs twice across all tables: each instrument lives in exactly
/// one slot, once.
pub open spec fn keys_unique(ts: Seq<SubscriptionTable>) -> bool {
    &&& forall|i: int| 0 <= i < ts.len() ==> #[trigger] distinct_keys(ts[i])
    &&& forall|i1: int, i2: int, k: (Seq<char>, Seq<char>)|
        0 <= i1 < i2 < ts.len() ==> !(#[trigger] table_has(ts[i1], k) && #[trigger] table_has(
            ts[i2],
            k,
        ))
}

/// Every table holds at most `max` instruments.
pub open spec fn within_capacity(ts: Seq<SubscriptionTable>, max: nat) -> bool {
    forall|i: int| 0 <= i < ts.len() ==> #[trigger] ts[i].len() <= max
}

/// The sum of the table sizes.
pub open spec fn total_len(ts: Seq<SubscriptionTable>) -> nat
    decreases ts.len(),
{
    if ts.len() == 0 {
        0
    } else {
        total_len(ts.drop_last()) + ts.last().len()
    }
}

/// How many of the flags are set.
pub open spec fn count_true(s: Seq<bool>) -> nat
    decreases s.len(),
{
    if s.len() == 0 {
        0
    } else {
        count_true(s.drop_last()) + if s.last() {
            1nat
        } else {
            0nat
        }
    }
}

/// The first index of a table of least size.
pub open spec fn min_index(ts: Seq<SubscriptionTable>) -> int
    decreases ts.len(),
{
    if ts.len() <= 1 {
        0
    } else {
        let m = min_index(ts.drop_last());
        if ts.last().len() < ts[m].len() {
            ts.len() - 1
        } else {
            m
        }
    }
}

/// Routing of one instrument: nothing if some slot already holds it, else it
/// joins the least loaded slot; `None` when that slot is full.
pub open spec fn assign_one(
    ts: Seq<SubscriptionTable>,
    inst: Instrument,
    mode: FeedRequestCode,
    max: nat,
) -> Option<Seq<SubscriptionTable>> {
    if tables_have(ts, instrument_key(inst)) {
        Some(ts)
    } else {
        let b = min_index(ts);
        if ts[b].len() >= max {
            None
        } else {
            Some(ts.update(b, ts[b].push((inst, mode))))
        }
    }
}

/// Routing of a request: its instruments in order, each by [`assign_one`];
/// `None` as soon as one finds every slot full.
pub open spec fn route(
    ts: Seq<SubscriptionTable>,
    insts: Seq<Instrument>,
    mode: FeedRequestCode,
    max: nat,
) -> Option<Seq<SubscriptionTable>>
    decreases insts.len(),
{
    if insts.len() == 0 {
        Some(ts)
    } else {
        match route(ts, insts.drop_last(), mode, max) {
            Some(t2) => assign_one(t2, insts.last(), mode, max),
            None => None,
        }
    }
}

/// Whether some instrument of `s` has key `k`.
pub open spec fn requested(s: Seq<Instrument>, k: (Seq<char>, Seq<char>)) -> bool {
    exists|j: int| 0 <= j < s.len() && #[trigger] instrument_key(s[j]) == k
}

/// The table without the entries whose instruments `s` names, order kept.
pub open spec fn without(t: SubscriptionTable, s: Seq<Instrument>) -> SubscriptionTable
    decreases t.len(),
{
    if t.len() == 0 {
        t
    } else {
        let r = without(t.drop_last(), s);
        if requested(s, instrument_key(t.last().0)) {
            r
        } else {
            r.push(t.last())
        }
    }
}

/// The instruments of `s`, in order, that table `t` holds.
pub open spec fn requested_on(t: SubscriptionTable, s: Seq<Instrument>) -> Seq<Instrument>
    decreases s.len(),
{
    if s.len() == 0 {
        Seq::empty()
    } else {
        let r = requested_on(t, s.drop_last());
        if table_has(t, instrument_key(s.last())) {
            r.push(s.last())
        } else {
            r
        }
    }
}

/// The instruments that `t1` holds beyond its prefix `t0`.
pub open spec fn added(t0: SubscriptionTable, t1: SubscriptionTable) -> Seq<Instrument> {
    t1.subrange(t0.len() as int, t1.len() as int).map_values(
        |e: (Instrument, FeedRequestCode)| e.0,
    )
}

/// Messages that one slot must send.
#[derive(Debug)]
pub struct OutboundBatch {
    /// The slot whose writer sends the frames.
    pub connection: ConnectionId,
    /// JSON text frames, in order.
    pub frames: Vec<String>,
}

/// `out` holds, for each slot in order, the subscribe frames of the
/// instruments that moved the slot's table from `t0` to `t1`.
pub open spec fn subscribe_batches(
    t0: Seq<SubscriptionTable>,
    t1: Seq<SubscriptionTable>,
    code: u8,
    out: Seq<OutboundBatch>,
) -> bool {
    &&& out.len() == t0.len()
    &&& forall|i: int|
        0 <= i < out.len() ==> (#[trigger] out[i]).connection == ConnectionId(i as u8)
            && frames_for(code, added(t0[i], t1[i]), out[i].frames@)
}

/// `out` holds, for each slot in order, the unsubscribe frames of the
/// requested instruments that the slot holds.
pub open spec fn unsubscribe_batches(
    t0: Seq<SubscriptionTable>,
    s: Seq<Instrument>,
    code: u8,
    out: Seq<OutboundBatch>,
) -> bool {
    &&& out.len() == t0.len()
    &&& forall|i: int|
        0 <= i < out.len() ==> (#[trigger] out[i]).connection == ConnectionId(i as u8)
            && frames_for(code, requested_on(t0[i], s), out[i].frames@)
}

/// Message of the error returned before `start`.
pub const NOT_STARTED: &'static str = "manager not started";

/// Message of the error returned by a second `start`.
pub const ALREADY_STARTED: &'static str = "manager already started";

/// Message of the error returned when no slot has room.
pub const AT_CAPACITY: &'static str = "all connections at capacity";

/// Whether `r` is an invalid-argument error with message `m`.
pub open spec fn is_invalid_argument<T>(r: Result<T, DhanError>, m: Seq<char>) -> bool {
    r matches Err(DhanError::InvalidArgument(msg)) && msg@ == m
}

struct ManagedConnection {
    id: ConnectionId,
    instruments: Vec<(Instrument, FeedRequestCode)>,
    reconnect_count: u64,
    alive: bool,
}

/// The state of a manager, as its contracts speak of it.
pub struct ManagerView {
    /// The configuration, with its limits clamped.
    pub config: DhanFeedConfig,
    /// Whether `start` has been called since construction or `shutdown`.
    pub started: bool,
    /// The subscription table of each slot.
    pub tables: Seq<SubscriptionTable>,
    /// The last reported liveness of each slot's task.
    pub alive: Seq<bool>,
    /// The last reported reconnect count of each slot.
    pub reconnects: Seq<u64>,
    /// The client id used to connect.
    pub client_id: Seq<char>,
    /// The access token used to connect.
    pub access_token: Seq<char>,
}

/// The manager's invariant over its state: one table per slot, a slot count
/// and capacity within the server's limits, no instrument in two places and
/// no table over capacity.
pub open spec fn manager_inv(v: ManagerView) -> bool {
    &&& 1 <= v.config.max_connections <= MAX_CONNECTIONS
    &&& v.config.max_instruments_per_connection <= MAX_INSTRUMENTS_PER_CONNECTION
    &&& v.tables.len() == v.config.max_connections
    &&& v.alive.len() == v.tables.len()
    &&& v.reconnects.len() == v.tables.len()
    &&& keys_unique(v.tables)
    &&& within_capacity(v.tables, v.config.max_instruments_per_connection as nat)
}

/// Multi-connection manager for DhanHQ market feed WebSocket streams.
pub struct DhanFeedManager {
    client_id: String,
    access_token: String,
    config: DhanFeedConfig,
    connections: Vec<ManagedConnection>,
    started: bool,
}

impl View for DhanFeedManager {
    type V = ManagerView;

    closed spec fn view(&self) -> ManagerView {
        ManagerView {
            config: self.config,
            started: self.started,
            tables: Seq::new(self.connections@.len(), |i: int| self.connections@[i].instruments@),
            alive: Seq::new(self.connections@.len(), |i: int| self.connections@[i].alive),
            reconnects: Seq::new(
                self.connections@.len(),
                |i: int| self.connections@[i].reconnect_count,
            ),
            client_id: self.client_id@,
            access_token: self.access_token@,
        }
    }
}

impl DhanFeedManager {
    /// Each slot knows its own index.
    pub closed spec fn ids_ok(&self) -> bool {
        forall|i: int|
            0 <= i < self.connections@.len() ==> #[trigger] self.connections@[i].id == ConnectionId(
                i as u8,
            )
    }

    /// The manager's invariant.
    pub open spec fn wf(&self) -> bool {
        self.ids_ok() && manager_inv(self@)
    }

    /// Create a new manager; the configuration's limits are clamped to the
    /// server's (1 to 5 connections, at most 5,000 instruments each).
    pub fn new(client_id: &str, access_token: &str, config: DhanFeedConfig) -> (r: DhanFeedManager)
        ensures
            r.wf(),
            r@.config == clamped(config),
            !r@.started,
            r@.client_id == client_id@,
            r@.access_token == access_token@,
            forall|i: int| 0 <= i < r@.tables.len() ==> #[trigger] r@.tables[i].len() == 0,
            forall|i: int| 0 <= i < r@.alive.len() ==> !#[trigger] r@.alive[i],
            forall|i: int| 0 <= i < r@.reconnects.len() ==> #[trigger] r@.reconnects[i] == 0,
    {
        let config = clamp_config(config);
        let n = config.max_connections;
        let mut connections: Vec<ManagedConnection> = Vec::new();
        let mut i: u8 = 0;
        while i < n
            invariant
                i <= n,
                n <= MAX_CONNECTIONS,
                connections@.len() == i,
                forall|j: int|
                    0 <= j < i ==> (#[trigger] connections@[j]).id == ConnectionId(j as u8)
                        && connections@[j].instruments@.len() == 0 && !connections@[j].alive
                        && connections@[j].reconnect_count == 0,
            decreases n - i,
        {
            connections.push(
                ManagedConnection {
                    id: ConnectionId(i),
                    instruments: Vec::new(),
                    reconnect_count: 0,
                    alive: false,
                },
            );
            i = i + 1;
        }
        let r = DhanFeedManager {
            client_id: String::from_str(client_id),
            access_token: String::from_str(access_token),
            config,
            connections,
            started: false,
        };
        assert forall|i1: int, i2: int, k: (Seq<char>, Seq<char>)|
            0 <= i1 < i2 < r@.tables.len() implies !(#[trigger] table_has(r@.tables[i1], k)
            && #[trigger] table_has(r@.tables[i2], k)) by {
            assert(r@.tables[i1].len() == 0);
        }
        r
    }

    /// The client id used to connect.
    pub fn client_id(&self) -> (r: &String)
        ensures
            r@ == self@.client_id,
    {
        &self.client_id
    }

    /// The access token used to connect.
    pub fn access_token(&self) -> (r: &String)
        ensures
            r@ == self@.access_token,
    {
        &self.access_token
    }

    /// Get the configuration.
    pub fn config(&self) -> (r: &DhanFeedConfig)
        ensures
            *r == self@.config,
    {
        &self.config
    }

    /// Whether `start` has been called since construction or the last `shutdown`.
    pub fn is_started(&self) -> (r: bool)
        ensures
            r == self@.started,
    {
        self.started
    }

    /// The index of the first slot whose table holds `inst`, if any.
    fn find_slot(&self, inst: &Instrument) -> (r: Option<usize>)
        ensures
            r matches Some(i) ==> i < self@.tables.len() && table_has(
                self@.tables[i as int],
                instrument_key(*inst),
            ),
            r is None ==> !tables_have(self@.tables, instrument_key(*inst)),
    {
        let mut i: usize = 0;
        while i < self.connections.len()
            invariant
                i <= self.connections@.len(),
                forall|i2: int|
                    0 <= i2 < i ==> !#[trigger] table_has(self@.tables[i2], instrument_key(*inst)),
            decreases self.connections@.len() - i,
        {
            let t = &self.connections[i].instruments;
            assert(t@ == self@.tables[i as int]);
            let mut j: usize = 0;
            while j < t.len()
                invariant
                    j <= t@.len(),
                    i < self.connections@.len(),
                    t@ == self@.tables[i as int],
                    forall|i2: int|
                        0 <= i2 < i ==> !#[trigger] table_has(
                            self@.tables[i2],
                            instrument_key(*inst),
                        ),
                    forall|j2: int|
                        0 <= j2 < j ==> #[trigger] instrument_key(t@[j2].0) != instrument_key(
                            *inst,
                        ),
                decreases t@.len() - j,
            {
                if t[j].0.same_key(inst) {
                    assert(instrument_key(self@.tables[i as int][j as int].0) == instrument_key(
                        *inst,
                    ));
                    return Some(i);
                }
                j = j + 1;
            }
            i = i + 1;
        }
        None
    }

    /// The index of the first slot of least load.
    fn least_loaded(&self) -> (r: usize)
        requires
            self.connections@.len() >= 1,
        ensures
            r == min_index(self@.tables),
            r < self@.tables.len(),
    {
        let ghost ts = self@.tables;
        let mut best: usize = 0;
        let mut i: usize = 1;
        assert(ts.subrange(0, 1).len() == 1);
        while i < self.connections.len()
            invariant
                1 <= i <= self.connections@.len(),
                ts == self@.tables,
                best < i,
                best == min_index(ts.subrange(0, i as int)),
            decreases self.connections@.len() - i,
        {
            let ghost s = ts.subrange(0, i + 1);
            assert(s.drop_last() =~= ts.subrange(0, i as int));
            if self.connections[i].instruments.len() < self.connections[best].instruments.len() {
                best = i;
            }
            i = i + 1;
        }
        assert(ts.subrange(0, ts.len() as int) =~= ts);
        best
    }

    /// Appends an entry to slot `b`'s table.
    fn push_entry(&mut self, b: usize, inst: Instrument, mode: FeedRequestCode)
        requires
            b < old(self).connections@.len(),
        ensures
            old(self).ids_ok() ==> final(self).ids_ok(),
            final(self)@ == (ManagerView {
                tables: old(self)@.tables.update(
                    b as int,
                    old(self)@.tables[b as int].push((inst, mode)),
                ),
                ..old(self)@
            }),
    {
        self.connections[b].instruments.push((inst, mode));
        assert(self.connections@[b as int].id == old(self).connections@[b as int].id);
        assert forall|j: int| 0 <= j < self.connections@.len() implies #[trigger]
            self.connections@[j].id == old(self).connections@[j].id by {
            if j != b {
            }
        }
        assert(self@.tables =~= old(self)@.tables.update(
            b as int,
            old(self)@.tables[b as int].push((inst, mode)),
        ));
        assert(self@.alive =~= old(self)@.alive);
        assert(self@.reconnects =~= old(self)@.reconnects);
        assert(old(self).ids_ok() ==> self.ids_ok());
    }

    /// Cuts each slot's table back to the given length.
    fn truncate_tables(&mut self, lens: &Vec<usize>)
        requires
            lens@.len() == old(self).connections@.len(),
        ensures
            old(self).ids_ok() ==> final(self).ids_ok(),
            final(self)@ == (ManagerView {
                tables: Seq::new(
                    old(self)@.tables.len(),
                    |i: int|
                        if lens@[i] <= old(self)@.tables[i].len() {
                            old(self)@.tables[i].subrange(0, lens@[i] as int)
                        } else {
                            old(self)@.tables[i]
                        },
                ),
                ..old(self)@
            }),
    {
        let ghost t = old(self)@.tables;
        let mut i: usize = 0;
        while i < self.connections.len()
            invariant
                0 <= i <= self.connections@.len(),
                lens@.len() == self.connections@.len(),
                self.connections@.len() == old(self).connections@.len(),
                forall|j: int|
                    0 <= j < self.connections@.len() ==> #[trigger] self.connections@[j].id
                        == old(self).connections@[j].id,
                self@.config == old(self)@.config,
                self@.started == old(self)@.started,
                self@.client_id == old(self)@.client_id,
                self@.access_token == old(self)@.access_token,
                self@.alive == old(self)@.alive,
                self@.reconnects == old(self)@.reconnects,
                self@.tables.len() == t.len(),
                forall|j: int|
                    i <= j < t.len() ==> #[trigger] self@.tables[j] == t[j],
                forall|j: int|
                    0 <= j < i ==> #[trigger] self@.tables[j] == if lens@[j] <= t[j].len() {
                        t[j].subrange(0, lens@[j] as int)
                    } else {
                        t[j]
                    },
            decreases self.connections@.len() - i,
        {
            let ghost before = self@;
            self.connections[i].instruments.truncate(lens[i]);
            assert(self@.alive =~= before.alive);
            assert(self@.reconnects =~= before.reconnects);
            assert forall|j: int| 0 <= j < t.len() && j != i implies #[trigger] self@.tables[j]
                == before.tables[j] by {}
            assert(self.connections@[i as int].id == old(self).connections@[i as int].id);
            assert(before.tables[i as int] == t[i as int]);
            assert(self@.tables[i as int] == if lens@[i as int] <= t[i as int].len() {
                t[i as int].subrange(0, lens@[i as int] as int)
            } else {
                t[i as int]
            });
            i = i + 1;
        }
        assert(self@.tables =~= Seq::new(
            t.len(),
            |i: int|
                if lens@[i] <= t[i].len() {
                    t[i].subrange(0, lens@[i] as int)
                } else {
                    t[i]
                },
        ));
        assert(old(self).ids_ok() ==> self.ids_ok());
    }

    /// Copies of the instruments of slot `i` from position `from` on.
    fn instruments_from(&self, i: usize, from: usize) -> (r: Vec<Instrument>)
        requires
            i < self@.tables.len(),
            from <= self@.tables[i as int].len(),
        ensures
            r@ == self@.tables[i as int].subrange(from as int, self@.tables[i as int].len() as int).map_values(
                |e: (Instrument, FeedRequestCode)| e.0,
            ),
    {
        let t = &self.connections[i].instruments;
        assert(t@ == self@.tables[i as int]);
        let mut out: Vec<Instrument> = Vec::new();
        let mut j: usize = from;
        while j < t.len()
            invariant
                from <= j <= t@.len(),
                out@ == t@.subrange(from as int, j as int).map_values(
                    |e: (Instrument, FeedRequestCode)| e.0,
                ),
            decreases t@.len() - j,
        {
            out.push(t[j].0.duplicate());
            j = j + 1;
            assert(out@ =~= t@.subrange(from as int, j as int).map_values(
                |e: (Instrument, FeedRequestCode)| e.0,
            ));
        }
        out
    }

    /// Routes each instrument that no slot holds yet to the least loaded slot
    /// (the first one on ties), appending it to that slot's table. Returns
    /// `false`, with every table cut back to `old_lens`, when that slot is full.
    fn assign_instruments(
        &mut self,
        instruments: &[Instrument],
        mode: FeedRequestCode,
        old_lens: &Vec<usize>,
    ) -> (r: bool)
        requires
            old(self).wf(),
            old(self)@.started,
            old_lens@.len() == old(self)@.tables.len(),
            forall|j: int|
                0 <= j < old_lens@.len() ==> #[trigger] old_lens@[j] == old(self)@.tables[j].len(),
        ensures
            final(self).wf(),
            r ==> route(
                old(self)@.tables,
                instruments@,
                mode,
                old(self)@.config.max_instruments_per_connection as nat,
            ) == Some(final(self)@.tables),
            r ==> final(self)@ == (ManagerView { tables: final(self)@.tables, ..old(self)@ }),
            r ==> forall|j: int|
                0 <= j < old_lens@.len() ==> #[trigger] old_lens@[j] <= final(self)@.tables[j].len()
                    && final(self)@.tables[j].subrange(0, old_lens@[j] as int) == old(
                    self,
                )@.tables[j],
            !r ==> route(
                old(self)@.tables,
                instruments@,
                mode,
                old(self)@.config.max_instruments_per_connection as nat,
            ) is None && final(self)@ == old(self)@,
    {
        let ghost v0 = self@;
        let ghost t0 = self@.tables;
        let n = self.connections.len();
        let max = self.config.max_instruments_per_connection;
        assert(instruments@.subrange(0, 0) =~= Seq::<Instrument>::empty());
        let mut k: usize = 0;
        while k < instruments.len()
            invariant
                self.wf(),
                t0 == v0.tables,
                old(self)@ == v0,
                v0.started,
                manager_inv(v0),
                k <= instruments@.len(),
                n == t0.len(),
                n == self.connections@.len(),
                max == v0.config.max_instruments_per_connection,
                self@ == (ManagerView { tables: self@.tables, ..v0 }),
                route(t0, instruments@.subrange(0, k as int), mode, max as nat) == Some(
                    self@.tables,
                ),
                old_lens@.len() == n,
                forall|j: int|
                    0 <= j < n ==> #[trigger] old_lens@[j] == t0[j].len() && old_lens@[j]
                        <= self@.tables[j].len() && self@.tables[j].subrange(
                        0,
                        old_lens@[j] as int,
                    ) == t0[j],
            decreases instruments@.len() - k,
        {
            let ghost cur = self@.tables;
            let ghost s1 = instruments@.subrange(0, k + 1);
            assert(s1.drop_last() =~= instruments@.subrange(0, k as int));
            assert(s1.last() == instruments@[k as int]);
            let inst = &instruments[k];
            match self.find_slot(inst) {
                Some(_) => {},
                None => {
                    let b = self.least_loaded();
                    if self.connections[b].instruments.len() >= max {
                        proof {
                            lemma_route_none_grows(t0, instruments@, mode, max as nat, k + 1);
                        }
                        self.truncate_tables(old_lens);
                        assert(self@.tables =~= t0);
                        assert(self@ == v0);
                        return false;
                    }
                    proof {
                        lemma_push_keeps_unique(cur, b as int, (*inst, mode));
                    }
                    self.push_entry(b, inst.duplicate(), mode);
                    assert forall|j: int| 0 <= j < n implies #[trigger] old_lens@[j] == t0[j].len()
                        && old_lens@[j] <= self@.tables[j].len() && self@.tables[j].subrange(
                        0,
                        old_lens@[j] as int,
                    ) == t0[j] by {
                        if j == b {
                            assert(self@.tables[j].subrange(0, old_lens@[j] as int) =~= cur[j].subrange(
                                0,
                                old_lens@[j] as int,
                            ));
                        }
                    }
                },
            }
            k = k + 1;
        }
        assert(instruments@.subrange(0, instruments@.len() as int) =~= instruments@);
        true
    }

    /// Subscribe instruments on the manager.
    ///
    /// Each instrument that no slot holds yet goes to the least loaded slot
    /// (the first one on ties); instruments already held anywhere are skipped.
    /// If the least loaded slot is full, the whole call fails with nothing
    /// changed. On success the tables hold the new instruments and the result
    /// holds, per slot, the subscribe frames (at most 100 instruments each)
    /// that the slot's writer must send.
    pub fn subscribe(&mut self, instruments: &[Instrument], mode: FeedRequestCode) -> (r: Result<
        Vec<OutboundBatch>,
        DhanError,
    >)
        requires
            old(self).wf(),
        ensures
            final(self).wf(),
            !old(self)@.started ==> is_invalid_argument(r, NOT_STARTED@) && final(self)@ == old(
                self,
            )@,
            old(self)@.started && route(
                old(self)@.tables,
                instruments@,
                mode,
                old(self)@.config.max_instruments_per_connection as nat,
            ) is None ==> is_invalid_argument(r, AT_CAPACITY@) && final(self)@ == old(self)@,
            old(self)@.started ==> match route(
                old(self)@.tables,
                instruments@,
                mode,
                old(self)@.config.max_instruments_per_connection as nat,
            ) {
                Some(t) => (r matches Ok(out) && final(self)@ == (ManagerView {
                    tables: t,
                    ..old(self)@
                }) && subscribe_batches(old(self)@.tables, t, request_code_of(mode), out@)),
                None => true,
            },
    {
        if !self.started {
            return Err(DhanError::InvalidArgument(String::from_str(NOT_STARTED)));
        }
        let ghost v0 = self@;
        let ghost t0 = self@.tables;
        let n = self.connections.len();
        let mut old_lens: Vec<usize> = Vec::new();
        let mut i: usize = 0;
        while i < n
            invariant
                self@ == v0,
                t0 == v0.tables,
                old(self)@ == v0,
                self.wf(),
                n == self.connections@.len(),
                n == t0.len(),
                i <= n,
                old_lens@.len() == i,
                forall|j: int| 0 <= j < i ==> #[trigger] old_lens@[j] == t0[j].len(),
            decreases n - i,
        {
            assert(self@.tables[i as int] == self.connections@[i as int].instruments@);
            old_lens.push(self.connections[i].instruments.len());
            i = i + 1;
        }
        if !self.assign_instruments(instruments, mode, &old_lens) {
            return Err(DhanError::InvalidArgument(String::from_str(AT_CAPACITY)));
        }
        let ghost t1 = self@.tables;
        let code = mode.code();
        let mut out: Vec<OutboundBatch> = Vec::new();
        let mut i: usize = 0;
        while i < n
            invariant
                self.wf(),
                t0 == v0.tables,
                old(self)@ == v0,
                manager_inv(v0),
                v0.started,
                route(t0, instruments@, mode, v0.config.max_instruments_per_connection as nat)
                    == Some(t1),
                self@ == (ManagerView { tables: t1, ..v0 }),
                n == t0.len(),
                n == t1.len(),
                n == self.connections@.len(),
                n <= MAX_CONNECTIONS,
                i <= n,
                code == request_code_of(mode),
                old_lens@.len() == n,
                forall|j: int|
                    0 <= j < n ==> #[trigger] old_lens@[j] == t0[j].len() && old_lens@[j]
                        <= t1[j].len() && t1[j].subrange(0, old_lens@[j] as int) == t0[j],
                out@.len() == i,
                forall|j: int|
                    0 <= j < i ==> (#[trigger] out@[j]).connection == ConnectionId(j as u8)
                        && frames_for(code, added(t0[j], t1[j]), out@[j].frames@),
            decreases n - i,
        {
            let fresh = self.instruments_from(i, old_lens[i]);
            match subscription_frames(code, fresh.as_slice()) {
                Ok(frames) => {
                    out.push(OutboundBatch { connection: ConnectionId(i as u8), frames });
                },
                Err(_) => unreached(),
            }
            i = i + 1;
        }
        Ok(out)
    }

    /// Replaces slot `i`'s table.
    fn set_table(&mut self, i: usize, t: Vec<(Instrument, FeedRequestCode)>)
        requires
            i < old(self).connections@.len(),
        ensures
            old(self).ids_ok() ==> final(self).ids_ok(),
            final(self)@ == (ManagerView {
                tables: old(self)@.tables.update(i as int, t@),
                ..old(self)@
            }),
    {
        self.connections[i].instruments = t;
        assert(self.connections@[i as int].id == old(self).connections@[i as int].id);
        assert forall|j: int| 0 <= j < self.connections@.len() implies #[trigger]
            self.connections@[j].id == old(self).connections@[j].id by {
            if j != i {
            }
        }
        assert(self@.tables =~= old(self)@.tables.update(i as int, t@));
        assert(self@.alive =~= old(self)@.alive);
        assert(self@.reconnects =~= old(self)@.reconnects);
        assert(old(self).ids_ok() ==> self.ids_ok());
    }

    /// Slot `i`'s table without the entries that `instruments` names.
    fn table_without(&self, i: usize, instruments: &[Instrument]) -> (r: Vec<
        (Instrument, FeedRequestCode),
    >)
        requires
            i < self@.tables.len(),
        ensures
            r@ == without(self@.tables[i as int], instruments@),
    {
        let t = &self.connections[i].instruments;
        assert(t@ == self@.tables[i as int]);
        let mut out: Vec<(Instrument, FeedRequestCode)> = Vec::new();
        let mut j: usize = 0;
        assert(t@.subrange(0, 0).len() == 0);
        while j < t.len()
            invariant
                j <= t@.len(),
                out@ == without(t@.subrange(0, j as int), instruments@),
            decreases t@.len() - j,
        {
            let ghost s1 = t@.subrange(0, j + 1);
            assert(s1.drop_last() =~= t@.subrange(0, j as int));
            if !is_requested(instruments, &t[j].0) {
                out.push((t[j].0.duplicate(), t[j].1));
            }
            j = j + 1;
        }
        assert(t@.subrange(0, t@.len() as int) =~= t@);
        out
    }

    /// Unsubscribe instruments.
    ///
    /// Each requested instrument is looked up in the slot that holds it;
    /// instruments that no slot holds are ignored. The result holds, per slot,
    /// the unsubscribe frames (at most 100 instruments each) that the slot's
    /// writer must send, and the tables no longer hold the instruments.
    pub fn unsubscribe(&mut self, instruments: &[Instrument], mode: FeedRequestCode) -> (r: Result<
        Vec<OutboundBatch>,
        DhanError,
    >)
        requires
            old(self).wf(),
        ensures
            final(self).wf(),
            !old(self)@.started ==> is_invalid_argument(r, NOT_STARTED@) && final(self)@ == old(
                self,
            )@,
            old(self)@.started ==> (r matches Ok(out) && final(self)@ == (ManagerView {
                tables: Seq::new(
                    old(self)@.tables.len(),
                    |i: int| without(old(self)@.tables[i], instruments@),
                ),
                ..old(self)@
            }) && unsubscribe_batches(old(self)@.tables, instruments@, request_code_of(mode), out@)),
    {
        if !self.started {
            return Err(DhanError::InvalidArgument(String::from_str(NOT_STARTED)));
        }
        let ghost v0 = self@;
        let ghost t0 = self@.tables;
        let n = self.connections.len();
        let mut per_slot: Vec<Vec<Instrument>> = Vec::new();
        let mut i: usize = 0;
        while i < n
            invariant
                i <= n,
                per_slot@.len() == i,
                forall|j: int| 0 <= j < i ==> (#[trigger] per_slot@[j])@.len() == 0,
            decreases n - i,
        {
            per_slot.push(Vec::new());
            i = i + 1;
        }
        let mut k: usize = 0;
        assert forall|j: int| 0 <= j < n implies (#[trigger] per_slot@[j])@ == requested_on(
            t0[j],
            instruments@.subrange(0, 0),
        ) by {
            assert(per_slot@[j]@ =~= Seq::<Instrument>::empty());
        }
        while k < instruments.len()
            invariant
                self@ == v0,
                old(self)@ == v0,
                t0 == v0.tables,
                self.wf(),
                n == t0.len(),
                n == self.connections@.len(),
                k <= instruments@.len(),
                per_slot@.len() == n,
                forall|j: int|
                    0 <= j < n ==> (#[trigger] per_slot@[j])@ == requested_on(
                        t0[j],
                        instruments@.subrange(0, k as int),
                    ),
            decreases instruments@.len() - k,
        {
            let ghost s1 = instruments@.subrange(0, k + 1);
            assert(s1.drop_last() =~= instruments@.subrange(0, k as int));
            assert(s1.last() == instruments@[k as int]);
            let ghost key = instrument_key(instruments@[k as int]);
            let ghost before = per_slot@;
            match self.find_slot(&instruments[k]) {
                Some(i) => {
                    per_slot[i].push(instruments[k].duplicate());
                    assert forall|j: int| 0 <= j < n implies (#[trigger] per_slot@[j])@
                        == requested_on(t0[j], s1) by {
                        if j != i {
                            if table_has(t0[j], key) {
                                if j < i {
                                    assert(!(table_has(t0[j], key) && table_has(
                                        t0[i as int],
                                        key,
                                    )));
                                } else {
                                    assert(!(table_has(t0[i as int], key) && table_has(
                                        t0[j],
                                        key,
                                    )));
                                }
                            }
                        }
                    }
                },
                None => {
                    assert forall|j: int| 0 <= j < n implies (#[trigger] per_slot@[j])@
                        == requested_on(t0[j], s1) by {
                        if table_has(t0[j], key) {
                            assert(tables_have(t0, key));
                        }
                    }
                },
            }
            k = k + 1;
        }
        assert(instruments@.subrange(0, instruments@.len() as int) =~= instruments@);
        let code = mode.code();
        let mut out: Vec<OutboundBatch> = Vec::new();
        let mut i: usize = 0;
        while i < n
            invariant
                self@ == v0,
                old(self)@ == v0,
                t0 == v0.tables,
                self.wf(),
                v0.started,
                n == t0.len(),
                n <= MAX_CONNECTIONS,
                i <= n,
                code == request_code_of(mode),
                per_slot@.len() == n,
                forall|j: int|
                    0 <= j < n ==> (#[trigger] per_slot@[j])@ == requested_on(t0[j], instruments@),
                out@.len() == i,
                forall|j: int|
                    0 <= j < i ==> (#[trigger] out@[j]).connection == ConnectionId(j as u8)
                        && frames_for(code, requested_on(t0[j], instruments@), out@[j].frames@),
            decreases n - i,
        {
            match subscription_frames(code, per_slot[i].as_slice()) {
                Ok(frames) => {
                    out.push(OutboundBatch { connection: ConnectionId(i as u8), frames });
                },
                Err(_) => unreached(),
            }
            i = i + 1;
        }
        let mut i: usize = 0;
        while i < n
            invariant
                old(self)@ == v0,
                t0 == v0.tables,
                manager_inv(v0),
                v0.started,
                self.ids_ok(),
                n == t0.len(),
                n == self.connections@.len(),
                i <= n,
                self@ == (ManagerView { tables: self@.tables, ..v0 }),
                self@.tables.len() == n,
                forall|j: int| 0 <= j < i ==> #[trigger] self@.tables[j] == without(t0[j], instruments@),
                forall|j: int| i <= j < n ==> #[trigger] self@.tables[j] == t0[j],
            decreases n - i,
        {
            let kept = self.table_without(i, instruments);
            self.set_table(i, kept);
            i = i + 1;
        }
        let ghost t2 = self@.tables;
        assert(t2 =~= Seq::new(n as nat, |i: int| without(t0[i], instruments@)));
        proof {
            lemma_without_keeps_inv(t0, t2, instruments@, v0.config.max_instruments_per_connection as nat);
        }
        Ok(out)
    }

    /// Marks the manager started. Fails if it already is.
    ///
    /// The caller opens each slot's session and spawns its task after this
    /// returns `Ok`, and calls `shutdown` if that fails.
    pub fn start(&mut self) -> (r: Result<(), DhanError>)
        requires
            old(self).wf(),
        ensures
            final(self).wf(),
            old(self)@.started ==> is_invalid_argument(r, ALREADY_STARTED@) && final(self)@ == old(
                self,
            )@,
            !old(self)@.started ==> r is Ok && final(self)@ == (ManagerView {
                started: true,
                ..old(self)@
            }),
    {
        if self.started {
            return Err(DhanError::InvalidArgument(String::from_str(ALREADY_STARTED)));
        }
        self.started = true;
        assert(self@.tables =~= old(self)@.tables);
        assert(self@.alive =~= old(self)@.alive);
        assert(self@.reconnects =~= old(self)@.reconnects);
        Ok(())
    }

    /// Records what the caller observed of slot `id`'s task: whether it is
    /// still running, and how many times it has reconnected. Returns `false`,
    /// changing nothing, when no slot has that id.
    pub fn set_connection_status(&mut self, id: ConnectionId, alive: bool, reconnect_count: u64) -> (r:
        bool)
        requires
            old(self).wf(),
        ensures
            final(self).wf(),
            r == ((id.0 as int) < old(self)@.tables.len()),
            r ==> final(self)@ == (ManagerView {
                alive: old(self)@.alive.update(id.0 as int, alive),
                reconnects: old(self)@.reconnects.update(id.0 as int, reconnect_count),
                ..old(self)@
            }),
            !r ==> final(self)@ == old(self)@,
    {
        let i = id.0 as usize;
        if i >= self.connections.len() {
            return false;
        }
        self.connections[i].alive = alive;
        self.connections[i].reconnect_count = reconnect_count;
        assert(self.connections@[i as int].id == old(self).connections@[i as int].id);
        assert forall|j: int| 0 <= j < self.connections@.len() implies #[trigger]
            self.connections@[j].id == old(self).connections@[j].id by {
            if j != i {
            }
        }
        assert(self@.tables =~= old(self)@.tables);
        assert(self@.alive =~= old(self)@.alive.update(id.0 as int, alive));
        assert(self@.reconnects =~= old(self)@.reconnects.update(id.0 as int, reconnect_count));
        true
    }

    /// Shut down all managed connections: every table is cleared, every slot
    /// is marked not alive, and the manager returns to its pre-start state.
    ///
    /// The caller closes each slot's socket and aborts its task.
    pub fn shutdown(&mut self) -> (r: Result<(), DhanError>)
        requires
            old(self).wf(),
        ensures
            final(self).wf(),
            r is Ok,
            !final(self)@.started,
            final(self)@.config == old(self)@.config,
            final(self)@.client_id == old(self)@.client_id,
            final(self)@.access_token == old(self)@.access_token,
            final(self)@.reconnects == old(self)@.reconnects,
            final(self)@.tables.len() == old(self)@.tables.len(),
            forall|i: int|
                0 <= i < final(self)@.tables.len() ==> #[trigger] final(self)@.tables[i].len() == 0,
            forall|i: int| 0 <= i < final(self)@.alive.len() ==> !#[trigger] final(self)@.alive[i],
    {
        let n = self.connections.len();
        let mut i: usize = 0;
        while i < n
            invariant
                i <= n,
                n == self.connections@.len(),
                n == old(self).connections@.len(),
                forall|j: int|
                    0 <= j < n ==> #[trigger] self.connections@[j].id == old(
                        self,
                    ).connections@[j].id,
                forall|j: int|
                    0 <= j < n ==> #[trigger] self.connections@[j].reconnect_count == old(
                        self,
                    ).connections@[j].reconnect_count,
                forall|j: int| 0 <= j < i ==> #[trigger] self.connections@[j].instruments@.len() == 0,
                forall|j: int| 0 <= j < i ==> !#[trigger] self.connections@[j].alive,
                self.config == old(self).config,
                self.client_id == old(self).client_id,
                self.access_token == old(self).access_token,
            decreases n - i,
        {
            self.connections[i].instruments.clear();
            self.connections[i].alive = false;
            i = i + 1;
        }
        self.started = false;
        assert(self@.reconnects =~= old(self)@.reconnects);
        assert(self.ids_ok());
        assert forall|i1: int, i2: int, k: (Seq<char>, Seq<char>)|
            0 <= i1 < i2 < self@.tables.len() implies !(#[trigger] table_has(self@.tables[i1], k)
            && #[trigger] table_has(self@.tables[i2], k)) by {
            assert(self@.tables[i1].len() == 0);
        }
        Ok(())
    }

    /// Total number of instruments subscribed across all connections.
    pub fn total_instruments(&self) -> (r: usize)
        requires
            self.wf(),
        ensures
            r == total_len(self@.tables),
    {
        let ghost ts = self@.tables;
        let mut total: usize = 0;
        let mut i: usize = 0;
        assert(ts.subrange(0, 0) =~= Seq::<SubscriptionTable>::empty());
        while i < self.connections.len()
            invariant
                self.wf(),
                ts == self@.tables,
                i <= ts.len(),
                total == total_len(ts.subrange(0, i as int)),
                total <= i * MAX_INSTRUMENTS_PER_CONNECTION,
            decreases ts.len() - i,
        {
            let ghost s1 = ts.subrange(0, i + 1);
            assert(s1.drop_last() =~= ts.subrange(0, i as int));
            assert(ts[i as int].len() <= MAX_INSTRUMENTS_PER_CONNECTION);
            total = total + self.connections[i].instruments.len();
            i = i + 1;
        }
        assert(ts.subrange(0, ts.len() as int) =~= ts);
        total
    }

    /// Get health information for all managed connections.
    pub fn health(&self) -> (r: HealthSummary)
        requires
            self.wf(),
        ensures
            r.connections@.len() == self@.tables.len(),
            forall|i: int|
                0 <= i < r.connections@.len() ==> #[trigger] r.connections@[i] == (ConnectionHealth {
                    is_alive: self@.alive[i],
                    id: ConnectionId(i as u8),
                    instrument_count: self@.tables[i].len() as usize,
                    reconnect_count: self@.reconnects[i],
                }),
            r.total_instruments == total_len(self@.tables),
            r.alive_connections == count_true(self@.alive),
    {
        let ghost v = self@;
        let mut connections: Vec<ConnectionHealth> = Vec::new();
        let mut alive_connections: usize = 0;
        let mut i: usize = 0;
        assert(v.alive.subrange(0, 0) =~= Seq::<bool>::empty());
        while i < self.connections.len()
            invariant
                self.wf(),
                v == self@,
                i <= v.tables.len(),
                connections@.len() == i,
                forall|j: int|
                    0 <= j < i ==> #[trigger] connections@[j] == (ConnectionHealth {
                        is_alive: v.alive[j],
                        id: ConnectionId(j as u8),
                        instrument_count: v.tables[j].len() as usize,
                        reconnect_count: v.reconnects[j],
                    }),
                alive_connections == count_true(v.alive.subrange(0, i as int)),
                alive_connections <= i,
            decreases v.tables.len() - i,
        {
            let ghost s1 = v.alive.subrange(0, i + 1);
            assert(s1.drop_last() =~= v.alive.subrange(0, i as int));
            let c = &self.connections[i];
            connections.push(
                ConnectionHealth {
                    is_alive: c.alive,
                    id: c.id,
                    instrument_count: c.instruments.len(),
                    reconnect_count: c.reconnect_count,
                },
            );
            if c.alive {
                alive_connections = alive_connections + 1;
            }
            i = i + 1;
        }
        assert(v.alive.subrange(0, v.alive.len() as int) =~= v.alive);
        let total_instruments = self.total_instruments();
        HealthSummary { connections, total_instruments, alive_connections }
    }

    /// Copies of the subscription table of slot `id`, for replay after a
    /// reconnect; `None` when no slot has that id.
    pub fn subscriptions(&self, id: ConnectionId) -> (r: Option<Vec<(Instrument, FeedRequestCode)>>)
        ensures
            (id.0 as int) < self@.tables.len() ==> (r matches Some(t) && t@ == self@.tables[id.0 as int]),
            (id.0 as int) >= self@.tables.len() ==> r is None,
    {
        let i = id.0 as usize;
        if i >= self.connections.len() {
            return None;
        }
        let t = &self.connections[i].instruments;
        assert(t@ == self@.tables[i as int]);
        let mut out: Vec<(Instrument, FeedRequestCode)> = Vec::new();
        let mut j: usize = 0;
        while j < t.len()
            invariant
                j <= t@.len(),
                out@ == t@.subrange(0, j as int),
            decreases t@.len() - j,
        {
            out.push((t[j].0.duplicate(), t[j].1));
            j = j + 1;
            assert(out@ =~= t@.subrange(0, j as int));
        }
        assert(out@ =~= t@);
        Some(out)
    }
}

/// Once routing fails on a prefix of a request, it fails on the whole request.
proof fn lemma_route_none_grows(
    ts: Seq<SubscriptionTable>,
    s: Seq<Instrument>,
    mode: FeedRequestCode,
    max: nat,
    a: int,
)
    requires
        0 <= a <= s.len(),
        route(ts, s.subrange(0, a), mode, max) is None,
    ensures
        route(ts, s, mode, max) is None,
    decreases s.len(),
{
    if a == s.len() {
        assert(s.subrange(0, a) =~= s);
    } else {
        assert(s.drop_last().subrange(0, a) =~= s.subrange(0, a));
        lemma_route_none_grows(ts, s.drop_last(), mode, max, a);
    }
}

/// Adding an entry whose key no table holds keeps keys unique.
proof fn lemma_push_keeps_unique(
    ts: Seq<SubscriptionTable>,
    b: int,
    e: (Instrument, FeedRequestCode),
)
    requires
        keys_unique(ts),
        0 <= b < ts.len(),
        !tables_have(ts, instrument_key(e.0)),
    ensures
        keys_unique(ts.update(b, ts[b].push(e))),
{
    let nt = ts.update(b, ts[b].push(e));
    let k = instrument_key(e.0);
    assert(!table_has(ts[b], k));
    assert forall|i: int| 0 <= i < nt.len() implies #[trigger] distinct_keys(nt[i]) by {
        if i == b {
            assert(distinct_keys(ts[b]));
            assert forall|x: int, y: int| 0 <= x < y < nt[i].len() implies #[trigger] instrument_key(
                nt[i][x].0,
            ) != #[trigger] instrument_key(nt[i][y].0) by {
                if y == ts[b].len() {
                    assert(nt[i][x] == ts[b][x]);
                    if instrument_key(ts[b][x].0) == k {
                        assert(table_has(ts[b], k));
                    }
                }
            }
        }
    }
    assert forall|i1: int, i2: int, k2: (Seq<char>, Seq<char>)|
        0 <= i1 < i2 < nt.len() implies !(#[trigger] table_has(nt[i1], k2) && #[trigger] table_has(
        nt[i2],
        k2,
    )) by {
        if table_has(nt[i1], k2) && table_has(nt[i2], k2) {
            lemma_table_has_push(ts[b], e, k2);
            if i1 == b {
                if k2 == k {
                    assert(tables_have(ts, k));
                }
                assert(table_has(ts[i1], k2) && table_has(ts[i2], k2));
            } else if i2 == b {
                if k2 == k {
                    assert(tables_have(ts, k));
                }
                assert(table_has(ts[i1], k2) && table_has(ts[i2], k2));
            } else {
                assert(table_has(ts[i1], k2) && table_has(ts[i2], k2));
            }
        }
    }
}

/// A table with one more entry holds exactly its old keys and the new one.
proof fn lemma_table_has_push(
    t: SubscriptionTable,
    e: (Instrument, FeedRequestCode),
    k: (Seq<char>, Seq<char>),
)
    ensures
        table_has(t.push(e), k) <==> (table_has(t, k) || instrument_key(e.0) == k),
{
    let t2 = t.push(e);
    if table_has(t2, k) {
        let j = choose|j: int| 0 <= j < t2.len() && #[trigger] instrument_key(t2[j].0) == k;
        if j < t.len() {
            assert(instrument_key(t[j].0) == k);
        }
    }
    if table_has(t, k) {
        let j = choose|j: int| 0 <= j < t.len() && #[trigger] instrument_key(t[j].0) == k;
        assert(instrument_key(t2[j].0) == k);
    }
    if instrument_key(e.0) == k {
        assert(instrument_key(t2[t.len() as int].0) == k);
    }
}

/// Whether some instrument of `instruments` has the key of `inst`.
fn is_requested(instruments: &[Instrument], inst: &Instrument) -> (r: bool)
    ensures
        r == requested(instruments@, instrument_key(*inst)),
{
    let mut j: usize = 0;
    while j < instruments.len()
        invariant
            j <= instruments@.len(),
            forall|j2: int|
                0 <= j2 < j ==> #[trigger] instrument_key(instruments@[j2]) != instrument_key(*inst),
        decreases instruments@.len() - j,
    {
        if instruments[j].same_key(inst) {
            assert(instrument_key(instruments@[j as int]) == instrument_key(*inst));
            return true;
        }
        j = j + 1;
    }
    false
}

/// A filtered table is no longer than the table, holds only keys the table
/// holds, and keeps keys distinct.
proof fn lemma_without_sub(t: SubscriptionTable, s: Seq<Instrument>)
    ensures
        without(t, s).len() <= t.len(),
        forall|k: (Seq<char>, Seq<char>)| #[trigger] table_has(without(t, s), k) ==> table_has(t, k),
        distinct_keys(t) ==> distinct_keys(without(t, s)),
    decreases t.len(),
{
    if t.len() > 0 {
        let t1 = t.drop_last();
        let e = t.last();
        lemma_without_sub(t1, s);
        let r = without(t1, s);
        assert forall|k: (Seq<char>, Seq<char>)| #[trigger] table_has(t1, k) implies table_has(
            t,
            k,
        ) by {
            let j = choose|j: int| 0 <= j < t1.len() && #[trigger] instrument_key(t1[j].0) == k;
            assert(instrument_key(t[j].0) == k);
        }
        if !requested(s, instrument_key(e.0)) {
            assert forall|k: (Seq<char>, Seq<char>)| #[trigger] table_has(without(t, s), k) implies table_has(
                t,
                k,
            ) by {
                lemma_table_has_push(r, e, k);
                if instrument_key(e.0) == k {
                    assert(instrument_key(t[t.len() - 1].0) == k);
                }
            }
            if distinct_keys(t) {
                assert(distinct_keys(t1)) by {
                    assert forall|a: int, b: int| 0 <= a < b < t1.len() implies #[trigger] instrument_key(
                        t1[a].0,
                    ) != #[trigger] instrument_key(t1[b].0) by {
                        assert(t1[a] == t[a] && t1[b] == t[b]);
                    }
                }
                let w = r.push(e);
                assert forall|a: int, b: int| 0 <= a < b < w.len() implies #[trigger] instrument_key(
                    w[a].0,
                ) != #[trigger] instrument_key(w[b].0) by {
                    if b == r.len() {
                        if instrument_key(w[a].0) == instrument_key(e.0) {
                            assert(instrument_key(r[a].0) == instrument_key(e.0));
                            assert(table_has(r, instrument_key(e.0)));
                            let j = choose|j: int|
                                0 <= j < t1.len() && #[trigger] instrument_key(t1[j].0)
                                    == instrument_key(e.0);
                            assert(instrument_key(t[j].0) == instrument_key(t[t.len() - 1].0));
                        }
                    }
                }
            }
        } else {
            if distinct_keys(t) {
                assert forall|a: int, b: int| 0 <= a < b < t1.len() implies #[trigger] instrument_key(
                    t1[a].0,
                ) != #[trigger] instrument_key(t1[b].0) by {
                    assert(t1[a] == t[a] && t1[b] == t[b]);
                }
            }
        }
    }
}

/// Filtering each table keeps the manager's invariant.
proof fn lemma_without_keeps_inv(
    t0: Seq<SubscriptionTable>,
    t2: Seq<SubscriptionTable>,
    s: Seq<Instrument>,
    max: nat,
)
    requires
        keys_unique(t0),
        within_capacity(t0, max),
        t2.len() == t0.len(),
        forall|i: int| 0 <= i < t0.len() ==> #[trigger] t2[i] == without(t0[i], s),
    ensures
        keys_unique(t2),
        within_capacity(t2, max),
{
    assert forall|i: int| 0 <= i < t2.len() implies #[trigger] distinct_keys(t2[i])
        && t2[i].len() <= max by {
        lemma_without_sub(t0[i], s);
        assert(distinct_keys(t0[i]));
        assert(t0[i].len() <= max);
    }
    assert forall|i: int| 0 <= i < t2.len() implies #[trigger] t2[i].len() <= max by {
        lemma_without_sub(t0[i], s);
        assert(t0[i].len() <= max);
    }
    assert forall|i1: int, i2: int, k: (Seq<char>, Seq<char>)|
        0 <= i1 < i2 < t2.len() implies !(#[trigger] table_has(t2[i1], k) && #[trigger] table_has(
        t2[i2],
        k,
    )) by {
        lemma_without_sub(t0[i1], s);
        lemma_without_sub(t0[i2], s);
        if table_has(t2[i1], k) && table_has(t2[i2], k) {
            assert(table_has(t0[i1], k) && table_has(t0[i2], k));
        }
    }
}

/// Routing only appends: each table keeps its old entries as a prefix, and
/// every entry it gains is one of the routed instruments, in the given mode.
proof fn lemma_route_appends(
    ts: Seq<SubscriptionTable>,
    s: Seq<Instrument>,
    mode: FeedRequestCode,
    max: nat,
)
    requires
        ts.len() >= 1,
        route(ts, s, mode, max) is Some,
    ensures
        ({
            let t1 = route(ts, s, mode, max).unwrap();
            &&& t1.len() == ts.len()
            &&& forall|i: int|
                0 <= i < ts.len() ==> ts[i].len() <= (#[trigger] t1[i]).len() && t1[i].subrange(
                    0,
                    ts[i].len() as int,
                ) == ts[i]
            &&& forall|i: int, j: int|
                0 <= i < ts.len() && ts[i].len() <= j < t1[i].len() ==> requested(
                    s,
                    instrument_key((#[trigger] t1[i][j]).0),
                )
        }),
    decreases s.len(),
{
    if s.len() > 0 {
        let s0 = s.drop_last();
        lemma_route_appends(ts, s0, mode, max);
        let t2 = route(ts, s0, mode, max).unwrap();
        let t1 = route(ts, s, mode, max).unwrap();
        let last = s.last();
        assert(requested(s, instrument_key(last))) by {
            assert(instrument_key(s[s.len() - 1]) == instrument_key(last));
        }
        assert forall|k: (Seq<char>, Seq<char>)| requested(s0, k) implies #[trigger] requested(
            s,
            k,
        ) by {
            let j = choose|j: int| 0 <= j < s0.len() && #[trigger] instrument_key(s0[j]) == k;
            assert(instrument_key(s[j]) == k);
        }
        if !tables_have(t2, instrument_key(last)) {
            let b = min_index(t2);
            lemma_min_index_bounds(t2);
            assert(t1 == t2.update(b, t2[b].push((last, mode))));
            assert forall|i: int| 0 <= i < ts.len() implies ts[i].len() <= (#[trigger] t1[i]).len()
                && t1[i].subrange(0, ts[i].len() as int) == ts[i] by {
                if i == b {
                    assert(t1[i].subrange(0, ts[i].len() as int) =~= t2[i].subrange(
                        0,
                        ts[i].len() as int,
                    ));
                }
            }
            assert forall|i: int, j: int|
                0 <= i < ts.len() && ts[i].len() <= j < t1[i].len() implies requested(
                s,
                instrument_key((#[trigger] t1[i][j]).0),
            ) by {
                if i == b && j == t2[i].len() {
                } else {
                    assert(t1[i][j] == t2[i][j]);
                    assert(requested(s0, instrument_key(t2[i][j].0)));
                }
            }
        } else {
            assert(t1 == t2);
            assert forall|i: int, j: int|
                0 <= i < ts.len() && ts[i].len() <= j < t1[i].len() implies requested(
                s,
                instrument_key((#[trigger] t1[i][j]).0),
            ) by {
                assert(requested(s0, instrument_key(t2[i][j].0)));
            }
        }
    }
}

/// The least-loaded index is an index of the tables.
proof fn lemma_min_index_bounds(ts: Seq<SubscriptionTable>)
    ensures
        ts.len() >= 1 ==> 0 <= min_index(ts) < ts.len(),
    decreases ts.len(),
{
    if ts.len() > 1 {
        lemma_min_index_bounds(ts.drop_last());
    }
}

/// Filtering a table none of whose entries is requested leaves it as it is.
proof fn lemma_without_untouched(t: SubscriptionTable, s: Seq<Instrument>)
    requires
        forall|j: int| 0 <= j < t.len() ==> !requested(s, instrument_key((#[trigger] t[j]).0)),
    ensures
        without(t, s) == t,
    decreases t.len(),
{
    if t.len() > 0 {
        let t1 = t.drop_last();
        assert forall|j: int| 0 <= j < t1.len() implies !requested(
            s,
            instrument_key((#[trigger] t1[j]).0),
        ) by {
            assert(t1[j] == t[j]);
        }
        lemma_without_untouched(t1, s);
        assert(!requested(s, instrument_key(t[t.len() - 1].0)));
        assert(t1.push(t.last()) =~= t);
    }
}

/// Filtering drops a requested tail: `without(t)` equals `without` of the
/// prefix that precedes it.
proof fn lemma_without_drops_tail(t: SubscriptionTable, s: Seq<Instrument>, m: int)
    requires
        0 <= m <= t.len(),
        forall|j: int| m <= j < t.len() ==> requested(s, instrument_key((#[trigger] t[j]).0)),
    ensures
        without(t, s) == without(t.subrange(0, m), s),
    decreases t.len(),
{
    if t.len() > m {
        let t1 = t.drop_last();
        assert(requested(s, instrument_key(t[t.len() - 1].0)));
        assert forall|j: int| m <= j < t1.len() implies requested(
            s,
            instrument_key((#[trigger] t1[j]).0),
        ) by {
            assert(t1[j] == t[j]);
        }
        lemma_without_drops_tail(t1, s, m);
        assert(t1.subrange(0, m) =~= t.subrange(0, m));
    } else {
        assert(t.subrange(0, m) =~= t);
    }
}

/// Subscribing instruments that no slot holds, then unsubscribing the same
/// instruments, leaves every slot's table exactly as it was before; this holds
/// whether the subscribe succeeded or failed.
pub proof fn lemma_subscribe_then_unsubscribe_restores(
    ts: Seq<SubscriptionTable>,
    s: Seq<Instrument>,
    mode: FeedRequestCode,
    max: nat,
)
    requires
        ts.len() >= 1,
        forall|j: int| 0 <= j < s.len() ==> !tables_have(ts, instrument_key(#[trigger] s[j])),
    ensures
        forall|i: int| 0 <= i < ts.len() ==> without(#[trigger] ts[i], s) == ts[i],
        route(ts, s, mode, max) matches Some(t1) ==> t1.len() == ts.len() && forall|i: int|
            0 <= i < ts.len() ==> without(#[trigger] t1[i], s) == ts[i],
{
    assert forall|i: int| 0 <= i < ts.len() implies without(#[trigger] ts[i], s) == ts[i] by {
        assert forall|x: int| 0 <= x < ts[i].len() implies !requested(
            s,
            instrument_key((#[trigger] ts[i][x]).0),
        ) by {
            if requested(s, instrument_key(ts[i][x].0)) {
                let j = choose|j: int|
                    0 <= j < s.len() && #[trigger] instrument_key(s[j]) == instrument_key(
                        ts[i][x].0,
                    );
                assert(table_has(ts[i], instrument_key(s[j])));
                assert(tables_have(ts, instrument_key(s[j])));
            }
        }
        lemma_without_untouched(ts[i], s);
    }
    if route(ts, s, mode, max) is Some {
        lemma_route_appends(ts, s, mode, max);
        let t1 = route(ts, s, mode, max).unwrap();
        assert forall|i: int| 0 <= i < ts.len() implies without(#[trigger] t1[i], s) == ts[i] by {
            assert(ts[i].len() <= t1[i].len() && t1[i].subrange(0, ts[i].len() as int) == ts[i]);
            lemma_without_drops_tail(t1[i], s, ts[i].len() as int);
            assert(without(ts[i], s) == ts[i]);
        }
    }
}

/// After a routing succeeds, every routed instrument is held by some table.
proof fn lemma_route_holds_all(
    ts: Seq<SubscriptionTable>,
    s: Seq<Instrument>,
    mode: FeedRequestCode,
    max: nat,
)
    requires
        ts.len() >= 1,
        route(ts, s, mode, max) is Some,
    ensures
        forall|j: int|
            0 <= j < s.len() ==> tables_have(
                route(ts, s, mode, max).unwrap(),
                instrument_key(#[trigger] s[j]),
            ),
    decreases s.len(),
{
    if s.len() > 0 {
        let s0 = s.drop_last();
        lemma_route_holds_all(ts, s0, mode, max);
        let t2 = route(ts, s0, mode, max).unwrap();
        let t1 = route(ts, s, mode, max).unwrap();
        let last = s.last();
        if tables_have(t2, instrument_key(last)) {
            assert forall|j: int| 0 <= j < s.len() implies tables_have(
                t1,
                instrument_key(#[trigger] s[j]),
            ) by {
                if j < s0.len() {
                    assert(s[j] == s0[j]);
                }
            }
        } else {
            let b = min_index(t2);
            lemma_min_index_bounds(t2);
            assert(t1 == t2.update(b, t2[b].push((last, mode))));
            assert forall|j: int| 0 <= j < s.len() implies tables_have(
                t1,
                instrument_key(#[trigger] s[j]),
            ) by {
                if j < s0.len() {
                    assert(s[j] == s0[j]);
                    let k = instrument_key(s[j]);
                    assert(tables_have(t2, k));
                    let i = choose|i: int| 0 <= i < t2.len() && #[trigger] table_has(t2[i], k);
                    if i == b {
                        lemma_table_has_push(t2[b], (last, mode), k);
                    }
                    assert(table_has(t1[i], k));
                } else {
                    lemma_table_has_push(t2[b], (last, mode), instrument_key(last));
                    assert(table_has(t1[b], instrument_key(last)));
                }
            }
        }
    }
}

/// Routing instruments that the tables all hold changes nothing.
proof fn lemma_route_of_held(
    ts: Seq<SubscriptionTable>,
    s: Seq<Instrument>,
    mode: FeedRequestCode,
    max: nat,
)
    requires
        forall|j: int| 0 <= j < s.len() ==> tables_have(ts, instrument_key(#[trigger] s[j])),
    ensures
        route(ts, s, mode, max) == Some(ts),
    decreases s.len(),
{
    if s.len() > 0 {
        let s0 = s.drop_last();
        assert forall|j: int| 0 <= j < s0.len() implies tables_have(
            ts,
            instrument_key(#[trigger] s0[j]),
        ) by {
            assert(s0[j] == s[j]);
        }
        lemma_route_of_held(ts, s0, mode, max);
        assert(tables_have(ts, instrument_key(s[s.len() - 1])));
    }
}

/// Subscribing the same instruments twice leaves the tables as subscribing
/// them once: after the first call every instrument is held, so the second
/// assigns nothing; after a failed first call the second fails alike.
pub proof fn lemma_subscribe_idempotent(
    ts: Seq<SubscriptionTable>,
    s: Seq<Instrument>,
    mode: FeedRequestCode,
    max: nat,
)
    requires
        ts.len() >= 1,
    ensures
        ({
            let once = match route(ts, s, mode, max) {
                Some(t) => t,
                None => ts,
            };
            let twice = match route(once, s, mode, max) {
                Some(t) => t,
                None => once,
            };
            twice == once
        }),
{
    if route(ts, s, mode, max) is Some {
        lemma_route_holds_all(ts, s, mode, max);
        lemma_route_of_held(route(ts, s, mode, max).unwrap(), s, mode, max);
    }
}

} // verus!
