//! Enumerations shared across the DhanHQ API, with the numeric codes that the
//! binary market feed and its JSON requests use.

use vstd::prelude::*;

verus! {

/// Exchange and segment identifier used across all DhanHQ APIs.
#[allow(non_camel_case_types)]
#[derive(Debug, Clone, Copy, PartialEq, Eq, Hash)]
pub enum ExchangeSegment {
    /// Index value (segment code 0).
    IDX_I,
    /// NSE equity cash (segment code 1).
    NSE_EQ,
    /// NSE futures and options (segment code 2).
    NSE_FNO,
    /// NSE currency (segment code 3).
    NSE_CURRENCY,
    /// BSE equity cash (segment code 4).
    BSE_EQ,
    /// MCX commodity (segment code 5).
    MCX_COMM,
    /// BSE currency (segment code 7).
    BSE_CURRENCY,
    /// BSE futures and options (segment code 8).
    BSE_FNO,
}

/// The numeric code of a segment in binary packet headers.
pub open spec fn segment_code_of(s: ExchangeSegment) -> u8 {
    match s {
        ExchangeSegment::IDX_I => 0,
        ExchangeSegment::NSE_EQ => 1,
        ExchangeSegment::NSE_FNO => 2,
        ExchangeSegment::NSE_CURRENCY => 3,
        ExchangeSegment::BSE_EQ => 4,
        ExchangeSegment::MCX_COMM => 5,
        ExchangeSegment::BSE_CURRENCY => 7,
        ExchangeSegment::BSE_FNO => 8,
    }
}

/// The segment that a header byte names, if any.
pub open spec fn segment_of_code(code: u8) -> Option<ExchangeSegment> {
    if code == 0 {
        Some(ExchangeSegment::IDX_I)
    } else if code == 1 {
        Some(ExchangeSegment::NSE_EQ)
    } else if code == 2 {
        Some(ExchangeSegment::NSE_FNO)
    } else if code == 3 {
        Some(ExchangeSegment::NSE_CURRENCY)
    } else if code == 4 {
        Some(ExchangeSegment::BSE_EQ)
    } else if code == 5 {
        Some(ExchangeSegment::MCX_COMM)
    } else if code == 7 {
        Some(ExchangeSegment::BSE_CURRENCY)
    } else if code == 8 {
        Some(ExchangeSegment::BSE_FNO)
    } else {
        None
    }
}

impl ExchangeSegment {
    /// Returns the numeric segment code used in binary WebSocket packets.
    pub fn segment_code(self) -> (r: u8)
        ensures
            r == segment_code_of(self),
            segment_of_code(r) == Some(self),
    {
        match self {
            ExchangeSegment::IDX_I => 0,
            ExchangeSegment::NSE_EQ => 1,
            ExchangeSegment::NSE_FNO => 2,
            ExchangeSegment::NSE_CURRENCY => 3,
            ExchangeSegment::BSE_EQ => 4,
            ExchangeSegment::MCX_COMM => 5,
            ExchangeSegment::BSE_CURRENCY => 7,
            ExchangeSegment::BSE_FNO => 8,
        }
    }

    /// Construct from a numeric segment code (as found in binary feed packets).
    pub fn from_segment_code(code: u8) -> (r: Option<ExchangeSegment>)
        ensures
            r == segment_of_code(code),
            r matches Some(s) ==> segment_code_of(s) == code,
    {
        match code {
            0 => Some(ExchangeSegment::IDX_I),
            1 => Some(ExchangeSegment::NSE_EQ),
            2 => Some(ExchangeSegment::NSE_FNO),
            3 => Some(ExchangeSegment::NSE_CURRENCY),
            4 => Some(ExchangeSegment::BSE_EQ),
            5 => Some(ExchangeSegment::MCX_COMM),
            7 => Some(ExchangeSegment::BSE_CURRENCY),
            8 => Some(ExchangeSegment::BSE_FNO),
            _ => None,
        }
    }
}

/// Request codes sent over the market feed WebSocket.
#[derive(Debug, Clone, Copy, PartialEq, Eq, Hash, Structural)]
pub enum FeedRequestCode {
    /// Connect to feed (code 11).
    Connect,
    /// Disconnect from feed (code 12).
    Disconnect,
    /// Subscribe to Ticker packets (code 15).
    SubscribeTicker,
    /// Unsubscribe from Ticker packets (code 16).
    UnsubscribeTicker,
    /// Subscribe to Quote packets (code 17).
    SubscribeQuote,
    /// Unsubscribe from Quote packets (code 18).
    UnsubscribeQuote,
    /// Subscribe to Full packets (code 21).
    SubscribeFull,
    /// Unsubscribe from Full packets (code 22).
    UnsubscribeFull,
    /// Subscribe to full market depth (code 23).
    SubscribeFullMarketDepth,
    /// Unsubscribe from full market depth (code 24).
    UnsubscribeFullMarketDepth,
}

/// The wire value of a request code.
pub open spec fn request_code_of(m: FeedRequestCode) -> u8 {
    match m {
        FeedRequestCode::Connect => 11,
        FeedRequestCode::Disconnect => 12,
        FeedRequestCode::SubscribeTicker => 15,
        FeedRequestCode::UnsubscribeTicker => 16,
        FeedRequestCode::SubscribeQuote => 17,
        FeedRequestCode::UnsubscribeQuote => 18,
        FeedRequestCode::SubscribeFull => 21,
        FeedRequestCode::UnsubscribeFull => 22,
        FeedRequestCode::SubscribeFullMarketDepth => 23,
        FeedRequestCode::UnsubscribeFullMarketDepth => 24,
    }
}

impl FeedRequestCode {
    /// The numeric value of this request code in JSON requests.
    pub fn code(self) -> (r: u8)
        ensures
            r == request_code_of(self),
    {
        match self {
            FeedRequestCode::Connect => 11,
            FeedRequestCode::Disconnect => 12,
            FeedRequestCode::SubscribeTicker => 15,
            FeedRequestCode::UnsubscribeTicker => 16,
            FeedRequestCode::SubscribeQuote => 17,
            FeedRequestCode::UnsubscribeQuote => 18,
            FeedRequestCode::SubscribeFull => 21,
            FeedRequestCode::UnsubscribeFull => 22,
            FeedRequestCode::SubscribeFullMarketDepth => 23,
            FeedRequestCode::UnsubscribeFullMarketDepth => 24,
        }
    }
}

/// Response codes received in binary market feed packets.
#[derive(Debug, Clone, Copy, PartialEq, Eq, Hash)]
pub enum FeedResponseCode {
    /// Index packet (code 1).
    Index,
    /// Ticker packet, last price and time (code 2).
    Ticker,
    /// Quote packet (code 4).
    Quote,
    /// Open interest packet (code 5).
    OI,
    /// Previous close packet (code 6).
    PrevClose,
    /// Market status packet (code 7).
    MarketStatus,
    /// Full packet, quote with open interest and depth (code 8).
    Full,
    /// Server disconnect packet (code 50).
    Disconnect,
}

/// The response code that a packet's first byte names, if any.
pub open spec fn response_of_byte(b: u8) -> Option<FeedResponseCode> {
    if b == 1 {
        Some(FeedResponseCode::Index)
    } else if b == 2 {
        Some(FeedResponseCode::Ticker)
    } else if b == 4 {
        Some(FeedResponseCode::Quote)
    } else if b == 5 {
        Some(FeedResponseCode::OI)
    } else if b == 6 {
        Some(FeedResponseCode::PrevClose)
    } else if b == 7 {
        Some(FeedResponseCode::MarketStatus)
    } else if b == 8 {
        Some(FeedResponseCode::Full)
    } else if b == 50 {
        Some(FeedResponseCode::Disconnect)
    } else {
        None
    }
}

/// The byte that stands for a response code.
pub open spec fn response_code_byte(c: FeedResponseCode) -> u8 {
    match c {
        FeedResponseCode::Index => 1,
        FeedResponseCode::Ticker => 2,
        FeedResponseCode::Quote => 4,
        FeedResponseCode::OI => 5,
        FeedResponseCode::PrevClose => 6,
        FeedResponseCode::MarketStatus => 7,
        FeedResponseCode::Full => 8,
        FeedResponseCode::Disconnect => 50,
    }
}

impl FeedResponseCode {
    /// Parse a response code from the first byte of a binary packet header.
    pub fn from_byte(b: u8) -> (r: Option<FeedResponseCode>)
        ensures
            r == response_of_byte(b),
            r matches Some(c) ==> response_code_byte(c) == b,
    {
        match b {
            1 => Some(FeedResponseCode::Index),
            2 => Some(FeedResponseCode::Ticker),
            4 => Some(FeedResponseCode::Quote),
            5 => Some(FeedResponseCode::OI),
            6 => Some(FeedResponseCode::PrevClose),
            7 => Some(FeedResponseCode::MarketStatus),
            8 => Some(FeedResponseCode::Full),
            50 => Some(FeedResponseCode::Disconnect),
            _ => None,
        }
    }
}

/// Buy or sell side of a transaction.
#[allow(non_camel_case_types)]
#[derive(Debug, Clone, Copy, PartialEq, Eq, Hash)]
pub enum TransactionType {
    BUY,
    SELL,
}

/// Product type of an order.
#[allow(non_camel_case_types)]
#[derive(Debug, Clone, Copy, PartialEq, Eq, Hash)]
pub enum ProductType {
    CNC,
    INTRADAY,
    MARGIN,
    MTF,
    CO,
    BO,
}

/// Order type.
#[allow(non_camel_case_types)]
#[derive(Debug, Clone, Copy, PartialEq, Eq, Hash)]
pub enum OrderType {
    LIMIT,
    MARKET,
    STOP_LOSS,
    STOP_LOSS_MARKET,
}

/// Lifecycle status of an order.
#[allow(non_camel_case_types)]
#[derive(Debug, Clone, Copy, PartialEq, Eq, Hash)]
pub enum OrderStatus {
    TRANSIT,
    PENDING,
    CLOSED,
    TRIGGERED,
    REJECTED,
    CANCELLED,
    PART_TRADED,
    TRADED,
    EXPIRED,
    CONFIRM,
}

/// Validity of an order.
#[allow(non_camel_case_types)]
#[derive(Debug, Clone, Copy, PartialEq, Eq, Hash)]
pub enum Validity {
    DAY,
    IOC,
}

/// Leg of a super or bracket order.
#[allow(non_camel_case_types)]
#[derive(Debug, Clone, Copy, PartialEq, Eq, Hash)]
pub enum LegName {
    ENTRY_LEG,
    TARGET_LEG,
    STOP_LOSS_LEG,
}

/// Direction of a position.
#[allow(non_camel_case_types)]
#[derive(Debug, Clone, Copy, PartialEq, Eq, Hash)]
pub enum PositionType {
    LONG,
    SHORT,
    CLOSED,
}

/// Call or put.
#[allow(non_camel_case_types)]
#[derive(Debug, Clone, Copy, PartialEq, Eq, Hash)]
pub enum OptionType {
    CALL,
    PUT,
}

/// Timing of an after-market order.
#[allow(non_camel_case_types)]
#[derive(Debug, Clone, Copy, PartialEq, Eq, Hash)]
pub enum AmoTime {
    PRE_OPEN,
    OPEN,
    OPEN_30,
    OPEN_60,
}

/// Instrument class of a security.
#[allow(non_camel_case_types)]
#[derive(Debug, Clone, Copy, PartialEq, Eq, Hash)]
pub enum Instrument {
    INDEX,
    FUTIDX,
    OPTIDX,
    EQUITY,
    FUTSTK,
    OPTSTK,
    FUTCOM,
    OPTFUT,
    FUTCUR,
    OPTCUR,
}

/// Expiry selector of a derivative contract.
#[allow(non_camel_case_types)]
#[derive(Debug, Clone, Copy, PartialEq, Eq, Hash)]
pub enum ExpiryCode {
    Near,
    Next,
    Far,
}

/// Kind of a forever order.
#[allow(non_camel_case_types)]
#[derive(Debug, Clone, Copy, PartialEq, Eq, Hash)]
pub enum OrderFlag {
    SINGLE,
    OCO,
}

/// State of the account kill switch.
#[allow(non_camel_case_types)]
#[derive(Debug, Clone, Copy, PartialEq, Eq, Hash)]
pub enum KillSwitchStatus {
    ACTIVATE,
    DEACTIVATE,
}

/// Primary or secondary static IP.
#[allow(non_camel_case_types)]
#[derive(Debug, Clone, Copy, PartialEq, Eq, Hash)]
pub enum IpFlag {
    PRIMARY,
    SECONDARY,
}

/// How a conditional trigger is evaluated.
#[allow(non_camel_case_types)]
#[derive(Debug, Clone, Copy, PartialEq, Eq, Hash)]
pub enum ComparisonType {
    TECHNICAL_WITH_VALUE,
    TECHNICAL_WITH_INDICATOR,
    TECHNICAL_WITH_CLOSE,
    LIVE_SCAN_ALERT,
    PRICE_WITH_VALUE,
    PRICE_WITH_PERCENT_CHANGE,
}

/// Technical indicator of a conditional trigger.
#[allow(non_camel_case_types)]
#[derive(Debug, Clone, Copy, PartialEq, Eq, Hash)]
pub enum IndicatorName {
    SMA_5,
    SMA_10,
    SMA_20,
    SMA_50,
    SMA_100,
    SMA_200,
    EMA_5,
    EMA_10,
    EMA_20,
    EMA_50,
    EMA_100,
    EMA_200,
    BB_UPPER,
    BB_LOWER,
    RSI_14,
    ATR_14,
    STOCHASTIC,
    STOCHRSI_14,
    MACD_26,
    MACD_12,
    MACD_HIST,
}

/// Comparison operator of a conditional trigger.
#[allow(non_camel_case_types)]
#[derive(Debug, Clone, Copy, PartialEq, Eq, Hash)]
pub enum Operator {
    CROSSING_UP,
    CROSSING_DOWN,
    CROSSING_ANY_SIDE,
    GREATER_THAN,
    LESS_THAN,
    GREATER_THAN_EQUAL,
    LESS_THAN_EQUAL,
    EQUAL,
    NOT_EQUAL,
}

/// Status of a conditional alert.
#[allow(non_camel_case_types)]
#[derive(Debug, Clone, Copy, PartialEq, Eq, Hash)]
pub enum AlertStatus {
    ACTIVE,
    TRIGGERED,
    EXPIRED,
    CANCELLED,
}

} // verus!
