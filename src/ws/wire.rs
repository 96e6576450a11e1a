//! JSON text messages of the market feed and order-update WebSockets.
//!
//! Messages are compact JSON objects whose field names the server matches
//! exactly. String values are escaped by `serde_json`; the framing around
//! them is built here.

use vstd::prelude::*;
use crate::error::DhanError;
use crate::ws::market_feed::Instrument;

verus! {

/// Most instruments that one subscribe or unsubscribe message may carry.
pub const CHUNK_SIZE: usize = 100;

/// A lowercase hexadecimal digit.
pub open spec fn hex_digit(d: u32) -> char {
    if d < 10 {
        ('0' as u32 + d) as char
    } else {
        ('a' as u32 + d - 10) as char
    }
}

/// The text that stands for `c` inside a JSON string literal: quote and
/// backslash escaped, the five control characters with a short escape
/// written as such, the other control characters as `\u00xx`, and every
/// other character as itself.
pub open spec fn json_escape(c: char) -> Seq<char> {
    if c == '"' {
        seq!['\\', '"']
    } else if c == '\\' {
        seq!['\\', '\\']
    } else if c == '\u{8}' {
        seq!['\\', 'b']
    } else if c == '\u{c}' {
        seq!['\\', 'f']
    } else if c == '\n' {
        seq!['\\', 'n']
    } else if c == '\r' {
        seq!['\\', 'r']
    } else if c == '\t' {
        seq!['\\', 't']
    } else if (c as u32) < 0x20 {
        seq!['\\', 'u', '0', '0', hex_digit((c as u32) / 16), hex_digit((c as u32) % 16)]
    } else {
        seq![c]
    }
}

/// Each character of `s` escaped for a JSON string literal.
pub open spec fn json_escaped(s: Seq<char>) -> Seq<char>
    decreases s.len(),
{
    if s.len() == 0 {
        Seq::empty()
    } else {
        json_escaped(s.drop_last()) + json_escape(s.last())
    }
}

/// The JSON string literal for `s`, as the compact formatter of `serde_json`
/// writes it.
pub open spec fn json_quoted(s: Seq<char>) -> Seq<char> {
    seq!['"'] + json_escaped(s) + seq!['"']
}

/// Relies on `serde_json::to_string` applied to a `str`: it writes the string
/// literal into a `Vec<u8>`, which cannot fail, escaping through the fixed
/// table of its compact formatter.
#[verifier::external_body]
pub(crate) fn quote_json(s: &str) -> (r: Result<String, serde_json::Error>)
    ensures
        r is Ok,
        r matches Ok(q) ==> q@ == json_quoted(s@),
{
    serde_json::to_string(s)
}

/// The text of one decimal digit.
pub open spec fn digit_text(d: nat) -> Seq<char> {
    if d == 0 {
        "0"@
    } else if d == 1 {
        "1"@
    } else if d == 2 {
        "2"@
    } else if d == 3 {
        "3"@
    } else if d == 4 {
        "4"@
    } else if d == 5 {
        "5"@
    } else if d == 6 {
        "6"@
    } else if d == 7 {
        "7"@
    } else if d == 8 {
        "8"@
    } else {
        "9"@
    }
}

/// The decimal text of `n`, without leading zeros.
pub open spec fn decimal(n: nat) -> Seq<char>
    decreases n,
{
    if n < 10 {
        digit_text(n)
    } else {
        decimal(n / 10) + digit_text(n % 10)
    }
}

fn digit_str(d: usize) -> (r: &'static str)
    requires
        d < 10,
    ensures
        r@ == digit_text(d as nat),
{
    if d == 0 {
        "0"
    } else if d == 1 {
        "1"
    } else if d == 2 {
        "2"
    } else if d == 3 {
        "3"
    } else if d == 4 {
        "4"
    } else if d == 5 {
        "5"
    } else if d == 6 {
        "6"
    } else if d == 7 {
        "7"
    } else if d == 8 {
        "8"
    } else {
        "9"
    }
}

/// Appends the decimal text of `n` to `out`.
pub fn append_decimal(out: &mut String, n: usize)
    ensures
        final(out)@ == old(out)@ + decimal(n as nat),
    decreases n,
{
    if n >= 10 {
        append_decimal(out, n / 10);
    }
    out.append(digit_str(n % 10));
    assert(final(out)@ =~= old(out)@ + decimal(n as nat));
}

/// `{"ExchangeSegment":<segment>,"SecurityId":<id>}`.
pub open spec fn instrument_json(i: Instrument) -> Seq<char> {
    "{\"ExchangeSegment\":"@ + json_quoted(i.ExchangeSegment@) + ",\"SecurityId\":"@
        + json_quoted(i.SecurityId@) + "}"@
}

/// The instruments as JSON objects separated by commas.
pub open spec fn instrument_list_json(s: Seq<Instrument>) -> Seq<char>
    decreases s.len(),
{
    if s.len() == 0 {
        Seq::empty()
    } else if s.len() == 1 {
        instrument_json(s[0])
    } else {
        instrument_list_json(s.drop_last()) + ","@ + instrument_json(s.last())
    }
}

/// `{"RequestCode":<code>,"InstrumentCount":<n>,"InstrumentList":[...]}`.
pub open spec fn subscription_json(code: u8, s: Seq<Instrument>) -> Seq<char> {
    "{\"RequestCode\":"@ + decimal(code as nat) + ",\"InstrumentCount\":"@ + decimal(s.len())
        + ",\"InstrumentList\":["@ + instrument_list_json(s) + "]}"@
}

fn append_instrument(out: &mut String, i: &Instrument) -> (r: Result<(), DhanError>)
    ensures
        r is Ok,
        final(out)@ == old(out)@ + instrument_json(*i),
{
    let seg = match quote_json(i.ExchangeSegment.as_str()) {
        Ok(q) => q,
        Err(e) => {
            return Err(DhanError::Json(e));
        },
    };
    let id = match quote_json(i.SecurityId.as_str()) {
        Ok(q) => q,
        Err(e) => {
            return Err(DhanError::Json(e));
        },
    };
    out.append("{\"ExchangeSegment\":");
    out.append(seg.as_str());
    out.append(",\"SecurityId\":");
    out.append(id.as_str());
    out.append("}");
    assert(final(out)@ =~= old(out)@ + instrument_json(*i));
    Ok(())
}

/// The JSON text of one subscribe or unsubscribe request carrying all of
/// `instruments`.
pub fn subscription_message(code: u8, instruments: &[Instrument]) -> (r: Result<String, DhanError>)
    ensures
        r matches Ok(m) && m@ == subscription_json(code, instruments@),
{
    let mut out = String::new();
    out.append("{\"RequestCode\":");
    append_decimal(&mut out, code as usize);
    out.append(",\"InstrumentCount\":");
    append_decimal(&mut out, instruments.len());
    out.append(",\"InstrumentList\":[");
    let ghost head = out@;
    let mut k: usize = 0;
    while k < instruments.len()
        invariant
            k <= instruments@.len(),
            out@ == head + instrument_list_json(instruments@.subrange(0, k as int)),
        decreases instruments@.len() - k,
    {
        let ghost before = out@;
        if k > 0 {
            out.append(",");
        }
        match append_instrument(&mut out, &instruments[k]) {
            Ok(()) => {},
            Err(e) => {
                return Err(e);
            },
        }
        let ghost s = instruments@.subrange(0, k + 1);
        assert(s.drop_last() =~= instruments@.subrange(0, k as int));
        assert(s.last() == instruments@[k as int]);
        k = k + 1;
        assert(out@ =~= head + instrument_list_json(instruments@.subrange(0, k as int)));
    }
    out.append("]}");
    assert(instruments@.subrange(0, instruments@.len() as int) =~= instruments@);
    assert(out@ =~= subscription_json(code, instruments@));
    Ok(out)
}

/// How many messages `n` instruments take, at most 100 per message.
pub open spec fn chunk_count(n: nat) -> nat {
    ((n + 99) / 100) as nat
}

/// The `j`-th run of at most 100 consecutive instruments of `s`.
pub open spec fn chunk_at<T>(s: Seq<T>, j: int) -> Seq<T> {
    let end = if 100 * j + 100 < s.len() {
        100 * j + 100
    } else {
        s.len() as int
    };
    s.subrange(100 * j, end)
}

/// `frames` are the request messages for `s`, one per run of 100.
pub open spec fn frames_for(code: u8, s: Seq<Instrument>, frames: Seq<String>) -> bool {
    &&& frames.len() == chunk_count(s.len())
    &&& forall|j: int|
        0 <= j < frames.len() ==> #[trigger] frames[j]@ == subscription_json(code, chunk_at(s, j))
}

/// The request messages that subscribe or unsubscribe `instruments` under
/// `code`, split into runs of at most 100 instruments.
pub fn subscription_frames(code: u8, instruments: &[Instrument]) -> (r: Result<
    Vec<String>,
    DhanError,
>)
    ensures
        r matches Ok(frames) && frames_for(code, instruments@, frames@),
{
    let n = instruments.len();
    let mut frames: Vec<String> = Vec::new();
    let mut start: usize = 0;
    while start < n
        invariant
            n == instruments@.len(),
            start <= n,
            start == 100 * frames@.len() || (start == n && n <= 100 * frames@.len() < n + 100),
            start < n ==> start == 100 * frames@.len(),
            forall|j: int|
                0 <= j < frames@.len() ==> #[trigger] frames@[j]@ == subscription_json(
                    code,
                    chunk_at(instruments@, j),
                ),
        decreases n - start,
    {
        let end: usize = if n - start > CHUNK_SIZE {
            start + CHUNK_SIZE
        } else {
            n
        };
        let chunk = &instruments[start..end];
        assert(chunk@ == chunk_at(instruments@, frames@.len() as int));
        let m = match subscription_message(code, chunk) {
            Ok(m) => m,
            Err(e) => {
                return Err(e);
            },
        };
        frames.push(m);
        start = end;
    }
    assert(frames@.len() == chunk_count(n as nat));
    Ok(frames)
}

/// `{"RequestCode":12}`: the request that ends a market feed session.
pub fn disconnect_message() -> (r: String)
    ensures
        r@ == "{\"RequestCode\":"@ + decimal(12) + "}"@,
{
    let mut out = String::new();
    out.append("{\"RequestCode\":");
    append_decimal(&mut out, 12);
    out.append("}");
    out
}

/// The market feed URL, with the credentials as query parameters.
pub open spec fn feed_url_text(client_id: Seq<char>, access_token: Seq<char>) -> Seq<char> {
    crate::constants::WS_MARKET_FEED_URL@ + "?version=2&token="@ + access_token + "&clientId="@
        + client_id + "&authType=2"@
}

/// The market feed URL: `wss://<host>?version=2&token=<t>&clientId=<id>&authType=2`.
pub fn feed_url(client_id: &str, access_token: &str) -> (r: String)
    ensures
        r@ == feed_url_text(client_id@, access_token@),
{
    let mut out = String::from_str(crate::constants::WS_MARKET_FEED_URL);
    out.append("?version=2&token=");
    out.append(access_token);
    out.append("&clientId=");
    out.append(client_id);
    out.append("&authType=2");
    out
}

} // verus!
