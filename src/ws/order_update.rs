//! Authentication messages of the order-update WebSocket.
//!
//! After connecting, the client sends one login message: individual users
//! identify with their client id and token, partners with their partner id
//! and secret.

use vstd::prelude::*;
use crate::error::DhanError;
use crate::ws::wire::{append_decimal, decimal, json_quoted, quote_json};

verus! {

/// Message code of the login request.
pub const LOGIN_MSG_CODE: usize = 42;

/// `{"LoginReq":{"MsgCode":42,"ClientId":<id>,"Token":<token>},"UserType":"SELF"}`.
pub open spec fn individual_auth_json(client_id: Seq<char>, token: Seq<char>) -> Seq<char> {
    "{\"LoginReq\":{\"MsgCode\":"@ + decimal(42) + ",\"ClientId\":"@ + json_quoted(client_id)
        + ",\"Token\":"@ + json_quoted(token) + "},\"UserType\":\"SELF\"}"@
}

/// `{"LoginReq":{"MsgCode":42,"ClientId":<id>},"UserType":"PARTNER","Secret":<secret>}`.
pub open spec fn partner_auth_json(partner_id: Seq<char>, secret: Seq<char>) -> Seq<char> {
    "{\"LoginReq\":{\"MsgCode\":"@ + decimal(42) + ",\"ClientId\":"@ + json_quoted(partner_id)
        + "},\"UserType\":\"PARTNER\",\"Secret\":"@ + json_quoted(secret) + "}"@
}

/// The login message of an individual user.
pub fn individual_auth_message(client_id: &str, access_token: &str) -> (r: Result<
    String,
    DhanError,
>)
    ensures
        r matches Ok(m) && m@ == individual_auth_json(client_id@, access_token@),
{
    let id = match quote_json(client_id) {
        Ok(q) => q,
        Err(e) => {
            return Err(DhanError::Json(e));
        },
    };
    let token = match quote_json(access_token) {
        Ok(q) => q,
        Err(e) => {
            return Err(DhanError::Json(e));
        },
    };
    let mut out = String::new();
    out.append("{\"LoginReq\":{\"MsgCode\":");
    append_decimal(&mut out, LOGIN_MSG_CODE);
    out.append(",\"ClientId\":");
    out.append(id.as_str());
    out.append(",\"Token\":");
    out.append(token.as_str());
    out.append("},\"UserType\":\"SELF\"}");
    assert(out@ =~= individual_auth_json(client_id@, access_token@));
    Ok(out)
}

/// The login message of a partner platform.
pub fn partner_auth_message(partner_id: &str, partner_secret: &str) -> (r: Result<
    String,
    DhanError,
>)
    ensures
        r matches Ok(m) && m@ == partner_auth_json(partner_id@, partner_secret@),
{
    let id = match quote_json(partner_id) {
        Ok(q) => q,
        Err(e) => {
            return Err(DhanError::Json(e));
        },
    };
    let secret = match quote_json(partner_secret) {
        Ok(q) => q,
        Err(e) => {
            return Err(DhanError::Json(e));
        },
    };
    let mut out = String::new();
    out.append("{\"LoginReq\":{\"MsgCode\":");
    append_decimal(&mut out, LOGIN_MSG_CODE);
    out.append(",\"ClientId\":");
    out.append(id.as_str());
    out.append("},\"UserType\":\"PARTNER\",\"Secret\":");
    out.append(secret.as_str());
    out.append("}");
    assert(out@ =~= partner_auth_json(partner_id@, partner_secret@));
    Ok(out)
}

} // verus!
