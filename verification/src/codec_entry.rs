//! Top-level encode and decode entry points of the binary codec.
//!
//! Decoding here is strict: a buffer must parse as exactly one value of the
//! requested type; bytes left over after the value are rejected as
//! [`DecodeError::TrailingBytes`]. This strictness applies only at these
//! entry points, not to nested fields.

use vstd::prelude::*;
use crate::DecodeError;
use crate::messages::{
    ControllerToSessionCommand, GameToControllerEvent, GameToSessionMessage,
    SessionToControllerEvent, SessionToGameEvent, SessionToGameEventView, Team,
};
use crate::codec::{
    read_cmd, read_g2c, read_g2s, read_s2c, read_s2g, read_team, spec_enc_cmd, spec_enc_g2c,
    spec_enc_g2s, spec_enc_s2c, spec_enc_s2g, spec_enc_team, spec_read_cmd, spec_read_g2c,
    spec_read_g2s, spec_read_s2c, spec_read_s2g, spec_read_team, write_cmd, write_g2c, write_g2s,
    write_s2c, write_s2g, write_team,
};

verus! {

/// Decode a whole buffer as one [`Team`] value.
pub open spec fn spec_decode_team(bytes: Seq<u8>) -> Result<Team, DecodeError> {
    match spec_read_team(bytes, 0) {
        Ok((v, end)) => if end == bytes.len() {
            Ok(v)
        } else {
            Err(DecodeError::TrailingBytes)
        },
        Err(e) => Err(e),
    }
}

/// Encode a [`Team`] value.
pub fn encode_team(t: &Team) -> (r: Vec<u8>)
    ensures
        r@ == spec_enc_team(*t),
{
    let mut out: Vec<u8> = Vec::new();
    write_team(&mut out, t);
    out
}

/// Decode a whole buffer as one [`Team`] value.
pub fn decode_team(bytes: &[u8]) -> (r: Result<Team, DecodeError>)
    ensures
        r == spec_decode_team(bytes@),
{
    match read_team(bytes, 0) {
        Ok((v, end)) => if end == bytes.len() {
            Ok(v)
        } else {
            Err(DecodeError::TrailingBytes)
        },
        Err(e) => Err(e),
    }
}

/// Decode a whole buffer as one [`ControllerToSessionCommand`].
pub open spec fn spec_decode_cmd(bytes: Seq<u8>) -> Result<
    ControllerToSessionCommand,
    DecodeError,
> {
    match spec_read_cmd(bytes, 0) {
        Ok((v, end)) => if end == bytes.len() {
            Ok(v)
        } else {
            Err(DecodeError::TrailingBytes)
        },
        Err(e) => Err(e),
    }
}

/// Encode a [`ControllerToSessionCommand`].
pub fn encode_cmd(c: &ControllerToSessionCommand) -> (r: Vec<u8>)
    ensures
        r@ == spec_enc_cmd(*c),
{
    let mut out: Vec<u8> = Vec::new();
    write_cmd(&mut out, c);
    out
}

/// Decode a whole buffer as one [`ControllerToSessionCommand`].
pub fn decode_cmd(bytes: &[u8]) -> (r: Result<ControllerToSessionCommand, DecodeError>)
    ensures
        r == spec_decode_cmd(bytes@),
{
    match read_cmd(bytes, 0) {
        Ok((v, end)) => if end == bytes.len() {
            Ok(v)
        } else {
            Err(DecodeError::TrailingBytes)
        },
        Err(e) => Err(e),
    }
}

/// Decode a whole buffer as one [`GameToControllerEvent`].
pub open spec fn spec_decode_g2c(bytes: Seq<u8>) -> Result<GameToControllerEvent, DecodeError> {
    match spec_read_g2c(bytes, 0) {
        Ok((v, end)) => if end == bytes.len() {
            Ok(v)
        } else {
            Err(DecodeError::TrailingBytes)
        },
        Err(e) => Err(e),
    }
}

/// Encode a [`GameToControllerEvent`].
pub fn encode_g2c(e: &GameToControllerEvent) -> (r: Vec<u8>)
    ensures
        r@ == spec_enc_g2c(*e),
{
    let mut out: Vec<u8> = Vec::new();
    write_g2c(&mut out, e);
    out
}

/// Decode a whole buffer as one [`GameToControllerEvent`].
pub fn decode_g2c(bytes: &[u8]) -> (r: Result<GameToControllerEvent, DecodeError>)
    ensures
        r == spec_decode_g2c(bytes@),
{
    match read_g2c(bytes, 0) {
        Ok((v, end)) => if end == bytes.len() {
            Ok(v)
        } else {
            Err(DecodeError::TrailingBytes)
        },
        Err(e) => Err(e),
    }
}

/// Decode a whole buffer as one [`SessionToControllerEvent`].
pub open spec fn spec_decode_s2c(bytes: Seq<u8>) -> Result<
    SessionToControllerEvent<GameToControllerEvent>,
    DecodeError,
> {
    match spec_read_s2c(bytes, 0) {
        Ok((v, end)) => if end == bytes.len() {
            Ok(v)
        } else {
            Err(DecodeError::TrailingBytes)
        },
        Err(e) => Err(e),
    }
}

/// Encode a [`SessionToControllerEvent`].
pub fn encode_s2c(e: &SessionToControllerEvent<GameToControllerEvent>) -> (r: Vec<u8>)
    ensures
        r@ == spec_enc_s2c(*e),
{
    let mut out: Vec<u8> = Vec::new();
    write_s2c(&mut out, e);
    out
}

/// Decode a whole buffer as one [`SessionToControllerEvent`].
pub fn decode_s2c(bytes: &[u8]) -> (r: Result<
    SessionToControllerEvent<GameToControllerEvent>,
    DecodeError,
>)
    ensures
        r == spec_decode_s2c(bytes@),
{
    match read_s2c(bytes, 0) {
        Ok((v, end)) => if end == bytes.len() {
            Ok(v)
        } else {
            Err(DecodeError::TrailingBytes)
        },
        Err(e) => Err(e),
    }
}

/// Decode a whole buffer as one [`SessionToGameEvent`].
pub open spec fn spec_decode_s2g(bytes: Seq<u8>) -> Result<SessionToGameEventView, DecodeError> {
    match spec_read_s2g(bytes, 0) {
        Ok((v, end)) => if end == bytes.len() {
            Ok(v)
        } else {
            Err(DecodeError::TrailingBytes)
        },
        Err(e) => Err(e),
    }
}

/// Encode a [`SessionToGameEvent`].
pub fn encode_s2g(m: &SessionToGameEvent<ControllerToSessionCommand>) -> (r: Vec<u8>)
    ensures
        r@ == spec_enc_s2g(m@),
{
    let mut out: Vec<u8> = Vec::new();
    write_s2g(&mut out, m);
    out
}

/// Decode a whole buffer as one [`SessionToGameEvent`].
pub fn decode_s2g(bytes: &[u8]) -> (r: Result<
    SessionToGameEvent<ControllerToSessionCommand>,
    DecodeError,
>)
    ensures
        (match (r, spec_decode_s2g(bytes@)) {
            (Ok(v), Ok(sv)) => v@ == sv,
            (Err(a), Err(b)) => a == b,
            _ => false,
        }),
{
    match read_s2g(bytes, 0) {
        Ok((v, end)) => if end == bytes.len() {
            Ok(v)
        } else {
            Err(DecodeError::TrailingBytes)
        },
        Err(e) => Err(e),
    }
}

/// Decode a whole buffer as one [`GameToSessionMessage`].
pub open spec fn spec_decode_g2s(bytes: Seq<u8>) -> Result<
    GameToSessionMessage<GameToControllerEvent>,
    DecodeError,
> {
    match spec_read_g2s(bytes, 0) {
        Ok((v, end)) => if end == bytes.len() {
            Ok(v)
        } else {
            Err(DecodeError::TrailingBytes)
        },
        Err(e) => Err(e),
    }
}

/// Encode a [`GameToSessionMessage`].
pub fn encode_g2s(m: &GameToSessionMessage<GameToControllerEvent>) -> (r: Vec<u8>)
    ensures
        r@ == spec_enc_g2s(*m),
{
    let mut out: Vec<u8> = Vec::new();
    write_g2s(&mut out, m);
    out
}

/// Decode a whole buffer as one [`GameToSessionMessage`].
pub fn decode_g2s(bytes: &[u8]) -> (r: Result<
    GameToSessionMessage<GameToControllerEvent>,
    DecodeError,
>)
    ensures
        r == spec_decode_g2s(bytes@),
{
    match read_g2s(bytes, 0) {
        Ok((v, end)) => if end == bytes.len() {
            Ok(v)
        } else {
            Err(DecodeError::TrailingBytes)
        },
        Err(e) => Err(e),
    }
}

} // verus!
