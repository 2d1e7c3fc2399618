//! Boundary adapter: translation between typed schema values and a
//! dynamically typed value representation consumable outside the
//! strongly-typed boundary.
//!
//! The mapping is structural: a unit enum variant becomes its name as text;
//! a variant with a payload becomes an object with a single field, named
//! after the variant, holding the payload; a struct payload becomes an
//! object with one field per struct field. Numbers keep their kind: an
//! unsigned integer field crosses as an unsigned integer, a 32-bit float
//! field crosses as the bit pattern of a 32-bit float, with no implicit
//! widening or narrowing. Translation failures are typed errors, never
//! crashes.

use vstd::prelude::*;
use crate::DecodeError;
use crate::messages::{ControllerToSessionCommand, GameToControllerEvent, SessionToControllerEvent, Team};
use crate::codec::spec_enc_cmd;
use crate::codec_entry::{decode_s2c, encode_cmd, spec_decode_s2c};

verus! {

/// A dynamically typed value: text, an unsigned integer, the bit pattern of
/// a 32-bit float, or an object of named fields.
#[derive(Debug)]
pub enum DynamicValue {
    Text(String),
    UInt(u64),
    Float32(u32),
    Object(Vec<(String, DynamicValue)>),
}

/// Why a boundary translation failed: the bytes did not decode, or the
/// dynamic value does not structurally match any known variant shape.
#[derive(Debug, Clone, Copy, PartialEq, Eq, Structural)]
pub enum AdapterError {
    Decode(DecodeError),
    SchemaMismatch,
}

/// The name a [`Team`] value crosses the boundary under.
pub open spec fn team_name(t: Team) -> Seq<char> {
    match t {
        Team::Blue => "Blue"@,
        Team::Red => "Red"@,
    }
}

/// The dynamic shape of a [`Team`] value.
pub open spec fn dyn_is_team(d: DynamicValue, t: Team) -> bool {
    d matches DynamicValue::Text(s) && s@ == team_name(t)
}

/// The dynamic shape of a [`GameToControllerEvent`].
pub open spec fn dyn_is_g2c(d: DynamicValue, e: GameToControllerEvent) -> bool {
    match e {
        GameToControllerEvent::Action2 => d matches DynamicValue::Text(s) && s@ == "Action2"@,
        GameToControllerEvent::Event1 => d matches DynamicValue::Text(s) && s@ == "Event1"@,
        GameToControllerEvent::IncreaseScore(t) => d matches DynamicValue::Object(fields)
            && fields@.len() == 1 && fields@[0].0@ == "IncreaseScore"@ && dyn_is_team(
            fields@[0].1,
            t,
        ),
    }
}

/// The dynamic shape of a [`SessionToControllerEvent`].
pub open spec fn dyn_is_s2c(
    d: DynamicValue,
    e: SessionToControllerEvent<GameToControllerEvent>,
) -> bool {
    match e {
        SessionToControllerEvent::SetPushInterval(ms) => d matches DynamicValue::Object(fields)
            && fields@.len() == 1 && fields@[0].0@ == "SetPushInterval"@ && (fields@[0].1 matches
        DynamicValue::UInt(n) && n == ms as u64),
        SessionToControllerEvent::GameToControllerEvent(ev) => d matches DynamicValue::Object(
            fields,
        ) && fields@.len() == 1 && fields@[0].0@ == "GameToControllerEvent"@ && dyn_is_g2c(
            fields@[0].1,
            ev,
        ),
    }
}

/// The [`Team`] value a dynamic value stands for, if any.
pub open spec fn spec_team_from_dyn(d: DynamicValue) -> Option<Team> {
    match d {
        DynamicValue::Text(s) => if s@ == "Blue"@ {
            Some(Team::Blue)
        } else if s@ == "Red"@ {
            Some(Team::Red)
        } else {
            None
        },
        _ => None,
    }
}

/// The [`GameToControllerEvent`] a dynamic value stands for, if any.
pub open spec fn spec_g2c_from_dyn(d: DynamicValue) -> Option<GameToControllerEvent> {
    match d {
        DynamicValue::Text(s) => if s@ == "Action2"@ {
            Some(GameToControllerEvent::Action2)
        } else if s@ == "Event1"@ {
            Some(GameToControllerEvent::Event1)
        } else {
            None
        },
        DynamicValue::Object(fields) => if fields@.len() == 1 && fields@[0].0@
            == "IncreaseScore"@ {
            match spec_team_from_dyn(fields@[0].1) {
                Some(t) => Some(GameToControllerEvent::IncreaseScore(t)),
                None => None,
            }
        } else {
            None
        },
        _ => None,
    }
}

/// The [`SessionToControllerEvent`] a dynamic value stands for, if any.
pub open spec fn spec_s2c_from_dyn(d: DynamicValue) -> Option<
    SessionToControllerEvent<GameToControllerEvent>,
> {
    match d {
        DynamicValue::Object(fields) => if fields@.len() == 1 && fields@[0].0@
            == "SetPushInterval"@ {
            match fields@[0].1 {
                DynamicValue::UInt(n) => if n <= u32::MAX {
                    Some(SessionToControllerEvent::SetPushInterval(n as u32))
                } else {
                    None
                },
                _ => None,
            }
        } else if fields@.len() == 1 && fields@[0].0@ == "GameToControllerEvent"@ {
            match spec_g2c_from_dyn(fields@[0].1) {
                Some(ev) => Some(SessionToControllerEvent::GameToControllerEvent(ev)),
                None => None,
            }
        } else {
            None
        },
        _ => None,
    }
}

/// The [`ControllerToSessionCommand`] a dynamic value stands for, if any:
/// `Action1` as its bare name, `Move` as an object with a single `Move`
/// field holding an object of the two float coordinates `x` and `y`, in
/// either order.
pub open spec fn spec_cmd_from_dyn(d: DynamicValue) -> Option<ControllerToSessionCommand> {
    match d {
        DynamicValue::Text(s) => if s@ == "Action1"@ {
            Some(ControllerToSessionCommand::Action1)
        } else {
            None
        },
        DynamicValue::Object(fields) => if fields@.len() == 1 && fields@[0].0@ == "Move"@ {
            match fields@[0].1 {
                DynamicValue::Object(mf) => if mf@.len() == 2 {
                    match (mf@[0].1, mf@[1].1) {
                        (DynamicValue::Float32(a), DynamicValue::Float32(b)) => if mf@[0].0@
                            == "x"@ && mf@[1].0@ == "y"@ {
                            Some(ControllerToSessionCommand::Move { x: a, y: b })
                        } else if mf@[0].0@ == "y"@ && mf@[1].0@ == "x"@ {
                            Some(ControllerToSessionCommand::Move { x: b, y: a })
                        } else {
                            None
                        },
                        _ => None,
                    }
                } else {
                    None
                },
                _ => None,
            }
        } else {
            None
        },
        _ => None,
    }
}

/// Whether a string holds exactly the given text.
fn string_is(s: &String, lit: &str) -> (r: bool)
    ensures
        r == (s@ == lit@),
{
    s.eq(&lit.to_owned())
}

/// Convert a [`Team`] value to its dynamic shape.
pub fn team_to_dynamic(t: &Team) -> (r: DynamicValue)
    ensures
        dyn_is_team(r, *t),
{
    match t {
        Team::Blue => DynamicValue::Text("Blue".to_owned()),
        Team::Red => DynamicValue::Text("Red".to_owned()),
    }
}

/// Convert a [`GameToControllerEvent`] to its dynamic shape.
pub fn g2c_to_dynamic(e: &GameToControllerEvent) -> (r: DynamicValue)
    ensures
        dyn_is_g2c(r, *e),
{
    match e {
        GameToControllerEvent::Action2 => DynamicValue::Text("Action2".to_owned()),
        GameToControllerEvent::Event1 => DynamicValue::Text("Event1".to_owned()),
        GameToControllerEvent::IncreaseScore(t) => {
            let mut fields: Vec<(String, DynamicValue)> = Vec::new();
            fields.push(("IncreaseScore".to_owned(), team_to_dynamic(t)));
            DynamicValue::Object(fields)
        },
    }
}

/// Convert a [`SessionToControllerEvent`] to its dynamic shape.
pub fn s2c_to_dynamic(e: &SessionToControllerEvent<GameToControllerEvent>) -> (r: DynamicValue)
    ensures
        dyn_is_s2c(r, *e),
{
    match e {
        SessionToControllerEvent::SetPushInterval(ms) => {
            let mut fields: Vec<(String, DynamicValue)> = Vec::new();
            fields.push(("SetPushInterval".to_owned(), DynamicValue::UInt(*ms as u64)));
            DynamicValue::Object(fields)
        },
        SessionToControllerEvent::GameToControllerEvent(ev) => {
            let mut fields: Vec<(String, DynamicValue)> = Vec::new();
            fields.push(("GameToControllerEvent".to_owned(), g2c_to_dynamic(ev)));
            DynamicValue::Object(fields)
        },
    }
}

/// Match a dynamic value against the shapes of [`Team`].
pub fn team_from_dynamic(d: &DynamicValue) -> (r: Result<Team, AdapterError>)
    ensures
        (match (r, spec_team_from_dyn(*d)) {
            (Ok(v), Some(sv)) => v == sv,
            (Err(e), None) => e == AdapterError::SchemaMismatch,
            _ => false,
        }),
{
    match d {
        DynamicValue::Text(s) => if string_is(s, "Blue") {
            Ok(Team::Blue)
        } else if string_is(s, "Red") {
            Ok(Team::Red)
        } else {
            Err(AdapterError::SchemaMismatch)
        },
        _ => Err(AdapterError::SchemaMismatch),
    }
}

/// Match a dynamic value against the shapes of [`GameToControllerEvent`].
pub fn g2c_from_dynamic(d: &DynamicValue) -> (r: Result<GameToControllerEvent, AdapterError>)
    ensures
        (match (r, spec_g2c_from_dyn(*d)) {
            (Ok(v), Some(sv)) => v == sv,
            (Err(e), None) => e == AdapterError::SchemaMismatch,
            _ => false,
        }),
{
    match d {
        DynamicValue::Text(s) => if string_is(s, "Action2") {
            Ok(GameToControllerEvent::Action2)
        } else if string_is(s, "Event1") {
            Ok(GameToControllerEvent::Event1)
        } else {
            Err(AdapterError::SchemaMismatch)
        },
        DynamicValue::Object(fields) => {
            if fields.len() == 1 && string_is(&fields[0].0, "IncreaseScore") {
                match team_from_dynamic(&fields[0].1) {
                    Ok(t) => Ok(GameToControllerEvent::IncreaseScore(t)),
                    Err(e) => Err(e),
                }
            } else {
                Err(AdapterError::SchemaMismatch)
            }
        },
        _ => Err(AdapterError::SchemaMismatch),
    }
}

/// Match a dynamic value against the shapes of [`SessionToControllerEvent`].
pub fn s2c_from_dynamic(d: &DynamicValue) -> (r: Result<
    SessionToControllerEvent<GameToControllerEvent>,
    AdapterError,
>)
    ensures
        (match (r, spec_s2c_from_dyn(*d)) {
            (Ok(v), Some(sv)) => v == sv,
            (Err(e), None) => e == AdapterError::SchemaMismatch,
            _ => false,
        }),
{
    match d {
        DynamicValue::Object(fields) => {
            if fields.len() == 1 && string_is(&fields[0].0, "SetPushInterval") {
                match &fields[0].1 {
                    DynamicValue::UInt(n) => if *n <= 0xffff_ffff {
                        Ok(SessionToControllerEvent::SetPushInterval(*n as u32))
                    } else {
                        Err(AdapterError::SchemaMismatch)
                    },
                    _ => Err(AdapterError::SchemaMismatch),
                }
            } else if fields.len() == 1 && string_is(&fields[0].0, "GameToControllerEvent") {
                match g2c_from_dynamic(&fields[0].1) {
                    Ok(ev) => Ok(SessionToControllerEvent::GameToControllerEvent(ev)),
                    Err(e) => Err(e),
                }
            } else {
                Err(AdapterError::SchemaMismatch)
            }
        },
        _ => Err(AdapterError::SchemaMismatch),
    }
}

/// Match a dynamic value against the shapes of [`ControllerToSessionCommand`].
pub fn cmd_from_dynamic(d: &DynamicValue) -> (r: Result<
    ControllerToSessionCommand,
    AdapterError,
>)
    ensures
        (match (r, spec_cmd_from_dyn(*d)) {
            (Ok(v), Some(sv)) => v == sv,
            (Err(e), None) => e == AdapterError::SchemaMismatch,
            _ => false,
        }),
{
    match d {
        DynamicValue::Text(s) => if string_is(s, "Action1") {
            Ok(ControllerToSessionCommand::Action1)
        } else {
            Err(AdapterError::SchemaMismatch)
        },
        DynamicValue::Object(fields) => {
            if fields.len() == 1 && string_is(&fields[0].0, "Move") {
                match &fields[0].1 {
                    DynamicValue::Object(mf) => {
                        if mf.len() == 2 {
                            match (&mf[0].1, &mf[1].1) {
                                (DynamicValue::Float32(a), DynamicValue::Float32(b)) => {
                                    if string_is(&mf[0].0, "x") && string_is(&mf[1].0, "y") {
                                        Ok(ControllerToSessionCommand::Move { x: *a, y: *b })
                                    } else if string_is(&mf[0].0, "y") && string_is(&mf[1].0, "x") {
                                        Ok(ControllerToSessionCommand::Move { x: *b, y: *a })
                                    } else {
                                        Err(AdapterError::SchemaMismatch)
                                    }
                                },
                                _ => Err(AdapterError::SchemaMismatch),
                            }
                        } else {
                            Err(AdapterError::SchemaMismatch)
                        }
                    },
                    _ => Err(AdapterError::SchemaMismatch),
                }
            } else {
                Err(AdapterError::SchemaMismatch)
            }
        },
        _ => Err(AdapterError::SchemaMismatch),
    }
}

/// Decode a session-to-controller event from its wire bytes and expose it as
/// a dynamic value; a codec failure surfaces as [`AdapterError::Decode`]
/// with the decode error inside.
pub fn decode_and_expose(bytes: &[u8]) -> (r: Result<DynamicValue, AdapterError>)
    ensures
        (match (r, spec_decode_s2c(bytes@)) {
            (Ok(d), Ok(e)) => dyn_is_s2c(d, e),
            (Err(a), Err(b)) => a == AdapterError::Decode(b),
            _ => false,
        }),
{
    match decode_s2c(bytes) {
        Ok(e) => Ok(s2c_to_dynamic(&e)),
        Err(er) => Err(AdapterError::Decode(er)),
    }
}

/// Match a dynamic value against the command shapes and encode it to wire
/// bytes; a value of no known shape surfaces as
/// [`AdapterError::SchemaMismatch`].
pub fn accept_and_encode(d: &DynamicValue) -> (r: Result<Vec<u8>, AdapterError>)
    ensures
        (match (r, spec_cmd_from_dyn(*d)) {
            (Ok(b), Some(c)) => b@ == spec_enc_cmd(c),
            (Err(e), None) => e == AdapterError::SchemaMismatch,
            _ => false,
        }),
{
    match cmd_from_dynamic(d) {
        Ok(c) => Ok(encode_cmd(&c)),
        Err(e) => Err(e),
    }
}

/// Cross-boundary round trip for [`Team`]: the dynamic shape of a team
/// value maps back to that value.
pub proof fn lemma_dyn_team_round_trip(d: DynamicValue, t: Team)
    requires
        dyn_is_team(d, t),
    ensures
        spec_team_from_dyn(d) == Some(t),
{
    reveal_strlit("Blue");
    reveal_strlit("Red");
    assert(("Blue"@).len() == 4);
    assert(("Red"@).len() == 3);
    assert("Blue"@ != "Red"@);
}

/// Cross-boundary round trip for [`GameToControllerEvent`].
pub proof fn lemma_dyn_g2c_round_trip(d: DynamicValue, e: GameToControllerEvent)
    requires
        dyn_is_g2c(d, e),
    ensures
        spec_g2c_from_dyn(d) == Some(e),
{
    reveal_strlit("Action2");
    reveal_strlit("Event1");
    assert(("Action2"@).len() == 7);
    assert(("Event1"@).len() == 6);
    assert("Action2"@ != "Event1"@);
    match e {
        GameToControllerEvent::IncreaseScore(t) => {
            let fields = d->Object_0;
            lemma_dyn_team_round_trip(fields@[0].1, t);
        },
        _ => {},
    }
}

/// Cross-boundary round trip for [`SessionToControllerEvent`]: a decoded
/// event exposed as a dynamic value converts back to the same typed event.
pub proof fn lemma_dyn_s2c_round_trip(
    d: DynamicValue,
    e: SessionToControllerEvent<GameToControllerEvent>,
)
    requires
        dyn_is_s2c(d, e),
    ensures
        spec_s2c_from_dyn(d) == Some(e),
{
    reveal_strlit("SetPushInterval");
    reveal_strlit("GameToControllerEvent");
    assert(("SetPushInterval"@).len() == 15);
    assert(("GameToControllerEvent"@).len() == 21);
    assert("SetPushInterval"@ != "GameToControllerEvent"@);
    match e {
        SessionToControllerEvent::GameToControllerEvent(ev) => {
            let fields = d->Object_0;
            lemma_dyn_g2c_round_trip(fields@[0].1, ev);
        },
        _ => {},
    }
}

} // verus!
