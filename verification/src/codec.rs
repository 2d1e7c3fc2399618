//! The binary codec for the message schema.
//!
//! Encoding is deterministic: an enum value is its variant's zero-based
//! declaration index as a compact variable-length integer, followed by the
//! variant's fields in declaration order; a struct is its fields in
//! declaration order with no tags; no type information is embedded. Decoding
//! is type-directed and total: it returns a value of the requested type or a
//! [`DecodeError`], and the top-level entry points reject buffers with
//! unconsumed trailing bytes.

use vstd::prelude::*;
use crate::DecodeError;
use crate::messages::{
    ControllerToSessionCommand, GameToControllerEvent, GameToSessionMessage,
    SessionToControllerEvent, SessionToGameEvent, SessionToGameEventView, Team,
};
use crate::wire::{
    read_tag, read_u16, read_u32, read_string, spec_read_string, spec_read_tag, spec_read_u16,
    spec_read_u32, spec_string_enc, spec_u16_le, spec_u32_le, write_string, write_u16, write_u32,
};

verus! {

broadcast use vstd::seq_lib::group_seq_lib_default, vstd::seq::group_seq_axioms;

/// The bytes of a [`Team`] value.
pub open spec fn spec_enc_team(t: Team) -> Seq<u8> {
    match t {
        Team::Blue => seq![0u8],
        Team::Red => seq![1u8],
    }
}

/// Parse a [`Team`] value.
pub open spec fn spec_read_team(bytes: Seq<u8>, pos: int) -> Result<(Team, int), DecodeError> {
    match spec_read_tag(bytes, pos) {
        Ok((t, p)) => if t == 0 {
            Ok((Team::Blue, p))
        } else if t == 1 {
            Ok((Team::Red, p))
        } else {
            Err(DecodeError::InvalidDiscriminant)
        },
        Err(e) => Err(e),
    }
}

/// Append the encoding of a [`Team`] value.
pub fn write_team(out: &mut Vec<u8>, t: &Team)
    ensures
        final(out)@ == old(out)@ + spec_enc_team(*t),
{
    match t {
        Team::Blue => out.push(0u8),
        Team::Red => out.push(1u8),
    }
    assert(out@ =~= old(out)@ + spec_enc_team(*t));
}

/// Read a [`Team`] value.
pub fn read_team(bytes: &[u8], pos: usize) -> (r: Result<(Team, usize), DecodeError>)
    requires
        pos <= bytes@.len(),
    ensures
        (match (r, spec_read_team(bytes@, pos as int)) {
            (Ok((v, end)), Ok((sv, se))) => v == sv && end as int == se,
            (Err(a), Err(b)) => a == b,
            _ => false,
        }),
        r matches Ok((v, end)) ==> pos < end <= bytes@.len(),
{
    let (t, p): (u64, usize) = match read_tag(bytes, pos) {
        Ok(v) => v,
        Err(e) => {
            return Err(e);
        },
    };
    if t == 0 {
        Ok((Team::Blue, p))
    } else if t == 1 {
        Ok((Team::Red, p))
    } else {
        Err(DecodeError::InvalidDiscriminant)
    }
}

/// The bytes of a [`ControllerToSessionCommand`]: `Action1` is tag 0 alone,
/// `Move` is tag 1 followed by the two little-endian 32-bit coordinates.
pub open spec fn spec_enc_cmd(c: ControllerToSessionCommand) -> Seq<u8> {
    match c {
        ControllerToSessionCommand::Action1 => seq![0u8],
        ControllerToSessionCommand::Move { x, y } => seq![1u8] + spec_u32_le(x) + spec_u32_le(y),
    }
}

/// Parse a [`ControllerToSessionCommand`].
pub open spec fn spec_read_cmd(bytes: Seq<u8>, pos: int) -> Result<
    (ControllerToSessionCommand, int),
    DecodeError,
> {
    match spec_read_tag(bytes, pos) {
        Ok((t, p)) => if t == 0 {
            Ok((ControllerToSessionCommand::Action1, p))
        } else if t == 1 {
            match spec_read_u32(bytes, p) {
                Ok((x, px)) => match spec_read_u32(bytes, px) {
                    Ok((y, py)) => Ok((ControllerToSessionCommand::Move { x, y }, py)),
                    Err(e) => Err(e),
                },
                Err(e) => Err(e),
            }
        } else {
            Err(DecodeError::InvalidDiscriminant)
        },
        Err(e) => Err(e),
    }
}

/// Append the encoding of a [`ControllerToSessionCommand`].
pub fn write_cmd(out: &mut Vec<u8>, c: &ControllerToSessionCommand)
    ensures
        final(out)@ == old(out)@ + spec_enc_cmd(*c),
{
    match c {
        ControllerToSessionCommand::Action1 => {
            out.push(0u8);
        },
        ControllerToSessionCommand::Move { x, y } => {
            out.push(1u8);
            write_u32(out, *x);
            write_u32(out, *y);
        },
    }
    assert(out@ =~= old(out)@ + spec_enc_cmd(*c));
}

/// Read a [`ControllerToSessionCommand`].
pub fn read_cmd(bytes: &[u8], pos: usize) -> (r: Result<
    (ControllerToSessionCommand, usize),
    DecodeError,
>)
    requires
        pos <= bytes@.len(),
    ensures
        (match (r, spec_read_cmd(bytes@, pos as int)) {
            (Ok((v, end)), Ok((sv, se))) => v == sv && end as int == se,
            (Err(a), Err(b)) => a == b,
            _ => false,
        }),
        r matches Ok((v, end)) ==> pos < end <= bytes@.len(),
{
    let (t, p): (u64, usize) = match read_tag(bytes, pos) {
        Ok(v) => v,
        Err(e) => {
            return Err(e);
        },
    };
    if t == 0 {
        Ok((ControllerToSessionCommand::Action1, p))
    } else if t == 1 {
        let (x, px): (u32, usize) = match read_u32(bytes, p) {
            Ok(v) => v,
            Err(e) => {
                return Err(e);
            },
        };
        let (y, py): (u32, usize) = match read_u32(bytes, px) {
            Ok(v) => v,
            Err(e) => {
                return Err(e);
            },
        };
        Ok((ControllerToSessionCommand::Move { x, y }, py))
    } else {
        Err(DecodeError::InvalidDiscriminant)
    }
}

/// The bytes of a [`GameToControllerEvent`].
pub open spec fn spec_enc_g2c(e: GameToControllerEvent) -> Seq<u8> {
    match e {
        GameToControllerEvent::Action2 => seq![0u8],
        GameToControllerEvent::Event1 => seq![1u8],
        GameToControllerEvent::IncreaseScore(t) => seq![2u8] + spec_enc_team(t),
    }
}

/// Parse a [`GameToControllerEvent`].
pub open spec fn spec_read_g2c(bytes: Seq<u8>, pos: int) -> Result<
    (GameToControllerEvent, int),
    DecodeError,
> {
    match spec_read_tag(bytes, pos) {
        Ok((t, p)) => if t == 0 {
            Ok((GameToControllerEvent::Action2, p))
        } else if t == 1 {
            Ok((GameToControllerEvent::Event1, p))
        } else if t == 2 {
            match spec_read_team(bytes, p) {
                Ok((team, pt)) => Ok((GameToControllerEvent::IncreaseScore(team), pt)),
                Err(e) => Err(e),
            }
        } else {
            Err(DecodeError::InvalidDiscriminant)
        },
        Err(e) => Err(e),
    }
}

/// Append the encoding of a [`GameToControllerEvent`].
pub fn write_g2c(out: &mut Vec<u8>, e: &GameToControllerEvent)
    ensures
        final(out)@ == old(out)@ + spec_enc_g2c(*e),
{
    match e {
        GameToControllerEvent::Action2 => {
            out.push(0u8);
        },
        GameToControllerEvent::Event1 => {
            out.push(1u8);
        },
        GameToControllerEvent::IncreaseScore(t) => {
            out.push(2u8);
            write_team(out, t);
        },
    }
    assert(out@ =~= old(out)@ + spec_enc_g2c(*e));
}

/// Read a [`GameToControllerEvent`].
pub fn read_g2c(bytes: &[u8], pos: usize) -> (r: Result<
    (GameToControllerEvent, usize),
    DecodeError,
>)
    requires
        pos <= bytes@.len(),
    ensures
        (match (r, spec_read_g2c(bytes@, pos as int)) {
            (Ok((v, end)), Ok((sv, se))) => v == sv && end as int == se,
            (Err(a), Err(b)) => a == b,
            _ => false,
        }),
        r matches Ok((v, end)) ==> pos < end <= bytes@.len(),
{
    let (t, p): (u64, usize) = match read_tag(bytes, pos) {
        Ok(v) => v,
        Err(e) => {
            return Err(e);
        },
    };
    if t == 0 {
        Ok((GameToControllerEvent::Action2, p))
    } else if t == 1 {
        Ok((GameToControllerEvent::Event1, p))
    } else if t == 2 {
        let (team, pt): (Team, usize) = match read_team(bytes, p) {
            Ok(v) => v,
            Err(e) => {
                return Err(e);
            },
        };
        Ok((GameToControllerEvent::IncreaseScore(team), pt))
    } else {
        Err(DecodeError::InvalidDiscriminant)
    }
}

/// The bytes of a [`SessionToControllerEvent`] over [`GameToControllerEvent`].
pub open spec fn spec_enc_s2c(e: SessionToControllerEvent<GameToControllerEvent>) -> Seq<u8> {
    match e {
        SessionToControllerEvent::SetPushInterval(ms) => seq![0u8] + spec_u32_le(ms),
        SessionToControllerEvent::GameToControllerEvent(ev) => seq![1u8] + spec_enc_g2c(ev),
    }
}

/// Parse a [`SessionToControllerEvent`] over [`GameToControllerEvent`].
pub open spec fn spec_read_s2c(bytes: Seq<u8>, pos: int) -> Result<
    (SessionToControllerEvent<GameToControllerEvent>, int),
    DecodeError,
> {
    match spec_read_tag(bytes, pos) {
        Ok((t, p)) => if t == 0 {
            match spec_read_u32(bytes, p) {
                Ok((ms, pm)) => Ok((SessionToControllerEvent::SetPushInterval(ms), pm)),
                Err(e) => Err(e),
            }
        } else if t == 1 {
            match spec_read_g2c(bytes, p) {
                Ok((ev, pe)) => Ok((SessionToControllerEvent::GameToControllerEvent(ev), pe)),
                Err(e) => Err(e),
            }
        } else {
            Err(DecodeError::InvalidDiscriminant)
        },
        Err(e) => Err(e),
    }
}

/// Append the encoding of a [`SessionToControllerEvent`].
pub fn write_s2c(out: &mut Vec<u8>, e: &SessionToControllerEvent<GameToControllerEvent>)
    ensures
        final(out)@ == old(out)@ + spec_enc_s2c(*e),
{
    match e {
        SessionToControllerEvent::SetPushInterval(ms) => {
            out.push(0u8);
            write_u32(out, *ms);
        },
        SessionToControllerEvent::GameToControllerEvent(ev) => {
            out.push(1u8);
            write_g2c(out, ev);
        },
    }
    assert(out@ =~= old(out)@ + spec_enc_s2c(*e));
}

/// Read a [`SessionToControllerEvent`] over [`GameToControllerEvent`].
pub fn read_s2c(bytes: &[u8], pos: usize) -> (r: Result<
    (SessionToControllerEvent<GameToControllerEvent>, usize),
    DecodeError,
>)
    requires
        pos <= bytes@.len(),
    ensures
        (match (r, spec_read_s2c(bytes@, pos as int)) {
            (Ok((v, end)), Ok((sv, se))) => v == sv && end as int == se,
            (Err(a), Err(b)) => a == b,
            _ => false,
        }),
        r matches Ok((v, end)) ==> pos < end <= bytes@.len(),
{
    let (t, p): (u64, usize) = match read_tag(bytes, pos) {
        Ok(v) => v,
        Err(e) => {
            return Err(e);
        },
    };
    if t == 0 {
        let (ms, pm): (u32, usize) = match read_u32(bytes, p) {
            Ok(v) => v,
            Err(e) => {
                return Err(e);
            },
        };
        Ok((SessionToControllerEvent::SetPushInterval(ms), pm))
    } else if t == 1 {
        let (ev, pe): (GameToControllerEvent, usize) = match read_g2c(bytes, p) {
            Ok(v) => v,
            Err(e) => {
                return Err(e);
            },
        };
        Ok((SessionToControllerEvent::GameToControllerEvent(ev), pe))
    } else {
        Err(DecodeError::InvalidDiscriminant)
    }
}

/// The bytes of a [`SessionToGameEvent`] over [`ControllerToSessionCommand`],
/// stated on its mathematical view.
pub open spec fn spec_enc_s2g(m: SessionToGameEventView) -> Seq<u8> {
    match m {
        SessionToGameEventView::SetId(s) => seq![0u8] + spec_string_enc(s),
        SessionToGameEventView::NewPlayer(id) => seq![1u8] + spec_u16_le(id),
        SessionToGameEventView::PlayerLeft(id) => seq![2u8] + spec_u16_le(id),
        SessionToGameEventView::ControllerCommand { id, command } => seq![3u8] + spec_u16_le(id)
            + spec_enc_cmd(command),
    }
}

/// Parse a [`SessionToGameEvent`] over [`ControllerToSessionCommand`].
pub open spec fn spec_read_s2g(bytes: Seq<u8>, pos: int) -> Result<
    (SessionToGameEventView, int),
    DecodeError,
> {
    match spec_read_tag(bytes, pos) {
        Ok((t, p)) => if t == 0 {
            match spec_read_string(bytes, p) {
                Ok((s, ps)) => Ok((SessionToGameEventView::SetId(s), ps)),
                Err(e) => Err(e),
            }
        } else if t == 1 {
            match spec_read_u16(bytes, p) {
                Ok((id, pi)) => Ok((SessionToGameEventView::NewPlayer(id), pi)),
                Err(e) => Err(e),
            }
        } else if t == 2 {
            match spec_read_u16(bytes, p) {
                Ok((id, pi)) => Ok((SessionToGameEventView::PlayerLeft(id), pi)),
                Err(e) => Err(e),
            }
        } else if t == 3 {
            match spec_read_u16(bytes, p) {
                Ok((id, pi)) => match spec_read_cmd(bytes, pi) {
                    Ok((command, pc)) => Ok(
                        (SessionToGameEventView::ControllerCommand { id, command }, pc),
                    ),
                    Err(e) => Err(e),
                },
                Err(e) => Err(e),
            }
        } else {
            Err(DecodeError::InvalidDiscriminant)
        },
        Err(e) => Err(e),
    }
}

/// Append the encoding of a [`SessionToGameEvent`].
pub fn write_s2g(out: &mut Vec<u8>, m: &SessionToGameEvent<ControllerToSessionCommand>)
    ensures
        final(out)@ == old(out)@ + spec_enc_s2g(m@),
{
    match m {
        SessionToGameEvent::SetId(s) => {
            out.push(0u8);
            write_string(out, s.as_str());
        },
        SessionToGameEvent::NewPlayer(id) => {
            out.push(1u8);
            write_u16(out, *id);
        },
        SessionToGameEvent::PlayerLeft(id) => {
            out.push(2u8);
            write_u16(out, *id);
        },
        SessionToGameEvent::ControllerCommand { id, command } => {
            out.push(3u8);
            write_u16(out, *id);
            write_cmd(out, command);
        },
    }
    assert(out@ =~= old(out)@ + spec_enc_s2g(m@));
}

/// Read a [`SessionToGameEvent`] over [`ControllerToSessionCommand`].
pub fn read_s2g(bytes: &[u8], pos: usize) -> (r: Result<
    (SessionToGameEvent<ControllerToSessionCommand>, usize),
    DecodeError,
>)
    requires
        pos <= bytes@.len(),
    ensures
        (match (r, spec_read_s2g(bytes@, pos as int)) {
            (Ok((v, end)), Ok((sv, se))) => v@ == sv && end as int == se,
            (Err(a), Err(b)) => a == b,
            _ => false,
        }),
        r matches Ok((v, end)) ==> pos < end <= bytes@.len(),
{
    let (t, p): (u64, usize) = match read_tag(bytes, pos) {
        Ok(v) => v,
        Err(e) => {
            return Err(e);
        },
    };
    if t == 0 {
        let (s, ps): (String, usize) = match read_string(bytes, p) {
            Ok(v) => v,
            Err(e) => {
                return Err(e);
            },
        };
        proof {
            crate::wire::lemma_read_varint_from_bound(bytes@, p as int, 0);
        }
        Ok((SessionToGameEvent::SetId(s), ps))
    } else if t == 1 {
        let (id, pi): (u16, usize) = match read_u16(bytes, p) {
            Ok(v) => v,
            Err(e) => {
                return Err(e);
            },
        };
        Ok((SessionToGameEvent::NewPlayer(id), pi))
    } else if t == 2 {
        let (id, pi): (u16, usize) = match read_u16(bytes, p) {
            Ok(v) => v,
            Err(e) => {
                return Err(e);
            },
        };
        Ok((SessionToGameEvent::PlayerLeft(id), pi))
    } else if t == 3 {
        let (id, pi): (u16, usize) = match read_u16(bytes, p) {
            Ok(v) => v,
            Err(e) => {
                return Err(e);
            },
        };
        let (command, pc): (ControllerToSessionCommand, usize) = match read_cmd(bytes, pi) {
            Ok(v) => v,
            Err(e) => {
                return Err(e);
            },
        };
        Ok((SessionToGameEvent::ControllerCommand { id, command }, pc))
    } else {
        Err(DecodeError::InvalidDiscriminant)
    }
}

/// The bytes of a [`GameToSessionMessage`] over [`GameToControllerEvent`]:
/// the controller id, then the event, with no tags around the struct.
pub open spec fn spec_enc_g2s(m: GameToSessionMessage<GameToControllerEvent>) -> Seq<u8> {
    spec_u16_le(m.id) + spec_enc_g2c(m.event)
}

/// Parse a [`GameToSessionMessage`] over [`GameToControllerEvent`].
pub open spec fn spec_read_g2s(bytes: Seq<u8>, pos: int) -> Result<
    (GameToSessionMessage<GameToControllerEvent>, int),
    DecodeError,
> {
    match spec_read_u16(bytes, pos) {
        Ok((id, pi)) => match spec_read_g2c(bytes, pi) {
            Ok((event, pe)) => Ok((GameToSessionMessage { id, event }, pe)),
            Err(e) => Err(e),
        },
        Err(e) => Err(e),
    }
}

/// Append the encoding of a [`GameToSessionMessage`].
pub fn write_g2s(out: &mut Vec<u8>, m: &GameToSessionMessage<GameToControllerEvent>)
    ensures
        final(out)@ == old(out)@ + spec_enc_g2s(*m),
{
    write_u16(out, m.id);
    write_g2c(out, &m.event);
    assert(out@ =~= old(out)@ + spec_enc_g2s(*m));
}

/// Read a [`GameToSessionMessage`] over [`GameToControllerEvent`].
pub fn read_g2s(bytes: &[u8], pos: usize) -> (r: Result<
    (GameToSessionMessage<GameToControllerEvent>, usize),
    DecodeError,
>)
    requires
        pos <= bytes@.len(),
    ensures
        (match (r, spec_read_g2s(bytes@, pos as int)) {
            (Ok((v, end)), Ok((sv, se))) => v == sv && end as int == se,
            (Err(a), Err(b)) => a == b,
            _ => false,
        }),
        r matches Ok((v, end)) ==> pos < end <= bytes@.len(),
{
    let (id, pi): (u16, usize) = match read_u16(bytes, pos) {
        Ok(v) => v,
        Err(e) => {
            return Err(e);
        },
    };
    let (event, pe): (GameToControllerEvent, usize) = match read_g2c(bytes, pi) {
        Ok(v) => v,
        Err(e) => {
            return Err(e);
        },
    };
    Ok((GameToSessionMessage { id, event }, pe))
}

} // verus!
