//! The laws of the binary codec: round trip, determinism, tag stability,
//! truncation detection and invalid-tag rejection, for every message shape.

use vstd::prelude::*;
use crate::DecodeError;
use crate::messages::{
    ControllerToSessionCommand, GameToControllerEvent, GameToSessionMessage,
    SessionToControllerEvent, SessionToGameEventView, Team,
};
use crate::codec::{
    spec_enc_cmd, spec_enc_g2c, spec_enc_g2s, spec_enc_s2c, spec_enc_s2g, spec_enc_team,
    spec_read_cmd, spec_read_g2c, spec_read_g2s, spec_read_s2c, spec_read_s2g, spec_read_team,
};
use crate::codec_entry::{
    spec_decode_cmd, spec_decode_g2c, spec_decode_g2s, spec_decode_s2c, spec_decode_s2g,
    spec_decode_team,
};
use crate::wire::{
    lemma_read_string_at, lemma_read_string_take, lemma_read_u16_at, lemma_read_u16_take,
    lemma_read_u32_at, lemma_read_u32_take, lemma_read_varint_at, lemma_read_varint_from_bound,
    lemma_read_varint_take, lemma_subrange_of_matching, spec_read_tag, spec_read_varint,
    spec_string_enc, spec_u16_le, spec_u32_le, spec_varint,
};

verus! {

broadcast use vstd::seq_lib::group_seq_lib_default, vstd::seq::group_seq_axioms;

/// A single byte below 128 placed at `pos` parses as that discriminant.
proof fn lemma_read_tag_at(bytes: Seq<u8>, pos: int, tag: nat)
    requires
        tag < 128,
        0 <= pos,
        pos + 1 <= bytes.len(),
        bytes[pos] == tag as u8,
    ensures
        spec_read_tag(bytes, pos) == Ok::<(nat, int), DecodeError>((tag, pos + 1)),
{
    assert(spec_varint(tag) =~= seq![tag as u8]);
    assert(bytes.subrange(pos, pos + 1) =~= spec_varint(tag));
    lemma_read_varint_at(bytes, pos, tag);
}

/// The first byte of an encoding laid down at `pos` stands at `pos`.
proof fn lemma_first_byte(bytes: Seq<u8>, pos: int, enc: Seq<u8>)
    requires
        0 <= pos,
        enc.len() > 0,
        pos + enc.len() <= bytes.len(),
        bytes.subrange(pos, pos + enc.len() as int) == enc,
    ensures
        bytes[pos] == enc[0],
{
    assert(bytes.subrange(pos, pos + enc.len() as int)[0] == enc[0]);
}

/// A successful [`Team`] parse consumes at least one byte and stays in the
/// buffer.
proof fn lemma_read_team_bound(bytes: Seq<u8>, pos: int)
    requires
        spec_read_team(bytes, pos) is Ok,
    ensures
        pos < spec_read_team(bytes, pos)->Ok_0.1 <= bytes.len(),
{
    lemma_read_varint_from_bound(bytes, pos, 0);
}

/// A successful string parse consumes at least one byte and stays in the
/// buffer.
proof fn lemma_read_string_bound(bytes: Seq<u8>, pos: int)
    requires
        crate::wire::spec_read_string(bytes, pos) is Ok,
    ensures
        pos < crate::wire::spec_read_string(bytes, pos)->Ok_0.1 <= bytes.len(),
{
    lemma_read_varint_from_bound(bytes, pos, 0);
}

/// A successful command parse consumes at least one byte and stays in the
/// buffer.
proof fn lemma_read_cmd_bound(bytes: Seq<u8>, pos: int)
    requires
        spec_read_cmd(bytes, pos) is Ok,
    ensures
        pos < spec_read_cmd(bytes, pos)->Ok_0.1 <= bytes.len(),
{
    lemma_read_varint_from_bound(bytes, pos, 0);
}

/// A successful game event parse consumes at least one byte and stays in the
/// buffer.
proof fn lemma_read_g2c_bound(bytes: Seq<u8>, pos: int)
    requires
        spec_read_g2c(bytes, pos) is Ok,
    ensures
        pos < spec_read_g2c(bytes, pos)->Ok_0.1 <= bytes.len(),
{
    lemma_read_varint_from_bound(bytes, pos, 0);
    let (t, p) = spec_read_varint(bytes, pos)->Ok_0;
    if t == 2 {
        lemma_read_team_bound(bytes, p);
    }
}

/// Parsing the encoding of a [`Team`] value laid down at `pos` yields it back.
pub proof fn lemma_read_team_at(bytes: Seq<u8>, pos: int, t: Team)
    requires
        0 <= pos,
        pos + spec_enc_team(t).len() <= bytes.len(),
        bytes.subrange(pos, pos + spec_enc_team(t).len() as int) == spec_enc_team(t),
    ensures
        spec_read_team(bytes, pos) == Ok::<(Team, int), DecodeError>(
            (t, pos + spec_enc_team(t).len()),
        ),
{
    lemma_first_byte(bytes, pos, spec_enc_team(t));
    match t {
        Team::Blue => lemma_read_tag_at(bytes, pos, 0),
        Team::Red => lemma_read_tag_at(bytes, pos, 1),
    }
}

/// Truncation behaviour of the [`Team`] parser under a shorter buffer.
pub proof fn lemma_read_team_take(bytes: Seq<u8>, k: int, pos: int)
    requires
        0 <= pos <= k <= bytes.len(),
        spec_read_team(bytes, pos) is Ok,
    ensures
        spec_read_team(bytes, pos)->Ok_0.1 <= k ==> spec_read_team(bytes.take(k), pos)
            == spec_read_team(bytes, pos),
        spec_read_team(bytes, pos)->Ok_0.1 > k ==> spec_read_team(bytes.take(k), pos) == Err::<
            (Team, int),
            DecodeError,
        >(DecodeError::TruncatedInput),
{
    lemma_read_varint_take(bytes, k, pos);
    lemma_read_varint_from_bound(bytes, pos, 0);
}

/// Parsing the encoding of a command laid down at `pos` yields it back.
pub proof fn lemma_read_cmd_at(bytes: Seq<u8>, pos: int, c: ControllerToSessionCommand)
    requires
        0 <= pos,
        pos + spec_enc_cmd(c).len() <= bytes.len(),
        bytes.subrange(pos, pos + spec_enc_cmd(c).len() as int) == spec_enc_cmd(c),
    ensures
        spec_read_cmd(bytes, pos) == Ok::<(ControllerToSessionCommand, int), DecodeError>(
            (c, pos + spec_enc_cmd(c).len()),
        ),
{
    let enc = spec_enc_cmd(c);
    lemma_first_byte(bytes, pos, enc);
    match c {
        ControllerToSessionCommand::Action1 => {
            lemma_read_tag_at(bytes, pos, 0);
        },
        ControllerToSessionCommand::Move { x, y } => {
            assert(enc[0] == 1u8);
            lemma_read_tag_at(bytes, pos, 1);
            lemma_subrange_of_matching(bytes, pos, enc, 1, 5);
            assert(enc.subrange(1, 5) =~= spec_u32_le(x));
            lemma_read_u32_at(bytes, pos + 1, x);
            lemma_subrange_of_matching(bytes, pos, enc, 5, 9);
            assert(enc.subrange(5, 9) =~= spec_u32_le(y));
            lemma_read_u32_at(bytes, pos + 5, y);
        },
    }
}

/// Truncation behaviour of the command parser under a shorter buffer.
pub proof fn lemma_read_cmd_take(bytes: Seq<u8>, k: int, pos: int)
    requires
        0 <= pos <= k <= bytes.len(),
        spec_read_cmd(bytes, pos) is Ok,
    ensures
        spec_read_cmd(bytes, pos)->Ok_0.1 <= k ==> spec_read_cmd(bytes.take(k), pos)
            == spec_read_cmd(bytes, pos),
        spec_read_cmd(bytes, pos)->Ok_0.1 > k ==> spec_read_cmd(bytes.take(k), pos) == Err::<
            (ControllerToSessionCommand, int),
            DecodeError,
        >(DecodeError::TruncatedInput),
{
    lemma_read_varint_take(bytes, k, pos);
    lemma_read_varint_from_bound(bytes, pos, 0);
    let (t, p) = spec_read_varint(bytes, pos)->Ok_0;
    if p <= k && t == 1 {
        lemma_read_u32_take(bytes, k, p);
        if p + 4 <= k {
            lemma_read_u32_take(bytes, k, p + 4);
        }
    }
}

/// Parsing the encoding of a game event laid down at `pos` yields it back.
pub proof fn lemma_read_g2c_at(bytes: Seq<u8>, pos: int, e: GameToControllerEvent)
    requires
        0 <= pos,
        pos + spec_enc_g2c(e).len() <= bytes.len(),
        bytes.subrange(pos, pos + spec_enc_g2c(e).len() as int) == spec_enc_g2c(e),
    ensures
        spec_read_g2c(bytes, pos) == Ok::<(GameToControllerEvent, int), DecodeError>(
            (e, pos + spec_enc_g2c(e).len()),
        ),
{
    let enc = spec_enc_g2c(e);
    lemma_first_byte(bytes, pos, enc);
    match e {
        GameToControllerEvent::Action2 => {
            lemma_read_tag_at(bytes, pos, 0);
        },
        GameToControllerEvent::Event1 => {
            lemma_read_tag_at(bytes, pos, 1);
        },
        GameToControllerEvent::IncreaseScore(t) => {
            assert(enc[0] == 2u8);
            lemma_read_tag_at(bytes, pos, 2);
            lemma_subrange_of_matching(bytes, pos, enc, 1, enc.len() as int);
            assert(enc.subrange(1, enc.len() as int) =~= spec_enc_team(t));
            lemma_read_team_at(bytes, pos + 1, t);
        },
    }
}

/// Truncation behaviour of the game event parser under a shorter buffer.
pub proof fn lemma_read_g2c_take(bytes: Seq<u8>, k: int, pos: int)
    requires
        0 <= pos <= k <= bytes.len(),
        spec_read_g2c(bytes, pos) is Ok,
    ensures
        spec_read_g2c(bytes, pos)->Ok_0.1 <= k ==> spec_read_g2c(bytes.take(k), pos)
            == spec_read_g2c(bytes, pos),
        spec_read_g2c(bytes, pos)->Ok_0.1 > k ==> spec_read_g2c(bytes.take(k), pos) == Err::<
            (GameToControllerEvent, int),
            DecodeError,
        >(DecodeError::TruncatedInput),
{
    lemma_read_varint_take(bytes, k, pos);
    lemma_read_varint_from_bound(bytes, pos, 0);
    let (t, p) = spec_read_varint(bytes, pos)->Ok_0;
    if t == 2 {
        lemma_read_team_bound(bytes, p);
        if p <= k {
            lemma_read_team_take(bytes, k, p);
        }
    }
}

/// Parsing the encoding of a session-to-controller event laid down at `pos`
/// yields it back.
pub proof fn lemma_read_s2c_at(
    bytes: Seq<u8>,
    pos: int,
    e: SessionToControllerEvent<GameToControllerEvent>,
)
    requires
        0 <= pos,
        pos + spec_enc_s2c(e).len() <= bytes.len(),
        bytes.subrange(pos, pos + spec_enc_s2c(e).len() as int) == spec_enc_s2c(e),
    ensures
        spec_read_s2c(bytes, pos) == Ok::<
            (SessionToControllerEvent<GameToControllerEvent>, int),
            DecodeError,
        >((e, pos + spec_enc_s2c(e).len())),
{
    let enc = spec_enc_s2c(e);
    lemma_first_byte(bytes, pos, enc);
    match e {
        SessionToControllerEvent::SetPushInterval(ms) => {
            lemma_read_tag_at(bytes, pos, 0);
            lemma_subrange_of_matching(bytes, pos, enc, 1, 5);
            assert(enc.subrange(1, 5) =~= spec_u32_le(ms));
            lemma_read_u32_at(bytes, pos + 1, ms);
        },
        SessionToControllerEvent::GameToControllerEvent(ev) => {
            assert(enc[0] == 1u8);
            lemma_read_tag_at(bytes, pos, 1);
            lemma_subrange_of_matching(bytes, pos, enc, 1, enc.len() as int);
            assert(enc.subrange(1, enc.len() as int) =~= spec_enc_g2c(ev));
            lemma_read_g2c_at(bytes, pos + 1, ev);
        },
    }
}

/// Truncation behaviour of the session-to-controller parser under a shorter
/// buffer.
pub proof fn lemma_read_s2c_take(bytes: Seq<u8>, k: int, pos: int)
    requires
        0 <= pos <= k <= bytes.len(),
        spec_read_s2c(bytes, pos) is Ok,
    ensures
        spec_read_s2c(bytes, pos)->Ok_0.1 <= k ==> spec_read_s2c(bytes.take(k), pos)
            == spec_read_s2c(bytes, pos),
        spec_read_s2c(bytes, pos)->Ok_0.1 > k ==> spec_read_s2c(bytes.take(k), pos) == Err::<
            (SessionToControllerEvent<GameToControllerEvent>, int),
            DecodeError,
        >(DecodeError::TruncatedInput),
{
    lemma_read_varint_take(bytes, k, pos);
    lemma_read_varint_from_bound(bytes, pos, 0);
    let (t, p) = spec_read_varint(bytes, pos)->Ok_0;
    if t == 1 {
        lemma_read_g2c_bound(bytes, p);
    }
    if p <= k {
        if t == 0 {
            lemma_read_u32_take(bytes, k, p);
        } else if t == 1 {
            lemma_read_g2c_take(bytes, k, p);
        }
    }
}

/// Parsing the encoding of a session-to-game event laid down at `pos` yields
/// it back.
pub proof fn lemma_read_s2g_at(bytes: Seq<u8>, pos: int, m: SessionToGameEventView)
    requires
        0 <= pos,
        m matches SessionToGameEventView::SetId(s) ==> vstd::utf8::encode_utf8(s).len()
            < 0x1_0000_0000_0000_0000,
        pos + spec_enc_s2g(m).len() <= bytes.len(),
        bytes.subrange(pos, pos + spec_enc_s2g(m).len() as int) == spec_enc_s2g(m),
    ensures
        spec_read_s2g(bytes, pos) == Ok::<(SessionToGameEventView, int), DecodeError>(
            (m, pos + spec_enc_s2g(m).len()),
        ),
{
    let enc = spec_enc_s2g(m);
    lemma_first_byte(bytes, pos, enc);
    match m {
        SessionToGameEventView::SetId(s) => {
            lemma_read_tag_at(bytes, pos, 0);
            lemma_subrange_of_matching(bytes, pos, enc, 1, enc.len() as int);
            assert(enc.subrange(1, enc.len() as int) =~= spec_string_enc(s));
            lemma_read_string_at(bytes, pos + 1, s);
        },
        SessionToGameEventView::NewPlayer(id) => {
            assert(enc[0] == 1u8);
            lemma_read_tag_at(bytes, pos, 1);
            lemma_subrange_of_matching(bytes, pos, enc, 1, 3);
            assert(enc.subrange(1, 3) =~= spec_u16_le(id));
            lemma_read_u16_at(bytes, pos + 1, id);
        },
        SessionToGameEventView::PlayerLeft(id) => {
            assert(enc[0] == 2u8);
            lemma_read_tag_at(bytes, pos, 2);
            lemma_subrange_of_matching(bytes, pos, enc, 1, 3);
            assert(enc.subrange(1, 3) =~= spec_u16_le(id));
            lemma_read_u16_at(bytes, pos + 1, id);
        },
        SessionToGameEventView::ControllerCommand { id, command } => {
            assert(enc[0] == 3u8);
            lemma_read_tag_at(bytes, pos, 3);
            lemma_subrange_of_matching(bytes, pos, enc, 1, 3);
            assert(enc.subrange(1, 3) =~= spec_u16_le(id));
            lemma_read_u16_at(bytes, pos + 1, id);
            lemma_subrange_of_matching(bytes, pos, enc, 3, enc.len() as int);
            assert(enc.subrange(3, enc.len() as int) =~= spec_enc_cmd(command));
            lemma_read_cmd_at(bytes, pos + 3, command);
        },
    }
}

/// Truncation behaviour of the session-to-game parser under a shorter buffer.
pub proof fn lemma_read_s2g_take(bytes: Seq<u8>, k: int, pos: int)
    requires
        0 <= pos <= k <= bytes.len(),
        spec_read_s2g(bytes, pos) is Ok,
    ensures
        spec_read_s2g(bytes, pos)->Ok_0.1 <= k ==> spec_read_s2g(bytes.take(k), pos)
            == spec_read_s2g(bytes, pos),
        spec_read_s2g(bytes, pos)->Ok_0.1 > k ==> spec_read_s2g(bytes.take(k), pos) == Err::<
            (SessionToGameEventView, int),
            DecodeError,
        >(DecodeError::TruncatedInput),
{
    lemma_read_varint_take(bytes, k, pos);
    lemma_read_varint_from_bound(bytes, pos, 0);
    let (t, p) = spec_read_varint(bytes, pos)->Ok_0;
    if t == 0 {
        lemma_read_string_bound(bytes, p);
    }
    if t == 3 {
        lemma_read_cmd_bound(bytes, p + 2);
    }
    if p <= k {
        if t == 0 {
            lemma_read_string_take(bytes, k, p);
        } else if t == 1 || t == 2 {
            lemma_read_u16_take(bytes, k, p);
        } else if t == 3 {
            lemma_read_u16_take(bytes, k, p);
            if p + 2 <= k {
                lemma_read_cmd_take(bytes, k, p + 2);
            }
        }
    }
}

/// Parsing the encoding of a game-to-session message laid down at `pos`
/// yields it back.
pub proof fn lemma_read_g2s_at(bytes: Seq<u8>, pos: int, m: GameToSessionMessage<
    GameToControllerEvent,
>)
    requires
        0 <= pos,
        pos + spec_enc_g2s(m).len() <= bytes.len(),
        bytes.subrange(pos, pos + spec_enc_g2s(m).len() as int) == spec_enc_g2s(m),
    ensures
        spec_read_g2s(bytes, pos) == Ok::<
            (GameToSessionMessage<GameToControllerEvent>, int),
            DecodeError,
        >((m, pos + spec_enc_g2s(m).len())),
{
    let enc = spec_enc_g2s(m);
    lemma_subrange_of_matching(bytes, pos, enc, 0, 2);
    assert(enc.subrange(0, 2) =~= spec_u16_le(m.id));
    lemma_read_u16_at(bytes, pos, m.id);
    lemma_subrange_of_matching(bytes, pos, enc, 2, enc.len() as int);
    assert(enc.subrange(2, enc.len() as int) =~= spec_enc_g2c(m.event));
    lemma_read_g2c_at(bytes, pos + 2, m.event);
}

/// Truncation behaviour of the game-to-session parser under a shorter buffer.
pub proof fn lemma_read_g2s_take(bytes: Seq<u8>, k: int, pos: int)
    requires
        0 <= pos <= k <= bytes.len(),
        spec_read_g2s(bytes, pos) is Ok,
    ensures
        spec_read_g2s(bytes, pos)->Ok_0.1 <= k ==> spec_read_g2s(bytes.take(k), pos)
            == spec_read_g2s(bytes, pos),
        spec_read_g2s(bytes, pos)->Ok_0.1 > k ==> spec_read_g2s(bytes.take(k), pos) == Err::<
            (GameToSessionMessage<GameToControllerEvent>, int),
            DecodeError,
        >(DecodeError::TruncatedInput),
{
    lemma_read_u16_take(bytes, k, pos);
    lemma_read_g2c_bound(bytes, pos + 2);
    if pos + 2 <= k {
        lemma_read_g2c_take(bytes, k, pos + 2);
    }
}

/// Round trip: decoding the encoding of any [`Team`] value yields it back.
pub proof fn lemma_team_round_trip(t: Team)
    ensures
        spec_decode_team(spec_enc_team(t)) == Ok::<Team, DecodeError>(t),
{
    let enc = spec_enc_team(t);
    assert(enc.subrange(0, enc.len() as int) =~= enc);
    lemma_read_team_at(enc, 0, t);
}

/// Round trip: decoding the encoding of any command yields it back.
pub proof fn lemma_cmd_round_trip(c: ControllerToSessionCommand)
    ensures
        spec_decode_cmd(spec_enc_cmd(c)) == Ok::<ControllerToSessionCommand, DecodeError>(c),
{
    let enc = spec_enc_cmd(c);
    assert(enc.subrange(0, enc.len() as int) =~= enc);
    lemma_read_cmd_at(enc, 0, c);
}

/// Round trip: decoding the encoding of any game event yields it back.
pub proof fn lemma_g2c_round_trip(e: GameToControllerEvent)
    ensures
        spec_decode_g2c(spec_enc_g2c(e)) == Ok::<GameToControllerEvent, DecodeError>(e),
{
    let enc = spec_enc_g2c(e);
    assert(enc.subrange(0, enc.len() as int) =~= enc);
    lemma_read_g2c_at(enc, 0, e);
}

/// Round trip: decoding the encoding of any session-to-controller event
/// yields it back.
pub proof fn lemma_s2c_round_trip(e: SessionToControllerEvent<GameToControllerEvent>)
    ensures
        spec_decode_s2c(spec_enc_s2c(e)) == Ok::<
            SessionToControllerEvent<GameToControllerEvent>,
            DecodeError,
        >(e),
{
    let enc = spec_enc_s2c(e);
    assert(enc.subrange(0, enc.len() as int) =~= enc);
    lemma_read_s2c_at(enc, 0, e);
}

/// Round trip: decoding the encoding of any session-to-game event yields it
/// back. The identifier string of `SetId` is bounded by the machine limit on
/// byte lengths, as every string held in memory is.
pub proof fn lemma_s2g_round_trip(m: SessionToGameEventView)
    requires
        m matches SessionToGameEventView::SetId(s) ==> vstd::utf8::encode_utf8(s).len()
            < 0x1_0000_0000_0000_0000,
    ensures
        spec_decode_s2g(spec_enc_s2g(m)) == Ok::<SessionToGameEventView, DecodeError>(m),
{
    let enc = spec_enc_s2g(m);
    assert(enc.subrange(0, enc.len() as int) =~= enc);
    lemma_read_s2g_at(enc, 0, m);
}

/// Round trip: decoding the encoding of any game-to-session message yields
/// it back.
pub proof fn lemma_g2s_round_trip(m: GameToSessionMessage<GameToControllerEvent>)
    ensures
        spec_decode_g2s(spec_enc_g2s(m)) == Ok::<
            GameToSessionMessage<GameToControllerEvent>,
            DecodeError,
        >(m),
{
    let enc = spec_enc_g2s(m);
    assert(enc.subrange(0, enc.len() as int) =~= enc);
    lemma_read_g2s_at(enc, 0, m);
}

/// Determinism: the bytes of a value are a function of the value alone, so
/// two encodings of the same command are identical. The same holds of every
/// other schema type, whose encoders are likewise specified as functions.
pub proof fn lemma_cmd_encode_deterministic(
    c: ControllerToSessionCommand,
    b1: Seq<u8>,
    b2: Seq<u8>,
)
    requires
        b1 == spec_enc_cmd(c),
        b2 == spec_enc_cmd(c),
    ensures
        b1 == b2,
{
}

/// Determinism for [`Team`] values.
pub proof fn lemma_team_encode_deterministic(t: Team, b1: Seq<u8>, b2: Seq<u8>)
    requires
        b1 == spec_enc_team(t),
        b2 == spec_enc_team(t),
    ensures
        b1 == b2,
{
}

/// Determinism for game events.
pub proof fn lemma_g2c_encode_deterministic(e: GameToControllerEvent, b1: Seq<u8>, b2: Seq<u8>)
    requires
        b1 == spec_enc_g2c(e),
        b2 == spec_enc_g2c(e),
    ensures
        b1 == b2,
{
}

/// Determinism for session-to-controller events.
pub proof fn lemma_s2c_encode_deterministic(
    e: SessionToControllerEvent<GameToControllerEvent>,
    b1: Seq<u8>,
    b2: Seq<u8>,
)
    requires
        b1 == spec_enc_s2c(e),
        b2 == spec_enc_s2c(e),
    ensures
        b1 == b2,
{
}

/// Determinism for session-to-game events.
pub proof fn lemma_s2g_encode_deterministic(m: SessionToGameEventView, b1: Seq<u8>, b2: Seq<u8>)
    requires
        b1 == spec_enc_s2g(m),
        b2 == spec_enc_s2g(m),
    ensures
        b1 == b2,
{
}

/// Determinism for game-to-session messages.
pub proof fn lemma_g2s_encode_deterministic(
    m: GameToSessionMessage<GameToControllerEvent>,
    b1: Seq<u8>,
    b2: Seq<u8>,
)
    requires
        b1 == spec_enc_g2s(m),
        b2 == spec_enc_g2s(m),
    ensures
        b1 == b2,
{
}

/// Tag stability: `Action1` encodes with discriminant 0 and `Move` with
/// discriminant 1, whatever variants may be appended after them.
pub proof fn lemma_cmd_tag_stability(x: u32, y: u32)
    ensures
        spec_enc_cmd(ControllerToSessionCommand::Action1) == seq![0u8],
        spec_enc_cmd(ControllerToSessionCommand::Move { x, y }) == seq![1u8] + spec_u32_le(x)
            + spec_u32_le(y),
        spec_enc_cmd(ControllerToSessionCommand::Move { x, y })[0] == 1u8,
{
}

/// Truncation detection: every strict prefix of an encoded command fails to
/// decode with `TruncatedInput`, never yielding a partial value.
pub proof fn lemma_cmd_truncation(c: ControllerToSessionCommand, k: int)
    requires
        0 <= k < spec_enc_cmd(c).len(),
    ensures
        spec_decode_cmd(spec_enc_cmd(c).take(k)) == Err::<ControllerToSessionCommand, DecodeError>(
            DecodeError::TruncatedInput,
        ),
{
    let enc = spec_enc_cmd(c);
    assert(enc.subrange(0, enc.len() as int) =~= enc);
    lemma_read_cmd_at(enc, 0, c);
    lemma_read_cmd_take(enc, k, 0);
}

/// Truncation detection for [`Team`] values.
pub proof fn lemma_team_truncation(t: Team, k: int)
    requires
        0 <= k < spec_enc_team(t).len(),
    ensures
        spec_decode_team(spec_enc_team(t).take(k)) == Err::<Team, DecodeError>(
            DecodeError::TruncatedInput,
        ),
{
    let enc = spec_enc_team(t);
    assert(enc.subrange(0, enc.len() as int) =~= enc);
    lemma_read_team_at(enc, 0, t);
    lemma_read_team_take(enc, k, 0);
}

/// Truncation detection for game events.
pub proof fn lemma_g2c_truncation(e: GameToControllerEvent, k: int)
    requires
        0 <= k < spec_enc_g2c(e).len(),
    ensures
        spec_decode_g2c(spec_enc_g2c(e).take(k)) == Err::<GameToControllerEvent, DecodeError>(
            DecodeError::TruncatedInput,
        ),
{
    let enc = spec_enc_g2c(e);
    assert(enc.subrange(0, enc.len() as int) =~= enc);
    lemma_read_g2c_at(enc, 0, e);
    lemma_read_g2c_take(enc, k, 0);
}

/// Truncation detection for session-to-controller events.
pub proof fn lemma_s2c_truncation(e: SessionToControllerEvent<GameToControllerEvent>, k: int)
    requires
        0 <= k < spec_enc_s2c(e).len(),
    ensures
        spec_decode_s2c(spec_enc_s2c(e).take(k)) == Err::<
            SessionToControllerEvent<GameToControllerEvent>,
            DecodeError,
        >(DecodeError::TruncatedInput),
{
    let enc = spec_enc_s2c(e);
    assert(enc.subrange(0, enc.len() as int) =~= enc);
    lemma_read_s2c_at(enc, 0, e);
    lemma_read_s2c_take(enc, k, 0);
}

/// Truncation detection for session-to-game events.
pub proof fn lemma_s2g_truncation(m: SessionToGameEventView, k: int)
    requires
        m matches SessionToGameEventView::SetId(s) ==> vstd::utf8::encode_utf8(s).len()
            < 0x1_0000_0000_0000_0000,
        0 <= k < spec_enc_s2g(m).len(),
    ensures
        spec_decode_s2g(spec_enc_s2g(m).take(k)) == Err::<SessionToGameEventView, DecodeError>(
            DecodeError::TruncatedInput,
        ),
{
    let enc = spec_enc_s2g(m);
    assert(enc.subrange(0, enc.len() as int) =~= enc);
    lemma_read_s2g_at(enc, 0, m);
    lemma_read_s2g_take(enc, k, 0);
}

/// Truncation detection for game-to-session messages.
pub proof fn lemma_g2s_truncation(m: GameToSessionMessage<GameToControllerEvent>, k: int)
    requires
        0 <= k < spec_enc_g2s(m).len(),
    ensures
        spec_decode_g2s(spec_enc_g2s(m).take(k)) == Err::<
            GameToSessionMessage<GameToControllerEvent>,
            DecodeError,
        >(DecodeError::TruncatedInput),
{
    let enc = spec_enc_g2s(m);
    assert(enc.subrange(0, enc.len() as int) =~= enc);
    lemma_read_g2s_at(enc, 0, m);
    lemma_read_g2s_take(enc, k, 0);
}

/// Invalid-tag rejection: a buffer whose first discriminant exceeds the
/// variant count of [`ControllerToSessionCommand`] is rejected.
pub proof fn lemma_cmd_invalid_tag(bytes: Seq<u8>)
    requires
        spec_read_varint(bytes, 0) is Ok,
        spec_read_varint(bytes, 0)->Ok_0.0 >= 2,
    ensures
        spec_decode_cmd(bytes) == Err::<ControllerToSessionCommand, DecodeError>(
            DecodeError::InvalidDiscriminant,
        ),
{
}

/// Invalid-tag rejection for [`Team`].
pub proof fn lemma_team_invalid_tag(bytes: Seq<u8>)
    requires
        spec_read_varint(bytes, 0) is Ok,
        spec_read_varint(bytes, 0)->Ok_0.0 >= 2,
    ensures
        spec_decode_team(bytes) == Err::<Team, DecodeError>(DecodeError::InvalidDiscriminant),
{
}

/// Invalid-tag rejection for [`GameToControllerEvent`].
pub proof fn lemma_g2c_invalid_tag(bytes: Seq<u8>)
    requires
        spec_read_varint(bytes, 0) is Ok,
        spec_read_varint(bytes, 0)->Ok_0.0 >= 3,
    ensures
        spec_decode_g2c(bytes) == Err::<GameToControllerEvent, DecodeError>(
            DecodeError::InvalidDiscriminant,
        ),
{
}

/// Invalid-tag rejection for [`SessionToControllerEvent`].
pub proof fn lemma_s2c_invalid_tag(bytes: Seq<u8>)
    requires
        spec_read_varint(bytes, 0) is Ok,
        spec_read_varint(bytes, 0)->Ok_0.0 >= 2,
    ensures
        spec_decode_s2c(bytes) == Err::<
            SessionToControllerEvent<GameToControllerEvent>,
            DecodeError,
        >(DecodeError::InvalidDiscriminant),
{
}

/// Invalid-tag rejection for [`SessionToGameEvent`].
pub proof fn lemma_s2g_invalid_tag(bytes: Seq<u8>)
    requires
        spec_read_varint(bytes, 0) is Ok,
        spec_read_varint(bytes, 0)->Ok_0.0 >= 4,
    ensures
        spec_decode_s2g(bytes) == Err::<SessionToGameEventView, DecodeError>(
            DecodeError::InvalidDiscriminant,
        ),
{
}

} // verus!
