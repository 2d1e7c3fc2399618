use protocol::codec_entry::{
    decode_cmd, decode_g2c, decode_g2s, decode_s2c, decode_s2g, decode_team, encode_cmd,
    encode_g2c, encode_g2s, encode_s2c, encode_s2g, encode_team,
};
use protocol::messages::{
    ControllerToSessionCommand, GameToControllerEvent, GameToSessionMessage,
    SessionToControllerEvent, SessionToGameEvent, Statistics, Team,
};
use protocol::stats::{decode_stats, encode_stats};
use protocol::DecodeError;

#[test]
fn move_scenario_bytes() {
    let cmd = ControllerToSessionCommand::Move { x: 3.0f32.to_bits(), y: 1.0f32.to_bits() };
    let bytes = encode_cmd(&cmd);
    assert_eq!(bytes, vec![1, 0, 0, 64, 64, 0, 0, 128, 63]);
    let back = decode_cmd(&bytes).unwrap();
    assert_eq!(back, cmd);
}

#[test]
fn action1_scenario_bytes() {
    let cmd = ControllerToSessionCommand::Action1;
    let bytes = encode_cmd(&cmd);
    assert_eq!(bytes, vec![0]);
    assert_eq!(decode_cmd(&[0]).unwrap(), ControllerToSessionCommand::Action1);
}

#[test]
fn empty_buffer_is_truncated() {
    assert_eq!(decode_cmd(&[]), Err(DecodeError::TruncatedInput));
    assert_eq!(decode_team(&[]), Err(DecodeError::TruncatedInput));
    assert_eq!(decode_g2c(&[]), Err(DecodeError::TruncatedInput));
    assert_eq!(decode_s2c(&[]), Err(DecodeError::TruncatedInput));
    assert!(matches!(decode_s2g(&[]), Err(DecodeError::TruncatedInput)));
    assert_eq!(decode_g2s(&[]), Err(DecodeError::TruncatedInput));
    assert!(matches!(decode_stats(&[]), Err(DecodeError::TruncatedInput)));
}

#[test]
fn strict_prefixes_are_truncated() {
    let cmd = ControllerToSessionCommand::Move { x: 3.0f32.to_bits(), y: 1.0f32.to_bits() };
    let bytes = encode_cmd(&cmd);
    for k in 1..bytes.len() {
        assert_eq!(decode_cmd(&bytes[..k]), Err(DecodeError::TruncatedInput));
    }
    let event = SessionToControllerEvent::SetPushInterval(250);
    let bytes = encode_s2c(&event);
    for k in 1..bytes.len() {
        assert_eq!(decode_s2c(&bytes[..k]), Err(DecodeError::TruncatedInput));
    }
    let msg = SessionToGameEvent::SetId("Party Island".to_string());
    let bytes = encode_s2g(&msg);
    for k in 1..bytes.len() {
        assert!(matches!(decode_s2g(&bytes[..k]), Err(DecodeError::TruncatedInput)));
    }
}

#[test]
fn invalid_discriminants_are_rejected() {
    assert_eq!(decode_cmd(&[2]), Err(DecodeError::InvalidDiscriminant));
    assert_eq!(decode_cmd(&[7]), Err(DecodeError::InvalidDiscriminant));
    assert_eq!(decode_team(&[2]), Err(DecodeError::InvalidDiscriminant));
    assert_eq!(decode_g2c(&[3]), Err(DecodeError::InvalidDiscriminant));
    assert_eq!(decode_s2c(&[9]), Err(DecodeError::InvalidDiscriminant));
    assert!(matches!(decode_s2g(&[4]), Err(DecodeError::InvalidDiscriminant)));
}

#[test]
fn trailing_bytes_are_rejected() {
    assert_eq!(decode_cmd(&[0, 0]), Err(DecodeError::TrailingBytes));
    assert_eq!(decode_team(&[1, 5]), Err(DecodeError::TrailingBytes));
}

#[test]
fn invalid_utf8_is_rejected() {
    // Tag 0 (SetId), length 1, then a lone continuation byte.
    assert!(matches!(decode_s2g(&[0, 1, 0xFF]), Err(DecodeError::InvalidUtf8)));
}

#[test]
fn team_round_trip() {
    for team in [Team::Blue, Team::Red] {
        let bytes = encode_team(&team);
        assert_eq!(decode_team(&bytes).unwrap(), team);
    }
    assert_eq!(encode_team(&Team::Blue), vec![0]);
    assert_eq!(encode_team(&Team::Red), vec![1]);
}

#[test]
fn game_event_round_trip() {
    let events = [
        GameToControllerEvent::Action2,
        GameToControllerEvent::Event1,
        GameToControllerEvent::IncreaseScore(Team::Red),
    ];
    for event in events {
        let bytes = encode_g2c(&event);
        assert_eq!(decode_g2c(&bytes).unwrap(), event);
    }
    assert_eq!(encode_g2c(&GameToControllerEvent::IncreaseScore(Team::Red)), vec![2, 1]);
}

#[test]
fn session_to_controller_round_trip() {
    let events = [
        SessionToControllerEvent::SetPushInterval(1000),
        SessionToControllerEvent::GameToControllerEvent(GameToControllerEvent::Event1),
    ];
    for event in events {
        let bytes = encode_s2c(&event);
        assert_eq!(decode_s2c(&bytes).unwrap(), event);
    }
    assert_eq!(
        encode_s2c(&SessionToControllerEvent::SetPushInterval(1000)),
        vec![0, 232, 3, 0, 0]
    );
}

#[test]
fn session_to_game_round_trip() {
    let messages = [
        SessionToGameEvent::SetId("Party Island".to_string()),
        SessionToGameEvent::NewPlayer(89),
        SessionToGameEvent::PlayerLeft(65535),
        SessionToGameEvent::ControllerCommand {
            id: 7,
            command: ControllerToSessionCommand::Move {
                x: 3.0f32.to_bits(),
                y: 1.0f32.to_bits(),
            },
        },
    ];
    for message in messages {
        let bytes = encode_s2g(&message);
        assert_eq!(decode_s2g(&bytes).unwrap(), message);
    }
    let bytes = encode_s2g(&SessionToGameEvent::SetId("Party Island".to_string()));
    let mut expected = vec![0, 12];
    expected.extend_from_slice("Party Island".as_bytes());
    assert_eq!(bytes, expected);
}

#[test]
fn long_string_has_two_byte_length() {
    let id: String = "a".repeat(200);
    let bytes = encode_s2g(&SessionToGameEvent::SetId(id.clone()));
    assert_eq!(bytes[0], 0);
    assert_eq!(bytes[1], 0xC8);
    assert_eq!(bytes[2], 0x01);
    assert_eq!(bytes.len(), 3 + 200);
    assert_eq!(decode_s2g(&bytes).unwrap(), SessionToGameEvent::SetId(id));
}

#[test]
fn game_to_session_round_trip() {
    let msg = GameToSessionMessage { id: 89, event: GameToControllerEvent::Event1 };
    let bytes = encode_g2s(&msg);
    assert_eq!(bytes, vec![89, 0, 1]);
    assert_eq!(decode_g2s(&bytes).unwrap(), msg);
}

#[test]
fn statistics_round_trip() {
    let stats = Statistics {
        tree: vec![
            ("a".to_string(), vec![1]),
            ("b".to_string(), vec![2, 3]),
        ],
    };
    let bytes = encode_stats(&stats);
    assert_eq!(bytes, vec![2, 1, 97, 1, 1, 0, 1, 98, 2, 2, 0, 3, 0]);
    let back = decode_stats(&bytes).unwrap();
    assert_eq!(back.tree, stats.tree);
}

#[test]
fn empty_statistics_round_trip() {
    let stats = Statistics { tree: vec![] };
    let bytes = encode_stats(&stats);
    assert_eq!(bytes, vec![0]);
    let back = decode_stats(&bytes).unwrap();
    assert!(back.tree.is_empty());
}

#[test]
fn encoding_is_deterministic() {
    let cmd = ControllerToSessionCommand::Move { x: 2.5f32.to_bits(), y: 0.1f32.to_bits() };
    assert_eq!(encode_cmd(&cmd), encode_cmd(&cmd));
    let msg = SessionToGameEvent::SetId("Party Island".to_string());
    assert_eq!(encode_s2g(&msg), encode_s2g(&msg));
}

#[test]
fn controller_event_to_bytes() {
    let event1 = SessionToControllerEvent::GameToControllerEvent(GameToControllerEvent::Event1);
    assert_eq!(encode_s2c(&event1), vec![1, 1]);
    let increase_red = SessionToControllerEvent::GameToControllerEvent(
        GameToControllerEvent::IncreaseScore(Team::Red),
    );
    assert_eq!(encode_s2c(&increase_red), vec![1, 2, 1]);
}

#[test]
fn overlong_varint_tag_is_rejected() {
    // Eleven continuation bytes can never be a valid discriminant.
    let bytes = [0x80u8, 0x80, 0x80, 0x80, 0x80, 0x80, 0x80, 0x80, 0x80, 0x80, 0x00];
    assert_eq!(decode_cmd(&bytes), Err(DecodeError::InvalidDiscriminant));
}
