use protocol::adapter::{
    accept_and_encode, cmd_from_dynamic, decode_and_expose, s2c_from_dynamic, s2c_to_dynamic,
    AdapterError, DynamicValue,
};
use protocol::codec_entry::encode_s2c;
use protocol::messages::{
    ControllerToSessionCommand, GameToControllerEvent, SessionToControllerEvent, Team,
};
use protocol::DecodeError;

fn move_dynamic(x: f32, y: f32) -> DynamicValue {
    DynamicValue::Object(vec![(
        "Move".to_string(),
        DynamicValue::Object(vec![
            ("x".to_string(), DynamicValue::Float32(x.to_bits())),
            ("y".to_string(), DynamicValue::Float32(y.to_bits())),
        ]),
    )])
}

#[test]
fn cross_boundary_round_trip() {
    let event = SessionToControllerEvent::GameToControllerEvent(GameToControllerEvent::Event1);
    let bytes = encode_s2c(&event);
    let dynamic = decode_and_expose(&bytes).unwrap();
    let back = s2c_from_dynamic(&dynamic).unwrap();
    assert_eq!(back, event);
}

#[test]
fn cross_boundary_round_trip_all_events() {
    let events = [
        SessionToControllerEvent::SetPushInterval(100),
        SessionToControllerEvent::GameToControllerEvent(GameToControllerEvent::Action2),
        SessionToControllerEvent::GameToControllerEvent(GameToControllerEvent::IncreaseScore(
            Team::Blue,
        )),
    ];
    for event in events {
        let dynamic = s2c_to_dynamic(&event);
        assert_eq!(s2c_from_dynamic(&dynamic).unwrap(), event);
    }
}

#[test]
fn accept_move_command() {
    let bytes = accept_and_encode(&move_dynamic(3.0, 1.0)).unwrap();
    assert_eq!(bytes, vec![1, 0, 0, 64, 64, 0, 0, 128, 63]);
}

#[test]
fn accept_action1_command() {
    let bytes = accept_and_encode(&DynamicValue::Text("Action1".to_string())).unwrap();
    assert_eq!(bytes, vec![0]);
}

#[test]
fn accept_move_with_swapped_fields() {
    let dynamic = DynamicValue::Object(vec![(
        "Move".to_string(),
        DynamicValue::Object(vec![
            ("y".to_string(), DynamicValue::Float32(1.0f32.to_bits())),
            ("x".to_string(), DynamicValue::Float32(3.0f32.to_bits())),
        ]),
    )]);
    let cmd = cmd_from_dynamic(&dynamic).unwrap();
    assert_eq!(
        cmd,
        ControllerToSessionCommand::Move { x: 3.0f32.to_bits(), y: 1.0f32.to_bits() }
    );
}

#[test]
fn mismatched_shapes_are_rejected() {
    // Unknown variant name.
    assert_eq!(
        cmd_from_dynamic(&DynamicValue::Text("Action9".to_string())),
        Err(AdapterError::SchemaMismatch)
    );
    // Missing field.
    let missing = DynamicValue::Object(vec![(
        "Move".to_string(),
        DynamicValue::Object(vec![("x".to_string(), DynamicValue::Float32(0))]),
    )]);
    assert_eq!(cmd_from_dynamic(&missing), Err(AdapterError::SchemaMismatch));
    // Extra field.
    let extra = DynamicValue::Object(vec![(
        "Move".to_string(),
        DynamicValue::Object(vec![
            ("x".to_string(), DynamicValue::Float32(0)),
            ("y".to_string(), DynamicValue::Float32(0)),
            ("z".to_string(), DynamicValue::Float32(0)),
        ]),
    )]);
    assert_eq!(cmd_from_dynamic(&extra), Err(AdapterError::SchemaMismatch));
    // Wrong field type.
    let wrong_type = DynamicValue::Object(vec![(
        "Move".to_string(),
        DynamicValue::Object(vec![
            ("x".to_string(), DynamicValue::UInt(3)),
            ("y".to_string(), DynamicValue::Float32(0)),
        ]),
    )]);
    assert_eq!(cmd_from_dynamic(&wrong_type), Err(AdapterError::SchemaMismatch));
    // A bare number is no command.
    assert_eq!(cmd_from_dynamic(&DynamicValue::UInt(0)), Err(AdapterError::SchemaMismatch));
}

#[test]
fn push_interval_out_of_range_is_rejected() {
    let dynamic = DynamicValue::Object(vec![(
        "SetPushInterval".to_string(),
        DynamicValue::UInt(1 << 40),
    )]);
    assert_eq!(s2c_from_dynamic(&dynamic), Err(AdapterError::SchemaMismatch));
}

#[test]
fn decode_failures_surface_as_adapter_errors() {
    assert_eq!(
        decode_and_expose(&[]).unwrap_err(),
        AdapterError::Decode(DecodeError::TruncatedInput)
    );
    assert_eq!(
        decode_and_expose(&[9]).unwrap_err(),
        AdapterError::Decode(DecodeError::InvalidDiscriminant)
    );
}

#[test]
fn accept_then_decode_matches_typed_value() {
    let bytes = accept_and_encode(&move_dynamic(-2.5, 0.25)).unwrap();
    let cmd: ControllerToSessionCommand = protocol::codec_entry::decode_cmd(&bytes).unwrap();
    assert_eq!(
        cmd,
        ControllerToSessionCommand::Move {
            x: (-2.5f32).to_bits(),
            y: 0.25f32.to_bits(),
        }
    );
}
