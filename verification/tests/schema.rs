use protocol::messages::{
    ControllerToSessionCommand, GameToControllerEvent, GameToSessionMessage,
    SessionToControllerEvent, SessionToGameEvent, Team,
};
use protocol::schema::{cmd_schema, g2c_schema, g2s_schema, s2c_schema, s2g_schema, team_schema};

#[test]
fn json_examples() {
    println!("{:?}", ControllerToSessionCommand::Move {
        x: 1.0f32.to_bits(),
        y: 2.4f32.to_bits(),
    });
    println!("{:?}", ControllerToSessionCommand::Action1);
    println!(
        "{:?}",
        SessionToGameEvent::<ControllerToSessionCommand>::SetId("Party Island".to_string())
    );
    println!("{:?}", GameToSessionMessage { id: 89, event: GameToControllerEvent::Event1 });
    println!(
        "{:?}",
        SessionToControllerEvent::GameToControllerEvent(GameToControllerEvent::IncreaseScore(
            Team::Red
        ))
    );
}

#[test]
fn json_schemas() {
    // Server-incoming message shapes.
    println!("{:?}", cmd_schema());
    println!("{:?}", g2s_schema());
    // Server-outgoing message shapes.
    println!("{:?}", s2g_schema());
    println!("{:?}", s2c_schema());
    println!("{:?}", team_schema());
    println!("{:?}", g2c_schema());
}

#[test]
fn command_tags_are_stable() {
    let schema = cmd_schema();
    assert_eq!(schema.len(), 2);
    assert_eq!(schema[0].name, "Action1");
    assert_eq!(schema[0].tag, 0);
    assert!(schema[0].fields.is_empty());
    assert_eq!(schema[1].name, "Move");
    assert_eq!(schema[1].tag, 1);
    assert_eq!(schema[1].fields.len(), 2);
    assert_eq!(schema[1].fields[0].name, "x");
    assert_eq!(schema[1].fields[1].name, "y");
}

#[test]
fn every_variant_tag_is_its_declaration_index() {
    for schema in [team_schema(), cmd_schema(), g2c_schema(), s2c_schema(), s2g_schema()] {
        for (i, variant) in schema.iter().enumerate() {
            assert_eq!(variant.tag, i as u64);
        }
    }
}
