//! The message schema: the closed set of typed variant shapes exchanged
//! between the game, the server session, and a connected controller.
//!
//! All types are immutable value types with structural equality. Enum tag
//! order is fixed and additive-only: the zero-based declaration index of a
//! variant is its wire tag, so existing variants must never be reordered and
//! new variants may only be appended.

use vstd::prelude::*;

verus! {

/// There are 2 teams, red and blue. `Blue` orders before `Red`.
#[derive(Debug, Copy, Clone, PartialEq, Eq, Structural)]
pub enum Team {
    Blue,
    Red,
}

/// Message from controller towards the game (via server).
///
/// The `x` and `y` coordinates of `Move` are 32-bit IEEE-754 floats carried
/// by their bit patterns, so that the codec and its contracts can treat them
/// as plain 32-bit words; the wire form of such a field is the little-endian
/// image of the bit pattern, exactly the wire form of the float itself.
#[derive(Debug, Copy, Clone, PartialEq, Eq, Structural)]
pub enum ControllerToSessionCommand {
    Action1,
    Move { x: u32, y: u32 },
}

/// Messages from game towards a controller (via the server).
#[derive(Debug, Copy, Clone, PartialEq, Eq, Structural)]
pub enum GameToControllerEvent {
    Action2,
    Event1,
    IncreaseScore(Team),
}

/// Messages from server session towards game.
#[derive(Debug, Clone)]
pub enum SessionToGameEvent<C> {
    /// The session initially sends the randomly chosen ID of a game.
    SetId(String),
    NewPlayer(u16),
    PlayerLeft(u16),
    ControllerCommand {
        id: u16,
        /// The controller command.
        command: C,
    },
}

/// Messages from server to a connected controller.
#[derive(Debug, Copy, Clone, PartialEq, Eq, Structural)]
pub enum SessionToControllerEvent<E> {
    /// Push interval for the controller to use (in milliseconds).
    SetPushInterval(u32),
    /// Forwarded event from game towards the connected controller.
    GameToControllerEvent(E),
}

/// Messages from game towards server session.
#[derive(Debug, Copy, Clone, PartialEq, Eq, Structural)]
pub struct GameToSessionMessage<E> {
    /// This message concerns the controller@id.
    pub id: u16,
    /// The game event to be forwarded by the server to the controller.
    pub event: E,
}

/// Mathematical model of a [`SessionToGameEvent`] over the command payload
/// type used on the wire: strings are viewed as character sequences.
pub enum SessionToGameEventView {
    SetId(Seq<char>),
    NewPlayer(u16),
    PlayerLeft(u16),
    ControllerCommand { id: u16, command: ControllerToSessionCommand },
}

impl View for SessionToGameEvent<ControllerToSessionCommand> {
    type V = SessionToGameEventView;

    open spec fn view(&self) -> SessionToGameEventView {
        match self {
            SessionToGameEvent::SetId(s) => SessionToGameEventView::SetId(s@),
            SessionToGameEvent::NewPlayer(id) => SessionToGameEventView::NewPlayer(*id),
            SessionToGameEvent::PlayerLeft(id) => SessionToGameEventView::PlayerLeft(*id),
            SessionToGameEvent::ControllerCommand { id, command } =>
                SessionToGameEventView::ControllerCommand { id: *id, command: *command },
        }
    }
}

impl PartialEq for SessionToGameEvent<ControllerToSessionCommand> {
    fn eq(&self, other: &Self) -> (r: bool) {
        match (self, other) {
            (SessionToGameEvent::SetId(a), SessionToGameEvent::SetId(b)) => a.eq(b),
            (SessionToGameEvent::NewPlayer(a), SessionToGameEvent::NewPlayer(b)) => *a == *b,
            (SessionToGameEvent::PlayerLeft(a), SessionToGameEvent::PlayerLeft(b)) => *a == *b,
            (
                SessionToGameEvent::ControllerCommand { id: ia, command: ca },
                SessionToGameEvent::ControllerCommand { id: ib, command: cb },
            ) => *ia == *ib && *ca == *cb,
            _ => false,
        }
    }
}

impl vstd::std_specs::cmp::PartialEqSpecImpl for SessionToGameEvent<ControllerToSessionCommand> {
    open spec fn obeys_eq_spec() -> bool {
        true
    }

    open spec fn eq_spec(&self, other: &Self) -> bool {
        self@ == other@
    }
}

/// Game state statistics: a point-in-time snapshot of which controllers are
/// attached to which session.
///
/// The tree is a sorted association list from session identifier to the set
/// of attached controller ids: keys are strictly ascending in UTF-8 byte
/// order and each id set is strictly ascending, so a well-formed value has a
/// single canonical shape and serializes deterministically.
#[derive(Debug, Clone)]
pub struct Statistics {
    /// Tree of sessions and controllers.
    pub tree: Vec<(String, Vec<u16>)>,
}

impl View for Statistics {
    type V = Seq<(Seq<char>, Seq<u16>)>;

    open spec fn view(&self) -> Seq<(Seq<char>, Seq<u16>)> {
        self.tree@.map_values(|entry: (String, Vec<u16>)| (entry.0@, entry.1@))
    }
}

} // verus!
