//! What clients and server say to each other, what a connection does
//! with what its client says, and how a player's id is written.

use vstd::prelude::*;

verus! {

/// What a client sends.
#[derive(Debug, Clone, PartialEq, Eq)]
pub enum ClientMessage {
    Join { room_code: String, player_name: String },
    /// A controller input; `data` holds the encoded frame.
    Input { sequence: u32, timestamp: u64, data: Vec<u8> },
    Ping { timestamp: u64 },
    RequestDebugRender { timestamp: u64 },
    Leave,
}

/// What the server sends.
#[derive(Debug, Clone, PartialEq, Eq)]
pub enum ServerMessage {
    RoomJoined { room_code: String, player_id: String, entity_id: u64 },
    RoomCreated { room_code: String },
    PlayerJoined { player_id: String, player_name: String },
    PlayerLeft { player_id: String },
    /// The state of the world; `data` holds the encoded snapshot.
    Snapshot { sequence: u32, timestamp: u64, data: Vec<u8> },
    Pong { timestamp: u64 },
    /// The physics world; `data` holds the encoded view.
    DebugRender { sequence: u32, timestamp: u64, data: Vec<u8> },
    Error { message: String },
}

/// A `ServerMessage` as plain values.
pub enum ServerMessageView {
    RoomJoined { room_code: Seq<char>, player_id: Seq<char>, entity_id: u64 },
    RoomCreated { room_code: Seq<char> },
    PlayerJoined { player_id: Seq<char>, player_name: Seq<char> },
    PlayerLeft { player_id: Seq<char> },
    Snapshot { sequence: u32, timestamp: u64, data: Seq<u8> },
    Pong { timestamp: u64 },
    DebugRender { sequence: u32, timestamp: u64, data: Seq<u8> },
    Error { message: Seq<char> },
}

impl View for ServerMessage {
    type V = ServerMessageView;

    open spec fn view(&self) -> ServerMessageView {
        match self {
            ServerMessage::RoomJoined { room_code, player_id, entity_id } => {
                ServerMessageView::RoomJoined {
                    room_code: room_code@,
                    player_id: player_id@,
                    entity_id: *entity_id,
                }
            },
            ServerMessage::RoomCreated { room_code } => ServerMessageView::RoomCreated {
                room_code: room_code@,
            },
            ServerMessage::PlayerJoined { player_id, player_name } => {
                ServerMessageView::PlayerJoined {
                    player_id: player_id@,
                    player_name: player_name@,
                }
            },
            ServerMessage::PlayerLeft { player_id } => ServerMessageView::PlayerLeft {
                player_id: player_id@,
            },
            ServerMessage::Snapshot { sequence, timestamp, data } => ServerMessageView::Snapshot {
                sequence: *sequence,
                timestamp: *timestamp,
                data: data@,
            },
            ServerMessage::Pong { timestamp } => ServerMessageView::Pong { timestamp: *timestamp },
            ServerMessage::DebugRender { sequence, timestamp, data } => {
                ServerMessageView::DebugRender {
                    sequence: *sequence,
                    timestamp: *timestamp,
                    data: data@,
                }
            },
            ServerMessage::Error { message } => ServerMessageView::Error { message: message@ },
        }
    }
}

/// What a connection does with a message from its client.
#[derive(Debug, Clone, Copy, PartialEq, Eq, Structural)]
pub enum ConnectionAction {
    /// Try to join the room that the message names.
    Join,
    /// Hand the input to the room's simulation.
    ForwardInput,
    /// Answer with a pong; `touch` tells whether to note that the player
    /// is alive in its room.
    Pong { touch: bool },
    /// Send the client the physics world of its room.
    SendDebugRender,
    /// Stop listening; `leave` tells whether there is a room to leave.
    Close { leave: bool },
    /// Nothing to do.
    Ignore,
}

impl ClientMessage {
    /// What a connection does with this message, given whether it has
    /// joined a room. Inputs and debug requests count only inside a room.
    pub open spec fn action_for(self, in_room: bool) -> ConnectionAction {
        match self {
            ClientMessage::Join { .. } => ConnectionAction::Join,
            ClientMessage::Input { .. } => if in_room {
                ConnectionAction::ForwardInput
            } else {
                ConnectionAction::Ignore
            },
            ClientMessage::Ping { .. } => ConnectionAction::Pong { touch: in_room },
            ClientMessage::RequestDebugRender { .. } => if in_room {
                ConnectionAction::SendDebugRender
            } else {
                ConnectionAction::Ignore
            },
            ClientMessage::Leave => ConnectionAction::Close { leave: in_room },
        }
    }

    pub fn action(&self, in_room: bool) -> (action: ConnectionAction)
        ensures
            action == self.action_for(in_room),
    {
        match self {
            ClientMessage::Join { .. } => ConnectionAction::Join,
            ClientMessage::Input { .. } => if in_room {
                ConnectionAction::ForwardInput
            } else {
                ConnectionAction::Ignore
            },
            ClientMessage::Ping { .. } => ConnectionAction::Pong { touch: in_room },
            ClientMessage::RequestDebugRender { .. } => if in_room {
                ConnectionAction::SendDebugRender
            } else {
                ConnectionAction::Ignore
            },
            ClientMessage::Leave => ConnectionAction::Close { leave: in_room },
        }
    }
}

/// The symbol of the hexadecimal digit `digit`, in lower case.
pub open spec fn hex_symbol(digit: u128) -> char {
    if digit < 10 {
        ((48 + digit) as u8) as char
    } else {
        ((87 + digit) as u8) as char
    }
}

/// The hexadecimal digit of `id` at `place`, counted from the most
/// significant of its thirty-two.
pub open spec fn hex_digit(id: u128, place: int) -> u128 {
    (id >> ((4 * (31 - place)) as u128)) & 0xf
}

/// A player id as text: its thirty-two hexadecimal digits in lower case,
/// most significant first, in groups of 8, 4, 4, 4 and 12 with a hyphen
/// between two groups.
pub open spec fn id_text(id: u128) -> Seq<char> {
    Seq::new(
        36,
        |i: int|
            if i == 8 || i == 13 || i == 18 || i == 23 {
                '-'
            } else if i < 8 {
                hex_symbol(hex_digit(id, i))
            } else if i < 13 {
                hex_symbol(hex_digit(id, i - 1))
            } else if i < 18 {
                hex_symbol(hex_digit(id, i - 2))
            } else if i < 23 {
                hex_symbol(hex_digit(id, i - 3))
            } else {
                hex_symbol(hex_digit(id, i - 4))
            },
    )
}

/// `uuid::Uuid::from_u128` and the `to_string` of the result: the id in
/// the hyphenated lower-case form.
#[verifier::external_body]
pub(crate) fn id_to_string(id: u128) -> (text: String)
    ensures
        text@ == id_text(id),
{
    uuid::Uuid::from_u128(id).to_string()
}

} // verus!
