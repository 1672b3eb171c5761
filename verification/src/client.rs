//! What the clients of a reconstructed duel send to its server.
use vstd::prelude::*;
use crate::setup::{Deck, HandedDeckView};

verus! {

/// A client of the reconstructed duel.
#[derive(Clone, Copy, Debug, PartialEq, Eq, Structural)]
pub enum Seat {
    /// The first player, who goes first.
    Player1,
    /// The second player.
    Player2,
    /// The observer, who sees the duel from outside.
    Observer,
}

/// A hand of rock, paper, scissors.
#[derive(Clone, Copy, Debug, PartialEq, Eq, Structural)]
pub enum Hand {
    Rock,
    Paper,
}

/// A message of a client.
#[derive(Debug)]
pub enum ClientMessage {
    /// The client's name: twenty little-endian UTF-16 units.
    PlayerInfo { name: Vec<u8> },
    /// The client enters the room; a password is twenty little-endian UTF-16 units.
    JoinGame { version: u16, gameid: u32, pass: Vec<u8> },
    /// The player hands in a deck.
    UpdateDeck { deck: Deck },
    /// The player is ready.
    HsReady,
    /// The first player asks for the duel to start.
    HsStart,
    /// The player's hand of rock, paper, scissors.
    HandResult { res: Hand },
    /// Which player is to go first.
    TpResult { result: u8 },
    /// The player is still there.
    TimeConfirm,
    /// The player's response to the engine.
    Response { response: Vec<u8> },
}

/// A message of a client with its bytes as sequences.
pub enum ClientMessageView {
    PlayerInfo { name: Seq<u8> },
    JoinGame { version: u16, gameid: u32, pass: Seq<u8> },
    UpdateDeck { deck: HandedDeckView },
    HsReady,
    HsStart,
    HandResult { res: Hand },
    TpResult { result: u8 },
    TimeConfirm,
    Response { response: Seq<u8> },
}

impl View for ClientMessage {
    type V = ClientMessageView;

    open spec fn view(&self) -> ClientMessageView {
        match self {
            ClientMessage::PlayerInfo { name } => ClientMessageView::PlayerInfo { name: name@ },
            ClientMessage::JoinGame { version, gameid, pass } => ClientMessageView::JoinGame {
                version: *version,
                gameid: *gameid,
                pass: pass@,
            },
            ClientMessage::UpdateDeck { deck } => ClientMessageView::UpdateDeck { deck: deck@ },
            ClientMessage::HsReady => ClientMessageView::HsReady,
            ClientMessage::HsStart => ClientMessageView::HsStart,
            ClientMessage::HandResult { res } => ClientMessageView::HandResult { res: *res },
            ClientMessage::TpResult { result } => ClientMessageView::TpResult {
                result: *result,
            },
            ClientMessage::TimeConfirm => ClientMessageView::TimeConfirm,
            ClientMessage::Response { response } => ClientMessageView::Response {
                response: response@,
            },
        }
    }
}

/// Something to be done for a client.
#[derive(Debug)]
pub enum Command {
    /// The client connects to the room.
    Connect(Seat),
    /// The client sends a message.
    Send(Seat, ClientMessage),
}

/// Something to be done for a client, with its message as a view.
pub enum CommandView {
    Connect(Seat),
    Send(Seat, ClientMessageView),
}

impl View for Command {
    type V = CommandView;

    open spec fn view(&self) -> CommandView {
        match self {
            Command::Connect(seat) => CommandView::Connect(*seat),
            Command::Send(seat, message) => CommandView::Send(*seat, message@),
        }
    }
}

/// Commands by their views.
pub open spec fn command_views(commands: Seq<Command>) -> Seq<CommandView> {
    Seq::new(commands.len(), |i: int| commands[i]@)
}

/// The view of a client's message has all that the message says.
pub proof fn law_client_message_view(message: ClientMessage)
    ensures
        message matches ClientMessage::PlayerInfo { name } ==> message@
            == (ClientMessageView::PlayerInfo { name: name@ }),
        message matches ClientMessage::JoinGame { version, gameid, pass } ==> message@
            == (ClientMessageView::JoinGame { version, gameid, pass: pass@ }),
        message matches ClientMessage::UpdateDeck { deck } ==> {
            &&& message@ matches ClientMessageView::UpdateDeck { deck: seen }
            &&& seen.main == deck.main@
            &&& seen.extra == deck.extra@
            &&& seen.side == deck.side@
        },
        message is HsReady <==> message@ is HsReady,
        message is HsStart <==> message@ is HsStart,
        message matches ClientMessage::HandResult { res } ==> message@
            == (ClientMessageView::HandResult { res }),
        message matches ClientMessage::TpResult { result } ==> message@
            == (ClientMessageView::TpResult { result }),
        message is TimeConfirm <==> message@ is TimeConfirm,
        message matches ClientMessage::Response { response } ==> message@
            == (ClientMessageView::Response { response: response@ }),
{
}

/// The view of a command has its client and its message; the views of commands stand in the
/// order of the commands.
pub proof fn law_command_views(commands: Seq<Command>, i: int)
    requires
        0 <= i < commands.len(),
    ensures
        command_views(commands).len() == commands.len(),
        commands[i] matches Command::Connect(seat) ==> command_views(commands)[i]
            == CommandView::Connect(seat),
        commands[i] matches Command::Send(seat, message) ==> command_views(commands)[i]
            == CommandView::Send(seat, message@),
{
}

} // verus!
