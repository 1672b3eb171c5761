//! The messages that a server sends to its clients.
use vstd::prelude::*;
use std::io::Cursor;
use binrw::BinRead;
use vstd::slice::slice_subrange;
use vstd::utf8::valid_utf8;
use ygopro_data::complex::Complex;
use ygopro_data::data::UpdateCardInfo;
use ygopro_data::message::{gm, stoc};
use crate::bytes::{le16, le32};
use crate::header::{
    dictionary_fits, header_of, law_dictionary, law_header_flags, lemma_header_well_formed,
    read_header,
};

verus! {

/// The kind of a server message that carries a message of the engine.
pub const KIND_GAME: u8 = 1;

/// The kind of a server message that asks for a hand of rock, paper, scissors.
pub const KIND_SELECT_HAND: u8 = 3;

/// The kind of a server message that asks who is to go first.
pub const KIND_SELECT_TP: u8 = 4;

/// The kind of a server message that tells a client which seat it has.
pub const KIND_TYPE_CHANGE: u8 = 19;

/// The kind of a server message that carries a replay.
pub const KIND_REPLAY: u8 = 23;

/// The kind of a server message that tells how much time a player has left.
pub const KIND_TIME_LIMIT: u8 = 24;

/// The kind of a server message that tells that someone took a seat.
pub const KIND_PLAYER_ENTER: u8 = 32;

/// The kind of a server message that tells that someone's state changed.
pub const KIND_PLAYER_CHANGE: u8 = 33;

/// The code of the engine's message that rejects a response.
pub const CODE_RETRY: u8 = 1;

/// The code of the engine's message that a player has won.
pub const CODE_WIN: u8 = 5;

/// The code of the engine's message on the state of many cards.
pub const CODE_UPDATE_DATA: u8 = 6;

/// The code of the engine's message that asks for cards of a given sum.
pub const CODE_SELECT_SUM: u8 = 23;

/// The code of the engine's message on the outcome of rock, paper, scissors.
pub const CODE_HAND_RESULT: u8 = 133;

/// The code of the engine's message that names the machine that plays.
pub const CODE_AI_NAME: u8 = 163;

/// The code of the engine's message that carries a replay.
pub const CODE_REPLAY: u8 = 231;

/// The code of the engine's message that shows a hint.
pub const CODE_SHOW_HINT: u8 = 164;

/// The engine's number of the player who goes first.
pub const FIRST_ATTACK_PLAYER: u8 = 0;

/// The engine's number of the player who goes second.
pub const SECOND_ATTACK_PLAYER: u8 = 1;

/// What a server message says, as far as a reconstruction looks at it.
#[derive(Clone, Copy, Debug, PartialEq, Eq, Structural)]
pub enum ServerMessage {
    /// A message of the engine.
    Game {
        /// What it is about.
        code: u8,
        /// The player whose response it asks for, if it asks for one.
        waiting_for: Option<u8>,
    },
    /// A player's remaining time.
    TimeLimit {
        /// That player.
        player: u8,
    },
    /// Anything else.
    Other {
        /// What it is about.
        kind: u8,
    },
}

/// The engine's messages that ask the player named right behind their code.
pub open spec fn asks_player(code: u8) -> bool {
    ||| 10 <= code <= 16
    ||| 18 <= code <= 20
    ||| code == 22
    ||| 24 <= code <= 26
    ||| code == 132
    ||| 140 <= code <= 143
}

/// The player whose response the engine's message in `data` asks for.
pub open spec fn waiting_for_of(data: Seq<u8>) -> Option<u8> {
    if asks_player(data[1]) {
        Some(data[2])
    } else if data[1] == CODE_SELECT_SUM {
        Some(data[3])
    } else {
        None
    }
}

/// What the server message stored as `data` says.
pub open spec fn message_of(data: Seq<u8>) -> ServerMessage {
    if data[0] == KIND_GAME {
        ServerMessage::Game { code: data[1], waiting_for: waiting_for_of(data) }
    } else if data[0] == KIND_TIME_LIMIT {
        ServerMessage::TimeLimit { player: data[1] }
    } else {
        ServerMessage::Other { kind: data[0] }
    }
}

/// How many bytes, at least, a server message takes for what `message_of` reads of it.
pub open spec fn least_size(data: Seq<u8>) -> int {
    if data.len() >= 2 && data[0] == KIND_GAME {
        if asks_player(data[1]) {
            3
        } else if data[1] == CODE_SELECT_SUM {
            4
        } else {
            2
        }
    } else if data.len() >= 1 && (data[0] == KIND_GAME || data[0] == KIND_TIME_LIMIT) {
        2
    } else {
        1
    }
}

impl ServerMessage {
    /// The kind of server message that says this.
    pub open spec fn kind(self) -> u8 {
        match self {
            ServerMessage::Game { .. } => KIND_GAME,
            ServerMessage::TimeLimit { .. } => KIND_TIME_LIMIT,
            ServerMessage::Other { kind } => kind,
        }
    }

    /// Finds the kind of server message that says this.
    pub fn message_type(&self) -> (kind: u8)
        ensures
            kind == self.kind(),
    {
        match *self {
            ServerMessage::Game { .. } => KIND_GAME,
            ServerMessage::TimeLimit { .. } => KIND_TIME_LIMIT,
            ServerMessage::Other { kind } => kind,
        }
    }

    /// The engine says that a player has won.
    pub open spec fn wins(self) -> bool {
        self matches ServerMessage::Game { code, .. } && code == CODE_WIN
    }

    /// Whether the engine says that a player has won.
    pub fn is_win(&self) -> (yes: bool)
        ensures
            yes == self.wins(),
    {
        match *self {
            ServerMessage::Game { code, .. } => code == CODE_WIN,
            _ => false,
        }
    }
}

/// The parser of one entry of an update accepts the entry that `data` starts with.
pub uninterp spec fn entry_parses(data: Seq<u8>) -> bool;

/// Calls the parser of `ygopro_data::data::UpdateCardInfo`, reading little-endian from the
/// start of `bytes`. Whether it accepts what stands there is named `entry_parses`.
#[verifier::external_body]
fn parses_entry(bytes: &[u8]) -> (yes: bool)
    ensures
        yes == entry_parses(bytes@),
{
    UpdateCardInfo::read_le(&mut Cursor::new(bytes)).is_ok()
}

/// Reading the entries of an update, from the one at `at` on, comes to an end: at the end of
/// the data, at an entry that is not accepted, but never at one of length zero, which would
/// lead from an entry to itself.
pub open spec fn entries_end(data: Seq<u8>, at: int) -> bool
    decreases data.len() - at,
{
    if at < 0 || at + 4 > data.len() || !entry_parses(data.skip(at)) {
        true
    } else if le32(data, at) <= 0 {
        false
    } else if at + le32(data, at) > data.len() {
        true
    } else {
        entries_end(data, at + le32(data, at))
    }
}

/// The engine's numbers of players, and of sets of players.
pub open spec fn is_player(number: u8) -> bool {
    number <= 3 || number == 5
}

/// Unpacking the replay that `data` starts with stays within what the machine can address.
pub open spec fn replay_fits(data: Seq<u8>) -> bool {
    header_of(data) matches Some(h) ==> !h.is_compressed() || dictionary_fits(
        h.props.take(5),
        h.data_size as int,
    )
}

/// The decoder of server messages neither panics nor runs for ever on `data`, as long as
/// there is memory.
///
/// It panics on a seat that does not exist, on a hand that is neither rock, paper nor
/// scissors, on a text that is not UTF-8, and may do so on a packed replay whose dictionary
/// the machine cannot address. It runs for ever once it accepts an entry of length zero in
/// an update.
pub open spec fn safe_to_decode(data: Seq<u8>) -> bool {
    &&& data.len() > 1 && data[0] == KIND_TYPE_CHANGE ==> data[1] % 16 <= 7
    &&& data.len() > 2 && data[0] == KIND_GAME && data[1] == CODE_HAND_RESULT ==> data[2] % 4 != 0
        && data[2] / 4 % 4 != 0
    &&& data.len() > 3 && data[0] == KIND_GAME && (data[1] == CODE_AI_NAME || data[1]
        == CODE_SHOW_HINT) && 4 + le16(data, 2) <= data.len() ==> valid_utf8(
        data.subrange(4, 4 + le16(data, 2)),
    )
    &&& data.len() > 3 && data[0] == KIND_GAME && data[1] == CODE_UPDATE_DATA && is_player(
        data[2],
    ) ==> entries_end(data, 4)
    &&& data.len() > 0 && data[0] == KIND_REPLAY ==> replay_fits(data.skip(1))
    &&& data.len() > 1 && data[0] == KIND_GAME && data[1] == CODE_REPLAY ==> replay_fits(
        data.skip(2),
    )
}

/// Calls `std::str::from_utf8`. Claimed: it succeeds exactly if `bytes` is UTF-8.
#[verifier::external_body]
fn is_utf8(bytes: &[u8]) -> (yes: bool)
    ensures
        yes == valid_utf8(bytes@),
{
    std::str::from_utf8(bytes).is_ok()
}

/// Whether reading the entries of an update from `at` on comes to an end.
fn do_entries_end(data: &[u8], at: usize) -> (yes: bool)
    requires
        at <= data@.len(),
    ensures
        yes == entries_end(data@, at as int),
{
    let mut here: usize = at;
    while data.len() - here >= 4
        invariant
            here <= data@.len(),
            entries_end(data@, at as int) == entries_end(data@, here as int),
        decreases data@.len() - here,
    {
        let rest = slice_subrange(data, here, data.len());
        assert(rest@ =~= data@.skip(here as int));
        if !parses_entry(rest) {
            return true;
        }
        let length: u32 = data[here] as u32 + 0x100 * (data[here + 1] as u32) + 0x1_0000 * (
        data[here + 2] as u32) + 0x100_0000 * (data[here + 3] as u32);
        assert(length == le32(data@, here as int)) by {
            reveal(le32);
        }
        if length == 0 {
            return false;
        }
        if length as usize > data.len() - here {
            return true;
        }
        here = here + length as usize;
    }
    true
}

/// Whether unpacking the replay that starts at `at` stays within what the machine can address.
fn do_replay_fits(data: &[u8], at: usize) -> (yes: bool)
    requires
        at <= data@.len(),
    ensures
        yes == replay_fits(data@.skip(at as int)),
{
    let rest = slice_subrange(data, at, data.len());
    assert(rest@ =~= data@.skip(at as int));
    match read_header(rest) {
        Ok((header, _)) => !header.is_compressed() || header.dictionary_fits(),
        Err(_) => true,
    }
}

/// Whether the decoder of server messages neither panics nor runs for ever on `data`, as long
/// as there is memory.
pub fn is_safe_to_decode(data: &[u8]) -> (yes: bool)
    ensures
        yes == safe_to_decode(data@),
{
    let size: usize = data.len();
    if size > 1 && data[0] == KIND_TYPE_CHANGE {
        return data[1] % 16 <= 7;
    }
    if size > 0 && data[0] == KIND_REPLAY {
        return do_replay_fits(data, 1);
    }
    if size > 1 && data[0] == KIND_GAME && data[1] == CODE_REPLAY {
        return do_replay_fits(data, 2);
    }
    if size <= 2 || data[0] != KIND_GAME {
        return true;
    }
    if data[1] == CODE_HAND_RESULT {
        return data[2] % 4 != 0 && data[2] / 4 % 4 != 0;
    }
    if size == 3 {
        return true;
    }
    if data[1] == CODE_AI_NAME || data[1] == CODE_SHOW_HINT {
        let length: usize = data[2] as usize + 0x100 * (data[3] as usize);
        return length > size - 4 || is_utf8(slice_subrange(data, 4, 4 + length));
    }
    if data[1] == CODE_UPDATE_DATA && (data[2] <= 3 || data[2] == 5) {
        return do_entries_end(data, 4);
    }
    true
}

/// The decoder of server messages accepts `data`.
pub uninterp spec fn stoc_decodes(data: Seq<u8>) -> bool;

/// Decodes `data` by `ygopro_data::complex::Complex::try_get`, which calls the parser that
/// `binrw` derives for `ygopro_data::message::stoc::Message`, and picks from what it gives
/// the kind, and of an engine's message the code and what its `waiting_for` says. Whether
/// the parser accepts `data` is named `stoc_decodes`. Claimed besides: what is picked stands
/// in the message's first four bytes. Which error it fails with is left open.
#[verifier::external_body]
fn decode(data: &[u8]) -> (r: Result<ServerMessage, binrw::Error>)
    requires
        safe_to_decode(data@),
    ensures
        r is Ok <==> stoc_decodes(data@),
        r matches Ok(message) ==> message == message_of(data@),
        r is Ok ==> least_size(data@) <= data@.len(),
{
    let complex = Complex::<stoc::Message>::new(data.to_vec().into());
    Ok(match complex.try_get()? {
        stoc::Message::GameMessage(game) => ServerMessage::Game {
            code: u8::from(gm::MessageType::from(&game.message)),
            waiting_for: gm::GameMessage::waiting_for(&game.message).map(u8::from),
        },
        stoc::Message::TimeLimit(limit) => ServerMessage::TimeLimit {
            player: u8::from(limit.player),
        },
        other => ServerMessage::Other { kind: u8::from(stoc::MessageType::from(other)) },
    })
}

/// A server message that was received and understood.
#[derive(Debug)]
pub struct Received {
    data: Vec<u8>,
    message: ServerMessage,
}

impl View for Received {
    type V = Seq<u8>;

    closed spec fn view(&self) -> Seq<u8> {
        self.data@
    }
}

/// The bytes of a server message that is understood.
pub open spec fn understood(data: Seq<u8>) -> bool {
    &&& safe_to_decode(data)
    &&& stoc_decodes(data)
    &&& least_size(data) <= data.len()
}

impl Received {
    #[verifier::type_invariant]
    spec fn consistent(self) -> bool {
        &&& understood(self.data@)
        &&& self.message == message_of(self.data@)
    }

    /// What the message says.
    pub fn message(&self) -> (message: ServerMessage)
        ensures
            message == message_of(self@),
            understood(self@),
    {
        proof {
            use_type_invariant(self);
        }
        self.message
    }

    /// The message's bytes.
    pub fn into_data(self) -> (data: Vec<u8>)
        ensures
            data@ == self@,
            understood(self@),
    {
        proof {
            use_type_invariant(&self);
        }
        self.data
    }
}

/// Understands a message that was received.
pub fn receive(data: Vec<u8>) -> (r: Result<Received, binrw::Error>)
    requires
        safe_to_decode(data@),
    ensures
        r is Ok <==> stoc_decodes(data@),
        r matches Ok(received) ==> received@ == data@ && understood(data@),
{
    match decode(data.as_slice()) {
        Ok(message) => Ok(Received { data, message }),
        Err(error) => Err(error),
    }
}

/// Understands a message that was received, unless it would stop the decoder.
pub fn try_receive(data: Vec<u8>) -> (r: Option<Result<Received, binrw::Error>>)
    ensures
        r is Some <==> safe_to_decode(data@),
        r matches Some(Ok(received)) ==> received@ == data@ && understood(data@),
        r matches Some(Err(_)) ==> !stoc_decodes(data@),
{
    if is_safe_to_decode(data.as_slice()) {
        Some(receive(data))
    } else {
        None
    }
}

/// What a player does about a message.
#[derive(Clone, Copy, Debug, PartialEq, Eq, Structural)]
pub enum Reaction {
    /// Nothing.
    Ignore,
    /// Tells the server that it is still there.
    Confirm,
    /// Gives the next recorded response.
    Respond,
    /// Gives up: the engine has rejected a recorded response.
    Desynced,
}

/// What `player` does about a message.
pub open spec fn reaction_of(player: u8, message: ServerMessage) -> Reaction {
    match message {
        ServerMessage::Game { code, waiting_for } => if code == CODE_RETRY {
            Reaction::Desynced
        } else if waiting_for == Some(player) {
            Reaction::Respond
        } else {
            Reaction::Ignore
        },
        ServerMessage::TimeLimit { player: limited } => if limited == player {
            Reaction::Confirm
        } else {
            Reaction::Ignore
        },
        ServerMessage::Other { .. } => Reaction::Ignore,
    }
}

/// Decides what `player` does about a message.
pub fn should_respond(player: u8, message: &ServerMessage) -> (reaction: Reaction)
    ensures
        reaction == reaction_of(player, *message),
{
    match *message {
        ServerMessage::Game { code, waiting_for } => {
            if code == CODE_RETRY {
                return Reaction::Desynced;
            }
            match waiting_for {
                Some(waiting) if waiting == player => Reaction::Respond,
                _ => Reaction::Ignore,
            }
        },
        ServerMessage::TimeLimit { player: limited } => {
            if limited == player {
                Reaction::Confirm
            } else {
                Reaction::Ignore
            }
        },
        ServerMessage::Other { .. } => Reaction::Ignore,
    }
}

/// No message makes both players respond, nor both confirm; a rejected response stops both.
pub proof fn law_reactions_exclude(message: ServerMessage)
    ensures
        ({
            let first = reaction_of(FIRST_ATTACK_PLAYER, message);
            let second = reaction_of(SECOND_ATTACK_PLAYER, message);
            &&& !(first == Reaction::Respond && second == Reaction::Respond)
            &&& !(first == Reaction::Confirm && second == Reaction::Confirm)
            &&& first == Reaction::Desynced <==> second == Reaction::Desynced
        }),
{
}

/// What a message says about itself: a message of the engine has kind 1, one on the remaining
/// time kind 24, any other its own. The engine says that a player has won by code 5 alone.
pub proof fn law_kinds(message: ServerMessage)
    ensures
        message is Game ==> message.kind() == 1,
        message is TimeLimit ==> message.kind() == 24,
        message matches ServerMessage::Other { kind } ==> message.kind() == kind,
        message matches ServerMessage::Game { code, .. } ==> (message.wins() <==> code == 5),
        message is TimeLimit || message is Other ==> !message.wins(),
{
}

/// Where a message says what it says: the kind in its first byte; a message of the engine the
/// code in its second; one on the remaining time the player in its second.
pub proof fn law_message_by_its_bytes(data: Seq<u8>)
    ensures
        message_of(data).kind() == data[0],
        message_of(data).wins() <==> data[0] == 1 && data[1] == 5,
        data[0] == 1 <==> message_of(data) is Game,
        message_of(data) matches ServerMessage::Game { code, waiting_for } ==> code == data[1]
            && waiting_for == waiting_for_of(data),
        data[0] == 24 <==> message_of(data) is TimeLimit,
        message_of(data) matches ServerMessage::TimeLimit { player } ==> player == data[1],
{
}

/// Which of the engine's messages ask for a response, and where they name the player: all but
/// one of them right behind the code, the one that asks for a sum one byte further.
pub proof fn law_asked_player(data: Seq<u8>)
    ensures
        ({
            let code = data[1];
            let asks = (10 <= code <= 16) || (18 <= code <= 20) || code == 22 || (24 <= code <= 26)
                || code == 132 || (140 <= code <= 143);
            &&& asks ==> waiting_for_of(data) == Some(data[2])
            &&& code == 23 ==> waiting_for_of(data) == Some(data[3])
            &&& !asks && code != 23 ==> waiting_for_of(data) == None::<u8>
        }),
{
}

/// A player responds to a message of the engine, whatever its code, exactly if it waits for
/// that player, unless it rejects a response, which is code 1 and stops everyone. A player
/// confirms exactly what concerns its own time. It ignores everything else.
pub proof fn law_reactions(player: u8, code: u8, waiting_for: Option<u8>, limited: u8, kind: u8)
    ensures
        ({
            let game = reaction_of(player, ServerMessage::Game { code, waiting_for });
            &&& code == 1 <==> game == Reaction::Desynced
            &&& code != 1 ==> (game == Reaction::Respond <==> waiting_for == Some(player))
            &&& code != 1 && waiting_for != Some(player) ==> game == Reaction::Ignore
        }),
        ({
            let time = reaction_of(player, ServerMessage::TimeLimit { player: limited });
            &&& limited == player ==> time == Reaction::Confirm
            &&& limited != player ==> time == Reaction::Ignore
        }),
        reaction_of(player, ServerMessage::Other { kind }) == Reaction::Ignore,
{
}

/// On which bytes the decoder is not run: a seat above seven in a message of kind 19; and of
/// the engine's messages a hand of zero (code 133), a text that is not UTF-8 (163 and 164), an
/// update without an end (6); and a replay that does not fit (kind 23, code 231). It is run on
/// all others.
pub proof fn law_safe_to_decode(data: Seq<u8>)
    ensures
        ({
            let n = data.len();
            let engine = n > 1 && data[0] == 1;
            let seat = n > 1 && data[0] == 19 && data[1] % 16 > 7;
            let hand = engine && data[1] == 133 && n > 2 && (data[2] % 4 == 0 || data[2] / 4 % 4
                == 0);
            let length = data[2] + 256 * data[3];
            let text = engine && (data[1] == 163 || data[1] == 164) && n > 3 && 4 + length <= n
                && !valid_utf8(data.subrange(4, 4 + length));
            let update = engine && data[1] == 6 && n > 3 && (data[2] <= 3 || data[2] == 5)
                && !entries_end(data, 4);
            let replay = (n > 0 && data[0] == 23 && !replay_fits(data.subrange(1, n as int))) || (
            engine && data[1] == 231 && !replay_fits(data.subrange(2, n as int)));
            safe_to_decode(data) <==> !seat && !hand && !text && !update && !replay
        }),
{
    if data.len() > 0 {
        assert(data.skip(1) =~= data.subrange(1, data.len() as int));
    }
    if data.len() > 1 {
        assert(data.skip(2) =~= data.subrange(2, data.len() as int));
    }
}

/// How the entries of an update lead on: an accepted one by its length, which is never zero;
/// one that is not accepted ends them, and so does the end of the data.
pub proof fn law_entries_end(data: Seq<u8>, at: int)
    requires
        0 <= at <= data.len(),
    ensures
        ({
            let length = data[at] + 256 * data[at + 1] + 65536 * data[at + 2] + 16777216 * data[at
                + 3];
            let accepted = at + 4 <= data.len() && entry_parses(
                data.subrange(at, data.len() as int),
            );
            &&& !accepted ==> entries_end(data, at)
            &&& accepted && length == 0 ==> !entries_end(data, at)
            &&& accepted && length > 0 && at + length <= data.len() ==> entries_end(data, at)
                == entries_end(data, at + length)
            &&& accepted && at + length > data.len() ==> entries_end(data, at)
        }),
{
    reveal(le32);
    assert(data.skip(at) =~= data.subrange(at, data.len() as int));
}

/// A replay inside a message fits unless its header is there, its first flag is set, and its
/// dictionary and declared length add up to more than an address.
pub proof fn law_replay_fits(data: Seq<u8>)
    ensures
        header_of(data) is None ==> replay_fits(data),
        header_of(data) matches Some(h) ==> {
            let size = h.props[1] + 256 * h.props[2] + 65536 * h.props[3] + 16777216 * h.props[4];
            replay_fits(data) <==> h.flag % 2 == 0 || (size + h.data_size <= usize::MAX && 4096
                + h.data_size <= usize::MAX)
        },
{
    if let Some(h) = header_of(data) {
        lemma_header_well_formed(data);
        law_header_flags(h);
        law_dictionary(h.props.take(5), h.data_size as int);
    }
}

} // verus!
