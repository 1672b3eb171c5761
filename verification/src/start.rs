//! Bringing a duel to its first turn.
//!
//! The two players and an observer connect one after another, hand in their decks and play
//! rock, paper, scissors so that the first player goes first. After each step one of them
//! waits for the server. What the observer receives is recorded.
use vstd::prelude::*;
use vstd::slice::slice_to_vec;
use crate::client::{
    command_views, ClientMessage, ClientMessageView, Command, CommandView, Hand, Seat,
};
use crate::message::{
    law_message_by_its_bytes, message_of, Received, FIRST_ATTACK_PLAYER, KIND_PLAYER_CHANGE, KIND_PLAYER_ENTER,
    KIND_SELECT_HAND, KIND_SELECT_TP, KIND_TYPE_CHANGE,
};
use crate::replay::{BodyView, DeckView, ReplayBody};
use crate::setup::{handed_in, law_deck_is_handed_in};
use crate::yrp3d::Record;

verus! {

/// How many bytes a name takes.
pub const NAME_SIZE: usize = 40;

/// How far a duel has come towards its first turn.
#[derive(Clone, Copy, Debug, PartialEq, Eq, Structural)]
pub enum Stage {
    /// The first player waits for a seat.
    Player1Seat,
    /// The second player waits for a seat.
    Player2Seat,
    /// The first player waits to see the second one enter.
    Player2Entered,
    /// The second player waits to see that a player is ready.
    PlayersReady,
    /// The observer waits for a seat.
    ObserverSeat,
    /// The first player waits to be asked for a hand.
    SelectHand,
    /// The first player waits to be asked who is to go first.
    SelectTp,
    /// The duel has started.
    Started,
}

/// An empty name or password.
pub open spec fn no_name() -> Seq<u8> {
    Seq::new(NAME_SIZE as nat, |i: int| 0u8)
}

/// What a client does to enter the room.
pub open spec fn entrance(seat: Seat, name: Seq<u8>, version: u16) -> Seq<CommandView> {
    seq![
        CommandView::Connect(seat),
        CommandView::Send(seat, ClientMessageView::PlayerInfo { name }),
        CommandView::Send(
            seat,
            ClientMessageView::JoinGame { version, gameid: 0, pass: no_name() },
        ),
    ]
}

impl Stage {
    /// What is done when the duel comes to this stage, before anyone waits.
    pub open spec fn commands_of(self, body: BodyView, version: u16) -> Seq<CommandView> {
        match self {
            Stage::Player1Seat => entrance(Seat::Player1, body.host_name, version),
            Stage::Player2Seat => entrance(Seat::Player2, body.client_name, version),
            Stage::Player2Entered => Seq::empty(),
            Stage::PlayersReady => seq![
                CommandView::Send(
                    Seat::Player1,
                    ClientMessageView::UpdateDeck { deck: handed_in(body.host_deck) },
                ),
                CommandView::Send(Seat::Player1, ClientMessageView::HsReady),
                CommandView::Send(
                    Seat::Player2,
                    ClientMessageView::UpdateDeck { deck: handed_in(body.client_deck) },
                ),
                CommandView::Send(Seat::Player2, ClientMessageView::HsReady),
            ],
            Stage::ObserverSeat => entrance(Seat::Observer, no_name(), version),
            Stage::SelectHand => seq![
                CommandView::Send(Seat::Player1, ClientMessageView::HsStart),
            ],
            Stage::SelectTp => seq![
                CommandView::Send(
                    Seat::Player1,
                    ClientMessageView::HandResult { res: Hand::Paper },
                ),
                CommandView::Send(
                    Seat::Player2,
                    ClientMessageView::HandResult { res: Hand::Rock },
                ),
            ],
            Stage::Started => seq![
                CommandView::Send(
                    Seat::Player1,
                    ClientMessageView::TpResult { result: FIRST_ATTACK_PLAYER },
                ),
            ],
        }
    }

    /// Who waits at this stage, and for which kind of message; nobody once the duel has
    /// started.
    pub open spec fn awaited_of(self) -> Option<(Seat, u8)> {
        match self {
            Stage::Player1Seat => Some((Seat::Player1, KIND_TYPE_CHANGE)),
            Stage::Player2Seat => Some((Seat::Player2, KIND_TYPE_CHANGE)),
            Stage::Player2Entered => Some((Seat::Player1, KIND_PLAYER_ENTER)),
            Stage::PlayersReady => Some((Seat::Player2, KIND_PLAYER_CHANGE)),
            Stage::ObserverSeat => Some((Seat::Observer, KIND_TYPE_CHANGE)),
            Stage::SelectHand => Some((Seat::Player1, KIND_SELECT_HAND)),
            Stage::SelectTp => Some((Seat::Player1, KIND_SELECT_TP)),
            Stage::Started => None,
        }
    }

    /// The kind of message that is waited for before the duel has started.
    pub open spec fn awaited_kind(self) -> u8 {
        match self.awaited_of() {
            Some((_, kind)) => kind,
            None => 0,
        }
    }

    /// The stage that follows this one.
    pub open spec fn following(self) -> Stage {
        match self {
            Stage::Player1Seat => Stage::Player2Seat,
            Stage::Player2Seat => Stage::Player2Entered,
            Stage::Player2Entered => Stage::PlayersReady,
            Stage::PlayersReady => Stage::ObserverSeat,
            Stage::ObserverSeat => Stage::SelectHand,
            Stage::SelectHand => Stage::SelectTp,
            Stage::SelectTp => Stage::Started,
            Stage::Started => Stage::Started,
        }
    }

    /// Finds who waits at this stage, and for which kind of message.
    pub fn awaited(&self) -> (r: Option<(Seat, u8)>)
        ensures
            r == self.awaited_of(),
    {
        match *self {
            Stage::Player1Seat => Some((Seat::Player1, KIND_TYPE_CHANGE)),
            Stage::Player2Seat => Some((Seat::Player2, KIND_TYPE_CHANGE)),
            Stage::Player2Entered => Some((Seat::Player1, KIND_PLAYER_ENTER)),
            Stage::PlayersReady => Some((Seat::Player2, KIND_PLAYER_CHANGE)),
            Stage::ObserverSeat => Some((Seat::Observer, KIND_TYPE_CHANGE)),
            Stage::SelectHand => Some((Seat::Player1, KIND_SELECT_HAND)),
            Stage::SelectTp => Some((Seat::Player1, KIND_SELECT_TP)),
            Stage::Started => None,
        }
    }

    /// Finds the stage that follows this one.
    pub fn next(&self) -> (stage: Stage)
        ensures
            stage == self.following(),
    {
        match *self {
            Stage::Player1Seat => Stage::Player2Seat,
            Stage::Player2Seat => Stage::Player2Entered,
            Stage::Player2Entered => Stage::PlayersReady,
            Stage::PlayersReady => Stage::ObserverSeat,
            Stage::ObserverSeat => Stage::SelectHand,
            Stage::SelectHand => Stage::SelectTp,
            Stage::SelectTp => Stage::Started,
            Stage::Started => Stage::Started,
        }
    }

    /// Lists what is to be done when the duel comes to this stage, in this order.
    pub fn commands(&self, body: &ReplayBody, version: u16) -> (r: Vec<Command>)
        ensures
            command_views(r@) == self.commands_of(body@, version),
    {
        match *self {
            Stage::Player1Seat => enter(Seat::Player1, slice_to_vec(&body.host_name), version),
            Stage::Player2Seat => enter(Seat::Player2, slice_to_vec(&body.client_name), version),
            Stage::Player2Entered => {
                let r: Vec<Command> = Vec::new();
                assert(command_views(r@) =~= self.commands_of(body@, version));
                r
            },
            Stage::PlayersReady => {
                let mut r: Vec<Command> = Vec::new();
                r.push(
                    Command::Send(
                        Seat::Player1,
                        ClientMessage::UpdateDeck { deck: body.host_deck.to_deck() },
                    ),
                );
                r.push(Command::Send(Seat::Player1, ClientMessage::HsReady));
                r.push(
                    Command::Send(
                        Seat::Player2,
                        ClientMessage::UpdateDeck { deck: body.client_deck.to_deck() },
                    ),
                );
                r.push(Command::Send(Seat::Player2, ClientMessage::HsReady));
                assert(command_views(r@) =~= self.commands_of(body@, version));
                r
            },
            Stage::ObserverSeat => enter(Seat::Observer, empty_name(), version),
            Stage::SelectHand => {
                let mut r: Vec<Command> = Vec::new();
                r.push(Command::Send(Seat::Player1, ClientMessage::HsStart));
                assert(command_views(r@) =~= self.commands_of(body@, version));
                r
            },
            Stage::SelectTp => {
                let mut r: Vec<Command> = Vec::new();
                r.push(
                    Command::Send(Seat::Player1, ClientMessage::HandResult { res: Hand::Paper }),
                );
                r.push(
                    Command::Send(Seat::Player2, ClientMessage::HandResult { res: Hand::Rock }),
                );
                assert(command_views(r@) =~= self.commands_of(body@, version));
                r
            },
            Stage::Started => {
                let mut r: Vec<Command> = Vec::new();
                r.push(
                    Command::Send(
                        Seat::Player1,
                        ClientMessage::TpResult { result: FIRST_ATTACK_PLAYER },
                    ),
                );
                assert(command_views(r@) =~= self.commands_of(body@, version));
                r
            },
        }
    }
}

/// An empty name or password.
fn empty_name() -> (name: Vec<u8>)
    ensures
        name@ == no_name(),
{
    let name: Vec<u8> = vec![0u8; NAME_SIZE];
    assert(name@ =~= no_name());
    name
}

/// Lists what a client does to enter the room.
fn enter(seat: Seat, name: Vec<u8>, version: u16) -> (r: Vec<Command>)
    ensures
        command_views(r@) == entrance(seat, name@, version),
{
    let mut r: Vec<Command> = Vec::new();
    r.push(Command::Connect(seat));
    r.push(Command::Send(seat, ClientMessage::PlayerInfo { name }));
    r.push(
        Command::Send(seat, ClientMessage::JoinGame { version, gameid: 0, pass: empty_name() }),
    );
    assert(command_views(r@) =~= entrance(seat, name@, version));
    r
}

/// The server closed a client's connection while the client waited for this kind of message.
#[derive(Clone, Copy, Debug, PartialEq, Eq, Structural)]
pub struct StreamEnded {
    /// The kind of message.
    pub awaited: u8,
}

/// A duel on its way to its first turn.
#[derive(Debug)]
pub struct StartDuel {
    stage: Stage,
    recorded: Record,
}

/// How far a duel has come, and what its observer has recorded.
#[verifier::ext_equal]
pub struct StartView {
    pub stage: Stage,
    pub recorded: Seq<Seq<u8>>,
}

impl View for StartDuel {
    type V = StartView;

    closed spec fn view(&self) -> StartView {
        StartView { stage: self.stage, recorded: self.recorded@ }
    }
}

impl StartView {
    /// The duel once the client that waits has received `data`.
    ///
    /// What the observer receives is recorded, the awaited message included.
    pub open spec fn after(self, data: Seq<u8>) -> StartView {
        match self.stage.awaited_of() {
            Some((seat, kind)) => StartView {
                stage: if message_of(data).kind() == kind {
                    self.stage.following()
                } else {
                    self.stage
                },
                recorded: if seat == Seat::Observer {
                    self.recorded.push(data)
                } else {
                    self.recorded
                },
            },
            None => self,
        }
    }
}

/// The duel before anyone has connected.
pub open spec fn unstarted() -> StartView {
    StartView { stage: Stage::Player1Seat, recorded: Seq::empty() }
}

impl StartDuel {
    /// A duel before anyone has connected.
    pub fn new() -> (duel: StartDuel)
        ensures
            duel@ == unstarted(),
    {
        StartDuel { stage: Stage::Player1Seat, recorded: Record::new() }
    }

    /// How far the duel has come.
    pub fn stage(&self) -> (stage: Stage)
        ensures
            stage == self@.stage,
    {
        self.stage
    }

    /// What the observer has recorded.
    pub fn into_recorded(self) -> (recorded: Record)
        ensures
            recorded@ == self@.recorded,
    {
        self.recorded
    }

    /// Goes on with what the client that waits has received: a message, or nothing if its
    /// connection was closed. Gives whether the duel has come to its next stage.
    pub fn wait_for(&mut self, received: Option<Received>) -> (r: Result<bool, StreamEnded>)
        requires
            old(self)@.stage != Stage::Started,
        ensures
            match received {
                Some(message) => {
                    &&& final(self)@ == old(self)@.after(message@)
                    &&& r == Ok::<bool, StreamEnded>(final(self)@.stage != old(self)@.stage)
                },
                None => {
                    &&& final(self)@ == old(self)@
                    &&& r == Err::<bool, StreamEnded>(
                        StreamEnded { awaited: old(self)@.stage.awaited_kind() },
                    )
                },
            },
    {
        match self.stage.awaited() {
            Some((seat, kind)) => match received {
                Some(received) => {
                    let message = received.message();
                    if seat == Seat::Observer {
                        self.recorded.push(received);
                    }
                    if message.message_type() == kind {
                        self.stage = self.stage.next();
                        return Ok(true);
                    }
                    Ok(false)
                },
                None => Err(StreamEnded { awaited: kind }),
            },
            None => Ok(false),
        }
    }
}

/// All that is done up to the `n`th stage, from the first one on.
pub open spec fn history(n: nat, body: BodyView, version: u16) -> Seq<CommandView>
    decreases n,
{
    if n == 0 {
        Stage::Player1Seat.commands_of(body, version)
    } else {
        history((n - 1) as nat, body, version) + nth_stage(n).commands_of(body, version)
    }
}

/// The `n`th stage.
pub open spec fn nth_stage(n: nat) -> Stage
    decreases n,
{
    if n == 0 {
        Stage::Player1Seat
    } else {
        nth_stage((n - 1) as nat).following()
    }
}

/// The number of stages before the duel has started.
pub const STAGES: usize = 7;

/// A client that has connected.
pub open spec fn has_connected(done: Seq<CommandView>, seat: Seat) -> bool {
    done.contains(CommandView::Connect(seat))
}

/// The stages in their order.
proof fn lemma_stages()
    ensures
        nth_stage(0) == Stage::Player1Seat,
        nth_stage(1) == Stage::Player2Seat,
        nth_stage(2) == Stage::Player2Entered,
        nth_stage(3) == Stage::PlayersReady,
        nth_stage(4) == Stage::ObserverSeat,
        nth_stage(5) == Stage::SelectHand,
        nth_stage(6) == Stage::SelectTp,
        nth_stage(7) == Stage::Started,
{
    reveal_with_fuel(nth_stage, 8);
}

/// All that is done, stage by stage.
proof fn lemma_history(body: BodyView, version: u16)
    ensures
        ({
            let first = entrance(Seat::Player1, body.host_name, version);
            let second = first + entrance(Seat::Player2, body.client_name, version);
            let ready = second + Stage::PlayersReady.commands_of(body, version);
            let watched = ready + entrance(Seat::Observer, no_name(), version);
            let hands = watched + Stage::SelectHand.commands_of(body, version);
            let turns = hands + Stage::SelectTp.commands_of(body, version);
            &&& history(0, body, version) == first
            &&& history(1, body, version) == second
            &&& history(2, body, version) == second
            &&& history(3, body, version) == ready
            &&& history(4, body, version) == watched
            &&& history(5, body, version) == hands
            &&& history(6, body, version) == turns
            &&& history(7, body, version) == turns + Stage::Started.commands_of(body, version)
        }),
{
    lemma_stages();
    reveal_with_fuel(history, 8);
    let second = entrance(Seat::Player1, body.host_name, version) + entrance(
        Seat::Player2,
        body.client_name,
        version,
    );
    assert(second + Seq::<CommandView>::empty() =~= second);
}

/// Before a client sends anything it has connected, and no client connects twice.
pub proof fn law_clients_connect_first(body: BodyView, version: u16, i: int, j: int)
    requires
        0 <= i < j < history(STAGES as nat, body, version).len(),
    ensures
        ({
            let done = history(STAGES as nat, body, version);
            &&& done[j] matches CommandView::Send(seat, _) ==> has_connected(done.take(j), seat)
            &&& done[i] matches CommandView::Connect(seat) ==> done[j]
                != CommandView::Connect(seat)
            &&& done[0] is Connect
        }),
{
    lemma_history(body, version);
    let done = history(7, body, version);
    assert(done.len() == 17);
    assert(done[0] == CommandView::Connect(Seat::Player1));
    assert(done[3] == CommandView::Connect(Seat::Player2));
    assert(done[10] == CommandView::Connect(Seat::Observer));
    if let CommandView::Send(seat, _) = done[j] {
        let at = match seat {
            Seat::Player1 => 0int,
            Seat::Player2 => 3int,
            Seat::Observer => 10int,
        };
        assert(at < j);
        assert(done.take(j)[at] == CommandView::Connect(seat));
    }
}

/// A client that is waiting has connected.
pub proof fn law_waiting_clients_have_connected(body: BodyView, version: u16, n: nat)
    ensures
        nth_stage(n).awaited_of() matches Some((seat, _)) ==> has_connected(
            history(n, body, version),
            seat,
        ),
    decreases n,
{
    lemma_stages();
    lemma_history(body, version);
    if n > STAGES {
        lemma_started_for_good(n);
    } else {
        let done = history(n, body, version);
        assert(done[0] == CommandView::Connect(Seat::Player1));
        if n >= 1 {
            assert(done[3] == CommandView::Connect(Seat::Player2));
        }
        if n >= 4 {
            assert(done[10] == CommandView::Connect(Seat::Observer));
        }
    }
}

/// A duel that has started stays so.
proof fn lemma_started_for_good(n: nat)
    requires
        n >= STAGES,
    ensures
        nth_stage(n) == Stage::Started,
    decreases n,
{
    lemma_stages();
    if n > STAGES {
        lemma_started_for_good((n - 1) as nat);
    }
}

/// The duel once the clients that wait have received `received` one after another.
pub open spec fn after_all(start: StartView, received: Seq<Seq<u8>>) -> StartView
    decreases received.len(),
{
    if received.len() == 0 {
        start
    } else {
        after_all(start, received.drop_last()).after(received.last())
    }
}

/// What has been recorded stays recorded, and nothing but what was received is added.
pub proof fn law_start_keeps_record(start: StartView, received: Seq<Seq<u8>>)
    ensures
        start.recorded.is_prefix_of(after_all(start, received).recorded),
        forall|i: int|
            start.recorded.len() <= i < after_all(start, received).recorded.len()
                ==> received.contains(#[trigger] after_all(start, received).recorded[i]),
    decreases received.len(),
{
    if received.len() > 0 {
        let before = received.drop_last();
        law_start_keeps_record(start, before);
        let recorded = after_all(start, before).recorded;
        let now = after_all(start, received).recorded;
        assert(recorded.is_prefix_of(recorded.push(received.last())));
        assert forall|i: int| start.recorded.len() <= i < now.len() implies received.contains(
            #[trigger] now[i],
        ) by {
            if i < recorded.len() {
                let k = before.index_of(recorded[i]);
                assert(before.contains(recorded[i]));
                assert(received[k] == now[i]);
            } else {
                assert(received[received.len() - 1] == now[i]);
            }
        }
    }
}

/// While the duel waits for a kind of message that does not come it stays where it is, and
/// records everything if it is the observer that waits, and nothing otherwise.
pub proof fn law_start_waits(start: StartView, received: Seq<Seq<u8>>)
    requires
        start.stage != Stage::Started,
        forall|i: int|
            0 <= i < received.len() ==> message_of(#[trigger] received[i]).kind()
                != start.stage.awaited_kind(),
    ensures
        after_all(start, received) == (StartView {
            stage: start.stage,
            recorded: if start.stage == Stage::ObserverSeat {
                start.recorded + received
            } else {
                start.recorded
            },
        }),
    decreases received.len(),
{
    if received.len() == 0 {
        assert(start.recorded + received =~= start.recorded);
    } else {
        let before = received.drop_last();
        assert forall|i: int| 0 <= i < before.len() implies message_of(
            #[trigger] before[i],
        ).kind() != start.stage.awaited_kind() by {
            assert(before[i] == received[i]);
        }
        law_start_waits(start, before);
        assert((start.recorded + before).push(received.last()) =~= start.recorded + received);
    }
}

/// The first message of the awaited kind ends the wait, whatever was received before it.
pub proof fn law_start_goes_on(start: StartView, received: Seq<Seq<u8>>, awaited: Seq<u8>)
    requires
        start.stage != Stage::Started,
        forall|i: int|
            0 <= i < received.len() ==> message_of(#[trigger] received[i]).kind()
                != start.stage.awaited_kind(),
        message_of(awaited).kind() == start.stage.awaited_kind(),
    ensures
        after_all(start, received.push(awaited)) == (StartView {
            stage: start.stage.following(),
            recorded: if start.stage == Stage::ObserverSeat {
                start.recorded + received.push(awaited)
            } else {
                start.recorded
            },
        }),
{
    law_start_waits(start, received);
    assert(received.push(awaited).drop_last() =~= received);
    assert((start.recorded + received).push(awaited) =~= start.recorded + received.push(awaited));
}

/// The stages follow each other in one order, from the first player's seat to the started
/// duel, which is the last.
pub proof fn law_stages_follow_each_other()
    ensures
        Stage::Player1Seat.following() == Stage::Player2Seat,
        Stage::Player2Seat.following() == Stage::Player2Entered,
        Stage::Player2Entered.following() == Stage::PlayersReady,
        Stage::PlayersReady.following() == Stage::ObserverSeat,
        Stage::ObserverSeat.following() == Stage::SelectHand,
        Stage::SelectHand.following() == Stage::SelectTp,
        Stage::SelectTp.following() == Stage::Started,
        Stage::Started.following() == Stage::Started,
{
}

/// Who waits when, and for which kind of message: each client for its seat (19), the first
/// player to see the second one enter (32), the second one to see that a player is ready
/// (33), and the first player to be asked for a hand (3) and for who is to go first (4).
pub proof fn law_awaited(stage: Stage)
    ensures
        stage == Stage::Player1Seat ==> stage.awaited_of() == Some((Seat::Player1, 19u8)),
        stage == Stage::Player2Seat ==> stage.awaited_of() == Some((Seat::Player2, 19u8)),
        stage == Stage::Player2Entered ==> stage.awaited_of() == Some((Seat::Player1, 32u8)),
        stage == Stage::PlayersReady ==> stage.awaited_of() == Some((Seat::Player2, 33u8)),
        stage == Stage::ObserverSeat ==> stage.awaited_of() == Some((Seat::Observer, 19u8)),
        stage == Stage::SelectHand ==> stage.awaited_of() == Some((Seat::Player1, 3u8)),
        stage == Stage::SelectTp ==> stage.awaited_of() == Some((Seat::Player1, 4u8)),
        stage == Stage::Started <==> stage.awaited_of() is None,
        stage.awaited_of() matches Some((_, kind)) ==> stage.awaited_kind() == kind,
{
}

/// A message moves the duel on by one stage exactly if its first byte is the awaited kind. It
/// is added to the record, whole and last, exactly if it is the observer that waits.
pub proof fn law_start_by_bytes(start: StartView, data: Seq<u8>)
    requires
        start.stage != Stage::Started,
    ensures
        start.stage.awaited_of() matches Some((_, kind)) && data[0] == kind ==> start.after(
            data,
        ).stage == start.stage.following(),
        start.stage.awaited_of() matches Some((_, kind)) && data[0] != kind ==> start.after(
            data,
        ).stage == start.stage,
        start.stage == Stage::ObserverSeat ==> start.after(data).recorded.len()
            == start.recorded.len() + 1 && start.after(data).recorded.drop_last()
            == start.recorded && start.after(data).recorded.last() == data,
        start.stage != Stage::ObserverSeat ==> start.after(data).recorded == start.recorded,
{
    law_message_by_its_bytes(data);
    law_awaited(start.stage);
    assert(start.recorded.push(data).drop_last() =~= start.recorded);
}

/// A client enters by connecting, giving its name as it is, and joining the only room with the
/// version that was asked for and an empty password, forty zero bytes.
pub proof fn law_entrance(seat: Seat, name: Seq<u8>, version: u16)
    ensures
        ({
            let done = entrance(seat, name, version);
            &&& done.len() == 3
            &&& done[0] == CommandView::Connect(seat)
            &&& done[1] == CommandView::Send(seat, ClientMessageView::PlayerInfo { name })
            &&& done[2] matches CommandView::Send(
                who,
                ClientMessageView::JoinGame { version: v, gameid, pass },
            )
            &&& who == seat
            &&& v == version
            &&& gameid == 0
            &&& pass.len() == 40
            &&& forall|i: int| 0 <= i < 40 ==> #[trigger] pass[i] == 0
        }),
{
}

/// What is done at each stage: the players enter by their names from the replay and the
/// observer by an empty one; both players hand in their decks and are ready, in turn; the
/// first player starts the duel; the first player shows paper and the second rock, so that
/// the first player wins; the first player chooses to go first.
pub proof fn law_commands(body: BodyView, version: u16)
    ensures
        Stage::Player1Seat.commands_of(body, version) == entrance(
            Seat::Player1,
            body.host_name,
            version,
        ),
        Stage::Player2Seat.commands_of(body, version) == entrance(
            Seat::Player2,
            body.client_name,
            version,
        ),
        Stage::Player2Entered.commands_of(body, version).len() == 0,
        ({
            let done = Stage::PlayersReady.commands_of(body, version);
            &&& done.len() == 4
            &&& is_deck_of(done[0], Seat::Player1, body.host_deck)
            &&& done[1] == CommandView::Send(Seat::Player1, ClientMessageView::HsReady)
            &&& is_deck_of(done[2], Seat::Player2, body.client_deck)
            &&& done[3] == CommandView::Send(Seat::Player2, ClientMessageView::HsReady)
        }),
        exists|name: Seq<u8>| #[trigger]
            entrance(Seat::Observer, name, version) == Stage::ObserverSeat.commands_of(
                body,
                version,
            ) && name.len() == 40 && (forall|i: int| 0 <= i < 40 ==> #[trigger] name[i] == 0),
        Stage::SelectHand.commands_of(body, version) == seq![
            CommandView::Send(Seat::Player1, ClientMessageView::HsStart),
        ],
        Stage::SelectTp.commands_of(body, version) == seq![
            CommandView::Send(Seat::Player1, ClientMessageView::HandResult { res: Hand::Paper }),
            CommandView::Send(Seat::Player2, ClientMessageView::HandResult { res: Hand::Rock }),
        ],
        Stage::Started.commands_of(body, version) == seq![
            CommandView::Send(Seat::Player1, ClientMessageView::TpResult { result: 0 }),
        ],
{
    law_deck_is_handed_in(body.host_deck);
    law_deck_is_handed_in(body.client_deck);
    assert(entrance(Seat::Observer, no_name(), version) == Stage::ObserverSeat.commands_of(
        body,
        version,
    ));
}

/// A client hands in a deck that a replay stores: every card of each part, the last one
/// first, and no side deck.
pub open spec fn is_deck_of(command: CommandView, seat: Seat, stored: DeckView) -> bool {
    &&& command matches CommandView::Send(who, ClientMessageView::UpdateDeck { deck })
    &&& who == seat
    &&& deck.side.len() == 0
    &&& deck.main.len() == stored.main.len()
    &&& deck.extra.len() == stored.extra.len()
    &&& forall|i: int|
        0 <= i < stored.main.len() ==> #[trigger] deck.main[i] == stored.main[stored.main.len() - 1
            - i]
    &&& forall|i: int|
        0 <= i < stored.extra.len() ==> #[trigger] deck.extra[i] == stored.extra[stored.extra.len()
            - 1 - i]
}

/// In all that is done until the duel has started each player hands in a deck exactly once,
/// the first player the host's and the second one the client's, card by card; the observer
/// hands in none.
pub proof fn law_decks_are_handed_in_once(body: BodyView, version: u16)
    ensures
        ({
            let done = history(7, body, version);
            &&& done.len() == 17
            &&& is_deck_of(done[6], Seat::Player1, body.host_deck)
            &&& is_deck_of(done[8], Seat::Player2, body.client_deck)
            &&& forall|i: int|
                0 <= i < done.len() && i != 6 && i != 8 ==> !(#[trigger] done[i] matches CommandView::Send(
                    _,
                    ClientMessageView::UpdateDeck { .. },
                ))
        }),
{
    lemma_history(body, version);
    law_commands(body, version);
    let done = history(7, body, version);
    let ready = Stage::PlayersReady.commands_of(body, version);
    assert(done[6] == ready[0]);
    assert(done[8] == ready[2]);
}

/// In all that is done until the duel has started each client gives its name exactly once,
/// right after it connects: the players theirs from the replay, the observer an empty one.
pub proof fn law_names_are_given_once(body: BodyView, version: u16)
    ensures
        ({
            let done = history(7, body, version);
            &&& done[0] == CommandView::Connect(Seat::Player1)
            &&& done[1] == CommandView::Send(
                Seat::Player1,
                ClientMessageView::PlayerInfo { name: body.host_name },
            )
            &&& done[3] == CommandView::Connect(Seat::Player2)
            &&& done[4] == CommandView::Send(
                Seat::Player2,
                ClientMessageView::PlayerInfo { name: body.client_name },
            )
            &&& done[10] == CommandView::Connect(Seat::Observer)
            &&& done[11] matches CommandView::Send(
                Seat::Observer,
                ClientMessageView::PlayerInfo { name },
            )
            &&& name.len() == 40
            &&& forall|i: int| 0 <= i < 40 ==> #[trigger] name[i] == 0
            &&& forall|i: int|
                0 <= i < 17 && i != 1 && i != 4 && i != 11
                    ==> !(#[trigger] done[i] matches CommandView::Send(
                    _,
                    ClientMessageView::PlayerInfo { .. },
                ))
        }),
{
    lemma_history(body, version);
}

/// A duel begins with the first player's seat and an empty record.
pub proof fn law_unstarted()
    ensures
        unstarted().stage == Stage::Player1Seat,
        unstarted().recorded.len() == 0,
{
}

} // verus!
