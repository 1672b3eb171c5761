//! Playing a started duel with the recorded responses.
//!
//! The observer's messages are recorded until a player has won. Whenever the engine asks a
//! player for a response, that player gives the next recorded one.
use vstd::prelude::*;
use crate::client::Seat;
use crate::error::{ReadError, Refusal};
use crate::header::{dictionary_fits, header_bytes, HeaderView};
use crate::message::{
    law_asked_player, law_message_by_its_bytes, law_reactions, message_of, reaction_of,
    should_respond, waiting_for_of, Reaction, Received, FIRST_ATTACK_PLAYER, SECOND_ATTACK_PLAYER,
};
use crate::read::{
    law_read_after_packing, law_read_after_write, lzma_unpacked, read_of,
    readable_kind, MAX_BODY_SIZE,
};
use crate::replay::{initial_bytes, BodyView};
use crate::responses::{
    after_responses, law_responses_read_after_write, next_response, responses_bytes, Next, Responses, ResponsesView, MAX_RESPONSE_SIZE,
};
use crate::yrp3d::{left_out, write_yrp3d, yrp3d_of, Record};

verus! {

/// Something that happens while a duel is played.
#[derive(Debug)]
pub enum Event {
    /// Nothing happened for too long since the last response.
    TimedOut,
    /// A client received a message.
    Received(Seat, Received),
    /// The server closed a client's connection.
    Disconnected(Seat),
}

/// Something that happens while a duel is played, with a message by its bytes.
pub enum EventView {
    TimedOut,
    Received(Seat, Seq<u8>),
    Disconnected(Seat),
}

impl View for Event {
    type V = EventView;

    open spec fn view(&self) -> EventView {
        match self {
            Event::TimedOut => EventView::TimedOut,
            Event::Received(seat, received) => EventView::Received(*seat, received@),
            Event::Disconnected(seat) => EventView::Disconnected(*seat),
        }
    }
}

/// What is to be done next.
#[derive(Debug)]
pub enum Action {
    /// Nothing.
    Wait,
    /// The player tells the server that it is still there.
    Confirm(Seat),
    /// The player gives a response.
    Respond(Seat, Vec<u8>),
    /// The duel is over.
    Finish,
}

impl Action {
    /// Whether the time that may pass without a response starts anew: once a response is
    /// given, and only then.
    pub fn renews_time(&self) -> (yes: bool)
        ensures
            yes == (self is Respond),
    {
        match self {
            Action::Respond(_, _) => true,
            _ => false,
        }
    }
}

/// Why a duel could not be played to its end.
#[derive(Debug)]
pub enum DriveError {
    /// Nothing happened for too long after this many responses.
    TimedOut(usize),
    /// The server closed a client's connection.
    Disconnected(Seat),
    /// The engine rejected a response after this many of them.
    Desynced(usize),
    /// The recorded response with this number is refused.
    BadResponse(usize, ReadError),
}

/// What comes of an event.
pub enum Outcome {
    Wait,
    Confirm(Seat),
    Respond(Seat, Seq<u8>),
    Finish,
    TimedOut(int),
    Disconnected(Seat),
    Desynced(int),
    BadResponse(int, Refusal),
}

/// What comes of an event, given what is to be done or why the duel cannot go on.
pub open spec fn outcome_of(r: Result<Action, DriveError>) -> Outcome {
    match r {
        Ok(Action::Wait) => Outcome::Wait,
        Ok(Action::Confirm(seat)) => Outcome::Confirm(seat),
        Ok(Action::Respond(seat, response)) => Outcome::Respond(seat, response@),
        Ok(Action::Finish) => Outcome::Finish,
        Err(DriveError::TimedOut(count)) => Outcome::TimedOut(count as int),
        Err(DriveError::Disconnected(seat)) => Outcome::Disconnected(seat),
        Err(DriveError::Desynced(count)) => Outcome::Desynced(count as int),
        Err(DriveError::BadResponse(count, error)) => Outcome::BadResponse(count as int, error@),
    }
}

impl Outcome {
    /// The duel goes on.
    pub open spec fn goes_on(self) -> bool {
        self is Wait || self is Confirm || self is Respond
    }
}

/// A duel that is being played.
#[derive(Debug)]
pub struct Drive {
    responses: Responses,
    response_index: usize,
    recorded: Record,
}

/// The responses that are left, how many were given, and what the observer has recorded.
#[verifier::ext_equal]
pub struct DriveView {
    pub responses: ResponsesView,
    pub response_index: int,
    pub recorded: Seq<Seq<u8>>,
}

impl View for Drive {
    type V = DriveView;

    closed spec fn view(&self) -> DriveView {
        DriveView {
            responses: self.responses@,
            response_index: self.response_index as int,
            recorded: self.recorded@,
        }
    }
}

/// The engine's number of a player.
pub open spec fn player_of(seat: Seat) -> u8 {
    if seat == Seat::Player1 {
        FIRST_ATTACK_PLAYER
    } else {
        SECOND_ATTACK_PLAYER
    }
}

impl DriveView {
    /// Each response that was given has been read.
    pub open spec fn well_formed(self) -> bool {
        &&& self.responses.well_formed()
        &&& 0 <= self.response_index <= self.responses.position
    }

    /// What comes of a message that a player received.
    pub open spec fn player_outcome(self, seat: Seat, data: Seq<u8>) -> Outcome {
        match reaction_of(player_of(seat), message_of(data)) {
            Reaction::Ignore => Outcome::Wait,
            Reaction::Confirm => Outcome::Confirm(seat),
            Reaction::Desynced => Outcome::Desynced(self.response_index),
            Reaction::Respond => match self.responses.next() {
                Next::End => Outcome::Finish,
                Next::Response(response) => Outcome::Respond(seat, response),
                Next::Refused(refusal) => Outcome::BadResponse(self.response_index, refusal),
            },
        }
    }

    /// What comes of an event.
    pub open spec fn outcome(self, event: EventView) -> Outcome {
        match event {
            EventView::TimedOut => Outcome::TimedOut(self.response_index),
            EventView::Disconnected(seat) => Outcome::Disconnected(seat),
            EventView::Received(seat, data) => if seat == Seat::Observer {
                if message_of(data).wins() {
                    Outcome::Finish
                } else {
                    Outcome::Wait
                }
            } else {
                self.player_outcome(seat, data)
            },
        }
    }

    /// The duel after an event.
    pub open spec fn after(self, event: EventView) -> DriveView {
        match event {
            EventView::Received(seat, data) => if seat == Seat::Observer {
                DriveView { recorded: self.recorded.push(data), ..self }
            } else if reaction_of(player_of(seat), message_of(data)) == Reaction::Respond {
                DriveView {
                    responses: self.responses.advanced(),
                    response_index: if self.responses.next() is Response {
                        self.response_index + 1
                    } else {
                        self.response_index
                    },
                    ..self
                }
            } else {
                self
            },
            _ => self,
        }
    }
}

impl Drive {
    /// A duel that has just started, with what its observer has recorded so far.
    pub fn new(responses: Responses, recorded: Record) -> (drive: Drive)
        requires
            responses@.well_formed(),
        ensures
            drive@ == (DriveView {
                responses: responses@,
                response_index: 0,
                recorded: recorded@,
            }),
            drive@.well_formed(),
    {
        Drive { responses, response_index: 0, recorded }
    }

    /// How many responses were given.
    pub fn response_index(&self) -> (index: usize)
        ensures
            index == self@.response_index,
    {
        self.response_index
    }

    /// What the observer has recorded.
    pub fn into_recorded(self) -> (recorded: Record)
        ensures
            recorded@ == self@.recorded,
    {
        self.recorded
    }

    /// Writes what the observer has recorded as a YRP3D file.
    pub fn finish(self) -> (r: Result<Vec<u8>, binrw::Error>)
        ensures
            match yrp3d_of(self@.recorded) {
                Some(file) => r matches Ok(f) && f@ == file,
                None => r is Err,
            },
            r matches Ok(f) ==> forall|i: int|
                0 <= i < self@.recorded.len() && left_out(self@.recorded, i)
                    ==> #[trigger] yrp3d_of(self@.recorded.remove(i)) == Some(f@),
    {
        write_yrp3d(self.recorded)
    }

    /// Gives the next recorded response for a player that is asked for one.
    fn respond(&mut self, seat: Seat) -> (r: Result<Action, DriveError>)
        requires
            old(self)@.well_formed(),
        ensures
            final(self)@.well_formed(),
            final(self)@.recorded == old(self)@.recorded,
            final(self)@.responses == old(self)@.responses.advanced(),
            match old(self)@.responses.next() {
                Next::End => {
                    &&& outcome_of(r) == Outcome::Finish
                    &&& final(self)@.response_index == old(self)@.response_index
                },
                Next::Response(response) => {
                    &&& outcome_of(r) == Outcome::Respond(seat, response)
                    &&& final(self)@.response_index == old(self)@.response_index + 1
                },
                Next::Refused(refusal) => {
                    &&& outcome_of(r) == Outcome::BadResponse(
                        old(self)@.response_index,
                        refusal,
                    )
                    &&& final(self)@.response_index == old(self)@.response_index
                },
            },
    {
        match next_response(&mut self.responses) {
            Ok(Some(response)) => {
                self.response_index = self.response_index + 1;
                Ok(Action::Respond(seat, response))
            },
            Ok(None) => Ok(Action::Finish),
            Err(error) => Err(DriveError::BadResponse(self.response_index, error)),
        }
    }

    /// Goes on with what happened.
    pub fn drive_replay(&mut self, event: Event) -> (r: Result<Action, DriveError>)
        requires
            old(self)@.well_formed(),
        ensures
            final(self)@.well_formed(),
            final(self)@ == old(self)@.after(event@),
            outcome_of(r) == old(self)@.outcome(event@),
    {
        match event {
            Event::TimedOut => Err(DriveError::TimedOut(self.response_index)),
            Event::Disconnected(seat) => Err(DriveError::Disconnected(seat)),
            Event::Received(seat, received) => {
                let message = received.message();
                let player: u8 = match seat {
                    Seat::Observer => {
                        self.recorded.push(received);
                        if message.is_win() {
                            return Ok(Action::Finish);
                        }
                        return Ok(Action::Wait);
                    },
                    Seat::Player1 => FIRST_ATTACK_PLAYER,
                    Seat::Player2 => SECOND_ATTACK_PLAYER,
                };
                match should_respond(player, &message) {
                    Reaction::Ignore => Ok(Action::Wait),
                    Reaction::Confirm => Ok(Action::Confirm(seat)),
                    Reaction::Desynced => Err(DriveError::Desynced(self.response_index)),
                    Reaction::Respond => self.respond(seat),
                }
            },
        }
    }
}

/// The duel after events that happened one after another.
pub open spec fn after_events(start: DriveView, events: Seq<EventView>) -> DriveView
    decreases events.len(),
{
    if events.len() == 0 {
        start
    } else {
        after_events(start, events.drop_last()).after(events.last())
    }
}

/// The duel goes on through all of the events.
pub open spec fn goes_on_through(start: DriveView, events: Seq<EventView>) -> bool
    decreases events.len(),
{
    events.len() > 0 ==> {
        &&& goes_on_through(start, events.drop_last())
        &&& after_events(start, events.drop_last()).outcome(events.last()).goes_on()
    }
}

/// The responses that are given in the course of the events.
pub open spec fn responses_given(start: DriveView, events: Seq<EventView>) -> Seq<Seq<u8>>
    decreases events.len(),
{
    if events.len() == 0 {
        Seq::empty()
    } else {
        let before = responses_given(start, events.drop_last());
        match after_events(start, events.drop_last()).outcome(events.last()) {
            Outcome::Respond(_, response) => before.push(response),
            _ => before,
        }
    }
}

/// The messages that the observer receives in the course of the events.
pub open spec fn observed(events: Seq<EventView>) -> Seq<Seq<u8>>
    decreases events.len(),
{
    if events.len() == 0 {
        Seq::empty()
    } else {
        let before = observed(events.drop_last());
        match events.last() {
            EventView::Received(Seat::Observer, data) => before.push(data),
            _ => before,
        }
    }
}

/// One response more is read at the end.
proof fn lemma_one_response_more(responses: ResponsesView, n: nat)
    ensures
        after_responses(responses, n + 1) == after_responses(responses, n).advanced(),
    decreases n,
{
    reveal_with_fuel(after_responses, 2);
    if n > 0 {
        lemma_one_response_more(responses.advanced(), (n - 1) as nat);
    }
}

/// The record is what it was, then every message that the observer received, in order.
pub proof fn law_everything_observed_is_recorded(start: DriveView, events: Seq<EventView>)
    ensures
        after_events(start, events).recorded == start.recorded + observed(events),
    decreases events.len(),
{
    if events.len() == 0 {
        assert(start.recorded + observed(events) =~= start.recorded);
    } else {
        let before = events.drop_last();
        law_everything_observed_is_recorded(start, before);
        if let EventView::Received(Seat::Observer, data) = events.last() {
            assert((start.recorded + observed(before)).push(data) =~= start.recorded + observed(
                before,
            ).push(data));
        }
    }
}

/// As long as the duel goes on, the responses that were given are the first recorded ones in
/// their order, each once, and their number is the one that is kept.
pub proof fn law_responses_given_in_order(start: DriveView, events: Seq<EventView>)
    requires
        goes_on_through(start, events),
    ensures
        ({
            let given = responses_given(start, events);
            let now = after_events(start, events);
            &&& now.responses == after_responses(start.responses, given.len())
            &&& now.response_index == start.response_index + given.len()
            &&& forall|k: int|
                0 <= k < given.len() ==> after_responses(start.responses, k as nat).next()
                    == Next::Response(#[trigger] given[k])
        }),
    decreases events.len(),
{
    if events.len() > 0 {
        let before = events.drop_last();
        law_responses_given_in_order(start, before);
        let given = responses_given(start, before);
        let then = after_events(start, before);
        if then.outcome(events.last()) is Respond {
            lemma_one_response_more(start.responses, given.len());
            let given_now = responses_given(start, events);
            assert forall|k: int| 0 <= k < given_now.len() implies after_responses(
                start.responses,
                k as nat,
            ).next() == Next::Response(#[trigger] given_now[k]) by {
                if k < given.len() {
                    assert(given_now[k] == given[k]);
                }
            }
        }
    }
}

/// The engine asks the player on this seat for a response: the message is one of the engine
/// that waits for player zero, who sits on the first seat, or one, who sits on the second.
pub open spec fn asks_seat(data: Seq<u8>, seat: Seat) -> bool {
    &&& data[0] == 1
    &&& seat == Seat::Player1 ==> waiting_for_of(data) == Some(0u8)
    &&& seat == Seat::Player2 ==> waiting_for_of(data) == Some(1u8)
    &&& seat != Seat::Observer
}

/// A player who is asked for a response gives the `n`th recorded one; if there is none, the
/// duel is over.
pub open spec fn asked_next(drive: DriveView, recorded: Seq<Seq<u8>>, n: int) -> bool {
    forall|seat: Seat, data: Seq<u8>|
        asks_seat(data, seat) ==> #[trigger] drive.outcome(EventView::Received(seat, data))
            == if n < recorded.len() {
            Outcome::Respond(seat, recorded[n])
        } else {
            Outcome::Finish
        }
}

/// A duel whose body ends with `recorded` responses gives no other response than those: after
/// any events through which it goes on, the responses given are a beginning of the recorded
/// ones. A player who is then asked for a response gives the one that follows, and if all
/// were given the duel is over.
pub proof fn law_recorded_responses_are_given(
    before: Seq<u8>,
    recorded: Seq<Seq<u8>>,
    start: DriveView,
    events: Seq<EventView>,
)
    requires
        forall|i: int|
            0 <= i < recorded.len() ==> (#[trigger] recorded[i]).len() <= MAX_RESPONSE_SIZE,
        start.responses == (ResponsesView {
            body: before + responses_bytes(recorded),
            position: before.len() as int,
        }),
        goes_on_through(start, events),
    ensures
        ({
            let given = responses_given(start, events);
            &&& given.is_prefix_of(recorded)
            &&& asked_next(after_events(start, events), recorded, given.len() as int)
        }),
{
    let given = responses_given(start, events);
    law_responses_given_in_order(start, events);
    assert forall|k: int| 0 <= k < given.len() implies k < recorded.len() && recorded[k]
        == #[trigger] given[k] by {
        let then = after_responses(start.responses, k as nat);
        assert(then.next() == Next::Response(given[k]));
        law_responses_read_after_write(before, recorded, k as nat);
    }
    if given.len() > recorded.len() {
        let beyond = recorded.len() as int;
        assert(recorded[beyond] == given[beyond]);
    }
    law_responses_read_after_write(before, recorded, given.len());
    assert(given =~= recorded.take(given.len() as int));
}

/// The duel is over exactly if the observer sees that a player has won, or if a player is
/// asked for a response and none is left.
pub proof fn law_duel_is_over(drive: DriveView, event: EventView)
    ensures
        drive.outcome(event) is Finish <==> (event matches EventView::Received(seat, data) && if seat
            == Seat::Observer {
            data[0] == 1 && data[1] == 5
        } else {
            asks_seat(data, seat) && drive.responses.position == drive.responses.body.len()
        }),
{
    if let EventView::Received(seat, data) = event {
        law_message_by_its_bytes(data);
        if seat != Seat::Observer {
            lemma_asked(seat, data);
        }
    }
}

/// How a player reacts to a message, by its bytes.
proof fn lemma_asked(seat: Seat, data: Seq<u8>)
    requires
        seat != Seat::Observer,
    ensures
        ({
            let number = if seat == Seat::Player1 { 0u8 } else { 1u8 };
            let reaction = reaction_of(player_of(seat), message_of(data));
            &&& reaction == Reaction::Respond <==> asks_seat(data, seat)
            &&& reaction == Reaction::Desynced <==> data[0] == 1 && data[1] == 1
            &&& reaction == Reaction::Confirm <==> data[0] == 24 && data[1] == number
        }),
{
    let number = if seat == Seat::Player1 { 0u8 } else { 1u8 };
    law_message_by_its_bytes(data);
    law_asked_player(data);
    law_reactions(number, data[1], waiting_for_of(data), data[1], data[0]);
}

/// Whatever the observer receives is added to the record, whole and last, and changes nothing
/// else. It ends the duel exactly if it is a message of the engine with the code of a win;
/// otherwise the duel goes on.
pub proof fn law_observer_only_records(drive: DriveView, data: Seq<u8>)
    ensures
        ({
            let event = EventView::Received(Seat::Observer, data);
            let after = drive.after(event);
            &&& drive.outcome(event) is Finish <==> data[0] == 1 && data[1] == 5
            &&& drive.outcome(event) is Wait <==> !(data[0] == 1 && data[1] == 5)
            &&& after.recorded.len() == drive.recorded.len() + 1
            &&& after.recorded.last() == data
            &&& after.recorded.drop_last() == drive.recorded
            &&& after.responses == drive.responses
            &&& after.response_index == drive.response_index
        }),
{
    law_message_by_its_bytes(data);
    assert(drive.recorded.push(data).drop_last() =~= drive.recorded);
}

/// What a player does about a message, by its bytes. Whenever the engine waits for it, it
/// gives the next recorded response, or ends the duel if there is none, or gives up if that
/// response is refused. It confirms what concerns its own time. It gives up if the engine
/// rejects a response. It lets everything else pass. Only a response that is asked for is
/// read, only one that is given is counted, and nothing is recorded.
pub proof fn law_player_acts(drive: DriveView, seat: Seat, data: Seq<u8>)
    requires
        seat != Seat::Observer,
    ensures
        ({
            let event = EventView::Received(seat, data);
            let outcome = drive.outcome(event);
            let after = drive.after(event);
            let asked = asks_seat(data, seat);
            let rejected = data[0] == 1 && data[1] == 1;
            let timed = data[0] == 24 && data[1] == if seat == Seat::Player1 { 0u8 } else { 1u8 };
            &&& asked ==> match drive.responses.next() {
                Next::End => outcome == Outcome::Finish,
                Next::Response(response) => outcome == Outcome::Respond(seat, response),
                Next::Refused(refusal) => outcome == Outcome::BadResponse(
                    drive.response_index,
                    refusal,
                ),
            }
            &&& rejected <==> outcome == Outcome::Desynced(drive.response_index)
            &&& timed <==> outcome == Outcome::Confirm(seat)
            &&& outcome is Wait <==> !asked && !rejected && !timed
            &&& after.recorded == drive.recorded
            &&& asked ==> after.responses == drive.responses.advanced()
            &&& !asked ==> after.responses == drive.responses
            &&& after.response_index == drive.response_index + if outcome is Respond {
                1int
            } else {
                0int
            }
        }),
{
    lemma_asked(seat, data);
    law_asked_player(data);
}

/// A duel that runs out of time, or loses a client, is given up as it is: after how many
/// responses, or for which client, is told.
pub proof fn law_duel_is_given_up(drive: DriveView, seat: Seat)
    ensures
        drive.outcome(EventView::TimedOut) == Outcome::TimedOut(drive.response_index),
        drive.after(EventView::TimedOut) == drive,
        drive.outcome(EventView::Disconnected(seat)) == Outcome::Disconnected(seat),
        drive.after(EventView::Disconnected(seat)) == drive,
{
}

/// What comes of an event is what the caller is told, variant by variant.
pub proof fn law_outcome_is_told(r: Result<Action, DriveError>)
    ensures
        r matches Ok(Action::Wait) <==> outcome_of(r) is Wait,
        r matches Ok(Action::Finish) <==> outcome_of(r) is Finish,
        r matches Ok(Action::Confirm(seat)) ==> outcome_of(r) == Outcome::Confirm(seat),
        r matches Ok(Action::Respond(seat, response)) ==> outcome_of(r) == Outcome::Respond(
            seat,
            response@,
        ),
        r matches Err(DriveError::TimedOut(count)) ==> outcome_of(r) == Outcome::TimedOut(
            count as int,
        ),
        r matches Err(DriveError::Disconnected(seat)) ==> outcome_of(r) == Outcome::Disconnected(
            seat,
        ),
        r matches Err(DriveError::Desynced(count)) ==> outcome_of(r) == Outcome::Desynced(
            count as int,
        ),
        r matches Err(DriveError::BadResponse(count, error)) ==> outcome_of(r)
            == Outcome::BadResponse(count as int, error@),
{
}

/// The view of an event has its client and the message's bytes.
pub proof fn law_event_view(event: Event)
    ensures
        event is TimedOut <==> event@ is TimedOut,
        event matches Event::Received(seat, received) ==> event@ == EventView::Received(
            seat,
            received@,
        ),
        event matches Event::Disconnected(seat) ==> event@ == EventView::Disconnected(seat),
{
}

/// A replay file that stores `recorded` responses is played back with them: once it is
/// opened, the responses given through any events are a beginning of the recorded ones. A
/// player who is then asked for a response gives the one that follows, and if all were given
/// the duel is over.
pub proof fn law_replay_is_played_back(
    h: HeaderView,
    initial: BodyView,
    recorded: Seq<Seq<u8>>,
    start: DriveView,
    events: Seq<EventView>,
)
    requires
        readable_kind(h),
        !h.is_compressed(),
        initial.well_formed(),
        forall|i: int|
            0 <= i < recorded.len() ==> (#[trigger] recorded[i]).len() <= MAX_RESPONSE_SIZE,
        initial_bytes(initial).len() + responses_bytes(recorded).len() <= MAX_BODY_SIZE,
        h.data_size == initial_bytes(initial).len() + responses_bytes(recorded).len()
            || h.data_size == 0,
        read_of(header_bytes(h) + (initial_bytes(initial) + responses_bytes(recorded))) matches Ok(
            open,
        ) ==> start.responses == open.responses,
        goes_on_through(start, events),
    ensures
        ({
            let file = header_bytes(h) + (initial_bytes(initial) + responses_bytes(recorded));
            let given = responses_given(start, events);
            &&& read_of(file) matches Ok(open) && open.replay.body == initial
            &&& given.is_prefix_of(recorded)
            &&& asked_next(after_events(start, events), recorded, given.len() as int)
        }),
{
    let body = initial_bytes(initial) + responses_bytes(recorded);
    law_read_after_write(h, initial, responses_bytes(recorded), Seq::empty());
    assert(header_bytes(h) + body + Seq::<u8>::empty() =~= header_bytes(h) + body);
    law_recorded_responses_are_given(initial_bytes(initial), recorded, start, events);
}

/// A packed replay file that stores `recorded` responses is played back with them, as one
/// that is not packed, if the decoder gives back what was packed.
pub proof fn law_packed_replay_is_played_back(
    h: HeaderView,
    initial: BodyView,
    recorded: Seq<Seq<u8>>,
    packed: Seq<u8>,
    start: DriveView,
    events: Seq<EventView>,
)
    requires
        readable_kind(h),
        h.is_compressed(),
        initial.well_formed(),
        forall|i: int|
            0 <= i < recorded.len() ==> (#[trigger] recorded[i]).len() <= MAX_RESPONSE_SIZE,
        initial_bytes(initial).len() + responses_bytes(recorded).len() <= MAX_BODY_SIZE,
        h.data_size == initial_bytes(initial).len() + responses_bytes(recorded).len(),
        dictionary_fits(h.props.take(5), h.data_size as int),
        lzma_unpacked(h.props.take(5), packed, h.data_size as u64, MAX_BODY_SIZE) == Some(
            initial_bytes(initial) + responses_bytes(recorded),
        ),
        read_of(header_bytes(h) + packed) matches Ok(open) ==> start.responses == open.responses,
        goes_on_through(start, events),
    ensures
        ({
            let given = responses_given(start, events);
            &&& read_of(header_bytes(h) + packed) matches Ok(open) && open.replay.body == initial
            &&& given.is_prefix_of(recorded)
            &&& asked_next(after_events(start, events), recorded, given.len() as int)
        }),
{
    law_read_after_packing(h, initial, responses_bytes(recorded), packed);
    law_recorded_responses_are_given(initial_bytes(initial), recorded, start, events);
}

/// The time that may pass without a response starts anew exactly when one more response
/// counts as given; in between it runs on, whatever else happens.
pub proof fn law_responses_renew_time(drive: DriveView, event: EventView)
    ensures
        drive.outcome(event) is Respond <==> drive.after(event).response_index
            == drive.response_index + 1,
        drive.outcome(event) !is Respond <==> drive.after(event).response_index
            == drive.response_index,
{
}

} // verus!
