use std::io::Cursor;

use binrw::{BinRead, BinWrite};
use ygopro_data::complex::Complex;
use ygopro_data::data::forge;
use ygopro_data::message::{stoc, stoc_to_forge};
use yrp3d::client::{ClientMessage, Command, Hand, Seat};
use yrp3d::drive::{Action, Drive, DriveError, Event};
use yrp3d::error::ReadError;
use yrp3d::message::{receive, Received};
use yrp3d::replay::{ReplayBody, ReplayDeck};
use yrp3d::responses::Responses;
use yrp3d::start::{Stage, StartDuel, StreamEnded};
use yrp3d::yrp3d::{write_yrp3d, Record};

fn record(messages: Vec<Vec<u8>>) -> Record {
    Record::from_messages(messages).unwrap()
}

fn received(data: &[u8]) -> Received {
    receive(data.to_vec()).unwrap()
}

fn body() -> ReplayBody {
    ReplayBody {
        host_name: vec![1; 40],
        client_name: vec![2; 40],
        start_lp: 8000,
        start_hand: 5,
        draw_count: 1,
        duel_options: 0,
        duel_rule: 5,
        host_deck: ReplayDeck { main: vec![1, 2, 3], extra: vec![4, 5] },
        client_deck: ReplayDeck { main: vec![6, 7], extra: vec![] },
    }
}

fn type_change() -> Vec<u8> {
    vec![19, 0x10]
}

fn player_enter(units: &str, pos: u8) -> Vec<u8> {
    let mut data = vec![32];
    data.extend(units.encode_utf16().flat_map(|unit| unit.to_le_bytes()));
    data.resize(41, 0);
    data.push(pos);
    data
}

fn select_yes_no(player: u8) -> Vec<u8> {
    vec![1, 13, player, 0, 0, 0, 0]
}

fn win() -> Vec<u8> {
    vec![1, 5, 0, 1]
}

fn responses(list: &[&[u8]]) -> Responses {
    let mut body = Vec::new();
    for response in list {
        body.push(response.len() as u8);
        body.extend_from_slice(response);
    }
    Responses::new(body, 0)
}

fn check_entrance(commands: &[Command], seat: Seat, expected: &[u8]) {
    assert_eq!(commands.len(), 3);
    assert!(matches!(&commands[0], Command::Connect(s) if *s == seat));
    assert!(matches!(
        &commands[1],
        Command::Send(s, ClientMessage::PlayerInfo { name }) if *s == seat && name == expected
    ));
    assert!(matches!(
        &commands[2],
        Command::Send(s, ClientMessage::JoinGame { version: 0x1362, gameid: 0, pass })
            if *s == seat && *pass == vec![0; 40]
    ));
}

#[test]
fn clients_do_what_each_stage_asks() {
    let body = body();
    let list = |stage: Stage| stage.commands(&body, 0x1362);
    check_entrance(&list(Stage::Player1Seat), Seat::Player1, &[1; 40]);
    check_entrance(&list(Stage::Player2Seat), Seat::Player2, &[2; 40]);
    assert!(list(Stage::Player2Entered).is_empty());
    let ready = list(Stage::PlayersReady);
    assert_eq!(ready.len(), 4);
    assert!(matches!(
        &ready[0],
        Command::Send(Seat::Player1, ClientMessage::UpdateDeck { deck })
            if deck.main == vec![3, 2, 1] && deck.extra == vec![5, 4] && deck.side.is_empty()
    ));
    assert!(matches!(&ready[1], Command::Send(Seat::Player1, ClientMessage::HsReady)));
    assert!(matches!(
        &ready[2],
        Command::Send(Seat::Player2, ClientMessage::UpdateDeck { deck })
            if deck.main == vec![7, 6] && deck.extra.is_empty()
    ));
    assert!(matches!(&ready[3], Command::Send(Seat::Player2, ClientMessage::HsReady)));
    check_entrance(&list(Stage::ObserverSeat), Seat::Observer, &[0; 40]);
    let hand = list(Stage::SelectHand);
    assert!(matches!(&hand[..], [Command::Send(Seat::Player1, ClientMessage::HsStart)]));
    let turn = list(Stage::SelectTp);
    assert!(matches!(
        &turn[..],
        [
            Command::Send(Seat::Player1, ClientMessage::HandResult { res: Hand::Paper }),
            Command::Send(Seat::Player2, ClientMessage::HandResult { res: Hand::Rock }),
        ]
    ));
    let started = list(Stage::Started);
    assert!(matches!(
        &started[..],
        [Command::Send(Seat::Player1, ClientMessage::TpResult { result: 0 })]
    ));
}

#[test]
fn each_stage_waits_for_its_message() {
    let mut duel = StartDuel::new();
    let awaited = [
        (Stage::Player1Seat, Seat::Player1, type_change()),
        (Stage::Player2Seat, Seat::Player2, type_change()),
        (Stage::Player2Entered, Seat::Player1, player_enter("b", 1)),
        (Stage::PlayersReady, Seat::Player2, vec![33, 0x19]),
        (Stage::ObserverSeat, Seat::Observer, type_change()),
        (Stage::SelectHand, Seat::Player1, vec![3]),
        (Stage::SelectTp, Seat::Player1, vec![4]),
    ];
    for (stage, seat, data) in awaited {
        assert_eq!(duel.stage(), stage);
        assert_eq!(duel.stage().awaited(), Some((seat, data[0])));
        assert_eq!(duel.wait_for(Some(received(&[21]))), Ok(false));
        assert_eq!(duel.stage(), stage);
        assert_eq!(duel.wait_for(None), Err(StreamEnded { awaited: data[0] }));
        assert_eq!(duel.stage(), stage);
        assert_eq!(duel.wait_for(Some(received(&data))), Ok(true));
        assert_eq!(duel.stage(), stage.next());
    }
    assert_eq!(duel.stage(), Stage::Started);
    assert_eq!(duel.stage().awaited(), None);
    assert_eq!(Stage::Started.next(), Stage::Started);
    assert_eq!(duel.into_recorded().into_messages(), vec![vec![21], type_change()]);
}

#[test]
fn recorded_responses_are_given_in_order() {
    let mut drive = Drive::new(responses(&[&[1], &[2, 2], &[3]]), record(vec![type_change()]));
    let mut given = Vec::new();
    for player in [0u8, 1, 0] {
        let seat = if player == 0 { Seat::Player1 } else { Seat::Player2 };
        let other = if player == 0 { Seat::Player2 } else { Seat::Player1 };
        let not_asked = Event::Received(other, received(&select_yes_no(player)));
        assert!(matches!(drive.drive_replay(not_asked), Ok(Action::Wait)));
        let asked = Event::Received(seat, received(&select_yes_no(player)));
        match drive.drive_replay(asked) {
            Ok(Action::Respond(who, response)) => {
                assert_eq!(who, seat);
                given.push(response);
            }
            other => panic!("{other:?}"),
        }
    }
    assert_eq!(given, vec![vec![1], vec![2, 2], vec![3]]);
    let asked = Event::Received(Seat::Player2, received(&select_yes_no(1)));
    assert!(matches!(drive.drive_replay(asked), Ok(Action::Finish)));
    assert_eq!(drive.into_recorded().into_messages(), vec![type_change()]);
}

#[test]
fn observer_records_until_a_player_has_won() {
    let mut drive = Drive::new(responses(&[&[1]]), Record::new());
    let seen = Event::Received(Seat::Observer, received(&select_yes_no(0)));
    assert!(matches!(drive.drive_replay(seen), Ok(Action::Wait)));
    let retried = Event::Received(Seat::Observer, received(&[1, 1]));
    assert!(matches!(drive.drive_replay(retried), Ok(Action::Wait)));
    let player_wins = Event::Received(Seat::Player1, received(&win()));
    assert!(matches!(drive.drive_replay(player_wins), Ok(Action::Wait)));
    let won = Event::Received(Seat::Observer, received(&win()));
    assert!(matches!(drive.drive_replay(won), Ok(Action::Finish)));
    assert_eq!(drive.into_recorded().into_messages(), vec![select_yes_no(0), vec![1, 1], win()]);
}

#[test]
fn players_confirm_their_own_time_limit() {
    let mut drive = Drive::new(responses(&[]), Record::new());
    let own = Event::Received(Seat::Player2, received(&[24, 1, 0, 10, 0]));
    assert!(matches!(drive.drive_replay(own), Ok(Action::Confirm(Seat::Player2))));
    let others = Event::Received(Seat::Player1, received(&[24, 1, 0, 10, 0]));
    assert!(matches!(drive.drive_replay(others), Ok(Action::Wait)));
}

#[test]
fn only_a_response_renews_the_time() {
    assert!(Action::Respond(Seat::Player1, vec![]).renews_time());
    assert!(!Action::Wait.renews_time());
    assert!(!Action::Confirm(Seat::Player2).renews_time());
    assert!(!Action::Finish.renews_time());
}

#[test]
fn duel_that_stops_is_given_up() {
    let mut drive = Drive::new(responses(&[&[1]]), Record::new());
    assert!(matches!(drive.drive_replay(Event::TimedOut), Err(DriveError::TimedOut(0))));
    for seat in [Seat::Player1, Seat::Player2, Seat::Observer] {
        match drive.drive_replay(Event::Disconnected(seat)) {
            Err(DriveError::Disconnected(who)) => assert_eq!(who, seat),
            other => panic!("{other:?}"),
        }
    }
    let asked = Event::Received(Seat::Player1, received(&select_yes_no(0)));
    assert!(matches!(drive.drive_replay(asked), Ok(Action::Respond(Seat::Player1, _))));
    assert!(matches!(drive.drive_replay(Event::TimedOut), Err(DriveError::TimedOut(1))));
    let rejected = Event::Received(Seat::Player1, received(&[1, 1]));
    assert!(matches!(drive.drive_replay(rejected), Err(DriveError::Desynced(1))));
}

#[test]
fn refused_responses_are_numbered() {
    let mut drive = Drive::new(responses(&[&[1], &[7; 65]]), Record::new());
    let ask = || Event::Received(Seat::Player1, received(&select_yes_no(0)));
    assert!(matches!(drive.drive_replay(ask()), Ok(Action::Respond(_, _))));
    assert!(matches!(
        drive.drive_replay(ask()),
        Err(DriveError::BadResponse(1, ReadError::ResponseTooLong))
    ));
    let mut drive = Drive::new(Responses::new(vec![2, 0], 0), Record::new());
    assert!(matches!(
        drive.drive_replay(ask()),
        Err(DriveError::BadResponse(0, ReadError::InvalidResponse(_)))
    ));
}

fn recorded_duel() -> Vec<Vec<u8>> {
    vec![
        player_enter("Yugi", 0),
        player_enter("Kaiba", 1),
        type_change(),
        vec![1, 5, 1, 0],
        vec![21],
        select_yes_no(1),
        vec![3],
        win(),
    ]
}

#[test]
fn record_is_written_as_the_server_crate_writes_it() {
    let recorded = recorded_duel();
    let messages: Vec<Complex<stoc::Message>> =
        recorded.iter().map(|data| Complex::new(data.clone().into())).collect();
    let mut writer = Cursor::new(Vec::new());
    forge::Replay { messages: stoc_to_forge(&messages) }.write_le(&mut writer).unwrap();
    let expected = writer.into_inner();
    let file = write_yrp3d(record(recorded)).unwrap();
    assert_eq!(file, expected);
    let read = forge::Replay::read_le(&mut Cursor::new(&file)).unwrap();
    assert_eq!(read.messages.len(), 3);
}

#[test]
fn record_holds_what_can_be_decoded_again() {
    let mut kept = Record::new();
    kept.push(received(&win()));
    kept.push(received(&[21]));
    assert_eq!(kept.into_messages(), vec![win(), vec![21]]);
    assert!(Record::from_messages(vec![win(), vec![19, 0x18]]).is_none());
    let any = Record::from_messages(vec![win(), vec![250]]).unwrap();
    assert_eq!(any.into_messages(), vec![win(), vec![250]]);
}

#[test]
fn record_starts_with_the_last_duel() {
    let file = write_yrp3d(record(recorded_duel())).unwrap();
    let mut tail = vec![13, 5, 0, 0, 0, 1, 0, 0, 0, 0];
    tail.extend_from_slice(&[5, 2, 0, 0, 0, 0, 1]);
    assert!(file.ends_with(&tail));
    assert_eq!(write_yrp3d(record(recorded_duel()[3..].to_vec())).unwrap().len(), file.len());
}

#[test]
fn messages_that_are_left_out_change_nothing() {
    let file = write_yrp3d(record(recorded_duel())).unwrap();
    for (at, left_out) in
        [false, false, true, true, false, false, true, false].into_iter().enumerate()
    {
        let mut fewer = recorded_duel();
        fewer.remove(at);
        assert_eq!(write_yrp3d(record(fewer)).unwrap() == file, left_out);
    }
    let mut more = recorded_duel();
    more.insert(0, vec![]);
    more.insert(0, vec![21]);
    more.insert(3, vec![250, 1, 2]);
    assert_eq!(write_yrp3d(record(more)).unwrap(), file);
}

#[test]
fn finished_duel_is_written() {
    let mut recorded = recorded_duel();
    let last = recorded.pop().unwrap();
    let mut drive = Drive::new(responses(&[]), record(recorded));
    let won = Event::Received(Seat::Observer, received(&last));
    assert!(matches!(drive.drive_replay(won), Ok(Action::Finish)));
    assert_eq!(drive.finish().unwrap(), write_yrp3d(record(recorded_duel())).unwrap());
}
