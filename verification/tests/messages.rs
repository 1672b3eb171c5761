use ygopro_data::complex::Complex;
use ygopro_data::message::gm::{self, GameMessage};
use ygopro_data::message::stoc;
use yrp3d::message::{
    is_safe_to_decode, receive, should_respond, try_receive, Reaction, ServerMessage, CODE_RETRY, CODE_WIN,
    FIRST_ATTACK_PLAYER, KIND_PLAYER_CHANGE, KIND_PLAYER_ENTER, KIND_SELECT_HAND, KIND_SELECT_TP,
    KIND_TYPE_CHANGE, SECOND_ATTACK_PLAYER,
};

const ASKING: [u8; 19] =
    [10, 11, 12, 13, 14, 15, 16, 18, 19, 20, 22, 24, 25, 26, 132, 140, 141, 142, 143];

fn message(data: &[u8]) -> ServerMessage {
    assert!(is_safe_to_decode(data));
    receive(data.to_vec()).unwrap().message()
}

fn game(code: u8, rest: &[u8]) -> Vec<u8> {
    let mut data = vec![1, code];
    data.extend_from_slice(rest);
    data
}

#[test]
fn room_messages_are_understood() {
    assert_eq!(message(&[3]), ServerMessage::Other { kind: KIND_SELECT_HAND });
    assert_eq!(message(&[4]), ServerMessage::Other { kind: KIND_SELECT_TP });
    assert_eq!(message(&[19, 0x10]), ServerMessage::Other { kind: KIND_TYPE_CHANGE });
    let mut enter = vec![32];
    enter.extend_from_slice(&[0; 41]);
    assert_eq!(message(&enter), ServerMessage::Other { kind: KIND_PLAYER_ENTER });
    assert_eq!(message(&[33, 0x19]), ServerMessage::Other { kind: KIND_PLAYER_CHANGE });
    assert_eq!(message(&[24, 1, 0, 180, 0]), ServerMessage::TimeLimit { player: 1 });
    assert_eq!(message(&[21]).message_type(), 21);
    assert_eq!(message(&[24, 0, 0, 0, 0]).message_type(), 24);
    assert_eq!(message(&game(CODE_RETRY, &[])).message_type(), 1);
}

#[test]
fn engine_messages_are_understood() {
    let retry = message(&game(CODE_RETRY, &[]));
    assert_eq!(retry, ServerMessage::Game { code: 1, waiting_for: None });
    let win = message(&game(CODE_WIN, &[0, 1]));
    assert_eq!(win, ServerMessage::Game { code: 5, waiting_for: None });
    assert!(win.is_win() && !retry.is_win());
    let yes_no = message(&game(13, &[1, 0, 0, 0, 0]));
    assert_eq!(yes_no, ServerMessage::Game { code: 13, waiting_for: Some(1) });
    let sum = message(&game(23, &[0; 40]));
    assert_eq!(sum, ServerMessage::Game { code: 23, waiting_for: Some(0) });
    let sum = message(&game(23, &[0, 1, 0, 0, 0, 0, 0, 0, 0, 0, 0, 0]));
    assert_eq!(sum, ServerMessage::Game { code: 23, waiting_for: Some(1) });
}

#[test]
fn asking_messages_name_the_player_behind_their_code() {
    for code in ASKING {
        for player in [0u8, 1] {
            let mut rest = vec![player];
            rest.extend_from_slice(&[0; 60]);
            let asked = message(&game(code, &rest));
            assert_eq!(asked, ServerMessage::Game { code, waiting_for: Some(player) });
        }
    }
}

#[test]
fn understanding_agrees_with_the_server_crate() {
    let mut understood = 0;
    for kind in 0..=255u8 {
        for code in 0..=255u8 {
            if kind != 1 && code > 8 {
                continue;
            }
            for (third, fourth) in [(0u8, 0u8), (1, 1), (5, 1), (1, 3), (7, 0)] {
                let mut data = vec![kind, code, third, fourth];
                data.extend_from_slice(&[0; 120]);
                if !is_safe_to_decode(&data) {
                    continue;
                }
                let complex = Complex::<stoc::Message>::new(data.clone().into());
                match (complex.try_get(), receive(data.clone())) {
                    (Ok(theirs), Ok(ours)) => {
                        understood += 1;
                        let expected = match theirs {
                            stoc::Message::GameMessage(game) => ServerMessage::Game {
                                code: gm::MessageType::from(&game.message).into(),
                                waiting_for: game.message.waiting_for().map(u8::from),
                            },
                            stoc::Message::TimeLimit(limit) => {
                                ServerMessage::TimeLimit { player: limit.player.into() }
                            }
                            other => ServerMessage::Other {
                                kind: stoc::MessageType::from(other).into(),
                            },
                        };
                        assert_eq!(ours.message(), expected);
                        let stated = match data[0] {
                            1 => ServerMessage::Game {
                                code: data[1],
                                waiting_for: if ASKING.contains(&data[1]) {
                                    Some(data[2])
                                } else if data[1] == 23 {
                                    Some(data[3])
                                } else {
                                    None
                                },
                            },
                            24 => ServerMessage::TimeLimit { player: data[1] },
                            kind => ServerMessage::Other { kind },
                        };
                        assert_eq!(ours.message(), stated);
                        assert_eq!(ours.into_data(), data);
                    }
                    (Err(_), Err(_)) => {}
                    _ => panic!("disagreement on {data:?}"),
                }
            }
        }
    }
    assert!(understood > 200);
}

#[test]
fn other_bytes_are_not_understood() {
    for data in [vec![], vec![1], vec![24], vec![24, 4, 0, 0, 0], vec![250, 0], vec![1, 13, 9]] {
        assert!(is_safe_to_decode(&data));
        assert!(receive(data).is_err());
    }
}

#[test]
fn bytes_that_stop_the_decoder_are_told() {
    assert!(is_safe_to_decode(&[19, 0x17]));
    assert!(!is_safe_to_decode(&[19, 0x18]));
    assert!(!is_safe_to_decode(&[19, 0x0f]));
    assert!(is_safe_to_decode(&[19]));
    assert!(is_safe_to_decode(&game(133, &[0b0101])));
    assert!(!is_safe_to_decode(&game(133, &[0b0100])));
    assert!(!is_safe_to_decode(&game(133, &[0b0001])));
    assert!(is_safe_to_decode(&game(163, &[2, 0, 0xc3, 0xa9, 0])));
    assert!(!is_safe_to_decode(&game(163, &[1, 0, 0xc3, 0xa9, 0])));
    assert!(!is_safe_to_decode(&game(164, &[1, 0, 0xff, 0])));
    assert!(is_safe_to_decode(&game(164, &[9, 0, 0xff, 0])));
    assert!(is_safe_to_decode(&game(6, &[0, 4, 4, 0, 0, 0, 8, 0, 0, 0, 0, 0, 0, 0])));
    assert!(!is_safe_to_decode(&game(6, &[0, 4, 4, 0, 0, 0, 0, 0, 0, 0, 0, 0, 0, 0])));
    assert!(is_safe_to_decode(&game(6, &[0, 4, 4, 0, 0, 0, 0, 0, 0, 0, 0, 0, 0])));
    assert!(is_safe_to_decode(&game(6, &[0, 4, 255, 255, 255, 255, 0, 0, 0, 0])));
}

#[test]
fn update_that_stops_before_an_entry_of_length_zero_is_understood() {
    let data = game(6, &[0, 4, 8, 0, 0, 0, 255, 255, 255, 0, 0, 0, 0, 0, 0, 0, 0, 0]);
    assert_eq!(message(&data), ServerMessage::Game { code: 6, waiting_for: None });
    let nobody = game(6, &[9, 4, 0, 0, 0, 0, 0, 0, 0, 0]);
    assert!(is_safe_to_decode(&nobody));
    assert!(try_receive(nobody).unwrap().is_err());
    let endless = game(6, &[5, 4, 0, 0, 0, 0, 0, 0, 0, 0]);
    assert!(!is_safe_to_decode(&endless));
    assert!(try_receive(endless).is_none());
}

#[test]
fn texts_and_updates_are_understood() {
    assert_eq!(
        message(&game(163, &[2, 0, 0xc3, 0xa9, 0])),
        ServerMessage::Game { code: 163, waiting_for: None }
    );
    assert_eq!(
        message(&game(6, &[0, 4, 4, 0, 0, 0, 8, 0, 0, 0, 0, 0, 0, 0])),
        ServerMessage::Game { code: 6, waiting_for: None }
    );
}

#[test]
fn players_react_to_what_concerns_them() {
    let asks_second = ServerMessage::Game { code: 13, waiting_for: Some(1) };
    assert_eq!(should_respond(SECOND_ATTACK_PLAYER, &asks_second), Reaction::Respond);
    assert_eq!(should_respond(FIRST_ATTACK_PLAYER, &asks_second), Reaction::Ignore);
    let limits_first = ServerMessage::TimeLimit { player: 0 };
    assert_eq!(should_respond(FIRST_ATTACK_PLAYER, &limits_first), Reaction::Confirm);
    assert_eq!(should_respond(SECOND_ATTACK_PLAYER, &limits_first), Reaction::Ignore);
    let retry = ServerMessage::Game { code: CODE_RETRY, waiting_for: None };
    assert_eq!(should_respond(FIRST_ATTACK_PLAYER, &retry), Reaction::Desynced);
    assert_eq!(should_respond(SECOND_ATTACK_PLAYER, &retry), Reaction::Desynced);
    let other = ServerMessage::Other { kind: 21 };
    assert_eq!(should_respond(FIRST_ATTACK_PLAYER, &other), Reaction::Ignore);
}
