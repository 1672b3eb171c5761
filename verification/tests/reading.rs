use std::io::Cursor;

use binrw::BinWrite;
use yrp3d::client::Seat;
use yrp3d::drive::{Action, Drive, Event};
use yrp3d::error::ReadError;
use yrp3d::header::{ReplayHeader, MAGIC_V1, MAGIC_V2};
use yrp3d::message::{is_safe_to_decode, receive, try_receive, ServerMessage};
use yrp3d::read::{
    accept_header, assemble, next_response, read, stored_body, unpacked_body, MAX_BODY_SIZE,
};
use yrp3d::responses::Responses;
use yrp3d::yrp3d::Record;
use ygopro_data::data as outside;
use ygopro_data::string::FixedLengthString;

const UNIFORM: u32 = 16;
const COMPRESSED: u32 = 1;
const TAG: u32 = 2;
const SINGLE_MODE: u32 = 8;

fn name_bytes(name: &str) -> Vec<u8> {
    let mut bytes: Vec<u8> = name.encode_utf16().flat_map(|unit| unit.to_le_bytes()).collect();
    bytes.resize(40, 0);
    bytes
}

fn header(id: u32, flag: u32, data_size: u32) -> ReplayHeader {
    let extended = id == MAGIC_V2;
    ReplayHeader {
        id,
        version: 0x1362,
        flag,
        seed: 0xdead_beef,
        data_size,
        start_time: 1_234_567_890,
        props: [93, 0, 0, 128, 0, 0, 0, 0],
        seed_sequence: if extended { [1, 2, 3, 4, 5, 6, 7, 8] } else { [0; 8] },
        header_version: if extended { 1 } else { 0 },
        reserved: if extended { [9, 10, 11] } else { [0; 3] },
    }
}

fn header_file(h: &ReplayHeader) -> Vec<u8> {
    let mut bytes = Vec::new();
    for word in [h.id, h.version, h.flag, h.seed, h.data_size, h.start_time] {
        bytes.extend_from_slice(&word.to_le_bytes());
    }
    bytes.extend_from_slice(&h.props);
    if h.id == MAGIC_V2 {
        for word in h.seed_sequence {
            bytes.extend_from_slice(&word.to_le_bytes());
        }
        bytes.extend_from_slice(&h.header_version.to_le_bytes());
        for word in h.reserved {
            bytes.extend_from_slice(&word.to_le_bytes());
        }
    }
    bytes
}

fn deck_file(main: &[u32], extra: &[u32]) -> Vec<u8> {
    let mut bytes = Vec::new();
    for part in [main, extra] {
        bytes.extend_from_slice(&(part.len() as u32).to_le_bytes());
        for code in part {
            bytes.extend_from_slice(&code.to_le_bytes());
        }
    }
    bytes
}

fn initial_file() -> Vec<u8> {
    let mut bytes = name_bytes("Host");
    bytes.extend(name_bytes("Client"));
    for word in [8000u32, 5, 1] {
        bytes.extend_from_slice(&word.to_le_bytes());
    }
    bytes.extend_from_slice(&0x18u16.to_le_bytes());
    bytes.extend_from_slice(&5u16.to_le_bytes());
    bytes.extend(deck_file(&[89631139, 46986414, 55144522], &[44508094]));
    bytes.extend(deck_file(&[38033121], &[]));
    bytes
}

fn responses_file(responses: &[&[u8]]) -> Vec<u8> {
    let mut bytes = Vec::new();
    for response in responses {
        bytes.push(response.len() as u8);
        bytes.extend_from_slice(response);
    }
    bytes
}

fn body_file() -> Vec<u8> {
    let mut body = initial_file();
    body.extend(responses_file(&[&[1, 2, 3], &[], &[0xff; 64]]));
    body
}

fn outside_replay(flag: u32) -> outside::Replay {
    let mut replay = outside::Replay {
        header: outside::ReplayHeader {
            id: MAGIC_V2,
            version: 0x1362,
            flag: outside::ReplayHeaderFlags::from_bits_retain(flag),
            seed: 7,
            data_size: 0,
            start_time: 99,
            props: [93, 0, 0, 128, 0, 0, 0, 0],
            seed_sequence: [8, 7, 6, 5, 4, 3, 2, 1],
            header_version: 1,
            reserved: [0; 3],
        },
        body: outside::ReplayBody {
            host_name: FixedLengthString::new("Host".to_string()),
            tag_host_name: None,
            tag_client_name: None,
            client_name: FixedLengthString::new("Client".to_string()),
            start_lp: 4000,
            start_hand: 6,
            draw_count: 2,
            duel_options: outside::DuelOptions::PseudoShuffle,
            duel_rule: 4,
            host_deck: outside::ReplayDeck { main: (1..=40).collect(), extra: vec![41, 42] },
            tag_host_deck: None,
            client_deck: outside::ReplayDeck { main: (51..=90).collect(), extra: vec![] },
            tag_client_deck: None,
            datas: vec![
                outside::Response::Unknown(vec![1, 2, 3]).into(),
                outside::Response::Unknown(vec![7; 64]).into(),
            ],
        },
    };
    replay.fill_data_size();
    replay
}

fn outside_file(replay: &outside::Replay) -> Vec<u8> {
    let mut writer = Cursor::new(Vec::new());
    replay.write_le(&mut writer).unwrap();
    writer.into_inner()
}

fn all_responses(mut responses: Responses) -> Vec<Vec<u8>> {
    let mut all = Vec::new();
    while let Some(response) = next_response(&mut responses).unwrap() {
        all.push(response);
    }
    all
}

fn check_outside(bytes: &[u8], original: &outside::Replay) {
    let (replay, responses) = read(bytes).unwrap();
    assert_eq!(replay.header.id, original.header.id);
    assert_eq!(replay.header.version, original.header.version);
    assert_eq!(replay.header.flag, original.header.flag.bits() & !COMPRESSED);
    assert_eq!(replay.header.seed, original.header.seed);
    assert_eq!(replay.header.start_time, original.header.start_time);
    assert_eq!(replay.header.props, original.header.props);
    assert_eq!(replay.header.seed_sequence, original.header.seed_sequence);
    assert_eq!(replay.header.header_version, original.header.header_version);
    assert_eq!(replay.header.reserved, original.header.reserved);
    assert_eq!(replay.header.data_size as usize, responses.position());
    assert_eq!(responses.body().len(), original.header.data_size as usize);
    assert_eq!(replay.body.host_name, name_bytes("Host"));
    assert_eq!(replay.body.client_name, name_bytes("Client"));
    assert_eq!(replay.body.start_lp, original.body.start_lp);
    assert_eq!(replay.body.start_hand, original.body.start_hand);
    assert_eq!(replay.body.draw_count, original.body.draw_count);
    assert_eq!(replay.body.duel_options, original.body.duel_options.bits());
    assert_eq!(replay.body.duel_rule, original.body.duel_rule);
    assert_eq!(replay.body.host_deck.main, original.body.host_deck.main);
    assert_eq!(replay.body.host_deck.extra, original.body.host_deck.extra);
    assert_eq!(replay.body.client_deck.main, original.body.client_deck.main);
    assert_eq!(replay.body.client_deck.extra, original.body.client_deck.extra);
    assert_eq!(all_responses(responses), vec![vec![1u8, 2, 3], vec![7u8; 64]]);
}

#[test]
fn plain_replay_is_read() {
    let original = outside_replay(UNIFORM);
    check_outside(&outside_file(&original), &original);
}

#[test]
fn packed_replay_is_read() {
    let original = outside_replay(UNIFORM | COMPRESSED);
    let bytes = outside_file(&original);
    assert!(bytes.len() < outside_file(&outside_replay(UNIFORM)).len());
    check_outside(&bytes, &original);
}

#[test]
fn bytes_behind_a_packed_body_change_nothing() {
    let original = outside_replay(UNIFORM | COMPRESSED);
    let mut bytes = outside_file(&original);
    bytes.extend_from_slice(b"appended by some other program");
    check_outside(&bytes, &original);
}

#[test]
fn bytes_behind_a_plain_body_change_nothing() {
    let original = outside_replay(UNIFORM);
    let mut bytes = outside_file(&original);
    bytes.extend_from_slice(&[0xff; 100]);
    check_outside(&bytes, &original);
}

#[test]
fn first_version_replay_is_read() {
    let body = body_file();
    let h = header(MAGIC_V1, 0, body.len() as u32);
    let mut bytes = header_file(&h);
    assert_eq!(bytes.len(), 32);
    bytes.extend_from_slice(&body);
    let (replay, responses) = read(&bytes).unwrap();
    assert_eq!(replay.header.id, MAGIC_V1);
    assert_eq!(replay.header.seed, 0xdead_beef);
    assert_eq!(replay.header.seed_sequence, [0; 8]);
    assert_eq!(replay.header.data_size as usize, initial_file().len());
    assert_eq!(replay.body.start_lp, 8000);
    assert_eq!(replay.body.duel_options, 0x18);
    assert_eq!(replay.body.duel_rule, 5);
    assert_eq!(replay.body.host_deck.main, vec![89631139, 46986414, 55144522]);
    assert_eq!(replay.body.host_deck.extra, vec![44508094]);
    assert_eq!(replay.body.client_deck.main, vec![38033121]);
    assert_eq!(replay.body.client_deck.extra, Vec::<u32>::new());
    assert_eq!(all_responses(responses), vec![vec![1, 2, 3], vec![], vec![0xff; 64]]);
}

#[test]
fn unfinished_replay_takes_all_there_is() {
    let mut bytes = header_file(&header(MAGIC_V2, UNIFORM, 0));
    assert_eq!(bytes.len(), 80);
    bytes.extend(body_file());
    let (replay, responses) = read(&bytes).unwrap();
    assert_eq!(replay.header.reserved, [9, 10, 11]);
    assert_eq!(responses.body(), body_file().as_slice());
    assert_eq!(responses.position(), initial_file().len());
}

#[test]
fn unfinished_replay_may_grow() {
    let mut bytes = header_file(&header(MAGIC_V2, UNIFORM, 0));
    bytes.extend(body_file());
    let (before, old) = read(&bytes).unwrap();
    bytes.extend_from_slice(&[2, 8, 9]);
    let (after, new) = read(&bytes).unwrap();
    assert_eq!(header_file(&after.header), header_file(&before.header));
    assert_eq!(after.body.client_deck.main, before.body.client_deck.main);
    assert_eq!(new.position(), old.position());
    assert_eq!(new.body(), [old.body(), &[2, 8, 9]].concat());
    assert_eq!(all_responses(new).last(), Some(&vec![8, 9]));
}

#[test]
fn replays_inside_messages_are_decoded_where_they_fit() {
    let packed = outside_file(&outside_replay(UNIFORM | COMPRESSED));
    let mut large = packed.clone();
    large[25..29].copy_from_slice(&[0xff; 4]);
    let plain = outside_file(&outside_replay(UNIFORM));
    for (file, fits) in [(packed, true), (large, usize::BITS > 32), (plain, true)] {
        for (front, expected) in [
            (vec![23u8], ServerMessage::Other { kind: 23 }),
            (vec![1u8, 231], ServerMessage::Game { code: 231, waiting_for: None }),
        ] {
            let data = [front, file.clone()].concat();
            assert_eq!(is_safe_to_decode(&data), fits);
            match try_receive(data) {
                Some(received) => {
                    assert!(fits);
                    assert_eq!(received.unwrap().message(), expected);
                }
                None => assert!(!fits),
            }
        }
    }
    assert!(is_safe_to_decode(&[23]));
    assert!(try_receive(vec![23]).unwrap().is_err());
}

#[test]
fn open_replay_is_read_again_as_itself() {
    let original = outside_replay(UNIFORM | COMPRESSED);
    let (replay, responses) = read(&outside_file(&original)).unwrap();
    let mut bytes = header_file(&replay.header);
    bytes.extend_from_slice(&responses.body()[..responses.position()]);
    let (again, mut rest) = read(&bytes).unwrap();
    assert_eq!(header_file(&again.header), header_file(&replay.header));
    assert_eq!(again.body.host_deck.main, replay.body.host_deck.main);
    assert_eq!(again.body.client_deck.main, replay.body.client_deck.main);
    assert_eq!(again.body.host_name, replay.body.host_name);
    assert!(next_response(&mut rest).unwrap().is_none());
}

#[test]
fn responses_are_not_looked_at_when_a_replay_is_opened() {
    let mut bytes = header_file(&header(MAGIC_V2, UNIFORM, 0));
    bytes.extend(initial_file());
    bytes.extend_from_slice(&[200, 1]);
    let (replay, mut responses) = read(&bytes).unwrap();
    assert_eq!(replay.body.client_deck.main, vec![38033121]);
    assert!(matches!(next_response(&mut responses), Err(ReadError::InvalidResponse(_))));
}

#[test]
fn short_header_is_refused() {
    let bytes = header_file(&header(MAGIC_V2, UNIFORM, 0));
    for end in [0, 3, 31, 32, 79] {
        assert!(matches!(read(&bytes[..end]), Err(ReadError::InvalidHeader(_))));
    }
    assert!(matches!(accept_header(&bytes[..79]), Err(ReadError::InvalidHeader(_))));
    let (h, end) = accept_header(&bytes).unwrap();
    assert_eq!((h.version, end), (0x1362, 80));
}

#[test]
fn unknown_magic_is_refused() {
    let mut bytes = header_file(&header(0x33707279, 0, 0));
    bytes.extend(body_file());
    assert!(matches!(read(&bytes), Err(ReadError::UnsupportedMagic(0x33707279))));
}

#[test]
fn team_and_puzzle_replays_are_refused() {
    for (flag, tag) in [(TAG, true), (TAG | SINGLE_MODE, true), (SINGLE_MODE, false)] {
        let mut bytes = header_file(&header(MAGIC_V1, flag, 0));
        bytes.extend(body_file());
        match read(&bytes) {
            Err(ReadError::TagReplay) => assert!(tag),
            Err(ReadError::SingleModeReplay) => assert!(!tag),
            other => panic!("{other:?}"),
        }
    }
}

#[test]
fn large_bodies_are_refused() {
    let declared = header_file(&header(MAGIC_V1, 0, MAX_BODY_SIZE as u32 + 1));
    assert!(matches!(read(&declared), Err(ReadError::BodyTooLarge)));
    let mut bytes = header_file(&header(MAGIC_V1, 0, 0));
    bytes.resize(32 + MAX_BODY_SIZE + 1, 0);
    assert!(matches!(read(&bytes), Err(ReadError::BodyTooLarge)));
    bytes.truncate(32 + MAX_BODY_SIZE);
    assert!(read(&bytes).is_ok());
    let packed = header_file(&header(MAGIC_V1, COMPRESSED, MAX_BODY_SIZE as u32));
    assert!(matches!(read(&packed), Err(ReadError::InvalidBody(_))));
}

#[test]
fn damaged_packed_bodies_are_refused() {
    let original = outside_replay(UNIFORM | COMPRESSED);
    let bytes = outside_file(&original);
    assert!(matches!(read(&bytes[..bytes.len() / 2]), Err(ReadError::InvalidBody(_))));
    let mut wrong_props = bytes.clone();
    wrong_props[24] = 0xff;
    assert!(matches!(read(&wrong_props), Err(ReadError::InvalidBody(_))));
}

#[test]
fn short_plain_body_is_refused() {
    let body = body_file();
    let mut bytes = header_file(&header(MAGIC_V2, 0, body.len() as u32 + 1));
    bytes.extend_from_slice(&body);
    assert!(matches!(read(&bytes), Err(ReadError::TruncatedBody)));
    bytes.push(0);
    assert!(read(&bytes).is_ok());
}

#[test]
fn body_that_ends_inside_its_starting_state_is_refused() {
    let initial = initial_file();
    for end in [0, 39, 95, 96, 99, 100, initial.len() - 1] {
        let mut bytes = header_file(&header(MAGIC_V1, 0, 0));
        bytes.extend_from_slice(&initial[..end]);
        assert!(matches!(read(&bytes), Err(ReadError::InvalidInitialState(_))));
    }
    let mut huge = initial.clone();
    huge[96..100].copy_from_slice(&u32::MAX.to_le_bytes());
    let mut bytes = header_file(&header(MAGIC_V1, 0, 0));
    bytes.extend_from_slice(&huge);
    assert!(matches!(read(&bytes), Err(ReadError::InvalidInitialState(_))));
}

#[test]
fn body_of_another_length_is_refused() {
    let body = body_file();
    let size = body.len() as u32;
    let short = assemble(header(MAGIC_V2, COMPRESSED, size + 1), body.clone());
    assert!(matches!(short, Err(ReadError::BodySizeMismatch)));
    let long = assemble(header(MAGIC_V2, 0, size - 1), body.clone());
    assert!(matches!(long, Err(ReadError::BodySizeMismatch)));
    let empty = assemble(header(MAGIC_V2, COMPRESSED, 0), body.clone());
    assert!(matches!(empty, Err(ReadError::BodySizeMismatch)));
    let (replay, responses) = assemble(header(MAGIC_V2, COMPRESSED, size), body).unwrap();
    assert_eq!(replay.header.flag, 0);
    assert_eq!(replay.header.data_size as usize, responses.position());
}

#[test]
fn stored_body_is_cut_to_its_length() {
    let raw: Vec<u8> = (0..200).collect();
    assert_eq!(stored_body(&header(MAGIC_V1, 0, 7), &raw).unwrap(), raw[..7].to_vec());
    assert_eq!(stored_body(&header(MAGIC_V1, 0, 0), &raw).unwrap(), raw);
    assert!(matches!(
        stored_body(&header(MAGIC_V1, 0, 201), &raw),
        Err(ReadError::TruncatedBody)
    ));
}

#[test]
fn packed_body_is_unpacked() {
    let body = body_file();
    let mut packed = Vec::new();
    let options = lzma_rs::compress::Options {
        unpacked_size: lzma_rs::compress::UnpackedSize::SkipWritingToHeader,
    };
    lzma_rs::lzma_compress_with_options(&mut Cursor::new(&body), &mut packed, &options).unwrap();
    let mut h = header(MAGIC_V1, COMPRESSED, body.len() as u32);
    h.props[..5].copy_from_slice(&packed[..5]);
    assert_eq!(unpacked_body(&h, &packed[5..]).unwrap(), body);
    h.data_size = 10;
    assert_eq!(unpacked_body(&h, &packed[5..]).unwrap(), body[..10].to_vec());
    h.data_size = body.len() as u32 + 1;
    assert!(matches!(unpacked_body(&h, &packed[5..]), Err(ReadError::InvalidBody(_))));
}

#[test]
fn largest_dictionary_is_accepted_where_it_fits() {
    let mut bytes = outside_file(&outside_replay(UNIFORM | COMPRESSED));
    bytes[25..29].copy_from_slice(&[0xff; 4]);
    match read(&bytes) {
        Ok((replay, responses)) => {
            assert!(usize::BITS > 32);
            assert_eq!(replay.body.start_lp, 4000);
            assert_eq!(all_responses(responses), vec![vec![1u8, 2, 3], vec![7u8; 64]]);
        }
        Err(ReadError::DictionaryTooLarge(size)) => {
            assert!(usize::BITS == 32);
            assert_eq!(size, u32::MAX);
        }
        Err(other) => panic!("{other:?}"),
    }
}

#[test]
fn packed_replay_is_played_back() {
    let (_, responses) = read(&outside_file(&outside_replay(COMPRESSED))).unwrap();
    let mut drive = Drive::new(responses, Record::new());
    let mut ask = || {
        let asked = receive(vec![1, 13, 1, 0, 0, 0, 0]).unwrap();
        drive.drive_replay(Event::Received(Seat::Player2, asked)).unwrap()
    };
    for expected in [vec![1, 2, 3], vec![7; 64]] {
        match ask() {
            Action::Respond(Seat::Player2, response) => assert_eq!(response, expected),
            other => panic!("{other:?}"),
        }
    }
    assert!(matches!(ask(), Action::Finish));
}

#[test]
fn responses_are_taken_in_order() {
    let mut body = vec![0xaa, 0xbb];
    body.extend(responses_file(&[&[5], &[], &[6, 7]]));
    let mut responses = Responses::new(body, 2);
    assert_eq!(next_response(&mut responses).unwrap(), Some(vec![5]));
    assert_eq!(responses.position(), 4);
    assert_eq!(next_response(&mut responses).unwrap(), Some(vec![]));
    assert_eq!(responses.position(), 5);
    assert_eq!(next_response(&mut responses).unwrap(), Some(vec![6, 7]));
    assert_eq!(next_response(&mut responses).unwrap(), None);
    assert_eq!(next_response(&mut responses).unwrap(), None);
    assert_eq!(responses.position(), 8);
}

#[test]
fn response_that_ends_early_is_refused_and_stays() {
    let mut responses = Responses::new(vec![3, 1, 2], 0);
    for _ in 0..2 {
        assert!(matches!(
            next_response(&mut responses),
            Err(ReadError::InvalidResponse(_))
        ));
        assert_eq!(responses.position(), 0);
    }
}

#[test]
fn long_response_is_refused_and_passed_over() {
    let mut responses = Responses::new(responses_file(&[&[1; 65], &[9; 255], &[2]]), 0);
    assert!(matches!(next_response(&mut responses), Err(ReadError::ResponseTooLong)));
    assert_eq!(responses.position(), 66);
    assert!(matches!(next_response(&mut responses), Err(ReadError::ResponseTooLong)));
    assert_eq!(next_response(&mut responses).unwrap(), Some(vec![2]));
}

#[test]
fn header_flags_are_told_apart() {
    let h = header(MAGIC_V1, COMPRESSED | SINGLE_MODE, 0);
    assert!(h.is_compressed() && !h.is_tag() && h.is_single_mode());
    let h = header(MAGIC_V1, TAG | UNIFORM, 0);
    assert!(!h.is_compressed() && h.is_tag() && !h.is_single_mode());
}
