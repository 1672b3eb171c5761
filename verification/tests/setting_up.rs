use yrp3d::error::ReadError;
use yrp3d::header::{ReplayHeader, MAGIC_V1, MAGIC_V2};
use yrp3d::replay::{Replay, ReplayBody, ReplayDeck};
use yrp3d::setup::{
    prepare, replay_seed, validate_replay, DuelSeed, HostInfo, MODE_SINGLE, MODE_TAG, POOL_OCG,
};
use ygopro_data::data as outside;
use ygopro_data::string::FixedLengthString;

fn header(id: u32) -> ReplayHeader {
    ReplayHeader {
        id,
        version: 1,
        flag: 0,
        seed: 0x1234_5678,
        data_size: 0,
        start_time: 0,
        props: [0; 8],
        seed_sequence: [11, 12, 13, 14, 15, 16, 17, 18],
        header_version: 0,
        reserved: [0; 3],
    }
}

fn body(duel_options: u16, duel_rule: u16) -> ReplayBody {
    ReplayBody {
        host_name: vec![0; 40],
        client_name: vec![0; 40],
        start_lp: 70_000,
        start_hand: 0x105,
        draw_count: 0x201,
        duel_options,
        duel_rule,
        host_deck: ReplayDeck { main: vec![1, 2, 3], extra: vec![4, 5] },
        client_deck: ReplayDeck { main: vec![6], extra: vec![] },
    }
}

fn outside_replay(body: &ReplayBody) -> outside::Replay {
    outside::Replay {
        header: outside::ReplayHeader {
            id: MAGIC_V1,
            version: 0,
            flag: outside::ReplayHeaderFlags::empty(),
            seed: 0,
            data_size: 0,
            start_time: 0,
            props: [0; 8],
            seed_sequence: [0; 8],
            header_version: 0,
            reserved: [0; 3],
        },
        body: outside::ReplayBody {
            host_name: FixedLengthString::allocate(),
            tag_host_name: None,
            tag_client_name: None,
            client_name: FixedLengthString::allocate(),
            start_lp: body.start_lp,
            start_hand: body.start_hand,
            draw_count: body.draw_count,
            duel_options: outside::DuelOptions::from_bits_retain(body.duel_options),
            duel_rule: body.duel_rule,
            host_deck: outside::ReplayDeck::default(),
            tag_host_deck: None,
            client_deck: outside::ReplayDeck::default(),
            tag_client_deck: None,
            datas: vec![],
        },
    }
}

fn file(id: u32, duel_options: u16) -> Vec<u8> {
    let mut bytes = Vec::new();
    for word in [id, 0x1362, 0, 77, 0, 0, 0, 0] {
        bytes.extend_from_slice(&u32::to_le_bytes(word));
    }
    if id == MAGIC_V2 {
        for word in [21u32, 22, 23, 24, 25, 26, 27, 28, 1, 0, 0, 0] {
            bytes.extend_from_slice(&word.to_le_bytes());
        }
    }
    bytes.extend_from_slice(&[0; 80]);
    for word in [8000u32, 5, 1] {
        bytes.extend_from_slice(&word.to_le_bytes());
    }
    bytes.extend_from_slice(&duel_options.to_le_bytes());
    bytes.extend_from_slice(&3u16.to_le_bytes());
    bytes.extend_from_slice(&[0; 16]);
    bytes.extend_from_slice(&[1, 42]);
    bytes
}

#[test]
fn seed_follows_the_format_version() {
    assert_eq!(replay_seed(&header(MAGIC_V1)).unwrap(), DuelSeed::Single(0x1234_5678));
    assert_eq!(
        replay_seed(&header(MAGIC_V2)).unwrap(),
        DuelSeed::Complicated([11, 12, 13, 14, 15, 16, 17, 18])
    );
    assert!(matches!(replay_seed(&header(5)), Err(ReadError::UnsupportedMagic(5))));
}

#[test]
fn only_supported_options_are_accepted() {
    for options in 0..=u16::MAX {
        let replay = Replay { header: header(MAGIC_V1), body: body(options, 1) };
        let tag = outside_replay(&replay.body).is_tag();
        match validate_replay(&replay) {
            Ok(()) => assert!(!tag && options & !0x18 == 0),
            Err(ReadError::TagReplay) => assert!(tag),
            Err(ReadError::UnsupportedOptions(refused)) => {
                assert!(!tag && options & !0x18 != 0);
                assert_eq!(refused, options);
            }
            Err(other) => panic!("{other:?}"),
        }
    }
}

#[test]
fn rules_are_those_of_the_replay() {
    assert_eq!(
        body(0x10, 5).host_info(),
        HostInfo {
            lflist: 999,
            rule: POOL_OCG,
            mode: MODE_SINGLE,
            duel_rule: 5,
            no_check_deck: true,
            no_shuffle_deck: true,
            start_lp: 70_000,
            start_hand: 5,
            draw_count: 1,
            time_limit: 0,
        }
    );
    assert_eq!(body(0x8, 5).host_info().duel_rule, 1);
    assert_eq!(body(0x20, 3).host_info().mode, MODE_TAG);
    assert_eq!(body(0, 0x102).host_info().duel_rule, 2);
    assert_eq!(body(0, 6).host_info().duel_rule, 1);
    assert_eq!(body(0, 0).host_info().duel_rule, 1);
}

#[test]
fn rules_agree_with_the_server_crate() {
    for options in 0..0x200u16 {
        for rule in [0u16, 1, 2, 3, 4, 5, 6, 255, 256, 257, 0x104, 0xffff] {
            let body = body(options, rule);
            let info = body.host_info();
            let theirs = outside_replay(&body).host_info();
            assert_eq!(info.lflist, theirs.lflist);
            assert_eq!(info.rule, u8::from(theirs.rule));
            assert_eq!(info.mode, u8::from(theirs.mode));
            assert_eq!(info.duel_rule, u8::from(theirs.duel_rule));
            assert_eq!(info.no_check_deck, theirs.no_check_deck);
            assert_eq!(info.no_shuffle_deck, theirs.no_shuffle_deck);
            assert_eq!(info.start_lp, theirs.start_lp);
            assert_eq!(info.start_hand, theirs.start_hand);
            assert_eq!(info.draw_count, theirs.draw_count);
            assert_eq!(info.time_limit, theirs.time_limit);
        }
    }
}

#[test]
fn decks_are_turned_over() {
    let deck = body(0, 1).host_deck.to_deck();
    assert_eq!(deck.main, vec![3, 2, 1]);
    assert_eq!(deck.extra, vec![5, 4]);
    assert!(deck.side.is_empty());
    let theirs: outside::Deck =
        outside::ReplayDeck { main: vec![1, 2, 3], extra: vec![4, 5] }.into();
    assert_eq!((deck.main, deck.extra, deck.side), (theirs.main, theirs.extra, theirs.side));
}

#[test]
fn duel_is_prepared() {
    let mut prepared = prepare(&file(MAGIC_V2, 0x18)).unwrap();
    assert_eq!(prepared.seed, DuelSeed::Complicated([21, 22, 23, 24, 25, 26, 27, 28]));
    assert_eq!(prepared.host_info.duel_rule, 1);
    assert_eq!(prepared.host_info.start_lp, 8000);
    assert!(prepared.host_info.no_shuffle_deck);
    assert_eq!(prepared.replay.header.data_size, 112);
    let response = yrp3d::responses::next_response(&mut prepared.responses).unwrap();
    assert_eq!(response, Some(vec![42]));
    assert_eq!(prepare(&file(MAGIC_V1, 0)).unwrap().seed, DuelSeed::Single(77));
    assert_eq!(
        prepare(&file(MAGIC_V1, 0)).unwrap().host_info.duel_rule,
        3
    );
}

#[test]
fn duel_that_cannot_be_reconstructed_is_refused() {
    assert!(matches!(prepare(&file(MAGIC_V1, 0x21)), Err(ReadError::TagReplay)));
    assert!(matches!(
        prepare(&file(MAGIC_V1, 0x41)),
        Err(ReadError::UnsupportedOptions(0x41))
    ));
    assert!(matches!(prepare(&file(6, 0)), Err(ReadError::UnsupportedMagic(6))));
    assert!(matches!(prepare(&[]), Err(ReadError::InvalidHeader(_))));
}
