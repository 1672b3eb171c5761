//! What a duel needs to be played again: its seed, its rules and its decks.
use vstd::prelude::*;
use std::io::Cursor;
use binrw::BinRead;
use ygopro_data::data as outside;
use crate::error::{ReadError, Refusal};
use crate::header::{
    header_bytes, header_of, law_header_is_read_from_its_place, HeaderView, ReplayHeader, MAGIC_V1,
    MAGIC_V2,
};
use crate::read::{
    law_open_replay, law_read_after_write, read, read_of, readable_kind, MAX_BODY_SIZE,
};
use crate::replay::{
    initial_bytes, BodyView, DeckView, Replay, ReplayBody, ReplayDeck, ReplayView,
};
use crate::responses::{Responses, ResponsesView};

verus! {

/// Duel option: the first edition of the rules, whatever edition is named.
pub const OPTION_OBSOLETE_RULING: u16 = 0x8;

/// Duel option: decks are not shuffled.
pub const OPTION_PSEUDO_SHUFFLE: u16 = 0x10;

/// Duel option: four players in two teams.
pub const OPTION_TAG_MODE: u16 = 0x20;

/// The duel options that can be reconstructed.
pub const SUPPORTED_OPTIONS: u16 = 0x18;

/// The number of the card list that a reconstructed duel names.
pub const CARD_LIST: u32 = 999;

/// The number of the pool of cards of the Asian card game.
pub const POOL_OCG: u8 = 0;

/// The number of the mode in which two players play one duel.
pub const MODE_SINGLE: u8 = 0;

/// The number of the mode in which four players play in two teams.
pub const MODE_TAG: u8 = 2;

/// What the random numbers of a duel start from.
#[derive(Clone, Copy, Debug, PartialEq, Eq)]
pub enum DuelSeed {
    /// The seed of a first version replay.
    Single(u32),
    /// The seed of a second version replay.
    Complicated([u32; 8]),
}

/// A seed with its array as a sequence.
pub enum SeedView {
    Single(u32),
    Complicated(Seq<u32>),
}

impl View for DuelSeed {
    type V = SeedView;

    open spec fn view(&self) -> SeedView {
        match self {
            DuelSeed::Single(seed) => SeedView::Single(*seed),
            DuelSeed::Complicated(seed) => SeedView::Complicated(seed@),
        }
    }
}

/// The rules under which a duel is hosted.
#[derive(Clone, Copy, Debug, PartialEq, Eq, Structural)]
pub struct HostInfo {
    /// The number of the card list that limits the decks.
    pub lflist: u32,
    /// The number of the pool of cards that may be played.
    pub rule: u8,
    /// The number of the mode: how many players play how many duels.
    pub mode: u8,
    /// The number of the edition of the rules.
    pub duel_rule: u8,
    /// Whether decks go unchecked.
    pub no_check_deck: bool,
    /// Whether decks go unshuffled.
    pub no_shuffle_deck: bool,
    /// The life points that each player starts with.
    pub start_lp: u32,
    /// The number of cards in each starting hand.
    pub start_hand: u8,
    /// The number of cards drawn per turn.
    pub draw_count: u8,
    /// The seconds that a player has, or zero for no limit.
    pub time_limit: u16,
}

/// A deck as a player hands it in.
#[derive(Debug)]
pub struct Deck {
    /// The codes of the main deck's cards.
    pub main: Vec<u32>,
    /// The codes of the extra deck's cards.
    pub extra: Vec<u32>,
    /// The codes of the side deck's cards.
    pub side: Vec<u32>,
}

/// A deck that is handed in, with its cards as sequences.
#[verifier::ext_equal]
pub struct HandedDeckView {
    pub main: Seq<u32>,
    pub extra: Seq<u32>,
    pub side: Seq<u32>,
}

impl View for Deck {
    type V = HandedDeckView;

    open spec fn view(&self) -> HandedDeckView {
        HandedDeckView { main: self.main@, extra: self.extra@, side: self.side@ }
    }
}

/// A stored deck as its player handed it in: each part in reverse order, and no side deck.
pub open spec fn handed_in(d: DeckView) -> HandedDeckView {
    HandedDeckView { main: d.main.reverse(), extra: d.extra.reverse(), side: Seq::empty() }
}

/// The seed that a header holds; only the two known format versions hold one.
pub open spec fn seed_of(h: HeaderView) -> Result<SeedView, Refusal> {
    if h.id == MAGIC_V1 {
        Ok(SeedView::Single(h.seed))
    } else if h.id == MAGIC_V2 {
        Ok(SeedView::Complicated(h.seed_sequence))
    } else {
        Err(Refusal::UnsupportedMagic(h.id))
    }
}

/// Whether a duel with these options can be reconstructed, or why not.
pub open spec fn validated(options: u16) -> Result<(), Refusal> {
    if options & OPTION_TAG_MODE != 0 {
        Err(Refusal::TagReplay)
    } else if options & !SUPPORTED_OPTIONS != 0 {
        Err(Refusal::UnsupportedOptions(options))
    } else {
        Ok(())
    }
}

/// The rules that a starting state asks for. Of the edition's number, the hand and the draw
/// count, the lowest byte counts; an unknown edition stands for the first.
pub open spec fn host_info_of(b: BodyView) -> HostInfo {
    let edition = b.duel_rule % 256;
    let obsolete = b.duel_options & OPTION_OBSOLETE_RULING != 0;
    let tag = b.duel_options & OPTION_TAG_MODE != 0;
    HostInfo {
        lflist: CARD_LIST,
        rule: POOL_OCG,
        mode: if tag { MODE_TAG } else { MODE_SINGLE },
        duel_rule: if obsolete || !(1 <= edition <= 5) { 1 } else { edition as u8 },
        no_check_deck: true,
        no_shuffle_deck: b.duel_options & OPTION_PSEUDO_SHUFFLE != 0,
        start_lp: b.start_lp,
        start_hand: (b.start_hand % 256) as u8,
        draw_count: (b.draw_count % 256) as u8,
        time_limit: 0,
    }
}

/// Finds the seed of a replay.
pub fn replay_seed(header: &ReplayHeader) -> (r: Result<DuelSeed, ReadError>)
    ensures
        match seed_of(header@) {
            Ok(seed) => r matches Ok(s) && s@ == seed,
            Err(refusal) => r matches Err(error) && error@ == refusal,
        },
{
    if header.id == MAGIC_V1 {
        Ok(DuelSeed::Single(header.seed))
    } else if header.id == MAGIC_V2 {
        Ok(DuelSeed::Complicated(header.seed_sequence))
    } else {
        Err(ReadError::UnsupportedMagic(header.id))
    }
}

/// Refuses a replay whose duel cannot be reconstructed.
pub fn validate_replay(replay: &Replay) -> (r: Result<(), ReadError>)
    ensures
        match validated(replay@.body.duel_options) {
            Ok(_) => r is Ok,
            Err(refusal) => r matches Err(error) && error@ == refusal,
        },
{
    let options: u16 = replay.body.duel_options;
    if options & OPTION_TAG_MODE != 0 {
        return Err(ReadError::TagReplay);
    }
    if options & !SUPPORTED_OPTIONS != 0 {
        return Err(ReadError::UnsupportedOptions(options));
    }
    Ok(())
}

/// Calls `ygopro_data::data::Replay::host_info` on a replay with the options, the edition,
/// the life points, the hand and the draw count of `body`; what else the replay holds is read
/// from zeros. Claimed: it looks at those five alone, and gives the rules that they ask for.
#[verifier::external_body]
fn hosted(body: &ReplayBody) -> (info: HostInfo)
    ensures
        info == host_info_of(body@),
{
    let mut replay = outside::Replay::read_le(&mut Cursor::new([0; 144])).unwrap();
    replay.body.duel_options = outside::DuelOptions::from_bits_retain(body.duel_options);
    replay.body.duel_rule = body.duel_rule;
    (replay.body.start_lp, replay.body.start_hand) = (body.start_lp, body.start_hand);
    replay.body.draw_count = body.draw_count;
    let i = replay.host_info();
    HostInfo {
        lflist: i.lflist, rule: i.rule.into(), mode: i.mode.into(),
        duel_rule: i.duel_rule.into(), no_check_deck: i.no_check_deck,
        no_shuffle_deck: i.no_shuffle_deck, start_lp: i.start_lp, start_hand: i.start_hand,
        draw_count: i.draw_count, time_limit: i.time_limit,
    }
}

impl ReplayBody {
    /// The rules under which the duel is to be hosted.
    pub fn host_info(&self) -> (info: HostInfo)
        ensures
            info == host_info_of(self@),
    {
        hosted(self)
    }
}

/// Turns a pile of cards over.
fn reversed(cards: &Vec<u32>) -> (r: Vec<u32>)
    ensures
        r@ == cards@.reverse(),
{
    let mut r: Vec<u32> = Vec::new();
    let mut left: usize = cards.len();
    while left > 0
        invariant
            left <= cards.len(),
            r.len() == cards.len() - left,
            forall|i: int| 0 <= i < r.len() ==> r[i] == cards[cards.len() - 1 - i],
        decreases left,
    {
        left = left - 1;
        r.push(cards[left]);
    }
    r
}

impl ReplayDeck {
    /// The deck as its player handed it in.
    pub fn to_deck(&self) -> (deck: Deck)
        ensures
            deck@ == handed_in(self@),
    {
        Deck { main: reversed(&self.main), extra: reversed(&self.extra), side: Vec::new() }
    }
}

/// All that the reconstruction of a duel starts from.
#[derive(Debug)]
pub struct Prepared {
    /// The replay.
    pub replay: Replay,
    /// Its responses.
    pub responses: Responses,
    /// What the random numbers start from.
    pub seed: DuelSeed,
    /// The rules under which the duel is to be hosted.
    pub host_info: HostInfo,
}

/// What the reconstruction of a duel starts from, as views.
#[verifier::ext_equal]
pub struct PreparedView {
    pub replay: ReplayView,
    pub responses: ResponsesView,
    pub seed: SeedView,
    pub host_info: HostInfo,
}

impl View for Prepared {
    type V = PreparedView;

    open spec fn view(&self) -> PreparedView {
        PreparedView {
            replay: self.replay@,
            responses: self.responses@,
            seed: self.seed@,
            host_info: self.host_info,
        }
    }
}

/// What the reconstruction of the duel stored as `bytes` starts from, or why it is refused.
pub open spec fn prepared_of(bytes: Seq<u8>) -> Result<PreparedView, Refusal> {
    match read_of(bytes) {
        Err(refusal) => Err(refusal),
        Ok(open) => match validated(open.replay.body.duel_options) {
            Err(refusal) => Err(refusal),
            Ok(_) => match seed_of(open.replay.header) {
                Err(refusal) => Err(refusal),
                Ok(seed) => Ok(
                    PreparedView {
                        replay: open.replay,
                        responses: open.responses,
                        seed,
                        host_info: host_info_of(open.replay.body),
                    },
                ),
            },
        },
    }
}

/// Opens a replay, refuses it if its duel cannot be reconstructed, and finds its seed and
/// its rules.
pub fn prepare(yrp: &[u8]) -> (r: Result<Prepared, ReadError>)
    ensures
        match prepared_of(yrp@) {
            Ok(prepared) => r matches Ok(p) && p@ == prepared && p.responses@.well_formed(),
            Err(refusal) => r matches Err(error) && error@ == refusal,
        },
{
    let (replay, responses) = read(yrp)?;
    validate_replay(&replay)?;
    let seed = replay_seed(&replay.header)?;
    let host_info = replay.body.host_info();
    Ok(Prepared { replay, responses, seed, host_info })
}

/// A duel is accepted exactly if it has no option but the supported ones, and is refused as
/// one of two teams whenever it is one, whatever else it has.
pub proof fn law_validated(options: u16)
    ensures
        validated(options) is Ok <==> options & !SUPPORTED_OPTIONS == 0,
        options & OPTION_TAG_MODE != 0 ==> validated(options) == Err::<(), Refusal>(
            Refusal::TagReplay,
        ),
{
    assert(options & !0x18u16 == 0 ==> options & 0x20 == 0) by (bit_vector);
}

/// Once a replay is open and its options are accepted its seed is found, and the duel is one
/// of two players. The format version decides the kind of seed.
pub proof fn law_prepared(bytes: Seq<u8>)
    ensures
        read_of(bytes) matches Ok(open) ==> (prepared_of(bytes) is Ok
            <==> open.replay.body.duel_options & !SUPPORTED_OPTIONS == 0),
        prepared_of(bytes) matches Ok(p) ==> {
            &&& p.host_info.mode == MODE_SINGLE
            &&& p.seed is Single <==> p.replay.header.id == MAGIC_V1
            &&& p.seed is Complicated <==> p.replay.header.id == MAGIC_V2
        },
{
    law_open_replay(bytes);
    if let Ok(open) = read_of(bytes) {
        law_validated(open.replay.body.duel_options);
    }
}

/// The view of a seed has the words of the seed, each in full.
pub proof fn law_seed_view(seed: DuelSeed)
    ensures
        seed matches DuelSeed::Single(word) ==> seed@ == SeedView::Single(word),
        seed matches DuelSeed::Complicated(words) ==> seed@ == SeedView::Complicated(words@),
{
}

/// The view of what a reconstruction starts from has its parts.
pub proof fn law_prepared_view(prepared: Prepared)
    ensures
        prepared@.replay == prepared.replay@,
        prepared@.responses == prepared.responses@,
        prepared@.seed == prepared.seed@,
        prepared@.host_info == prepared.host_info,
{
}

/// The view of a deck that is handed in has its cards.
pub proof fn law_deck_view(deck: Deck)
    ensures
        deck@.main == deck.main@,
        deck@.extra == deck.extra@,
        deck@.side == deck.side@,
{
}

/// A replay that starts with "yrp1" has the seed of its header as it stands; one that starts
/// with "yrp2" has the whole sequence, word for word; no other replay has a seed.
pub proof fn law_seed(h: HeaderView)
    ensures
        h.id == 0x31707279 <==> seed_of(h) == Ok::<SeedView, Refusal>(SeedView::Single(h.seed)),
        h.id == 0x32707279 <==> seed_of(h) matches Ok(SeedView::Complicated(_)),
        seed_of(h) matches Ok(SeedView::Complicated(words)) ==> words.len()
            == h.seed_sequence.len() && forall|i: int|
            0 <= i < words.len() ==> #[trigger] words[i] == h.seed_sequence[i],
        h.id != 0x31707279 && h.id != 0x32707279 ==> seed_of(h) == Err::<SeedView, Refusal>(
            Refusal::UnsupportedMagic(h.id),
        ),
{
}

/// Only the options of weight eight and sixteen are supported. The one of weight 32 is refused
/// as a duel of two teams, whatever else is set; any other is refused with all the options.
pub proof fn law_options(options: u16)
    ensures
        ({
            let tag = options / 32 % 2 == 1;
            let supported = options == 0 || options == 8 || options == 16 || options == 24;
            &&& validated(options) is Ok <==> supported
            &&& tag <==> validated(options) == Err::<(), Refusal>(Refusal::TagReplay)
            &&& !tag && !supported <==> validated(options) == Err::<(), Refusal>(
                Refusal::UnsupportedOptions(options),
            )
        }),
{
    assert((options & 0x20u16 != 0) <==> (options / 32 % 2 == 1)) by (bit_vector);
    assert((options & !0x18u16 == 0) <==> (options == 0 || options == 8 || options == 16 || options
        == 24)) by (bit_vector);
    law_validated(options);
}

/// The rules under which a duel is hosted, field by field, from its starting state.
pub proof fn law_host_info(b: BodyView)
    ensures
        ({
            let info = host_info_of(b);
            let edition = b.duel_rule % 256;
            let obsolete = b.duel_options / 8 % 2 == 1;
            &&& info.start_lp == b.start_lp
            &&& info.start_hand == b.start_hand % 256
            &&& info.draw_count == b.draw_count % 256
            &&& info.no_shuffle_deck <==> b.duel_options / 16 % 2 == 1
            &&& info.mode == if b.duel_options / 32 % 2 == 1 { 2u8 } else { 0u8 }
            &&& obsolete ==> info.duel_rule == 1
            &&& !obsolete && 1 <= edition <= 5 ==> info.duel_rule == edition
            &&& !obsolete && !(1 <= edition <= 5) ==> info.duel_rule == 1
            &&& info.no_check_deck
            &&& info.lflist == 999
            &&& info.rule == 0
            &&& info.time_limit == 0
        }),
{
    let options = b.duel_options;
    assert((options & 0x8u16 != 0) <==> (options / 8 % 2 == 1)) by (bit_vector);
    assert((options & 0x10u16 != 0) <==> (options / 16 % 2 == 1)) by (bit_vector);
    assert((options & 0x20u16 != 0) <==> (options / 32 % 2 == 1)) by (bit_vector);
}

/// Every card of a stored deck is handed in, in its part, counted from the other end; nothing
/// is put into the side deck.
pub proof fn law_deck_is_handed_in(d: DeckView)
    ensures
        ({
            let deck = handed_in(d);
            &&& deck.main.len() == d.main.len()
            &&& deck.extra.len() == d.extra.len()
            &&& deck.side.len() == 0
            &&& forall|i: int|
                0 <= i < d.main.len() ==> #[trigger] deck.main[i] == d.main[d.main.len() - 1 - i]
            &&& forall|i: int|
                0 <= i < d.extra.len() ==> #[trigger] deck.extra[i] == d.extra[d.extra.len() - 1
                    - i]
        }),
{
}

/// A reconstruction starts from the replay and the responses that opening the file gives, the
/// rules that the starting state asks for, and the seed that the header holds. A file that
/// cannot be opened is refused for that; one that can is refused for its options alone.
pub proof fn law_prepared_by_its_parts(bytes: Seq<u8>)
    ensures
        read_of(bytes) matches Err(refusal) ==> prepared_of(bytes) == Err::<PreparedView, Refusal>(
            refusal,
        ),
        read_of(bytes) matches Ok(open) ==> {
            let h = open.replay.header;
            let b = open.replay.body;
            let edition = b.duel_rule % 256;
            let obsolete = b.duel_options / 8 % 2 == 1;
            &&& prepared_of(bytes) is Ok <==> b.duel_options == 0 || b.duel_options == 8
                || b.duel_options == 16 || b.duel_options == 24
            &&& b.duel_options / 32 % 2 == 1 ==> prepared_of(bytes) == Err::<
                PreparedView,
                Refusal,
            >(Refusal::TagReplay)
            &&& prepared_of(bytes) is Err && b.duel_options / 32 % 2 != 1 ==> prepared_of(bytes)
                == Err::<PreparedView, Refusal>(Refusal::UnsupportedOptions(b.duel_options))
            &&& prepared_of(bytes) matches Ok(p) ==> {
                &&& p.replay == open.replay
                &&& p.responses == open.responses
                &&& p.host_info.start_lp == b.start_lp
                &&& p.host_info.start_hand == b.start_hand % 256
                &&& p.host_info.draw_count == b.draw_count % 256
                &&& p.host_info.no_shuffle_deck <==> b.duel_options >= 16
                &&& p.host_info.mode == 0
                &&& p.host_info.duel_rule == if obsolete || edition == 0 || edition > 5 {
                    1
                } else {
                    edition as int
                }
                &&& p.host_info.no_check_deck
                &&& p.host_info.lflist == 999
                &&& p.host_info.rule == 0
                &&& p.host_info.time_limit == 0
                &&& h.id == 0x31707279 ==> p.seed == SeedView::Single(h.seed)
                &&& h.id == 0x32707279 ==> {
                    &&& p.seed matches SeedView::Complicated(words)
                    &&& words.len() == h.seed_sequence.len()
                    &&& forall|i: int|
                        0 <= i < words.len() ==> #[trigger] words[i] == h.seed_sequence[i]
                }
            }
        },
{
    law_open_replay(bytes);
    if let Ok(open) = read_of(bytes) {
        law_options(open.replay.body.duel_options);
        law_host_info(open.replay.body);
        law_seed(open.replay.header);
    }
}

/// The seed of a file is found where it is stored: in a file that starts with "yrp2" the eight
/// numbers behind byte 32, in one that starts with "yrp1" the number at byte 12.
pub proof fn law_seed_is_read_from_its_place(s: Seq<u8>)
    requires
        header_of(s) is Some,
    ensures
        s[0] == 0x79 && s[1] == 0x72 && s[2] == 0x70 && s[3] == 0x32 ==> {
            &&& seed_of(header_of(s)->0) matches Ok(SeedView::Complicated(words))
            &&& words.len() == 8
            &&& forall|i: int|
                0 <= i < 8 ==> #[trigger] words[i] == s[32 + 4 * i] + 256 * s[33 + 4 * i] + 65536
                    * s[34 + 4 * i] + 16777216 * s[35 + 4 * i]
        },
        s[0] == 0x79 && s[1] == 0x72 && s[2] == 0x70 && s[3] == 0x31 ==> {
            &&& seed_of(header_of(s)->0) matches Ok(SeedView::Single(word))
            &&& word == s[12] + 256 * s[13] + 65536 * s[14] + 16777216 * s[15]
        },
{
    let h = header_of(s)->0;
    law_header_is_read_from_its_place(s);
    law_seed(h);
    if s[0] == 0x79 && s[1] == 0x72 && s[2] == 0x70 && s[3] == 0x32 {
        let words = seed_of(h)->Ok_0->Complicated_0;
        assert forall|i: int| 0 <= i < 8 implies #[trigger] words[i] == s[32 + 4 * i] + 256 * s[33
            + 4 * i] + 65536 * s[34 + 4 * i] + 16777216 * s[35 + 4 * i] by {
            assert(words[i] == h.seed_sequence[i]);
        }
    }
}

/// A duel that is written into a plain replay file is prepared as it was written: its starting
/// state, its responses, its life points, hands and draws, its edition and its seed.
pub proof fn law_prepared_as_written(
    h: HeaderView,
    initial: BodyView,
    responses: Seq<u8>,
    trailing: Seq<u8>,
)
    requires
        readable_kind(h),
        !h.is_compressed(),
        initial.well_formed(),
        initial.duel_options == 0 || initial.duel_options == 8 || initial.duel_options == 16
            || initial.duel_options == 24,
        initial_bytes(initial).len() + responses.len() <= MAX_BODY_SIZE,
        h.data_size == initial_bytes(initial).len() + responses.len() || (h.data_size == 0
            && trailing.len() == 0),
    ensures
        ({
            let body = initial_bytes(initial) + responses;
            let edition = initial.duel_rule % 256;
            let obsolete = initial.duel_options / 8 % 2 == 1;
            &&& prepared_of(header_bytes(h) + body + trailing) matches Ok(p)
            &&& p.replay.body == initial
            &&& p.responses.body == body
            &&& p.responses.position == initial_bytes(initial).len()
            &&& p.host_info.start_lp == initial.start_lp
            &&& p.host_info.start_hand == initial.start_hand % 256
            &&& p.host_info.draw_count == initial.draw_count % 256
            &&& p.host_info.no_shuffle_deck <==> initial.duel_options >= 16
            &&& p.host_info.duel_rule == if obsolete || edition == 0 || edition > 5 {
                1
            } else {
                edition as int
            }
            &&& h.id == 0x31707279 ==> p.seed == SeedView::Single(h.seed)
            &&& h.id == 0x32707279 ==> p.seed == SeedView::Complicated(h.seed_sequence)
        }),
{
    let body = initial_bytes(initial) + responses;
    let bytes = header_bytes(h) + body + trailing;
    law_read_after_write(h, initial, responses, trailing);
    law_prepared_by_its_parts(bytes);
    if h.id == 0x32707279 {
        let words = prepared_of(bytes)->Ok_0.seed->Complicated_0;
        assert(words =~= h.seed_sequence);
    }
}

} // verus!
