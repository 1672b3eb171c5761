//! A replay: its header and the state in which its duel starts.
use vstd::prelude::*;
use std::io::Cursor;
use binrw::{BinRead, BinWrite};
use crate::bytes::{
    le16, le16_bytes, le32, le32_bytes, le32_seq, lemma_le16_of_bytes, lemma_le32_bytes_len,
    lemma_le32_of_bytes, lemma_le32_range, lemma_le32_same,
};
use crate::header::{header_of, header_size, HeaderView, ReplayHeader};

verus! {

/// A deck as a replay stores it: in the reverse of the order in which it is handed in.
#[derive(Debug)]
pub struct ReplayDeck {
    /// The codes of the main deck's cards.
    pub main: Vec<u32>,
    /// The codes of the extra deck's cards.
    pub extra: Vec<u32>,
}

/// The state in which the duel of a replay starts.
#[derive(Debug)]
pub struct ReplayBody {
    /// The first player's name: twenty little-endian UTF-16 units.
    pub host_name: Vec<u8>,
    /// The second player's name: twenty little-endian UTF-16 units.
    pub client_name: Vec<u8>,
    /// The life points that each player starts with.
    pub start_lp: u32,
    /// The number of cards in each starting hand.
    pub start_hand: u32,
    /// The number of cards drawn per turn.
    pub draw_count: u32,
    /// The options of the duel.
    pub duel_options: u16,
    /// The master rule that the duel follows.
    pub duel_rule: u16,
    /// The first player's deck.
    pub host_deck: ReplayDeck,
    /// The second player's deck.
    pub client_deck: ReplayDeck,
}

/// A replay without its responses.
#[derive(Debug)]
pub struct Replay {
    /// The header.
    pub header: ReplayHeader,
    /// The state in which the duel starts.
    pub body: ReplayBody,
}

/// A stored deck with its cards as sequences.
#[verifier::ext_equal]
pub struct DeckView {
    pub main: Seq<u32>,
    pub extra: Seq<u32>,
}

/// A starting state with its names and decks as sequences.
#[verifier::ext_equal]
pub struct BodyView {
    pub host_name: Seq<u8>,
    pub client_name: Seq<u8>,
    pub start_lp: u32,
    pub start_hand: u32,
    pub draw_count: u32,
    pub duel_options: u16,
    pub duel_rule: u16,
    pub host_deck: DeckView,
    pub client_deck: DeckView,
}

/// A replay with its parts as views.
#[verifier::ext_equal]
pub struct ReplayView {
    pub header: HeaderView,
    pub body: BodyView,
}

impl View for ReplayDeck {
    type V = DeckView;

    open spec fn view(&self) -> DeckView {
        DeckView { main: self.main@, extra: self.extra@ }
    }
}

impl View for ReplayBody {
    type V = BodyView;

    open spec fn view(&self) -> BodyView {
        BodyView {
            host_name: self.host_name@,
            client_name: self.client_name@,
            start_lp: self.start_lp,
            start_hand: self.start_hand,
            draw_count: self.draw_count,
            duel_options: self.duel_options,
            duel_rule: self.duel_rule,
            host_deck: self.host_deck@,
            client_deck: self.client_deck@,
        }
    }
}

impl View for Replay {
    type V = ReplayView;

    open spec fn view(&self) -> ReplayView {
        ReplayView { header: self.header@, body: self.body@ }
    }
}

/// Where the extra deck's count stands in a deck stored at `at`.
pub open spec fn extra_at(s: Seq<u8>, at: int) -> int {
    at + 4 + 4 * le32(s, at)
}

/// Where the deck stored at `at` ends, or nothing if `s` ends inside it.
pub open spec fn deck_end(s: Seq<u8>, at: int) -> Option<int> {
    if at + 4 > s.len() || extra_at(s, at) + 4 > s.len() {
        None
    } else {
        let end = extra_at(s, at) + 4 + 4 * le32(s, extra_at(s, at));
        if end > s.len() {
            None
        } else {
            Some(end)
        }
    }
}

/// The deck stored at `at`: for each part the number of its cards, then their codes.
pub open spec fn deck_of(s: Seq<u8>, at: int) -> DeckView {
    DeckView {
        main: le32_seq(s, at + 4, le32(s, at) as nat),
        extra: le32_seq(s, extra_at(s, at) + 4, le32(s, extra_at(s, at)) as nat),
    }
}

/// Where the first deck stands in a body.
pub const DECKS_AT: usize = 96;

/// Where the starting state that `s` begins with ends, or nothing if `s` ends inside it.
pub open spec fn initial_end(s: Seq<u8>) -> Option<int> {
    if s.len() < DECKS_AT {
        None
    } else {
        match deck_end(s, DECKS_AT as int) {
            Some(end) => deck_end(s, end),
            None => None,
        }
    }
}

/// The starting state that `s` begins with.
pub open spec fn initial_of(s: Seq<u8>) -> BodyView {
    BodyView {
        host_name: s.subrange(0, 40),
        client_name: s.subrange(40, 80),
        start_lp: le32(s, 80) as u32,
        start_hand: le32(s, 84) as u32,
        draw_count: le32(s, 88) as u32,
        duel_options: le16(s, 92) as u16,
        duel_rule: le16(s, 94) as u16,
        host_deck: deck_of(s, DECKS_AT as int),
        client_deck: deck_of(s, deck_end(s, DECKS_AT as int)->0),
    }
}

/// Calls the parser that `binrw` has for tuples, on the types of the parts of a starting
/// state (two `FixedLengthString<20>`, four `u32`, two `ReplayDeck` of `ygopro_data`),
/// reading little-endian from the start of `body`, and gives the number of bytes taken.
/// Claimed: it fails exactly if `body` ends inside the starting state. Which error it
/// fails with is left open: its text names places in source files.
#[verifier::external_body]
pub(crate) fn read_initial_state(body: &[u8]) -> (r: Result<usize, binrw::Error>)
    ensures
        match initial_end(body@) {
            Some(end) => r matches Ok(taken) && taken == end,
            None => r is Err,
        },
{
    let mut reader = Cursor::new(body);
    let _initial: (
        ygopro_data::string::FixedLengthString<20>, ygopro_data::string::FixedLengthString<20>,
        u32, u32, u32, u32, ygopro_data::data::ReplayDeck, ygopro_data::data::ReplayDeck,
    ) = BinRead::read_le(&mut reader)?;
    Ok(reader.position() as usize)
}

/// Calls the parser that `binrw` derives for `ygopro_data::data::Replay`, reading
/// little-endian, and gives the body that it finds. Claimed for a replay that is neither
/// packed nor of two teams and that ends with its starting state: it succeeds, and takes
/// the parts of the starting state from their places.
#[verifier::external_body]
pub(crate) fn read_replay_body(bytes: &[u8]) -> (r: Result<ReplayBody, binrw::Error>)
    requires
        header_of(bytes@) matches Some(h) && !h.is_compressed() && !h.is_tag() && initial_end(
            bytes@.skip(header_size(h.id as int)),
        ) == Some(bytes@.len() - header_size(h.id as int)),
    ensures
        r is Ok,
        r->Ok_0@ == initial_of(bytes@.skip(header_size(header_of(bytes@)->0.id as int))),
{
    let b = ygopro_data::data::Replay::read_le(&mut Cursor::new(bytes))?.body;
    let (mut host, mut client) = (Cursor::new(Vec::new()), Cursor::new(Vec::new()));
    b.host_name.write_le(&mut host)?;
    b.client_name.write_le(&mut client)?;
    Ok(ReplayBody {
        host_name: host.into_inner(), client_name: client.into_inner(),
        start_lp: b.start_lp, start_hand: b.start_hand, draw_count: b.draw_count,
        duel_options: b.duel_options.bits(), duel_rule: b.duel_rule,
        host_deck: ReplayDeck { main: b.host_deck.main, extra: b.host_deck.extra },
        client_deck: ReplayDeck { main: b.client_deck.main, extra: b.client_deck.extra },
    })
}

impl DeckView {
    /// The number of cards in each part fits in 32 bits.
    pub open spec fn well_formed(self) -> bool {
        self.main.len() <= u32::MAX && self.extra.len() <= u32::MAX
    }
}

impl BodyView {
    /// The names have their lengths, and the decks can be stored.
    pub open spec fn well_formed(self) -> bool {
        &&& self.host_name.len() == 40
        &&& self.client_name.len() == 40
        &&& self.host_deck.well_formed()
        &&& self.client_deck.well_formed()
    }
}

/// The numbers that store a deck.
pub open spec fn deck_words(d: DeckView) -> Seq<u32> {
    seq![d.main.len() as u32] + d.main + seq![d.extra.len() as u32] + d.extra
}

/// The bytes that store a starting state.
pub open spec fn initial_bytes(b: BodyView) -> Seq<u8> {
    b.host_name + b.client_name + le32_bytes(seq![b.start_lp, b.start_hand, b.draw_count])
        + le16_bytes(b.duel_options) + le16_bytes(b.duel_rule) + le32_bytes(
        deck_words(b.host_deck),
    ) + le32_bytes(deck_words(b.client_deck))
}

/// What is stored as a deck is read back as that deck.
proof fn lemma_deck_read_after_write(s: Seq<u8>, at: int, d: DeckView)
    requires
        d.well_formed(),
        0 <= at,
        at + 4 * deck_words(d).len() <= s.len(),
        s.subrange(at, at + 4 * deck_words(d).len()) == le32_bytes(deck_words(d)),
    ensures
        deck_end(s, at) == Some(at + 4 * deck_words(d).len()),
        deck_of(s, at) == d,
{
    let words = deck_words(d);
    let split = d.main.len() as int + 1;
    lemma_le32_of_bytes(s, at, words);
    assert(le32(s, at + 4 * 0int) == words[0]);
    assert(le32(s, at + 4 * split) == words[split]);
    assert(extra_at(s, at) == at + 4 * split);
    assert forall|i: int| 0 <= i < d.main.len() implies deck_of(s, at).main[i] == d.main[i] by {
        assert(le32(s, at + 4 * (1 + i)) == words[1 + i]);
        assert(at + 4 * (1 + i) == at + 4 + 4 * i);
    }
    assert forall|i: int| 0 <= i < d.extra.len() implies deck_of(s, at).extra[i]
        == d.extra[i] by {
        assert(le32(s, at + 4 * (split + 1 + i)) == words[split + 1 + i]);
        assert(at + 4 * (split + 1 + i) == extra_at(s, at) + 4 + 4 * i);
    }
    assert(deck_of(s, at) =~= d);
}

/// What is stored as a starting state is read back as that state, whatever follows it.
pub proof fn law_initial_read_after_write(b: BodyView, rest: Seq<u8>)
    requires
        b.well_formed(),
    ensures
        initial_end(initial_bytes(b) + rest) == Some(initial_bytes(b).len() as int),
        initial_of(initial_bytes(b) + rest) == b,
{
    let s = initial_bytes(b) + rest;
    let words = seq![b.start_lp, b.start_hand, b.draw_count];
    let host = deck_words(b.host_deck);
    let client = deck_words(b.client_deck);
    lemma_le32_bytes_len(words);
    lemma_le32_bytes_len(host);
    lemma_le32_bytes_len(client);
    let client_at = 96 + 4 * host.len();
    let end = client_at + 4 * client.len();
    assert(initial_bytes(b).len() == end);
    assert(s.subrange(0, 40) =~= b.host_name);
    assert(s.subrange(40, 80) =~= b.client_name);
    assert(s.subrange(80, 92) =~= le32_bytes(words));
    lemma_le32_of_bytes(s, 80, words);
    assert(le32(s, 80 + 4 * 0int) == words[0]);
    assert(le32(s, 80 + 4 * 1int) == words[1]);
    assert(le32(s, 80 + 4 * 2int) == words[2]);
    assert(s.subrange(92, 94) =~= le16_bytes(b.duel_options));
    lemma_le16_of_bytes(s, 92, b.duel_options);
    assert(s.subrange(94, 96) =~= le16_bytes(b.duel_rule));
    lemma_le16_of_bytes(s, 94, b.duel_rule);
    assert(s.subrange(96, client_at as int) =~= le32_bytes(host));
    lemma_deck_read_after_write(s, 96, b.host_deck);
    assert(s.subrange(client_at as int, end as int) =~= le32_bytes(client));
    lemma_deck_read_after_write(s, client_at as int, b.client_deck);
    assert(initial_of(s) =~= b);
}

/// A deck depends on nothing behind its end.
proof fn lemma_deck_prefix(s: Seq<u8>, t: Seq<u8>, at: int, end: int)
    requires
        0 <= at,
        deck_end(s, at) == Some(end),
        end <= t.len(),
        forall|i: int| 0 <= i < end ==> s[i] == t[i],
    ensures
        deck_end(t, at) == Some(end),
        deck_of(t, at) == deck_of(s, at),
        at <= end,
{
    assert forall|i: int| 0 <= i && i + 4 <= end implies #[trigger] le32(t, i) == le32(s, i) by {
        lemma_le32_same(t, i, s, i);
    }
    lemma_le32_range(s, at);
    lemma_le32_range(s, extra_at(s, at));
    assert(le32(t, at) == le32(s, at));
    assert(le32(t, extra_at(s, at)) == le32(s, extra_at(s, at)));
    assert(deck_of(t, at) =~= deck_of(s, at));
}

/// A starting state depends on nothing behind its end.
pub proof fn lemma_initial_prefix(s: Seq<u8>, t: Seq<u8>, end: int)
    requires
        initial_end(s) == Some(end),
        end <= t.len(),
        forall|i: int| 0 <= i < end ==> s[i] == t[i],
    ensures
        initial_end(t) == Some(end),
        initial_of(t) == initial_of(s),
        96 <= end <= s.len(),
{
    let client_at = deck_end(s, 96)->0;
    lemma_le32_range(s, client_at);
    lemma_le32_range(s, extra_at(s, client_at));
    lemma_deck_prefix(s, t, 96, client_at);
    lemma_deck_prefix(s, t, client_at, end);
    lemma_le32_same(t, 80, s, 80);
    lemma_le32_same(t, 84, s, 84);
    lemma_le32_same(t, 88, s, 88);
    assert(t.subrange(0, 40) =~= s.subrange(0, 40));
    assert(t.subrange(40, 80) =~= s.subrange(40, 80));
    assert(initial_of(t) =~= initial_of(s));
}

/// The views of a replay and its parts have their fields, each in full.
pub proof fn law_replay_view(replay: Replay)
    ensures
        replay@.header == replay.header@,
        replay@.body.host_name == replay.body.host_name@,
        replay@.body.client_name == replay.body.client_name@,
        replay@.body.start_lp == replay.body.start_lp,
        replay@.body.start_hand == replay.body.start_hand,
        replay@.body.draw_count == replay.body.draw_count,
        replay@.body.duel_options == replay.body.duel_options,
        replay@.body.duel_rule == replay.body.duel_rule,
        replay@.body.host_deck.main == replay.body.host_deck.main@,
        replay@.body.host_deck.extra == replay.body.host_deck.extra@,
        replay@.body.client_deck.main == replay.body.client_deck.main@,
        replay@.body.client_deck.extra == replay.body.client_deck.extra@,
{
}

/// Where each card of a stored deck stands.
pub proof fn law_deck_is_read_from_its_place(s: Seq<u8>, at: int)
    requires
        deck_end(s, at) is Some,
    ensures
        ({
            let deck = deck_of(s, at);
            let extra = at + 4 + 4 * deck.main.len();
            &&& deck.main.len() == le32(s, at)
            &&& forall|i: int|
                0 <= i < deck.main.len() ==> #[trigger] deck.main[i] == le32(s, at + 4 + 4 * i)
            &&& deck.extra.len() == le32(s, extra)
            &&& forall|i: int|
                0 <= i < deck.extra.len() ==> #[trigger] deck.extra[i] == le32(
                    s,
                    extra + 4 + 4 * i,
                )
            &&& deck_end(s, at) == Some(extra + 4 + 4 * deck.extra.len())
        }),
{
    lemma_le32_range(s, at);
    lemma_le32_range(s, extra_at(s, at));
    assert forall|i: int| 0 <= i < deck_of(s, at).main.len() implies #[trigger] deck_of(
        s,
        at,
    ).main[i] == le32(s, at + 4 + 4 * i) by {
        lemma_le32_range(s, at + 4 + 4 * i);
    }
    assert forall|i: int| 0 <= i < deck_of(s, at).extra.len() implies #[trigger] deck_of(
        s,
        at,
    ).extra[i] == le32(s, extra_at(s, at) + 4 + 4 * i) by {
        lemma_le32_range(s, extra_at(s, at) + 4 + 4 * i);
    }
}

/// Where each part of a starting state stands.
pub proof fn law_initial_is_read_from_its_place(s: Seq<u8>)
    requires
        initial_end(s) is Some,
    ensures
        initial_of(s).host_name == s.subrange(0, 40),
        initial_of(s).client_name == s.subrange(40, 80),
        initial_of(s).start_lp == le32(s, 80),
        initial_of(s).start_hand == le32(s, 84),
        initial_of(s).draw_count == le32(s, 88),
        initial_of(s).duel_options == le16(s, 92),
        initial_of(s).duel_rule == le16(s, 94),
        initial_of(s).host_deck == deck_of(s, 96),
        deck_end(s, 96) matches Some(end) && initial_of(s).client_deck == deck_of(s, end)
            && initial_end(s) == deck_end(s, end),
{
    lemma_le32_range(s, 80);
    lemma_le32_range(s, 84);
    lemma_le32_range(s, 88);
}

} // verus!
