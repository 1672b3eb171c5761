//! Writing what an observer saw of a duel as a YRP3D file.
use vstd::prelude::*;
use std::io::Cursor;
use binrw::BinWrite;
use ygopro_data::complex::Complex;
use ygopro_data::message::stoc;
use crate::message::{
    is_safe_to_decode, safe_to_decode, Received, KIND_GAME, KIND_PLAYER_ENTER, KIND_REPLAY,
};

verus! {

/// The kind of a server message that tells a client the rules of the room that it joined.
pub const KIND_JOIN_GAME: u8 = 18;

/// The kind of a server message that a duel starts.
pub const KIND_DUEL_START: u8 = 21;

/// The kind of a server message that carries a line of chat.
pub const KIND_CHAT: u8 = 25;

/// Messages by their bytes.
pub open spec fn texts(messages: Seq<Vec<u8>>) -> Seq<Seq<u8>> {
    Seq::new(messages.len(), |i: int| messages[i]@)
}

/// The decoder of server messages can be run on each message.
pub open spec fn all_safe(messages: Seq<Seq<u8>>) -> bool {
    forall|i: int| 0 <= i < messages.len() ==> safe_to_decode(#[trigger] messages[i])
}

/// The kinds of server messages that say something about the names or the rules of a duel:
/// that a client joined a room, and that someone took a seat.
pub open spec fn describes_duel(kind: u8) -> bool {
    kind == KIND_JOIN_GAME || kind == KIND_PLAYER_ENTER
}

/// The kinds of server messages that a YRP3D file holds: the engine's, chats and replays.
pub open spec fn held(kind: u8) -> bool {
    kind == KIND_GAME || kind == KIND_CHAT || kind == KIND_REPLAY
}

/// The `i`th recorded message leaves no trace in a YRP3D file: it says nothing that a file
/// could hold, or a duel starts after it and it does not describe a duel.
pub open spec fn left_out(recorded: Seq<Seq<u8>>, i: int) -> bool {
    let data = recorded[i];
    ||| data.len() == 0
    ||| !describes_duel(data[0]) && !held(data[0]) && data[0] != KIND_DUEL_START
    ||| !describes_duel(data[0]) && exists|j: int|
        #![trigger recorded[j]]
        i < j < recorded.len() && recorded[j].len() > 0 && recorded[j][0] == KIND_DUEL_START
}

/// The YRP3D file of the server messages that an observer recorded; nothing if one of the
/// engine's messages in it cannot be written.
pub uninterp spec fn yrp3d_of(recorded: Seq<Seq<u8>>) -> Option<Seq<u8>>;

/// Calls `ygopro_data::message::stoc_to_forge` on the recorded messages and writes what it
/// gives, little-endian, by the writer that `binrw` derives for
/// `ygopro_data::data::forge::Replay`. The bytes, or that the writer fails, are named
/// `yrp3d_of`. Claimed besides: messages that a file cannot hold are dropped, and so are the
/// messages from before the last duel start unless they describe the duel, so that the bytes
/// are the same without them. Which error it fails with is left open. All this is claimed of a
/// little-endian machine: on another one the units of a player's name are read with their
/// bytes swapped.
#[verifier::external_body]
fn encode(recorded: &Vec<Vec<u8>>) -> (r: Result<Vec<u8>, binrw::Error>)
    requires
        all_safe(texts(recorded@)),
    ensures
        match yrp3d_of(texts(recorded@)) {
            Some(file) => r matches Ok(f) && f@ == file,
            None => r is Err,
        },
        r matches Ok(f) ==> forall|i: int|
            0 <= i < recorded@.len() && left_out(texts(recorded@), i) ==> #[trigger] yrp3d_of(
                texts(recorded@).remove(i),
            ) == Some(f@),
{
    let recorded: Vec<Complex<stoc::Message>> =
        recorded.iter().map(|message| Complex::new(message.clone().into())).collect();
    let replay = ygopro_data::data::forge::Replay {
        messages: ygopro_data::message::stoc_to_forge(&recorded),
    };
    let mut writer = Cursor::new(Vec::new());
    replay.write_le(&mut writer)?;
    Ok(writer.into_inner())
}

/// The messages that an observer has recorded, each of which can be decoded again.
#[derive(Debug)]
pub struct Record {
    messages: Vec<Vec<u8>>,
}

impl View for Record {
    type V = Seq<Seq<u8>>;

    closed spec fn view(&self) -> Seq<Seq<u8>> {
        texts(self.messages@)
    }
}

impl Record {
    #[verifier::type_invariant]
    spec fn decodable(self) -> bool {
        all_safe(texts(self.messages@))
    }

    /// A record without messages.
    pub fn new() -> (record: Record)
        ensures
            record@ == Seq::<Seq<u8>>::empty(),
    {
        let messages: Vec<Vec<u8>> = Vec::new();
        assert(texts(messages@) =~= Seq::<Seq<u8>>::empty());
        Record { messages }
    }

    /// A record of these messages, or nothing if one of them would stop the decoder.
    pub fn from_messages(messages: Vec<Vec<u8>>) -> (r: Option<Record>)
        ensures
            r is Some <==> all_safe(texts(messages@)),
            r matches Some(record) ==> record@ == texts(messages@),
    {
        let mut next: usize = 0;
        while next < messages.len()
            invariant
                next <= messages.len(),
                forall|i: int| 0 <= i < next ==> safe_to_decode(#[trigger] texts(messages@)[i]),
            decreases messages.len() - next,
        {
            assert(texts(messages@)[next as int] == messages@[next as int]@);
            if !is_safe_to_decode(messages[next].as_slice()) {
                return None;
            }
            next = next + 1;
        }
        Some(Record { messages })
    }

    /// Records one more message.
    pub fn push(&mut self, received: Received)
        ensures
            final(self)@ == old(self)@.push(received@),
    {
        proof {
            use_type_invariant(&*self);
        }
        let ghost before = self.messages@;
        let mut messages: Vec<Vec<u8>> = Vec::new();
        assert(texts(messages@) =~= Seq::<Seq<u8>>::empty());
        std::mem::swap(&mut messages, &mut self.messages);
        messages.push(received.into_data());
        assert(texts(messages@) =~= texts(before).push(received@));
        self.messages = messages;
    }

    /// The recorded messages.
    pub fn into_messages(self) -> (messages: Vec<Vec<u8>>)
        ensures
            texts(messages@) == self@,
    {
        self.messages
    }
}

/// Writes the messages that an observer recorded as a YRP3D file.
///
/// Messages that a file cannot hold change nothing, nor do those from before the last duel
/// start unless they describe the duel.
pub fn write_yrp3d(recorded: Record) -> (r: Result<Vec<u8>, binrw::Error>)
    ensures
        match yrp3d_of(recorded@) {
            Some(file) => r matches Ok(f) && f@ == file,
            None => r is Err,
        },
        r matches Ok(f) ==> forall|i: int|
            0 <= i < recorded@.len() && left_out(recorded@, i) ==> #[trigger] yrp3d_of(
                recorded@.remove(i),
            ) == Some(f@),
{
    proof {
        use_type_invariant(&recorded);
    }
    encode(&recorded.messages)
}

/// Messages keep their order and their bytes.
pub proof fn law_texts(messages: Seq<Vec<u8>>)
    ensures
        texts(messages).len() == messages.len(),
        forall|i: int|
            0 <= i < messages.len() ==> #[trigger] texts(messages)[i] == messages[i]@,
{
}

/// Messages can be recorded exactly if the decoder can be run on each of them by itself: no
/// message makes another one unfit, and there may be any number of them.
pub proof fn law_recordable_one_by_one(messages: Seq<Seq<u8>>, more: Seq<u8>)
    ensures
        all_safe(Seq::empty()),
        all_safe(messages.push(more)) <==> all_safe(messages) && safe_to_decode(more),
{
    let all = messages.push(more);
    if all_safe(all) {
        assert forall|i: int| 0 <= i < messages.len() implies safe_to_decode(
            #[trigger] messages[i],
        ) by {
            assert(all[i] == messages[i]);
        }
        assert(all[messages.len() as int] == more);
    }
}

/// Which recorded messages leave no trace: empty ones; those of a kind that is none of 1, 18,
/// 21, 23, 25 and 32; and those before a duel start (21), but for 18 and 32.
pub proof fn law_left_out(recorded: Seq<Seq<u8>>, i: int)
    requires
        0 <= i < recorded.len(),
    ensures
        ({
            let data = recorded[i];
            let kind = data[0];
            let followed = exists|j: int|
                #![trigger recorded[j]]
                i < j < recorded.len() && recorded[j].len() > 0 && recorded[j][0] == 21;
            let kept = kind == 18 || kind == 32;
            let held = kind == 1 || kind == 21 || kind == 23 || kind == 25;
            left_out(recorded, i) <==> data.len() == 0 || (!kept && (!held || followed))
        }),
{
}

} // verus!
