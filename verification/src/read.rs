//! Opening a replay file.
use vstd::prelude::*;
use std::io::{Cursor, Read};
use vstd::slice::{slice_subrange, slice_to_vec};
use crate::error::{ReadError, Refusal};
use crate::header::{
    dictionary_fits, dictionary_size, header_bytes, law_dictionary, law_header_flags, header_of, header_size, law_header_read_after_write, lemma_header_prefix,
    lemma_header_well_formed, read_header, write_header, HeaderView, ReplayHeader,
    FLAG_COMPRESSED, MAGIC_V1, MAGIC_V2,
};
use crate::replay::{
    initial_bytes, initial_end, initial_of, law_initial_read_after_write, lemma_initial_prefix,
    read_initial_state, read_replay_body, BodyView, Replay, ReplayView,
};
use crate::responses::{Responses, ResponsesView};

pub use crate::responses::next_response;

verus! {

/// The most bytes that a body may have once unpacked: 64 MiB.
pub const MAX_BODY_SIZE: usize = 0x400_0000;

/// An open replay: the replay itself and its responses, ready to be read.
#[verifier::ext_equal]
pub struct OpenReplay {
    pub replay: ReplayView,
    pub responses: ResponsesView,
}

/// What the LZMA decoder makes of the five property bytes `props` followed by `packed`, when
/// it is told that the unpacked stream has `unpacked_size` bytes and may not need a
/// dictionary of more than `memlimit` bytes; nothing if it fails.
pub uninterp spec fn lzma_unpacked(
    props: Seq<u8>,
    packed: Seq<u8>,
    unpacked_size: u64,
    memlimit: usize,
) -> Option<Seq<u8>>;

/// Calls `lzma_rs::lzma_decompress_with_options` on `props` followed by `packed`, with a
/// provided unpacked size, a memory limit and no allowance for an incomplete stream. The
/// bytes that it gives, or that it fails, are named `lzma_unpacked`. Claimed besides: when
/// it succeeds it gives exactly as many bytes as it was told to, and it reads no further
/// once it has them, so that it gives the same bytes if more follow `packed`. Which error
/// it fails with is left open. The decoder adds places in its dictionary to the dictionary's
/// size in `usize`: a dictionary for which that would overflow is left out.
#[verifier::external_body]
fn unpack(props: &[u8], packed: &[u8], unpacked_size: u64, memlimit: usize) -> (r: Result<
    Vec<u8>,
    lzma_rs::error::Error,
>)
    requires
        props@.len() == 5,
        dictionary_fits(props@, unpacked_size as int),
    ensures
        match lzma_unpacked(props@, packed@, unpacked_size, memlimit) {
            Some(body) => r matches Ok(b) && b@ == body,
            None => r is Err,
        },
        r matches Ok(b) ==> b@.len() == unpacked_size,
        r matches Ok(b) ==> forall|extra: Seq<u8>|
            #[trigger] lzma_unpacked(props@, packed@ + extra, unpacked_size, memlimit) == Some(b@),
{
    let mut compressed = Cursor::new(props).chain(Cursor::new(packed));
    let mut body: Vec<u8> = Vec::new();
    let options = lzma_rs::decompress::Options {
        unpacked_size: lzma_rs::decompress::UnpackedSize::UseProvided(Some(unpacked_size)),
        memlimit: Some(memlimit),
        allow_incomplete: false,
    };
    lzma_rs::lzma_decompress_with_options(&mut compressed, &mut body, &options)?;
    Ok(body)
}

/// The header of a replay that can be opened, or why the replay is refused.
pub open spec fn accepted_header(bytes: Seq<u8>) -> Result<HeaderView, Refusal> {
    match header_of(bytes) {
        None => Err(Refusal::InvalidHeader),
        Some(h) => if h.id != MAGIC_V1 && h.id != MAGIC_V2 {
            Err(Refusal::UnsupportedMagic(h.id))
        } else if h.is_tag() {
            Err(Refusal::TagReplay)
        } else if h.is_single_mode() {
            Err(Refusal::SingleModeReplay)
        } else if h.data_size > MAX_BODY_SIZE {
            Err(Refusal::BodyTooLarge)
        } else {
            Ok(h)
        },
    }
}

/// The body that is stored as it is, given all that follows the header.
///
/// A replay that was never finished leaves its length at zero: then the body is all there is.
pub open spec fn stored_body_of(h: HeaderView, raw: Seq<u8>) -> Result<Seq<u8>, Refusal> {
    let size = if h.data_size == 0 {
        raw.len() as int
    } else {
        h.data_size as int
    };
    if size > MAX_BODY_SIZE {
        Err(Refusal::BodyTooLarge)
    } else if size > raw.len() {
        Err(Refusal::TruncatedBody)
    } else {
        Ok(raw.take(size))
    }
}

/// The body that is stored packed, given all that follows the header.
///
/// Where addresses have 64 bits every dictionary fits.
pub open spec fn unpacked_body_of(h: HeaderView, raw: Seq<u8>) -> Result<Seq<u8>, Refusal> {
    let props = h.props.take(5);
    if !dictionary_fits(props, h.data_size as int) {
        Err(Refusal::DictionaryTooLarge(dictionary_size(props) as u32))
    } else {
        match lzma_unpacked(props, raw, h.data_size as u64, MAX_BODY_SIZE) {
            Some(body) => Ok(body),
            None => Err(Refusal::InvalidBody),
        }
    }
}

/// The header of an open replay: of one that is not packed and ends with its starting state.
pub open spec fn normalized(h: HeaderView, end: int) -> HeaderView {
    HeaderView { flag: h.flag & !FLAG_COMPRESSED, data_size: end as u32, ..h }
}

/// The replay with this header and this body, opened, or why it is refused.
pub open spec fn assembled(h: HeaderView, body: Seq<u8>) -> Result<OpenReplay, Refusal> {
    if (h.is_compressed() || h.data_size != 0) && body.len() != h.data_size {
        Err(Refusal::BodySizeMismatch)
    } else {
        match initial_end(body) {
            None => Err(Refusal::InvalidInitialState),
            Some(end) => Ok(
                OpenReplay {
                    replay: ReplayView { header: normalized(h, end), body: initial_of(body) },
                    responses: ResponsesView { body, position: end },
                },
            ),
        }
    }
}

/// The replay that is stored as `bytes`, opened, or why it is refused.
pub open spec fn read_of(bytes: Seq<u8>) -> Result<OpenReplay, Refusal> {
    match accepted_header(bytes) {
        Err(refusal) => Err(refusal),
        Ok(h) => {
            let raw = bytes.skip(header_size(h.id as int));
            match if h.is_compressed() {
                unpacked_body_of(h, raw)
            } else {
                stored_body_of(h, raw)
            } {
                Err(refusal) => Err(refusal),
                Ok(body) => assembled(h, body),
            }
        },
    }
}

/// Reads the header of a replay that can be opened, with the place where the header ends.
pub fn accept_header(bytes: &[u8]) -> (r: Result<(ReplayHeader, usize), ReadError>)
    ensures
        match accepted_header(bytes@) {
            Ok(h) => r matches Ok((header, end)) && header@ == h && end == header_size(
                h.id as int,
            ) && end <= bytes@.len() && h.well_formed(),
            Err(refusal) => r matches Err(error) && error@ == refusal,
        },
{
    let (header, end) = match read_header(bytes) {
        Ok(found) => found,
        Err(error) => return Err(ReadError::InvalidHeader(error)),
    };
    proof {
        lemma_header_well_formed(bytes@);
    }
    if header.id != MAGIC_V1 && header.id != MAGIC_V2 {
        return Err(ReadError::UnsupportedMagic(header.id));
    }
    if header.is_tag() {
        return Err(ReadError::TagReplay);
    }
    if header.is_single_mode() {
        return Err(ReadError::SingleModeReplay);
    }
    if header.data_size as usize > MAX_BODY_SIZE {
        return Err(ReadError::BodyTooLarge);
    }
    Ok((header, end))
}

/// Takes the body that is stored as it is from all that follows the header.
pub fn stored_body(header: &ReplayHeader, raw: &[u8]) -> (r: Result<Vec<u8>, ReadError>)
    ensures
        match stored_body_of(header@, raw@) {
            Ok(body) => r matches Ok(b) && b@ == body,
            Err(refusal) => r matches Err(error) && error@ == refusal,
        },
{
    let size: usize = if header.data_size == 0 {
        raw.len()
    } else {
        header.data_size as usize
    };
    if size > MAX_BODY_SIZE {
        return Err(ReadError::BodyTooLarge);
    }
    if size > raw.len() {
        return Err(ReadError::TruncatedBody);
    }
    Ok(slice_to_vec(slice_subrange(raw, 0, size)))
}

/// Unpacks the body that is stored packed from all that follows the header.
pub fn unpacked_body(header: &ReplayHeader, raw: &[u8]) -> (r: Result<Vec<u8>, ReadError>)
    ensures
        match unpacked_body_of(header@, raw@) {
            Ok(body) => r matches Ok(b) && b@ == body,
            Err(refusal) => r matches Err(error) && error@ == refusal,
        },
        r matches Ok(b) ==> b@.len() == header.data_size,
        u32::MAX + header.data_size <= usize::MAX ==> (r matches Err(error) ==> error@
            !is DictionaryTooLarge),
        r matches Ok(b) ==> forall|extra: Seq<u8>|
            #[trigger] unpacked_body_of(header@, raw@ + extra) == Ok::<Seq<u8>, Refusal>(b@),
{
    let props = slice_subrange(&header.props, 0, 5);
    if !header.dictionary_fits() {
        return Err(ReadError::DictionaryTooLarge(header.dictionary_size()));
    }
    match unpack(props, raw, header.data_size as u64, MAX_BODY_SIZE) {
        Ok(body) => {
            assert forall|extra: Seq<u8>|
                #[trigger] unpacked_body_of(header@, raw@ + extra) == Ok::<
                    Seq<u8>,
                    Refusal,
                >(body@) by {
                assert(lzma_unpacked(
                    props@,
                    raw@ + extra,
                    header.data_size as u64,
                    MAX_BODY_SIZE,
                ) == Some(body@));
            }
            Ok(body)
        },
        Err(error) => Err(ReadError::InvalidBody(error)),
    }
}

/// Opens the replay with this header and this body.
///
/// Only the starting state is read; the responses are left to be read one at a time.
pub fn assemble(header: ReplayHeader, body: Vec<u8>) -> (r: Result<(Replay, Responses), ReadError>)
    requires
        header@.well_formed(),
        !header@.is_tag(),
        body@.len() <= MAX_BODY_SIZE,
    ensures
        match assembled(header@, body@) {
            Ok(open) => r matches Ok((replay, responses)) && replay@ == open.replay
                && responses@ == open.responses && responses@.well_formed(),
            Err(refusal) => r matches Err(error) && error@ == refusal,
        },
{
    if (header.is_compressed() || header.data_size != 0) && body.len() != header.data_size as usize {
        return Err(ReadError::BodySizeMismatch);
    }
    let end: usize = match read_initial_state(body.as_slice()) {
        Ok(end) => end,
        Err(error) => return Err(ReadError::InvalidInitialState(error)),
    };
    proof {
        lemma_initial_prefix(body@, body@.take(end as int), end as int);
        lemma_normalized(header@, end as int);
        law_header_read_after_write(normalized(header@, end as int), body@.take(end as int));
    }
    let mut header = header;
    header.flag = header.flag & !FLAG_COMPRESSED;
    header.data_size = end as u32;
    let mut file = match write_header(&header) {
        Ok(file) => file,
        Err(error) => return Err(ReadError::InvalidInitialState(error)),
    };
    file.extend_from_slice(slice_subrange(body.as_slice(), 0, end));
    proof {
        let h = header@;
        assert(file@ =~= header_bytes(h) + body@.take(end as int));
        assert(file@.skip(header_size(h.id as int)) =~= body@.take(end as int));
    }
    match read_replay_body(file.as_slice()) {
        Ok(initial) => Ok((Replay { header, body: initial }, Responses::new(body, end))),
        Err(error) => Err(ReadError::InvalidInitialState(error)),
    }
}

/// Opens the replay that is stored as `bytes`.
///
/// Bytes that follow the declared end of the body are no part of the replay: they change
/// nothing.
pub fn read(bytes: &[u8]) -> (r: Result<(Replay, Responses), ReadError>)
    ensures
        match read_of(bytes@) {
            Ok(open) => r matches Ok((replay, responses)) && replay@ == open.replay
                && responses@ == open.responses && responses@.well_formed(),
            Err(refusal) => r matches Err(error) && error@ == refusal,
        },
        r matches Ok((replay, responses)) ==> header_of(bytes@) matches Some(h) && (
        h.is_compressed() || h.data_size != 0 ==> forall|extra: Seq<u8>| #[trigger]
            read_of(bytes@ + extra) == read_of(bytes@)),
        r matches Err(error) ==> error@ != Refusal::BodySizeMismatch,
        u32::MAX + MAX_BODY_SIZE <= usize::MAX ==> (r matches Err(error) ==> error@
            !is DictionaryTooLarge),
{
    let (header, end) = accept_header(bytes)?;
    let raw = slice_subrange(bytes, end, bytes.len());
    assert(raw@ == bytes@.skip(end as int));
    let body = if header.is_compressed() {
        unpacked_body(&header, raw)?
    } else {
        stored_body(&header, raw)?
    };
    proof {
        if header@.is_compressed() || header@.data_size != 0 {
            assert forall|extra: Seq<u8>| #[trigger]
                read_of(bytes@ + extra) == read_of(bytes@) by {
                lemma_header_prefix(bytes@, extra);
                assert((bytes@ + extra).skip(end as int) =~= raw@ + extra);
                if header@.is_compressed() {
                    assert(unpacked_body_of(header@, raw@ + extra) == Ok::<Seq<u8>, Refusal>(
                        body@,
                    ));
                } else {
                    assert((raw@ + extra).take(header@.data_size as int) =~= raw@.take(
                        header@.data_size as int,
                    ));
                }
            }
        }
    }
    assemble(header, body)
}

/// Normalizing a header leaves a header of the same kind that is not packed.
proof fn lemma_normalized(h: HeaderView, end: int)
    requires
        h.well_formed(),
    ensures
        normalized(h, end).well_formed(),
        !normalized(h, end).is_compressed(),
        normalized(h, end).is_tag() == h.is_tag(),
        normalized(h, end).is_single_mode() == h.is_single_mode(),
{
    let flag = h.flag;
    assert((flag & !1u32) & 1 == 0) by (bit_vector);
    assert((flag & !1u32) & 2 == flag & 2) by (bit_vector);
    assert((flag & !1u32) & 8 == flag & 8) by (bit_vector);
}

/// A replay of two players whose magic number is known.
pub open spec fn readable_kind(h: HeaderView) -> bool {
    &&& h.well_formed()
    &&& h.id == MAGIC_V1 || h.id == MAGIC_V2
    &&& !h.is_tag()
    &&& !h.is_single_mode()
}

/// An open replay is of the kind that can be read, is not packed, and is said to end where
/// its responses start; its body is within the limit.
pub proof fn law_open_replay(bytes: Seq<u8>)
    ensures
        read_of(bytes) matches Ok(open) ==> {
            let h = open.replay.header;
            &&& readable_kind(h)
            &&& !h.is_compressed()
            &&& h.data_size == open.responses.position
            &&& open.responses.well_formed()
            &&& open.responses.body.len() <= MAX_BODY_SIZE
        },
{
    lemma_header_well_formed(bytes);
    if let Ok(open) = read_of(bytes) {
        let body = open.responses.body;
        let end = open.responses.position;
        lemma_initial_prefix(body, body, end);
        lemma_normalized(header_of(bytes)->0, end);
    }
}

/// A replay that is written as it is, with its body's length or with none, is read back: the
/// starting state that was written, and the responses behind it. What follows a body of
/// known length is left out.
pub proof fn law_read_after_write(
    h: HeaderView,
    initial: BodyView,
    responses: Seq<u8>,
    trailing: Seq<u8>,
)
    requires
        readable_kind(h),
        !h.is_compressed(),
        initial.well_formed(),
        initial_bytes(initial).len() + responses.len() <= MAX_BODY_SIZE,
        h.data_size == initial_bytes(initial).len() + responses.len() || (h.data_size == 0
            && trailing.len() == 0),
    ensures
        ({
            let end = initial_bytes(initial).len() as int;
            let body = initial_bytes(initial) + responses;
            read_of(header_bytes(h) + body + trailing) == Ok::<OpenReplay, Refusal>(
                OpenReplay {
                    replay: ReplayView { header: normalized(h, end), body: initial },
                    responses: ResponsesView { body, position: end },
                },
            )
        }),
{
    let body = initial_bytes(initial) + responses;
    let bytes = header_bytes(h) + body + trailing;
    law_header_read_after_write(h, body + trailing);
    assert(bytes =~= header_bytes(h) + (body + trailing));
    let raw = bytes.skip(header_size(h.id as int));
    assert(raw =~= body + trailing);
    assert(raw.take(body.len() as int) =~= body);
    law_initial_read_after_write(initial, responses);
}

/// A replay that is written packed is read back as the one that was packed, if the decoder
/// gives back what was packed. What follows the packed body is left out if the decoder
/// leaves it out.
pub proof fn law_read_after_packing(
    h: HeaderView,
    initial: BodyView,
    responses: Seq<u8>,
    packed: Seq<u8>,
)
    requires
        readable_kind(h),
        h.is_compressed(),
        initial.well_formed(),
        initial_bytes(initial).len() + responses.len() <= MAX_BODY_SIZE,
        h.data_size == initial_bytes(initial).len() + responses.len(),
        dictionary_fits(h.props.take(5), h.data_size as int),
        lzma_unpacked(h.props.take(5), packed, h.data_size as u64, MAX_BODY_SIZE) == Some(
            initial_bytes(initial) + responses,
        ),
    ensures
        ({
            let end = initial_bytes(initial).len() as int;
            read_of(header_bytes(h) + packed) == Ok::<OpenReplay, Refusal>(
                OpenReplay {
                    replay: ReplayView { header: normalized(h, end), body: initial },
                    responses: ResponsesView {
                        body: initial_bytes(initial) + responses,
                        position: end,
                    },
                },
            )
        }),
{
    let bytes = header_bytes(h) + packed;
    law_header_read_after_write(h, packed);
    assert(bytes.skip(header_size(h.id as int)) =~= packed);
    law_initial_read_after_write(initial, responses);
}

/// Opening a replay looks at nothing behind the starting state: bodies of one length that
/// start alike give the same replay, whatever their responses are.
pub proof fn law_responses_are_not_scanned(h: HeaderView, body: Seq<u8>, other: Seq<u8>)
    requires
        body.len() == other.len(),
        initial_end(body) matches Some(end) && body.take(end) == other.take(end),
    ensures
        match assembled(h, body) {
            Ok(open) => assembled(h, other) == Ok::<OpenReplay, Refusal>(
                OpenReplay {
                    replay: open.replay,
                    responses: ResponsesView { body: other, position: open.responses.position },
                },
            ),
            Err(refusal) => assembled(h, other) == Err::<OpenReplay, Refusal>(refusal),
        },
{
    let end = initial_end(body)->0;
    assert forall|i: int| 0 <= i < end implies body[i] == other[i] by {
        assert(body.take(end)[i] == other.take(end)[i]);
    }
    lemma_initial_prefix(body, other, end);
}

/// A replay that was never finished may go on being written: the same replay is opened, with
/// what was added behind its responses, up to the size limit.
pub proof fn law_unfinished_replay_may_grow(bytes: Seq<u8>, added: Seq<u8>)
    requires
        header_of(bytes) matches Some(h) && !h.is_compressed() && h.data_size == 0
            && bytes.len() + added.len() - header_size(h.id as int) <= MAX_BODY_SIZE,
    ensures
        read_of(bytes) matches Ok(open) ==> read_of(bytes + added) == Ok::<OpenReplay, Refusal>(
            OpenReplay {
                replay: open.replay,
                responses: ResponsesView {
                    body: open.responses.body + added,
                    position: open.responses.position,
                },
            },
        ),
{
    if let Ok(open) = read_of(bytes) {
        let h = header_of(bytes)->0;
        let start = header_size(h.id as int);
        let body = open.responses.body;
        lemma_header_well_formed(bytes);
        lemma_header_prefix(bytes, added);
        assert(bytes.skip(start).take(bytes.len() - start) =~= bytes.skip(start));
        let raw = (bytes + added).skip(start);
        assert(raw =~= body + added);
        assert(raw.take(raw.len() as int) =~= raw);
        lemma_initial_prefix(body, body, open.responses.position);
        lemma_initial_prefix(body, raw, open.responses.position);
    }
}

/// An open replay, written out and read again, is the same replay, with no response left.
pub proof fn law_read_is_idempotent(bytes: Seq<u8>)
    ensures
        read_of(bytes) matches Ok(open) ==> {
            let initial = open.responses.body.take(open.responses.position);
            read_of(header_bytes(open.replay.header) + initial) == Ok::<OpenReplay, Refusal>(
                OpenReplay {
                    replay: open.replay,
                    responses: ResponsesView {
                        body: initial,
                        position: open.responses.position,
                    },
                },
            )
        },
{
    if let Ok(open) = read_of(bytes) {
        let body = open.responses.body;
        let end = open.responses.position;
        let h = open.replay.header;
        law_open_replay(bytes);
        let initial = body.take(end);
        lemma_initial_prefix(body, initial, end);
        law_header_read_after_write(h, initial);
        let again = header_bytes(h) + initial;
        assert(again.skip(header_size(h.id as int)) =~= initial);
        assert(initial.take(end) =~= initial);
        let flag = header_of(bytes)->0.flag;
        assert((flag & !1u32) & !1u32 == flag & !1u32) by (bit_vector);
        assert(normalized(h, end) == h);
    }
}

/// Which headers are accepted, and for what the others are refused, the first reason first:
/// they must start with "yrp1" or "yrp2", have neither the second nor the fourth flag, and
/// declare at most 64 MiB. An accepted header is the one that was read.
pub proof fn law_accepted_header(bytes: Seq<u8>)
    ensures
        match header_of(bytes) {
            None => accepted_header(bytes) == Err::<HeaderView, Refusal>(Refusal::InvalidHeader),
            Some(h) => {
                let known = h.id == 0x31707279 || h.id == 0x32707279;
                let tag = h.flag / 2 % 2 == 1;
                let single = h.flag / 8 % 2 == 1;
                let large = h.data_size > 67108864;
                let r = accepted_header(bytes);
                &&& r is Ok <==> known && !tag && !single && !large
                &&& r matches Ok(accepted) ==> accepted == h
                &&& !known <==> r == Err::<HeaderView, Refusal>(Refusal::UnsupportedMagic(h.id))
                &&& known && tag <==> r == Err::<HeaderView, Refusal>(Refusal::TagReplay)
                &&& known && !tag && single <==> r == Err::<HeaderView, Refusal>(
                    Refusal::SingleModeReplay,
                )
                &&& known && !tag && !single && large <==> r == Err::<HeaderView, Refusal>(
                    Refusal::BodyTooLarge,
                )
            },
        },
{
    if let Some(h) = header_of(bytes) {
        law_header_flags(h);
    }
}

/// A stored body is the beginning of what follows the header: as many bytes as declared, or
/// all of them if none are. It is refused if those are more than 64 MiB, or are not there.
pub proof fn law_stored_body(h: HeaderView, raw: Seq<u8>)
    ensures
        ({
            let r = stored_body_of(h, raw);
            &&& r matches Ok(body) ==> {
                &&& body.is_prefix_of(raw)
                &&& body.len() == if h.data_size == 0 { raw.len() } else { h.data_size as nat }
                &&& body.len() <= 67108864
            }
            &&& r is Err <==> h.data_size > 67108864 || (h.data_size == 0 && raw.len() > 67108864)
                || h.data_size > raw.len()
            &&& r == Err::<Seq<u8>, Refusal>(Refusal::TruncatedBody) <==> raw.len() < h.data_size
                <= 67108864
            &&& r matches Err(refusal) ==> refusal == Refusal::BodyTooLarge || refusal
                == Refusal::TruncatedBody
        }),
{
}

/// A packed body is what the decoder gives for the first five property bytes and what follows
/// the header, told the declared length and a limit of 64 MiB. It is refused if the decoder
/// fails, or if the machine cannot address the dictionary.
pub proof fn law_unpacked_body(h: HeaderView, raw: Seq<u8>)
    requires
        h.props.len() == 8,
    ensures
        ({
            let r = unpacked_body_of(h, raw);
            let props = h.props.subrange(0, 5);
            let size = h.props[1] + 256 * h.props[2] + 65536 * h.props[3] + 16777216 * h.props[4];
            let fits = size + h.data_size <= usize::MAX && 4096 + h.data_size <= usize::MAX;
            let unpacked = lzma_unpacked(props, raw, h.data_size as u64, 67108864);
            &&& r is Ok <==> fits && unpacked is Some
            &&& r matches Ok(body) ==> unpacked == Some(body)
            &&& !fits ==> r == Err::<Seq<u8>, Refusal>(Refusal::DictionaryTooLarge(size as u32))
            &&& fits && unpacked is None ==> r == Err::<Seq<u8>, Refusal>(Refusal::InvalidBody)
        }),
{
    let props = h.props.subrange(0, 5);
    assert(props =~= h.props.take(5));
    law_dictionary(props, h.data_size as int);
}

/// A replay is put together from its header and its body. The header stays as it is, but for
/// the first flag, which is cleared, and the declared length, which is that of the starting
/// state. The starting state is read from the body. The responses are read from the same
/// body, from behind the starting state on.
pub proof fn law_assembled(h: HeaderView, body: Seq<u8>)
    ensures
        ({
            let r = assembled(h, body);
            let mismatch = (h.flag % 2 == 1 || h.data_size != 0) && body.len() != h.data_size;
            &&& r is Ok <==> !mismatch && initial_end(body) is Some
            &&& mismatch <==> r == Err::<OpenReplay, Refusal>(Refusal::BodySizeMismatch)
            &&& !mismatch && initial_end(body) is None <==> r == Err::<OpenReplay, Refusal>(
                Refusal::InvalidInitialState,
            )
            &&& r matches Ok(open) ==> {
                let now = open.replay.header;
                &&& now.id == h.id
                &&& now.version == h.version
                &&& now.flag == h.flag - h.flag % 2
                &&& now.seed == h.seed
                &&& now.start_time == h.start_time
                &&& now.props == h.props
                &&& now.seed_sequence == h.seed_sequence
                &&& now.header_version == h.header_version
                &&& now.reserved == h.reserved
                &&& initial_end(body) == Some(open.responses.position)
                &&& open.responses.position <= u32::MAX ==> now.data_size
                    == open.responses.position
                &&& open.replay.body == initial_of(body)
                &&& open.responses.body == body
            }
        }),
{
    law_header_flags(h);
    let flag = h.flag;
    assert((flag & !1u32) == flag - flag % 2) by (bit_vector);
    if let Some(end) = initial_end(body) {
        lemma_initial_prefix(body, body, end);
    }
}

/// Opening a file comes down to its header and its body: a file whose header is refused is
/// refused for that, and so is one whose body is; the body is unpacked exactly if the first
/// flag is set. All else is decided by the header and the body alone.
pub proof fn law_read_by_header_and_body(bytes: Seq<u8>)
    ensures
        accepted_header(bytes) matches Err(refusal) ==> read_of(bytes) == Err::<
            OpenReplay,
            Refusal,
        >(refusal),
        accepted_header(bytes) matches Ok(h) ==> {
            let raw = bytes.subrange(
                if h.id == 0x32707279 { 80int } else { 32int },
                bytes.len() as int,
            );
            let stored = if h.flag % 2 == 1 {
                unpacked_body_of(h, raw)
            } else {
                stored_body_of(h, raw)
            };
            &&& stored matches Err(refusal) ==> read_of(bytes) == Err::<OpenReplay, Refusal>(
                refusal,
            )
            &&& stored matches Ok(body) ==> read_of(bytes) == assembled(h, body)
        },
{
    lemma_header_well_formed(bytes);
    if let Ok(h) = accepted_header(bytes) {
        law_header_flags(h);
        let start = header_size(h.id as int);
        assert(bytes.skip(start) =~= bytes.subrange(start, bytes.len() as int));
    }
}

} // verus!
