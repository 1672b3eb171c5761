//! The header of a replay file.
use vstd::prelude::*;
use std::io::Cursor;
use binrw::{BinRead, BinWrite};
use crate::bytes::{
    le32, le32_bytes, le32_seq, lemma_le32_bytes_len, lemma_le32_of_bytes, lemma_le32_range,
    lemma_le32_same,
};

verus! {

/// The magic number of the first format version: the text "yrp1".
pub const MAGIC_V1: u32 = 0x31707279;

/// The magic number of the second format version: the text "yrp2".
pub const MAGIC_V2: u32 = 0x32707279;

/// Header flag: the body is an LZMA stream.
pub const FLAG_COMPRESSED: u32 = 1;

/// Header flag: four players in two teams.
pub const FLAG_TAG: u32 = 2;

/// Header flag: a puzzle played by one person.
pub const FLAG_SINGLE_MODE: u32 = 8;

/// The header of a replay.
///
/// The last three fields are stored by the second format version only; in a header of
/// another version they are zero.
#[derive(Clone, Copy, Debug)]
pub struct ReplayHeader {
    /// The magic number.
    pub id: u32,
    /// The version of the program that recorded the duel.
    pub version: u32,
    /// The header flags.
    pub flag: u32,
    /// The seed of a first version replay.
    pub seed: u32,
    /// The length of the body once unpacked; zero where it was never filled in.
    pub data_size: u32,
    /// When the duel started, in seconds of the Unix epoch.
    pub start_time: u32,
    /// The LZMA properties: five bytes, then padding.
    pub props: [u8; 8],
    /// The seed of a second version replay.
    pub seed_sequence: [u32; 8],
    /// The version of the extended header.
    pub header_version: u32,
    /// Unused.
    pub reserved: [u32; 3],
}

/// A header with its arrays as sequences.
#[verifier::ext_equal]
pub struct HeaderView {
    pub id: u32,
    pub version: u32,
    pub flag: u32,
    pub seed: u32,
    pub data_size: u32,
    pub start_time: u32,
    pub props: Seq<u8>,
    pub seed_sequence: Seq<u32>,
    pub header_version: u32,
    pub reserved: Seq<u32>,
}

impl View for ReplayHeader {
    type V = HeaderView;

    open spec fn view(&self) -> HeaderView {
        HeaderView {
            id: self.id,
            version: self.version,
            flag: self.flag,
            seed: self.seed,
            data_size: self.data_size,
            start_time: self.start_time,
            props: self.props@,
            seed_sequence: self.seed_sequence@,
            header_version: self.header_version,
            reserved: self.reserved@,
        }
    }
}

impl HeaderView {
    /// The body is an LZMA stream.
    pub open spec fn is_compressed(self) -> bool {
        self.flag & FLAG_COMPRESSED != 0
    }

    /// Four players in two teams.
    pub open spec fn is_tag(self) -> bool {
        self.flag & FLAG_TAG != 0
    }

    /// A puzzle played by one person.
    pub open spec fn is_single_mode(self) -> bool {
        self.flag & FLAG_SINGLE_MODE != 0
    }

    /// The arrays have their lengths, and what the format version does not store is zero.
    pub open spec fn well_formed(self) -> bool {
        &&& self.props.len() == 8
        &&& self.seed_sequence.len() == 8
        &&& self.reserved.len() == 3
        &&& self.id != MAGIC_V2 ==> {
            &&& self.seed_sequence == zeros(8)
            &&& self.header_version == 0
            &&& self.reserved == zeros(3)
        }
    }
}

/// The size of the dictionary that an LZMA stream with these properties asks for.
pub open spec fn dictionary_size(props: Seq<u8>) -> int {
    le32(props, 1)
}

/// Every sum of the dictionary's size, which is at least 4 KiB, and a place in it fits in
/// `usize`, for a stream of this many bytes once unpacked: no place is beyond those.
pub open spec fn dictionary_fits(props: Seq<u8>, unpacked_size: int) -> bool {
    &&& dictionary_size(props) + unpacked_size <= usize::MAX
    &&& 0x1000 + unpacked_size <= usize::MAX
}

impl ReplayHeader {
    /// The size of the dictionary that the body asks for if it is packed.
    pub fn dictionary_size(&self) -> (size: u32)
        ensures
            size == dictionary_size(self@.props.take(5)),
    {
        let props = &self.props;
        proof {
            reveal(le32);
            let first = self@.props.take(5);
            assert(first[1] == props[1] && first[2] == props[2]);
            assert(first[3] == props[3] && first[4] == props[4]);
        }
        props[1] as u32 + 0x100 * (props[2] as u32) + 0x1_0000 * (props[3] as u32) + 0x100_0000
            * (props[4] as u32)
    }

    /// Whether the machine can address the dictionary that the body asks for if it is packed.
    pub fn dictionary_fits(&self) -> (yes: bool)
        ensures
            yes == dictionary_fits(self@.props.take(5), self.data_size as int),
    {
        let size: u32 = self.dictionary_size();
        let room: usize = usize::MAX - self.data_size as usize;
        size as usize <= room && 0x1000 <= room
    }

    /// Whether the body is an LZMA stream.
    pub fn is_compressed(&self) -> (yes: bool)
        ensures
            yes == self@.is_compressed(),
    {
        self.flag & FLAG_COMPRESSED != 0
    }

    /// Whether four players played in two teams.
    pub fn is_tag(&self) -> (yes: bool)
        ensures
            yes == self@.is_tag(),
    {
        self.flag & FLAG_TAG != 0
    }

    /// Whether the replay is that of a puzzle played by one person.
    pub fn is_single_mode(&self) -> (yes: bool)
        ensures
            yes == self@.is_single_mode(),
    {
        self.flag & FLAG_SINGLE_MODE != 0
    }
}

/// A number of zeros.
pub open spec fn zeros(count: nat) -> Seq<u32> {
    Seq::new(count, |i: int| 0u32)
}

/// How many bytes a header with this magic number takes.
pub open spec fn header_size(id: int) -> int {
    if id == MAGIC_V2 {
        80
    } else {
        32
    }
}

/// The header that `s` starts with, or nothing if `s` ends inside it.
pub open spec fn header_of(s: Seq<u8>) -> Option<HeaderView> {
    if s.len() < 32 || s.len() < header_size(le32(s, 0)) {
        None
    } else {
        let extended = le32(s, 0) == MAGIC_V2;
        Some(
            HeaderView {
                id: le32(s, 0) as u32,
                version: le32(s, 4) as u32,
                flag: le32(s, 8) as u32,
                seed: le32(s, 12) as u32,
                data_size: le32(s, 16) as u32,
                start_time: le32(s, 20) as u32,
                props: s.subrange(24, 32),
                seed_sequence: if extended {
                    le32_seq(s, 32, 8)
                } else {
                    zeros(8)
                },
                header_version: if extended {
                    le32(s, 64) as u32
                } else {
                    0
                },
                reserved: if extended {
                    le32_seq(s, 68, 3)
                } else {
                    zeros(3)
                },
            },
        )
    }
}

/// The bytes that store a header.
pub open spec fn header_bytes(h: HeaderView) -> Seq<u8> {
    let base = le32_bytes(seq![h.id, h.version, h.flag, h.seed, h.data_size, h.start_time])
        + h.props;
    if h.id == MAGIC_V2 {
        base + le32_bytes(h.seed_sequence + seq![h.header_version] + h.reserved)
    } else {
        base
    }
}

/// Calls the parser that `binrw` derives for `ygopro_data::data::ReplayHeader`, reading
/// little-endian from the start of `bytes`, and gives the header with the number of bytes
/// taken. Claimed: it fails exactly if `bytes` ends inside the header, and takes the fields
/// from their places otherwise. Which error it fails with is left open: its text names
/// places in source files.
#[verifier::external_body]
pub(crate) fn read_header(bytes: &[u8]) -> (r: Result<(ReplayHeader, usize), binrw::Error>)
    ensures
        match header_of(bytes@) {
            Some(h) => r matches Ok((header, taken)) && header@ == h && taken == header_size(
                h.id as int,
            ),
            None => r is Err,
        },
{
    let mut reader = Cursor::new(bytes);
    let h = ygopro_data::data::ReplayHeader::read_le(&mut reader)?;
    let (flag, props, seed_sequence) = (h.flag.bits(), h.props, h.seed_sequence);
    let header = ReplayHeader {
        id: h.id, version: h.version, flag, seed: h.seed, data_size: h.data_size,
        start_time: h.start_time, props, seed_sequence, header_version: h.header_version,
        reserved: h.reserved,
    };
    Ok((header, reader.position() as usize))
}

/// Calls the writer that `binrw` derives for `ygopro_data::data::ReplayHeader`, writing
/// little-endian into memory. Claimed: it succeeds, since writing into memory does, and
/// gives the bytes that store the header.
#[verifier::external_body]
pub(crate) fn write_header(header: &ReplayHeader) -> (r: Result<Vec<u8>, binrw::Error>)
    ensures
        r is Ok,
        r->Ok_0@ == header_bytes(header@),
{
    let flag = ygopro_data::data::ReplayHeaderFlags::from_bits_retain(header.flag);
    let mut writer = Cursor::new(Vec::new());
    ygopro_data::data::ReplayHeader {
        id: header.id, version: header.version, flag, seed: header.seed,
        data_size: header.data_size, start_time: header.start_time, props: header.props,
        seed_sequence: header.seed_sequence, header_version: header.header_version,
        reserved: header.reserved,
    }.write_le(&mut writer)?;
    Ok(writer.into_inner())
}

/// A header read from bytes is well formed, and the bytes hold all of it.
pub proof fn lemma_header_well_formed(s: Seq<u8>)
    ensures
        header_of(s) matches Some(h) ==> h.well_formed() && header_size(h.id as int) <= s.len(),
{
    lemma_le32_range(s, 0);
}

/// The part of a stored header that every format version has.
proof fn lemma_base_read_after_write(h: HeaderView, s: Seq<u8>)
    requires
        h.well_formed(),
        s.len() >= 32,
        s.subrange(0, 24) == le32_bytes(
            seq![h.id, h.version, h.flag, h.seed, h.data_size, h.start_time],
        ),
    ensures
        le32(s, 0) == h.id,
        le32(s, 4) == h.version,
        le32(s, 8) == h.flag,
        le32(s, 12) == h.seed,
        le32(s, 16) == h.data_size,
        le32(s, 20) == h.start_time,
{
    let words = seq![h.id, h.version, h.flag, h.seed, h.data_size, h.start_time];
    lemma_le32_of_bytes(s, 0, words);
    assert(le32(s, 0 + 4 * 0int) == words[0]);
    assert(le32(s, 0 + 4 * 1int) == words[1]);
    assert(le32(s, 0 + 4 * 2int) == words[2]);
    assert(le32(s, 0 + 4 * 3int) == words[3]);
    assert(le32(s, 0 + 4 * 4int) == words[4]);
    assert(le32(s, 0 + 4 * 5int) == words[5]);
}

/// The part of a stored header that only the second format version has.
proof fn lemma_tail_read_after_write(h: HeaderView, s: Seq<u8>)
    requires
        h.well_formed(),
        s.len() >= 80,
        s.subrange(32, 80) == le32_bytes(h.seed_sequence + seq![h.header_version] + h.reserved),
    ensures
        le32_seq(s, 32, 8) == h.seed_sequence,
        le32(s, 64) == h.header_version,
        le32_seq(s, 68, 3) == h.reserved,
{
    let tail = h.seed_sequence + seq![h.header_version] + h.reserved;
    lemma_le32_of_bytes(s, 32, tail);
    assert(le32(s, 32 + 4 * 8int) == tail[8]);
    assert forall|i: int| 0 <= i < 8 implies le32_seq(s, 32, 8)[i] == h.seed_sequence[i] by {
        assert(le32(s, 32 + 4 * i) == tail[i]);
    }
    assert forall|i: int| 0 <= i < 3 implies le32_seq(s, 68, 3)[i] == h.reserved[i] by {
        assert(le32(s, 32 + 4 * (9 + i)) == tail[9 + i]);
        assert(32 + 4 * (9 + i) == 68 + 4 * i);
    }
    assert(le32_seq(s, 32, 8) =~= h.seed_sequence);
    assert(le32_seq(s, 68, 3) =~= h.reserved);
}

/// What is stored as a header is read back as that header, whatever follows it.
pub proof fn law_header_read_after_write(h: HeaderView, rest: Seq<u8>)
    requires
        h.well_formed(),
    ensures
        header_bytes(h).len() == header_size(h.id as int),
        header_of(header_bytes(h) + rest) == Some(h),
{
    let words = seq![h.id, h.version, h.flag, h.seed, h.data_size, h.start_time];
    let tail = h.seed_sequence + seq![h.header_version] + h.reserved;
    let s = header_bytes(h) + rest;
    lemma_le32_bytes_len(words);
    lemma_le32_bytes_len(tail);
    assert(s.subrange(0, 24) =~= le32_bytes(words));
    lemma_base_read_after_write(h, s);
    assert(s.subrange(24, 32) =~= h.props);
    if h.id == MAGIC_V2 {
        assert(s.subrange(32, 80) =~= le32_bytes(tail));
        lemma_tail_read_after_write(h, s);
    }
    assert(header_of(s)->0 =~= h);
}

/// A header is found again whatever is appended behind it.
pub proof fn lemma_header_prefix(s: Seq<u8>, extra: Seq<u8>)
    requires
        header_of(s) is Some,
    ensures
        header_of(s + extra) == header_of(s),
{
    let t = s + extra;
    assert forall|at: int| 0 <= at && at + 4 <= s.len() implies #[trigger] le32(t, at) == le32(
        s,
        at,
    ) by {
        lemma_le32_same(t, at, s, at);
    }
    assert(t.subrange(24, 32) =~= s.subrange(24, 32));
    assert(header_of(t)->0 =~= header_of(s)->0);
}

/// The view of a header has its fields, each in full.
pub proof fn law_header_view(header: ReplayHeader)
    ensures
        header@.id == header.id,
        header@.version == header.version,
        header@.flag == header.flag,
        header@.seed == header.seed,
        header@.data_size == header.data_size,
        header@.start_time == header.start_time,
        header@.props == header.props@,
        header@.seed_sequence == header.seed_sequence@,
        header@.header_version == header.header_version,
        header@.reserved == header.reserved@,
{
}

/// The three flags are the bits of weight one, two and eight, each by itself.
pub proof fn law_header_flags(h: HeaderView)
    ensures
        h.is_compressed() <==> h.flag % 2 == 1,
        h.is_tag() <==> h.flag / 2 % 2 == 1,
        h.is_single_mode() <==> h.flag / 8 % 2 == 1,
{
    let flag = h.flag;
    assert((flag & 1u32 != 0) <==> (flag % 2 == 1)) by (bit_vector);
    assert((flag & 2u32 != 0) <==> (flag / 2 % 2 == 1)) by (bit_vector);
    assert((flag & 8u32 != 0) <==> (flag / 8 % 2 == 1)) by (bit_vector);
}

/// A dictionary fits exactly if its size, or 4096 if that is more, and the unpacked size add
/// up to an address.
pub proof fn law_dictionary(props: Seq<u8>, unpacked_size: int)
    ensures
        ({
            let size = props[1] + 256 * props[2] + 65536 * props[3] + 16777216 * props[4];
            &&& dictionary_size(props) == size
            &&& dictionary_fits(props, unpacked_size) <==> size + unpacked_size <= usize::MAX
                && 4096 + unpacked_size <= usize::MAX
        }),
{
    reveal(le32);
}

/// Where each field of a header stands: a header takes 32 bytes, or 80 if it starts with the
/// text "yrp2", and only then has the fields behind the first 32.
pub proof fn law_header_is_read_from_its_place(s: Seq<u8>)
    ensures
        ({
            let extended = s[0] == 0x79 && s[1] == 0x72 && s[2] == 0x70 && s[3] == 0x32;
            &&& header_of(s) is Some <==> s.len() >= 32 && (extended ==> s.len() >= 80)
            &&& header_of(s) matches Some(h) ==> {
                &&& header_size(h.id as int) == if extended { 80int } else { 32int }
                &&& h.id == s[0] + 256 * s[1] + 65536 * s[2] + 16777216 * s[3]
                &&& h.version == s[4] + 256 * s[5] + 65536 * s[6] + 16777216 * s[7]
                &&& h.flag == s[8] + 256 * s[9] + 65536 * s[10] + 16777216 * s[11]
                &&& h.seed == s[12] + 256 * s[13] + 65536 * s[14] + 16777216 * s[15]
                &&& h.data_size == s[16] + 256 * s[17] + 65536 * s[18] + 16777216 * s[19]
                &&& h.start_time == s[20] + 256 * s[21] + 65536 * s[22] + 16777216 * s[23]
                &&& h.props == s.subrange(24, 32)
                &&& h.seed_sequence.len() == 8
                &&& h.reserved.len() == 3
                &&& forall|i: int|
                    0 <= i < 8 ==> #[trigger] h.seed_sequence[i] == if extended {
                        s[32 + 4 * i] + 256 * s[33 + 4 * i] + 65536 * s[34 + 4 * i] + 16777216
                            * s[35 + 4 * i]
                    } else {
                        0
                    }
                &&& h.header_version == if extended {
                    s[64] + 256 * s[65] + 65536 * s[66] + 16777216 * s[67]
                } else {
                    0
                }
                &&& forall|i: int|
                    0 <= i < 3 ==> #[trigger] h.reserved[i] == if extended {
                        s[68 + 4 * i] + 256 * s[69 + 4 * i] + 65536 * s[70 + 4 * i] + 16777216
                            * s[71 + 4 * i]
                    } else {
                        0
                    }
            }
        }),
{
    reveal(le32);
}

} // verus!
