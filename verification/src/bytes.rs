//! Little-endian numbers inside byte sequences.
use vstd::prelude::*;

verus! {

/// The 16-bit number stored at `at`, least significant byte first.
pub open spec fn le16(s: Seq<u8>, at: int) -> int {
    s[at] + 0x100 * s[at + 1]
}

/// The 32-bit number stored at `at`, least significant byte first.
#[verifier::opaque]
pub open spec fn le32(s: Seq<u8>, at: int) -> int {
    s[at] + 0x100 * s[at + 1] + 0x1_0000 * s[at + 2] + 0x100_0000 * s[at + 3]
}

/// The `count` 32-bit numbers stored one after another from `at`.
pub open spec fn le32_seq(s: Seq<u8>, at: int, count: nat) -> Seq<u32> {
    Seq::new(count, |i: int| le32(s, at + 4 * i) as u32)
}

/// The two bytes of a 16-bit number, least significant first.
pub open spec fn le16_bytes(n: u16) -> Seq<u8> {
    seq![(n % 0x100) as u8, (n / 0x100) as u8]
}

/// The byte of weight 256 to the power of `k` in a 32-bit number.
pub open spec fn byte_of(n: u32, k: int) -> u8 {
    if k == 0 {
        (n % 0x100) as u8
    } else if k == 1 {
        (n / 0x100 % 0x100) as u8
    } else if k == 2 {
        (n / 0x1_0000 % 0x100) as u8
    } else {
        (n / 0x100_0000) as u8
    }
}

/// The bytes of 32-bit numbers one after another, each least significant byte first.
#[verifier::opaque]
pub open spec fn le32_bytes(v: Seq<u32>) -> Seq<u8> {
    Seq::new(4 * v.len(), |i: int| byte_of(v[i / 4], i % 4))
}

/// A stored 16-bit number is read back.
pub proof fn lemma_le16_of_bytes(s: Seq<u8>, at: int, n: u16)
    requires
        0 <= at,
        at + 2 <= s.len(),
        s.subrange(at, at + 2) == le16_bytes(n),
    ensures
        le16(s, at) == n,
{
    let part = s.subrange(at, at + 2);
    assert(part[0] == s[at]);
    assert(part[1] == s[at + 1]);
}

/// Stored 32-bit numbers are read back.
pub proof fn lemma_le32_of_bytes(s: Seq<u8>, at: int, v: Seq<u32>)
    requires
        0 <= at,
        at + 4 * v.len() <= s.len(),
        s.subrange(at, at + 4 * v.len()) == le32_bytes(v),
    ensures
        le32_seq(s, at, v.len()) == v,
        forall|i: int| 0 <= i < v.len() ==> #[trigger] le32(s, at + 4 * i) == v[i],
{
    reveal(le32);
    reveal(le32_bytes);
    let part = s.subrange(at, at + 4 * v.len());
    assert forall|i: int| 0 <= i < v.len() implies #[trigger] le32(s, at + 4 * i) == v[i] by {
        assert(part[4 * i] == s[at + 4 * i]);
        assert(part[4 * i + 1] == s[at + 4 * i + 1]);
        assert(part[4 * i + 2] == s[at + 4 * i + 2]);
        assert(part[4 * i + 3] == s[at + 4 * i + 3]);
        assert((4 * i) / 4 == i && (4 * i) % 4 == 0);
        assert((4 * i + 1) / 4 == i && (4 * i + 1) % 4 == 1);
        assert((4 * i + 2) / 4 == i && (4 * i + 2) % 4 == 2);
        assert((4 * i + 3) / 4 == i && (4 * i + 3) % 4 == 3);
    }
    assert(le32_seq(s, at, v.len()) =~= v);
}

/// How many bytes 32-bit numbers take.
pub proof fn lemma_le32_bytes_len(v: Seq<u32>)
    ensures
        le32_bytes(v).len() == 4 * v.len(),
{
    reveal(le32_bytes);
}

/// A stored number fits in 32 bits.
pub proof fn lemma_le32_range(s: Seq<u8>, at: int)
    ensures
        0 <= le32(s, at) <= u32::MAX,
{
    reveal(le32);
}

/// A number depends on nothing but its four bytes.
pub proof fn lemma_le32_same(s: Seq<u8>, at: int, t: Seq<u8>, to: int)
    requires
        s[at] == t[to],
        s[at + 1] == t[to + 1],
        s[at + 2] == t[to + 2],
        s[at + 3] == t[to + 3],
    ensures
        le32(s, at) == le32(t, to),
{
    reveal(le32);
}

/// Numbers are stored with their least significant byte first.
pub proof fn law_numbers_by_their_bytes(s: Seq<u8>, at: int)
    ensures
        le16(s, at) == s[at] + 256 * s[at + 1],
        le32(s, at) == s[at] + 256 * s[at + 1] + 65536 * s[at + 2] + 16777216 * s[at + 3],
{
    reveal(le32);
}

} // verus!
