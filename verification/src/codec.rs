//! The byte encodings that the sync metadata store writes and reads back:
//! the fixed 8-byte big-endian form of the sync height, the length-prefixed
//! sequence form of the syncing tips, and the fixed 40-byte pair form of the
//! latest block's hash residue and height.

use vstd::prelude::*;

verus! {

/// A chain-position identifier marking the head of a locally known chain
/// branch; several tips may be known at once during a fork.
#[derive(Clone, Copy, PartialEq, Eq, Debug)]
#[verifier::ext_equal]
pub struct TipHash {
    pub bytes: [u8; 32],
}

/// A field-element block hash, held in its internal arithmetic residue
/// (montgomery) form: four 64-bit limbs. The residue form is what is stored;
/// callers compare reconstructed values, never raw stored bytes.
#[derive(Clone, Copy, PartialEq, Eq, Debug)]
#[verifier::ext_equal]
pub struct Felt {
    pub mont: [u64; 4],
}

/// The byte sequences of a sequence of tips, in order.
pub open spec fn spec_tip_bytes(hs: Seq<TipHash>) -> Seq<Seq<u8>> {
    hs.map_values(|h: TipHash| h.bytes@)
}

// ---------------------------------------------------------------------------
// Fixed-width integer bytes
// ---------------------------------------------------------------------------

/// Big-endian bytes of a 64-bit value, most significant byte first.
pub open spec fn spec_u64_be(x: u64) -> Seq<u8> {
    seq![
        ((x >> 56) & 0xff) as u8,
        ((x >> 48) & 0xff) as u8,
        ((x >> 40) & 0xff) as u8,
        ((x >> 32) & 0xff) as u8,
        ((x >> 24) & 0xff) as u8,
        ((x >> 16) & 0xff) as u8,
        ((x >> 8) & 0xff) as u8,
        (x & 0xff) as u8,
    ]
}

/// The 64-bit value read back from 8 big-endian bytes.
pub open spec fn spec_u64_from_be(s: Seq<u8>) -> u64
    recommends
        s.len() == 8,
{
    (
        ((s[0] as u64) << 56) | ((s[1] as u64) << 48) | ((s[2] as u64) << 40)
            | ((s[3] as u64) << 32) | ((s[4] as u64) << 24) | ((s[5] as u64) << 16)
            | ((s[6] as u64) << 8) | (s[7] as u64)
    ) as u64
}

/// Little-endian bytes of a 64-bit value, least significant byte first.
pub open spec fn spec_u64_le(x: u64) -> Seq<u8> {
    seq![
        (x & 0xff) as u8,
        ((x >> 8) & 0xff) as u8,
        ((x >> 16) & 0xff) as u8,
        ((x >> 24) & 0xff) as u8,
        ((x >> 32) & 0xff) as u8,
        ((x >> 40) & 0xff) as u8,
        ((x >> 48) & 0xff) as u8,
        ((x >> 56) & 0xff) as u8,
    ]
}

/// The 64-bit value read back from 8 little-endian bytes starting at `off`.
pub open spec fn spec_u64_le_read(s: Seq<u8>, off: int) -> u64
    recommends
        0 <= off,
        off + 8 <= s.len(),
{
    (
        (s[off] as u64) | ((s[off + 1] as u64) << 8) | ((s[off + 2] as u64) << 16)
            | ((s[off + 3] as u64) << 24) | ((s[off + 4] as u64) << 32)
            | ((s[off + 5] as u64) << 40) | ((s[off + 6] as u64) << 48)
            | ((s[off + 7] as u64) << 56)
    ) as u64
}

/// Reading back the big-endian bytes of a value yields the value itself.
pub proof fn lemma_u64_be_round_trip(x: u64)
    ensures
        spec_u64_from_be(spec_u64_be(x)) == x,
{
    assert((((((x >> 56) & 0xff) as u8 as u64) << 56) | ((((x >> 48) & 0xff) as u8 as u64)
        << 48) | ((((x >> 40) & 0xff) as u8 as u64) << 40) | ((((x >> 32) & 0xff) as u8 as u64)
        << 32) | ((((x >> 24) & 0xff) as u8 as u64) << 24) | ((((x >> 16) & 0xff) as u8 as u64)
        << 16) | ((((x >> 8) & 0xff) as u8 as u64) << 8) | ((x & 0xff) as u8 as u64)) as u64
        == x) by (bit_vector);
}

/// Reading back the little-endian bytes of a value, wherever they sit inside
/// a longer sequence, yields the value itself.
pub proof fn lemma_u64_le_round_trip(x: u64, s: Seq<u8>, off: int)
    requires
        0 <= off,
        off + 8 <= s.len(),
        s.subrange(off, off + 8) == spec_u64_le(x),
    ensures
        spec_u64_le_read(s, off) == x,
{
    let b = s.subrange(off, off + 8);
    assert(s[off] == b[0] && s[off + 1] == b[1] && s[off + 2] == b[2] && s[off + 3] == b[3]
        && s[off + 4] == b[4] && s[off + 5] == b[5] && s[off + 6] == b[6] && s[off + 7] == b[7]);
    assert((((x & 0xff) as u8 as u64) | ((((x >> 8) & 0xff) as u8 as u64) << 8) | ((((x >> 16)
        & 0xff) as u8 as u64) << 16) | ((((x >> 24) & 0xff) as u8 as u64) << 24) | ((((x >> 32)
        & 0xff) as u8 as u64) << 32) | ((((x >> 40) & 0xff) as u8 as u64) << 40) | ((((x >> 48)
        & 0xff) as u8 as u64) << 48) | ((((x >> 56) & 0xff) as u8 as u64) << 56)) as u64
        == x) by (bit_vector);
}

/// Encode a 64-bit height as exactly 8 big-endian bytes.
pub fn u64_to_be_vec(x: u64) -> (r: Vec<u8>)
    ensures
        r@ == spec_u64_be(x),
{
    let mut r: Vec<u8> = Vec::new();
    r.push(((x >> 56) & 0xff) as u8);
    r.push(((x >> 48) & 0xff) as u8);
    r.push(((x >> 40) & 0xff) as u8);
    r.push(((x >> 32) & 0xff) as u8);
    r.push(((x >> 24) & 0xff) as u8);
    r.push(((x >> 16) & 0xff) as u8);
    r.push(((x >> 8) & 0xff) as u8);
    r.push((x & 0xff) as u8);
    proof {
        assert(r@ =~= spec_u64_be(x));
    }
    r
}

/// Decode a 64-bit height from exactly 8 big-endian bytes.
pub fn u64_from_be_slice(s: &[u8]) -> (r: u64)
    requires
        s@.len() == 8,
    ensures
        r == spec_u64_from_be(s@),
{
    ((s[0] as u64) << 56) | ((s[1] as u64) << 48) | ((s[2] as u64) << 40)
        | ((s[3] as u64) << 32) | ((s[4] as u64) << 24) | ((s[5] as u64) << 16)
        | ((s[6] as u64) << 8) | (s[7] as u64)
}

// ---------------------------------------------------------------------------
// The sequence encoding of the syncing tips: a compact-encoded count followed
// by the tips' bytes, back to back.
// ---------------------------------------------------------------------------

/// The compact form of a 32-bit count: 1, 2, 4 or 5 bytes, the two lowest
/// bits of the first byte selecting the width.
pub open spec fn spec_compact_u32(n: u32) -> Seq<u8> {
    if n < 64 {
        seq![((n << 2) & 0xff) as u8]
    } else if n < 16384 {
        let v = (n << 2) | 1;
        seq![(v & 0xff) as u8, ((v >> 8) & 0xff) as u8]
    } else if n < 0x4000_0000 {
        let v = (n << 2) | 2;
        seq![
            (v & 0xff) as u8,
            ((v >> 8) & 0xff) as u8,
            ((v >> 16) & 0xff) as u8,
            ((v >> 24) & 0xff) as u8,
        ]
    } else {
        seq![
            3u8,
            (n & 0xff) as u8,
            ((n >> 8) & 0xff) as u8,
            ((n >> 16) & 0xff) as u8,
            ((n >> 24) & 0xff) as u8,
        ]
    }
}

/// Read back a compact count from the front of a byte sequence: the count
/// and how many bytes it took, or nothing if the bytes are malformed or a
/// wider form carries a count that the narrower form should have carried.
pub open spec fn spec_compact_u32_read(s: Seq<u8>) -> Option<(u32, int)> {
    if s.len() < 1 {
        None
    } else {
        let b0 = s[0];
        if b0 & 3 == 0 {
            Some(((b0 >> 2) as u32, 1))
        } else if b0 & 3 == 1 {
            if s.len() < 2 {
                None
            } else {
                let x = (((b0 as u16) | ((s[1] as u16) << 8)) >> 2) as u32;
                if x >= 64 {
                    Some((x, 2))
                } else {
                    None
                }
            }
        } else if b0 & 3 == 2 {
            if s.len() < 4 {
                None
            } else {
                let v = (b0 as u32) | ((s[1] as u32) << 8) | ((s[2] as u32) << 16) | ((s[3]
                    as u32) << 24);
                let x = v >> 2;
                if x >= 16384 {
                    Some((x, 4))
                } else {
                    None
                }
            }
        } else {
            if b0 >> 2 != 0 {
                None
            } else if s.len() < 5 {
                None
            } else {
                let x = (s[1] as u32) | ((s[2] as u32) << 8) | ((s[3] as u32) << 16) | ((s[4]
                    as u32) << 24);
                if x > 0x3fff_ffff {
                    Some((x, 5))
                } else {
                    None
                }
            }
        }
    }
}

/// The tips' bytes laid back to back, in order.
pub open spec fn spec_tips_payload(hs: Seq<Seq<u8>>) -> Seq<u8>
    decreases hs.len(),
{
    if hs.len() == 0 {
        Seq::empty()
    } else {
        hs[0] + spec_tips_payload(hs.drop_first())
    }
}

/// The stored form of a sequence of tips: the compact-encoded count, then
/// each tip's 32 bytes.
pub open spec fn spec_tips_encoding(hs: Seq<Seq<u8>>) -> Seq<u8>
    recommends
        hs.len() <= u32::MAX,
        forall|i: int| 0 <= i < hs.len() ==> hs[i].len() == 32,
{
    spec_compact_u32(hs.len() as u32) + spec_tips_payload(hs)
}

/// Read a sequence of tips back from stored bytes: the compact count, then
/// that many 32-byte identifiers. Nothing if the count is malformed or the
/// bytes run out; bytes past the announced count are ignored.
pub open spec fn spec_tips_decode(s: Seq<u8>) -> Option<Seq<Seq<u8>>> {
    match spec_compact_u32_read(s) {
        None => None,
        Some((n, c)) => if s.len() - c >= 32 * (n as int) {
            Some(Seq::new(n as nat, |i: int| s.subrange(c + 32 * i, c + 32 * i + 32)))
        } else {
            None
        },
    }
}

/// Reading back an encoded compact count yields the count, whatever follows.
pub proof fn lemma_compact_u32_round_trip(n: u32, rest: Seq<u8>)
    ensures
        spec_compact_u32_read(spec_compact_u32(n) + rest) == Some(
            (n, spec_compact_u32(n).len() as int),
        ),
{
    let e = spec_compact_u32(n);
    let s = e + rest;
    if n < 64 {
        let b0 = ((n << 2) & 0xff) as u8;
        assert(s[0] == b0);
        assert(b0 & 3 == 0 && (b0 >> 2) as u32 == n) by (bit_vector)
            requires
                n < 64,
                b0 == ((n << 2) & 0xff) as u8,
        ;
    } else if n < 16384 {
        let v = (n << 2) | 1;
        let b0 = (v & 0xff) as u8;
        let b1 = ((v >> 8) & 0xff) as u8;
        assert(s[0] == b0 && s[1] == b1);
        assert(b0 & 3 == 1 && (((b0 as u16) | ((b1 as u16) << 8)) >> 2) as u32 == n && ((((b0
            as u16) | ((b1 as u16) << 8)) >> 2) as u32) >= 64) by (bit_vector)
            requires
                64 <= n < 16384,
                b0 == (((n << 2) | 1) & 0xff) as u8,
                b1 == ((((n << 2) | 1) >> 8) & 0xff) as u8,
        ;
    } else if n < 0x4000_0000 {
        let v = (n << 2) | 2;
        let b0 = (v & 0xff) as u8;
        let b1 = ((v >> 8) & 0xff) as u8;
        let b2 = ((v >> 16) & 0xff) as u8;
        let b3 = ((v >> 24) & 0xff) as u8;
        assert(s[0] == b0 && s[1] == b1 && s[2] == b2 && s[3] == b3);
        assert(b0 & 3 == 2 && (((b0 as u32) | ((b1 as u32) << 8) | ((b2 as u32) << 16) | ((b3
            as u32) << 24)) >> 2) == n && (((b0 as u32) | ((b1 as u32) << 8) | ((b2 as u32)
            << 16) | ((b3 as u32) << 24)) >> 2) >= 16384) by (bit_vector)
            requires
                16384 <= n < 0x4000_0000,
                b0 == (((n << 2) | 2) & 0xff) as u8,
                b1 == ((((n << 2) | 2) >> 8) & 0xff) as u8,
                b2 == ((((n << 2) | 2) >> 16) & 0xff) as u8,
                b3 == ((((n << 2) | 2) >> 24) & 0xff) as u8,
        ;
    } else {
        let b1 = (n & 0xff) as u8;
        let b2 = ((n >> 8) & 0xff) as u8;
        let b3 = ((n >> 16) & 0xff) as u8;
        let b4 = ((n >> 24) & 0xff) as u8;
        assert(s[0] == 3u8 && s[1] == b1 && s[2] == b2 && s[3] == b3 && s[4] == b4);
        assert(3u8 & 3 == 3 && 3u8 >> 2 == 0) by (bit_vector);
        assert(((b1 as u32) | ((b2 as u32) << 8) | ((b3 as u32) << 16) | ((b4 as u32) << 24))
            == n && ((b1 as u32) | ((b2 as u32) << 8) | ((b3 as u32) << 16) | ((b4 as u32)
            << 24)) > 0x3fff_ffff) by (bit_vector)
            requires
                n >= 0x4000_0000,
                b1 == (n & 0xff) as u8,
                b2 == ((n >> 8) & 0xff) as u8,
                b3 == ((n >> 16) & 0xff) as u8,
                b4 == ((n >> 24) & 0xff) as u8,
        ;
    }
}

/// Tips of 32 bytes each lay out to exactly 32 bytes apiece.
pub proof fn lemma_tips_payload_len(hs: Seq<Seq<u8>>)
    requires
        forall|i: int| 0 <= i < hs.len() ==> #[trigger] hs[i].len() == 32,
    ensures
        spec_tips_payload(hs).len() == 32 * hs.len(),
    decreases hs.len(),
{
    if hs.len() > 0 {
        assert(forall|i: int|
            0 <= i < hs.drop_first().len() ==> #[trigger] hs.drop_first()[i].len() == 32);
        lemma_tips_payload_len(hs.drop_first());
    }
}

/// The bytes of the `i`-th tip sit at offset `32 * i` of the payload.
pub proof fn lemma_tips_payload_index(hs: Seq<Seq<u8>>, i: int)
    requires
        forall|j: int| 0 <= j < hs.len() ==> #[trigger] hs[j].len() == 32,
        0 <= i < hs.len(),
    ensures
        spec_tips_payload(hs).subrange(32 * i, 32 * i + 32) == hs[i],
    decreases i,
{
    lemma_tips_payload_len(hs);
    let p = spec_tips_payload(hs);
    if i == 0 {
        assert(p.subrange(0, 32) =~= hs[0]);
    } else {
        let rest = hs.drop_first();
        assert(forall|j: int| 0 <= j < rest.len() ==> #[trigger] rest[j].len() == 32);
        lemma_tips_payload_index(rest, i - 1);
        lemma_tips_payload_len(rest);
        assert(p.subrange(32 * i, 32 * i + 32) =~= spec_tips_payload(rest).subrange(
            32 * (i - 1),
            32 * (i - 1) + 32,
        ));
        assert(rest[i - 1] == hs[i]);
    }
}

/// Reading back an encoded sequence of tips yields the sequence itself, in
/// the same order.
pub proof fn lemma_tips_round_trip(hs: Seq<Seq<u8>>)
    requires
        hs.len() <= u32::MAX,
        forall|i: int| 0 <= i < hs.len() ==> #[trigger] hs[i].len() == 32,
    ensures
        spec_tips_decode(spec_tips_encoding(hs)) == Some(hs),
{
    let n = hs.len() as u32;
    let p = spec_tips_payload(hs);
    let e = spec_tips_encoding(hs);
    let c = spec_compact_u32(n).len() as int;
    lemma_compact_u32_round_trip(n, p);
    lemma_tips_payload_len(hs);
    assert(e.len() - c == 32 * (n as int));
    let d = Seq::new(n as nat, |i: int| e.subrange(c + 32 * i, c + 32 * i + 32));
    assert forall|i: int| 0 <= i < hs.len() implies d[i] == hs[i] by {
        lemma_tips_payload_index(hs, i);
        assert(e.subrange(c + 32 * i, c + 32 * i + 32) =~= p.subrange(32 * i, 32 * i + 32));
    }
    assert(d =~= hs);
}

/// Two tip sequences with the same bytes are the same sequence.
pub proof fn lemma_tip_bytes_injective(a: Seq<TipHash>, b: Seq<TipHash>)
    requires
        spec_tip_bytes(a) == spec_tip_bytes(b),
    ensures
        a == b,
{
    assert(spec_tip_bytes(a).len() == a.len());
    assert(spec_tip_bytes(b).len() == b.len());
    assert(a.len() == b.len());
    assert forall|i: int| 0 <= i < a.len() implies a[i] == b[i] by {
        assert(spec_tip_bytes(a)[i] == spec_tip_bytes(b)[i]);
        assert(a[i].bytes@ == b[i].bytes@);
        assert(a[i].bytes =~= b[i].bytes);
        assert(a[i] =~= b[i]);
    }
    assert(a =~= b);
}

// ---------------------------------------------------------------------------
// The pair encoding of the latest block's hash residue and height: the four
// residue limbs then the height, each as 8 little-endian bytes.
// ---------------------------------------------------------------------------

/// The stored form of the latest block's hash and height: 40 bytes.
pub open spec fn spec_latest_encoding(hash: Felt, number: u64) -> Seq<u8> {
    spec_u64_le(hash.mont[0]) + spec_u64_le(hash.mont[1]) + spec_u64_le(hash.mont[2])
        + spec_u64_le(hash.mont[3]) + spec_u64_le(number)
}

/// The hash and height read back from stored bytes: each limb and the height
/// from its own 8 little-endian bytes. Bytes past the 40th are ignored.
pub open spec fn spec_latest_decoded(s: Seq<u8>, hash: Felt, number: u64) -> bool {
    &&& s.len() >= 40
    &&& hash.mont[0] == spec_u64_le_read(s, 0)
    &&& hash.mont[1] == spec_u64_le_read(s, 8)
    &&& hash.mont[2] == spec_u64_le_read(s, 16)
    &&& hash.mont[3] == spec_u64_le_read(s, 24)
    &&& number == spec_u64_le_read(s, 32)
}

/// Stored bytes read back as one hash-and-height pair only.
pub proof fn lemma_latest_decoded_unique(s: Seq<u8>, h1: Felt, n1: u64, h2: Felt, n2: u64)
    requires
        spec_latest_decoded(s, h1, n1),
        spec_latest_decoded(s, h2, n2),
    ensures
        h1 == h2,
        n1 == n2,
{
    assert(h1.mont =~= h2.mont);
    assert(h1 =~= h2);
}

/// Reading back an encoded hash-and-height pair yields the pair itself.
pub proof fn lemma_latest_round_trip(hash: Felt, number: u64)
    ensures
        spec_latest_encoding(hash, number).len() == 40,
        spec_latest_decoded(spec_latest_encoding(hash, number), hash, number),
{
    let s = spec_latest_encoding(hash, number);
    assert(s.subrange(0, 8) =~= spec_u64_le(hash.mont[0]));
    assert(s.subrange(8, 16) =~= spec_u64_le(hash.mont[1]));
    assert(s.subrange(16, 24) =~= spec_u64_le(hash.mont[2]));
    assert(s.subrange(24, 32) =~= spec_u64_le(hash.mont[3]));
    assert(s.subrange(32, 40) =~= spec_u64_le(number));
    lemma_u64_le_round_trip(hash.mont[0], s, 0);
    lemma_u64_le_round_trip(hash.mont[1], s, 8);
    lemma_u64_le_round_trip(hash.mont[2], s, 16);
    lemma_u64_le_round_trip(hash.mont[3], s, 24);
    lemma_u64_le_round_trip(number, s, 32);
}

} // verus!
