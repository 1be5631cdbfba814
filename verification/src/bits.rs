//! The bit codec: bytes to and from a flat sequence of single bits, and the
//! length-prefixed framing of such a sequence.

use vstd::prelude::*;
use crate::errors::StegoError;

verus! {

/// Bit `i` of byte `b`, counting the most-significant bit as bit 0.
pub open spec fn bit_at(b: u8, i: int) -> u8
    recommends
        0 <= i < 8,
{
    (b >> ((7 - i) as u8)) & 1
}

/// The bits of `bytes`, in byte order, most-significant bit first within
/// each byte.
pub open spec fn bits_of(bytes: Seq<u8>) -> Seq<u8> {
    Seq::new(bytes.len() * 8, |i: int| bit_at(bytes[i / 8], i % 8))
}

/// Every element is 0 or 1.
pub open spec fn is_bit_seq(bits: Seq<u8>) -> bool {
    forall|i: int| 0 <= i < bits.len() ==> bits[i] <= 1
}

/// The byte whose bits, most-significant first, are the eight elements of
/// `bits`.
pub open spec fn byte_of_bits(bits: Seq<u8>) -> u8
    recommends
        bits.len() == 8,
        is_bit_seq(bits),
{
    (bits[0] << 7) | (bits[1] << 6) | (bits[2] << 5) | (bits[3] << 4) | (bits[4] << 3) | (bits[5]
        << 2) | (bits[6] << 1) | bits[7]
}

/// The bytes regrouped from `bits`, eight bits each, most-significant first.
pub open spec fn bytes_of(bits: Seq<u8>) -> Seq<u8>
    recommends
        bits.len() % 8 == 0,
        is_bit_seq(bits),
{
    Seq::new(bits.len() / 8, |i: int| byte_of_bits(bits.subrange(8 * i, 8 * i + 8)))
}

/// The four bytes of `n`, big-endian.
pub open spec fn u32_be_bytes(n: u32) -> Seq<u8> {
    seq![(n >> 24) as u8, (n >> 16) as u8, (n >> 8) as u8, n as u8]
}

/// The big-endian value of four bytes.
pub open spec fn be_u32_of(bytes: Seq<u8>) -> u32
    recommends
        bytes.len() == 4,
{
    ((bytes[0] as u32) << 24) | ((bytes[1] as u32) << 16) | ((bytes[2] as u32) << 8) | (bytes[3]
        as u32)
}

/// The framed form of `bytes`: the bits of a 4-byte big-endian length field,
/// then the bits of `bytes`.
pub open spec fn frame_bits(bytes: Seq<u8>) -> Seq<u8>
    recommends
        bytes.len() <= u32::MAX,
{
    bits_of(u32_be_bytes(bytes.len() as u32)) + bits_of(bytes)
}

/// What unframing a bit sequence yields: the first 32 bits are read as a
/// big-endian length `L`, the next `L * 8` bits are the payload; `None`
/// where fewer bits are present than declared.
pub open spec fn unframe_spec(bits: Seq<u8>) -> Option<Seq<u8>> {
    if bits.len() < 32 {
        None
    } else {
        let declared = be_u32_of(bytes_of(bits.subrange(0, 32))) as int;
        if 32 + declared * 8 > bits.len() {
            None
        } else {
            Some(bytes_of(bits.subrange(32, 32 + declared * 8)))
        }
    }
}

/// Rebuilding a byte from its eight bits gives the byte back.
proof fn lemma_byte_of_bit_at(b: u8, bits: Seq<u8>)
    requires
        bits.len() == 8,
        forall|i: int| 0 <= i < 8 ==> bits[i] == bit_at(b, i),
    ensures
        byte_of_bits(bits) == b,
{
    assert(bits[0] == (b >> 7) & 1);
    assert(bits[1] == (b >> 6) & 1);
    assert(bits[2] == (b >> 5) & 1);
    assert(bits[3] == (b >> 4) & 1);
    assert(bits[4] == (b >> 3) & 1);
    assert(bits[5] == (b >> 2) & 1);
    assert(bits[6] == (b >> 1) & 1);
    assert(bits[7] == (b >> 0) & 1);
    assert((((b >> 7) & 1) << 7) | (((b >> 6) & 1) << 6) | (((b >> 5) & 1) << 5) | (((b >> 4) & 1)
        << 4) | (((b >> 3) & 1) << 3) | (((b >> 2) & 1) << 2) | (((b >> 1) & 1) << 1) | ((b >> 0)
        & 1) == b) by (bit_vector);
}

/// The bits of a byte sequence are all 0 or 1, and regrouping them into
/// bytes gives the sequence back.
pub proof fn lemma_bytes_of_bits_of(bytes: Seq<u8>)
    ensures
        bits_of(bytes).len() == bytes.len() * 8,
        is_bit_seq(bits_of(bytes)),
        bytes_of(bits_of(bytes)) == bytes,
{
    let bits = bits_of(bytes);
    assert forall|i: int| 0 <= i < bits.len() implies bits[i] <= 1 by {
        let b = bytes[i / 8];
        let sh = (7 - i % 8) as u8;
        assert(sh < 8);
        assert((b >> sh) & 1 <= 1) by (bit_vector)
            requires
                sh < 8,
        ;
    }
    assert forall|i: int| 0 <= i < bytes.len() implies bytes_of(bits)[i] == bytes[i] by {
        let sub = bits.subrange(8 * i, 8 * i + 8);
        assert forall|j: int| 0 <= j < 8 implies sub[j] == bit_at(bytes[i], j) by {
            assert(sub[j] == bits[8 * i + j]);
            assert((8 * i + j) / 8 == i && (8 * i + j) % 8 == j) by (nonlinear_arith)
                requires
                    0 <= j < 8,
                    0 <= i,
            ;
        }
        lemma_byte_of_bit_at(bytes[i], sub);
    }
    assert(bytes_of(bits) =~= bytes);
}

/// Reading back the four big-endian bytes of `n` gives `n`.
proof fn lemma_be_round_trip(n: u32)
    ensures
        be_u32_of(u32_be_bytes(n)) == n,
{
    assert(((((n >> 24) as u8) as u32) << 24) | ((((n >> 16) as u8) as u32) << 16) | ((((n >> 8)
        as u8) as u32) << 8) | ((n as u8) as u32) == n) by (bit_vector);
}

/// Framing round trip: unframing the framed form of any byte sequence,
/// with any trailing bits after it, yields exactly that sequence.
pub proof fn lemma_unframe_frame(bytes: Seq<u8>, pad: Seq<u8>)
    requires
        bytes.len() <= u32::MAX,
    ensures
        unframe_spec(frame_bits(bytes) + pad) == Some(bytes),
{
    let n = bytes.len() as u32;
    let hdr = u32_be_bytes(n);
    let all = frame_bits(bytes) + pad;
    lemma_bytes_of_bits_of(hdr);
    lemma_bytes_of_bits_of(bytes);
    assert(all.len() >= 32);
    assert(all.subrange(0, 32) =~= bits_of(hdr));
    lemma_be_round_trip(n);
    assert(be_u32_of(bytes_of(all.subrange(0, 32))) == n);
    assert(all.subrange(32, 32 + (n as int) * 8) =~= bits_of(bytes));
    assert(unframe_spec(all) == Some(bytes));
}

/// The bits of `bytes`, most-significant bit first within each byte.
pub fn to_bits(bytes: &Vec<u8>) -> (r: Vec<u8>)
    requires
        bytes@.len() * 8 <= usize::MAX,
    ensures
        r@ == bits_of(bytes@),
        is_bit_seq(r@),
{
    proof {
        lemma_bytes_of_bits_of(bytes@);
    }
    let n = bytes.len();
    let mut r: Vec<u8> = Vec::new();
    let mut i: usize = 0;
    while i < n
        invariant
            i <= n,
            n == bytes@.len(),
            n * 8 <= usize::MAX,
            r@.len() == i * 8,
            r@ == bits_of(bytes@).subrange(0, 8 * i as int),
        decreases n - i,
    {
        let b = bytes[i];
        let mut j: usize = 0;
        while j < 8
            invariant
                j <= 8,
                i < n,
                n == bytes@.len(),
                n * 8 <= usize::MAX,
                b == bytes@[i as int],
                r@.len() == i * 8 + j,
                r@ == bits_of(bytes@).subrange(0, 8 * i as int + j as int),
        decreases 8 - j,
        {
            let sh: u8 = (7 - j) as u8;
            let bit = (b >> sh) & 1;
            proof {
                let pos = 8 * i as int + j as int;
                assert(pos < bytes@.len() * 8) by (nonlinear_arith)
                    requires
                        pos == 8 * i as int + j as int,
                        0 <= j < 8,
                        0 <= i < bytes@.len(),
                ;
                assert(pos / 8 == i as int && pos % 8 == j as int) by (nonlinear_arith)
                    requires
                        pos == 8 * i as int + j as int,
                        0 <= j < 8,
                        0 <= i,
                ;
                assert(bits_of(bytes@)[pos] == bit_at(b, j as int));
                assert(bit == bit_at(b, j as int));
            }
            r.push(bit);
            j += 1;
            proof {
                assert(r@ =~= bits_of(bytes@).subrange(0, 8 * i as int + j as int));
            }
        }
        i += 1;
    }
    proof {
        assert(bits_of(bytes@).subrange(0, 8 * n as int) =~= bits_of(bytes@));
    }
    r
}

/// Regroups a sequence of bits (each 0 or 1) into bytes, most-significant
/// bit first; fails where the bit count is not a multiple of eight.
pub fn from_bits(bits: &Vec<u8>) -> (r: Result<Vec<u8>, StegoError>)
    requires
        is_bit_seq(bits@),
    ensures
        bits@.len() % 8 == 0 ==> (r matches Ok(v) && v@ == bytes_of(bits@)),
        bits@.len() % 8 != 0 ==> r == Err::<Vec<u8>, StegoError>(StegoError::MalformedBitstream),
{
    let len = bits.len();
    if len % 8 != 0 {
        return Err(StegoError::MalformedBitstream);
    }
    let n = len / 8;
    proof {
        vstd::arithmetic::div_mod::lemma_fundamental_div_mod(len as int, 8);
    }
    let mut r: Vec<u8> = Vec::new();
    let mut i: usize = 0;
    while i < n
        invariant
            i <= n,
            n == bits@.len() / 8,
            len == bits@.len(),
            len == 8 * n,
            is_bit_seq(bits@),
            r@.len() == i,
            r@ == bytes_of(bits@).subrange(0, i as int),
        decreases n - i,
    {
        let base = 8 * i;
        proof {
            assert(8 * (i as int) + 8 <= 8 * (n as int)) by (nonlinear_arith)
                requires
                    i < n,
            ;
        }
        let byte = (bits[base] << 7) | (bits[base + 1] << 6) | (bits[base + 2] << 5) | (bits[base
            + 3] << 4) | (bits[base + 4] << 3) | (bits[base + 5] << 2) | (bits[base + 6] << 1)
            | bits[base + 7];
        proof {
            let sub = bits@.subrange(8 * i as int, 8 * i as int + 8);
            assert(byte == byte_of_bits(sub));
            assert(bytes_of(bits@)[i as int] == byte_of_bits(sub));
        }
        r.push(byte);
        i += 1;
        proof {
            assert(r@ =~= bytes_of(bits@).subrange(0, i as int));
        }
    }
    proof {
        assert(bytes_of(bits@).subrange(0, n as int) =~= bytes_of(bits@));
    }
    Ok(r)
}

/// Frames `bytes`: the bits of a 4-byte big-endian length field, then the
/// bits of `bytes`.
pub fn frame(bytes: &Vec<u8>) -> (r: Vec<u8>)
    requires
        bytes@.len() <= u32::MAX,
        32 + bytes@.len() * 8 <= usize::MAX,
    ensures
        r@ == frame_bits(bytes@),
        is_bit_seq(r@),
{
    let len32 = bytes.len() as u32;
    let mut hdr: Vec<u8> = Vec::new();
    hdr.push((len32 >> 24) as u8);
    hdr.push((len32 >> 16) as u8);
    hdr.push((len32 >> 8) as u8);
    hdr.push(len32 as u8);
    proof {
        assert(hdr@ =~= u32_be_bytes(len32));
        lemma_bytes_of_bits_of(hdr@);
        lemma_bytes_of_bits_of(bytes@);
    }
    let mut r = to_bits(&hdr);
    let mut body = to_bits(bytes);
    r.append(&mut body);
    proof {
        assert(r@ =~= frame_bits(bytes@));
    }
    r
}

/// Unframes a sequence of bits (each 0 or 1): reads the first 32 bits as a
/// big-endian length `L`, then the next `L * 8` bits as the payload bytes.
/// Fails with `TruncatedStream` where fewer bits are present than declared.
pub fn unframe(bits: &Vec<u8>) -> (r: Result<Vec<u8>, StegoError>)
    requires
        is_bit_seq(bits@),
    ensures
        unframe_spec(bits@) matches Some(p) ==> (r matches Ok(v) && v@ == p),
        unframe_spec(bits@) is None ==> r == Err::<Vec<u8>, StegoError>(StegoError::TruncatedStream),
{
    let len = bits.len();
    if len < 32 {
        return Err(StegoError::TruncatedStream);
    }
    let mut hdr_bits: Vec<u8> = Vec::new();
    let mut i: usize = 0;
    while i < 32
        invariant
            i <= 32,
            bits@.len() >= 32,
            is_bit_seq(bits@),
            hdr_bits@ == bits@.subrange(0, i as int),
        decreases 32 - i,
    {
        hdr_bits.push(bits[i]);
        i += 1;
        proof {
            assert(hdr_bits@ =~= bits@.subrange(0, i as int));
        }
    }
    let hdr = match from_bits(&hdr_bits) {
        Ok(h) => h,
        Err(_) => {
            return vstd::pervasive::unreached();
        },
    };
    let declared = ((hdr[0] as u32) << 24) | ((hdr[1] as u32) << 16) | ((hdr[2] as u32) << 8) | (
    hdr[3] as u32);
    proof {
        assert(declared == be_u32_of(bytes_of(bits@.subrange(0, 32))));
    }
    let declared_len = declared as usize;
    if declared_len > (len - 32) / 8 {
        proof {
            vstd::arithmetic::div_mod::lemma_fundamental_div_mod(len as int - 32, 8);
        }
        return Err(StegoError::TruncatedStream);
    }
    proof {
        vstd::arithmetic::div_mod::lemma_fundamental_div_mod(len as int - 32, 8);
        assert(8 * (declared_len as int) <= 8 * ((len as int - 32) / 8)) by (nonlinear_arith)
            requires
                declared_len as int <= (len as int - 32) / 8,
        ;
    }
    let mut payload_bits: Vec<u8> = Vec::new();
    let mut k: usize = 0;
    let total = declared_len * 8;
    while k < total
        invariant
            k <= total,
            total == declared_len * 8,
            32 + total <= bits@.len(),
            32 + total <= usize::MAX,
            is_bit_seq(bits@),
            payload_bits@ == bits@.subrange(32, 32 + k as int),
        decreases total - k,
    {
        payload_bits.push(bits[32 + k]);
        k += 1;
        proof {
            assert(payload_bits@ =~= bits@.subrange(32, 32 + k as int));
        }
    }
    proof {
        assert(is_bit_seq(payload_bits@));
        assert(payload_bits@.len() % 8 == 0) by (nonlinear_arith)
            requires
                payload_bits@.len() == declared_len * 8,
        ;
    }
    match from_bits(&payload_bits) {
        Ok(v) => {
            proof {
                assert(32 + (declared as int) * 8 <= bits@.len());
                assert(v@ == bytes_of(bits@.subrange(32, 32 + (declared as int) * 8)));
            }
            Ok(v)
        },
        Err(_) => vstd::pervasive::unreached(),
    }
}

} // verus!
