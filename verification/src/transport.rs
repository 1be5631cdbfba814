//! The steganographic transport: writes a length-prefixed bitstream into
//! the least-significant bits of channel values in traversal order, and
//! reads it back.

use vstd::prelude::*;
use crate::bits::{
    bits_of, frame, frame_bits, is_bit_seq, lemma_unframe_frame, unframe, unframe_spec,
};
use crate::carrier::Carrier;
use crate::errors::StegoError;

verus! {

/// A channel value with its least-significant bit overwritten by `bit`.
pub open spec fn with_lsb(v: u8, bit: u8) -> u8 {
    (v & 0xfe) | bit
}

/// The least-significant bits of a sequence of channel values.
pub open spec fn lsb_seq(chs: Seq<u8>) -> Seq<u8> {
    Seq::new(chs.len(), |i: int| chs[i] & 1)
}

/// The channel values after embedding `message_bits`: slot `i` carries bit
/// `i` of the message in its least-significant bit, all other bits of every
/// slot untouched; slots past the message keep their value.
pub open spec fn stego_channels(cover: Seq<u8>, message_bits: Seq<u8>) -> Seq<u8>
    recommends
        message_bits.len() <= cover.len(),
{
    Seq::new(
        cover.len(),
        |i: int|
            if i < message_bits.len() {
                with_lsb(cover[i], message_bits[i])
            } else {
                cover[i]
            },
    )
}

/// The container bytes recovered from channel values: the least-significant
/// bits in traversal order, unframed.
pub open spec fn recovered_container(chs: Seq<u8>) -> Option<Seq<u8>> {
    unframe_spec(lsb_seq(chs))
}

/// Whether two byte slices hold the same bytes.
pub fn bytes_eq(a: &[u8], b: &[u8]) -> (r: bool)
    ensures
        r == (a@ == b@),
{
    if a.len() != b.len() {
        return false;
    }
    let mut i: usize = 0;
    while i < a.len()
        invariant
            i <= a@.len(),
            a@.len() == b@.len(),
            forall|j: int| 0 <= j < i ==> a@[j] == b@[j],
        decreases a@.len() - i,
    {
        if *vstd::slice::slice_index_get(a, i) != *vstd::slice::slice_index_get(b, i) {
            return false;
        }
        i += 1;
    }
    proof {
        assert(a@ =~= b@);
    }
    true
}

/// Embeds the framed form of `container` into the least-significant bits of
/// a copy of the cover image's channel values; the cover itself is not
/// changed. Succeeds exactly when the carrier has at least
/// `32 + container.len() * 8` channel slots, and fails with
/// `CapacityExceeded` (reporting available slots against required bits)
/// otherwise.
pub fn embed(cover: &Carrier, container: &Vec<u8>) -> (r: Result<Carrier, StegoError>)
    requires
        cover.wf(),
        container@.len() <= u32::MAX,
    ensures
        32 + container@.len() * 8 <= cover.channels@.len() ==> (r matches Ok(img) && {
            &&& img.wf()
            &&& img.width == cover.width
            &&& img.height == cover.height
            &&& img.channels@ == stego_channels(cover.channels@, frame_bits(container@))
            &&& recovered_container(img.channels@) == Some(container@)
        }),
        32 + container@.len() * 8 > cover.channels@.len() ==> r == Err::<Carrier, StegoError>(
            StegoError::CapacityExceeded {
                available: cover.channels@.len() as u64,
                required: (32 + container@.len() * 8) as u64,
            },
        ),
{
    let available = cover.channel_count();
    let clen = container.len();
    let required: u64 = 32u64 + (clen as u64) * 8u64;
    if required > available as u64 {
        return Err(
            StegoError::CapacityExceeded { available: available as u64, required },
        );
    }
    let msg_bits = frame(container);
    let nbits = msg_bits.len();
    let mut out: Vec<u8> = Vec::new();
    let mut i: usize = 0;
    while i < available
        invariant
            i <= available,
            cover.wf(),
            available == cover.channels@.len(),
            msg_bits@ == frame_bits(container@),
            is_bit_seq(msg_bits@),
            nbits == msg_bits@.len(),
            nbits <= available,
            out@ == stego_channels(cover.channels@, msg_bits@).subrange(0, i as int),
        decreases available - i,
    {
        let ch = cover.channels[i];
        let v = if i < nbits {
            (ch & 0xfe) | msg_bits[i]
        } else {
            ch
        };
        out.push(v);
        i += 1;
        proof {
            assert(out@ =~= stego_channels(cover.channels@, msg_bits@).subrange(0, i as int));
        }
    }
    proof {
        assert(stego_channels(cover.channels@, msg_bits@).subrange(0, available as int)
            =~= stego_channels(cover.channels@, msg_bits@));
    }
    let img = Carrier::new(cover.width, cover.height, out);
    proof {
        let st = stego_channels(cover.channels@, msg_bits@);
        let lsbs = lsb_seq(st);
        assert forall|k: int| 0 <= k < nbits implies lsbs[k] == msg_bits@[k] by {
            let c = cover.channels@[k];
            let bit = msg_bits@[k];
            assert(((c & 0xfe) | bit) & 1 == bit) by (bit_vector)
                requires
                    bit <= 1,
            ;
        }
        assert forall|k: int| nbits <= k < st.len() implies lsbs[k] <= 1 by {
            let c = cover.channels@[k];
            assert(c & 1 <= 1) by (bit_vector);
        }
        let pad = lsbs.subrange(nbits as int, st.len() as int);
        assert(lsbs =~= msg_bits@ + pad);
        lemma_unframe_frame(container@, pad);
        assert(recovered_container(img.channels@) == Some(container@));
    }
    Ok(img)
}

/// Reads the least-significant bit of every channel slot in traversal order
/// and unframes the bit sequence into the container bytes that were
/// embedded. Fails with `TruncatedStream` where the stream declares more
/// bits than the carrier holds.
pub fn extract(image: &Carrier) -> (r: Result<Vec<u8>, StegoError>)
    requires
        image.wf(),
    ensures
        recovered_container(image.channels@) matches Some(c) ==> (r matches Ok(v) && v@ == c),
        recovered_container(image.channels@) is None ==> r == Err::<Vec<u8>, StegoError>(
            StegoError::TruncatedStream,
        ),
{
    let n = image.channel_count();
    let mut lsbs: Vec<u8> = Vec::new();
    let mut i: usize = 0;
    while i < n
        invariant
            i <= n,
            image.wf(),
            n == image.channels@.len(),
            lsbs@ == lsb_seq(image.channels@).subrange(0, i as int),
        decreases n - i,
    {
        lsbs.push(image.channels[i] & 1);
        i += 1;
        proof {
            assert(lsbs@ =~= lsb_seq(image.channels@).subrange(0, i as int));
        }
    }
    proof {
        assert(lsbs@ =~= lsb_seq(image.channels@));
        assert forall|j: int| 0 <= j < lsbs@.len() implies lsbs@[j] <= 1 by {
            let c = image.channels@[j];
            assert(c & 1 <= 1) by (bit_vector);
        }
    }
    unframe(&lsbs)
}

/// The post-embed self-check: whether reading the image back yields exactly
/// `container`. Advisory: callers may log a mismatch without failing.
pub fn verify_embedding(image: &Carrier, container: &Vec<u8>) -> (r: bool)
    requires
        image.wf(),
    ensures
        r == (recovered_container(image.channels@) == Some(container@)),
{
    match extract(image) {
        Ok(v) => bytes_eq(v.as_slice(), container.as_slice()),
        Err(_) => false,
    }
}

} // verus!
