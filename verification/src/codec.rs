//! Storage encoding of the sample window.
//!
//! The window is persisted wholesale as one byte string: each sample is
//! laid down as eight little-endian bytes, in window order. Decoding
//! rejects any byte string whose length is not a multiple of eight.

use crate::Error;
use vstd::prelude::*;

verus! {

/// The eight little-endian bytes of one sample.
pub open spec fn le_bytes_of(v: u64) -> Seq<u8> {
    seq![
        v as u8,
        (v >> 8) as u8,
        (v >> 16) as u8,
        (v >> 24) as u8,
        (v >> 32) as u8,
        (v >> 40) as u8,
        (v >> 48) as u8,
        (v >> 56) as u8,
    ]
}

/// The sample read back from eight little-endian bytes.
pub open spec fn word_of(b: Seq<u8>) -> u64
    recommends
        b.len() == 8,
{
    (b[0] as u64) | ((b[1] as u64) << 8) | ((b[2] as u64) << 16) | ((b[3] as u64) << 24) | ((
    b[4] as u64) << 32) | ((b[5] as u64) << 40) | ((b[6] as u64) << 48) | ((b[7] as u64) << 56)
}

/// The byte string that persists a whole window, samples in order.
pub open spec fn encoded_samples(s: Seq<u64>) -> Seq<u8>
    decreases s.len(),
{
    if s.len() == 0 {
        Seq::empty()
    } else {
        encoded_samples(s.drop_last()) + le_bytes_of(s.last())
    }
}

/// The samples read back from a byte string of eight-byte groups.
pub open spec fn decoded_samples(b: Seq<u8>) -> Seq<u64> {
    Seq::new((b.len() / 8) as nat, |k: int| word_of(b.subrange(8 * k, 8 * k + 8)))
}

/// Reading back the eight bytes of a sample yields the sample.
pub proof fn lemma_word_round_trip(v: u64)
    ensures
        word_of(le_bytes_of(v)) == v,
{
    assert(((v as u8) as u64) | ((((v >> 8) as u8) as u64) << 8) | ((((v >> 16) as u8) as u64)
        << 16) | ((((v >> 24) as u8) as u64) << 24) | ((((v >> 32) as u8) as u64) << 32) | ((((v
        >> 40) as u8) as u64) << 40) | ((((v >> 48) as u8) as u64) << 48) | ((((v >> 56) as u8)
        as u64) << 56) == v) by (bit_vector);
}

/// Law (storage round trip): decoding an encoded window yields the
/// window back, and the encoding always has a decodable length.
pub proof fn lemma_codec_round_trip(s: Seq<u64>)
    ensures
        encoded_samples(s).len() == 8 * s.len(),
        decoded_samples(encoded_samples(s)) == s,
    decreases s.len(),
{
    if s.len() == 0 {
        assert(decoded_samples(encoded_samples(s)) =~= s);
    } else {
        let prev = s.drop_last();
        lemma_codec_round_trip(prev);
        let b = encoded_samples(s);
        let bp = encoded_samples(prev);
        assert(b == bp + le_bytes_of(s.last()));
        assert(b.len() == 8 * s.len());
        assert forall|k: int| 0 <= k < s.len() implies decoded_samples(b)[k] == s[k] by {
            if k < s.len() - 1 {
                assert(b.subrange(8 * k, 8 * k + 8) =~= bp.subrange(8 * k, 8 * k + 8));
                assert(decoded_samples(bp)[k] == prev[k]);
            } else {
                assert(b.subrange(8 * k, 8 * k + 8) =~= le_bytes_of(s.last()));
                lemma_word_round_trip(s.last());
            }
        }
        assert(decoded_samples(b) =~= s);
    }
}

/// Appends the eight little-endian bytes of one sample.
fn encode_word(v: u64, out: &mut Vec<u8>)
    ensures
        final(out)@ == old(out)@ + le_bytes_of(v),
{
    out.push(v as u8);
    out.push((v >> 8) as u8);
    out.push((v >> 16) as u8);
    out.push((v >> 24) as u8);
    out.push((v >> 32) as u8);
    out.push((v >> 40) as u8);
    out.push((v >> 48) as u8);
    out.push((v >> 56) as u8);
    assert(out@ =~= old(out)@ + le_bytes_of(v));
}

/// Reads one sample from the eight bytes starting at `at`.
fn decode_word(bytes: &Vec<u8>, at: usize) -> (v: u64)
    requires
        at + 8 <= bytes@.len(),
        bytes@.len() <= usize::MAX,
    ensures
        v == word_of(bytes@.subrange(at as int, at + 8)),
{
    (bytes[at] as u64) | ((bytes[at + 1] as u64) << 8u64) | ((bytes[at + 2] as u64) << 16u64) | ((
    bytes[at + 3] as u64) << 24u64) | ((bytes[at + 4] as u64) << 32u64) | ((bytes[at + 5] as u64)
        << 40u64) | ((bytes[at + 6] as u64) << 48u64) | ((bytes[at + 7] as u64) << 56u64)
}

/// Serializes the window for the backing store: each sample as eight
/// little-endian bytes, in window order.
pub fn encode_samples(samples: &Vec<u64>) -> (out: Vec<u8>)
    ensures
        out@ == encoded_samples(samples@),
{
    let mut out: Vec<u8> = Vec::new();
    let mut i: usize = 0;
    while i < samples.len()
        invariant
            i <= samples@.len(),
            out@ == encoded_samples(samples@.subrange(0, i as int)),
        decreases samples@.len() - i,
    {
        encode_word(samples[i], &mut out);
        proof {
            assert(samples@.subrange(0, i + 1).drop_last() =~= samples@.subrange(0, i as int));
            assert(samples@.subrange(0, i + 1).last() == samples@[i as int]);
        }
        i += 1;
    }
    proof {
        assert(samples@.subrange(0, samples@.len() as int) =~= samples@);
    }
    out
}

/// Deserializes a persisted window. Any byte string whose length is not
/// a multiple of eight cannot hold whole samples and is rejected as a
/// decoding error; continuing with malformed state risks consensus
/// divergence.
pub fn decode_samples(bytes: &Vec<u8>) -> (r: Result<Vec<u64>, Error>)
    ensures
        bytes@.len() % 8 == 0 ==> r is Ok && r->Ok_0@ == decoded_samples(bytes@),
        bytes@.len() % 8 != 0 ==> r == Err::<Vec<u64>, Error>(Error::DecodingError),
{
    if bytes.len() % 8 != 0 {
        return Err(Error::DecodingError);
    }
    let n = bytes.len() / 8;
    let mut out: Vec<u64> = Vec::new();
    let mut k: usize = 0;
    while k < n
        invariant
            k <= n,
            n == bytes@.len() / 8,
            bytes@.len() % 8 == 0,
            bytes@.len() <= usize::MAX,
            out@.len() == k,
            forall|m: int|
                0 <= m < k ==> out@[m] == word_of(bytes@.subrange(8 * m, 8 * m + 8)),
        decreases n - k,
    {
        proof {
            assert(8 * (k as int) + 8 <= 8 * (n as int));
            assert(8 * (n as int) <= bytes@.len());
        }
        let v = decode_word(bytes, 8 * k);
        out.push(v);
        k += 1;
    }
    proof {
        assert(out@ =~= decoded_samples(bytes@));
    }
    Ok(out)
}

} // verus!
