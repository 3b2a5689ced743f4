//! Notification payload decoders for the two channel families.
//!
//! Every notification payload carries a 2-byte header that is discarded. For
//! the EEG family the remaining bytes are the samples, one byte each. For
//! the PPG family the remaining bytes are decoded in groups of 3 as
//! big-endian 24-bit unsigned integers; an incomplete trailing group is
//! dropped. Both decoders are pure and fail only on a payload too short to
//! hold the header.

use vstd::prelude::*;

verus! {

/// Decode failure: the payload is too short to hold the 2-byte header.
#[derive(Debug, Clone, Copy, PartialEq, Eq, Structural)]
pub enum DecodeError {
    PayloadTooShort,
}

/// The payload bytes after the 2-byte header.
pub open spec fn after_header(data: Seq<u8>) -> Seq<u8>
    recommends
        data.len() >= 2,
{
    data.subrange(2, data.len() as int)
}

/// The value of the `k`-th 3-byte group of `b`, read as a big-endian 24-bit
/// unsigned integer.
pub open spec fn group_value(b: Seq<u8>, k: int) -> int
    recommends
        0 <= k,
        3 * k + 3 <= b.len(),
{
    b[3 * k] * 0x10000 + b[3 * k + 1] * 0x100 + b[3 * k + 2]
}

/// All complete 3-byte groups of `b` as 24-bit unsigned values; trailing
/// bytes that do not fill a group are dropped.
pub open spec fn decoded_24_bit(b: Seq<u8>) -> Seq<u32> {
    Seq::new((b.len() / 3) as nat, |k: int| group_value(b, k) as u32)
}

/// Decode an EEG notification payload: drop the 2-byte header and hand the
/// remaining bytes back verbatim, one sample per byte.
pub fn parse_eeg_data(data: &[u8]) -> (r: Result<Vec<u8>, DecodeError>)
    ensures
        r is Ok <==> data@.len() >= 2,
        r matches Ok(samples) ==> samples@ == after_header(data@),
        r matches Err(e) ==> e == DecodeError::PayloadTooShort,
{
    if data.len() < 2 {
        return Err(DecodeError::PayloadTooShort);
    }
    let mut samples: Vec<u8> = Vec::new();
    let mut i: usize = 2;
    while i < data.len()
        invariant
            2 <= i <= data@.len(),
            samples@ == data@.subrange(2, i as int),
        decreases data@.len() - i,
    {
        samples.push(data[i]);
        proof {
            assert(samples@ =~= data@.subrange(2, i + 1 as int));
        }
        i = i + 1;
    }
    Ok(samples)
}

/// Decode a PPG notification payload: drop the 2-byte header and decode the
/// remaining bytes as big-endian 24-bit unsigned samples.
pub fn parse_ppg_data(data: &[u8]) -> (r: Result<Vec<u32>, DecodeError>)
    ensures
        r is Ok <==> data@.len() >= 2,
        r matches Ok(samples) ==> samples@ == decoded_24_bit(after_header(data@)),
        r matches Err(e) ==> e == DecodeError::PayloadTooShort,
{
    if data.len() < 2 {
        return Err(DecodeError::PayloadTooShort);
    }
    let mut body: Vec<u8> = Vec::new();
    let mut i: usize = 2;
    while i < data.len()
        invariant
            2 <= i <= data@.len(),
            body@ == data@.subrange(2, i as int),
        decreases data@.len() - i,
    {
        body.push(data[i]);
        proof {
            assert(body@ =~= data@.subrange(2, i + 1 as int));
        }
        i = i + 1;
    }
    proof {
        assert(body@ =~= after_header(data@));
    }
    Ok(decode_unsigned_24_bit_data(body.as_slice()))
}

/// Decode a run of bytes as big-endian 24-bit unsigned integers, three bytes
/// per sample, dropping any incomplete trailing group.
pub fn decode_unsigned_24_bit_data(samples: &[u8]) -> (r: Vec<u32>)
    ensures
        r@ == decoded_24_bit(samples@),
{
    let mut decoded: Vec<u32> = Vec::new();
    let mut i: usize = 0;
    while samples.len() - i >= 3
        invariant
            i <= samples@.len(),
            i == 3 * decoded@.len(),
            forall|j: int| 0 <= j < decoded@.len() ==> decoded@[j] == group_value(samples@, j) as u32,
        decreases samples@.len() - i,
    {
        let most_significant_byte: u32 = (samples[i] as u32) << 16;
        let middle_byte: u32 = (samples[i + 1] as u32) << 8;
        let least_significant_byte: u32 = samples[i + 2] as u32;

        let val: u32 = most_significant_byte | middle_byte | least_significant_byte;
        proof {
            let x = samples@[i as int];
            let y = samples@[i + 1];
            let z = samples@[i + 2];
            assert(((x as u32) << 16 | (y as u32) << 8 | (z as u32)) == x * 0x10000 + y * 0x100
                + z) by (bit_vector);
        }
        decoded.push(val);
        i = i + 3;
    }
    proof {
        assert(decoded@.len() == samples@.len() / 3) by (nonlinear_arith)
            requires
                i == 3 * decoded@.len(),
                i <= samples@.len(),
                samples@.len() - i < 3,
        ;
        assert(decoded@ =~= decoded_24_bit(samples@));
    }
    decoded
}

/// A full EEG chunk payload (header plus twelve sample bytes) decodes to
/// exactly twelve samples, each equal to the payload byte two places after
/// it, with no scaling.
pub proof fn lemma_eeg_full_chunk(data: Seq<u8>)
    requires
        data.len() == 14,
    ensures
        after_header(data).len() == 12,
        forall|i: int| 0 <= i < 12 ==> after_header(data)[i] == data[i + 2],
{
}

/// A PPG payload of `2 + 3 * k + extra` bytes, `extra < 3`, decodes to
/// exactly `k` samples; the `j`-th is the big-endian 24-bit value of its
/// group, and the `extra` leftover bytes are dropped.
pub proof fn lemma_ppg_groups(data: Seq<u8>, k: nat, extra: nat)
    requires
        data.len() == 2 + 3 * k + extra,
        extra < 3,
    ensures
        decoded_24_bit(after_header(data)).len() == k,
        forall|j: int|
            0 <= j < k ==> decoded_24_bit(after_header(data))[j] == data[2 + 3 * j] * 0x10000
                + data[2 + 3 * j + 1] * 0x100 + data[2 + 3 * j + 2],
{
    let body = after_header(data);
    assert(body.len() == 3 * k + extra);
    assert(body.len() / 3 == k) by (nonlinear_arith)
        requires
            body.len() == 3 * k + extra,
            extra < 3,
    ;
    assert forall|j: int| 0 <= j < k implies decoded_24_bit(body)[j] == data[2 + 3 * j] * 0x10000
        + data[2 + 3 * j + 1] * 0x100 + data[2 + 3 * j + 2] by {
        assert(body[3 * j] == data[2 + 3 * j]);
        assert(body[3 * j + 1] == data[2 + 3 * j + 1]);
        assert(body[3 * j + 2] == data[2 + 3 * j + 2]);
    }
}

} // verus!
