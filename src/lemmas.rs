use vstd::prelude::*;

use crate::conductor::{
    bank_of, decode_outcome, decodes_to, record_at, record_start, tracks_outcome, Conductor, DecodeError,
    DescriptionBuffer, Track, RECORD_LEN,
};

verus! {

/// Every record before the `k`-th has a bank byte in range.
pub open spec fn banks_valid_before(b: Seq<u8>, k: int) -> bool {
    forall|j: int| 0 <= j < k ==> (#[trigger] bank_of(b[record_start(j) + 22])) is Some
}

/// When the stream reaches the start of record `k` and every earlier bank
/// byte is in range, decoding goes on from record `k` as it would from the first.
pub proof fn lemma_reach_record(b: Seq<u8>, n: int, k: int)
    requires
        0 <= k <= n,
        b.len() >= record_start(k),
        banks_valid_before(b, k),
    ensures
        tracks_outcome(b, n, 0) == tracks_outcome(b, n, k),
    decreases k,
{
    if k > 0 {
        lemma_reach_record(b, n, k - 1);
        assert(bank_of(b[record_start(k - 1) + 22]) is Some);
    }
}

/// From record `k` on, a stream whose last body is complete and whose bank
/// bytes are all in range decodes the remaining records up to the `n`-th.
proof fn lemma_complete_from(b: Seq<u8>, n: int, k: int)
    requires
        0 <= k <= n,
        n >= 1,
        b.len() >= record_start(n - 1) + RECORD_LEN,
        banks_valid_before(b, n),
    ensures
        tracks_outcome(b, n, k) == Ok::<int, DecodeError>(n),
    decreases n - k,
{
    if k < n {
        assert(bank_of(b[record_start(k) + 22]) is Some);
        lemma_complete_from(b, n, k + 1);
    }
}

/// A stream that declares `n >= 1` tracks, holds every record body in full
/// (the last record's trailer may be cut short) and has an in-range bank
/// byte in every record decodes successfully to exactly `n` tracks, the
/// `i`-th of them read from the `i`-th record.
pub proof fn lemma_well_formed_stream_decodes(b: Seq<u8>)
    requires
        b.len() >= 3,
        b[2] >= 1,
        b.len() >= record_start(b[2] - 1) + RECORD_LEN,
        banks_valid_before(b, b[2] as int),
    ensures
        decode_outcome(b) == Ok::<int, DecodeError>(b[2] as int),
{
    lemma_complete_from(b, b[2] as int, 0);
}

/// A header whose track count byte is zero is refused, whatever follows it.
pub proof fn lemma_zero_track_count(b: Seq<u8>)
    requires
        b.len() >= 3,
        b[2] == 0,
    ensures
        decode_outcome(b) == Err::<int, DecodeError>(DecodeError::InvalidTrackCount),
{
}

/// A stream that ends strictly inside the 21 reserved header bytes is truncated.
pub proof fn lemma_truncated_in_reserved(b: Seq<u8>)
    requires
        3 < b.len() < record_start(0),
        b[2] != 0,
    ensures
        decode_outcome(b) == Err::<int, DecodeError>(DecodeError::TruncatedInput),
{
}

/// A stream that ends strictly inside the body of record `k`, a record the
/// header declares, is truncated, once every earlier bank byte is in range.
pub proof fn lemma_truncated_in_body(b: Seq<u8>, k: int)
    requires
        b.len() >= 3,
        0 <= k < b[2],
        record_start(k) < b.len() < record_start(k) + RECORD_LEN,
        banks_valid_before(b, k),
    ensures
        decode_outcome(b) == Err::<int, DecodeError>(DecodeError::TruncatedInput),
{
    lemma_reach_record(b, b[2] as int, k);
}

/// A stream that ends at or inside the trailer of record `k`, after its
/// complete body, decodes successfully to the `k + 1` tracks read so far,
/// once every bank byte up to record `k` is in range.
pub proof fn lemma_truncated_in_trailer(b: Seq<u8>, k: int)
    requires
        b.len() >= 3,
        0 <= k < b[2],
        record_start(k) + RECORD_LEN <= b.len() < record_start(k + 1),
        banks_valid_before(b, k + 1),
    ensures
        decode_outcome(b) == Ok::<int, DecodeError>(k + 1),
{
    lemma_reach_record(b, b[2] as int, k);
    assert(bank_of(b[record_start(k) + 22]) is Some);
}

/// A bank byte of 6 or more in the body of record `k` fails the decode with
/// the one-based track number `k + 1`, once the body is complete and every
/// earlier bank byte is in range.
pub proof fn lemma_invalid_bank(b: Seq<u8>, k: int)
    requires
        b.len() >= 3,
        0 <= k < b[2],
        b.len() >= record_start(k) + RECORD_LEN,
        banks_valid_before(b, k),
        b[record_start(k) + 22] >= 6,
    ensures
        decode_outcome(b) == Err::<int, DecodeError>(DecodeError::InvalidBank((k + 1) as u16)),
{
    lemma_reach_record(b, b[2] as int, k);
}

/// Two tracks decoded from the same record are the same track.
pub proof fn lemma_track_unique(t1: Track, t2: Track, rec: Seq<u8>)
    requires
        t1.decoded_from(rec),
        t2.decoded_from(rec),
    ensures
        t1 == t2,
{
    DescriptionBuffer::lemma_view_unique(t1.description, t2.description);
}

/// Decoding one stream twice gives the same outcome: the same error, or
/// conductors with equal header fields and equal track sequences.
pub proof fn lemma_decode_deterministic(
    b: Seq<u8>,
    r1: Result<Conductor, DecodeError>,
    r2: Result<Conductor, DecodeError>,
)
    requires
        decodes_to(b, r1),
        decodes_to(b, r2),
    ensures
        match (r1, r2) {
            (Ok(c1), Ok(c2)) => {
                &&& c1.louie_swing == c2.louie_swing
                &&& c1.bpm == c2.bpm
                &&& c1.track_count == c2.track_count
                &&& c1.tracks@ == c2.tracks@
            },
            (Err(e1), Err(e2)) => e1 == e2,
            _ => false,
        },
{
    if let (Ok(c1), Ok(c2)) = (r1, r2) {
        assert forall|i: int| 0 <= i < c1.tracks@.len() implies c1.tracks@[i] == c2.tracks@[i] by {
            lemma_track_unique(c1.tracks@[i], c2.tracks@[i], record_at(b, i));
        }
        assert(c1.tracks@ =~= c2.tracks@);
    }
}

} // verus!
