use vstd::prelude::*;
use vstd::utf8::{decode_utf8, valid_utf8};

verus! {

/// The six sound banks a track can draw its samples or instruments from.
#[derive(Copy, Clone, Debug, PartialEq, Eq, Structural)]
pub enum Bank {
    Pikmin1SFX,
    WatanabeSFX,
    TotakaSFX,
    HikinoSFX,
    WakaiInstruments,
    TotakaInstruments,
}

/// The bank that a raw bank byte stands for; bytes 6 and up stand for none.
pub open spec fn bank_of(b: u8) -> Option<Bank> {
    if b == 0 {
        Some(Bank::Pikmin1SFX)
    } else if b == 1 {
        Some(Bank::WatanabeSFX)
    } else if b == 2 {
        Some(Bank::TotakaSFX)
    } else if b == 3 {
        Some(Bank::HikinoSFX)
    } else if b == 4 {
        Some(Bank::WakaiInstruments)
    } else if b == 5 {
        Some(Bank::TotakaInstruments)
    } else {
        None
    }
}

impl Bank {
    /// Maps a raw bank byte to its bank.
    pub fn from_byte(b: u8) -> (r: Option<Bank>)
        ensures
            r == bank_of(b),
    {
        match b {
            0 => Some(Bank::Pikmin1SFX),
            1 => Some(Bank::WatanabeSFX),
            2 => Some(Bank::TotakaSFX),
            3 => Some(Bank::HikinoSFX),
            4 => Some(Bank::WakaiInstruments),
            5 => Some(Bank::TotakaInstruments),
            _ => None,
        }
    }
}

/// Why a conductor stream could not be decoded.
#[derive(Copy, Clone, Debug, PartialEq, Eq, Structural)]
pub enum DecodeError {
    /// Fewer bytes remain than a field or a skipped region needs.
    TruncatedInput,
    /// The header declares zero tracks.
    InvalidTrackCount,
    /// A track's bank byte is 6 or more; carries the 1-based track number.
    InvalidBank(u16),
}

/// Length of one track record body.
pub const RECORD_LEN: usize = 36;

/// The sentinel byte that ends a description.
pub const DESCRIPTION_END: u8 = 205;

/// What a description shows when its bytes are not valid UTF-8.
pub const CORRUPTED_DESCRIPTION: &'static str = "!!Description string is corrupted!!";

/// Index of the first sentinel byte of `d` at or after `i`, or `d.len()` if there is none.
pub open spec fn sentinel_from(d: Seq<u8>, i: int) -> int
    decreases d.len() - i,
{
    if i >= d.len() {
        d.len() as int
    } else if d[i] == DESCRIPTION_END {
        i
    } else {
        sentinel_from(d, i + 1)
    }
}

/// The bytes of a description buffer that come before its first sentinel.
pub open spec fn description_text_bytes(d: Seq<u8>) -> Seq<u8> {
    d.subrange(0, sentinel_from(d, 0))
}

/// The text a description buffer shows: its bytes before the first sentinel
/// decoded as UTF-8, or the placeholder when they are not valid UTF-8.
pub open spec fn description_text(d: Seq<u8>) -> Seq<char> {
    let t = description_text_bytes(d);
    if valid_utf8(t) {
        decode_utf8(t)
    } else {
        CORRUPTED_DESCRIPTION@
    }
}

/// Relies on std::str::from_utf8: it accepts exactly the valid UTF-8 byte
/// strings, and the text it returns is the one those bytes encode.
#[verifier::external_body]
fn utf8_text(b: &[u8]) -> (r: Option<&str>)
    ensures
        match r {
            Some(s) => valid_utf8(b@) && s@ == decode_utf8(b@),
            None => !valid_utf8(b@),
        },
{
    std::str::from_utf8(b).ok()
}

/// A byte read as a two's-complement signed 8-bit value.
pub open spec fn signed_of(b: u8) -> int {
    if b < 128 {
        b as int
    } else {
        b as int - 256
    }
}

/// Panning: the raw byte plus 64, wrapped to its low 8 bits, read as signed.
pub open spec fn panning_of(raw: u8) -> int {
    signed_of(((raw as int + 64) % 256) as u8)
}

/// A flag byte: exactly 1 is set, anything else is clear.
pub open spec fn flag_of(b: u8) -> bool {
    b == 1
}

/// A track's raw 8-byte description buffer, read as text only through
/// `Track::description`.
#[derive(Copy, Clone, Debug, PartialEq, Eq)]
pub struct DescriptionBuffer {
    bytes: [u8; 8],
}

impl View for DescriptionBuffer {
    type V = Seq<u8>;

    closed spec fn view(&self) -> Seq<u8> {
        self.bytes@
    }
}

impl DescriptionBuffer {
    /// Two buffers holding the same bytes are the same buffer.
    pub proof fn lemma_view_unique(a: DescriptionBuffer, b: DescriptionBuffer)
        requires
            a@ == b@,
        ensures
            a == b,
    {
        assert(a.bytes =~= b.bytes);
    }
}

/// One decoded track record.
#[derive(Clone, Debug, PartialEq, Eq)]
pub struct Track {
    pub init_delay: u8,
    pub b_offset_flag: bool,
    pub q_offset_flag: bool,
    pub description: DescriptionBuffer,
    pub track_copy: u8,
    pub echo: u8,
    pub ordered: bool,
    pub bank: Bank,
    pub program: u8,
    pub gesture_set: u8,
    pub timing: u8,
    pub gesture_count: u8,
    pub silent_count: u8,
    pub transposition: i8,
    pub volume: u8,
    pub panning: i8,
}

impl Track {
    /// This track is what the 36-byte record `rec` decodes to.
    pub open spec fn decoded_from(self, rec: Seq<u8>) -> bool {
        &&& rec.len() == 36
        &&& self.init_delay == rec[1]
        &&& self.b_offset_flag == flag_of(rec[2])
        &&& self.description@ == rec.subrange(3, 11)
        &&& self.track_copy == rec[11]
        &&& self.echo == rec[12]
        &&& self.ordered == flag_of(rec[21])
        &&& bank_of(rec[22]) == Some(self.bank)
        &&& self.program == rec[23]
        &&& self.gesture_set == rec[25]
        &&& self.timing == rec[27]
        &&& self.gesture_count == rec[28]
        &&& self.silent_count == rec[29]
        &&& self.transposition as int == signed_of(rec[31])
        &&& self.volume == rec[32]
        &&& self.panning as int == panning_of(rec[33])
        &&& self.q_offset_flag == flag_of(rec[34])
    }

    /// Decodes one 36-byte track record; `track_nr` is the track's zero-based
    /// index, reported one-based when its bank byte is out of range.
    pub fn from_bytes(byte_buffer: &[u8; 36], track_nr: u8) -> (r: Result<Track, DecodeError>)
        ensures
            match r {
                Ok(t) => t.decoded_from(byte_buffer@),
                Err(e) => bank_of(byte_buffer@[22]) is None && e == DecodeError::InvalidBank(
                    (track_nr + 1) as u16,
                ),
            },
            r is Ok <==> bank_of(byte_buffer@[22]) is Some,
    {
        let bank = match Bank::from_byte(byte_buffer[22]) {
            Some(b) => b,
            None => {
                return Err(DecodeError::InvalidBank(track_nr as u16 + 1));
            },
        };
        let mut description: [u8; 8] = [0; 8];
        let mut j: usize = 0;
        while j < 8
            invariant
                0 <= j <= 8,
                forall|k: int| 0 <= k < j ==> description@[k] == byte_buffer@[3 + k],
            decreases 8 - j,
        {
            description[j] = byte_buffer[3 + j];
            j = j + 1;
        }
        assert(description@ =~= byte_buffer@.subrange(3, 11));
        let raw_transposition: u8 = byte_buffer[31];
        let transposition: i8 = if raw_transposition < 128 {
            raw_transposition as i8
        } else {
            (raw_transposition as i16 - 256) as i8
        };
        let widened: i16 = 64i16.wrapping_add(byte_buffer[33] as i16);
        let low: u8 = (widened as u16 % 256) as u8;
        let panning: i8 = if low < 128 {
            low as i8
        } else {
            (low as i16 - 256) as i8
        };
        Ok(Track {
            init_delay: byte_buffer[1],
            b_offset_flag: byte_buffer[2] == 1,
            q_offset_flag: byte_buffer[34] == 1,
            description: DescriptionBuffer { bytes: description },
            track_copy: byte_buffer[11],
            echo: byte_buffer[12],
            ordered: byte_buffer[21] == 1,
            bank,
            program: byte_buffer[23],
            gesture_set: byte_buffer[25],
            timing: byte_buffer[27],
            gesture_count: byte_buffer[28],
            silent_count: byte_buffer[29],
            transposition,
            volume: byte_buffer[32],
            panning,
        })
    }

    /// The track's description: the buffer's bytes before the first sentinel
    /// (all eight if there is none) as UTF-8 text, or a fixed placeholder
    /// when those bytes are not valid UTF-8.
    pub fn description(&self) -> (r: &str)
        ensures
            r@ == description_text(self.description@),
    {
        let d = self.description.bytes.as_slice();
        let mut end: usize = 0;
        while end < 8 && d[end] != DESCRIPTION_END
            invariant
                0 <= end <= 8,
                d@ == self.description@,
                sentinel_from(d@, 0) == sentinel_from(d@, end as int),
            decreases 8 - end,
        {
            end = end + 1;
        }
        let text = vstd::slice::slice_subrange(d, 0, end);
        match utf8_text(text) {
            Some(s) => s,
            None => CORRUPTED_DESCRIPTION,
        }
    }
}

/// Offset of the first track record: the 3 header bytes and the 21 reserved ones.
pub const HEADER_LEN: usize = 24;

/// Length of the ignored trailer that follows each record body.
pub const TRAILER_LEN: usize = 24;

/// Offset of the `k`-th (zero-based) track record in a conductor stream.
pub open spec fn record_start(k: int) -> int {
    HEADER_LEN + (RECORD_LEN + TRAILER_LEN) * k
}

/// The 36-byte body of the `k`-th track record.
pub open spec fn record_at(b: Seq<u8>, k: int) -> Seq<u8> {
    b.subrange(record_start(k), record_start(k) + RECORD_LEN)
}

/// How decoding goes on from the `k`-th of `n` records: the number of tracks
/// that a successful decode returns, or the error that stops it.
pub open spec fn tracks_outcome(b: Seq<u8>, n: int, k: int) -> Result<int, DecodeError>
    decreases n - k,
{
    if k >= n {
        Ok(k)
    } else if b.len() < record_start(k) + RECORD_LEN {
        Err(DecodeError::TruncatedInput)
    } else if bank_of(b[record_start(k) + 22]) is None {
        Err(DecodeError::InvalidBank((k + 1) as u16))
    } else if b.len() < record_start(k + 1) {
        Ok(k + 1)
    } else {
        tracks_outcome(b, n, k + 1)
    }
}

/// How decoding the stream `b` ends: the number of tracks on success, or the error.
pub open spec fn decode_outcome(b: Seq<u8>) -> Result<int, DecodeError> {
    if b.len() < 3 {
        Err(DecodeError::TruncatedInput)
    } else if b[2] == 0 {
        Err(DecodeError::InvalidTrackCount)
    } else if b.len() < HEADER_LEN {
        Err(DecodeError::TruncatedInput)
    } else {
        tracks_outcome(b, b[2] as int, 0)
    }
}

/// `r` is what decoding the stream `b` gives: on success a well-formed
/// conductor read from `b` with as many tracks as `decode_outcome` counts,
/// otherwise the error that `decode_outcome` names.
pub open spec fn decodes_to(b: Seq<u8>, r: Result<Conductor, DecodeError>) -> bool {
    match r {
        Ok(c) => {
            &&& decode_outcome(b) == Ok::<int, DecodeError>(c.tracks@.len() as int)
            &&& c.decoded_from(b)
            &&& c.wf()
        },
        Err(e) => decode_outcome(b) == Err::<int, DecodeError>(e),
    }
}

/// A decoded conductor file: global tempo data and its track records in file order.
pub struct Conductor {
    pub louie_swing: u8,
    pub bpm: u8,
    pub track_count: u8,
    pub tracks: Vec<Track>,
}

impl Conductor {
    /// The declared track count is positive and no more tracks than that are held.
    pub open spec fn wf(&self) -> bool {
        &&& self.track_count >= 1
        &&& self.tracks@.len() <= self.track_count
    }

    /// The header fields come from `b`, and each held track is the decoding
    /// of the record at its position in `b`.
    pub open spec fn decoded_from(&self, b: Seq<u8>) -> bool {
        &&& b.len() >= 3
        &&& self.louie_swing == b[0]
        &&& self.bpm == b[1]
        &&& self.track_count == b[2]
        &&& forall|i: int|
            0 <= i < self.tracks@.len() ==> (#[trigger] self.tracks@[i]).decoded_from(
                record_at(b, i),
            )
    }

    /// Decodes a whole conductor stream. A stream that ends before a record
    /// body is complete is truncated; one that ends inside the trailer after
    /// a complete body yields the tracks decoded up to there.
    pub fn from_bytes(bytes: &[u8]) -> (r: Result<Conductor, DecodeError>)
        ensures
            decodes_to(bytes@, r),
    {
        let n = bytes.len();
        if n < 3 {
            return Err(DecodeError::TruncatedInput);
        }
        let louie_swing = bytes[0];
        let bpm = bytes[1];
        let track_count = bytes[2];
        if track_count == 0 {
            return Err(DecodeError::InvalidTrackCount);
        }
        if n < HEADER_LEN {
            return Err(DecodeError::TruncatedInput);
        }
        let ghost b = bytes@;
        let ghost outcome = tracks_outcome(b, track_count as int, 0);
        let mut tracks: Vec<Track> = Vec::new();
        let mut start: usize = HEADER_LEN;
        let mut k: u8 = 0;
        while k < track_count
            invariant_except_break
                start == record_start(k as int),
                start <= n,
                outcome == tracks_outcome(b, track_count as int, k as int),
            invariant
                b == bytes@,
                n == b.len(),
                k <= track_count,
                tracks@.len() == k,
                outcome == decode_outcome(b),
                track_count >= 1,
                forall|i: int| 0 <= i < k ==> #[trigger] tracks@[i].decoded_from(record_at(b, i)),
            ensures
                tracks@.len() == k,
                outcome == Ok::<int, DecodeError>(k as int),
                forall|i: int| 0 <= i < k ==> #[trigger] tracks@[i].decoded_from(record_at(b, i)),
            decreases track_count - k,
        {
            if n - start < RECORD_LEN {
                return Err(DecodeError::TruncatedInput);
            }
            let record = record_bytes(bytes, start);
            let track = match Track::from_bytes(&record, k) {
                Ok(t) => t,
                Err(e) => {
                    return Err(e);
                },
            };
            tracks.push(track);
            k = k + 1;
            if n - (start + RECORD_LEN) < TRAILER_LEN {
                break;
            }
            start = start + RECORD_LEN + TRAILER_LEN;
        }
        Ok(Conductor { louie_swing, bpm, track_count, tracks })
    }
}

/// Copies the 36 bytes of `bytes` that begin at `start`.
fn record_bytes(bytes: &[u8], start: usize) -> (r: [u8; 36])
    requires
        start + RECORD_LEN <= bytes.len(),
    ensures
        r@ == bytes@.subrange(start as int, start + RECORD_LEN),
{
    let mut record: [u8; 36] = [0; 36];
    let mut j: usize = 0;
    while j < RECORD_LEN
        invariant
            0 <= j <= RECORD_LEN,
            start + RECORD_LEN <= bytes.len(),
            forall|i: int| 0 <= i < j ==> record@[i] == bytes@[start + i],
        decreases RECORD_LEN - j,
    {
        record[j] = bytes[start + j];
        j = j + 1;
    }
    assert(record@ =~= bytes@.subrange(start as int, start + RECORD_LEN));
    record
}

} // verus!
