//! Slot format shared by [`Settings`] and [`Stats`].
//!
//! Each slot occupies one flash sector and starts with a fixed 20-byte header:
//!
//! ```text
//!   0..4    magic (4 bytes, identifies the kind of record)
//!   4       schema version (u8)
//!   5..7    payload length (little-endian u16)
//!   7       reserved (0xFF)
//!   8..16   monotonic sequence number (little-endian u64)
//!   16..20  CRC32 of header[0..16] and the payload (little-endian u32)
//!   20..    payload, padded with 0xFF to the next flash write unit
//! ```
//!
//! This module holds the byte-level rules: building a slot image, checking a
//! header, checking the payload against its CRC, choosing the fresher of two
//! slots and choosing which slot the next write goes to. Moving the bytes to
//! and from flash is left to the caller.
//!
//! [`Settings`]: crate::storage::settings::Settings
//! [`Stats`]: crate::storage::stats::Stats

use vstd::prelude::*;

use embedded_storage::nor_flash::NorFlashErrorKind;

use super::codec::{from_le16_at, from_le32_at, from_le64_at, le16, le32, le64, push_u16, push_u32, push_u64, read_u16, read_u32, read_u64, lemma_le16_roundtrip, lemma_le32_roundtrip, lemma_le64_roundtrip};

verus! {

#[verifier::external_type_specification]
#[verifier::external_body]
pub struct ExNorFlashErrorKind(NorFlashErrorKind);

/// Flash sector size on the ESP32 (and the slot granularity we use).
pub const SLOT_SIZE: u32 = 0x1000;

pub const SETTINGS_OFFSET_A: u32 = 0x9000;

pub const SETTINGS_OFFSET_B: u32 = 0xA000;

pub const STATS_OFFSET_A: u32 = 0xB000;

pub const STATS_OFFSET_B: u32 = 0xC000;

pub const HEADER_LEN: usize = 20;

pub const MAX_PAYLOAD: usize = 1024;

#[derive(Debug)]
pub enum StorageError {
    /// Slot was blank (entirely 0xFF) — never written yet.
    Empty,
    /// Magic prefix did not match what we expected.
    BadMagic,
    /// Schema version is newer than we know how to read.
    UnsupportedVersion(u8),
    /// CRC mismatch — the slot is corrupted.
    CrcMismatch,
    /// Payload is longer than the slot can hold.
    PayloadTooLong,
    /// Underlying NOR-flash driver returned an error.
    Flash(NorFlashErrorKind),
}

/// Description of a record schema. Implemented by `Settings` and `Stats`.
///
/// `Self::V` is the abstract value of a record; `encoding` and `decoding`
/// say what bytes stand for it.
pub trait Record: Sized + View {
    const MAGIC: [u8; 4];

    const VERSION: u8;

    /// Maximum encoded payload length (used to size scratch buffers and to
    /// reject decode attempts whose `payload_len` is bigger than the schema
    /// could possibly produce).
    const PAYLOAD_MAX: usize;

    /// The payload bytes that stand for a record value.
    spec fn encoding(v: Self::V) -> Seq<u8>;

    /// The record value a payload stands for, if any.
    spec fn decoding(payload: Seq<u8>) -> Option<Self::V>;

    /// Values that the encoding can carry.
    spec fn encodable(v: Self::V) -> bool;

    /// The scratch buffer of the slot writer is large enough.
    proof fn lemma_payload_max_fits()
        ensures
            Self::PAYLOAD_MAX <= MAX_PAYLOAD,
    ;

    /// Decoding what was encoded gives the value back.
    proof fn lemma_decode_encode(v: Self::V)
        requires
            Self::encodable(v),
        ensures
            Self::encoding(v).len() <= Self::PAYLOAD_MAX,
            Self::decoding(Self::encoding(v)) == Some(v),
    ;

    /// Encode self into `out` and return the number of bytes written.
    fn encode(&self, out: &mut [u8]) -> (n: usize)
        requires
            old(out)@.len() >= Self::PAYLOAD_MAX,
        ensures
            n == Self::encoding(self@).len(),
            n <= old(out)@.len(),
            final(out)@ == Self::encoding(self@) + old(out)@.subrange(n as int, old(out)@.len() as int),
    ;

    fn decode(payload: &[u8]) -> (r: Option<Self>)
        ensures
            match r {
                Some(rec) => Self::decoding(payload@) == Some(rec@),
                None => Self::decoding(payload@) is None,
            },
    ;
}

pub struct LoadedRecord<R> {
    pub record: R,
    pub seq: u64,
    /// Offset of the slot the record was read from.
    pub from_offset: u32,
}

/// What a valid header says about the payload that follows it.
#[derive(Clone, Copy, Debug, PartialEq, Eq)]
pub struct SlotHeader {
    pub payload_len: usize,
    pub seq: u64,
    pub crc: u32,
}

// ---------------------------------------------------------------------------
// CRC-32
// ---------------------------------------------------------------------------

/// One bit step of the reflected CRC-32 with polynomial 0xEDB88320.
pub open spec fn crc_shift(c: u32) -> u32 {
    if c & 1u32 == 1u32 {
        (c >> 1u32) ^ 0xEDB8_8320u32
    } else {
        c >> 1u32
    }
}

/// `n` bit steps.
pub open spec fn crc_shift_n(c: u32, n: nat) -> u32
    decreases n,
{
    if n == 0 {
        c
    } else {
        crc_shift(crc_shift_n(c, (n - 1) as nat))
    }
}

/// Running CRC register after feeding `bytes`, starting from `c`.
pub open spec fn crc_feed(c: u32, bytes: Seq<u8>) -> u32
    decreases bytes.len(),
{
    if bytes.len() == 0 {
        c
    } else {
        crc_shift_n(crc_feed(c, bytes.drop_last()) ^ (bytes.last() as u32), 8)
    }
}

/// CRC-32 IEEE 802.3 (the "Ethernet" / `zlib.crc32` flavour) of `bytes`.
pub open spec fn crc32_spec(bytes: Seq<u8>) -> u32 {
    !crc_feed(0xFFFF_FFFFu32, bytes)
}

proof fn lemma_crc_mask_step(c: u32)
    ensures
        (c >> 1u32) ^ (0xEDB8_8320u32 & (0u32.wrapping_sub(c & 1u32))) == crc_shift(c),
{
    let m = 0u32.wrapping_sub(c & 1u32);
    assert(c & 1u32 == 1u32 ==> m == 0xFFFF_FFFFu32);
    assert(c & 1u32 != 1u32 ==> c & 1u32 == 0u32) by (bit_vector);
    assert(0xEDB8_8320u32 & 0xFFFF_FFFFu32 == 0xEDB8_8320u32) by (bit_vector);
    assert(0xEDB8_8320u32 & 0u32 == 0u32) by (bit_vector);
    assert(forall|x: u32| #[trigger] (x ^ 0u32) == x) by (bit_vector);
}

fn crc_feed_bytes(crc_in: u32, bytes: &[u8], Ghost(prefix): Ghost<Seq<u8>>) -> (crc: u32)
    requires
        crc_in == crc_feed(0xFFFF_FFFFu32, prefix),
    ensures
        crc == crc_feed(0xFFFF_FFFFu32, prefix + bytes@),
{
    let mut crc = crc_in;
    let n = bytes.len();
    let mut i: usize = 0;
    while i < n
        invariant
            n == bytes@.len(),
            i <= n,
            crc == crc_feed(0xFFFF_FFFFu32, prefix + bytes@.take(i as int)),
        decreases n - i,
    {
        let byte = bytes[i];
        let start = crc ^ (byte as u32);
        crc = start;
        let mut k: u32 = 0;
        while k < 8
            invariant
                k <= 8,
                crc == crc_shift_n(start, k as nat),
            decreases 8 - k,
        {
            proof {
                lemma_crc_mask_step(crc);
            }
            let mask = 0u32.wrapping_sub(crc & 1);
            crc = (crc >> 1) ^ (0xEDB8_8320 & mask);
            k = k + 1;
        }
        proof {
            let s = prefix + bytes@.take(i + 1);
            assert(s.drop_last() =~= prefix + bytes@.take(i as int));
            assert(s.last() == byte);
        }
        i = i + 1;
    }
    assert(prefix + bytes@.take(n as int) =~= prefix + bytes@);
    crc
}

/// CRC-32 IEEE 802.3 (the "Ethernet" / `zlib.crc32` flavour) of the
/// concatenation of `header_prefix` and `payload`. Tableless implementation —
/// fast enough for the few hundred bytes hashed per save.
pub fn crc32(header_prefix: &[u8], payload: &[u8]) -> (crc: u32)
    ensures
        crc == crc32_spec(header_prefix@ + payload@),
{
    assert(Seq::<u8>::empty() + header_prefix@ =~= header_prefix@);
    let c = crc_feed_bytes(0xFFFF_FFFF, header_prefix, Ghost(Seq::empty()));
    let c = crc_feed_bytes(c, payload, Ghost(header_prefix@));
    !c
}


// ---------------------------------------------------------------------------
// Slot header and payload
// ---------------------------------------------------------------------------

/// Every byte is in the erased state (0xFF).
pub open spec fn all_erased(h: Seq<u8>) -> bool {
    forall|i: int| 0 <= i < h.len() ==> h[i] == 0xFFu8
}

/// What the 20 header bytes `h` of a slot say, for record kind `R`.
pub open spec fn header_result<R: Record>(h: Seq<u8>) -> Result<SlotHeader, StorageError> {
    if all_erased(h) {
        Err(StorageError::Empty)
    } else if h.subrange(0, 4) != R::MAGIC@ {
        Err(StorageError::BadMagic)
    } else if h[4] != R::VERSION {
        Err(StorageError::UnsupportedVersion(h[4]))
    } else if from_le16_at(h, 5) > R::PAYLOAD_MAX || from_le16_at(h, 5) + HEADER_LEN
        > SLOT_SIZE {
        Err(StorageError::PayloadTooLong)
    } else {
        Ok(
            SlotHeader {
                payload_len: from_le16_at(h, 5) as usize,
                seq: from_le64_at(h, 8),
                crc: from_le32_at(h, 16),
            },
        )
    }
}

/// What a slot whose header bytes are `h`, followed by the `payload` bytes
/// the header announces, holds: the record value and its sequence number, or
/// the reason it is unusable.
pub open spec fn slot_result<R: Record>(h: Seq<u8>, payload: Seq<u8>) -> Result<
    (R::V, u64),
    StorageError,
> {
    match header_result::<R>(h) {
        Err(e) => Err(e),
        Ok(hd) => if crc32_spec(h.subrange(0, 16) + payload) != hd.crc {
            Err(StorageError::CrcMismatch)
        } else {
            match R::decoding(payload) {
                Some(v) => Ok((v, hd.seq)),
                None => Err(StorageError::CrcMismatch),
            }
        },
    }
}

/// Check the 20 header bytes of a slot. Returns [`StorageError::Empty`] for
/// a pristine sector so the caller can distinguish "no prior data" from
/// "corrupted".
pub fn parse_header<R: Record>(header: &[u8]) -> (r: Result<SlotHeader, StorageError>)
    requires
        header@.len() == HEADER_LEN,
    ensures
        r == header_result::<R>(header@),
{
    // Blank sectors are filled with 0xFF after an erase — treat that as the
    // "no prior data" case.
    let mut blank = true;
    let mut i: usize = 0;
    while i < HEADER_LEN
        invariant
            header@.len() == HEADER_LEN,
            i <= HEADER_LEN,
            blank == (forall|j: int| 0 <= j < i ==> header@[j] == 0xFFu8),
        decreases HEADER_LEN - i,
    {
        if header[i] != 0xFF {
            blank = false;
        }
        i = i + 1;
    }
    if blank {
        return Err(StorageError::Empty);
    }
    let magic = R::MAGIC;
    if header[0] != magic[0] || header[1] != magic[1] || header[2] != magic[2] || header[3]
        != magic[3] {
        assert(header@.subrange(0, 4) != R::MAGIC@) by {
            if header@.subrange(0, 4) == R::MAGIC@ {
                assert(header@.subrange(0, 4)[0] == header@[0]);
                assert(header@.subrange(0, 4)[1] == header@[1]);
                assert(header@.subrange(0, 4)[2] == header@[2]);
                assert(header@.subrange(0, 4)[3] == header@[3]);
            }
        }
        return Err(StorageError::BadMagic);
    }
    assert(header@.subrange(0, 4) =~= R::MAGIC@);
    let version = header[4];
    if version != R::VERSION {
        return Err(StorageError::UnsupportedVersion(version));
    }
    let payload_len = read_u16(header, 5) as usize;
    if payload_len > R::PAYLOAD_MAX || payload_len + HEADER_LEN > SLOT_SIZE as usize {
        return Err(StorageError::PayloadTooLong);
    }
    let seq = read_u64(header, 8);
    let crc = read_u32(header, 16);
    Ok(SlotHeader { payload_len, seq, crc })
}

/// Check the payload of a slot against the CRC in its header and decode it.
/// `payload` holds the bytes that follow the header, as many as the header
/// announces.
pub fn decode_slot<R: Record>(header: &[u8], payload: &[u8]) -> (r: Result<(R, u64), StorageError>)
    requires
        header@.len() == HEADER_LEN,
        header_result::<R>(header@) matches Ok(hd) ==> payload@.len() == hd.payload_len,
    ensures
        match r {
            Ok((rec, seq)) => slot_result::<R>(header@, payload@) == Ok::<
                (R::V, u64),
                StorageError,
            >((rec@, seq)),
            Err(e) => slot_result::<R>(header@, payload@) == Err::<(R::V, u64), StorageError>(e),
        },
{
    let hd = match parse_header::<R>(header) {
        Ok(hd) => hd,
        Err(e) => {
            return Err(e);
        },
    };
    let prefix = vstd::slice::slice_subrange(header, 0, 16);
    let actual_crc = crc32(prefix, payload);
    if actual_crc != hd.crc {
        return Err(StorageError::CrcMismatch);
    }
    match R::decode(payload) {
        Some(record) => Ok((record, hd.seq)),
        None => Err(StorageError::CrcMismatch),
    }
}

// ---------------------------------------------------------------------------
// Slot image
// ---------------------------------------------------------------------------

/// The first 16 header bytes of a slot of kind `R` whose payload has `len`
/// bytes and whose sequence number is `seq`.
pub open spec fn header_prefix<R: Record>(len: nat, seq: u64) -> Seq<u8> {
    R::MAGIC@ + seq![R::VERSION] + le16(len as u16) + seq![0xFFu8] + le64(seq)
}

/// `n` rounded up to a multiple of the flash write unit (a unit of 0 counts
/// as 1).
pub open spec fn padded_len(n: int, write_size: usize) -> int {
    let ws: int = if write_size == 0 {
        1
    } else {
        write_size as int
    };
    ((n + ws - 1) / ws) * ws
}

/// `n` erased bytes.
pub open spec fn erased(n: nat) -> Seq<u8> {
    Seq::new(n, |i: int| 0xFFu8)
}

/// Header and payload of a slot holding record value `v` with sequence
/// number `seq`, before padding.
pub open spec fn slot_body<R: Record>(v: R::V, seq: u64) -> Seq<u8> {
    let payload = R::encoding(v);
    let pre = header_prefix::<R>(payload.len(), seq);
    pre + le32(crc32_spec(pre + payload)) + payload
}

/// The bytes written to a slot holding record value `v` with sequence number
/// `seq`: header, payload, and erased padding up to the flash write unit.
pub open spec fn slot_image<R: Record>(v: R::V, seq: u64, write_size: usize) -> Seq<u8> {
    let body = slot_body::<R>(v, seq);
    body + erased((padded_len(body.len() as int, write_size) - body.len()) as nat)
}

proof fn lemma_padded_len(n: int, write_size: usize)
    requires
        n >= 0,
    ensures
        padded_len(n, write_size) >= n,
        padded_len(n, write_size) < n + (if write_size == 0 {
            1
        } else {
            write_size as int
        }),
        n >= 1 ==> padded_len(n, write_size) >= (if write_size == 0 {
            1
        } else {
            write_size as int
        }),
{
    let ws: int = if write_size == 0 {
        1
    } else {
        write_size as int
    };
    let q = (n + ws - 1) / ws;
    assert(q * ws >= n && q * ws < n + ws && (n >= 1 ==> q * ws >= ws)) by (nonlinear_arith)
        requires
            ws >= 1,
            n >= 0,
            q == (n + ws - 1) / ws,
    ;
}

/// Build the bytes to write into a slot for `record` with sequence number
/// `seq`, padded to a multiple of `write_size` (the flash write unit).
pub fn encode_slot<R: Record>(record: &R, seq: u64, write_size: usize) -> (r: Result<
    Vec<u8>,
    StorageError,
>)
    requires
        R::encoding(record@).len() <= R::PAYLOAD_MAX ==> padded_len(
            HEADER_LEN + R::encoding(record@).len(),
            write_size,
        ) <= MAX_PAYLOAD + HEADER_LEN,
    ensures
        match r {
            Ok(image) => {
                &&& R::encoding(record@).len() <= R::PAYLOAD_MAX
                &&& image@ == slot_image::<R>(record@, seq, write_size)
            },
            Err(e) => {
                &&& R::encoding(record@).len() > R::PAYLOAD_MAX
                &&& e is PayloadTooLong
            },
        },
{
    proof {
        R::lemma_payload_max_fits();
    }
    let mut scratch = [0xFFu8; MAX_PAYLOAD];
    assert(scratch@.len() == MAX_PAYLOAD);
    let payload_len = record.encode(&mut scratch);
    if payload_len > R::PAYLOAD_MAX {
        return Err(StorageError::PayloadTooLong);
    }
    let payload = vstd::slice::slice_subrange(scratch.as_slice(), 0, payload_len);
    assert(payload@ =~= R::encoding(record@));

    let mut image: Vec<u8> = Vec::new();
    let magic = R::MAGIC;
    image.push(magic[0]);
    image.push(magic[1]);
    image.push(magic[2]);
    image.push(magic[3]);
    image.push(R::VERSION);
    push_u16(&mut image, payload_len as u16);
    image.push(0xFF);
    push_u64(&mut image, seq);
    assert(image@ =~= header_prefix::<R>(payload_len as nat, seq));

    let crc = crc32(image.as_slice(), payload);
    push_u32(&mut image, crc);
    let mut i: usize = 0;
    while i < payload_len
        invariant
            i <= payload_len,
            payload@.len() == payload_len,
            image@ == header_prefix::<R>(payload_len as nat, seq) + le32(crc) + payload@.take(
                i as int,
            ),
        decreases payload_len - i,
    {
        image.push(payload[i]);
        i = i + 1;
        assert(image@ =~= header_prefix::<R>(payload_len as nat, seq) + le32(crc)
            + payload@.take(i as int));
    }
    assert(payload@.take(payload_len as int) =~= payload@);
    assert(image@ =~= slot_body::<R>(record@, seq));

    let total_unaligned = HEADER_LEN + payload_len;
    // Round up to a multiple of the flash write unit (typically 4 bytes).
    let ws: usize = if write_size == 0 {
        1
    } else {
        write_size
    };
    proof {
        lemma_padded_len(total_unaligned as int, write_size);
    }
    let total = (total_unaligned + ws - 1) / ws * ws;
    assert(total == padded_len(total_unaligned as int, write_size));
    let ghost body = image@;
    while image.len() < total
        invariant
            body.len() == total_unaligned,
            total_unaligned <= image@.len() <= total,
            total <= MAX_PAYLOAD + HEADER_LEN,
            image@ == body + erased((image@.len() - total_unaligned) as nat),
        decreases total - image@.len(),
    {
        image.push(0xFF);
        assert(image@ =~= body + erased((image@.len() - total_unaligned) as nat));
    }
    Ok(image)
}

/// Writing a record into a slot and reading the slot back gives the record
/// and its sequence number back, whatever the flash write unit.
pub proof fn lemma_slot_roundtrip<R: Record>(v: R::V, seq: u64, write_size: usize)
    requires
        R::encodable(v),
        !all_erased(R::MAGIC@),
    ensures
        ({
            let image = slot_image::<R>(v, seq, write_size);
            let len = R::encoding(v).len();
            &&& image.len() >= HEADER_LEN + len
            &&& header_result::<R>(image.subrange(0, HEADER_LEN as int)) matches Ok(hd)
            &&& hd.payload_len == len
            &&& hd.seq == seq
            &&& slot_result::<R>(
                image.subrange(0, HEADER_LEN as int),
                image.subrange(HEADER_LEN as int, HEADER_LEN + len),
            ) == Ok::<(R::V, u64), StorageError>((v, seq))
        }),
{
    R::lemma_payload_max_fits();
    R::lemma_decode_encode(v);
    let payload = R::encoding(v);
    let len = payload.len();
    let pre = header_prefix::<R>(len, seq);
    let crc = crc32_spec(pre + payload);
    let body = slot_body::<R>(v, seq);
    let image = slot_image::<R>(v, seq, write_size);
    lemma_padded_len(body.len() as int, write_size);
    assert(pre.len() == 16);
    assert(body.len() == HEADER_LEN + len);
    let h = image.subrange(0, HEADER_LEN as int);
    assert(h =~= pre + le32(crc));
    assert(image.subrange(HEADER_LEN as int, HEADER_LEN + len) =~= payload);
    assert(h.subrange(0, 16) =~= pre);
    assert(h.subrange(0, 4) =~= R::MAGIC@);
    assert(!all_erased(h)) by {
        let i = choose|i: int| 0 <= i < 4 && R::MAGIC@[i] != 0xFFu8;
        assert(h[i] == R::MAGIC@[i]);
    }
    assert(h[4] == R::VERSION);
    lemma_le16_roundtrip(len as u16);
    assert(h[5] == le16(len as u16)[0]);
    assert(h[6] == le16(len as u16)[1]);
    assert(from_le16_at(h, 5) == len);
    assert(h.subrange(8, 16) =~= le64(seq));
    lemma_le64_roundtrip(seq, h, 8);
    lemma_le32_roundtrip(crc);
    assert(h[16] == le32(crc)[0]);
    assert(h[17] == le32(crc)[1]);
    assert(h[18] == le32(crc)[2]);
    assert(h[19] == le32(crc)[3]);
    assert(from_le32_at(h, 16) == crc);
}

// ---------------------------------------------------------------------------
// Choosing slots
// ---------------------------------------------------------------------------

/// Of the two slots A and B (each read as a record with its sequence number,
/// or nothing usable), the freshest: the higher sequence number wins, and A
/// wins a tie.
pub open spec fn pick_latest_spec<R>(
    a: Option<(R, u64)>,
    b: Option<(R, u64)>,
    offset_a: u32,
    offset_b: u32,
) -> Option<LoadedRecord<R>> {
    match (a, b) {
        (Some((rec_a, seq_a)), Some((rec_b, seq_b))) => if seq_a >= seq_b {
            Some(LoadedRecord { record: rec_a, seq: seq_a, from_offset: offset_a })
        } else {
            Some(LoadedRecord { record: rec_b, seq: seq_b, from_offset: offset_b })
        },
        (Some((rec, seq)), None) => Some(LoadedRecord { record: rec, seq, from_offset: offset_a }),
        (None, Some((rec, seq))) => Some(LoadedRecord { record: rec, seq, from_offset: offset_b }),
        (None, None) => None,
    }
}

/// Load decision for two slots: keep the freshest usable copy.
pub fn pick_latest<R>(a: Option<(R, u64)>, b: Option<(R, u64)>, offset_a: u32, offset_b: u32) -> (r:
    Option<LoadedRecord<R>>)
    ensures
        r == pick_latest_spec(a, b, offset_a, offset_b),
{
    match (a, b) {
        (Some((rec_a, seq_a)), Some((rec_b, seq_b))) => {
            if seq_a >= seq_b {
                Some(LoadedRecord { record: rec_a, seq: seq_a, from_offset: offset_a })
            } else {
                Some(LoadedRecord { record: rec_b, seq: seq_b, from_offset: offset_b })
            }
        },
        (Some((rec, seq)), None) => Some(LoadedRecord { record: rec, seq, from_offset: offset_a }),
        (None, Some((rec, seq))) => Some(LoadedRecord { record: rec, seq, from_offset: offset_b }),
        (None, None) => None,
    }
}

/// The slot the next write goes to: whichever of the two slots is *not*
/// `last_used_offset`, and slot A for the first write ever.
pub open spec fn alternate_spec(offset_a: u32, offset_b: u32, last_used_offset: Option<u32>) -> u32 {
    if last_used_offset == Some(offset_a) {
        offset_b
    } else if last_used_offset == Some(offset_b) {
        offset_a
    } else {
        offset_a
    }
}

pub fn alternate_offset(offset_a: u32, offset_b: u32, last_used_offset: Option<u32>) -> (target: u32)
    ensures
        target == alternate_spec(offset_a, offset_b, last_used_offset),
{
    match last_used_offset {
        Some(o) if o == offset_a => offset_b,
        Some(o) if o == offset_b => offset_a,
        // First write ever: just start with A.
        _ => offset_a,
    }
}

/// With two distinct slots, a write never lands on the copy that was used
/// last, so an interrupted write cannot destroy the last good copy.
pub proof fn lemma_alternate_spares_last_copy(offset_a: u32, offset_b: u32, last: u32)
    requires
        offset_a != offset_b,
        last == offset_a || last == offset_b,
    ensures
        alternate_spec(offset_a, offset_b, Some(last)) != last,
        alternate_spec(offset_a, offset_b, Some(last)) == offset_a || alternate_spec(
            offset_a,
            offset_b,
            Some(last),
        ) == offset_b,
{
}

/// A/B recovery: while the last good copy (sequence `seq`) stays in slot
/// `last`, a save of the next copy into the other slot is either lost (that
/// slot reads as unusable, e.g. after a power cut mid-write) and loading
/// gives the last good copy back, or it completed and loading gives the new
/// copy. Fails only when `seq` is `u64::MAX`, where the next sequence number
/// wraps to 0.
pub proof fn lemma_interrupted_save_keeps_last_copy<R>(
    offset_a: u32,
    offset_b: u32,
    last: u32,
    good: R,
    seq: u64,
    next: Option<R>,
)
    requires
        offset_a != offset_b,
        last == offset_a || last == offset_b,
        seq < u64::MAX,
    ensures
        ({
            let target = alternate_spec(offset_a, offset_b, Some(last));
            let written: Option<(R, u64)> = match next {
                Some(r) => Some((r, (seq + 1) as u64)),
                None => None,
            };
            let (a, b) = if last == offset_a {
                (Some((good, seq)), written)
            } else {
                (written, Some((good, seq)))
            };
            &&& target != last
            &&& pick_latest_spec(a, b, offset_a, offset_b) == match next {
                Some(r) => Some(LoadedRecord { record: r, seq: (seq + 1) as u64, from_offset: target }),
                None => Some(LoadedRecord { record: good, seq, from_offset: last }),
            }
        }),
{
}


// ---------------------------------------------------------------------------
// Whole saves, on a model of the flash
// ---------------------------------------------------------------------------

/// The bytes of the slot at `offset` of a flash image.
pub open spec fn slot_bytes(flash: Seq<u8>, offset: u32) -> Seq<u8> {
    flash.subrange(offset as int, offset + SLOT_SIZE)
}

/// What reading the slot at `offset` gives: the header is read, then the
/// payload it announces, and both are checked and decoded as by
/// [`parse_header`] and [`decode_slot`]. `None` when the slot is unusable.
pub open spec fn read_slot_spec<R: Record>(flash: Seq<u8>, offset: u32) -> Option<(R::V, u64)> {
    let s = slot_bytes(flash, offset);
    let h = s.subrange(0, HEADER_LEN as int);
    match header_result::<R>(h) {
        Ok(hd) => match slot_result::<R>(h, s.subrange(HEADER_LEN as int, HEADER_LEN + hd.payload_len)) {
            Ok(r) => Some(r),
            Err(_) => None,
        },
        Err(_) => None,
    }
}

/// What loading the two slots gives: the freshest usable copy.
pub open spec fn load_spec<R: Record>(flash: Seq<u8>, offset_a: u32, offset_b: u32) -> Option<
    LoadedRecord<R::V>,
> {
    pick_latest_spec(
        read_slot_spec::<R>(flash, offset_a),
        read_slot_spec::<R>(flash, offset_b),
        offset_a,
        offset_b,
    )
}

/// `flash` after erasing the slot at `offset` and writing `bytes` at its
/// start.
pub open spec fn write_slot_spec(flash: Seq<u8>, offset: u32, bytes: Seq<u8>) -> Seq<u8> {
    flash.subrange(0, offset as int) + bytes + erased((SLOT_SIZE - bytes.len()) as nat)
        + flash.subrange(offset + SLOT_SIZE, flash.len() as int)
}

/// Two slots that do not overlap and lie inside a flash of `flash_len`
/// bytes.
pub open spec fn slots_apart(flash_len: int, offset_a: u32, offset_b: u32) -> bool {
    &&& (offset_a + SLOT_SIZE <= offset_b || offset_b + SLOT_SIZE <= offset_a)
    &&& offset_a + SLOT_SIZE <= flash_len
    &&& offset_b + SLOT_SIZE <= flash_len
}

/// The slot the next save goes to after `loaded` was loaded.
pub open spec fn save_target<V>(offset_a: u32, offset_b: u32, loaded: Option<LoadedRecord<V>>) -> u32 {
    alternate_spec(
        offset_a,
        offset_b,
        match loaded {
            Some(l) => Some(l.from_offset),
            None => None,
        },
    )
}

/// The sequence number the next save carries after `loaded` was loaded.
pub open spec fn save_seq<V>(loaded: Option<LoadedRecord<V>>) -> u64 {
    match loaded {
        Some(l) => l.seq.wrapping_add(1),
        None => 1,
    }
}

proof fn lemma_read_of_loaded<R: Record>(flash: Seq<u8>, offset_a: u32, offset_b: u32)
    requires
        offset_a != offset_b,
    ensures
        load_spec::<R>(flash, offset_a, offset_b) matches Some(l) ==> {
            &&& (l.from_offset == offset_a || l.from_offset == offset_b)
            &&& read_slot_spec::<R>(flash, l.from_offset) == Some((l.record, l.seq))
            &&& l.from_offset == offset_a ==> (read_slot_spec::<R>(flash, offset_b) matches Some(
                rb,
            ) ==> rb.1 <= l.seq)
        },
        load_spec::<R>(flash, offset_a, offset_b) is None ==> read_slot_spec::<R>(flash, offset_a)
            is None && read_slot_spec::<R>(flash, offset_b) is None,
{
}

proof fn lemma_other_slot_kept(flash: Seq<u8>, target: u32, bytes: Seq<u8>, other: u32)
    requires
        bytes.len() <= SLOT_SIZE,
        target + SLOT_SIZE <= flash.len(),
        other + SLOT_SIZE <= flash.len(),
        target + SLOT_SIZE <= other || other + SLOT_SIZE <= target,
    ensures
        write_slot_spec(flash, target, bytes).len() == flash.len(),
        slot_bytes(write_slot_spec(flash, target, bytes), other) == slot_bytes(flash, other),
{
    let saved = write_slot_spec(flash, target, bytes);
    assert(saved.len() == flash.len());
    assert(slot_bytes(saved, other) =~= slot_bytes(flash, other));
}

/// A/B saving as a whole: after loading both slots of `flash`, a save of
/// `v` writes the image of `v` with the next sequence number into the slot
/// that was not loaded from (slot A when nothing was loaded), and
/// - once that write has completed, loading gives `v` back, from that slot;
/// - the slot that was loaded from is left untouched.
/// Fails only when the loaded sequence number is `u64::MAX`, where the next
/// one wraps to 0 and the older copy would win.
pub proof fn lemma_save_then_load<R: Record>(
    flash: Seq<u8>,
    offset_a: u32,
    offset_b: u32,
    v: R::V,
    write_size: usize,
)
    requires
        slots_apart(flash.len() as int, offset_a, offset_b),
        R::encodable(v),
        !all_erased(R::MAGIC@),
        padded_len(HEADER_LEN + R::encoding(v).len(), write_size) <= MAX_PAYLOAD + HEADER_LEN,
        load_spec::<R>(flash, offset_a, offset_b) matches Some(l) ==> l.seq < u64::MAX,
    ensures
        ({
            let loaded = load_spec::<R>(flash, offset_a, offset_b);
            let target = save_target(offset_a, offset_b, loaded);
            let seq = save_seq(loaded);
            let saved = write_slot_spec(flash, target, slot_image::<R>(v, seq, write_size));
            &&& load_spec::<R>(saved, offset_a, offset_b) == Some(
                LoadedRecord { record: v, seq, from_offset: target },
            )
            &&& loaded matches Some(l) ==> target != l.from_offset && slot_bytes(
                saved,
                l.from_offset,
            ) == slot_bytes(flash, l.from_offset)
        }),
{
    let loaded = load_spec::<R>(flash, offset_a, offset_b);
    let target = save_target(offset_a, offset_b, loaded);
    let seq = save_seq(loaded);
    let image = slot_image::<R>(v, seq, write_size);
    let saved = write_slot_spec(flash, target, image);
    let other = if target == offset_a {
        offset_b
    } else {
        offset_a
    };
    lemma_read_of_loaded::<R>(flash, offset_a, offset_b);
    lemma_slot_roundtrip::<R>(v, seq, write_size);
    R::lemma_decode_encode(v);
    let len = R::encoding(v).len();
    assert(header_prefix::<R>(len, seq).len() == 16);
    assert(slot_body::<R>(v, seq).len() == HEADER_LEN + len);
    lemma_padded_len(HEADER_LEN + len, write_size);
    assert(image.len() == padded_len(HEADER_LEN + len, write_size));
    lemma_other_slot_kept(flash, target, image, other);
    // The written slot reads back as `v`.
    let s = slot_bytes(saved, target);
    assert(s =~= image + erased((SLOT_SIZE - image.len()) as nat));
    assert(s.subrange(0, HEADER_LEN as int) =~= image.subrange(0, HEADER_LEN as int));
    assert(s.subrange(HEADER_LEN as int, HEADER_LEN + len) =~= image.subrange(
        HEADER_LEN as int,
        HEADER_LEN + len,
    ));
    assert(read_slot_spec::<R>(saved, target) == Some((v, seq)));
    // The other slot reads as before.
    assert(read_slot_spec::<R>(saved, other) == read_slot_spec::<R>(flash, other));
}

/// A save that is cut short (by a power loss mid-write, say) and leaves the
/// slot it was writing unusable, while every byte outside that slot stays as
/// it was, loses nothing: loading gives what it gave before the save.
pub proof fn lemma_torn_save_keeps_loaded<R: Record>(
    flash: Seq<u8>,
    torn: Seq<u8>,
    offset_a: u32,
    offset_b: u32,
)
    requires
        slots_apart(flash.len() as int, offset_a, offset_b),
        torn.len() == flash.len(),
        ({
            let target = save_target(offset_a, offset_b, load_spec::<R>(flash, offset_a, offset_b));
            &&& forall|i: int|
                0 <= i < flash.len() && !(target <= i < target + SLOT_SIZE) ==> #[trigger] torn[i]
                    == flash[i]
            &&& read_slot_spec::<R>(torn, target) is None
        }),
    ensures
        load_spec::<R>(torn, offset_a, offset_b) == load_spec::<R>(flash, offset_a, offset_b),
{
    let loaded = load_spec::<R>(flash, offset_a, offset_b);
    let target = save_target(offset_a, offset_b, loaded);
    let other = if target == offset_a {
        offset_b
    } else {
        offset_a
    };
    lemma_read_of_loaded::<R>(flash, offset_a, offset_b);
    assert(slot_bytes(torn, other) =~= slot_bytes(flash, other));
    assert(read_slot_spec::<R>(torn, other) == read_slot_spec::<R>(flash, other));
}

} // verus!
